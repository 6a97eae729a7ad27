use aise::domain::{KnowledgeEntity, KnowledgeKind, KnowledgeSourceId, RoleId};
use aise::persistence::asset_store::{FrozenCharacterCard, FrozenStoryPack, StoryPackMeta};
use aise::persistence::knowledge::{kind_name, parse_kind, source_id_kind, validate_filter, KnowledgeFilter};
use aise::persistence::snapshot::{ensure_projection_length, parse_entity, projection_limit};
use aise::persistence::store::{
    invalid_activation_state, invalid_turn, is_constraint_code, store_error_code, store_error_from, store_status, ObservationStatus, SqliteFailure,
    StoreError, StoreSerializationErrorKind,
};
use aise::persistence::usage::{aggregate_llm_usage, LlmCallUsage, LlmUsageAggregate};
use aise::turn::KnowledgeDelivery;

fn filter(delivery: KnowledgeDelivery, kinds: Vec<KnowledgeKind>, max_item_bytes: usize) -> KnowledgeFilter {
    KnowledgeFilter { delivery, knowledge_kinds: kinds, max_item_bytes }
}

#[test]
fn knowledge_filters_respect_audience_and_limits() {
    let npc = || KnowledgeDelivery::Character { role_id: RoleId::try_new("npc".to_owned()).unwrap() };
    assert!(validate_filter(&filter(KnowledgeDelivery::Writer, vec![KnowledgeKind::Fact, KnowledgeKind::Rumor], 10)).is_ok());
    assert!(validate_filter(&filter(npc(), vec![KnowledgeKind::Rumor, KnowledgeKind::Memory], 10)).is_ok());
    assert!(matches!(
        validate_filter(&filter(KnowledgeDelivery::Writer, Vec::new(), 10)),
        Err(StoreError::ConstraintViolation { constraint }) if constraint == "knowledge_kinds_empty"
    ));
    assert!(matches!(
        validate_filter(&filter(KnowledgeDelivery::Writer, vec![KnowledgeKind::Fact], 0)),
        Err(StoreError::LimitExceeded { limit: "max_item_bytes" })
    ));
    assert!(matches!(
        validate_filter(&filter(KnowledgeDelivery::Writer, vec![KnowledgeKind::Memory], 10)),
        Err(StoreError::ConstraintViolation { constraint }) if constraint == "memory_forbidden_for_writer_delivery"
    ));
    assert!(matches!(
        validate_filter(&filter(npc(), vec![KnowledgeKind::Fact], 10)),
        Err(StoreError::ConstraintViolation { constraint }) if constraint == "fact_forbidden_for_character_delivery"
    ));
}

#[test]
fn stored_kinds_read_back() {
    for kind in [KnowledgeKind::Fact, KnowledgeKind::Rumor, KnowledgeKind::Memory] {
        assert_eq!(parse_kind(kind_name(kind)).unwrap(), kind);
    }
    assert!(matches!(
        parse_kind("legend"),
        Err(StoreError::Serialization { kind: StoreSerializationErrorKind::InvalidStoryState })
    ));
    assert_eq!(source_id_kind(&KnowledgeSourceId::Memory("m".to_owned())), KnowledgeKind::Memory);
}

#[test]
fn stored_entities_read_back() {
    assert_eq!(parse_entity("scene", "s1").unwrap(), KnowledgeEntity::Scene("s1".to_owned()));
    assert_eq!(
        parse_entity("role", "npc").unwrap(),
        KnowledgeEntity::Role(RoleId::try_new("npc".to_owned()).unwrap())
    );
    assert!(parse_entity("role", " ").is_err());
    assert!(parse_entity("planet", "x").is_err());
}

#[test]
fn projection_limits_guard_overflow_and_length() {
    assert_eq!(projection_limit(3, 10, 5).unwrap(), 35);
    assert!(matches!(
        projection_limit(usize::MAX, 2, 0),
        Err(StoreError::LimitExceeded { limit: "snapshot_projection" })
    ));
    assert!(ensure_projection_length(3, 3, "roles").is_ok());
    assert!(matches!(ensure_projection_length(4, 3, "roles"), Err(StoreError::LimitExceeded { limit: "roles" })));
    assert!(matches!(ensure_projection_length(-1, 3, "roles"), Err(StoreError::Serialization { .. })));
}

#[test]
fn store_errors_have_codes_and_statuses() {
    assert_eq!(store_error_code(&StoreError::NotFound), "story_not_found");
    assert_eq!(store_error_code(&StoreError::Unavailable), "store_unavailable");
    assert_eq!(store_status(&StoreError::RevisionConflict), ObservationStatus::Conflict);
    assert_eq!(store_status(&StoreError::NotFound), ObservationStatus::Error);
}

#[test]
fn database_failures_map_to_store_errors() {
    assert!(is_constraint_code("2067"));
    assert!(!is_constraint_code("5"));
    assert!(matches!(
        store_error_from(&SqliteFailure::Database { code: Some("787".to_owned()) }),
        StoreError::ConstraintViolation { constraint } if constraint == "787"
    ));
    assert!(matches!(store_error_from(&SqliteFailure::Database { code: Some("5".to_owned()) }), StoreError::Unavailable));
    assert!(matches!(store_error_from(&SqliteFailure::Io), StoreError::Unavailable));
    assert!(matches!(
        store_error_from(&SqliteFailure::Json),
        StoreError::Serialization { kind: StoreSerializationErrorKind::InvalidStoryState }
    ));
}

#[test]
fn frozen_references_copy_identity() {
    let pack = FrozenStoryPack {
        pack_id: "p1".to_owned(),
        meta: StoryPackMeta { pack_key: "key".to_owned(), version: "1.0.0".to_owned() },
        digest: "sha256:00".to_owned(),
    };
    let r = pack.frozen_ref();
    assert_eq!((r.pack_id.as_str(), r.pack_key.as_str(), r.version.as_str()), ("p1", "key", "1.0.0"));
    let card = FrozenCharacterCard { character_id: "c1".to_owned(), version: "2".to_owned(), digest: "d".to_owned() };
    assert_eq!(card.frozen_ref().character_id, "c1");
}

#[test]
fn usage_adds_up_calls_and_tokens() {
    let calls = vec![
        LlmCallUsage { input_tokens: 10, output_tokens: 5, total_tokens: 15 },
        LlmCallUsage { input_tokens: 7, output_tokens: 3, total_tokens: 10 },
    ];
    let total = aggregate_llm_usage(&calls).unwrap();
    assert_eq!(total, LlmUsageAggregate { llm_calls: 2, input_tokens: 17, output_tokens: 8, total_tokens: 25 });
    let none = aggregate_llm_usage(&Vec::new()).unwrap();
    assert_eq!(none, LlmUsageAggregate { llm_calls: 0, input_tokens: 0, output_tokens: 0, total_tokens: 0 });
}

#[test]
fn usage_overflow_names_the_counter() {
    let calls = vec![
        LlmCallUsage { input_tokens: 1, output_tokens: u64::MAX, total_tokens: 1 },
        LlmCallUsage { input_tokens: 1, output_tokens: 1, total_tokens: 1 },
    ];
    assert!(matches!(aggregate_llm_usage(&calls), Err(StoreError::LimitExceeded { limit: "llm_output_tokens" })));
    let calls = vec![
        LlmCallUsage { input_tokens: u64::MAX, output_tokens: 0, total_tokens: u64::MAX },
        LlmCallUsage { input_tokens: 1, output_tokens: 0, total_tokens: 1 },
    ];
    assert!(matches!(aggregate_llm_usage(&calls), Err(StoreError::LimitExceeded { limit: "llm_input_tokens" })));
}

#[test]
fn unreadable_turns_and_activation_state_have_their_kinds() {
    assert!(matches!(invalid_turn(), StoreError::Serialization { kind: StoreSerializationErrorKind::InvalidTurnResult }));
    assert!(matches!(
        invalid_activation_state(),
        StoreError::Serialization { kind: StoreSerializationErrorKind::InvalidWorldState }
    ));
}
