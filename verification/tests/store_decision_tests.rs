use aise::domain::{KnowledgeEntity, KnowledgeKind, KnowledgeSourceId, RoleId};
use aise::persistence::activation::{
    check_activation_snapshot, plan_activation_entries, plan_pack_entries, ActivationEntryRecord,
    ActivationIndexLimits, ActivationSnapshotRow, PackEntryRecord,
};
use aise::persistence::commit::{
    commit_gate, knowledge_mutation_affects_activation, plan_commit, CommitClaim, CommitDecision,
    DeletableKnowledgeKind, KnowledgeOperation, NarrativeTransition, NodeState, RelationshipOperation,
    StoredStoryState, StoredTurn, TransitionKind,
};
use aise::persistence::history::{
    assemble_history_page, assemble_opening, history_bounds, history_fetch_limit, OpeningRecord, StoryHistoryConfig,
    StoryHistoryQuery, TurnRecord,
};
use aise::planning::writer_planner::{TurnFailureKind, TurnStage};
use aise::persistence::instance::{story_instance_rows, EMPTY_STORY_SUMMARY};
use aise::persistence::knowledge_write::{
    merge_knowledge_update, plan_knowledge_mutation, KnowledgeEntry, KnowledgeMutation, KnowledgeWrite,
};
use aise::persistence::snapshot::{
    assemble_entity_catalog, assemble_recent_segments, assemble_story_snapshot, check_pack_contents, check_snapshot_measures,
    check_snapshot_projection, entity_query_limit, segment_query_bounds, InstanceProjectionLengths,
    PackProjectionLengths, SegmentOrigin, SegmentRecord, SnapshotLimits, SnapshotMeasures, StoredSnapshotRow,
};
use aise::persistence::store::{StoreError, StoreSerializationErrorKind};
use aise::persistence::usage::LlmCallUsage;

fn strings(v: &[&str]) -> Vec<String> {
    v.iter().map(|s| (*s).to_owned()).collect()
}

fn state() -> StoredStoryState {
    StoredStoryState {
        revision: 4,
        last_turn_number: 2,
        role_ids: strings(&["alice", "bob"]),
        next_sequence: 4,
        relationship_keys: strings(&["alice|bob"]),
        graph_revision: 7,
        node_states: vec![("intro".to_owned(), NodeState::Active), ("climax".to_owned(), NodeState::Inactive)],
    }
}

fn claim() -> CommitClaim {
    CommitClaim {
        request_digest: "d1".to_owned(),
        base_revision: 4,
        turn_number: 3,
        expected_graph_revision: 7,
        new_role_ids: strings(&["carol"]),
        changed_role_ids: strings(&["alice", "carol"]),
        relationship_operations: vec![
            RelationshipOperation::Update { key: "alice|bob".to_owned(), new_key: "alice|bob".to_owned() },
            RelationshipOperation::Add { key: "alice|carol".to_owned() },
        ],
        event_turn_numbers: vec![3, 3],
        llm_calls: vec![
            LlmCallUsage { input_tokens: 10, output_tokens: 5, total_tokens: 15 },
            LlmCallUsage { input_tokens: 1, output_tokens: 2, total_tokens: 3 },
        ],
        transitions: Vec::new(),
        next_graph_revision: 8,
    }
}

fn constraint_of(r: Result<CommitDecision, StoreError>) -> String {
    match r {
        Err(StoreError::ConstraintViolation { constraint }) => constraint,
        other => panic!("expected a constraint violation, got {other:?}"),
    }
}

#[test]
fn commit_applies_the_next_revision_with_usage() {
    match plan_commit(None, Some(state()), &claim()).unwrap() {
        CommitDecision::Apply { committed_revision, turn_number, sequence, usage, node_states, activated_nodes, graph_revision } => {
            assert_eq!(committed_revision, 5);
            assert_eq!(turn_number, 3);
            assert_eq!(sequence, 4);
            assert_eq!(node_states.len(), 2);
            assert!(activated_nodes.is_empty());
            assert_eq!(graph_revision, 7);
            assert_eq!(usage.llm_calls, 2);
            assert_eq!(usage.input_tokens, 11);
            assert_eq!(usage.output_tokens, 7);
            assert_eq!(usage.total_tokens, 18);
        }
        other => panic!("expected apply, got {other:?}"),
    }
}

#[test]
fn commit_replays_a_matching_digest_and_refuses_another() {
    let stored = StoredTurn { request_digest: "d1".to_owned(), result_json: "{\"ok\":true}".to_owned() };
    match plan_commit(Some(stored.clone()), None, &claim()).unwrap() {
        CommitDecision::Replay { result_json } => assert_eq!(result_json, "{\"ok\":true}"),
        other => panic!("expected replay, got {other:?}"),
    }
    let other = StoredTurn { request_digest: "d2".to_owned(), ..stored };
    assert!(matches!(plan_commit(Some(other), Some(state()), &claim()), Err(StoreError::IdempotencyConflict)));
}

#[test]
fn commit_checks_story_revision_turn_and_graph() {
    assert!(matches!(plan_commit(None, None, &claim()), Err(StoreError::NotFound)));
    let mut c = claim();
    c.base_revision = 3;
    assert!(matches!(plan_commit(None, Some(state()), &c), Err(StoreError::RevisionConflict)));
    let mut c = claim();
    c.turn_number = 4;
    assert!(matches!(plan_commit(None, Some(state()), &c), Err(StoreError::RevisionConflict)));
    let mut c = claim();
    c.expected_graph_revision = 8;
    assert!(matches!(plan_commit(None, Some(state()), &c), Err(StoreError::RevisionConflict)));
    let mut s = state();
    s.last_turn_number = -1;
    assert!(matches!(plan_commit(None, Some(s), &claim()), Err(StoreError::RevisionConflict)));
    let mut s = state();
    s.revision = i64::MAX;
    let mut c = claim();
    c.base_revision = i64::MAX as u64;
    assert!(plan_commit(None, Some(s), &c).is_ok());
}

#[test]
fn commit_checks_roles_relationships_events_and_usage() {
    let mut c = claim();
    c.new_role_ids = strings(&["bob"]);
    assert_eq!(constraint_of(plan_commit(None, Some(state()), &c)), "new_role_id_collision");
    let mut c = claim();
    c.changed_role_ids = strings(&["dave"]);
    assert_eq!(constraint_of(plan_commit(None, Some(state()), &c)), "role_change_reference");
    let mut c = claim();
    c.relationship_operations = vec![RelationshipOperation::Add { key: "alice|bob".to_owned() }];
    assert_eq!(constraint_of(plan_commit(None, Some(state()), &c)), "relationship_add_collision");
    let mut c = claim();
    c.relationship_operations =
        vec![RelationshipOperation::Update { key: "alice|bob".to_owned(), new_key: "bob|alice".to_owned() }];
    assert_eq!(constraint_of(plan_commit(None, Some(state()), &c)), "relationship_change_reference");
    let mut c = claim();
    c.event_turn_numbers = vec![3, 2];
    assert_eq!(constraint_of(plan_commit(None, Some(state()), &c)), "event_turn_reference");
    let mut c = claim();
    c.llm_calls = vec![
        LlmCallUsage { input_tokens: u64::MAX, output_tokens: 0, total_tokens: 0 },
        LlmCallUsage { input_tokens: 1, output_tokens: 0, total_tokens: 0 },
    ];
    assert!(matches!(plan_commit(None, Some(state()), &c), Err(StoreError::LimitExceeded { .. })));
}

#[test]
fn commit_gate_orders_its_refusals() {
    let events = strings(&["dialogue", "chapter"]);
    let none: Vec<KnowledgeOperation> = Vec::new();
    let gate = |ready, c: Option<&u8>, s: Option<&u8>, a: Option<&u8>| {
        commit_gate(ready, c, s, a, "story", 3, &events, &none, 0)
    };
    let rejected = gate(false, Some(&1), Some(&1), Some(&1)).unwrap_err();
    assert_eq!(rejected.code, "commit_gate_rejected");
    assert_eq!(rejected.kind, TurnFailureKind::InvariantViolation);
    assert_eq!(rejected.stage, TurnStage::TurnCommitter);
    assert_eq!(gate(true, None, None, None).unwrap_err().stage, TurnStage::TurnCommitter);
    assert_eq!(gate(true, None, Some(&1), Some(&1)).unwrap_err().code, "missing_change_set");
    assert_eq!(gate(true, Some(&1), None, Some(&1)).unwrap_err().code, "missing_snapshot");
    assert_eq!(gate(true, Some(&1), Some(&1), None).unwrap_err().code, "missing_activation");
    let ok = gate(true, Some(&1), Some(&1), Some(&1)).unwrap();
    assert_eq!(ok.outbox.len(), 2);
    assert_eq!(ok.outbox[0].id, "story:turn:3:outbox:0");
    assert_eq!(ok.outbox[1].id, "story:turn:3:outbox:1");
    assert_eq!(ok.outbox[1].event_type, "story_event.chapter");
    assert_eq!(ok.overlay_version_after, 0);
}

#[test]
fn commit_gate_moves_the_overlay_on_activation_changes() {
    let events: Vec<String> = Vec::new();
    let world = vec![KnowledgeOperation::Add(KnowledgeKind::Fact)];
    let memory = vec![KnowledgeOperation::Add(KnowledgeKind::Memory), KnowledgeOperation::Delete(DeletableKnowledgeKind::Memory)];
    assert!(knowledge_mutation_affects_activation(&KnowledgeOperation::Delete(DeletableKnowledgeKind::Rumor)));
    assert!(!knowledge_mutation_affects_activation(&memory[0]));
    let g = commit_gate(true, Some(&0u8), Some(&0u8), Some(&0u8), "s", 1, &events, &world, 4).unwrap();
    assert_eq!(g.overlay_version_after, 5);
    let g = commit_gate(true, Some(&0u8), Some(&0u8), Some(&0u8), "s", 1, &events, &world, u64::MAX).unwrap();
    assert_eq!(g.overlay_version_after, u64::MAX);
    let g = commit_gate(true, Some(&0u8), Some(&0u8), Some(&0u8), "s", 1, &events, &memory, 4).unwrap();
    assert_eq!(g.overlay_version_after, 4);
}

fn fact(id: &str, key: &str, body: &str) -> KnowledgeEntry<String> {
    KnowledgeEntry::Fact { id: id.to_owned(), key: key.to_owned(), body: body.to_owned() }
}

fn memory(owner: &str, body: &str) -> KnowledgeEntry<String> {
    KnowledgeEntry::Memory { id: "memory_0001".to_owned(), owner: owner.to_owned(), created_at_ms: 5, body: body.to_owned() }
}

#[test]
fn knowledge_updates_keep_identity_and_owner() {
    match merge_knowledge_update(fact("fact_0001", "gate", "old"), fact("fact_0009", "other", "new")).unwrap() {
        KnowledgeEntry::Fact { id, key, body } => {
            assert_eq!((id.as_str(), key.as_str(), body.as_str()), ("fact_0001", "gate", "new"));
        }
        other => panic!("expected a fact, got {other:?}"),
    }
    match merge_knowledge_update(memory("alice", "old"), memory("alice", "new")).unwrap() {
        KnowledgeEntry::Memory { owner, created_at_ms, body, .. } => {
            assert_eq!((owner.as_str(), created_at_ms, body.as_str()), ("alice", 5, "new"));
        }
        other => panic!("expected a memory, got {other:?}"),
    }
    assert!(matches!(
        merge_knowledge_update(memory("alice", "old"), memory("bob", "new")),
        Err(StoreError::ConstraintViolation { constraint }) if constraint == "knowledge_memory_owner_immutable"
    ));
    assert!(matches!(
        merge_knowledge_update(fact("fact_0001", "gate", "old"), memory("alice", "new")),
        Err(StoreError::ConstraintViolation { constraint }) if constraint == "knowledge_update_kind_mismatch"
    ));
}

#[test]
fn knowledge_mutations_need_their_targets() {
    assert!(matches!(
        plan_knowledge_mutation(None, KnowledgeMutation::Add(fact("fact_0002", "k", "b"))),
        Ok(KnowledgeWrite::Insert(KnowledgeEntry::Fact { .. }))
    ));
    assert!(matches!(
        plan_knowledge_mutation(None, KnowledgeMutation::Update(fact("fact_0002", "k", "b"))),
        Err(StoreError::ConstraintViolation { constraint }) if constraint == "knowledge_update_target_missing"
    ));
    assert!(matches!(
        plan_knowledge_mutation::<String>(None, KnowledgeMutation::Delete),
        Err(StoreError::ConstraintViolation { constraint }) if constraint == "knowledge_delete_target_missing"
    ));
    assert!(matches!(
        plan_knowledge_mutation(Some(fact("fact_0002", "k", "b")), KnowledgeMutation::Delete),
        Ok(KnowledgeWrite::Remove)
    ));
    match plan_knowledge_mutation(Some(fact("fact_0002", "k", "b")), KnowledgeMutation::Update(fact("x", "y", "c"))) {
        Ok(KnowledgeWrite::Replace(KnowledgeEntry::Fact { id, key, body })) => {
            assert_eq!((id.as_str(), key.as_str(), body.as_str()), ("fact_0002", "k", "c"));
        }
        other => panic!("expected a replacement, got {other:?}"),
    }
}

#[test]
fn new_story_instance_starts_at_revision_zero() {
    let roles = vec![
        (RoleId::try_new("guard".to_owned()).unwrap(), false),
        (RoleId::try_new("hero".to_owned()).unwrap(), true),
        (RoleId::try_new("zed".to_owned()).unwrap(), true),
    ];
    let knowledge = vec![KnowledgeSourceId::Fact("fact_0001".to_owned()), KnowledgeSourceId::Rumor("rumor_0001".to_owned())];
    let rows = story_instance_rows("s1", &roles, "Once upon a time.", 42, &knowledge);
    assert_eq!(rows.info.story_id, "s1");
    assert_eq!(rows.info.created_at_ms, 42);
    assert_eq!(rows.info.base_revision, 0);
    assert_eq!(rows.info.last_committed_turn_number, 0);
    assert_eq!(rows.story.id, "s1");
    assert_eq!(rows.story.revision, 0);
    assert_eq!(rows.story.player_role_id.as_deref(), Some("hero"));
    assert_eq!(rows.story.created_at_ms, 42);
    assert_eq!(rows.story.story_summary, EMPTY_STORY_SUMMARY);
    assert_eq!(rows.opening.id, "s1:opening");
    assert_eq!(rows.opening.sequence, 1);
    assert_eq!(rows.opening.origin, "opening");
    assert_eq!(rows.opening.story_text, "Once upon a time.");
    assert_eq!(rows.knowledge.len(), 2);
    assert_eq!(rows.knowledge[0].knowledge_kind, "fact");
    assert_eq!(rows.knowledge[1].knowledge_kind, "rumor");
    assert_eq!(rows.knowledge[1].source_id, "rumor_0001");
    let alone = story_instance_rows("s2", &vec![(RoleId::try_new("guard".to_owned()).unwrap(), false)], "", 0, &Vec::new());
    assert!(alone.story.player_role_id.is_none());
    assert!(alone.knowledge.is_empty());
}

fn limits() -> SnapshotLimits {
    SnapshotLimits {
        max_instance_settings: 4,
        max_instance_setting_bytes: 10,
        max_roles: 2,
        max_role_bytes: 100,
        max_relationships: 3,
        max_narrative_nodes: 5,
        max_condition_fact_values: 2,
        max_constraint_bytes: 50,
        max_constraints: 2,
        max_scene_roles: 3,
        max_scene_bytes: 200,
        max_story_profile_bytes: 300,
        max_topics: 2,
        max_topic_aliases_per_topic: 1,
        max_summary_bytes: 100,
        max_recent_segments: 2,
        max_recent_segment_bytes: 5,
        max_entity_catalog: 3,
    }
}

fn lengths() -> InstanceProjectionLengths {
    InstanceProjectionLengths {
        settings: 1064,
        roles: 1224,
        relationships: 10,
        narrative_state: 10,
        fact_values: 10,
        current_scene: 968,
        story_summary: 356,
        active_constraints: 10,
    }
}

fn pack_lengths() -> PackProjectionLengths {
    PackProjectionLengths { story_profile: 300, narrative_definition: 10, topic_dictionary: 1424 }
}

fn limit_of<T: std::fmt::Debug>(r: Result<T, StoreError>) -> &'static str {
    match r {
        Err(StoreError::LimitExceeded { limit }) => limit,
        other => panic!("expected a limit, got {other:?}"),
    }
}

#[test]
fn snapshot_projections_are_held_to_their_limits() {
    assert!(check_snapshot_projection(Some(lengths()), Some(pack_lengths()), &limits()).is_ok());
    assert!(matches!(check_snapshot_projection(None, Some(pack_lengths()), &limits()), Err(StoreError::NotFound)));
    assert!(matches!(check_snapshot_projection(Some(lengths()), None, &limits()), Err(StoreError::NotFound)));
    let mut l = lengths();
    l.settings = 1065;
    assert_eq!(limit_of(check_snapshot_projection(Some(l), None, &limits())), "settings_json");
    let mut l = lengths();
    l.current_scene = 969;
    assert_eq!(limit_of(check_snapshot_projection(Some(l), Some(pack_lengths()), &limits())), "current_scene");
    let mut l = lengths();
    l.story_summary = 357;
    assert_eq!(limit_of(check_snapshot_projection(Some(l), Some(pack_lengths()), &limits())), "story_summary");
    let mut l = lengths();
    l.roles = -1;
    assert!(matches!(
        check_snapshot_projection(Some(l), Some(pack_lengths()), &limits()),
        Err(StoreError::Serialization { kind: StoreSerializationErrorKind::InvalidStoryState })
    ));
    let mut p = pack_lengths();
    p.topic_dictionary = 1425;
    assert_eq!(limit_of(check_snapshot_projection(Some(lengths()), Some(p), &limits())), "topic_dictionary_json");
    let mut p = pack_lengths();
    p.story_profile = 301;
    assert_eq!(limit_of(check_snapshot_projection(Some(lengths()), Some(p), &limits())), "story_profile_json");
    let mut big = limits();
    big.max_roles = usize::MAX;
    assert_eq!(limit_of(check_snapshot_projection(Some(lengths()), None, &big)), "snapshot_projection");
    let mut big = limits();
    big.max_summary_bytes = usize::MAX;
    assert_eq!(limit_of(check_snapshot_projection(Some(lengths()), None, &big)), "story_summary");
    let mut big = limits();
    big.max_topic_aliases_per_topic = usize::MAX;
    assert_eq!(limit_of(check_snapshot_projection(Some(lengths()), Some(pack_lengths()), &big)), "topic_dictionary_json");
}

fn measures() -> SnapshotMeasures {
    SnapshotMeasures {
        role_bytes: Some(vec![Some(100), Some(3)]),
        relationship_count: Some(3),
        narrative_state_decoded: true,
        fact_values_decoded: true,
        scene_bytes_and_roles: Some((200, 3)),
        summary_decoded: true,
        constraint_count: Some(2),
    }
}

fn violated<T: std::fmt::Debug>(r: Result<T, StoreError>) -> String {
    match r {
        Err(StoreError::ConstraintViolation { constraint }) => constraint,
        other => panic!("expected a constraint violation, got {other:?}"),
    }
}

#[test]
fn decoded_snapshot_is_held_to_its_limits() {
    assert!(check_snapshot_measures(&measures(), &limits()).is_ok());
    let mut m = measures();
    m.role_bytes = Some(vec![Some(1), Some(1), Some(1)]);
    assert_eq!(violated(check_snapshot_measures(&m, &limits())), "max_roles");
    let mut m = measures();
    m.role_bytes = Some(vec![Some(101), None]);
    assert_eq!(violated(check_snapshot_measures(&m, &limits())), "max_role_bytes");
    let mut m = measures();
    m.role_bytes = Some(vec![None, Some(101)]);
    assert!(matches!(
        check_snapshot_measures(&m, &limits()),
        Err(StoreError::Serialization { kind: StoreSerializationErrorKind::InvalidRoleState })
    ));
    let mut m = measures();
    m.scene_bytes_and_roles = Some((201, 4));
    assert_eq!(violated(check_snapshot_measures(&m, &limits())), "max_scene_bytes");
    let mut m = measures();
    m.scene_bytes_and_roles = Some((1, 4));
    assert_eq!(violated(check_snapshot_measures(&m, &limits())), "max_scene_roles");
    let mut m = measures();
    m.constraint_count = Some(3);
    assert_eq!(violated(check_snapshot_measures(&m, &limits())), "max_constraints");
    let mut m = measures();
    m.relationship_count = Some(4);
    m.summary_decoded = false;
    assert_eq!(violated(check_snapshot_measures(&m, &limits())), "max_relationships");
    let mut m = measures();
    m.fact_values_decoded = false;
    m.constraint_count = Some(9);
    assert!(matches!(
        check_snapshot_measures(&m, &limits()),
        Err(StoreError::Serialization { kind: StoreSerializationErrorKind::InvalidStoryState })
    ));
    assert!(check_pack_contents(&vec![1, 0], 300, &limits()).is_ok());
    assert_eq!(violated(check_pack_contents(&vec![0, 0, 0], 0, &limits())), "max_topics");
    assert_eq!(violated(check_pack_contents(&vec![0, 2], 0, &limits())), "max_topic_aliases_per_topic");
    assert_eq!(violated(check_pack_contents(&vec![], 301, &limits())), "max_story_profile_bytes");
}

fn segment(origin: &str, turn: Option<&str>, sequence: i64, text: &str) -> SegmentRecord {
    SegmentRecord { origin: origin.to_owned(), turn_id: turn.map(str::to_owned), sequence, story_text: text.to_owned() }
}

#[test]
fn recent_segments_follow_the_summary_in_order() {
    let rows = vec![segment("opening", None, 2, "a"), segment("turn", Some("t1"), 3, "bb")];
    let segs = assemble_recent_segments(1, rows.clone(), &limits()).unwrap();
    assert_eq!(segs.len(), 2);
    assert_eq!(segs[0].sequence, 2);
    assert!(matches!(segs[0].origin, SegmentOrigin::Opening));
    assert!(matches!(&segs[1].origin, SegmentOrigin::Turn { turn_id } if turn_id == "t1"));
    assert_eq!(segs[1].text.as_str(), "bb");
    let three = vec![rows[0].clone(), rows[1].clone(), segment("turn", Some("t2"), 4, "c")];
    assert_eq!(limit_of(assemble_recent_segments(1, three, &limits())), "max_recent_segments");
    let bad = vec![segment("turn", None, 2, "a")];
    assert!(matches!(
        assemble_recent_segments(1, bad, &limits()),
        Err(StoreError::Serialization { kind: StoreSerializationErrorKind::InvalidTurnResult })
    ));
    let long = vec![segment("opening", None, 2, "toolong")];
    assert_eq!(violated(assemble_recent_segments(1, long, &limits())), "max_recent_segment_bytes");
    let behind = vec![segment("opening", None, 1, "a")];
    assert_eq!(violated(assemble_recent_segments(1, behind, &limits())), "story_continuity");
    let unordered = vec![segment("turn", Some("t"), 3, "a"), segment("turn", Some("u"), 3, "b")];
    assert_eq!(violated(assemble_recent_segments(0, unordered, &limits())), "story_continuity");
    assert_eq!(segment_query_bounds(7, &limits()).unwrap(), (7, 3));
    assert!(matches!(
        segment_query_bounds(u64::MAX, &limits()),
        Err(StoreError::Serialization { kind: StoreSerializationErrorKind::InvalidTurnResult })
    ));
    let mut big = limits();
    big.max_recent_segments = usize::MAX;
    assert_eq!(limit_of(segment_query_bounds(0, &big)), "max_recent_segments");
}

#[test]
fn entity_catalog_is_sorted_and_distinct() {
    let rows = vec![
        ("role".to_owned(), "bob".to_owned()),
        ("world".to_owned(), "sky".to_owned()),
        ("role".to_owned(), "alice".to_owned()),
    ];
    let mut more = rows.clone();
    more.push(("role".to_owned(), "bob".to_owned()));
    assert_eq!(limit_of(assemble_entity_catalog(&more, &limits())), "max_entity_catalog");
    let mut dup = rows.clone();
    dup[1] = ("role".to_owned(), "bob".to_owned());
    let catalog = assemble_entity_catalog(&dup, &limits()).unwrap();
    assert_eq!(catalog.len(), 2);
    let catalog = assemble_entity_catalog(&rows, &limits()).unwrap();
    assert_eq!(catalog.len(), 3);
    assert!(matches!(&catalog[0], KnowledgeEntity::World(k) if k == "sky"));
    assert!(matches!(&catalog[1], KnowledgeEntity::Role(r) if r.as_str() == "alice"));
    assert!(matches!(&catalog[2], KnowledgeEntity::Role(r) if r.as_str() == "bob"));
    let bad = vec![("planet".to_owned(), "x".to_owned())];
    assert!(matches!(
        assemble_entity_catalog(&bad, &limits()),
        Err(StoreError::Serialization { kind: StoreSerializationErrorKind::InvalidStoryState })
    ));
    assert_eq!(entity_query_limit(&limits()).unwrap(), 4);
}

fn entry(kind: &str, seed: Option<Option<&str>>, salience: i64) -> ActivationEntryRecord {
    ActivationEntryRecord {
        kind: kind.to_owned(),
        source_id: format!("{kind}_0001"),
        seed_pack_digest: seed.map(|d| d.map(str::to_owned)),
        rule_decoded: true,
        rule_version_valid: true,
        salience,
    }
}

#[test]
fn activation_index_checks_revision_and_overlay() {
    let row = Some(ActivationSnapshotRow { revision: 3, pack_digest: "abc".to_owned(), overlay_version: 1 });
    assert!(check_activation_snapshot(&row, 3, "abc").is_ok());
    assert!(matches!(check_activation_snapshot(&row, 2, "abc"), Err(StoreError::RevisionConflict)));
    assert!(matches!(check_activation_snapshot(&row, 3, "abd"), Err(StoreError::RevisionConflict)));
    assert!(matches!(check_activation_snapshot(&None, 3, "abc"), Err(StoreError::NotFound)));
    let limits = ActivationIndexLimits { max_entries: 3, max_overlay_entries: 1 };
    let rows = vec![entry("fact", Some(Some("abc")), 5), entry("rumor", Some(None), 255)];
    let (plans, overlay) = plan_activation_entries(2, &rows, "abc", 9, &limits).unwrap();
    assert_eq!(overlay, 9);
    assert_eq!(plans[0].source_id, KnowledgeSourceId::Fact("fact_0001".to_owned()));
    assert_eq!(plans[1].source_id, KnowledgeSourceId::Rumor("rumor_0001".to_owned()));
    let mut blank_id = rows.clone();
    blank_id[1].source_id = " ".to_owned();
    assert!(matches!(
        plan_activation_entries(2, &blank_id, "abc", 9, &limits),
        Err(StoreError::Serialization { kind: StoreSerializationErrorKind::InvalidWorldState })
    ));
    assert!(plans[0].from_pack && !plans[1].from_pack);
    assert_eq!(plans[1].kind, KnowledgeKind::Rumor);
    assert_eq!(plans[1].salience, 255);
    let two_overlay = vec![entry("fact", Some(Some("old")), 5), entry("rumor", Some(None), 1)];
    assert_eq!(limit_of(plan_activation_entries(2, &two_overlay, "abc", 9, &limits)), "max_overlay_entries");
    assert_eq!(limit_of(plan_activation_entries(4, &rows, "abc", 9, &limits)), "max_entries");
    assert_eq!(limit_of(plan_activation_entries(-1, &rows, "abc", 9, &limits)), "max_entries");
    let loud = vec![entry("fact", Some(None), 256)];
    assert!(matches!(
        plan_activation_entries(1, &loud, "abc", 9, &limits),
        Err(StoreError::Serialization { kind: StoreSerializationErrorKind::InvalidWorldState })
    ));
    assert!(matches!(
        plan_activation_entries(2, &rows, "abc", -1, &limits),
        Err(StoreError::Serialization { kind: StoreSerializationErrorKind::InvalidWorldState })
    ));
    let pack = vec![
        PackEntryRecord { kind: "fact".to_owned(), salience: 1, rule_decoded: true },
        PackEntryRecord { kind: "rumor".to_owned(), salience: 2, rule_decoded: true },
    ];
    let plans = plan_pack_entries(&pack, &limits).unwrap();
    assert!(plans.iter().all(|p| p.from_pack));
    assert_eq!(plans[0].kind, KnowledgeKind::Fact);
    let memory = vec![PackEntryRecord { kind: "memory".to_owned(), salience: 1, rule_decoded: true }];
    assert!(matches!(
        plan_pack_entries(&memory, &limits),
        Err(StoreError::Serialization { kind: StoreSerializationErrorKind::InvalidWorldState })
    ));
    let many = vec![pack[0].clone(), pack[0].clone(), pack[0].clone(), pack[0].clone()];
    assert_eq!(limit_of(plan_pack_entries(&many, &limits)), "max_entries");
}

fn transition(key: &str, kind: TransitionKind) -> NarrativeTransition {
    NarrativeTransition { node_key: key.to_owned(), kind }
}

#[test]
fn commit_moves_narrative_nodes_from_the_states_they_need() {
    let mut c = claim();
    c.transitions = vec![
        transition("intro", TransitionKind::Complete),
        transition("climax", TransitionKind::Activate),
        transition("climax", TransitionKind::Skip),
        transition("epilogue", TransitionKind::Activate),
    ];
    match plan_commit(None, Some(state()), &c).unwrap() {
        CommitDecision::Apply { node_states, activated_nodes, graph_revision, .. } => {
            assert_eq!(graph_revision, 8);
            assert_eq!(activated_nodes, vec!["climax".to_owned(), "epilogue".to_owned()]);
            let last = |key: &str| node_states.iter().rev().find(|(k, _)| k == key).map(|(_, s)| *s);
            assert_eq!(last("intro"), Some(NodeState::Completed));
            assert_eq!(last("climax"), Some(NodeState::Skipped));
            assert_eq!(last("epilogue"), Some(NodeState::Active));
        }
        other => panic!("expected apply, got {other:?}"),
    }
    let mut c = claim();
    c.transitions = vec![transition("intro", TransitionKind::Activate)];
    assert!(matches!(plan_commit(None, Some(state()), &c), Err(StoreError::RevisionConflict)));
    let mut c = claim();
    c.transitions = vec![transition("ghost", TransitionKind::Complete)];
    assert!(matches!(plan_commit(None, Some(state()), &c), Err(StoreError::RevisionConflict)));
    let mut s = state();
    s.next_sequence = 0;
    assert_eq!(limit_of(plan_commit(None, Some(s), &claim())), "turn_sequence");
}

#[test]
fn snapshot_is_read_at_the_stored_revision_and_pack() {
    let row = StoredSnapshotRow {
        revision: 6,
        pack_id: "p1".to_owned(),
        pack_key: "demo".to_owned(),
        pack_version: "1.0.0".to_owned(),
        pack_digest: "abc".to_owned(),
    };
    let snap = assemble_story_snapshot("s1", Some(row), Vec::new(), Vec::new()).unwrap();
    assert_eq!(snap.base_revision, 6);
    assert_eq!(snap.pack.digest, "abc");
    assert_eq!(snap.pack.version, "1.0.0");
    assert_eq!(snap.knowledge.pack_digest, "abc");
    assert_eq!(snap.knowledge.base_revision, 6);
    assert_eq!(snap.knowledge.story_id, "s1");
    assert!(matches!(assemble_story_snapshot("s1", None, Vec::new(), Vec::new()), Err(StoreError::NotFound)));
}

fn history_config() -> StoryHistoryConfig {
    StoryHistoryConfig { max_page_size: 3, max_player_input_bytes: 5, max_story_text_bytes: 8 }
}

fn turn_record(number: i64, sequence: i64, input: &str, text: &str) -> TurnRecord {
    TurnRecord { turn_number: number, sequence, player_contribution: input.to_owned(), story_text: text.to_owned(), created_at: 1 }
}

#[test]
fn history_pages_through_turns() {
    let query = StoryHistoryQuery { after_sequence: Some(1), limit: 2 };
    assert_eq!(history_fetch_limit(&query, &history_config()).unwrap(), 3);
    assert_eq!(history_bounds(&query, 3).unwrap(), (1, 3));
    assert_eq!(history_bounds(&StoryHistoryQuery { after_sequence: None, limit: 2 }, 3).unwrap(), (0, 3));
    assert_eq!(limit_of(history_fetch_limit(&StoryHistoryQuery { after_sequence: None, limit: 0 }, &history_config())), "story_history_page_size");
    assert_eq!(limit_of(history_fetch_limit(&StoryHistoryQuery { after_sequence: None, limit: 4 }, &history_config())), "story_history_page_size");
    assert!(matches!(
        history_bounds(&StoryHistoryQuery { after_sequence: Some(u64::MAX), limit: 2 }, 3),
        Err(StoreError::Serialization { kind: StoreSerializationErrorKind::InvalidTurnResult })
    ));
    let opening = assemble_opening(Some(OpeningRecord { sequence: 1, story_text: "Once".to_owned(), created_at: 0 }), &history_config())
        .unwrap();
    assert_eq!(opening.as_ref().unwrap().sequence, 1);
    assert_eq!(
        limit_of(assemble_opening(Some(OpeningRecord { sequence: 1, story_text: "Once upon".to_owned(), created_at: 0 }), &history_config())),
        "max_story_text_bytes"
    );
    assert!(assemble_opening(None, &history_config()).unwrap().is_none());
    let rows = vec![turn_record(1, 2, "go", "went"), turn_record(2, 3, "look", "saw"), turn_record(3, 4, "xxxxxxxx", "x")];
    let page = assemble_history_page(&query, &history_config(), opening, rows.clone()).unwrap();
    assert_eq!(page.turns.len(), 2);
    assert_eq!(page.turns[1].player_contribution, "look");
    assert_eq!(page.next_after_sequence, Some(3));
    assert!(page.opening.is_some());
    let all = assemble_history_page(&StoryHistoryQuery { after_sequence: None, limit: 3 }, &history_config(), None, rows[..2].to_vec())
        .unwrap();
    assert_eq!(all.next_after_sequence, None);
    assert_eq!(
        limit_of(assemble_history_page(&StoryHistoryQuery { after_sequence: None, limit: 3 }, &history_config(), None, rows)),
        "max_player_input_bytes"
    );
    assert!(matches!(
        assemble_history_page(&query, &history_config(), None, vec![turn_record(-1, 2, "a", "b")]),
        Err(StoreError::Serialization { kind: StoreSerializationErrorKind::InvalidTurnResult })
    ));
}
