//! What knowledge reads may ask for, and how stored knowledge kinds read
//! back.
use crate::domain::{KnowledgeKind, KnowledgeSourceId};
use crate::persistence::store::{StoreError, StoreSerializationErrorKind};
use crate::text::{owned, text_eq};
use crate::turn::KnowledgeDelivery;
use vstd::prelude::*;

verus! {

/// Whom knowledge is read for, which kinds, and the largest item.
#[derive(Debug, Clone)]
pub struct KnowledgeFilter {
    pub delivery: KnowledgeDelivery,
    pub knowledge_kinds: Vec<KnowledgeKind>,
    pub max_item_bytes: usize,
}

/// Why a filter is refused, if it is: it names no kind, allows no bytes,
/// hands memories to the writer or facts to a character.
pub open spec fn filter_error(f: KnowledgeFilter) -> Option<(bool, Seq<char>)> {
    if f.knowledge_kinds@.len() == 0 {
        Some((true, "knowledge_kinds_empty"@))
    } else if f.max_item_bytes == 0 {
        Some((false, "max_item_bytes"@))
    } else if f.delivery is Writer && f.knowledge_kinds@.contains(KnowledgeKind::Memory) {
        Some((true, "memory_forbidden_for_writer_delivery"@))
    } else if f.delivery is Character && f.knowledge_kinds@.contains(KnowledgeKind::Fact) {
        Some((true, "fact_forbidden_for_character_delivery"@))
    } else {
        None
    }
}

fn contains_kind(ks: &Vec<KnowledgeKind>, k: KnowledgeKind) -> (r: bool)
    ensures
        r == ks@.contains(k),
{
    let mut i: usize = 0;
    while i < ks.len()
        invariant
            i <= ks@.len(),
            forall|j: int| 0 <= j < i ==> ks@[j] != k,
        decreases ks@.len() - i,
    {
        if ks[i] == k {
            return true;
        }
        i = i + 1;
    }
    false
}

/// Constraint violations carry their name; the byte limit is a limit.
pub fn validate_filter(filter: &KnowledgeFilter) -> (r: Result<(), StoreError>)
    ensures
        match filter_error(*filter) {
            None => r is Ok,
            Some((true, name)) => r matches Err(StoreError::ConstraintViolation { constraint }) && constraint@ == name,
            Some((false, name)) => r matches Err(StoreError::LimitExceeded { limit }) && limit@ == name,
        },
{
    if filter.knowledge_kinds.len() == 0 {
        return Err(StoreError::ConstraintViolation { constraint: owned("knowledge_kinds_empty") });
    }
    if filter.max_item_bytes == 0 {
        return Err(StoreError::LimitExceeded { limit: "max_item_bytes" });
    }
    let includes_memory = contains_kind(&filter.knowledge_kinds, KnowledgeKind::Memory);
    let includes_fact = contains_kind(&filter.knowledge_kinds, KnowledgeKind::Fact);
    match &filter.delivery {
        KnowledgeDelivery::Writer => {
            if includes_memory {
                return Err(StoreError::ConstraintViolation { constraint: owned("memory_forbidden_for_writer_delivery") });
            }
        },
        KnowledgeDelivery::Character { .. } => {
            if includes_fact {
                return Err(StoreError::ConstraintViolation { constraint: owned("fact_forbidden_for_character_delivery") });
            }
        },
    }
    Ok(())
}

pub open spec fn kind_name_spec(k: KnowledgeKind) -> Seq<char> {
    match k {
        KnowledgeKind::Fact => "fact"@,
        KnowledgeKind::Rumor => "rumor"@,
        KnowledgeKind::Memory => "memory"@,
    }
}

/// The stored name of a knowledge kind.
pub fn kind_name(kind: KnowledgeKind) -> (r: &'static str)
    ensures
        r@ == kind_name_spec(kind),
{
    match kind {
        KnowledgeKind::Fact => "fact",
        KnowledgeKind::Rumor => "rumor",
        KnowledgeKind::Memory => "memory",
    }
}

pub fn invalid_record() -> (r: StoreError)
    ensures
        r == (StoreError::Serialization { kind: StoreSerializationErrorKind::InvalidStoryState }),
{
    StoreError::Serialization { kind: StoreSerializationErrorKind::InvalidStoryState }
}

/// Reads a stored kind name back; any other text is an invalid record.
pub fn parse_kind(value: &str) -> (r: Result<KnowledgeKind, StoreError>)
    ensures
        value@ == "fact"@ ==> r == Ok::<KnowledgeKind, StoreError>(KnowledgeKind::Fact),
        value@ == "rumor"@ ==> r == Ok::<KnowledgeKind, StoreError>(KnowledgeKind::Rumor),
        value@ == "memory"@ ==> r == Ok::<KnowledgeKind, StoreError>(KnowledgeKind::Memory),
        value@ != "fact"@ && value@ != "rumor"@ && value@ != "memory"@ ==> r == Err::<KnowledgeKind, StoreError>(
            StoreError::Serialization { kind: StoreSerializationErrorKind::InvalidStoryState },
        ),
{
    proof {
        reveal_strlit("fact");
        reveal_strlit("rumor");
        reveal_strlit("memory");
        assert("fact"@.len() == 4);
        assert("rumor"@.len() == 5);
        assert("memory"@.len() == 6);
    }
    if text_eq(value, "fact") {
        Ok(KnowledgeKind::Fact)
    } else if text_eq(value, "rumor") {
        Ok(KnowledgeKind::Rumor)
    } else if text_eq(value, "memory") {
        Ok(KnowledgeKind::Memory)
    } else {
        Err(invalid_record())
    }
}

pub fn source_id_kind(source_id: &KnowledgeSourceId) -> (r: KnowledgeKind)
    ensures
        r == source_id@.0,
{
    source_id.kind()
}

/// Law: a kind's stored name reads back as the kind.
pub proof fn law_kind_name_reads_back(k: KnowledgeKind)
    ensures
        kind_name_spec(k) == "fact"@ ==> k == KnowledgeKind::Fact,
        kind_name_spec(k) == "rumor"@ ==> k == KnowledgeKind::Rumor,
        kind_name_spec(k) == "memory"@ ==> k == KnowledgeKind::Memory,
{
    reveal_strlit("fact");
    reveal_strlit("rumor");
    reveal_strlit("memory");
    assert("fact"@.len() == 4);
    assert("rumor"@.len() == 5);
    assert("memory"@.len() == 6);
}


/// Law: a filter is accepted exactly when it names some kind, allows some
/// bytes, and keeps to its audience: the writer is never handed memories,
/// and a character is never handed facts.
pub proof fn law_filters_keep_audiences(f: KnowledgeFilter)
    ensures
        filter_error(f) is None <==> {
            &&& f.knowledge_kinds@.len() > 0
            &&& f.max_item_bytes > 0
            &&& f.delivery is Writer ==> !f.knowledge_kinds@.contains(KnowledgeKind::Memory)
            &&& f.delivery is Character ==> !f.knowledge_kinds@.contains(KnowledgeKind::Fact)
        },
{
}

} // verus!
