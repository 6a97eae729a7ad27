//! How a turn's knowledge mutation changes the stored entries: an update
//! keeps the identity of the entry it replaces and takes everything else
//! from the new value.
use crate::persistence::store::StoreError;
use crate::text::{owned, text_eq};
use vstd::prelude::*;

verus! {

/// A knowledge entry: its identity (id, and the key of a fact or rumor, or
/// the owner and creation time of a memory) and `body`, everything else it
/// holds.
#[derive(Debug, Clone)]
pub enum KnowledgeEntry<B> {
    Fact { id: String, key: String, body: B },
    Rumor { id: String, key: String, body: B },
    Memory { id: String, owner: String, created_at_ms: i64, body: B },
}

/// A mutation of the stored knowledge.
#[derive(Debug, Clone)]
pub enum KnowledgeMutation<B> {
    Add(KnowledgeEntry<B>),
    Update(KnowledgeEntry<B>),
    Delete,
}

/// What to write: a new entry, the merged entry in place of the old one,
/// or the removal of the targeted entry.
#[derive(Debug, Clone)]
pub enum KnowledgeWrite<B> {
    Insert(KnowledgeEntry<B>),
    Replace(KnowledgeEntry<B>),
    Remove,
}

/// The update of `old` by `new`: of the same kind, the old identity with
/// the new body; a memory may not change owner; another kind is refused.
pub open spec fn merged<B>(old: KnowledgeEntry<B>, new: KnowledgeEntry<B>) -> Result<KnowledgeEntry<B>, Seq<char>> {
    match (old, new) {
        (KnowledgeEntry::Fact { id, key, .. }, KnowledgeEntry::Fact { body, .. }) => Ok(
            KnowledgeEntry::Fact { id, key, body },
        ),
        (KnowledgeEntry::Rumor { id, key, .. }, KnowledgeEntry::Rumor { body, .. }) => Ok(
            KnowledgeEntry::Rumor { id, key, body },
        ),
        (
            KnowledgeEntry::Memory { id, owner, created_at_ms, .. },
            KnowledgeEntry::Memory { owner: new_owner, body, .. },
        ) => if owner@ != new_owner@ {
            Err("knowledge_memory_owner_immutable"@)
        } else {
            Ok(KnowledgeEntry::Memory { id, owner, created_at_ms, body })
        },
        _ => Err("knowledge_update_kind_mismatch"@),
    }
}

/// Merges an update into the stored entry.
pub fn merge_knowledge_update<B>(existing: KnowledgeEntry<B>, value: KnowledgeEntry<B>) -> (r: Result<
    KnowledgeEntry<B>,
    StoreError,
>)
    ensures
        match merged(existing, value) {
            Ok(e) => r matches Ok(x) && x == e,
            Err(c) => r matches Err(StoreError::ConstraintViolation { constraint }) && constraint@ == c,
        },
{
    match (existing, value) {
        (KnowledgeEntry::Fact { id, key, .. }, KnowledgeEntry::Fact { body, .. }) => Ok(
            KnowledgeEntry::Fact { id, key, body },
        ),
        (KnowledgeEntry::Rumor { id, key, .. }, KnowledgeEntry::Rumor { body, .. }) => Ok(
            KnowledgeEntry::Rumor { id, key, body },
        ),
        (
            KnowledgeEntry::Memory { id, owner, created_at_ms, .. },
            KnowledgeEntry::Memory { owner: new_owner, body, .. },
        ) => {
            if !text_eq(owner.as_str(), new_owner.as_str()) {
                return Err(StoreError::ConstraintViolation { constraint: owned("knowledge_memory_owner_immutable") });
            }
            Ok(KnowledgeEntry::Memory { id, owner, created_at_ms, body })
        },
        _ => Err(StoreError::ConstraintViolation { constraint: owned("knowledge_update_kind_mismatch") }),
    }
}

/// Plans a mutation given the stored entry it targets (`None` when no
/// entry of its kind has its id): an addition inserts its entry; an update
/// needs the target and replaces it by the merge; a deletion needs the
/// target and removes it.
pub fn plan_knowledge_mutation<B>(existing: Option<KnowledgeEntry<B>>, mutation: KnowledgeMutation<B>) -> (r: Result<
    KnowledgeWrite<B>,
    StoreError,
>)
    ensures
        match mutation {
            KnowledgeMutation::Add(e) => r matches Ok(KnowledgeWrite::Insert(x)) && x == e,
            KnowledgeMutation::Update(v) => match existing {
                None => r matches Err(StoreError::ConstraintViolation { constraint }) && constraint@
                    == "knowledge_update_target_missing"@,
                Some(old) => match merged(old, v) {
                    Ok(e) => r matches Ok(KnowledgeWrite::Replace(x)) && x == e,
                    Err(c) => r matches Err(StoreError::ConstraintViolation { constraint }) && constraint@ == c,
                },
            },
            KnowledgeMutation::Delete => match existing {
                None => r matches Err(StoreError::ConstraintViolation { constraint }) && constraint@
                    == "knowledge_delete_target_missing"@,
                Some(_) => r matches Ok(KnowledgeWrite::Remove),
            },
        },
{
    match mutation {
        KnowledgeMutation::Add(e) => Ok(KnowledgeWrite::Insert(e)),
        KnowledgeMutation::Update(v) => match existing {
            None => Err(StoreError::ConstraintViolation { constraint: owned("knowledge_update_target_missing") }),
            Some(old) => match merge_knowledge_update(old, v) {
                Ok(e) => Ok(KnowledgeWrite::Replace(e)),
                Err(e) => Err(e),
            },
        },
        KnowledgeMutation::Delete => match existing {
            None => Err(StoreError::ConstraintViolation { constraint: owned("knowledge_delete_target_missing") }),
            Some(_) => Ok(KnowledgeWrite::Remove),
        },
    }
}

pub open spec fn entry_identity<B>(e: KnowledgeEntry<B>) -> (u8, Seq<char>, Seq<char>, i64) {
    match e {
        KnowledgeEntry::Fact { id, key, .. } => (0, id@, key@, 0),
        KnowledgeEntry::Rumor { id, key, .. } => (1, id@, key@, 0),
        KnowledgeEntry::Memory { id, owner, created_at_ms, .. } => (2, id@, owner@, created_at_ms),
    }
}

pub open spec fn entry_body<B>(e: KnowledgeEntry<B>) -> B {
    match e {
        KnowledgeEntry::Fact { body, .. } => body,
        KnowledgeEntry::Rumor { body, .. } => body,
        KnowledgeEntry::Memory { body, .. } => body,
    }
}

/// Law: an update that succeeds keeps the kind and identity of the stored
/// entry (id, key, owner, creation time) and takes the body of the new
/// value.
pub proof fn law_update_keeps_identity<B>(old: KnowledgeEntry<B>, new: KnowledgeEntry<B>)
    ensures
        merged(old, new) matches Ok(e) ==> entry_identity(e) == entry_identity(old) && entry_body(e) == entry_body(
            new,
        ),
{
}

} // verus!
