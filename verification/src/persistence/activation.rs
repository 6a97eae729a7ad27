//! The decisions of loading a story's activation index: the story must be
//! at the revision and pack the caller read, the pack's entries and the
//! story's own entries must fit the limits and decode, and entries that do
//! not come from the pack count against the overlay limit.
use crate::domain::{KnowledgeKind, KnowledgeSourceId};
use crate::persistence::commit::{store_error_is, StoreErrorView};
use crate::persistence::snapshot::first_of;
use crate::persistence::store::{StoreError, StoreSerializationErrorKind};
use crate::text::{blank, is_blank, owned, text_eq};
use vstd::prelude::*;

verus! {

/// The limits an activation index is loaded under.
#[derive(Debug, Clone, Copy)]
pub struct ActivationIndexLimits {
    pub max_entries: usize,
    pub max_overlay_entries: usize,
}

/// The story's stored revision, its pack's digest and its overlay version.
#[derive(Debug, Clone)]
pub struct ActivationSnapshotRow {
    pub revision: i64,
    pub pack_digest: String,
    pub overlay_version: i64,
}

pub open spec fn world_state_error() -> StoreErrorView {
    StoreErrorView::Serialization(StoreSerializationErrorKind::InvalidWorldState)
}

fn invalid_world_state() -> (r: StoreError)
    ensures
        store_error_is(r, world_state_error()),
{
    StoreError::Serialization { kind: StoreSerializationErrorKind::InvalidWorldState }
}

/// A missing story is not found; a negative revision is an invalid world
/// state; a story at another revision or pack than the caller read is a
/// revision conflict.
pub open spec fn activation_row_error(row: Option<ActivationSnapshotRow>, base_revision: u64, pack_digest: Seq<char>) -> Option<StoreErrorView> {
    match row {
        None => Some(StoreErrorView::NotFound),
        Some(r) => if r.revision < 0 {
            Some(world_state_error())
        } else if r.revision != base_revision || r.pack_digest@ != pack_digest {
            Some(StoreErrorView::Revision)
        } else {
            None
        },
    }
}

/// Holds the stored story to the revision and pack digest the caller read.
pub fn check_activation_snapshot(row: &Option<ActivationSnapshotRow>, base_revision: u64, pack_digest: &str) -> (r: Result<(), StoreError>)
    ensures
        r is Ok <==> activation_row_error(*row, base_revision, pack_digest@) is None,
        r matches Err(e) ==> (activation_row_error(*row, base_revision, pack_digest@) matches Some(v) && store_error_is(e, v)),
{
    match row {
        None => Err(StoreError::NotFound),
        Some(r) => {
            if r.revision < 0 {
                return Err(invalid_world_state());
            }
            if r.revision as u64 != base_revision || !text_eq(r.pack_digest.as_str(), pack_digest) {
                return Err(StoreError::RevisionConflict);
            }
            Ok(())
        },
    }
}

/// The kinds an activation entry can have.
pub open spec fn activation_kind(kind: Seq<char>) -> Option<KnowledgeKind> {
    if kind == "fact"@ {
        Some(KnowledgeKind::Fact)
    } else if kind == "rumor"@ {
        Some(KnowledgeKind::Rumor)
    } else {
        None
    }
}

fn parse_activation_kind(kind: &str) -> (r: Option<KnowledgeKind>)
    ensures
        r == activation_kind(kind@),
{
    if text_eq(kind, "fact") {
        Some(KnowledgeKind::Fact)
    } else if text_eq(kind, "rumor") {
        Some(KnowledgeKind::Rumor)
    } else {
        None
    }
}

/// A salience as stored fits a byte.
pub open spec fn salience_valid(s: i64) -> bool {
    0 <= s <= 255
}

/// An entry of the pack's world book: its kind, its salience, and whether
/// its activation rule decoded.
#[derive(Debug, Clone)]
pub struct PackEntryRecord {
    pub kind: String,
    pub salience: i64,
    pub rule_decoded: bool,
}

/// The kind and salience an activation entry is indexed under.
#[derive(Debug, Clone, Copy)]
pub struct ActivationEntryPlan {
    pub kind: KnowledgeKind,
    pub salience: u8,
    pub from_pack: bool,
}

pub open spec fn pack_entry_valid(e: PackEntryRecord) -> bool {
    activation_kind(e.kind@) is Some && e.rule_decoded && salience_valid(e.salience)
}

/// The pack's entries, read with one more row than the limit: more than
/// `max_entries` exceed that limit; an entry of another kind than fact or
/// rumor, or whose rule did not decode, or whose salience does not fit a
/// byte, is an invalid world state; else each entry is indexed, from the
/// pack, under its kind and salience.
pub fn plan_pack_entries(rows: &Vec<PackEntryRecord>, limits: &ActivationIndexLimits) -> (r: Result<Vec<ActivationEntryPlan>, StoreError>)
    ensures
        rows@.len() > limits.max_entries ==> (r matches Err(e) && store_error_is(e, StoreErrorView::Limit("max_entries"@))),
        rows@.len() <= limits.max_entries && (exists|i: int| 0 <= i < rows@.len() && !pack_entry_valid(#[trigger] rows@[i]))
            ==> (r matches Err(e) && store_error_is(e, world_state_error())),
        r is Ok <==> rows@.len() <= limits.max_entries && forall|i: int| 0 <= i < rows@.len() ==> pack_entry_valid(#[trigger] rows@[i]),
        r matches Ok(plans) ==> plans@.len() == rows@.len() && forall|i: int|
            0 <= i < rows@.len() ==> ({
                let p = #[trigger] plans@[i];
                &&& activation_kind(rows@[i].kind@) == Some(p.kind)
                &&& p.salience == rows@[i].salience
                &&& p.from_pack
            }),
{
    if rows.len() > limits.max_entries {
        return Err(StoreError::LimitExceeded { limit: "max_entries" });
    }
    let mut plans: Vec<ActivationEntryPlan> = Vec::new();
    let mut i: usize = 0;
    while i < rows.len()
        invariant
            rows@.len() <= limits.max_entries,
            i <= rows@.len(),
            plans@.len() == i,
            forall|k: int| 0 <= k < i ==> pack_entry_valid(#[trigger] rows@[k]),
            forall|k: int|
                0 <= k < i ==> ({
                    let p = #[trigger] plans@[k];
                    &&& activation_kind(rows@[k].kind@) == Some(p.kind)
                    &&& p.salience == rows@[k].salience
                    &&& p.from_pack
                }),
        decreases rows@.len() - i,
    {
        let row = &rows[i];
        let kind = match parse_activation_kind(row.kind.as_str()) {
            Some(k) => k,
            None => return Err(invalid_world_state()),
        };
        if !row.rule_decoded || row.salience < 0 || row.salience > 255 {
            return Err(invalid_world_state());
        }
        plans.push(ActivationEntryPlan { kind, salience: row.salience as u8, from_pack: true });
        i = i + 1;
    }
    Ok(plans)
}

/// An entry of the story's own knowledge as the activation index keys it:
/// by its source id, with its kind and salience, and whether it comes from
/// the pack.
#[derive(Debug, Clone)]
pub struct StoryActivationEntry {
    pub source_id: KnowledgeSourceId,
    pub kind: KnowledgeKind,
    pub salience: u8,
    pub from_pack: bool,
}

fn make_source_id(kind: KnowledgeKind, id: &str) -> (r: KnowledgeSourceId)
    ensures
        r@ == (kind, id@),
{
    match kind {
        KnowledgeKind::Fact => KnowledgeSourceId::Fact(owned(id)),
        KnowledgeKind::Rumor => KnowledgeSourceId::Rumor(owned(id)),
        KnowledgeKind::Memory => KnowledgeSourceId::Memory(owned(id)),
    }
}

/// A knowledge entry of the story: its kind, its source id (which may not
/// be blank), the pack digest of the seed it came from (`Some(None)` where
/// it is no seed, `None` where its source did not decode), whether its rule
/// and rule version decoded, and its salience.
#[derive(Debug, Clone)]
pub struct ActivationEntryRecord {
    pub kind: String,
    pub source_id: String,
    pub seed_pack_digest: Option<Option<String>>,
    pub rule_decoded: bool,
    pub rule_version_valid: bool,
    pub salience: i64,
}

pub open spec fn entry_valid(e: ActivationEntryRecord) -> bool {
    &&& activation_kind(e.kind@) is Some
    &&& !blank(e.source_id@)
    &&& e.seed_pack_digest is Some
    &&& e.rule_decoded
    &&& e.rule_version_valid
    &&& salience_valid(e.salience)
}

/// An entry comes from the pack when it is a seed of the pack read.
pub open spec fn from_pack(e: ActivationEntryRecord, pack_digest: Seq<char>) -> bool {
    e.seed_pack_digest matches Some(Some(d)) && d@ == pack_digest
}

/// How many of the entries do not come from the pack.
pub open spec fn overlay_count(rows: Seq<ActivationEntryRecord>, pack_digest: Seq<char>) -> nat
    decreases rows.len(),
{
    if rows.len() == 0 {
        0
    } else {
        overlay_count(rows.drop_last(), pack_digest) + if from_pack(rows.last(), pack_digest) {
            0nat
        } else {
            1nat
        }
    }
}

/// The first entry that does not decode, or that takes the overlay over
/// its limit.
pub open spec fn entries_error(rows: Seq<ActivationEntryRecord>, pack_digest: Seq<char>, max_overlay: int) -> Option<StoreErrorView>
    decreases rows.len(),
{
    if rows.len() == 0 {
        None
    } else {
        first_of(
            entries_error(rows.drop_last(), pack_digest, max_overlay),
            if !entry_valid(rows.last()) {
                Some(world_state_error())
            } else if !from_pack(rows.last(), pack_digest) && overlay_count(rows, pack_digest) > max_overlay {
                Some(StoreErrorView::Limit("max_overlay_entries"@))
            } else {
                None
            },
        )
    }
}

/// Loading the story's own entries: a count below zero or over
/// `max_entries` exceeds that limit; then the first faulty entry; then a
/// negative overlay version is an invalid world state.
pub open spec fn activation_entries_error(
    entry_count: i64,
    rows: Seq<ActivationEntryRecord>,
    pack_digest: Seq<char>,
    overlay_version: i64,
    l: ActivationIndexLimits,
) -> Option<StoreErrorView> {
    if entry_count < 0 || entry_count > l.max_entries {
        Some(StoreErrorView::Limit("max_entries"@))
    } else {
        first_of(
            entries_error(rows, pack_digest, l.max_overlay_entries as int),
            if overlay_version < 0 {
                Some(world_state_error())
            } else {
                None
            },
        )
    }
}

proof fn lemma_entries_prefix(rows: Seq<ActivationEntryRecord>, d: Seq<char>, m: int, i: int)
    requires
        0 <= i < rows.len(),
    ensures
        rows.take(i + 1).drop_last() == rows.take(i),
        rows.take(i + 1).last() == rows[i],
        overlay_count(rows.take(i + 1), d) == overlay_count(rows.take(i), d) + if from_pack(rows[i], d) {
            0nat
        } else {
            1nat
        },
{
    assert(rows.take(i + 1).drop_last() =~= rows.take(i));
}

proof fn lemma_entries_error_extends(rows: Seq<ActivationEntryRecord>, d: Seq<char>, m: int, n: int)
    requires
        0 <= n <= rows.len(),
    ensures
        entries_error(rows.take(n), d, m) is Some ==> entries_error(rows, d, m) == entries_error(rows.take(n), d, m),
    decreases rows.len() - n,
{
    if n == rows.len() {
        assert(rows.take(n) =~= rows);
    } else {
        lemma_entries_prefix(rows, d, m, n);
        lemma_entries_error_extends(rows, d, m, n + 1);
    }
}

/// The story's own entries of the activation index, and its overlay
/// version, as `activation_entries_error` orders the failures; on success
/// each entry is indexed under its kind and salience, marked as from the
/// pack when it is a seed of the pack read.
pub fn plan_activation_entries(
    entry_count: i64,
    rows: &Vec<ActivationEntryRecord>,
    pack_digest: &str,
    overlay_version: i64,
    limits: &ActivationIndexLimits,
) -> (r: Result<(Vec<StoryActivationEntry>, u64), StoreError>)
    ensures
        r is Ok <==> activation_entries_error(entry_count, rows@, pack_digest@, overlay_version, *limits) is None,
        r matches Err(e) ==> (activation_entries_error(entry_count, rows@, pack_digest@, overlay_version, *limits)
            matches Some(v) && store_error_is(e, v)),
        r matches Ok(res) ==> res.1 == overlay_version && res.0@.len() == rows@.len() && forall|i: int|
            0 <= i < rows@.len() ==> ({
                let p = #[trigger] res.0@[i];
                &&& p.source_id@ == (p.kind, rows@[i].source_id@)
                &&& activation_kind(rows@[i].kind@) == Some(p.kind)
                &&& p.salience == rows@[i].salience
                &&& p.from_pack == from_pack(rows@[i], pack_digest@)
            }),
{
    if entry_count < 0 || entry_count as u64 > limits.max_entries as u64 {
        return Err(StoreError::LimitExceeded { limit: "max_entries" });
    }
    let ghost d = pack_digest@;
    let ghost m = limits.max_overlay_entries as int;
    let mut plans: Vec<StoryActivationEntry> = Vec::new();
    let mut overlay: usize = 0;
    let mut i: usize = 0;
    while i < rows.len()
        invariant
            d == pack_digest@,
            m == limits.max_overlay_entries as int,
            0 <= entry_count <= limits.max_entries,
            i <= rows@.len(),
            overlay == overlay_count(rows@.take(i as int), d),
            overlay <= i,
            entries_error(rows@.take(i as int), d, m) is None,
            plans@.len() == i,
            forall|k: int|
                0 <= k < i ==> ({
                    let p = #[trigger] plans@[k];
                    &&& p.source_id@ == (p.kind, rows@[k].source_id@)
                    &&& activation_kind(rows@[k].kind@) == Some(p.kind)
                    &&& p.salience == rows@[k].salience
                    &&& p.from_pack == from_pack(rows@[k], d)
                }),
        decreases rows@.len() - i,
    {
        proof {
            lemma_entries_prefix(rows@, d, m, i as int);
            lemma_entries_error_extends(rows@, d, m, i + 1);
        }
        let row = &rows[i];
        let kind = match parse_activation_kind(row.kind.as_str()) {
            Some(k) => k,
            None => return Err(invalid_world_state()),
        };
        if is_blank(row.source_id.as_str()) {
            return Err(invalid_world_state());
        }
        let seed = match &row.seed_pack_digest {
            Some(s) => s,
            None => return Err(invalid_world_state()),
        };
        if !row.rule_decoded || !row.rule_version_valid || row.salience < 0 || row.salience > 255 {
            return Err(invalid_world_state());
        }
        let is_from_pack = match seed {
            Some(digest) => text_eq(digest.as_str(), pack_digest),
            None => false,
        };
        if !is_from_pack {
            overlay = overlay + 1;
            if overlay > limits.max_overlay_entries {
                return Err(StoreError::LimitExceeded { limit: "max_overlay_entries" });
            }
        }
        let source_id = make_source_id(kind, row.source_id.as_str());
        plans.push(StoryActivationEntry { source_id, kind, salience: row.salience as u8, from_pack: is_from_pack });
        i = i + 1;
    }
    assert(rows@.take(rows@.len() as int) =~= rows@);
    if overlay_version < 0 {
        return Err(invalid_world_state());
    }
    Ok((plans, overlay_version as u64))
}

} // verus!
