//! Limits on snapshot projections, and entities read back from rows.
use crate::domain::{entities_view, BoundedText, KnowledgeEntity, RoleId};
use crate::planning::request_key::{canonical_entities, canonical_entity_list};
use crate::persistence::asset_store::FrozenStoryPackRef;
use crate::persistence::commit::{store_error_is, StoreErrorView};
use crate::persistence::knowledge::invalid_record;
use crate::persistence::store::{StoreError, StoreSerializationErrorKind};
use crate::text::{blank, byte_len, is_blank, owned, text_eq};
use vstd::prelude::*;

verus! {

/// Room for `items` items of `item_bytes` bytes and an overhead, unless
/// that overflows a `usize`.
pub fn projection_limit(items: usize, item_bytes: usize, overhead: usize) -> (r: Result<usize, StoreError>)
    ensures
        items * item_bytes + overhead <= usize::MAX ==> r == Ok::<usize, StoreError>(
            (items * item_bytes + overhead) as usize,
        ),
        items * item_bytes + overhead > usize::MAX ==> (r matches Err(StoreError::LimitExceeded { limit }) && limit@
            == "snapshot_projection"@),
{
    match items.checked_mul(item_bytes) {
        Some(v) => match v.checked_add(overhead) {
            Some(total) => Ok(total),
            None => Err(StoreError::LimitExceeded { limit: "snapshot_projection" }),
        },
        None => {
            assert(items * item_bytes + overhead > usize::MAX) by (nonlinear_arith)
                requires
                    items * item_bytes > usize::MAX,
            ;
            Err(StoreError::LimitExceeded { limit: "snapshot_projection" })
        },
    }
}

/// A negative length is an invalid record; one over the maximum exceeds the
/// named limit.
pub fn ensure_projection_length(actual: i64, maximum: usize, limit: &'static str) -> (r: Result<(), StoreError>)
    ensures
        actual < 0 ==> r == Err::<(), StoreError>(
            StoreError::Serialization { kind: StoreSerializationErrorKind::InvalidStoryState },
        ),
        0 <= actual && actual > maximum ==> r == Err::<(), StoreError>(StoreError::LimitExceeded { limit }),
        0 <= actual <= maximum ==> r is Ok,
{
    if actual < 0 {
        return Err(invalid_record());
    }
    if actual as u64 > maximum as u64 {
        return Err(StoreError::LimitExceeded { limit });
    }
    Ok(())
}

/// The entity kinds rows store, and their tags.
pub open spec fn entity_tag_of(kind: Seq<char>) -> Option<u32> {
    if kind == "world"@ {
        Some(0)
    } else if kind == "role"@ {
        Some(1)
    } else if kind == "location"@ {
        Some(2)
    } else if kind == "scene"@ {
        Some(3)
    } else if kind == "narrative_node"@ {
        Some(4)
    } else if kind == "event"@ {
        Some(5)
    } else {
        None
    }
}

/// Reads an entity back from its stored kind and key; an unknown kind, or a
/// blank role id, is an invalid record.
pub fn parse_entity(kind: &str, key: &str) -> (r: Result<KnowledgeEntity, StoreError>)
    ensures
        match entity_tag_of(kind@) {
            Some(t) => if t == 1 && blank(key@) {
                r == Err::<KnowledgeEntity, StoreError>(invalid_record_spec())
            } else {
                r matches Ok(e) && e@ == (t, key@)
            },
            None => r == Err::<KnowledgeEntity, StoreError>(invalid_record_spec()),
        },
{
    if text_eq(kind, "world") {
        Ok(KnowledgeEntity::World(owned(key)))
    } else if text_eq(kind, "role") {
        match RoleId::try_new(owned(key)) {
            Ok(id) => Ok(KnowledgeEntity::Role(id)),
            Err(_) => Err(invalid_record()),
        }
    } else if text_eq(kind, "location") {
        Ok(KnowledgeEntity::Location(owned(key)))
    } else if text_eq(kind, "scene") {
        Ok(KnowledgeEntity::Scene(owned(key)))
    } else if text_eq(kind, "narrative_node") {
        Ok(KnowledgeEntity::NarrativeNode(owned(key)))
    } else if text_eq(kind, "event") {
        Ok(KnowledgeEntity::Event(owned(key)))
    } else {
        Err(invalid_record())
    }
}

pub open spec fn invalid_record_spec() -> StoreError {
    StoreError::Serialization { kind: StoreSerializationErrorKind::InvalidStoryState }
}


/// The limits a story snapshot is read under.
#[derive(Debug, Clone, Copy)]
pub struct SnapshotLimits {
    pub max_instance_settings: usize,
    pub max_instance_setting_bytes: usize,
    pub max_roles: usize,
    pub max_role_bytes: usize,
    pub max_relationships: usize,
    pub max_narrative_nodes: usize,
    pub max_condition_fact_values: usize,
    pub max_constraint_bytes: usize,
    pub max_constraints: usize,
    pub max_scene_roles: usize,
    pub max_scene_bytes: usize,
    pub max_story_profile_bytes: usize,
    pub max_topics: usize,
    pub max_topic_aliases_per_topic: usize,
    pub max_summary_bytes: usize,
    pub max_recent_segments: usize,
    pub max_recent_segment_bytes: usize,
    pub max_entity_catalog: usize,
}

/// The byte lengths of a story's stored projection columns, as the database
/// reports them.
#[derive(Debug, Clone, Copy)]
pub struct InstanceProjectionLengths {
    pub settings: i64,
    pub roles: i64,
    pub relationships: i64,
    pub narrative_state: i64,
    pub fact_values: i64,
    pub current_scene: i64,
    pub story_summary: i64,
    pub active_constraints: i64,
}

/// The byte lengths of the stored columns of a story's pack.
#[derive(Debug, Clone, Copy)]
pub struct PackProjectionLengths {
    pub story_profile: i64,
    pub narrative_definition: i64,
    pub topic_dictionary: i64,
}

/// Room for `items` items of `item_bytes` bytes and an overhead, where it
/// fits a `usize`.
pub open spec fn room(items: int, item_bytes: int, overhead: int) -> Option<int> {
    if items * item_bytes + overhead <= usize::MAX {
        Some(items * item_bytes + overhead)
    } else {
        None
    }
}

/// Holding a length to a maximum: an overflowed maximum exceeds `overflow`,
/// a negative length is an invalid record, a longer one exceeds `name`.
pub open spec fn length_outcome(actual: int, maximum: Option<int>, overflow: Seq<char>, name: Seq<char>) -> Option<StoreErrorView> {
    match maximum {
        None => Some(StoreErrorView::Limit(overflow)),
        Some(m) => if actual < 0 {
            Some(StoreErrorView::Serialization(StoreSerializationErrorKind::InvalidStoryState))
        } else if actual > m {
            Some(StoreErrorView::Limit(name))
        } else {
            None
        },
    }
}

/// The first of two outcomes that is an error.
pub open spec fn first_of(a: Option<StoreErrorView>, b: Option<StoreErrorView>) -> Option<StoreErrorView> {
    if a is Some {
        a
    } else {
        b
    }
}

/// Room for the topic dictionary: one item per topic and alias.
pub open spec fn topic_outcome(actual: int, l: SnapshotLimits) -> Option<StoreErrorView> {
    let per_topic = l.max_topic_aliases_per_topic + 1;
    if per_topic > usize::MAX || l.max_topics * per_topic > usize::MAX {
        Some(StoreErrorView::Limit("topic_dictionary_json"@))
    } else {
        length_outcome(
            actual,
            room(l.max_topics * per_topic, l.max_role_bytes as int, 1024),
            "snapshot_projection"@,
            "topic_dictionary_json"@,
        )
    }
}

/// The first projection column of the story that is over its limit.
pub open spec fn instance_projection_error(x: InstanceProjectionLengths, l: SnapshotLimits) -> Option<StoreErrorView> {
    let snap = "snapshot_projection"@;
    let summary_max = if l.max_summary_bytes + 256 <= usize::MAX {
        Some(l.max_summary_bytes + 256)
    } else {
        None
    };
    first_of(
        length_outcome(x.settings as int, room(l.max_instance_settings as int, l.max_instance_setting_bytes as int, 1024), snap, "settings_json"@),
    first_of(
        length_outcome(x.roles as int, room(l.max_roles as int, l.max_role_bytes as int, 1024), snap, "roles_json"@),
    first_of(
        length_outcome(x.relationships as int, room(l.max_relationships as int, l.max_role_bytes as int, 1024), snap, "relationships_json"@),
    first_of(
        length_outcome(x.narrative_state as int, room(l.max_narrative_nodes as int, l.max_role_bytes as int, 1024), snap, "narrative_state_json"@),
    first_of(
        length_outcome(x.fact_values as int, room(l.max_condition_fact_values as int, l.max_constraint_bytes as int, 1024), snap, "fact_values_json"@),
    first_of(
        length_outcome(x.current_scene as int, room(l.max_scene_roles as int, 256, l.max_scene_bytes as int), snap, "current_scene"@),
    first_of(
        length_outcome(x.story_summary as int, summary_max, "story_summary"@, "story_summary"@),
        length_outcome(x.active_constraints as int, room(l.max_constraints as int, l.max_constraint_bytes as int, 1024), snap, "active_constraints"@),
    )))))))
}

/// The first projection column of the pack that is over its limit.
pub open spec fn pack_projection_error(p: PackProjectionLengths, l: SnapshotLimits) -> Option<StoreErrorView> {
    first_of(
        length_outcome(p.story_profile as int, Some(l.max_story_profile_bytes as int), "snapshot_projection"@, "story_profile_json"@),
    first_of(
        length_outcome(p.narrative_definition as int, room(l.max_narrative_nodes as int, l.max_role_bytes as int, 1024), "snapshot_projection"@, "narrative_definition_json"@),
        topic_outcome(p.topic_dictionary as int, l),
    ))
}

/// What reading a snapshot's projections meets first: a missing story or
/// pack, or a column over its limit.
pub open spec fn snapshot_projection_error(
    instance: Option<InstanceProjectionLengths>,
    pack: Option<PackProjectionLengths>,
    l: SnapshotLimits,
) -> Option<StoreErrorView> {
    match instance {
        None => Some(StoreErrorView::NotFound),
        Some(x) => first_of(
            instance_projection_error(x, l),
            match pack {
                None => Some(StoreErrorView::NotFound),
                Some(p) => pack_projection_error(p, l),
            },
        ),
    }
}

fn room_of(items: usize, item_bytes: usize, overhead: usize) -> (r: Option<usize>)
    ensures
        match r {
            Some(v) => room(items as int, item_bytes as int, overhead as int) == Some(v as int),
            None => room(items as int, item_bytes as int, overhead as int) is None,
        },
{
    match projection_limit(items, item_bytes, overhead) {
        Ok(v) => Some(v),
        Err(_) => None,
    }
}

fn hold_length(actual: i64, maximum: Option<usize>, overflow: &'static str, name: &'static str) -> (r: Result<(), StoreError>)
    ensures
        ({
            let m = match maximum {
                Some(v) => Some(v as int),
                None => None,
            };
            &&& r is Ok <==> length_outcome(actual as int, m, overflow@, name@) is None
            &&& r matches Err(e) ==> (length_outcome(actual as int, m, overflow@, name@) matches Some(v)
                && store_error_is(e, v))
        }),
{
    match maximum {
        None => Err(StoreError::LimitExceeded { limit: overflow }),
        Some(m) => ensure_projection_length(actual, m, name),
    }
}

/// Holds the stored projections of a story and its pack to the snapshot
/// limits, in the order they are read: a missing story or pack is not
/// found, and the first column over its limit (or whose limit overflows)
/// is reported.
pub fn check_snapshot_projection(
    instance: Option<InstanceProjectionLengths>,
    pack: Option<PackProjectionLengths>,
    limits: &SnapshotLimits,
) -> (r: Result<(), StoreError>)
    ensures
        r is Ok <==> snapshot_projection_error(instance, pack, *limits) is None,
        r matches Err(e) ==> (snapshot_projection_error(instance, pack, *limits) matches Some(v) && store_error_is(e, v)),
{
    let x = match instance {
        None => return Err(StoreError::NotFound),
        Some(x) => x,
    };
    let l = limits;
    hold_length(x.settings, room_of(l.max_instance_settings, l.max_instance_setting_bytes, 1024), "snapshot_projection", "settings_json")?;
    hold_length(x.roles, room_of(l.max_roles, l.max_role_bytes, 1024), "snapshot_projection", "roles_json")?;
    hold_length(x.relationships, room_of(l.max_relationships, l.max_role_bytes, 1024), "snapshot_projection", "relationships_json")?;
    hold_length(x.narrative_state, room_of(l.max_narrative_nodes, l.max_role_bytes, 1024), "snapshot_projection", "narrative_state_json")?;
    hold_length(x.fact_values, room_of(l.max_condition_fact_values, l.max_constraint_bytes, 1024), "snapshot_projection", "fact_values_json")?;
    hold_length(x.current_scene, room_of(l.max_scene_roles, 256, l.max_scene_bytes), "snapshot_projection", "current_scene")?;
    hold_length(x.story_summary, l.max_summary_bytes.checked_add(256), "story_summary", "story_summary")?;
    hold_length(x.active_constraints, room_of(l.max_constraints, l.max_constraint_bytes, 1024), "snapshot_projection", "active_constraints")?;
    let p = match pack {
        None => return Err(StoreError::NotFound),
        Some(p) => p,
    };
    hold_length(p.story_profile, Some(l.max_story_profile_bytes), "snapshot_projection", "story_profile_json")?;
    hold_length(p.narrative_definition, room_of(l.max_narrative_nodes, l.max_role_bytes, 1024), "snapshot_projection", "narrative_definition_json")?;
    let per_topic = match l.max_topic_aliases_per_topic.checked_add(1) {
        Some(v) => v,
        None => return Err(StoreError::LimitExceeded { limit: "topic_dictionary_json" }),
    };
    let topic_items = match l.max_topics.checked_mul(per_topic) {
        Some(v) => v,
        None => return Err(StoreError::LimitExceeded { limit: "topic_dictionary_json" }),
    };
    hold_length(p.topic_dictionary, room_of(topic_items, l.max_role_bytes, 1024), "snapshot_projection", "topic_dictionary_json")?;
    Ok(())
}


/// A stored story segment: where it came from (and the turn that wrote it),
/// its sequence and its text.
#[derive(Debug, Clone)]
pub struct SegmentRecord {
    pub origin: String,
    pub turn_id: Option<String>,
    pub sequence: i64,
    pub story_text: String,
}

/// Where a recent segment came from.
#[derive(Debug, Clone)]
pub enum SegmentOrigin {
    Opening,
    Turn { turn_id: String },
}

/// A segment of the story since its summary.
#[derive(Debug, Clone)]
pub struct RecentSegment {
    pub sequence: u64,
    pub origin: SegmentOrigin,
    pub text: BoundedText,
}

pub open spec fn origin_view(o: SegmentOrigin) -> Option<Seq<char>> {
    match o {
        SegmentOrigin::Opening => None,
        SegmentOrigin::Turn { turn_id } => Some(turn_id@),
    }
}

pub open spec fn turn_id_view(t: Option<String>) -> Option<Seq<char>> {
    match t {
        Some(s) => Some(s@),
        None => None,
    }
}

/// The origin of a stored segment is the opening (with no turn) or a turn
/// (with a turn id that is not blank).
pub open spec fn origin_valid(row: SegmentRecord) -> bool {
    ||| row.origin@ == "opening"@ && row.turn_id is None
    ||| row.origin@ == "turn"@ && (row.turn_id matches Some(t) && !blank(t@))
}

/// What is wrong with a stored segment: an unknown origin or a sequence
/// below one is an invalid turn result; a text over the byte budget breaks
/// `max_recent_segment_bytes`.
pub open spec fn segment_row_error(row: SegmentRecord, max_bytes: int) -> Option<StoreErrorView> {
    if !origin_valid(row) || row.sequence < 1 {
        Some(StoreErrorView::Serialization(StoreSerializationErrorKind::InvalidTurnResult))
    } else if byte_len(row.story_text@) > max_bytes {
        Some(StoreErrorView::Constraint("max_recent_segment_bytes"@))
    } else {
        None
    }
}

/// The error of the first faulty segment.
pub open spec fn segment_rows_error(rows: Seq<SegmentRecord>, max_bytes: int) -> Option<StoreErrorView>
    decreases rows.len(),
{
    if rows.len() == 0 {
        None
    } else {
        first_of(segment_rows_error(rows.drop_last(), max_bytes), segment_row_error(rows.last(), max_bytes))
    }
}

/// The segments come after the summary, in strictly increasing sequence.
pub open spec fn continuity_holds(summarized_through: int, rows: Seq<SegmentRecord>) -> bool {
    &&& forall|i: int| 0 <= i < rows.len() ==> summarized_through < #[trigger] rows[i].sequence
    &&& forall|i: int, j: int| #![trigger rows[i], rows[j]] 0 <= i < j < rows.len() ==> rows[i].sequence < rows[j].sequence
}

/// The segment read back from a valid stored segment.
pub open spec fn segment_matches(seg: RecentSegment, row: SegmentRecord) -> bool {
    &&& seg.sequence == row.sequence
    &&& origin_view(seg.origin) == turn_id_view(row.turn_id)
    &&& seg.text@ == row.story_text@
}

proof fn lemma_rows_error_prefix(rows: Seq<SegmentRecord>, max_bytes: int, i: int)
    requires
        0 <= i < rows.len(),
    ensures
        segment_rows_error(rows.take(i + 1), max_bytes) == first_of(
            segment_rows_error(rows.take(i), max_bytes),
            segment_row_error(rows[i], max_bytes),
        ),
{
    assert(rows.take(i + 1).drop_last() =~= rows.take(i));
}

proof fn lemma_rows_error_extends(rows: Seq<SegmentRecord>, max_bytes: int, n: int)
    requires
        0 <= n <= rows.len(),
    ensures
        segment_rows_error(rows.take(n), max_bytes) is Some ==> segment_rows_error(rows, max_bytes) == segment_rows_error(
            rows.take(n),
            max_bytes,
        ),
    decreases rows.len() - n,
{
    if n == rows.len() {
        assert(rows.take(n) =~= rows);
    } else {
        lemma_rows_error_prefix(rows, max_bytes, n);
        lemma_rows_error_extends(rows, max_bytes, n + 1);
    }
}

/// The recent segments of a story, from the stored segments after its
/// summary (at most one more than the limit is read): more than
/// `max_recent_segments` exceeds that limit; otherwise the first faulty
/// segment is reported; segments out of order, or not after the summary,
/// break the story's continuity; else each segment is read back as stored.
pub fn assemble_recent_segments(summarized_through: u64, rows: Vec<SegmentRecord>, limits: &SnapshotLimits) -> (r: Result<
    Vec<RecentSegment>,
    StoreError,
>)
    ensures
        rows@.len() > limits.max_recent_segments ==> (r matches Err(e) && store_error_is(
            e,
            StoreErrorView::Limit("max_recent_segments"@),
        )),
        rows@.len() <= limits.max_recent_segments ==> (segment_rows_error(rows@, limits.max_recent_segment_bytes as int)
            matches Some(v) ==> (r matches Err(e) && store_error_is(e, v))),
        rows@.len() <= limits.max_recent_segments && segment_rows_error(rows@, limits.max_recent_segment_bytes as int)
            is None && !continuity_holds(summarized_through as int, rows@) ==> (r matches Err(e) && store_error_is(
            e,
            StoreErrorView::Constraint("story_continuity"@),
        )),
        r is Ok <==> rows@.len() <= limits.max_recent_segments && segment_rows_error(
            rows@,
            limits.max_recent_segment_bytes as int,
        ) is None && continuity_holds(summarized_through as int, rows@),
        r matches Ok(segs) ==> segs@.len() == rows@.len() && forall|i: int|
            0 <= i < rows@.len() ==> segment_matches(#[trigger] segs@[i], rows@[i]),
{
    if rows.len() > limits.max_recent_segments {
        return Err(StoreError::LimitExceeded { limit: "max_recent_segments" });
    }
    let max_bytes = limits.max_recent_segment_bytes;
    let mut segs: Vec<RecentSegment> = Vec::new();
    let mut i: usize = 0;
    while i < rows.len()
        invariant
            rows@.len() <= limits.max_recent_segments,
            max_bytes == limits.max_recent_segment_bytes,
            i <= rows@.len(),
            segment_rows_error(rows@.take(i as int), max_bytes as int) is None,
            segs@.len() == i,
            forall|k: int| 0 <= k < i ==> segment_matches(#[trigger] segs@[k], rows@[k]),
        decreases rows@.len() - i,
    {
        proof {
            lemma_rows_error_prefix(rows@, max_bytes as int, i as int);
            lemma_rows_error_extends(rows@, max_bytes as int, i as int + 1);
        }
        let row = &rows[i];
        let origin = if text_eq(row.origin.as_str(), "opening") && row.turn_id.is_none() {
            SegmentOrigin::Opening
        } else if text_eq(row.origin.as_str(), "turn") {
            match &row.turn_id {
                Some(t) => {
                    if is_blank(t.as_str()) {
                        return Err(StoreError::Serialization { kind: StoreSerializationErrorKind::InvalidTurnResult });
                    }
                    SegmentOrigin::Turn { turn_id: t.clone() }
                },
                None => {
                    return Err(StoreError::Serialization { kind: StoreSerializationErrorKind::InvalidTurnResult });
                },
            }
        } else {
            return Err(StoreError::Serialization { kind: StoreSerializationErrorKind::InvalidTurnResult });
        };
        if row.sequence < 1 {
            return Err(StoreError::Serialization { kind: StoreSerializationErrorKind::InvalidTurnResult });
        }
        let text = match BoundedText::try_new(row.story_text.clone(), "recent_segment", max_bytes) {
            Ok(t) => t,
            Err(_) => {
                return Err(StoreError::ConstraintViolation { constraint: owned("max_recent_segment_bytes") });
            },
        };
        segs.push(RecentSegment { sequence: row.sequence as u64, origin, text });
        i = i + 1;
    }
    assert(rows@.take(rows@.len() as int) =~= rows@);
    let mut k: usize = 0;
    while k < rows.len()
        invariant
            rows@.len() <= limits.max_recent_segments,
            segment_rows_error(rows@, limits.max_recent_segment_bytes as int) is None,
            k <= rows@.len(),
            forall|a: int| 0 <= a < k ==> summarized_through < #[trigger] rows@[a].sequence,
            forall|a: int, b: int| #![trigger rows@[a], rows@[b]] 0 <= a < b < k ==> rows@[a].sequence < rows@[b].sequence,
        decreases rows@.len() - k,
    {
        let seq = rows[k].sequence;
        if seq < 0 || (seq as u64) <= summarized_through || (k > 0 && seq <= rows[k - 1].sequence) {
            proof {
                if k > 0 && seq <= rows@[k - 1].sequence && summarized_through < seq {
                    assert(rows@[k - 1].sequence >= rows@[k as int].sequence);
                }
            }
            return Err(StoreError::ConstraintViolation { constraint: owned("story_continuity") });
        }
        proof {
            assert forall|a: int, b: int| #![trigger rows@[a], rows@[b]] 0 <= a < b < k + 1 implies rows@[a].sequence
                < rows@[b].sequence by {
                if b == k && a < k - 1 {
                    assert(rows@[a].sequence < rows@[k - 1].sequence);
                }
            }
        }
        k = k + 1;
    }
    Ok(segs)
}

/// A stored entity row names a known kind, and a role row a role id that
/// is not blank.
pub open spec fn entity_row_valid(row: (String, String)) -> bool {
    entity_tag_of(row.0@) matches Some(t) && !(t == 1 && blank(row.1@))
}

/// The entity a valid stored row names.
pub open spec fn entity_row_view(row: (String, String)) -> (u32, Seq<char>) {
    (entity_tag_of(row.0@).unwrap(), row.1@)
}

/// The entity catalog of a story, from its stored entity rows (at most one
/// more than the limit is read): more than `max_entity_catalog` rows
/// exceed that limit; a row of an unknown kind, or a blank role id, is an
/// invalid record; else the catalog lists each entity of the rows once, in
/// increasing order.
pub fn assemble_entity_catalog(rows: &Vec<(String, String)>, limits: &SnapshotLimits) -> (r: Result<Vec<KnowledgeEntity>, StoreError>)
    ensures
        rows@.len() > limits.max_entity_catalog ==> (r matches Err(e) && store_error_is(
            e,
            StoreErrorView::Limit("max_entity_catalog"@),
        )),
        rows@.len() <= limits.max_entity_catalog && (exists|i: int| 0 <= i < rows@.len() && !entity_row_valid(#[trigger] rows@[i]))
            ==> r == Err::<Vec<KnowledgeEntity>, StoreError>(invalid_record_spec()),
        r is Ok <==> rows@.len() <= limits.max_entity_catalog && forall|i: int|
            0 <= i < rows@.len() ==> entity_row_valid(#[trigger] rows@[i]),
        r matches Ok(catalog) ==> canonical_entity_list(
            entities_view(catalog@),
            rows@.map_values(|row: (String, String)| entity_row_view(row)),
        ),
{
    if rows.len() > limits.max_entity_catalog {
        return Err(StoreError::LimitExceeded { limit: "max_entity_catalog" });
    }
    let mut parsed: Vec<KnowledgeEntity> = Vec::new();
    let mut i: usize = 0;
    while i < rows.len()
        invariant
            rows@.len() <= limits.max_entity_catalog,
            i <= rows@.len(),
            parsed@.len() == i,
            forall|k: int| 0 <= k < i ==> entity_row_valid(#[trigger] rows@[k]),
            forall|k: int| 0 <= k < i ==> (#[trigger] parsed@[k])@ == entity_row_view(rows@[k]),
        decreases rows@.len() - i,
    {
        let e = parse_entity(rows[i].0.as_str(), rows[i].1.as_str());
        match e {
            Ok(e) => {
                parsed.push(e);
            },
            Err(err) => {
                return Err(err);
            },
        }
        i = i + 1;
    }
    let catalog = canonical_entities(&parsed);
    assert(entities_view(parsed@) =~= rows@.map_values(|row: (String, String)| entity_row_view(row)));
    Ok(catalog)
}


/// What the decoded projections of a story measure, in the order they are
/// decoded; `None` (or `false`) where a projection did not decode. Each
/// role's entry is its compact byte length, `None` where it cannot be
/// measured.
#[derive(Debug, Clone)]
pub struct SnapshotMeasures {
    pub role_bytes: Option<Vec<Option<usize>>>,
    pub relationship_count: Option<usize>,
    pub narrative_state_decoded: bool,
    pub fact_values_decoded: bool,
    pub scene_bytes_and_roles: Option<(usize, usize)>,
    pub summary_decoded: bool,
    pub constraint_count: Option<usize>,
}

pub open spec fn role_bytes_error(v: Seq<Option<usize>>, max_bytes: int) -> Option<StoreErrorView>
    decreases v.len(),
{
    if v.len() == 0 {
        None
    } else {
        first_of(
            role_bytes_error(v.drop_last(), max_bytes),
            match v.last() {
                None => Some(StoreErrorView::Serialization(StoreSerializationErrorKind::InvalidRoleState)),
                Some(b) => if b > max_bytes {
                    Some(StoreErrorView::Constraint("max_role_bytes"@))
                } else {
                    None
                },
            },
        )
    }
}

pub open spec fn count_outcome(count: Option<usize>, maximum: usize, name: Seq<char>) -> Option<StoreErrorView> {
    match count {
        None => Some(StoreErrorView::Serialization(StoreSerializationErrorKind::InvalidStoryState)),
        Some(n) => if n > maximum {
            Some(StoreErrorView::Constraint(name))
        } else {
            None
        },
    }
}

pub open spec fn decoded_outcome(decoded: bool) -> Option<StoreErrorView> {
    if decoded {
        None
    } else {
        Some(StoreErrorView::Serialization(StoreSerializationErrorKind::InvalidStoryState))
    }
}

/// The first projection of a story that did not decode or breaks a limit.
pub open spec fn snapshot_measures_error(m: SnapshotMeasures, l: SnapshotLimits) -> Option<StoreErrorView> {
    first_of(
        match m.role_bytes {
            None => Some(StoreErrorView::Serialization(StoreSerializationErrorKind::InvalidRoleState)),
            Some(v) => if v@.len() > l.max_roles {
                Some(StoreErrorView::Constraint("max_roles"@))
            } else {
                role_bytes_error(v@, l.max_role_bytes as int)
            },
        },
    first_of(
        count_outcome(m.relationship_count, l.max_relationships, "max_relationships"@),
    first_of(
        decoded_outcome(m.narrative_state_decoded),
    first_of(
        decoded_outcome(m.fact_values_decoded),
    first_of(
        match m.scene_bytes_and_roles {
            None => Some(StoreErrorView::Serialization(StoreSerializationErrorKind::InvalidStoryState)),
            Some(sc) => if sc.0 > l.max_scene_bytes {
                Some(StoreErrorView::Constraint("max_scene_bytes"@))
            } else if sc.1 > l.max_scene_roles {
                Some(StoreErrorView::Constraint("max_scene_roles"@))
            } else {
                None
            },
        },
    first_of(
        decoded_outcome(m.summary_decoded),
        count_outcome(m.constraint_count, l.max_constraints, "max_constraints"@),
    ))))))
}

fn constraint(name: &str) -> (r: StoreError)
    ensures
        store_error_is(r, StoreErrorView::Constraint(name@)),
{
    StoreError::ConstraintViolation { constraint: owned(name) }
}

/// Holds the decoded projections of a story to the snapshot limits, in the
/// order they are decoded: the first that did not decode, or that has more
/// roles, relationships, scene bytes, scene roles or constraints than the
/// limits allow (or a role over its byte budget), is reported.
pub fn check_snapshot_measures(m: &SnapshotMeasures, limits: &SnapshotLimits) -> (r: Result<(), StoreError>)
    ensures
        r is Ok <==> snapshot_measures_error(*m, *limits) is None,
        r matches Err(e) ==> (snapshot_measures_error(*m, *limits) matches Some(v) && store_error_is(e, v)),
{
    let role_bytes = match &m.role_bytes {
        None => return Err(StoreError::Serialization { kind: StoreSerializationErrorKind::InvalidRoleState }),
        Some(v) => v,
    };
    if role_bytes.len() > limits.max_roles {
        return Err(constraint("max_roles"));
    }
    let mut i: usize = 0;
    while i < role_bytes.len()
        invariant
            i <= role_bytes@.len(),
            role_bytes@.len() <= limits.max_roles,
            m.role_bytes matches Some(v) && v@ == role_bytes@,
            role_bytes_error(role_bytes@.take(i as int), limits.max_role_bytes as int) is None,
        decreases role_bytes@.len() - i,
    {
        let ghost v = role_bytes@;
        proof {
            assert(v.take(i + 1).drop_last() =~= v.take(i as int));
        }
        match role_bytes[i] {
            None => {
                proof {
                    lemma_role_bytes_error_extends(v, limits.max_role_bytes as int, i + 1);
                }
                return Err(StoreError::Serialization { kind: StoreSerializationErrorKind::InvalidRoleState });
            },
            Some(b) => {
                if b > limits.max_role_bytes {
                    proof {
                        lemma_role_bytes_error_extends(v, limits.max_role_bytes as int, i + 1);
                    }
                    return Err(constraint("max_role_bytes"));
                }
            },
        }
        i = i + 1;
    }
    assert(role_bytes@.take(role_bytes@.len() as int) =~= role_bytes@);
    match m.relationship_count {
        None => return Err(invalid_record()),
        Some(n) => if n > limits.max_relationships {
            return Err(constraint("max_relationships"));
        },
    }
    if !m.narrative_state_decoded || !m.fact_values_decoded {
        return Err(invalid_record());
    }
    match m.scene_bytes_and_roles {
        None => return Err(invalid_record()),
        Some(sc) => {
            if sc.0 > limits.max_scene_bytes {
                return Err(constraint("max_scene_bytes"));
            }
            if sc.1 > limits.max_scene_roles {
                return Err(constraint("max_scene_roles"));
            }
        },
    }
    if !m.summary_decoded {
        return Err(invalid_record());
    }
    match m.constraint_count {
        None => Err(invalid_record()),
        Some(n) => if n > limits.max_constraints {
            Err(constraint("max_constraints"))
        } else {
            Ok(())
        },
    }
}

proof fn lemma_role_bytes_error_extends(v: Seq<Option<usize>>, max_bytes: int, n: int)
    requires
        0 <= n <= v.len(),
    ensures
        role_bytes_error(v.take(n), max_bytes) is Some ==> role_bytes_error(v, max_bytes) == role_bytes_error(
            v.take(n),
            max_bytes,
        ),
    decreases v.len() - n,
{
    if n == v.len() {
        assert(v.take(n) =~= v);
    } else {
        assert(v.take(n + 1).drop_last() =~= v.take(n));
        lemma_role_bytes_error_extends(v, max_bytes, n + 1);
    }
}

/// The pack's own limits, held after the story's: more topics than
/// `max_topics`, then the first topic with more aliases than
/// `max_topic_aliases_per_topic`, then a premise over
/// `max_story_profile_bytes` bytes.
pub open spec fn pack_contents_error(alias_counts: Seq<usize>, premise_bytes: usize, l: SnapshotLimits) -> Option<StoreErrorView> {
    if alias_counts.len() > l.max_topics {
        Some(StoreErrorView::Constraint("max_topics"@))
    } else if exists|i: int| 0 <= i < alias_counts.len() && #[trigger] alias_counts[i] > l.max_topic_aliases_per_topic {
        Some(StoreErrorView::Constraint("max_topic_aliases_per_topic"@))
    } else if premise_bytes > l.max_story_profile_bytes {
        Some(StoreErrorView::Constraint("max_story_profile_bytes"@))
    } else {
        None
    }
}

/// Holds the decoded pack of a snapshot (the alias count of each topic,
/// and the premise's byte length) to the snapshot limits.
pub fn check_pack_contents(alias_counts: &Vec<usize>, premise_bytes: usize, limits: &SnapshotLimits) -> (r: Result<(), StoreError>)
    ensures
        r is Ok <==> pack_contents_error(alias_counts@, premise_bytes, *limits) is None,
        r matches Err(e) ==> (pack_contents_error(alias_counts@, premise_bytes, *limits) matches Some(v) && store_error_is(e, v)),
{
    if alias_counts.len() > limits.max_topics {
        return Err(constraint("max_topics"));
    }
    let mut i: usize = 0;
    while i < alias_counts.len()
        invariant
            i <= alias_counts@.len(),
            alias_counts@.len() <= limits.max_topics,
            forall|k: int| 0 <= k < i ==> #[trigger] alias_counts@[k] <= limits.max_topic_aliases_per_topic,
        decreases alias_counts@.len() - i,
    {
        if alias_counts[i] > limits.max_topic_aliases_per_topic {
            return Err(constraint("max_topic_aliases_per_topic"));
        }
        i = i + 1;
    }
    if premise_bytes > limits.max_story_profile_bytes {
        return Err(constraint("max_story_profile_bytes"));
    }
    Ok(())
}

/// The bounds of the query for recent segments: the sequence the summary
/// reaches and one more row than the limit, each as the database takes it.
pub fn segment_query_bounds(summarized_through: u64, limits: &SnapshotLimits) -> (r: Result<(i64, i64), StoreError>)
    ensures
        limits.max_recent_segments + 1 > usize::MAX ==> (r matches Err(e) && store_error_is(
            e,
            StoreErrorView::Limit("max_recent_segments"@),
        )),
        limits.max_recent_segments + 1 <= usize::MAX && summarized_through > i64::MAX ==> (r matches Err(e)
            && store_error_is(e, StoreErrorView::Serialization(StoreSerializationErrorKind::InvalidTurnResult))),
        limits.max_recent_segments + 1 <= usize::MAX && summarized_through <= i64::MAX && limits.max_recent_segments + 1
            > i64::MAX ==> (r matches Err(e) && store_error_is(e, StoreErrorView::Limit("max_recent_segments"@))),
        r is Ok <==> limits.max_recent_segments + 1 <= usize::MAX && limits.max_recent_segments + 1 <= i64::MAX
            && summarized_through <= i64::MAX,
        r matches Ok(b) ==> b.0 == summarized_through && b.1 == limits.max_recent_segments + 1,
{
    let limit = match limits.max_recent_segments.checked_add(1) {
        Some(v) => v,
        None => return Err(StoreError::LimitExceeded { limit: "max_recent_segments" }),
    };
    if summarized_through > i64::MAX as u64 {
        return Err(StoreError::Serialization { kind: StoreSerializationErrorKind::InvalidTurnResult });
    }
    if limit as u64 > i64::MAX as u64 {
        return Err(StoreError::LimitExceeded { limit: "max_recent_segments" });
    }
    Ok((summarized_through as i64, limit as i64))
}

/// The row limit of the query for the entity catalog: one more than the
/// catalog may hold, as the database takes it.
pub fn entity_query_limit(limits: &SnapshotLimits) -> (r: Result<i64, StoreError>)
    ensures
        r is Ok <==> limits.max_entity_catalog + 1 <= usize::MAX && limits.max_entity_catalog + 1 <= i64::MAX,
        r matches Ok(n) ==> n == limits.max_entity_catalog + 1,
        r matches Err(e) ==> store_error_is(e, StoreErrorView::Limit("max_entity_catalog"@)),
{
    let limit = match limits.max_entity_catalog.checked_add(1) {
        Some(v) => v,
        None => return Err(StoreError::LimitExceeded { limit: "max_entity_catalog" }),
    };
    if limit as u64 > i64::MAX as u64 {
        return Err(StoreError::LimitExceeded { limit: "max_entity_catalog" });
    }
    Ok(limit as i64)
}


/// The stored row a snapshot is read from: the story's revision and its
/// pack's id, key, version and digest.
#[derive(Debug, Clone)]
pub struct StoredSnapshotRow {
    pub revision: i64,
    pub pack_id: String,
    pub pack_key: String,
    pub pack_version: String,
    pub pack_digest: String,
}

/// What a snapshot's knowledge is read against: the story, the pack digest
/// and the revision.
#[derive(Debug, Clone)]
pub struct KnowledgeSnapshotRef {
    pub story_id: String,
    pub pack_digest: String,
    pub base_revision: u64,
}

/// A story as read at one revision: the revision, the pack it is frozen
/// on, what its knowledge is read against, its recent segments and its
/// entity catalog.
#[derive(Debug, Clone)]
pub struct StoredStorySnapshot {
    pub story_id: String,
    pub base_revision: u64,
    pub pack: FrozenStoryPackRef,
    pub knowledge: KnowledgeSnapshotRef,
    pub recent_segments: Vec<RecentSegment>,
    pub entity_catalog: Vec<KnowledgeEntity>,
}

/// Builds the snapshot from its stored row and its assembled parts: a
/// missing row is not found; else the snapshot is at the stored revision,
/// on the stored pack, with its knowledge read against the same story,
/// digest and revision.
pub fn assemble_story_snapshot(
    story_id: &str,
    row: Option<StoredSnapshotRow>,
    recent_segments: Vec<RecentSegment>,
    entity_catalog: Vec<KnowledgeEntity>,
) -> (r: Result<StoredStorySnapshot, StoreError>)
    ensures
        row is None ==> (r matches Err(e) && store_error_is(e, StoreErrorView::NotFound)),
        row matches Some(w) ==> (r matches Ok(snap) && {
            &&& snap.story_id@ == story_id@
            &&& snap.base_revision == w.revision as u64
            &&& snap.pack.pack_id@ == w.pack_id@
            &&& snap.pack.pack_key@ == w.pack_key@
            &&& snap.pack.version@ == w.pack_version@
            &&& snap.pack.digest@ == w.pack_digest@
            &&& snap.knowledge.story_id@ == story_id@
            &&& snap.knowledge.pack_digest@ == w.pack_digest@
            &&& snap.knowledge.base_revision == w.revision as u64
            &&& snap.recent_segments@ == recent_segments@
            &&& snap.entity_catalog@ == entity_catalog@
        }),
{
    let w = match row {
        None => return Err(StoreError::NotFound),
        Some(w) => w,
    };
    let base_revision = w.revision as u64;
    let knowledge = KnowledgeSnapshotRef {
        story_id: owned(story_id),
        pack_digest: owned(w.pack_digest.as_str()),
        base_revision,
    };
    Ok(StoredStorySnapshot {
        story_id: owned(story_id),
        base_revision,
        pack: FrozenStoryPackRef { pack_id: w.pack_id, pack_key: w.pack_key, version: w.pack_version, digest: w.pack_digest },
        knowledge,
        recent_segments,
        entity_catalog,
    })
}

} // verus!
