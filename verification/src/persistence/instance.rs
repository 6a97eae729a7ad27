//! The rows a new story instance starts with: the story at revision 0 with
//! its player role and an empty summary, the opening as the first segment,
//! and one knowledge row per seeded entry.
use crate::domain::{KnowledgeSourceId, RoleId};
use crate::persistence::knowledge::{kind_name, kind_name_spec};
use crate::text::owned;
use vstd::prelude::*;

verus! {

/// The summary a new story starts with, as stored.
pub const EMPTY_STORY_SUMMARY: &'static str = "{\"text\":\"\",\"summarized_through\":null}";

#[derive(Debug, Clone)]
pub struct StoryRow {
    pub id: String,
    pub revision: u64,
    pub player_role_id: Option<String>,
    pub created_at_ms: i64,
    pub story_summary: String,
}

#[derive(Debug, Clone)]
pub struct SegmentRow {
    pub id: String,
    pub sequence: u64,
    pub origin: &'static str,
    pub story_text: String,
    pub created_at_ms: i64,
}

#[derive(Debug, Clone)]
pub struct KnowledgeRow {
    pub knowledge_kind: &'static str,
    pub source_id: String,
}

/// What the store reports of a story: its id, when it was created, its
/// revision and the number of its last committed turn.
#[derive(Debug, Clone)]
pub struct StoryInfo {
    pub story_id: String,
    pub created_at_ms: i64,
    pub base_revision: u64,
    pub last_committed_turn_number: u64,
}

/// The rows a new story writes, and the story's info once they are written.
#[derive(Debug, Clone)]
pub struct StoryInstanceRows {
    pub info: StoryInfo,
    pub story: StoryRow,
    pub opening: SegmentRow,
    pub knowledge: Vec<KnowledgeRow>,
}

/// The first player-controlled role, in the order the roles are given.
pub open spec fn first_player(roles: Seq<(RoleId, bool)>) -> Option<Seq<char>>
    decreases roles.len(),
{
    if roles.len() == 0 {
        None
    } else if roles[0].1 {
        Some(roles[0].0@)
    } else {
        first_player(roles.drop_first())
    }
}

/// The rows of a new story instance. `roles` are its roles in id order,
/// each with whether a player controls it; `knowledge` the ids of its
/// seeded entries, in order.
pub fn story_instance_rows(
    story_id: &str,
    roles: &Vec<(RoleId, bool)>,
    opening: &str,
    created_at_ms: i64,
    knowledge: &Vec<KnowledgeSourceId>,
) -> (r: StoryInstanceRows)
    ensures
        r.info.story_id@ == story_id@,
        r.info.created_at_ms == created_at_ms,
        r.info.base_revision == 0,
        r.info.last_committed_turn_number == 0,
        r.story.id@ == story_id@,
        r.story.revision == 0,
        r.story.player_role_id matches Some(p) ==> first_player(roles@) == Some(p@),
        r.story.player_role_id is None ==> first_player(roles@) is None,
        r.story.created_at_ms == created_at_ms,
        r.story.story_summary@ == EMPTY_STORY_SUMMARY@,
        r.opening.id@ == story_id@ + ":opening"@,
        r.opening.sequence == 1,
        r.opening.origin@ == "opening"@,
        r.opening.story_text@ == opening@,
        r.opening.created_at_ms == created_at_ms,
        r.knowledge@.len() == knowledge@.len(),
        forall|k: int|
            0 <= k < knowledge@.len() ==> (#[trigger] r.knowledge@[k]).knowledge_kind@ == kind_name_spec(
                knowledge@[k]@.0,
            ) && r.knowledge@[k].source_id@ == knowledge@[k]@.1,
{
    let mut player: Option<String> = None;
    let mut i: usize = 0;
    assert(roles@.skip(0) =~= roles@);
    while i < roles.len()
        invariant
            i <= roles@.len(),
            player is None ==> first_player(roles@) == first_player(roles@.skip(i as int)),
            player matches Some(p) ==> first_player(roles@) == Some(p@),
        decreases roles@.len() - i,
    {
        assert(roles@.skip(i as int).drop_first() =~= roles@.skip(i + 1));
        if player.is_none() && roles[i].1 {
            player = Some(owned(roles[i].0.as_str()));
        }
        i = i + 1;
    }
    assert(roles@.skip(i as int).len() == 0);
    let mut rows: Vec<KnowledgeRow> = Vec::new();
    let mut k: usize = 0;
    while k < knowledge.len()
        invariant
            k <= knowledge@.len(),
            rows@.len() == k,
            forall|j: int|
                0 <= j < k ==> (#[trigger] rows@[j]).knowledge_kind@ == kind_name_spec(knowledge@[j]@.0)
                    && rows@[j].source_id@ == knowledge@[j]@.1,
        decreases knowledge@.len() - k,
    {
        rows.push(KnowledgeRow { knowledge_kind: kind_name(knowledge[k].kind()), source_id: owned(knowledge[k].as_str()) });
        k = k + 1;
    }
    let mut opening_id = owned(story_id);
    opening_id.append(":opening");
    StoryInstanceRows {
        info: StoryInfo { story_id: owned(story_id), created_at_ms, base_revision: 0, last_committed_turn_number: 0 },
        story: StoryRow {
            id: owned(story_id),
            revision: 0,
            player_role_id: player,
            created_at_ms,
            story_summary: owned(EMPTY_STORY_SUMMARY),
        },
        opening: SegmentRow {
            id: opening_id,
            sequence: 1,
            origin: "opening",
            story_text: owned(opening),
            created_at_ms,
        },
        knowledge: rows,
    }
}

} // verus!
