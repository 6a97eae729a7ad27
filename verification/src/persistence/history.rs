//! Paging through a story's history: the opening and the committed turns
//! after a sequence, a page at a time, each text held to its byte budget.
use crate::persistence::commit::{store_error_is, StoreErrorView};
use crate::persistence::store::{StoreError, StoreSerializationErrorKind};
use crate::text::byte_len;
use vstd::prelude::*;

verus! {

/// The limits history is read under.
#[derive(Debug, Clone, Copy)]
pub struct StoryHistoryConfig {
    pub max_page_size: usize,
    pub max_player_input_bytes: usize,
    pub max_story_text_bytes: usize,
}

/// Which page to read: the turns after a sequence (from the start when
/// there is none), at most `limit` of them.
#[derive(Debug, Clone, Copy)]
pub struct StoryHistoryQuery {
    pub after_sequence: Option<u64>,
    pub limit: usize,
}

/// The story's opening.
#[derive(Debug, Clone)]
pub struct StoryOpeningView {
    pub sequence: u64,
    pub story_text: String,
    pub created_at: i64,
}

/// A committed turn.
#[derive(Debug, Clone)]
pub struct StoryTurnView {
    pub turn_number: u64,
    pub sequence: u64,
    pub player_contribution: String,
    pub story_text: String,
    pub created_at: i64,
}

/// A page of history, and where the next page starts when there is more.
#[derive(Debug, Clone)]
pub struct StoryHistoryPage {
    pub opening: Option<StoryOpeningView>,
    pub turns: Vec<StoryTurnView>,
    pub next_after_sequence: Option<u64>,
}

/// A stored opening segment.
#[derive(Debug, Clone)]
pub struct OpeningRecord {
    pub sequence: i64,
    pub story_text: String,
    pub created_at: i64,
}

/// A stored turn.
#[derive(Debug, Clone)]
pub struct TurnRecord {
    pub turn_number: i64,
    pub sequence: i64,
    pub player_contribution: String,
    pub story_text: String,
    pub created_at: i64,
}

pub open spec fn invalid_turn_view() -> StoreErrorView {
    StoreErrorView::Serialization(StoreSerializationErrorKind::InvalidTurnResult)
}

fn invalid_turn() -> (r: StoreError)
    ensures
        store_error_is(r, invalid_turn_view()),
{
    StoreError::Serialization { kind: StoreSerializationErrorKind::InvalidTurnResult }
}

fn page_size_exceeded() -> (r: StoreError)
    ensures
        store_error_is(r, StoreErrorView::Limit("story_history_page_size"@)),
{
    StoreError::LimitExceeded { limit: "story_history_page_size" }
}

/// How many turns to fetch: one more than the page, to learn whether there
/// is more. A page of no turns or more than the page size allows is refused.
pub fn history_fetch_limit(query: &StoryHistoryQuery, config: &StoryHistoryConfig) -> (r: Result<usize, StoreError>)
    ensures
        r is Ok <==> 0 < query.limit <= config.max_page_size && query.limit + 1 <= usize::MAX,
        r matches Ok(n) ==> n == query.limit + 1,
        r matches Err(e) ==> store_error_is(e, StoreErrorView::Limit("story_history_page_size"@)),
{
    if query.limit == 0 || query.limit > config.max_page_size {
        return Err(page_size_exceeded());
    }
    match query.limit.checked_add(1) {
        Some(n) => Ok(n),
        None => Err(page_size_exceeded()),
    }
}

/// The bounds of the turn query as the database takes them: the sequence
/// to read after (zero from the start) and the fetch limit.
pub fn history_bounds(query: &StoryHistoryQuery, fetch_limit: usize) -> (r: Result<(i64, i64), StoreError>)
    ensures
        ({
            let after: int = match query.after_sequence {
                Some(a) => a as int,
                None => 0,
            };
            &&& after > i64::MAX ==> (r matches Err(e) && store_error_is(e, invalid_turn_view()))
            &&& after <= i64::MAX && fetch_limit > i64::MAX ==> (r matches Err(e) && store_error_is(
                e,
                StoreErrorView::Limit("story_history_page_size"@),
            ))
            &&& after <= i64::MAX && fetch_limit <= i64::MAX ==> r == Ok::<(i64, i64), StoreError>(
                (after as i64, fetch_limit as i64),
            )
        }),
{
    let after: u64 = match query.after_sequence {
        Some(a) => a,
        None => 0,
    };
    if after > i64::MAX as u64 {
        return Err(invalid_turn());
    }
    if fetch_limit as u64 > i64::MAX as u64 {
        return Err(page_size_exceeded());
    }
    Ok((after as i64, fetch_limit as i64))
}

/// What is wrong with the stored opening: a text over the budget exceeds
/// `max_story_text_bytes`; a sequence below one is an invalid turn result.
pub open spec fn opening_error(o: OpeningRecord, config: StoryHistoryConfig) -> Option<StoreErrorView> {
    if byte_len(o.story_text@) > config.max_story_text_bytes {
        Some(StoreErrorView::Limit("max_story_text_bytes"@))
    } else if o.sequence < 1 {
        Some(invalid_turn_view())
    } else {
        None
    }
}

/// The opening as history shows it, if the story has one.
pub fn assemble_opening(row: Option<OpeningRecord>, config: &StoryHistoryConfig) -> (r: Result<
    Option<StoryOpeningView>,
    StoreError,
>)
    ensures
        row is None ==> r matches Ok(None),
        row matches Some(o) ==> match opening_error(o, *config) {
            Some(v) => r matches Err(e) && store_error_is(e, v),
            None => r matches Ok(Some(view)) && view.sequence == o.sequence && view.story_text@ == o.story_text@
                && view.created_at == o.created_at,
        },
{
    match row {
        None => Ok(None),
        Some(o) => {
            if o.story_text.as_str().len() > config.max_story_text_bytes {
                return Err(StoreError::LimitExceeded { limit: "max_story_text_bytes" });
            }
            if o.sequence < 1 {
                return Err(invalid_turn());
            }
            Ok(Some(StoryOpeningView { sequence: o.sequence as u64, story_text: o.story_text, created_at: o.created_at }))
        },
    }
}

/// What is wrong with a stored turn: a player contribution or a text over
/// its budget exceeds that limit; a negative turn number or a sequence
/// below one is an invalid turn result.
pub open spec fn turn_error(t: TurnRecord, config: StoryHistoryConfig) -> Option<StoreErrorView> {
    if byte_len(t.player_contribution@) > config.max_player_input_bytes {
        Some(StoreErrorView::Limit("max_player_input_bytes"@))
    } else if byte_len(t.story_text@) > config.max_story_text_bytes {
        Some(StoreErrorView::Limit("max_story_text_bytes"@))
    } else if t.turn_number < 0 || t.sequence < 1 {
        Some(invalid_turn_view())
    } else {
        None
    }
}

/// The error of the first faulty turn.
pub open spec fn turns_error(rows: Seq<TurnRecord>, config: StoryHistoryConfig) -> Option<StoreErrorView>
    decreases rows.len(),
{
    if rows.len() == 0 {
        None
    } else {
        match turns_error(rows.drop_last(), config) {
            Some(v) => Some(v),
            None => turn_error(rows.last(), config),
        }
    }
}

pub open spec fn turn_matches(v: StoryTurnView, t: TurnRecord) -> bool {
    &&& v.turn_number == t.turn_number
    &&& v.sequence == t.sequence
    &&& v.player_contribution@ == t.player_contribution@
    &&& v.story_text@ == t.story_text@
    &&& v.created_at == t.created_at
}

proof fn lemma_turns_error_extends(rows: Seq<TurnRecord>, config: StoryHistoryConfig, n: int)
    requires
        0 <= n <= rows.len(),
        turns_error(rows.take(n), config) is Some,
    ensures
        turns_error(rows, config) == turns_error(rows.take(n), config),
    decreases rows.len() - n,
{
    if n == rows.len() {
        assert(rows.take(n) =~= rows);
    } else {
        assert(rows.take(n + 1).drop_last() =~= rows.take(n));
        lemma_turns_error_extends(rows, config, n + 1);
    }
}

/// A page from the opening and the turns read after the query's sequence
/// (in ascending sequence, at most one more than the page): the first
/// `limit` turns are checked and shown; when more were read, the next page
/// starts after the last shown.
pub fn assemble_history_page(
    query: &StoryHistoryQuery,
    config: &StoryHistoryConfig,
    opening: Option<StoryOpeningView>,
    rows: Vec<TurnRecord>,
) -> (r: Result<StoryHistoryPage, StoreError>)
    ensures
        ({
            let shown = if rows@.len() <= query.limit {
                rows@
            } else {
                rows@.take(query.limit as int)
            };
            match turns_error(shown, *config) {
                Some(v) => r matches Err(e) && store_error_is(e, v),
                None => r matches Ok(page) && {
                    &&& page.opening == opening
                    &&& page.turns@.len() == shown.len()
                    &&& forall|i: int| 0 <= i < shown.len() ==> turn_matches(#[trigger] page.turns@[i], shown[i])
                    &&& page.next_after_sequence == if rows@.len() > query.limit && shown.len() > 0 {
                        Some(shown.last().sequence as u64)
                    } else {
                        None::<u64>
                    }
                },
            }
        }),
{
    let ghost shown = if rows@.len() <= query.limit {
        rows@
    } else {
        rows@.take(query.limit as int)
    };
    let n: usize = if rows.len() <= query.limit {
        rows.len()
    } else {
        query.limit
    };
    assert(shown =~= rows@.take(n as int));
    let mut turns: Vec<StoryTurnView> = Vec::new();
    let mut i: usize = 0;
    while i < n
        invariant
            n <= rows@.len(),
            shown == rows@.take(n as int),
            shown == (if rows@.len() <= query.limit {
                rows@
            } else {
                rows@.take(query.limit as int)
            }),
            i <= n,
            turns_error(shown.take(i as int), *config) is None,
            turns@.len() == i,
            forall|k: int| 0 <= k < i ==> turn_matches(#[trigger] turns@[k], shown[k]),
        decreases n - i,
    {
        let t = &rows[i];
        assert(shown[i as int] == rows@[i as int]);
        assert(shown.take(i + 1).drop_last() =~= shown.take(i as int));
        assert(shown.take(i + 1).last() == rows@[i as int]);
        if t.player_contribution.as_str().len() > config.max_player_input_bytes {
            proof {
                lemma_turns_error_extends(shown, *config, i + 1);
            }
            return Err(StoreError::LimitExceeded { limit: "max_player_input_bytes" });
        }
        if t.story_text.as_str().len() > config.max_story_text_bytes {
            proof {
                lemma_turns_error_extends(shown, *config, i + 1);
            }
            return Err(StoreError::LimitExceeded { limit: "max_story_text_bytes" });
        }
        if t.turn_number < 0 || t.sequence < 1 {
            proof {
                lemma_turns_error_extends(shown, *config, i + 1);
            }
            return Err(invalid_turn());
        }
        turns.push(
            StoryTurnView {
                turn_number: t.turn_number as u64,
                sequence: t.sequence as u64,
                player_contribution: t.player_contribution.clone(),
                story_text: t.story_text.clone(),
                created_at: t.created_at,
            },
        );
        i = i + 1;
    }
    assert(shown.take(n as int) =~= shown);
    let next_after_sequence = if rows.len() > query.limit && n > 0 {
        Some(rows[n - 1].sequence as u64)
    } else {
        None
    };
    Ok(StoryHistoryPage { opening, turns, next_after_sequence })
}

} // verus!
