//! The decisions of committing a turn: idempotent replay, the revision and
//! turn-number checks, the checks of role, relationship and event changes
//! against the stored state, and the committed revision and usage.
use crate::persistence::store::{StoreError, StoreSerializationErrorKind};
use crate::persistence::usage::{aggregate_llm_usage, input_sum, output_sum, total_sum, usage_overflow, LlmCallUsage, LlmUsageAggregate};
use crate::domain::KnowledgeKind;
use crate::planning::writer_planner::{TurnFailureKind, TurnStage};
use crate::text::{decimal, owned, push_decimal, text_eq};
use vstd::prelude::*;

verus! {

/// The turn already stored under the commit's idempotency key.
#[derive(Debug, Clone)]
pub struct StoredTurn {
    pub request_digest: String,
    pub result_json: String,
}

/// The story as stored: its revision and last turn number (as the database
/// holds them), the sequence its next segment takes (one past the largest
/// stored), the ids of its roles, the keys of its relationships, the
/// revision of its narrative graph and the states of the graph's nodes (a
/// later entry for a key replaces an earlier one; a node not listed is
/// inactive).
#[derive(Debug, Clone)]
pub struct StoredStoryState {
    pub revision: i64,
    pub last_turn_number: i64,
    pub next_sequence: i64,
    pub role_ids: Vec<String>,
    pub relationship_keys: Vec<String>,
    pub graph_revision: u64,
    pub node_states: Vec<(String, NodeState)>,
}

/// The state of a narrative node.
#[derive(Debug, Clone, Copy, PartialEq, Eq, Structural)]
pub enum NodeState {
    Inactive,
    Active,
    Completed,
    Skipped,
}

/// How a transition moves a node: activating an inactive node, or
/// completing or skipping an active one.
#[derive(Debug, Clone, Copy, PartialEq, Eq, Structural)]
pub enum TransitionKind {
    Activate,
    Complete,
    Skip,
}

/// A transition of a narrative node that the turn resolved.
#[derive(Debug, Clone)]
pub struct NarrativeTransition {
    pub node_key: String,
    pub kind: TransitionKind,
}

/// A change to the relationships: a new one under its key, or a new state
/// of the one under `key` (whose own key is `new_key`).
#[derive(Debug, Clone)]
pub enum RelationshipOperation {
    Add { key: String },
    Update { key: String, new_key: String },
}

/// What a commit claims of the story and brings.
#[derive(Debug, Clone)]
pub struct CommitClaim {
    pub request_digest: String,
    pub base_revision: u64,
    pub turn_number: u64,
    pub expected_graph_revision: u64,
    pub new_role_ids: Vec<String>,
    pub changed_role_ids: Vec<String>,
    pub relationship_operations: Vec<RelationshipOperation>,
    pub event_turn_numbers: Vec<u64>,
    pub llm_calls: Vec<LlmCallUsage>,
    pub transitions: Vec<NarrativeTransition>,
    pub next_graph_revision: u64,
}

/// What to do: hand back the stored result, or write the turn under the
/// committed revision, at its segment sequence, with the usage of its calls,
/// the narrative node states after its transitions (and the nodes they
/// activated) and the graph revision after them.
#[derive(Debug, Clone)]
pub enum CommitDecision {
    Replay { result_json: String },
    Apply {
        committed_revision: u64,
        turn_number: u64,
        sequence: u64,
        usage: LlmUsageAggregate,
        node_states: Vec<(String, NodeState)>,
        activated_nodes: Vec<String>,
        graph_revision: u64,
    },
}

/// Store errors as values.
pub enum StoreErrorView {
    NotFound,
    Revision,
    Idempotency,
    Constraint(Seq<char>),
    Limit(Seq<char>),
    Serialization(StoreSerializationErrorKind),
}

pub open spec fn store_error_is(e: StoreError, v: StoreErrorView) -> bool {
    match v {
        StoreErrorView::NotFound => e is NotFound,
        StoreErrorView::Revision => e is RevisionConflict,
        StoreErrorView::Idempotency => e is IdempotencyConflict,
        StoreErrorView::Constraint(c) => e matches StoreError::ConstraintViolation { constraint } && constraint@ == c,
        StoreErrorView::Limit(l) => e matches StoreError::LimitExceeded { limit } && limit@ == l,
        StoreErrorView::Serialization(k) => e == (StoreError::Serialization { kind: k }),
    }
}

pub open spec fn texts(v: Seq<String>) -> Seq<Seq<char>> {
    v.map_values(|s: String| s@)
}

/// Some new role takes an id that the story or an earlier new role has.
pub open spec fn new_role_collision(existing: Seq<Seq<char>>, news: Seq<Seq<char>>) -> bool {
    exists|k: int| 0 <= k < news.len() && (existing + news.take(k)).contains(#[trigger] news[k])
}

/// Some changed role is neither stored nor new.
pub open spec fn role_change_unknown(roles: Seq<Seq<char>>, changes: Seq<Seq<char>>) -> bool {
    exists|k: int| 0 <= k < changes.len() && !roles.contains(#[trigger] changes[k])
}

pub open spec fn op_view(o: RelationshipOperation) -> (bool, Seq<char>, Seq<char>) {
    match o {
        RelationshipOperation::Add { key } => (true, key@, key@),
        RelationshipOperation::Update { key, new_key } => (false, key@, new_key@),
    }
}

/// The relationship keys after the operations.
pub open spec fn keys_after(keys: Seq<Seq<char>>, ops: Seq<(bool, Seq<char>, Seq<char>)>) -> Seq<Seq<char>>
    decreases ops.len(),
{
    if ops.len() == 0 {
        keys
    } else {
        let k = keys_after(keys, ops.drop_last());
        if ops.last().0 {
            k.push(ops.last().1)
        } else {
            k
        }
    }
}

/// The first relationship operation that does not fit the keys before it:
/// an addition under a key already there, or an update of a key not there
/// or to a state under another key.
pub open spec fn relationship_error(keys: Seq<Seq<char>>, ops: Seq<(bool, Seq<char>, Seq<char>)>) -> Option<Seq<char>>
    decreases ops.len(),
{
    if ops.len() == 0 {
        None
    } else {
        match relationship_error(keys, ops.drop_last()) {
            Some(m) => Some(m),
            None => {
                let k = keys_after(keys, ops.drop_last());
                let o = ops.last();
                if o.0 && k.contains(o.1) {
                    Some("relationship_add_collision"@)
                } else if !o.0 && (!k.contains(o.1) || o.1 != o.2) {
                    Some("relationship_change_reference"@)
                } else {
                    None
                }
            },
        }
    }
}

/// How a commit is decided, in the order its checks are made: a stored
/// turn under the key is replayed when its digest matches and is an
/// idempotency conflict otherwise; a missing story is not found; a negative
/// or other revision, a negative last turn number, a turn number other than
/// the next one, or another graph revision is a revision conflict; turn
/// number and revision may not overflow, nor may the segment sequence have
/// run out; new roles may not reuse an id,
/// changed roles must exist; relationship operations must fit; the usage may
/// not overflow; every event must belong to the turn. A narrative
/// transition whose node is not in the state it needs is a revision
/// conflict, checked after the graph revision.
pub open spec fn commit_outcome(existing: Option<StoredTurn>, state: Option<StoredStoryState>, c: CommitClaim) -> Result<
    (u64, u64, Seq<char>),
    StoreErrorView,
> {
    match existing {
        Some(t) => if t.request_digest@ == c.request_digest@ {
            Ok((0, 0, t.result_json@))
        } else {
            Err(StoreErrorView::Idempotency)
        },
        None => match state {
            None => Err(StoreErrorView::NotFound),
            Some(s) => if s.revision < 0 || s.revision != c.base_revision {
                Err(StoreErrorView::Revision)
            } else if s.last_turn_number < 0 {
                Err(StoreErrorView::Revision)
            } else if s.last_turn_number + 1 > u64::MAX {
                Err(StoreErrorView::Limit("turn_number"@))
            } else if s.last_turn_number + 1 != c.turn_number {
                Err(StoreErrorView::Revision)
            } else if c.base_revision + 1 > u64::MAX {
                Err(StoreErrorView::Limit("story_revision"@))
            } else if s.next_sequence <= 0 {
                Err(StoreErrorView::Limit("turn_sequence"@))
            } else if new_role_collision(texts(s.role_ids@), texts(c.new_role_ids@)) {
                Err(StoreErrorView::Constraint("new_role_id_collision"@))
            } else if role_change_unknown(texts(s.role_ids@) + texts(c.new_role_ids@), texts(c.changed_role_ids@)) {
                Err(StoreErrorView::Constraint("role_change_reference"@))
            } else if let Some(m) = relationship_error(
                texts(s.relationship_keys@),
                c.relationship_operations@.map_values(|o: RelationshipOperation| op_view(o)),
            ) {
                Err(StoreErrorView::Constraint(m))
            } else if s.graph_revision != c.expected_graph_revision {
                Err(StoreErrorView::Revision)
            } else if !transitions_fit(node_views(s.node_states@), transition_views(c.transitions@)) {
                Err(StoreErrorView::Revision)
            } else if let Some(n) = usage_overflow(c.llm_calls@) {
                Err(StoreErrorView::Limit(n))
            } else if exists|k: int| 0 <= k < c.event_turn_numbers@.len() && #[trigger] c.event_turn_numbers@[k] != c.turn_number {
                Err(StoreErrorView::Constraint("event_turn_reference"@))
            } else {
                Ok(((c.base_revision + 1) as u64, c.turn_number, Seq::empty()))
            },
        },
    }
}

fn listed(v: &Vec<String>, s: &str) -> (r: bool)
    ensures
        r == texts(v@).contains(s@),
{
    let mut i: usize = 0;
    while i < v.len()
        invariant
            i <= v@.len(),
            forall|j: int| 0 <= j < i ==> (#[trigger] v@[j])@ != s@,
        decreases v@.len() - i,
    {
        if text_eq(v[i].as_str(), s) {
            assert(texts(v@)[i as int] == s@);
            return true;
        }
        i = i + 1;
    }
    proof {
        if texts(v@).contains(s@) {
            let j = choose|j: int| 0 <= j < texts(v@).len() && texts(v@)[j] == s@;
            assert(v@[j]@ == s@);
        }
    }
    false
}

fn copy_texts(v: &Vec<String>) -> (r: Vec<String>)
    ensures
        texts(r@) == texts(v@),
{
    let mut r: Vec<String> = Vec::new();
    let mut i: usize = 0;
    while i < v.len()
        invariant
            i <= v@.len(),
            texts(r@) == texts(v@.take(i as int)),
        decreases v@.len() - i,
    {
        r.push(owned(v[i].as_str()));
        assert(texts(v@.take(i + 1)) =~= texts(v@.take(i as int)).push(v@[i as int]@));
        assert(texts(r@) =~= texts(v@.take(i + 1)));
        i = i + 1;
    }
    assert(v@.take(i as int) =~= v@);
    r
}

/// The ids of the roles after the new ones, or whether a new one collides.
fn add_new_roles(roles: &Vec<String>, news: &Vec<String>) -> (r: Option<Vec<String>>)
    ensures
        match r {
            Some(all) => !new_role_collision(texts(roles@), texts(news@)) && texts(all@) == texts(roles@) + texts(news@),
            None => new_role_collision(texts(roles@), texts(news@)),
        },
{
    let ghost ex = texts(roles@);
    let ghost ns = texts(news@);
    let mut all = copy_texts(roles);
    let mut i: usize = 0;
    assert(ns.take(0) =~= Seq::<Seq<char>>::empty());
    while i < news.len()
        invariant
            i <= news@.len(),
            ex == texts(roles@),
            ns == texts(news@),
            texts(all@) == ex + ns.take(i as int),
            forall|k: int| 0 <= k < i ==> !(ex + ns.take(k)).contains(#[trigger] ns[k]),
        decreases news@.len() - i,
    {
        if listed(&all, news[i].as_str()) {
            assert(ns[i as int] == news@[i as int]@);
            return None;
        }
        let ghost before = all@;
        all.push(owned(news[i].as_str()));
        assert(texts(all@) =~= texts(before).push(news@[i as int]@));
        assert(ns[i as int] == news@[i as int]@);
        assert(ns.take(i + 1) =~= ns.take(i as int).push(ns[i as int]));
        assert(texts(all@) =~= ex + ns.take(i + 1));
        i = i + 1;
    }
    assert(ns.take(i as int) =~= ns);
    Some(all)
}

fn changes_known(roles: &Vec<String>, changes: &Vec<String>) -> (r: bool)
    ensures
        r == !role_change_unknown(texts(roles@), texts(changes@)),
{
    let mut i: usize = 0;
    while i < changes.len()
        invariant
            i <= changes@.len(),
            forall|k: int| 0 <= k < i ==> texts(roles@).contains(#[trigger] texts(changes@)[k]),
        decreases changes@.len() - i,
    {
        if !listed(roles, changes[i].as_str()) {
            assert(!texts(roles@).contains(texts(changes@)[i as int]));
            return false;
        }
        i = i + 1;
    }
    true
}

pub open spec fn op_views(ops: Seq<RelationshipOperation>) -> Seq<(bool, Seq<char>, Seq<char>)> {
    ops.map_values(|o: RelationshipOperation| op_view(o))
}

proof fn lemma_relationship_error_sticks(keys: Seq<Seq<char>>, ops: Seq<(bool, Seq<char>, Seq<char>)>, k: int)
    requires
        0 <= k <= ops.len(),
        relationship_error(keys, ops.take(k)) is Some,
    ensures
        relationship_error(keys, ops) == relationship_error(keys, ops.take(k)),
    decreases ops.len() - k,
{
    if k < ops.len() {
        assert(ops.take(k + 1).drop_last() =~= ops.take(k));
        lemma_relationship_error_sticks(keys, ops, k + 1);
    } else {
        assert(ops.take(k) =~= ops);
    }
}

fn check_relationships(keys: &Vec<String>, ops: &Vec<RelationshipOperation>) -> (r: Result<(), StoreError>)
    ensures
        match relationship_error(texts(keys@), op_views(ops@)) {
            Some(m) => r matches Err(e) && store_error_is(e, StoreErrorView::Constraint(m)),
            None => r is Ok,
        },
{
    let ghost ov = op_views(ops@);
    let mut current = copy_texts(keys);
    let mut i: usize = 0;
    assert(ov.take(0) =~= Seq::<(bool, Seq<char>, Seq<char>)>::empty());
    while i < ops.len()
        invariant
            i <= ops@.len(),
            ov == op_views(ops@),
            relationship_error(texts(keys@), ov.take(i as int)) is None,
            texts(current@) == keys_after(texts(keys@), ov.take(i as int)),
        decreases ops@.len() - i,
    {
        assert(ov.take(i + 1).drop_last() =~= ov.take(i as int));
        assert(ov.take(i + 1).last() == op_view(ops@[i as int]));
        match &ops[i] {
            RelationshipOperation::Add { key } => {
                if listed(&current, key.as_str()) {
                    proof {
                        lemma_relationship_error_sticks(texts(keys@), ov, i + 1);
                    }
                    return Err(StoreError::ConstraintViolation { constraint: owned("relationship_add_collision") });
                }
                let ghost before = current@;
                current.push(owned(key.as_str()));
                assert(texts(current@) =~= texts(before).push(key@));
                assert(texts(current@) =~= keys_after(texts(keys@), ov.take(i + 1)));
            },
            RelationshipOperation::Update { key, new_key } => {
                if !listed(&current, key.as_str()) || !text_eq(key.as_str(), new_key.as_str()) {
                    proof {
                        lemma_relationship_error_sticks(texts(keys@), ov, i + 1);
                    }
                    return Err(StoreError::ConstraintViolation { constraint: owned("relationship_change_reference") });
                }
            },
        }
        i = i + 1;
    }
    assert(ov.take(i as int) =~= ov);
    Ok(())
}

pub open spec fn node_views(v: Seq<(String, NodeState)>) -> Seq<(Seq<char>, NodeState)> {
    v.map_values(|e: (String, NodeState)| (e.0@, e.1))
}

pub open spec fn transition_views(v: Seq<NarrativeTransition>) -> Seq<(Seq<char>, TransitionKind)> {
    v.map_values(|t: NarrativeTransition| (t.node_key@, t.kind))
}

/// The state of a node: its last listed state, or inactive.
pub open spec fn state_of(states: Seq<(Seq<char>, NodeState)>, key: Seq<char>) -> NodeState
    decreases states.len(),
{
    if states.len() == 0 {
        NodeState::Inactive
    } else if states.last().0 == key {
        states.last().1
    } else {
        state_of(states.drop_last(), key)
    }
}

/// The state a transition needs its node in.
pub open spec fn from_state(k: TransitionKind) -> NodeState {
    match k {
        TransitionKind::Activate => NodeState::Inactive,
        _ => NodeState::Active,
    }
}

/// The state a transition leaves its node in.
pub open spec fn to_state(k: TransitionKind) -> NodeState {
    match k {
        TransitionKind::Activate => NodeState::Active,
        TransitionKind::Complete => NodeState::Completed,
        TransitionKind::Skip => NodeState::Skipped,
    }
}

/// The node states after the transitions, each listed after the last.
pub open spec fn states_after(states: Seq<(Seq<char>, NodeState)>, ts: Seq<(Seq<char>, TransitionKind)>) -> Seq<
    (Seq<char>, NodeState),
>
    decreases ts.len(),
{
    if ts.len() == 0 {
        states
    } else {
        states_after(states, ts.drop_last()).push((ts.last().0, to_state(ts.last().1)))
    }
}

/// Each transition finds its node in the state it needs, after the ones
/// before it.
pub open spec fn transitions_fit(states: Seq<(Seq<char>, NodeState)>, ts: Seq<(Seq<char>, TransitionKind)>) -> bool
    decreases ts.len(),
{
    if ts.len() == 0 {
        true
    } else {
        transitions_fit(states, ts.drop_last()) && state_of(states_after(states, ts.drop_last()), ts.last().0)
            == from_state(ts.last().1)
    }
}

/// The nodes the transitions activate, in order.
pub open spec fn activated_keys(ts: Seq<(Seq<char>, TransitionKind)>) -> Seq<Seq<char>>
    decreases ts.len(),
{
    if ts.len() == 0 {
        Seq::empty()
    } else if ts.last().1 == TransitionKind::Activate {
        activated_keys(ts.drop_last()).push(ts.last().0)
    } else {
        activated_keys(ts.drop_last())
    }
}

fn lookup_state(states: &Vec<(String, NodeState)>, key: &str) -> (r: NodeState)
    ensures
        r == state_of(node_views(states@), key@),
{
    let ghost vs = node_views(states@);
    let mut i: usize = states.len();
    assert(vs.take(i as int) =~= vs);
    while i > 0
        invariant
            vs == node_views(states@),
            i <= states@.len(),
            state_of(vs, key@) == state_of(vs.take(i as int), key@),
        decreases i,
    {
        assert(vs.take(i as int).drop_last() =~= vs.take(i - 1));
        assert(vs.take(i as int).last() == vs[i - 1]);
        if text_eq(states[i - 1].0.as_str(), key) {
            return states[i - 1].1;
        }
        i = i - 1;
    }
    NodeState::Inactive
}

fn transition_from(k: TransitionKind) -> (r: NodeState)
    ensures
        r == from_state(k),
{
    match k {
        TransitionKind::Activate => NodeState::Inactive,
        _ => NodeState::Active,
    }
}

fn transition_to(k: TransitionKind) -> (r: NodeState)
    ensures
        r == to_state(k),
{
    match k {
        TransitionKind::Activate => NodeState::Active,
        TransitionKind::Complete => NodeState::Completed,
        TransitionKind::Skip => NodeState::Skipped,
    }
}

/// Applies the transitions in order, or finds one whose node is not in the
/// state it needs.
fn apply_transitions(states: &Vec<(String, NodeState)>, ts: &Vec<NarrativeTransition>) -> (r: Option<
    (Vec<(String, NodeState)>, Vec<String>),
>)
    ensures
        match r {
            Some((after, activated)) => transitions_fit(node_views(states@), transition_views(ts@)) && node_views(after@)
                == states_after(node_views(states@), transition_views(ts@)) && texts(activated@) == activated_keys(
                transition_views(ts@),
            ),
            None => !transitions_fit(node_views(states@), transition_views(ts@)),
        },
{
    let ghost sv = node_views(states@);
    let ghost tv = transition_views(ts@);
    let mut cur: Vec<(String, NodeState)> = Vec::new();
    let mut c: usize = 0;
    while c < states.len()
        invariant
            sv == node_views(states@),
            c <= states@.len(),
            node_views(cur@) == sv.take(c as int),
        decreases states@.len() - c,
    {
        let ghost before = cur@;
        cur.push((owned(states[c].0.as_str()), states[c].1));
        assert(node_views(cur@) =~= node_views(before).push((states@[c as int].0@, states@[c as int].1)));
        assert(sv.take(c + 1) =~= sv.take(c as int).push(sv[c as int]));
        c = c + 1;
    }
    assert(sv.take(c as int) =~= sv);
    let mut activated: Vec<String> = Vec::new();
    let mut i: usize = 0;
    while i < ts.len()
        invariant
            sv == node_views(states@),
            tv == transition_views(ts@),
            i <= ts@.len(),
            transitions_fit(sv, tv.take(i as int)),
            node_views(cur@) == states_after(sv, tv.take(i as int)),
            texts(activated@) == activated_keys(tv.take(i as int)),
        decreases ts@.len() - i,
    {
        assert(tv.take(i + 1).drop_last() =~= tv.take(i as int));
        assert(tv.take(i + 1).last() == tv[i as int]);
        let t = &ts[i];
        let now = lookup_state(&cur, t.node_key.as_str());
        if now != transition_from(t.kind) {
            proof {
                lemma_fit_prefix(sv, tv, i + 1);
            }
            return None;
        }
        let ghost before = cur@;
        cur.push((owned(t.node_key.as_str()), transition_to(t.kind)));
        assert(node_views(cur@) =~= node_views(before).push((t.node_key@, to_state(t.kind))));
        if t.kind == TransitionKind::Activate {
            let ghost abefore = activated@;
            activated.push(owned(t.node_key.as_str()));
            assert(texts(activated@) =~= texts(abefore).push(t.node_key@));
        }
        i = i + 1;
    }
    assert(tv.take(i as int) =~= tv);
    Some((cur, activated))
}

/// A prefix that does not fit leaves the whole list unfit.
proof fn lemma_fit_prefix(states: Seq<(Seq<char>, NodeState)>, ts: Seq<(Seq<char>, TransitionKind)>, n: int)
    requires
        0 <= n <= ts.len(),
        !transitions_fit(states, ts.take(n)),
    ensures
        !transitions_fit(states, ts),
    decreases ts.len() - n,
{
    if n == ts.len() {
        assert(ts.take(n) =~= ts);
    } else {
        assert(ts.take(n + 1).drop_last() =~= ts.take(n));
        lemma_fit_prefix(states, ts, n + 1);
    }
}

fn events_belong(turns: &Vec<u64>, turn: u64) -> (r: bool)
    ensures
        r == !(exists|k: int| 0 <= k < turns@.len() && #[trigger] turns@[k] != turn),
{
    let mut i: usize = 0;
    while i < turns.len()
        invariant
            i <= turns@.len(),
            forall|k: int| 0 <= k < i ==> turns@[k] == turn,
        decreases turns@.len() - i,
    {
        if turns[i] != turn {
            return false;
        }
        i = i + 1;
    }
    true
}

/// Decides a commit against what is stored; see `commit_outcome`.
pub fn plan_commit(existing: Option<StoredTurn>, state: Option<StoredStoryState>, claim: &CommitClaim) -> (r: Result<
    CommitDecision,
    StoreError,
>)
    ensures
        match commit_outcome(existing, state, *claim) {
            Err(v) => r matches Err(e) && store_error_is(e, v),
            Ok((revision, turn, json)) => match existing {
                Some(_) => r matches Ok(CommitDecision::Replay { result_json }) && result_json@ == json,
                None => r matches Ok(
                    CommitDecision::Apply {
                        committed_revision,
                        turn_number,
                        sequence,
                        usage,
                        node_states,
                        activated_nodes,
                        graph_revision,
                    },
                ) && state matches Some(s) && {
                    &&& committed_revision == revision
                    &&& turn_number == turn
                    &&& sequence == s.next_sequence
                    &&& usage.llm_calls == claim.llm_calls@.len()
                    &&& usage.input_tokens == input_sum(claim.llm_calls@)
                    &&& usage.output_tokens == output_sum(claim.llm_calls@)
                    &&& usage.total_tokens == total_sum(claim.llm_calls@)
                    &&& node_views(node_states@) == states_after(
                        node_views(s.node_states@),
                        transition_views(claim.transitions@),
                    )
                    &&& texts(activated_nodes@) == activated_keys(transition_views(claim.transitions@))
                    &&& graph_revision == (if claim.transitions@.len() == 0 {
                        s.graph_revision
                    } else {
                        claim.next_graph_revision
                    })
                },
            },
        },
{
    match existing {
        Some(t) => {
            if text_eq(t.request_digest.as_str(), claim.request_digest.as_str()) {
                return Ok(CommitDecision::Replay { result_json: t.result_json });
            }
            return Err(StoreError::IdempotencyConflict);
        },
        None => {},
    }
    let s = match state {
        None => {
            return Err(StoreError::NotFound);
        },
        Some(s) => s,
    };
    if s.revision < 0 || s.revision as u64 != claim.base_revision {
        return Err(StoreError::RevisionConflict);
    }
    if s.last_turn_number < 0 {
        return Err(StoreError::RevisionConflict);
    }
    let expected_turn = match (s.last_turn_number as u64).checked_add(1) {
        Some(v) => v,
        None => {
            return Err(StoreError::LimitExceeded { limit: "turn_number" });
        },
    };
    if expected_turn != claim.turn_number {
        return Err(StoreError::RevisionConflict);
    }
    let committed_revision = match claim.base_revision.checked_add(1) {
        Some(v) => v,
        None => {
            return Err(StoreError::LimitExceeded { limit: "story_revision" });
        },
    };
    if s.next_sequence <= 0 {
        return Err(StoreError::LimitExceeded { limit: "turn_sequence" });
    }
    let roles = match add_new_roles(&s.role_ids, &claim.new_role_ids) {
        Some(all) => all,
        None => {
            return Err(StoreError::ConstraintViolation { constraint: owned("new_role_id_collision") });
        },
    };
    if !changes_known(&roles, &claim.changed_role_ids) {
        return Err(StoreError::ConstraintViolation { constraint: owned("role_change_reference") });
    }
    match check_relationships(&s.relationship_keys, &claim.relationship_operations) {
        Ok(()) => {},
        Err(e) => {
            return Err(e);
        },
    }
    if s.graph_revision != claim.expected_graph_revision {
        return Err(StoreError::RevisionConflict);
    }
    let (node_states, activated_nodes) = match apply_transitions(&s.node_states, &claim.transitions) {
        Some(applied) => applied,
        None => {
            return Err(StoreError::RevisionConflict);
        },
    };
    let graph_revision = if claim.transitions.len() == 0 {
        s.graph_revision
    } else {
        claim.next_graph_revision
    };
    let usage = match aggregate_llm_usage(&claim.llm_calls) {
        Ok(u) => u,
        Err(e) => {
            return Err(e);
        },
    };
    if !events_belong(&claim.event_turn_numbers, claim.turn_number) {
        return Err(StoreError::ConstraintViolation { constraint: owned("event_turn_reference") });
    }
    Ok(
        CommitDecision::Apply {
            committed_revision,
            turn_number: claim.turn_number,
            sequence: s.next_sequence as u64,
            usage,
            node_states,
            activated_nodes,
            graph_revision,
        },
    )
}

/// Which entry a deletion removes: only rumors and memories can be deleted.
#[derive(Debug, Clone, Copy, PartialEq, Eq, Structural)]
pub enum DeletableKnowledgeKind {
    Rumor,
    Memory,
}

/// A knowledge mutation of a turn, by the kind of entry it touches.
#[derive(Debug, Clone, Copy, PartialEq, Eq, Structural)]
pub enum KnowledgeOperation {
    Add(KnowledgeKind),
    Update(KnowledgeKind),
    Delete(DeletableKnowledgeKind),
}

pub open spec fn affects_activation(op: KnowledgeOperation) -> bool {
    match op {
        KnowledgeOperation::Add(k) => k != KnowledgeKind::Memory,
        KnowledgeOperation::Update(k) => k != KnowledgeKind::Memory,
        KnowledgeOperation::Delete(d) => d == DeletableKnowledgeKind::Rumor,
    }
}

/// The activation overlay version after a commit's mutations: one on
/// (saturating) when some mutation affects activation, else unchanged.
pub open spec fn overlay_after(mutations: Seq<KnowledgeOperation>, before: u64) -> u64 {
    if exists|k: int| 0 <= k < mutations.len() && affects_activation(#[trigger] mutations[k]) {
        if before == u64::MAX {
            u64::MAX
        } else {
            (before + 1) as u64
        }
    } else {
        before
    }
}

/// A mutation of memories alone.
pub open spec fn memory_only(op: KnowledgeOperation) -> bool {
    op == KnowledgeOperation::Add(KnowledgeKind::Memory) || op == KnowledgeOperation::Update(KnowledgeKind::Memory)
        || op == KnowledgeOperation::Delete(DeletableKnowledgeKind::Memory)
}

/// Law: a commit that adds or updates a fact or a rumor, or deletes a
/// rumor, moves the activation overlay version on by one (saturating at
/// the largest version); one whose mutations all touch memories leaves it
/// as it was.
pub proof fn law_world_knowledge_changes_move_the_overlay(mutations: Seq<KnowledgeOperation>, before: u64)
    ensures
        (exists|k: int| 0 <= k < mutations.len() && !memory_only(#[trigger] mutations[k])) ==> overlay_after(
            mutations,
            before,
        ) == (if before == u64::MAX {
            before
        } else {
            (before + 1) as u64
        }),
        (forall|k: int| 0 <= k < mutations.len() ==> memory_only(#[trigger] mutations[k])) ==> overlay_after(
            mutations,
            before,
        ) == before,
{
    if exists|k: int| 0 <= k < mutations.len() && !memory_only(#[trigger] mutations[k]) {
        let k = choose|k: int| 0 <= k < mutations.len() && !memory_only(#[trigger] mutations[k]);
        assert(affects_activation(mutations[k]));
    }
    if forall|k: int| 0 <= k < mutations.len() ==> memory_only(#[trigger] mutations[k]) {
        assert forall|k: int| 0 <= k < mutations.len() implies !affects_activation(#[trigger] mutations[k]) by {
            assert(memory_only(mutations[k]));
        }
    }
}

/// Whether a mutation changes what activation indexes: adding or updating
/// a fact or rumor, or deleting a rumor; memories are not indexed.
pub fn knowledge_mutation_affects_activation(op: &KnowledgeOperation) -> (r: bool)
    ensures
        r == affects_activation(*op),
{
    match op {
        KnowledgeOperation::Add(k) | KnowledgeOperation::Update(k) => *k != KnowledgeKind::Memory,
        KnowledgeOperation::Delete(d) => *d == DeletableKnowledgeKind::Rumor,
    }
}

/// An outbox record of a turn's event: its id and event type.
#[derive(Debug, Clone)]
pub struct OutboxEntry {
    pub id: String,
    pub event_type: String,
}

/// What the committer hands on: the outbox records of the turn's events and
/// the activation overlay version after the turn.
#[derive(Debug, Clone)]
pub struct CommitGate {
    pub outbox: Vec<OutboxEntry>,
    pub overlay_version_after: u64,
}

/// Why the committer refused to commit: its kind, its stage and its code.
#[derive(Debug, Clone, Copy, PartialEq, Eq)]
pub struct CommitFailure {
    pub kind: TurnFailureKind,
    pub stage: TurnStage,
    pub code: &'static str,
}

pub open spec fn outbox_id(story: Seq<char>, turn: u64, seq: nat) -> Seq<char> {
    story + ":turn:"@ + decimal(turn as nat) + ":outbox:"@ + decimal(seq)
}

/// A failure of the committer's gate: an invariant of the turn, at the
/// committer's stage.
fn gate_failure(code: &'static str) -> (r: CommitFailure)
    ensures
        r.kind == TurnFailureKind::InvariantViolation,
        r.stage == TurnStage::TurnCommitter,
        r.code == code,
{
    CommitFailure { kind: TurnFailureKind::InvariantViolation, stage: TurnStage::TurnCommitter, code }
}

/// The committer's gate before the store: the turn must be ready to
/// commit and hold a change set, a snapshot and prepared activation state
/// (checked in that order); each event gets an outbox record numbered in
/// order; the overlay version moves on by one (saturating) when a mutation
/// affects activation.
pub fn commit_gate<C, S, A>(
    ready_to_commit: bool,
    change_set: Option<&C>,
    snapshot: Option<&S>,
    activation: Option<&A>,
    story_id: &str,
    turn_number: u64,
    event_kinds: &Vec<String>,
    mutations: &Vec<KnowledgeOperation>,
    overlay_version_before: u64,
) -> (r: Result<CommitGate, CommitFailure>)
    ensures
        r matches Err(f) ==> f.kind == TurnFailureKind::InvariantViolation && f.stage == TurnStage::TurnCommitter,
        !ready_to_commit ==> (r matches Err(f) && f.code@ == "commit_gate_rejected"@),
        ready_to_commit && change_set is None ==> (r matches Err(f) && f.code@ == "missing_change_set"@),
        ready_to_commit && change_set is Some && snapshot is None ==> (r matches Err(f) && f.code@
            == "missing_snapshot"@),
        ready_to_commit && change_set is Some && snapshot is Some && activation is None ==> (r matches Err(f)
            && f.code@ == "missing_activation"@),
        ready_to_commit && change_set is Some && snapshot is Some && activation is Some ==> (r matches Ok(g) && g.outbox@.len()
            == event_kinds@.len() && (forall|k: int|
            0 <= k < event_kinds@.len() ==> (#[trigger] g.outbox@[k]).id@ == outbox_id(story_id@, turn_number, k as nat)
                && g.outbox@[k].event_type@ == "story_event."@ + event_kinds@[k]@) && g.overlay_version_after == overlay_after(
            mutations@,
            overlay_version_before,
        )),
{
    if !ready_to_commit {
        return Err(gate_failure("commit_gate_rejected"));
    }
    if change_set.is_none() {
        return Err(gate_failure("missing_change_set"));
    }
    if snapshot.is_none() {
        return Err(gate_failure("missing_snapshot"));
    }
    if activation.is_none() {
        return Err(gate_failure("missing_activation"));
    }
    let mut outbox: Vec<OutboxEntry> = Vec::new();
    let mut k: usize = 0;
    while k < event_kinds.len()
        invariant
            k <= event_kinds@.len(),
            outbox@.len() == k,
            forall|j: int|
                0 <= j < k ==> (#[trigger] outbox@[j]).id@ == outbox_id(story_id@, turn_number, j as nat)
                    && outbox@[j].event_type@ == "story_event."@ + event_kinds@[j]@,
        decreases event_kinds@.len() - k,
    {
        let mut id = owned(story_id);
        id.append(":turn:");
        push_decimal(&mut id, turn_number);
        id.append(":outbox:");
        push_decimal(&mut id, k as u64);
        let mut event_type = owned("story_event.");
        event_type.append(event_kinds[k].as_str());
        outbox.push(OutboxEntry { id, event_type });
        k = k + 1;
    }
    let mut affected = false;
    let mut i: usize = 0;
    while i < mutations.len()
        invariant
            i <= mutations@.len(),
            affected == exists|j: int| 0 <= j < i && affects_activation(#[trigger] mutations@[j]),
        decreases mutations@.len() - i,
    {
        if knowledge_mutation_affects_activation(&mutations[i]) {
            affected = true;
        }
        i = i + 1;
    }
    let overlay_version_after = if affected {
        overlay_version_before.saturating_add(1)
    } else {
        overlay_version_before
    };
    Ok(CommitGate { outbox, overlay_version_after })
}


/// Law: a commit under a key already used is answered from the stored turn
/// whatever the story now holds: the stored result when the request is the
/// same, an idempotency conflict when it is not. A commit that applies
/// moves the story from its revision to the next, and takes the turn after
/// the last one stored.
pub proof fn law_commits_are_idempotent_and_advance(
    t: StoredTurn,
    s1: Option<StoredStoryState>,
    s2: Option<StoredStoryState>,
    c: CommitClaim,
    s: StoredStoryState,
)
    ensures
        commit_outcome(Some(t), s1, c) == commit_outcome(Some(t), s2, c),
        t.request_digest@ == c.request_digest@ ==> (commit_outcome(Some(t), s1, c) matches Ok(o) && o.2 == t.result_json@),
        t.request_digest@ != c.request_digest@ ==> commit_outcome(Some(t), s1, c) == Err::<(u64, u64, Seq<char>), StoreErrorView>(
            StoreErrorView::Idempotency,
        ),
        commit_outcome(None, Some(s), c) matches Ok(o) ==> o.0 == s.revision + 1 && o.0 == c.base_revision + 1 && o.1
            == s.last_turn_number + 1 && o.1 == c.turn_number,
        commit_outcome(None, None, c) == Err::<(u64, u64, Seq<char>), StoreErrorView>(StoreErrorView::NotFound),
{
}

} // verus!
