//! Builds the retrieval plan of a turn from the writer planner's output.
use crate::domain::{
    enc_text, enc_text_of, entities_view, lemma_enc_text_injective, topics_view, BoundedText, KnowledgeEntity,
    KnowledgeKind, KnowledgeSourceId, RoleId, TopicKey,
};
use crate::order::{lex_lt, is_stable_order, stable_order, views, pos_lt, lemma_lex_irreflexive};
use crate::planning::error::PlanningError;
use crate::planning::planner_output::{
    CharacterThinkRequestDto, PlannerCharacterContextGapDto, PlannerConfig, PlannerWriterContextGapDto,
    RetrievalConfig, WriterPlannerOutputDto,
};
use crate::planning::request_key::{
    canonical_entities, canonical_entity_list, canonical_kinds, canonical_kinds_spec, canonical_topic_list,
    canonical_topics, dedupe_and_sort, deduped_listing, lemma_short_entity_list, lemma_short_topic_list,
    request_views,
};
use crate::planning::writer_planner_prompt::{IndexedRetrievalTarget, TargetView, WriterPlannerPromptContext};
use crate::text::{blank, byte_len, is_blank, text_eq};
use crate::turn::{
    opt_source_view, BaselineContext, CharacterImpulse, CharacterRetrievalRequest, CharacterThinkRequest,
    KnowledgeDelivery, KnowledgeRequestView, KnowledgeRetrievalRequest, NarrativePlan, RetrievalPlan,
    RetrievalRequestOrigin, RoleController, StoryReadSnapshot, StoryRoleView, WriterPlan, WriterStoryGoal,
};
use vstd::prelude::*;

verus! {

/// Builds a turn's writer plan (story goal, think requests and retrieval
/// plan) from the writer planner's output.
pub struct RetrievalPlanBuilder {
    pub retrieval: RetrievalConfig,
    pub planner: PlannerConfig,
}

// ---------------------------------------------------------------------------
// Think requests from the planner

/// The planner's think requests as (role, reason) pairs, or the error of the
/// first malformed one: a blank role id, a blank reason, a reason over budget.
pub open spec fn converted_think_requests(dtos: Seq<CharacterThinkRequestDto>, max_reason_bytes: usize) -> Result<
    Seq<(Seq<char>, Seq<char>)>,
    PlanningError,
>
    decreases dtos.len(),
{
    if dtos.len() == 0 {
        Ok(Seq::empty())
    } else {
        match converted_think_requests(dtos.drop_last(), max_reason_bytes) {
            Err(e) => Err(e),
            Ok(done) => {
                let d = dtos.last();
                if blank(d.role_id@) {
                    Err(PlanningError::UnknownRole)
                } else if blank(d.reason@) {
                    Err(PlanningError::InvalidOutput { code: "character_think_reason_empty" })
                } else if byte_len(d.reason@) > max_reason_bytes {
                    Err(PlanningError::LimitExceeded { limit: "max_reason_bytes" })
                } else {
                    Ok(done.push((d.role_id@, d.reason@)))
                }
            },
        }
    }
}

/// The first role of a snapshot with the given id.
pub open spec fn snapshot_role(roles: Seq<StoryRoleView>, r: Seq<char>) -> Option<StoryRoleView>
    decreases roles.len(),
{
    if roles.len() == 0 {
        None
    } else {
        match snapshot_role(roles.drop_last(), r) {
            Some(v) => Some(v),
            None => if roles.last().role_id@ == r {
                Some(roles.last())
            } else {
                None
            },
        }
    }
}

/// Why the think requests are refused, if they are: the first one that
/// targets the player, a role the snapshot lacks or does not let the AI
/// control, or a role already requested.
pub open spec fn think_request_error(reqs: Seq<(Seq<char>, Seq<char>)>, snapshot: StoryReadSnapshot) -> Option<
    PlanningError,
>
    decreases reqs.len(),
{
    if reqs.len() == 0 {
        None
    } else {
        match think_request_error(reqs.drop_last(), snapshot) {
            Some(e) => Some(e),
            None => {
                let r = reqs.last().0;
                if r == snapshot.player_role_id@ {
                    Some(PlanningError::PlayerRoleRequested)
                } else {
                    match snapshot_role(snapshot.roles@, r) {
                        None => Some(PlanningError::UnknownRole),
                        Some(v) => if !(v.controller is Ai) {
                            Some(PlanningError::UnknownRole)
                        } else if has_role(reqs.drop_last(), r) {
                            Some(PlanningError::DuplicateRoleTarget)
                        } else {
                            None
                        },
                    }
                }
            },
        }
    }
}

// ---------------------------------------------------------------------------
// Knowledge requests

/// A request as `make_request` builds it from lists that are already
/// canonical and no topics.
pub open spec fn request_view(
    delivery: Option<Seq<char>>,
    target: Option<(KnowledgeKind, Seq<char>)>,
    kinds: Seq<KnowledgeKind>,
    entities: Seq<(u32, Seq<char>)>,
    reason: Seq<char>,
    origin: RetrievalRequestOrigin,
    priority: u8,
) -> KnowledgeRequestView {
    KnowledgeRequestView {
        delivery,
        target,
        kinds,
        entities,
        topics: Seq::empty(),
        reason,
        origin,
        priority,
    }
}

pub open spec fn writer_kinds() -> Seq<KnowledgeKind> {
    seq![KnowledgeKind::Fact, KnowledgeKind::Rumor]
}

pub open spec fn character_kinds() -> Seq<KnowledgeKind> {
    seq![KnowledgeKind::Rumor, KnowledgeKind::Memory]
}


// ---------------------------------------------------------------------------
// Merging narrative impulses into think requests

/// The reason an impulse gives for thinking: its own reason when that is not
/// blank, its goal otherwise.
pub open spec fn impulse_reason(imp: CharacterImpulse) -> Seq<char> {
    match imp.reason {
        Some(r) => if !blank(r@) { r@ } else { imp.goal@ },
        None => imp.goal@,
    }
}

/// The baseline knows a role when it is the player's, a relevant role, or in
/// the role index.
pub open spec fn known_role(b: BaselineContext, r: Seq<char>) -> bool {
    ||| b.player_role.role_id@ == r
    ||| exists|i: int| 0 <= i < b.relevant_roles@.len() && (#[trigger] b.relevant_roles@[i]).role_id@ == r
    ||| exists|i: int| 0 <= i < b.role_index@.len() && (#[trigger] b.role_index@[i]).role_id@ == r
}

pub open spec fn has_role(reqs: Seq<(Seq<char>, Seq<char>)>, r: Seq<char>) -> bool {
    exists|i: int| 0 <= i < reqs.len() && (#[trigger] reqs[i]).0 == r
}

pub open spec fn think_views(reqs: Seq<CharacterThinkRequest>) -> Seq<(Seq<char>, Seq<char>)> {
    reqs.map_values(|q: CharacterThinkRequest| q@)
}

/// The think requests that impulses add to the planner's, in the order their
/// roles first appear, or the error the first offending impulse raises. An
/// impulse for a role already requested (by the planner or an earlier
/// impulse) adds nothing.
pub open spec fn impulse_additions(
    planned: Seq<(Seq<char>, Seq<char>)>,
    impulses: Seq<CharacterImpulse>,
    b: BaselineContext,
    max_reason_bytes: usize,
) -> Result<Seq<(Seq<char>, Seq<char>)>, PlanningError>
    decreases impulses.len(),
{
    if impulses.len() == 0 {
        Ok(Seq::empty())
    } else {
        match impulse_additions(planned, impulses.drop_last(), b, max_reason_bytes) {
            Err(e) => Err(e),
            Ok(adds) => {
                let imp = impulses.last();
                let r = imp.target_role_id@;
                if has_role(planned, r) || has_role(adds, r) {
                    Ok(adds)
                } else if r == b.player_role.role_id@ {
                    Err(PlanningError::PlayerRoleRequested)
                } else if !known_role(b, r) {
                    Err(PlanningError::UnknownRole)
                } else if byte_len(impulse_reason(imp)) > max_reason_bytes {
                    Err(PlanningError::LimitExceeded { limit: "max_reason_bytes" })
                } else {
                    Ok(adds.push((r, impulse_reason(imp))))
                }
            },
        }
    }
}

/// `out` holds the requests of `adds` ordered by role id.
pub open spec fn sorted_by_role(out: Seq<(Seq<char>, Seq<char>)>, adds: Seq<(Seq<char>, Seq<char>)>) -> bool {
    &&& out.len() == adds.len()
    &&& forall|i: int| 0 <= i < adds.len() ==> out.contains(#[trigger] adds[i])
    &&& forall|i: int| 0 <= i < out.len() ==> adds.contains(#[trigger] out[i])
    &&& forall|a: int, b: int|
        #![trigger out[a], out[b]]
        0 <= a < b < out.len() ==> lex_lt(enc_text(out[a].0), enc_text(out[b].0))
}

proof fn lemma_additions_error_sticks(
    planned: Seq<(Seq<char>, Seq<char>)>,
    impulses: Seq<CharacterImpulse>,
    k: int,
    b: BaselineContext,
    max_reason_bytes: usize,
)
    requires
        0 <= k <= impulses.len(),
        impulse_additions(planned, impulses.take(k), b, max_reason_bytes) is Err,
    ensures
        impulse_additions(planned, impulses, b, max_reason_bytes) == impulse_additions(
            planned,
            impulses.take(k),
            b,
            max_reason_bytes,
        ),
    decreases impulses.len() - k,
{
    if k < impulses.len() {
        assert(impulses.take(k + 1).drop_last() =~= impulses.take(k));
        lemma_additions_error_sticks(planned, impulses, k + 1, b, max_reason_bytes);
    } else {
        assert(impulses.take(k) =~= impulses);
    }
}

proof fn lemma_additions_unique(
    planned: Seq<(Seq<char>, Seq<char>)>,
    impulses: Seq<CharacterImpulse>,
    b: BaselineContext,
    max_reason_bytes: usize,
)
    ensures
        impulse_additions(planned, impulses, b, max_reason_bytes) matches Ok(adds) ==> {
            &&& forall|i: int, j: int|
                #![trigger adds[i], adds[j]]
                0 <= i < j < adds.len() ==> adds[i].0 != adds[j].0
            &&& forall|i: int| 0 <= i < adds.len() ==> !has_role(planned, (#[trigger] adds[i]).0)
        },
    decreases impulses.len(),
{
    if impulses.len() > 0 {
        lemma_additions_unique(planned, impulses.drop_last(), b, max_reason_bytes);
    }
}


/// The distinct active nodes, in order of first appearance.
pub open spec fn distinct_nodes(ns: Seq<Seq<char>>) -> Seq<Seq<char>>
    decreases ns.len(),
{
    if ns.len() == 0 {
        Seq::empty()
    } else {
        let d = distinct_nodes(ns.drop_last());
        if d.contains(ns.last()) {
            d
        } else {
            d.push(ns.last())
        }
    }
}

pub open spec fn node_views(ns: Seq<String>) -> Seq<Seq<char>> {
    ns.map_values(|n: String| n@)
}

/// The writer's request for what is known of an active narrative node.
pub open spec fn narrative_request(node: Seq<char>) -> KnowledgeRequestView {
    request_view(
        None,
        None,
        writer_kinds(),
        seq![(4u32, node)],
        "narrative reference"@,
        RetrievalRequestOrigin::Narrative,
        2,
    )
}

/// What a resolved gap asks for: a role's cognition, or a knowledge request.
pub enum GapOutcomeView {
    Cognition(Seq<char>, Seq<char>),
    Knowledge(KnowledgeRequestView),
}

pub open spec fn writer_gap_request(source: (KnowledgeKind, Seq<char>), reason: Seq<char>) -> KnowledgeRequestView {
    request_view(None, Some(source), writer_kinds(), Seq::empty(), reason, RetrievalRequestOrigin::Planner, 0)
}

/// A writer gap: refused when its reason is blank or over budget, dropped
/// when its target key is unknown, else the cognition of the role or the
/// knowledge entry it names.
pub open spec fn writer_gap_result(
    g: PlannerWriterContextGapDto,
    targets: Map<Seq<char>, TargetView>,
    max_reason_bytes: usize,
) -> Result<Option<GapOutcomeView>, PlanningError> {
    if blank(g.reason@) {
        Err(PlanningError::InvalidOutput { code: "context_gap_reason_empty" })
    } else if byte_len(g.reason@) > max_reason_bytes {
        Err(PlanningError::LimitExceeded { limit: "max_reason_bytes" })
    } else if !targets.contains_key(g.target_id@) {
        Ok(None)
    } else {
        match targets[g.target_id@] {
            TargetView::Role(r) => Ok(Some(GapOutcomeView::Cognition(r, g.reason@))),
            TargetView::Knowledge(s) => Ok(Some(GapOutcomeView::Knowledge(writer_gap_request(s, g.reason@)))),
        }
    }
}

/// The writer gaps resolved in order: the roles whose cognition they ask
/// for (the first reason per role), and their knowledge requests.
pub open spec fn writer_gap_outcomes(
    gaps: Seq<PlannerWriterContextGapDto>,
    targets: Map<Seq<char>, TargetView>,
    max_reason_bytes: usize,
) -> Result<(Seq<(Seq<char>, Seq<char>)>, Seq<KnowledgeRequestView>), PlanningError>
    decreases gaps.len(),
{
    if gaps.len() == 0 {
        Ok((Seq::empty(), Seq::empty()))
    } else {
        match writer_gap_outcomes(gaps.drop_last(), targets, max_reason_bytes) {
            Err(e) => Err(e),
            Ok((roles, reqs)) => match writer_gap_result(gaps.last(), targets, max_reason_bytes) {
                Err(e) => Err(e),
                Ok(None) => Ok((roles, reqs)),
                Ok(Some(GapOutcomeView::Cognition(r, x))) => if has_role(roles, r) {
                    Ok((roles, reqs))
                } else {
                    Ok((roles.push((r, x)), reqs))
                },
                Ok(Some(GapOutcomeView::Knowledge(q))) => Ok((roles, reqs.push(q))),
            },
        }
    }
}

pub open spec fn character_gap_request(
    role: Seq<char>,
    source: (KnowledgeKind, Seq<char>),
    reason: Seq<char>,
) -> KnowledgeRequestView {
    request_view(Some(role), Some(source), character_kinds(), Seq::empty(), reason, RetrievalRequestOrigin::Planner, 0)
}

/// A character gap: refused when its reason is blank or over budget, or
/// when the character would receive what it may not (its role is not asked
/// to think, or the target is a role or a fact); dropped when its role id is
/// blank or its target key unknown; else a request delivered to the role.
pub open spec fn character_gap_result(
    g: PlannerCharacterContextGapDto,
    think: Seq<(Seq<char>, Seq<char>)>,
    targets: Map<Seq<char>, TargetView>,
    max_reason_bytes: usize,
) -> Result<Option<KnowledgeRequestView>, PlanningError> {
    if blank(g.reason@) {
        Err(PlanningError::InvalidOutput { code: "context_gap_reason_empty" })
    } else if byte_len(g.reason@) > max_reason_bytes {
        Err(PlanningError::LimitExceeded { limit: "max_reason_bytes" })
    } else if blank(g.role_id@) {
        Ok(None)
    } else if !has_role(think, g.role_id@) {
        Err(PlanningError::KnowledgeAudienceViolation)
    } else if !targets.contains_key(g.target_id@) {
        Ok(None)
    } else {
        match targets[g.target_id@] {
            TargetView::Role(_) => Err(PlanningError::KnowledgeAudienceViolation),
            TargetView::Knowledge(s) => if s.0 == KnowledgeKind::Fact {
                Err(PlanningError::KnowledgeAudienceViolation)
            } else {
                Ok(Some(character_gap_request(g.role_id@, s, g.reason@)))
            },
        }
    }
}

pub open spec fn character_gap_outcomes(
    gaps: Seq<PlannerCharacterContextGapDto>,
    think: Seq<(Seq<char>, Seq<char>)>,
    targets: Map<Seq<char>, TargetView>,
    max_reason_bytes: usize,
) -> Result<Seq<KnowledgeRequestView>, PlanningError>
    decreases gaps.len(),
{
    if gaps.len() == 0 {
        Ok(Seq::empty())
    } else {
        match character_gap_outcomes(gaps.drop_last(), think, targets, max_reason_bytes) {
            Err(e) => Err(e),
            Ok(reqs) => match character_gap_result(gaps.last(), think, targets, max_reason_bytes) {
                Err(e) => Err(e),
                Ok(None) => Ok(reqs),
                Ok(Some(q)) => Ok(reqs.push(q)),
            },
        }
    }
}


// ---------------------------------------------------------------------------
// Role cognition and the whole plan

pub type CognitionEntry = (Seq<char>, Seq<char>, RetrievalRequestOrigin);

pub open spec fn has_entry(es: Seq<CognitionEntry>, r: Seq<char>) -> bool {
    exists|i: int| 0 <= i < es.len() && (#[trigger] es[i]).0 == r
}

pub open spec fn planner_entries(roles: Seq<(Seq<char>, Seq<char>)>) -> Seq<CognitionEntry> {
    roles.map_values(|p: (Seq<char>, Seq<char>)| (p.0, p.1, RetrievalRequestOrigin::Planner))
}

/// `es` followed by an automatic entry for each thinking role it lacks
/// (the first reason per role).
pub open spec fn with_automatic(es: Seq<CognitionEntry>, think: Seq<(Seq<char>, Seq<char>)>) -> Seq<CognitionEntry>
    decreases think.len(),
{
    if think.len() == 0 {
        es
    } else {
        let prev = with_automatic(es, think.drop_last());
        if has_entry(prev, think.last().0) {
            prev
        } else {
            prev.push((think.last().0, think.last().1, RetrievalRequestOrigin::Automatic))
        }
    }
}

/// The roles whose cognition is retrieved: those writer gaps name, with the
/// planner as origin, then the thinking roles, automatically.
pub open spec fn cognition_entries(
    writer_roles: Seq<(Seq<char>, Seq<char>)>,
    think: Seq<(Seq<char>, Seq<char>)>,
) -> Seq<CognitionEntry> {
    with_automatic(planner_entries(writer_roles), think)
}

/// `out` holds the entries of `es` ordered by role id.
pub open spec fn sorted_entries(out: Seq<CognitionEntry>, es: Seq<CognitionEntry>) -> bool {
    &&& out.len() == es.len()
    &&& forall|i: int| 0 <= i < es.len() ==> out.contains(#[trigger] es[i])
    &&& forall|a: int| 0 <= a < out.len() ==> es.contains(#[trigger] out[a])
    &&& forall|a: int, b: int|
        #![trigger out[a], out[b]]
        0 <= a < b < out.len() ==> lex_lt(enc_text(out[a].0), enc_text(out[b].0))
}

/// The request for what a role knows: its rumors and memories about itself.
pub open spec fn cognition_request(c: CognitionEntry) -> KnowledgeRequestView {
    request_view(Some(c.0), None, character_kinds(), seq![(1u32, c.0)], c.1, c.2, 0)
}

/// All knowledge requests before deduplication.
pub open spec fn requests_before_dedupe(
    nodes: Seq<Seq<char>>,
    writer_requests: Seq<KnowledgeRequestView>,
    character_requests: Seq<KnowledgeRequestView>,
    cognition: Seq<CognitionEntry>,
) -> Seq<KnowledgeRequestView> {
    distinct_nodes(nodes).map_values(|n: Seq<char>| narrative_request(n)) + writer_requests + character_requests
        + cognition.map_values(|c: CognitionEntry| cognition_request(c))
}

/// The lists a successful build lists: the merged think requests `think`,
/// the role cognition requests `chars` and the knowledge requests `known`.
pub open spec fn plan_lists(
    planned: Seq<(Seq<char>, Seq<char>)>,
    adds: Seq<(Seq<char>, Seq<char>)>,
    nodes: Seq<Seq<char>>,
    writer: (Seq<(Seq<char>, Seq<char>)>, Seq<KnowledgeRequestView>),
    character_requests: Seq<KnowledgeRequestView>,
    think: Seq<(Seq<char>, Seq<char>)>,
    chars: Seq<CognitionEntry>,
    known: Seq<KnowledgeRequestView>,
) -> bool {
    &&& think.take(planned.len() as int) == planned
    &&& sorted_by_role(think.skip(planned.len() as int), adds)
    &&& sorted_entries(chars, cognition_entries(writer.0, think))
    &&& deduped_listing(known, requests_before_dedupe(nodes, writer.1, character_requests, chars))
}

pub open spec fn cognition_views(cs: Seq<CharacterRetrievalRequest>) -> Seq<CognitionEntry> {
    cs.map_values(|c: CharacterRetrievalRequest| c@)
}

/// What `build` returns, stage by stage: the first limit or validation that
/// fails gives the error; otherwise the plan lists what `plan_lists` says.
pub open spec fn build_outcome(
    builder: RetrievalPlanBuilder,
    baseline: BaselineContext,
    narrative_plan: NarrativePlan,
    dto: WriterPlannerOutputDto,
    snapshot: StoryReadSnapshot,
    context: WriterPlannerPromptContext,
    r: Result<WriterPlan, PlanningError>,
) -> bool {
    let c = builder.planner;
    if dto.writer_context_gaps@.len() + dto.character_context_gaps@.len() > c.max_context_gaps {
        r == Err::<WriterPlan, PlanningError>(PlanningError::LimitExceeded { limit: "max_context_gaps" })
    } else if dto.character_think_requests@.len() > c.max_character_think_requests {
        r == Err::<WriterPlan, PlanningError>(PlanningError::LimitExceeded { limit: "max_character_think_requests" })
    } else if blank(dto.story_goal@) {
        r == Err::<WriterPlan, PlanningError>(PlanningError::InvalidOutput { code: "story_goal_empty" })
    } else if byte_len(dto.story_goal@) > c.max_goal_bytes {
        r == Err::<WriterPlan, PlanningError>(PlanningError::LimitExceeded { limit: "max_goal_bytes" })
    } else {
        match converted_think_requests(dto.character_think_requests@, c.max_reason_bytes) {
            Err(e) => r == Err::<WriterPlan, PlanningError>(e),
            Ok(planned) => match think_request_error(planned, snapshot) {
                Some(e) => r == Err::<WriterPlan, PlanningError>(e),
                None => match impulse_additions(planned, narrative_plan.character_impulses@, baseline, c.max_reason_bytes) {
                    Err(e) => r == Err::<WriterPlan, PlanningError>(e),
                    Ok(adds) => if planned.len() + adds.len() > c.max_character_think_requests {
                        r == Err::<WriterPlan, PlanningError>(
                            PlanningError::LimitExceeded { limit: "max_character_think_requests" },
                        )
                    } else if narrative_plan.active_nodes@.len() > 0 && byte_len("narrative reference"@)
                        > c.max_reason_bytes {
                        r == Err::<WriterPlan, PlanningError>(PlanningError::LimitExceeded { limit: "max_reason_bytes" })
                    } else {
                        match writer_gap_outcomes(dto.writer_context_gaps@, context.targets(), c.max_reason_bytes) {
                            Err(e) => r == Err::<WriterPlan, PlanningError>(e),
                            Ok(writer) => match character_gap_outcomes(
                                dto.character_context_gaps@,
                                planned + adds,
                                context.targets(),
                                c.max_reason_bytes,
                            ) {
                                Err(e) => r == Err::<WriterPlan, PlanningError>(e),
                                Ok(character_requests) => {
                                    let nodes = node_views(narrative_plan.active_nodes@);
                                    match r {
                                        Ok(plan) => {
                                            &&& plan.story_goal.summary@ == dto.story_goal@
                                            &&& plan_lists(
                                                planned,
                                                adds,
                                                nodes,
                                                writer,
                                                character_requests,
                                                think_views(plan.character_think_requests@),
                                                cognition_views(plan.retrieval_plan.character_requests@),
                                                request_views(plan.retrieval_plan.knowledge_requests@),
                                            )
                                            &&& plan.retrieval_plan.knowledge_requests@.len()
                                                <= builder.retrieval.max_requests
                                        },
                                        Err(e) => {
                                            &&& e == PlanningError::LimitExceeded { limit: "max_requests" }
                                            &&& exists|
                                                think: Seq<(Seq<char>, Seq<char>)>,
                                                chars: Seq<CognitionEntry>,
                                                known: Seq<KnowledgeRequestView>,
                                            |
                                                #[trigger] plan_lists(
                                                    planned,
                                                    adds,
                                                    nodes,
                                                    writer,
                                                    character_requests,
                                                    think,
                                                    chars,
                                                    known,
                                                ) && known.len() > builder.retrieval.max_requests
                                        },
                                    }
                                },
                            },
                        }
                    }
                },
            },
        }
    }
}

proof fn lemma_fixed_kinds_canonical()
    ensures
        canonical_kinds_spec(writer_kinds()) == writer_kinds(),
        canonical_kinds_spec(character_kinds()) == character_kinds(),
{
    let w = writer_kinds();
    let c = character_kinds();
    assert(w[0] == KnowledgeKind::Fact);
    assert(w[1] == KnowledgeKind::Rumor);
    assert(!w.contains(KnowledgeKind::Memory)) by {
        if w.contains(KnowledgeKind::Memory) {
            let i = choose|i: int| 0 <= i < w.len() && w[i] == KnowledgeKind::Memory;
        }
    }
    assert(c[0] == KnowledgeKind::Rumor);
    assert(c[1] == KnowledgeKind::Memory);
    assert(!c.contains(KnowledgeKind::Fact)) by {
        if c.contains(KnowledgeKind::Fact) {
            let i = choose|i: int| 0 <= i < c.len() && c[i] == KnowledgeKind::Fact;
        }
    }
    assert(canonical_kinds_spec(w) =~= w);
    assert(canonical_kinds_spec(c) =~= c);
}

fn writer_kind_list() -> (r: Vec<KnowledgeKind>)
    ensures
        r@ == writer_kinds(),
{
    let r = vec![KnowledgeKind::Fact, KnowledgeKind::Rumor];
    assert(r@ =~= writer_kinds());
    r
}

fn character_kind_list() -> (r: Vec<KnowledgeKind>)
    ensures
        r@ == character_kinds(),
{
    let r = vec![KnowledgeKind::Rumor, KnowledgeKind::Memory];
    assert(r@ =~= character_kinds());
    r
}


proof fn lemma_writer_gaps_error_sticks(
    gaps: Seq<PlannerWriterContextGapDto>,
    k: int,
    targets: Map<Seq<char>, TargetView>,
    max_reason_bytes: usize,
)
    requires
        0 <= k <= gaps.len(),
        writer_gap_outcomes(gaps.take(k), targets, max_reason_bytes) is Err,
    ensures
        writer_gap_outcomes(gaps, targets, max_reason_bytes) == writer_gap_outcomes(gaps.take(k), targets, max_reason_bytes),
    decreases gaps.len() - k,
{
    if k < gaps.len() {
        assert(gaps.take(k + 1).drop_last() =~= gaps.take(k));
        lemma_writer_gaps_error_sticks(gaps, k + 1, targets, max_reason_bytes);
    } else {
        assert(gaps.take(k) =~= gaps);
    }
}

proof fn lemma_character_gaps_error_sticks(
    gaps: Seq<PlannerCharacterContextGapDto>,
    k: int,
    think: Seq<(Seq<char>, Seq<char>)>,
    targets: Map<Seq<char>, TargetView>,
    max_reason_bytes: usize,
)
    requires
        0 <= k <= gaps.len(),
        character_gap_outcomes(gaps.take(k), think, targets, max_reason_bytes) is Err,
    ensures
        character_gap_outcomes(gaps, think, targets, max_reason_bytes) == character_gap_outcomes(
            gaps.take(k),
            think,
            targets,
            max_reason_bytes,
        ),
    decreases gaps.len() - k,
{
    if k < gaps.len() {
        assert(gaps.take(k + 1).drop_last() =~= gaps.take(k));
        lemma_character_gaps_error_sticks(gaps, k + 1, think, targets, max_reason_bytes);
    } else {
        assert(gaps.take(k) =~= gaps);
    }
}

/// Character gaps resolve alike against think lists with the same roles.
proof fn lemma_character_gaps_same_roles(
    gaps: Seq<PlannerCharacterContextGapDto>,
    t1: Seq<(Seq<char>, Seq<char>)>,
    t2: Seq<(Seq<char>, Seq<char>)>,
    targets: Map<Seq<char>, TargetView>,
    max_reason_bytes: usize,
)
    requires
        forall|r: Seq<char>| has_role(t1, r) == has_role(t2, r),
    ensures
        character_gap_outcomes(gaps, t1, targets, max_reason_bytes) == character_gap_outcomes(
            gaps,
            t2,
            targets,
            max_reason_bytes,
        ),
    decreases gaps.len(),
{
    if gaps.len() > 0 {
        lemma_character_gaps_same_roles(gaps.drop_last(), t1, t2, targets, max_reason_bytes);
        assert(has_role(t1, gaps.last().role_id@) == has_role(t2, gaps.last().role_id@));
    }
}

proof fn lemma_converted_bounded(dtos: Seq<CharacterThinkRequestDto>, max_reason_bytes: usize)
    ensures
        converted_think_requests(dtos, max_reason_bytes) matches Ok(v) ==> forall|i: int|
            0 <= i < v.len() ==> byte_len((#[trigger] v[i]).1) <= max_reason_bytes,
    decreases dtos.len(),
{
    if dtos.len() > 0 {
        lemma_converted_bounded(dtos.drop_last(), max_reason_bytes);
    }
}

proof fn lemma_additions_bounded(
    planned: Seq<(Seq<char>, Seq<char>)>,
    impulses: Seq<CharacterImpulse>,
    b: BaselineContext,
    max_reason_bytes: usize,
)
    ensures
        impulse_additions(planned, impulses, b, max_reason_bytes) matches Ok(adds) ==> forall|i: int|
            0 <= i < adds.len() ==> byte_len((#[trigger] adds[i]).1) <= max_reason_bytes,
    decreases impulses.len(),
{
    if impulses.len() > 0 {
        lemma_additions_bounded(planned, impulses.drop_last(), b, max_reason_bytes);
    }
}

proof fn lemma_writer_roles_bounded(
    gaps: Seq<PlannerWriterContextGapDto>,
    targets: Map<Seq<char>, TargetView>,
    max_reason_bytes: usize,
)
    ensures
        writer_gap_outcomes(gaps, targets, max_reason_bytes) matches Ok(w) ==> forall|i: int|
            0 <= i < w.0.len() ==> byte_len((#[trigger] w.0[i]).1) <= max_reason_bytes,
    decreases gaps.len(),
{
    if gaps.len() > 0 {
        lemma_writer_roles_bounded(gaps.drop_last(), targets, max_reason_bytes);
    }
}

/// Whether some cognition entry is for the role.
fn entry_listed(es: &Vec<(RoleId, BoundedText, RetrievalRequestOrigin)>, role: &RoleId) -> (r: bool)
    ensures
        r == has_entry(entry_views(es@), role@),
{
    let mut i: usize = 0;
    while i < es.len()
        invariant
            i <= es@.len(),
            forall|j: int| 0 <= j < i ==> (#[trigger] es@[j]).0@ != role@,
        decreases es@.len() - i,
    {
        if text_eq(es[i].0.as_str(), role.as_str()) {
            assert(entry_views(es@)[i as int].0 == role@);
            return true;
        }
        i = i + 1;
    }
    proof {
        if has_entry(entry_views(es@), role@) {
            let k = choose|k: int| 0 <= k < entry_views(es@).len() && (#[trigger] entry_views(es@)[k]).0 == role@;
            assert(es@[k].0@ == role@);
        }
    }
    false
}

pub open spec fn entry_views(es: Seq<(RoleId, BoundedText, RetrievalRequestOrigin)>) -> Seq<CognitionEntry> {
    es.map_values(|e: (RoleId, BoundedText, RetrievalRequestOrigin)| (e.0@, e.1@, e.2))
}

pub open spec fn unique_entry_roles(es: Seq<CognitionEntry>) -> bool {
    forall|a: int, b: int| #![trigger es[a], es[b]] 0 <= a < b < es.len() ==> es[a].0 != es[b].0
}

fn role_listed(reqs: &Vec<CharacterThinkRequest>, role: &RoleId) -> (r: bool)
    ensures
        r == has_role(think_views(reqs@), role@),
{
    let mut i: usize = 0;
    while i < reqs.len()
        invariant
            i <= reqs@.len(),
            forall|j: int| 0 <= j < i ==> (#[trigger] reqs@[j]).role_id@ != role@,
        decreases reqs@.len() - i,
    {
        if text_eq(reqs[i].role_id.as_str(), role.as_str()) {
            assert(think_views(reqs@)[i as int].0 == role@);
            return true;
        }
        i = i + 1;
    }
    proof {
        if has_role(think_views(reqs@), role@) {
            let k = choose|k: int| 0 <= k < think_views(reqs@).len() && (#[trigger] think_views(reqs@)[k]).0 == role@;
            assert(reqs@[k].role_id@ == role@);
        }
    }
    false
}

/// `known_role` on a baseline.
fn baseline_knows_role(baseline: &BaselineContext, role: &RoleId) -> (r: bool)
    ensures
        r == known_role(*baseline, role@),
{
    if text_eq(baseline.player_role.role_id.as_str(), role.as_str()) {
        return true;
    }
    let mut i: usize = 0;
    while i < baseline.relevant_roles.len()
        invariant
            i <= baseline.relevant_roles@.len(),
            forall|j: int| 0 <= j < i ==> (#[trigger] baseline.relevant_roles@[j]).role_id@ != role@,
        decreases baseline.relevant_roles@.len() - i,
    {
        if text_eq(baseline.relevant_roles[i].role_id.as_str(), role.as_str()) {
            return true;
        }
        i = i + 1;
    }
    let mut i: usize = 0;
    while i < baseline.role_index.len()
        invariant
            i <= baseline.role_index@.len(),
            forall|j: int| 0 <= j < i ==> (#[trigger] baseline.role_index@[j]).role_id@ != role@,
        decreases baseline.role_index@.len() - i,
    {
        if text_eq(baseline.role_index[i].role_id.as_str(), role.as_str()) {
            return true;
        }
        i = i + 1;
    }
    false
}

/// Adds a think request for each role that narrative impulses push and that
/// the planner did not request; the added requests follow the planner's in
/// role id order, one per role, with the first impulse's reason (or goal).
/// Fails on an impulse for the player's role or for a role the baseline does
/// not know, on a reason over budget, and when the merged list is longer
/// than the configured maximum.
#[verifier::loop_isolation(false)]
pub fn merge_narrative_think_requests(
    planner_requests: Vec<CharacterThinkRequest>,
    impulses: &Vec<CharacterImpulse>,
    baseline: &BaselineContext,
    config: &PlannerConfig,
) -> (r: Result<Vec<CharacterThinkRequest>, PlanningError>)
    ensures
        ({
            let planned = think_views(planner_requests@);
            match impulse_additions(planned, impulses@, *baseline, config.max_reason_bytes) {
                Err(e) => r == Err::<Vec<CharacterThinkRequest>, PlanningError>(e),
                Ok(adds) => if planned.len() + adds.len() > config.max_character_think_requests {
                    r == Err::<Vec<CharacterThinkRequest>, PlanningError>(
                        PlanningError::LimitExceeded { limit: "max_character_think_requests" },
                    )
                } else {
                    r matches Ok(merged) && merged@.len() == planned.len() + adds.len() && think_views(merged@).take(
                        planned.len() as int,
                    ) == planned
                        && sorted_by_role(think_views(merged@).skip(planned.len() as int), adds)
                },
            }
        }),
{
    let ghost planned = think_views(planner_requests@);
    let mut additions: Vec<CharacterThinkRequest> = Vec::new();
    let mut i: usize = 0;
    assert(impulses@.take(0) =~= Seq::<CharacterImpulse>::empty());
    assert(think_views(additions@) =~= Seq::<(Seq<char>, Seq<char>)>::empty());
    while i < impulses.len()
        invariant
            i <= impulses@.len(),
            planned == think_views(planner_requests@),
            impulse_additions(planned, impulses@.take(i as int), *baseline, config.max_reason_bytes) == Ok::<
                Seq<(Seq<char>, Seq<char>)>,
                PlanningError,
            >(think_views(additions@)),
        decreases impulses@.len() - i,
    {
        let imp = &impulses[i];
        proof {
            assert(impulses@.take(i + 1).drop_last() =~= impulses@.take(i as int));
            assert(impulses@.take(i + 1).last() == impulses@[i as int]);
        }
        let in_planner = role_listed(&planner_requests, &imp.target_role_id);
        let in_additions = role_listed(&additions, &imp.target_role_id);
        if in_planner || in_additions {
            i = i + 1;
            continue;
        }
        if text_eq(imp.target_role_id.as_str(), baseline.player_role.role_id.as_str()) {
            proof {
                lemma_additions_error_sticks(planned, impulses@, i + 1, *baseline, config.max_reason_bytes);
            }
            return Err(PlanningError::PlayerRoleRequested);
        }
        if !baseline_knows_role(baseline, &imp.target_role_id) {
            proof {
                lemma_additions_error_sticks(planned, impulses@, i + 1, *baseline, config.max_reason_bytes);
            }
            return Err(PlanningError::UnknownRole);
        }
        let reason_text: &str = match &imp.reason {
            Some(r) => if !is_blank(r.as_str()) {
                r.as_str()
            } else {
                imp.goal.as_str()
            },
            None => imp.goal.as_str(),
        };
        let reason = match BoundedText::try_new(reason_text.to_owned(), "reason", config.max_reason_bytes) {
            Ok(t) => t,
            Err(_) => {
                proof {
                    lemma_additions_error_sticks(planned, impulses@, i + 1, *baseline, config.max_reason_bytes);
                }
                return Err(PlanningError::LimitExceeded { limit: "max_reason_bytes" });
            },
        };
        let ghost before = additions@;
        additions.push(CharacterThinkRequest { role_id: imp.target_role_id.duplicate(), reason });
        proof {
            assert(think_views(additions@) =~= think_views(before).push((imp.target_role_id@, impulse_reason(*imp))));
        }
        i = i + 1;
    }
    assert(impulses@.take(impulses@.len() as int) =~= impulses@);
    let ghost adds = think_views(additions@);
    proof {
        lemma_additions_unique(planned, impulses@, *baseline, config.max_reason_bytes);
    }
    if planner_requests.len() > config.max_character_think_requests || additions.len()
        > config.max_character_think_requests - planner_requests.len() {
        return Err(PlanningError::LimitExceeded { limit: "max_character_think_requests" });
    }
    // order the additions by role id
    let mut keys: Vec<Vec<u32>> = Vec::new();
    let mut k: usize = 0;
    while k < additions.len()
        invariant
            k <= additions@.len(),
            keys@.len() == k,
            forall|j: int| 0 <= j < k ==> (#[trigger] keys@[j])@ == enc_text(additions@[j].role_id@),
        decreases additions@.len() - k,
    {
        keys.push(enc_text_of(additions[k].role_id.as_str()));
        k = k + 1;
    }
    let order = stable_order(&keys);
    let ghost ks = views(keys@);
    let mut merged = planner_requests;
    let mut k: usize = 0;
    while k < order.len()
        invariant
            k <= order@.len(),
            is_stable_order(ks, order@),
            ks == views(keys@),
            ks.len() == additions@.len(),
            forall|j: int| 0 <= j < ks.len() ==> #[trigger] ks[j] == enc_text(additions@[j].role_id@),
            merged@.len() == planned.len() + k,
            think_views(merged@).take(planned.len() as int) == planned,
            forall|j: int|
                0 <= j < k ==> (#[trigger] think_views(merged@)[planned.len() + j]) == think_views(
                    additions@,
                )[order@[j] as int],
        decreases order@.len() - k,
    {
        let a = &additions[order[k]];
        let ghost before = merged@;
        merged.push(CharacterThinkRequest { role_id: a.role_id.duplicate(), reason: a.reason.duplicate() });
        proof {
            assert(think_views(merged@) =~= think_views(before).push(a@));
            assert(think_views(merged@).take(planned.len() as int) =~= think_views(before).take(planned.len() as int));
        }
        k = k + 1;
    }
    proof {
        let out = think_views(merged@).skip(planned.len() as int);
        assert(out.len() == adds.len());
        assert forall|j: int| 0 <= j < out.len() implies #[trigger] out[j] == adds[order@[j] as int] by {
            assert(out[j] == think_views(merged@)[planned.len() + j]);
        }
        assert forall|i: int| 0 <= i < adds.len() implies out.contains(#[trigger] adds[i]) by {
            assert(order@.contains(i as usize));
            let j = choose|j: int| 0 <= j < order@.len() && order@[j] == i as usize;
            assert(out[j] == adds[i]);
        }
        assert forall|i: int| 0 <= i < out.len() implies adds.contains(#[trigger] out[i]) by {
            assert(out[i] == adds[order@[i] as int]);
        }
        assert forall|a: int, b: int|
            #![trigger out[a], out[b]]
            0 <= a < b < out.len() implies lex_lt(enc_text(out[a].0), enc_text(out[b].0)) by {
            let ia = order@[a] as int;
            let ib = order@[b] as int;
            assert(pos_lt(ks, ia, ib));
            if ks[ia] == ks[ib] {
                lemma_enc_text_injective(adds[ia].0, adds[ib].0);
                if ia < ib {
                    assert(adds[ia].0 != adds[ib].0);
                } else {
                    lemma_lex_irreflexive(ks[ia]);
                }
            }
        }
    }
    Ok(merged)
}


impl RetrievalPlanBuilder {
    pub fn new(retrieval: RetrievalConfig, planner: PlannerConfig) -> (r: RetrievalPlanBuilder)
        ensures
            r.retrieval == retrieval,
            r.planner == planner,
    {
        RetrievalPlanBuilder { retrieval, planner }
    }

    /// A knowledge request with its kinds, entities and topics sorted and
    /// deduplicated; fails when the reason is over budget.
    fn make_request(
        &self,
        delivery: KnowledgeDelivery,
        target_source_id: Option<KnowledgeSourceId>,
        knowledge_kinds: Vec<KnowledgeKind>,
        entities: Vec<KnowledgeEntity>,
        topics: Vec<TopicKey>,
        reason: &str,
        origin: RetrievalRequestOrigin,
        signal_priority: u8,
    ) -> (r: Result<KnowledgeRetrievalRequest, PlanningError>)
        ensures
            byte_len(reason@) > self.planner.max_reason_bytes ==> r == Err::<
                KnowledgeRetrievalRequest,
                PlanningError,
            >(PlanningError::LimitExceeded { limit: "max_reason_bytes" }),
            byte_len(reason@) <= self.planner.max_reason_bytes ==> (r matches Ok(q) && q@.delivery == delivery@
                && q@.target == opt_source_view(target_source_id) && q@.kinds == canonical_kinds_spec(
                knowledge_kinds@,
            ) && canonical_entity_list(q@.entities, entities_view(entities@)) && canonical_topic_list(
                q@.topics,
                topics_view(topics@),
            ) && q@.reason == reason@ && q@.origin == origin && q@.priority == signal_priority),
    {
        let knowledge_kinds = canonical_kinds(&knowledge_kinds);
        let entities = canonical_entities(&entities);
        let topics = canonical_topics(&topics);
        let reason = match BoundedText::try_new(reason.to_owned(), "reason", self.planner.max_reason_bytes) {
            Ok(t) => t,
            Err(_) => {
                return Err(PlanningError::LimitExceeded { limit: "max_reason_bytes" });
            },
        };
        Ok(
            KnowledgeRetrievalRequest {
                delivery,
                target_source_id,
                knowledge_kinds,
                entities,
                topics,
                reason,
                origin,
                signal_priority,
            },
        )
    }

    fn convert_think_requests(&self, requests: Vec<CharacterThinkRequestDto>) -> (r: Result<
        Vec<CharacterThinkRequest>,
        PlanningError,
    >)
        ensures
            match converted_think_requests(requests@, self.planner.max_reason_bytes) {
                Err(e) => r == Err::<Vec<CharacterThinkRequest>, PlanningError>(e),
                Ok(v) => r matches Ok(out) && think_views(out@) == v,
            },
    {
        let mut out: Vec<CharacterThinkRequest> = Vec::new();
        let mut i: usize = 0;
        assert(requests@.take(0) =~= Seq::<CharacterThinkRequestDto>::empty());
        assert(think_views(out@) =~= Seq::<(Seq<char>, Seq<char>)>::empty());
        while i < requests.len()
            invariant
                i <= requests@.len(),
                converted_think_requests(requests@.take(i as int), self.planner.max_reason_bytes) == Ok::<
                    Seq<(Seq<char>, Seq<char>)>,
                    PlanningError,
                >(think_views(out@)),
            decreases requests@.len() - i,
        {
            let dto = &requests[i];
            proof {
                assert(requests@.take(i + 1).drop_last() =~= requests@.take(i as int));
                assert(requests@.take(i + 1).last() == requests@[i as int]);
            }
            let role_id = match RoleId::try_new(dto.role_id.clone()) {
                Ok(id) => id,
                Err(_) => {
                    proof {
                        lemma_converted_error_sticks(requests@, i as int + 1, self.planner.max_reason_bytes);
                    }
                    return Err(PlanningError::UnknownRole);
                },
            };
            if is_blank(dto.reason.as_str()) {
                proof {
                    lemma_converted_error_sticks(requests@, i as int + 1, self.planner.max_reason_bytes);
                }
                return Err(PlanningError::InvalidOutput { code: "character_think_reason_empty" });
            }
            let reason = match BoundedText::try_new(dto.reason.clone(), "reason", self.planner.max_reason_bytes) {
                Ok(t) => t,
                Err(_) => {
                    proof {
                        lemma_converted_error_sticks(requests@, i as int + 1, self.planner.max_reason_bytes);
                    }
                    return Err(PlanningError::LimitExceeded { limit: "max_reason_bytes" });
                },
            };
            let ghost before = out@;
            out.push(CharacterThinkRequest { role_id, reason });
            assert(think_views(out@) =~= think_views(before).push((dto.role_id@, dto.reason@)));
            i = i + 1;
        }
        assert(requests@.take(requests@.len() as int) =~= requests@);
        Ok(out)
    }

    fn validate_think_requests(&self, requests: Vec<CharacterThinkRequest>, snapshot: &StoryReadSnapshot) -> (r:
        Result<Vec<CharacterThinkRequest>, PlanningError>)
        ensures
            match think_request_error(think_views(requests@), *snapshot) {
                Some(e) => r == Err::<Vec<CharacterThinkRequest>, PlanningError>(e),
                None => r matches Ok(out) && think_views(out@) == think_views(requests@),
            },
    {
        let ghost rv = think_views(requests@);
        let mut i: usize = 0;
        while i < requests.len()
            invariant
                i <= requests@.len(),
                rv == think_views(requests@),
                think_request_error(rv.take(i as int), *snapshot) is None,
            decreases requests@.len() - i,
        {
            let role = &requests[i].role_id;
            proof {
                assert(rv.take(i + 1).drop_last() =~= rv.take(i as int));
                assert(rv.take(i + 1).last() == (role@, requests@[i as int].reason@));
            }
            if text_eq(role.as_str(), snapshot.player_role_id.as_str()) {
                proof {
                    lemma_think_error_sticks(rv, i as int + 1, *snapshot);
                }
                return Err(PlanningError::PlayerRoleRequested);
            }
            match find_snapshot_role(&snapshot.roles, role) {
                None => {
                    proof {
                        lemma_think_error_sticks(rv, i as int + 1, *snapshot);
                    }
                    return Err(PlanningError::UnknownRole);
                },
                Some(v) => {
                    let is_ai = match v.controller {
                        RoleController::Ai => true,
                        _ => false,
                    };
                    if !is_ai {
                        proof {
                            lemma_think_error_sticks(rv, i as int + 1, *snapshot);
                        }
                        return Err(PlanningError::UnknownRole);
                    }
                },
            }
            let mut dup = false;
            let mut j: usize = 0;
            while j < i
                invariant
                    j <= i,
                    i < requests@.len(),
                    rv == think_views(requests@),
                    role@ == rv[i as int].0,
                    dup ==> has_role(rv.take(i as int), role@),
                    !dup ==> forall|k: int| 0 <= k < j ==> (#[trigger] rv[k]).0 != role@,
                decreases i - j,
            {
                if text_eq(requests[j].role_id.as_str(), role.as_str()) {
                    assert(rv.take(i as int)[j as int].0 == role@);
                    dup = true;
                }
                j = j + 1;
            }
            if dup {
                proof {
                    lemma_think_error_sticks(rv, i as int + 1, *snapshot);
                }
                return Err(PlanningError::DuplicateRoleTarget);
            }
            proof {
                if has_role(rv.take(i as int), role@) {
                    let k = choose|k: int| 0 <= k < rv.take(i as int).len() && (#[trigger] rv.take(i as int)[k]).0 == role@;
                    assert(rv[k].0 == role@);
                }
            }
            i = i + 1;
        }
        assert(rv.take(rv.len() as int) =~= rv);
        Ok(requests)
    }
}

proof fn lemma_converted_error_sticks(dtos: Seq<CharacterThinkRequestDto>, k: int, max_reason_bytes: usize)
    requires
        0 <= k <= dtos.len(),
        converted_think_requests(dtos.take(k), max_reason_bytes) is Err,
    ensures
        converted_think_requests(dtos, max_reason_bytes) == converted_think_requests(dtos.take(k), max_reason_bytes),
    decreases dtos.len() - k,
{
    if k < dtos.len() {
        assert(dtos.take(k + 1).drop_last() =~= dtos.take(k));
        lemma_converted_error_sticks(dtos, k + 1, max_reason_bytes);
    } else {
        assert(dtos.take(k) =~= dtos);
    }
}

proof fn lemma_think_error_sticks(reqs: Seq<(Seq<char>, Seq<char>)>, k: int, snapshot: StoryReadSnapshot)
    requires
        0 <= k <= reqs.len(),
        think_request_error(reqs.take(k), snapshot) is Some,
    ensures
        think_request_error(reqs, snapshot) == think_request_error(reqs.take(k), snapshot),
    decreases reqs.len() - k,
{
    if k < reqs.len() {
        assert(reqs.take(k + 1).drop_last() =~= reqs.take(k));
        lemma_think_error_sticks(reqs, k + 1, snapshot);
    } else {
        assert(reqs.take(k) =~= reqs);
    }
}

/// The first role of the snapshot with the given id.
fn find_snapshot_role<'a>(roles: &'a Vec<StoryRoleView>, role: &RoleId) -> (r: Option<&'a StoryRoleView>)
    ensures
        match r {
            Some(v) => snapshot_role(roles@, role@) == Some(*v),
            None => snapshot_role(roles@, role@) is None,
        },
{
    let mut i: usize = 0;
    assert(roles@.take(0) =~= Seq::<StoryRoleView>::empty());
    while i < roles.len()
        invariant
            i <= roles@.len(),
            snapshot_role(roles@.take(i as int), role@) is None,
        decreases roles@.len() - i,
    {
        assert(roles@.take(i + 1).drop_last() =~= roles@.take(i as int));
        if text_eq(roles[i].role_id.as_str(), role.as_str()) {
            proof {
                lemma_snapshot_role_prefix(roles@, i as int + 1, role@);
            }
            return Some(&roles[i]);
        }
        i = i + 1;
    }
    assert(roles@.take(roles@.len() as int) =~= roles@);
    None
}

proof fn lemma_snapshot_role_prefix(roles: Seq<StoryRoleView>, k: int, r: Seq<char>)
    requires
        0 <= k <= roles.len(),
        snapshot_role(roles.take(k), r) is Some,
    ensures
        snapshot_role(roles, r) == snapshot_role(roles.take(k), r),
    decreases roles.len() - k,
{
    if k < roles.len() {
        assert(roles.take(k + 1).drop_last() =~= roles.take(k));
        lemma_snapshot_role_prefix(roles, k + 1, r);
    } else {
        assert(roles.take(k) =~= roles);
    }
}


/// What a resolved writer gap asks for.
pub enum GapOutcome {
    RoleCognition { role_id: RoleId, reason: BoundedText },
    Knowledge(KnowledgeRetrievalRequest),
}

impl View for GapOutcome {
    type V = GapOutcomeView;

    open spec fn view(&self) -> GapOutcomeView {
        match self {
            GapOutcome::RoleCognition { role_id, reason } => GapOutcomeView::Cognition(role_id@, reason@),
            GapOutcome::Knowledge(q) => GapOutcomeView::Knowledge(q@),
        }
    }
}

pub open spec fn opt_outcome_view(o: Option<GapOutcome>) -> Option<GapOutcomeView> {
    match o {
        Some(g) => Some(g@),
        None => None,
    }
}

pub open spec fn opt_request_view(o: Option<KnowledgeRetrievalRequest>) -> Option<KnowledgeRequestView> {
    match o {
        Some(q) => Some(q@),
        None => None,
    }
}

impl RetrievalPlanBuilder {
    /// One writer request per distinct active narrative node.
    fn narrative_requests(&self, narrative_plan: &NarrativePlan) -> (r: Result<
        Vec<KnowledgeRetrievalRequest>,
        PlanningError,
    >)
        ensures
            narrative_plan.active_nodes@.len() > 0 && byte_len("narrative reference"@) > self.planner.max_reason_bytes
                ==> r == Err::<Vec<KnowledgeRetrievalRequest>, PlanningError>(
                PlanningError::LimitExceeded { limit: "max_reason_bytes" },
            ),
            !(narrative_plan.active_nodes@.len() > 0 && byte_len("narrative reference"@)
                > self.planner.max_reason_bytes) ==> (r matches Ok(v) && request_views(v@) == distinct_nodes(
                node_views(narrative_plan.active_nodes@),
            ).map_values(|n: Seq<char>| narrative_request(n))),
    {
        let ghost nv = node_views(narrative_plan.active_nodes@);
        let mut seen: Vec<String> = Vec::new();
        let mut out: Vec<KnowledgeRetrievalRequest> = Vec::new();
        let mut i: usize = 0;
        assert(nv.take(0) =~= Seq::<Seq<char>>::empty());
        proof {
            lemma_fixed_kinds_canonical();
        }
        while i < narrative_plan.active_nodes.len()
            invariant
                i <= narrative_plan.active_nodes@.len(),
                nv == node_views(narrative_plan.active_nodes@),
                i > 0 ==> byte_len("narrative reference"@) <= self.planner.max_reason_bytes,
                canonical_kinds_spec(writer_kinds()) == writer_kinds(),
                node_views(seen@) == distinct_nodes(nv.take(i as int)),
                request_views(out@) == distinct_nodes(nv.take(i as int)).map_values(
                    |n: Seq<char>| narrative_request(n),
                ),
            decreases narrative_plan.active_nodes@.len() - i,
        {
            let node = &narrative_plan.active_nodes[i];
            proof {
                assert(nv.take(i + 1).drop_last() =~= nv.take(i as int));
                assert(nv.take(i + 1).last() == node@);
            }
            let mut known = false;
            let mut j: usize = 0;
            while j < seen.len()
                invariant
                    j <= seen@.len(),
                    known ==> node_views(seen@).contains(node@),
                    !known ==> forall|k: int| 0 <= k < j ==> (#[trigger] seen@[k])@ != node@,
                decreases seen@.len() - j,
            {
                if text_eq(seen[j].as_str(), node.as_str()) {
                    assert(node_views(seen@)[j as int] == node@);
                    known = true;
                }
                j = j + 1;
            }
            if !known {
                proof {
                    if node_views(seen@).contains(node@) {
                        let k = choose|k: int| 0 <= k < node_views(seen@).len() && node_views(seen@)[k] == node@;
                        assert(seen@[k]@ == node@);
                    }
                }
                let entities = vec![KnowledgeEntity::NarrativeNode(node.clone())];
                let topics: Vec<TopicKey> = Vec::new();
                let q = match self.make_request(
                    KnowledgeDelivery::Writer,
                    None,
                    writer_kind_list(),
                    entities,
                    topics,
                    "narrative reference",
                    RetrievalRequestOrigin::Narrative,
                    2,
                ) {
                    Ok(q) => q,
                    Err(e) => {
                        return Err(e);
                    },
                };
                proof {
                    assert(entities_view(entities@) =~= seq![(4u32, node@)]);
                    assert(topics_view(topics@) =~= Seq::<Seq<char>>::empty());
                    lemma_short_entity_list(q@.entities, entities_view(entities@));
                    lemma_short_topic_list(q@.topics, topics_view(topics@));
                    assert(q@ == narrative_request(node@));
                }
                let ghost before_seen = seen@;
                let ghost before_out = out@;
                seen.push(node.clone());
                out.push(q);
                proof {
                    assert(node_views(seen@) =~= node_views(before_seen).push(node@));
                    assert(request_views(out@) =~= request_views(before_out).push(narrative_request(node@)));
                    assert(distinct_nodes(nv.take(i + 1)) == distinct_nodes(nv.take(i as int)).push(node@));
                    assert(distinct_nodes(nv.take(i + 1)).map_values(|n: Seq<char>| narrative_request(n))
                        =~= distinct_nodes(nv.take(i as int)).map_values(|n: Seq<char>| narrative_request(n)).push(
                        narrative_request(node@),
                    ));
                }
            } else {
                proof {
                    assert(distinct_nodes(nv.take(i + 1)) == distinct_nodes(nv.take(i as int)));
                }
            }
            i = i + 1;
        }
        assert(nv.take(narrative_plan.active_nodes@.len() as int) =~= nv);
        Ok(out)
    }

    fn resolve_writer_gap(&self, gap: &PlannerWriterContextGapDto, prompt_context: &WriterPlannerPromptContext) -> (r:
        Result<Option<GapOutcome>, PlanningError>)
        ensures
            match writer_gap_result(*gap, prompt_context.targets(), self.planner.max_reason_bytes) {
                Err(e) => r == Err::<Option<GapOutcome>, PlanningError>(e),
                Ok(o) => r matches Ok(x) && opt_outcome_view(x) == o,
            },
    {
        if is_blank(gap.reason.as_str()) {
            return Err(PlanningError::InvalidOutput { code: "context_gap_reason_empty" });
        }
        let reason = match BoundedText::try_new(gap.reason.clone(), "reason", self.planner.max_reason_bytes) {
            Ok(t) => t,
            Err(_) => {
                return Err(PlanningError::LimitExceeded { limit: "max_reason_bytes" });
            },
        };
        let target = match prompt_context.target(gap.target_id.as_str()) {
            Some(t) => t,
            None => {
                return Ok(None);
            },
        };
        match target {
            IndexedRetrievalTarget::Role(role_id) => Ok(
                Some(GapOutcome::RoleCognition { role_id: role_id.duplicate(), reason }),
            ),
            IndexedRetrievalTarget::Knowledge(source_id) => {
                let entities: Vec<KnowledgeEntity> = Vec::new();
                let topics: Vec<TopicKey> = Vec::new();
                let q = self.make_request(
                    KnowledgeDelivery::Writer,
                    Some(source_id.duplicate()),
                    writer_kind_list(),
                    entities,
                    topics,
                    reason.as_str(),
                    RetrievalRequestOrigin::Planner,
                    0,
                );
                match q {
                    Ok(q) => {
                        proof {
                            lemma_fixed_kinds_canonical();
                            assert(entities_view(entities@) =~= Seq::<(u32, Seq<char>)>::empty());
                            assert(topics_view(topics@) =~= Seq::<Seq<char>>::empty());
                            lemma_short_entity_list(q@.entities, entities_view(entities@));
                            lemma_short_topic_list(q@.topics, topics_view(topics@));
                            assert(q@ == writer_gap_request(source_id@, gap.reason@));
                        }
                        Ok(Some(GapOutcome::Knowledge(q)))
                    },
                    Err(e) => Err(e),
                }
            },
        }
    }

    fn resolve_character_gap(
        &self,
        gap: &PlannerCharacterContextGapDto,
        think_requests: &Vec<CharacterThinkRequest>,
        prompt_context: &WriterPlannerPromptContext,
    ) -> (r: Result<Option<KnowledgeRetrievalRequest>, PlanningError>)
        ensures
            match character_gap_result(
                *gap,
                think_views(think_requests@),
                prompt_context.targets(),
                self.planner.max_reason_bytes,
            ) {
                Err(e) => r == Err::<Option<KnowledgeRetrievalRequest>, PlanningError>(e),
                Ok(o) => r matches Ok(x) && opt_request_view(x) == o,
            },
    {
        if is_blank(gap.reason.as_str()) {
            return Err(PlanningError::InvalidOutput { code: "context_gap_reason_empty" });
        }
        let reason = match BoundedText::try_new(gap.reason.clone(), "reason", self.planner.max_reason_bytes) {
            Ok(t) => t,
            Err(_) => {
                return Err(PlanningError::LimitExceeded { limit: "max_reason_bytes" });
            },
        };
        let role_id = match RoleId::try_new(gap.role_id.clone()) {
            Ok(id) => id,
            Err(_) => {
                return Ok(None);
            },
        };
        if !role_listed(think_requests, &role_id) {
            return Err(PlanningError::KnowledgeAudienceViolation);
        }
        let target = match prompt_context.target(gap.target_id.as_str()) {
            Some(t) => t,
            None => {
                return Ok(None);
            },
        };
        let source_id = match target {
            IndexedRetrievalTarget::Knowledge(source_id) => {
                if source_id.kind() == KnowledgeKind::Fact {
                    return Err(PlanningError::KnowledgeAudienceViolation);
                }
                source_id.duplicate()
            },
            IndexedRetrievalTarget::Role(_) => {
                return Err(PlanningError::KnowledgeAudienceViolation);
            },
        };
        let ghost role = role_id@;
        let ghost source = source_id@;
        let entities: Vec<KnowledgeEntity> = Vec::new();
        let topics: Vec<TopicKey> = Vec::new();
        let q = self.make_request(
            KnowledgeDelivery::Character { role_id },
            Some(source_id),
            character_kind_list(),
            entities,
            topics,
            reason.as_str(),
            RetrievalRequestOrigin::Planner,
            0,
        );
        match q {
            Ok(q) => {
                proof {
                    lemma_fixed_kinds_canonical();
                    assert(entities_view(entities@) =~= Seq::<(u32, Seq<char>)>::empty());
                    assert(topics_view(topics@) =~= Seq::<Seq<char>>::empty());
                    lemma_short_entity_list(q@.entities, entities_view(entities@));
                    lemma_short_topic_list(q@.topics, topics_view(topics@));
                    assert(q@ == character_gap_request(role, source, gap.reason@));
                }
                Ok(Some(q))
            },
            Err(e) => Err(e),
        }
    }
}


impl RetrievalPlanBuilder {
    /// Resolves the writer gaps in order: their knowledge requests are added
    /// to `knowledge`, the roles they name are returned (first reason per role).
    fn collect_writer_gaps(
        &self,
        gaps: &Vec<PlannerWriterContextGapDto>,
        prompt_context: &WriterPlannerPromptContext,
        knowledge: &mut Vec<KnowledgeRetrievalRequest>,
    ) -> (r: Result<Vec<(RoleId, BoundedText, RetrievalRequestOrigin)>, PlanningError>)
        ensures
            match writer_gap_outcomes(gaps@, prompt_context.targets(), self.planner.max_reason_bytes) {
                Err(e) => r == Err::<Vec<(RoleId, BoundedText, RetrievalRequestOrigin)>, PlanningError>(e),
                Ok(w) => r matches Ok(es) && entry_views(es@) == planner_entries(w.0) && request_views(
                    final(knowledge)@,
                ) == request_views(old(knowledge)@) + w.1,
            },
    {
        let ghost targets = prompt_context.targets();
        let ghost max = self.planner.max_reason_bytes;
        let ghost start = request_views(knowledge@);
        let mut es: Vec<(RoleId, BoundedText, RetrievalRequestOrigin)> = Vec::new();
        let mut i: usize = 0;
        assert(gaps@.take(0) =~= Seq::<PlannerWriterContextGapDto>::empty());
        assert(entry_views(es@) =~= planner_entries(Seq::empty()));
        assert(request_views(knowledge@) =~= start + Seq::<KnowledgeRequestView>::empty());
        while i < gaps.len()
            invariant
                i <= gaps@.len(),
                targets == prompt_context.targets(),
                max == self.planner.max_reason_bytes,
                start == request_views(old(knowledge)@),
                writer_gap_outcomes(gaps@.take(i as int), targets, max) matches Ok(w) && entry_views(es@)
                    == planner_entries(w.0) && request_views(knowledge@) == start + w.1,
            decreases gaps@.len() - i,
        {
            let ghost w = writer_gap_outcomes(gaps@.take(i as int), targets, max)->Ok_0;
            proof {
                assert(gaps@.take(i + 1).drop_last() =~= gaps@.take(i as int));
                assert(gaps@.take(i + 1).last() == gaps@[i as int]);
            }
            match self.resolve_writer_gap(&gaps[i], prompt_context) {
                Err(e) => {
                    proof {
                        lemma_writer_gaps_error_sticks(gaps@, i as int + 1, targets, max);
                    }
                    return Err(e);
                },
                Ok(None) => {},
                Ok(Some(GapOutcome::RoleCognition { role_id, reason })) => {
                    if !entry_listed(&es, &role_id) {
                        let ghost before = es@;
                        es.push((role_id, reason, RetrievalRequestOrigin::Planner));
                        proof {
                            assert(entry_views(es@) =~= entry_views(before).push(
                                (es@.last().0@, es@.last().1@, RetrievalRequestOrigin::Planner),
                            ));
                            assert(planner_entries(w.0.push((es@.last().0@, es@.last().1@))) =~= planner_entries(
                                w.0,
                            ).push((es@.last().0@, es@.last().1@, RetrievalRequestOrigin::Planner)));
                            if has_role(w.0, es@.last().0@) {
                                let k = choose|k: int| 0 <= k < w.0.len() && (#[trigger] w.0[k]).0 == es@.last().0@;
                                assert(entry_views(before)[k].0 == es@.last().0@);
                            }
                        }
                    } else {
                        proof {
                            let k = choose|k: int|
                                0 <= k < entry_views(es@).len() && (#[trigger] entry_views(es@)[k]).0 == role_id@;
                            assert(w.0[k].0 == role_id@);
                        }
                    }
                },
                Ok(Some(GapOutcome::Knowledge(q))) => {
                    let ghost before = knowledge@;
                    knowledge.push(q);
                    proof {
                        assert(request_views(knowledge@) =~= request_views(before).push(q@));
                        assert(start + w.1.push(q@) =~= (start + w.1).push(q@));
                    }
                },
            }
            i = i + 1;
        }
        assert(gaps@.take(gaps@.len() as int) =~= gaps@);
        Ok(es)
    }

    /// Resolves the character gaps in order, adding their requests to
    /// `knowledge`.
    fn collect_character_gaps(
        &self,
        gaps: &Vec<PlannerCharacterContextGapDto>,
        think_requests: &Vec<CharacterThinkRequest>,
        prompt_context: &WriterPlannerPromptContext,
        knowledge: &mut Vec<KnowledgeRetrievalRequest>,
    ) -> (r: Result<(), PlanningError>)
        ensures
            match character_gap_outcomes(
                gaps@,
                think_views(think_requests@),
                prompt_context.targets(),
                self.planner.max_reason_bytes,
            ) {
                Err(e) => r == Err::<(), PlanningError>(e),
                Ok(c) => r is Ok && request_views(final(knowledge)@) == request_views(old(knowledge)@) + c,
            },
    {
        let ghost targets = prompt_context.targets();
        let ghost max = self.planner.max_reason_bytes;
        let ghost think = think_views(think_requests@);
        let ghost start = request_views(knowledge@);
        let mut i: usize = 0;
        assert(gaps@.take(0) =~= Seq::<PlannerCharacterContextGapDto>::empty());
        assert(request_views(knowledge@) =~= start + Seq::<KnowledgeRequestView>::empty());
        while i < gaps.len()
            invariant
                i <= gaps@.len(),
                targets == prompt_context.targets(),
                max == self.planner.max_reason_bytes,
                think == think_views(think_requests@),
                start == request_views(old(knowledge)@),
                character_gap_outcomes(gaps@.take(i as int), think, targets, max) matches Ok(c) && request_views(
                    knowledge@,
                ) == start + c,
            decreases gaps@.len() - i,
        {
            let ghost c = character_gap_outcomes(gaps@.take(i as int), think, targets, max)->Ok_0;
            proof {
                assert(gaps@.take(i + 1).drop_last() =~= gaps@.take(i as int));
                assert(gaps@.take(i + 1).last() == gaps@[i as int]);
            }
            match self.resolve_character_gap(&gaps[i], think_requests, prompt_context) {
                Err(e) => {
                    proof {
                        lemma_character_gaps_error_sticks(gaps@, i as int + 1, think, targets, max);
                    }
                    return Err(e);
                },
                Ok(None) => {},
                Ok(Some(q)) => {
                    let ghost before = knowledge@;
                    knowledge.push(q);
                    proof {
                        assert(request_views(knowledge@) =~= request_views(before).push(q@));
                        assert(start + c.push(q@) =~= (start + c).push(q@));
                    }
                },
            }
            i = i + 1;
        }
        assert(gaps@.take(gaps@.len() as int) =~= gaps@);
        Ok(())
    }
}

/// Adds an automatic cognition entry for each thinking role not listed yet.
fn add_automatic_entries(
    es: &mut Vec<(RoleId, BoundedText, RetrievalRequestOrigin)>,
    think_requests: &Vec<CharacterThinkRequest>,
)
    ensures
        entry_views(final(es)@) == with_automatic(entry_views(old(es)@), think_views(think_requests@)),
{
    let ghost start = entry_views(es@);
    let ghost think = think_views(think_requests@);
    let mut k: usize = 0;
    assert(think.take(0) =~= Seq::<(Seq<char>, Seq<char>)>::empty());
    while k < think_requests.len()
        invariant
            k <= think_requests@.len(),
            think == think_views(think_requests@),
            start == entry_views(old(es)@),
            entry_views(es@) == with_automatic(start, think.take(k as int)),
        decreases think_requests@.len() - k,
    {
        proof {
            assert(think.take(k + 1).drop_last() =~= think.take(k as int));
            assert(think.take(k + 1).last() == think_requests@[k as int]@);
        }
        let t = &think_requests[k];
        if !entry_listed(es, &t.role_id) {
            let ghost before = es@;
            es.push((t.role_id.duplicate(), t.reason.duplicate(), RetrievalRequestOrigin::Automatic));
            assert(entry_views(es@) =~= entry_views(before).push((t.role_id@, t.reason@, RetrievalRequestOrigin::Automatic)));
        }
        k = k + 1;
    }
    assert(think.take(think.len() as int) =~= think);
}

proof fn lemma_with_automatic_keeps_unique(es: Seq<CognitionEntry>, think: Seq<(Seq<char>, Seq<char>)>)
    requires
        unique_entry_roles(es),
    ensures
        unique_entry_roles(with_automatic(es, think)),
        forall|r: Seq<char>| has_entry(es, r) ==> #[trigger] has_entry(with_automatic(es, think), r),
        forall|i: int|
            0 <= i < with_automatic(es, think).len() ==> es.contains(#[trigger] with_automatic(es, think)[i]) || exists|
                j: int,
            |
                0 <= j < think.len() && with_automatic(es, think)[i] == (
                    #[trigger] think[j].0,
                    think[j].1,
                    RetrievalRequestOrigin::Automatic,
                ),
    decreases think.len(),
{
    if think.len() > 0 {
        let t = think.drop_last();
        lemma_with_automatic_keeps_unique(es, t);
        let prev = with_automatic(es, t);
        let w = with_automatic(es, think);
        assert forall|r: Seq<char>| has_entry(es, r) implies #[trigger] has_entry(w, r) by {
            assert(has_entry(prev, r));
            let k = choose|k: int| 0 <= k < prev.len() && (#[trigger] prev[k]).0 == r;
            assert(w[k] == prev[k]);
        }
        assert forall|i: int| 0 <= i < w.len() implies es.contains(#[trigger] w[i]) || exists|j: int|
            0 <= j < think.len() && w[i] == (#[trigger] think[j].0, think[j].1, RetrievalRequestOrigin::Automatic) by {
            if i < prev.len() {
                assert(w[i] == prev[i]);
                if !es.contains(prev[i]) {
                    let j = choose|j: int|
                        0 <= j < t.len() && prev[i] == (#[trigger] t[j].0, t[j].1, RetrievalRequestOrigin::Automatic);
                    assert(think[j] == t[j]);
                }
            } else {
                assert(think[think.len() - 1] == think.last());
            }
        }
        if !has_entry(prev, think.last().0) {
            assert forall|a: int, b: int| #![trigger w[a], w[b]] 0 <= a < b < w.len() implies w[a].0 != w[b].0 by {
                if b == w.len() - 1 {
                    assert(w[a] == prev[a]);
                }
            }
        }
    }
}

proof fn lemma_planner_entries_unique(roles: Seq<(Seq<char>, Seq<char>)>, es: Seq<CognitionEntry>)
    requires
        es == planner_entries(roles),
        forall|a: int, b: int| #![trigger roles[a], roles[b]] 0 <= a < b < roles.len() ==> roles[a].0 != roles[b].0,
    ensures
        unique_entry_roles(es),
{
    assert forall|a: int, b: int| #![trigger es[a], es[b]] 0 <= a < b < es.len() implies es[a].0 != es[b].0 by {
        assert(es[a].0 == roles[a].0);
        assert(es[b].0 == roles[b].0);
    }
}

proof fn lemma_writer_roles_unique(
    gaps: Seq<PlannerWriterContextGapDto>,
    targets: Map<Seq<char>, TargetView>,
    max_reason_bytes: usize,
)
    ensures
        writer_gap_outcomes(gaps, targets, max_reason_bytes) matches Ok(w) ==> forall|a: int, b: int|
            #![trigger w.0[a], w.0[b]]
            0 <= a < b < w.0.len() ==> w.0[a].0 != w.0[b].0,
    decreases gaps.len(),
{
    if gaps.len() > 0 {
        lemma_writer_roles_unique(gaps.drop_last(), targets, max_reason_bytes);
    }
}


impl RetrievalPlanBuilder {
    /// Lists the cognition entries by role id as character requests, and adds
    /// each role's cognition request to `knowledge` in that order.
    fn plan_cognition(
        &self,
        es: &Vec<(RoleId, BoundedText, RetrievalRequestOrigin)>,
        knowledge: &mut Vec<KnowledgeRetrievalRequest>,
    ) -> (out: Vec<CharacterRetrievalRequest>)
        requires
            unique_entry_roles(entry_views(es@)),
            forall|a: int| 0 <= a < es@.len() ==> byte_len((#[trigger] es@[a]).1@) <= self.planner.max_reason_bytes,
        ensures
            sorted_entries(cognition_views(out@), entry_views(es@)),
            request_views(final(knowledge)@) == request_views(old(knowledge)@) + cognition_views(out@).map_values(
                |c: CognitionEntry| cognition_request(c),
            ),
    {
        let ghost ev = entry_views(es@);
        let mut keys: Vec<Vec<u32>> = Vec::new();
        let mut i: usize = 0;
        while i < es.len()
            invariant
                i <= es@.len(),
                keys@.len() == i,
                forall|j: int| 0 <= j < i ==> (#[trigger] keys@[j])@ == enc_text(es@[j].0@),
            decreases es@.len() - i,
        {
            keys.push(enc_text_of(es[i].0.as_str()));
            i = i + 1;
        }
        let order = stable_order(&keys);
        let ghost ks = views(keys@);
        let ghost start = request_views(knowledge@);
        proof {
            lemma_fixed_kinds_canonical();
        }
        let mut out: Vec<CharacterRetrievalRequest> = Vec::new();
        let mut k: usize = 0;
        assert(request_views(knowledge@) =~= start + cognition_views(out@).map_values(
            |c: CognitionEntry| cognition_request(c),
        ));
        while k < order.len()
            invariant
                ev == entry_views(es@),
                ks == views(keys@),
                ks.len() == es@.len(),
                is_stable_order(ks, order@),
                forall|a: int| 0 <= a < es@.len() ==> byte_len((#[trigger] es@[a]).1@) <= self.planner.max_reason_bytes,
                canonical_kinds_spec(character_kinds()) == character_kinds(),
                start == request_views(old(knowledge)@),
                k <= order@.len(),
                out@.len() == k,
                forall|a: int| 0 <= a < k ==> (#[trigger] out@[a])@ == ev[order@[a] as int],
                request_views(knowledge@) == start + cognition_views(out@).map_values(
                    |c: CognitionEntry| cognition_request(c),
                ),
            decreases order@.len() - k,
        {
            let e = &es[order[k]];
            let entities = vec![KnowledgeEntity::Role(e.0.duplicate())];
            let topics: Vec<TopicKey> = Vec::new();
            let q = self.make_request(
                KnowledgeDelivery::Character { role_id: e.0.duplicate() },
                None,
                character_kind_list(),
                entities,
                topics,
                e.1.as_str(),
                e.2,
                0,
            );
            let q = match q {
                Ok(q) => q,
                Err(_) => {
                    assert(false);
                    return out;
                },
            };
            let ghost entry = ev[order@[k as int] as int];
            proof {
                assert(entry == (e.0@, e.1@, e.2));
                assert(entities_view(entities@) =~= seq![(1u32, e.0@)]);
                assert(topics_view(topics@) =~= Seq::<Seq<char>>::empty());
                lemma_short_entity_list(q@.entities, entities_view(entities@));
                lemma_short_topic_list(q@.topics, topics_view(topics@));
                assert(q@ == cognition_request(entry));
            }
            let ghost before_out = out@;
            let ghost before_k = knowledge@;
            out.push(CharacterRetrievalRequest { role_id: e.0.duplicate(), reason: e.1.duplicate(), origin: e.2 });
            knowledge.push(q);
            proof {
                assert(cognition_views(out@) =~= cognition_views(before_out).push(entry));
                assert(cognition_views(out@).map_values(|c: CognitionEntry| cognition_request(c)) =~= cognition_views(
                    before_out,
                ).map_values(|c: CognitionEntry| cognition_request(c)).push(cognition_request(entry)));
                assert(request_views(knowledge@) =~= request_views(before_k).push(q@));
            }
            k = k + 1;
        }
        proof {
            let cv = cognition_views(out@);
            assert forall|a: int| 0 <= a < cv.len() implies #[trigger] cv[a] == ev[order@[a] as int] by {}
            assert forall|j: int| 0 <= j < ev.len() implies cv.contains(#[trigger] ev[j]) by {
                assert(order@.contains(j as usize));
                let a = choose|a: int| 0 <= a < order@.len() && order@[a] == j as usize;
                assert(cv[a] == ev[j]);
            }
            assert forall|a: int| 0 <= a < cv.len() implies ev.contains(#[trigger] cv[a]) by {
                assert(cv[a] == ev[order@[a] as int]);
            }
            assert forall|a: int, b: int|
                #![trigger cv[a], cv[b]]
                0 <= a < b < cv.len() implies lex_lt(enc_text(cv[a].0), enc_text(cv[b].0)) by {
                let ia = order@[a] as int;
                let ib = order@[b] as int;
                assert(pos_lt(ks, ia, ib));
                assert(ks[ia] == enc_text(ev[ia].0));
                assert(ks[ib] == enc_text(ev[ib].0));
                if ks[ia] == ks[ib] {
                    lemma_enc_text_injective(ev[ia].0, ev[ib].0);
                    if ia < ib {
                        assert(ev[ia].0 != ev[ib].0);
                    } else {
                        lemma_lex_irreflexive(ks[ia]);
                    }
                }
            }
        }
        out
    }
}


proof fn lemma_merged_think(
    think: Seq<(Seq<char>, Seq<char>)>,
    planned: Seq<(Seq<char>, Seq<char>)>,
    adds: Seq<(Seq<char>, Seq<char>)>,
    max_reason_bytes: usize,
)
    requires
        think.len() == planned.len() + adds.len(),
        think.take(planned.len() as int) == planned,
        sorted_by_role(think.skip(planned.len() as int), adds),
        forall|i: int| 0 <= i < planned.len() ==> byte_len((#[trigger] planned[i]).1) <= max_reason_bytes,
        forall|i: int| 0 <= i < adds.len() ==> byte_len((#[trigger] adds[i]).1) <= max_reason_bytes,
    ensures
        forall|r: Seq<char>| has_role(think, r) == has_role(planned + adds, r),
        forall|i: int| 0 <= i < think.len() ==> byte_len((#[trigger] think[i]).1) <= max_reason_bytes,
{
    let n = planned.len() as int;
    let tail = think.skip(n);
    assert(think.len() == n + adds.len());
    assert forall|i: int| 0 <= i < think.len() implies byte_len((#[trigger] think[i]).1) <= max_reason_bytes by {
        if i < n {
            assert(think.take(n)[i] == think[i]);
        } else {
            assert(tail[i - n] == think[i]);
            assert(adds.contains(tail[i - n]));
        }
    }
    assert forall|r: Seq<char>| has_role(think, r) == has_role(planned + adds, r) by {
        let both = planned + adds;
        if has_role(think, r) {
            let i = choose|i: int| 0 <= i < think.len() && (#[trigger] think[i]).0 == r;
            if i < n {
                assert(think.take(n)[i] == think[i]);
                assert(both[i] == planned[i]);
            } else {
                assert(tail[i - n] == think[i]);
                assert(adds.contains(tail[i - n]));
                let j = choose|j: int| 0 <= j < adds.len() && adds[j] == tail[i - n];
                assert(both[n + j] == adds[j]);
            }
        }
        if has_role(both, r) {
            let i = choose|i: int| 0 <= i < both.len() && (#[trigger] both[i]).0 == r;
            if i < n {
                assert(think.take(n)[i] == think[i]);
            } else {
                assert(both[i] == adds[i - n]);
                assert(tail.contains(adds[i - n]));
                let j = choose|j: int| 0 <= j < tail.len() && tail[j] == adds[i - n];
                assert(think[n + j] == tail[j]);
            }
        }
    }
}

impl RetrievalPlanBuilder {
    /// The writer plan of a turn: the story goal, the character think
    /// requests (the planner's, then those narrative impulses add) and the
    /// retrieval plan (role cognition by role id, knowledge requests deduped
    /// and listed by priority).
    #[verifier::rlimit(60)]
    pub fn build(
        &self,
        baseline: &BaselineContext,
        narrative_plan: &NarrativePlan,
        planner_output: WriterPlannerOutputDto,
        snapshot: &StoryReadSnapshot,
        prompt_context: &WriterPlannerPromptContext,
    ) -> (r: Result<WriterPlan, PlanningError>)
        ensures
            build_outcome(*self, *baseline, *narrative_plan, planner_output, *snapshot, *prompt_context, r),
    {
        let ghost dto = planner_output;
        let ghost max = self.planner.max_reason_bytes;
        let writer_gaps = planner_output.writer_context_gaps;
        let character_gaps = planner_output.character_context_gaps;
        if writer_gaps.len() > self.planner.max_context_gaps || character_gaps.len() > self.planner.max_context_gaps
            - writer_gaps.len() {
            return Err(PlanningError::LimitExceeded { limit: "max_context_gaps" });
        }
        if planner_output.character_think_requests.len() > self.planner.max_character_think_requests {
            return Err(PlanningError::LimitExceeded { limit: "max_character_think_requests" });
        }
        if is_blank(planner_output.story_goal.as_str()) {
            return Err(PlanningError::InvalidOutput { code: "story_goal_empty" });
        }
        let story_goal = match BoundedText::try_new(
            planner_output.story_goal,
            "story_goal",
            self.planner.max_goal_bytes,
        ) {
            Ok(t) => t,
            Err(_) => {
                return Err(PlanningError::LimitExceeded { limit: "max_goal_bytes" });
            },
        };
        let converted = match self.convert_think_requests(planner_output.character_think_requests) {
            Ok(v) => v,
            Err(e) => {
                return Err(e);
            },
        };
        let ghost planned = think_views(converted@);
        proof {
            lemma_converted_bounded(dto.character_think_requests@, max);
        }
        let validated = match self.validate_think_requests(converted, snapshot) {
            Ok(v) => v,
            Err(e) => {
                return Err(e);
            },
        };
        let think = match merge_narrative_think_requests(
            validated,
            &narrative_plan.character_impulses,
            baseline,
            &self.planner,
        ) {
            Ok(v) => v,
            Err(e) => {
                return Err(e);
            },
        };
        let ghost adds = impulse_additions(planned, narrative_plan.character_impulses@, *baseline, max)->Ok_0;
        let ghost tv = think_views(think@);
        proof {
            lemma_additions_bounded(planned, narrative_plan.character_impulses@, *baseline, max);
            lemma_merged_think(tv, planned, adds, max);
            lemma_character_gaps_same_roles(character_gaps@, tv, planned + adds, prompt_context.targets(), max);
        }
        let mut knowledge = match self.narrative_requests(narrative_plan) {
            Ok(v) => v,
            Err(e) => {
                return Err(e);
            },
        };
        let ghost narr = request_views(knowledge@);
        let mut es = match self.collect_writer_gaps(&writer_gaps, prompt_context, &mut knowledge) {
            Ok(es) => es,
            Err(e) => {
                return Err(e);
            },
        };
        let ghost w = writer_gap_outcomes(writer_gaps@, prompt_context.targets(), max)->Ok_0;
        let ghost after_writer = request_views(knowledge@);
        match self.collect_character_gaps(&character_gaps, &think, prompt_context, &mut knowledge) {
            Ok(()) => {},
            Err(e) => {
                return Err(e);
            },
        }
        let ghost cg = character_gap_outcomes(character_gaps@, tv, prompt_context.targets(), max)->Ok_0;
        proof {
            lemma_writer_roles_unique(writer_gaps@, prompt_context.targets(), max);
            lemma_writer_roles_bounded(writer_gaps@, prompt_context.targets(), max);
            lemma_planner_entries_unique(w.0, entry_views(es@));
        }
        let ghost pe = entry_views(es@);
        add_automatic_entries(&mut es, &think);
        proof {
            lemma_with_automatic_keeps_unique(pe, tv);
            assert forall|a: int| 0 <= a < es@.len() implies byte_len((#[trigger] es@[a]).1@) <= max by {
                let x = entry_views(es@)[a];
                assert(x.1 == es@[a].1@);
                if pe.contains(x) {
                    let b = choose|b: int| 0 <= b < pe.len() && pe[b] == x;
                    assert(pe[b].1 == w.0[b].1);
                } else {
                    let j = choose|j: int| 0 <= j < tv.len() && x == (#[trigger] tv[j].0, tv[j].1, RetrievalRequestOrigin::Automatic);
                }
            }
        }
        let ghost before_cognition = request_views(knowledge@);
        let character_requests = self.plan_cognition(&es, &mut knowledge);
        let ghost chars = cognition_views(character_requests@);
        let ghost nodes = node_views(narrative_plan.active_nodes@);
        proof {
            assert(request_views(knowledge@) =~= requests_before_dedupe(nodes, w.1, cg, chars));
        }
        let ghost pre = request_views(knowledge@);
        let knowledge_requests = dedupe_and_sort(knowledge);
        proof {
            assert(plan_lists(planned, adds, nodes, w, cg, tv, chars, request_views(knowledge_requests@)));
        }
        if knowledge_requests.len() > self.retrieval.max_requests {
            return Err(PlanningError::LimitExceeded { limit: "max_requests" });
        }
        Ok(
            WriterPlan {
                story_goal: WriterStoryGoal { summary: story_goal },
                retrieval_plan: RetrievalPlan { character_requests, knowledge_requests },
                character_think_requests: think,
            },
        )
    }
}


/// A request respects its audience: what a character receives holds no
/// fact, and what the writer receives holds no memory.
pub open spec fn respects_audience(q: KnowledgeRequestView) -> bool {
    match q.delivery {
        Some(_) => !q.kinds.contains(KnowledgeKind::Fact) && !(q.target matches Some(t) && t.0 == KnowledgeKind::Fact),
        None => !q.kinds.contains(KnowledgeKind::Memory) && !(q.target matches Some(t) && t.0
            == KnowledgeKind::Memory),
    }
}

proof fn lemma_kind_lists()
    ensures
        !writer_kinds().contains(KnowledgeKind::Memory),
        !character_kinds().contains(KnowledgeKind::Fact),
{
    let w = writer_kinds();
    let c = character_kinds();
    if w.contains(KnowledgeKind::Memory) {
        let i = choose|i: int| 0 <= i < w.len() && w[i] == KnowledgeKind::Memory;
    }
    if c.contains(KnowledgeKind::Fact) {
        let i = choose|i: int| 0 <= i < c.len() && c[i] == KnowledgeKind::Fact;
    }
}

proof fn lemma_writer_gaps_respect_audience(
    gaps: Seq<PlannerWriterContextGapDto>,
    targets: Map<Seq<char>, TargetView>,
    max_reason_bytes: usize,
)
    requires
        forall|k: Seq<char>| #[trigger] targets.contains_key(k) ==> (targets[k] matches TargetView::Knowledge(s)
            ==> s.0 != KnowledgeKind::Memory),
    ensures
        writer_gap_outcomes(gaps, targets, max_reason_bytes) matches Ok(w) ==> forall|i: int|
            0 <= i < w.1.len() ==> respects_audience(#[trigger] w.1[i]),
    decreases gaps.len(),
{
    lemma_kind_lists();
    if gaps.len() > 0 {
        lemma_writer_gaps_respect_audience(gaps.drop_last(), targets, max_reason_bytes);
        let g = gaps.last();
        if targets.contains_key(g.target_id@) {
            assert(targets.contains_key(g.target_id@));
        }
    }
}

proof fn lemma_character_gaps_respect_audience(
    gaps: Seq<PlannerCharacterContextGapDto>,
    think: Seq<(Seq<char>, Seq<char>)>,
    targets: Map<Seq<char>, TargetView>,
    max_reason_bytes: usize,
)
    ensures
        character_gap_outcomes(gaps, think, targets, max_reason_bytes) matches Ok(c) ==> forall|i: int|
            0 <= i < c.len() ==> respects_audience(#[trigger] c[i]),
    decreases gaps.len(),
{
    lemma_kind_lists();
    if gaps.len() > 0 {
        lemma_character_gaps_respect_audience(gaps.drop_last(), think, targets, max_reason_bytes);
    }
}

/// Law: every knowledge request a successful build lists respects its
/// audience, when the indexed knowledge holds no memories: narrative and
/// writer requests ask for facts and rumors, character requests for rumors
/// and memories, and no character receives a fact.
pub proof fn law_built_requests_respect_audience(
    planned: Seq<(Seq<char>, Seq<char>)>,
    adds: Seq<(Seq<char>, Seq<char>)>,
    nodes: Seq<Seq<char>>,
    writer_gaps: Seq<PlannerWriterContextGapDto>,
    character_gaps: Seq<PlannerCharacterContextGapDto>,
    targets: Map<Seq<char>, TargetView>,
    max_reason_bytes: usize,
    think: Seq<(Seq<char>, Seq<char>)>,
    chars: Seq<CognitionEntry>,
    known: Seq<KnowledgeRequestView>,
)
    requires
        forall|k: Seq<char>| #[trigger] targets.contains_key(k) ==> (targets[k] matches TargetView::Knowledge(s)
            ==> s.0 != KnowledgeKind::Memory),
        writer_gap_outcomes(writer_gaps, targets, max_reason_bytes) is Ok,
        character_gap_outcomes(character_gaps, planned + adds, targets, max_reason_bytes) is Ok,
        plan_lists(
            planned,
            adds,
            nodes,
            writer_gap_outcomes(writer_gaps, targets, max_reason_bytes)->Ok_0,
            character_gap_outcomes(character_gaps, planned + adds, targets, max_reason_bytes)->Ok_0,
            think,
            chars,
            known,
        ),
    ensures
        forall|a: int| 0 <= a < known.len() ==> respects_audience(#[trigger] known[a]),
{
    let w = writer_gap_outcomes(writer_gaps, targets, max_reason_bytes)->Ok_0;
    let cg = character_gap_outcomes(character_gaps, planned + adds, targets, max_reason_bytes)->Ok_0;
    lemma_kind_lists();
    lemma_writer_gaps_respect_audience(writer_gaps, targets, max_reason_bytes);
    lemma_character_gaps_respect_audience(character_gaps, planned + adds, targets, max_reason_bytes);
    let narr = distinct_nodes(nodes).map_values(|n: Seq<char>| narrative_request(n));
    let cog = chars.map_values(|c: CognitionEntry| cognition_request(c));
    let pre = requests_before_dedupe(nodes, w.1, cg, chars);
    assert forall|i: int| 0 <= i < pre.len() implies respects_audience(#[trigger] pre[i]) by {
        if i < narr.len() {
            assert(pre[i] == narr[i]);
        } else if i < narr.len() + w.1.len() {
            assert(pre[i] == w.1[i - narr.len()]);
        } else if i < narr.len() + w.1.len() + cg.len() {
            assert(pre[i] == cg[i - narr.len() - w.1.len()]);
        } else {
            assert(pre[i] == cog[i - narr.len() - w.1.len() - cg.len()]);
        }
    }
    crate::planning::request_key::law_deduped_from_input(known, pre);
    assert forall|a: int| 0 <= a < known.len() implies respects_audience(#[trigger] known[a]) by {
        assert(pre.contains(known[a]));
        let i = choose|i: int| 0 <= i < pre.len() && pre[i] == known[a];
    }
}

/// Law: the merged think requests keep the planner's requests first, and
/// name each role once when the planner's do.
pub proof fn law_merged_roles_once(
    planned: Seq<(Seq<char>, Seq<char>)>,
    impulses: Seq<CharacterImpulse>,
    b: BaselineContext,
    max_reason_bytes: usize,
    merged: Seq<(Seq<char>, Seq<char>)>,
)
    requires
        forall|i: int, j: int| #![trigger planned[i], planned[j]] 0 <= i < j < planned.len() ==> planned[i].0 != planned[j].0,
        impulse_additions(planned, impulses, b, max_reason_bytes) is Ok,
        merged.len() == planned.len() + impulse_additions(planned, impulses, b, max_reason_bytes)->Ok_0.len(),
        merged.take(planned.len() as int) == planned,
        sorted_by_role(
            merged.skip(planned.len() as int),
            impulse_additions(planned, impulses, b, max_reason_bytes)->Ok_0,
        ),
    ensures
        forall|i: int, j: int| #![trigger merged[i], merged[j]] 0 <= i < j < merged.len() ==> merged[i].0 != merged[j].0,
{
    let adds = impulse_additions(planned, impulses, b, max_reason_bytes)->Ok_0;
    lemma_additions_unique(planned, impulses, b, max_reason_bytes);
    let n = planned.len() as int;
    let tail = merged.skip(n);
    assert forall|i: int, j: int| #![trigger merged[i], merged[j]] 0 <= i < j < merged.len() implies merged[i].0
        != merged[j].0 by {
        if j < n {
            assert(merged.take(n)[i] == merged[i]);
            assert(merged.take(n)[j] == merged[j]);
        } else if i < n {
            assert(merged.take(n)[i] == merged[i]);
            assert(tail[j - n] == merged[j]);
            assert(adds.contains(tail[j - n]));
            let k = choose|k: int| 0 <= k < adds.len() && adds[k] == tail[j - n];
            assert(!has_role(planned, adds[k].0));
        } else {
            assert(tail[i - n] == merged[i]);
            assert(tail[j - n] == merged[j]);
            assert(lex_lt(enc_text(tail[i - n].0), enc_text(tail[j - n].0)));
            if merged[i].0 == merged[j].0 {
                lemma_lex_irreflexive(enc_text(tail[i - n].0));
            }
        }
    }
}


/// The request each impulse stands for: its role and its reason.
pub open spec fn impulse_requests(impulses: Seq<CharacterImpulse>) -> Seq<(Seq<char>, Seq<char>)> {
    impulses.map_values(|imp: CharacterImpulse| (imp.target_role_id@, impulse_reason(imp)))
}

/// Law: the baseline's relevant roles and the roles of its index are roles
/// an impulse may target. Impulses for distinct roles that are each among
/// the relevant roles or in the role index, none the player's and none
/// requested by the planner, with reasons in budget, each add a think
/// request for their role with their reason, in order; none is refused as
/// an unknown role.
pub proof fn law_relevant_and_indexed_roles_take_impulses(
    planned: Seq<(Seq<char>, Seq<char>)>,
    impulses: Seq<CharacterImpulse>,
    b: BaselineContext,
    max_reason_bytes: usize,
)
    requires
        forall|k: int|
            0 <= k < impulses.len() ==> {
                let r = (#[trigger] impulses[k]).target_role_id@;
                &&& (exists|i: int| 0 <= i < b.relevant_roles@.len() && (#[trigger] b.relevant_roles@[i]).role_id@ == r)
                    || (exists|i: int| 0 <= i < b.role_index@.len() && (#[trigger] b.role_index@[i]).role_id@ == r)
                &&& r != b.player_role.role_id@
                &&& !has_role(planned, r)
                &&& byte_len(impulse_reason(impulses[k])) <= max_reason_bytes
            },
        forall|a: int, c: int|
            0 <= a < c < impulses.len() ==> (#[trigger] impulses[a]).target_role_id@ != (#[trigger] impulses[c]).target_role_id@,
    ensures
        impulse_additions(planned, impulses, b, max_reason_bytes) == Ok::<Seq<(Seq<char>, Seq<char>)>, PlanningError>(
            impulse_requests(impulses),
        ),
    decreases impulses.len(),
{
    if impulses.len() > 0 {
        let init = impulses.drop_last();
        assert forall|k: int| 0 <= k < init.len() implies init[k] == impulses[k] by {}
        law_relevant_and_indexed_roles_take_impulses(planned, init, b, max_reason_bytes);
        let adds = impulse_requests(init);
        let last = impulses.last();
        let r = last.target_role_id@;
        assert(impulses[impulses.len() - 1] == last);
        if has_role(adds, r) {
            let i = choose|i: int| 0 <= i < adds.len() && (#[trigger] adds[i]).0 == r;
            assert(adds[i].0 == impulses[i].target_role_id@);
            assert(false);
        }
        assert(impulse_requests(impulses) =~= adds.push((r, impulse_reason(last))));
    } else {
        assert(impulse_requests(impulses) =~= Seq::<(Seq<char>, Seq<char>)>::empty());
    }
}


/// Law: a writer gap with a reason in budget is dropped when its target is
/// unknown; a gap on a role asks for that role's cognition with the gap's
/// reason; a gap on a knowledge entry asks, for the writer, for that entry,
/// of facts and rumors only, with the gap's reason. A blank reason is
/// refused.
pub proof fn law_writer_gaps_ask_for_their_target(
    g: PlannerWriterContextGapDto,
    targets: Map<Seq<char>, TargetView>,
    max_reason_bytes: usize,
)
    ensures
        blank(g.reason@) ==> writer_gap_result(g, targets, max_reason_bytes) is Err,
        !blank(g.reason@) && byte_len(g.reason@) <= max_reason_bytes ==> match writer_gap_result(
            g,
            targets,
            max_reason_bytes,
        ) {
            Ok(None) => !targets.contains_key(g.target_id@),
            Ok(Some(GapOutcomeView::Cognition(r, x))) => targets.contains_key(g.target_id@) && targets[g.target_id@]
                == TargetView::Role(r) && x == g.reason@,
            Ok(Some(GapOutcomeView::Knowledge(q))) => targets.contains_key(g.target_id@) && targets[g.target_id@]
                == TargetView::Knowledge(q.target.unwrap()) && q.target is Some && q.delivery is None && q.reason
                == g.reason@ && q.kinds.contains(KnowledgeKind::Fact) && q.kinds.contains(KnowledgeKind::Rumor)
                && !q.kinds.contains(KnowledgeKind::Memory),
            Err(_) => false,
        },
{
    lemma_kind_lists();
    assert(writer_kinds()[0] == KnowledgeKind::Fact);
    assert(writer_kinds()[1] == KnowledgeKind::Rumor);
}

/// Law: a character gap with a reason in budget, for a role that is asked
/// to think and a known target, is delivered to that role when the target
/// is a rumor or a memory, with the gap's reason, and refused as an
/// audience violation when the target is a role or a fact; a gap for a role
/// that is not asked to think is refused the same way.
pub proof fn law_character_gaps_keep_to_their_audience(
    g: PlannerCharacterContextGapDto,
    think: Seq<(Seq<char>, Seq<char>)>,
    targets: Map<Seq<char>, TargetView>,
    max_reason_bytes: usize,
)
    requires
        !blank(g.reason@),
        byte_len(g.reason@) <= max_reason_bytes,
        !blank(g.role_id@),
    ensures
        !has_role(think, g.role_id@) ==> character_gap_result(g, think, targets, max_reason_bytes) == Err::<
            Option<KnowledgeRequestView>,
            PlanningError,
        >(PlanningError::KnowledgeAudienceViolation),
        has_role(think, g.role_id@) && targets.contains_key(g.target_id@) ==> match targets[g.target_id@] {
            TargetView::Role(_) => character_gap_result(g, think, targets, max_reason_bytes) == Err::<
                Option<KnowledgeRequestView>,
                PlanningError,
            >(PlanningError::KnowledgeAudienceViolation),
            TargetView::Knowledge(s) => if s.0 == KnowledgeKind::Fact {
                character_gap_result(g, think, targets, max_reason_bytes) == Err::<
                    Option<KnowledgeRequestView>,
                    PlanningError,
                >(PlanningError::KnowledgeAudienceViolation)
            } else {
                character_gap_result(g, think, targets, max_reason_bytes) matches Ok(Some(q)) && q.delivery == Some(
                    g.role_id@,
                ) && q.target == Some(s) && q.reason == g.reason@ && !q.kinds.contains(KnowledgeKind::Fact)
            },
        },
{
    lemma_kind_lists();
}

} // verus!
