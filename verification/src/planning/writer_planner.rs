//! The writer planner stage: the decisions before and after its model call.
//! The caller renders the prepared prompt, calls the model and hands the
//! structured output back.
use crate::domain::BoundedText;
use crate::planning::error::PlanningError;
use crate::planning::planner_output::{
    writer_planner_contract, PlannerConfig, RetrievalConfig, WriterPlannerContract,
    WriterPlannerOutputDto, WRITER_PLANNER_CONTRACT_NAME,
};
use crate::planning::retrieval_plan_builder::{build_outcome, RetrievalPlanBuilder};
use crate::order::is_stable_order;
use crate::planning::writer_planner_prompt::{
    check_input_budget, constraint_keys, constraints_text, indexed_targets, role_id_views, saturating_total,
    source_id_views, target_entries, var_views, writer_planner_vars, WriterPlannerProjectionError,
    WriterPlannerPromptContext, WriterPlannerPromptContextProjector,
};
use crate::prompt::composition::PromptCompositionInput;
use crate::prompt::profile::PromptProfile;
use crate::text::{byte_len, owned};
use crate::turn::{
    BaselineContext, NarrativePlan, RoleContextView, StoryReadSnapshot, WorldKnowledgeEntry, WriterPlan,
};
use vstd::prelude::*;

verus! {

pub struct WriterPlanner {
    pub plan_builder: RetrievalPlanBuilder,
    pub config: PlannerConfig,
}

/// How a stage failed: an invariant of the turn, or the model call.
#[derive(Debug, Clone, Copy, PartialEq, Eq, Structural)]
pub enum TurnFailureKind {
    InvariantViolation,
    Llm,
}

/// The stage of a turn that failed.
#[derive(Debug, Clone, Copy, PartialEq, Eq, Structural)]
pub enum TurnStage {
    WriterPlanner,
    TurnCommitter,
}

/// A failed writer planner stage: its kind and code.
#[derive(Debug, Clone, Copy, PartialEq, Eq)]
pub struct WriterPlannerFailure {
    pub kind: TurnFailureKind,
    pub code: &'static str,
}

/// What the model call needs: the composition input, the output contract,
/// the output budget, and the context the plan is later built against.
pub struct WriterPlanRequest {
    pub input: PromptCompositionInput,
    pub contract: WriterPlannerContract,
    pub max_output_tokens: u32,
    pub context: WriterPlannerPromptContext,
}

pub open spec fn projection_error_code_spec(e: WriterPlannerProjectionError) -> Seq<char> {
    match e {
        WriterPlannerProjectionError::UnknownRoleTarget { .. } => "unknown_role_target"@,
        WriterPlannerProjectionError::PlayerRoleTarget { .. } => "player_role_target"@,
        WriterPlannerProjectionError::DuplicateRoleTarget { .. } => "duplicate_role_target"@,
        WriterPlannerProjectionError::RetrievalTargetCollision { .. } => "retrieval_target_collision"@,
        WriterPlannerProjectionError::RequiredPromptDataExceedsBudget => "required_prompt_data_exceeds_budget"@,
    }
}

/// The code a projection failure is reported under.
pub fn projection_error_code(e: &WriterPlannerProjectionError) -> (r: &'static str)
    ensures
        r@ == projection_error_code_spec(*e),
{
    match e {
        WriterPlannerProjectionError::UnknownRoleTarget { .. } => "unknown_role_target",
        WriterPlannerProjectionError::PlayerRoleTarget { .. } => "player_role_target",
        WriterPlannerProjectionError::DuplicateRoleTarget { .. } => "duplicate_role_target",
        WriterPlannerProjectionError::RetrievalTargetCollision { .. } => "retrieval_target_collision",
        WriterPlannerProjectionError::RequiredPromptDataExceedsBudget => "required_prompt_data_exceeds_budget",
    }
}

/// A planning error as a stage failure: an invariant violation under the
/// error's turn code.
pub fn map_planning_error(error: &PlanningError) -> (r: WriterPlannerFailure)
    ensures
        r.kind == TurnFailureKind::InvariantViolation,
        error is Narrative ==> r.code@ == "narrative_evaluation_failed"@,
        !(error is Narrative) ==> r.code@ == "writer_plan_invalid"@,
{
    WriterPlannerFailure { kind: TurnFailureKind::InvariantViolation, code: error.turn_code() }
}

/// The failure of the model call.
pub fn llm_failure() -> (r: WriterPlannerFailure)
    ensures
        r.kind == TurnFailureKind::Llm,
        r.code@ == "llm_error"@,
{
    WriterPlannerFailure { kind: TurnFailureKind::Llm, code: "llm_error" }
}

/// The stage failed as an invalid writer plan.
pub open spec fn invalid_plan(r: Result<WriterPlanRequest, WriterPlannerFailure>) -> bool {
    r matches Err(f) && f.kind == TurnFailureKind::InvariantViolation && f.code@ == "writer_plan_invalid"@
}

impl WriterPlanner {
    pub fn new(planner: PlannerConfig, retrieval: RetrievalConfig) -> (r: WriterPlanner)
        ensures
            r.plan_builder.planner == planner,
            r.plan_builder.retrieval == retrieval,
            r.config == planner,
    {
        WriterPlanner { plan_builder: RetrievalPlanBuilder::new(retrieval, planner), config: planner }
    }

    /// Prepares the model call of a turn: the baseline, snapshot and
    /// narrative plan must be there, the player's contribution within its
    /// budget, and the planner's prompt must project; the output budget is
    /// what remains, capped at `u32::MAX`.
    pub fn prepare(
        &self,
        baseline: Option<&BaselineContext>,
        snapshot: Option<&StoryReadSnapshot>,
        narrative_plan: Option<&NarrativePlan>,
        player_contribution: &str,
        max_contribution_bytes: usize,
        remaining_output_tokens: u64,
    ) -> (r: Result<WriterPlanRequest, WriterPlannerFailure>)
        ensures
            baseline is None ==> invalid_plan(r),
            baseline is Some && snapshot is None ==> invalid_plan(r),
            baseline is Some && snapshot is Some && narrative_plan is None ==> invalid_plan(r),
            baseline is Some && snapshot is Some && narrative_plan is Some && byte_len(player_contribution@)
                > max_contribution_bytes ==> invalid_plan(r),
            baseline is Some && snapshot is Some && narrative_plan is Some && byte_len(player_contribution@)
                <= max_contribution_bytes ==> match indexed_targets(target_entries(*baseline->0)) {
                Err(_) => (r matches Err(f) && f.kind == TurnFailureKind::InvariantViolation && f.code@
                    == "retrieval_target_collision"@),
                Ok(m) => (r matches Ok(q) && q.context.targets() == m && q.input.profile == PromptProfile::WriterPlanner
                    && q.contract.name == WRITER_PLANNER_CONTRACT_NAME && q.contract.config == self.config
                    && q.max_output_tokens == (if remaining_output_tokens > u32::MAX {
                    u32::MAX as u64
                } else {
                    remaining_output_tokens
                }) && role_id_views(q.context.provided_role_ids@) == seq![baseline->0.player_role.role_id@]
                    + baseline->0.relevant_roles@.map_values(|v: RoleContextView| v.role_id@) && source_id_views(
                    q.context.provided_knowledge_ids@,
                ) == baseline->0.relevant_world_knowledge.facts@.map_values(|e: WorldKnowledgeEntry| e.source_id@)
                    + baseline->0.relevant_world_knowledge.rumors@.map_values(|e: WorldKnowledgeEntry| e.source_id@)
                    && q.input.fti_vars.vars@.len() == 0 && exists|idx: Seq<usize>|
                    is_stable_order(constraint_keys(baseline->0.active_story_constraints@), idx) && var_views(
                        q.input.rc_vars.vars@,
                    ) == #[trigger] writer_planner_vars(
                        *baseline->0,
                        *narrative_plan->0,
                        player_contribution@,
                        constraints_text(baseline->0.active_story_constraints@, idx),
                    )),
            },
    {
        let baseline = match baseline {
            Some(b) => b,
            None => {
                return Err(map_planning_error(&PlanningError::InvalidOutput { code: "missing_baseline" }));
            },
        };
        if snapshot.is_none() {
            return Err(map_planning_error(&PlanningError::InvalidOutput { code: "missing_snapshot" }));
        }
        let narrative_plan = match narrative_plan {
            Some(p) => p,
            None => {
                return Err(map_planning_error(&PlanningError::InvalidOutput { code: "missing_narrative_projection" }));
            },
        };
        let contribution = match BoundedText::try_new(owned(player_contribution), "player_contribution", max_contribution_bytes) {
            Ok(t) => t,
            Err(_) => {
                return Err(map_planning_error(&PlanningError::LimitExceeded { limit: "player_contribution" }));
            },
        };
        let projection = match WriterPlannerPromptContextProjector.project(baseline, narrative_plan, &contribution) {
            Ok(p) => p,
            Err(e) => {
                return Err(WriterPlannerFailure { kind: TurnFailureKind::InvariantViolation, code: projection_error_code(&e) });
            },
        };
        let max_output_tokens: u32 = if remaining_output_tokens > 4294967295u64 {
            4294967295u32
        } else {
            remaining_output_tokens as u32
        };
        Ok(
            WriterPlanRequest {
                input: PromptCompositionInput {
                    profile: PromptProfile::WriterPlanner,
                    rc_vars: projection.rc_vars,
                    fti_vars: projection.fti_vars,
                },
                contract: writer_planner_contract(&self.config),
                max_output_tokens,
                context: projection.context,
            },
        )
    }

    /// Holds the prepared prompt to the input budget: the token estimates of
    /// its runtime variables (made by the caller's estimator) may add up to
    /// at most `max_input_tokens`, the sum saturating at `u64::MAX`.
    pub fn check_budget(&self, token_estimates: &Vec<u64>, max_input_tokens: u64) -> (r: Result<
        (),
        WriterPlannerFailure,
    >)
        ensures
            saturating_total(token_estimates@) > max_input_tokens ==> (r matches Err(f) && f.kind
                == TurnFailureKind::InvariantViolation && f.code@ == "required_prompt_data_exceeds_budget"@),
            saturating_total(token_estimates@) <= max_input_tokens ==> r is Ok,
    {
        match check_input_budget(token_estimates, max_input_tokens) {
            Ok(()) => Ok(()),
            Err(e) => Err(WriterPlannerFailure { kind: TurnFailureKind::InvariantViolation, code: projection_error_code(&e) }),
        }
    }

    /// Builds the turn's writer plan from the model's structured output.
    pub fn plan(
        &self,
        baseline: &BaselineContext,
        narrative_plan: &NarrativePlan,
        planner_output: WriterPlannerOutputDto,
        snapshot: &StoryReadSnapshot,
        context: &WriterPlannerPromptContext,
    ) -> (r: Result<WriterPlan, PlanningError>)
        ensures
            build_outcome(self.plan_builder, *baseline, *narrative_plan, planner_output, *snapshot, *context, r),
    {
        self.plan_builder.build(baseline, narrative_plan, planner_output, snapshot, context)
    }
}


/// Which kind of projection failure a value is.
pub open spec fn projection_error_variant(e: WriterPlannerProjectionError) -> int {
    match e {
        WriterPlannerProjectionError::UnknownRoleTarget { .. } => 0,
        WriterPlannerProjectionError::PlayerRoleTarget { .. } => 1,
        WriterPlannerProjectionError::DuplicateRoleTarget { .. } => 2,
        WriterPlannerProjectionError::RetrievalTargetCollision { .. } => 3,
        WriterPlannerProjectionError::RequiredPromptDataExceedsBudget => 4,
    }
}

/// Law: each kind of projection failure is reported under its own code:
/// the codes are these, and failures of different kinds never share one.
pub proof fn law_projection_error_codes_are_distinct(a: WriterPlannerProjectionError, b: WriterPlannerProjectionError)
    ensures
        a is UnknownRoleTarget ==> projection_error_code_spec(a) == "unknown_role_target"@,
        a is PlayerRoleTarget ==> projection_error_code_spec(a) == "player_role_target"@,
        a is DuplicateRoleTarget ==> projection_error_code_spec(a) == "duplicate_role_target"@,
        a is RetrievalTargetCollision ==> projection_error_code_spec(a) == "retrieval_target_collision"@,
        a is RequiredPromptDataExceedsBudget ==> projection_error_code_spec(a) == "required_prompt_data_exceeds_budget"@,
        projection_error_variant(a) != projection_error_variant(b) ==> projection_error_code_spec(a)
            != projection_error_code_spec(b),
{
    reveal_strlit("unknown_role_target");
    reveal_strlit("player_role_target");
    reveal_strlit("duplicate_role_target");
    reveal_strlit("retrieval_target_collision");
    reveal_strlit("required_prompt_data_exceeds_budget");
    if projection_error_variant(a) != projection_error_variant(b) && projection_error_code_spec(a) == projection_error_code_spec(b) {
        assert(projection_error_code_spec(a).len() == projection_error_code_spec(b).len());
    }
}

} // verus!
