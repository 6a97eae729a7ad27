use aise::domain::{BoundedText, RoleId};
use aise::planning::error::{NarrativeError, PlanningError};
use aise::planning::planner_output::{
    InterpretedPlayerContributionDto, PlannerConfig, RetrievalConfig, WriterPlannerOutputDto,
    WRITER_PLANNER_CONTRACT_NAME,
};
use aise::planning::writer_planner::{llm_failure, map_planning_error, TurnFailureKind, WriterPlanner};
use aise::prompt::profile::PromptProfile;
use aise::turn::{
    BaselineContext, CastPolicy, CharacterProfile, InstanceSettings, NarrativePlan, RelevantWorldKnowledge,
    RoleContextView, RoleController, StoryContinuity, StoryProfile, StoryReadSnapshot, StoryRoleState, StoryRoleView,
    StoryStyle,
};

fn text(value: &str) -> BoundedText {
    BoundedText::try_new(value.to_owned(), "text", 256).unwrap()
}

fn role_id(id: &str) -> RoleId {
    RoleId::try_new(id.to_owned()).unwrap()
}

fn config() -> PlannerConfig {
    PlannerConfig {
        max_goal_bytes: 1024,
        max_context_gaps: 16,
        max_character_think_requests: 8,
        max_reason_bytes: 512,
        max_player_contribution_units: 8,
        max_interpreted_player_contribution_bytes: 4096,
    }
}

fn player() -> RoleContextView {
    RoleContextView {
        role_id: role_id("hero"),
        role_label: text("Hero"),
        narrative_function: text("protagonist"),
        background: None,
        profile: CharacterProfile { name: text("Hero"), appearance: None, personality: None, speaking_style: None },
        state: StoryRoleState { location: "road".to_owned(), goals: Vec::new(), attributes: Vec::new() },
        controller: RoleController::Player("player-1".to_owned()),
    }
}

fn baseline() -> BaselineContext {
    BaselineContext {
        story_title: text("Road"),
        story_profile: StoryProfile {
            language: text("en"),
            genre: Vec::new(),
            themes: Vec::new(),
            style: StoryStyle { tone: Vec::new(), point_of_view: text("third"), tense: text("past") },
        },
        instance_settings: InstanceSettings { cast_policy: CastPolicy::Open },
        player_role: player(),
        relevant_roles: Vec::new(),
        relevant_world_knowledge: RelevantWorldKnowledge { facts: Vec::new(), rumors: Vec::new() },
        role_index: Vec::new(),
        knowledge_index: Vec::new(),
        story_continuity: StoryContinuity { summary: text(""), recent_segments: Vec::new() },
        active_story_constraints: Vec::new(),
    }
}

fn snapshot() -> StoryReadSnapshot {
    StoryReadSnapshot {
        player_role_id: role_id("hero"),
        roles: vec![StoryRoleView { role_id: role_id("hero"), controller: RoleController::Player("player-1".to_owned()) }],
    }
}

fn planner() -> WriterPlanner {
    WriterPlanner::new(config(), RetrievalConfig { max_requests: 32 })
}

#[test]
fn planner_stage_needs_baseline_snapshot_and_narrative() {
    let planner = planner();
    let base = baseline();
    let snap = snapshot();
    let plan = NarrativePlan::empty();
    for failure in [
        planner.prepare(None, Some(&snap), Some(&plan), "go", 64, 100).err().unwrap(),
        planner.prepare(Some(&base), None, Some(&plan), "go", 64, 100).err().unwrap(),
        planner.prepare(Some(&base), Some(&snap), None, "go", 64, 100).err().unwrap(),
        planner.prepare(Some(&base), Some(&snap), Some(&plan), "walk north", 4, 100).err().unwrap(),
    ] {
        assert_eq!(failure.kind, TurnFailureKind::InvariantViolation);
        assert_eq!(failure.code, "writer_plan_invalid");
    }
}

#[test]
fn planner_stage_prepares_the_model_call() {
    let planner = planner();
    let base = baseline();
    let snap = snapshot();
    let plan = NarrativePlan::empty();
    let request = planner.prepare(Some(&base), Some(&snap), Some(&plan), "walk north", 64, 5_000_000_000).unwrap();
    assert_eq!(request.input.profile, PromptProfile::WriterPlanner);
    assert_eq!(request.contract.name, WRITER_PLANNER_CONTRACT_NAME);
    assert_eq!(request.max_output_tokens, u32::MAX);
    let small = planner.prepare(Some(&base), Some(&snap), Some(&plan), "walk north", 64, 700).unwrap();
    assert_eq!(small.max_output_tokens, 700);
    let output = WriterPlannerOutputDto {
        interpreted_player_contribution: InterpretedPlayerContributionDto { units: Vec::new() },
        story_goal: "reach the ford".to_owned(),
        writer_context_gaps: Vec::new(),
        character_context_gaps: Vec::new(),
        character_think_requests: Vec::new(),
    };
    let written = planner.plan(&base, &plan, output, &snap, &small.context).unwrap();
    assert_eq!(written.story_goal.summary.as_str(), "reach the ford");
}

#[test]
fn planner_stage_failures_have_their_codes() {
    let narrative = map_planning_error(&PlanningError::Narrative(NarrativeError::InvalidGraph));
    assert_eq!(narrative.code, "narrative_evaluation_failed");
    assert_eq!(map_planning_error(&PlanningError::UnknownRole).code, "writer_plan_invalid");
    let llm = llm_failure();
    assert_eq!(llm.kind, TurnFailureKind::Llm);
    assert_eq!(llm.code, "llm_error");
}

#[test]
fn writer_planner_budget_holds_the_estimates_to_the_limit() {
    let planner = planner();
    assert!(planner.check_budget(&vec![10, 20, 30], 60).is_ok());
    assert!(planner.check_budget(&Vec::new(), 0).is_ok());
    let over = planner.check_budget(&vec![10, 20, 31], 60).unwrap_err();
    assert_eq!(over.kind, TurnFailureKind::InvariantViolation);
    assert_eq!(over.code, "required_prompt_data_exceeds_budget");
    let saturated = planner.check_budget(&vec![u64::MAX, 1], u64::MAX);
    assert!(saturated.is_ok());
    assert!(planner.check_budget(&vec![u64::MAX, 1], u64::MAX - 1).is_err());
}
