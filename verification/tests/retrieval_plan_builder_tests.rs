use aise::domain::{BoundedText, KnowledgeEntity, KnowledgeKind, KnowledgeSourceId, RoleId};
use aise::planning::error::PlanningError;
use aise::planning::planner_output::{
    CharacterThinkRequestDto, InterpretedPlayerContributionDto, PlannerCharacterContextGapDto, PlannerConfig,
    PlannerWriterContextGapDto, RetrievalConfig, WriterPlannerOutputDto,
};
use aise::planning::retrieval_plan_builder::{merge_narrative_think_requests, RetrievalPlanBuilder};
use aise::planning::writer_planner_prompt::{WriterPlannerPromptContext, WriterPlannerPromptContextProjector};
use aise::turn::{
    BaselineContext, CastPolicy, CharacterImpulse, CharacterProfile, CharacterThinkRequest, InstanceSettings,
    KnowledgeDelivery, KnowledgeIndexEntry, NarrativePlan, RelevantWorldKnowledge, RetrievalRequestOrigin,
    RoleContextView, RoleController, RoleIndexEntry, StoryContinuity, StoryProfile, StoryReadSnapshot,
    StoryRoleState, StoryRoleView, StoryStyle,
};

fn text(value: &str) -> BoundedText {
    BoundedText::try_new(value.to_owned(), "text", 256).unwrap()
}

fn role_id(id: &str) -> RoleId {
    RoleId::try_new(id.to_owned()).unwrap()
}

fn planner_config() -> PlannerConfig {
    PlannerConfig {
        max_goal_bytes: 1024,
        max_context_gaps: 16,
        max_character_think_requests: 8,
        max_reason_bytes: 512,
        max_player_contribution_units: 8,
        max_interpreted_player_contribution_bytes: 4096,
    }
}

fn role_view(id: &str, controller: RoleController) -> RoleContextView {
    RoleContextView {
        role_id: role_id(id),
        role_label: text(id),
        narrative_function: text("narrative-function"),
        background: None,
        profile: CharacterProfile { name: text(id), appearance: None, personality: None, speaking_style: None },
        state: StoryRoleState { location: "hall".to_owned(), goals: Vec::new(), attributes: Vec::new() },
        controller,
    }
}

fn baseline_with_roles(player_id: &str, indexed_ai_ids: &[&str]) -> BaselineContext {
    BaselineContext {
        story_title: text("Untitled Story"),
        story_profile: StoryProfile {
            language: text("zh-CN"),
            genre: Vec::new(),
            themes: Vec::new(),
            style: StoryStyle { tone: Vec::new(), point_of_view: text("third"), tense: text("past") },
        },
        instance_settings: InstanceSettings { cast_policy: CastPolicy::Open },
        player_role: role_view(player_id, RoleController::Player("player-1".to_owned())),
        relevant_roles: Vec::new(),
        relevant_world_knowledge: RelevantWorldKnowledge { facts: Vec::new(), rumors: Vec::new() },
        role_index: indexed_ai_ids
            .iter()
            .map(|id| RoleIndexEntry { role_id: role_id(id), retrieval_hint: text("hint") })
            .collect(),
        knowledge_index: Vec::new(),
        story_continuity: StoryContinuity { summary: text(""), recent_segments: Vec::new() },
        active_story_constraints: Vec::new(),
    }
}

fn impulse(target_id: &str, goal: &str, reason: Option<&str>) -> CharacterImpulse {
    CharacterImpulse {
        source_node: "node.impulse".to_owned(),
        target_role_id: role_id(target_id),
        goal: text(goal),
        reason: reason.map(text),
    }
}

fn think_request(id: &str, reason: &str) -> CharacterThinkRequest {
    CharacterThinkRequest { role_id: role_id(id), reason: text(reason) }
}

fn sample_snapshot(player_id: &str, ai_ids: &[&str]) -> StoryReadSnapshot {
    let mut roles = vec![StoryRoleView {
        role_id: role_id(player_id),
        controller: RoleController::Player("player-1".to_owned()),
    }];
    for id in ai_ids {
        roles.push(StoryRoleView { role_id: role_id(id), controller: RoleController::Ai });
    }
    StoryReadSnapshot { player_role_id: role_id(player_id), roles }
}

fn writer_prompt_context(baseline: &BaselineContext, plan: &NarrativePlan) -> WriterPlannerPromptContext {
    match WriterPlannerPromptContextProjector.project(baseline, plan, &text("go north")) {
        Ok(projection) => projection.context,
        Err(_) => panic!("writer planner projection"),
    }
}

fn writer_gap(target_id: &str, reason: &str) -> PlannerWriterContextGapDto {
    PlannerWriterContextGapDto { target_id: target_id.to_owned(), reason: reason.to_owned() }
}

fn character_gap(role_id: &str, target_id: &str, reason: &str) -> PlannerCharacterContextGapDto {
    PlannerCharacterContextGapDto {
        role_id: role_id.to_owned(),
        target_id: target_id.to_owned(),
        reason: reason.to_owned(),
    }
}

fn writer_planner_output(
    story_goal: &str,
    writer_context_gaps: Vec<PlannerWriterContextGapDto>,
    character_context_gaps: Vec<PlannerCharacterContextGapDto>,
    character_think_requests: Vec<CharacterThinkRequest>,
) -> WriterPlannerOutputDto {
    WriterPlannerOutputDto {
        interpreted_player_contribution: InterpretedPlayerContributionDto { units: Vec::new() },
        story_goal: story_goal.to_owned(),
        writer_context_gaps,
        character_context_gaps,
        character_think_requests: character_think_requests
            .into_iter()
            .map(|request| CharacterThinkRequestDto {
                role_id: request.role_id.as_str().to_owned(),
                reason: request.reason.as_str().to_owned(),
            })
            .collect(),
    }
}

fn builder() -> RetrievalPlanBuilder {
    RetrievalPlanBuilder::new(RetrievalConfig { max_requests: 32 }, planner_config())
}

fn is_character(delivery: &KnowledgeDelivery, id: &str) -> bool {
    matches!(delivery, KnowledgeDelivery::Character { role_id } if role_id.as_str() == id)
}

#[test]
fn merge_appends_impulse_targets_not_already_requested_sorted_by_role_id() {
    let baseline = baseline_with_roles("protagonist", &["npc-b", "npc-a"]);
    let planner_requests = vec![think_request("npc-b", "planner reason")];
    let impulses = vec![impulse("npc-a", "explore", Some("impulse reason"))];
    let config = planner_config();

    let merged = merge_narrative_think_requests(planner_requests, &impulses, &baseline, &config).unwrap();

    assert_eq!(merged.len(), 2);
    assert_eq!(merged[0].role_id.as_str(), "npc-b");
    assert_eq!(merged[0].reason.as_str(), "planner reason");
    assert_eq!(merged[1].role_id.as_str(), "npc-a");
    assert_eq!(merged[1].reason.as_str(), "impulse reason");
}

#[test]
fn merge_uses_goal_when_impulse_reason_is_absent() {
    let baseline = baseline_with_roles("protagonist", &["npc-a"]);
    let impulses = vec![impulse("npc-a", "flee the scene", None)];
    let config = planner_config();

    let merged = merge_narrative_think_requests(Vec::new(), &impulses, &baseline, &config).unwrap();

    assert_eq!(merged.len(), 1);
    assert_eq!(merged[0].reason.as_str(), "flee the scene");
}

#[test]
fn merge_collapses_multiple_impulses_for_one_role_into_one_request() {
    let baseline = baseline_with_roles("protagonist", &["npc-a"]);
    let impulses = vec![
        impulse("npc-a", "first goal", Some("first reason")),
        impulse("npc-a", "second goal", Some("second reason")),
    ];
    let config = planner_config();

    let merged = merge_narrative_think_requests(Vec::new(), &impulses, &baseline, &config).unwrap();

    assert_eq!(merged.len(), 1);
    assert_eq!(merged[0].reason.as_str(), "first reason");
}

#[test]
fn merge_does_not_duplicate_a_role_already_requested_by_planner() {
    let baseline = baseline_with_roles("protagonist", &["npc-a"]);
    let planner_requests = vec![think_request("npc-a", "planner reason")];
    let impulses = vec![impulse("npc-a", "goal", Some("impulse reason"))];
    let config = planner_config();

    let merged = merge_narrative_think_requests(planner_requests, &impulses, &baseline, &config).unwrap();

    assert_eq!(merged.len(), 1);
    assert_eq!(merged[0].reason.as_str(), "planner reason");
}

#[test]
fn merge_rejects_impulse_targeting_the_player_role() {
    let baseline = baseline_with_roles("protagonist", &[]);
    let impulses = vec![impulse("protagonist", "goal", Some("reason"))];
    let config = planner_config();

    let error = merge_narrative_think_requests(Vec::new(), &impulses, &baseline, &config).unwrap_err();

    assert!(matches!(error, PlanningError::PlayerRoleRequested));
}

#[test]
fn merge_rejects_impulse_targeting_an_unknown_role() {
    let baseline = baseline_with_roles("protagonist", &[]);
    let impulses = vec![impulse("ghost-role", "goal", Some("reason"))];
    let config = planner_config();

    let error = merge_narrative_think_requests(Vec::new(), &impulses, &baseline, &config).unwrap_err();

    assert!(matches!(error, PlanningError::UnknownRole));
}

#[test]
fn narrative_impulse_merges_character_think_request_once() {
    let baseline = baseline_with_roles("protagonist", &["npc-a", "npc-b"]);
    let planner_requests = vec![think_request("npc-a", "planner reason")];
    let impulses = vec![
        impulse("npc-b", "explore alone", Some("impulse-only reason")),
        impulse("npc-a", "first goal", Some("first reason")),
        impulse("npc-a", "second goal", Some("second reason")),
    ];
    let config = planner_config();

    let merged = merge_narrative_think_requests(planner_requests, &impulses, &baseline, &config).unwrap();

    assert_eq!(merged.len(), 2);
    let reason_of = |id: &str| {
        merged.iter().find(|request| request.role_id.as_str() == id).map(|request| request.reason.as_str().to_owned())
    };
    assert_eq!(reason_of("npc-a").as_deref(), Some("planner reason"));
    assert_eq!(reason_of("npc-b").as_deref(), Some("impulse-only reason"));

    let impulses_for_npc_a = impulses.iter().filter(|impulse| impulse.target_role_id.as_str() == "npc-a").count();
    assert_eq!(impulses_for_npc_a, 2, "CharacterThink must still see every impulse for the collapsed role");
}

#[test]
fn merge_rechecks_max_character_think_requests_after_merging_impulses() {
    let baseline = baseline_with_roles("protagonist", &["npc-a", "npc-b"]);
    let planner_requests = vec![think_request("npc-a", "planner reason")];
    let impulses = vec![impulse("npc-b", "goal", Some("reason"))];
    let config = PlannerConfig { max_character_think_requests: 1, ..planner_config() };

    let error = merge_narrative_think_requests(planner_requests, &impulses, &baseline, &config).unwrap_err();

    assert!(matches!(error, PlanningError::LimitExceeded { limit: "max_character_think_requests" }));
}

#[test]
fn indexed_character_target_loads_role_context_bundle() {
    let baseline = baseline_with_roles("protagonist", &["npc-a"]);
    let snapshot = sample_snapshot("protagonist", &["npc-a"]);
    let plan = NarrativePlan::empty();
    let writer_context = writer_prompt_context(&baseline, &plan);
    let output = writer_planner_output("goal", vec![writer_gap("npc-a", "recall the guard")], Vec::new(), Vec::new());

    let writer_plan = builder().build(&baseline, &plan, output, &snapshot, &writer_context).unwrap();

    assert_eq!(writer_plan.retrieval_plan.character_requests.len(), 1);
    let request = &writer_plan.retrieval_plan.character_requests[0];
    assert_eq!(request.role_id.as_str(), "npc-a");
    assert_eq!(request.origin, RetrievalRequestOrigin::Planner);
    assert_eq!(request.reason.as_str(), "recall the guard");
    assert!(writer_plan.retrieval_plan.knowledge_requests.iter().any(|request| {
        is_character(&request.delivery, "npc-a") && request.entities == vec![KnowledgeEntity::Role(role_id("npc-a"))]
    }));
}

#[test]
fn character_think_automatically_retrieves_role_cognition() {
    let baseline = baseline_with_roles("protagonist", &["npc-a"]);
    let snapshot = sample_snapshot("protagonist", &["npc-a"]);
    let plan = NarrativePlan::empty();
    let writer_context = writer_prompt_context(&baseline, &plan);
    let output =
        writer_planner_output("goal", Vec::new(), Vec::new(), vec![think_request("npc-a", "assess the visitor")]);

    let writer_plan = builder().build(&baseline, &plan, output, &snapshot, &writer_context).unwrap();

    assert_eq!(writer_plan.retrieval_plan.character_requests.len(), 1);
    let request = &writer_plan.retrieval_plan.character_requests[0];
    assert_eq!(request.role_id.as_str(), "npc-a");
    assert_eq!(request.origin, RetrievalRequestOrigin::Automatic);
    let knowledge_request = writer_plan
        .retrieval_plan
        .knowledge_requests
        .iter()
        .find(|request| is_character(&request.delivery, "npc-a"))
        .expect("automatic role cognition knowledge request");
    assert_eq!(knowledge_request.knowledge_kinds, vec![KnowledgeKind::Rumor, KnowledgeKind::Memory]);
    assert_eq!(knowledge_request.entities, vec![KnowledgeEntity::Role(role_id("npc-a"))]);
}

#[test]
fn role_cognition_request_deduplicates_by_role() {
    let baseline = baseline_with_roles("protagonist", &["npc-a"]);
    let snapshot = sample_snapshot("protagonist", &["npc-a"]);
    let plan = NarrativePlan::empty();
    let writer_context = writer_prompt_context(&baseline, &plan);
    let output = writer_planner_output(
        "goal",
        vec![writer_gap("npc-a", "planner target reason")],
        Vec::new(),
        vec![think_request("npc-a", "think reason")],
    );

    let writer_plan = builder().build(&baseline, &plan, output, &snapshot, &writer_context).unwrap();

    assert_eq!(writer_plan.retrieval_plan.character_requests.len(), 1);
    let request = &writer_plan.retrieval_plan.character_requests[0];
    assert_eq!(request.origin, RetrievalRequestOrigin::Planner);
    assert_eq!(request.reason.as_str(), "planner target reason");
    let cognition_knowledge_requests = writer_plan
        .retrieval_plan
        .knowledge_requests
        .iter()
        .filter(|request| is_character(&request.delivery, "npc-a"))
        .count();
    assert_eq!(cognition_knowledge_requests, 1);
}

#[test]
fn indexed_target_audience_matrix_is_enforced() {
    let baseline = baseline_with_roles("protagonist", &["npc-a"]);
    let snapshot = sample_snapshot("protagonist", &["npc-a"]);
    let plan = NarrativePlan::empty();
    let writer_context = writer_prompt_context(&baseline, &plan);

    let role_to_character = writer_planner_output(
        "goal",
        Vec::new(),
        vec![character_gap("npc-a", "npc-a", "role target for character audience")],
        vec![think_request("npc-a", "think reason")],
    );
    let error = builder().build(&baseline, &plan, role_to_character, &snapshot, &writer_context).unwrap_err();
    assert!(matches!(error, PlanningError::KnowledgeAudienceViolation));

    let mut baseline_with_fact = baseline.clone();
    baseline_with_fact.knowledge_index = vec![KnowledgeIndexEntry {
        source_id: KnowledgeSourceId::Fact("fact_0001".to_owned()),
        retrieval_hint: text("hint"),
    }];
    let writer_context_with_fact = writer_prompt_context(&baseline_with_fact, &plan);
    let fact_to_character = writer_planner_output(
        "goal",
        Vec::new(),
        vec![character_gap("npc-a", "fact_0001", "fact target for character audience")],
        vec![think_request("npc-a", "think reason")],
    );
    let error = builder()
        .build(&baseline_with_fact, &plan, fact_to_character, &snapshot, &writer_context_with_fact)
        .unwrap_err();
    assert!(matches!(error, PlanningError::KnowledgeAudienceViolation));

    let mut baseline_with_rumor = baseline.clone();
    baseline_with_rumor.knowledge_index = vec![KnowledgeIndexEntry {
        source_id: KnowledgeSourceId::Rumor("rumor_0001".to_owned()),
        retrieval_hint: text("hint"),
    }];
    let writer_context_with_rumor = writer_prompt_context(&baseline_with_rumor, &plan);
    let rumor_without_think = writer_planner_output(
        "goal",
        Vec::new(),
        vec![character_gap("npc-a", "rumor_0001", "rumor target without a think request")],
        Vec::new(),
    );
    let error = builder()
        .build(&baseline_with_rumor, &plan, rumor_without_think, &snapshot, &writer_context_with_rumor)
        .unwrap_err();
    assert!(matches!(error, PlanningError::KnowledgeAudienceViolation));
}

#[test]
fn build_lists_knowledge_by_priority_origin_and_key() {
    let mut baseline = baseline_with_roles("protagonist", &["npc-b", "npc-a"]);
    baseline.knowledge_index = vec![
        KnowledgeIndexEntry { source_id: KnowledgeSourceId::Rumor("rumor_0002".to_owned()), retrieval_hint: text("h") },
        KnowledgeIndexEntry { source_id: KnowledgeSourceId::Fact("fact_0001".to_owned()), retrieval_hint: text("h") },
    ];
    let snapshot = sample_snapshot("protagonist", &["npc-a", "npc-b"]);
    let mut plan = NarrativePlan::empty();
    plan.active_nodes = vec!["node.b".to_owned(), "node.a".to_owned(), "node.b".to_owned()];
    let writer_context = writer_prompt_context(&baseline, &plan);
    let output = writer_planner_output(
        "goal",
        vec![
            writer_gap("rumor_0002", "first rumor reason"),
            writer_gap("fact_0001", "fact reason"),
            writer_gap("rumor_0002", "second rumor reason"),
            writer_gap("unknown_key", "dropped"),
        ],
        Vec::new(),
        vec![think_request("npc-b", "b thinks"), think_request("npc-a", "a thinks")],
    );

    let writer_plan = builder().build(&baseline, &plan, output, &snapshot, &writer_context).unwrap();

    let requests = &writer_plan.retrieval_plan.knowledge_requests;
    // cognition (automatic, priority 0) by role, then planner requests by key, then narrative (priority 2)
    assert_eq!(requests.len(), 6);
    assert!(is_character(&requests[0].delivery, "npc-a"));
    assert!(is_character(&requests[1].delivery, "npc-b"));
    assert_eq!(requests[2].target_source_id, Some(KnowledgeSourceId::Fact("fact_0001".to_owned())));
    assert_eq!(requests[3].target_source_id, Some(KnowledgeSourceId::Rumor("rumor_0002".to_owned())));
    assert_eq!(requests[3].reason.as_str(), "first rumor reason");
    assert_eq!(requests[4].entities, vec![KnowledgeEntity::NarrativeNode("node.a".to_owned())]);
    assert_eq!(requests[5].entities, vec![KnowledgeEntity::NarrativeNode("node.b".to_owned())]);
    assert_eq!(requests[5].origin, RetrievalRequestOrigin::Narrative);
    assert_eq!(requests[5].signal_priority, 2);
    let roles: Vec<&str> =
        writer_plan.retrieval_plan.character_requests.iter().map(|request| request.role_id.as_str()).collect();
    assert_eq!(roles, vec!["npc-a", "npc-b"]);
}

#[test]
fn build_rejects_planner_output_over_its_limits() {
    let baseline = baseline_with_roles("protagonist", &["npc-a"]);
    let snapshot = sample_snapshot("protagonist", &["npc-a"]);
    let plan = NarrativePlan::empty();
    let writer_context = writer_prompt_context(&baseline, &plan);

    let blank_goal = writer_planner_output("   ", Vec::new(), Vec::new(), Vec::new());
    let error = builder().build(&baseline, &plan, blank_goal, &snapshot, &writer_context).unwrap_err();
    assert!(matches!(error, PlanningError::InvalidOutput { code: "story_goal_empty" }));

    let player = writer_planner_output("goal", Vec::new(), Vec::new(), vec![think_request("protagonist", "why")]);
    let error = builder().build(&baseline, &plan, player, &snapshot, &writer_context).unwrap_err();
    assert!(matches!(error, PlanningError::PlayerRoleRequested));

    let twice = writer_planner_output(
        "goal",
        Vec::new(),
        Vec::new(),
        vec![think_request("npc-a", "one"), think_request("npc-a", "two")],
    );
    let error = builder().build(&baseline, &plan, twice, &snapshot, &writer_context).unwrap_err();
    assert!(matches!(error, PlanningError::DuplicateRoleTarget));

    let blank_reason = writer_planner_output("goal", vec![writer_gap("npc-a", " ")], Vec::new(), Vec::new());
    let error = builder().build(&baseline, &plan, blank_reason, &snapshot, &writer_context).unwrap_err();
    assert!(matches!(error, PlanningError::InvalidOutput { code: "context_gap_reason_empty" }));

    let small = RetrievalPlanBuilder::new(RetrievalConfig { max_requests: 0 }, planner_config());
    let one_request = writer_planner_output("goal", vec![writer_gap("npc-a", "why")], Vec::new(), Vec::new());
    let error = small.build(&baseline, &plan, one_request, &snapshot, &writer_context).unwrap_err();
    assert!(matches!(error, PlanningError::LimitExceeded { limit: "max_requests" }));
}
