use aise::domain::{BoundedText, KnowledgeSourceId, RoleId};
use aise::planning::writer_planner_prompt::{
    check_input_budget, insert_target, render_data, render_role, render_roles, IndexedRetrievalTarget,
    WriterPlannerProjectionError, WriterPlannerPromptContextProjector,
};
use aise::turn::{
    BaselineContext, CastPolicy, CharacterProfile, InstanceSettings, KnowledgeIndexEntry, NarrativePlan,
    RelevantWorldKnowledge, RoleContextView, RoleController, RoleIndexEntry, ScalarValue, StoryConstraint,
    StoryConstraintRequirement, StoryContinuity, StoryProfile, StoryRoleState, StoryStyle,
};

const GATE: &str = "gate";

fn bounded(value: &str) -> BoundedText {
    BoundedText::try_new(value.to_owned(), "test", 1024).unwrap()
}

fn role() -> RoleContextView {
    RoleContextView {
        role_id: RoleId::try_new("guard".to_owned()).unwrap(),
        role_label: bounded("Guard Captain"),
        narrative_function: bounded(&format!("blocks the {GATE}")),
        background: Some(bounded("secret orders")),
        profile: CharacterProfile {
            name: bounded("Guard"),
            appearance: Some(bounded("scarred")),
            personality: Some(bounded("watchful")),
            speaking_style: Some(bounded("formal")),
        },
        state: StoryRoleState {
            location: "gate".to_owned(),
            goals: vec![bounded(&format!("hold the {GATE}"))],
            attributes: Vec::new(),
        },
        controller: RoleController::Ai,
    }
}

#[test]
fn writer_role_rendering_has_exact_profile_and_state_fields() {
    let rendered = render_role(&role(), false);
    assert_eq!(
        rendered,
        format!(
            "role_id: \"guard\"\nname: \"Guard\"\nrole: \"Guard Captain\"\nappearance: \"scarred\"\npersonality: \"watchful\"\nspeaking_style: \"formal\"\nbackground: \"secret orders\"\nlocation: \"gate\"\ngoals: [\"hold the {GATE}\"]"
        )
    );
    assert!(!rendered.contains("control:"));
    assert!(!rendered.contains("presence:"));
    assert!(!rendered.contains("attributes:"));
}

#[test]
fn writer_role_rendering_omits_absent_and_duplicate_fields() {
    let mut value = role();
    value.role_label = value.profile.name.clone();
    value.background = None;
    value.profile.appearance = None;
    value.profile.personality = None;
    value.profile.speaking_style = None;
    let rendered = render_role(&value, false);
    assert!(!rendered.contains("\nrole:"));
    assert!(!rendered.contains("background:"));
    assert!(!rendered.contains("appearance:"));
    assert!(!rendered.contains("personality:"));
    assert!(!rendered.contains("speaking_style:"));
}

#[test]
fn writer_role_collection_uses_required_indentation() {
    let rendered = render_roles(&vec![role()]);
    assert!(rendered.starts_with("- role_id: \"guard\"\n  name: \"Guard\""));
    assert!(rendered.contains(&format!("\n  goals: [\"hold the {GATE}\"]")));
    assert!(!rendered.contains("presence:"));
    assert!(!rendered.contains("attributes:"));
}

#[test]
fn writer_role_rendering_elides_empty_goals_and_attributes() {
    let mut value = role();
    value.state.goals = Vec::new();
    let rendered = render_role(&value, false);
    assert!(!rendered.contains("goals:"));
    assert!(!rendered.contains("attributes:"));
    assert!(rendered.contains("location: \"gate\""));
}

fn minimal_baseline() -> BaselineContext {
    BaselineContext {
        story_title: bounded("Untitled Story"),
        story_profile: StoryProfile {
            language: bounded("zh-CN"),
            genre: Vec::new(),
            themes: Vec::new(),
            style: StoryStyle { tone: Vec::new(), point_of_view: bounded("third"), tense: bounded("past") },
        },
        instance_settings: InstanceSettings { cast_policy: CastPolicy::Open },
        player_role: {
            let mut player = role();
            player.role_id = RoleId::try_new("player".to_owned()).unwrap();
            player
        },
        relevant_roles: vec![role()],
        relevant_world_knowledge: RelevantWorldKnowledge { facts: Vec::new(), rumors: Vec::new() },
        role_index: Vec::new(),
        knowledge_index: Vec::new(),
        story_continuity: StoryContinuity { summary: bounded(""), recent_segments: Vec::new() },
        active_story_constraints: Vec::new(),
    }
}

fn var<'a>(vars: &'a [(String, String)], name: &str) -> Option<&'a str> {
    vars.iter().find(|(key, _)| key == name).map(|(_, value)| value.as_str())
}

#[test]
fn writer_planner_prompt_uses_relevant_characters_without_presence() {
    let baseline = minimal_baseline();
    let projector = WriterPlannerPromptContextProjector;
    let narrative_plan = NarrativePlan::empty();
    let player_input = bounded("go north");
    let projection = match projector.project(&baseline, &narrative_plan, &player_input) {
        Ok(p) => p,
        Err(_) => panic!("writer planner projection"),
    };

    let vars = projection.rc_vars.as_map();
    assert!(var(vars, "relevant_characters").is_some());
    assert!(var(vars, "scene_characters").is_none());
    assert!(var(vars, "referenced_characters").is_none());
    assert!(var(vars, "current_scene").is_none());
    let relevant_characters = var(vars, "relevant_characters").unwrap();
    assert!(!relevant_characters.contains("presence:"));
    assert!(relevant_characters.contains("guard"));
}

#[test]
fn writer_planner_renders_story_continuity_as_prose() {
    let mut baseline = minimal_baseline();
    baseline.story_continuity =
        StoryContinuity { summary: bounded("summary-one"), recent_segments: vec![bounded("recent-one"), bounded("recent-two")] };
    let projector = WriterPlannerPromptContextProjector;
    let narrative_plan = NarrativePlan::empty();
    let player_input = bounded("go north");
    let projection = match projector.project(&baseline, &narrative_plan, &player_input) {
        Ok(p) => p,
        Err(_) => panic!("writer planner projection"),
    };
    let vars = projection.rc_vars.as_map();
    assert_eq!(var(vars, "story_summary"), Some("summary-one"));
    assert_eq!(var(vars, "recent_story"), Some("recent-one\n\nrecent-two"));
}

#[test]
fn projection_renders_every_variable_once() {
    let mut baseline = minimal_baseline();
    baseline.role_index = vec![RoleIndexEntry {
        role_id: RoleId::try_new("guard".to_owned()).unwrap(),
        retrieval_hint: bounded("the captain"),
    }];
    baseline.knowledge_index = vec![
        KnowledgeIndexEntry { source_id: KnowledgeSourceId::Rumor("rumor_0001".to_owned()), retrieval_hint: bounded("r") },
        KnowledgeIndexEntry { source_id: KnowledgeSourceId::Fact("fact_0001".to_owned()), retrieval_hint: bounded("f") },
        KnowledgeIndexEntry { source_id: KnowledgeSourceId::Memory("memory_0001".to_owned()), retrieval_hint: bounded("m") },
    ];
    baseline.active_story_constraints = vec![
        StoryConstraint {
            id: "c2".to_owned(),
            requirement: StoryConstraintRequirement::Forbid { statement: bounded("no dragons") },
        },
        StoryConstraint {
            id: "c1".to_owned(),
            requirement: StoryConstraintRequirement::Require { statement: bounded("keep the tone") },
        },
    ];
    let projection = match WriterPlannerPromptContextProjector.project(&baseline, &NarrativePlan::empty(), &bounded("say \"hi\"")) {
        Ok(p) => p,
        Err(_) => panic!("writer planner projection"),
    };
    let vars = projection.rc_vars.as_map();
    assert_eq!(vars.len(), 12);
    assert_eq!(var(vars, "instance_settings"), Some("cast_policy: open"));
    assert_eq!(var(vars, "story_summary"), Some(""));
    assert_eq!(
        var(vars, "character_index"),
        Some("### Retrievable Characters\n\n- target_id: \"guard\"\n  retrieval_hint: \"the captain\"")
    );
    assert_eq!(
        var(vars, "knowledge_index"),
        Some("### Retrievable Facts\n\n- target_id: \"fact_0001\"\n  retrieval_hint: \"f\"\n\n### Retrievable Rumors\n\n- target_id: \"rumor_0001\"\n  retrieval_hint: \"r\"")
    );
    assert_eq!(
        var(vars, "active_story_constraints"),
        Some("- constraint_id: \"c1\"\n  kind: require\n  requirement: \"keep the tone\"\n- constraint_id: \"c2\"\n  kind: forbid\n  requirement: \"no dragons\"")
    );
    assert_eq!(var(vars, "player_contribution"), Some("\"say \\\"hi\\\"\""));
    assert_eq!(
        var(vars, "story_profile"),
        Some("title: \"Untitled Story\"\nlanguage: \"zh-CN\"\npoint_of_view: \"third\"\ntense: \"past\"")
    );
    assert_eq!(projection.context.provided_role_ids.len(), 2);
    assert_eq!(projection.context.indexed_targets.len(), 4);
    assert!(projection.fti_vars.as_map().is_empty());
}

#[test]
fn projection_refuses_a_key_naming_two_targets() {
    let mut baseline = minimal_baseline();
    baseline.role_index = vec![RoleIndexEntry {
        role_id: RoleId::try_new("fact_0001".to_owned()).unwrap(),
        retrieval_hint: bounded("odd"),
    }];
    baseline.knowledge_index = vec![KnowledgeIndexEntry {
        source_id: KnowledgeSourceId::Fact("fact_0001".to_owned()),
        retrieval_hint: bounded("f"),
    }];
    match WriterPlannerPromptContextProjector.project(&baseline, &NarrativePlan::empty(), &bounded("x")) {
        Err(WriterPlannerProjectionError::RetrievalTargetCollision { key }) => assert_eq!(key, "fact_0001"),
        _ => panic!("expected a collision"),
    }
}

#[test]
fn insert_target_accepts_the_same_target_twice() {
    let mut targets = Vec::new();
    let guard = || IndexedRetrievalTarget::Role(RoleId::try_new("guard".to_owned()).unwrap());
    assert!(insert_target(&mut targets, "guard".to_owned(), guard()).is_ok());
    assert!(insert_target(&mut targets, "guard".to_owned(), guard()).is_ok());
    assert_eq!(targets.len(), 1);
    let other = IndexedRetrievalTarget::Knowledge(KnowledgeSourceId::Fact("guard".to_owned()));
    assert!(insert_target(&mut targets, "guard".to_owned(), other).is_err());
}

#[test]
fn role_attributes_render_as_an_inline_map() {
    let mut value = role();
    value.state.attributes = vec![
        ("courage".to_owned(), ScalarValue::Integer(-3)),
        ("rank".to_owned(), ScalarValue::Text("captain".to_owned())),
        ("sober".to_owned(), ScalarValue::Bool(true)),
    ];
    let rendered = render_role(&value, false);
    assert!(rendered.ends_with("\nattributes: {\"courage\": -3, \"rank\": \"captain\", \"sober\": true}"));
}

#[test]
fn render_data_escapes_as_json() {
    assert_eq!(render_data("a \"quote\"\nline"), "\"a \\\"quote\\\"\\nline\"");
}

#[test]
fn input_budget_saturates_and_compares() {
    assert!(check_input_budget(&vec![10, 20], 30).is_ok());
    assert!(matches!(
        check_input_budget(&vec![10, 21], 30),
        Err(WriterPlannerProjectionError::RequiredPromptDataExceedsBudget)
    ));
    assert!(check_input_budget(&vec![u64::MAX, 5], u64::MAX).is_ok());
}
