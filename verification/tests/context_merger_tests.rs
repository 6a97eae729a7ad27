use aise::domain::BoundedText;
use aise::prompt::context_merger::{
    characters_block, cut_text, CharacterState, CharacterThought, ContextItem, ContextMerger, ContextSource,
    GenerationInput, StoryBaseline, PLANNER_SYSTEM, REVISION_INSTRUCTIONS, STORY_PROPOSAL_SCHEMA,
    THOUGHT_INSTRUCTIONS, WRITER_INSTRUCTIONS,
};
use aise::prompt::model::PromptRole;
use aise::turn::{RetrievalPlan, WriterPlan, WriterStoryGoal};

fn hero() -> CharacterState {
    CharacterState {
        id: "hero".to_owned(),
        name: "Ann".to_owned(),
        bio: "A knight.".to_owned(),
        goals: vec!["find".to_owned(), "x".repeat(130), "rest".to_owned(), "never shown".to_owned()],
    }
}

fn baseline() -> StoryBaseline {
    StoryBaseline {
        story_summary: "They met.".to_owned(),
        current_scene: Some("A hall.".to_owned()),
        relevant_characters: vec![hero(), CharacterState { id: "c2".to_owned(), name: "Bo".to_owned(), bio: "  ".to_owned(), goals: Vec::new() }],
        recent_story: vec!["First.".to_owned(), "Second.".to_owned()],
        story_instructions: "Be brief.".to_owned(),
        style: Some("  terse ".to_owned()),
        point_of_view: Some(" ".to_owned()),
        tense: None,
    }
}

fn writer_plan(goal: &str) -> WriterPlan {
    WriterPlan {
        story_goal: WriterStoryGoal { summary: BoundedText::try_new(goal.to_owned(), "goal", 1024).unwrap() },
        retrieval_plan: RetrievalPlan { character_requests: Vec::new(), knowledge_requests: Vec::new() },
        character_think_requests: Vec::new(),
    }
}

fn characters_text() -> String {
    format!("- Ann (id: hero): A knight. [goals: find; {}; rest]\n- Bo (id: c2)\n", "x".repeat(120))
}

#[test]
fn texts_are_cut_by_characters() {
    assert_eq!(cut_text("héllo", 2), "hé");
    assert_eq!(cut_text("hi", 5), "hi");
    assert_eq!(characters_block(&baseline().relevant_characters), characters_text());
    let many: Vec<CharacterState> = (0..13).map(|_| hero()).collect();
    assert_eq!(characters_block(&many).lines().count(), 12);
}

#[test]
fn planner_messages_hold_the_story_and_input() {
    let messages = ContextMerger.plan_messages(&baseline(), "open the door");
    assert_eq!(messages.len(), 2);
    assert_eq!(messages[0].role, PromptRole::System);
    assert_eq!(messages[0].content, PLANNER_SYSTEM);
    assert_eq!(messages[1].role, PromptRole::User);
    let expected = format!(
        "Story summary:\nThey met.\n\nCurrent scene:\nA hall.\n\nCharacters:\n{}\nPlayer input:\nopen the door\n",
        characters_text()
    );
    assert_eq!(messages[1].content, expected);
    let empty = StoryBaseline {
        story_summary: " \n".to_owned(),
        current_scene: None,
        relevant_characters: Vec::new(),
        recent_story: Vec::new(),
        story_instructions: String::new(),
        style: None,
        point_of_view: None,
        tense: None,
    };
    let long = "y".repeat(5000);
    let messages = ContextMerger.plan_messages(&empty, &long);
    assert_eq!(messages[1].content, format!("Player input:\n{}\n", "y".repeat(4096)));
}

#[test]
fn thought_messages_describe_the_character() {
    let messages = ContextMerger.thought_messages(&hero(), "wave", Some("A hall."));
    let system = format!(
        "You are Ann, a character in an interactive fiction story.\nBio: A knight.\nCurrent goals: find; {}; rest{}",
        "x".repeat(120),
        THOUGHT_INSTRUCTIONS
    );
    assert_eq!(messages[0].content, system);
    assert_eq!(messages[1].content, "Current scene:\nA hall.\n\nPlayer action:\nwave\n");
    let plain = CharacterState { id: "c".to_owned(), name: "Cy".to_owned(), bio: String::new(), goals: Vec::new() };
    let messages = ContextMerger.thought_messages(&plain, "wave", None);
    assert_eq!(messages[0].content, format!("You are Cy, a character in an interactive fiction story.{}", THOUGHT_INSTRUCTIONS));
    assert_eq!(messages[1].content, "Player action:\nwave\n");
}

#[test]
fn generation_messages_gather_the_turn() {
    let base = baseline();
    let plan = writer_plan("Reach the door.");
    let retrieved = vec![ContextItem { source: ContextSource::WorldKnowledge, content: "The door is shut.".to_owned() }];
    let thoughts = vec![CharacterThought {
        character_id: "hero".to_owned(),
        perception: "dark".to_owned(),
        emotion: "calm".to_owned(),
        goal: "go".to_owned(),
    }];
    let issues = vec!["missing events".to_owned()];
    let messages = ContextMerger.generation_messages(GenerationInput {
        baseline: &base,
        plan: &plan,
        retrieved: &retrieved,
        thoughts: &thoughts,
        player_input: "knock",
        issues: &issues,
        previous_story: Some("Old draft."),
    });
    let system = format!(
        "Story instructions:\nBe brief.\nStyle: terse\n{}{}\n{}- missing events\n\n",
        WRITER_INSTRUCTIONS, STORY_PROPOSAL_SCHEMA, REVISION_INSTRUCTIONS
    );
    assert_eq!(messages[0].content, system);
    let user = format!(
        "Story summary:\nThey met.\n\nCurrent scene:\nA hall.\n\nCharacters:\n{}\nRecent story:\n1. First.\n2. Second.\n\n\
Retrieved context:\n- [world_knowledge] The door is shut.\n\n\
Character thoughts:\n- hero: perception=dark; emotion=calm; goal=go\n\n\
Story goal:\nReach the door.\nPrevious draft:\nOld draft.\nPlayer input:\nknock\n",
        characters_text()
    );
    assert_eq!(messages[1].content, user);
    let bare = ContextMerger.generation_messages(GenerationInput {
        baseline: &StoryBaseline { recent_story: Vec::new(), relevant_characters: Vec::new(), current_scene: None, story_summary: String::new(), story_instructions: String::new(), style: None, point_of_view: None, tense: None },
        plan: &writer_plan(" "),
        retrieved: &[],
        thoughts: &[],
        player_input: "knock",
        issues: &[],
        previous_story: None,
    });
    assert_eq!(bare[0].content, format!("{}{}\n", WRITER_INSTRUCTIONS, STORY_PROPOSAL_SCHEMA));
    assert_eq!(bare[1].content, "Player input:\nknock\n");
}
