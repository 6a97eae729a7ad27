//! The messages of the planner, character and writer model calls, merged
//! from the turn's context: each part is cut to its own budget of
//! characters and items, and empty parts are left out.
use crate::prompt::model::{PromptMessage, PromptRole};
use crate::text::{
    blank, contains_text, decimal, ends_with, is_blank, join, join_strings, lemma_contains_at, lemma_contains_within,
    push_char, push_decimal, starts_with, trim, trim_of, views_of,
};
use crate::turn::WriterPlan;
use vstd::prelude::*;

verus! {

pub const MAX_RECENT_STORY_ITEMS: usize = 8;
pub const MAX_RECENT_STORY_CHARS: usize = 800;
pub const MAX_CHARACTER_ITEMS: usize = 12;
pub const MAX_CHARACTER_CHARS: usize = 500;
pub const MAX_RETRIEVED_ITEMS: usize = 10;
pub const MAX_RETRIEVED_CHARS: usize = 500;
pub const MAX_THOUGHT_ITEMS: usize = 6;
pub const MAX_THOUGHT_CHARS: usize = 400;
pub const MAX_ISSUE_ITEMS: usize = 5;
pub const MAX_ISSUE_CHARS: usize = 300;
pub const MAX_PLAYER_INPUT_CHARS: usize = 4096;
pub const MAX_INSTRUCTION_CHARS: usize = 4000;
pub const MAX_GOALS: usize = 3;
pub const MAX_GOAL_CHARS: usize = 120;

/// A text cut to at most `n` characters.
pub open spec fn cut(s: Seq<char>, n: nat) -> Seq<char> {
    if s.len() <= n {
        s
    } else {
        s.take(n as int)
    }
}

/// The first `n` items.
pub open spec fn first_n<A>(items: Seq<A>, n: nat) -> Seq<A> {
    if items.len() <= n {
        items
    } else {
        items.take(n as int)
    }
}

/// The texts `f` makes of the items, one after another.
pub open spec fn concat_map<A>(items: Seq<A>, f: spec_fn(A) -> Seq<char>) -> Seq<char>
    decreases items.len(),
{
    if items.len() == 0 {
        Seq::empty()
    } else {
        concat_map(items.drop_last(), f) + f(items.last())
    }
}

proof fn lemma_concat_map_step<A>(items: Seq<A>, f: spec_fn(A) -> Seq<char>, i: int)
    requires
        0 <= i < items.len(),
    ensures
        concat_map(items.take(i + 1), f) == concat_map(items.take(i), f) + f(items[i]),
{
    assert(items.take(i + 1).drop_last() =~= items.take(i));
}

/// Appends `s` cut to at most `n` characters.
pub fn push_cut(out: &mut String, s: &str, n: usize)
    ensures
        final(out)@ == old(out)@ + cut(s@, n as nat),
{
    let len = s.unicode_len();
    let mut i: usize = 0;
    while i < len && i < n
        invariant
            len == s@.len(),
            i <= len,
            i <= n,
            out@ == old(out)@ + s@.take(i as int),
        decreases len - i,
    {
        let c = s.get_char(i);
        push_char(out, c);
        assert(s@.take(i + 1) =~= s@.take(i as int).push(c));
        i = i + 1;
    }
    assert(out@ =~= old(out)@ + cut(s@, n as nat));
}

/// A text cut to at most `n` characters.
pub fn cut_text(s: &str, n: usize) -> (r: String)
    ensures
        r@ == cut(s@, n as nat),
{
    let mut r = String::new();
    push_cut(&mut r, s, n);
    assert(r@ =~= cut(s@, n as nat));
    r
}

/// A character of the story as the prompts show it.
#[derive(Debug, Clone)]
pub struct CharacterState {
    pub id: String,
    pub name: String,
    pub bio: String,
    pub goals: Vec<String>,
}

/// What the merged prompts read of a turn's context.
#[derive(Debug, Clone)]
pub struct StoryBaseline {
    pub story_summary: String,
    pub current_scene: Option<String>,
    pub relevant_characters: Vec<CharacterState>,
    pub recent_story: Vec<String>,
    pub story_instructions: String,
    pub style: Option<String>,
    pub point_of_view: Option<String>,
    pub tense: Option<String>,
}

/// Where a retrieved item of context came from.
#[derive(Debug, Clone, Copy, PartialEq, Eq, Structural)]
pub enum ContextSource {
    CharacterMemory,
    WorldKnowledge,
    NarrativeGraph,
    HistoricalStory,
}

/// A retrieved item of context.
#[derive(Debug, Clone)]
pub struct ContextItem {
    pub source: ContextSource,
    pub content: String,
}

/// What a character thinks at the start of a turn.
#[derive(Debug, Clone)]
pub struct CharacterThought {
    pub character_id: String,
    pub perception: String,
    pub emotion: String,
    pub goal: String,
}

pub open spec fn source_label_text(s: ContextSource) -> Seq<char> {
    match s {
        ContextSource::CharacterMemory => "character_memory"@,
        ContextSource::WorldKnowledge => "world_knowledge"@,
        ContextSource::NarrativeGraph => "narrative_graph"@,
        ContextSource::HistoricalStory => "historical_story"@,
    }
}

pub fn source_label(source: ContextSource) -> (r: &'static str)
    ensures
        r@ == source_label_text(source),
{
    match source {
        ContextSource::CharacterMemory => "character_memory",
        ContextSource::WorldKnowledge => "world_knowledge",
        ContextSource::NarrativeGraph => "narrative_graph",
        ContextSource::HistoricalStory => "historical_story",
    }
}

/// A character's first goals, each cut, joined by `; `.
pub open spec fn goals_text(goals: Seq<Seq<char>>) -> Seq<char> {
    join(first_n(goals, MAX_GOALS as nat).map_values(|g: Seq<char>| cut(g, MAX_GOAL_CHARS as nat)), "; "@)
}

fn goals_of(goals: &Vec<String>) -> (r: String)
    ensures
        r@ == goals_text(views_of(goals@)),
{
    let ghost gs = views_of(goals@);
    let mut parts: Vec<String> = Vec::new();
    let mut i: usize = 0;
    while i < goals.len() && i < MAX_GOALS
        invariant
            gs == views_of(goals@),
            i <= goals@.len(),
            i <= MAX_GOALS,
            views_of(parts@) == gs.take(i as int).map_values(|g: Seq<char>| cut(g, MAX_GOAL_CHARS as nat)),
        decreases goals@.len() - i,
    {
        let p = cut_text(goals[i].as_str(), MAX_GOAL_CHARS);
        let ghost before = parts@;
        let ghost pv = p@;
        parts.push(p);
        assert(views_of(parts@) =~= views_of(before).push(pv));
        assert(gs[i as int] == goals@[i as int]@);
        assert(gs.take(i + 1) =~= gs.take(i as int).push(gs[i as int]));
        assert(views_of(parts@) =~= gs.take(i + 1).map_values(|g: Seq<char>| cut(g, MAX_GOAL_CHARS as nat)));
        i = i + 1;
    }
    assert(first_n(gs, MAX_GOALS as nat) =~= gs.take(i as int));
    join_strings(&parts, "; ")
}

/// `- name (id: id)`, then `: ` and the cut bio unless it is blank, then
/// ` [goals: ...]` unless there are none, and a newline.
pub open spec fn character_line(c: CharacterState) -> Seq<char> {
    "- "@ + c.name@ + " (id: "@ + c.id@ + ")"@ + (if blank(c.bio@) {
        Seq::empty()
    } else {
        ": "@ + cut(c.bio@, MAX_CHARACTER_CHARS as nat)
    }) + (if c.goals@.len() == 0 {
        Seq::empty()
    } else {
        " [goals: "@ + goals_text(views_of(c.goals@)) + "]"@
    }) + "\n"@
}

pub open spec fn characters_text(cs: Seq<CharacterState>) -> Seq<char> {
    concat_map(first_n(cs, MAX_CHARACTER_ITEMS as nat), |c: CharacterState| character_line(c))
}

fn push_character_line(out: &mut String, c: &CharacterState)
    ensures
        final(out)@ == old(out)@ + character_line(*c),
{
    out.append("- ");
    out.append(c.name.as_str());
    out.append(" (id: ");
    out.append(c.id.as_str());
    out.append(")");
    if !is_blank(c.bio.as_str()) {
        out.append(": ");
        push_cut(out, c.bio.as_str(), MAX_CHARACTER_CHARS);
    }
    if c.goals.len() > 0 {
        out.append(" [goals: ");
        let g = goals_of(&c.goals);
        out.append(g.as_str());
        out.append("]");
    }
    out.append("\n");
    assert(out@ =~= old(out)@ + character_line(*c));
}

pub fn characters_block(characters: &Vec<CharacterState>) -> (r: String)
    ensures
        r@ == characters_text(characters@),
{
    let ghost f = |c: CharacterState| character_line(c);
    let mut r = String::new();
    let mut i: usize = 0;
    while i < characters.len() && i < MAX_CHARACTER_ITEMS
        invariant
            f == (|c: CharacterState| character_line(c)),
            i <= characters@.len(),
            i <= MAX_CHARACTER_ITEMS,
            r@ == concat_map(characters@.take(i as int), f),
        decreases characters@.len() - i,
    {
        proof {
            lemma_concat_map_step(characters@, f, i as int);
        }
        push_character_line(&mut r, &characters[i]);
        i = i + 1;
    }
    assert(first_n(characters@, MAX_CHARACTER_ITEMS as nat) =~= characters@.take(i as int));
    r
}

/// The first recent story texts, numbered from one and cut, one per line.
pub open spec fn recent_story_text(turns: Seq<Seq<char>>) -> Seq<char>
    decreases turns.len(),
{
    if turns.len() == 0 {
        Seq::empty()
    } else {
        recent_story_text(turns.drop_last()) + decimal(turns.len()) + ". "@ + cut(turns.last(), MAX_RECENT_STORY_CHARS as nat)
            + "\n"@
    }
}

pub fn recent_story_block(turns: &Vec<String>) -> (r: String)
    ensures
        r@ == recent_story_text(first_n(views_of(turns@), MAX_RECENT_STORY_ITEMS as nat)),
{
    let ghost ts = views_of(turns@);
    let mut r = String::new();
    let mut i: usize = 0;
    while i < turns.len() && i < MAX_RECENT_STORY_ITEMS
        invariant
            ts == views_of(turns@),
            i <= turns@.len(),
            i <= MAX_RECENT_STORY_ITEMS,
            r@ == recent_story_text(ts.take(i as int)),
        decreases turns@.len() - i,
    {
        assert(ts.take(i + 1).drop_last() =~= ts.take(i as int));
        push_decimal(&mut r, (i + 1) as u64);
        r.append(". ");
        push_cut(&mut r, turns[i].as_str(), MAX_RECENT_STORY_CHARS);
        r.append("\n");
        assert(r@ =~= recent_story_text(ts.take(i + 1)));
        i = i + 1;
    }
    assert(first_n(ts, MAX_RECENT_STORY_ITEMS as nat) =~= ts.take(i as int));
    r
}

pub open spec fn retrieved_line(item: ContextItem) -> Seq<char> {
    "- ["@ + source_label_text(item.source) + "] "@ + cut(item.content@, MAX_RETRIEVED_CHARS as nat) + "\n"@
}

pub open spec fn retrieved_text(items: Seq<ContextItem>) -> Seq<char> {
    concat_map(first_n(items, MAX_RETRIEVED_ITEMS as nat), |i: ContextItem| retrieved_line(i))
}

pub fn retrieved_block(items: &[ContextItem]) -> (r: String)
    ensures
        r@ == retrieved_text(items@),
{
    let ghost f = |i: ContextItem| retrieved_line(i);
    let mut r = String::new();
    let mut i: usize = 0;
    while i < items.len() && i < MAX_RETRIEVED_ITEMS
        invariant
            f == (|i: ContextItem| retrieved_line(i)),
            i <= items@.len(),
            i <= MAX_RETRIEVED_ITEMS,
            r@ == concat_map(items@.take(i as int), f),
        decreases items@.len() - i,
    {
        proof {
            lemma_concat_map_step(items@, f, i as int);
        }
        let item = &items[i];
        r.append("- [");
        r.append(source_label(item.source));
        r.append("] ");
        push_cut(&mut r, item.content.as_str(), MAX_RETRIEVED_CHARS);
        r.append("\n");
        assert(r@ =~= concat_map(items@.take(i + 1), f));
        i = i + 1;
    }
    assert(first_n(items@, MAX_RETRIEVED_ITEMS as nat) =~= items@.take(i as int));
    r
}

pub open spec fn thought_line(t: CharacterThought) -> Seq<char> {
    "- "@ + t.character_id@ + ": perception="@ + cut(t.perception@, MAX_THOUGHT_CHARS as nat) + "; emotion="@ + cut(
        t.emotion@,
        MAX_THOUGHT_CHARS as nat,
    ) + "; goal="@ + cut(t.goal@, MAX_THOUGHT_CHARS as nat) + "\n"@
}

pub open spec fn thoughts_text(ts: Seq<CharacterThought>) -> Seq<char> {
    concat_map(first_n(ts, MAX_THOUGHT_ITEMS as nat), |t: CharacterThought| thought_line(t))
}

pub fn thoughts_block(thoughts: &[CharacterThought]) -> (r: String)
    ensures
        r@ == thoughts_text(thoughts@),
{
    let ghost f = |t: CharacterThought| thought_line(t);
    let mut r = String::new();
    let mut i: usize = 0;
    while i < thoughts.len() && i < MAX_THOUGHT_ITEMS
        invariant
            f == (|t: CharacterThought| thought_line(t)),
            i <= thoughts@.len(),
            i <= MAX_THOUGHT_ITEMS,
            r@ == concat_map(thoughts@.take(i as int), f),
        decreases thoughts@.len() - i,
    {
        proof {
            lemma_concat_map_step(thoughts@, f, i as int);
        }
        let t = &thoughts[i];
        r.append("- ");
        r.append(t.character_id.as_str());
        r.append(": perception=");
        push_cut(&mut r, t.perception.as_str(), MAX_THOUGHT_CHARS);
        r.append("; emotion=");
        push_cut(&mut r, t.emotion.as_str(), MAX_THOUGHT_CHARS);
        r.append("; goal=");
        push_cut(&mut r, t.goal.as_str(), MAX_THOUGHT_CHARS);
        r.append("\n");
        assert(r@ =~= concat_map(thoughts@.take(i + 1), f));
        i = i + 1;
    }
    assert(first_n(thoughts@, MAX_THOUGHT_ITEMS as nat) =~= thoughts@.take(i as int));
    r
}

pub open spec fn issue_line(issue: Seq<char>) -> Seq<char> {
    "- "@ + cut(issue, MAX_ISSUE_CHARS as nat) + "\n"@
}

pub open spec fn issues_text(issues: Seq<Seq<char>>) -> Seq<char> {
    concat_map(first_n(issues, MAX_ISSUE_ITEMS as nat), |s: Seq<char>| issue_line(s))
}

pub fn issues_block(issues: &[String]) -> (r: String)
    ensures
        r@ == issues_text(views_of(issues@)),
{
    let ghost f = |s: Seq<char>| issue_line(s);
    let ghost vs = views_of(issues@);
    let mut r = String::new();
    let mut i: usize = 0;
    while i < issues.len() && i < MAX_ISSUE_ITEMS
        invariant
            f == (|s: Seq<char>| issue_line(s)),
            vs == views_of(issues@),
            i <= issues@.len(),
            i <= MAX_ISSUE_ITEMS,
            r@ == concat_map(vs.take(i as int), f),
        decreases issues@.len() - i,
    {
        proof {
            lemma_concat_map_step(vs, f, i as int);
        }
        r.append("- ");
        push_cut(&mut r, issues[i].as_str(), MAX_ISSUE_CHARS);
        r.append("\n");
        assert(r@ =~= concat_map(vs.take(i + 1), f));
        i = i + 1;
    }
    assert(first_n(vs, MAX_ISSUE_ITEMS as nat) =~= vs.take(i as int));
    r
}


/// What the planner is told to do.
pub const PLANNER_SYSTEM: &'static str = "You are the story planner of an interactive fiction engine. You plan a single player turn. Decide the story goal for the turn. Respond with only a JSON object of this shape: {\"story_goal\":{\"summary\":\"...\"}}.";

/// What a character is told to answer.
pub const THOUGHT_INSTRUCTIONS: &'static str = "\nDescribe your perception, emotion, current goal, and possible action. Respond with only a JSON object of this shape: {\"perception\":\"...\",\"emotion\":\"...\",\"goal\":\"...\",\"possible_action\":\"...\"}.";

/// What the writer is told to do, up to the schema of its answer.
pub const WRITER_INSTRUCTIONS: &'static str = "You are the story writer of an interactive fiction engine. Write the next part of the story responding to the player action. You may propose events, character changes, world facts, memories, and a summary change. Every proposed world fact must reference at least one piece of evidence: either an existing snapshot fact or one of the proposed events. You may introduce new characters in the story text who are not in the character list, but character_changes, memory_changes, and affinity targets may only reference characters from the list. Respond with only a JSON object matching this schema:\n";

/// The shape of the writer's answer.
pub const STORY_PROPOSAL_SCHEMA: &'static str = r#"{
  "story_text": "the story text",
  "events": [{"kind": "dialogue" | "action" | "world_change" | "chapter", "summary": "event summary"}],
  "character_changes": [{"character_id": "existing character id", "goal_updates": ["new goal"], "health_delta": 0, "affinity_deltas": [{"other": "existing character id", "delta": 0}]}],
  "world_change": {"add_facts": [{"text": "new world fact", "evidence": [{"snapshot_fact": "existing fact id"} or {"proposed_event": {"event_index": 0}}]}]},
  "memory_changes": [{"owner": "existing character id", "kind": "observed" | "inferred" | "secret", "content": "memory text"}],
  "summary_change": {"text": "updated story summary"} or null
}

Keep every field exactly in the shape above: "events" entries are objects with "kind" and "summary" fields, "add_facts" entries are objects with "text" and "evidence" fields, "character_changes" entries are objects with a "character_id" field, and "summary_change" is an object with a "text" field or null. Never output any of these fields as a plain string."#;

/// What the writer is told when its draft was refused.
pub const REVISION_INSTRUCTIONS: &'static str = "The previous draft was rejected by validation. Fix these issues and produce a complete new JSON object:\n";

pub open spec fn summary_part(summary: Seq<char>) -> Seq<char> {
    if blank(summary) {
        Seq::empty()
    } else {
        "Story summary:\n"@ + cut(summary, MAX_RECENT_STORY_CHARS as nat) + "\n\n"@
    }
}

pub open spec fn scene_part(scene: Option<Seq<char>>) -> Seq<char> {
    match scene {
        Some(s) => "Current scene:\n"@ + cut(s, MAX_RECENT_STORY_CHARS as nat) + "\n\n"@,
        None => Seq::empty(),
    }
}

pub open spec fn characters_part(cs: Seq<CharacterState>) -> Seq<char> {
    if cs.len() == 0 {
        Seq::empty()
    } else {
        "Characters:\n"@ + characters_text(cs) + "\n"@
    }
}

pub open spec fn input_part(heading: Seq<char>, input: Seq<char>) -> Seq<char> {
    heading + cut(input, MAX_PLAYER_INPUT_CHARS as nat) + "\n"@
}

pub open spec fn scene_view(scene: Option<String>) -> Option<Seq<char>> {
    match scene {
        Some(s) => Some(s@),
        None => None,
    }
}

/// The story's summary, scene and characters, as the planner and writer
/// are shown them.
pub open spec fn story_parts(b: StoryBaseline) -> Seq<char> {
    summary_part(b.story_summary@) + scene_part(scene_view(b.current_scene)) + characters_part(b.relevant_characters@)
}

/// The planner's request.
pub open spec fn plan_user_text(b: StoryBaseline, input: Seq<char>) -> Seq<char> {
    story_parts(b) + input_part("Player input:\n"@, input)
}

/// Who the character is: its name, its bio unless blank, its first goals
/// unless it has none, then what it is asked to answer.
pub open spec fn thought_system_text(c: CharacterState) -> Seq<char> {
    "You are "@ + c.name@ + ", a character in an interactive fiction story."@ + (if blank(c.bio@) {
        Seq::empty()
    } else {
        "\nBio: "@ + cut(c.bio@, MAX_CHARACTER_CHARS as nat)
    }) + (if c.goals@.len() == 0 {
        Seq::empty()
    } else {
        "\nCurrent goals: "@ + goals_text(views_of(c.goals@))
    }) + THOUGHT_INSTRUCTIONS@
}

pub open spec fn thought_user_text(scene: Option<Seq<char>>, input: Seq<char>) -> Seq<char> {
    scene_part(scene) + input_part("Player action:\n"@, input)
}

pub open spec fn setting_line(label: Seq<char>, value: Option<String>) -> Seq<char> {
    match value {
        Some(v) => if blank(v@) {
            Seq::empty()
        } else {
            label + trim(v@) + "\n"@
        },
        None => Seq::empty(),
    }
}

/// The story's instructions (unless blank) and its style, point of view
/// and tense (each unless missing or blank).
pub open spec fn instructions_text(b: StoryBaseline) -> Seq<char> {
    (if blank(b.story_instructions@) {
        Seq::empty()
    } else {
        "Story instructions:\n"@ + cut(b.story_instructions@, MAX_INSTRUCTION_CHARS as nat) + "\n"@
    }) + setting_line("Style: "@, b.style) + setting_line("Point of view: "@, b.point_of_view) + setting_line(
        "Tense: "@,
        b.tense,
    )
}

/// The writer's instructions, and the issues of a refused draft.
pub open spec fn generation_system_text(b: StoryBaseline, issues: Seq<Seq<char>>) -> Seq<char> {
    instructions_text(b) + WRITER_INSTRUCTIONS@ + STORY_PROPOSAL_SCHEMA@ + "\n"@ + (if issues.len() == 0 {
        Seq::empty()
    } else {
        REVISION_INSTRUCTIONS@ + issues_text(issues) + "\n"@
    })
}

pub open spec fn titled(title: Seq<char>, body: Seq<char>, shown: bool) -> Seq<char> {
    if shown {
        title + body + "\n"@
    } else {
        Seq::empty()
    }
}

/// The writer's request: the story, recent story, retrieved context,
/// character thoughts, the story goal unless blank, the previous draft if
/// any, and the player's input.
pub open spec fn generation_user_text(
    b: StoryBaseline,
    goal: Seq<char>,
    retrieved: Seq<ContextItem>,
    thoughts: Seq<CharacterThought>,
    input: Seq<char>,
    previous: Option<Seq<char>>,
) -> Seq<char> {
    story_parts(b) + titled(
        "Recent story:\n"@,
        recent_story_text(first_n(views_of(b.recent_story@), MAX_RECENT_STORY_ITEMS as nat)),
        b.recent_story@.len() > 0,
    ) + titled("Retrieved context:\n"@, retrieved_text(retrieved), retrieved.len() > 0) + titled(
        "Character thoughts:\n"@,
        thoughts_text(thoughts),
        thoughts.len() > 0,
    ) + titled("Story goal:\n"@, cut(goal, MAX_RECENT_STORY_CHARS as nat), !blank(goal)) + (match previous {
        Some(p) => "Previous draft:\n"@ + cut(p, MAX_RECENT_STORY_CHARS as nat) + "\n"@,
        None => Seq::empty(),
    }) + input_part("Player input:\n"@, input)
}

/// A system message and a user message.
pub open spec fn is_exchange(r: Seq<PromptMessage>, system: Seq<char>, user: Seq<char>) -> bool {
    &&& r.len() == 2
    &&& r[0].role == PromptRole::System
    &&& r[0].content@ == system
    &&& r[1].role == PromptRole::User
    &&& r[1].content@ == user
}

fn exchange(system: String, user: String) -> (r: Vec<PromptMessage>)
    ensures
        is_exchange(r@, system@, user@),
{
    let mut r: Vec<PromptMessage> = Vec::new();
    r.push(PromptMessage { role: PromptRole::System, content: system });
    r.push(PromptMessage { role: PromptRole::User, content: user });
    r
}

fn push_scene_part(out: &mut String, scene: Option<&str>)
    ensures
        final(out)@ == old(out)@ + scene_part(
            match scene {
                Some(s) => Some(s@),
                None => None,
            },
        ),
{
    match scene {
        Some(s) => {
            out.append("Current scene:\n");
            push_cut(out, s, MAX_RECENT_STORY_CHARS);
            out.append("\n\n");
        },
        None => {},
    }
    assert(out@ =~= old(out)@ + scene_part(
        match scene {
            Some(s) => Some(s@),
            None => None,
        },
    ));
}

fn push_story_parts(out: &mut String, b: &StoryBaseline)
    ensures
        final(out)@ == old(out)@ + story_parts(*b),
{
    if !is_blank(b.story_summary.as_str()) {
        out.append("Story summary:\n");
        push_cut(out, b.story_summary.as_str(), MAX_RECENT_STORY_CHARS);
        out.append("\n\n");
    }
    let ghost after_summary = out@;
    assert(after_summary =~= old(out)@ + summary_part(b.story_summary@));
    let scene: Option<&str> = match &b.current_scene {
        Some(s) => Some(s.as_str()),
        None => None,
    };
    push_scene_part(out, scene);
    if b.relevant_characters.len() > 0 {
        out.append("Characters:\n");
        let block = characters_block(&b.relevant_characters);
        out.append(block.as_str());
        out.append("\n");
    }
    assert(out@ =~= old(out)@ + story_parts(*b));
}

fn push_input_part(out: &mut String, heading: &str, input: &str)
    ensures
        final(out)@ == old(out)@ + input_part(heading@, input@),
{
    out.append(heading);
    push_cut(out, input, MAX_PLAYER_INPUT_CHARS);
    out.append("\n");
    assert(out@ =~= old(out)@ + input_part(heading@, input@));
}

fn push_setting_line(out: &mut String, label: &str, value: &Option<String>)
    ensures
        final(out)@ == old(out)@ + setting_line(label@, *value),
{
    match value {
        Some(v) => {
            if !is_blank(v.as_str()) {
                out.append(label);
                out.append(trim_of(v.as_str()));
                out.append("\n");
            }
        },
        None => {},
    }
    assert(out@ =~= old(out)@ + setting_line(label@, *value));
}

pub fn instructions_block(b: &StoryBaseline) -> (r: String)
    ensures
        r@ == instructions_text(*b),
{
    let mut r = String::new();
    if !is_blank(b.story_instructions.as_str()) {
        r.append("Story instructions:\n");
        push_cut(&mut r, b.story_instructions.as_str(), MAX_INSTRUCTION_CHARS);
        r.append("\n");
    }
    push_setting_line(&mut r, "Style: ", &b.style);
    push_setting_line(&mut r, "Point of view: ", &b.point_of_view);
    push_setting_line(&mut r, "Tense: ", &b.tense);
    assert(r@ =~= instructions_text(*b));
    r
}

fn push_titled(out: &mut String, title: &str, body: &str, shown: bool)
    ensures
        final(out)@ == old(out)@ + titled(title@, body@, shown),
{
    if shown {
        out.append(title);
        out.append(body);
        out.append("\n");
    }
    assert(out@ =~= old(out)@ + titled(title@, body@, shown));
}

fn generation_system(b: &StoryBaseline, issues: &[String]) -> (r: String)
    ensures
        r@ == generation_system_text(*b, views_of(issues@)),
{
    let mut system = instructions_block(b);
    system.append(WRITER_INSTRUCTIONS);
    system.append(STORY_PROPOSAL_SCHEMA);
    system.append("\n");
    if issues.len() > 0 {
        system.append(REVISION_INSTRUCTIONS);
        let block = issues_block(issues);
        system.append(block.as_str());
        system.append("\n");
    }
    assert(system@ =~= generation_system_text(*b, views_of(issues@)));
    system
}

#[verifier::rlimit(30)]
fn generation_user(input: &GenerationInput<'_>) -> (r: String)
    ensures
        r@ == generation_user_text(
            *input.baseline,
            input.plan.story_goal.summary@,
            input.retrieved@,
            input.thoughts@,
            input.player_input@,
            match input.previous_story {
                Some(s) => Some(s@),
                None => None,
            },
        ),
{
    let b = input.baseline;
    let mut user = String::new();
    push_story_parts(&mut user, b);
    let recent = recent_story_block(&b.recent_story);
    push_titled(&mut user, "Recent story:\n", recent.as_str(), b.recent_story.len() > 0);
    let retrieved = retrieved_block(input.retrieved);
    push_titled(&mut user, "Retrieved context:\n", retrieved.as_str(), input.retrieved.len() > 0);
    let thoughts = thoughts_block(input.thoughts);
    push_titled(&mut user, "Character thoughts:\n", thoughts.as_str(), input.thoughts.len() > 0);
    let goal = input.plan.story_goal.summary.as_str();
    let goal_text = cut_text(goal, MAX_RECENT_STORY_CHARS);
    push_titled(&mut user, "Story goal:\n", goal_text.as_str(), !is_blank(goal));
    let ghost p4 = user@;
    let ghost prev = match input.previous_story {
        Some(s) => Some(s@),
        None => None,
    };
    match input.previous_story {
        Some(story) => {
            user.append("Previous draft:\n");
            push_cut(&mut user, story, MAX_RECENT_STORY_CHARS);
            user.append("\n");
        },
        None => {},
    }
    let ghost p5 = user@;
    assert(p5 =~= p4 + match prev {
        Some(p) => "Previous draft:\n"@ + cut(p, MAX_RECENT_STORY_CHARS as nat) + "\n"@,
        None => Seq::empty(),
    });
    push_input_part(&mut user, "Player input:\n", input.player_input);
    assert(user@ =~= generation_user_text(
        *b,
        input.plan.story_goal.summary@,
        input.retrieved@,
        input.thoughts@,
        input.player_input@,
        prev,
    ));
    user
}

/// The writer's inputs.
pub struct GenerationInput<'a> {
    pub baseline: &'a StoryBaseline,
    pub plan: &'a WriterPlan,
    pub retrieved: &'a [ContextItem],
    pub thoughts: &'a [CharacterThought],
    pub player_input: &'a str,
    pub issues: &'a [String],
    pub previous_story: Option<&'a str>,
}

/// Merges the turn's context into the messages of the model calls.
pub struct ContextMerger;

impl ContextMerger {
    /// The planner's messages: what it is to do, and the story with the
    /// player's input.
    pub fn plan_messages(&self, baseline: &StoryBaseline, player_input: &str) -> (r: Vec<PromptMessage>)
        ensures
            is_exchange(r@, PLANNER_SYSTEM@, plan_user_text(*baseline, player_input@)),
    {
        let mut user = String::new();
        push_story_parts(&mut user, baseline);
        push_input_part(&mut user, "Player input:\n", player_input);
        assert(user@ =~= plan_user_text(*baseline, player_input@));
        exchange(PLANNER_SYSTEM.to_owned(), user)
    }

    /// A character's messages: who it is and what it is to answer, and the
    /// scene with the player's action.
    pub fn thought_messages(&self, character: &CharacterState, player_input: &str, current_scene: Option<&str>) -> (r: Vec<
        PromptMessage,
    >)
        ensures
            is_exchange(
                r@,
                thought_system_text(*character),
                thought_user_text(
                    match current_scene {
                        Some(s) => Some(s@),
                        None => None,
                    },
                    player_input@,
                ),
            ),
    {
        let mut system = String::new();
        system.append("You are ");
        system.append(character.name.as_str());
        system.append(", a character in an interactive fiction story.");
        if !is_blank(character.bio.as_str()) {
            system.append("\nBio: ");
            push_cut(&mut system, character.bio.as_str(), MAX_CHARACTER_CHARS);
        }
        if character.goals.len() > 0 {
            system.append("\nCurrent goals: ");
            let goals = goals_of(&character.goals);
            system.append(goals.as_str());
        }
        system.append(THOUGHT_INSTRUCTIONS);
        assert(system@ =~= thought_system_text(*character));
        let mut user = String::new();
        push_scene_part(&mut user, current_scene);
        push_input_part(&mut user, "Player action:\n", player_input);
        assert(user@ =~= thought_user_text(
            match current_scene {
                Some(s) => Some(s@),
                None => None,
            },
            player_input@,
        ));
        exchange(system, user)
    }

    /// The writer's messages: the story's instructions, what the writer is
    /// to do and the issues of a refused draft; then everything the turn
    /// gathered, with the player's input.
    pub fn generation_messages(&self, input: GenerationInput<'_>) -> (r: Vec<PromptMessage>)
        ensures
            is_exchange(
                r@,
                generation_system_text(*input.baseline, views_of(input.issues@)),
                generation_user_text(
                    *input.baseline,
                    input.plan.story_goal.summary@,
                    input.retrieved@,
                    input.thoughts@,
                    input.player_input@,
                    match input.previous_story {
                        Some(s) => Some(s@),
                        None => None,
                    },
                ),
            ),
    {
        let system = generation_system(input.baseline, input.issues);
        let user = generation_user(&input);
        exchange(system, user)
    }
}


/// Law: the writer's instructions name the story's own settings. When a
/// setting is given and not blank, the instructions hold its line with the
/// trimmed value (`Style: `, `Point of view: `, `Tense: `); the tense line
/// ends them. The writer's system message holds each such line, whatever
/// the issues.
#[verifier::rlimit(80)]
pub proof fn law_instructions_name_the_settings(b: StoryBaseline, issues: Seq<Seq<char>>)
    ensures
        match b.tense {
            Some(t) => !blank(t@) ==> ends_with(instructions_text(b), "Tense: "@ + trim(t@) + "\n"@) && contains_text(
                generation_system_text(b, issues),
                "Tense: "@ + trim(t@) + "\n"@,
            ),
            None => true,
        },
        match b.point_of_view {
            Some(p) => !blank(p@) ==> contains_text(generation_system_text(b, issues), "Point of view: "@ + trim(p@) + "\n"@),
            None => true,
        },
        match b.style {
            Some(v) => !blank(v@) ==> contains_text(generation_system_text(b, issues), "Style: "@ + trim(v@) + "\n"@),
            None => true,
        },
{
    let head = if blank(b.story_instructions@) {
        Seq::empty()
    } else {
        "Story instructions:\n"@ + cut(b.story_instructions@, MAX_INSTRUCTION_CHARS as nat) + "\n"@
    };
    let sl = setting_line("Style: "@, b.style);
    let pl = setting_line("Point of view: "@, b.point_of_view);
    let tl = setting_line("Tense: "@, b.tense);
    let it = instructions_text(b);
    let sys = generation_system_text(b, issues);
    assert(it == head + sl + pl + tl);
    let rest = WRITER_INSTRUCTIONS@ + STORY_PROPOSAL_SCHEMA@ + "\n"@ + (if issues.len() == 0 {
        Seq::empty()
    } else {
        REVISION_INSTRUCTIONS@ + issues_text(issues) + "\n"@
    });
    assert(sys =~= it + rest);
    if let Some(t) = b.tense {
        if !blank(t@) {
            let line = "Tense: "@ + trim(t@) + "\n"@;
            assert(tl == line);
            assert(it.skip(it.len() - line.len()) =~= line);
            let o = it.len() - line.len();
            assert(sys.subrange(o, o + line.len()) =~= line);
            lemma_contains_at(sys, line, o);
        }
    }
    if let Some(p) = b.point_of_view {
        if !blank(p@) {
            let line = "Point of view: "@ + trim(p@) + "\n"@;
            assert(pl == line);
            let o = (head + sl).len() as int;
            assert(sys.subrange(o, o + line.len()) =~= line);
            lemma_contains_at(sys, line, o);
        }
    }
    if let Some(v) = b.style {
        if !blank(v@) {
            let line = "Style: "@ + trim(v@) + "\n"@;
            assert(sl == line);
            let o = head.len() as int;
            assert(sys.subrange(o, o + line.len()) =~= line);
            lemma_contains_at(sys, line, o);
        }
    }
}


/// Law: retrieved items are labelled by where they came from: the names are these, and two different values never share one.
pub proof fn law_source_labels_are_distinct(a: ContextSource, b: ContextSource)
    ensures
        source_label_text(ContextSource::CharacterMemory) == "character_memory"@,
        source_label_text(ContextSource::WorldKnowledge) == "world_knowledge"@,
        source_label_text(ContextSource::NarrativeGraph) == "narrative_graph"@,
        source_label_text(ContextSource::HistoricalStory) == "historical_story"@,
        a != b ==> source_label_text(a) != source_label_text(b),
{
    reveal_strlit("character_memory");
    reveal_strlit("world_knowledge");
    reveal_strlit("narrative_graph");
    reveal_strlit("historical_story");
    if a != b && source_label_text(a) == source_label_text(b) {
        assert(source_label_text(a).len() == source_label_text(b).len());
        assert(source_label_text(a)[0] == source_label_text(b)[0]);
        assert(source_label_text(a)[1] == source_label_text(b)[1]);
    }
}


/// Law: a text is cut to its first characters: the cut keeps the text's
/// start, and is as long as the text or the limit, whichever is shorter.
pub proof fn law_cut_keeps_the_start(s: Seq<char>, n: nat)
    ensures
        starts_with(s, cut(s, n)),
        cut(s, n).len() == if s.len() <= n {
            s.len()
        } else {
            n
        },
{
    assert(s.take(cut(s, n).len() as int) =~= cut(s, n));
}

/// Law: every request ends with the player's words, cut to their budget:
/// the planner's and the writer's under `Player input:`, a character's
/// under `Player action:`.
#[verifier::rlimit(80)]
pub proof fn law_requests_end_with_the_players_words(
    b: StoryBaseline,
    input: Seq<char>,
    scene: Option<Seq<char>>,
    goal: Seq<char>,
    retrieved: Seq<ContextItem>,
    thoughts: Seq<CharacterThought>,
    previous: Option<Seq<char>>,
)
    ensures
        ends_with(plan_user_text(b, input), "Player input:\n"@ + cut(input, MAX_PLAYER_INPUT_CHARS as nat) + "\n"@),
        ends_with(thought_user_text(scene, input), "Player action:\n"@ + cut(input, MAX_PLAYER_INPUT_CHARS as nat) + "\n"@),
        ends_with(
            generation_user_text(b, goal, retrieved, thoughts, input, previous),
            "Player input:\n"@ + cut(input, MAX_PLAYER_INPUT_CHARS as nat) + "\n"@,
        ),
{
    let p = "Player input:\n"@ + cut(input, MAX_PLAYER_INPUT_CHARS as nat) + "\n"@;
    let a = "Player action:\n"@ + cut(input, MAX_PLAYER_INPUT_CHARS as nat) + "\n"@;
    let t1 = plan_user_text(b, input);
    assert(t1.skip(t1.len() - p.len()) =~= p);
    let t2 = thought_user_text(scene, input);
    assert(t2.skip(t2.len() - a.len()) =~= a);
    let t3 = generation_user_text(b, goal, retrieved, thoughts, input, previous);
    assert(t3.skip(t3.len() - p.len()) =~= p);
}

/// The writer's request, in its parts.
#[verifier::rlimit(80)]
proof fn lemma_generation_parts(
    b: StoryBaseline,
    input: Seq<char>,
    goal: Seq<char>,
    retrieved: Seq<ContextItem>,
    thoughts: Seq<CharacterThought>,
    previous: Option<Seq<char>>,
)
    ensures
        generation_user_text(b, goal, retrieved, thoughts, input, previous) == story_parts(b) + (titled(
            "Recent story:\n"@,
            recent_story_text(first_n(views_of(b.recent_story@), MAX_RECENT_STORY_ITEMS as nat)),
            b.recent_story@.len() > 0,
        ) + titled("Retrieved context:\n"@, retrieved_text(retrieved), retrieved.len() > 0) + titled(
            "Character thoughts:\n"@,
            thoughts_text(thoughts),
            thoughts.len() > 0,
        )) + (titled("Story goal:\n"@, cut(goal, MAX_RECENT_STORY_CHARS as nat), !blank(goal)) + match previous {
            Some(p) => "Previous draft:\n"@ + cut(p, MAX_RECENT_STORY_CHARS as nat) + "\n"@,
            None => Seq::empty(),
        }) + input_part("Player input:\n"@, input),
{
    assert(generation_user_text(b, goal, retrieved, thoughts, input, previous) =~= story_parts(b) + (titled(
        "Recent story:\n"@,
        recent_story_text(first_n(views_of(b.recent_story@), MAX_RECENT_STORY_ITEMS as nat)),
        b.recent_story@.len() > 0,
    ) + titled("Retrieved context:\n"@, retrieved_text(retrieved), retrieved.len() > 0) + titled(
        "Character thoughts:\n"@,
        thoughts_text(thoughts),
        thoughts.len() > 0,
    )) + (titled("Story goal:\n"@, cut(goal, MAX_RECENT_STORY_CHARS as nat), !blank(goal)) + match previous {
        Some(p) => "Previous draft:\n"@ + cut(p, MAX_RECENT_STORY_CHARS as nat) + "\n"@,
        None => Seq::empty(),
    }) + input_part("Player input:\n"@, input));
}

/// The story parts open with the summary unless it is blank, and show the
/// scene when there is one.
proof fn lemma_story_parts_show(b: StoryBaseline)
    ensures
        !blank(b.story_summary@) ==> starts_with(
            story_parts(b),
            "Story summary:\n"@ + cut(b.story_summary@, MAX_RECENT_STORY_CHARS as nat) + "\n\n"@,
        ),
        match b.current_scene {
            Some(sc) => contains_text(story_parts(b), "Current scene:\n"@ + cut(sc@, MAX_RECENT_STORY_CHARS as nat) + "\n\n"@),
            None => true,
        },
{
    let sp = summary_part(b.story_summary@);
    let cp = scene_part(scene_view(b.current_scene));
    let t = story_parts(b);
    assert(t == sp + cp + characters_part(b.relevant_characters@));
    assert(t.take(sp.len() as int) =~= sp);
    if let Some(sc) = b.current_scene {
        let o = sp.len() as int;
        assert(t.subrange(o, o + cp.len()) =~= cp);
        lemma_contains_at(t, cp, o);
    }
}

/// Law: the planner's and the writer's requests open with the story
/// summary (cut to its budget) unless it is blank, and show the current
/// scene (cut) when there is one.
#[verifier::rlimit(80)]
pub proof fn law_requests_show_the_story(
    b: StoryBaseline,
    input: Seq<char>,
    goal: Seq<char>,
    retrieved: Seq<ContextItem>,
    thoughts: Seq<CharacterThought>,
    previous: Option<Seq<char>>,
)
    ensures
        !blank(b.story_summary@) ==> starts_with(
            plan_user_text(b, input),
            "Story summary:\n"@ + cut(b.story_summary@, MAX_RECENT_STORY_CHARS as nat) + "\n\n"@,
        ) && starts_with(
            generation_user_text(b, goal, retrieved, thoughts, input, previous),
            "Story summary:\n"@ + cut(b.story_summary@, MAX_RECENT_STORY_CHARS as nat) + "\n\n"@,
        ),
        match b.current_scene {
            Some(sc) => contains_text(
                plan_user_text(b, input),
                "Current scene:\n"@ + cut(sc@, MAX_RECENT_STORY_CHARS as nat) + "\n\n"@,
            ) && contains_text(
                generation_user_text(b, goal, retrieved, thoughts, input, previous),
                "Current scene:\n"@ + cut(sc@, MAX_RECENT_STORY_CHARS as nat) + "\n\n"@,
            ),
            None => true,
        },
{
    lemma_story_parts_show(b);
    lemma_generation_parts(b, input, goal, retrieved, thoughts, previous);
    let sp = story_parts(b);
    let t1 = plan_user_text(b, input);
    let t3 = generation_user_text(b, goal, retrieved, thoughts, input, previous);
    assert(t1.take(sp.len() as int) =~= sp);
    assert(t3.take(sp.len() as int) =~= sp);
    lemma_starts_within(t1, sp);
    lemma_starts_within(t3, sp);
}

/// What a prefix starts with, or holds, the text does too.
proof fn lemma_starts_within(t: Seq<char>, sp: Seq<char>)
    requires
        sp.len() <= t.len(),
        t.take(sp.len() as int) == sp,
    ensures
        forall|x: Seq<char>| #[trigger] starts_with(sp, x) ==> starts_with(t, x),
        forall|x: Seq<char>| #[trigger] contains_text(sp, x) ==> contains_text(t, x),
{
    assert forall|x: Seq<char>| #[trigger] starts_with(sp, x) implies starts_with(t, x) by {
        assert(t.take(x.len() as int) =~= sp.take(x.len() as int));
    }
    assert forall|x: Seq<char>| #[trigger] contains_text(sp, x) implies contains_text(t, x) by {
        assert(t.subrange(0, sp.len() as int) =~= sp);
        crate::text::lemma_contains_within(t, 0, sp, x);
    }
}

/// Law: the writer's request shows the story goal (cut to its budget)
/// unless it is blank, and the previous draft (cut) when there is one.
#[verifier::rlimit(80)]
pub proof fn law_writer_request_shows_goal_and_draft(
    b: StoryBaseline,
    input: Seq<char>,
    goal: Seq<char>,
    retrieved: Seq<ContextItem>,
    thoughts: Seq<CharacterThought>,
    previous: Option<Seq<char>>,
)
    ensures
        !blank(goal) ==> contains_text(
            generation_user_text(b, goal, retrieved, thoughts, input, previous),
            "Story goal:\n"@ + cut(goal, MAX_RECENT_STORY_CHARS as nat) + "\n"@,
        ),
        match previous {
            Some(pd) => contains_text(
                generation_user_text(b, goal, retrieved, thoughts, input, previous),
                "Previous draft:\n"@ + cut(pd, MAX_RECENT_STORY_CHARS as nat) + "\n"@,
            ),
            None => true,
        },
{
    lemma_generation_parts(b, input, goal, retrieved, thoughts, previous);
    let head = story_parts(b) + (titled(
        "Recent story:\n"@,
        recent_story_text(first_n(views_of(b.recent_story@), MAX_RECENT_STORY_ITEMS as nat)),
        b.recent_story@.len() > 0,
    ) + titled("Retrieved context:\n"@, retrieved_text(retrieved), retrieved.len() > 0) + titled(
        "Character thoughts:\n"@,
        thoughts_text(thoughts),
        thoughts.len() > 0,
    ));
    let gl = titled("Story goal:\n"@, cut(goal, MAX_RECENT_STORY_CHARS as nat), !blank(goal));
    let pv = match previous {
        Some(p) => "Previous draft:\n"@ + cut(p, MAX_RECENT_STORY_CHARS as nat) + "\n"@,
        None => Seq::<char>::empty(),
    };
    let t3 = generation_user_text(b, goal, retrieved, thoughts, input, previous);
    assert(t3 == head + (gl + pv) + input_part("Player input:\n"@, input));
    if !blank(goal) {
        let o = head.len() as int;
        assert(t3.subrange(o, o + gl.len()) =~= gl);
        lemma_contains_at(t3, gl, o);
    }
    if let Some(pd) = previous {
        let o = (head + gl).len() as int;
        assert(t3.subrange(o, o + pv.len()) =~= pv);
        lemma_contains_at(t3, pv, o);
    }
}

/// Law: a character is told who it is: its messages open with its name and
/// end with what it is asked to answer, and show its bio (cut) unless it is
/// blank.
#[verifier::rlimit(80)]
pub proof fn law_thoughts_name_the_character(c: CharacterState)
    ensures
        starts_with(thought_system_text(c), "You are "@ + c.name@ + ", a character in an interactive fiction story."@),
        ends_with(thought_system_text(c), THOUGHT_INSTRUCTIONS@),
        !blank(c.bio@) ==> contains_text(thought_system_text(c), "\nBio: "@ + cut(c.bio@, MAX_CHARACTER_CHARS as nat)),
{
    let head = "You are "@ + c.name@ + ", a character in an interactive fiction story."@;
    let bio = if blank(c.bio@) {
        Seq::<char>::empty()
    } else {
        "\nBio: "@ + cut(c.bio@, MAX_CHARACTER_CHARS as nat)
    };
    let goals = if c.goals@.len() == 0 {
        Seq::<char>::empty()
    } else {
        "\nCurrent goals: "@ + goals_text(views_of(c.goals@))
    };
    let t = thought_system_text(c);
    assert(t == head + bio + goals + THOUGHT_INSTRUCTIONS@);
    assert(t.take(head.len() as int) =~= head);
    assert(t.skip(t.len() - THOUGHT_INSTRUCTIONS@.len()) =~= THOUGHT_INSTRUCTIONS@);
    if !blank(c.bio@) {
        let o = head.len() as int;
        assert(t.subrange(o, o + bio.len()) =~= bio);
        lemma_contains_at(t, bio, o);
    }
}


/// What each item makes occurs in the texts of all the items.
proof fn lemma_concat_map_contains<A>(items: Seq<A>, f: spec_fn(A) -> Seq<char>, i: int)
    requires
        0 <= i < items.len(),
    ensures
        contains_text(concat_map(items, f), f(items[i])),
    decreases items.len(),
{
    let t = concat_map(items, f);
    let prev = concat_map(items.drop_last(), f);
    assert(t == prev + f(items.last()));
    if i == items.len() - 1 {
        let o = prev.len() as int;
        assert(t.subrange(o, o + f(items[i]).len()) =~= f(items[i]));
        lemma_contains_at(t, f(items[i]), o);
    } else {
        assert(items.drop_last()[i] == items[i]);
        lemma_concat_map_contains(items.drop_last(), f, i);
        assert(t.subrange(0, prev.len() as int) =~= prev);
        lemma_contains_within(t, 0, prev, f(items[i]));
    }
}

/// Law: the character block lists each of its first characters, each line
/// opening with the character's name and id; the retrieved context, the
/// thoughts and the issues list each of their first items, each retrieved
/// line labelled by its source.
pub proof fn law_blocks_list_their_items(
    cs: Seq<CharacterState>,
    items: Seq<ContextItem>,
    ts: Seq<CharacterThought>,
    issues: Seq<Seq<char>>,
    i: int,
)
    requires
        0 <= i,
    ensures
        i < cs.len() && i < MAX_CHARACTER_ITEMS ==> contains_text(characters_text(cs), character_line(cs[i])),
        i < cs.len() ==> starts_with(character_line(cs[i]), "- "@ + cs[i].name@ + " (id: "@ + cs[i].id@ + ")"@),
        i < items.len() && i < MAX_RETRIEVED_ITEMS ==> contains_text(
            retrieved_text(items),
            "- ["@ + source_label_text(items[i].source) + "] "@ + cut(items[i].content@, MAX_RETRIEVED_CHARS as nat)
                + "\n"@,
        ),
        i < ts.len() && i < MAX_THOUGHT_ITEMS ==> contains_text(thoughts_text(ts), thought_line(ts[i])) && starts_with(
            thought_line(ts[i]),
            "- "@ + ts[i].character_id@ + ": perception="@ + cut(ts[i].perception@, MAX_THOUGHT_CHARS as nat),
        ),
        i < issues.len() && i < MAX_ISSUE_ITEMS ==> contains_text(
            issues_text(issues),
            "- "@ + cut(issues[i], MAX_ISSUE_CHARS as nat) + "\n"@,
        ),
{
    if i < cs.len() && i < MAX_CHARACTER_ITEMS {
        let f = |c: CharacterState| character_line(c);
        let firsts = first_n(cs, MAX_CHARACTER_ITEMS as nat);
        assert(firsts[i] == cs[i]);
        lemma_concat_map_contains(firsts, f, i);
    }
    if i < cs.len() {
        let c = cs[i];
        let head = "- "@ + c.name@ + " (id: "@ + c.id@ + ")"@;
        let l = character_line(c);
        assert(l.take(head.len() as int) =~= head);
    }
    if i < items.len() && i < MAX_RETRIEVED_ITEMS {
        let f = |it: ContextItem| retrieved_line(it);
        let firsts = first_n(items, MAX_RETRIEVED_ITEMS as nat);
        assert(firsts[i] == items[i]);
        lemma_concat_map_contains(firsts, f, i);
    }
    if i < ts.len() && i < MAX_THOUGHT_ITEMS {
        let f = |t: CharacterThought| thought_line(t);
        let firsts = first_n(ts, MAX_THOUGHT_ITEMS as nat);
        assert(firsts[i] == ts[i]);
        lemma_concat_map_contains(firsts, f, i);
        let t = ts[i];
        let head = "- "@ + t.character_id@ + ": perception="@ + cut(t.perception@, MAX_THOUGHT_CHARS as nat);
        assert(thought_line(t).take(head.len() as int) =~= head);
    }
    if i < issues.len() && i < MAX_ISSUE_ITEMS {
        let f = |x: Seq<char>| issue_line(x);
        let firsts = first_n(issues, MAX_ISSUE_ITEMS as nat);
        assert(firsts[i] == issues[i]);
        lemma_concat_map_contains(firsts, f, i);
    }
}

/// Law: the recent story lists each of its first texts, cut, under its
/// number counted from one.
pub proof fn law_recent_story_is_numbered(turns: Seq<Seq<char>>, i: int)
    requires
        0 <= i < turns.len(),
    ensures
        contains_text(
            recent_story_text(turns),
            decimal((i + 1) as nat) + ". "@ + cut(turns[i], MAX_RECENT_STORY_CHARS as nat) + "\n"@,
        ),
    decreases turns.len(),
{
    let t = recent_story_text(turns);
    let prev = recent_story_text(turns.drop_last());
    let line = decimal(turns.len()) + ". "@ + cut(turns.last(), MAX_RECENT_STORY_CHARS as nat) + "\n"@;
    assert(t == prev + line);
    if i == turns.len() - 1 {
        let o = prev.len() as int;
        assert(t.subrange(o, o + line.len()) =~= line);
        lemma_contains_at(t, line, o);
    } else {
        assert(turns.drop_last()[i] == turns[i]);
        law_recent_story_is_numbered(turns.drop_last(), i);
        assert(t.subrange(0, prev.len() as int) =~= prev);
        lemma_contains_within(
            t,
            0,
            prev,
            decimal((i + 1) as nat) + ". "@ + cut(turns[i], MAX_RECENT_STORY_CHARS as nat) + "\n"@,
        );
    }
}

} // verus!
