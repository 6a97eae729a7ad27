//! The narrative's current directions and intended world events as prompts
//! show them.
use crate::domain::BoundedText;
use crate::json::{push_quoted_or_empty, quoted_or_empty};
use crate::render::{bounded_views, lemma_two_sections, optional_section, push_section};
use crate::text::{contains_text, join, join_strings, starts_with, views_of};
use crate::turn::{NarrativeParticipant, NarrativePlan, WorldEventIntent};
use vstd::prelude::*;

verus! {

#[derive(Debug, Clone)]
pub struct WorldEventIntentPromptView {
    pub category: BoundedText,
    pub participants: Vec<NarrativeParticipant>,
    pub location: Option<String>,
    pub description: BoundedText,
}

#[derive(Debug, Clone)]
pub struct NarrativeDirectionPromptView {
    pub active_directions: Vec<BoundedText>,
    pub world_event_intents: Vec<WorldEventIntentPromptView>,
}

impl NarrativeDirectionPromptView {
    pub fn is_empty(&self) -> (r: bool)
        ensures
            r == (self.active_directions@.len() == 0 && self.world_event_intents@.len() == 0),
    {
        self.active_directions.len() == 0 && self.world_event_intents.len() == 0
    }
}

pub open spec fn participant_views(ps: Seq<NarrativeParticipant>) -> Seq<(u8, Seq<char>)> {
    ps.map_values(|p: NarrativeParticipant| p@)
}

pub open spec fn opt_text(o: Option<String>) -> Option<Seq<char>> {
    match o {
        Some(s) => Some(s@),
        None => None,
    }
}

/// The intent view shows what the intent holds.
pub open spec fn intent_view_of(v: WorldEventIntentPromptView, i: WorldEventIntent) -> bool {
    &&& v.category@ == i.category@
    &&& participant_views(v.participants@) == participant_views(i.participants@)
    &&& opt_text(v.location) == opt_text(i.location)
    &&& v.description@ == i.description@
}

fn copy_participants(ps: &Vec<NarrativeParticipant>) -> (r: Vec<NarrativeParticipant>)
    ensures
        participant_views(r@) == participant_views(ps@),
{
    let mut r: Vec<NarrativeParticipant> = Vec::new();
    let mut i: usize = 0;
    while i < ps.len()
        invariant
            i <= ps@.len(),
            r@.len() == i,
            forall|j: int| 0 <= j < i ==> (#[trigger] r@[j])@ == ps@[j]@,
        decreases ps@.len() - i,
    {
        r.push(ps[i].duplicate());
        i = i + 1;
    }
    assert(participant_views(r@) =~= participant_views(ps@));
    r
}

/// The plan's directions (their dramatic focus) and world event intents.
pub fn project_narrative_direction(plan: &NarrativePlan) -> (r: NarrativeDirectionPromptView)
    ensures
        bounded_views(r.active_directions@) == plan.active_directions@.map_values(
            |d: crate::turn::NarrativeDirection| d.dramatic_focus@,
        ),
        r.world_event_intents@.map_values(|i: WorldEventIntentPromptView| intent_view(i))
            == plan.world_event_intents@.map_values(|i: WorldEventIntent| plan_intent_view(i)),
{
    let mut directions: Vec<BoundedText> = Vec::new();
    let mut i: usize = 0;
    while i < plan.active_directions.len()
        invariant
            i <= plan.active_directions@.len(),
            directions@.len() == i,
            forall|j: int| 0 <= j < i ==> (#[trigger] directions@[j])@ == plan.active_directions@[j].dramatic_focus@,
        decreases plan.active_directions@.len() - i,
    {
        directions.push(plan.active_directions[i].dramatic_focus.duplicate());
        i = i + 1;
    }
    assert(bounded_views(directions@) =~= plan.active_directions@.map_values(
        |d: crate::turn::NarrativeDirection| d.dramatic_focus@,
    ));
    let mut intents: Vec<WorldEventIntentPromptView> = Vec::new();
    let mut k: usize = 0;
    while k < plan.world_event_intents.len()
        invariant
            k <= plan.world_event_intents@.len(),
            intents@.len() == k,
            forall|j: int| 0 <= j < k ==> intent_view_of(#[trigger] intents@[j], plan.world_event_intents@[j]),
        decreases plan.world_event_intents@.len() - k,
    {
        let it = &plan.world_event_intents[k];
        let location = match &it.location {
            Some(l) => Some(l.clone()),
            None => None,
        };
        intents.push(
            WorldEventIntentPromptView {
                category: it.category.duplicate(),
                participants: copy_participants(&it.participants),
                location,
                description: it.description.duplicate(),
            },
        );
        k = k + 1;
    }
    assert(intents@.map_values(|i: WorldEventIntentPromptView| intent_view(i)) =~= plan.world_event_intents@.map_values(
        |i: WorldEventIntent| plan_intent_view(i),
    ));
    NarrativeDirectionPromptView { active_directions: directions, world_event_intents: intents }
}

/// `role:` and the role id, or `location:` and the location key.
pub open spec fn participant_reference(p: (u8, Seq<char>)) -> Seq<char> {
    if p.0 == 0 {
        "role:"@ + p.1
    } else {
        "location:"@ + p.1
    }
}

/// An intent as values: category, participants, location, description.
pub type IntentView = (Seq<char>, Seq<(u8, Seq<char>)>, Option<Seq<char>>, Seq<char>);

pub open spec fn intent_view(i: WorldEventIntentPromptView) -> IntentView {
    (i.category@, participant_views(i.participants@), opt_text(i.location), i.description@)
}

pub open spec fn plan_intent_view(i: WorldEventIntent) -> IntentView {
    (i.category@, participant_views(i.participants@), opt_text(i.location), i.description@)
}

/// The lines of an intent: its category, its participants when there are
/// any, its location when it has one, and its description.
pub open spec fn intent_lines(i: IntentView) -> Seq<Seq<char>> {
    seq!["- category: "@ + quoted_or_empty(i.0)] + (if i.1.len() > 0 {
        seq![
            "  participants: ["@ + join(
                i.1.map_values(|p: (u8, Seq<char>)| quoted_or_empty(participant_reference(p))),
                ", "@,
            ) + "]"@,
        ]
    } else {
        Seq::empty()
    }) + (match i.2 {
        Some(l) => seq!["  location: "@ + quoted_or_empty(l)],
        None => Seq::empty(),
    }) + seq!["  description: "@ + quoted_or_empty(i.3)]
}

pub open spec fn intent_text(i: IntentView) -> Seq<char> {
    join(intent_lines(i), "\n"@)
}

/// An `### Active Directions` section of bullets and a
/// `### World Event Intents` section, each only when it has items.
pub open spec fn direction_text(directions: Seq<Seq<char>>, intents: Seq<IntentView>) -> Seq<char> {
    join(
        optional_section("### Active Directions"@, directions.map_values(|d: Seq<char>| "- "@ + d)) + optional_section(
            "### World Event Intents"@,
            intents.map_values(|i: IntentView| intent_text(i)),
        ),
        "\n\n"@,
    )
}

pub open spec fn narrative_direction_text(v: NarrativeDirectionPromptView) -> Seq<char> {
    direction_text(
        bounded_views(v.active_directions@),
        v.world_event_intents@.map_values(|i: WorldEventIntentPromptView| intent_view(i)),
    )
}

fn participant_reference_of(p: &NarrativeParticipant) -> (r: String)
    ensures
        r@ == participant_reference(p@),
{
    let mut r = String::new();
    match p {
        NarrativeParticipant::Role(id) => {
            r.append("role:");
            r.append(id.as_str());
        },
        NarrativeParticipant::Location(key) => {
            r.append("location:");
            r.append(key.as_str());
        },
    }
    assert(r@ =~= participant_reference(p@));
    r
}

fn render_world_event_intent(intent: &WorldEventIntentPromptView) -> (r: String)
    ensures
        r@ == intent_text(intent_view(*intent)),
{
    let mut lines: Vec<String> = Vec::new();
    let mut first = String::new();
    first.append("- category: ");
    push_quoted_or_empty(&mut first, intent.category.as_str());
    lines.push(first);
    let ghost head = views_of(lines@);
    if intent.participants.len() > 0 {
        let mut refs: Vec<String> = Vec::new();
        let mut i: usize = 0;
        while i < intent.participants.len()
            invariant
                i <= intent.participants@.len(),
                refs@.len() == i,
                forall|j: int|
                    0 <= j < i ==> (#[trigger] refs@[j])@ == quoted_or_empty(
                        participant_reference(intent.participants@[j]@),
                    ),
            decreases intent.participants@.len() - i,
        {
            let reference = participant_reference_of(&intent.participants[i]);
            let mut q = String::new();
            push_quoted_or_empty(&mut q, reference.as_str());
            refs.push(q);
            i = i + 1;
        }
        assert(views_of(refs@) =~= participant_views(intent.participants@).map_values(
            |p: (u8, Seq<char>)| quoted_or_empty(participant_reference(p)),
        ));
        let mut l = String::new();
        l.append("  participants: [");
        let joined = join_strings(&refs, ", ");
        l.append(joined.as_str());
        l.append("]");
        lines.push(l);
    }
    let ghost with_participants = views_of(lines@);
    match &intent.location {
        Some(loc) => {
            let mut l = String::new();
            l.append("  location: ");
            push_quoted_or_empty(&mut l, loc.as_str());
            lines.push(l);
        },
        None => {},
    }
    let ghost with_location = views_of(lines@);
    assert(with_location =~= with_participants + (match opt_text(intent.location) {
        Some(l) => seq!["  location: "@ + quoted_or_empty(l)],
        None => Seq::empty(),
    }));
    let mut last = String::new();
    last.append("  description: ");
    push_quoted_or_empty(&mut last, intent.description.as_str());
    lines.push(last);
    assert(views_of(lines@) =~= intent_lines(intent_view(*intent)));
    join_strings(&lines, "\n")
}

pub fn render_narrative_direction(view: &NarrativeDirectionPromptView) -> (r: String)
    ensures
        r@ == narrative_direction_text(*view),
{
    let mut sections: Vec<String> = Vec::new();
    let mut items: Vec<String> = Vec::new();
    let mut i: usize = 0;
    while i < view.active_directions.len()
        invariant
            i <= view.active_directions@.len(),
            items@.len() == i,
            forall|j: int| 0 <= j < i ==> (#[trigger] items@[j])@ == "- "@ + view.active_directions@[j]@,
        decreases view.active_directions@.len() - i,
    {
        let mut l = String::new();
        l.append("- ");
        l.append(view.active_directions[i].as_str());
        items.push(l);
        i = i + 1;
    }
    assert(views_of(items@) =~= bounded_views(view.active_directions@).map_values(|d: Seq<char>| "- "@ + d));
    push_section(&mut sections, "### Active Directions", &items);
    let mut intents: Vec<String> = Vec::new();
    let mut k: usize = 0;
    while k < view.world_event_intents.len()
        invariant
            k <= view.world_event_intents@.len(),
            intents@.len() == k,
            forall|j: int| 0 <= j < k ==> (#[trigger] intents@[j])@ == intent_text(
                intent_view(view.world_event_intents@[j]),
            ),
        decreases view.world_event_intents@.len() - k,
    {
        intents.push(render_world_event_intent(&view.world_event_intents[k]));
        k = k + 1;
    }
    assert(views_of(intents@) =~= view.world_event_intents@.map_values(
        |i: WorldEventIntentPromptView| intent_view(i),
    ).map_values(|i: IntentView| intent_text(i)));
    push_section(&mut sections, "### World Event Intents", &intents);
    join_strings(&sections, "\n\n")
}


/// Law: the narrative direction shows every active direction as a bullet
/// and every world event intent; the directions, when there are any, open
/// it under their heading.
pub proof fn law_direction_shows_directions_and_intents(directions: Seq<Seq<char>>, intents: Seq<IntentView>)
    ensures
        forall|i: int| 0 <= i < directions.len() ==> contains_text(direction_text(directions, intents), "- "@ + #[trigger] directions[i]),
        forall|i: int| 0 <= i < intents.len() ==> contains_text(direction_text(directions, intents), intent_text(#[trigger] intents[i])),
        directions.len() > 0 ==> starts_with(direction_text(directions, intents), "### Active Directions"@ + "\n\n"@),
        directions.len() == 0 && intents.len() == 0 ==> direction_text(directions, intents).len() == 0,
{
    let a = directions.map_values(|d: Seq<char>| "- "@ + d);
    let b = intents.map_values(|i: IntentView| intent_text(i));
    lemma_two_sections("### Active Directions"@, a, "### World Event Intents"@, b);
    assert forall|i: int| 0 <= i < directions.len() implies contains_text(
        direction_text(directions, intents),
        "- "@ + #[trigger] directions[i],
    ) by {
        assert(a[i] == "- "@ + directions[i]);
    }
    assert forall|i: int| 0 <= i < intents.len() implies contains_text(
        direction_text(directions, intents),
        intent_text(#[trigger] intents[i]),
    ) by {
        assert(b[i] == intent_text(intents[i]));
    }
}

} // verus!
