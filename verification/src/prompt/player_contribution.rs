//! The planner's reading of the player's contribution as prompts show it.
use crate::json::{push_quoted, quoted};
use crate::text::{contains_text, join, join_strings, lemma_join_contains, views_of};
use crate::turn::{InterpretedPlayerContribution, PlayerContributionKind, PlayerContributionUnit};
use vstd::prelude::*;

verus! {

pub open spec fn contribution_kind_name(k: PlayerContributionKind) -> Seq<char> {
    match k {
        PlayerContributionKind::Speech => "speech"@,
        PlayerContributionKind::Action => "action"@,
        PlayerContributionKind::PrivateState => "private_state"@,
        PlayerContributionKind::RequestedOutcome => "requested_outcome"@,
    }
}

pub open spec fn unit_text(u: PlayerContributionUnit) -> Seq<char> {
    "- kind: "@ + contribution_kind_name(u.kind) + "\n  content: "@ + quoted(u.content@)
}

/// Each unit as its kind and quoted content, one unit after the other.
pub open spec fn player_contribution_text(v: InterpretedPlayerContribution) -> Seq<char> {
    join(v.units@.map_values(|u: PlayerContributionUnit| unit_text(u)), "\n"@)
}

fn kind_name(k: PlayerContributionKind) -> (r: &'static str)
    ensures
        r@ == contribution_kind_name(k),
{
    match k {
        PlayerContributionKind::Speech => "speech",
        PlayerContributionKind::Action => "action",
        PlayerContributionKind::PrivateState => "private_state",
        PlayerContributionKind::RequestedOutcome => "requested_outcome",
    }
}

pub fn render_interpreted_player_contribution(value: &InterpretedPlayerContribution) -> (r: String)
    ensures
        r@ == player_contribution_text(*value),
{
    let mut parts: Vec<String> = Vec::new();
    let mut i: usize = 0;
    while i < value.units.len()
        invariant
            i <= value.units@.len(),
            parts@.len() == i,
            forall|j: int| 0 <= j < i ==> (#[trigger] parts@[j])@ == unit_text(value.units@[j]),
        decreases value.units@.len() - i,
    {
        let u = &value.units[i];
        let mut l = String::new();
        l.append("- kind: ");
        l.append(kind_name(u.kind));
        l.append("\n  content: ");
        push_quoted(&mut l, u.content.as_str());
        assert(l@ =~= unit_text(*u));
        parts.push(l);
        i = i + 1;
    }
    assert(views_of(parts@) =~= value.units@.map_values(|u: PlayerContributionUnit| unit_text(u)));
    join_strings(&parts, "\n")
}


/// Law: each kind of player contribution is rendered under its own name: the names are these, and two different values never share one.
pub proof fn law_contribution_kind_names_are_distinct(a: PlayerContributionKind, b: PlayerContributionKind)
    ensures
        contribution_kind_name(PlayerContributionKind::Speech) == "speech"@,
        contribution_kind_name(PlayerContributionKind::Action) == "action"@,
        contribution_kind_name(PlayerContributionKind::PrivateState) == "private_state"@,
        contribution_kind_name(PlayerContributionKind::RequestedOutcome) == "requested_outcome"@,
        a != b ==> contribution_kind_name(a) != contribution_kind_name(b),
{
    reveal_strlit("speech");
    reveal_strlit("action");
    reveal_strlit("private_state");
    reveal_strlit("requested_outcome");
    if a != b && contribution_kind_name(a) == contribution_kind_name(b) {
        assert(contribution_kind_name(a).len() == contribution_kind_name(b).len());
        assert(contribution_kind_name(a)[0] == contribution_kind_name(b)[0]);
        assert(contribution_kind_name(a)[1] == contribution_kind_name(b)[1]);
    }
}


/// Law: the player's contribution shows every unit, in its own line pair:
/// the unit's kind by name and its content as a JSON literal.
pub proof fn law_contribution_shows_every_unit(v: InterpretedPlayerContribution, i: int)
    requires
        0 <= i < v.units@.len(),
    ensures
        contains_text(
            player_contribution_text(v),
            "- kind: "@ + contribution_kind_name(v.units@[i].kind) + "\n  content: "@ + quoted(v.units@[i].content@),
        ),
{
    let parts = v.units@.map_values(|u: PlayerContributionUnit| unit_text(u));
    assert(parts[i] == unit_text(v.units@[i]));
    lemma_join_contains(parts, "\n"@, i);
}

} // verus!
