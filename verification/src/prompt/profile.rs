//! Prompt profiles, the slots each profile renders its layers from, and the
//! trusted and untrusted texts a prompt is made of.
use crate::prompt::error::PromptError;
use crate::prompt::model::SlotId;
use crate::text::{owned, text_eq};
use vstd::prelude::*;

verus! {

#[derive(Debug, Clone, Copy, PartialEq, Eq, Hash, PartialOrd, Ord, Structural)]
pub enum PromptProfile {
    WriterPlanner,
    CharacterThink,
    StoryGenerator,
    StoryRepairer,
}

pub open spec fn profile_name(p: PromptProfile) -> Seq<char> {
    match p {
        PromptProfile::WriterPlanner => "writer_planner"@,
        PromptProfile::CharacterThink => "character_think"@,
        PromptProfile::StoryGenerator => "story_generator"@,
        PromptProfile::StoryRepairer => "story_repairer"@,
    }
}

impl PromptProfile {
    pub fn as_str(&self) -> (r: &'static str)
        ensures
            r@ == profile_name(*self),
    {
        match self {
            PromptProfile::WriterPlanner => "writer_planner",
            PromptProfile::CharacterThink => "character_think",
            PromptProfile::StoryGenerator => "story_generator",
            PromptProfile::StoryRepairer => "story_repairer",
        }
    }
}

/// The slots of a profile's three layers: core system instruction, runtime
/// context and final task instruction.
#[derive(Debug, Clone)]
pub struct PromptProfileAssets {
    pub csi_slot: SlotId,
    pub rc_slot: SlotId,
    pub fti_slot: SlotId,
}

impl View for PromptProfileAssets {
    type V = (Seq<char>, Seq<char>, Seq<char>);

    open spec fn view(&self) -> (Seq<char>, Seq<char>, Seq<char>) {
        (self.csi_slot@, self.rc_slot@, self.fti_slot@)
    }
}

impl PromptProfileAssets {
    pub fn duplicate(&self) -> (r: PromptProfileAssets)
        ensures
            r@ == self@,
    {
        PromptProfileAssets {
            csi_slot: SlotId::new(owned(self.csi_slot.as_str())),
            rc_slot: SlotId::new(owned(self.rc_slot.as_str())),
            fti_slot: SlotId::new(owned(self.fti_slot.as_str())),
        }
    }
}

/// The registered profiles, each once.
#[derive(Debug)]
pub struct PromptProfileRegistry {
    entries: Vec<(PromptProfile, PromptProfileAssets)>,
}

pub open spec fn entries_map(es: Seq<(PromptProfile, PromptProfileAssets)>) -> Map<
    PromptProfile,
    (Seq<char>, Seq<char>, Seq<char>),
>
    decreases es.len(),
{
    if es.len() == 0 {
        Map::empty()
    } else {
        entries_map(es.drop_last()).insert(es.last().0, es.last().1@)
    }
}

/// The slot a registration would use twice, if any: the core instruction's
/// when another layer shares it, else the runtime context's when the final
/// instruction shares it.
pub open spec fn reused_slot(a: (Seq<char>, Seq<char>, Seq<char>)) -> Option<Seq<char>> {
    if a.0 == a.1 || a.0 == a.2 {
        Some(a.0)
    } else if a.1 == a.2 {
        Some(a.1)
    } else {
        None
    }
}

impl View for PromptProfileRegistry {
    type V = Map<PromptProfile, (Seq<char>, Seq<char>, Seq<char>)>;

    closed spec fn view(&self) -> Map<PromptProfile, (Seq<char>, Seq<char>, Seq<char>)> {
        entries_map(self.entries@)
    }
}

impl PromptProfileRegistry {
    pub fn new() -> (r: PromptProfileRegistry)
        ensures
            r@ == Map::<PromptProfile, (Seq<char>, Seq<char>, Seq<char>)>::empty(),
    {
        let r = PromptProfileRegistry { entries: Vec::new() };
        assert(r@ =~= Map::<PromptProfile, (Seq<char>, Seq<char>, Seq<char>)>::empty());
        r
    }

    fn position(&self, profile: PromptProfile) -> (r: Option<usize>)
        ensures
            match r {
                Some(i) => i < self.entries@.len() && self@.contains_key(profile) && self@[profile]
                    == self.entries@[i as int].1@,
                None => !self@.contains_key(profile),
            },
    {
        let mut i: usize = self.entries.len();
        assert(self.entries@.take(self.entries@.len() as int) =~= self.entries@);
        while i > 0
            invariant
                i <= self.entries@.len(),
                self@.contains_key(profile) == entries_map(self.entries@.take(i as int)).contains_key(profile),
                self@.contains_key(profile) ==> self@[profile] == entries_map(self.entries@.take(i as int))[profile],
            decreases i,
        {
            let ghost before = self.entries@.take(i as int);
            assert(before.drop_last() =~= self.entries@.take(i - 1));
            assert(before.last() == self.entries@[i - 1]);
            if self.entries[i - 1].0 == profile {
                return Some(i - 1);
            }
            i = i - 1;
        }
        assert(self.entries@.take(0) =~= Seq::<(PromptProfile, PromptProfileAssets)>::empty());
        None
    }

    /// Registers the slots of a profile. Refused when the profile is already
    /// registered, or when two of its layers share a slot.
    pub fn register(&mut self, profile: PromptProfile, assets: PromptProfileAssets) -> (r: Result<(), PromptError>)
        ensures
            old(self)@.contains_key(profile) ==> (r matches Err(PromptError::DuplicateProfileRegistration(n))
                && n@ == profile_name(profile)) && final(self)@ == old(self)@,
            !old(self)@.contains_key(profile) && reused_slot(assets@) is Some ==> (r matches Err(
                PromptError::DuplicateLayerSlot { profile: n, slot: s },
            ) && n@ == profile_name(profile) && s@ == reused_slot(assets@)->0) && final(self)@ == old(self)@,
            !old(self)@.contains_key(profile) && reused_slot(assets@) is None ==> r is Ok && final(self)@ == old(
                self,
            )@.insert(profile, assets@),
    {
        if self.position(profile).is_some() {
            return Err(PromptError::DuplicateProfileRegistration(owned(profile.as_str())));
        }
        let csi = assets.csi_slot.as_str();
        let rc = assets.rc_slot.as_str();
        let fti = assets.fti_slot.as_str();
        if text_eq(csi, rc) || text_eq(csi, fti) {
            return Err(
                PromptError::DuplicateLayerSlot { profile: owned(profile.as_str()), slot: owned(csi) },
            );
        }
        if text_eq(rc, fti) {
            return Err(
                PromptError::DuplicateLayerSlot { profile: owned(profile.as_str()), slot: owned(rc) },
            );
        }
        let ghost before = self.entries@;
        self.entries.push((profile, assets));
        assert(self.entries@.drop_last() =~= before);
        Ok(())
    }

    /// The slots of a registered profile.
    pub fn assets_for(&self, profile: PromptProfile) -> (r: Result<&PromptProfileAssets, PromptError>)
        ensures
            self@.contains_key(profile) ==> (r matches Ok(a) && a@ == self@[profile]),
            !self@.contains_key(profile) ==> (r matches Err(PromptError::ProfileNotRegistered(n)) && n@
                == profile_name(profile)),
    {
        match self.position(profile) {
            Some(i) => Ok(&self.entries[i].1),
            None => Err(PromptError::ProfileNotRegistered(owned(profile.as_str()))),
        }
    }
}

/// A registered profile's slots are what it was registered with, and a
/// profile registers once: registering it again changes nothing.
pub proof fn law_registered_slots_are_read_back(
    before: Map<PromptProfile, (Seq<char>, Seq<char>, Seq<char>)>,
    profile: PromptProfile,
    assets: (Seq<char>, Seq<char>, Seq<char>),
    other: (Seq<char>, Seq<char>, Seq<char>),
)
    requires
        !before.contains_key(profile),
        reused_slot(assets) is None,
    ensures
        before.insert(profile, assets).contains_key(profile),
        before.insert(profile, assets)[profile] == assets,
        forall|q: PromptProfile| q != profile ==> #[trigger] before.insert(profile, assets).contains_key(q)
            == before.contains_key(q),
{
}

/// A system prompt from a trusted source.
#[derive(Debug, Clone)]
pub struct TrustedSystemPrompt(pub String);

impl TrustedSystemPrompt {
    pub fn try_new(value: String) -> (r: Result<TrustedSystemPrompt, PromptError>)
        ensures
            r matches Ok(p) && p.0@ == value@,
    {
        Ok(TrustedSystemPrompt(value))
    }

    pub fn as_str(&self) -> (r: &str)
        ensures
            r@ == self.0@,
    {
        self.0.as_str()
    }
}

/// A context message whose content is not trusted.
#[derive(Debug, Clone)]
pub struct UntrustedContextMessage(pub String);

impl UntrustedContextMessage {
    pub fn new(value: String) -> (r: UntrustedContextMessage)
        ensures
            r.0@ == value@,
    {
        UntrustedContextMessage(value)
    }

    pub fn as_str(&self) -> (r: &str)
        ensures
            r@ == self.0@,
    {
        self.0.as_str()
    }
}


/// Law: each prompt profile is reported under its own name: the names are these, and two different values never share one.
pub proof fn law_profile_names_are_distinct(a: PromptProfile, b: PromptProfile)
    ensures
        profile_name(PromptProfile::WriterPlanner) == "writer_planner"@,
        profile_name(PromptProfile::CharacterThink) == "character_think"@,
        profile_name(PromptProfile::StoryGenerator) == "story_generator"@,
        profile_name(PromptProfile::StoryRepairer) == "story_repairer"@,
        a != b ==> profile_name(a) != profile_name(b),
{
    reveal_strlit("writer_planner");
    reveal_strlit("character_think");
    reveal_strlit("story_generator");
    reveal_strlit("story_repairer");
    if a != b && profile_name(a) == profile_name(b) {
        assert(profile_name(a).len() == profile_name(b).len());
        assert(profile_name(a)[0] == profile_name(b)[0]);
        assert(profile_name(a)[1] == profile_name(b)[1]);
    }
}

} // verus!
