//! The data a turn carries through planning: baseline context, narrative
//! plan, think requests and the retrieval plan.
use crate::domain::{entities_view, topics_view, BoundedText, KnowledgeEntity, KnowledgeKind, KnowledgeSourceId, RoleId, TopicKey};
use vstd::prelude::*;

verus! {

/// Where a retrieval request came from.
#[derive(Debug, Clone, Copy, PartialEq, Eq, Structural)]
pub enum RetrievalRequestOrigin {
    Automatic,
    Narrative,
    Planner,
}

/// Who receives retrieved knowledge.
#[derive(Debug, Clone)]
pub enum KnowledgeDelivery {
    Writer,
    Character { role_id: RoleId },
}

impl View for KnowledgeDelivery {
    /// `None` for the writer, the role for a character.
    type V = Option<Seq<char>>;

    open spec fn view(&self) -> Option<Seq<char>> {
        match self {
            KnowledgeDelivery::Writer => None,
            KnowledgeDelivery::Character { role_id } => Some(role_id@),
        }
    }
}

/// A character asked to think this turn, and why.
#[derive(Debug, Clone)]
pub struct CharacterThinkRequest {
    pub role_id: RoleId,
    pub reason: BoundedText,
}

impl View for CharacterThinkRequest {
    type V = (Seq<char>, Seq<char>);

    open spec fn view(&self) -> (Seq<char>, Seq<char>) {
        (self.role_id@, self.reason@)
    }
}

/// A character whose cognition is retrieved this turn.
#[derive(Debug, Clone)]
pub struct CharacterRetrievalRequest {
    pub role_id: RoleId,
    pub reason: BoundedText,
    pub origin: RetrievalRequestOrigin,
}

impl View for CharacterRetrievalRequest {
    type V = (Seq<char>, Seq<char>, RetrievalRequestOrigin);

    open spec fn view(&self) -> (Seq<char>, Seq<char>, RetrievalRequestOrigin) {
        (self.role_id@, self.reason@, self.origin)
    }
}

/// A request for knowledge entries.
#[derive(Debug, Clone)]
pub struct KnowledgeRetrievalRequest {
    pub delivery: KnowledgeDelivery,
    pub target_source_id: Option<KnowledgeSourceId>,
    pub knowledge_kinds: Vec<KnowledgeKind>,
    pub entities: Vec<KnowledgeEntity>,
    pub topics: Vec<TopicKey>,
    pub reason: BoundedText,
    pub origin: RetrievalRequestOrigin,
    pub signal_priority: u8,
}

/// The abstract content of a knowledge retrieval request.
pub struct KnowledgeRequestView {
    pub delivery: Option<Seq<char>>,
    pub target: Option<(KnowledgeKind, Seq<char>)>,
    pub kinds: Seq<KnowledgeKind>,
    pub entities: Seq<(u32, Seq<char>)>,
    pub topics: Seq<Seq<char>>,
    pub reason: Seq<char>,
    pub origin: RetrievalRequestOrigin,
    pub priority: u8,
}

pub open spec fn opt_source_view(o: Option<KnowledgeSourceId>) -> Option<(KnowledgeKind, Seq<char>)> {
    match o {
        Some(s) => Some(s@),
        None => None,
    }
}

impl View for KnowledgeRetrievalRequest {
    type V = KnowledgeRequestView;

    open spec fn view(&self) -> KnowledgeRequestView {
        KnowledgeRequestView {
            delivery: self.delivery@,
            target: opt_source_view(self.target_source_id),
            kinds: self.knowledge_kinds@,
            entities: entities_view(self.entities@),
            topics: topics_view(self.topics@),
            reason: self.reason@,
            origin: self.origin,
            priority: self.signal_priority,
        }
    }
}

impl KnowledgeDelivery {
    pub fn duplicate(&self) -> (r: KnowledgeDelivery)
        ensures
            r@ == self@,
    {
        match self {
            KnowledgeDelivery::Writer => KnowledgeDelivery::Writer,
            KnowledgeDelivery::Character { role_id } => KnowledgeDelivery::Character { role_id: role_id.duplicate() },
        }
    }
}

pub fn copy_kinds(ks: &Vec<KnowledgeKind>) -> (r: Vec<KnowledgeKind>)
    ensures
        r@ == ks@,
{
    let mut r: Vec<KnowledgeKind> = Vec::new();
    let mut i: usize = 0;
    while i < ks.len()
        invariant
            i <= ks@.len(),
            r@ == ks@.take(i as int),
        decreases ks@.len() - i,
    {
        r.push(ks[i]);
        assert(r@ =~= ks@.take(i + 1));
        i = i + 1;
    }
    assert(ks@.take(ks@.len() as int) =~= ks@);
    r
}

pub fn copy_entities(es: &Vec<KnowledgeEntity>) -> (r: Vec<KnowledgeEntity>)
    ensures
        entities_view(r@) == entities_view(es@),
{
    let mut r: Vec<KnowledgeEntity> = Vec::new();
    let mut i: usize = 0;
    while i < es.len()
        invariant
            i <= es@.len(),
            r@.len() == i,
            forall|j: int| 0 <= j < i ==> (#[trigger] r@[j])@ == es@[j]@,
        decreases es@.len() - i,
    {
        r.push(es[i].duplicate());
        i = i + 1;
    }
    assert(entities_view(r@) =~= entities_view(es@));
    r
}

pub fn copy_topics(ts: &Vec<TopicKey>) -> (r: Vec<TopicKey>)
    ensures
        topics_view(r@) == topics_view(ts@),
{
    let mut r: Vec<TopicKey> = Vec::new();
    let mut i: usize = 0;
    while i < ts.len()
        invariant
            i <= ts@.len(),
            r@.len() == i,
            forall|j: int| 0 <= j < i ==> (#[trigger] r@[j])@ == ts@[j]@,
        decreases ts@.len() - i,
    {
        r.push(ts[i].duplicate());
        i = i + 1;
    }
    assert(topics_view(r@) =~= topics_view(ts@));
    r
}

impl KnowledgeRetrievalRequest {
    pub fn duplicate(&self) -> (r: KnowledgeRetrievalRequest)
        ensures
            r@ == self@,
    {
        let target_source_id = match &self.target_source_id {
            Some(s) => Some(s.duplicate()),
            None => None,
        };
        let r = KnowledgeRetrievalRequest {
            delivery: self.delivery.duplicate(),
            target_source_id,
            knowledge_kinds: copy_kinds(&self.knowledge_kinds),
            entities: copy_entities(&self.entities),
            topics: copy_topics(&self.topics),
            reason: self.reason.duplicate(),
            origin: self.origin,
            signal_priority: self.signal_priority,
        };
        assert(r@.entities == entities_view(r.entities@));
        assert(self@.entities == entities_view(self.entities@));
        assert(r@.topics == topics_view(r.topics@));
        assert(self@.topics == topics_view(self.topics@));
        r
    }
}

#[derive(Debug, Clone)]
pub struct RetrievalPlan {
    pub character_requests: Vec<CharacterRetrievalRequest>,
    pub knowledge_requests: Vec<KnowledgeRetrievalRequest>,
}

#[derive(Debug, Clone)]
pub struct WriterStoryGoal {
    pub summary: BoundedText,
}

/// What the writer planner decided for a turn.
#[derive(Debug, Clone)]
pub struct WriterPlan {
    pub story_goal: WriterStoryGoal,
    pub retrieval_plan: RetrievalPlan,
    pub character_think_requests: Vec<CharacterThinkRequest>,
}

/// A narrative node's push on a character.
#[derive(Debug, Clone)]
pub struct CharacterImpulse {
    pub source_node: String,
    pub target_role_id: RoleId,
    pub goal: BoundedText,
    pub reason: Option<BoundedText>,
}

/// A direction the narrative graph currently takes.
#[derive(Debug, Clone)]
pub struct NarrativeDirection {
    pub dramatic_focus: BoundedText,
}

/// Who or where a world event involves.
#[derive(Debug, Clone)]
pub enum NarrativeParticipant {
    Role(RoleId),
    Location(String),
}

impl View for NarrativeParticipant {
    /// `0` and the role id, or `1` and the location key.
    type V = (u8, Seq<char>);

    open spec fn view(&self) -> (u8, Seq<char>) {
        match self {
            NarrativeParticipant::Role(r) => (0, r@),
            NarrativeParticipant::Location(l) => (1, l@),
        }
    }
}

impl NarrativeParticipant {
    pub fn duplicate(&self) -> (r: NarrativeParticipant)
        ensures
            r@ == self@,
    {
        match self {
            NarrativeParticipant::Role(r) => NarrativeParticipant::Role(r.duplicate()),
            NarrativeParticipant::Location(l) => NarrativeParticipant::Location(l.clone()),
        }
    }
}

/// A world event the narrative intends to happen.
#[derive(Debug, Clone)]
pub struct WorldEventIntent {
    pub category: BoundedText,
    pub participants: Vec<NarrativeParticipant>,
    pub location: Option<String>,
    pub description: BoundedText,
}

/// The narrative graph's projection for a turn.
#[derive(Debug, Clone)]
pub struct NarrativePlan {
    pub active_nodes: Vec<String>,
    pub active_directions: Vec<NarrativeDirection>,
    pub world_event_intents: Vec<WorldEventIntent>,
    pub character_impulses: Vec<CharacterImpulse>,
}

impl NarrativePlan {
    /// A plan with no active node, direction, intent or impulse.
    pub fn empty() -> (r: NarrativePlan)
        ensures
            r.active_nodes@.len() == 0,
            r.active_directions@.len() == 0,
            r.world_event_intents@.len() == 0,
            r.character_impulses@.len() == 0,
    {
        NarrativePlan {
            active_nodes: Vec::new(),
            active_directions: Vec::new(),
            world_event_intents: Vec::new(),
            character_impulses: Vec::new(),
        }
    }
}

/// Who controls a role.
#[derive(Debug, Clone)]
pub enum RoleController {
    Ai,
    Player(String),
}

/// A scalar attribute value of a role.
#[derive(Debug, Clone)]
pub enum ScalarValue {
    Bool(bool),
    Integer(i64),
    Decimal(String),
    Text(String),
}

#[derive(Debug, Clone)]
pub struct CharacterProfile {
    pub name: BoundedText,
    pub appearance: Option<BoundedText>,
    pub personality: Option<BoundedText>,
    pub speaking_style: Option<BoundedText>,
}

/// A role's mutable state. Attributes are kept in increasing key order, one
/// entry per key.
#[derive(Debug, Clone)]
pub struct StoryRoleState {
    pub location: String,
    pub goals: Vec<BoundedText>,
    pub attributes: Vec<(String, ScalarValue)>,
}

/// A role as the planner sees it.
#[derive(Debug, Clone)]
pub struct RoleContextView {
    pub role_id: RoleId,
    pub role_label: BoundedText,
    pub narrative_function: BoundedText,
    pub background: Option<BoundedText>,
    pub profile: CharacterProfile,
    pub state: StoryRoleState,
    pub controller: RoleController,
}

#[derive(Debug, Clone)]
pub struct RoleIndexEntry {
    pub role_id: RoleId,
    pub retrieval_hint: BoundedText,
}

#[derive(Debug, Clone)]
pub struct KnowledgeIndexEntry {
    pub source_id: KnowledgeSourceId,
    pub retrieval_hint: BoundedText,
}

#[derive(Debug, Clone)]
pub struct WorldKnowledgeEntry {
    pub source_id: KnowledgeSourceId,
    pub content: BoundedText,
}

#[derive(Debug, Clone)]
pub struct RelevantWorldKnowledge {
    pub facts: Vec<WorldKnowledgeEntry>,
    pub rumors: Vec<WorldKnowledgeEntry>,
}

/// The story so far: a summary and the most recent story segments.
#[derive(Debug, Clone)]
pub struct StoryContinuity {
    pub summary: BoundedText,
    pub recent_segments: Vec<BoundedText>,
}

#[derive(Debug, Clone, Copy, PartialEq, Eq)]
pub enum CastPolicy {
    Open,
    IncidentalOnly,
    Closed,
}

#[derive(Debug, Clone, Copy)]
pub struct InstanceSettings {
    pub cast_policy: CastPolicy,
}

#[derive(Debug, Clone)]
pub enum StoryConstraintRequirement {
    Require { statement: BoundedText },
    Forbid { statement: BoundedText },
}

#[derive(Debug, Clone)]
pub struct StoryConstraint {
    pub id: String,
    pub requirement: StoryConstraintRequirement,
}

#[derive(Debug, Clone)]
pub struct StoryStyle {
    pub tone: Vec<BoundedText>,
    pub point_of_view: BoundedText,
    pub tense: BoundedText,
}

#[derive(Debug, Clone)]
pub struct StoryProfile {
    pub language: BoundedText,
    pub genre: Vec<BoundedText>,
    pub themes: Vec<BoundedText>,
    pub style: StoryStyle,
}

/// A knowledge entry retrieved for the turn.
#[derive(Debug, Clone)]
pub struct RetrievedKnowledgeItem {
    pub source_id: KnowledgeSourceId,
    pub content: BoundedText,
}

/// World knowledge retrieved for the turn.
#[derive(Debug, Clone)]
pub struct RetrievedWorldKnowledge {
    pub facts: Vec<RetrievedKnowledgeItem>,
    pub rumors: Vec<RetrievedKnowledgeItem>,
}

/// How the planner read a unit of the player's contribution.
#[derive(Debug, Clone, Copy, PartialEq, Eq)]
pub enum PlayerContributionKind {
    Speech,
    Action,
    PrivateState,
    RequestedOutcome,
}

#[derive(Debug, Clone)]
pub struct PlayerContributionUnit {
    pub kind: PlayerContributionKind,
    pub content: BoundedText,
}

/// The player's contribution as the planner interpreted it.
#[derive(Debug, Clone)]
pub struct InterpretedPlayerContribution {
    pub units: Vec<PlayerContributionUnit>,
}

/// The context a turn starts from.
#[derive(Debug, Clone)]
pub struct BaselineContext {
    pub story_title: BoundedText,
    pub story_profile: StoryProfile,
    pub instance_settings: InstanceSettings,
    pub player_role: RoleContextView,
    pub relevant_roles: Vec<RoleContextView>,
    pub relevant_world_knowledge: RelevantWorldKnowledge,
    pub role_index: Vec<RoleIndexEntry>,
    pub knowledge_index: Vec<KnowledgeIndexEntry>,
    pub story_continuity: StoryContinuity,
    pub active_story_constraints: Vec<StoryConstraint>,
}

/// A role of a story instance.
#[derive(Debug, Clone)]
pub struct StoryRoleView {
    pub role_id: RoleId,
    pub controller: RoleController,
}

/// What planning reads of a story snapshot: the player's role and all roles.
#[derive(Debug, Clone)]
pub struct StoryReadSnapshot {
    pub player_role_id: RoleId,
    pub roles: Vec<StoryRoleView>,
}

} // verus!
