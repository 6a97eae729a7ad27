//! Identifiers and shapes of prompt assets and rendered prompts.
use vstd::prelude::*;

verus! {

/// The identifier of a prompt slot.
#[derive(Debug, Clone, PartialEq, Eq, Hash)]
pub struct SlotId {
    pub id: String,
}

impl View for SlotId {
    type V = Seq<char>;

    open spec fn view(&self) -> Seq<char> {
        self.id@
    }
}

impl SlotId {
    pub fn new(value: String) -> (r: SlotId)
        ensures
            r@ == value@,
    {
        SlotId { id: value }
    }

    pub fn as_str(&self) -> (r: &str)
        ensures
            r@ == self@,
    {
        self.id.as_str()
    }
}

pub open spec fn slot_id_views(ids: Seq<SlotId>) -> Seq<Seq<char>> {
    ids.map_values(|i: SlotId| i@)
}

/// The identifier of a prompt asset.
#[derive(Debug, Clone, PartialEq, Eq, Hash)]
pub struct AssetRef {
    pub id: String,
}

impl View for AssetRef {
    type V = Seq<char>;

    open spec fn view(&self) -> Seq<char> {
        self.id@
    }
}

impl AssetRef {
    pub fn new(value: String) -> (r: AssetRef)
        ensures
            r@ == value@,
    {
        AssetRef { id: value }
    }

    pub fn as_str(&self) -> (r: &str)
        ensures
            r@ == self@,
    {
        self.id.as_str()
    }
}

#[derive(Debug, Clone, Copy, PartialEq, Eq, Hash, Structural)]
pub enum PromptKind {
    Text,
    Messages,
    Fragment,
    FewShot,
}

pub open spec fn prompt_kind_name(k: PromptKind) -> Seq<char> {
    match k {
        PromptKind::Text => "text"@,
        PromptKind::Messages => "messages"@,
        PromptKind::Fragment => "fragment"@,
        PromptKind::FewShot => "few_shot"@,
    }
}

impl PromptKind {
    /// The kind's name, as it is written.
    pub fn name(&self) -> (r: &'static str)
        ensures
            r@ == prompt_kind_name(*self),
    {
        match self {
            PromptKind::Text => "text",
            PromptKind::Messages => "messages",
            PromptKind::Fragment => "fragment",
            PromptKind::FewShot => "few_shot",
        }
    }
}

#[derive(Debug, Clone, Copy, PartialEq, Eq, Structural)]
pub enum AssetStatus {
    Active,
    Deprecated,
    Archived,
    Candidate,
}

pub open spec fn asset_status_name(s: AssetStatus) -> Seq<char> {
    match s {
        AssetStatus::Active => "active"@,
        AssetStatus::Deprecated => "deprecated"@,
        AssetStatus::Archived => "archived"@,
        AssetStatus::Candidate => "candidate"@,
    }
}

impl AssetStatus {
    /// The status's name, as it is written.
    pub fn name(&self) -> (r: &'static str)
        ensures
            r@ == asset_status_name(*self),
    {
        match self {
            AssetStatus::Active => "active",
            AssetStatus::Deprecated => "deprecated",
            AssetStatus::Archived => "archived",
            AssetStatus::Candidate => "candidate",
        }
    }
}

#[derive(Debug, Clone, Copy, PartialEq, Eq, Structural)]
pub enum PromptRole {
    System,
    User,
    Assistant,
    Tool,
}

#[derive(Debug, Clone)]
pub struct PromptMessage {
    pub role: PromptRole,
    pub content: String,
}

/// A rendered prompt: one text, or a list of messages.
#[derive(Debug, Clone)]
pub enum RenderedPrompt {
    Text(String),
    Messages(Vec<PromptMessage>),
}

impl RenderedPrompt {
    pub fn as_text(&self) -> (r: Option<&str>)
        ensures
            match self {
                RenderedPrompt::Text(s) => r matches Some(t) && t@ == s@,
                RenderedPrompt::Messages(_) => r is None,
            },
    {
        match self {
            RenderedPrompt::Text(s) => Some(s.as_str()),
            RenderedPrompt::Messages(_) => None,
        }
    }

    pub fn as_messages(&self) -> (r: Option<&Vec<PromptMessage>>)
        ensures
            match self {
                RenderedPrompt::Messages(m) => r == Some(m),
                RenderedPrompt::Text(_) => r is None,
            },
    {
        match self {
            RenderedPrompt::Messages(m) => Some(m),
            RenderedPrompt::Text(_) => None,
        }
    }
}

#[derive(Debug, Clone)]
pub struct PromptLineageNode {
    pub slot: SlotId,
    pub asset_id: AssetRef,
    pub hash: Option<String>,
}


/// Law: each prompt kind is written under its own name: the names are these, and two different values never share one.
pub proof fn law_prompt_kind_names_are_distinct(a: PromptKind, b: PromptKind)
    ensures
        prompt_kind_name(PromptKind::Text) == "text"@,
        prompt_kind_name(PromptKind::Messages) == "messages"@,
        prompt_kind_name(PromptKind::Fragment) == "fragment"@,
        prompt_kind_name(PromptKind::FewShot) == "few_shot"@,
        a != b ==> prompt_kind_name(a) != prompt_kind_name(b),
{
    reveal_strlit("text");
    reveal_strlit("messages");
    reveal_strlit("fragment");
    reveal_strlit("few_shot");
    if a != b && prompt_kind_name(a) == prompt_kind_name(b) {
        assert(prompt_kind_name(a).len() == prompt_kind_name(b).len());
        assert(prompt_kind_name(a)[0] == prompt_kind_name(b)[0]);
        assert(prompt_kind_name(a)[1] == prompt_kind_name(b)[1]);
    }
}


/// Law: each asset status is written under its own name: the names are these, and two different values never share one.
pub proof fn law_asset_status_names_are_distinct(a: AssetStatus, b: AssetStatus)
    ensures
        asset_status_name(AssetStatus::Active) == "active"@,
        asset_status_name(AssetStatus::Deprecated) == "deprecated"@,
        asset_status_name(AssetStatus::Archived) == "archived"@,
        asset_status_name(AssetStatus::Candidate) == "candidate"@,
        a != b ==> asset_status_name(a) != asset_status_name(b),
{
    reveal_strlit("active");
    reveal_strlit("deprecated");
    reveal_strlit("archived");
    reveal_strlit("candidate");
    if a != b && asset_status_name(a) == asset_status_name(b) {
        assert(asset_status_name(a).len() == asset_status_name(b).len());
        assert(asset_status_name(a)[0] == asset_status_name(b)[0]);
        assert(asset_status_name(a)[1] == asset_status_name(b)[1]);
    }
}

} // verus!
