//! The domain values that planning and prompt rendering work on: identifiers,
//! bounded texts, knowledge references, role views and the baseline context
//! of a turn.

use crate::text::{blank, byte_len, is_blank};
use vstd::prelude::*;

verus! {

/// Why a domain value was refused.
#[derive(Debug, Clone, Copy, PartialEq, Eq)]
pub enum DomainError {
    TextTooLong,
    InvalidIdentifier,
}

/// A text whose UTF-8 encoding fits a byte budget.
#[derive(Debug, Clone, PartialEq, Eq)]
pub struct BoundedText {
    pub(crate) text: String,
}

impl View for BoundedText {
    type V = Seq<char>;

    closed spec fn view(&self) -> Seq<char> {
        self.text@
    }
}

impl BoundedText {
    /// Accepts `value` when its UTF-8 encoding takes at most `max_bytes` bytes.
    pub fn try_new(value: String, field: &str, max_bytes: usize) -> (r: Result<BoundedText, DomainError>)
        ensures
            r matches Ok(t) ==> t@ == value@,
            r is Ok <==> byte_len(value@) <= max_bytes,
            r is Err ==> r == Err::<BoundedText, DomainError>(DomainError::TextTooLong),
    {
        if value.as_str().len() <= max_bytes {
            Ok(BoundedText { text: value })
        } else {
            Err(DomainError::TextTooLong)
        }
    }

    pub fn as_str(&self) -> (r: &str)
        ensures
            r@ == self@,
    {
        self.text.as_str()
    }

    pub fn duplicate(&self) -> (r: BoundedText)
        ensures
            r@ == self@,
    {
        BoundedText { text: self.text.clone() }
    }
}

/// A role identifier: a text that is not blank.
#[derive(Debug, Clone, PartialEq, Eq)]
pub struct RoleId {
    pub(crate) id: String,
}

impl View for RoleId {
    type V = Seq<char>;

    closed spec fn view(&self) -> Seq<char> {
        self.id@
    }
}

pub open spec fn valid_role_id(s: Seq<char>) -> bool {
    !blank(s)
}

impl RoleId {
    pub fn try_new(value: String) -> (r: Result<RoleId, DomainError>)
        ensures
            r matches Ok(id) ==> id@ == value@,
            r is Ok <==> valid_role_id(value@),
            r is Err ==> r == Err::<RoleId, DomainError>(DomainError::InvalidIdentifier),
    {
        if is_blank(value.as_str()) {
            Err(DomainError::InvalidIdentifier)
        } else {
            Ok(RoleId { id: value })
        }
    }

    pub fn as_str(&self) -> (r: &str)
        ensures
            r@ == self@,
    {
        self.id.as_str()
    }

    pub fn duplicate(&self) -> (r: RoleId)
        ensures
            r@ == self@,
    {
        RoleId { id: self.id.clone() }
    }
}

/// The three kinds of knowledge, in their canonical order.
#[derive(Debug, Clone, Copy, PartialEq, Eq, Structural)]
pub enum KnowledgeKind {
    Fact,
    Rumor,
    Memory,
}

pub open spec fn kind_tag(k: KnowledgeKind) -> u32 {
    match k {
        KnowledgeKind::Fact => 0,
        KnowledgeKind::Rumor => 1,
        KnowledgeKind::Memory => 2,
    }
}

pub fn kind_tag_of(k: KnowledgeKind) -> (r: u32)
    ensures
        r == kind_tag(k),
{
    match k {
        KnowledgeKind::Fact => 0,
        KnowledgeKind::Rumor => 1,
        KnowledgeKind::Memory => 2,
    }
}

/// The identifier of a knowledge entry: its kind and its key text
/// (`fact_0001`, `rumor_0001`, `memory_0001`).
#[derive(Debug, Clone, PartialEq, Eq)]
pub enum KnowledgeSourceId {
    Fact(String),
    Rumor(String),
    Memory(String),
}

impl View for KnowledgeSourceId {
    type V = (KnowledgeKind, Seq<char>);

    open spec fn view(&self) -> (KnowledgeKind, Seq<char>) {
        match self {
            KnowledgeSourceId::Fact(s) => (KnowledgeKind::Fact, s@),
            KnowledgeSourceId::Rumor(s) => (KnowledgeKind::Rumor, s@),
            KnowledgeSourceId::Memory(s) => (KnowledgeKind::Memory, s@),
        }
    }
}

impl KnowledgeSourceId {
    pub fn kind(&self) -> (r: KnowledgeKind)
        ensures
            r == self@.0,
    {
        match self {
            KnowledgeSourceId::Fact(_) => KnowledgeKind::Fact,
            KnowledgeSourceId::Rumor(_) => KnowledgeKind::Rumor,
            KnowledgeSourceId::Memory(_) => KnowledgeKind::Memory,
        }
    }

    pub fn as_str(&self) -> (r: &str)
        ensures
            r@ == self@.1,
    {
        match self {
            KnowledgeSourceId::Fact(s) => s.as_str(),
            KnowledgeSourceId::Rumor(s) => s.as_str(),
            KnowledgeSourceId::Memory(s) => s.as_str(),
        }
    }

    pub fn duplicate(&self) -> (r: KnowledgeSourceId)
        ensures
            r@ == self@,
    {
        match self {
            KnowledgeSourceId::Fact(s) => KnowledgeSourceId::Fact(s.clone()),
            KnowledgeSourceId::Rumor(s) => KnowledgeSourceId::Rumor(s.clone()),
            KnowledgeSourceId::Memory(s) => KnowledgeSourceId::Memory(s.clone()),
        }
    }
}

/// What a knowledge entry is about.
#[derive(Debug, Clone, PartialEq, Eq)]
pub enum KnowledgeEntity {
    World(String),
    Role(RoleId),
    Location(String),
    Scene(String),
    NarrativeNode(String),
    Event(String),
}

impl View for KnowledgeEntity {
    /// The variant's index and its key text.
    type V = (u32, Seq<char>);

    open spec fn view(&self) -> (u32, Seq<char>) {
        match self {
            KnowledgeEntity::World(s) => (0, s@),
            KnowledgeEntity::Role(r) => (1, r@),
            KnowledgeEntity::Location(s) => (2, s@),
            KnowledgeEntity::Scene(s) => (3, s@),
            KnowledgeEntity::NarrativeNode(s) => (4, s@),
            KnowledgeEntity::Event(s) => (5, s@),
        }
    }
}

impl KnowledgeEntity {
    pub fn duplicate(&self) -> (r: KnowledgeEntity)
        ensures
            r@ == self@,
    {
        match self {
            KnowledgeEntity::World(s) => KnowledgeEntity::World(s.clone()),
            KnowledgeEntity::Role(r) => KnowledgeEntity::Role(r.duplicate()),
            KnowledgeEntity::Location(s) => KnowledgeEntity::Location(s.clone()),
            KnowledgeEntity::Scene(s) => KnowledgeEntity::Scene(s.clone()),
            KnowledgeEntity::NarrativeNode(s) => KnowledgeEntity::NarrativeNode(s.clone()),
            KnowledgeEntity::Event(s) => KnowledgeEntity::Event(s.clone()),
        }
    }

    pub fn key_text(&self) -> (r: &str)
        ensures
            r@ == self@.1,
    {
        match self {
            KnowledgeEntity::World(s) => s.as_str(),
            KnowledgeEntity::Role(r) => r.as_str(),
            KnowledgeEntity::Location(s) => s.as_str(),
            KnowledgeEntity::Scene(s) => s.as_str(),
            KnowledgeEntity::NarrativeNode(s) => s.as_str(),
            KnowledgeEntity::Event(s) => s.as_str(),
        }
    }

    pub fn tag(&self) -> (r: u32)
        ensures
            r == self@.0,
    {
        match self {
            KnowledgeEntity::World(_) => 0,
            KnowledgeEntity::Role(_) => 1,
            KnowledgeEntity::Location(_) => 2,
            KnowledgeEntity::Scene(_) => 3,
            KnowledgeEntity::NarrativeNode(_) => 4,
            KnowledgeEntity::Event(_) => 5,
        }
    }
}

/// A topic key.
#[derive(Debug, Clone, PartialEq, Eq)]
pub struct TopicKey {
    pub(crate) key: String,
}

impl View for TopicKey {
    type V = Seq<char>;

    closed spec fn view(&self) -> Seq<char> {
        self.key@
    }
}

impl TopicKey {
    pub fn new(value: String) -> (r: TopicKey)
        ensures
            r@ == value@,
    {
        TopicKey { key: value }
    }

    pub fn as_str(&self) -> (r: &str)
        ensures
            r@ == self@,
    {
        self.key.as_str()
    }

    pub fn duplicate(&self) -> (r: TopicKey)
        ensures
            r@ == self@,
    {
        TopicKey { key: self.key.clone() }
    }
}

// ---------------------------------------------------------------------------
// Canonical encodings (see `crate::order`)

/// A text: each char shifted by one, then `0`.
pub open spec fn enc_text(s: Seq<char>) -> Seq<u32> {
    Seq::new(s.len(), |i: int| (s[i] as u32 + 1) as u32).push(0u32)
}

proof fn lemma_char_code_bound(c: char)
    ensures
        (c as u32) < 0x110000,
{
}

proof fn lemma_char_code_injective(c: char, d: char)
    requires
        c as u32 == d as u32,
    ensures
        c == d,
{
}

/// Texts with the same encoding are equal.
pub proof fn lemma_enc_text_injective(a: Seq<char>, b: Seq<char>)
    requires
        enc_text(a) == enc_text(b),
    ensures
        a == b,
{
    assert(enc_text(a).len() == a.len() + 1);
    assert(enc_text(b).len() == b.len() + 1);
    assert forall|i: int| 0 <= i < a.len() implies a[i] == b[i] by {
        let ca: char = a[i];
        let cb: char = b[i];
        assert(enc_text(a)[i] == enc_text(b)[i]);
        assert(enc_text(a)[i] == (ca as u32 + 1) as u32);
        assert(enc_text(b)[i] == (cb as u32 + 1) as u32);
        lemma_char_code_bound(ca);
        lemma_char_code_bound(cb);
        lemma_char_code_injective(ca, cb);
    }
    assert(a =~= b);
}

pub open spec fn enc_source_id(id: (KnowledgeKind, Seq<char>)) -> Seq<u32> {
    seq![kind_tag(id.0)] + enc_text(id.1)
}

pub open spec fn enc_entity(e: (u32, Seq<char>)) -> Seq<u32> {
    seq![(e.0 + 1) as u32] + enc_text(e.1)
}

/// The items of a kind list, each as its tag plus one.
/// Entities with the same encoding are equal.
pub proof fn lemma_enc_entity_injective(a: (u32, Seq<char>), b: (u32, Seq<char>), ea: KnowledgeEntity, eb: KnowledgeEntity)
    requires
        a == ea@,
        b == eb@,
        enc_entity(a) == enc_entity(b),
    ensures
        a == b,
{
    assert(a.0 < 6 && b.0 < 6);
    assert(enc_entity(a)[0] == (a.0 + 1) as u32);
    assert(enc_entity(b)[0] == (b.0 + 1) as u32);
    assert(a.0 == b.0);
    assert(enc_entity(a).drop_first() =~= enc_text(a.1));
    assert(enc_entity(b).drop_first() =~= enc_text(b.1));
    lemma_enc_text_injective(a.1, b.1);
}

pub open spec fn enc_kinds_body(ks: Seq<KnowledgeKind>) -> Seq<u32>
    decreases ks.len(),
{
    if ks.len() == 0 {
        Seq::empty()
    } else {
        enc_kinds_body(ks.drop_last()).push((kind_tag(ks.last()) + 1) as u32)
    }
}

pub open spec fn enc_kinds(ks: Seq<KnowledgeKind>) -> Seq<u32> {
    enc_kinds_body(ks).push(0u32)
}

/// The items of an entity list, each as its encoding.
pub open spec fn enc_entities_body(es: Seq<(u32, Seq<char>)>) -> Seq<u32>
    decreases es.len(),
{
    if es.len() == 0 {
        Seq::empty()
    } else {
        enc_entities_body(es.drop_last()) + enc_entity(es.last())
    }
}

pub open spec fn enc_entities(es: Seq<(u32, Seq<char>)>) -> Seq<u32> {
    enc_entities_body(es).push(0u32)
}

/// The items of a topic list, each as `1` and its text.
pub open spec fn enc_topics_body(ts: Seq<Seq<char>>) -> Seq<u32>
    decreases ts.len(),
{
    if ts.len() == 0 {
        Seq::empty()
    } else {
        enc_topics_body(ts.drop_last()) + seq![1u32] + enc_text(ts.last())
    }
}

pub open spec fn enc_topics(ts: Seq<Seq<char>>) -> Seq<u32> {
    enc_topics_body(ts).push(0u32)
}

/// Appends the encoding of a text.
pub fn push_enc_text(out: &mut Vec<u32>, s: &str)
    ensures
        final(out)@ == old(out)@ + enc_text(s@),
{
    let n = s.unicode_len();
    let mut i: usize = 0;
    while i < n
        invariant
            n == s@.len(),
            i <= n,
            out@ == old(out)@ + Seq::new(i as nat, |j: int| (s@[j] as u32 + 1) as u32),
        decreases n - i,
    {
        let c = s.get_char(i);
        out.push(c as u32 + 1);
        assert(Seq::new((i + 1) as nat, |j: int| (s@[j] as u32 + 1) as u32) =~= Seq::new(
            i as nat,
            |j: int| (s@[j] as u32 + 1) as u32,
        ).push((c as u32 + 1) as u32));
        i = i + 1;
    }
    out.push(0);
    assert(out@ =~= old(out)@ + enc_text(s@));
}

pub fn enc_text_of(s: &str) -> (r: Vec<u32>)
    ensures
        r@ == enc_text(s@),
{
    let mut r: Vec<u32> = Vec::new();
    push_enc_text(&mut r, s);
    assert(r@ =~= enc_text(s@));
    r
}

pub fn push_enc_entity(out: &mut Vec<u32>, e: &KnowledgeEntity)
    ensures
        final(out)@ == old(out)@ + enc_entity(e@),
{
    out.push(e.tag() + 1);
    push_enc_text(out, e.key_text());
    assert(out@ =~= old(out)@ + enc_entity(e@));
}

pub fn enc_entity_of(e: &KnowledgeEntity) -> (r: Vec<u32>)
    ensures
        r@ == enc_entity(e@),
{
    let mut r: Vec<u32> = Vec::new();
    push_enc_entity(&mut r, e);
    assert(r@ =~= enc_entity(e@));
    r
}

pub open spec fn entities_view(es: Seq<KnowledgeEntity>) -> Seq<(u32, Seq<char>)> {
    es.map_values(|e: KnowledgeEntity| e@)
}

pub open spec fn topics_view(ts: Seq<TopicKey>) -> Seq<Seq<char>> {
    ts.map_values(|t: TopicKey| t@)
}

pub fn push_enc_kinds(out: &mut Vec<u32>, ks: &Vec<KnowledgeKind>)
    ensures
        final(out)@ == old(out)@ + enc_kinds(ks@),
{
    let mut i: usize = 0;
    assert(ks@.take(0) =~= Seq::<KnowledgeKind>::empty());
    while i < ks.len()
        invariant
            i <= ks@.len(),
            out@ == old(out)@ + enc_kinds_body(ks@.take(i as int)),
        decreases ks@.len() - i,
    {
        assert(ks@.take(i + 1).drop_last() =~= ks@.take(i as int));
        out.push(kind_tag_of(ks[i]) + 1);
        assert(out@ =~= old(out)@ + enc_kinds_body(ks@.take(i + 1)));
        i = i + 1;
    }
    assert(ks@.take(ks@.len() as int) =~= ks@);
    out.push(0);
    assert(out@ =~= old(out)@ + enc_kinds(ks@));
}

pub fn push_enc_entities(out: &mut Vec<u32>, es: &Vec<KnowledgeEntity>)
    ensures
        final(out)@ == old(out)@ + enc_entities(entities_view(es@)),
{
    let ghost ev = entities_view(es@);
    let mut i: usize = 0;
    assert(ev.take(0) =~= Seq::<(u32, Seq<char>)>::empty());
    while i < es.len()
        invariant
            i <= es@.len(),
            ev == entities_view(es@),
            out@ == old(out)@ + enc_entities_body(ev.take(i as int)),
        decreases es@.len() - i,
    {
        assert(ev.take(i + 1).drop_last() =~= ev.take(i as int));
        assert(ev.take(i + 1).last() == es@[i as int]@);
        push_enc_entity(out, &es[i]);
        assert(out@ =~= old(out)@ + enc_entities_body(ev.take(i + 1)));
        i = i + 1;
    }
    assert(ev.take(es@.len() as int) =~= ev);
    out.push(0);
    assert(out@ =~= old(out)@ + enc_entities(ev));
}

pub fn push_enc_topics(out: &mut Vec<u32>, ts: &Vec<TopicKey>)
    ensures
        final(out)@ == old(out)@ + enc_topics(topics_view(ts@)),
{
    let ghost tv = topics_view(ts@);
    let mut i: usize = 0;
    assert(tv.take(0) =~= Seq::<Seq<char>>::empty());
    while i < ts.len()
        invariant
            i <= ts@.len(),
            tv == topics_view(ts@),
            out@ == old(out)@ + enc_topics_body(tv.take(i as int)),
        decreases ts@.len() - i,
    {
        assert(tv.take(i + 1).drop_last() =~= tv.take(i as int));
        assert(tv.take(i + 1).last() == ts@[i as int]@);
        out.push(1);
        push_enc_text(out, ts[i].as_str());
        assert(out@ =~= old(out)@ + enc_topics_body(tv.take(i + 1)));
        i = i + 1;
    }
    assert(tv.take(ts@.len() as int) =~= tv);
    out.push(0);
    assert(out@ =~= old(out)@ + enc_topics(tv));
}

pub fn push_enc_source_id(out: &mut Vec<u32>, id: &KnowledgeSourceId)
    ensures
        final(out)@ == old(out)@ + enc_source_id(id@),
{
    out.push(kind_tag_of(id.kind()));
    push_enc_text(out, id.as_str());
    assert(out@ =~= old(out)@ + enc_source_id(id@));
}

} // verus!
