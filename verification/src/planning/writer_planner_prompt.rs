//! The writer planner's prompt context: the retrieval targets it may name,
//! and the rendering of the baseline into prompt variables.
use crate::domain::{BoundedText, KnowledgeKind, KnowledgeSourceId, RoleId};
use crate::json::{push_quoted, quote, quoted};
use crate::render::{bounded_views, field_line, field_line_of, optional_line, push_optional, quoted_list, quoted_list_text};
use crate::text::{bool_text, join, join_strings, push_bool, push_signed_decimal, signed_decimal, text_eq, views_of};
use crate::domain::{enc_text, enc_text_of, BoundedText as Text};
use crate::order::{is_stable_order, stable_order, views};
use crate::prompt::composition::{names_distinct, RuntimePromptVars, TrustedPromptVars};
use crate::prompt::knowledge_view::{
    entry_items, item_contents, render_relevant_knowledge, world_knowledge_text, world_knowledge_view_from_baseline,
};
use crate::prompt::narrative_direction::{
    direction_text, plan_intent_view, project_narrative_direction, render_narrative_direction,
};
use crate::prompt::story_profile_view::{profile_lines, render_story_profile_view, StoryProfilePromptView};
use crate::render::{lemma_two_sections, optional_section, push_section};
use crate::text::{
    blank, contains_text, ends_with, is_blank, lemma_contains_at, lemma_contains_trans, lemma_join_contains,
    lemma_join_contains_item, owned, starts_with,
};
use crate::turn::{
    BaselineContext, CastPolicy, KnowledgeIndexEntry, NarrativeDirection, NarrativePlan, RoleContextView, RoleIndexEntry,
    ScalarValue, StoryConstraint, StoryConstraintRequirement, WorldEventIntent, WorldKnowledgeEntry,
};
use vstd::prelude::*;

verus! {

/// What a retrieval target key names: a role or a knowledge entry.
#[derive(Debug, Clone)]
pub enum IndexedRetrievalTarget {
    Role(RoleId),
    Knowledge(KnowledgeSourceId),
}

/// The abstract value of a retrieval target.
pub enum TargetView {
    Role(Seq<char>),
    Knowledge((KnowledgeKind, Seq<char>)),
}

impl View for IndexedRetrievalTarget {
    type V = TargetView;

    open spec fn view(&self) -> TargetView {
        match self {
            IndexedRetrievalTarget::Role(r) => TargetView::Role(r@),
            IndexedRetrievalTarget::Knowledge(s) => TargetView::Knowledge(s@),
        }
    }
}

impl IndexedRetrievalTarget {
    pub fn duplicate(&self) -> (r: IndexedRetrievalTarget)
        ensures
            r@ == self@,
    {
        match self {
            IndexedRetrievalTarget::Role(r) => IndexedRetrievalTarget::Role(r.duplicate()),
            IndexedRetrievalTarget::Knowledge(s) => IndexedRetrievalTarget::Knowledge(s.duplicate()),
        }
    }

    /// Whether two targets name the same role or the same knowledge entry.
    pub fn same_as(&self, other: &IndexedRetrievalTarget) -> (r: bool)
        ensures
            r == (self@ == other@),
    {
        match (self, other) {
            (IndexedRetrievalTarget::Role(a), IndexedRetrievalTarget::Role(b)) => text_eq(a.as_str(), b.as_str()),
            (IndexedRetrievalTarget::Knowledge(a), IndexedRetrievalTarget::Knowledge(b)) => {
                a.kind() == b.kind() && text_eq(a.as_str(), b.as_str())
            },
            _ => false,
        }
    }
}

/// The targets a writer planner prompt offers, keyed by target id, and the
/// roles and knowledge entries the prompt already provides.
#[derive(Debug, Clone)]
pub struct WriterPlannerPromptContext {
    pub indexed_targets: Vec<(String, IndexedRetrievalTarget)>,
    pub provided_role_ids: Vec<RoleId>,
    pub provided_knowledge_ids: Vec<KnowledgeSourceId>,
}

/// The key-to-target map of a target list (a later entry for a key wins).
pub open spec fn targets_map(ts: Seq<(String, IndexedRetrievalTarget)>) -> Map<Seq<char>, TargetView>
    decreases ts.len(),
{
    if ts.len() == 0 {
        Map::empty()
    } else {
        targets_map(ts.drop_last()).insert(ts.last().0@, ts.last().1@)
    }
}

impl WriterPlannerPromptContext {
    pub open spec fn targets(&self) -> Map<Seq<char>, TargetView> {
        targets_map(self.indexed_targets@)
    }

    /// The target a key names, if any.
    pub fn target(&self, key: &str) -> (r: Option<&IndexedRetrievalTarget>)
        ensures
            match r {
                Some(t) => self.targets().contains_key(key@) && self.targets()[key@] == t@,
                None => !self.targets().contains_key(key@),
            },
    {
        let ghost m = targets_map(self.indexed_targets@);
        let mut i: usize = self.indexed_targets.len();
        assert(self.indexed_targets@.take(self.indexed_targets@.len() as int) =~= self.indexed_targets@);
        while i > 0
            invariant
                i <= self.indexed_targets@.len(),
                m == targets_map(self.indexed_targets@),
                m.contains_key(key@) == targets_map(self.indexed_targets@.take(i as int)).contains_key(key@),
                m.contains_key(key@) ==> m[key@] == targets_map(self.indexed_targets@.take(i as int))[key@],
            decreases i,
        {
            let ghost before = self.indexed_targets@.take(i as int);
            assert(before.drop_last() =~= self.indexed_targets@.take(i - 1));
            assert(before.last() == self.indexed_targets@[i - 1]);
            if text_eq(self.indexed_targets[i - 1].0.as_str(), key) {
                assert(targets_map(before) == targets_map(before.drop_last()).insert(
                    before.last().0@,
                    before.last().1@,
                ));
                assert(targets_map(before).contains_key(key@));
                assert(targets_map(before)[key@] == self.indexed_targets@[i - 1].1@);
                assert(m.contains_key(key@));
                assert(m[key@] == self.indexed_targets@[i - 1].1@);
                return Some(&self.indexed_targets[i - 1].1);
            }
            i = i - 1;
        }
        assert(self.indexed_targets@.take(0) =~= Seq::<(String, IndexedRetrievalTarget)>::empty());
        None
    }
}


// ---------------------------------------------------------------------------
// Rendering roles

/// A scalar as the role renderer writes it: booleans and integers bare,
/// decimals and texts as JSON literals.
pub open spec fn scalar_text(v: ScalarValue) -> Seq<char> {
    match v {
        ScalarValue::Bool(b) => bool_text(b),
        ScalarValue::Integer(i) => signed_decimal(i as int),
        ScalarValue::Decimal(s) => quoted(s@),
        ScalarValue::Text(s) => quoted(s@),
    }
}

pub open spec fn attribute_item(a: (String, ScalarValue)) -> Seq<char> {
    quoted(a.0@) + ": "@ + scalar_text(a.1)
}

/// `{` the attributes as `key: value` separated by `, ` `}`.
pub open spec fn attributes_text(attrs: Seq<(String, ScalarValue)>) -> Seq<char> {
    "{"@ + join(attrs.map_values(|a: (String, ScalarValue)| attribute_item(a)), ", "@) + "}"@
}

/// The lines of a rendered role. In a collection the first line starts with
/// `- ` and the others with two spaces. The role label is written only when
/// it differs from the name; absent profile fields, empty goals and empty
/// attributes are left out.
pub open spec fn role_lines(role: RoleContextView, collection: bool) -> Seq<Seq<char>> {
    let first = if collection { "- "@ } else { ""@ };
    let rest = if collection { "  "@ } else { ""@ };
    seq![field_line(first, "role_id"@, role.role_id@), field_line(rest, "name"@, role.profile.name@)] + (if role.role_label@
        != role.profile.name@ {
        seq![field_line(rest, "role"@, role.role_label@)]
    } else {
        Seq::empty()
    }) + optional_line(rest, "appearance"@, role.profile.appearance) + optional_line(
        rest,
        "personality"@,
        role.profile.personality,
    ) + optional_line(rest, "speaking_style"@, role.profile.speaking_style) + optional_line(
        rest,
        "background"@,
        role.background,
    ) + seq![field_line(rest, "location"@, role.state.location@)] + (if role.state.goals@.len() > 0 {
        seq![rest + "goals: "@ + quoted_list_text(bounded_views(role.state.goals@))]
    } else {
        Seq::empty()
    }) + (if role.state.attributes@.len() > 0 {
        seq![rest + "attributes: "@ + attributes_text(role.state.attributes@)]
    } else {
        Seq::empty()
    })
}

pub open spec fn rendered_role(role: RoleContextView, collection: bool) -> Seq<char> {
    join(role_lines(role, collection), "\n"@)
}

pub open spec fn rendered_roles(roles: Seq<RoleContextView>) -> Seq<char> {
    join(roles.map_values(|r: RoleContextView| rendered_role(r, true)), "\n"@)
}

fn scalar(value: &ScalarValue) -> (r: String)
    ensures
        r@ == scalar_text(*value),
{
    let mut r = String::new();
    match value {
        ScalarValue::Bool(b) => push_bool(&mut r, *b),
        ScalarValue::Integer(i) => push_signed_decimal(&mut r, *i),
        ScalarValue::Decimal(s) => push_quoted(&mut r, s.as_str()),
        ScalarValue::Text(s) => push_quoted(&mut r, s.as_str()),
    }
    assert(r@ =~= scalar_text(*value));
    r
}

fn render_attributes(values: &Vec<(String, ScalarValue)>) -> (r: String)
    ensures
        r@ == attributes_text(values@),
{
    let mut items: Vec<String> = Vec::new();
    let mut i: usize = 0;
    while i < values.len()
        invariant
            i <= values@.len(),
            items@.len() == i,
            forall|j: int| 0 <= j < i ==> (#[trigger] items@[j])@ == attribute_item(values@[j]),
        decreases values@.len() - i,
    {
        let mut item = quote(values[i].0.as_str());
        item.append(": ");
        let v = scalar(&values[i].1);
        item.append(v.as_str());
        assert(item@ =~= attribute_item(values@[i as int]));
        items.push(item);
        i = i + 1;
    }
    assert(views_of(items@) =~= values@.map_values(|a: (String, ScalarValue)| attribute_item(a)));
    let mut r = String::new();
    r.append("{");
    let joined = join_strings(&items, ", ");
    r.append(joined.as_str());
    r.append("}");
    assert(r@ =~= attributes_text(values@));
    r
}

/// A role as the writer planner sees it, one field per line.
pub fn render_role(role: &RoleContextView, collection: bool) -> (r: String)
    ensures
        r@ == rendered_role(*role, collection),
{
    let first: &str = if collection { "- " } else { "" };
    let rest: &str = if collection { "  " } else { "" };
    let mut lines: Vec<String> = Vec::new();
    lines.push(field_line_of(first, "role_id", role.role_id.as_str()));
    lines.push(field_line_of(rest, "name", role.profile.name.as_str()));
    let ghost head = views_of(lines@);
    assert(head =~= seq![field_line(first@, "role_id"@, role.role_id@), field_line(rest@, "name"@, role.profile.name@)]);
    if !text_eq(role.role_label.as_str(), role.profile.name.as_str()) {
        lines.push(field_line_of(rest, "role", role.role_label.as_str()));
    }
    let ghost with_label = views_of(lines@);
    assert(with_label =~= head + (if role.role_label@ != role.profile.name@ {
        seq![field_line(rest@, "role"@, role.role_label@)]
    } else {
        Seq::empty()
    }));
    push_optional(&mut lines, rest, "appearance", &role.profile.appearance);
    let ghost v1 = views_of(lines@);
    push_optional(&mut lines, rest, "personality", &role.profile.personality);
    let ghost v2 = views_of(lines@);
    push_optional(&mut lines, rest, "speaking_style", &role.profile.speaking_style);
    let ghost v3 = views_of(lines@);
    push_optional(&mut lines, rest, "background", &role.background);
    let ghost v4 = views_of(lines@);
    let ghost before_location = lines@;
    lines.push(field_line_of(rest, "location", role.state.location.as_str()));
    assert(views_of(lines@) =~= v4 + seq![field_line(rest@, "location"@, role.state.location@)]);
    let ghost with_location = views_of(lines@);
    if role.state.goals.len() > 0 {
        let mut l = String::new();
        l.append(rest);
        l.append("goals: ");
        let q = quoted_list(&role.state.goals);
        l.append(q.as_str());
        lines.push(l);
    }
    let ghost with_goals = views_of(lines@);
    assert(with_goals =~= with_location + (if role.state.goals@.len() > 0 {
        seq![rest@ + "goals: "@ + quoted_list_text(bounded_views(role.state.goals@))]
    } else {
        Seq::empty()
    }));
    if role.state.attributes.len() > 0 {
        let mut l = String::new();
        l.append(rest);
        l.append("attributes: ");
        let a = render_attributes(&role.state.attributes);
        l.append(a.as_str());
        lines.push(l);
    }
    assert(views_of(lines@) =~= with_goals + (if role.state.attributes@.len() > 0 {
        seq![rest@ + "attributes: "@ + attributes_text(role.state.attributes@)]
    } else {
        Seq::empty()
    }));
    proof {
        let f = if collection { "- "@ } else { ""@ };
        let g = if collection { "  "@ } else { ""@ };
        assert(first@ == f);
        assert(rest@ == g);
    }
    assert(views_of(lines@) =~= role_lines(*role, collection));
    join_strings(&lines, "\n")
}

/// Roles rendered as a collection, one after the other.
pub fn render_roles(roles: &Vec<RoleContextView>) -> (r: String)
    ensures
        r@ == rendered_roles(roles@),
{
    let mut parts: Vec<String> = Vec::new();
    let mut i: usize = 0;
    while i < roles.len()
        invariant
            i <= roles@.len(),
            parts@.len() == i,
            forall|j: int| 0 <= j < i ==> (#[trigger] parts@[j])@ == rendered_role(roles@[j], true),
        decreases roles@.len() - i,
    {
        parts.push(render_role(&roles[i], true));
        i = i + 1;
    }
    assert(views_of(parts@) =~= roles@.map_values(|r: RoleContextView| rendered_role(r, true)));
    join_strings(&parts, "\n")
}


// ---------------------------------------------------------------------------
// Projection of the baseline into the planner's prompt

/// Why the planner's prompt could not be projected.
#[derive(Debug, Clone)]
pub enum WriterPlannerProjectionError {
    UnknownRoleTarget { role_id: RoleId },
    PlayerRoleTarget { role_id: RoleId },
    DuplicateRoleTarget { role_id: RoleId },
    /// One key names two different targets.
    RetrievalTargetCollision { key: String },
    RequiredPromptDataExceedsBudget,
}

/// Adds `key -> target` unless the key already names another target.
pub fn insert_target(
    targets: &mut Vec<(String, IndexedRetrievalTarget)>,
    key: String,
    target: IndexedRetrievalTarget,
) -> (r: Result<(), WriterPlannerProjectionError>)
    ensures
        (targets_map(old(targets)@).contains_key(key@) && targets_map(old(targets)@)[key@] != target@) ==> (r matches Err(
            WriterPlannerProjectionError::RetrievalTargetCollision { key: k },
        ) && k@ == key@),
        !(targets_map(old(targets)@).contains_key(key@) && targets_map(old(targets)@)[key@] != target@) ==> (r is Ok
            && targets_map(final(targets)@) == targets_map(old(targets)@).insert(key@, target@)),
{
    let ctx = WriterPlannerPromptContext {
        indexed_targets: Vec::new(),
        provided_role_ids: Vec::new(),
        provided_knowledge_ids: Vec::new(),
    };
    let mut found: Option<bool> = None;
    let mut i: usize = targets.len();
    let ghost m = targets_map(targets@);
    assert(targets@.take(targets@.len() as int) =~= targets@);
    while i > 0 && found.is_none()
        invariant
            i <= targets@.len(),
            m == targets_map(targets@),
            found is None ==> (m.contains_key(key@) == targets_map(targets@.take(i as int)).contains_key(key@) && (
            m.contains_key(key@) ==> m[key@] == targets_map(targets@.take(i as int))[key@])),
            found matches Some(same) ==> m.contains_key(key@) && same == (m[key@] == target@),
        decreases i,
    {
        let ghost before = targets@.take(i as int);
        assert(before.drop_last() =~= targets@.take(i - 1));
        assert(before.last() == targets@[i - 1]);
        if text_eq(targets[i - 1].0.as_str(), key.as_str()) {
            assert(targets_map(before) == targets_map(before.drop_last()).insert(before.last().0@, before.last().1@));
            found = Some(targets[i - 1].1.same_as(&target));
        }
        i = i - 1;
    }
    match found {
        Some(false) => {
            assert(m.contains_key(key@) && m[key@] != target@);
            Err(WriterPlannerProjectionError::RetrievalTargetCollision { key })
        },
        Some(true) => {
            assert(m.contains_key(key@) && m[key@] == target@);
            assert(targets_map(targets@) =~= m.insert(key@, target@));
            Ok(())
        },
        None => {
            assert(targets@.take(0) =~= Seq::<(String, IndexedRetrievalTarget)>::empty());
            assert(targets_map(targets@.take(0)) =~= Map::<Seq<char>, TargetView>::empty());
            assert(!m.contains_key(key@));
            let ghost before = targets@;
            targets.push((key, target));
            assert(targets@.drop_last() =~= before);
            Ok(())
        },
    }
}

pub open spec fn cast_policy_name(p: CastPolicy) -> Seq<char> {
    match p {
        CastPolicy::Open => "open"@,
        CastPolicy::IncidentalOnly => "incidental_only"@,
        CastPolicy::Closed => "closed"@,
    }
}

pub fn render_instance_settings(policy: CastPolicy) -> (r: String)
    ensures
        r@ == "cast_policy: "@ + cast_policy_name(policy),
{
    let value: &str = match policy {
        CastPolicy::Open => "open",
        CastPolicy::IncidentalOnly => "incidental_only",
        CastPolicy::Closed => "closed",
    };
    let mut r = String::new();
    r.append("cast_policy: ");
    r.append(value);
    r
}

/// The recent story segments separated by blank lines.
pub fn render_recent_story(baseline: &BaselineContext) -> (r: String)
    ensures
        r@ == join(bounded_views(baseline.story_continuity.recent_segments@), "\n\n"@),
{
    let mut parts: Vec<String> = Vec::new();
    let mut i: usize = 0;
    while i < baseline.story_continuity.recent_segments.len()
        invariant
            i <= baseline.story_continuity.recent_segments@.len(),
            parts@.len() == i,
            forall|j: int| 0 <= j < i ==> (#[trigger] parts@[j])@ == baseline.story_continuity.recent_segments@[j]@,
        decreases baseline.story_continuity.recent_segments@.len() - i,
    {
        parts.push(owned(baseline.story_continuity.recent_segments[i].as_str()));
        i = i + 1;
    }
    assert(views_of(parts@) =~= bounded_views(baseline.story_continuity.recent_segments@));
    join_strings(&parts, "\n\n")
}

/// A retrieval index line: the quoted target id and hint.
pub open spec fn index_item(id: Seq<char>, hint: Seq<char>) -> Seq<char> {
    "- target_id: "@ + quoted(id) + "\n  retrieval_hint: "@ + quoted(hint)
}

fn index_item_of(id: &str, hint: &str) -> (r: String)
    ensures
        r@ == index_item(id@, hint@),
{
    let mut r = String::new();
    r.append("- target_id: ");
    push_quoted(&mut r, id);
    r.append("\n  retrieval_hint: ");
    push_quoted(&mut r, hint);
    assert(r@ =~= index_item(id@, hint@));
    r
}

pub open spec fn role_index_text(es: Seq<RoleIndexEntry>) -> Seq<char> {
    if es.len() == 0 {
        Seq::empty()
    } else {
        "### Retrievable Characters\n\n"@ + join(
            es.map_values(|e: RoleIndexEntry| index_item(e.role_id@, e.retrieval_hint@)),
            "\n"@,
        )
    }
}

pub fn render_role_index(baseline: &BaselineContext) -> (r: String)
    ensures
        r@ == role_index_text(baseline.role_index@),
{
    if baseline.role_index.len() == 0 {
        let r = String::new();
        assert(r@ =~= Seq::<char>::empty());
        return r;
    }
    let mut items: Vec<String> = Vec::new();
    let mut i: usize = 0;
    while i < baseline.role_index.len()
        invariant
            i <= baseline.role_index@.len(),
            items@.len() == i,
            forall|j: int|
                0 <= j < i ==> (#[trigger] items@[j])@ == index_item(
                    baseline.role_index@[j].role_id@,
                    baseline.role_index@[j].retrieval_hint@,
                ),
        decreases baseline.role_index@.len() - i,
    {
        items.push(index_item_of(baseline.role_index[i].role_id.as_str(), baseline.role_index[i].retrieval_hint.as_str()));
        i = i + 1;
    }
    assert(views_of(items@) =~= baseline.role_index@.map_values(
        |e: RoleIndexEntry| index_item(e.role_id@, e.retrieval_hint@),
    ));
    let mut r = String::new();
    r.append("### Retrievable Characters\n\n");
    let body = join_strings(&items, "\n");
    r.append(body.as_str());
    r
}

/// The index lines of the entries of one kind, in order.
pub open spec fn kind_index_items(es: Seq<KnowledgeIndexEntry>, k: KnowledgeKind) -> Seq<Seq<char>>
    decreases es.len(),
{
    if es.len() == 0 {
        Seq::empty()
    } else {
        let prev = kind_index_items(es.drop_last(), k);
        if es.last().source_id@.0 == k {
            prev.push(index_item(es.last().source_id@.1, es.last().retrieval_hint@))
        } else {
            prev
        }
    }
}

/// A `### Retrievable Facts` and a `### Retrievable Rumors` section, each
/// only when it has items; memories are not offered.
pub open spec fn knowledge_index_text(es: Seq<KnowledgeIndexEntry>) -> Seq<char> {
    join(
        optional_section("### Retrievable Facts"@, kind_index_items(es, KnowledgeKind::Fact)) + optional_section(
            "### Retrievable Rumors"@,
            kind_index_items(es, KnowledgeKind::Rumor),
        ),
        "\n\n"@,
    )
}

pub fn render_knowledge_index(baseline: &BaselineContext) -> (r: String)
    ensures
        r@ == knowledge_index_text(baseline.knowledge_index@),
{
    let mut facts: Vec<String> = Vec::new();
    let mut rumors: Vec<String> = Vec::new();
    let mut i: usize = 0;
    assert(baseline.knowledge_index@.take(0) =~= Seq::<KnowledgeIndexEntry>::empty());
    while i < baseline.knowledge_index.len()
        invariant
            i <= baseline.knowledge_index@.len(),
            views_of(facts@) == kind_index_items(baseline.knowledge_index@.take(i as int), KnowledgeKind::Fact),
            views_of(rumors@) == kind_index_items(baseline.knowledge_index@.take(i as int), KnowledgeKind::Rumor),
        decreases baseline.knowledge_index@.len() - i,
    {
        let e = &baseline.knowledge_index[i];
        proof {
            let t = baseline.knowledge_index@.take(i + 1);
            assert(t.drop_last() =~= baseline.knowledge_index@.take(i as int));
            assert(t.last() == *e);
        }
        let line = index_item_of(e.source_id.as_str(), e.retrieval_hint.as_str());
        let ghost f0 = facts@;
        let ghost r0 = rumors@;
        match e.source_id.kind() {
            KnowledgeKind::Fact => {
                facts.push(line);
                assert(views_of(facts@) =~= views_of(f0).push(line@));
            },
            KnowledgeKind::Rumor => {
                rumors.push(line);
                assert(views_of(rumors@) =~= views_of(r0).push(line@));
            },
            KnowledgeKind::Memory => {},
        }
        i = i + 1;
    }
    assert(baseline.knowledge_index@.take(baseline.knowledge_index@.len() as int) =~= baseline.knowledge_index@);
    let mut sections: Vec<String> = Vec::new();
    push_section(&mut sections, "### Retrievable Facts", &facts);
    push_section(&mut sections, "### Retrievable Rumors", &rumors);
    assert(views_of(sections@) =~= optional_section(
        "### Retrievable Facts"@,
        kind_index_items(baseline.knowledge_index@, KnowledgeKind::Fact),
    ) + optional_section("### Retrievable Rumors"@, kind_index_items(baseline.knowledge_index@, KnowledgeKind::Rumor)));
    join_strings(&sections, "\n\n")
}

pub open spec fn constraint_item(c: StoryConstraint) -> Seq<char> {
    let (kind, statement) = match c.requirement {
        StoryConstraintRequirement::Require { statement } => ("require"@, statement@),
        StoryConstraintRequirement::Forbid { statement } => ("forbid"@, statement@),
    };
    "- constraint_id: "@ + quoted(c.id@) + "\n  kind: "@ + kind + "\n  requirement: "@ + quoted(statement)
}

pub open spec fn constraint_keys(cs: Seq<StoryConstraint>) -> Seq<Seq<u32>> {
    cs.map_values(|c: StoryConstraint| enc_text(c.id@))
}

/// The constraints listed in the stable order `idx` of their ids.
pub open spec fn constraints_text(cs: Seq<StoryConstraint>, idx: Seq<usize>) -> Seq<char> {
    join(idx.map_values(|i: usize| constraint_item(cs[i as int])), "\n"@)
}

fn constraint_item_of(c: &StoryConstraint) -> (r: String)
    ensures
        r@ == constraint_item(*c),
{
    let mut r = String::new();
    r.append("- constraint_id: ");
    push_quoted(&mut r, c.id.as_str());
    r.append("\n  kind: ");
    match &c.requirement {
        StoryConstraintRequirement::Require { statement } => {
            r.append("require");
            r.append("\n  requirement: ");
            push_quoted(&mut r, statement.as_str());
        },
        StoryConstraintRequirement::Forbid { statement } => {
            r.append("forbid");
            r.append("\n  requirement: ");
            push_quoted(&mut r, statement.as_str());
        },
    }
    assert(r@ =~= constraint_item(*c));
    r
}

/// The active constraints ordered by id (a stable sort), one item each.
pub fn render_constraints(baseline: &BaselineContext) -> (r: String)
    ensures
        exists|idx: Seq<usize>|
            is_stable_order(constraint_keys(baseline.active_story_constraints@), idx) && r@ == #[trigger] constraints_text(
                baseline.active_story_constraints@,
                idx,
            ),
{
    let mut keys: Vec<Vec<u32>> = Vec::new();
    let mut i: usize = 0;
    while i < baseline.active_story_constraints.len()
        invariant
            i <= baseline.active_story_constraints@.len(),
            keys@.len() == i,
            forall|j: int| 0 <= j < i ==> (#[trigger] keys@[j])@ == enc_text(baseline.active_story_constraints@[j].id@),
        decreases baseline.active_story_constraints@.len() - i,
    {
        keys.push(enc_text_of(baseline.active_story_constraints[i].id.as_str()));
        i = i + 1;
    }
    let order = stable_order(&keys);
    assert(views(keys@) =~= constraint_keys(baseline.active_story_constraints@));
    let mut items: Vec<String> = Vec::new();
    let mut k: usize = 0;
    while k < order.len()
        invariant
            is_stable_order(constraint_keys(baseline.active_story_constraints@), order@),
            k <= order@.len(),
            items@.len() == k,
            forall|j: int|
                0 <= j < k ==> (#[trigger] items@[j])@ == constraint_item(
                    baseline.active_story_constraints@[order@[j] as int],
                ),
        decreases order@.len() - k,
    {
        items.push(constraint_item_of(&baseline.active_story_constraints[order[k]]));
        k = k + 1;
    }
    assert(views_of(items@) =~= order@.map_values(
        |i: usize| constraint_item(baseline.active_story_constraints@[i as int]),
    ));
    let r = join_strings(&items, "\n");
    assert(r@ == constraints_text(baseline.active_story_constraints@, order@));
    r
}

/// The summary, or nothing when it is blank.
pub fn render_story_summary(value: &str) -> (r: String)
    ensures
        r@ == (if blank(value@) { Seq::<char>::empty() } else { value@ }),
{
    if is_blank(value) {
        let r = String::new();
        assert(r@ =~= Seq::<char>::empty());
        r
    } else {
        owned(value)
    }
}

/// Untrusted data as a JSON literal.
pub fn render_data(value: &str) -> (r: String)
    ensures
        r@ == quoted(value@),
{
    quote(value)
}


// ---------------------------------------------------------------------------
// The projection

/// Projects a turn's baseline into the writer planner's prompt.
pub struct WriterPlannerPromptContextProjector;

/// The planner's prompt context and the variables its layers render with.
pub struct WriterPlannerPromptProjection {
    pub context: WriterPlannerPromptContext,
    pub rc_vars: RuntimePromptVars,
    pub fti_vars: TrustedPromptVars,
}

/// The retrieval targets a baseline offers, in order: its indexed roles, then
/// its indexed knowledge entries, each keyed by its id.
pub open spec fn target_entries(b: BaselineContext) -> Seq<(Seq<char>, TargetView)> {
    b.role_index@.map_values(|e: RoleIndexEntry| (e.role_id@, TargetView::Role(e.role_id@))) + b.knowledge_index@.map_values(
        |e: KnowledgeIndexEntry| (e.source_id@.1, TargetView::Knowledge(e.source_id@)),
    )
}

/// The key-to-target map of the entries, or the first key that names two
/// different targets.
pub open spec fn indexed_targets(es: Seq<(Seq<char>, TargetView)>) -> Result<Map<Seq<char>, TargetView>, Seq<char>>
    decreases es.len(),
{
    if es.len() == 0 {
        Ok(Map::empty())
    } else {
        match indexed_targets(es.drop_last()) {
            Err(k) => Err(k),
            Ok(m) => {
                let (k, t) = es.last();
                if m.contains_key(k) && m[k] != t {
                    Err(k)
                } else {
                    Ok(m.insert(k, t))
                }
            },
        }
    }
}

pub open spec fn var_views(vs: Seq<(String, String)>) -> Seq<(Seq<char>, Seq<char>)> {
    vs.map_values(|v: (String, String)| (v.0@, v.1@))
}

/// The runtime variables of the planner's prompt, given the rendered
/// constraints.
pub open spec fn writer_planner_vars(
    b: BaselineContext,
    plan: NarrativePlan,
    contribution: Seq<char>,
    constraints: Seq<char>,
) -> Seq<(Seq<char>, Seq<char>)> {
    let p = b.story_profile;
    let summary = b.story_continuity.summary@;
    seq![
        (
            "story_profile"@,
            join(
                profile_lines(
                    b.story_title@,
                    p.language@,
                    bounded_views(p.genre@),
                    bounded_views(p.themes@),
                    bounded_views(p.style.tone@),
                    p.style.point_of_view@,
                    p.style.tense@,
                ),
                "\n"@,
            ),
        ),
        ("instance_settings"@, "cast_policy: "@ + cast_policy_name(b.instance_settings.cast_policy)),
        ("story_summary"@, if blank(summary) { Seq::empty() } else { summary }),
        ("recent_story"@, join(bounded_views(b.story_continuity.recent_segments@), "\n\n"@)),
        ("player_character"@, rendered_role(b.player_role, false)),
        ("relevant_characters"@, rendered_roles(b.relevant_roles@)),
        (
            "relevant_knowledge"@,
            world_knowledge_text(
                item_contents(entry_items(b.relevant_world_knowledge.facts@)),
                item_contents(entry_items(b.relevant_world_knowledge.rumors@)),
            ),
        ),
        ("character_index"@, role_index_text(b.role_index@)),
        ("knowledge_index"@, knowledge_index_text(b.knowledge_index@)),
        (
            "narrative_direction"@,
            direction_text(
                plan.active_directions@.map_values(|d: NarrativeDirection| d.dramatic_focus@),
                plan.world_event_intents@.map_values(|i: WorldEventIntent| plan_intent_view(i)),
            ),
        ),
        ("active_story_constraints"@, constraints),
        ("player_contribution"@, quoted(contribution)),
    ]
}

pub open spec fn role_id_views(ids: Seq<RoleId>) -> Seq<Seq<char>> {
    ids.map_values(|r: RoleId| r@)
}

pub open spec fn source_id_views(ids: Seq<KnowledgeSourceId>) -> Seq<(KnowledgeKind, Seq<char>)> {
    ids.map_values(|s: KnowledgeSourceId| s@)
}

/// The runtime variables of the planner's prompt have distinct names.
proof fn lemma_planner_var_names_distinct(vars: Seq<(Seq<char>, Seq<char>)>)
    requires
        exists|b: BaselineContext, plan: NarrativePlan, c: Seq<char>, k: Seq<char>|
            vars == #[trigger] writer_planner_vars(b, plan, c, k),
    ensures
        forall|a: int, d: int| 0 <= a < d < vars.len() ==> (#[trigger] vars[a]).0 != (#[trigger] vars[d]).0,
{
    reveal_strlit("story_profile");
    reveal_strlit("instance_settings");
    reveal_strlit("story_summary");
    reveal_strlit("recent_story");
    reveal_strlit("player_character");
    reveal_strlit("relevant_characters");
    reveal_strlit("relevant_knowledge");
    reveal_strlit("character_index");
    reveal_strlit("knowledge_index");
    reveal_strlit("narrative_direction");
    reveal_strlit("active_story_constraints");
    reveal_strlit("player_contribution");
    assert(vars.len() == 12);
    assert forall|a: int, d: int| 0 <= a < d < vars.len() implies (#[trigger] vars[a]).0 != (#[trigger] vars[d]).0 by {
        if vars[a].0 == vars[d].0 {
            assert(vars[a].0.len() == vars[d].0.len());
            assert(vars[a].0[0] == vars[d].0[0]);
            assert(vars[a].0[vars[a].0.len() - 1] == vars[d].0[vars[d].0.len() - 1]);
        }
    }
}

fn named(name: &str, value: String) -> (r: (String, String))
    ensures
        r.0@ == name@,
        r.1@ == value@,
{
    (owned(name), value)
}

impl WriterPlannerPromptContextProjector {
    /// Indexes the baseline's retrieval targets (refusing a key that names
    /// two targets), lists the roles and knowledge the prompt provides, and
    /// renders the planner's runtime variables.
    pub fn project(
        &self,
        baseline: &BaselineContext,
        narrative_plan: &NarrativePlan,
        player_contribution: &BoundedText,
    ) -> (r: Result<WriterPlannerPromptProjection, WriterPlannerProjectionError>)
        ensures
            match indexed_targets(target_entries(*baseline)) {
                Err(k) => r matches Err(WriterPlannerProjectionError::RetrievalTargetCollision { key }) && key@ == k,
                Ok(m) => r matches Ok(p) && p.context.targets() == m && role_id_views(p.context.provided_role_ids@)
                    == seq![baseline.player_role.role_id@] + baseline.relevant_roles@.map_values(
                    |v: RoleContextView| v.role_id@,
                ) && source_id_views(p.context.provided_knowledge_ids@) == baseline.relevant_world_knowledge.facts@.map_values(
                    |e: WorldKnowledgeEntry| e.source_id@,
                ) + baseline.relevant_world_knowledge.rumors@.map_values(|e: WorldKnowledgeEntry| e.source_id@)
                    && p.fti_vars.vars@.len() == 0 && exists|idx: Seq<usize>|
                    is_stable_order(constraint_keys(baseline.active_story_constraints@), idx) && var_views(
                        p.rc_vars.vars@,
                    ) == #[trigger] writer_planner_vars(
                        *baseline,
                        *narrative_plan,
                        player_contribution@,
                        constraints_text(baseline.active_story_constraints@, idx),
                    ),
            },
    {
        let ghost es = target_entries(*baseline);
        let ghost nr: int = baseline.role_index@.len() as int;
        let mut targets: Vec<(String, IndexedRetrievalTarget)> = Vec::new();
        let mut i: usize = 0;
        assert(es.take(0) =~= Seq::<(Seq<char>, TargetView)>::empty());
        assert(targets_map(targets@) =~= Map::<Seq<char>, TargetView>::empty());
        while i < baseline.role_index.len()
            invariant
                i <= baseline.role_index@.len(),
                es == target_entries(*baseline),
                nr == baseline.role_index@.len(),
                indexed_targets(es.take(i as int)) == Ok::<Map<Seq<char>, TargetView>, Seq<char>>(targets_map(targets@)),
            decreases baseline.role_index@.len() - i,
        {
            let e = &baseline.role_index[i];
            proof {
                assert(es.take(i + 1).drop_last() =~= es.take(i as int));
                assert(es.take(i + 1).last() == es[i as int]);
                assert(es[i as int] == (e.role_id@, TargetView::Role(e.role_id@)));
            }
            match insert_target(&mut targets, owned(e.role_id.as_str()), IndexedRetrievalTarget::Role(e.role_id.duplicate())) {
                Ok(()) => {},
                Err(err) => {
                    proof {
                        lemma_indexed_error_sticks(es, i as int + 1);
                    }
                    return Err(err);
                },
            }
            i = i + 1;
        }
        let mut k: usize = 0;
        while k < baseline.knowledge_index.len()
            invariant
                k <= baseline.knowledge_index@.len(),
                es == target_entries(*baseline),
                nr == baseline.role_index@.len(),
                es.len() == nr + baseline.knowledge_index@.len(),
                indexed_targets(es.take(nr + k)) == Ok::<Map<Seq<char>, TargetView>, Seq<char>>(targets_map(targets@)),
            decreases baseline.knowledge_index@.len() - k,
        {
            let e = &baseline.knowledge_index[k];
            proof {
                assert(es.take(nr + k + 1).drop_last() =~= es.take(nr + k));
                assert(es.take(nr + k + 1).last() == es[nr + k]);
                assert(es[nr + k] == (e.source_id@.1, TargetView::Knowledge(e.source_id@)));
            }
            match insert_target(
                &mut targets,
                owned(e.source_id.as_str()),
                IndexedRetrievalTarget::Knowledge(e.source_id.duplicate()),
            ) {
                Ok(()) => {},
                Err(err) => {
                    proof {
                        lemma_indexed_error_sticks(es, nr + k + 1);
                    }
                    return Err(err);
                },
            }
            k = k + 1;
        }
        assert(es.take((nr + baseline.knowledge_index@.len()) as int) =~= es);
        let mut provided_role_ids: Vec<RoleId> = Vec::new();
        provided_role_ids.push(baseline.player_role.role_id.duplicate());
        let mut j: usize = 0;
        while j < baseline.relevant_roles.len()
            invariant
                j <= baseline.relevant_roles@.len(),
                provided_role_ids@.len() == j + 1,
                provided_role_ids@[0]@ == baseline.player_role.role_id@,
                forall|a: int| 0 <= a < j ==> (#[trigger] provided_role_ids@[a + 1])@ == baseline.relevant_roles@[a].role_id@,
            decreases baseline.relevant_roles@.len() - j,
        {
            provided_role_ids.push(baseline.relevant_roles[j].role_id.duplicate());
            j = j + 1;
        }
        proof {
            let want = seq![baseline.player_role.role_id@] + baseline.relevant_roles@.map_values(
                |v: RoleContextView| v.role_id@,
            );
            assert forall|a: int| 0 <= a < want.len() implies #[trigger] role_id_views(provided_role_ids@)[a] == want[a] by {
                if a > 0 {
                    assert(provided_role_ids@[(a - 1) + 1]@ == baseline.relevant_roles@[a - 1].role_id@);
                }
            }
            assert(role_id_views(provided_role_ids@) =~= want);
        }
        let mut provided_knowledge_ids: Vec<KnowledgeSourceId> = Vec::new();
        let mut a: usize = 0;
        while a < baseline.relevant_world_knowledge.facts.len()
            invariant
                a <= baseline.relevant_world_knowledge.facts@.len(),
                provided_knowledge_ids@.len() == a,
                forall|x: int|
                    0 <= x < a ==> (#[trigger] provided_knowledge_ids@[x])@ == baseline.relevant_world_knowledge.facts@[x].source_id@,
            decreases baseline.relevant_world_knowledge.facts@.len() - a,
        {
            provided_knowledge_ids.push(baseline.relevant_world_knowledge.facts[a].source_id.duplicate());
            a = a + 1;
        }
        let nf = baseline.relevant_world_knowledge.facts.len();
        let mut b: usize = 0;
        while b < baseline.relevant_world_knowledge.rumors.len()
            invariant
                nf == baseline.relevant_world_knowledge.facts@.len(),
                b <= baseline.relevant_world_knowledge.rumors@.len(),
                provided_knowledge_ids@.len() == nf + b,
                forall|x: int|
                    0 <= x < nf ==> (#[trigger] provided_knowledge_ids@[x])@ == baseline.relevant_world_knowledge.facts@[x].source_id@,
                forall|x: int|
                    0 <= x < b ==> (#[trigger] provided_knowledge_ids@[nf + x])@ == baseline.relevant_world_knowledge.rumors@[x].source_id@,
            decreases baseline.relevant_world_knowledge.rumors@.len() - b,
        {
            provided_knowledge_ids.push(baseline.relevant_world_knowledge.rumors[b].source_id.duplicate());
            b = b + 1;
        }
        proof {
            let want = baseline.relevant_world_knowledge.facts@.map_values(|e: WorldKnowledgeEntry| e.source_id@)
                + baseline.relevant_world_knowledge.rumors@.map_values(|e: WorldKnowledgeEntry| e.source_id@);
            assert forall|x: int| 0 <= x < want.len() implies #[trigger] source_id_views(provided_knowledge_ids@)[x]
                == want[x] by {
                if x >= nf {
                    assert(provided_knowledge_ids@[nf + (x - nf)]@ == baseline.relevant_world_knowledge.rumors@[x
                        - nf].source_id@);
                }
            }
            assert(source_id_views(provided_knowledge_ids@) =~= want);
        }
        let direction = project_narrative_direction(narrative_plan);
        let constraints = render_constraints(baseline);
        let ghost idx = choose|idx: Seq<usize>|
            is_stable_order(constraint_keys(baseline.active_story_constraints@), idx) && constraints@
                == #[trigger] constraints_text(baseline.active_story_constraints@, idx);
        let mut vars: Vec<(String, String)> = Vec::new();
        vars.push(
            named(
                "story_profile",
                render_story_profile_view(&StoryProfilePromptView::new(&baseline.story_title, &baseline.story_profile)),
            ),
        );
        vars.push(named("instance_settings", render_instance_settings(baseline.instance_settings.cast_policy)));
        vars.push(named("story_summary", render_story_summary(baseline.story_continuity.summary.as_str())));
        vars.push(named("recent_story", render_recent_story(baseline)));
        vars.push(named("player_character", render_role(&baseline.player_role, false)));
        vars.push(named("relevant_characters", render_roles(&baseline.relevant_roles)));
        vars.push(
            named(
                "relevant_knowledge",
                render_relevant_knowledge(&world_knowledge_view_from_baseline(&baseline.relevant_world_knowledge)),
            ),
        );
        vars.push(named("character_index", render_role_index(baseline)));
        vars.push(named("knowledge_index", render_knowledge_index(baseline)));
        vars.push(named("narrative_direction", render_narrative_direction(&direction)));
        vars.push(named("active_story_constraints", constraints));
        vars.push(named("player_contribution", render_data(player_contribution.as_str())));
        proof {
            let want = writer_planner_vars(
                *baseline,
                *narrative_plan,
                player_contribution@,
                constraints_text(baseline.active_story_constraints@, idx),
            );
            assert(var_views(vars@) =~= want);
            lemma_planner_var_names_distinct(want);
            assert forall|a: int, c: int| 0 <= a < c < vars@.len() implies (#[trigger] vars@[a]).0@
                != (#[trigger] vars@[c]).0@ by {
                assert(var_views(vars@)[a].0 == vars@[a].0@);
                assert(var_views(vars@)[c].0 == vars@[c].0@);
            }
            assert(names_distinct(vars@));
        }
        let fti: Vec<(String, String)> = Vec::new();
        Ok(
            WriterPlannerPromptProjection {
                context: WriterPlannerPromptContext { indexed_targets: targets, provided_role_ids, provided_knowledge_ids },
                rc_vars: RuntimePromptVars::new(vars),
                fti_vars: TrustedPromptVars::new(fti),
            },
        )
    }
}

proof fn lemma_indexed_error_sticks(es: Seq<(Seq<char>, TargetView)>, k: int)
    requires
        0 <= k <= es.len(),
        indexed_targets(es.take(k)) is Err,
    ensures
        indexed_targets(es) == indexed_targets(es.take(k)),
    decreases es.len() - k,
{
    if k < es.len() {
        assert(es.take(k + 1).drop_last() =~= es.take(k));
        lemma_indexed_error_sticks(es, k + 1);
    } else {
        assert(es.take(k) =~= es);
    }
}

/// `u64` addition that stops at `u64::MAX`, over a list.
pub open spec fn saturating_total(xs: Seq<u64>) -> nat
    decreases xs.len(),
{
    if xs.len() == 0 {
        0
    } else {
        let t = saturating_total(xs.drop_last()) + xs.last();
        if t > u64::MAX {
            u64::MAX as nat
        } else {
            t as nat
        }
    }
}

/// Refuses a prompt whose variables, by their token estimates, add up to
/// more than the input budget (the sum saturates at `u64::MAX`).
pub fn check_input_budget(token_estimates: &Vec<u64>, max_input_tokens: u64) -> (r: Result<
    (),
    WriterPlannerProjectionError,
>)
    ensures
        saturating_total(token_estimates@) > max_input_tokens ==> r matches Err(
            WriterPlannerProjectionError::RequiredPromptDataExceedsBudget,
        ),
        saturating_total(token_estimates@) <= max_input_tokens ==> r is Ok,
{
    let mut total: u64 = 0;
    let mut i: usize = 0;
    assert(token_estimates@.take(0) =~= Seq::<u64>::empty());
    while i < token_estimates.len()
        invariant
            i <= token_estimates@.len(),
            total == saturating_total(token_estimates@.take(i as int)),
        decreases token_estimates@.len() - i,
    {
        assert(token_estimates@.take(i + 1).drop_last() =~= token_estimates@.take(i as int));
        total = total.saturating_add(token_estimates[i]);
        i = i + 1;
    }
    assert(token_estimates@.take(token_estimates@.len() as int) =~= token_estimates@);
    if total > max_input_tokens {
        return Err(WriterPlannerProjectionError::RequiredPromptDataExceedsBudget);
    }
    Ok(())
}


/// Law: the rendered instance settings name the story's own cast policy:
/// the three policies render under their names (`open`, `incidental_only`,
/// `closed`), so two different policies never render alike (the planner's
/// `instance_settings` variable is that rendering of the baseline's policy:
/// see `law_planner_vars_carry_the_baseline`).
pub proof fn law_cast_policies_render_apart(p: CastPolicy, q: CastPolicy)
    ensures
        p != q ==> "cast_policy: "@ + cast_policy_name(p) != "cast_policy: "@ + cast_policy_name(q),
        p == CastPolicy::Open ==> cast_policy_name(p) == "open"@,
        p == CastPolicy::IncidentalOnly ==> cast_policy_name(p) == "incidental_only"@,
        p == CastPolicy::Closed ==> cast_policy_name(p) == "closed"@,
{
    reveal_strlit("open");
    reveal_strlit("incidental_only");
    reveal_strlit("closed");
    if p != q {
        let a = "cast_policy: "@ + cast_policy_name(p);
        let c = "cast_policy: "@ + cast_policy_name(q);
        if a == c {
            assert(a.skip("cast_policy: "@.len() as int) =~= cast_policy_name(p));
            assert(c.skip("cast_policy: "@.len() as int) =~= cast_policy_name(q));
            assert(cast_policy_name(p).len() == cast_policy_name(q).len());
            assert(cast_policy_name(p)[0] == cast_policy_name(q)[0]);
        }
    }
}


/// The index lines of one kind hold a line for each entry of that kind.
proof fn lemma_kind_index_items_hold(es: Seq<KnowledgeIndexEntry>, k: KnowledgeKind, i: int)
    requires
        0 <= i < es.len(),
        es[i].source_id@.0 == k,
    ensures
        kind_index_items(es, k).contains(index_item(es[i].source_id@.1, es[i].retrieval_hint@)),
    decreases es.len(),
{
    let prev = kind_index_items(es.drop_last(), k);
    if i == es.len() - 1 {
        assert(kind_index_items(es, k) == prev.push(index_item(es[i].source_id@.1, es[i].retrieval_hint@)));
        assert(kind_index_items(es, k)[prev.len() as int] == index_item(es[i].source_id@.1, es[i].retrieval_hint@));
    } else {
        assert(es.drop_last()[i] == es[i]);
        lemma_kind_index_items_hold(es.drop_last(), k, i);
        let j = choose|j: int| 0 <= j < prev.len() && prev[j] == index_item(es[i].source_id@.1, es[i].retrieval_hint@);
        assert(kind_index_items(es, k)[j] == prev[j]);
    }
}

/// The index lines of one kind come from entries of that kind only.
proof fn lemma_kind_index_items_empty(es: Seq<KnowledgeIndexEntry>, k: KnowledgeKind)
    requires
        forall|i: int| 0 <= i < es.len() ==> (#[trigger] es[i]).source_id@.0 != k,
    ensures
        kind_index_items(es, k).len() == 0,
    decreases es.len(),
{
    if es.len() > 0 {
        assert forall|i: int| 0 <= i < es.drop_last().len() implies (#[trigger] es.drop_last()[i]).source_id@.0 != k by {
            assert(es.drop_last()[i] == es[i]);
        }
        lemma_kind_index_items_empty(es.drop_last(), k);
        assert(es.last() == es[es.len() - 1]);
    }
}

/// Law: the knowledge index offers every fact and every rumor of the
/// baseline's index by its id and hint; the facts, when there are any, open
/// it under their heading, and the rumors otherwise; an index of memories
/// alone offers nothing.
pub proof fn law_knowledge_index_offers_facts_and_rumors(es: Seq<KnowledgeIndexEntry>)
    ensures
        forall|i: int|
            0 <= i < es.len() && (#[trigger] es[i]).source_id@.0 != KnowledgeKind::Memory ==> contains_text(
                knowledge_index_text(es),
                index_item(es[i].source_id@.1, es[i].retrieval_hint@),
            ),
        (exists|i: int| 0 <= i < es.len() && (#[trigger] es[i]).source_id@.0 == KnowledgeKind::Fact) ==> starts_with(
            knowledge_index_text(es),
            "### Retrievable Facts"@ + "\n\n"@,
        ),
        (forall|i: int| 0 <= i < es.len() ==> (#[trigger] es[i]).source_id@.0 == KnowledgeKind::Memory) ==> knowledge_index_text(
            es,
        ).len() == 0,
{
    let a = kind_index_items(es, KnowledgeKind::Fact);
    let b = kind_index_items(es, KnowledgeKind::Rumor);
    lemma_two_sections("### Retrievable Facts"@, a, "### Retrievable Rumors"@, b);
    assert forall|i: int| 0 <= i < es.len() && (#[trigger] es[i]).source_id@.0 != KnowledgeKind::Memory implies contains_text(
        knowledge_index_text(es),
        index_item(es[i].source_id@.1, es[i].retrieval_hint@),
    ) by {
        let x = index_item(es[i].source_id@.1, es[i].retrieval_hint@);
        if es[i].source_id@.0 == KnowledgeKind::Fact {
            lemma_kind_index_items_hold(es, KnowledgeKind::Fact, i);
            let j = choose|j: int| 0 <= j < a.len() && a[j] == x;
            assert(contains_text(knowledge_index_text(es), a[j]));
        } else {
            lemma_kind_index_items_hold(es, KnowledgeKind::Rumor, i);
            let j = choose|j: int| 0 <= j < b.len() && b[j] == x;
            assert(contains_text(knowledge_index_text(es), b[j]));
        }
    }
    if exists|i: int| 0 <= i < es.len() && (#[trigger] es[i]).source_id@.0 == KnowledgeKind::Fact {
        let i = choose|i: int| 0 <= i < es.len() && (#[trigger] es[i]).source_id@.0 == KnowledgeKind::Fact;
        lemma_kind_index_items_hold(es, KnowledgeKind::Fact, i);
    }
    if forall|i: int| 0 <= i < es.len() ==> (#[trigger] es[i]).source_id@.0 == KnowledgeKind::Memory {
        lemma_kind_index_items_empty(es, KnowledgeKind::Fact);
        lemma_kind_index_items_empty(es, KnowledgeKind::Rumor);
    }
}

/// Law: the character index offers every role of the baseline's index by
/// its id and hint, under its heading; an empty index offers nothing.
pub proof fn law_role_index_offers_every_role(es: Seq<RoleIndexEntry>)
    ensures
        forall|i: int|
            0 <= i < es.len() ==> contains_text(
                role_index_text(es),
                index_item((#[trigger] es[i]).role_id@, es[i].retrieval_hint@),
            ),
        es.len() > 0 ==> starts_with(role_index_text(es), "### Retrievable Characters\n\n"@),
        es.len() == 0 ==> role_index_text(es).len() == 0,
{
    let items = es.map_values(|e: RoleIndexEntry| index_item(e.role_id@, e.retrieval_hint@));
    let h = "### Retrievable Characters\n\n"@;
    if es.len() > 0 {
        let t = role_index_text(es);
        let body = join(items, "\n"@);
        assert(t == h + body);
        assert(t.take(h.len() as int) =~= h);
        assert forall|i: int| 0 <= i < es.len() implies contains_text(
            t,
            index_item((#[trigger] es[i]).role_id@, es[i].retrieval_hint@),
        ) by {
            assert(items[i] == index_item(es[i].role_id@, es[i].retrieval_hint@));
            lemma_join_contains(items, "\n"@, i);
            assert(t.subrange(h.len() as int, (h.len() + body.len()) as int) =~= body);
            crate::text::lemma_contains_within(t, h.len() as int, body, items[i]);
        }
    }
}

/// Law: a constraint is listed by its id, its kind (`require` or `forbid`,
/// as it is one or the other) and its statement.
pub proof fn law_constraint_items_name_their_kind(c: StoryConstraint)
    ensures
        starts_with(constraint_item(c), "- constraint_id: "@ + quoted(c.id@)),
        match c.requirement {
            StoryConstraintRequirement::Require { statement } => contains_text(constraint_item(c), "\n  kind: require\n"@)
                && ends_with(constraint_item(c), "  requirement: "@ + quoted(statement@)),
            StoryConstraintRequirement::Forbid { statement } => contains_text(constraint_item(c), "\n  kind: forbid\n"@)
                && ends_with(constraint_item(c), "  requirement: "@ + quoted(statement@)),
        },
{
    assert("\n"@ + "  requirement: "@ =~= "\n  requirement: "@) by {
        reveal_strlit("\n  requirement: ");
        reveal_strlit("  requirement: ");
        reveal_strlit("\n");
    }
    assert(("\n  kind: "@ + "require"@ + "\n"@) =~= "\n  kind: require\n"@) by {
        reveal_strlit("\n  kind: ");
        reveal_strlit("require");
        reveal_strlit("\n");
        reveal_strlit("\n  kind: require\n");
    }
    assert(("\n  kind: "@ + "forbid"@ + "\n"@) =~= "\n  kind: forbid\n"@) by {
        reveal_strlit("\n  kind: ");
        reveal_strlit("forbid");
        reveal_strlit("\n");
        reveal_strlit("\n  kind: forbid\n");
    }
    match c.requirement {
        StoryConstraintRequirement::Require { statement } => {
            lemma_constraint_item_parts(c.id@, "require"@, statement@);
        },
        StoryConstraintRequirement::Forbid { statement } => {
            lemma_constraint_item_parts(c.id@, "forbid"@, statement@);
        },
    }
}

proof fn lemma_constraint_item_parts(id: Seq<char>, kind: Seq<char>, statement: Seq<char>)
    requires
        "\n"@ + "  requirement: "@ == "\n  requirement: "@,
    ensures
        ({
            let t = "- constraint_id: "@ + quoted(id) + "\n  kind: "@ + kind + "\n  requirement: "@ + quoted(statement);
            &&& starts_with(t, "- constraint_id: "@ + quoted(id))
            &&& contains_text(t, "\n  kind: "@ + kind + "\n"@)
            &&& ends_with(t, "  requirement: "@ + quoted(statement))
        }),
{
    let head = "- constraint_id: "@ + quoted(id);
    let line = "\n  kind: "@ + kind + "\n"@;
    let tail = "  requirement: "@ + quoted(statement);
    let t = head + "\n  kind: "@ + kind + "\n  requirement: "@ + quoted(statement);
    assert(t =~= head + line + tail);
    assert(t.take(head.len() as int) =~= head);
    assert(t.skip(t.len() - tail.len()) =~= tail);
    let o = head.len() as int;
    assert(t.subrange(o, o + line.len()) =~= line);
    lemma_contains_at(t, line, o);
}

/// Law: the active constraints, listed in a stable order of their ids,
/// show every constraint of the story.
pub proof fn law_constraints_text_lists_every_constraint(cs: Seq<StoryConstraint>, idx: Seq<usize>, j: int)
    requires
        is_stable_order(constraint_keys(cs), idx),
        cs.len() <= usize::MAX,
        0 <= j < cs.len(),
    ensures
        contains_text(constraints_text(cs, idx), constraint_item(cs[j])),
{
    let items = idx.map_values(|i: usize| constraint_item(cs[i as int]));
    assert(constraint_keys(cs).len() == cs.len());
    let ju = j as usize;
    assert(ju < constraint_keys(cs).len());
    assert(idx.contains(ju));
    let k = choose|k: int| 0 <= k < idx.len() && idx[k] == ju;
    assert(idx[k] as int == j);
    assert(items[k] == constraint_item(cs[idx[k] as int]));
    lemma_join_contains(items, "\n"@, k);
}

/// Law: the planner's prompt variables are, in order, the story profile,
/// the instance settings, the story summary (empty when the summary is
/// blank), the recent story, the player character, the relevant
/// characters, the relevant knowledge, the character and knowledge
/// indexes, the narrative direction, the active constraints (as rendered)
/// and the player's contribution as a JSON literal.
#[verifier::rlimit(100)]
pub proof fn law_planner_vars_carry_the_baseline(
    b: BaselineContext,
    plan: NarrativePlan,
    contribution: Seq<char>,
    constraints: Seq<char>,
)
    ensures
        ({
            let v = writer_planner_vars(b, plan, contribution, constraints);
            &&& v.len() == 12
            &&& v[0].0 == "story_profile"@
            &&& v[1] == ("instance_settings"@, "cast_policy: "@ + cast_policy_name(b.instance_settings.cast_policy))
            &&& v[2] == ("story_summary"@, if blank(b.story_continuity.summary@) {
                Seq::<char>::empty()
            } else {
                b.story_continuity.summary@
            })
            &&& v[3] == ("recent_story"@, join(bounded_views(b.story_continuity.recent_segments@), "\n\n"@))
            &&& v[4] == ("player_character"@, rendered_role(b.player_role, false))
            &&& v[5] == ("relevant_characters"@, rendered_roles(b.relevant_roles@))
            &&& v[6].0 == "relevant_knowledge"@
            &&& v[7] == ("character_index"@, role_index_text(b.role_index@))
            &&& v[8] == ("knowledge_index"@, knowledge_index_text(b.knowledge_index@))
            &&& v[9].0 == "narrative_direction"@
            &&& v[10] == ("active_story_constraints"@, constraints)
            &&& v[11] == ("player_contribution"@, quoted(contribution))
        }),
{
    let v = writer_planner_vars(b, plan, contribution, constraints);
    assert(v.len() == 12);
    assert(v[0].0 == "story_profile"@);
    assert(v[1] == ("instance_settings"@, "cast_policy: "@ + cast_policy_name(b.instance_settings.cast_policy)));
    assert(v[6].0 == "relevant_knowledge"@);
    assert(v[9].0 == "narrative_direction"@);
}

/// Law: the recent story shows every recent segment of the story.
pub proof fn law_recent_story_shows_every_segment(b: BaselineContext, i: int)
    requires
        0 <= i < b.story_continuity.recent_segments@.len(),
    ensures
        contains_text(
            join(bounded_views(b.story_continuity.recent_segments@), "\n\n"@),
            b.story_continuity.recent_segments@[i]@,
        ),
{
    let segs = bounded_views(b.story_continuity.recent_segments@);
    assert(segs[i] == b.story_continuity.recent_segments@[i]@);
    lemma_join_contains(segs, "\n\n"@, i);
}

/// Law: a rendered role opens with its id, and shows its name and its
/// location, and its label where the label differs from the name.
pub proof fn law_rendered_role_names_the_role(role: RoleContextView, collection: bool)
    ensures
        ({
            let first = if collection { "- "@ } else { ""@ };
            let rest = if collection { "  "@ } else { ""@ };
            let t = rendered_role(role, collection);
            &&& starts_with(t, field_line(first, "role_id"@, role.role_id@))
            &&& contains_text(t, field_line(rest, "name"@, role.profile.name@))
            &&& contains_text(t, field_line(rest, "location"@, role.state.location@))
            &&& role.role_label@ != role.profile.name@ ==> contains_text(t, field_line(rest, "role"@, role.role_label@))
        }),
{
    let first = if collection { "- "@ } else { ""@ };
    let rest = if collection { "  "@ } else { ""@ };
    let ls = role_lines(role, collection);
    let id_line = field_line(first, "role_id"@, role.role_id@);
    let name_line = field_line(rest, "name"@, role.profile.name@);
    let loc_line = field_line(rest, "location"@, role.state.location@);
    assert(ls[0] == id_line);
    assert(ls[1] == name_line);
    crate::text::lemma_join_starts_with_first(ls, "\n"@);
    lemma_join_contains(ls, "\n"@, 1);
    let label = if role.role_label@ != role.profile.name@ {
        seq![field_line(rest, "role"@, role.role_label@)]
    } else {
        Seq::empty()
    };
    let mid = label + optional_line(rest, "appearance"@, role.profile.appearance) + optional_line(
        rest,
        "personality"@,
        role.profile.personality,
    ) + optional_line(rest, "speaking_style"@, role.profile.speaking_style) + optional_line(
        rest,
        "background"@,
        role.background,
    );
    let k: int = (2 + mid.len()) as int;
    assert(ls[k] == loc_line);
    lemma_join_contains(ls, "\n"@, k);
    if role.role_label@ != role.profile.name@ {
        assert(ls[2] == field_line(rest, "role"@, role.role_label@));
        lemma_join_contains(ls, "\n"@, 2);
    }
}

} // verus!
