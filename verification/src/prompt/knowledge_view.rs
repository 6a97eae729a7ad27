//! World and role knowledge as prompts show it, and the merge of the
//! baseline's world knowledge with what retrieval found.
use crate::domain::{BoundedText, KnowledgeKind, KnowledgeSourceId};
use crate::json::quoted;
use crate::render::{bounded_views, lemma_two_sections, optional_section, push_section, quoted_bullet_lines, quoted_bullets};
use crate::text::{contains_text, join, join_strings, owned, starts_with, text_eq, views_of};
use crate::turn::{RelevantWorldKnowledge, RetrievedKnowledgeItem, RetrievedWorldKnowledge, WorldKnowledgeEntry};
use vstd::prelude::*;

verus! {

#[derive(Debug, Clone)]
pub struct WorldKnowledgePromptView {
    pub facts: Vec<BoundedText>,
    pub rumors: Vec<BoundedText>,
}

#[derive(Debug, Clone)]
pub struct RoleKnowledgePromptView {
    pub known_rumors: Vec<BoundedText>,
    pub memories: Vec<BoundedText>,
}

/// Why knowledge could not be projected into a prompt.
#[derive(Debug, Clone)]
pub enum PromptProjectionError {
    /// Two entries with this id hold different contents.
    IdConflict { id: String },
}

pub type KnowledgeItemView = ((KnowledgeKind, Seq<char>), Seq<char>);

/// The content kept for an id, if any.
pub open spec fn content_for(kept: Seq<KnowledgeItemView>, id: (KnowledgeKind, Seq<char>)) -> Option<Seq<char>>
    decreases kept.len(),
{
    if kept.len() == 0 {
        None
    } else if kept.last().0 == id {
        Some(kept.last().1)
    } else {
        content_for(kept.drop_last(), id)
    }
}

/// Items merged in order, one per id (the first), or the id text of the
/// first item whose content differs from the one kept for its id.
pub open spec fn merged_items(items: Seq<KnowledgeItemView>) -> Result<Seq<KnowledgeItemView>, Seq<char>>
    decreases items.len(),
{
    if items.len() == 0 {
        Ok(Seq::empty())
    } else {
        match merged_items(items.drop_last()) {
            Err(e) => Err(e),
            Ok(kept) => {
                let it = items.last();
                match content_for(kept, it.0) {
                    Some(c) => if c != it.1 {
                        Err(it.0.1)
                    } else {
                        Ok(kept)
                    },
                    None => Ok(kept.push(it)),
                }
            },
        }
    }
}

pub open spec fn entry_items(es: Seq<WorldKnowledgeEntry>) -> Seq<KnowledgeItemView> {
    es.map_values(|e: WorldKnowledgeEntry| (e.source_id@, e.content@))
}

pub open spec fn retrieved_items(es: Seq<RetrievedKnowledgeItem>) -> Seq<KnowledgeItemView> {
    es.map_values(|e: RetrievedKnowledgeItem| (e.source_id@, e.content@))
}

pub open spec fn item_contents(items: Seq<KnowledgeItemView>) -> Seq<Seq<char>> {
    items.map_values(|it: KnowledgeItemView| it.1)
}

/// What merging a group returns: the contents kept, or the conflicting id.
pub open spec fn merged_group(items: Seq<KnowledgeItemView>) -> Result<Seq<Seq<char>>, Seq<char>> {
    match merged_items(items) {
        Ok(kept) => Ok(item_contents(kept)),
        Err(e) => Err(e),
    }
}

fn find_content<'a>(kept: &'a Vec<(KnowledgeSourceId, BoundedText)>, id: &KnowledgeSourceId) -> (r: Option<
    &'a BoundedText,
>)
    ensures
        match r {
            Some(c) => content_for(pair_items(kept@), id@) == Some(c@),
            None => content_for(pair_items(kept@), id@) is None,
        },
{
    let ghost kv = pair_items(kept@);
    let mut i: usize = kept.len();
    assert(kv.take(kv.len() as int) =~= kv);
    while i > 0
        invariant
            i <= kept@.len(),
            kv == pair_items(kept@),
            content_for(kv, id@) == content_for(kv.take(i as int), id@),
        decreases i,
    {
        let ghost pre = kv.take(i as int);
        assert(pre.drop_last() =~= kv.take(i - 1));
        assert(pre.last() == (kept@[i - 1].0@, kept@[i - 1].1@));
        if kept[i - 1].0.kind() == id.kind() && text_eq(kept[i - 1].0.as_str(), id.as_str()) {
            return Some(&kept[i - 1].1);
        }
        i = i - 1;
    }
    assert(kv.take(0) =~= Seq::<KnowledgeItemView>::empty());
    None
}

pub open spec fn pair_items(ps: Seq<(KnowledgeSourceId, BoundedText)>) -> Seq<KnowledgeItemView> {
    ps.map_values(|p: (KnowledgeSourceId, BoundedText)| (p.0@, p.1@))
}

/// Merges `items` in order: one content per id, the first; fails on an id
/// whose contents differ.
fn merge_group(items: &Vec<(KnowledgeSourceId, BoundedText)>) -> (r: Result<Vec<BoundedText>, PromptProjectionError>)
    ensures
        match merged_group(pair_items(items@)) {
            Ok(cs) => r matches Ok(v) && bounded_views(v@) == cs,
            Err(id) => r matches Err(PromptProjectionError::IdConflict { id: t }) && t@ == id,
        },
{
    let ghost iv = pair_items(items@);
    let mut kept: Vec<(KnowledgeSourceId, BoundedText)> = Vec::new();
    let mut i: usize = 0;
    assert(iv.take(0) =~= Seq::<KnowledgeItemView>::empty());
    assert(pair_items(kept@) =~= Seq::<KnowledgeItemView>::empty());
    while i < items.len()
        invariant
            i <= items@.len(),
            iv == pair_items(items@),
            merged_items(iv.take(i as int)) == Ok::<Seq<KnowledgeItemView>, Seq<char>>(pair_items(kept@)),
        decreases items@.len() - i,
    {
        let (id, content) = (&items[i].0, &items[i].1);
        proof {
            assert(iv.take(i + 1).drop_last() =~= iv.take(i as int));
            assert(iv.take(i + 1).last() == (id@, content@));
        }
        match find_content(&kept, id) {
            Some(existing) => {
                if !text_eq(existing.as_str(), content.as_str()) {
                    proof {
                        lemma_merge_error_sticks(iv, i as int + 1);
                    }
                    return Err(PromptProjectionError::IdConflict { id: owned(id.as_str()) });
                }
            },
            None => {
                let ghost before = kept@;
                kept.push((id.duplicate(), content.duplicate()));
                assert(pair_items(kept@) =~= pair_items(before).push((id@, content@)));
            },
        }
        i = i + 1;
    }
    assert(iv.take(iv.len() as int) =~= iv);
    let mut out: Vec<BoundedText> = Vec::new();
    let mut k: usize = 0;
    while k < kept.len()
        invariant
            k <= kept@.len(),
            out@.len() == k,
            forall|j: int| 0 <= j < k ==> (#[trigger] out@[j])@ == kept@[j].1@,
        decreases kept@.len() - k,
    {
        out.push(kept[k].1.duplicate());
        k = k + 1;
    }
    assert(bounded_views(out@) =~= item_contents(pair_items(kept@)));
    Ok(out)
}

proof fn lemma_merge_error_sticks(items: Seq<KnowledgeItemView>, k: int)
    requires
        0 <= k <= items.len(),
        merged_items(items.take(k)) is Err,
    ensures
        merged_items(items) == merged_items(items.take(k)),
    decreases items.len() - k,
{
    if k < items.len() {
        assert(items.take(k + 1).drop_last() =~= items.take(k));
        lemma_merge_error_sticks(items, k + 1);
    } else {
        assert(items.take(k) =~= items);
    }
}

fn entry_pairs(es: &Vec<WorldKnowledgeEntry>, rs: &Vec<RetrievedKnowledgeItem>) -> (r: Vec<(KnowledgeSourceId, BoundedText)>)
    ensures
        pair_items(r@) == entry_items(es@) + retrieved_items(rs@),
{
    let mut r: Vec<(KnowledgeSourceId, BoundedText)> = Vec::new();
    let mut i: usize = 0;
    while i < es.len()
        invariant
            i <= es@.len(),
            r@.len() == i,
            forall|j: int| 0 <= j < i ==> (#[trigger] r@[j]).0@ == es@[j].source_id@ && r@[j].1@ == es@[j].content@,
        decreases es@.len() - i,
    {
        r.push((es[i].source_id.duplicate(), es[i].content.duplicate()));
        i = i + 1;
    }
    let mut k: usize = 0;
    while k < rs.len()
        invariant
            k <= rs@.len(),
            r@.len() == es@.len() + k,
            forall|j: int| 0 <= j < es@.len() ==> (#[trigger] r@[j]).0@ == es@[j].source_id@ && r@[j].1@ == es@[j].content@,
            forall|j: int|
                0 <= j < k ==> (#[trigger] r@[es@.len() + j]).0@ == rs@[j].source_id@ && r@[es@.len() + j].1@
                    == rs@[j].content@,
        decreases rs@.len() - k,
    {
        r.push((rs[k].source_id.duplicate(), rs[k].content.duplicate()));
        k = k + 1;
    }
    let ghost both = entry_items(es@) + retrieved_items(rs@);
    assert forall|j: int| 0 <= j < r@.len() implies #[trigger] pair_items(r@)[j] == both[j] by {
        if j < es@.len() {
            assert(both[j] == entry_items(es@)[j]);
        } else {
            let m = j - es@.len();
            assert(r@[es@.len() + m].0@ == rs@[m].source_id@);
            assert(both[j] == retrieved_items(rs@)[m]);
        }
    }
    assert(pair_items(r@) =~= both);
    r
}

/// Merges the baseline's facts and rumors with the retrieved ones: each
/// group keeps one content per id, the first, in order; two contents for
/// one id are a conflict.
pub fn merge_world_knowledge(baseline: &RelevantWorldKnowledge, retrieved: &RetrievedWorldKnowledge) -> (r: Result<
    WorldKnowledgePromptView,
    PromptProjectionError,
>)
    ensures
        match merged_group(entry_items(baseline.facts@) + retrieved_items(retrieved.facts@)) {
            Err(id) => r matches Err(PromptProjectionError::IdConflict { id: t }) && t@ == id,
            Ok(facts) => match merged_group(entry_items(baseline.rumors@) + retrieved_items(retrieved.rumors@)) {
                Err(id) => r matches Err(PromptProjectionError::IdConflict { id: t }) && t@ == id,
                Ok(rumors) => r matches Ok(v) && bounded_views(v.facts@) == facts && bounded_views(v.rumors@) == rumors,
            },
        },
{
    let facts = match merge_group(&entry_pairs(&baseline.facts, &retrieved.facts)) {
        Ok(v) => v,
        Err(e) => {
            return Err(e);
        },
    };
    let rumors = match merge_group(&entry_pairs(&baseline.rumors, &retrieved.rumors)) {
        Ok(v) => v,
        Err(e) => {
            return Err(e);
        },
    };
    Ok(WorldKnowledgePromptView { facts, rumors })
}

fn entry_contents(es: &Vec<WorldKnowledgeEntry>) -> (r: Vec<BoundedText>)
    ensures
        bounded_views(r@) == item_contents(entry_items(es@)),
{
    let mut r: Vec<BoundedText> = Vec::new();
    let mut i: usize = 0;
    while i < es.len()
        invariant
            i <= es@.len(),
            r@.len() == i,
            forall|j: int| 0 <= j < i ==> (#[trigger] r@[j])@ == es@[j].content@,
        decreases es@.len() - i,
    {
        r.push(es[i].content.duplicate());
        i = i + 1;
    }
    assert(bounded_views(r@) =~= item_contents(entry_items(es@)));
    r
}

/// The baseline's world knowledge as a prompt view, unmerged.
pub fn world_knowledge_view_from_baseline(baseline: &RelevantWorldKnowledge) -> (r: WorldKnowledgePromptView)
    ensures
        bounded_views(r.facts@) == item_contents(entry_items(baseline.facts@)),
        bounded_views(r.rumors@) == item_contents(entry_items(baseline.rumors@)),
{
    WorldKnowledgePromptView { facts: entry_contents(&baseline.facts), rumors: entry_contents(&baseline.rumors) }
}

/// A `### Facts` and a `### Rumors` section of quoted bullets, each only
/// when it has items, separated by a blank line.
pub open spec fn world_knowledge_text(facts: Seq<Seq<char>>, rumors: Seq<Seq<char>>) -> Seq<char> {
    join(
        optional_section("### Facts"@, quoted_bullets(facts)) + optional_section("### Rumors"@, quoted_bullets(rumors)),
        "\n\n"@,
    )
}

pub open spec fn relevant_knowledge_text(k: WorldKnowledgePromptView) -> Seq<char> {
    world_knowledge_text(bounded_views(k.facts@), bounded_views(k.rumors@))
}

pub fn render_relevant_knowledge(knowledge: &WorldKnowledgePromptView) -> (r: String)
    ensures
        r@ == relevant_knowledge_text(*knowledge),
{
    let mut sections: Vec<String> = Vec::new();
    push_section(&mut sections, "### Facts", &quoted_bullet_lines(&knowledge.facts));
    push_section(&mut sections, "### Rumors", &quoted_bullet_lines(&knowledge.rumors));
    assert(views_of(sections@) =~= optional_section("### Facts"@, quoted_bullets(bounded_views(knowledge.facts@)))
        + optional_section("### Rumors"@, quoted_bullets(bounded_views(knowledge.rumors@))));
    join_strings(&sections, "\n\n")
}

/// A `### Known Rumors` and a `### Memories` section of quoted bullets,
/// each only when it has items, separated by a blank line.
pub open spec fn role_knowledge_text(k: RoleKnowledgePromptView) -> Seq<char> {
    join(
        optional_section("### Known Rumors"@, quoted_bullets(bounded_views(k.known_rumors@))) + optional_section(
            "### Memories"@,
            quoted_bullets(bounded_views(k.memories@)),
        ),
        "\n\n"@,
    )
}

pub fn render_role_knowledge(knowledge: &RoleKnowledgePromptView) -> (r: String)
    ensures
        r@ == role_knowledge_text(*knowledge),
{
    let mut sections: Vec<String> = Vec::new();
    push_section(&mut sections, "### Known Rumors", &quoted_bullet_lines(&knowledge.known_rumors));
    push_section(&mut sections, "### Memories", &quoted_bullet_lines(&knowledge.memories));
    assert(views_of(sections@) =~= optional_section(
        "### Known Rumors"@,
        quoted_bullets(bounded_views(knowledge.known_rumors@)),
    ) + optional_section("### Memories"@, quoted_bullets(bounded_views(knowledge.memories@))));
    join_strings(&sections, "\n\n")
}


pub open spec fn has_id(items: Seq<KnowledgeItemView>, id: (KnowledgeKind, Seq<char>)) -> bool {
    exists|i: int| 0 <= i < items.len() && (#[trigger] items[i]).0 == id
}

proof fn lemma_content_for(kept: Seq<KnowledgeItemView>, id: (KnowledgeKind, Seq<char>))
    ensures
        content_for(kept, id) is Some <==> has_id(kept, id),
        content_for(kept, id) matches Some(c) ==> exists|i: int| 0 <= i < kept.len() && kept[i] == (id, c),
    decreases kept.len(),
{
    if kept.len() > 0 {
        lemma_content_for(kept.drop_last(), id);
        if has_id(kept.drop_last(), id) {
            let i = choose|i: int| 0 <= i < kept.drop_last().len() && (#[trigger] kept.drop_last()[i]).0 == id;
            assert(kept[i].0 == id);
        }
        if has_id(kept, id) && kept.last().0 != id {
            let i = choose|i: int| 0 <= i < kept.len() && (#[trigger] kept[i]).0 == id;
            assert(kept.drop_last()[i].0 == id);
        }
        if let Some(c) = content_for(kept.drop_last(), id) {
            if kept.last().0 != id {
                let i = choose|i: int| 0 <= i < kept.drop_last().len() && kept.drop_last()[i] == (id, c);
                assert(kept[i] == (id, c));
            }
        }
    }
}

/// Law: a merge keeps each id once, keeps every id it was given, and keeps
/// for an id the content its first item had; it fails only when two items
/// with one id differ in content.
pub proof fn law_merge_keeps_first_of_each_id(items: Seq<KnowledgeItemView>)
    ensures
        merged_items(items) matches Ok(kept) ==> {
            &&& forall|a: int, b: int| #![trigger kept[a], kept[b]] 0 <= a < b < kept.len() ==> kept[a].0 != kept[b].0
            &&& forall|i: int| 0 <= i < items.len() ==> has_id(kept, (#[trigger] items[i]).0)
            &&& forall|a: int| 0 <= a < kept.len() ==> items.contains(#[trigger] kept[a])
            &&& forall|i: int, a: int|
                #![trigger items[i], kept[a]]
                0 <= i < items.len() && 0 <= a < kept.len() && items[i].0 == kept[a].0 ==> items[i].1 == kept[a].1
        },
        merged_items(items) is Err ==> exists|i: int, j: int|
            #![trigger items[i], items[j]]
            0 <= i < j < items.len() && items[i].0 == items[j].0 && items[i].1 != items[j].1,
    decreases items.len(),
{
    if items.len() > 0 {
        let prev = items.drop_last();
        law_merge_keeps_first_of_each_id(prev);
        let it = items.last();
        let n = items.len() - 1;
        assert(items[n] == it);
        assert forall|i: int| 0 <= i < prev.len() implies #[trigger] prev[i] == items[i] by {}
        if let Ok(kept) = merged_items(prev) {
            lemma_content_for(kept, it.0);
            match content_for(kept, it.0) {
                Some(c) => {
                    let k = choose|k: int| 0 <= k < kept.len() && kept[k] == (it.0, c);
                    assert(prev.contains(kept[k]));
                    let j2 = choose|j2: int| 0 <= j2 < prev.len() && prev[j2] == kept[k];
                    if c != it.1 {
                        assert(items[j2].0 == items[n].0 && items[j2].1 != items[n].1);
                    } else {
                        assert forall|a: int| 0 <= a < kept.len() implies items.contains(#[trigger] kept[a]) by {
                            assert(prev.contains(kept[a]));
                            let j = choose|j: int| 0 <= j < prev.len() && prev[j] == kept[a];
                            assert(items[j] == kept[a]);
                        }
                        assert forall|i: int| 0 <= i < items.len() implies has_id(kept, (#[trigger] items[i]).0) by {
                            if i < n {
                                assert(has_id(kept, prev[i].0));
                            }
                        }
                        assert forall|i: int, a: int|
                            #![trigger items[i], kept[a]]
                            0 <= i < items.len() && 0 <= a < kept.len() && items[i].0 == kept[a].0 implies items[i].1
                            == kept[a].1 by {
                            if i == n {
                                if a != k {
                                    if a < k {
                                        assert(kept[a].0 != kept[k].0);
                                    } else {
                                        assert(kept[k].0 != kept[a].0);
                                    }
                                }
                            } else {
                                assert(prev[i] == items[i]);
                            }
                        }
                    }
                },
                None => {
                    let k2 = kept.push(it);
                    assert(merged_items(items) == Ok::<Seq<KnowledgeItemView>, Seq<char>>(k2));
                    assert forall|i: int| 0 <= i < items.len() implies has_id(k2, (#[trigger] items[i]).0) by {
                        if i < n {
                            assert(has_id(kept, prev[i].0));
                            let a = choose|a: int| 0 <= a < kept.len() && (#[trigger] kept[a]).0 == prev[i].0;
                            assert(k2[a] == kept[a]);
                        } else {
                            assert(k2[kept.len() as int] == it);
                        }
                    }
                    assert forall|a: int| 0 <= a < k2.len() implies items.contains(#[trigger] k2[a]) by {
                        if a < kept.len() {
                            assert(prev.contains(kept[a]));
                            let j = choose|j: int| 0 <= j < prev.len() && prev[j] == kept[a];
                            assert(items[j] == kept[a]);
                        } else {
                            assert(items[n] == k2[a]);
                        }
                    }
                    assert forall|a: int, b: int| #![trigger k2[a], k2[b]] 0 <= a < b < k2.len() implies k2[a].0
                        != k2[b].0 by {
                        if b == kept.len() {
                            assert(k2[a] == kept[a]);
                            if kept[a].0 == it.0 {
                                assert(has_id(kept, it.0));
                            }
                        } else {
                            assert(k2[a] == kept[a] && k2[b] == kept[b]);
                        }
                    }
                    assert forall|i: int, a: int|
                        #![trigger items[i], k2[a]]
                        0 <= i < items.len() && 0 <= a < k2.len() && items[i].0 == k2[a].0 implies items[i].1
                        == k2[a].1 by {
                        if a == kept.len() {
                            if i < n {
                                assert(has_id(kept, prev[i].0));
                            }
                        } else {
                            assert(k2[a] == kept[a]);
                            if i == n {
                                assert(has_id(kept, it.0));
                            } else {
                                assert(prev[i] == items[i]);
                            }
                        }
                    }
                },
            }
        } else {
            let (i, j) = choose|i: int, j: int|
                #![trigger prev[i], prev[j]]
                0 <= i < j < prev.len() && prev[i].0 == prev[j].0 && prev[i].1 != prev[j].1;
            assert(items[i] == prev[i] && items[j] == prev[j]);
        }
    }
}


/// The section headings, each followed by a blank line.
proof fn lemma_headings()
    ensures
        "### Known Rumors"@ + "\n\n"@ == "### Known Rumors\n\n"@,
        "### Memories"@ + "\n\n"@ == "### Memories\n\n"@,
        "### Facts"@ + "\n\n"@ == "### Facts\n\n"@,
        "### Rumors"@ + "\n\n"@ == "### Rumors\n\n"@,
{
    reveal_strlit("\n\n");
    reveal_strlit("### Known Rumors");
    reveal_strlit("### Known Rumors\n\n");
    assert("### Known Rumors"@ + "\n\n"@ =~= "### Known Rumors\n\n"@);
    reveal_strlit("### Memories");
    reveal_strlit("### Memories\n\n");
    assert("### Memories"@ + "\n\n"@ =~= "### Memories\n\n"@);
    reveal_strlit("### Facts");
    reveal_strlit("### Facts\n\n");
    assert("### Facts"@ + "\n\n"@ =~= "### Facts\n\n"@);
    reveal_strlit("### Rumors");
    reveal_strlit("### Rumors\n\n");
    assert("### Rumors"@ + "\n\n"@ =~= "### Rumors\n\n"@);
}

/// Law: a role's rendered knowledge shows each known rumor and each memory
/// as a bullet with its JSON literal; the known rumors, when there are any,
/// open the text under their heading, and the memories otherwise; a role
/// that knows nothing renders as nothing.
pub proof fn law_role_knowledge_shows_rumors_and_memories(k: RoleKnowledgePromptView)
    ensures
        forall|i: int|
            0 <= i < k.known_rumors@.len() ==> contains_text(
                role_knowledge_text(k),
                "- "@ + quoted(#[trigger] k.known_rumors@[i]@),
            ),
        forall|i: int|
            0 <= i < k.memories@.len() ==> contains_text(role_knowledge_text(k), "- "@ + quoted(#[trigger] k.memories@[i]@)),
        k.known_rumors@.len() > 0 ==> starts_with(role_knowledge_text(k), "### Known Rumors\n\n"@),
        k.known_rumors@.len() == 0 && k.memories@.len() > 0 ==> starts_with(role_knowledge_text(k), "### Memories\n\n"@),
        k.known_rumors@.len() == 0 && k.memories@.len() == 0 ==> role_knowledge_text(k).len() == 0,
{
    let a = quoted_bullets(bounded_views(k.known_rumors@));
    let b = quoted_bullets(bounded_views(k.memories@));
    lemma_two_sections("### Known Rumors"@, a, "### Memories"@, b);
    lemma_headings();
    assert forall|i: int| 0 <= i < k.known_rumors@.len() implies contains_text(
        role_knowledge_text(k),
        "- "@ + quoted(#[trigger] k.known_rumors@[i]@),
    ) by {
        assert(a[i] == "- "@ + quoted(k.known_rumors@[i]@));
    }
    assert forall|i: int| 0 <= i < k.memories@.len() implies contains_text(
        role_knowledge_text(k),
        "- "@ + quoted(#[trigger] k.memories@[i]@),
    ) by {
        assert(b[i] == "- "@ + quoted(k.memories@[i]@));
    }
}

/// Law: the rendered world knowledge shows each fact and each rumor as a
/// bullet with its JSON literal; the facts, when there are any, open the
/// text under their heading, and the rumors otherwise; no knowledge renders
/// as nothing.
pub proof fn law_world_knowledge_shows_facts_and_rumors(k: WorldKnowledgePromptView)
    ensures
        forall|i: int|
            0 <= i < k.facts@.len() ==> contains_text(relevant_knowledge_text(k), "- "@ + quoted(#[trigger] k.facts@[i]@)),
        forall|i: int|
            0 <= i < k.rumors@.len() ==> contains_text(relevant_knowledge_text(k), "- "@ + quoted(#[trigger] k.rumors@[i]@)),
        k.facts@.len() > 0 ==> starts_with(relevant_knowledge_text(k), "### Facts\n\n"@),
        k.facts@.len() == 0 && k.rumors@.len() > 0 ==> starts_with(relevant_knowledge_text(k), "### Rumors\n\n"@),
        k.facts@.len() == 0 && k.rumors@.len() == 0 ==> relevant_knowledge_text(k).len() == 0,
{
    let a = quoted_bullets(bounded_views(k.facts@));
    let b = quoted_bullets(bounded_views(k.rumors@));
    lemma_two_sections("### Facts"@, a, "### Rumors"@, b);
    lemma_headings();
    assert forall|i: int| 0 <= i < k.facts@.len() implies contains_text(
        relevant_knowledge_text(k),
        "- "@ + quoted(#[trigger] k.facts@[i]@),
    ) by {
        assert(a[i] == "- "@ + quoted(k.facts@[i]@));
    }
    assert forall|i: int| 0 <= i < k.rumors@.len() implies contains_text(
        relevant_knowledge_text(k),
        "- "@ + quoted(#[trigger] k.rumors@[i]@),
    ) by {
        assert(b[i] == "- "@ + quoted(k.rumors@[i]@));
    }
}

} // verus!
