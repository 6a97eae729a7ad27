//! Building blocks of prompt text: `name: value` lines with JSON-quoted
//! values, and bracketed lists of quoted texts.
use crate::domain::BoundedText;
use crate::json::{push_quoted, quote, quoted};
use crate::text::{
    contains_text, join, join_strings, lemma_contains_trans, lemma_contains_within, lemma_join_contains,
    lemma_join_starts_with_first, lemma_starts_with_trans, starts_with, views_of,
};
use vstd::prelude::*;

verus! {

/// `indent`, the field name, `: ` and the JSON literal of the value.
pub open spec fn field_line(indent: Seq<char>, name: Seq<char>, value: Seq<char>) -> Seq<char> {
    indent + name + ": "@ + quoted(value)
}

pub open spec fn optional_line(indent: Seq<char>, name: Seq<char>, value: Option<BoundedText>) -> Seq<Seq<char>> {
    match value {
        Some(t) => seq![field_line(indent, name, t@)],
        None => Seq::empty(),
    }
}

pub open spec fn bounded_views(vs: Seq<BoundedText>) -> Seq<Seq<char>> {
    vs.map_values(|v: BoundedText| v@)
}

/// `[` the JSON literals separated by `, ` `]`.
pub open spec fn quoted_list_text(vs: Seq<Seq<char>>) -> Seq<char> {
    "["@ + join(vs.map_values(|v: Seq<char>| quoted(v)), ", "@) + "]"@
}

pub fn field_line_of(indent: &str, name: &str, value: &str) -> (r: String)
    ensures
        r@ == field_line(indent@, name@, value@),
{
    let mut r = String::new();
    r.append(indent);
    r.append(name);
    r.append(": ");
    push_quoted(&mut r, value);
    assert(r@ =~= field_line(indent@, name@, value@));
    r
}

pub fn push_optional(lines: &mut Vec<String>, indent: &str, name: &str, value: &Option<BoundedText>)
    ensures
        views_of(final(lines)@) == views_of(old(lines)@) + optional_line(indent@, name@, *value),
{
    match value {
        Some(v) => {
            let l = field_line_of(indent, name, v.as_str());
            lines.push(l);
            assert(views_of(lines@) =~= views_of(old(lines)@) + optional_line(indent@, name@, *value));
        },
        None => {
            assert(views_of(lines@) =~= views_of(old(lines)@) + optional_line(indent@, name@, *value));
        },
    }
}

pub fn quoted_list(values: &Vec<BoundedText>) -> (r: String)
    ensures
        r@ == quoted_list_text(bounded_views(values@)),
{
    let mut items: Vec<String> = Vec::new();
    let mut i: usize = 0;
    while i < values.len()
        invariant
            i <= values@.len(),
            items@.len() == i,
            forall|j: int| 0 <= j < i ==> (#[trigger] items@[j])@ == quoted(values@[j]@),
        decreases values@.len() - i,
    {
        items.push(quote(values[i].as_str()));
        i = i + 1;
    }
    assert(views_of(items@) =~= bounded_views(values@).map_values(|v: Seq<char>| quoted(v)));
    let mut r = String::new();
    r.append("[");
    let joined = join_strings(&items, ", ");
    r.append(joined.as_str());
    r.append("]");
    assert(r@ =~= quoted_list_text(bounded_views(values@)));
    r
}


/// A copy of a list of bounded texts.
pub fn copy_texts(vs: &Vec<BoundedText>) -> (r: Vec<BoundedText>)
    ensures
        bounded_views(r@) == bounded_views(vs@),
{
    let mut r: Vec<BoundedText> = Vec::new();
    let mut i: usize = 0;
    while i < vs.len()
        invariant
            i <= vs@.len(),
            r@.len() == i,
            forall|j: int| 0 <= j < i ==> (#[trigger] r@[j])@ == vs@[j]@,
        decreases vs@.len() - i,
    {
        r.push(vs[i].duplicate());
        i = i + 1;
    }
    assert(bounded_views(r@) =~= bounded_views(vs@));
    r
}


/// A titled section: the heading, a blank line, then the items one per line.
pub open spec fn section_text(heading: Seq<char>, items: Seq<Seq<char>>) -> Seq<char> {
    heading + "\n\n"@ + join(items, "\n"@)
}

/// The section when it has items, nothing otherwise.
pub open spec fn optional_section(heading: Seq<char>, items: Seq<Seq<char>>) -> Seq<Seq<char>> {
    if items.len() > 0 {
        seq![section_text(heading, items)]
    } else {
        Seq::empty()
    }
}

/// Each text as a `- ` bullet with its JSON literal.
pub open spec fn quoted_bullets(vs: Seq<Seq<char>>) -> Seq<Seq<char>> {
    vs.map_values(|v: Seq<char>| "- "@ + quoted(v))
}

/// Appends the section of `items` under `heading` when there are items.
pub fn push_section(sections: &mut Vec<String>, heading: &str, items: &Vec<String>)
    ensures
        views_of(final(sections)@) == views_of(old(sections)@) + optional_section(heading@, views_of(items@)),
{
    if items.len() > 0 {
        let mut s = String::new();
        s.append(heading);
        s.append("\n\n");
        let body = join_strings(items, "\n");
        s.append(body.as_str());
        sections.push(s);
    }
    assert(views_of(sections@) =~= views_of(old(sections)@) + optional_section(heading@, views_of(items@)));
}

/// The `- ` bullets of the JSON literals of `values`.
pub fn quoted_bullet_lines(values: &Vec<BoundedText>) -> (r: Vec<String>)
    ensures
        views_of(r@) == quoted_bullets(bounded_views(values@)),
{
    let mut r: Vec<String> = Vec::new();
    let mut i: usize = 0;
    while i < values.len()
        invariant
            i <= values@.len(),
            r@.len() == i,
            forall|j: int| 0 <= j < i ==> (#[trigger] r@[j])@ == "- "@ + quoted(values@[j]@),
        decreases values@.len() - i,
    {
        let mut l = String::new();
        l.append("- ");
        push_quoted(&mut l, values[i].as_str());
        r.push(l);
        i = i + 1;
    }
    assert(views_of(r@) =~= quoted_bullets(bounded_views(values@)));
    r
}


/// A section shows each of its items, after its heading and a blank line.
pub proof fn lemma_section_shows_items(heading: Seq<char>, items: Seq<Seq<char>>, i: int)
    requires
        0 <= i < items.len(),
    ensures
        contains_text(section_text(heading, items), items[i]),
        starts_with(section_text(heading, items), heading + "\n\n"@),
{
    let st = section_text(heading, items);
    let body = join(items, "\n"@);
    let o = (heading + "\n\n"@).len() as int;
    assert(st.subrange(o, o + body.len()) =~= body);
    lemma_join_contains(items, "\n"@, i);
    lemma_contains_within(st, o, body, items[i]);
    assert(st.take(o) =~= heading + "\n\n"@);
}

/// Two optional sections joined by a blank line show every item of each;
/// the first opens the text when it has items, the second otherwise; with
/// no items there is no text.
pub proof fn lemma_two_sections(h1: Seq<char>, a: Seq<Seq<char>>, h2: Seq<char>, b: Seq<Seq<char>>)
    ensures
        ({
            let t = join(optional_section(h1, a) + optional_section(h2, b), "\n\n"@);
            &&& forall|i: int| 0 <= i < a.len() ==> contains_text(t, #[trigger] a[i])
            &&& forall|i: int| 0 <= i < b.len() ==> contains_text(t, #[trigger] b[i])
            &&& a.len() > 0 ==> starts_with(t, h1 + "\n\n"@)
            &&& a.len() == 0 && b.len() > 0 ==> starts_with(t, h2 + "\n\n"@)
            &&& a.len() == 0 && b.len() == 0 ==> t.len() == 0
        }),
{
    let sections = optional_section(h1, a) + optional_section(h2, b);
    let t = join(sections, "\n\n"@);
    assert forall|i: int| 0 <= i < a.len() implies contains_text(t, #[trigger] a[i]) by {
        assert(sections[0] == section_text(h1, a));
        lemma_section_shows_items(h1, a, i);
        lemma_join_contains(sections, "\n\n"@, 0);
        lemma_contains_trans(t, sections[0], a[i]);
    }
    assert forall|i: int| 0 <= i < b.len() implies contains_text(t, #[trigger] b[i]) by {
        let last = sections.len() - 1;
        assert(sections[last] == section_text(h2, b));
        lemma_section_shows_items(h2, b, i);
        lemma_join_contains(sections, "\n\n"@, last);
        lemma_contains_trans(t, sections[last], b[i]);
    }
    if a.len() > 0 {
        assert(sections[0] == section_text(h1, a));
        lemma_section_shows_items(h1, a, 0);
        lemma_join_starts_with_first(sections, "\n\n"@);
        lemma_starts_with_trans(t, sections[0], h1 + "\n\n"@);
    } else if b.len() > 0 {
        assert(sections =~= optional_section(h2, b));
        assert(sections[0] == section_text(h2, b));
        lemma_section_shows_items(h2, b, 0);
        lemma_join_starts_with_first(sections, "\n\n"@);
        lemma_starts_with_trans(t, sections[0], h2 + "\n\n"@);
    } else {
        assert(sections.len() == 0);
    }
}

} // verus!
