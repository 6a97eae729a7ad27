//! Asset sections of a template file: `{# @asset {...} #}` ... `{# @endasset #}`
//! blocks, each naming an asset and the slots it serves.
use crate::prompt::error::PromptError;
use crate::prompt::model::{slot_id_views, AssetRef, SlotId};
use crate::text::{blank, decimal, is_blank, owned, push_decimal, text_eq, trim, trim_of, views_of};
use vstd::prelude::*;

verus! {

#[derive(Debug, Clone)]
pub struct PromptAssetSection {
    pub asset_id: AssetRef,
    pub slot_ids: Vec<SlotId>,
    pub body: String,
    pub source_anchor: String,
}

/// The metadata of an `@asset` marker, as decoded from its JSON.
#[derive(Debug, Clone)]
pub struct SectionMetadata {
    pub asset_id: String,
    pub slot_ids: Vec<String>,
}

/// The metadata as values: asset id and slot ids.
pub type MetadataView = (Seq<char>, Seq<Seq<char>>);

impl View for SectionMetadata {
    type V = MetadataView;

    open spec fn view(&self) -> MetadataView {
        (self.asset_id@, views_of(self.slot_ids@))
    }
}

/// What a line is: an `@asset` marker with its metadata JSON, or an
/// `@endasset` marker.
pub enum MarkerView {
    Start(Seq<char>),
    End,
}

pub open spec fn starts_with(s: Seq<char>, p: Seq<char>) -> bool {
    s.len() >= p.len() && s.take(p.len() as int) == p
}

pub open spec fn ends_with(s: Seq<char>, p: Seq<char>) -> bool {
    s.len() >= p.len() && s.skip(s.len() - p.len()) == p
}

/// A marker is a trimmed line `{# ... #}` whose trimmed payload is
/// `@endasset`, or `@asset` followed by metadata JSON (which must not be
/// blank). Any other line is no marker.
pub open spec fn marker_of(line: Seq<char>) -> Result<Option<MarkerView>, Seq<char>> {
    let t = trim(line);
    if !starts_with(t, "{#"@) {
        Ok(None)
    } else {
        let rest = t.skip(2);
        if !ends_with(rest, "#}"@) {
            Ok(None)
        } else {
            let payload = trim(rest.take(rest.len() - 2));
            if payload == "@endasset"@ {
                Ok(Some(MarkerView::End))
            } else if !starts_with(payload, "@asset"@) {
                Ok(None)
            } else {
                let json = trim(payload.skip(6));
                if json.len() == 0 {
                    Err("`@asset` marker is missing metadata JSON"@)
                } else {
                    Ok(Some(MarkerView::Start(json)))
                }
            }
        }
    }
}

/// The position after the line that starts at `pos` (after its `\n`, or at
/// the end of the text).
pub open spec fn line_end(s: Seq<char>, pos: int) -> int
    decreases s.len() - pos,
{
    if pos >= s.len() {
        s.len() as int
    } else if s[pos] == '\n' {
        pos + 1
    } else {
        line_end(s, pos + 1)
    }
}

/// A line without its trailing `\r` and `\n` characters.
pub open spec fn strip_eol(s: Seq<char>) -> Seq<char>
    decreases s.len(),
{
    if s.len() > 0 && (s.last() == '\r' || s.last() == '\n') {
        strip_eol(s.drop_last())
    } else {
        s
    }
}

/// A body without the line break that opens it and without the last of two
/// line breaks that close it.
pub open spec fn structural_body(b: Seq<char>) -> Seq<char> {
    let b1 = if starts_with(b, "\r\n"@) {
        b.skip(2)
    } else if starts_with(b, "\n"@) {
        b.skip(1)
    } else {
        b
    };
    if ends_with(b1, "\r\n\r\n"@) {
        b1.take(b1.len() - 2)
    } else if ends_with(b1, "\n\n"@) {
        b1.take(b1.len() - 1)
    } else {
        b1
    }
}

/// A section as values: asset id, slot ids, body, source anchor.
pub type SectionView = (Seq<char>, Seq<Seq<char>>, Seq<char>, Seq<char>);

pub open spec fn has_section(ss: Seq<SectionView>, id: Seq<char>) -> bool {
    exists|i: int| 0 <= i < ss.len() && (#[trigger] ss[i]).0 == id
}

/// Why a marker's metadata is refused, if it is.
pub open spec fn metadata_error(path: Seq<char>, line: nat, m: MetadataView) -> Option<Seq<char>> {
    if blank(m.0) {
        Some("empty asset_id in `"@ + path + "` at line "@ + decimal(line))
    } else if m.1.len() == 0 {
        Some("section `"@ + m.0 + "` in `"@ + path + "` must declare a non-empty slot_ids array"@)
    } else if exists|i: int| 0 <= i < m.1.len() && blank(#[trigger] m.1[i]) {
        Some("section `"@ + m.0 + "` in `"@ + path + "` contains an empty slot id"@)
    } else {
        None
    }
}

/// The scan of a template from the line at `pos` (line number `line`):
/// `open` is the section being read (its metadata, where its body starts and
/// the line it started on), `done` the sections read so far, `metas[next]`
/// the decoded metadata of the next `@asset` marker (or why it could not be
/// decoded). The result is the sections in order, or the first error.
pub open spec fn scan_sections(
    path: Seq<char>,
    s: Seq<char>,
    pos: int,
    line: nat,
    open: Option<(MetadataView, int, nat)>,
    done: Seq<SectionView>,
    saw: bool,
    metas: Seq<Result<MetadataView, Seq<char>>>,
    next: int,
) -> Result<Seq<SectionView>, Seq<char>>
    decreases s.len() - pos,
{
    if pos < 0 || pos >= s.len() {
        match open {
            Some((m, _, start)) => Err(
                "unclosed @asset block for `"@ + m.0 + "` in `"@ + path + "` starting at line "@ + decimal(start),
            ),
            None => if !saw {
                Err("template `"@ + path + "` must use @asset / @endasset sections"@)
            } else {
                Ok(done)
            },
        }
    } else {
        let end = line_end(s, pos);
        let text = strip_eol(s.subrange(pos, end));
        let n = line + 1;
        if end <= pos || end > s.len() {
            Ok(done)
        } else {
            match marker_of(text) {
                Err(e) => Err(e),
                Ok(Some(MarkerView::Start(_))) => if next < 0 || next >= metas.len() {
                    Err("invalid @asset metadata JSON"@)
                } else {
                    match metas[next] {
                        Err(e) => Err("invalid @asset metadata JSON: "@ + e),
                        Ok(m) => match open {
                            Some((o, _, _)) => Err(
                                "nested @asset block in `"@ + path + "` at line "@ + decimal(n) + " while `"@ + o.0
                                    + "` is still open"@,
                            ),
                            None => match metadata_error(path, n, m) {
                                Some(e) => Err(e),
                                None => scan_sections(path, s, end, n, Some((m, end, n)), done, true, metas, next + 1),
                            },
                        },
                    }
                },
                Ok(Some(MarkerView::End)) => match open {
                    None => Err("unexpected @endasset in `"@ + path + "` at line "@ + decimal(n)),
                    Some((m, start, _)) => if has_section(done, m.0) {
                        Err("duplicate asset section `"@ + m.0 + "` in `"@ + path + "`"@)
                    } else {
                        scan_sections(
                            path,
                            s,
                            end,
                            n,
                            None,
                            done.push((m.0, m.1, structural_body(s.subrange(start, pos)), path + "#"@ + m.0)),
                            saw,
                            metas,
                            next,
                        )
                    },
                },
                Ok(None) => if open is None && !blank(text) {
                    Err("unexpected content outside @asset block in `"@ + path + "` at line "@ + decimal(n))
                } else {
                    scan_sections(path, s, end, n, open, done, saw, metas, next)
                },
            }
        }
    }
}

pub open spec fn section_view(x: PromptAssetSection) -> SectionView {
    (x.asset_id@, slot_id_views(x.slot_ids@), x.body@, x.source_anchor@)
}

pub open spec fn section_views(ss: Seq<PromptAssetSection>) -> Seq<SectionView> {
    ss.map_values(|x: PromptAssetSection| section_view(x))
}

pub open spec fn metadata_results(ms: Seq<Result<SectionMetadata, String>>) -> Seq<Result<MetadataView, Seq<char>>> {
    ms.map_values(
        |m: Result<SectionMetadata, String>|
            match m {
                Ok(v) => Ok(v@),
                Err(e) => Err(e@),
            },
    )
}

fn starts_with_str(s: &str, p: &str) -> (r: bool)
    ensures
        r == starts_with(s@, p@),
{
    let n = s.unicode_len();
    let m = p.unicode_len();
    if n < m {
        return false;
    }
    let head = s.substring_char(0, m);
    text_eq(head, p)
}

fn ends_with_str(s: &str, p: &str) -> (r: bool)
    ensures
        r == ends_with(s@, p@),
{
    let n = s.unicode_len();
    let m = p.unicode_len();
    if n < m {
        return false;
    }
    let tail = s.substring_char(n - m, n);
    assert(s@.skip(n - m) =~= s@.subrange((n - m) as int, n as int));
    text_eq(tail, p)
}

/// Classifies a line as a marker, per `marker_of`.
pub fn marker_text(line: &str) -> (r: Result<Option<(bool, String)>, PromptError>)
    ensures
        match marker_of(line@) {
            Err(e) => r matches Err(PromptError::CatalogLoad(t)) && t@ == e,
            Ok(None) => r matches Ok(None),
            Ok(Some(MarkerView::End)) => r matches Ok(Some((false, _))),
            Ok(Some(MarkerView::Start(json))) => r matches Ok(Some((true, j))) && j@ == json,
        },
{
    let t = trim_of(line);
    if !starts_with_str(t, "{#") {
        return Ok(None);
    }
    proof {
        reveal_strlit("{#");
    }
    let n = t.unicode_len();
    let rest = t.substring_char(2, n);
    assert(t@.skip(2) =~= t@.subrange(2, n as int));
    if !ends_with_str(rest, "#}") {
        return Ok(None);
    }
    let rn = rest.unicode_len();
    proof {
        reveal_strlit("#}");
    }
    let inner = rest.substring_char(0, rn - 2);
    assert(rest@.take(rest@.len() - 2) =~= rest@.subrange(0, rn - 2));
    let payload = trim_of(inner);
    if text_eq(payload, "@endasset") {
        return Ok(Some((false, String::new())));
    }
    if !starts_with_str(payload, "@asset") {
        return Ok(None);
    }
    proof {
        reveal_strlit("@asset");
    }
    let pn = payload.unicode_len();
    let after = payload.substring_char(6, pn);
    assert(payload@.skip(6) =~= payload@.subrange(6, pn as int));
    let json = trim_of(after);
    if json.unicode_len() == 0 {
        return Err(PromptError::CatalogLoad(owned("`@asset` marker is missing metadata JSON")));
    }
    Ok(Some((true, owned(json))))
}

/// The position after the line that starts at `pos`.
fn next_line_end(s: &str, n: usize, pos: usize) -> (r: usize)
    requires
        n == s@.len(),
        pos <= n,
    ensures
        r == line_end(s@, pos as int),
        pos < n ==> pos < r <= n,
{
    let mut i = pos;
    while i < n && s.get_char(i) != '\n'
        invariant
            n == s@.len(),
            pos <= i <= n,
            line_end(s@, pos as int) == line_end(s@, i as int),
            forall|j: int| pos <= j < i ==> s@[j] != '\n',
        decreases n - i,
    {
        i = i + 1;
    }
    if i < n {
        i + 1
    } else {
        i
    }
}

fn strip_eol_of(s: &str) -> (r: &str)
    ensures
        r@ == strip_eol(s@),
{
    let mut k: usize = s.unicode_len();
    assert(s@.subrange(0, k as int) =~= s@);
    while k > 0 && (s.get_char(k - 1) == '\r' || s.get_char(k - 1) == '\n')
        invariant
            k <= s@.len(),
            strip_eol(s@) == strip_eol(s@.subrange(0, k as int)),
        decreases k,
    {
        assert(s@.subrange(0, k as int).drop_last() =~= s@.subrange(0, k - 1));
        k = k - 1;
    }
    s.substring_char(0, k)
}

/// The body of a section without its structural padding.
pub fn trim_structural_padding(body: &str) -> (r: &str)
    ensures
        r@ == structural_body(body@),
{
    let n = body.unicode_len();
    let b1: &str = if starts_with_str(body, "\r\n") {
        proof {
            reveal_strlit("\r\n");
        }
        assert(body@.skip(2) =~= body@.subrange(2, n as int));
        body.substring_char(2, n)
    } else if starts_with_str(body, "\n") {
        proof {
            reveal_strlit("\n");
        }
        assert(body@.skip(1) =~= body@.subrange(1, n as int));
        body.substring_char(1, n)
    } else {
        body
    };
    let m = b1.unicode_len();
    if ends_with_str(b1, "\r\n\r\n") {
        proof {
            reveal_strlit("\r\n\r\n");
        }
        assert(b1@.take(b1@.len() - 2) =~= b1@.subrange(0, m - 2));
        b1.substring_char(0, m - 2)
    } else if ends_with_str(b1, "\n\n") {
        proof {
            reveal_strlit("\n\n");
        }
        assert(b1@.take(b1@.len() - 1) =~= b1@.subrange(0, m - 1));
        b1.substring_char(0, m - 1)
    } else {
        b1
    }
}

#[verifier::loop_isolation(false)]
fn metadata_problem(path: &str, line: usize, m: &SectionMetadata) -> (r: Option<String>)
    ensures
        match metadata_error(path@, line as nat, m@) {
            Some(e) => r matches Some(t) && t@ == e,
            None => r is None,
        },
{
    if is_blank(m.asset_id.as_str()) {
        let mut t = owned("empty asset_id in `");
        t.append(path);
        t.append("` at line ");
        push_decimal(&mut t, line as u64);
        return Some(t);
    }
    if m.slot_ids.len() == 0 {
        let mut t = owned("section `");
        t.append(m.asset_id.as_str());
        t.append("` in `");
        t.append(path);
        t.append("` must declare a non-empty slot_ids array");
        return Some(t);
    }
    let mut i: usize = 0;
    while i < m.slot_ids.len()
        invariant
            i <= m.slot_ids@.len(),
            forall|j: int| 0 <= j < i ==> !blank(#[trigger] views_of(m.slot_ids@)[j]),
        decreases m.slot_ids@.len() - i,
    {
        if is_blank(m.slot_ids[i].as_str()) {
            assert(blank(views_of(m.slot_ids@)[i as int]));
            let mut t = owned("section `");
            t.append(m.asset_id.as_str());
            t.append("` in `");
            t.append(path);
            t.append("` contains an empty slot id");
            return Some(t);
        }
        i = i + 1;
    }
    None
}

fn section_listed(done: &Vec<PromptAssetSection>, id: &str) -> (r: bool)
    ensures
        r == has_section(section_views(done@), id@),
{
    let mut i: usize = 0;
    while i < done.len()
        invariant
            i <= done@.len(),
            forall|j: int| 0 <= j < i ==> (#[trigger] done@[j]).asset_id@ != id@,
        decreases done@.len() - i,
    {
        if text_eq(done[i].asset_id.as_str(), id) {
            assert(section_views(done@)[i as int].0 == id@);
            return true;
        }
        i = i + 1;
    }
    proof {
        if has_section(section_views(done@), id@) {
            let k = choose|k: int| 0 <= k < section_views(done@).len() && (#[trigger] section_views(done@)[k]).0 == id@;
            assert(done@[k].asset_id@ == id@);
        }
    }
    false
}

fn copy_slot_ids(ids: &Vec<String>) -> (r: Vec<SlotId>)
    ensures
        slot_id_views(r@) == views_of(ids@),
{
    let mut r: Vec<SlotId> = Vec::new();
    let mut i: usize = 0;
    while i < ids.len()
        invariant
            i <= ids@.len(),
            r@.len() == i,
            forall|j: int| 0 <= j < i ==> (#[trigger] r@[j])@ == ids@[j]@,
        decreases ids@.len() - i,
    {
        r.push(SlotId::new(ids[i].clone()));
        i = i + 1;
    }
    assert(slot_id_views(r@) =~= views_of(ids@));
    r
}

fn catalog_error(message: String) -> (r: PromptError)
    ensures
        r matches PromptError::CatalogLoad(t) && t@ == message@,
{
    PromptError::CatalogLoad(message)
}

/// Extracts the asset sections of a template, given the decoded metadata of
/// its `@asset` markers in order (`Err` with the decoder's message where a
/// marker's JSON could not be decoded). Fails on a marker without metadata,
/// on invalid metadata, on nested, unclosed, unexpected or duplicate
/// sections, on content outside sections, and on a template without
/// sections.
pub fn extract_asset_sections(
    source_path: &str,
    content: &str,
    metadata: &Vec<Result<SectionMetadata, String>>,
) -> (r: Result<Vec<PromptAssetSection>, PromptError>)
    ensures
        match scan_sections(
            source_path@,
            content@,
            0,
            0,
            None,
            Seq::empty(),
            false,
            metadata_results(metadata@),
            0,
        ) {
            Err(e) => r matches Err(PromptError::CatalogLoad(t)) && t@ == e,
            Ok(ss) => r matches Ok(v) && section_views(v@) == ss,
        },
{
    let ghost path = source_path@;
    let ghost s = content@;
    let ghost metas = metadata_results(metadata@);
    let ghost goal = scan_sections(path, s, 0, 0, None, Seq::empty(), false, metas, 0);
    let n = content.unicode_len();
    let mut done: Vec<PromptAssetSection> = Vec::new();
    let mut open: Option<(usize, usize, usize)> = None;  // metadata index, body start, start line
    let mut saw = false;
    let mut next: usize = 0;
    let mut pos: usize = 0;
    let mut line: usize = 0;
    assert(section_views(done@) =~= Seq::<SectionView>::empty());
    while pos < n
        invariant
            n == s.len(),
            path == source_path@,
            s == content@,
            metas == metadata_results(metadata@),
            goal == scan_sections(path, s, 0, 0, None, Seq::empty(), false, metas, 0),
            pos <= n,
            line <= pos,
            next <= metadata@.len(),
            open matches Some((k, start, _)) ==> k < metadata@.len() && metadata@[k as int] is Ok && start <= pos,
            goal == scan_sections(
                path,
                s,
                pos as int,
                line as nat,
                match open {
                    Some((k, start, sl)) => Some((metas[k as int]->Ok_0, start as int, sl as nat)),
                    None => None,
                },
                section_views(done@),
                saw,
                metas,
                next as int,
            ),
        decreases n - pos,
    {
        let end = next_line_end(content, n, pos);
        let raw = content.substring_char(pos, end);
        let text = strip_eol_of(raw);
        let number = line + 1;
        match marker_text(text) {
            Err(e) => {
                return Err(e);
            },
            Ok(Some((true, _))) => {
                if next >= metadata.len() {
                    return Err(catalog_error(owned("invalid @asset metadata JSON")));
                }
                match &metadata[next] {
                    Err(e) => {
                        let mut t = owned("invalid @asset metadata JSON: ");
                        t.append(e.as_str());
                        return Err(catalog_error(t));
                    },
                    Ok(_) => {},
                }
                match open {
                    Some((k, _, _)) => {
                        let mut t = owned("nested @asset block in `");
                        t.append(source_path);
                        t.append("` at line ");
                        push_decimal(&mut t, number as u64);
                        t.append(" while `");
                        match &metadata[k] {
                            Ok(m) => t.append(m.asset_id.as_str()),
                            Err(_) => {},
                        }
                        t.append("` is still open");
                        return Err(catalog_error(t));
                    },
                    None => {},
                }
                match &metadata[next] {
                    Err(e) => {
                        let mut t = owned("invalid @asset metadata JSON: ");
                        t.append(e.as_str());
                        return Err(catalog_error(t));
                    },
                    Ok(m) => {
                        match metadata_problem(source_path, number, m) {
                            Some(t) => {
                                return Err(catalog_error(t));
                            },
                            None => {},
                        }
                    },
                }
                open = Some((next, end, number));
                next = next + 1;
                saw = true;
            },
            Ok(Some((false, _))) => {
                let (k, start) = match open {
                    None => {
                        let mut t = owned("unexpected @endasset in `");
                        t.append(source_path);
                        t.append("` at line ");
                        push_decimal(&mut t, number as u64);
                        return Err(catalog_error(t));
                    },
                    Some((k, start, _)) => (k, start),
                };
                let m = match &metadata[k] {
                    Ok(m) => m,
                    Err(_) => {
                        return Err(catalog_error(String::new()));
                    },
                };
                if section_listed(&done, m.asset_id.as_str()) {
                    let mut t = owned("duplicate asset section `");
                    t.append(m.asset_id.as_str());
                    t.append("` in `");
                    t.append(source_path);
                    t.append("`");
                    return Err(catalog_error(t));
                }
                let mut anchor = owned(source_path);
                anchor.append("#");
                anchor.append(m.asset_id.as_str());
                let body = owned(trim_structural_padding(content.substring_char(start, pos)));
                let ghost before = section_views(done@);
                done.push(
                    PromptAssetSection {
                        asset_id: AssetRef::new(m.asset_id.clone()),
                        slot_ids: copy_slot_ids(&m.slot_ids),
                        body,
                        source_anchor: anchor,
                    },
                );
                assert(section_views(done@) =~= before.push(
                    (m@.0, m@.1, structural_body(s.subrange(start as int, pos as int)), path + "#"@ + m@.0),
                ));
                open = None;
            },
            Ok(None) => {
                if open.is_none() && !is_blank(text) {
                    let mut t = owned("unexpected content outside @asset block in `");
                    t.append(source_path);
                    t.append("` at line ");
                    push_decimal(&mut t, number as u64);
                    return Err(catalog_error(t));
                }
            },
        }
        pos = end;
        line = number;
    }
    match open {
        Some((k, _, start_line)) => {
            let mut t = owned("unclosed @asset block for `");
            match &metadata[k] {
                Ok(m) => t.append(m.asset_id.as_str()),
                Err(_) => {},
            }
            t.append("` in `");
            t.append(source_path);
            t.append("` starting at line ");
            push_decimal(&mut t, start_line as u64);
            return Err(catalog_error(t));
        },
        None => {},
    }
    if !saw {
        let mut t = owned("template `");
        t.append(source_path);
        t.append("` must use @asset / @endasset sections");
        return Err(catalog_error(t));
    }
    Ok(done)
}

/// The metadata JSON of the `@asset` markers from the line at `pos` on, up
/// to the first malformed marker.
pub open spec fn marker_payloads(s: Seq<char>, pos: int) -> Seq<Seq<char>>
    decreases s.len() - pos,
{
    if pos < 0 || pos >= s.len() || line_end(s, pos) <= pos || line_end(s, pos) > s.len() {
        Seq::empty()
    } else {
        let end = line_end(s, pos);
        match marker_of(strip_eol(s.subrange(pos, end))) {
            Ok(Some(MarkerView::Start(j))) => seq![j] + marker_payloads(s, end),
            Ok(_) => marker_payloads(s, end),
            Err(_) => Seq::empty(),
        }
    }
}

/// The metadata JSON of each `@asset` marker of a template, in order, up
/// to the first malformed marker: what a caller decodes for
/// `extract_asset_sections`.
pub fn asset_marker_payloads(content: &str) -> (r: Vec<String>)
    ensures
        views_of(r@) == marker_payloads(content@, 0),
{
    let n = content.unicode_len();
    let mut out: Vec<String> = Vec::new();
    let mut pos: usize = 0;
    assert(views_of(out@) =~= Seq::<Seq<char>>::empty());
    assert(views_of(out@) + marker_payloads(content@, 0) =~= marker_payloads(content@, 0));
    while pos < n
        invariant
            n == content@.len(),
            pos <= n,
            views_of(out@) + marker_payloads(content@, pos as int) == marker_payloads(content@, 0),
        decreases n - pos,
    {
        let end = next_line_end(content, n, pos);
        let raw = content.substring_char(pos, end);
        let ghost before = views_of(out@);
        match marker_text(strip_eol_of(raw)) {
            Ok(Some((true, json))) => {
                out.push(json);
                assert(views_of(out@) =~= before.push(json@));
                assert(views_of(out@) + marker_payloads(content@, end as int) =~= before + marker_payloads(
                    content@,
                    pos as int,
                ));
            },
            Ok(_) => {},
            Err(_) => {
                assert(before =~= before + marker_payloads(content@, pos as int));
                return out;
            },
        }
        pos = end;
    }
    assert(views_of(out@) =~= views_of(out@) + marker_payloads(content@, pos as int));
    out
}


pub open spec fn distinct_sections(ss: Seq<SectionView>) -> bool {
    forall|a: int, b: int| #![trigger ss[a], ss[b]] 0 <= a < b < ss.len() ==> ss[a].0 != ss[b].0
}

proof fn lemma_scan_keeps_distinct(
    path: Seq<char>,
    s: Seq<char>,
    pos: int,
    line: nat,
    open: Option<(MetadataView, int, nat)>,
    done: Seq<SectionView>,
    saw: bool,
    metas: Seq<Result<MetadataView, Seq<char>>>,
    next: int,
)
    requires
        distinct_sections(done),
    ensures
        scan_sections(path, s, pos, line, open, done, saw, metas, next) matches Ok(ss) ==> distinct_sections(ss),
    decreases s.len() - pos,
{
    if 0 <= pos < s.len() {
        let end = line_end(s, pos);
        let text = strip_eol(s.subrange(pos, end));
        let n = line + 1;
        if pos < end <= s.len() {
            match marker_of(text) {
                Ok(Some(MarkerView::Start(_))) => {
                    if open is None && 0 <= next < metas.len() {
                        if let Ok(m) = metas[next] {
                            lemma_scan_keeps_distinct(path, s, end, n, Some((m, end, n)), done, true, metas, next + 1);
                        }
                    }
                },
                Ok(Some(MarkerView::End)) => {
                    if let Some((m, start, _)) = open {
                        if !has_section(done, m.0) {
                            let d2 = done.push((m.0, m.1, structural_body(s.subrange(start, pos)), path + "#"@ + m.0));
                            assert forall|a: int, b: int| #![trigger d2[a], d2[b]] 0 <= a < b < d2.len() implies d2[a].0
                                != d2[b].0 by {
                                if b == done.len() {
                                    assert(d2[a] == done[a]);
                                    if done[a].0 == m.0 {
                                        assert(has_section(done, m.0));
                                    }
                                }
                            }
                            lemma_scan_keeps_distinct(path, s, end, n, None, d2, saw, metas, next);
                        }
                    }
                },
                Ok(None) => {
                    lemma_scan_keeps_distinct(path, s, end, n, open, done, saw, metas, next);
                },
                Err(_) => {},
            }
        }
    }
}

/// Law: the sections of a template name each asset once.
pub proof fn law_sections_name_assets_once(
    path: Seq<char>,
    s: Seq<char>,
    metas: Seq<Result<MetadataView, Seq<char>>>,
)
    ensures
        scan_sections(path, s, 0, 0, None, Seq::empty(), false, metas, 0) matches Ok(ss) ==> distinct_sections(ss),
{
    lemma_scan_keeps_distinct(path, s, 0, 0, None, Seq::empty(), false, metas, 0);
}

} // verus!
