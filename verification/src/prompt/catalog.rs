//! Post-processing of rendered prompt text, the resolution of a slot in a
//! compiled catalog, and what a render reports.
use crate::prompt::error::PromptError;
use crate::prompt::loader::{catalog_asset_view, catalog_asset_views, CatalogAsset};
use crate::prompt::metadata::PromptMetadata;
use crate::prompt::policy::{apply_policies, policies_applied, PromptPolicy};
use crate::prompt::model::{AssetRef, PromptKind, PromptLineageNode, RenderedPrompt, SlotId};
use crate::prompt::pack::{pack_position, slot_asset, slot_entries_map, ResolvedPack};
use crate::prompt::pack_check::{asset_index, find_asset};
use crate::prompt::resolver::{asset_ref_error, selected_pack, PromptRenderOptions, PromptResolver, ResolvedSlot};
use crate::prompt::section_extractor::line_end;
use crate::text::{blank, is_blank, owned, trim, trim_of};
use vstd::prelude::*;

verus! {

/// The text from the line at `pos` on, with each run of blank lines
/// collapsed to one line break (`prev_blank` says whether the line before
/// was blank).
pub open spec fn collapse_blank_lines(s: Seq<char>, pos: int, prev_blank: bool) -> Seq<char>
    decreases s.len() - pos,
{
    if pos < 0 || pos >= s.len() || line_end(s, pos) <= pos || line_end(s, pos) > s.len() {
        Seq::empty()
    } else {
        let end = line_end(s, pos);
        let raw = s.subrange(pos, end);
        if blank(raw) {
            (if prev_blank { Seq::empty() } else { seq!['\n'] }) + collapse_blank_lines(s, end, true)
        } else {
            raw + collapse_blank_lines(s, end, false)
        }
    }
}

/// Rendered text with runs of blank lines collapsed and surrounding
/// whitespace trimmed.
pub open spec fn normalized_rendered(s: Seq<char>) -> Seq<char> {
    trim(collapse_blank_lines(s, 0, false))
}

fn line_end_of(s: &str, n: usize, pos: usize) -> (r: usize)
    requires
        n == s@.len(),
        pos <= n,
    ensures
        r == line_end(s@, pos as int),
        pos < n ==> pos < r <= n,
{
    let mut i = pos;
    while i < n && s.get_char(i) != '\n'
        invariant
            n == s@.len(),
            pos <= i <= n,
            line_end(s@, pos as int) == line_end(s@, i as int),
        decreases n - i,
    {
        i = i + 1;
    }
    if i < n {
        i + 1
    } else {
        i
    }
}

pub fn normalize_rendered_text(text: &str) -> (r: String)
    ensures
        r@ == normalized_rendered(text@),
{
    let n = text.unicode_len();
    let mut out = String::new();
    let mut prev_blank = false;
    let mut pos: usize = 0;
    let ghost goal = collapse_blank_lines(text@, 0, false);
    assert(out@ + goal =~= goal);
    while pos < n
        invariant
            n == text@.len(),
            pos <= n,
            goal == collapse_blank_lines(text@, 0, false),
            out@ + collapse_blank_lines(text@, pos as int, prev_blank) == goal,
        decreases n - pos,
    {
        let end = line_end_of(text, n, pos);
        let raw = text.substring_char(pos, end);
        let ghost before = out@;
        if is_blank(raw) {
            if !prev_blank {
                crate::text::push_char(&mut out, '\n');
            }
            assert(out@ + collapse_blank_lines(text@, end as int, true) =~= before + collapse_blank_lines(
                text@,
                pos as int,
                prev_blank,
            ));
            prev_blank = true;
        } else {
            out.append(raw);
            assert(out@ + collapse_blank_lines(text@, end as int, false) =~= before + collapse_blank_lines(
                text@,
                pos as int,
                prev_blank,
            ));
            prev_blank = false;
        }
        pos = end;
    }
    assert(out@ =~= goal);
    owned(trim_of(out.as_str()))
}

/// Text with every `\r\n` and every remaining `\r` made a `\n`, from `pos`
/// on.
pub open spec fn unix_line_endings(s: Seq<char>, pos: int) -> Seq<char>
    decreases s.len() - pos,
{
    if pos < 0 || pos >= s.len() {
        Seq::empty()
    } else if s[pos] == '\r' {
        if pos + 1 < s.len() && s[pos + 1] == '\n' {
            seq!['\n'] + unix_line_endings(s, pos + 2)
        } else {
            seq!['\n'] + unix_line_endings(s, pos + 1)
        }
    } else {
        seq![s[pos]] + unix_line_endings(s, pos + 1)
    }
}

/// Makes every line ending of rendered text a `\n`.
pub fn normalize_line_endings(text: &str) -> (r: String)
    ensures
        r@ == unix_line_endings(text@, 0),
{
    let n = text.unicode_len();
    let mut out = String::new();
    let mut pos: usize = 0;
    let ghost goal = unix_line_endings(text@, 0);
    assert(out@ + goal =~= goal);
    while pos < n
        invariant
            n == text@.len(),
            pos <= n,
            goal == unix_line_endings(text@, 0),
            out@ + unix_line_endings(text@, pos as int) == goal,
        decreases n - pos,
    {
        let c = text.get_char(pos);
        let ghost before = out@;
        if c == '\r' {
            crate::text::push_char(&mut out, '\n');
            if pos + 1 < n && text.get_char(pos + 1) == '\n' {
                assert(out@ + unix_line_endings(text@, pos + 2) =~= before + unix_line_endings(text@, pos as int));
                pos = pos + 2;
            } else {
                assert(out@ + unix_line_endings(text@, pos + 1) =~= before + unix_line_endings(text@, pos as int));
                pos = pos + 1;
            }
        } else {
            crate::text::push_char(&mut out, c);
            assert(out@ + unix_line_endings(text@, pos + 1) =~= before + unix_line_endings(text@, pos as int));
            pos = pos + 1;
        }
    }
    assert(out@ =~= goal);
    out
}

/// The text of a prompt rendered for a slot (or asset) that must render as
/// text: the text normalized; messages are a kind mismatch.
pub fn rendered_text(slot: &str, rendered: RenderedPrompt) -> (r: Result<String, PromptError>)
    ensures
        match rendered {
            RenderedPrompt::Text(t) => r matches Ok(x) && x@ == normalized_rendered(t@),
            RenderedPrompt::Messages(_) => r matches Err(PromptError::KindMismatch { slot: s, expected, actual })
                && s@ == slot@ && expected@ == seq![PromptKind::Text, PromptKind::Fragment] && actual
                == PromptKind::Messages,
        },
{
    match rendered {
        RenderedPrompt::Text(t) => Ok(normalize_rendered_text(t.as_str())),
        RenderedPrompt::Messages(_) => {
            let mut expected: Vec<PromptKind> = Vec::new();
            expected.push(PromptKind::Text);
            expected.push(PromptKind::Fragment);
            assert(expected@ =~= seq![PromptKind::Text, PromptKind::Fragment]);
            Err(PromptError::KindMismatch { slot: owned(slot), expected, actual: PromptKind::Messages })
        },
    }
}

/// Resolves a slot in a compiled catalog: the pack it is selected from,
/// why that pack, and the asset it names with the asset's hash (when the
/// catalog holds the asset).
pub fn resolve_slot(
    resolver: &PromptResolver,
    slot_id: &str,
    options: &PromptRenderOptions,
    packs: &Vec<ResolvedPack>,
    assets: &Vec<CatalogAsset>,
) -> (r: Result<ResolvedSlot, PromptError>)
    ensures
        ({
            let (name, reason) = selected_pack(resolver.default_pack@, options.pack_override);
            match pack_position(packs@, name) {
                None => r matches Err(PromptError::PackNotFound(t)) && t@ == name,
                Some(i) => match slot_asset(slot_entries_map(packs@[i].resolved_slots@), slot_id@) {
                    None => r matches Err(PromptError::SlotNotFound(t)) && t@ == "slot `"@ + slot_id@
                        + "` not found in pack `"@ + name + "`"@,
                    Some(a) => match asset_ref_error(a) {
                        Some(m) => r matches Err(PromptError::AssetNotFound(t)) && t@ == m,
                        None => r matches Ok(s) && s.slot@ == slot_id@ && s.pack@ == name && s.selection_reason@
                            == reason && s.root.slot@ == slot_id@ && s.root.asset_id@ == a && match asset_index(
                            catalog_asset_views(assets@),
                            a,
                        ) {
                            Some(k) => s.root.hash matches Some(h) && h@ == catalog_asset_views(assets@)[k].2,
                            None => s.root.hash is None,
                        },
                    },
                },
            }
        }),
{
    let selection = match resolver.resolve_selection(slot_id, options, packs) {
        Ok(s) => s,
        Err(e) => {
            return Err(e);
        },
    };
    let hash = match find_asset(assets, selection.asset_id.as_str()) {
        Some(k) => {
            assert(catalog_asset_views(assets@)[k as int] == catalog_asset_view(assets@[k as int]));
            Some(assets[k].compiled.resolved_hash.clone())
        },
        None => None,
    };
    let root_slot = SlotId::new(owned(selection.slot.as_str()));
    Ok(
        ResolvedSlot {
            slot: selection.slot,
            pack: selection.pack,
            root: PromptLineageNode { slot: root_slot, asset_id: selection.asset_id, hash },
            selection_reason: selection.selection_reason,
        },
    )
}


/// What a render gives back: a rendered text with the catalog's policies
/// applied (messages are left as they are, with no policy applied), and
/// its metadata: the slot, pack, asset and reason the slot resolved to, the
/// policies applied, and how long the render took. Input variables and
/// output contracts are not validated here, and the metadata says so.
pub fn finish_render(
    policies: &Vec<PromptPolicy>,
    resolved: ResolvedSlot,
    rendered: RenderedPrompt,
    render_duration_ms: u64,
) -> (r: (RenderedPrompt, PromptMetadata))
    ensures
        match rendered {
            RenderedPrompt::Text(t) => r.0 matches RenderedPrompt::Text(x) && (x@, r.1.applied_policies@.map_values(
                |n: String| n@,
            )) == policies_applied(policies@, t@),
            RenderedPrompt::Messages(_) => r.0 == rendered && r.1.applied_policies@.len() == 0,
        },
        r.1.slot == resolved.slot,
        r.1.pack == resolved.pack,
        r.1.root == resolved.root,
        r.1.rendered_assets@.len() == 1,
        r.1.rendered_assets@[0]@ == resolved.root.asset_id@,
        r.1.selection_reason == resolved.selection_reason,
        r.1.render_duration_ms == render_duration_ms,
        !r.1.input_validated,
        !r.1.output_contract_validated,
{
    let (out, applied) = match rendered {
        RenderedPrompt::Text(text) => {
            let (t, applied) = apply_policies(policies, text);
            (RenderedPrompt::Text(t), applied)
        },
        messages => (messages, Vec::new()),
    };
    let asset = AssetRef::new(owned(resolved.root.asset_id.as_str()));
    let mut rendered_assets: Vec<AssetRef> = Vec::new();
    rendered_assets.push(asset);
    let metadata = PromptMetadata {
        slot: resolved.slot,
        pack: resolved.pack,
        root: resolved.root,
        rendered_assets,
        applied_policies: applied,
        selection_reason: resolved.selection_reason,
        render_duration_ms,
        input_validated: false,
        output_contract_validated: false,
    };
    (out, metadata)
}


/// Law: rendered text comes out with Unix line endings: no carriage return
/// is left, and a text that has none comes out unchanged.
pub proof fn law_line_endings_are_unix(s: Seq<char>, pos: int)
    requires
        0 <= pos,
    ensures
        !unix_line_endings(s, pos).contains('\r'),
        !s.contains('\r') && pos <= s.len() ==> unix_line_endings(s, pos) == s.skip(pos),
    decreases s.len() - pos,
{
    if pos >= s.len() {
        assert(unix_line_endings(s, pos) =~= Seq::<char>::empty());
        if pos == s.len() {
            assert(s.skip(pos) =~= Seq::<char>::empty());
        }
    } else {
        let next = if s[pos] == '\r' && pos + 1 < s.len() && s[pos + 1] == '\n' {
            pos + 2
        } else {
            pos + 1
        };
        law_line_endings_are_unix(s, next);
        let rest = unix_line_endings(s, next);
        let head = if s[pos] == '\r' {
            '\n'
        } else {
            s[pos]
        };
        assert(unix_line_endings(s, pos) == seq![head] + rest);
        if unix_line_endings(s, pos).contains('\r') {
            let k = choose|k: int| 0 <= k < unix_line_endings(s, pos).len() && unix_line_endings(s, pos)[k] == '\r';
            if k == 0 {
            } else {
                assert(rest[k - 1] == '\r');
            }
        }
        if !s.contains('\r') {
            assert(s[pos] != '\r');
            assert(s.skip(pos) =~= seq![s[pos]] + s.skip(pos + 1));
        }
    }
}

} // verus!
