//! Which pack a prompt renders from, and the asset references slots name.
use crate::prompt::error::PromptError;
use crate::prompt::model::{AssetRef, PromptLineageNode, SlotId};
use crate::prompt::pack::{pack_position, slot_asset, slot_entries_map, ResolvedPack};
use crate::text::{blank, has_char, is_blank, owned, text_eq};
use vstd::prelude::*;

verus! {

#[derive(Debug, Clone)]
pub struct PromptRenderOptions {
    pub pack_override: Option<String>,
}

impl PromptRenderOptions {
    pub fn with_pack_override(pack_override: Option<String>) -> (r: PromptRenderOptions)
        ensures
            r.pack_override == pack_override,
    {
        PromptRenderOptions { pack_override }
    }
}

#[derive(Debug, Clone)]
pub struct ResolvedSlot {
    pub slot: SlotId,
    pub pack: String,
    pub root: PromptLineageNode,
    pub selection_reason: String,
}

/// The pack and asset a slot resolved to, and why that pack.
#[derive(Debug, Clone)]
pub struct ResolvedSelection {
    pub slot: SlotId,
    pub pack: String,
    pub asset_id: AssetRef,
    pub selection_reason: String,
}

#[derive(Debug, Clone)]
pub struct PromptResolver {
    pub default_pack: String,
}

/// The pack an override names, else the default; and the reason.
pub open spec fn selected_pack(default_pack: Seq<char>, o: Option<String>) -> (Seq<char>, Seq<char>) {
    match o {
        Some(p) => (p@, "explicit_override"@),
        None => (default_pack, "default"@),
    }
}

/// Why an asset reference is refused, if it is: it is blank, or it carries a
/// revision suffix (`@`).
pub open spec fn asset_ref_error(r: Seq<char>) -> Option<Seq<char>> {
    if blank(r) {
        Some("asset ref cannot be empty"@)
    } else if r.contains('@') {
        Some("asset ref `"@ + r + "` must be a bare `asset_id` without a revision suffix"@)
    } else {
        None
    }
}

pub fn parse_asset_ref(asset_ref: &str) -> (r: Result<AssetRef, PromptError>)
    ensures
        match asset_ref_error(asset_ref@) {
            Some(m) => r matches Err(PromptError::AssetNotFound(t)) && t@ == m,
            None => r matches Ok(a) && a@ == asset_ref@,
        },
{
    if is_blank(asset_ref) {
        return Err(PromptError::AssetNotFound(owned("asset ref cannot be empty")));
    }
    if has_char(asset_ref, '@') {
        let mut m = String::new();
        m.append("asset ref `");
        m.append(asset_ref);
        m.append("` must be a bare `asset_id` without a revision suffix");
        return Err(PromptError::AssetNotFound(m));
    }
    Ok(AssetRef::new(owned(asset_ref)))
}

impl PromptResolver {
    pub fn select_pack(&self, options: &PromptRenderOptions) -> (r: (String, String))
        ensures
            (r.0@, r.1@) == selected_pack(self.default_pack@, options.pack_override),
    {
        match &options.pack_override {
            Some(p) => (p.clone(), owned("explicit_override")),
            None => (self.default_pack.clone(), owned("default")),
        }
    }

    /// The asset a slot resolves to in the selected pack.
    pub fn resolve_selection(
        &self,
        slot_id: &str,
        options: &PromptRenderOptions,
        compiled_packs: &Vec<ResolvedPack>,
    ) -> (r: Result<ResolvedSelection, PromptError>)
        ensures
            ({
                let (name, reason) = selected_pack(self.default_pack@, options.pack_override);
                match pack_position(compiled_packs@, name) {
                    None => r matches Err(PromptError::PackNotFound(t)) && t@ == name,
                    Some(i) => match slot_asset(slot_entries_map(compiled_packs@[i].resolved_slots@), slot_id@) {
                        None => r matches Err(PromptError::SlotNotFound(t)) && t@ == "slot `"@ + slot_id@
                            + "` not found in pack `"@ + name + "`"@,
                        Some(a) => match asset_ref_error(a) {
                            Some(m) => r matches Err(PromptError::AssetNotFound(t)) && t@ == m,
                            None => r matches Ok(s) && s.slot@ == slot_id@ && s.pack@ == name && s.asset_id@ == a
                                && s.selection_reason@ == reason,
                        },
                    },
                }
            }),
    {
        let (pack_name, reason) = self.select_pack(options);
        let mut i: usize = 0;
        let mut found: Option<usize> = None;
        while i < compiled_packs.len() && found.is_none()
            invariant
                i <= compiled_packs@.len(),
                found is None ==> pack_position(compiled_packs@.take(i as int), pack_name@) is None,
                found matches Some(k) ==> pack_position(compiled_packs@, pack_name@) == Some(k as int) && k < compiled_packs@.len(),
            decreases compiled_packs@.len() - i,
        {
            proof {
                assert(compiled_packs@.take(i + 1).drop_last() =~= compiled_packs@.take(i as int));
            }
            if text_eq(compiled_packs[i].name.as_str(), pack_name.as_str()) {
                proof {
                    crate::prompt::pack::lemma_pack_position_prefix(compiled_packs@, i as int + 1, pack_name@);
                }
                found = Some(i);
            }
            i = i + 1;
        }
        let k = match found {
            Some(k) => k,
            None => {
                assert(compiled_packs@.take(compiled_packs@.len() as int) =~= compiled_packs@);
                return Err(PromptError::PackNotFound(pack_name));
            },
        };
        let asset = match crate::prompt::pack::lookup_slot(&compiled_packs[k].resolved_slots, slot_id) {
            Some(a) => a,
            None => {
                let mut m = String::new();
                m.append("slot `");
                m.append(slot_id);
                m.append("` not found in pack `");
                m.append(pack_name.as_str());
                m.append("`");
                return Err(PromptError::SlotNotFound(m));
            },
        };
        let asset_id = match parse_asset_ref(asset.as_str()) {
            Ok(a) => a,
            Err(e) => {
                return Err(e);
            },
        };
        Ok(
            ResolvedSelection {
                slot: SlotId::new(owned(slot_id)),
                pack: pack_name,
                asset_id,
                selection_reason: reason,
            },
        )
    }
}


/// Law: an override picks the pack, whatever the default, and is reported
/// as an explicit override; without one the default pack is used and
/// reported as the default.
pub proof fn law_override_wins(default_pack: Seq<char>, other_default: Seq<char>, p: String)
    ensures
        selected_pack(default_pack, Some(p)) == selected_pack(other_default, Some(p)),
        selected_pack(default_pack, Some(p)).0 == p@,
        selected_pack(default_pack, Some(p)).1 == "explicit_override"@,
        selected_pack(default_pack, None) == (default_pack, "default"@),
{
}

} // verus!
