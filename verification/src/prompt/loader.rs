//! Compiling a prompt catalog: the checks and the assembly that come between
//! reading the index, the slots file and the template files, and rendering.
use crate::check::{first_error, lemma_first_error_none, lemma_first_error_step, lemma_first_error_sticks};
use crate::prompt::asset::{asset_hash, compute_asset_hash, CompiledPromptAsset, PromptAssetManifest};
use crate::prompt::error::PromptError;
use crate::prompt::model::{slot_id_views, asset_status_name, AssetStatus, PromptKind, SlotId};
use crate::prompt::pack::{PromptPack, ResolvedPack};
use crate::prompt::pack_check::{check_packs, packs_error, packs_outcome_ok, resolved_as};
use crate::prompt::policy::PromptPolicy;
use crate::prompt::resolver::{PromptResolver, ResolvedSlot};
use crate::prompt::section_extractor::{
    extract_asset_sections, metadata_results, scan_sections, section_view, section_views, PromptAssetSection,
    SectionMetadata, SectionView,
};
use crate::prompt::slot::{SlotSpec, VarSpec, VarType};
use crate::text::{owned, text_eq};
use vstd::prelude::*;

verus! {

/// Why the loader refuses a policy, if it does: only preambles are
/// supported.
pub open spec fn policy_error(p: PromptPolicy) -> Option<Seq<char>> {
    match p {
        PromptPolicy::Preamble { .. } => None,
        PromptPolicy::RuntimeGuard { name, .. } => Some(
            "policy `"@ + name@ + "` uses unsupported type `runtime_guard`; only `preamble` is currently supported"@,
        ),
        PromptPolicy::PostValidator { name } => Some(
            "policy `"@ + name@ + "` uses unsupported type `post_validator`; only `preamble` is currently supported"@,
        ),
    }
}

pub open spec fn policy_support_error(ps: Seq<PromptPolicy>) -> Option<Seq<char>> {
    first_error(ps, |p: PromptPolicy| policy_error(p))
}

/// The first policy of a catalog that is not a preamble is refused.
pub fn validate_policy_support(policies: &Vec<PromptPolicy>) -> (r: Result<(), PromptError>)
    ensures
        match policy_support_error(policies@) {
            Some(m) => r matches Err(PromptError::CatalogLoad(t)) && t@ == m,
            None => r is Ok,
        },
{
    let ghost f = |p: PromptPolicy| policy_error(p);
    let mut i: usize = 0;
    assert(policies@.take(0) =~= Seq::<PromptPolicy>::empty());
    while i < policies.len()
        invariant
            i <= policies@.len(),
            f == (|p: PromptPolicy| policy_error(p)),
            first_error(policies@.take(i as int), f) is None,
        decreases policies@.len() - i,
    {
        proof {
            lemma_first_error_step(policies@, f, i as int);
        }
        match &policies[i] {
            PromptPolicy::Preamble { .. } => {},
            PromptPolicy::RuntimeGuard { name, .. } => {
                let mut m = owned("policy `");
                m.append(name.as_str());
                m.append("` uses unsupported type `runtime_guard`; only `preamble` is currently supported");
                proof {
                    lemma_first_error_sticks(policies@, f, i + 1);
                }
                return Err(PromptError::CatalogLoad(m));
            },
            PromptPolicy::PostValidator { name } => {
                let mut m = owned("policy `");
                m.append(name.as_str());
                m.append("` uses unsupported type `post_validator`; only `preamble` is currently supported");
                proof {
                    lemma_first_error_sticks(policies@, f, i + 1);
                }
                return Err(PromptError::CatalogLoad(m));
            },
        }
        i = i + 1;
    }
    assert(policies@.take(policies@.len() as int) =~= policies@);
    Ok(())
}

/// Why an asset cannot be loaded for its status, if it cannot: only active
/// assets load.
pub open spec fn asset_status_error(m: PromptAssetManifest) -> Option<Seq<char>> {
    if m.status != AssetStatus::Active {
        Some(
            "asset `"@ + m.asset_id@ + "` uses unsupported status `"@ + asset_status_name(m.status)
                + "`; only `active` assets can be loaded"@,
        )
    } else {
        None
    }
}

pub fn validate_asset_status(manifest: &PromptAssetManifest) -> (r: Result<(), PromptError>)
    ensures
        match asset_status_error(*manifest) {
            Some(m) => r matches Err(PromptError::CatalogLoad(t)) && t@ == m,
            None => r is Ok,
        },
{
    if manifest.status != AssetStatus::Active {
        let mut m = owned("asset `");
        m.append(manifest.asset_id.as_str());
        m.append("` uses unsupported status `");
        m.append(manifest.status.name());
        m.append("`; only `active` assets can be loaded");
        return Err(PromptError::CatalogLoad(m));
    }
    Ok(())
}

/// The source paths of manifests, each once, in order of first appearance.
pub open spec fn source_paths(ms: Seq<PromptAssetManifest>) -> Seq<Seq<char>>
    decreases ms.len(),
{
    if ms.len() == 0 {
        Seq::empty()
    } else {
        let ps = source_paths(ms.drop_last());
        if ps.contains(ms.last().source_path@) {
            ps
        } else {
            ps.push(ms.last().source_path@)
        }
    }
}

/// The manifests with a source path, in order.
pub open spec fn with_source_path(ms: Seq<PromptAssetManifest>, p: Seq<char>) -> Seq<PromptAssetManifest>
    decreases ms.len(),
{
    if ms.len() == 0 {
        Seq::empty()
    } else if ms.last().source_path@ == p {
        with_source_path(ms.drop_last(), p).push(ms.last())
    } else {
        with_source_path(ms.drop_last(), p)
    }
}

/// A group of manifests: their source path and the manifests.
pub open spec fn groups_of(ms: Seq<PromptAssetManifest>) -> Seq<(Seq<char>, Seq<PromptAssetManifest>)> {
    source_paths(ms).map_values(|p: Seq<char>| (p, with_source_path(ms, p)))
}

pub open spec fn group_views(gs: Seq<(String, Vec<PromptAssetManifest>)>) -> Seq<(Seq<char>, Seq<PromptAssetManifest>)> {
    gs.map_values(|g: (String, Vec<PromptAssetManifest>)| (g.0@, g.1@))
}

proof fn lemma_with_source_path_absent(ms: Seq<PromptAssetManifest>, p: Seq<char>)
    requires
        !source_paths(ms).contains(p),
    ensures
        with_source_path(ms, p) == Seq::<PromptAssetManifest>::empty(),
    decreases ms.len(),
{
    if ms.len() > 0 {
        let ps = source_paths(ms.drop_last());
        if ps.contains(p) {
            let k = choose|k: int| 0 <= k < ps.len() && ps[k] == p;
            assert(source_paths(ms)[k] == p);
        } else {
            lemma_with_source_path_absent(ms.drop_last(), p);
            if ms.last().source_path@ == p {
                assert(source_paths(ms) == ps.push(p));
                assert(source_paths(ms)[ps.len() as int] == p);
            }
        }
    }
}

proof fn lemma_source_paths_distinct(ms: Seq<PromptAssetManifest>)
    ensures
        forall|a: int, b: int|
            0 <= a < b < source_paths(ms).len() ==> source_paths(ms)[a] != source_paths(ms)[b],
    decreases ms.len(),
{
    if ms.len() > 0 {
        let ps = source_paths(ms.drop_last());
        lemma_source_paths_distinct(ms.drop_last());
        if !ps.contains(ms.last().source_path@) {
            assert forall|a: int, b: int|
                0 <= a < b < source_paths(ms).len() implies source_paths(ms)[a] != source_paths(ms)[b] by {
                if b == ps.len() {
                    assert(source_paths(ms)[a] == ps[a]);
                }
            }
        }
    }
}

/// Groups manifests by source path: the paths in order of first
/// appearance, each with its manifests in order.
pub fn manifests_by_source_path(manifests: Vec<PromptAssetManifest>) -> (r: Vec<(String, Vec<PromptAssetManifest>)>)
    ensures
        group_views(r@) == groups_of(manifests@),
{
    let ghost all = manifests@;
    assert(all.len() == manifests.len());
    let mut rest = manifests;
    let mut paths: Vec<String> = Vec::new();
    let mut groups: Vec<Vec<PromptAssetManifest>> = Vec::new();
    let mut i: usize = 0;
    assert(all.take(0) =~= Seq::<PromptAssetManifest>::empty());
    assert(all.skip(0) =~= all);
    while rest.len() > 0
        invariant
            i <= all.len(),
            all.len() <= usize::MAX,
            rest@ == all.skip(i as int),
            paths@.len() == groups@.len(),
            views_of_paths(paths@) == source_paths(all.take(i as int)),
            forall|k: int|
                0 <= k < groups@.len() ==> (#[trigger] groups@[k])@ == with_source_path(
                    all.take(i as int),
                    paths@[k]@,
                ),
        decreases rest@.len(),
    {
        assert(rest@.len() == all.len() - i);
        let ghost pre = all.take(i as int);
        assert(all.take(i + 1).drop_last() =~= pre);
        assert(all.take(i + 1).last() == all[i as int]);
        let m = rest.remove(0);
        let ghost mp = m.source_path@;
        assert(m == all[i as int]);
        assert(rest@ =~= all.skip(i + 1));
        let mut j: usize = 0;
        let mut found = false;
        while j < paths.len() && !found
            invariant
                j <= paths@.len(),
                !found ==> forall|k: int| 0 <= k < j ==> paths@[k]@ != m.source_path@,
                found ==> j > 0 && paths@[j - 1]@ == m.source_path@,
            decreases paths@.len() - j + (if found { 0int } else { 1int }),
        {
            if text_eq(paths[j].as_str(), m.source_path.as_str()) {
                found = true;
            }
            j = j + 1;
        }
        let ghost old_groups = groups@;
        if found {
            let g_at = j - 1;
            proof {
                assert(views_of_paths(paths@)[g_at as int] == m.source_path@);
            }
            let mut g = groups.remove(g_at);
            g.push(m);
            groups.insert(g_at, g);
            proof {
                assert forall|k: int| 0 <= k < groups@.len() implies (#[trigger] groups@[k])@ == with_source_path(
                    all.take(i + 1),
                    paths@[k]@,
                ) by {
                    if k != g_at {
                        assert(groups@[k] == old_groups[k]);
                        assert(paths@[k]@ != mp) by {
                            lemma_source_paths_distinct(pre);
                            assert(views_of_paths(paths@)[k] == paths@[k]@);
                        }
                    }
                }
                assert(source_paths(all.take(i + 1)) == source_paths(pre));
            }
        } else {
            proof {
                assert(!source_paths(pre).contains(m.source_path@)) by {
                    if source_paths(pre).contains(m.source_path@) {
                        let k = choose|k: int| 0 <= k < source_paths(pre).len() && source_paths(pre)[k] == m.source_path@;
                        assert(views_of_paths(paths@)[k] == paths@[k]@);
                    }
                }
                lemma_with_source_path_absent(pre, m.source_path@);
            }
            let p = m.source_path.clone();
            let mut g: Vec<PromptAssetManifest> = Vec::new();
            g.push(m);
            paths.push(p);
            groups.push(g);
            proof {
                assert(views_of_paths(paths@) =~= source_paths(all.take(i + 1)));
                assert forall|k: int| 0 <= k < groups@.len() implies (#[trigger] groups@[k])@ == with_source_path(
                    all.take(i + 1),
                    paths@[k]@,
                ) by {
                    if k < old_groups.len() {
                        assert(groups@[k] == old_groups[k]);
                        assert(paths@[k]@ != all[i as int].source_path@) by {
                            assert(views_of_paths(paths@)[k] == paths@[k]@);
                            assert(source_paths(pre)[k] == paths@[k]@);
                        }
                    } else {
                        assert(groups@[k]@ =~= Seq::<PromptAssetManifest>::empty().push(all[i as int]));
                    }
                }
            }
        }
        i = i + 1;
    }
    assert(all.take(i as int) =~= all);
    let mut r: Vec<(String, Vec<PromptAssetManifest>)> = Vec::new();
    let ghost gs = groups@;
    let ghost ps = paths@;
    while paths.len() > 0
        invariant
            paths@.len() == groups@.len(),
            r@.len() + paths@.len() == ps.len(),
            ps.len() == gs.len(),
            paths@ == ps.skip(r@.len() as int),
            groups@ == gs.skip(r@.len() as int),
            forall|k: int| 0 <= k < r@.len() ==> (#[trigger] r@[k]).0 == ps[k] && r@[k].1 == gs[k],
        decreases paths@.len(),
    {
        let ghost n: int = r@.len() as int;
        let p = paths.remove(0);
        let g = groups.remove(0);
        r.push((p, g));
        assert(paths@ =~= ps.skip(n + 1int));
        assert(groups@ =~= gs.skip(n + 1int));
    }
    proof {
        assert forall|k: int| 0 <= k < r@.len() implies group_views(r@)[k] == groups_of(all)[k] by {
            assert(views_of_paths(ps)[k] == ps[k]@);
        }
        assert(group_views(r@) =~= groups_of(all));
    }
    r
}

pub open spec fn views_of_paths(ps: Seq<String>) -> Seq<Seq<char>> {
    ps.map_values(|p: String| p@)
}

/// The position of the first slot with the id.
pub open spec fn slot_index(slots: Seq<SlotSpec>, id: Seq<char>) -> Option<int>
    decreases slots.len(),
{
    if slots.len() == 0 {
        None
    } else {
        match slot_index(slots.drop_last(), id) {
            Some(i) => Some(i),
            None => if slots.last().slot_id@ == id {
                Some(slots.len() - 1)
            } else {
                None
            },
        }
    }
}

pub proof fn lemma_slot_index(slots: Seq<SlotSpec>, id: Seq<char>)
    ensures
        match slot_index(slots, id) {
            Some(i) => 0 <= i < slots.len() && slots[i].slot_id@ == id && forall|k: int|
                0 <= k < i ==> (#[trigger] slots[k]).slot_id@ != id,
            None => forall|k: int| 0 <= k < slots.len() ==> (#[trigger] slots[k]).slot_id@ != id,
        },
    decreases slots.len(),
{
    if slots.len() > 0 {
        lemma_slot_index(slots.drop_last(), id);
        match slot_index(slots.drop_last(), id) {
            Some(i) => {
                assert forall|k: int| 0 <= k < i implies (#[trigger] slots[k]).slot_id@ != id by {
                    assert(slots.drop_last()[k] == slots[k]);
                }
                assert(slots.drop_last()[i] == slots[i]);
            },
            None => {
                assert forall|k: int| 0 <= k < slots.len() - 1 implies (#[trigger] slots[k]).slot_id@ != id by {
                    assert(slots.drop_last()[k] == slots[k]);
                }
            },
        }
    }
}

/// Finds a slot of a registry by id.
pub fn find_slot(slots: &Vec<SlotSpec>, id: &str) -> (r: Option<usize>)
    ensures
        match r {
            Some(i) => slot_index(slots@, id@) == Some(i as int),
            None => slot_index(slots@, id@) is None,
        },
{
    proof {
        lemma_slot_index(slots@, id@);
    }
    let mut i: usize = 0;
    while i < slots.len()
        invariant
            i <= slots@.len(),
            forall|k: int| 0 <= k < i ==> (#[trigger] slots@[k]).slot_id@ != id@,
            match slot_index(slots@, id@) {
                Some(j) => 0 <= j < slots@.len() && slots@[j].slot_id@ == id@ && forall|k: int|
                    0 <= k < j ==> (#[trigger] slots@[k]).slot_id@ != id@,
                None => forall|k: int| 0 <= k < slots@.len() ==> (#[trigger] slots@[k]).slot_id@ != id@,
            },
        decreases slots@.len() - i,
    {
        if text_eq(slots[i].slot_id.as_str(), id) {
            proof {
                match slot_index(slots@, id@) {
                    Some(j) => {
                        if j < i {
                            assert(slots@[j].slot_id@ != id@);
                        }
                        if i < j {
                            assert(slots@[i as int].slot_id@ != id@);
                        }
                    },
                    None => {
                        assert(slots@[i as int].slot_id@ != id@);
                    },
                }
            }
            return Some(i);
        }
        i = i + 1;
    }
    proof {
        match slot_index(slots@, id@) {
            Some(j) => {
                assert(slots@[j].slot_id@ != id@);
            },
            None => {},
        }
    }
    None
}

pub open spec fn var_views(vs: Seq<VarSpec>) -> Seq<(Seq<char>, VarType, bool)> {
    vs.map_values(|v: VarSpec| (v.name@, v.var_type, v.required))
}

fn same_kinds(a: &Vec<PromptKind>, b: &Vec<PromptKind>) -> (r: bool)
    ensures
        r == (a@ == b@),
{
    if a.len() != b.len() {
        return false;
    }
    let mut i: usize = 0;
    while i < a.len()
        invariant
            i <= a@.len(),
            a@.len() == b@.len(),
            forall|k: int| 0 <= k < i ==> a@[k] == b@[k],
        decreases a@.len() - i,
    {
        if a[i] != b[i] {
            return false;
        }
        i = i + 1;
    }
    assert(a@ =~= b@);
    true
}

fn same_vars(a: &Vec<VarSpec>, b: &Vec<VarSpec>) -> (r: bool)
    ensures
        r == (var_views(a@) == var_views(b@)),
{
    if a.len() != b.len() {
        assert(var_views(a@).len() != var_views(b@).len());
        return false;
    }
    let mut i: usize = 0;
    while i < a.len()
        invariant
            i <= a@.len(),
            a@.len() == b@.len(),
            forall|k: int| 0 <= k < i ==> var_views(a@)[k] == var_views(b@)[k],
        decreases a@.len() - i,
    {
        if !text_eq(a[i].name.as_str(), b[i].name.as_str()) || a[i].var_type != b[i].var_type || a[i].required
            != b[i].required {
            assert(var_views(a@)[i as int] != var_views(b@)[i as int]);
            return false;
        }
        i = i + 1;
    }
    assert(var_views(a@) =~= var_views(b@));
    true
}

pub open spec fn unknown_slot_message(sec: SectionView, slot: Seq<char>) -> Seq<char> {
    "section `"@ + sec.0 + "` references unknown slot `"@ + slot + "` in `"@ + sec.3 + "`"@
}

/// Why the `n`th slot of a section (counting from 0) does not agree with
/// its first slot `first`, if it does not: it is unknown, takes other
/// kinds or other variables.
pub open spec fn later_slot_check(sec: SectionView, slots: Seq<SlotSpec>, first: SlotSpec, id: Seq<char>) -> Option<
    Seq<char>,
> {
    match slot_index(slots, id) {
        None => Some(unknown_slot_message(sec, id)),
        Some(j) => if slots[j].allowed_kinds@ != first.allowed_kinds@ {
            Some(
                "section `"@ + sec.0 + "` declares multiple slots with different allowed_kinds: `"@ + sec.1[0]
                    + "` vs `"@ + id + "`"@,
            )
        } else if var_views(slots[j].vars@) != var_views(first.vars@) {
            Some(
                "section `"@ + sec.0 + "` declares multiple slots with different variable requirements: `"@
                    + sec.1[0] + "` vs `"@ + id + "`"@,
            )
        } else {
            None
        },
    }
}

/// Why a section's slots do not fit together, if they do not: it names no
/// slot, or a slot that the registry lacks, or slots with different kinds
/// or variables than its first.
pub open spec fn section_slot_error(sec: SectionView, slots: Seq<SlotSpec>) -> Option<Seq<char>> {
    if sec.1.len() == 0 {
        Some("section `"@ + sec.0 + "` must declare at least one slot id"@)
    } else {
        match slot_index(slots, sec.1[0]) {
            None => Some(unknown_slot_message(sec, sec.1[0])),
            Some(f) => first_error(sec.1.skip(1), |id: Seq<char>| later_slot_check(sec, slots, slots[f], id)),
        }
    }
}

fn unknown_slot_error(section: &PromptAssetSection, slot: &str) -> (r: PromptError)
    ensures
        r matches PromptError::CatalogLoad(t) && t@ == unknown_slot_message(section_view(*section), slot@),
{
    let mut m = owned("section `");
    m.append(section.asset_id.as_str());
    m.append("` references unknown slot `");
    m.append(slot);
    m.append("` in `");
    m.append(section.source_anchor.as_str());
    m.append("`");
    PromptError::CatalogLoad(m)
}

/// All slots of a section must be known and take the same kinds and
/// variables as its first.
pub fn validate_section_slot_compatibility(section: &PromptAssetSection, slots: &Vec<SlotSpec>) -> (r: Result<
    (),
    PromptError,
>)
    ensures
        match section_slot_error(section_view(*section), slots@) {
            Some(m) => r matches Err(PromptError::CatalogLoad(t)) && t@ == m,
            None => r is Ok,
        },
{
    let ghost sec = section_view(*section);
    if section.slot_ids.len() == 0 {
        let mut m = owned("section `");
        m.append(section.asset_id.as_str());
        m.append("` must declare at least one slot id");
        return Err(PromptError::CatalogLoad(m));
    }
    let first_id = section.slot_ids[0].as_str();
    assert(first_id@ == sec.1[0]);
    let f = match find_slot(slots, first_id) {
        None => {
            return Err(unknown_slot_error(section, first_id));
        },
        Some(f) => f,
    };
    proof {
        lemma_slot_index(slots@, first_id@);
    }
    let ghost later = sec.1.skip(1);
    let ghost chk = |id: Seq<char>| later_slot_check(sec, slots@, slots@[f as int], id);
    assert(section_slot_error(sec, slots@) == first_error(later, chk));
    let mut i: usize = 1;
    assert(later.take(0) =~= Seq::<Seq<char>>::empty());
    while i < section.slot_ids.len()
        invariant
            1 <= i <= section.slot_ids@.len(),
            sec == section_view(*section),
            later == sec.1.skip(1),
            f < slots@.len(),
            chk == (|id: Seq<char>| later_slot_check(sec, slots@, slots@[f as int], id)),
            section_slot_error(sec, slots@) == first_error(later, chk),
            first_id@ == sec.1[0],
            first_error(later.take(i - 1), chk) is None,
        decreases section.slot_ids@.len() - i,
    {
        proof {
            lemma_first_error_step(later, chk, i - 1);
            assert(later[i - 1] == sec.1[i as int]);
        }
        let id = section.slot_ids[i].as_str();
        assert(id@ == sec.1[i as int]);
        proof {
            lemma_slot_index(slots@, id@);
        }
        match find_slot(slots, id) {
            None => {
                proof {
                    lemma_first_error_sticks(later, chk, i as int);
                }
                return Err(unknown_slot_error(section, id));
            },
            Some(j) => {
                if !same_kinds(&slots[j].allowed_kinds, &slots[f].allowed_kinds) {
                    let mut m = owned("section `");
                    m.append(section.asset_id.as_str());
                    m.append("` declares multiple slots with different allowed_kinds: `");
                    m.append(first_id);
                    m.append("` vs `");
                    m.append(id);
                    m.append("`");
                    proof {
                        assert(slot_index(slots@, id@) == Some(j as int));
                        assert(chk(later[i - 1]) == Some(m@));
                        lemma_first_error_sticks(later, chk, i as int);
                    }
                    return Err(PromptError::CatalogLoad(m));
                }
                if !same_vars(&slots[j].vars, &slots[f].vars) {
                    let mut m = owned("section `");
                    m.append(section.asset_id.as_str());
                    m.append("` declares multiple slots with different variable requirements: `");
                    m.append(first_id);
                    m.append("` vs `");
                    m.append(id);
                    m.append("`");
                    proof {
                        assert(slot_index(slots@, id@) == Some(j as int));
                        assert(chk(later[i - 1]) == Some(m@));
                        lemma_first_error_sticks(later, chk, i as int);
                    }
                    return Err(PromptError::CatalogLoad(m));
                }
            },
        }
        i = i + 1;
    }
    assert(later.take(i - 1) =~= later);
    Ok(())
}

pub open spec fn section_ids(ss: Seq<SectionView>) -> Seq<Seq<char>> {
    ss.map_values(|x: SectionView| x.0)
}

pub open spec fn manifest_ids(ms: Seq<PromptAssetManifest>) -> Seq<Seq<char>> {
    ms.map_values(|m: PromptAssetManifest| m.asset_id@)
}

/// A manifest whose asset has no section in its template is refused.
pub open spec fn missing_section(path: Seq<char>, ss: Seq<SectionView>, m: PromptAssetManifest) -> Option<Seq<char>> {
    if section_ids(ss).contains(m.asset_id@) {
        None
    } else {
        Some(
            "asset `"@ + m.asset_id@ + "` declared in index.yaml does not have a matching section in `"@ + path
                + "`"@,
        )
    }
}

/// A section that no manifest of its template registers is refused, and
/// so is one whose slots do not fit together.
pub open spec fn section_check(path: Seq<char>, ms: Seq<PromptAssetManifest>, slots: Seq<SlotSpec>, x: SectionView) -> Option<
    Seq<char>,
> {
    if !manifest_ids(ms).contains(x.0) {
        Some("section `"@ + x.0 + "` in `"@ + path + "` is not registered in index.yaml"@)
    } else {
        section_slot_error(x, slots)
    }
}

/// Why the sections of a template do not match its manifests, if they do
/// not: the first manifest without a section, else the first section that
/// is not registered or whose slots do not fit together.
pub open spec fn sections_for_source_error(
    path: Seq<char>,
    ms: Seq<PromptAssetManifest>,
    ss: Seq<SectionView>,
    slots: Seq<SlotSpec>,
) -> Option<Seq<char>> {
    match first_error(ms, |m: PromptAssetManifest| missing_section(path, ss, m)) {
        Some(e) => Some(e),
        None => first_error(ss, |x: SectionView| section_check(path, ms, slots, x)),
    }
}

fn has_section_id(sections: &Vec<PromptAssetSection>, id: &str) -> (r: bool)
    ensures
        r == section_ids(section_views(sections@)).contains(id@),
{
    let mut i: usize = 0;
    while i < sections.len()
        invariant
            i <= sections@.len(),
            forall|k: int| 0 <= k < i ==> (#[trigger] sections@[k]).asset_id@ != id@,
        decreases sections@.len() - i,
    {
        if text_eq(sections[i].asset_id.as_str(), id) {
            assert(section_ids(section_views(sections@))[i as int] == id@);
            return true;
        }
        i = i + 1;
    }
    proof {
        if section_ids(section_views(sections@)).contains(id@) {
            let k = choose|k: int|
                0 <= k < section_ids(section_views(sections@)).len() && section_ids(section_views(sections@))[k]
                    == id@;
            assert(sections@[k].asset_id@ == id@);
        }
    }
    false
}

fn has_manifest_id(manifests: &Vec<PromptAssetManifest>, id: &str) -> (r: bool)
    ensures
        r == manifest_ids(manifests@).contains(id@),
{
    let mut i: usize = 0;
    while i < manifests.len()
        invariant
            i <= manifests@.len(),
            forall|k: int| 0 <= k < i ==> (#[trigger] manifests@[k]).asset_id@ != id@,
        decreases manifests@.len() - i,
    {
        if text_eq(manifests[i].asset_id.as_str(), id) {
            assert(manifest_ids(manifests@)[i as int] == id@);
            return true;
        }
        i = i + 1;
    }
    proof {
        if manifest_ids(manifests@).contains(id@) {
            let k = choose|k: int| 0 <= k < manifest_ids(manifests@).len() && manifest_ids(manifests@)[k] == id@;
            assert(manifests@[k].asset_id@ == id@);
        }
    }
    false
}


/// Every manifest of a template needs a section in it, and every section a
/// manifest; the slots of each section must fit together.
pub fn validate_sections_for_source(
    source_path: &str,
    manifests: &Vec<PromptAssetManifest>,
    sections: &Vec<PromptAssetSection>,
    slots: &Vec<SlotSpec>,
) -> (r: Result<(), PromptError>)
    ensures
        match sections_for_source_error(source_path@, manifests@, section_views(sections@), slots@) {
            Some(m) => r matches Err(PromptError::CatalogLoad(t)) && t@ == m,
            None => r is Ok,
        },
{
    let ghost path = source_path@;
    let ghost ss = section_views(sections@);
    let ghost f1 = |m: PromptAssetManifest| missing_section(path, ss, m);
    let ghost f2 = |x: SectionView| section_check(path, manifests@, slots@, x);
    let mut i: usize = 0;
    assert(manifests@.take(0) =~= Seq::<PromptAssetManifest>::empty());
    while i < manifests.len()
        invariant
            i <= manifests@.len(),
            ss == section_views(sections@),
            path == source_path@,
            f1 == (|m: PromptAssetManifest| missing_section(path, ss, m)),
            first_error(manifests@.take(i as int), f1) is None,
        decreases manifests@.len() - i,
    {
        proof {
            lemma_first_error_step(manifests@, f1, i as int);
        }
        if !has_section_id(sections, manifests[i].asset_id.as_str()) {
            let mut m = owned("asset `");
            m.append(manifests[i].asset_id.as_str());
            m.append("` declared in index.yaml does not have a matching section in `");
            m.append(source_path);
            m.append("`");
            proof {
                lemma_first_error_sticks(manifests@, f1, i + 1);
            }
            return Err(PromptError::CatalogLoad(m));
        }
        i = i + 1;
    }
    assert(manifests@.take(manifests@.len() as int) =~= manifests@);
    let mut j: usize = 0;
    assert(ss.take(0) =~= Seq::<SectionView>::empty());
    while j < sections.len()
        invariant
            j <= sections@.len(),
            ss == section_views(sections@),
            path == source_path@,
            f2 == (|x: SectionView| section_check(path, manifests@, slots@, x)),
            first_error(manifests@, f1) is None,
            f1 == (|m: PromptAssetManifest| missing_section(path, ss, m)),
            first_error(ss.take(j as int), f2) is None,
        decreases sections@.len() - j,
    {
        proof {
            lemma_first_error_step(ss, f2, j as int);
            assert(ss[j as int] == section_view(sections@[j as int]));
        }
        if !has_manifest_id(manifests, sections[j].asset_id.as_str()) {
            let mut m = owned("section `");
            m.append(sections[j].asset_id.as_str());
            m.append("` in `");
            m.append(source_path);
            m.append("` is not registered in index.yaml");
            proof {
                lemma_first_error_sticks(ss, f2, j + 1);
            }
            return Err(PromptError::CatalogLoad(m));
        }
        match validate_section_slot_compatibility(&sections[j], slots) {
            Ok(()) => {},
            Err(e) => {
                proof {
                    lemma_first_error_sticks(ss, f2, j + 1);
                }
                return Err(e);
            },
        }
        j = j + 1;
    }
    assert(ss.take(sections@.len() as int) =~= ss);
    Ok(())
}

/// A template file as it was read: the source path that manifests name, the
/// path to name the file by in messages, and its text with the decoded
/// metadata of its `@asset` markers in order, or why it could not be read.
#[derive(Debug)]
pub struct TemplateFile {
    pub source_path: String,
    pub display_path: String,
    pub contents: Result<TemplateText, String>,
}

#[derive(Debug)]
pub struct TemplateText {
    pub text: String,
    pub section_metadata: Vec<Result<SectionMetadata, String>>,
}

/// A compiled asset with the body and slots of its section.
#[derive(Debug, Clone)]
pub struct CatalogAsset {
    pub compiled: CompiledPromptAsset,
    pub body: String,
    pub slot_ids: Vec<SlotId>,
}

/// An asset as values: manifest, source anchor, hash, template name, body
/// and slot ids.
pub type CatalogAssetView = (PromptAssetManifest, Seq<char>, Seq<char>, Seq<char>, Seq<char>, Seq<Seq<char>>);

pub open spec fn catalog_asset_view(a: CatalogAsset) -> CatalogAssetView {
    (
        a.compiled.manifest,
        a.compiled.source_anchor@,
        a.compiled.resolved_hash@,
        a.compiled.template_name@,
        a.body@,
        slot_id_views(a.slot_ids@),
    )
}


pub open spec fn catalog_asset_views(v: Seq<CatalogAsset>) -> Seq<CatalogAssetView> {
    v.map_values(|a: CatalogAsset| catalog_asset_view(a))
}

pub open spec fn asset_ids(v: Seq<CatalogAssetView>) -> Seq<Seq<char>> {
    v.map_values(|a: CatalogAssetView| a.0.asset_id@)
}

/// The position of the first section with the id.
pub open spec fn section_position(ss: Seq<SectionView>, id: Seq<char>) -> int
    decreases ss.len(),
{
    if ss.len() == 0 {
        0
    } else if section_ids(ss.drop_last()).contains(id) {
        section_position(ss.drop_last(), id)
    } else {
        ss.len() - 1
    }
}

proof fn lemma_section_position(ss: Seq<SectionView>, id: Seq<char>)
    requires
        section_ids(ss).contains(id),
    ensures
        0 <= section_position(ss, id) < ss.len(),
        ss[section_position(ss, id)].0 == id,
    decreases ss.len(),
{
    if section_ids(ss.drop_last()).contains(id) {
        lemma_section_position(ss.drop_last(), id);
        assert(ss.drop_last()[section_position(ss, id)] == ss[section_position(ss, id)]);
    } else {
        let k = choose|k: int| 0 <= k < section_ids(ss).len() && section_ids(ss)[k] == id;
        if k < ss.len() - 1 {
            assert(section_ids(ss.drop_last())[k] == id);
        }
    }
}

/// Compiling one manifest of a template with sections `ss`, after the
/// assets `done`: its status must be active, a declared hash must be the
/// computed one, and no asset compiled before may have its id.
#[verifier::opaque]
pub open spec fn asset_step(m: PromptAssetManifest, ss: Seq<SectionView>, done: Seq<CatalogAssetView>) -> Result<
    CatalogAssetView,
    Seq<char>,
> {
    match asset_status_error(m) {
        Some(e) => Err(e),
        None => {
            let x = ss[section_position(ss, m.asset_id@)];
            let computed = asset_hash(x.2, m);
            if m.hash matches Some(h) && h@ != computed {
                Err(
                    "hash mismatch for asset `"@ + m.asset_id@ + "`: declared="@ + m.hash->0@ + ", computed="@
                        + computed,
                )
            } else if asset_ids(done).contains(m.asset_id@) {
                Err("duplicate asset manifest `"@ + m.asset_id@ + "` declared in index.yaml"@)
            } else {
                Ok((m, x.3, computed, m.asset_id@, x.2, x.1))
            }
        },
    }
}

/// The manifests of a template compiled in order after `done`.
pub open spec fn compile_manifests(ms: Seq<PromptAssetManifest>, ss: Seq<SectionView>, done: Seq<CatalogAssetView>) -> Result<
    Seq<CatalogAssetView>,
    Seq<char>,
>
    decreases ms.len(),
{
    if ms.len() == 0 {
        Ok(done)
    } else {
        match compile_manifests(ms.drop_last(), ss, done) {
            Err(e) => Err(e),
            Ok(d) => match asset_step(ms.last(), ss, d) {
                Err(e) => Err(e),
                Ok(a) => Ok(d.push(a)),
            },
        }
    }
}

proof fn lemma_compile_manifests_error_sticks(
    ms: Seq<PromptAssetManifest>,
    ss: Seq<SectionView>,
    done: Seq<CatalogAssetView>,
    k: int,
)
    requires
        0 <= k <= ms.len(),
        compile_manifests(ms.take(k), ss, done) is Err,
    ensures
        compile_manifests(ms, ss, done) == compile_manifests(ms.take(k), ss, done),
    decreases ms.len() - k,
{
    if k < ms.len() {
        assert(ms.take(k + 1).drop_last() =~= ms.take(k));
        lemma_compile_manifests_error_sticks(ms, ss, done, k + 1);
    } else {
        assert(ms.take(k) =~= ms);
    }
}

/// The first template file with the source path.
pub open spec fn template_for(ts: Seq<TemplateFile>, path: Seq<char>) -> Option<TemplateFile>
    decreases ts.len(),
{
    if ts.len() == 0 {
        None
    } else {
        match template_for(ts.drop_last(), path) {
            Some(t) => Some(t),
            None => if ts.last().source_path@ == path {
                Some(ts.last())
            } else {
                None
            },
        }
    }
}

/// The sections of a template, as values, or why they could not be
/// extracted.
pub open spec fn template_sections(path: Seq<char>, t: TemplateText) -> Result<Seq<SectionView>, Seq<char>> {
    scan_sections(path, t.text@, 0, 0, None, Seq::empty(), false, metadata_results(t.section_metadata@), 0)
}

/// Compiling the manifests of one source path after the assets `done`: its
/// template must have been read, its sections extracted and matched with
/// the manifests.
pub open spec fn group_step(
    path: Seq<char>,
    ms: Seq<PromptAssetManifest>,
    ts: Seq<TemplateFile>,
    slots: Seq<SlotSpec>,
    done: Seq<CatalogAssetView>,
) -> Result<Seq<CatalogAssetView>, Seq<char>> {
    match template_for(ts, path) {
        None => Err("no contents were read for template `"@ + path + "`"@),
        Some(t) => match t.contents {
            Err(e) => Err("failed to read template "@ + t.display_path@ + ": "@ + e@),
            Ok(text) => match template_sections(path, text) {
                Err(e) => Err("failed to parse sections in "@ + t.display_path@ + ": "@ + e),
                Ok(ss) => match sections_for_source_error(path, ms, ss, slots) {
                    Some(e) => Err(e),
                    None => compile_manifests(ms, ss, done),
                },
            },
        },
    }
}

/// All groups compiled in order.
pub open spec fn compile_groups(
    gs: Seq<(Seq<char>, Seq<PromptAssetManifest>)>,
    ts: Seq<TemplateFile>,
    slots: Seq<SlotSpec>,
) -> Result<Seq<CatalogAssetView>, Seq<char>>
    decreases gs.len(),
{
    if gs.len() == 0 {
        Ok(Seq::empty())
    } else {
        match compile_groups(gs.drop_last(), ts, slots) {
            Err(e) => Err(e),
            Ok(d) => group_step(gs.last().0, gs.last().1, ts, slots, d),
        }
    }
}

proof fn lemma_compile_groups_error_sticks(
    gs: Seq<(Seq<char>, Seq<PromptAssetManifest>)>,
    ts: Seq<TemplateFile>,
    slots: Seq<SlotSpec>,
    k: int,
)
    requires
        0 <= k <= gs.len(),
        compile_groups(gs.take(k), ts, slots) is Err,
    ensures
        compile_groups(gs, ts, slots) == compile_groups(gs.take(k), ts, slots),
    decreases gs.len() - k,
{
    if k < gs.len() {
        assert(gs.take(k + 1).drop_last() =~= gs.take(k));
        lemma_compile_groups_error_sticks(gs, ts, slots, k + 1);
    } else {
        assert(gs.take(k) =~= gs);
    }
}

fn find_template<'a>(templates: &'a Vec<TemplateFile>, path: &str) -> (r: Option<&'a TemplateFile>)
    ensures
        match r {
            Some(t) => template_for(templates@, path@) == Some(*t),
            None => template_for(templates@, path@) is None,
        },
{
    let mut i: usize = 0;
    assert(templates@.take(0) =~= Seq::<TemplateFile>::empty());
    while i < templates.len()
        invariant
            i <= templates@.len(),
            template_for(templates@.take(i as int), path@) is None,
        decreases templates@.len() - i,
    {
        assert(templates@.take(i + 1).drop_last() =~= templates@.take(i as int));
        if text_eq(templates[i].source_path.as_str(), path) {
            proof {
                lemma_template_for_sticks(templates@, path@, i + 1);
            }
            return Some(&templates[i]);
        }
        i = i + 1;
    }
    assert(templates@.take(i as int) =~= templates@);
    None
}

proof fn lemma_template_for_sticks(ts: Seq<TemplateFile>, path: Seq<char>, k: int)
    requires
        0 <= k <= ts.len(),
        template_for(ts.take(k), path) is Some,
    ensures
        template_for(ts, path) == template_for(ts.take(k), path),
    decreases ts.len() - k,
{
    if k < ts.len() {
        assert(ts.take(k + 1).drop_last() =~= ts.take(k));
        lemma_template_for_sticks(ts, path, k + 1);
    } else {
        assert(ts.take(k) =~= ts);
    }
}

fn find_section(sections: &Vec<PromptAssetSection>, id: &str) -> (r: usize)
    requires
        section_ids(section_views(sections@)).contains(id@),
    ensures
        r as int == section_position(section_views(sections@), id@),
        r < sections@.len(),
{
    let ghost ss = section_views(sections@);
    proof {
        lemma_section_position(ss, id@);
    }
    let mut i: usize = 0;
    while i < sections.len()
        invariant
            i <= sections@.len(),
            ss == section_views(sections@),
            forall|k: int| 0 <= k < i ==> (#[trigger] sections@[k]).asset_id@ != id@,
            0 <= section_position(ss, id@) < ss.len(),
            ss[section_position(ss, id@)].0 == id@,
        decreases sections@.len() - i,
    {
        if text_eq(sections[i].asset_id.as_str(), id) {
            proof {
                lemma_section_position_first(ss, id@, i as int);
            }
            return i;
        }
        i = i + 1;
    }
    assert(sections@[section_position(ss, id@)].asset_id@ == id@);
    0
}

proof fn lemma_section_position_first(ss: Seq<SectionView>, id: Seq<char>, i: int)
    requires
        0 <= i < ss.len(),
        ss[i].0 == id,
        forall|k: int| 0 <= k < i ==> (#[trigger] ss[k]).0 != id,
    ensures
        section_position(ss, id) == i,
    decreases ss.len(),
{
    if i < ss.len() - 1 {
        assert(ss.drop_last()[i] == ss[i]);
        assert(section_ids(ss.drop_last())[i] == id);
        assert forall|k: int| 0 <= k < i implies (#[trigger] ss.drop_last()[k]).0 != id by {
            assert(ss.drop_last()[k] == ss[k]);
        }
        lemma_section_position_first(ss.drop_last(), id, i);
    } else {
        if section_ids(ss.drop_last()).contains(id) {
            let k = choose|k: int| 0 <= k < section_ids(ss.drop_last()).len() && section_ids(ss.drop_last())[k] == id;
            assert(ss[k].0 == id);
        }
    }
}

fn has_asset_id(assets: &Vec<CatalogAsset>, id: &str) -> (r: bool)
    ensures
        r == asset_ids(catalog_asset_views(assets@)).contains(id@),
{
    let mut i: usize = 0;
    while i < assets.len()
        invariant
            i <= assets@.len(),
            forall|k: int| 0 <= k < i ==> (#[trigger] assets@[k]).compiled.manifest.asset_id@ != id@,
        decreases assets@.len() - i,
    {
        if text_eq(assets[i].compiled.manifest.asset_id.as_str(), id) {
            assert(asset_ids(catalog_asset_views(assets@))[i as int] == id@);
            return true;
        }
        i = i + 1;
    }
    proof {
        if asset_ids(catalog_asset_views(assets@)).contains(id@) {
            let k = choose|k: int|
                0 <= k < asset_ids(catalog_asset_views(assets@)).len() && asset_ids(catalog_asset_views(assets@))[k]
                    == id@;
            assert(assets@[k].compiled.manifest.asset_id@ == id@);
        }
    }
    false
}

fn copy_slot_ids(ids: &Vec<SlotId>) -> (r: Vec<SlotId>)
    ensures
        slot_id_views(r@) == slot_id_views(ids@),
{
    let mut r: Vec<SlotId> = Vec::new();
    let mut i: usize = 0;
    while i < ids.len()
        invariant
            i <= ids@.len(),
            r@.len() == i,
            forall|k: int| 0 <= k < i ==> (#[trigger] r@[k])@ == ids@[k]@,
        decreases ids@.len() - i,
    {
        r.push(SlotId::new(owned(ids[i].as_str())));
        i = i + 1;
    }
    assert(slot_id_views(r@) =~= slot_id_views(ids@));
    r
}

/// Compiles one manifest after `assets`, given the sections of its template.
fn compile_manifest(m: PromptAssetManifest, sections: &Vec<PromptAssetSection>, assets: &mut Vec<CatalogAsset>) -> (r:
    Result<(), PromptError>)
    requires
        section_ids(section_views(sections@)).contains(m.asset_id@),
    ensures
        match asset_step(m, section_views(sections@), catalog_asset_views(old(assets)@)) {
            Err(e) => r matches Err(PromptError::CatalogLoad(t)) && t@ == e,
            Ok(a) => r is Ok && catalog_asset_views(final(assets)@) == catalog_asset_views(old(assets)@).push(a),
        },
{
    let ghost ss = section_views(sections@);
    let ghost done = catalog_asset_views(assets@);
    proof {
        reveal(asset_step);
    }
    match validate_asset_status(&m) {
        Ok(()) => {},
        Err(e) => {
            return Err(e);
        },
    }
    let p = find_section(sections, m.asset_id.as_str());
    assert(ss[p as int] == section_view(sections@[p as int]));
    let computed = compute_asset_hash(sections[p].body.as_str(), &m);
    match &m.hash {
        Some(declared) => {
            if !text_eq(declared.as_str(), computed.as_str()) {
                let mut msg = owned("hash mismatch for asset `");
                msg.append(m.asset_id.as_str());
                msg.append("`: declared=");
                msg.append(declared.as_str());
                msg.append(", computed=");
                msg.append(computed.as_str());
                return Err(PromptError::CatalogLoad(msg));
            }
        },
        None => {},
    }
    if has_asset_id(assets, m.asset_id.as_str()) {
        let mut msg = owned("duplicate asset manifest `");
        msg.append(m.asset_id.as_str());
        msg.append("` declared in index.yaml");
        return Err(PromptError::CatalogLoad(msg));
    }
    let template_name = owned(m.asset_id.as_str());
    let body = sections[p].body.clone();
    let anchor = sections[p].source_anchor.clone();
    let slot_ids = copy_slot_ids(&sections[p].slot_ids);
    let asset = CatalogAsset {
        compiled: CompiledPromptAsset { manifest: m, source_anchor: anchor, resolved_hash: computed, template_name },
        body,
        slot_ids,
    };
    assets.push(asset);
    assert(catalog_asset_views(assets@) =~= done.push(catalog_asset_view(asset)));
    Ok(())
}

/// Compiles the manifests of one template after `assets`, given its
/// sections (already matched with the manifests).
fn compile_group_manifests(
    manifests: Vec<PromptAssetManifest>,
    sections: &Vec<PromptAssetSection>,
    assets: &mut Vec<CatalogAsset>,
) -> (r: Result<(), PromptError>)
    requires
        forall|k: int|
            0 <= k < manifests@.len() ==> section_ids(section_views(sections@)).contains(
                (#[trigger] manifests@[k]).asset_id@,
            ),
    ensures
        match compile_manifests(manifests@, section_views(sections@), catalog_asset_views(old(assets)@)) {
            Err(e) => r matches Err(PromptError::CatalogLoad(t)) && t@ == e,
            Ok(v) => r is Ok && catalog_asset_views(final(assets)@) == v,
        },
{
    let ghost all = manifests@;
    let ghost ss = section_views(sections@);
    let ghost start = catalog_asset_views(assets@);
    assert(all.len() == manifests.len());
    let mut rest = manifests;
    let mut i: usize = 0;
    assert(all.take(0) =~= Seq::<PromptAssetManifest>::empty());
    assert(all.skip(0) =~= all);
    while rest.len() > 0
        invariant
            i <= all.len(),
            all.len() <= usize::MAX,
            rest@ == all.skip(i as int),
            ss == section_views(sections@),
            forall|k: int| 0 <= k < all.len() ==> section_ids(ss).contains((#[trigger] all[k]).asset_id@),
            start == catalog_asset_views(old(assets)@),
            all == manifests@,
            compile_manifests(all.take(i as int), ss, start) == Ok::<Seq<CatalogAssetView>, Seq<char>>(
                catalog_asset_views(assets@),
            ),
        decreases rest@.len(),
    {
        assert(rest@.len() == all.len() - i);
        assert(all.take(i + 1).drop_last() =~= all.take(i as int));
        assert(all.take(i + 1).last() == all[i as int]);
        let m = rest.remove(0);
        assert(m == all[i as int]);
        assert(rest@ =~= all.skip(i + 1));
        let ghost before = catalog_asset_views(assets@);
        let ghost step = asset_step(m, ss, before);
        assert(compile_manifests(all.take(i + 1), ss, start) == match step {
            Err(e) => Err(e),
            Ok(a) => Ok::<Seq<CatalogAssetView>, Seq<char>>(before.push(a)),
        });
        match compile_manifest(m, sections, assets) {
            Ok(()) => {},
            Err(e) => {
                proof {
                    assert(step is Err);
                    lemma_compile_manifests_error_sticks(all, ss, start, i + 1);
                }
                return Err(e);
            },
        }
        i = i + 1;
    }
    assert(all.take(i as int) =~= all);
    Ok(())
}

/// Compiles the manifests of one source path after `assets`: finds its
/// template file, extracts its sections, matches them with the manifests
/// and compiles each manifest.
fn compile_group(
    path: &str,
    manifests: Vec<PromptAssetManifest>,
    templates: &Vec<TemplateFile>,
    slots: &Vec<SlotSpec>,
    assets: &mut Vec<CatalogAsset>,
) -> (r: Result<(), PromptError>)
    ensures
        match group_step(path@, manifests@, templates@, slots@, catalog_asset_views(old(assets)@)) {
            Err(e) => r matches Err(PromptError::CatalogLoad(t)) && t@ == e,
            Ok(v) => r is Ok && catalog_asset_views(final(assets)@) == v,
        },
{
    let t = match find_template(templates, path) {
        None => {
            let mut m = owned("no contents were read for template `");
            m.append(path);
            m.append("`");
            return Err(PromptError::CatalogLoad(m));
        },
        Some(t) => t,
    };
    let text = match &t.contents {
        Err(e) => {
            let mut m = owned("failed to read template ");
            m.append(t.display_path.as_str());
            m.append(": ");
            m.append(e.as_str());
            return Err(PromptError::CatalogLoad(m));
        },
        Ok(text) => text,
    };
    let sections = match extract_asset_sections(path, text.text.as_str(), &text.section_metadata) {
        Ok(sections) => sections,
        Err(PromptError::CatalogLoad(e)) => {
            let mut m = owned("failed to parse sections in ");
            m.append(t.display_path.as_str());
            m.append(": ");
            m.append(e.as_str());
            return Err(PromptError::CatalogLoad(m));
        },
        Err(e) => {
            return Err(e);
        },
    };
    match validate_sections_for_source(path, &manifests, &sections, slots) {
        Ok(()) => {},
        Err(e) => {
            return Err(e);
        },
    }
    proof {
        let ss = section_views(sections@);
        let f1 = |m: PromptAssetManifest| missing_section(path@, ss, m);
        lemma_first_error_none(manifests@, f1);
        assert forall|k: int| 0 <= k < manifests@.len() implies section_ids(ss).contains(
            (#[trigger] manifests@[k]).asset_id@,
        ) by {
            assert(f1(manifests@[k]) is None);
        }
    }
    compile_group_manifests(manifests, &sections, assets)
}

/// Compiles the assets of every source path, path after path.
pub fn compile_assets(
    groups: Vec<(String, Vec<PromptAssetManifest>)>,
    templates: &Vec<TemplateFile>,
    slots: &Vec<SlotSpec>,
) -> (r: Result<Vec<CatalogAsset>, PromptError>)
    ensures
        match compile_groups(group_views(groups@), templates@, slots@) {
            Err(e) => r matches Err(PromptError::CatalogLoad(t)) && t@ == e,
            Ok(v) => r matches Ok(a) && catalog_asset_views(a@) == v,
        },
{
    let ghost gs = group_views(groups@);
    let ghost all = groups@;
    assert(all.len() == groups.len());
    let mut rest = groups;
    let mut assets: Vec<CatalogAsset> = Vec::new();
    let mut i: usize = 0;
    assert(gs.take(0) =~= Seq::<(Seq<char>, Seq<PromptAssetManifest>)>::empty());
    assert(all.skip(0) =~= all);
    assert(catalog_asset_views(assets@) =~= Seq::<CatalogAssetView>::empty());
    while rest.len() > 0
        invariant
            i <= all.len(),
            all.len() <= usize::MAX,
            all == groups@,
            gs == group_views(all),
            rest@ == all.skip(i as int),
            compile_groups(gs.take(i as int), templates@, slots@) == Ok::<Seq<CatalogAssetView>, Seq<char>>(
                catalog_asset_views(assets@),
            ),
        decreases rest@.len(),
    {
        assert(rest@.len() == all.len() - i);
        assert(gs.take(i + 1).drop_last() =~= gs.take(i as int));
        assert(gs.take(i + 1).last() == gs[i as int]);
        let (path, manifests) = rest.remove(0);
        assert((path@, manifests@) == gs[i as int]);
        assert(rest@ =~= all.skip(i + 1));
        match compile_group(path.as_str(), manifests, templates, slots, &mut assets) {
            Ok(()) => {},
            Err(e) => {
                proof {
                    lemma_compile_groups_error_sticks(gs, templates@, slots@, i + 1);
                }
                return Err(e);
            },
        }
        i = i + 1;
    }
    assert(gs.take(i as int) =~= gs);
    Ok(assets)
}

/// What the index of a catalog declares: its assets, its packs, the pack
/// the resolver takes by default, and its policies.
#[derive(Debug, Clone)]
pub struct PromptIndex {
    pub assets: Vec<PromptAssetManifest>,
    pub packs: Vec<PromptPack>,
    pub default_pack: String,
    pub policies: Vec<PromptPolicy>,
}

/// A compiled catalog: its assets with the bodies and slots of their
/// sections, the slot registry, the packs resolved and as declared (both in
/// index order), the resolver and the policies.
#[derive(Debug)]
pub struct CompiledCatalog {
    pub assets: Vec<CatalogAsset>,
    pub slots: Vec<SlotSpec>,
    pub packs: Vec<ResolvedPack>,
    pub raw_packs: Vec<PromptPack>,
    pub resolver: PromptResolver,
    pub policies: Vec<PromptPolicy>,
}

/// The assets a catalog compiles to, or why they do not compile.
pub open spec fn catalog_assets(index: PromptIndex, slots: Seq<SlotSpec>, ts: Seq<TemplateFile>) -> Result<
    Seq<CatalogAssetView>,
    Seq<char>,
> {
    compile_groups(groups_of(index.assets@), ts, slots)
}

/// A catalog compiles when its policies are supported, its assets compile
/// and its packs pass their checks.
pub open spec fn catalog_ok(index: PromptIndex, slots: Seq<SlotSpec>, ts: Seq<TemplateFile>) -> bool {
    &&& policy_support_error(index.policies@) is None
    &&& catalog_assets(index, slots, ts) is Ok
    &&& packs_outcome_ok(index.packs@, index.default_pack@, catalog_assets(index, slots, ts)->Ok_0, slots)
}

/// The errors a catalog that does not compile is refused with: the first
/// unsupported policy, else the first asset error, else a pack error.
pub open spec fn catalog_error(index: PromptIndex, slots: Seq<SlotSpec>, ts: Seq<TemplateFile>, e: PromptError) -> bool {
    match policy_support_error(index.policies@) {
        Some(m) => e matches PromptError::CatalogLoad(t) && t@ == m,
        None => match catalog_assets(index, slots, ts) {
            Err(m) => e matches PromptError::CatalogLoad(t) && t@ == m,
            Ok(av) => packs_error(index.packs@, index.default_pack@, av, slots, e),
        },
    }
}

/// Compiles a catalog from its index, its slot registry and its template
/// files: checks the policies, compiles the assets of each template, then
/// checks and resolves the packs.
pub fn compile_catalog(index: PromptIndex, slots: Vec<SlotSpec>, templates: &Vec<TemplateFile>) -> (r: Result<
    CompiledCatalog,
    PromptError,
>)
    ensures
        match r {
            Ok(c) => {
                &&& catalog_ok(index, slots@, templates@)
                &&& catalog_asset_views(c.assets@) == catalog_assets(index, slots@, templates@)->Ok_0
                &&& c.slots@ == slots@
                &&& resolved_as(c.packs@, index.packs@)
                &&& c.raw_packs@ == index.packs@
                &&& c.resolver.default_pack@ == index.default_pack@
                &&& c.policies@ == index.policies@
            },
            Err(e) => !catalog_ok(index, slots@, templates@) && catalog_error(index, slots@, templates@, e),
        },
{
    let ghost idx = index;
    let PromptIndex { assets, packs, default_pack, policies } = index;
    match validate_policy_support(&policies) {
        Ok(()) => {},
        Err(e) => {
            return Err(e);
        },
    }
    let groups = manifests_by_source_path(assets);
    let compiled = match compile_assets(groups, templates, &slots) {
        Ok(a) => a,
        Err(e) => {
            return Err(e);
        },
    };
    let resolved = match check_packs(&packs, default_pack.as_str(), &compiled, &slots) {
        Ok(v) => v,
        Err(e) => {
            return Err(e);
        },
    };
    Ok(
        CompiledCatalog {
            assets: compiled,
            slots,
            packs: resolved,
            raw_packs: packs,
            resolver: PromptResolver { default_pack },
            policies,
        },
    )
}

/// The template files a catalog reads: the source paths of its manifests,
/// each once, in order of first appearance.
pub fn template_paths(manifests: &Vec<PromptAssetManifest>) -> (r: Vec<String>)
    ensures
        views_of_paths(r@) == source_paths(manifests@),
{
    let mut r: Vec<String> = Vec::new();
    let mut i: usize = 0;
    assert(manifests@.take(0) =~= Seq::<PromptAssetManifest>::empty());
    while i < manifests.len()
        invariant
            i <= manifests@.len(),
            views_of_paths(r@) == source_paths(manifests@.take(i as int)),
        decreases manifests@.len() - i,
    {
        assert(manifests@.take(i + 1).drop_last() =~= manifests@.take(i as int));
        assert(manifests@.take(i + 1).last() == manifests@[i as int]);
        let p = manifests[i].source_path.as_str();
        let mut j: usize = 0;
        let mut seen = false;
        while j < r.len()
            invariant
                j <= r@.len(),
                seen ==> views_of_paths(r@).contains(p@),
                !seen ==> forall|k: int| 0 <= k < j ==> (#[trigger] r@[k])@ != p@,
            decreases r@.len() - j,
        {
            if text_eq(r[j].as_str(), p) {
                assert(views_of_paths(r@)[j as int] == p@);
                seen = true;
            }
            j = j + 1;
        }
        if !seen {
            proof {
                if views_of_paths(r@).contains(p@) {
                    let k = choose|k: int| 0 <= k < views_of_paths(r@).len() && views_of_paths(r@)[k] == p@;
                    assert(r@[k]@ == p@);
                }
            }
            r.push(owned(p));
            assert(views_of_paths(r@) =~= source_paths(manifests@.take(i + 1)));
        }
        i = i + 1;
    }
    assert(manifests@.take(i as int) =~= manifests@);
    r
}

pub open spec fn distinct_ids(ids: Seq<Seq<char>>) -> bool {
    forall|a: int, b: int| 0 <= a < b < ids.len() ==> ids[a] != ids[b]
}

proof fn lemma_manifests_keep_distinct(ms: Seq<PromptAssetManifest>, ss: Seq<SectionView>, done: Seq<CatalogAssetView>)
    requires
        distinct_ids(asset_ids(done)),
    ensures
        compile_manifests(ms, ss, done) matches Ok(v) ==> distinct_ids(asset_ids(v)),
    decreases ms.len(),
{
    reveal(asset_step);
    if ms.len() > 0 {
        lemma_manifests_keep_distinct(ms.drop_last(), ss, done);
        if let Ok(d) = compile_manifests(ms.drop_last(), ss, done) {
            if let Ok(a) = asset_step(ms.last(), ss, d) {
                let v = d.push(a);
                assert forall|x: int, y: int| 0 <= x < y < asset_ids(v).len() implies asset_ids(v)[x]
                    != asset_ids(v)[y] by {
                    if y == d.len() {
                        assert(asset_ids(d)[x] == asset_ids(v)[x]);
                        assert(a.0.asset_id@ == ms.last().asset_id@);
                    } else {
                        assert(asset_ids(d)[x] == asset_ids(v)[x]);
                        assert(asset_ids(d)[y] == asset_ids(v)[y]);
                    }
                }
            }
        }
    }
}

proof fn lemma_groups_distinct(gs: Seq<(Seq<char>, Seq<PromptAssetManifest>)>, ts: Seq<TemplateFile>, slots: Seq<SlotSpec>)
    ensures
        compile_groups(gs, ts, slots) matches Ok(v) ==> distinct_ids(asset_ids(v)),
    decreases gs.len(),
{
    if gs.len() == 0 {
        assert(asset_ids(Seq::<CatalogAssetView>::empty()).len() == 0);
    } else {
        lemma_groups_distinct(gs.drop_last(), ts, slots);
        if let Ok(d) = compile_groups(gs.drop_last(), ts, slots) {
            let g = gs.last();
            if let Some(t) = template_for(ts, g.0) {
                if let Ok(text) = t.contents {
                    if let Ok(ss) = template_sections(g.0, text) {
                        lemma_manifests_keep_distinct(g.1, ss, d);
                    }
                }
            }
        }
    }
}

/// Law: the assets of a catalog that compiles have distinct ids.
pub proof fn law_compiled_asset_ids_distinct(index: PromptIndex, slots: Seq<SlotSpec>, ts: Seq<TemplateFile>)
    ensures
        catalog_assets(index, slots, ts) matches Ok(v) ==> distinct_ids(asset_ids(v)),
{
    lemma_groups_distinct(groups_of(index.assets@), ts, slots);
}

/// Law: in a catalog that compiles, every pack binds each slot to an asset
/// whose section declares the slot and whose kind the slot takes, and
/// covers every required slot.
pub proof fn law_compiled_packs_bind_declared_slots(
    index: PromptIndex,
    slots: Seq<SlotSpec>,
    ts: Seq<TemplateFile>,
    i: int,
    slot: Seq<char>,
)
    requires
        catalog_ok(index, slots, ts),
        0 <= i < index.packs@.len(),
    ensures
        ({
            let av = catalog_assets(index, slots, ts)->Ok_0;
            let m = crate::prompt::pack_check::resolved_slot_map(index.packs@[i].name@, index.packs@);
            &&& m.contains_key(slot) ==> exists|k: int|
                0 <= k < av.len() && (#[trigger] av[k]).0.asset_id@ == m[slot] && av[k].5.contains(slot)
                    && (slot_index(slots, slot) matches Some(j) ==> slots[j].allowed_kinds@.contains(av[k].0.kind))
            &&& (slot_index(slots, slot) matches Some(j) && slots[j].required) ==> m.contains_key(slot)
        }),
{
    let av = catalog_assets(index, slots, ts)->Ok_0;
    let m = crate::prompt::pack_check::resolved_slot_map(index.packs@[i].name@, index.packs@);
    assert(crate::prompt::pack_check::pack_ok(index.packs@[i].name@, m, av, slots));
    lemma_slot_index(slots, slot);
    if m.contains_key(slot) {
        let a = m[slot];
        assert(crate::prompt::pack_check::binding_check(index.packs@[i].name@, slot, a, av, slots) is None);
        crate::prompt::pack_check::lemma_asset_index_found(av, a);
    }
    if let Some(j) = slot_index(slots, slot) {
        if slots[j].required {
            assert(slots[j].required);
        }
    }
}

impl CompiledCatalog {
    /// Where a resolved slot renders from: the catalog's asset that it
    /// names, whose kind the slot (where the catalog declares it) must take.
    pub fn render_target(&self, slot_id: &str, resolved: &ResolvedSlot) -> (r: Result<usize, PromptError>)
        ensures
            match crate::prompt::pack_check::asset_index(catalog_asset_views(self.assets@), resolved.root.asset_id@) {
                None => r matches Err(PromptError::AssetNotFound(t)) && t@ == resolved.root.asset_id@,
                Some(k) => {
                    let kind = self.assets@[k].compiled.manifest.kind;
                    match slot_index(self.slots@, slot_id@) {
                        Some(i) => if self.slots@[i].allowed_kinds@.contains(kind) {
                            r == Ok::<usize, PromptError>(k as usize)
                        } else {
                            r matches Err(PromptError::KindMismatch { slot, expected, actual }) && slot@ == slot_id@
                                && expected@ == self.slots@[i].allowed_kinds@ && actual == kind
                        },
                        None => r == Ok::<usize, PromptError>(k as usize),
                    }
                },
            },
    {
        let k = match crate::prompt::pack_check::find_asset(&self.assets, resolved.root.asset_id.as_str()) {
            Some(k) => k,
            None => {
                return Err(PromptError::AssetNotFound(owned(resolved.root.asset_id.as_str())));
            },
        };
        let kind = self.assets[k].compiled.manifest.kind;
        proof {
            lemma_slot_index(self.slots@, slot_id@);
            assert(catalog_asset_views(self.assets@)[k as int] == catalog_asset_view(self.assets@[k as int]));
        }
        match find_slot(&self.slots, slot_id) {
            Some(i) => {
                let spec = &self.slots[i];
                if !spec.accepts_kind(&kind) {
                    let mut expected: Vec<PromptKind> = Vec::new();
                    let mut j: usize = 0;
                    while j < spec.allowed_kinds.len()
                        invariant
                            j <= spec.allowed_kinds@.len(),
                            expected@ == spec.allowed_kinds@.take(j as int),
                        decreases spec.allowed_kinds@.len() - j,
                    {
                        expected.push(spec.allowed_kinds[j]);
                        assert(spec.allowed_kinds@.take(j + 1) =~= spec.allowed_kinds@.take(j as int).push(
                            spec.allowed_kinds@[j as int],
                        ));
                        j = j + 1;
                    }
                    assert(spec.allowed_kinds@.take(j as int) =~= spec.allowed_kinds@);
                    return Err(PromptError::KindMismatch { slot: owned(slot_id), expected, actual: kind });
                }
                Ok(k)
            },
            None => Ok(k),
        }
    }
}

impl CompiledCatalog {
    /// The compiled asset with the id, if the catalog holds it.
    pub fn asset(&self, asset_ref: &str) -> (r: Option<&CatalogAsset>)
        ensures
            match crate::prompt::pack_check::asset_index(catalog_asset_views(self.assets@), asset_ref@) {
                Some(k) => r == Some(&self.assets@[k]),
                None => r is None,
            },
    {
        match crate::prompt::pack_check::find_asset(&self.assets, asset_ref) {
            Some(k) => Some(&self.assets[k]),
            None => None,
        }
    }

    pub fn asset_count(&self) -> (r: usize)
        ensures
            r == self.assets@.len(),
    {
        self.assets.len()
    }

    /// Whether a resolved pack has the name.
    pub fn has_pack(&self, pack_name: &str) -> (r: bool)
        ensures
            r == crate::prompt::pack::pack_position(self.packs@, pack_name@) is Some,
    {
        let mut i: usize = 0;
        assert(self.packs@.take(0) =~= Seq::<ResolvedPack>::empty());
        while i < self.packs.len()
            invariant
                i <= self.packs@.len(),
                crate::prompt::pack::pack_position(self.packs@.take(i as int), pack_name@) is None,
            decreases self.packs@.len() - i,
        {
            assert(self.packs@.take(i + 1).drop_last() =~= self.packs@.take(i as int));
            if text_eq(self.packs[i].name.as_str(), pack_name) {
                proof {
                    crate::prompt::pack::lemma_pack_position_prefix(self.packs@, i as int + 1, pack_name@);
                }
                return true;
            }
            i = i + 1;
        }
        assert(self.packs@.take(i as int) =~= self.packs@);
        false
    }

    pub fn pack_count(&self) -> (r: usize)
        ensures
            r == self.packs@.len(),
    {
        self.packs.len()
    }

    /// The pack as the index declares it, if one has the name.
    pub fn raw_pack(&self, pack_name: &str) -> (r: Option<&PromptPack>)
        ensures
            match crate::prompt::pack::source_position(self.raw_packs@, pack_name@) {
                Some(k) => r == Some(&self.raw_packs@[k]),
                None => r is None,
            },
    {
        match crate::prompt::pack::find_source(&self.raw_packs, pack_name) {
            Some(k) => Some(&self.raw_packs[k]),
            None => None,
        }
    }
}

} // verus!
