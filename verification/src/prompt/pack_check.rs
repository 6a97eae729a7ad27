//! The checks a catalog makes of its packs: names once, the default pack
//! present, every pack resolvable, every binding to a known asset whose
//! section serves the slot with a kind the slot takes, and every required
//! slot covered.
use crate::prompt::error::PromptError;
use crate::prompt::loader::{lemma_slot_index, catalog_asset_view, catalog_asset_views, slot_index, CatalogAsset, CatalogAssetView};
use crate::prompt::model::{slot_id_views, AssetRef, PromptKind, SlotId};
use crate::prompt::pack::{
    chain_error_message, chain_slots, error_is, lookup_slot, pack_chain, resolve_pack, slot_entries_map,
    ChainError, PromptPack, ResolvedPack,
};
use crate::prompt::resolver::{asset_ref_error, parse_asset_ref};
use crate::prompt::slot::SlotSpec;
use crate::text::{owned, text_eq};
use vstd::prelude::*;

verus! {

/// The errors of the pack checks, as values.
pub enum LoadErrorView {
    CatalogLoad(Seq<char>),
    AssetNotFound(Seq<char>),
    KindMismatch(Seq<char>, Seq<PromptKind>, PromptKind),
}

pub open spec fn load_error_is(e: PromptError, v: LoadErrorView) -> bool {
    match v {
        LoadErrorView::CatalogLoad(m) => e matches PromptError::CatalogLoad(t) && t@ == m,
        LoadErrorView::AssetNotFound(m) => e matches PromptError::AssetNotFound(t) && t@ == m,
        LoadErrorView::KindMismatch(slot, expected, actual) => e matches PromptError::KindMismatch {
            slot: s,
            expected: x,
            actual: a,
        } && s@ == slot && x@ == expected && a == actual,
    }
}

pub open spec fn pack_names(ps: Seq<PromptPack>) -> Seq<Seq<char>> {
    ps.map_values(|p: PromptPack| p.name@)
}

/// The first pack whose name an earlier pack has.
pub open spec fn duplicate_pack_error(ps: Seq<PromptPack>) -> Option<Seq<char>>
    decreases ps.len(),
{
    if ps.len() == 0 {
        None
    } else {
        match duplicate_pack_error(ps.drop_last()) {
            Some(m) => Some(m),
            None => if pack_names(ps.drop_last()).contains(ps.last().name@) {
                Some("duplicate pack name `"@ + ps.last().name@ + "` declared in index.yaml"@)
            } else {
                None
            },
        }
    }
}

/// The first pack whose inheritance chain cannot be followed.
pub open spec fn first_chain_error(ps: Seq<PromptPack>, all: Seq<PromptPack>) -> Option<ChainError>
    decreases ps.len(),
{
    if ps.len() == 0 {
        None
    } else {
        match first_chain_error(ps.drop_last(), all) {
            Some(e) => Some(e),
            None => match pack_chain(ps.last().name@, all, Seq::empty()) {
                Err(e) => Some(e),
                Ok(_) => None,
            },
        }
    }
}

/// The slot map of a pack whose chain resolves.
pub open spec fn resolved_slot_map(name: Seq<char>, all: Seq<PromptPack>) -> Map<Seq<char>, Seq<char>> {
    chain_slots(pack_chain(name, all, Seq::empty())->Ok_0, all)
}

/// The position of the first asset with the id.
pub open spec fn asset_index(assets: Seq<CatalogAssetView>, id: Seq<char>) -> Option<int>
    decreases assets.len(),
{
    if assets.len() == 0 {
        None
    } else {
        match asset_index(assets.drop_last(), id) {
            Some(i) => Some(i),
            None => if assets.last().0.asset_id@ == id {
                Some(assets.len() - 1)
            } else {
                None
            },
        }
    }
}

/// Why a pack's binding of a slot to an asset reference is refused, if it
/// is: the reference is malformed, names no asset, names an asset whose
/// section does not serve the slot, or one of a kind the slot does not
/// take.
pub open spec fn binding_check(
    pack: Seq<char>,
    slot: Seq<char>,
    asset: Seq<char>,
    assets: Seq<CatalogAssetView>,
    slots: Seq<SlotSpec>,
) -> Option<LoadErrorView> {
    match asset_ref_error(asset) {
        Some(m) => Some(LoadErrorView::AssetNotFound(m)),
        None => match asset_index(assets, asset) {
            None => Some(
                LoadErrorView::CatalogLoad(
                    "pack `"@ + pack + "` references unknown asset `"@ + asset + "` for slot `"@ + slot + "`"@,
                ),
            ),
            Some(k) => if !assets[k].5.contains(slot) {
                Some(
                    LoadErrorView::CatalogLoad(
                        "pack `"@ + pack + "` binds slot `"@ + slot + "` to asset `"@ + asset
                            + "`, but section `"@ + assets[k].1 + "` does not declare that slot"@,
                    ),
                )
            } else {
                match slot_index(slots, slot) {
                    Some(j) => if !slots[j].allowed_kinds@.contains(assets[k].0.kind) {
                        Some(LoadErrorView::KindMismatch(slot, slots[j].allowed_kinds@, assets[k].0.kind))
                    } else {
                        None
                    },
                    None => None,
                }
            },
        },
    }
}

/// A pack passes when all its bindings pass and it covers every required
/// slot.
pub open spec fn pack_ok(
    pack: Seq<char>,
    m: Map<Seq<char>, Seq<char>>,
    assets: Seq<CatalogAssetView>,
    slots: Seq<SlotSpec>,
) -> bool {
    &&& forall|s: Seq<char>| #[trigger] m.contains_key(s) ==> binding_check(pack, s, m[s], assets, slots) is None
    &&& forall|j: int| 0 <= j < slots.len() && (#[trigger] slots[j]).required ==> m.contains_key(slots[j].slot_id@)
}

/// The errors a pack can be refused with: one of a failing binding, or the
/// message for a required slot it does not cover.
pub open spec fn pack_violation(
    pack: Seq<char>,
    m: Map<Seq<char>, Seq<char>>,
    assets: Seq<CatalogAssetView>,
    slots: Seq<SlotSpec>,
    v: LoadErrorView,
) -> bool {
    ||| exists|s: Seq<char>| #[trigger] m.contains_key(s) && binding_check(pack, s, m[s], assets, slots) == Some(v)
    ||| exists|j: int|
        0 <= j < slots.len() && (#[trigger] slots[j]).required && !m.contains_key(slots[j].slot_id@) && v
            == LoadErrorView::CatalogLoad(
            "pack `"@ + pack + "` does not cover required slot `"@ + slots[j].slot_id@ + "`"@,
        )
}

/// The outcome of the pack checks, given the compiled assets: the packs
/// resolved in order, or why not. Where several bindings or required slots
/// fail, which of them is reported is not fixed.
pub open spec fn packs_outcome_ok(
    ps: Seq<PromptPack>,
    default_pack: Seq<char>,
    assets: Seq<CatalogAssetView>,
    slots: Seq<SlotSpec>,
) -> bool {
    &&& duplicate_pack_error(ps) is None
    &&& pack_names(ps).contains(default_pack)
    &&& first_chain_error(ps, ps) is None
    &&& forall|i: int|
        0 <= i < ps.len() ==> pack_ok(ps[i].name@, resolved_slot_map((#[trigger] ps[i]).name@, ps), assets, slots)
}

pub open spec fn resolved_as(r: Seq<ResolvedPack>, ps: Seq<PromptPack>) -> bool {
    &&& r.len() == ps.len()
    &&& forall|i: int|
        0 <= i < r.len() ==> (#[trigger] r[i]).name@ == ps[i].name@ && r[i].extends_chain@.map_values(
            |c: String| c@,
        ) == pack_chain(ps[i].name@, ps, Seq::empty())->Ok_0 && slot_entries_map(r[i].resolved_slots@)
            == resolved_slot_map(ps[i].name@, ps)
}

pub open spec fn packs_error(
    ps: Seq<PromptPack>,
    default_pack: Seq<char>,
    assets: Seq<CatalogAssetView>,
    slots: Seq<SlotSpec>,
    e: PromptError,
) -> bool {
    match duplicate_pack_error(ps) {
        Some(m) => e matches PromptError::CatalogLoad(t) && t@ == m,
        None => if !pack_names(ps).contains(default_pack) {
            e matches PromptError::CatalogLoad(t) && t@ == "resolver default_pack `"@ + default_pack
                + "` does not exist"@
        } else {
            match first_chain_error(ps, ps) {
                Some(ce) => error_is(e, chain_error_message(ce)),
                None => exists|i: int, v: LoadErrorView|
                    #![trigger ps[i], load_error_is(e, v)]
                    0 <= i < ps.len() && pack_violation(
                        ps[i].name@,
                        resolved_slot_map(ps[i].name@, ps),
                        assets,
                        slots,
                        v,
                    ) && load_error_is(e, v),
            }
        },
    }
}

/// An entry of a slot list that no later entry replaces.
pub open spec fn live(es: Seq<(SlotId, AssetRef)>, k: int) -> bool {
    forall|j: int| k < j < es.len() ==> (#[trigger] es[j]).0@ != es[k].0@
}

proof fn lemma_entries_map_live(es: Seq<(SlotId, AssetRef)>)
    ensures
        forall|k: int|
            0 <= k < es.len() && live(es, k) ==> slot_entries_map(es).contains_key((#[trigger] es[k]).0@)
                && slot_entries_map(es)[es[k].0@] == es[k].1@,
        forall|s: Seq<char>|
            #[trigger] slot_entries_map(es).contains_key(s) ==> exists|k: int|
                0 <= k < es.len() && live(es, k) && (#[trigger] es[k]).0@ == s,
    decreases es.len(),
{
    if es.len() > 0 {
        let d = es.drop_last();
        lemma_entries_map_live(d);
        assert forall|k: int|
            0 <= k < es.len() && live(es, k) implies slot_entries_map(es).contains_key((#[trigger] es[k]).0@)
            && slot_entries_map(es)[es[k].0@] == es[k].1@ by {
            if k < es.len() - 1 {
                assert(es[es.len() - 1].0@ != es[k].0@);
                assert(d[k] == es[k]);
                assert forall|j: int| k < j < d.len() implies (#[trigger] d[j]).0@ != d[k].0@ by {
                    assert(d[j] == es[j]);
                    assert(es[j].0@ != es[k].0@);
                }
            }
        }
        assert forall|s: Seq<char>| #[trigger] slot_entries_map(es).contains_key(s) implies exists|k: int|
            0 <= k < es.len() && live(es, k) && (#[trigger] es[k]).0@ == s by {
            if s == es.last().0@ {
                assert(live(es, es.len() - 1));
                assert(es[es.len() - 1].0@ == s);
            } else {
                assert(slot_entries_map(d).contains_key(s));
                let k = choose|k: int| 0 <= k < d.len() && live(d, k) && (#[trigger] d[k]).0@ == s;
                assert(d[k] == es[k]);
                assert forall|j: int| k < j < es.len() implies (#[trigger] es[j]).0@ != es[k].0@ by {
                    if j < d.len() {
                        assert(d[j] == es[j]);
                    }
                }
                assert(live(es, k));
            }
        }
    }
}

proof fn lemma_duplicate_sticks(ps: Seq<PromptPack>, k: int)
    requires
        0 <= k <= ps.len(),
        duplicate_pack_error(ps.take(k)) is Some,
    ensures
        duplicate_pack_error(ps) == duplicate_pack_error(ps.take(k)),
    decreases ps.len() - k,
{
    if k < ps.len() {
        assert(ps.take(k + 1).drop_last() =~= ps.take(k));
        lemma_duplicate_sticks(ps, k + 1);
    } else {
        assert(ps.take(k) =~= ps);
    }
}

fn name_among(packs: &Vec<PromptPack>, n: usize, name: &str) -> (r: bool)
    requires
        n <= packs@.len(),
    ensures
        r == pack_names(packs@.take(n as int)).contains(name@),
{
    let mut j: usize = 0;
    while j < n
        invariant
            j <= n,
            n <= packs@.len(),
            forall|k: int| 0 <= k < j ==> (#[trigger] packs@[k]).name@ != name@,
        decreases n - j,
    {
        if text_eq(packs[j].name.as_str(), name) {
            assert(pack_names(packs@.take(n as int))[j as int] == name@);
            return true;
        }
        j = j + 1;
    }
    proof {
        if pack_names(packs@.take(n as int)).contains(name@) {
            let k = choose|k: int|
                0 <= k < pack_names(packs@.take(n as int)).len() && pack_names(packs@.take(n as int))[k] == name@;
            assert(packs@[k].name@ == name@);
        }
    }
    false
}

/// Pack names must be unique.
pub fn check_duplicate_packs(packs: &Vec<PromptPack>) -> (r: Result<(), PromptError>)
    ensures
        match duplicate_pack_error(packs@) {
            Some(m) => r matches Err(PromptError::CatalogLoad(t)) && t@ == m,
            None => r is Ok,
        },
{
    let mut i: usize = 0;
    assert(packs@.take(0) =~= Seq::<PromptPack>::empty());
    while i < packs.len()
        invariant
            i <= packs@.len(),
            duplicate_pack_error(packs@.take(i as int)) is None,
        decreases packs@.len() - i,
    {
        assert(packs@.take(i + 1).drop_last() =~= packs@.take(i as int));
        assert(packs@.take(i + 1).last() == packs@[i as int]);
        if name_among(packs, i, packs[i].name.as_str()) {
            let mut m = owned("duplicate pack name `");
            m.append(packs[i].name.as_str());
            m.append("` declared in index.yaml");
            proof {
                lemma_duplicate_sticks(packs@, i + 1);
            }
            return Err(PromptError::CatalogLoad(m));
        }
        i = i + 1;
    }
    assert(packs@.take(i as int) =~= packs@);
    Ok(())
}

proof fn lemma_chain_error_sticks(ps: Seq<PromptPack>, all: Seq<PromptPack>, k: int)
    requires
        0 <= k <= ps.len(),
        first_chain_error(ps.take(k), all) is Some,
    ensures
        first_chain_error(ps, all) == first_chain_error(ps.take(k), all),
    decreases ps.len() - k,
{
    if k < ps.len() {
        assert(ps.take(k + 1).drop_last() =~= ps.take(k));
        lemma_chain_error_sticks(ps, all, k + 1);
    } else {
        assert(ps.take(k) =~= ps);
    }
}

proof fn lemma_chain_error_none(ps: Seq<PromptPack>, all: Seq<PromptPack>, i: int)
    requires
        first_chain_error(ps, all) is None,
        0 <= i < ps.len(),
    ensures
        pack_chain(ps[i].name@, all, Seq::empty()) is Ok,
    decreases ps.len(),
{
    if i < ps.len() - 1 {
        assert(ps.drop_last()[i] == ps[i]);
        lemma_chain_error_none(ps.drop_last(), all, i);
    }
}

/// Resolves every pack, in order.
pub fn resolve_all(packs: &Vec<PromptPack>) -> (r: Result<Vec<ResolvedPack>, PromptError>)
    ensures
        match first_chain_error(packs@, packs@) {
            Some(ce) => r matches Err(e) && error_is(e, chain_error_message(ce)),
            None => r matches Ok(v) && resolved_as(v@, packs@),
        },
{
    let mut out: Vec<ResolvedPack> = Vec::new();
    let mut i: usize = 0;
    assert(packs@.take(0) =~= Seq::<PromptPack>::empty());
    while i < packs.len()
        invariant
            i <= packs@.len(),
            first_chain_error(packs@.take(i as int), packs@) is None,
            out@.len() == i,
            forall|k: int|
                0 <= k < i ==> (#[trigger] out@[k]).name@ == packs@[k].name@ && out@[k].extends_chain@.map_values(
                    |c: String| c@,
                ) == pack_chain(packs@[k].name@, packs@, Seq::empty())->Ok_0 && slot_entries_map(
                    out@[k].resolved_slots@,
                ) == resolved_slot_map(packs@[k].name@, packs@),
        decreases packs@.len() - i,
    {
        assert(packs@.take(i + 1).drop_last() =~= packs@.take(i as int));
        assert(packs@.take(i + 1).last() == packs@[i as int]);
        match resolve_pack(packs[i].name.as_str(), packs) {
            Ok(p) => {
                assert(crate::text::views_of(p.extends_chain@) =~= p.extends_chain@.map_values(|c: String| c@));
                out.push(p);
            },
            Err(e) => {
                proof {
                    lemma_chain_error_sticks(packs@, packs@, i + 1);
                }
                return Err(e);
            },
        }
        i = i + 1;
    }
    assert(packs@.take(i as int) =~= packs@);
    Ok(out)
}

pub fn find_asset(assets: &Vec<CatalogAsset>, id: &str) -> (r: Option<usize>)
    ensures
        match r {
            Some(k) => asset_index(catalog_asset_views(assets@), id@) == Some(k as int) && k < assets@.len(),
            None => asset_index(catalog_asset_views(assets@), id@) is None,
        },
{
    let ghost v = catalog_asset_views(assets@);
    let mut i: usize = 0;
    assert(v.take(0) =~= Seq::<CatalogAssetView>::empty());
    while i < assets.len()
        invariant
            i <= assets@.len(),
            v == catalog_asset_views(assets@),
            asset_index(v.take(i as int), id@) is None,
        decreases assets@.len() - i,
    {
        assert(v.take(i + 1).drop_last() =~= v.take(i as int));
        assert(v.take(i + 1).last() == catalog_asset_view(assets@[i as int]));
        if text_eq(assets[i].compiled.manifest.asset_id.as_str(), id) {
            proof {
                lemma_asset_index_sticks(v, id@, i + 1);
            }
            return Some(i);
        }
        i = i + 1;
    }
    assert(v.take(i as int) =~= v);
    None
}

proof fn lemma_asset_index_sticks(v: Seq<CatalogAssetView>, id: Seq<char>, k: int)
    requires
        0 <= k <= v.len(),
        asset_index(v.take(k), id) is Some,
    ensures
        asset_index(v, id) == asset_index(v.take(k), id),
        asset_index(v, id)->0 < k,
    decreases v.len() - k,
{
    if k < v.len() {
        assert(v.take(k + 1).drop_last() =~= v.take(k));
        lemma_asset_index_sticks(v, id, k + 1);
    } else {
        assert(v.take(k) =~= v);
    }
    lemma_asset_index_bound(v.take(k), id);
}

proof fn lemma_asset_index_bound(v: Seq<CatalogAssetView>, id: Seq<char>)
    ensures
        asset_index(v, id) matches Some(i) ==> 0 <= i < v.len(),
    decreases v.len(),
{
    if v.len() > 0 {
        lemma_asset_index_bound(v.drop_last(), id);
    }
}

fn slot_listed(ids: &Vec<SlotId>, slot: &str) -> (r: bool)
    ensures
        r == slot_id_views(ids@).contains(slot@),
{
    let mut i: usize = 0;
    while i < ids.len()
        invariant
            i <= ids@.len(),
            forall|k: int| 0 <= k < i ==> (#[trigger] ids@[k])@ != slot@,
        decreases ids@.len() - i,
    {
        if text_eq(ids[i].as_str(), slot) {
            assert(slot_id_views(ids@)[i as int] == slot@);
            return true;
        }
        i = i + 1;
    }
    proof {
        if slot_id_views(ids@).contains(slot@) {
            let k = choose|k: int|
                0 <= k < slot_id_views(ids@).len() && slot_id_views(ids@)[k] == slot@;
            assert(ids@[k]@ == slot@);
        }
    }
    false
}

fn kind_allowed(kinds: &Vec<PromptKind>, kind: PromptKind) -> (r: bool)
    ensures
        r == kinds@.contains(kind),
{
    let mut i: usize = 0;
    while i < kinds.len()
        invariant
            i <= kinds@.len(),
            forall|k: int| 0 <= k < i ==> kinds@[k] != kind,
        decreases kinds@.len() - i,
    {
        if kinds[i] == kind {
            return true;
        }
        i = i + 1;
    }
    false
}

fn copy_kinds(kinds: &Vec<PromptKind>) -> (r: Vec<PromptKind>)
    ensures
        r@ == kinds@,
{
    let mut r: Vec<PromptKind> = Vec::new();
    let mut i: usize = 0;
    while i < kinds.len()
        invariant
            i <= kinds@.len(),
            r@ == kinds@.take(i as int),
        decreases kinds@.len() - i,
    {
        r.push(kinds[i]);
        assert(kinds@.take(i + 1) =~= kinds@.take(i as int).push(kinds@[i as int]));
        i = i + 1;
    }
    assert(kinds@.take(i as int) =~= kinds@);
    r
}

/// Checks one binding of a pack.
pub fn check_binding(
    pack: &str,
    slot: &str,
    asset: &str,
    assets: &Vec<CatalogAsset>,
    slots: &Vec<SlotSpec>,
) -> (r: Result<(), PromptError>)
    ensures
        match binding_check(pack@, slot@, asset@, catalog_asset_views(assets@), slots@) {
            None => r is Ok,
            Some(v) => r matches Err(e) && load_error_is(e, v),
        },
{
    let ghost av = catalog_asset_views(assets@);
    match parse_asset_ref(asset) {
        Err(e) => {
            return Err(e);
        },
        Ok(_) => {},
    }
    let k = match find_asset(assets, asset) {
        None => {
            let mut m = owned("pack `");
            m.append(pack);
            m.append("` references unknown asset `");
            m.append(asset);
            m.append("` for slot `");
            m.append(slot);
            m.append("`");
            return Err(PromptError::CatalogLoad(m));
        },
        Some(k) => k,
    };
    assert(av[k as int] == catalog_asset_view(assets@[k as int]));
    if !slot_listed(&assets[k].slot_ids, slot) {
        let mut m = owned("pack `");
        m.append(pack);
        m.append("` binds slot `");
        m.append(slot);
        m.append("` to asset `");
        m.append(asset);
        m.append("`, but section `");
        m.append(assets[k].compiled.source_anchor.as_str());
        m.append("` does not declare that slot");
        return Err(PromptError::CatalogLoad(m));
    }
    proof {
        lemma_slot_index(slots@, slot@);
    }
    match crate::prompt::loader::find_slot(slots, slot) {
        Some(j) => {
            let kind = assets[k].compiled.manifest.kind;
            if !kind_allowed(&slots[j].allowed_kinds, kind) {
                return Err(
                    PromptError::KindMismatch {
                        slot: owned(slot),
                        expected: copy_kinds(&slots[j].allowed_kinds),
                        actual: kind,
                    },
                );
            }
        },
        None => {},
    }
    Ok(())
}

/// Checks every binding of a resolved pack, and that it covers every
/// required slot.
pub fn check_pack(pack: &ResolvedPack, assets: &Vec<CatalogAsset>, slots: &Vec<SlotSpec>) -> (r: Result<
    (),
    PromptError,
>)
    ensures
        r is Ok <==> pack_ok(pack.name@, slot_entries_map(pack.resolved_slots@), catalog_asset_views(assets@), slots@),
        r matches Err(e) ==> exists|v: LoadErrorView|
            pack_violation(pack.name@, slot_entries_map(pack.resolved_slots@), catalog_asset_views(assets@), slots@, v)
                && load_error_is(e, v),
{
    let ghost es = pack.resolved_slots@;
    let ghost m = slot_entries_map(es);
    let ghost av = catalog_asset_views(assets@);
    proof {
        lemma_entries_map_live(es);
    }
    let mut k: usize = 0;
    while k < pack.resolved_slots.len()
        invariant
            k <= es.len(),
            es == pack.resolved_slots@,
            m == slot_entries_map(es),
            av == catalog_asset_views(assets@),
            forall|q: int|
                0 <= q < k && live(es, q) ==> binding_check(pack.name@, (#[trigger] es[q]).0@, es[q].1@, av, slots@)
                    is None,
            forall|q: int|
                0 <= q < es.len() && live(es, q) ==> m.contains_key((#[trigger] es[q]).0@) && m[es[q].0@]
                    == es[q].1@,
        decreases es.len() - k,
    {
        let mut later = false;
        let mut j: usize = k + 1;
        while j < pack.resolved_slots.len()
            invariant
                k < j <= es.len(),
                es == pack.resolved_slots@,
                later ==> !live(es, k as int),
                !later ==> forall|q: int| k < q < j ==> (#[trigger] es[q]).0@ != es[k as int].0@,
            decreases es.len() - j,
        {
            if text_eq(pack.resolved_slots[j].0.as_str(), pack.resolved_slots[k].0.as_str()) {
                later = true;
            }
            j = j + 1;
        }
        if !later {
            assert(live(es, k as int));
            match check_binding(
                pack.name.as_str(),
                pack.resolved_slots[k].0.as_str(),
                pack.resolved_slots[k].1.as_str(),
                assets,
                slots,
            ) {
                Ok(()) => {},
                Err(e) => {
                    proof {
                        let s = es[k as int].0@;
                        assert(m.contains_key(s));
                        let v = binding_check(pack.name@, s, m[s], av, slots@)->0;
                        assert(pack_violation(pack.name@, m, av, slots@, v));
                    }
                    return Err(e);
                },
            }
        }
        k = k + 1;
    }
    proof {
        assert forall|s: Seq<char>| #[trigger] m.contains_key(s) implies binding_check(
            pack.name@,
            s,
            m[s],
            av,
            slots@,
        ) is None by {
            let q = choose|q: int| 0 <= q < es.len() && live(es, q) && (#[trigger] es[q]).0@ == s;
            assert(binding_check(pack.name@, es[q].0@, es[q].1@, av, slots@) is None);
        }
    }
    let mut j: usize = 0;
    while j < slots.len()
        invariant
            j <= slots@.len(),
            es == pack.resolved_slots@,
            m == slot_entries_map(es),
            av == catalog_asset_views(assets@),
            forall|s: Seq<char>| #[trigger] m.contains_key(s) ==> binding_check(pack.name@, s, m[s], av, slots@) is None,
            forall|q: int| 0 <= q < j && (#[trigger] slots@[q]).required ==> m.contains_key(slots@[q].slot_id@),
        decreases slots@.len() - j,
    {
        if slots[j].required {
            match lookup_slot(&pack.resolved_slots, slots[j].slot_id.as_str()) {
                Some(_) => {},
                None => {
                    let mut msg = owned("pack `");
                    msg.append(pack.name.as_str());
                    msg.append("` does not cover required slot `");
                    msg.append(slots[j].slot_id.as_str());
                    msg.append("`");
                    let err = PromptError::CatalogLoad(msg);
                    proof {
                        let v = LoadErrorView::CatalogLoad(msg@);
                        assert(!m.contains_key(slots@[j as int].slot_id@));
                        assert(pack_violation(pack.name@, m, av, slots@, v));
                        assert(load_error_is(err, v));
                        assert(!pack_ok(pack.name@, m, av, slots@));
                    }
                    return Err(err);
                },
            }
        }
        j = j + 1;
    }
    Ok(())
}

/// Checks the packs of a catalog against its assets and slots, and
/// resolves them in order.
pub fn check_packs(
    packs: &Vec<PromptPack>,
    default_pack: &str,
    assets: &Vec<CatalogAsset>,
    slots: &Vec<SlotSpec>,
) -> (r: Result<Vec<ResolvedPack>, PromptError>)
    ensures
        match r {
            Ok(v) => packs_outcome_ok(packs@, default_pack@, catalog_asset_views(assets@), slots@) && resolved_as(
                v@,
                packs@,
            ),
            Err(e) => !packs_outcome_ok(packs@, default_pack@, catalog_asset_views(assets@), slots@) && packs_error(
                packs@,
                default_pack@,
                catalog_asset_views(assets@),
                slots@,
                e,
            ),
        },
{
    let ghost av = catalog_asset_views(assets@);
    match check_duplicate_packs(packs) {
        Ok(()) => {},
        Err(e) => {
            return Err(e);
        },
    }
    assert(packs@.take(packs@.len() as int) =~= packs@);
    if !name_among(packs, packs.len(), default_pack) {
        let mut m = owned("resolver default_pack `");
        m.append(default_pack);
        m.append("` does not exist");
        return Err(PromptError::CatalogLoad(m));
    }
    let resolved = match resolve_all(packs) {
        Ok(v) => v,
        Err(e) => {
            return Err(e);
        },
    };
    let mut i: usize = 0;
    while i < resolved.len()
        invariant
            i <= resolved@.len(),
            av == catalog_asset_views(assets@),
            resolved_as(resolved@, packs@),
            duplicate_pack_error(packs@) is None,
            pack_names(packs@).contains(default_pack@),
            first_chain_error(packs@, packs@) is None,
            forall|k: int|
                0 <= k < i ==> pack_ok(
                    (#[trigger] packs@[k]).name@,
                    resolved_slot_map(packs@[k].name@, packs@),
                    av,
                    slots@,
                ),
        decreases resolved@.len() - i,
    {
        match check_pack(&resolved[i], assets, slots) {
            Ok(()) => {},
            Err(e) => {
                proof {
                    let v = choose|v: LoadErrorView|
                        pack_violation(
                            resolved@[i as int].name@,
                            slot_entries_map(resolved@[i as int].resolved_slots@),
                            av,
                            slots@,
                            v,
                        ) && load_error_is(e, v);
                    assert(pack_violation(packs@[i as int].name@, resolved_slot_map(packs@[i as int].name@, packs@), av, slots@, v));
                    assert(load_error_is(e, v));
                    assert(!pack_ok(packs@[i as int].name@, resolved_slot_map(packs@[i as int].name@, packs@), av, slots@));
                }
                return Err(e);
            },
        }
        i = i + 1;
    }
    Ok(resolved)
}

/// A found asset has the id.
pub proof fn lemma_asset_index_found(v: Seq<CatalogAssetView>, id: Seq<char>)
    ensures
        asset_index(v, id) matches Some(k) ==> 0 <= k < v.len() && v[k].0.asset_id@ == id,
    decreases v.len(),
{
    if v.len() > 0 {
        lemma_asset_index_found(v.drop_last(), id);
        if let Some(k) = asset_index(v.drop_last(), id) {
            assert(v.drop_last()[k] == v[k]);
        }
    }
}

} // verus!
