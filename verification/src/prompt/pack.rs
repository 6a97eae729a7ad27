//! Prompt packs: named maps from slots to assets that may extend a parent
//! pack, and their resolution along the inheritance chain.
use crate::prompt::error::PromptError;
use crate::prompt::model::{AssetRef, SlotId};
use crate::text::{owned, push_decimal, text_eq, views_of};
use vstd::prelude::*;

verus! {

/// How many packs an inheritance chain may hold.
pub const MAX_INHERITANCE_DEPTH: usize = 4;

#[derive(Debug, Clone)]
pub struct PromptPack {
    pub name: String,
    pub extends: Option<String>,
    /// Slot to asset; a later entry for a slot replaces an earlier one.
    pub slots: Vec<(SlotId, AssetRef)>,
}

#[derive(Debug, Clone)]
pub struct ResolvedPack {
    pub name: String,
    /// Slot to asset, each slot once (resolution lists every slot once).
    pub resolved_slots: Vec<(SlotId, AssetRef)>,
    pub extends_chain: Vec<String>,
}

pub open spec fn slot_entries_map(es: Seq<(SlotId, AssetRef)>) -> Map<Seq<char>, Seq<char>>
    decreases es.len(),
{
    if es.len() == 0 {
        Map::empty()
    } else {
        slot_entries_map(es.drop_last()).insert(es.last().0@, es.last().1@)
    }
}

pub open spec fn slot_asset(m: Map<Seq<char>, Seq<char>>, slot: Seq<char>) -> Option<Seq<char>> {
    if m.contains_key(slot) {
        Some(m[slot])
    } else {
        None
    }
}

/// The position of the first resolved pack with the name.
pub open spec fn pack_position(packs: Seq<ResolvedPack>, name: Seq<char>) -> Option<int>
    decreases packs.len(),
{
    if packs.len() == 0 {
        None
    } else {
        match pack_position(packs.drop_last(), name) {
            Some(i) => Some(i),
            None => if packs.last().name@ == name {
                Some(packs.len() - 1)
            } else {
                None
            },
        }
    }
}

pub proof fn lemma_pack_position_prefix(packs: Seq<ResolvedPack>, k: int, name: Seq<char>)
    requires
        0 <= k <= packs.len(),
        pack_position(packs.take(k), name) is Some,
    ensures
        pack_position(packs, name) == pack_position(packs.take(k), name),
        0 <= pack_position(packs, name)->0 < k,
    decreases packs.len() - k,
{
    if k < packs.len() {
        assert(packs.take(k + 1).drop_last() =~= packs.take(k));
        lemma_pack_position_prefix(packs, k + 1, name);
    } else {
        assert(packs.take(k) =~= packs);
    }
    lemma_pack_position_bound(packs.take(k), name);
}

proof fn lemma_pack_position_bound(packs: Seq<ResolvedPack>, name: Seq<char>)
    ensures
        pack_position(packs, name) matches Some(i) ==> 0 <= i < packs.len() && packs[i].name@ == name,
    decreases packs.len(),
{
    if packs.len() > 0 {
        lemma_pack_position_bound(packs.drop_last(), name);
    }
}

/// The position of the first source pack with the name.
pub open spec fn source_position(packs: Seq<PromptPack>, name: Seq<char>) -> Option<int>
    decreases packs.len(),
{
    if packs.len() == 0 {
        None
    } else {
        match source_position(packs.drop_last(), name) {
            Some(i) => Some(i),
            None => if packs.last().name@ == name {
                Some(packs.len() - 1)
            } else {
                None
            },
        }
    }
}

proof fn lemma_source_position(packs: Seq<PromptPack>, k: int, name: Seq<char>)
    requires
        0 <= k <= packs.len(),
    ensures
        source_position(packs.take(k), name) matches Some(i) ==> source_position(packs, name) == Some(i) && 0 <= i
            < k && packs[i].name@ == name,
    decreases packs.len() - k,
{
    lemma_source_position_bound(packs.take(k), name);
    if k < packs.len() {
        assert(packs.take(k + 1).drop_last() =~= packs.take(k));
        lemma_source_position(packs, k + 1, name);
    } else {
        assert(packs.take(k) =~= packs);
    }
}

proof fn lemma_source_position_bound(packs: Seq<PromptPack>, name: Seq<char>)
    ensures
        source_position(packs, name) matches Some(i) ==> 0 <= i < packs.len() && packs[i].name@ == name,
    decreases packs.len(),
{
    if packs.len() > 0 {
        lemma_source_position_bound(packs.drop_last(), name);
    }
}

/// Why an inheritance chain cannot be followed.
pub enum ChainError {
    /// The pack is already in the chain.
    Cycle(Seq<char>, Seq<Seq<char>>),
    /// The chain is full when the pack comes.
    Depth(Seq<char>),
    /// No pack has the name.
    Missing(Seq<char>),
}

/// The chain of packs from `name` up through its ancestors, after `chain`.
pub open spec fn pack_chain(name: Seq<char>, packs: Seq<PromptPack>, chain: Seq<Seq<char>>) -> Result<
    Seq<Seq<char>>,
    ChainError,
>
    decreases 4 - chain.len(),
{
    if chain.contains(name) {
        Err(ChainError::Cycle(name, chain))
    } else if chain.len() >= 4 {
        Err(ChainError::Depth(name))
    } else {
        match source_position(packs, name) {
            None => Err(ChainError::Missing(name)),
            Some(i) => match packs[i].extends {
                Some(parent) => pack_chain(parent@, packs, chain.push(name)),
                None => Ok(chain.push(name)),
            },
        }
    }
}

pub open spec fn pack_slots(packs: Seq<PromptPack>, name: Seq<char>) -> Map<Seq<char>, Seq<char>> {
    match source_position(packs, name) {
        Some(i) => slot_entries_map(packs[i].slots@),
        None => Map::empty(),
    }
}

/// The slots of a chain: each pack's slots replace those of its ancestors.
pub open spec fn chain_slots(chain: Seq<Seq<char>>, packs: Seq<PromptPack>) -> Map<Seq<char>, Seq<char>>
    decreases chain.len(),
{
    if chain.len() == 0 {
        Map::empty()
    } else {
        chain_slots(chain.drop_first(), packs).union_prefer_right(pack_slots(packs, chain[0]))
    }
}

/// `Debug` text of a list of strings, as `format!("{:?}", ..)` writes it.
pub uninterp spec fn debug_list_text(items: Seq<Seq<char>>) -> Seq<char>;

/// Formats a list of strings with `Debug`. The contract names the result;
/// how strings are escaped is std's.
#[verifier::external_body]
fn debug_list(items: &Vec<String>) -> (r: String)
    ensures
        r@ == debug_list_text(views_of(items@)),
{
    format!("{:?}", items)
}

pub open spec fn chain_error_message(e: ChainError) -> PromptErrorView {
    match e {
        ChainError::Cycle(name, chain) => PromptErrorView::Inheritance(
            "cycle detected: "@ + name + " already in chain "@ + debug_list_text(chain),
        ),
        ChainError::Depth(name) => PromptErrorView::Inheritance("max depth 4 exceeded at pack `"@ + name + "`"@),
        ChainError::Missing(name) => PromptErrorView::PackNotFound(name),
    }
}

/// The errors pack resolution gives, as values.
pub enum PromptErrorView {
    Inheritance(Seq<char>),
    PackNotFound(Seq<char>),
}

pub open spec fn error_is(r: PromptError, v: PromptErrorView) -> bool {
    match v {
        PromptErrorView::Inheritance(m) => r matches PromptError::InheritanceCycleOrDepthExceeded(t) && t@ == m,
        PromptErrorView::PackNotFound(m) => r matches PromptError::PackNotFound(t) && t@ == m,
    }
}

/// The slot's asset in a slot list (the last entry for the slot).
pub fn lookup_slot<'a>(slots: &'a Vec<(SlotId, AssetRef)>, slot: &str) -> (r: Option<&'a AssetRef>)
    ensures
        match r {
            Some(a) => slot_asset(slot_entries_map(slots@), slot@) == Some(a@),
            None => slot_asset(slot_entries_map(slots@), slot@) is None,
        },
{
    let mut i: usize = slots.len();
    assert(slots@.take(slots@.len() as int) =~= slots@);
    while i > 0
        invariant
            i <= slots@.len(),
            slot_entries_map(slots@).contains_key(slot@) == slot_entries_map(slots@.take(i as int)).contains_key(slot@),
            slot_entries_map(slots@).contains_key(slot@) ==> slot_entries_map(slots@)[slot@] == slot_entries_map(
                slots@.take(i as int),
            )[slot@],
        decreases i,
    {
        let ghost before = slots@.take(i as int);
        assert(before.drop_last() =~= slots@.take(i - 1));
        assert(before.last() == slots@[i - 1]);
        if text_eq(slots[i - 1].0.as_str(), slot) {
            return Some(&slots[i - 1].1);
        }
        i = i - 1;
    }
    assert(slots@.take(0) =~= Seq::<(SlotId, AssetRef)>::empty());
    None
}

pub fn find_source(all_packs: &Vec<PromptPack>, name: &str) -> (r: Option<usize>)
    ensures
        r matches Some(i) ==> source_position(all_packs@, name@) == Some(i as int) && i < all_packs@.len(),
        r is None ==> source_position(all_packs@, name@) is None,
{
    let mut i: usize = 0;
    assert(all_packs@.take(0) =~= Seq::<PromptPack>::empty());
    while i < all_packs.len()
        invariant
            i <= all_packs@.len(),
            source_position(all_packs@.take(i as int), name@) is None,
        decreases all_packs@.len() - i,
    {
        assert(all_packs@.take(i + 1).drop_last() =~= all_packs@.take(i as int));
        if text_eq(all_packs[i].name.as_str(), name) {
            proof {
                lemma_source_position(all_packs@, i as int + 1, name@);
            }
            return Some(i);
        }
        i = i + 1;
    }
    assert(all_packs@.take(all_packs@.len() as int) =~= all_packs@);
    None
}

fn chain_has(chain: &Vec<String>, name: &str) -> (r: bool)
    ensures
        r == views_of(chain@).contains(name@),
{
    let mut i: usize = 0;
    while i < chain.len()
        invariant
            i <= chain@.len(),
            forall|j: int| 0 <= j < i ==> (#[trigger] chain@[j])@ != name@,
        decreases chain@.len() - i,
    {
        if text_eq(chain[i].as_str(), name) {
            assert(views_of(chain@)[i as int] == name@);
            return true;
        }
        i = i + 1;
    }
    proof {
        if views_of(chain@).contains(name@) {
            let k = choose|k: int| 0 <= k < views_of(chain@).len() && views_of(chain@)[k] == name@;
            assert(chain@[k]@ == name@);
        }
    }
    false
}

/// No two entries name the same slot.
pub open spec fn slot_keys_distinct(es: Seq<(SlotId, AssetRef)>) -> bool {
    forall|a: int, b: int| 0 <= a < b < es.len() ==> (#[trigger] es[a]).0@ != (#[trigger] es[b]).0@
}

proof fn lemma_slot_map_update(es: Seq<(SlotId, AssetRef)>, j: int, e: (SlotId, AssetRef))
    requires
        slot_keys_distinct(es),
        0 <= j < es.len(),
        es[j].0@ == e.0@,
    ensures
        slot_entries_map(es.update(j, e)) == slot_entries_map(es).insert(e.0@, e.1@),
    decreases es.len(),
{
    let u = es.update(j, e);
    if j == es.len() - 1 {
        assert(u.drop_last() =~= es.drop_last());
        assert(slot_entries_map(u) =~= slot_entries_map(es).insert(e.0@, e.1@));
    } else {
        assert(u.drop_last() =~= es.drop_last().update(j, e));
        assert(slot_keys_distinct(es.drop_last()));
        lemma_slot_map_update(es.drop_last(), j, e);
        assert(es.last().0@ != e.0@);
        assert(slot_entries_map(u) =~= slot_entries_map(es).insert(e.0@, e.1@));
    }
}

/// Sets the asset of a slot: in place where the slot is listed, else at
/// the end.
fn put_slot(entries: &mut Vec<(SlotId, AssetRef)>, e: (SlotId, AssetRef))
    requires
        slot_keys_distinct(old(entries)@),
    ensures
        slot_keys_distinct(final(entries)@),
        slot_entries_map(final(entries)@) == slot_entries_map(old(entries)@).insert(e.0@, e.1@),
{
    let mut k: usize = 0;
    while k < entries.len()
        invariant
            k <= entries@.len(),
            entries@ == old(entries)@,
            slot_keys_distinct(entries@),
            forall|m: int| 0 <= m < k ==> (#[trigger] entries@[m]).0@ != e.0@,
        decreases entries@.len() - k,
    {
        if text_eq(entries[k].0.as_str(), e.0.as_str()) {
            let ghost pre = entries@;
            proof {
                lemma_slot_map_update(entries@, k as int, e);
            }
            entries.set(k, e);
            assert forall|a: int, b: int| 0 <= a < b < entries@.len() implies (#[trigger] entries@[a]).0@
                != (#[trigger] entries@[b]).0@ by {
                if a != k && b != k {
                    assert(pre[a] == entries@[a]);
                    assert(pre[b] == entries@[b]);
                } else if a == k {
                    assert(pre[b] == entries@[b]);
                    assert(pre[a].0@ != pre[b].0@);
                } else {
                    assert(pre[a] == entries@[a]);
                    assert(pre[a].0@ != pre[b].0@);
                }
            }
            return;
        }
        k = k + 1;
    }
    let ghost before = entries@;
    entries.push(e);
    assert(entries@.drop_last() =~= before);
    assert(slot_entries_map(entries@) =~= slot_entries_map(before).insert(e.0@, e.1@));
}

/// Resolves a pack: follows `extends` from the pack up to at most four
/// packs, and merges their slots so that each pack's slots replace its
/// ancestors'. Fails on a cycle, on a chain too long, or on a pack that is
/// not there.
pub fn resolve_pack(name: &str, all_packs: &Vec<PromptPack>) -> (r: Result<ResolvedPack, PromptError>)
    ensures
        match pack_chain(name@, all_packs@, Seq::empty()) {
            Err(e) => r matches Err(err) && error_is(err, chain_error_message(e)),
            Ok(chain) => r matches Ok(p) && p.name@ == name@ && views_of(p.extends_chain@) == chain && slot_entries_map(
                p.resolved_slots@,
            ) == chain_slots(chain, all_packs@) && slot_keys_distinct(p.resolved_slots@),
        },
{
    let mut chain: Vec<String> = Vec::new();
    let mut current: String = owned(name);
    let mut done = false;
    assert(views_of(chain@) =~= Seq::<Seq<char>>::empty());
    while !done
        invariant
            views_of(chain@).len() <= 4,
            !done ==> pack_chain(name@, all_packs@, Seq::empty()) == pack_chain(current@, all_packs@, views_of(chain@)),
            done ==> pack_chain(name@, all_packs@, Seq::empty()) == Ok::<Seq<Seq<char>>, ChainError>(views_of(chain@)),
        decreases 4 - chain@.len() + (if done { 0int } else { 1int }),
    {
        if chain_has(&chain, current.as_str()) {
            let mut m = String::new();
            m.append("cycle detected: ");
            m.append(current.as_str());
            m.append(" already in chain ");
            let d = debug_list(&chain);
            m.append(d.as_str());
            return Err(PromptError::InheritanceCycleOrDepthExceeded(m));
        }
        if chain.len() >= MAX_INHERITANCE_DEPTH {
            let mut m = String::new();
            m.append("max depth ");
            push_decimal(&mut m, 4);
            m.append(" exceeded at pack `");
            m.append(current.as_str());
            m.append("`");
            proof {
                reveal_with_fuel(crate::text::decimal, 2);
                assert(crate::text::decimal(4) =~= seq!['4']);
            }
            assert(m@ =~= "max depth 4 exceeded at pack `"@ + current@ + "`"@) by {
                reveal_strlit("max depth ");
                reveal_strlit("max depth 4 exceeded at pack `");
                reveal_strlit(" exceeded at pack `");
            }
            return Err(PromptError::InheritanceCycleOrDepthExceeded(m));
        }
        let i = match find_source(all_packs, current.as_str()) {
            Some(i) => i,
            None => {
                return Err(PromptError::PackNotFound(current));
            },
        };
        let ghost before = views_of(chain@);
        chain.push(current.clone());
        assert(views_of(chain@) =~= before.push(current@));
        match &all_packs[i].extends {
            Some(parent) => {
                current = parent.clone();
            },
            None => {
                done = true;
            },
        }
    }
    let mut resolved_slots: Vec<(SlotId, AssetRef)> = Vec::new();
    let mut k: usize = chain.len();
    let ghost cv = views_of(chain@);
    assert(cv.skip(cv.len() as int) =~= Seq::<Seq<char>>::empty());
    assert(slot_entries_map(resolved_slots@) =~= Map::<Seq<char>, Seq<char>>::empty());
    while k > 0
        invariant
            k <= chain@.len(),
            cv == views_of(chain@),
            slot_keys_distinct(resolved_slots@),
            slot_entries_map(resolved_slots@) == chain_slots(cv.skip(k as int), all_packs@),
        decreases k,
    {
        k = k - 1;
        proof {
            assert(cv.skip(k as int).drop_first() =~= cv.skip(k + 1));
            assert(cv.skip(k as int)[0] == chain@[k as int]@);
        }
        let ghost before = slot_entries_map(resolved_slots@);
        match find_source(all_packs, chain[k].as_str()) {
            Some(p) => {
                let slots = &all_packs[p].slots;
                let mut j: usize = 0;
                assert(slots@.take(0) =~= Seq::<(SlotId, AssetRef)>::empty());
                assert(before.union_prefer_right(slot_entries_map(slots@.take(0))) =~= before);
                while j < slots.len()
                    invariant
                        j <= slots@.len(),
                        slots@ == all_packs@[p as int].slots@,
                        slot_keys_distinct(resolved_slots@),
                        slot_entries_map(resolved_slots@) == before.union_prefer_right(
                            slot_entries_map(slots@.take(j as int)),
                        ),
                    decreases slots@.len() - j,
                {
                    put_slot(
                        &mut resolved_slots,
                        (SlotId::new(owned(slots[j].0.as_str())), AssetRef::new(owned(slots[j].1.as_str()))),
                    );
                    proof {
                        assert(slots@.take(j + 1).drop_last() =~= slots@.take(j as int));
                        assert(slots@.take(j + 1).last() == slots@[j as int]);
                        assert(slot_entries_map(resolved_slots@) =~= before.union_prefer_right(
                            slot_entries_map(slots@.take(j + 1)),
                        ));
                    }
                    j = j + 1;
                }
                assert(slots@.take(slots@.len() as int) =~= slots@);
            },
            None => {
                assert(before.union_prefer_right(Map::<Seq<char>, Seq<char>>::empty()) =~= before);
            },
        }
    }
    assert(cv.skip(0) =~= cv);
    Ok(ResolvedPack { name: owned(name), resolved_slots, extends_chain: chain })
}


pub open spec fn distinct_names(c: Seq<Seq<char>>) -> bool {
    forall|i: int, j: int| #![trigger c[i], c[j]] 0 <= i < j < c.len() ==> c[i] != c[j]
}

proof fn lemma_pack_chain_shape(name: Seq<char>, packs: Seq<PromptPack>, chain: Seq<Seq<char>>)
    requires
        distinct_names(chain),
        chain.len() <= 4,
    ensures
        pack_chain(name, packs, chain) matches Ok(c) ==> {
            &&& c.len() <= 4
            &&& c.len() > chain.len()
            &&& c.take(chain.len() as int) == chain
            &&& c[chain.len() as int] == name
            &&& distinct_names(c)
        },
    decreases 4 - chain.len(),
{
    if !chain.contains(name) && chain.len() < 4 {
        lemma_source_position_bound(packs, name);
        if let Some(i) = source_position(packs, name) {
            let c2 = chain.push(name);
            assert forall|a: int, b: int| #![trigger c2[a], c2[b]] 0 <= a < b < c2.len() implies c2[a] != c2[b] by {
                if b == chain.len() {
                    assert(c2[a] == chain[a]);
                }
            }
            if let Some(parent) = packs[i].extends {
                lemma_pack_chain_shape(parent@, packs, c2);
                if let Ok(c) = pack_chain(parent@, packs, c2) {
                    assert(c.take(c2.len() as int) == c2);
                    assert(c.take(chain.len() as int) =~= c2.take(chain.len() as int));
                    assert(c2.take(chain.len() as int) =~= chain);
                    assert(c[chain.len() as int] == c.take(c2.len() as int)[chain.len() as int]);
                }
            } else {
                assert(c2.take(chain.len() as int) =~= chain);
            }
        }
    }
}

/// Law: a resolved pack's chain starts at the pack, holds at most four
/// packs, and names none twice.
pub proof fn law_chain_starts_at_pack_and_is_bounded(name: Seq<char>, packs: Seq<PromptPack>)
    ensures
        pack_chain(name, packs, Seq::empty()) matches Ok(c) ==> c.len() >= 1 && c.len() <= 4 && c[0] == name
            && distinct_names(c),
{
    lemma_pack_chain_shape(name, packs, Seq::empty());
}

/// Law: a pack's own slots replace those it inherits.
pub proof fn law_own_slots_win(chain: Seq<Seq<char>>, packs: Seq<PromptPack>, slot: Seq<char>)
    requires
        chain.len() > 0,
        pack_slots(packs, chain[0]).contains_key(slot),
    ensures
        chain_slots(chain, packs).contains_key(slot),
        chain_slots(chain, packs)[slot] == pack_slots(packs, chain[0])[slot],
{
}

} // verus!
