//! Ordering of keys by their canonical encodings.
//!
//! Every ordered domain value (identifiers, knowledge entities, request keys)
//! is encoded as a sequence of `u32` symbols so that the lexicographic order of
//! the encodings is the value order: a text is its chars shifted by one and
//! closed by `0`, an enum is its variant index followed by its payload, a list
//! is its items followed by `0`.
use vstd::prelude::*;

verus! {

/// Strict lexicographic order on symbol sequences (a proper prefix comes first).
pub open spec fn lex_lt(a: Seq<u32>, b: Seq<u32>) -> bool
    decreases a.len(),
{
    if a.len() == 0 {
        b.len() > 0
    } else if b.len() == 0 {
        false
    } else if a[0] < b[0] {
        true
    } else if a[0] > b[0] {
        false
    } else {
        lex_lt(a.drop_first(), b.drop_first())
    }
}

pub proof fn lemma_lex_irreflexive(a: Seq<u32>)
    ensures
        !lex_lt(a, a),
    decreases a.len(),
{
    if a.len() > 0 {
        lemma_lex_irreflexive(a.drop_first());
    }
}

pub proof fn lemma_lex_asymmetric(a: Seq<u32>, b: Seq<u32>)
    ensures
        lex_lt(a, b) ==> !lex_lt(b, a),
    decreases a.len(),
{
    if a.len() > 0 && b.len() > 0 && a[0] == b[0] {
        lemma_lex_asymmetric(a.drop_first(), b.drop_first());
    }
}

pub proof fn lemma_lex_transitive(a: Seq<u32>, b: Seq<u32>, c: Seq<u32>)
    requires
        lex_lt(a, b),
        lex_lt(b, c),
    ensures
        lex_lt(a, c),
    decreases a.len(),
{
    if a.len() > 0 && b.len() > 0 && c.len() > 0 && a[0] == b[0] && b[0] == c[0] {
        lemma_lex_transitive(a.drop_first(), b.drop_first(), c.drop_first());
    }
}

pub proof fn lemma_lex_total(a: Seq<u32>, b: Seq<u32>)
    ensures
        a == b || lex_lt(a, b) || lex_lt(b, a),
    decreases a.len(),
{
    if a.len() > 0 && b.len() > 0 && a[0] == b[0] {
        lemma_lex_total(a.drop_first(), b.drop_first());
        if a.drop_first() == b.drop_first() {
            assert(a =~= seq![a[0]] + a.drop_first());
            assert(b =~= seq![b[0]] + b.drop_first());
        }
    } else if a.len() == 0 && b.len() == 0 {
        assert(a =~= b);
    }
}

/// `a < b` on encodings.
pub fn lex_less(a: &Vec<u32>, b: &Vec<u32>) -> (r: bool)
    ensures
        r == lex_lt(a@, b@),
{
    let mut i: usize = 0;
    assert(a@.skip(0) =~= a@);
    assert(b@.skip(0) =~= b@);
    while i < a.len() && i < b.len()
        invariant
            i <= a@.len(),
            i <= b@.len(),
            lex_lt(a@, b@) == lex_lt(a@.skip(i as int), b@.skip(i as int)),
        decreases a@.len() - i,
    {
        assert(a@.skip(i as int).drop_first() =~= a@.skip(i + 1));
        assert(b@.skip(i as int).drop_first() =~= b@.skip(i + 1));
        if a[i] < b[i] {
            return true;
        }
        if a[i] > b[i] {
            return false;
        }
        i = i + 1;
    }
    i < b.len() && i == a.len()
}

/// `a == b` on encodings.
pub fn lex_equal(a: &Vec<u32>, b: &Vec<u32>) -> (r: bool)
    ensures
        r == (a@ == b@),
{
    if a.len() != b.len() {
        return false;
    }
    let mut i: usize = 0;
    while i < a.len()
        invariant
            a@.len() == b@.len(),
            i <= a@.len(),
            forall|j: int| 0 <= j < i ==> a@[j] == b@[j],
        decreases a@.len() - i,
    {
        if a[i] != b[i] {
            return false;
        }
        i = i + 1;
    }
    assert(a@ =~= b@);
    true
}

/// Stable order on keyed positions: by key, then by position.
pub open spec fn pos_lt(keys: Seq<Seq<u32>>, i: int, j: int) -> bool {
    lex_lt(keys[i], keys[j]) || (keys[i] == keys[j] && i < j)
}

/// `idx` lists the positions of `keys` (each once) in stable key order.
pub open spec fn is_stable_order(keys: Seq<Seq<u32>>, idx: Seq<usize>) -> bool {
    &&& idx.len() == keys.len()
    &&& forall|i: int| 0 <= i < idx.len() ==> #[trigger] idx[i] < keys.len()
    &&& forall|j: usize| j < keys.len() ==> #[trigger] idx.contains(j)
    &&& forall|a: int, b: int|
        #![trigger idx[a], idx[b]]
        0 <= a < b < idx.len() ==> pos_lt(keys, idx[a] as int, idx[b] as int)
}

/// Some listed position holds `key`.
pub open spec fn listed(keys: Seq<Seq<u32>>, idx: Seq<usize>, key: Seq<u32>) -> bool {
    exists|i: int| #![trigger idx[i]] 0 <= i < idx.len() && keys[idx[i] as int] == key
}

/// `idx` lists, in strictly increasing key order, the first position of each
/// distinct key of `keys`.
pub open spec fn is_first_unique_order(keys: Seq<Seq<u32>>, idx: Seq<usize>) -> bool {
    &&& forall|i: int| 0 <= i < idx.len() ==> #[trigger] idx[i] < keys.len()
    &&& forall|i: int, j: int|
        #![trigger keys[j], idx[i]]
        0 <= i < idx.len() && 0 <= j < idx[i] ==> keys[j] != keys[idx[i] as int]
    &&& forall|j: int| 0 <= j < keys.len() ==> #[trigger] listed(keys, idx, keys[j])
    &&& forall|a: int, b: int|
        #![trigger idx[a], idx[b]]
        0 <= a < b < idx.len() ==> lex_lt(keys[idx[a] as int], keys[idx[b] as int])
}

pub open spec fn views(keys: Seq<Vec<u32>>) -> Seq<Seq<u32>> {
    keys.map_values(|k: Vec<u32>| k@)
}

proof fn lemma_pos_lt_transitive(keys: Seq<Seq<u32>>, i: int, j: int, k: int)
    requires
        pos_lt(keys, i, j),
        pos_lt(keys, j, k),
    ensures
        pos_lt(keys, i, k),
{
    if lex_lt(keys[i], keys[j]) && lex_lt(keys[j], keys[k]) {
        lemma_lex_transitive(keys[i], keys[j], keys[k]);
    }
}

/// Positions of `keys` in stable key order (what a stable sort by key does).
pub fn stable_order(keys: &Vec<Vec<u32>>) -> (idx: Vec<usize>)
    ensures
        is_stable_order(views(keys@), idx@),
{
    let ghost ks = views(keys@);
    let mut idx: Vec<usize> = Vec::new();
    let mut n: usize = 0;
    while n < keys.len()
        invariant
            ks == views(keys@),
            ks.len() == keys@.len(),
            n <= keys@.len(),
            idx@.len() == n,
            forall|i: int| 0 <= i < idx@.len() ==> #[trigger] idx@[i] < n,
            forall|j: usize| j < n ==> #[trigger] idx@.contains(j),
            forall|a: int, b: int|
                #![trigger idx@[a], idx@[b]]
                0 <= a < b < idx@.len() ==> pos_lt(ks, idx@[a] as int, idx@[b] as int),
        decreases keys@.len() - n,
    {
        // find the first position whose key is strictly greater than keys[n]
        let mut p: usize = 0;
        while p < idx.len() && !lex_less(&keys[n], &keys[idx[p]])
            invariant
                ks == views(keys@),
                ks.len() == keys@.len(),
                n < keys@.len(),
                p <= idx@.len(),
                idx@.len() == n,
                forall|i: int| 0 <= i < idx@.len() ==> #[trigger] idx@[i] < n,
                forall|a: int| 0 <= a < p ==> pos_lt(ks, idx@[a] as int, n as int),
            decreases idx@.len() - p,
        {
            proof {
                let e = idx@[p as int] as int;
                lemma_lex_total(ks[n as int], ks[e]);
            }
            p = p + 1;
        }
        proof {
            if p < idx@.len() {
                // keys[n] < keys[idx[p]], and everything after is above idx[p]
                assert forall|a: int| p <= a < idx@.len() implies pos_lt(ks, n as int, idx@[a] as int) by {
                    if a > p {
                        lemma_pos_lt_transitive(ks, n as int, idx@[p as int] as int, idx@[a] as int);
                    }
                }
            }
        }
        let ghost old_idx = idx@;
        idx.insert(p, n);
        proof {
            old_idx.insert_ensures(p as int, n);
            assert forall|a: int, b: int| 0 <= a < b < idx@.len() implies pos_lt(
                ks,
                idx@[a] as int,
                idx@[b] as int,
            ) by {
                if b < p {
                } else if a < p && b == p {
                } else if a < p {
                    lemma_pos_lt_transitive(ks, idx@[a] as int, n as int, idx@[b] as int);
                } else if a == p {
                } else {
                }
            }
            assert forall|j: usize| j < n + 1 implies #[trigger] idx@.contains(j) by {
                if j == n {
                    assert(idx@[p as int] == n);
                } else {
                    assert(old_idx.contains(j));
                    let k = choose|k: int| 0 <= k < old_idx.len() && old_idx[k] == j;
                    if k < p {
                        assert(idx@[k] == j);
                    } else {
                        assert(idx@[k + 1] == j);
                    }
                }
            }
        }
        n = n + 1;
    }
    idx
}

/// First position of each distinct key, in strictly increasing key order
/// (what sorting and then removing repeated keys does).
#[verifier::rlimit(60)]
pub fn unique_order(keys: &Vec<Vec<u32>>) -> (idx: Vec<usize>)
    ensures
        is_first_unique_order(views(keys@), idx@),
{
    let ghost ks = views(keys@);
    let mut idx: Vec<usize> = Vec::new();
    let mut n: usize = 0;
    while n < keys.len()
        invariant
            ks == views(keys@),
            ks.len() == keys@.len(),
            n <= keys@.len(),
            forall|i: int| 0 <= i < idx@.len() ==> #[trigger] idx@[i] < n,
            forall|i: int, j: int|
                #![trigger ks[j], idx@[i]]
                0 <= i < idx@.len() && 0 <= j < idx@[i] ==> ks[j] != ks[idx@[i] as int],
            forall|j: int| 0 <= j < n ==> #[trigger] listed(ks, idx@, ks[j]),
            forall|a: int, b: int|
                #![trigger idx@[a], idx@[b]]
                0 <= a < b < idx@.len() ==> lex_lt(ks[idx@[a] as int], ks[idx@[b] as int]),
        decreases keys@.len() - n,
    {
        let mut p: usize = 0;
        while p < idx.len() && lex_less(&keys[idx[p]], &keys[n])
            invariant
                ks == views(keys@),
                ks.len() == keys@.len(),
                n < keys@.len(),
                p <= idx@.len(),
                forall|i: int| 0 <= i < idx@.len() ==> #[trigger] idx@[i] < n,
                forall|a: int| 0 <= a < p ==> lex_lt(ks[idx@[a] as int], ks[n as int]),
            decreases idx@.len() - p,
        {
            p = p + 1;
        }
        if p < idx.len() && lex_equal(&keys[idx[p]], &keys[n]) {
            // the key of position n is already listed
            proof {
                assert forall|j: int| 0 <= j < n + 1 implies #[trigger] listed(ks, idx@, ks[j]) by {
                    if j == n {
                        assert(ks[idx@[p as int] as int] == ks[j]);
                    }
                }
            }
        } else {
            proof {
                if p < idx@.len() {
                    lemma_lex_total(ks[idx@[p as int] as int], ks[n as int]);
                    assert forall|a: int| p <= a < idx@.len() implies lex_lt(
                        ks[n as int],
                        ks[idx@[a] as int],
                    ) by {
                        if a > p {
                            lemma_lex_transitive(ks[n as int], ks[idx@[p as int] as int], ks[idx@[a] as int]);
                        }
                    }
                }
                // no listed key equals keys[n], so no earlier position has it
                assert forall|j: int| 0 <= j < n implies ks[j] != ks[n as int] by {
                    assert(listed(ks, idx@, ks[j]));
                    let i = choose|i: int| #![trigger idx@[i]] 0 <= i < idx@.len() && ks[idx@[i] as int] == ks[j];
                    if i < p {
                        lemma_lex_irreflexive(ks[j]);
                    } else {
                        lemma_lex_irreflexive(ks[j]);
                    }
                }
            }
            let ghost old_idx = idx@;
            idx.insert(p, n);
            proof {
                old_idx.insert_ensures(p as int, n);
                assert forall|a: int, b: int| 0 <= a < b < idx@.len() implies lex_lt(
                    ks[idx@[a] as int],
                    ks[idx@[b] as int],
                ) by {
                    if a < p && b > p {
                        lemma_lex_transitive(ks[idx@[a] as int], ks[n as int], ks[idx@[b] as int]);
                    }
                }
                assert forall|j: int| 0 <= j < n + 1 implies #[trigger] listed(ks, idx@, ks[j]) by {
                    if j == n {
                        assert(ks[idx@[p as int] as int] == ks[j]);
                    } else {
                        assert(listed(ks, old_idx, ks[j]));
                        let k = choose|k: int| #![trigger old_idx[k]] 0 <= k < old_idx.len() && ks[old_idx[k] as int] == ks[j];
                        if k < p {
                            assert(ks[idx@[k] as int] == ks[j]);
                        } else {
                            assert(ks[idx@[k + 1] as int] == ks[j]);
                        }
                    }
                }
                assert forall|i: int, j: int|
                    #![trigger ks[j], idx@[i]]
                    0 <= i < idx@.len() && 0 <= j < idx@[i] implies ks[j] != ks[idx@[i] as int] by {
                    if i < p {
                        assert(idx@[i] == old_idx[i]);
                    } else if i > p {
                        assert(idx@[i] == old_idx[i - 1]);
                    }
                }
            }
        }
        n = n + 1;
    }
    idx
}

proof fn lemma_pos_lt_asymmetric(keys: Seq<Seq<u32>>, i: int, j: int)
    requires
        pos_lt(keys, i, j),
    ensures
        !pos_lt(keys, j, i),
{
    lemma_lex_irreflexive(keys[i]);
    lemma_lex_irreflexive(keys[j]);
    if lex_lt(keys[i], keys[j]) {
        lemma_lex_asymmetric(keys[i], keys[j]);
    }
}

proof fn lemma_stable_prefix_equal(keys: Seq<Seq<u32>>, a: Seq<usize>, b: Seq<usize>, k: int)
    requires
        is_stable_order(keys, a),
        is_stable_order(keys, b),
        0 <= k < a.len(),
    ensures
        forall|j: int| 0 <= j <= k ==> a[j] == b[j],
    decreases k,
{
    if k > 0 {
        lemma_stable_prefix_equal(keys, a, b, k - 1);
    }
    let x = a[k];
    let y = b[k];
    if x != y {
        assert(b.contains(x));
        let m = choose|m: int| 0 <= m < b.len() && b[m] == x;
        assert(a.contains(y));
        let n = choose|n: int| 0 <= n < a.len() && a[n] == y;
        if m < k {
            assert(a[m] == b[m]);
            assert(pos_lt(keys, a[m] as int, a[k] as int));
            lemma_lex_irreflexive(keys[x as int]);
        }
        if n < k {
            assert(a[n] == b[n]);
            assert(pos_lt(keys, b[n] as int, b[k] as int));
            lemma_lex_irreflexive(keys[y as int]);
        }
        assert(m > k && n > k);
        assert(pos_lt(keys, a[k] as int, a[n] as int));
        assert(pos_lt(keys, b[k] as int, b[m] as int));
        lemma_pos_lt_asymmetric(keys, x as int, y as int);
    }
}

/// Law: the stable order of keys is unique; two stable orders of the same
/// keys are the same list.
pub proof fn law_stable_order_unique(keys: Seq<Seq<u32>>, a: Seq<usize>, b: Seq<usize>)
    requires
        is_stable_order(keys, a),
        is_stable_order(keys, b),
    ensures
        a == b,
{
    if a.len() > 0 {
        lemma_stable_prefix_equal(keys, a, b, a.len() - 1);
    }
    assert(a =~= b);
}

/// `out` lists the elements of `items`, each once, in strictly increasing
/// order of `key`.
pub open spec fn sorted_set_of<A>(out: Seq<A>, items: Seq<A>, key: spec_fn(A) -> Seq<u32>) -> bool {
    &&& forall|a: int, b: int| #![trigger out[a], out[b]] 0 <= a < b < out.len() ==> lex_lt(key(out[a]), key(out[b]))
    &&& forall|a: int| 0 <= a < out.len() ==> items.contains(#[trigger] out[a])
    &&& forall|i: int| 0 <= i < items.len() ==> out.contains(#[trigger] items[i])
}

proof fn lemma_sorted_set_in_other<A>(out1: Seq<A>, out2: Seq<A>, items: Seq<A>, key: spec_fn(A) -> Seq<u32>, a: int)
    requires
        sorted_set_of(out1, items, key),
        sorted_set_of(out2, items, key),
        0 <= a < out1.len(),
    ensures
        exists|b: int| 0 <= b < out2.len() && out2[b] == out1[a],
{
    assert(items.contains(out1[a]));
    let i = choose|i: int| 0 <= i < items.len() && items[i] == out1[a];
    assert(out2.contains(items[i]));
}

proof fn lemma_sorted_set_distinct<A>(out: Seq<A>, items: Seq<A>, key: spec_fn(A) -> Seq<u32>, a: int, b: int)
    requires
        sorted_set_of(out, items, key),
        0 <= a < b < out.len(),
    ensures
        out[a] != out[b],
{
    assert(lex_lt(key(out[a]), key(out[b])));
    if out[a] == out[b] {
        lemma_lex_irreflexive(key(out[a]));
    }
}

proof fn lemma_sorted_set_prefix<A>(out1: Seq<A>, out2: Seq<A>, items: Seq<A>, key: spec_fn(A) -> Seq<u32>, k: int)
    requires
        sorted_set_of(out1, items, key),
        sorted_set_of(out2, items, key),
        0 <= k < out1.len(),
        k < out2.len(),
    ensures
        forall|j: int| 0 <= j <= k ==> out1[j] == out2[j],
    decreases k,
{
    if k > 0 {
        lemma_sorted_set_prefix(out1, out2, items, key, k - 1);
    }
    let v = out1[k];
    let w = out2[k];
    if v != w {
        lemma_sorted_set_in_other(out1, out2, items, key, k);
        let b = choose|b: int| 0 <= b < out2.len() && out2[b] == v;
        lemma_sorted_set_in_other(out2, out1, items, key, k);
        let a = choose|a: int| 0 <= a < out1.len() && out1[a] == w;
        if b < k {
            assert(out1[b] == out2[b]);
            lemma_sorted_set_distinct(out1, items, key, b, k);
        }
        if a < k {
            assert(out2[a] == out1[a]);
            lemma_sorted_set_distinct(out2, items, key, a, k);
        }
        assert(lex_lt(key(out1[k]), key(out1[a])));
        assert(lex_lt(key(out2[k]), key(out2[b])));
        lemma_lex_asymmetric(key(v), key(w));
    }
}

/// Law: a set listed in strictly increasing key order has one listing.
pub proof fn law_sorted_set_unique<A>(out1: Seq<A>, out2: Seq<A>, items: Seq<A>, key: spec_fn(A) -> Seq<u32>)
    requires
        sorted_set_of(out1, items, key),
        sorted_set_of(out2, items, key),
    ensures
        out1 == out2,
{
    let n = if out1.len() < out2.len() { out1.len() as int } else { out2.len() as int };
    if n > 0 {
        lemma_sorted_set_prefix(out1, out2, items, key, n - 1);
    }
    if out1.len() > n {
        lemma_sorted_set_in_other(out1, out2, items, key, n);
        let b = choose|b: int| 0 <= b < out2.len() && out2[b] == out1[n];
        assert(out1[b] == out2[b]);
        lemma_sorted_set_distinct(out1, items, key, b, n);
    }
    if out2.len() > n {
        lemma_sorted_set_in_other(out2, out1, items, key, n);
        let a = choose|a: int| 0 <= a < out1.len() && out1[a] == out2[n];
        assert(out2[a] == out1[a]);
        lemma_sorted_set_distinct(out2, items, key, a, n);
    }
    assert(out1 =~= out2);
}

} // verus!
