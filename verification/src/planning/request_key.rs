//! The canonical key of a knowledge request, and how a list of requests is
//! reduced to one request per key and listed.
use crate::domain::{
    enc_entities, enc_entity, enc_entity_of, enc_kinds, enc_source_id, enc_text, enc_text_of, enc_topics,
    entities_view, lemma_enc_entity_injective, lemma_enc_text_injective, push_enc_entities, push_enc_kinds,
    push_enc_source_id, push_enc_text, push_enc_topics, topics_view, KnowledgeEntity, KnowledgeKind, TopicKey,
};
use crate::order::{
    is_first_unique_order, is_stable_order, lemma_lex_asymmetric, lemma_lex_irreflexive, lex_equal, lex_lt, listed, pos_lt,
    law_sorted_set_unique, sorted_set_of, stable_order, unique_order, views,
};
use crate::turn::{KnowledgeDelivery, KnowledgeRequestView, KnowledgeRetrievalRequest, RetrievalRequestOrigin};
use vstd::prelude::*;

verus! {

/// Requests from the automatic stage rank first, then narrative ones, then
/// the planner's.
pub open spec fn origin_rank_spec(o: RetrievalRequestOrigin) -> u8 {
    match o {
        RetrievalRequestOrigin::Automatic => 0,
        RetrievalRequestOrigin::Narrative => 1,
        RetrievalRequestOrigin::Planner => 2,
    }
}

pub fn origin_rank(o: RetrievalRequestOrigin) -> (r: u8)
    ensures
        r == origin_rank_spec(o),
{
    match o {
        RetrievalRequestOrigin::Automatic => 0,
        RetrievalRequestOrigin::Narrative => 1,
        RetrievalRequestOrigin::Planner => 2,
    }
}

/// The writer before any character; characters by role id.
pub open spec fn enc_delivery(d: Option<Seq<char>>) -> Seq<u32> {
    match d {
        None => seq![0u32],
        Some(r) => seq![1u32] + enc_text(r),
    }
}

/// No target before any target; targets by kind, then id.
pub open spec fn enc_target(t: Option<(KnowledgeKind, Seq<char>)>) -> Seq<u32> {
    match t {
        None => seq![0u32],
        Some(s) => seq![1u32] + enc_source_id(s),
    }
}

/// What identifies a request: delivery, target, kinds, entities and topics,
/// compared in that order.
pub open spec fn canonical_key(v: KnowledgeRequestView) -> Seq<u32> {
    enc_delivery(v.delivery) + enc_target(v.target) + enc_kinds(v.kinds) + enc_entities(v.entities) + enc_topics(
        v.topics,
    )
}

/// The order requests are listed in: signal priority, then origin rank, then
/// canonical key.
pub open spec fn listing_key(v: KnowledgeRequestView) -> Seq<u32> {
    seq![v.priority as u32, origin_rank_spec(v.origin) as u32] + canonical_key(v)
}

/// `a` has a lower signal priority than `b`, or the same one and a lower
/// origin rank.
pub open spec fn ranks_before(a: KnowledgeRequestView, b: KnowledgeRequestView) -> bool {
    a.priority < b.priority || (a.priority == b.priority && origin_rank_spec(a.origin) < origin_rank_spec(
        b.origin,
    ))
}

/// Position `i` holds the request kept for its key: no request with the same
/// key ranks before it, and every earlier one with the same key ranks after
/// it.
pub open spec fn kept_at(reqs: Seq<KnowledgeRequestView>, i: int) -> bool {
    forall|j: int|
        0 <= j < reqs.len() && canonical_key(#[trigger] reqs[j]) == canonical_key(reqs[i]) ==> !ranks_before(
            reqs[j],
            reqs[i],
        ) && (j < i ==> ranks_before(reqs[i], reqs[j]))
}

pub open spec fn is_kept(reqs: Seq<KnowledgeRequestView>, v: KnowledgeRequestView) -> bool {
    exists|i: int| 0 <= i < reqs.len() && reqs[i] == v && kept_at(reqs, i)
}

pub open spec fn key_listed(out: Seq<KnowledgeRequestView>, k: Seq<u32>) -> bool {
    exists|a: int| 0 <= a < out.len() && canonical_key(#[trigger] out[a]) == k
}

/// `out` holds, for each key of `reqs`, the request kept for it, in listing
/// order.
pub open spec fn deduped_listing(out: Seq<KnowledgeRequestView>, reqs: Seq<KnowledgeRequestView>) -> bool {
    &&& forall|a: int, b: int|
        #![trigger out[a], out[b]]
        0 <= a < b < out.len() ==> lex_lt(listing_key(out[a]), listing_key(out[b]))
    &&& forall|a: int| 0 <= a < out.len() ==> is_kept(reqs, #[trigger] out[a])
    &&& forall|i: int| 0 <= i < reqs.len() ==> key_listed(out, canonical_key(#[trigger] reqs[i]))
}

// ---------------------------------------------------------------------------
// Canonical lists: kinds, entities and topics sorted, each once

/// The kinds that occur in `ks`, in their canonical order.
pub open spec fn canonical_kinds_spec(ks: Seq<KnowledgeKind>) -> Seq<KnowledgeKind> {
    (if ks.contains(KnowledgeKind::Fact) { seq![KnowledgeKind::Fact] } else { Seq::empty() }) + (if ks.contains(
        KnowledgeKind::Rumor,
    ) {
        seq![KnowledgeKind::Rumor]
    } else {
        Seq::empty()
    }) + (if ks.contains(KnowledgeKind::Memory) { seq![KnowledgeKind::Memory] } else { Seq::empty() })
}

fn kinds_contain(ks: &Vec<KnowledgeKind>, k: KnowledgeKind) -> (r: bool)
    ensures
        r == ks@.contains(k),
{
    let mut i: usize = 0;
    while i < ks.len()
        invariant
            i <= ks@.len(),
            forall|j: int| 0 <= j < i ==> ks@[j] != k,
        decreases ks@.len() - i,
    {
        if ks[i] == k {
            return true;
        }
        i = i + 1;
    }
    false
}

pub fn canonical_kinds(ks: &Vec<KnowledgeKind>) -> (r: Vec<KnowledgeKind>)
    ensures
        r@ == canonical_kinds_spec(ks@),
{
    let mut r: Vec<KnowledgeKind> = Vec::new();
    if kinds_contain(ks, KnowledgeKind::Fact) {
        r.push(KnowledgeKind::Fact);
    }
    if kinds_contain(ks, KnowledgeKind::Rumor) {
        r.push(KnowledgeKind::Rumor);
    }
    if kinds_contain(ks, KnowledgeKind::Memory) {
        r.push(KnowledgeKind::Memory);
    }
    assert(r@ =~= canonical_kinds_spec(ks@));
    r
}

/// `out` lists the distinct entities of `items` in increasing order.
pub open spec fn canonical_entity_list(out: Seq<(u32, Seq<char>)>, items: Seq<(u32, Seq<char>)>) -> bool {
    &&& forall|a: int, b: int|
        #![trigger out[a], out[b]]
        0 <= a < b < out.len() ==> lex_lt(enc_entity(out[a]), enc_entity(out[b]))
    &&& forall|a: int| 0 <= a < out.len() ==> items.contains(#[trigger] out[a])
    &&& forall|i: int| 0 <= i < items.len() ==> out.contains(#[trigger] items[i])
}

/// `out` lists the distinct topics of `items` in increasing order.
pub open spec fn canonical_topic_list(out: Seq<Seq<char>>, items: Seq<Seq<char>>) -> bool {
    &&& forall|a: int, b: int|
        #![trigger out[a], out[b]]
        0 <= a < b < out.len() ==> lex_lt(enc_text(out[a]), enc_text(out[b]))
    &&& forall|a: int| 0 <= a < out.len() ==> items.contains(#[trigger] out[a])
    &&& forall|i: int| 0 <= i < items.len() ==> out.contains(#[trigger] items[i])
}

/// A list of at most one entity is already canonical.
pub proof fn lemma_short_entity_list(out: Seq<(u32, Seq<char>)>, items: Seq<(u32, Seq<char>)>)
    requires
        canonical_entity_list(out, items),
        items.len() <= 1,
    ensures
        out == items,
{
    if out.len() > 0 {
        assert(items.contains(out[0]));
    }
    if out.len() > 1 {
        assert(items.contains(out[1]));
        assert(lex_lt(enc_entity(out[0]), enc_entity(out[1])));
        lemma_lex_irreflexive(enc_entity(out[0]));
    }
    if items.len() == 1 {
        assert(out.contains(items[0]));
    }
    assert(out =~= items);
}

/// A list of at most one topic is already canonical.
pub proof fn lemma_short_topic_list(out: Seq<Seq<char>>, items: Seq<Seq<char>>)
    requires
        canonical_topic_list(out, items),
        items.len() <= 1,
    ensures
        out == items,
{
    if out.len() > 0 {
        assert(items.contains(out[0]));
    }
    if out.len() > 1 {
        assert(items.contains(out[1]));
        assert(lex_lt(enc_text(out[0]), enc_text(out[1])));
        lemma_lex_irreflexive(enc_text(out[0]));
    }
    if items.len() == 1 {
        assert(out.contains(items[0]));
    }
    assert(out =~= items);
}

pub fn canonical_entities(es: &Vec<KnowledgeEntity>) -> (r: Vec<KnowledgeEntity>)
    ensures
        canonical_entity_list(entities_view(r@), entities_view(es@)),
{
    let ghost ev = entities_view(es@);
    let mut keys: Vec<Vec<u32>> = Vec::new();
    let mut i: usize = 0;
    while i < es.len()
        invariant
            i <= es@.len(),
            keys@.len() == i,
            forall|j: int| 0 <= j < i ==> (#[trigger] keys@[j])@ == enc_entity(es@[j]@),
        decreases es@.len() - i,
    {
        keys.push(enc_entity_of(&es[i]));
        i = i + 1;
    }
    let idx = unique_order(&keys);
    let ghost ks = views(keys@);
    let mut r: Vec<KnowledgeEntity> = Vec::new();
    let mut a: usize = 0;
    while a < idx.len()
        invariant
            is_first_unique_order(ks, idx@),
            ks == views(keys@),
            ks.len() == es@.len(),
            a <= idx@.len(),
            r@.len() == a,
            forall|b: int| 0 <= b < a ==> (#[trigger] r@[b])@ == es@[idx@[b] as int]@,
        decreases idx@.len() - a,
    {
        r.push(es[idx[a]].duplicate());
        a = a + 1;
    }
    proof {
        let rv = entities_view(r@);
        assert forall|j: int| 0 <= j < ks.len() implies #[trigger] ks[j] == enc_entity(ev[j]) by {}
        assert forall|b: int, c: int|
            #![trigger rv[b], rv[c]]
            0 <= b < c < rv.len() implies lex_lt(enc_entity(rv[b]), enc_entity(rv[c])) by {
            assert(lex_lt(ks[idx@[b] as int], ks[idx@[c] as int]));
        }
        assert forall|b: int| 0 <= b < rv.len() implies ev.contains(#[trigger] rv[b]) by {
            assert(rv[b] == ev[idx@[b] as int]);
        }
        assert forall|j: int| 0 <= j < ev.len() implies rv.contains(#[trigger] ev[j]) by {
            assert(listed(ks, idx@, ks[j]));
            let b = choose|b: int| #![trigger idx@[b]] 0 <= b < idx@.len() && ks[idx@[b] as int] == ks[j];
            let e = es@[idx@[b] as int];
            lemma_enc_entity_injective(e@, es@[j]@, e, es@[j]);
            assert(rv[b] == ev[j]);
        }
    }
    r
}

pub fn canonical_topics(ts: &Vec<TopicKey>) -> (r: Vec<TopicKey>)
    ensures
        canonical_topic_list(topics_view(r@), topics_view(ts@)),
{
    let ghost tv = topics_view(ts@);
    let mut keys: Vec<Vec<u32>> = Vec::new();
    let mut i: usize = 0;
    while i < ts.len()
        invariant
            i <= ts@.len(),
            keys@.len() == i,
            forall|j: int| 0 <= j < i ==> (#[trigger] keys@[j])@ == enc_text(ts@[j]@),
        decreases ts@.len() - i,
    {
        keys.push(enc_text_of(ts[i].as_str()));
        i = i + 1;
    }
    let idx = unique_order(&keys);
    let ghost ks = views(keys@);
    let mut r: Vec<TopicKey> = Vec::new();
    let mut a: usize = 0;
    while a < idx.len()
        invariant
            is_first_unique_order(ks, idx@),
            ks == views(keys@),
            ks.len() == ts@.len(),
            a <= idx@.len(),
            r@.len() == a,
            forall|b: int| 0 <= b < a ==> (#[trigger] r@[b])@ == ts@[idx@[b] as int]@,
        decreases idx@.len() - a,
    {
        r.push(ts[idx[a]].duplicate());
        a = a + 1;
    }
    proof {
        let rv = topics_view(r@);
        assert forall|j: int| 0 <= j < ks.len() implies #[trigger] ks[j] == enc_text(tv[j]) by {}
        assert forall|b: int, c: int|
            #![trigger rv[b], rv[c]]
            0 <= b < c < rv.len() implies lex_lt(enc_text(rv[b]), enc_text(rv[c])) by {
            assert(lex_lt(ks[idx@[b] as int], ks[idx@[c] as int]));
        }
        assert forall|b: int| 0 <= b < rv.len() implies tv.contains(#[trigger] rv[b]) by {
            assert(rv[b] == tv[idx@[b] as int]);
        }
        assert forall|j: int| 0 <= j < tv.len() implies rv.contains(#[trigger] tv[j]) by {
            assert(listed(ks, idx@, ks[j]));
            let b = choose|b: int| #![trigger idx@[b]] 0 <= b < idx@.len() && ks[idx@[b] as int] == ks[j];
            lemma_enc_text_injective(tv[idx@[b] as int], tv[j]);
            assert(rv[b] == tv[j]);
        }
    }
    r
}

pub open spec fn request_views(rs: Seq<KnowledgeRetrievalRequest>) -> Seq<KnowledgeRequestView> {
    rs.map_values(|r: KnowledgeRetrievalRequest| r@)
}

pub fn push_canonical_key(out: &mut Vec<u32>, r: &KnowledgeRetrievalRequest)
    ensures
        final(out)@ == old(out)@ + canonical_key(r@),
{
    match &r.delivery {
        KnowledgeDelivery::Writer => {
            out.push(0);
        },
        KnowledgeDelivery::Character { role_id } => {
            out.push(1);
            push_enc_text(out, role_id.as_str());
        },
    }
    let ghost after_delivery = out@;
    assert(after_delivery =~= old(out)@ + enc_delivery(r@.delivery));
    match &r.target_source_id {
        None => {
            out.push(0);
        },
        Some(s) => {
            out.push(1);
            push_enc_source_id(out, s);
        },
    }
    assert(out@ =~= after_delivery + enc_target(r@.target));
    push_enc_kinds(out, &r.knowledge_kinds);
    push_enc_entities(out, &r.entities);
    push_enc_topics(out, &r.topics);
    assert(out@ =~= old(out)@ + canonical_key(r@));
}

pub fn canonical_key_of(r: &KnowledgeRetrievalRequest) -> (k: Vec<u32>)
    ensures
        k@ == canonical_key(r@),
{
    let mut k: Vec<u32> = Vec::new();
    push_canonical_key(&mut k, r);
    assert(k@ =~= canonical_key(r@));
    k
}

fn listing_key_of(r: &KnowledgeRetrievalRequest) -> (k: Vec<u32>)
    ensures
        k@ == listing_key(r@),
{
    let mut k: Vec<u32> = Vec::new();
    k.push(r.signal_priority as u32);
    k.push(origin_rank(r.origin) as u32);
    push_canonical_key(&mut k, r);
    assert(k@ =~= listing_key(r@));
    k
}

/// Comparing listing keys compares rank first, then canonical key.
proof fn lemma_listing_key_order(a: KnowledgeRequestView, b: KnowledgeRequestView)
    ensures
        lex_lt(listing_key(a), listing_key(b)) ==> ranks_before(a, b) || (!ranks_before(b, a) && lex_lt(
            canonical_key(a),
            canonical_key(b),
        )),
        listing_key(a) == listing_key(b) ==> canonical_key(a) == canonical_key(b) && a.priority == b.priority
            && origin_rank_spec(a.origin) == origin_rank_spec(b.origin),
{
    let la = listing_key(a);
    let lb = listing_key(b);
    assert(la[0] == a.priority as u32);
    assert(lb[0] == b.priority as u32);
    assert(la[1] == origin_rank_spec(a.origin) as u32);
    assert(lb[1] == origin_rank_spec(b.origin) as u32);
    let ta = la.drop_first();
    let tb = lb.drop_first();
    assert(ta[0] == la[1]);
    assert(tb[0] == lb[1]);
    assert(ta.drop_first() =~= canonical_key(a));
    assert(tb.drop_first() =~= canonical_key(b));
    if lex_lt(la, lb) && la[0] == lb[0] {
        assert(lex_lt(ta, tb));
        if ta[0] == tb[0] {
            assert(lex_lt(ta.drop_first(), tb.drop_first()));
        }
    }
    if la == lb {
        assert(canonical_key(a) == canonical_key(b));
    }
}

fn key_present(keys: &Vec<Vec<u32>>, k: &Vec<u32>) -> (r: bool)
    ensures
        r == views(keys@).contains(k@),
{
    let mut i: usize = 0;
    while i < keys.len()
        invariant
            i <= keys@.len(),
            forall|j: int| 0 <= j < i ==> (#[trigger] keys@[j])@ != k@,
        decreases keys@.len() - i,
    {
        if lex_equal(&keys[i], k) {
            assert(views(keys@)[i as int] == k@);
            return true;
        }
        i = i + 1;
    }
    proof {
        if views(keys@).contains(k@) {
            let j = choose|j: int| 0 <= j < views(keys@).len() && views(keys@)[j] == k@;
            assert(keys@[j]@ == k@);
        }
    }
    false
}

/// Keeps one request per canonical key, the first of those with the lowest
/// signal priority and origin rank, and lists the kept requests by priority,
/// origin rank and canonical key.
#[verifier::rlimit(80)]
pub fn dedupe_and_sort(requests: Vec<KnowledgeRetrievalRequest>) -> (out: Vec<KnowledgeRetrievalRequest>)
    ensures
        deduped_listing(request_views(out@), request_views(requests@)),
{
    let ghost rv = request_views(requests@);
    let mut keys: Vec<Vec<u32>> = Vec::new();
    let mut i: usize = 0;
    while i < requests.len()
        invariant
            i <= requests@.len(),
            rv == request_views(requests@),
            keys@.len() == i,
            forall|j: int| 0 <= j < i ==> (#[trigger] keys@[j])@ == listing_key(rv[j]),
        decreases requests@.len() - i,
    {
        keys.push(listing_key_of(&requests[i]));
        i = i + 1;
    }
    let order = stable_order(&keys);
    let ghost lk = views(keys@);
    assert(forall|j: int| 0 <= j < rv.len() ==> #[trigger] lk[j] == listing_key(rv[j]));
    let mut out: Vec<KnowledgeRetrievalRequest> = Vec::new();
    let mut seen: Vec<Vec<u32>> = Vec::new();
    // positions in `order` whose request was kept
    let ghost mut src: Seq<int> = Seq::empty();
    let mut p: usize = 0;
    while p < order.len()
        invariant
            rv == request_views(requests@),
            lk == views(keys@),
            lk.len() == rv.len(),
            forall|j: int| 0 <= j < rv.len() ==> #[trigger] lk[j] == listing_key(rv[j]),
            is_stable_order(lk, order@),
            p <= order@.len(),
            out@.len() == src.len(),
            seen@.len() == src.len(),
            forall|a: int| 0 <= a < src.len() ==> 0 <= #[trigger] src[a] < p,
            forall|a: int, b: int| #![trigger src[a], src[b]] 0 <= a < b < src.len() ==> src[a] < src[b],
            forall|a: int| 0 <= a < src.len() ==> (#[trigger] out@[a])@ == rv[order@[src[a]] as int],
            forall|a: int| 0 <= a < src.len() ==> (#[trigger] seen@[a])@ == canonical_key(out@[a]@),
            // each kept request is the first of its key in listing order
            forall|a: int, q: int|
                #![trigger src[a], order@[q]]
                0 <= a < src.len() && 0 <= q < src[a] ==> canonical_key(rv[order@[q] as int]) != canonical_key(
                    out@[a]@,
                ),
            // every key seen so far is kept
            forall|q: int|
                0 <= q < p ==> #[trigger] views(seen@).contains(canonical_key(rv[order@[q] as int])),
        decreases order@.len() - p,
    {
        let i = order[p];
        let ck = canonical_key_of(&requests[i]);
        if !key_present(&seen, &ck) {
            proof {
                assert forall|a: int| 0 <= a < src.len() implies canonical_key(rv[order@[p as int] as int])
                    != canonical_key(out@[a]@) by {
                    assert(views(seen@)[a] == canonical_key(out@[a]@));
                }
            }
            let ghost old_seen = seen@;
            let ghost old_out = out@;
            out.push(requests[i].duplicate());
            seen.push(ck);
            proof {
                src = src.push(p as int);
                assert forall|a: int, q: int|
                    #![trigger src[a], order@[q]]
                    0 <= a < src.len() && 0 <= q < src[a] implies canonical_key(rv[order@[q] as int])
                    != canonical_key(out@[a]@) by {
                    if a == src.len() - 1 {
                        assert(views(old_seen).contains(canonical_key(rv[order@[q] as int])));
                        let b = choose|b: int|
                            0 <= b < views(old_seen).len() && views(old_seen)[b] == canonical_key(
                                rv[order@[q] as int],
                            );
                        assert(old_seen[b]@ == canonical_key(old_out[b]@));
                    } else {
                        assert(out@[a] == old_out[a]);
                    }
                }
                assert forall|q: int| 0 <= q < p + 1 implies #[trigger] views(seen@).contains(
                    canonical_key(rv[order@[q] as int]),
                ) by {
                    if q == p {
                        assert(views(seen@)[src.len() - 1] == ck@);
                    } else {
                        assert(views(old_seen).contains(canonical_key(rv[order@[q] as int])));
                        let b = choose|b: int|
                            0 <= b < views(old_seen).len() && views(old_seen)[b] == canonical_key(
                                rv[order@[q] as int],
                            );
                        assert(views(seen@)[b] == views(old_seen)[b]);
                    }
                }
            }
        } else {
            proof {
                assert forall|q: int| 0 <= q < p + 1 implies #[trigger] views(seen@).contains(
                    canonical_key(rv[order@[q] as int]),
                ) by {
                    if q == p {
                        assert(ck@ == canonical_key(rv[order@[q] as int]));
                    }
                }
            }
        }
        p = p + 1;
    }
    proof {
        let ov = request_views(out@);
        assert forall|a: int| 0 <= a < ov.len() implies #[trigger] ov[a] == rv[order@[src[a]] as int] by {}
        // strictly increasing listing keys
        assert forall|a: int, b: int|
            #![trigger ov[a], ov[b]]
            0 <= a < b < ov.len() implies lex_lt(listing_key(ov[a]), listing_key(ov[b])) by {
            let ia = order@[src[a]] as int;
            let ib = order@[src[b]] as int;
            assert(src[a] < src[b]);
            assert(pos_lt(lk, ia, ib));
            if lk[ia] == lk[ib] {
                lemma_listing_key_order(rv[ia], rv[ib]);
                assert(canonical_key(rv[order@[src[a]] as int]) != canonical_key(out@[b]@));
            }
        }
        // each kept request is the one its key keeps
        assert forall|a: int| 0 <= a < ov.len() implies is_kept(rv, #[trigger] ov[a]) by {
            let i = order@[src[a]] as int;
            assert forall|j: int|
                0 <= j < rv.len() && canonical_key(#[trigger] rv[j]) == canonical_key(rv[i]) implies !ranks_before(
                rv[j],
                rv[i],
            ) && (j < i ==> ranks_before(rv[i], rv[j])) by {
                assert(order@.contains(j as usize));
                let q = choose|q: int| 0 <= q < order@.len() && order@[q] == j as usize;
                if q < src[a] {
                    assert(canonical_key(rv[order@[q] as int]) != canonical_key(out@[a]@));
                } else if q == src[a] {
                    assert(j == i);
                } else {
                    assert(pos_lt(lk, i, j));
                    lemma_listing_key_order(rv[i], rv[j]);
                    if lex_lt(lk[i], lk[j]) {
                        if !ranks_before(rv[i], rv[j]) {
                            lemma_lex_irreflexive(canonical_key(rv[i]));
                        }
                    }
                }
            }
            assert(kept_at(rv, i));
            assert(rv[i] == ov[a]);
        }
        // every key is listed
        assert forall|j: int| 0 <= j < rv.len() implies key_listed(ov, canonical_key(#[trigger] rv[j])) by {
            assert(order@.contains(j as usize));
            let q = choose|q: int| 0 <= q < order@.len() && order@[q] == j as usize;
            assert(views(seen@).contains(canonical_key(rv[order@[q] as int])));
            let b = choose|b: int| 0 <= b < views(seen@).len() && views(seen@)[b] == canonical_key(rv[j]);
            assert(canonical_key(ov[b]) == canonical_key(rv[j]));
        }
    }
    out
}


/// Law: after deduplication no two listed requests share a canonical key.
pub proof fn law_deduped_keys_distinct(out: Seq<KnowledgeRequestView>, reqs: Seq<KnowledgeRequestView>)
    requires
        deduped_listing(out, reqs),
    ensures
        forall|a: int, b: int|
            #![trigger out[a], out[b]]
            0 <= a < b < out.len() ==> canonical_key(out[a]) != canonical_key(out[b]),
{
    assert forall|a: int, b: int|
        #![trigger out[a], out[b]]
        0 <= a < b < out.len() implies canonical_key(out[a]) != canonical_key(out[b]) by {
        if canonical_key(out[a]) == canonical_key(out[b]) {
            assert(is_kept(reqs, out[a]));
            assert(is_kept(reqs, out[b]));
            let i = choose|i: int| 0 <= i < reqs.len() && reqs[i] == out[a] && kept_at(reqs, i);
            let j = choose|j: int| 0 <= j < reqs.len() && reqs[j] == out[b] && kept_at(reqs, j);
            assert(canonical_key(reqs[j]) == canonical_key(reqs[i]));
            if i < j {
                assert(ranks_before(reqs[j], reqs[i]));
            } else if j < i {
                assert(ranks_before(reqs[i], reqs[j]));
            } else {
                assert(lex_lt(listing_key(out[a]), listing_key(out[b])));
                lemma_lex_irreflexive(listing_key(out[a]));
            }
        }
    }
}

/// Law: every listed request is one of the requests given.
pub proof fn law_deduped_from_input(out: Seq<KnowledgeRequestView>, reqs: Seq<KnowledgeRequestView>)
    requires
        deduped_listing(out, reqs),
    ensures
        forall|a: int| 0 <= a < out.len() ==> reqs.contains(#[trigger] out[a]),
{
    assert forall|a: int| 0 <= a < out.len() implies reqs.contains(#[trigger] out[a]) by {
        assert(is_kept(reqs, out[a]));
        let i = choose|i: int| 0 <= i < reqs.len() && reqs[i] == out[a] && kept_at(reqs, i);
    }
}

proof fn lemma_kept_position_unique(reqs: Seq<KnowledgeRequestView>, i: int, j: int)
    requires
        0 <= i < reqs.len(),
        0 <= j < reqs.len(),
        kept_at(reqs, i),
        kept_at(reqs, j),
        canonical_key(reqs[i]) == canonical_key(reqs[j]),
    ensures
        i == j,
{
    if i < j {
        assert(ranks_before(reqs[j], reqs[i]));
        assert(!ranks_before(reqs[j], reqs[i]));
    } else if j < i {
        assert(ranks_before(reqs[i], reqs[j]));
        assert(!ranks_before(reqs[i], reqs[j]));
    }
}

proof fn lemma_listed_in_other(
    out1: Seq<KnowledgeRequestView>,
    out2: Seq<KnowledgeRequestView>,
    reqs: Seq<KnowledgeRequestView>,
    a: int,
)
    requires
        deduped_listing(out1, reqs),
        deduped_listing(out2, reqs),
        0 <= a < out1.len(),
    ensures
        exists|b: int| 0 <= b < out2.len() && out2[b] == out1[a],
{
    assert(is_kept(reqs, out1[a]));
    let i = choose|i: int| 0 <= i < reqs.len() && reqs[i] == out1[a] && kept_at(reqs, i);
    assert(key_listed(out2, canonical_key(reqs[i])));
    let b = choose|b: int| 0 <= b < out2.len() && canonical_key(#[trigger] out2[b]) == canonical_key(reqs[i]);
    assert(is_kept(reqs, out2[b]));
    let j = choose|j: int| 0 <= j < reqs.len() && reqs[j] == out2[b] && kept_at(reqs, j);
    lemma_kept_position_unique(reqs, i, j);
}

proof fn lemma_sorted_distinct(out: Seq<KnowledgeRequestView>, reqs: Seq<KnowledgeRequestView>, a: int, b: int)
    requires
        deduped_listing(out, reqs),
        0 <= a < out.len(),
        0 <= b < out.len(),
        a != b,
    ensures
        out[a] != out[b],
{
    if out[a] == out[b] {
        lemma_lex_irreflexive(listing_key(out[a]));
        if a < b {
            assert(lex_lt(listing_key(out[a]), listing_key(out[b])));
        } else {
            assert(lex_lt(listing_key(out[b]), listing_key(out[a])));
        }
    }
}

proof fn lemma_deduped_prefix(
    out1: Seq<KnowledgeRequestView>,
    out2: Seq<KnowledgeRequestView>,
    reqs: Seq<KnowledgeRequestView>,
    k: int,
)
    requires
        deduped_listing(out1, reqs),
        deduped_listing(out2, reqs),
        0 <= k < out1.len(),
        k < out2.len(),
    ensures
        forall|j: int| 0 <= j <= k ==> out1[j] == out2[j],
    decreases k,
{
    if k > 0 {
        lemma_deduped_prefix(out1, out2, reqs, k - 1);
    }
    let v = out1[k];
    let w = out2[k];
    if v != w {
        lemma_listed_in_other(out1, out2, reqs, k);
        let b = choose|b: int| 0 <= b < out2.len() && out2[b] == v;
        lemma_listed_in_other(out2, out1, reqs, k);
        let a = choose|a: int| 0 <= a < out1.len() && out1[a] == w;
        if b < k {
            assert(out1[b] == out2[b]);
            lemma_sorted_distinct(out1, reqs, b, k);
        }
        if a < k {
            assert(out2[a] == out1[a]);
            lemma_sorted_distinct(out2, reqs, a, k);
        }
        assert(b > k && a > k);
        assert(lex_lt(listing_key(out1[k]), listing_key(out1[a])));
        assert(lex_lt(listing_key(out2[k]), listing_key(out2[b])));
        lemma_lex_asymmetric(listing_key(v), listing_key(w));
    }
}

/// Law: deduplication has one outcome; two listings that both keep, in
/// listing order, the request kept for each key of the same requests are
/// the same list.
pub proof fn law_deduped_listing_unique(
    out1: Seq<KnowledgeRequestView>,
    out2: Seq<KnowledgeRequestView>,
    reqs: Seq<KnowledgeRequestView>,
)
    requires
        deduped_listing(out1, reqs),
        deduped_listing(out2, reqs),
    ensures
        out1 == out2,
{
    let n = if out1.len() < out2.len() { out1.len() as int } else { out2.len() as int };
    if n > 0 {
        lemma_deduped_prefix(out1, out2, reqs, n - 1);
    }
    if out1.len() > n {
        lemma_listed_in_other(out1, out2, reqs, n);
        let b = choose|b: int| 0 <= b < out2.len() && out2[b] == out1[n];
        assert(out1[b] == out2[b]);
        lemma_sorted_distinct(out1, reqs, b, n);
    }
    if out2.len() > n {
        lemma_listed_in_other(out2, out1, reqs, n);
        let a = choose|a: int| 0 <= a < out1.len() && out1[a] == out2[n];
        assert(out2[a] == out1[a]);
        lemma_sorted_distinct(out2, reqs, a, n);
    }
    assert(out1 =~= out2);
}

/// Law: entities have one canonical list.
pub proof fn law_canonical_entity_list_unique(
    out1: Seq<(u32, Seq<char>)>,
    out2: Seq<(u32, Seq<char>)>,
    items: Seq<(u32, Seq<char>)>,
)
    requires
        canonical_entity_list(out1, items),
        canonical_entity_list(out2, items),
    ensures
        out1 == out2,
{
    let key = |e: (u32, Seq<char>)| enc_entity(e);
    assert(sorted_set_of(out1, items, key));
    assert(sorted_set_of(out2, items, key));
    law_sorted_set_unique(out1, out2, items, key);
}

/// Law: topics have one canonical list.
pub proof fn law_canonical_topic_list_unique(out1: Seq<Seq<char>>, out2: Seq<Seq<char>>, items: Seq<Seq<char>>)
    requires
        canonical_topic_list(out1, items),
        canonical_topic_list(out2, items),
    ensures
        out1 == out2,
{
    let key = |t: Seq<char>| enc_text(t);
    assert(sorted_set_of(out1, items, key));
    assert(sorted_set_of(out2, items, key));
    law_sorted_set_unique(out1, out2, items, key);
}

} // verus!
