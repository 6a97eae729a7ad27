//! The first failing check of a sequence of checks, and the facts a loop
//! over the sequence needs about it.
use vstd::prelude::*;

verus! {

/// The message of the first element that `f` refuses, if any.
pub open spec fn first_error<A>(s: Seq<A>, f: spec_fn(A) -> Option<Seq<char>>) -> Option<Seq<char>>
    decreases s.len(),
{
    if s.len() == 0 {
        None
    } else {
        match first_error(s.drop_last(), f) {
            Some(m) => Some(m),
            None => f(s.last()),
        }
    }
}

/// Past a prefix with no error, the next element's check decides.
pub proof fn lemma_first_error_step<A>(s: Seq<A>, f: spec_fn(A) -> Option<Seq<char>>, i: int)
    requires
        0 <= i < s.len(),
        first_error(s.take(i), f) is None,
    ensures
        first_error(s.take(i + 1), f) == f(s[i]),
{
    assert(s.take(i + 1).drop_last() =~= s.take(i));
    assert(s.take(i + 1).last() == s[i]);
}

/// The first error of a prefix is the first error of the whole.
pub proof fn lemma_first_error_sticks<A>(s: Seq<A>, f: spec_fn(A) -> Option<Seq<char>>, k: int)
    requires
        0 <= k <= s.len(),
        first_error(s.take(k), f) is Some,
    ensures
        first_error(s, f) == first_error(s.take(k), f),
    decreases s.len() - k,
{
    if k < s.len() {
        assert(s.take(k + 1).drop_last() =~= s.take(k));
        lemma_first_error_sticks(s, f, k + 1);
    } else {
        assert(s.take(k) =~= s);
    }
}

/// No element is refused exactly when the whole has no error.
pub proof fn lemma_first_error_none<A>(s: Seq<A>, f: spec_fn(A) -> Option<Seq<char>>)
    ensures
        first_error(s, f) is None <==> forall|i: int| 0 <= i < s.len() ==> (#[trigger] f(s[i])) is None,
    decreases s.len(),
{
    if s.len() > 0 {
        lemma_first_error_none(s.drop_last(), f);
        if first_error(s, f) is None {
            assert forall|i: int| 0 <= i < s.len() implies (#[trigger] f(s[i])) is None by {
                if i < s.len() - 1 {
                    assert(s.drop_last()[i] == s[i]);
                }
            }
        } else {
            if first_error(s.drop_last(), f) is Some {
                let i = choose|i: int| 0 <= i < s.drop_last().len() && (#[trigger] f(s.drop_last()[i])) is Some;
                assert(s.drop_last()[i] == s[i]);
            } else {
                assert(f(s[s.len() - 1]) is Some);
            }
        }
    }
}

/// An error, when there is one, is the message of some element.
pub proof fn lemma_first_error_witness<A>(s: Seq<A>, f: spec_fn(A) -> Option<Seq<char>>)
    requires
        first_error(s, f) is Some,
    ensures
        exists|i: int| 0 <= i < s.len() && f(s[i]) == first_error(s, f),
    decreases s.len(),
{
    if first_error(s.drop_last(), f) is Some {
        lemma_first_error_witness(s.drop_last(), f);
        let i = choose|i: int| 0 <= i < s.drop_last().len() && f(s.drop_last()[i]) == first_error(s.drop_last(), f);
        assert(s.drop_last()[i] == s[i]);
    } else {
        assert(f(s[s.len() - 1]) == first_error(s, f));
    }
}

} // verus!
