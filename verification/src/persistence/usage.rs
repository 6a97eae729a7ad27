//! The model usage a committed turn records: how many calls, and how many
//! tokens in, out and in all.
use crate::persistence::store::StoreError;
use vstd::prelude::*;

verus! {

/// The tokens one model call used.
#[derive(Debug, Clone, Copy, PartialEq, Eq, Structural)]
pub struct LlmCallUsage {
    pub input_tokens: u64,
    pub output_tokens: u64,
    pub total_tokens: u64,
}

/// The usage of all model calls of a turn.
#[derive(Debug, Clone, Copy, PartialEq, Eq, Structural)]
pub struct LlmUsageAggregate {
    pub llm_calls: u64,
    pub input_tokens: u64,
    pub output_tokens: u64,
    pub total_tokens: u64,
}

pub open spec fn input_sum(cs: Seq<LlmCallUsage>) -> int
    decreases cs.len(),
{
    if cs.len() == 0 {
        0
    } else {
        input_sum(cs.drop_last()) + cs.last().input_tokens
    }
}

pub open spec fn output_sum(cs: Seq<LlmCallUsage>) -> int
    decreases cs.len(),
{
    if cs.len() == 0 {
        0
    } else {
        output_sum(cs.drop_last()) + cs.last().output_tokens
    }
}

pub open spec fn total_sum(cs: Seq<LlmCallUsage>) -> int
    decreases cs.len(),
{
    if cs.len() == 0 {
        0
    } else {
        total_sum(cs.drop_last()) + cs.last().total_tokens
    }
}

/// Which counter overflows first, if one does, adding the calls in order:
/// the call count, then input, output and total tokens of each call.
pub open spec fn usage_overflow(cs: Seq<LlmCallUsage>) -> Option<Seq<char>>
    decreases cs.len(),
{
    if cs.len() == 0 {
        None
    } else {
        match usage_overflow(cs.drop_last()) {
            Some(n) => Some(n),
            None => if cs.len() > u64::MAX {
                Some("llm_calls"@)
            } else if input_sum(cs) > u64::MAX {
                Some("llm_input_tokens"@)
            } else if output_sum(cs) > u64::MAX {
                Some("llm_output_tokens"@)
            } else if total_sum(cs) > u64::MAX {
                Some("llm_total_tokens"@)
            } else {
                None
            },
        }
    }
}

proof fn lemma_overflow_sticks(cs: Seq<LlmCallUsage>, k: int)
    requires
        0 <= k <= cs.len(),
        usage_overflow(cs.take(k)) is Some,
    ensures
        usage_overflow(cs) == usage_overflow(cs.take(k)),
    decreases cs.len() - k,
{
    if k < cs.len() {
        assert(cs.take(k + 1).drop_last() =~= cs.take(k));
        lemma_overflow_sticks(cs, k + 1);
    } else {
        assert(cs.take(k) =~= cs);
    }
}

/// Adds up the usage of a turn's model calls; a counter that would
/// overflow is a limit exceeded, named after the counter.
pub fn aggregate_llm_usage(calls: &Vec<LlmCallUsage>) -> (r: Result<LlmUsageAggregate, StoreError>)
    ensures
        match usage_overflow(calls@) {
            Some(name) => r matches Err(StoreError::LimitExceeded { limit }) && limit@ == name,
            None => r matches Ok(a) && a.llm_calls == calls@.len() && a.input_tokens == input_sum(calls@)
                && a.output_tokens == output_sum(calls@) && a.total_tokens == total_sum(calls@),
        },
{
    let mut aggregate = LlmUsageAggregate { llm_calls: 0, input_tokens: 0, output_tokens: 0, total_tokens: 0 };
    let mut i: usize = 0;
    assert(calls@.take(0) =~= Seq::<LlmCallUsage>::empty());
    while i < calls.len()
        invariant
            i <= calls@.len(),
            usage_overflow(calls@.take(i as int)) is None,
            aggregate.llm_calls == i,
            aggregate.input_tokens == input_sum(calls@.take(i as int)),
            aggregate.output_tokens == output_sum(calls@.take(i as int)),
            aggregate.total_tokens == total_sum(calls@.take(i as int)),
        decreases calls@.len() - i,
    {
        let ghost next = calls@.take(i + 1);
        assert(next.drop_last() =~= calls@.take(i as int));
        assert(next.last() == calls@[i as int]);
        let c = calls[i];
        aggregate.llm_calls = match aggregate.llm_calls.checked_add(1) {
            Some(v) => v,
            None => {
                proof {
                    lemma_overflow_sticks(calls@, i + 1);
                }
                return Err(StoreError::LimitExceeded { limit: "llm_calls" });
            },
        };
        aggregate.input_tokens = match aggregate.input_tokens.checked_add(c.input_tokens) {
            Some(v) => v,
            None => {
                proof {
                    lemma_overflow_sticks(calls@, i + 1);
                }
                return Err(StoreError::LimitExceeded { limit: "llm_input_tokens" });
            },
        };
        aggregate.output_tokens = match aggregate.output_tokens.checked_add(c.output_tokens) {
            Some(v) => v,
            None => {
                proof {
                    lemma_overflow_sticks(calls@, i + 1);
                }
                return Err(StoreError::LimitExceeded { limit: "llm_output_tokens" });
            },
        };
        aggregate.total_tokens = match aggregate.total_tokens.checked_add(c.total_tokens) {
            Some(v) => v,
            None => {
                proof {
                    lemma_overflow_sticks(calls@, i + 1);
                }
                return Err(StoreError::LimitExceeded { limit: "llm_total_tokens" });
            },
        };
        i = i + 1;
    }
    assert(calls@.take(i as int) =~= calls@);
    Ok(aggregate)
}


/// Law: the token totals add up call by call: a single call counts its own
/// input, output and total tokens, and the totals of two batches of calls
/// taken together are the sums of their totals.
pub proof fn law_usage_totals_add_up(a: Seq<LlmCallUsage>, b: Seq<LlmCallUsage>, c: LlmCallUsage)
    ensures
        input_sum(seq![c]) == c.input_tokens,
        output_sum(seq![c]) == c.output_tokens,
        total_sum(seq![c]) == c.total_tokens,
        input_sum(a + b) == input_sum(a) + input_sum(b),
        output_sum(a + b) == output_sum(a) + output_sum(b),
        total_sum(a + b) == total_sum(a) + total_sum(b),
    decreases b.len(),
{
    let one = seq![c];
    assert(one.drop_last() =~= Seq::<LlmCallUsage>::empty());
    assert(one.last() == c);
    assert(input_sum(one) == input_sum(one.drop_last()) + c.input_tokens);
    assert(output_sum(one) == output_sum(one.drop_last()) + c.output_tokens);
    assert(total_sum(one) == total_sum(one.drop_last()) + c.total_tokens);
    if b.len() > 0 {
        law_usage_totals_add_up(a, b.drop_last(), c);
        assert((a + b).drop_last() =~= a + b.drop_last());
        assert((a + b).last() == b.last());
    } else {
        assert(a + b =~= a);
    }
}

} // verus!
