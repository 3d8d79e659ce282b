use vstd::prelude::*;
use crate::expected_call::ExpectedCall;
use crate::matcher::ArgumentMatcher;
use crate::method::{
    eligible, first_selectable_from, selectable, selection, unmet_indices, OrderingMode,
};
use crate::policy::CallCountPolicy;

verus! {

/// If `i` is selectable and nothing in `[k, i)` is, the search from `k` stops at `i`.
proof fn lemma_first_selectable_is<A: ArgumentMatcher<Args>, R, Args>(
    calls: Seq<ExpectedCall<A, R>>,
    mode: OrderingMode,
    args: Args,
    k: int,
    i: int,
)
    requires
        0 <= k <= i,
        selectable(calls, mode, args, i),
        forall|j: int| k <= j < i ==> !selectable(calls, mode, args, j),
    ensures
        first_selectable_from(calls, mode, args, k) == Some(i),
    decreases i - k,
{
    if k < i {
        lemma_first_selectable_is(calls, mode, args, k + 1, i);
    }
}

/// If nothing at `k` or later is selectable, the search from `k` finds nothing.
proof fn lemma_nothing_selectable<A: ArgumentMatcher<Args>, R, Args>(
    calls: Seq<ExpectedCall<A, R>>,
    mode: OrderingMode,
    args: Args,
    k: int,
)
    requires
        0 <= k,
        forall|j: int| k <= j < calls.len() ==> !selectable(calls, mode, args, j),
    ensures
        first_selectable_from(calls, mode, args, k).is_none(),
    decreases calls.len() - k,
{
    if k < calls.len() {
        lemma_nothing_selectable(calls, mode, args, k + 1);
    }
}

/// The unsatisfied positions below `n` are exactly the unsatisfied
/// expectations there, each listed once, in increasing order.
proof fn lemma_unmet_indices<A, R>(calls: Seq<ExpectedCall<A, R>>, n: int)
    requires
        0 <= n <= calls.len(),
    ensures
        forall|k: int|
            0 <= k < unmet_indices(calls, n).len() ==> {
                let i = #[trigger] unmet_indices(calls, n)[k];
                0 <= i < n && !calls[i].satisfied()
            },
        forall|k1: int, k2: int|
            0 <= k1 < k2 < unmet_indices(calls, n).len() ==> #[trigger] unmet_indices(calls, n)[k1]
                < #[trigger] unmet_indices(calls, n)[k2],
        forall|i: int| 0 <= i < n && !calls[i].satisfied() ==> unmet_indices(calls, n).contains(i),
    decreases n,
{
    if n > 0 {
        lemma_unmet_indices(calls, n - 1);
        let prev = unmet_indices(calls, n - 1);
        let u = unmet_indices(calls, n);
        if !calls[n - 1].satisfied() {
            assert(u == prev.push(n - 1));
            assert(u[prev.len() as int] == n - 1);
        } else {
            assert(u == prev);
        }
        assert forall|i: int| 0 <= i < n && !calls[i].satisfied() implies u.contains(i) by {
            if i < n - 1 {
                assert(prev.contains(i));
                let k = choose|k: int| 0 <= k < prev.len() && prev[k] == i;
                assert(u[k] == i);
            } else {
                assert(u[prev.len() as int] == n - 1);
            }
        }
    }
}

/// A call whose arguments are accepted by an expectation that still has
/// capacity, and by no earlier candidate, is answered by that expectation
/// (and, by `Method::invoke`, with its configured value).
pub proof fn law_matching_call_within_count_is_answered<A: ArgumentMatcher<Args>, R, Args>(
    calls: Seq<ExpectedCall<A, R>>,
    mode: OrderingMode,
    args: Args,
    i: int,
)
    requires
        0 <= i < calls.len(),
        !calls[i].is_exhausted(),
        calls[i].matcher().accepts(&args),
        forall|j: int| 0 <= j < i ==> !selectable(calls, mode, args, j),
        mode == OrderingMode::Sequential ==> forall|j: int|
            0 <= j < i ==> #[trigger] calls[j].is_exhausted(),
    ensures
        selection(calls, mode, args) == Some(i),
{
    lemma_first_selectable_is(calls, mode, args, 0, i);
}

/// A consumption within the configured count keeps the expectation's
/// matchers and return value, and leaves it with capacity for the calls
/// still allowed.
pub proof fn law_consumption_within_count<A, R>(prior: ExpectedCall<A, R>, next: ExpectedCall<A, R>)
    requires
        next.is_consumption_of(prior),
        prior.call_count() + 1 < prior.policy().max_calls(),
    ensures
        !next.is_exhausted(),
        next.matcher() == prior.matcher(),
        next.return_value() == prior.return_value(),
{
}

/// An expectation with the default policy that was never called makes the
/// pool fail verification, and is listed exactly once among the unmet ones.
pub proof fn law_uncalled_default_expectation_reported_once<A, R>(
    calls: Seq<ExpectedCall<A, R>>,
    i: int,
)
    requires
        0 <= i < calls.len(),
        calls[i].policy() == CallCountPolicy::Exactly(1),
        calls[i].call_count() == 0,
    ensures
        !crate::method::all_satisfied(calls),
        unmet_indices(calls, calls.len() as int).contains(i),
        forall|k1: int, k2: int|
            0 <= k1 < unmet_indices(calls, calls.len() as int).len() && 0 <= k2 < unmet_indices(
                calls,
                calls.len() as int,
            ).len() && unmet_indices(calls, calls.len() as int)[k1] == i && unmet_indices(
                calls,
                calls.len() as int,
            )[k2] == i ==> k1 == k2,
{
    lemma_unmet_indices(calls, calls.len() as int);
    assert(!calls[i].satisfied());
    let u = unmet_indices(calls, calls.len() as int);
    assert forall|k1: int, k2: int|
        0 <= k1 < u.len() && 0 <= k2 < u.len() && u[k1] == i && u[k2] == i implies k1 == k2 by {
        if k1 < k2 {
            assert(u[k1] < u[k2]);
        } else if k2 < k1 {
            assert(u[k2] < u[k1]);
        }
    }
}

/// An expectation with the unbounded policy is satisfied whatever its number
/// of calls, zero included, and never appears among the unmet ones.
pub proof fn law_unbounded_always_satisfied<A, R>(calls: Seq<ExpectedCall<A, R>>, i: int)
    requires
        0 <= i < calls.len(),
        calls[i].policy() == CallCountPolicy::Unbounded,
    ensures
        calls[i].satisfied(),
        !unmet_indices(calls, calls.len() as int).contains(i),
{
    lemma_unmet_indices(calls, calls.len() as int);
}

/// In sequential mode, arguments that the earliest unexhausted expectation
/// rejects find no expectation, though a later one would accept them.
pub proof fn law_sequential_rejects_out_of_order_call<A: ArgumentMatcher<Args>, R, Args>(
    calls: Seq<ExpectedCall<A, R>>,
    args: Args,
    e: int,
    later: int,
)
    requires
        0 <= e < later < calls.len(),
        forall|j: int| 0 <= j < e ==> #[trigger] calls[j].is_exhausted(),
        !calls[e].is_exhausted(),
        !calls[e].matcher().accepts(&args),
        !calls[later].is_exhausted(),
        calls[later].matcher().accepts(&args),
    ensures
        selection(calls, OrderingMode::Sequential, args).is_none(),
{
    assert forall|j: int| 0 <= j < calls.len() implies !selectable(
        calls,
        OrderingMode::Sequential,
        args,
        j,
    ) by {
        if j > e {
            assert(!eligible(calls, OrderingMode::Sequential, j));
        }
    }
    lemma_nothing_selectable(calls, OrderingMode::Sequential, args, 0);
}

/// In unordered mode, an expectation with capacity that accepts the arguments
/// answers the call wherever it stands, when no earlier one with capacity
/// accepts them.
pub proof fn law_unordered_accepts_any_position<A: ArgumentMatcher<Args>, R, Args>(
    calls: Seq<ExpectedCall<A, R>>,
    args: Args,
    j: int,
)
    requires
        0 <= j < calls.len(),
        !calls[j].is_exhausted(),
        calls[j].matcher().accepts(&args),
        forall|i: int|
            0 <= i < j ==> #[trigger] calls[i].is_exhausted() || !calls[i].matcher().accepts(&args),
    ensures
        selection(calls, OrderingMode::Unordered, args) == Some(j),
{
    lemma_first_selectable_is(calls, OrderingMode::Unordered, args, 0, j);
}

} // verus!
