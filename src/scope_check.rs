use vstd::prelude::*;
use crate::method::VerificationReport;

verus! {

/// What the scope-exit check does when the test is already failing for
/// another reason.
#[derive(Clone, Copy, Debug, PartialEq, Eq, Structural)]
pub enum UnwindingPolicy {
    /// Stay silent, so that the first failure is the one reported.
    SuppressWhileUnwinding,
    /// Report unmet expectations in any case.
    AlwaysReport,
}

impl Default for UnwindingPolicy {
    fn default() -> (r: Self)
        ensures
            r == UnwindingPolicy::SuppressWhileUnwinding,
    {
        UnwindingPolicy::SuppressWhileUnwinding
    }
}

/// The reports among the first `n` outcomes, in order.
pub open spec fn failed_reports(outcomes: Seq<Result<(), VerificationReport>>, n: int) -> Seq<
    VerificationReport,
>
    decreases n,
{
    if n <= 0 {
        Seq::empty()
    } else {
        match outcomes[n - 1] {
            Ok(()) => failed_reports(outcomes, n - 1),
            Err(report) => failed_reports(outcomes, n - 1).push(report),
        }
    }
}

/// Gathers the outcomes of `Method::verify` over all methods of a mock into
/// the list of failed reports, in order. The list is empty exactly when
/// every method passed.
pub fn collect_reports(outcomes: Vec<Result<(), VerificationReport>>) -> (r: Vec<
    VerificationReport,
>)
    ensures
        r@ == failed_reports(outcomes@, outcomes@.len() as int),
        r@.len() == 0 <==> forall|i: int| 0 <= i < outcomes@.len() ==> (#[trigger] outcomes@[i]) is Ok,
{
    let ghost all = outcomes@;
    let mut rest = outcomes;
    let mut out: Vec<VerificationReport> = Vec::new();
    let ghost mut i: int = 0;
    while rest.len() > 0
        invariant
            0 <= i <= all.len(),
            rest@ == all.subrange(i, all.len() as int),
            out@ == failed_reports(all, i),
            out@.len() == 0 <==> forall|j: int| 0 <= j < i ==> (#[trigger] all[j]) is Ok,
        decreases rest@.len(),
    {
        let next = rest.remove(0);
        assert(next == all[i]);
        match next {
            Ok(()) => {},
            Err(report) => {
                out.push(report);
            },
        }
        proof {
            i = i + 1;
        }
        assert(rest@ =~= all.subrange(i, all.len() as int));
    }
    out
}

/// Whether the scope-exit check must fail the test: there are failed
/// reports, and the policy does not ask for silence while another failure
/// is already unwinding.
pub fn must_fail(reports: &Vec<VerificationReport>, already_failing: bool, policy: UnwindingPolicy) -> (r: bool)
    ensures
        r == (reports@.len() > 0 && !(already_failing && policy
            == UnwindingPolicy::SuppressWhileUnwinding)),
{
    reports.len() > 0 && !(already_failing && policy == UnwindingPolicy::SuppressWhileUnwinding)
}

} // verus!
