use vstd::prelude::*;
use crate::matcher::ArgumentMatcher;
use crate::policy::CallCountPolicy;

verus! {

/// One configured expectation of a mocked method: the matchers for its
/// arguments, a call-count policy with its live counter, and the value
/// handed back on each matched call.
pub struct ExpectedCall<A, R> {
    matcher: A,
    policy: CallCountPolicy,
    return_value: Option<R>,
    calls: u64,
}

/// The configuration handle that `Method::add_expected_call` hands out: a
/// mutable borrow of the stored expectation itself, so that every change made
/// through it is seen by the method's pool.
pub type MethodCallBuilder<'a, A, R> = &'a mut ExpectedCall<A, R>;

impl<A, R> ExpectedCall<A, R> {
    /// The counter never passes the policy's maximum.
    #[verifier::type_invariant]
    spec fn within_policy(self) -> bool {
        self.calls as nat <= self.policy.max_calls()
    }

    pub closed spec fn matcher(&self) -> A {
        self.matcher
    }

    pub closed spec fn policy(&self) -> CallCountPolicy {
        self.policy
    }

    /// The configured return value, if any.
    pub closed spec fn return_value(&self) -> Option<R> {
        self.return_value
    }

    /// How many times the expectation has been consumed.
    pub closed spec fn call_count(&self) -> nat {
        self.calls as nat
    }

    /// The expectation accepts no further call.
    pub open spec fn is_exhausted(&self) -> bool {
        self.call_count() >= self.policy().max_calls()
    }

    /// The policy's minimum has been met.
    pub open spec fn min_reached(&self) -> bool {
        self.call_count() >= self.policy().min_calls()
    }

    /// The expectation needs no further call: its minimum has been met.
    /// (The counter never passes the maximum: see `within_maximum`.)
    pub open spec fn satisfied(&self) -> bool {
        self.min_reached()
    }

    /// `self` is `prior` after one more consumption: only the counter moved.
    pub open spec fn is_consumption_of(self, prior: Self) -> bool {
        &&& self.matcher() == prior.matcher()
        &&& self.policy() == prior.policy()
        &&& self.return_value() == prior.return_value()
        &&& self.call_count() == prior.call_count() + 1
    }

    /// `self` is a newly registered expectation on `matcher`: default policy,
    /// the given return value, never called.
    pub open spec fn is_fresh(self, matcher: A, return_value: Option<R>) -> bool {
        &&& self.matcher() == matcher
        &&& self.policy() == CallCountPolicy::Exactly(1)
        &&& self.return_value() == return_value
        &&& self.call_count() == 0
    }

    /// `self` and `other` differ at most in their return value.
    pub open spec fn same_but_return_value(self, other: Self) -> bool {
        &&& self.matcher() == other.matcher()
        &&& self.policy() == other.policy()
        &&& self.call_count() == other.call_count()
    }

    /// `self` and `other` differ at most in their policy.
    pub open spec fn same_but_policy(self, other: Self) -> bool {
        &&& self.matcher() == other.matcher()
        &&& self.return_value() == other.return_value()
        &&& self.call_count() == other.call_count()
    }

    /// A new expectation on `matcher`, with the default policy of exactly one call.
    pub fn new(matcher: A) -> (r: Self)
        ensures
            r.is_fresh(matcher, None),
    {
        ExpectedCall { matcher, policy: CallCountPolicy::once(), return_value: None, calls: 0 }
    }

    /// A new expectation on `matcher` that answers with `return_value`, with
    /// the default policy of exactly one call.
    pub fn with_return_value(matcher: A, return_value: Option<R>) -> (r: Self)
        ensures
            r.is_fresh(matcher, return_value),
    {
        ExpectedCall { matcher, policy: CallCountPolicy::once(), return_value, calls: 0 }
    }

    /// The counter never passes the policy's maximum.
    pub fn within_maximum(&self)
        ensures
            self.call_count() <= self.policy().max_calls(),
    {
        proof {
            use_type_invariant(self);
        }
    }

    /// Sets the value returned on every matched call.
    pub fn returning(&mut self, value: R) -> (r: &mut Self)
        ensures
            r.return_value() == Some(value),
            r.same_but_return_value(*old(self)),
            *final(self) == *final(r),
    {
        proof {
            use_type_invariant(&*self);
        }
        self.return_value = Some(value);
        self
    }

    /// Replaces the call-count policy. The new maximum may not lie below the
    /// calls already made (on a freshly registered expectation there are none).
    pub fn times(&mut self, policy: CallCountPolicy) -> (r: &mut Self)
        requires
            old(self).call_count() <= policy.max_calls(),
        ensures
            r.policy() == policy,
            r.same_but_policy(*old(self)),
            *final(self) == *final(r),
    {
        proof {
            use_type_invariant(&*self);
        }
        self.policy = policy;
        self
    }

    /// Permits any number of calls, zero included.
    pub fn any_number_of_times(&mut self) -> (r: &mut Self)
        requires
            old(self).call_count() <= CallCountPolicy::Unbounded.max_calls(),
        ensures
            r.policy() == CallCountPolicy::Unbounded,
            r.same_but_policy(*old(self)),
            *final(self) == *final(r),
    {
        self.times(CallCountPolicy::Unbounded)
    }

    /// Forbids the call altogether.
    pub fn never(&mut self) -> (r: &mut Self)
        requires
            old(self).call_count() == 0,
        ensures
            r.policy() == CallCountPolicy::Exactly(0),
            r.same_but_policy(*old(self)),
            *final(self) == *final(r),
    {
        self.times(CallCountPolicy::Exactly(0))
    }

    pub fn policy_value(&self) -> (r: CallCountPolicy)
        ensures
            r == self.policy(),
    {
        self.policy
    }

    pub fn actual_calls(&self) -> (r: u64)
        ensures
            r as nat == self.call_count(),
    {
        self.calls
    }

    /// Whether the expectation still accepts a call.
    pub fn has_capacity(&self) -> (r: bool)
        ensures
            r == !self.is_exhausted(),
    {
        self.calls < self.policy.maximum()
    }

    /// Whether the policy's minimum has been met.
    pub fn is_satisfied(&self) -> (r: bool)
        ensures
            r == self.satisfied(),
    {
        self.calls >= self.policy.minimum()
    }

    /// Whether every argument matcher accepts the actual arguments.
    pub fn matches<Args>(&self, args: &Args) -> (r: bool)
        where
            A: ArgumentMatcher<Args>,
        ensures
            A::obeys_matcher_spec() ==> r == self.matcher().accepts(args),
    {
        self.matcher.matches_argument(args)
    }

    /// Renders the argument matchers for a failure report.
    pub fn describe<Args>(&self) -> String
        where
            A: ArgumentMatcher<Args>,
    {
        self.matcher.describe()
    }

    /// Counts one consumption.
    pub(crate) fn consume(&mut self)
        requires
            !old(self).is_exhausted(),
        ensures
            final(self).is_consumption_of(*old(self)),
    {
        proof {
            use_type_invariant(&*self);
        }
        self.calls = self.calls + 1;
    }

    /// A copy of the configured return value, if any.
    pub fn provide(&self) -> (r: Option<R>)
        where
            R: Clone,
        ensures
            r.is_some() == self.return_value().is_some(),
            r.is_some() ==> cloned(self.return_value().unwrap(), r.unwrap()),
    {
        match &self.return_value {
            Some(v) => Some(v.clone()),
            None => None,
        }
    }
}

} // verus!
