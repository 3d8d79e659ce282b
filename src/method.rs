use vstd::prelude::*;
use vstd::string::{to_string_from_display_ensures, StringExecFns};
use crate::text::{contains_text, lemma_contains_concat, lemma_contains_self, starts_with};
use crate::expected_call::{ExpectedCall, MethodCallBuilder};
use crate::matcher::{debug_text, ArgumentMatcher};
use crate::policy::CallCountPolicy;

verus! {

/// How a method picks among its expectations.
#[derive(Clone, Copy, Debug, PartialEq, Eq, Structural)]
pub enum OrderingMode {
    /// Every expectation with capacity left is a candidate.
    Unordered,
    /// A strict queue: the only candidate is the earliest expectation that is
    /// not yet exhausted.
    Sequential,
}

/// The expectation pool of one method of one mock.
pub struct Method<A, R> {
    name: String,
    mode: OrderingMode,
    default_return: Option<R>,
    calls: Vec<ExpectedCall<A, R>>,
}

/// One expectation as shown in a failure report.
#[derive(Debug)]
pub struct ExpectationDescription {
    /// Its position among the method's expectations, in order of registration.
    pub sequence_number: usize,
    /// The rendering of its argument matchers.
    pub matchers: String,
}

/// Why an invocation could not be answered.
#[derive(Debug)]
pub enum CallError {
    /// No expectation that is a candidate right now accepts the arguments.
    NoMatchingExpectation {
        method: String,
        arguments: String,
        eligible: Vec<ExpectationDescription>,
    },
    /// The expectation that matched was given no return value.
    ReturnValueNotConfigured { method: String, sequence_number: usize },
}

/// An expectation whose call count fell outside its policy.
#[derive(Debug)]
pub struct UnmetExpectation {
    pub sequence_number: usize,
    pub matchers: String,
    pub expected: CallCountPolicy,
    pub actual_calls: u64,
}

/// The expectations of one method that were not satisfied.
#[derive(Debug)]
pub struct VerificationReport {
    pub method: String,
    pub unmet: Vec<UnmetExpectation>,
}

/// Expectation `i` is a candidate for the next call.
pub open spec fn eligible<A, R>(calls: Seq<ExpectedCall<A, R>>, mode: OrderingMode, i: int) -> bool {
    &&& 0 <= i < calls.len()
    &&& !calls[i].is_exhausted()
    &&& mode == OrderingMode::Sequential ==> forall|j: int|
        0 <= j < i ==> #[trigger] calls[j].is_exhausted()
}

/// Expectation `i` is a candidate and accepts `args`.
pub open spec fn selectable<A: ArgumentMatcher<Args>, R, Args>(
    calls: Seq<ExpectedCall<A, R>>,
    mode: OrderingMode,
    args: Args,
    i: int,
) -> bool {
    eligible(calls, mode, i) && calls[i].matcher().accepts(&args)
}

/// The first selectable expectation at position `k` or later.
pub open spec fn first_selectable_from<A: ArgumentMatcher<Args>, R, Args>(
    calls: Seq<ExpectedCall<A, R>>,
    mode: OrderingMode,
    args: Args,
    k: int,
) -> Option<int>
    decreases calls.len() - k,
{
    if k < 0 || k >= calls.len() {
        None
    } else if selectable(calls, mode, args, k) {
        Some(k)
    } else {
        first_selectable_from(calls, mode, args, k + 1)
    }
}

/// The expectation that a call with `args` consumes: the first selectable one.
pub open spec fn selection<A: ArgumentMatcher<Args>, R, Args>(
    calls: Seq<ExpectedCall<A, R>>,
    mode: OrderingMode,
    args: Args,
) -> Option<int> {
    first_selectable_from(calls, mode, args, 0)
}

/// The positions below `n` of the candidates, in increasing order.
pub open spec fn eligible_indices<A, R>(calls: Seq<ExpectedCall<A, R>>, mode: OrderingMode, n: int) -> Seq<int>
    decreases n,
{
    if n <= 0 {
        Seq::empty()
    } else if eligible(calls, mode, n - 1) {
        eligible_indices(calls, mode, n - 1).push(n - 1)
    } else {
        eligible_indices(calls, mode, n - 1)
    }
}

/// The positions below `n` of the unsatisfied expectations, in increasing order.
pub open spec fn unmet_indices<A, R>(calls: Seq<ExpectedCall<A, R>>, n: int) -> Seq<int>
    decreases n,
{
    if n <= 0 {
        Seq::empty()
    } else if !calls[n - 1].satisfied() {
        unmet_indices(calls, n - 1).push(n - 1)
    } else {
        unmet_indices(calls, n - 1)
    }
}

/// Every expectation of the pool is satisfied.
pub open spec fn all_satisfied<A, R>(calls: Seq<ExpectedCall<A, R>>) -> bool {
    forall|i: int| 0 <= i < calls.len() ==> #[trigger] calls[i].satisfied()
}

impl<A, R> Method<A, R> {
    /// The diagnostic name, such as `FooMock::get`.
    pub closed spec fn name(&self) -> Seq<char> {
        self.name@
    }

    pub closed spec fn mode(&self) -> OrderingMode {
        self.mode
    }

    /// The return value that each newly registered expectation starts with.
    pub closed spec fn default_return(&self) -> Option<R> {
        self.default_return
    }

    /// The method after `expect_method_calls_in_order`.
    pub closed spec fn in_order(self) -> Self {
        Method { mode: OrderingMode::Sequential, ..self }
    }

    /// The expectations, in order of registration.
    pub closed spec fn calls(&self) -> Seq<ExpectedCall<A, R>> {
        self.calls@
    }

    /// A method with no expectations, in unordered mode, whose expectations
    /// answer only once given a return value.
    pub fn new(name: &str) -> (r: Self)
        ensures
            r.name() == name@,
            r.mode() == OrderingMode::Unordered,
            r.default_return() == None::<R>,
            r.calls() == Seq::<ExpectedCall<A, R>>::empty(),
    {
        Method {
            name: name.to_owned(),
            mode: OrderingMode::Unordered,
            default_return: None,
            calls: Vec::new(),
        }
    }

    /// A method with no expectations, in unordered mode, whose expectations
    /// answer with `value` unless given another return value.
    pub fn with_default_return(name: &str, value: R) -> (r: Self)
        ensures
            r.name() == name@,
            r.mode() == OrderingMode::Unordered,
            r.default_return() == Some(value),
            r.calls() == Seq::<ExpectedCall<A, R>>::empty(),
    {
        Method {
            name: name.to_owned(),
            mode: OrderingMode::Unordered,
            default_return: Some(value),
            calls: Vec::new(),
        }
    }

}

impl<A> Method<A, ()> {
    /// A method without a result: its expectations answer with `()` unless
    /// configured otherwise.
    pub fn new_unit(name: &str) -> (r: Self)
        ensures
            r.name() == name@,
            r.mode() == OrderingMode::Unordered,
            r.default_return() == Some(()),
            r.calls() == Seq::<ExpectedCall<A, ()>>::empty(),
    {
        Method::with_default_return(name, ())
    }
}

impl<A, R> Method<A, R> {
    /// Registers a new expectation with the default policy and hands out a
    /// builder bound to the stored expectation.
    ///
    /// The new expectation starts with a copy of the method's default return
    /// value, if it has one.
    pub fn add_expected_call(&mut self, matcher: A) -> (r: MethodCallBuilder<'_, A, R>)
        where
            R: Clone,
        ensures
            r.matcher() == matcher,
            r.policy() == CallCountPolicy::Exactly(1),
            r.call_count() == 0,
            r.return_value().is_some() == old(self).default_return().is_some(),
            r.return_value().is_some() ==> cloned(
                old(self).default_return().unwrap(),
                r.return_value().unwrap(),
            ),
            final(self).name() == old(self).name(),
            final(self).mode() == old(self).mode(),
            final(self).default_return() == old(self).default_return(),
            final(self).calls() == old(self).calls().push(*final(r)),
    {
        let initial = match &self.default_return {
            Some(v) => Some(v.clone()),
            None => None,
        };
        self.calls.push(ExpectedCall::with_return_value(matcher, initial));
        let last = self.calls.len() - 1;
        &mut self.calls[last]
    }

    /// Switches to sequential mode. Calling it again changes nothing.
    pub fn expect_method_calls_in_order(&mut self)
        ensures
            *final(self) == old(self).in_order(),
            final(self).default_return() == old(self).default_return(),
            final(self).name() == old(self).name(),
            final(self).mode() == OrderingMode::Sequential,
            final(self).calls() == old(self).calls(),
    {
        self.mode = OrderingMode::Sequential;
    }

    /// The candidates for the next call, each with its matchers rendered.
    fn eligible_descriptions<Args>(&self) -> (r: Vec<ExpectationDescription>)
        where
            A: ArgumentMatcher<Args>,
        ensures
            r@.len() == eligible_indices(self.calls(), self.mode(), self.calls().len() as int).len(),
            forall|k: int|
                0 <= k < r@.len() ==> #[trigger] r@[k].sequence_number as int == eligible_indices(
                    self.calls(),
                    self.mode(),
                    self.calls().len() as int,
                )[k],
    {
        let mut out: Vec<ExpectationDescription> = Vec::new();
        let mut earlier_exhausted = true;
        let mut i: usize = 0;
        while i < self.calls.len()
            invariant
                0 <= i <= self.calls@.len(),
                earlier_exhausted == forall|j: int| 0 <= j < i ==> #[trigger] self.calls@[j].is_exhausted(),
                out@.len() == eligible_indices(self.calls@, self.mode, i as int).len(),
                forall|k: int|
                    0 <= k < out@.len() ==> #[trigger] out@[k].sequence_number as int
                        == eligible_indices(self.calls@, self.mode, i as int)[k],
            decreases self.calls@.len() - i,
        {
            let call = &self.calls[i];
            let candidate = call.has_capacity() && (self.mode == OrderingMode::Unordered
                || earlier_exhausted);
            if candidate {
                out.push(ExpectationDescription { sequence_number: i, matchers: call.describe() });
            }
            earlier_exhausted = earlier_exhausted && !call.has_capacity();
            i = i + 1;
        }
        out
    }

    /// Answers one call of the mocked method with the actual arguments `args`.
    ///
    /// The first candidate whose matchers accept `args` is consumed and its
    /// return value handed back. With no such candidate, or when that one has no
    /// return value, the pool is left as it was and the error says why.
    pub fn invoke<Args: core::fmt::Debug>(&mut self, args: &Args) -> (r: Result<R, CallError>)
        where
            A: ArgumentMatcher<Args>,
            R: Clone,
        ensures
            final(self).name() == old(self).name(),
            final(self).mode() == old(self).mode(),
            final(self).default_return() == old(self).default_return(),
            r.is_err() ==> *final(self) == *old(self),
            A::obeys_matcher_spec() ==> match selection(old(self).calls(), old(self).mode(), *args) {
                Some(i) => match old(self).calls()[i].return_value() {
                    Some(v) => {
                        &&& r.is_ok()
                        &&& cloned(v, r->Ok_0)
                        &&& final(self).calls().len() == old(self).calls().len()
                        &&& final(self).calls()[i].is_consumption_of(old(self).calls()[i])
                        &&& forall|j: int|
                            0 <= j < old(self).calls().len() && j != i ==> #[trigger] final(self).calls()[j]
                                == old(self).calls()[j]
                    },
                    None => {
                        &&& r is Err
                        &&& r->Err_0 is ReturnValueNotConfigured
                        &&& r->Err_0->ReturnValueNotConfigured_method@ == old(self).name()
                        &&& r->Err_0->ReturnValueNotConfigured_sequence_number == i
                    },
                },
                None => {
                    &&& r is Err
                    &&& r->Err_0 is NoMatchingExpectation
                    &&& r->Err_0->NoMatchingExpectation_method@ == old(self).name()
                    &&& r->Err_0->NoMatchingExpectation_eligible@.len() == eligible_indices(
                        old(self).calls(),
                        old(self).mode(),
                        old(self).calls().len() as int,
                    ).len()
                    &&& forall|k: int|
                        0 <= k < r->Err_0->NoMatchingExpectation_eligible@.len()
                            ==> #[trigger] r->Err_0->NoMatchingExpectation_eligible@[k].sequence_number as int
                            == eligible_indices(
                            old(self).calls(),
                            old(self).mode(),
                            old(self).calls().len() as int,
                        )[k]
                },
            },
    {
        let ghost calls0 = self.calls@;
        let mut earlier_exhausted = true;
        let mut i: usize = 0;
        while i < self.calls.len()
            invariant
                *self == *old(self),
                self.calls@ == calls0,
                0 <= i <= self.calls@.len(),
                earlier_exhausted == forall|j: int| 0 <= j < i ==> #[trigger] self.calls@[j].is_exhausted(),
                A::obeys_matcher_spec() ==> selection(calls0, self.mode, *args)
                    == first_selectable_from(calls0, self.mode, *args, i as int),
            decreases self.calls@.len() - i,
        {
            let candidate = self.calls[i].has_capacity() && (self.mode == OrderingMode::Unordered
                || earlier_exhausted);
            if candidate && self.calls[i].matches(args) {
                let provided = self.calls[i].provide();
                match provided {
                    Some(v) => {
                        let mut call = self.calls.remove(i);
                        call.consume();
                        self.calls.insert(i, call);
                        assert(self.calls@ =~= calls0.update(i as int, self.calls@[i as int]));
                        return Ok(v);
                    },
                    None => {
                        return Err(
                            CallError::ReturnValueNotConfigured {
                                method: self.name.clone(),
                                sequence_number: i,
                            },
                        );
                    },
                }
            }
            earlier_exhausted = earlier_exhausted && !self.calls[i].has_capacity();
            i = i + 1;
        }
        Err(
            CallError::NoMatchingExpectation {
                method: self.name.clone(),
                arguments: debug_text(args),
                eligible: self.eligible_descriptions(),
            },
        )
    }

    /// The end-of-scope check: `Ok` exactly when every expectation has reached
    /// its minimum (none ever passes its maximum); otherwise a report that lists each unsatisfied one, in order
    /// of registration, with its policy and its actual number of calls.
    pub fn verify<Args>(&self) -> (r: Result<(), VerificationReport>)
        where
            A: ArgumentMatcher<Args>,
        ensures
            r.is_ok() == all_satisfied(self.calls()),
            forall|i: int|
                0 <= i < self.calls().len() ==> #[trigger] self.calls()[i].call_count()
                    <= self.calls()[i].policy().max_calls(),
            r is Err ==> {
                let report = r->Err_0;
                let unmet = unmet_indices(self.calls(), self.calls().len() as int);
                &&& report.method@ == self.name()
                &&& report.unmet@.len() == unmet.len()
                &&& forall|k: int|
                    0 <= k < unmet.len() ==> {
                        let e = #[trigger] report.unmet@[k];
                        &&& e.sequence_number as int == unmet[k]
                        &&& e.expected == self.calls()[unmet[k]].policy()
                        &&& e.actual_calls as nat == self.calls()[unmet[k]].call_count()
                    }
            },
    {
        let mut unmet: Vec<UnmetExpectation> = Vec::new();
        let mut i: usize = 0;
        while i < self.calls.len()
            invariant
                0 <= i <= self.calls@.len(),
                unmet@.len() == unmet_indices(self.calls@, i as int).len(),
                forall|j: int|
                    0 <= j < i ==> #[trigger] self.calls@[j].call_count()
                        <= self.calls@[j].policy().max_calls(),
                unmet@.len() == 0 <==> forall|j: int| 0 <= j < i ==> #[trigger] self.calls@[j].satisfied(),
                forall|k: int|
                    0 <= k < unmet@.len() ==> {
                        let e = #[trigger] unmet@[k];
                        let idx = unmet_indices(self.calls@, i as int)[k];
                        &&& e.sequence_number as int == idx
                        &&& e.expected == self.calls@[idx].policy()
                        &&& e.actual_calls as nat == self.calls@[idx].call_count()
                    },
            decreases self.calls@.len() - i,
        {
            let call = &self.calls[i];
            call.within_maximum();
            if !call.is_satisfied() {
                unmet.push(
                    UnmetExpectation {
                        sequence_number: i,
                        matchers: call.describe(),
                        expected: call.policy_value(),
                        actual_calls: call.actual_calls(),
                    },
                );
            }
            i = i + 1;
        }
        if unmet.len() == 0 {
            Ok(())
        } else {
            Err(VerificationReport { method: self.name.clone(), unmet })
        }
    }

    /// Asking for ordered calls twice has the same effect as asking once.
    pub proof fn law_in_order_idempotent(self)
        ensures
            self.in_order().in_order() == self.in_order(),
    {
    }
}

/// `name` followed by `rest`.
fn prefixed(name: &String, rest: String) -> (r: String)
    ensures
        r@ == name@ + rest@,
        starts_with(r@, name@),
{
    let out = name.clone().concat(rest.as_str());
    assert(out@.subrange(0, name@.len() as int) =~= name@);
    out
}

/// `head`, then `middle`, then `tail`.
fn bracketed(head: String, middle: &String, tail: &str) -> (r: String)
    ensures
        r@ == head@ + middle@ + tail@,
        contains_text(r@, middle@),
{
    let r = head.concat(middle.as_str()).concat(tail);
    proof {
        lemma_contains_self(middle@);
        lemma_contains_concat(head@, middle@, middle@);
        lemma_contains_concat(head@ + middle@, tail@, middle@);
    }
    r
}

/// `text` shows an unmet expectation: its matchers, its policy, and its
/// actual number of calls.
pub open spec fn shows_unmet(text: Seq<char>, e: UnmetExpectation) -> bool {
    &&& contains_text(text, e.matchers@)
    &&& exists|t: Seq<char>| #[trigger] e.expected.describes(t) && contains_text(text, t)
    &&& exists|s: String|
        #[trigger] to_string_from_display_ensures::<u64>(&e.actual_calls, s) && contains_text(
            text,
            s@,
        )
}

proof fn lemma_shows_unmet_concat(a: Seq<char>, b: Seq<char>, e: UnmetExpectation)
    requires
        shows_unmet(a, e) || shows_unmet(b, e),
    ensures
        shows_unmet(a + b, e),
{
    lemma_contains_concat(a, b, e.matchers@);
    let t = choose|t: Seq<char>|
        #[trigger] e.expected.describes(t) && (contains_text(a, t) || contains_text(b, t));
    lemma_contains_concat(a, b, t);
    let s = choose|s: String|
        #[trigger] to_string_from_display_ensures::<u64>(&e.actual_calls, s) && (contains_text(
            a,
            s@,
        ) || contains_text(b, s@));
    lemma_contains_concat(a, b, s@);
}

impl CallError {
    /// The method whose call failed.
    pub open spec fn method_name(&self) -> Seq<char> {
        match self {
            CallError::NoMatchingExpectation { method, .. } => method@,
            CallError::ReturnValueNotConfigured { method, .. } => method@,
        }
    }

    /// A human-readable account of the failure, led by the method's name. For
    /// a call that matched nothing it shows the arguments and the matchers of
    /// every candidate; for a missing return value, the expectation's number.
    pub fn message(&self) -> (r: String)
        ensures
            starts_with(r@, self.method_name()),
            match self {
                CallError::NoMatchingExpectation { arguments, eligible, .. } => {
                    &&& contains_text(r@, arguments@)
                    &&& forall|k: int|
                        0 <= k < eligible@.len() ==> contains_text(
                            r@,
                            (#[trigger] eligible@[k]).matchers@,
                        )
                },
                CallError::ReturnValueNotConfigured { sequence_number, .. } => exists|s: String|
                    #[trigger] to_string_from_display_ensures::<usize>(sequence_number, s)
                        && contains_text(r@, s@),
            },
    {
        match self {
            CallError::NoMatchingExpectation { method, arguments, eligible } => {
                let mut rest = bracketed(
                    String::from_str(": no expected call matches the arguments ("),
                    arguments,
                    "); candidates:",
                );
                if eligible.len() == 0 {
                    let ghost before = rest@;
                    rest.append(" none");
                    proof {
                        lemma_contains_concat(before, " none"@, arguments@);
                    }
                }
                let mut i: usize = 0;
                while i < eligible.len()
                    invariant
                        0 <= i <= eligible@.len(),
                        contains_text(rest@, arguments@),
                        forall|k: int|
                            0 <= k < i ==> contains_text(rest@, (#[trigger] eligible@[k]).matchers@),
                    decreases eligible@.len() - i,
                {
                    let head = String::from_str(" #").concat(
                        eligible[i].sequence_number.to_string().as_str(),
                    ).concat(" (");
                    let entry = bracketed(head, &eligible[i].matchers, ")");
                    let ghost before = rest@;
                    rest.append(entry.as_str());
                    proof {
                        lemma_contains_concat(before, entry@, arguments@);
                        assert forall|k: int| 0 <= k < i + 1 implies contains_text(
                            rest@,
                            (#[trigger] eligible@[k]).matchers@,
                        ) by {
                            lemma_contains_concat(before, entry@, eligible@[k].matchers@);
                        }
                    }
                    i = i + 1;
                }
                let r = prefixed(method, rest);
                proof {
                    lemma_contains_concat(method@, rest@, arguments@);
                    assert forall|k: int| 0 <= k < eligible@.len() implies contains_text(
                        r@,
                        (#[trigger] eligible@[k]).matchers@,
                    ) by {
                        lemma_contains_concat(method@, rest@, eligible@[k].matchers@);
                    }
                }
                r
            },
            CallError::ReturnValueNotConfigured { method, sequence_number } => {
                let number = sequence_number.to_string();
                let rest = bracketed(
                    String::from_str(": expected call #"),
                    &number,
                    " matched but was given no return value",
                );
                let r = prefixed(method, rest);
                proof {
                    lemma_contains_concat(method@, rest@, number@);
                    assert(to_string_from_display_ensures::<usize>(sequence_number, number));
                }
                r
            },
        }
    }
}

impl VerificationReport {
    /// A human-readable account of the unmet expectations, led by the
    /// method's name, showing for each its matchers, its policy and its
    /// actual number of calls.
    pub fn message(&self) -> (r: String)
        ensures
            starts_with(r@, self.method@),
            forall|k: int| 0 <= k < self.unmet@.len() ==> shows_unmet(r@, #[trigger] self.unmet@[k]),
    {
        let mut rest = String::from_str(": unmet expectations:");
        let mut i: usize = 0;
        while i < self.unmet.len()
            invariant
                0 <= i <= self.unmet@.len(),
                forall|k: int| 0 <= k < i ==> shows_unmet(rest@, #[trigger] self.unmet@[k]),
            decreases self.unmet@.len() - i,
        {
            let e = &self.unmet[i];
            let head = String::from_str(" #").concat(e.sequence_number.to_string().as_str()).concat(
                " (",
            );
            let part1 = bracketed(head, &e.matchers, ") expected ");
            let policy = e.expected.describe();
            let part2 = bracketed(String::new(), &policy, ", was called ");
            let count = e.actual_calls.to_string();
            let part3 = bracketed(String::new(), &count, " times;");
            let entry = part1.concat(part2.as_str()).concat(part3.as_str());
            proof {
                lemma_contains_concat(part1@, part2@, e.matchers@);
                lemma_contains_concat(part1@ + part2@, part3@, e.matchers@);
                lemma_contains_concat(part1@, part2@, policy@);
                lemma_contains_concat(part1@ + part2@, part3@, policy@);
                lemma_contains_concat(part1@ + part2@, part3@, count@);
                assert(e.expected.describes(policy@));
                assert(to_string_from_display_ensures::<u64>(&e.actual_calls, count));
                assert(shows_unmet(entry@, *e));
            }
            let ghost before = rest@;
            rest.append(entry.as_str());
            proof {
                assert forall|k: int| 0 <= k < i + 1 implies shows_unmet(
                    rest@,
                    #[trigger] self.unmet@[k],
                ) by {
                    lemma_shows_unmet_concat(before, entry@, self.unmet@[k]);
                }
            }
            i = i + 1;
        }
        let r = prefixed(&self.method, rest);
        proof {
            assert forall|k: int| 0 <= k < self.unmet@.len() implies shows_unmet(
                r@,
                #[trigger] self.unmet@[k],
            ) by {
                lemma_shows_unmet_concat(self.method@, rest@, self.unmet@[k]);
            }
        }
        r
    }
}

} // verus!
