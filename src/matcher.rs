use vstd::prelude::*;
use vstd::std_specs::cmp::PartialEqSpec;
use vstd::string::StringExecFns;

verus! {

/// A predicate over one argument position of a mocked method.
///
/// `accepts` is the mathematical meaning of the matcher. An implementation
/// whose `obeys_matcher_spec` holds decides exactly `accepts`.
pub trait ArgumentMatcher<U> {
    spec fn obeys_matcher_spec() -> bool;

    spec fn accepts(&self, input: &U) -> bool;

    fn matches_argument(&self, input: &U) -> (r: bool)
        ensures
            Self::obeys_matcher_spec() ==> r == self.accepts(input),
    ;

    /// A human-readable rendering of the expected value, used in failure reports only.
    fn describe(&self) -> String;
}

/// Matches an argument that compares equal (by `PartialEq`) to the stored value.
#[derive(Debug)]
pub struct PartialEqArgumentMatcher<T> {
    value: T,
}

/// Matches a borrowed argument whose referent compares equal to the stored owned value.
#[derive(Debug)]
pub struct OwnedPartialEqArgumentMatcher<T> {
    value: T,
}

impl<T> PartialEqArgumentMatcher<T> {
    pub closed spec fn expected(&self) -> T {
        self.value
    }
}

impl<T> OwnedPartialEqArgumentMatcher<T> {
    pub closed spec fn expected(&self) -> T {
        self.value
    }
}

/// Creates a matcher that accepts arguments equal to `value`.
pub fn partial_eq<T>(value: T) -> (r: PartialEqArgumentMatcher<T>)
    ensures
        r.expected() == value,
{
    PartialEqArgumentMatcher { value }
}

/// Creates a matcher that accepts a reference whose referent equals `value`.
pub fn partial_eq_owned<T>(value: T) -> (r: OwnedPartialEqArgumentMatcher<T>)
    ensures
        r.expected() == value,
{
    OwnedPartialEqArgumentMatcher { value }
}

/// Relies on std's `Debug` formatting: renders a value as `{:?}` does.
#[verifier::external_body]
pub(crate) fn debug_text<T: core::fmt::Debug>(value: &T) -> String {
    format!("{:?}", value)
}

impl<T: PartialEq<U> + core::fmt::Debug, U> ArgumentMatcher<U> for PartialEqArgumentMatcher<T> {
    open spec fn obeys_matcher_spec() -> bool {
        <T as PartialEqSpec<U>>::obeys_eq_spec()
    }

    open spec fn accepts(&self, input: &U) -> bool {
        self.expected().eq_spec(input)
    }

    fn matches_argument(&self, input: &U) -> (r: bool) {
        self.value == *input
    }

    fn describe(&self) -> String {
        debug_text(&self.value)
    }
}

impl<'a, T: PartialEq<U> + core::fmt::Debug, U: ?Sized> ArgumentMatcher<&'a U> for OwnedPartialEqArgumentMatcher<T> {
    open spec fn obeys_matcher_spec() -> bool {
        <T as PartialEqSpec<U>>::obeys_eq_spec()
    }

    open spec fn accepts(&self, input: &&'a U) -> bool {
        self.expected().eq_spec(*input)
    }

    fn matches_argument(&self, input: &&'a U) -> (r: bool) {
        self.value == **input
    }

    fn describe(&self) -> String {
        debug_text(&self.value)
    }
}

/// The first `n` of `parts`, separated by `, `.
pub open spec fn comma_joined(parts: Seq<String>, n: int) -> Seq<char>
    decreases n,
{
    if n <= 0 {
        Seq::empty()
    } else if n == 1 {
        parts[0]@
    } else {
        comma_joined(parts, n - 1) + ", "@ + parts[n - 1]@
    }
}

/// Joins the renderings of several argument positions, separated by commas.
fn join_descriptions(parts: Vec<String>) -> (r: String)
    ensures
        r@ == comma_joined(parts@, parts@.len() as int),
{
    let mut out = String::new();
    let mut i: usize = 0;
    while i < parts.len()
        invariant
            0 <= i <= parts@.len(),
            out@ == comma_joined(parts@, i as int),
        decreases parts@.len() - i,
    {
        if i > 0 {
            out.append(", ");
        }
        out.append(parts[i].as_str());
        proof {
            if i == 0 {
                assert(out@ =~= parts@[0]@);
            }
        }
        i = i + 1;
    }
    out
}

/// A method without parameters: every call matches.
impl ArgumentMatcher<()> for () {
    open spec fn obeys_matcher_spec() -> bool {
        true
    }

    open spec fn accepts(&self, input: &()) -> bool {
        true
    }

    fn matches_argument(&self, input: &()) -> (r: bool) {
        true
    }

    fn describe(&self) -> String {
        String::new()
    }
}

/// One parameter: its matcher decides.
impl<M0: ArgumentMatcher<U0>, U0> ArgumentMatcher<(U0,)> for (M0,) {
    open spec fn obeys_matcher_spec() -> bool {
        M0::obeys_matcher_spec()
    }

    open spec fn accepts(&self, input: &(U0,)) -> bool {
        self.0.accepts(&input.0)
    }

    fn matches_argument(&self, input: &(U0,)) -> (r: bool) {
        self.0.matches_argument(&input.0)
    }

    fn describe(&self) -> String {
        self.0.describe()
    }
}

/// Two parameters: both matchers must accept, each at its own position.
impl<M0: ArgumentMatcher<U0>, M1: ArgumentMatcher<U1>, U0, U1> ArgumentMatcher<(U0, U1)> for (
    M0,
    M1,
) {
    open spec fn obeys_matcher_spec() -> bool {
        M0::obeys_matcher_spec() && M1::obeys_matcher_spec()
    }

    open spec fn accepts(&self, input: &(U0, U1)) -> bool {
        self.0.accepts(&input.0) && self.1.accepts(&input.1)
    }

    fn matches_argument(&self, input: &(U0, U1)) -> (r: bool) {
        self.0.matches_argument(&input.0) && self.1.matches_argument(&input.1)
    }

    fn describe(&self) -> String {
        join_descriptions(vec![self.0.describe(), self.1.describe()])
    }
}

/// Three parameters: every matcher must accept, each at its own position.
impl<
    M0: ArgumentMatcher<U0>,
    M1: ArgumentMatcher<U1>,
    M2: ArgumentMatcher<U2>,
    U0,
    U1,
    U2,
> ArgumentMatcher<(U0, U1, U2)> for (M0, M1, M2) {
    open spec fn obeys_matcher_spec() -> bool {
        M0::obeys_matcher_spec() && M1::obeys_matcher_spec() && M2::obeys_matcher_spec()
    }

    open spec fn accepts(&self, input: &(U0, U1, U2)) -> bool {
        self.0.accepts(&input.0) && self.1.accepts(&input.1) && self.2.accepts(&input.2)
    }

    fn matches_argument(&self, input: &(U0, U1, U2)) -> (r: bool) {
        self.0.matches_argument(&input.0) && self.1.matches_argument(&input.1)
            && self.2.matches_argument(&input.2)
    }

    fn describe(&self) -> String {
        join_descriptions(vec![self.0.describe(), self.1.describe(), self.2.describe()])
    }
}

} // verus!
