use vstd::prelude::*;
use vstd::string::{to_string_from_display_ensures, StringExecFns};

verus! {

/// How many times an expected call may, and must, be invoked.
///
/// A live counter is kept beside the policy by the expected call itself.
/// `Unbounded` and `AtLeast` allow at most `u64::MAX` calls: a counter of
/// that width cannot record more.
#[derive(Clone, Copy, Debug, PartialEq, Eq, Structural)]
pub enum CallCountPolicy {
    /// Exactly this many calls; `Exactly(0)` forbids the call altogether.
    Exactly(u64),
    /// At least this many calls.
    AtLeast(u64),
    /// Any number of calls up to this many, zero included.
    AtMost(u64),
    /// Any number of calls, zero included.
    Unbounded,
}

impl CallCountPolicy {
    /// The fewest calls that satisfy the policy.
    pub open spec fn min_calls(self) -> nat {
        match self {
            CallCountPolicy::Exactly(n) => n as nat,
            CallCountPolicy::AtLeast(n) => n as nat,
            CallCountPolicy::AtMost(_) => 0,
            CallCountPolicy::Unbounded => 0,
        }
    }

    /// The most calls that the policy permits.
    pub open spec fn max_calls(self) -> nat {
        match self {
            CallCountPolicy::Exactly(n) => n as nat,
            CallCountPolicy::AtLeast(_) => u64::MAX as nat,
            CallCountPolicy::AtMost(n) => n as nat,
            CallCountPolicy::Unbounded => u64::MAX as nat,
        }
    }

    /// The default policy: exactly one call.
    pub fn once() -> (r: Self)
        ensures
            r == CallCountPolicy::Exactly(1),
    {
        CallCountPolicy::Exactly(1)
    }

    pub fn minimum(&self) -> (r: u64)
        ensures
            r as nat == self.min_calls(),
    {
        match self {
            CallCountPolicy::Exactly(n) => *n,
            CallCountPolicy::AtLeast(n) => *n,
            CallCountPolicy::AtMost(_) => 0,
            CallCountPolicy::Unbounded => 0,
        }
    }

    pub fn maximum(&self) -> (r: u64)
        ensures
            r as nat == self.max_calls(),
    {
        match self {
            CallCountPolicy::Exactly(n) => *n,
            CallCountPolicy::AtLeast(_) => u64::MAX,
            CallCountPolicy::AtMost(n) => *n,
            CallCountPolicy::Unbounded => u64::MAX,
        }
    }

    /// `text` renders the policy: `exactly n calls`, `at least n calls`,
    /// `at most n calls` (with `n` as `to_string` writes it), or
    /// `any number of calls`.
    pub open spec fn describes(self, text: Seq<char>) -> bool {
        match self {
            CallCountPolicy::Exactly(n) => exists|s: String|
                #[trigger] to_string_from_display_ensures::<u64>(&n, s) && text == "exactly "@
                    + s@ + " calls"@,
            CallCountPolicy::AtLeast(n) => exists|s: String|
                #[trigger] to_string_from_display_ensures::<u64>(&n, s) && text == "at least "@
                    + s@ + " calls"@,
            CallCountPolicy::AtMost(n) => exists|s: String|
                #[trigger] to_string_from_display_ensures::<u64>(&n, s) && text == "at most "@
                    + s@ + " calls"@,
            CallCountPolicy::Unbounded => text == "any number of calls"@,
        }
    }

    /// Renders the policy for a failure report, such as `exactly 2 calls`.
    pub fn describe(&self) -> (r: String)
        ensures
            self.describes(r@),
    {
        match self {
            CallCountPolicy::Exactly(n) => {
                let s = n.to_string();
                let r = String::from_str("exactly ").concat(s.as_str()).concat(" calls");
                assert(to_string_from_display_ensures::<u64>(n, s));
                r
            },
            CallCountPolicy::AtLeast(n) => {
                let s = n.to_string();
                let r = String::from_str("at least ").concat(s.as_str()).concat(" calls");
                assert(to_string_from_display_ensures::<u64>(n, s));
                r
            },
            CallCountPolicy::AtMost(n) => {
                let s = n.to_string();
                let r = String::from_str("at most ").concat(s.as_str()).concat(" calls");
                assert(to_string_from_display_ensures::<u64>(n, s));
                r
            },
            CallCountPolicy::Unbounded => String::from_str("any number of calls"),
        }
    }
}

impl Default for CallCountPolicy {
    fn default() -> (r: Self)
        ensures
            r == CallCountPolicy::Exactly(1),
    {
        CallCountPolicy::Exactly(1)
    }
}

} // verus!
