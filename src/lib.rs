//! A runtime expectation engine for mock objects: argument matchers,
//! expected calls with call-count policies, per-method expectation pools
//! with ordered or unordered selection, and end-of-scope verification.
pub mod text;
pub mod matcher;
pub mod policy;
pub mod expected_call;
pub mod method;
pub mod laws;
pub mod scope_check;

pub use matcher::{
    partial_eq, partial_eq_owned, ArgumentMatcher, OwnedPartialEqArgumentMatcher,
    PartialEqArgumentMatcher,
};
pub use policy::CallCountPolicy;
pub use expected_call::{ExpectedCall, MethodCallBuilder};
pub use method::{CallError, ExpectationDescription, Method, OrderingMode, UnmetExpectation, VerificationReport};
pub use scope_check::{collect_reports, must_fail, UnwindingPolicy};
