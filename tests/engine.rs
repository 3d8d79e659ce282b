use mockiato::{
    collect_reports, must_fail, partial_eq, partial_eq_owned, ArgumentMatcher, CallCountPolicy,
    CallError, Method, OrderingMode, PartialEqArgumentMatcher, UnwindingPolicy,
};

type GetMethod = Method<(PartialEqArgumentMatcher<i32>,), &'static str>;
type SetMethod = Method<(PartialEqArgumentMatcher<i32>,), ()>;

fn set_method() -> SetMethod {
    Method::new_unit("FooMock::set")
}

#[test]
fn scenario_a_matching_call_returns_configured_value() {
    let mut get: GetMethod = Method::new("FooMock::get");
    get.add_expected_call((partial_eq(42),)).returning("a");
    assert_eq!(get.invoke(&(42,)).unwrap(), "a");
    assert!(get.verify::<(i32,)>().is_ok());
}

#[test]
fn scenario_b_uncalled_expectation_fails_verification() {
    let mut get: GetMethod = Method::new("FooMock::get");
    get.add_expected_call((partial_eq(42),)).returning("a");
    let report = get.verify::<(i32,)>().unwrap_err();
    assert_eq!(report.method, "FooMock::get");
    assert_eq!(report.unmet.len(), 1);
    assert_eq!(report.unmet[0].sequence_number, 0);
    assert_eq!(report.unmet[0].matchers, "42");
    assert_eq!(report.unmet[0].expected, CallCountPolicy::Exactly(1));
    assert_eq!(report.unmet[0].actual_calls, 0);
    let message = report.message();
    assert!(message.starts_with("FooMock::get"));
    assert!(message.contains("42"));
}

#[test]
fn scenario_c_sequential_mode_rejects_out_of_order_call() {
    let mut set = set_method();
    set.expect_method_calls_in_order();
    set.add_expected_call((partial_eq(1),));
    set.add_expected_call((partial_eq(2),));
    match set.invoke(&(2,)) {
        Err(CallError::NoMatchingExpectation { method, arguments, eligible }) => {
            assert_eq!(method, "FooMock::set");
            assert_eq!(arguments, "(2,)");
            assert_eq!(eligible.len(), 1);
            assert_eq!(eligible[0].sequence_number, 0);
            assert_eq!(eligible[0].matchers, "1");
        },
        other => panic!("unexpected outcome: {:?}", other),
    }
}

#[test]
fn scenario_c_in_order_calls_succeed() {
    let mut set = set_method();
    set.expect_method_calls_in_order();
    set.add_expected_call((partial_eq(1),));
    set.add_expected_call((partial_eq(2),));
    assert!(set.invoke(&(1,)).is_ok());
    assert!(set.invoke(&(2,)).is_ok());
    assert!(set.verify::<(i32,)>().is_ok());
}

#[test]
fn scenario_d_unordered_mode_accepts_any_order() {
    let mut set = set_method();
    set.add_expected_call((partial_eq(1),));
    set.add_expected_call((partial_eq(2),));
    assert!(set.invoke(&(2,)).is_ok());
    assert!(set.invoke(&(1,)).is_ok());
    assert!(set.verify::<(i32,)>().is_ok());
}

#[test]
fn scenario_e_two_call_policy_is_exhausted_by_third_call() {
    let mut ping: Method<(), ()> = Method::new_unit("FooMock::ping");
    ping.add_expected_call(()).times(CallCountPolicy::Exactly(2));
    assert!(ping.invoke(&()).is_ok());
    assert!(ping.invoke(&()).is_ok());
    assert!(ping.verify::<()>().is_ok());
    match ping.invoke(&()) {
        Err(CallError::NoMatchingExpectation { method, eligible, .. }) => {
            assert_eq!(method, "FooMock::ping");
            assert!(eligible.is_empty());
        },
        other => panic!("unexpected outcome: {:?}", other),
    }
}

#[test]
fn fixed_return_value_is_handed_back_each_time() {
    let mut ping: Method<(), u8> = Method::new("FooMock::ping");
    ping.add_expected_call(()).returning(7).times(CallCountPolicy::Exactly(2));
    assert_eq!(ping.invoke(&()).unwrap(), 7);
    assert_eq!(ping.invoke(&()).unwrap(), 7);
    assert!(ping.invoke(&()).is_err());
}

#[test]
fn default_return_value_is_copied_into_each_expectation() {
    let mut get: GetMethod = Method::with_default_return("FooMock::get", "dflt");
    get.add_expected_call((partial_eq(1),));
    get.add_expected_call((partial_eq(2),)).returning("two");
    assert_eq!(get.invoke(&(2,)).unwrap(), "two");
    assert_eq!(get.invoke(&(1,)).unwrap(), "dflt");
}

#[test]
fn missing_return_value_message_names_expectation() {
    let mut get: GetMethod = Method::new("FooMock::get");
    get.add_expected_call((partial_eq(1),));
    get.add_expected_call((partial_eq(9),));
    let message = get.invoke(&(9,)).unwrap_err().message();
    assert!(message.starts_with("FooMock::get"));
    assert!(message.contains("#1"));
}

#[test]
fn verification_message_lists_every_unmet_expectation() {
    let mut get: GetMethod = Method::new("FooMock::get");
    get.add_expected_call((partial_eq(11),)).returning("a").times(CallCountPolicy::Exactly(3));
    get.add_expected_call((partial_eq(22),)).returning("b");
    assert!(get.invoke(&(11,)).is_ok());
    let message = get.verify::<(i32,)>().unwrap_err().message();
    assert_eq!(
        message,
        "FooMock::get: unmet expectations: #0 (11) expected exactly 3 calls, was called 1 times; \
         #1 (22) expected exactly 1 calls, was called 0 times;"
    );
}

#[test]
fn matching_calls_within_count_all_return_value() {
    let mut get: GetMethod = Method::new("FooMock::get");
    get.add_expected_call((partial_eq(1),)).returning("one").times(CallCountPolicy::Exactly(3));
    get.add_expected_call((partial_eq(2),)).returning("two");
    assert_eq!(get.invoke(&(1,)).unwrap(), "one");
    assert_eq!(get.invoke(&(2,)).unwrap(), "two");
    assert_eq!(get.invoke(&(1,)).unwrap(), "one");
    assert_eq!(get.invoke(&(1,)).unwrap(), "one");
    assert!(get.verify::<(i32,)>().is_ok());
}

#[test]
fn only_the_uncalled_default_expectation_is_reported() {
    let mut get: GetMethod = Method::new("FooMock::get");
    get.add_expected_call((partial_eq(1),)).returning("one");
    get.add_expected_call((partial_eq(2),)).returning("two");
    get.add_expected_call((partial_eq(3),)).returning("three");
    assert!(get.invoke(&(1,)).is_ok());
    assert!(get.invoke(&(3,)).is_ok());
    let report = get.verify::<(i32,)>().unwrap_err();
    assert_eq!(report.unmet.len(), 1);
    assert_eq!(report.unmet[0].sequence_number, 1);
    assert_eq!(report.unmet[0].matchers, "2");
}

#[test]
fn unbounded_policy_is_satisfied_with_zero_calls() {
    let mut get: GetMethod = Method::new("FooMock::get");
    get.add_expected_call((partial_eq(5),)).returning("x").any_number_of_times();
    assert!(get.verify::<(i32,)>().is_ok());
}

#[test]
fn unbounded_policy_is_satisfied_after_many_calls() {
    let mut get: GetMethod = Method::new("FooMock::get");
    get.add_expected_call((partial_eq(5),)).returning("x").any_number_of_times();
    for _ in 0..100 {
        assert_eq!(get.invoke(&(5,)).unwrap(), "x");
    }
    assert!(get.verify::<(i32,)>().is_ok());
}

#[test]
fn sequential_mode_fails_though_later_expectation_matches() {
    let mut get: GetMethod = Method::new("FooMock::get");
    get.expect_method_calls_in_order();
    get.add_expected_call((partial_eq(1),)).returning("one");
    get.add_expected_call((partial_eq(2),)).returning("two");
    get.add_expected_call((partial_eq(3),)).returning("three");
    assert!(get.invoke(&(3,)).is_err());
    assert_eq!(get.invoke(&(1,)).unwrap(), "one");
    assert!(get.invoke(&(3,)).is_err());
    assert_eq!(get.invoke(&(2,)).unwrap(), "two");
    assert_eq!(get.invoke(&(3,)).unwrap(), "three");
}

#[test]
fn unordered_mode_consumes_later_expectation() {
    let mut get: GetMethod = Method::new("FooMock::get");
    get.add_expected_call((partial_eq(1),)).returning("one");
    get.add_expected_call((partial_eq(2),)).returning("two");
    get.add_expected_call((partial_eq(3),)).returning("three");
    assert_eq!(get.invoke(&(3,)).unwrap(), "three");
    let report = get.verify::<(i32,)>().unwrap_err();
    let unmet: Vec<usize> = report.unmet.iter().map(|e| e.sequence_number).collect();
    assert_eq!(unmet, vec![0, 1]);
}

#[test]
fn ordering_configuration_twice_equals_once() {
    let mut once = set_method();
    once.expect_method_calls_in_order();
    once.add_expected_call((partial_eq(1),));
    once.add_expected_call((partial_eq(2),));
    let mut twice = set_method();
    twice.expect_method_calls_in_order();
    twice.add_expected_call((partial_eq(1),));
    twice.expect_method_calls_in_order();
    twice.add_expected_call((partial_eq(2),));
    twice.expect_method_calls_in_order();
    assert_eq!(once.invoke(&(2,)).is_err(), twice.invoke(&(2,)).is_err());
    assert_eq!(once.invoke(&(1,)).is_ok(), twice.invoke(&(1,)).is_ok());
    assert_eq!(once.invoke(&(2,)).is_ok(), twice.invoke(&(2,)).is_ok());
    assert_eq!(once.verify::<(i32,)>().is_ok(), twice.verify::<(i32,)>().is_ok());
}

#[test]
fn missing_return_value_is_an_error_and_consumes_nothing() {
    let mut get: GetMethod = Method::new("FooMock::get");
    get.add_expected_call((partial_eq(9),));
    match get.invoke(&(9,)) {
        Err(CallError::ReturnValueNotConfigured { method, sequence_number }) => {
            assert_eq!(method, "FooMock::get");
            assert_eq!(sequence_number, 0);
        },
        other => panic!("unexpected outcome: {:?}", other),
    }
    let report = get.verify::<(i32,)>().unwrap_err();
    assert_eq!(report.unmet[0].actual_calls, 0);
}

#[test]
fn never_policy_rejects_call_and_passes_uncalled() {
    let mut get: GetMethod = Method::new("FooMock::get");
    get.add_expected_call((partial_eq(1),)).returning("one").never();
    assert!(get.verify::<(i32,)>().is_ok());
    assert!(get.invoke(&(1,)).is_err());
}

#[test]
fn at_least_and_at_most_policies() {
    let mut get: GetMethod = Method::new("FooMock::get");
    get.add_expected_call((partial_eq(1),)).returning("one").times(CallCountPolicy::AtLeast(2));
    get.add_expected_call((partial_eq(2),)).returning("two").times(CallCountPolicy::AtMost(1));
    assert!(get.invoke(&(1,)).is_ok());
    let report = get.verify::<(i32,)>().unwrap_err();
    assert_eq!(report.unmet.len(), 1);
    assert_eq!(report.unmet[0].expected, CallCountPolicy::AtLeast(2));
    assert_eq!(report.unmet[0].actual_calls, 1);
    assert!(report.message().contains("at least 2 calls"));
    assert!(get.invoke(&(1,)).is_ok());
    assert!(get.invoke(&(2,)).is_ok());
    assert!(get.invoke(&(2,)).is_err());
    assert!(get.verify::<(i32,)>().is_ok());
}

#[test]
fn two_and_three_argument_matchers() {
    let mut add: Method<(PartialEqArgumentMatcher<i32>, PartialEqArgumentMatcher<i32>), i32> =
        Method::new("Calc::add");
    add.add_expected_call((partial_eq(1), partial_eq(2))).returning(3);
    assert!(add.invoke(&(1, 3)).is_err());
    assert!(add.invoke(&(2, 1)).is_err());
    assert_eq!(add.invoke(&(1, 2)).unwrap(), 3);

    let mut sum: Method<
        (PartialEqArgumentMatcher<u8>, PartialEqArgumentMatcher<u8>, PartialEqArgumentMatcher<u8>),
        u8,
    > = Method::new("Calc::sum");
    sum.add_expected_call((partial_eq(1), partial_eq(2), partial_eq(3))).returning(6);
    match sum.invoke(&(1, 2, 4)) {
        Err(CallError::NoMatchingExpectation { eligible, .. }) => {
            assert_eq!(eligible[0].matchers, "1, 2, 3");
        },
        other => panic!("unexpected outcome: {:?}", other),
    }
    assert_eq!(sum.invoke(&(1, 2, 3)).unwrap(), 6);
}

#[test]
fn partial_eq_matcher_compares_values() {
    let matcher = partial_eq(String::from("abc"));
    assert!(matcher.matches_argument(&String::from("abc")));
    assert!(!matcher.matches_argument(&String::from("abd")));
    assert_eq!(ArgumentMatcher::<String>::describe(&matcher), "\"abc\"");
}

#[test]
fn partial_eq_owned_matcher_compares_through_reference() {
    let matcher = partial_eq_owned(String::from("abc"));
    let text: &str = "abc";
    let other: &str = "xyz";
    assert!(matcher.matches_argument(&text));
    assert!(!matcher.matches_argument(&other));
    assert_eq!(ArgumentMatcher::<&str>::describe(&matcher), "\"abc\"");

    let mut write: Method<(mockiato::OwnedPartialEqArgumentMatcher<String>,), usize> =
        Method::new("Writer::write");
    write.add_expected_call((partial_eq_owned(String::from("hello")),)).returning(5);
    assert_eq!(write.invoke(&("hello",)).unwrap(), 5);
}

#[test]
fn call_error_message_names_method() {
    let mut get: GetMethod = Method::new("FooMock::get");
    get.add_expected_call((partial_eq(1),)).returning("one");
    let error = get.invoke(&(2,)).unwrap_err();
    let message = error.message();
    assert!(message.starts_with("FooMock::get"));
    assert!(message.contains("(2,)"));
    assert!(message.contains("#0 (1)"));
}

#[test]
fn new_method_is_unordered_and_empty() {
    let get: GetMethod = Method::new("FooMock::get");
    assert!(get.verify::<(i32,)>().is_ok());
    assert_eq!(OrderingMode::Unordered, OrderingMode::Unordered);
    assert_eq!(CallCountPolicy::default(), CallCountPolicy::Exactly(1));
    assert_eq!(CallCountPolicy::once(), CallCountPolicy::Exactly(1));
    assert_eq!(CallCountPolicy::Unbounded.describe(), "any number of calls");
    assert_eq!(CallCountPolicy::AtMost(4).maximum(), 4);
    assert_eq!(CallCountPolicy::AtLeast(4).minimum(), 4);
}

#[test]
fn reports_are_collected_across_methods() {
    let mut get: GetMethod = Method::new("FooMock::get");
    get.add_expected_call((partial_eq(1),)).returning("one");
    let mut set = set_method();
    set.add_expected_call((partial_eq(2),));
    assert!(set.invoke(&(2,)).is_ok());
    let mut ping: Method<(), u8> = Method::new("FooMock::ping");
    ping.add_expected_call(()).returning(1);
    let reports = collect_reports(vec![
        get.verify::<(i32,)>(),
        set.verify::<(i32,)>(),
        ping.verify::<()>(),
    ]);
    assert_eq!(reports.len(), 2);
    assert_eq!(reports[0].method, "FooMock::get");
    assert_eq!(reports[1].method, "FooMock::ping");
    assert!(must_fail(&reports, false, UnwindingPolicy::SuppressWhileUnwinding));
    assert!(!must_fail(&reports, true, UnwindingPolicy::SuppressWhileUnwinding));
    assert!(must_fail(&reports, true, UnwindingPolicy::AlwaysReport));
    assert!(!must_fail(&Vec::new(), false, UnwindingPolicy::AlwaysReport));
    assert_eq!(UnwindingPolicy::default(), UnwindingPolicy::SuppressWhileUnwinding);
}
