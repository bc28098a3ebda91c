use crashlab_core::regression_suite::{evaluate_scenario_payload, run_regression_suite};
use crashlab_core::scenario_export::{suite_scenarios, FailureScenario};
use crashlab_core::{to_bundle, CaseSeed};

#[test]
fn wrong_expected_class_fails() {
    let scenarios = vec![FailureScenario {
        seed_id: 1,
        input_payload: hex::encode(vec![1u8]),
        mode: "none".into(),
        failure_class: "not-the-real-class".into(),
    }];
    let summary = run_regression_suite(&scenarios);
    assert_eq!(summary.total, 1);
    assert_eq!(summary.passed, 0);
    assert_eq!(summary.failed, 1);
    assert!(!summary.cases[0].passed);
    assert!(summary.cases[0].actual_failure_class.is_some());
}

#[test]
fn invalid_hex_fails_with_error() {
    let scenarios = vec![FailureScenario {
        seed_id: 9,
        input_payload: "zz".into(),
        mode: "none".into(),
        failure_class: "runtime-failure".into(),
    }];
    let summary = run_regression_suite(&scenarios);
    assert_eq!(summary.failed, 1);
    assert!(summary.cases[0].error.is_some());
    assert!(summary.cases[0].actual_failure_class.is_none());
}

#[test]
fn empty_suite_summary() {
    let summary = run_regression_suite(&[]);
    assert_eq!(summary.total, 0);
    assert_eq!(summary.passed, 0);
    assert!(!summary.all_passed());
}

// Own checks of the evaluation.

#[test]
fn exported_suite_scenarios_all_pass() {
    let b1 = to_bundle(CaseSeed { id: 2, payload: vec![0xA0] });
    let b2 = to_bundle(CaseSeed { id: 1, payload: vec![1, 2, 3] });
    let scenarios = suite_scenarios(&[b1, b2], "invoker");
    let summary = run_regression_suite(&scenarios);
    assert_eq!(summary.total, 2);
    assert_eq!(summary.passed, 2);
    assert_eq!(summary.failed, 0);
    assert!(summary.all_passed());
}

#[test]
fn odd_length_hex_reports_odd_number_of_digits() {
    let scenarios = vec![FailureScenario {
        seed_id: 3,
        input_payload: "abc".into(),
        mode: "none".into(),
        failure_class: "runtime-failure".into(),
    }];
    let summary = run_regression_suite(&scenarios);
    assert_eq!(
        summary.cases[0].error.as_deref(),
        Some("invalid input_payload hex: Odd number of digits")
    );
}

#[test]
fn payload_text_is_trimmed_and_decoded_in_either_case() {
    let scenarios = vec![FailureScenario {
        seed_id: 4,
        input_payload: "  0A0b \n".into(),
        mode: "none".into(),
        failure_class: "runtime-failure".into(),
    }];
    let summary = run_regression_suite(&scenarios);
    assert!(summary.cases[0].passed);
    assert_eq!(summary.cases[0].actual_failure_class.as_deref(), Some("runtime-failure"));
}

#[test]
fn empty_payload_classifies_as_empty_input() {
    let s = FailureScenario {
        seed_id: 4,
        input_payload: String::new(),
        mode: "m".into(),
        failure_class: "empty-input".into(),
    };
    let c = evaluate_scenario_payload(&s, "");
    assert!(c.passed);
    assert_eq!(c.mode, "m");
    assert_eq!(c.seed_id, 4);
}
