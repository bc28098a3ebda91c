//! Evaluation of regression suites of [`FailureScenario`]s: each scenario's
//! payload is decoded from hex and re-classified, and the category is compared
//! with the expected failure class.
//!
//! Parsing a suite from JSON is left to the serialization layer, which hands
//! the scenarios to [`run_regression_suite`].
use vstd::prelude::*;
use vstd::string::StringExecFns;
use vstd::utf8::{encode_utf8, is_ascii_chars, is_ascii_chars_encode_utf8};

use crate::scenario_export::{
    spec_hex_byte, spec_hex_digit, spec_hex_encode, spec_scenario, FailureScenario, ScenarioView,
};
use crate::text::{spec_is_ascii_alnum, spec_trim, str_trim};
use crate::{classify, spec_category, spec_classify, BundleView, CaseSeed};

verus! {

/// Outcome for one scenario after replay.
#[derive(Debug, PartialEq, Eq)]
pub struct RegressionCaseResult {
    pub seed_id: u64,
    /// Execution mode from the suite file (informational).
    pub mode: String,
    pub expected_failure_class: String,
    /// Present when classification ran; absent when the payload hex was invalid.
    pub actual_failure_class: Option<String>,
    pub passed: bool,
    /// Set when the scenario could not be executed (e.g. invalid hex).
    pub error: Option<String>,
}

/// The mathematical value of a [`RegressionCaseResult`].
pub struct CaseResultView {
    pub seed_id: u64,
    pub mode: Seq<char>,
    pub expected_failure_class: Seq<char>,
    pub actual_failure_class: Option<Seq<char>>,
    pub passed: bool,
    pub error: Option<Seq<char>>,
}

/// The view of an optional string.
pub open spec fn opt_string_view(s: Option<String>) -> Option<Seq<char>> {
    match s {
        Some(x) => Some(x@),
        None => None,
    }
}

impl View for RegressionCaseResult {
    type V = CaseResultView;

    open spec fn view(&self) -> CaseResultView {
        CaseResultView {
            seed_id: self.seed_id,
            mode: self.mode@,
            expected_failure_class: self.expected_failure_class@,
            actual_failure_class: opt_string_view(self.actual_failure_class),
            passed: self.passed,
            error: opt_string_view(self.error),
        }
    }
}

/// Aggregated pass/fail summary for a full suite run.
#[derive(Debug, PartialEq, Eq)]
pub struct RegressionSuiteSummary {
    pub total: usize,
    pub passed: usize,
    pub failed: usize,
    pub cases: Vec<RegressionCaseResult>,
}

/// The views of a sequence of case results.
pub open spec fn spec_case_views(cases: Seq<RegressionCaseResult>) -> Seq<CaseResultView> {
    cases.map_values(|c: RegressionCaseResult| c@)
}

impl RegressionSuiteSummary {
    /// A suite passes when it ran at least one scenario and none failed.
    pub fn all_passed(&self) -> (r: bool)
        ensures
            r == (self.failed == 0 && self.total > 0),
    {
        self.failed == 0 && self.total > 0
    }
}

/// An ASCII hex digit byte: `0`-`9`, `A`-`F` or `a`-`f`.
pub open spec fn spec_is_hex_byte(b: u8) -> bool {
    (48 <= b && b <= 57) || (65 <= b && b <= 70) || (97 <= b && b <= 102)
}

/// The value of a hex digit byte.
pub open spec fn spec_hex_value(b: u8) -> int {
    if b <= 57 {
        b - 48
    } else if b <= 70 {
        b - 55
    } else {
        b - 87
    }
}

/// Text that decodes as hex: an even number of hex digit bytes.
pub open spec fn spec_hex_decodable(text: Seq<u8>) -> bool {
    &&& text.len() % 2 == 0
    &&& forall|i: int| 0 <= i < text.len() ==> spec_is_hex_byte(#[trigger] text[i])
}

/// The bytes that hex text decodes to: one per pair of digits, high digit first.
pub open spec fn spec_hex_decode(text: Seq<u8>) -> Seq<u8> {
    Seq::new(
        (text.len() / 2) as nat,
        |i: int| (spec_hex_value(text[2 * i]) * 16 + spec_hex_value(text[2 * i + 1])) as u8,
    )
}

/// What the error of `hex::decode` displays for text that does not decode.
pub uninterp spec fn spec_hex_decode_error_text(text: Seq<u8>) -> Seq<char>;

/// Decodes hex text.
///
/// Calls `hex::decode` and turns its error into the error's display text. Its
/// contract claims what that crate's source shows: the text decodes exactly when
/// it has an even number of bytes, all hex digits of either case, each pair
/// giving one byte, high digit first; an odd length displays as
/// "Odd number of digits"; otherwise the error text is the named value
/// `spec_hex_decode_error_text` of the input.
#[verifier::external_body]
fn hex_decode(data: &[u8]) -> (r: Result<Vec<u8>, String>)
    ensures
        match r {
            Ok(v) => spec_hex_decodable(data@) && v@ == spec_hex_decode(data@),
            Err(t) => {
                &&& !spec_hex_decodable(data@)
                &&& t@ == spec_hex_decode_error_text(data@)
                &&& data@.len() % 2 == 1 ==> t@ == "Odd number of digits"@
            },
        },
{
    match hex::decode(data) {
        Ok(v) => Ok(v),
        Err(e) => Err(e.to_string()),
    }
}

/// The outcome of a scenario once its payload text has been trimmed.
pub open spec fn spec_evaluate_payload(s: ScenarioView, payload_text: Seq<char>) -> CaseResultView {
    let bytes = encode_utf8(payload_text);
    if spec_hex_decodable(bytes) {
        let actual = spec_category(spec_hex_decode(bytes));
        CaseResultView {
            seed_id: s.seed_id,
            mode: s.mode,
            expected_failure_class: s.failure_class,
            actual_failure_class: Some(actual),
            passed: actual == s.failure_class,
            error: None,
        }
    } else {
        CaseResultView {
            seed_id: s.seed_id,
            mode: s.mode,
            expected_failure_class: s.failure_class,
            actual_failure_class: None,
            passed: false,
            error: Some("invalid input_payload hex: "@ + spec_hex_decode_error_text(bytes)),
        }
    }
}

/// The outcome of a scenario: its payload text is trimmed, decoded from hex and
/// classified.
pub open spec fn spec_evaluate(s: ScenarioView) -> CaseResultView {
    spec_evaluate_payload(s, spec_trim(s.input_payload))
}

/// Evaluates `s` with `payload_text` as its (trimmed) hex payload: decodes it,
/// classifies the seed and compares the category with the expected class; a
/// payload that is not hex fails the scenario with an error.
pub fn evaluate_scenario_payload(s: &FailureScenario, payload_text: &str) -> (r:
    RegressionCaseResult)
    ensures
        r@ == spec_evaluate_payload(s@, payload_text@),
{
    match hex_decode(payload_text.as_bytes()) {
        Err(e) => {
            let mut msg = String::from_str("invalid input_payload hex: ");
            msg.append(e.as_str());
            RegressionCaseResult {
                seed_id: s.seed_id,
                mode: s.mode.clone(),
                expected_failure_class: s.failure_class.clone(),
                actual_failure_class: None,
                passed: false,
                error: Some(msg),
            }
        },
        Ok(payload) => {
            let seed = CaseSeed { id: s.seed_id, payload };
            let actual = classify(&seed);
            let passed = actual.category == s.failure_class;
            RegressionCaseResult {
                seed_id: s.seed_id,
                mode: s.mode.clone(),
                expected_failure_class: s.failure_class.clone(),
                actual_failure_class: Some(actual.category),
                passed,
                error: None,
            }
        },
    }
}

/// Evaluates one scenario: trims its payload text, then decodes and classifies it.
fn evaluate_scenario(s: &FailureScenario) -> (r: RegressionCaseResult)
    ensures
        r@ == spec_evaluate(s@),
        spec_trim_keeps(s@.input_payload) ==> r@ == spec_evaluate_payload(s@, s@.input_payload),
{
    let text = str_trim(s.input_payload.as_str());
    proof {
        if spec_trim_keeps(s@.input_payload) {
            crate::text::lemma_trim_keeps_alnum_ends(s@.input_payload);
        }
    }
    evaluate_scenario_payload(s, text)
}

/// The number of passed cases.
pub open spec fn spec_count_passed(cases: Seq<CaseResultView>) -> nat
    decreases cases.len(),
{
    if cases.len() == 0 {
        0
    } else {
        spec_count_passed(cases.drop_last()) + if cases.last().passed {
            1nat
        } else {
            0nat
        }
    }
}

/// The evaluation of each scenario, in order.
pub open spec fn spec_evaluate_all(scenarios: Seq<FailureScenario>) -> Seq<CaseResultView> {
    scenarios.map_values(|s: FailureScenario| spec_evaluate(s@))
}

proof fn lemma_count_passed_bound(cases: Seq<CaseResultView>)
    ensures
        spec_count_passed(cases) <= cases.len(),
    decreases cases.len(),
{
    if cases.len() > 0 {
        lemma_count_passed_bound(cases.drop_last());
    }
}

/// Classifies each scenario's seed and compares its category with the
/// expected failure class; counts the cases that passed and failed.
pub fn run_regression_suite(scenarios: &[FailureScenario]) -> (r: RegressionSuiteSummary)
    ensures
        spec_case_views(r.cases@) == spec_evaluate_all(scenarios@),
        r.total == scenarios@.len(),
        r.passed == spec_count_passed(spec_evaluate_all(scenarios@)),
        r.failed == r.total - r.passed,
        forall|i: int|
            0 <= i < scenarios@.len() && spec_trim_keeps(scenarios@[i]@.input_payload) ==> (
            #[trigger] spec_case_views(r.cases@)[i]) == spec_evaluate_payload(
                scenarios@[i]@,
                scenarios@[i]@.input_payload,
            ),
{
    let ghost all = spec_evaluate_all(scenarios@);
    let mut cases: Vec<RegressionCaseResult> = Vec::new();
    let mut passed_n: usize = 0;
    let mut i: usize = 0;
    while i < scenarios.len()
        invariant
            i <= scenarios@.len(),
            all == spec_evaluate_all(scenarios@),
            spec_case_views(cases@) == all.subrange(0, i as int),
            passed_n == spec_count_passed(all.subrange(0, i as int)),
            passed_n <= i,
            forall|k: int|
                0 <= k < i && spec_trim_keeps(scenarios@[k]@.input_payload) ==> (
                #[trigger] spec_case_views(cases@)[k]) == spec_evaluate_payload(
                    scenarios@[k]@,
                    scenarios@[k]@.input_payload,
                ),
        decreases scenarios@.len() - i,
    {
        let c = evaluate_scenario(&scenarios[i]);
        proof {
            let next = all.subrange(0, i + 1);
            assert(next.drop_last() =~= all.subrange(0, i as int));
            assert(next.last() == c@);
        }
        if c.passed {
            passed_n = passed_n + 1;
        }
        let ghost before = cases@;
        cases.push(c);
        assert(spec_case_views(cases@) =~= all.subrange(0, i + 1));
        i = i + 1;
    }
    assert(all.subrange(0, i as int) =~= all);
    let total = cases.len();
    RegressionSuiteSummary { total, passed: passed_n, failed: total - passed_n, cases }
}

/// Every case passed exactly when the number of passed cases is the number of
/// cases; so [`RegressionSuiteSummary::all_passed`] holds of a run exactly when
/// it ran at least one scenario and each one passed.
pub proof fn law_all_passed_iff_every_case_passed(cases: Seq<CaseResultView>)
    ensures
        (spec_count_passed(cases) == cases.len()) <==> (forall|i: int|
            0 <= i < cases.len() ==> (#[trigger] cases[i]).passed),
    decreases cases.len(),
{
    if cases.len() > 0 {
        let init = cases.drop_last();
        law_all_passed_iff_every_case_passed(init);
        lemma_count_passed_bound(init);
        if spec_count_passed(cases) == cases.len() {
            assert forall|i: int| 0 <= i < cases.len() implies (#[trigger] cases[i]).passed by {
                if i < cases.len() - 1 {
                    assert(init[i] == cases[i]);
                }
            }
        }
        if forall|i: int| 0 <= i < cases.len() ==> (#[trigger] cases[i]).passed {
            assert forall|i: int| 0 <= i < init.len() implies (#[trigger] init[i]).passed by {
                assert(init[i] == cases[i]);
            }
            assert(cases[cases.len() - 1].passed);
        }
    }
}

/// Facts about the hex text of `p`: its length and its digits.
proof fn lemma_hex_encode_shape(p: Seq<u8>)
    ensures
        spec_hex_encode(p).len() == 2 * p.len(),
        forall|i: int|
            #![trigger p[i]]
            0 <= i < p.len() ==> spec_hex_encode(p)[2 * i] == spec_hex_digit(p[i] / 16)
                && spec_hex_encode(p)[2 * i + 1] == spec_hex_digit(p[i] % 16),
    decreases p.len(),
{
    if p.len() > 0 {
        let init = p.drop_last();
        lemma_hex_encode_shape(init);
        let e = spec_hex_encode(p);
        assert(e == spec_hex_encode(init) + spec_hex_byte(p.last()));
        assert forall|i: int| #![trigger p[i]] 0 <= i < p.len() implies e[2 * i] == spec_hex_digit(
            p[i] / 16,
        ) && e[2 * i + 1] == spec_hex_digit(p[i] % 16) by {
            if i < p.len() - 1 {
                assert(init[i] == p[i]);
                assert(spec_hex_encode(init)[2 * i] == spec_hex_digit(init[i] / 16));
            }
        }
    }
}

/// Hex text decodes back to the bytes it encodes.
pub proof fn lemma_hex_round_trip(p: Seq<u8>)
    ensures
        spec_hex_decodable(encode_utf8(spec_hex_encode(p))),
        spec_hex_decode(encode_utf8(spec_hex_encode(p))) == p,
{
    let e = spec_hex_encode(p);
    lemma_hex_encode_shape(p);
    assert forall|j: int| 0 <= j < e.len() implies ('\0' <= #[trigger] e[j] && e[j] <= '\u{7f}')
        && (e[j] as u8 == 48 + (e[j] as u8 - 48)) && spec_is_hex_byte(e[j] as u8) by {
        let i = j / 2;
        assert(j == 2 * i || j == 2 * i + 1);
        if j == 2 * i {
            assert(e[2 * i] == spec_hex_digit(p[i] / 16));
        } else {
            assert(e[2 * i] == spec_hex_digit(p[i] / 16));
            assert(e[2 * i + 1] == spec_hex_digit(p[i] % 16));
        }
    }
    assert(is_ascii_chars(e));
    is_ascii_chars_encode_utf8(e);
    let t = encode_utf8(e);
    assert forall|i: int| 0 <= i < t.len() implies spec_is_hex_byte(#[trigger] t[i]) by {
        assert(t[i] == e[i] as u8);
    }
    let d = spec_hex_decode(t);
    assert forall|i: int| 0 <= i < p.len() implies #[trigger] d[i] == p[i] by {
        assert(e[2 * i] == spec_hex_digit(p[i] / 16));
        assert(t[2 * i] == e[2 * i] as u8);
        assert(t[2 * i + 1] == e[2 * i + 1] as u8);
        assert(spec_hex_value(t[2 * i]) == p[i] / 16);
        assert(spec_hex_value(t[2 * i + 1]) == p[i] % 16);
    }
    assert(d =~= p);
}

/// Text that `str::trim` leaves as it is: empty, or starting and ending with an
/// ASCII letter or digit.
pub open spec fn spec_trim_keeps(t: Seq<char>) -> bool {
    t.len() == 0 || (spec_is_ascii_alnum(t[0]) && spec_is_ascii_alnum(t.last()))
}

/// Hex text is left as it is by trimming.
proof fn lemma_hex_text_trim_keeps(p: Seq<u8>)
    ensures
        spec_trim_keeps(spec_hex_encode(p)),
{
    let text = spec_hex_encode(p);
    lemma_hex_encode_shape(p);
    if text.len() > 0 {
        assert(text[0] == spec_hex_digit(p[0] / 16));
        assert(text[2 * (p.len() - 1)] == spec_hex_digit(p[p.len() - 1] / 16));
        assert(text[2 * (p.len() - 1) + 1] == spec_hex_digit(p[p.len() - 1] % 16));
        assert(text.last() == text[2 * (p.len() - 1) + 1]);
    }
}

/// A scenario exported from a bundle whose signature is the classification of
/// its seed passes when evaluated: its hex payload is left as it is by trimming,
/// decodes to the seed payload, and classifies to the exported failure class.
pub proof fn law_exported_scenario_passes(bundle: BundleView, mode: Seq<char>)
    requires
        bundle.signature == spec_classify(bundle.seed),
    ensures
        spec_trim_keeps(spec_scenario(bundle, mode).input_payload),
        spec_evaluate_payload(spec_scenario(bundle, mode), spec_scenario(bundle, mode).input_payload).passed,
        spec_evaluate_payload(spec_scenario(bundle, mode), spec_scenario(bundle, mode).input_payload).error is None,
        spec_evaluate_payload(spec_scenario(bundle, mode), spec_scenario(bundle, mode).input_payload).actual_failure_class
            == Some(bundle.signature.category),
{
    let p = bundle.seed.payload;
    lemma_hex_text_trim_keeps(p);
    lemma_hex_round_trip(p);
    assert(spec_category(p) == bundle.signature.category);
}

} // verus!
