//! Failure scenarios for cross-tool reuse, Markdown crash reports and Rust
//! regression fixtures, all built from failing bundles.
//!
//! JSON rendering of scenarios is left to the serialization layer; this module
//! decides what a scenario holds and in which order a suite lists them.
use vstd::prelude::*;
use vstd::string::StringExecFns;
use vstd::string::StrSliceExecFns;
use vstd::utf8::encode_utf8;

use crate::order::{
    key_view, lemma_permutation_multiset, lemma_sorted_unique, lemma_stable_order_is_permutation,
    lemma_stable_order_sorts, spec_is_permutation, spec_is_stable_order, spec_pick_in_order,
    stable_order,
};
use crate::text::{push_decimal, spec_decimal, spec_str_debug, str_debug, string_push};
use crate::{BundleView, CaseBundle};

verus! {

/// Normalized scenario for cross-tool reuse: everything needed to reproduce a
/// failing case.
#[derive(Debug, PartialEq, Eq)]
pub struct FailureScenario {
    /// Unique identifier for the seed that produced this failure.
    pub seed_id: u64,
    /// Input payload as a lowercase hex string.
    pub input_payload: String,
    /// Execution mode or context (e.g. "invoker", "contract", "none").
    pub mode: String,
    /// Expected failure classification (e.g. "runtime-failure", "empty-input").
    pub failure_class: String,
}

/// The mathematical value of a [`FailureScenario`].
pub struct ScenarioView {
    pub seed_id: u64,
    pub input_payload: Seq<char>,
    pub mode: Seq<char>,
    pub failure_class: Seq<char>,
}

impl View for FailureScenario {
    type V = ScenarioView;

    open spec fn view(&self) -> ScenarioView {
        ScenarioView {
            seed_id: self.seed_id,
            input_payload: self.input_payload@,
            mode: self.mode@,
            failure_class: self.failure_class@,
        }
    }
}

impl Clone for FailureScenario {
    fn clone(&self) -> (r: Self)
        ensures
            r@ == self@,
    {
        FailureScenario {
            seed_id: self.seed_id,
            input_payload: self.input_payload.clone(),
            mode: self.mode.clone(),
            failure_class: self.failure_class.clone(),
        }
    }
}

/// Lowercase hex digit of a nibble `n < 16`.
pub open spec fn spec_hex_digit(n: u8) -> char {
    if n < 10 {
        (48 + n) as char
    } else {
        (87 + n) as char
    }
}

/// The two lowercase hex digits of a byte, high nibble first.
pub open spec fn spec_hex_byte(b: u8) -> Seq<char> {
    seq![spec_hex_digit(b / 16), spec_hex_digit(b % 16)]
}

/// Lowercase hex encoding: two digits per byte, in order.
pub open spec fn spec_hex_encode(bytes: Seq<u8>) -> Seq<char>
    decreases bytes.len(),
{
    if bytes.len() == 0 {
        Seq::empty()
    } else {
        spec_hex_encode(bytes.drop_last()) + spec_hex_byte(bytes.last())
    }
}

/// Hex encoding of `data`.
///
/// Calls `hex::encode`; its contract claims what that crate documents and its
/// source does: each byte becomes two lowercase hex digits, high nibble first.
#[verifier::external_body]
fn hex_encode(data: &[u8]) -> (r: String)
    ensures
        r@ == spec_hex_encode(data@),
{
    hex::encode(data)
}

/// The scenario that [`FailureScenario::from_bundle`] builds.
pub open spec fn spec_scenario(bundle: BundleView, mode: Seq<char>) -> ScenarioView {
    ScenarioView {
        seed_id: bundle.seed.id,
        input_payload: spec_hex_encode(bundle.seed.payload),
        mode: mode,
        failure_class: bundle.signature.category,
    }
}

impl FailureScenario {
    /// Creates a scenario from a bundle: its seed ID, its payload in hex, the
    /// given mode, and the bundle's failure category.
    pub fn from_bundle(bundle: &CaseBundle, mode: &str) -> (r: Self)
        ensures
            r@ == spec_scenario(bundle@, mode@),
    {
        FailureScenario {
            seed_id: bundle.seed.id,
            input_payload: hex_encode(bundle.seed.payload.as_slice()),
            mode: mode.to_owned(),
            failure_class: bundle.signature.category.clone(),
        }
    }
}

/// The ordering key of a scenario in a suite: seed ID, then the failure class
/// compared byte by byte (as `String` ordering compares).
pub open spec fn spec_scenario_key(s: ScenarioView) -> (u64, u64, Seq<u8>) {
    (s.seed_id, 0, encode_utf8(s.failure_class))
}

/// The views of a sequence of bundles.
pub open spec fn spec_bundle_views(bundles: Seq<CaseBundle>) -> Seq<BundleView> {
    bundles.map_values(|b: CaseBundle| b@)
}

/// The views of a sequence of scenarios.
pub open spec fn spec_scenario_views(s: Seq<FailureScenario>) -> Seq<ScenarioView> {
    s.map_values(|x: FailureScenario| x@)
}

/// The scenarios of a suite as listed: those of `bundles` in the order `order`.
pub open spec fn spec_suite_in_order(
    bundles: Seq<BundleView>,
    mode: Seq<char>,
    order: Seq<usize>,
) -> Seq<ScenarioView> {
    order.map_values(|i: usize| spec_scenario(bundles[i as int], mode))
}

/// The keys by which a suite of `bundles` is ordered.
pub open spec fn spec_suite_keys(bundles: Seq<BundleView>, mode: Seq<char>) -> Seq<(u64, u64, Seq<u8>)> {
    bundles.map_values(|b: BundleView| spec_scenario_key(spec_scenario(b, mode)))
}

/// The scenarios of a suite exported from `bundles`, sorted by
/// `(seed_id, failure_class)` with ties kept in input order, so that the same
/// bundle set gives the same suite whatever order it was collected in.
pub fn suite_scenarios(bundles: &[CaseBundle], mode: &str) -> (r: Vec<FailureScenario>)
    ensures
        exists|order: Seq<usize>|
            {
                &&& #[trigger] spec_is_stable_order(
                    spec_suite_keys(spec_bundle_views(bundles@), mode@),
                    order,
                )
                &&& spec_scenario_views(r@) == spec_suite_in_order(
                    spec_bundle_views(bundles@),
                    mode@,
                    order,
                )
            },
{
    let ghost bv = spec_bundle_views(bundles@);
    let mut keys: Vec<(u64, u64, Vec<u8>)> = Vec::new();
    let mut i: usize = 0;
    while i < bundles.len()
        invariant
            i <= bundles@.len(),
            bv == spec_bundle_views(bundles@),
            keys@.len() == i,
            forall|k: int|
                0 <= k < i ==> key_view(#[trigger] keys@[k]) == spec_scenario_key(
                    spec_scenario(bv[k], mode@),
                ),
        decreases bundles@.len() - i,
    {
        let b = &bundles[i];
        let class_bytes = b.signature.category.as_str().as_bytes_vec();
        keys.push((b.seed.id, 0, class_bytes));
        i = i + 1;
    }
    let ghost kv = keys@.map_values(|k: (u64, u64, Vec<u8>)| key_view(k));
    assert(kv =~= spec_suite_keys(bv, mode@));
    let order = stable_order(&keys);
    let mut out: Vec<FailureScenario> = Vec::new();
    let mut j: usize = 0;
    while j < order.len()
        invariant
            j <= order@.len(),
            bv == spec_bundle_views(bundles@),
            spec_is_stable_order(kv, order@),
            kv.len() == bundles@.len(),
            out@.len() == j,
            forall|k: int|
                0 <= k < j ==> (#[trigger] out@[k])@ == spec_scenario(
                    bv[order@[k] as int],
                    mode@,
                ),
        decreases order@.len() - j,
    {
        let idx = order[j];
        assert(order@[j as int] < kv.len());
        out.push(FailureScenario::from_bundle(&bundles[idx], mode));
        j = j + 1;
    }
    assert(spec_scenario_views(out@) =~= spec_suite_in_order(bv, mode@, order@));
    out
}

/// The Markdown crash report for `bundle`: signature context, seed and the
/// replay command.
pub open spec fn spec_crash_report_markdown(
    bundle: BundleView,
    mode: Seq<char>,
    replay_command: Seq<char>,
) -> Seq<char> {
    "# Crash Report\n\n## Signature Context\n- Category: `"@ + bundle.signature.category
        + "`\n- Digest: `"@ + spec_decimal(bundle.signature.digest as nat)
        + "`\n- Signature Hash: `"@ + spec_decimal(bundle.signature.signature_hash as nat)
        + "`\n- Mode: `"@ + mode + "`\n\n## Seed\n- Seed ID: `"@ + spec_decimal(
        bundle.seed.id as nat,
    ) + "`\n- Payload (hex): `"@ + spec_hex_encode(bundle.seed.payload)
        + "`\n\n## Replay Command\n```bash\n"@ + replay_command + "\n```\n"@
}

/// Exports a crash report in Markdown for issue attachments, with the
/// signature context and a replay command section.
pub fn export_crash_report_markdown(bundle: &CaseBundle, mode: &str, replay_command: &str) -> (r:
    String)
    ensures
        r@ == spec_crash_report_markdown(bundle@, mode@, replay_command@),
{
    let payload_hex = hex_encode(bundle.seed.payload.as_slice());
    let mut s = String::from_str("# Crash Report\n\n## Signature Context\n- Category: `");
    s.append(bundle.signature.category.as_str());
    s.append("`\n- Digest: `");
    push_decimal(&mut s, bundle.signature.digest);
    s.append("`\n- Signature Hash: `");
    push_decimal(&mut s, bundle.signature.signature_hash);
    s.append("`\n- Mode: `");
    s.append(mode);
    s.append("`\n\n## Seed\n- Seed ID: `");
    push_decimal(&mut s, bundle.seed.id);
    s.append("`\n- Payload (hex): `");
    s.append(payload_hex.as_str());
    s.append("`\n\n## Replay Command\n```bash\n");
    s.append(replay_command);
    s.append("\n```\n");
    s
}

/// A character that may start a Rust identifier here: `_` or an ASCII letter.
pub open spec fn spec_is_ident_start(c: char) -> bool {
    c == '_' || ('a' <= c && c <= 'z') || ('A' <= c && c <= 'Z')
}

/// A character that may continue a Rust identifier here: `_` or an ASCII letter or digit.
pub open spec fn spec_is_ident_continue(c: char) -> bool {
    spec_is_ident_start(c) || ('0' <= c && c <= '9')
}

/// A non-empty ASCII Rust identifier.
pub open spec fn spec_is_valid_rust_ident(s: Seq<char>) -> bool {
    &&& s.len() > 0
    &&& spec_is_ident_start(s[0])
    &&& forall|i: int| 1 <= i < s.len() ==> spec_is_ident_continue(#[trigger] s[i])
}

/// Whether `name` is a non-empty ASCII Rust identifier.
fn is_valid_rust_ident(name: &str) -> (r: bool)
    ensures
        r == spec_is_valid_rust_ident(name@),
{
    let n = name.unicode_len();
    if n == 0 {
        return false;
    }
    let first = name.get_char(0);
    if !(first == '_' || ('a' <= first && first <= 'z') || ('A' <= first && first <= 'Z')) {
        return false;
    }
    let mut i: usize = 1;
    while i < n
        invariant
            1 <= i <= n,
            n == name@.len(),
            forall|k: int| 1 <= k < i ==> spec_is_ident_continue(#[trigger] name@[k]),
        decreases n - i,
    {
        let c = name.get_char(i);
        if !(c == '_' || ('a' <= c && c <= 'z') || ('A' <= c && c <= 'Z') || ('0' <= c && c
            <= '9')) {
            return false;
        }
        i = i + 1;
    }
    true
}

/// The bytes as Rust literals `0x..`, separated by `", "`.
pub open spec fn spec_byte_literals(bytes: Seq<u8>) -> Seq<char>
    decreases bytes.len(),
{
    if bytes.len() == 0 {
        Seq::empty()
    } else if bytes.len() == 1 {
        "0x"@ + spec_hex_byte(bytes[0])
    } else {
        spec_byte_literals(bytes.drop_last()) + ", 0x"@ + spec_hex_byte(bytes.last())
    }
}

/// Appends the two lowercase hex digits of `b`.
fn push_hex_byte(s: &mut String, b: u8)
    ensures
        final(s)@ == old(s)@ + spec_hex_byte(b),
{
    let hi = b / 16;
    let lo = b % 16;
    let hc = if hi < 10 { (48 + hi) as char } else { (87 + hi) as char };
    let lc = if lo < 10 { (48 + lo) as char } else { (87 + lo) as char };
    string_push(s, hc);
    string_push(s, lc);
    assert(s@ =~= old(s)@ + spec_hex_byte(b));
}

/// Appends the byte literals of `bytes`.
fn push_byte_literals(s: &mut String, bytes: &[u8])
    ensures
        final(s)@ == old(s)@ + spec_byte_literals(bytes@),
{
    let mut i: usize = 0;
    while i < bytes.len()
        invariant
            i <= bytes@.len(),
            s@ == old(s)@ + spec_byte_literals(bytes@.subrange(0, i as int)),
        decreases bytes@.len() - i,
    {
        let ghost before = s@;
        if i == 0 {
            s.append("0x");
        } else {
            s.append(", 0x");
        }
        push_hex_byte(s, bytes[i]);
        proof {
            let pre = bytes@.subrange(0, i as int);
            let next = bytes@.subrange(0, i + 1);
            assert(next.drop_last() =~= pre);
            assert(next.last() == bytes@[i as int]);
            if i == 0 {
                assert(next.len() == 1);
                assert(next[0] == bytes@[0]);
                assert(pre =~= Seq::<u8>::empty());
            }
            assert(s@ =~= old(s)@ + spec_byte_literals(next));
        }
        i = i + 1;
    }
    assert(bytes@.subrange(0, bytes@.len() as int) =~= bytes@);
}

/// The message of a refused test name.
pub open spec fn spec_invalid_test_name_message() -> Seq<char> {
    "invalid test name: must be a non-empty Rust identifier (a-z, A-Z, 0-9, _)"@
}

/// The Rust regression test that replays `bundle`, named `test_name`.
pub open spec fn spec_rust_regression_test_fn(bundle: BundleView, test_name: Seq<char>) -> Seq<char> {
    let category = spec_str_debug(bundle.signature.category);
    let digest = spec_decimal(bundle.signature.digest as nat);
    let hash = spec_decimal(bundle.signature.signature_hash as nat);
    "#[test]\nfn "@ + test_name
        + "() {\n    use crashlab_core::{replay_seed_bundle, CaseBundle, CaseSeed, CrashSignature};\n\n    let bundle = CaseBundle {\n        seed: CaseSeed {\n            id: "@
        + spec_decimal(bundle.seed.id as nat) + ",\n            payload: vec!["@
        + spec_byte_literals(bundle.seed.payload)
        + "],\n        },\n        signature: CrashSignature {\n            category: "@ + category
        + ".to_string(),\n            digest: "@ + digest + ",\n            signature_hash: "@ + hash
        + ",\n        },\n        environment: None,\n        failure_payload: vec![],\n        rpc_envelope: None,\n    };\n\n    let result = replay_seed_bundle(&bundle);\n    assert_eq!(result.actual.category, "@
        + category + ");\n    assert_eq!(result.actual.digest, "@ + digest
        + ");\n    assert_eq!(result.actual.signature_hash, "@ + hash
        + ");\n    assert!(result.matches, \"replay should match exported failing bundle signature\");\n}\n"@
}

/// What the fixture export gives: the test function, or the refusal of a name
/// that is not a Rust identifier.
pub open spec fn spec_rust_regression_fixture(bundle: BundleView, test_name: Seq<char>) -> Result<
    Seq<char>,
    Seq<char>,
> {
    if spec_is_valid_rust_ident(test_name) {
        Ok(spec_rust_regression_test_fn(bundle, test_name))
    } else {
        Err(spec_invalid_test_name_message())
    }
}

/// The view of a result of strings.
pub open spec fn spec_string_result(r: Result<String, String>) -> Result<Seq<char>, Seq<char>> {
    match r {
        Ok(s) => Ok(s@),
        Err(e) => Err(e@),
    }
}

/// Builds a single `#[test] fn ... { ... }` regression block for `bundle`.
pub(crate) fn format_rust_regression_test_fn(bundle: &CaseBundle, test_name: &str) -> (r: Result<
    String,
    String,
>)
    ensures
        spec_string_result(r) == spec_rust_regression_fixture(bundle@, test_name@),
{
    if !is_valid_rust_ident(test_name) {
        return Err(
            String::from_str(
                "invalid test name: must be a non-empty Rust identifier (a-z, A-Z, 0-9, _)",
            ),
        );
    }
    let category = str_debug(bundle.signature.category.as_str());
    let mut s = String::from_str("#[test]\nfn ");
    s.append(test_name);
    s.append(
        "() {\n    use crashlab_core::{replay_seed_bundle, CaseBundle, CaseSeed, CrashSignature};\n\n    let bundle = CaseBundle {\n        seed: CaseSeed {\n            id: ",
    );
    push_decimal(&mut s, bundle.seed.id);
    s.append(",\n            payload: vec![");
    push_byte_literals(&mut s, bundle.seed.payload.as_slice());
    s.append("],\n        },\n        signature: CrashSignature {\n            category: ");
    s.append(category.as_str());
    s.append(".to_string(),\n            digest: ");
    push_decimal(&mut s, bundle.signature.digest);
    s.append(",\n            signature_hash: ");
    push_decimal(&mut s, bundle.signature.signature_hash);
    s.append(
        ",\n        },\n        environment: None,\n        failure_payload: vec![],\n        rpc_envelope: None,\n    };\n\n    let result = replay_seed_bundle(&bundle);\n    assert_eq!(result.actual.category, ",
    );
    s.append(category.as_str());
    s.append(");\n    assert_eq!(result.actual.digest, ");
    push_decimal(&mut s, bundle.signature.digest);
    s.append(");\n    assert_eq!(result.actual.signature_hash, ");
    push_decimal(&mut s, bundle.signature.signature_hash);
    s.append(
        ");\n    assert!(result.matches, \"replay should match exported failing bundle signature\");\n}\n",
    );
    Ok(s)
}

/// Exports a failing bundle as a deterministic Rust regression test snippet,
/// for an integration test harness that depends on `crashlab-core`.
pub fn export_rust_regression_fixture(bundle: &CaseBundle, test_name: &str) -> (r: Result<
    String,
    String,
>)
    ensures
        spec_string_result(r) == spec_rust_regression_fixture(bundle@, test_name@),
{
    format_rust_regression_test_fn(bundle, test_name)
}

/// The scenarios of `bundles`, in input order.
pub open spec fn spec_scenarios_of(bundles: Seq<BundleView>, mode: Seq<char>) -> Seq<ScenarioView> {
    bundles.map_values(|b: BundleView| spec_scenario(b, mode))
}

/// A suite export does not depend on the order in which the bundles were
/// collected: exporting `bundles` and exporting any reordering of them list the
/// same scenarios in the same order, provided that bundles whose scenarios share
/// a seed ID and failure class give the same scenario.
pub proof fn law_suite_independent_of_input_order(
    bundles: Seq<BundleView>,
    reorder: Seq<usize>,
    mode: Seq<char>,
    order_a: Seq<usize>,
    order_b: Seq<usize>,
)
    requires
        bundles.len() <= usize::MAX,
        spec_is_permutation(reorder, bundles.len()),
        spec_is_stable_order(spec_suite_keys(bundles, mode), order_a),
        spec_is_stable_order(spec_suite_keys(spec_pick_in_order(bundles, reorder), mode), order_b),
        forall|i: int, j: int|
            0 <= i < bundles.len() && 0 <= j < bundles.len() && spec_scenario_key(
                #[trigger] spec_scenario(bundles[i], mode),
            ) == spec_scenario_key(#[trigger] spec_scenario(bundles[j], mode)) ==> spec_scenario(
                bundles[i],
                mode,
            ) == spec_scenario(bundles[j], mode),
    ensures
        spec_suite_in_order(bundles, mode, order_a) == spec_suite_in_order(
            spec_pick_in_order(bundles, reorder),
            mode,
            order_b,
        ),
{
    let key = |s: ScenarioView| spec_scenario_key(s);
    let other = spec_pick_in_order(bundles, reorder);
    let sa = spec_scenarios_of(bundles, mode);
    let sb = spec_scenarios_of(other, mode);
    assert(sb =~= spec_pick_in_order(sa, reorder));
    assert(sa.map_values(|x: ScenarioView| key(x)) =~= spec_suite_keys(bundles, mode));
    assert(sb.map_values(|x: ScenarioView| key(x)) =~= spec_suite_keys(other, mode));
    let ra = spec_pick_in_order(sa, order_a);
    let rb = spec_pick_in_order(sb, order_b);
    assert(ra =~= spec_suite_in_order(bundles, mode, order_a));
    assert(rb =~= spec_suite_in_order(other, mode, order_b));
    lemma_stable_order_sorts(sa, key, order_a);
    lemma_stable_order_sorts(sb, key, order_b);
    lemma_stable_order_is_permutation(spec_suite_keys(bundles, mode), order_a);
    lemma_stable_order_is_permutation(spec_suite_keys(other, mode), order_b);
    lemma_permutation_multiset(sa, order_a);
    lemma_permutation_multiset(sb, order_b);
    lemma_permutation_multiset(sa, reorder);
    assert forall|x: ScenarioView, y: ScenarioView|
        ra.contains(x) && ra.contains(y) && key(x) == key(y) implies x == y by {
        let p = choose|p: int| 0 <= p < ra.len() && ra[p] == x;
        let q = choose|q: int| 0 <= q < ra.len() && ra[q] == y;
        let i = order_a[p] as int;
        let j = order_a[q] as int;
        assert(x == spec_scenario(bundles[i], mode));
        assert(y == spec_scenario(bundles[j], mode));
    }
    lemma_sorted_unique(ra, rb, key);
}

/// `needle` occurs in `text` as a contiguous run.
pub open spec fn spec_contains_text(text: Seq<char>, needle: Seq<char>) -> bool {
    exists|i: int|
        0 <= i && i + needle.len() <= text.len() && #[trigger] text.subrange(i, i + needle.len()) == needle
}

/// Text that contains a run still contains it with more text after it.
proof fn lemma_contains_extend(s: Seq<char>, t: Seq<char>, needle: Seq<char>)
    requires
        spec_contains_text(s, needle),
    ensures
        spec_contains_text(s + t, needle),
{
    let i = choose|i: int|
        0 <= i && i + needle.len() <= s.len() && #[trigger] s.subrange(i, i + needle.len()) == needle;
    assert((s + t).subrange(i, i + needle.len()) =~= s.subrange(i, i + needle.len()));
}

/// A value between two pieces of text is found together with the end `x` of
/// the piece before it and the start `y` of the piece after it.
proof fn lemma_contains_join(
    a: Seq<char>,
    l1: Seq<char>,
    v: Seq<char>,
    l2: Seq<char>,
    x: Seq<char>,
    y: Seq<char>,
)
    requires
        x.len() <= l1.len(),
        l1.subrange(l1.len() - x.len(), l1.len() as int) == x,
        y.len() <= l2.len(),
        l2.subrange(0, y.len() as int) == y,
    ensures
        spec_contains_text(a + l1 + v + l2, x + v + y),
{
    let t = a + l1 + v + l2;
    let i = a.len() + l1.len() - x.len();
    assert(t.subrange(i, i + (x + v + y).len()) =~= x + v + y);
}

/// The exported regression test names the bundle's own values: the test name,
/// the seed ID and payload bytes, the signature fields of the bundle it builds,
/// and replay assertions that expect exactly this signature's category,
/// digest and signature hash. Names that are not Rust identifiers are refused.
pub proof fn law_fixture_asserts_the_bundle_signature(bundle: BundleView, test_name: Seq<char>)
    ensures
        spec_is_valid_rust_ident(test_name) ==> spec_rust_regression_fixture(bundle, test_name)
            == Ok::<Seq<char>, Seq<char>>(spec_rust_regression_test_fn(bundle, test_name)),
        !spec_is_valid_rust_ident(test_name) ==> spec_rust_regression_fixture(bundle, test_name) is Err,
        spec_contains_text(spec_rust_regression_test_fn(bundle, test_name), "fn "@ + test_name + "()"@),
        spec_contains_text(spec_rust_regression_test_fn(bundle, test_name), "id: "@ + spec_decimal(bundle.seed.id as nat) + ","@),
        spec_contains_text(spec_rust_regression_test_fn(bundle, test_name), "payload: vec!["@ + spec_byte_literals(bundle.seed.payload) + "]"@),
        spec_contains_text(spec_rust_regression_test_fn(bundle, test_name), "category: "@ + spec_str_debug(bundle.signature.category) + ".to_string()"@),
        spec_contains_text(spec_rust_regression_test_fn(bundle, test_name), "digest: "@ + spec_decimal(bundle.signature.digest as nat) + ","@),
        spec_contains_text(spec_rust_regression_test_fn(bundle, test_name), "signature_hash: "@ + spec_decimal(bundle.signature.signature_hash as nat) + ","@),
        spec_contains_text(spec_rust_regression_test_fn(bundle, test_name), "assert_eq!(result.actual.category, "@ + spec_str_debug(bundle.signature.category) + ");"@),
        spec_contains_text(spec_rust_regression_test_fn(bundle, test_name), "assert_eq!(result.actual.digest, "@ + spec_decimal(bundle.signature.digest as nat) + ");"@),
        spec_contains_text(spec_rust_regression_test_fn(bundle, test_name), "assert_eq!(result.actual.signature_hash, "@ + spec_decimal(bundle.signature.signature_hash as nat) + ");"@),
{
    let idd = spec_decimal(bundle.seed.id as nat);
    let bytes = spec_byte_literals(bundle.seed.payload);
    let cat = spec_str_debug(bundle.signature.category);
    let dig = spec_decimal(bundle.signature.digest as nat);
    let hash = spec_decimal(bundle.signature.signature_hash as nat);
    let s0 = "#[test]\nfn "@;
    let s1 = s0 + test_name;
    let s2 = s1 + "() {\n    use crashlab_core::{replay_seed_bundle, CaseBundle, CaseSeed, CrashSignature};\n\n    let bundle = CaseBundle {\n        seed: CaseSeed {\n            id: "@;
    let s3 = s2 + idd;
    let s4 = s3 + ",\n            payload: vec!["@;
    let s5 = s4 + bytes;
    let s6 = s5 + "],\n        },\n        signature: CrashSignature {\n            category: "@;
    let s7 = s6 + cat;
    let s8 = s7 + ".to_string(),\n            digest: "@;
    let s9 = s8 + dig;
    let s10 = s9 + ",\n            signature_hash: "@;
    let s11 = s10 + hash;
    let s12 = s11 + ",\n        },\n        environment: None,\n        failure_payload: vec![],\n        rpc_envelope: None,\n    };\n\n    let result = replay_seed_bundle(&bundle);\n    assert_eq!(result.actual.category, "@;
    let s13 = s12 + cat;
    let s14 = s13 + ");\n    assert_eq!(result.actual.digest, "@;
    let s15 = s14 + dig;
    let s16 = s15 + ");\n    assert_eq!(result.actual.signature_hash, "@;
    let s17 = s16 + hash;
    let s18 = s17 + ");\n    assert!(result.matches, \"replay should match exported failing bundle signature\");\n}\n"@;
    assert(spec_rust_regression_test_fn(bundle, test_name) == s18);
    reveal_strlit("#[test]\nfn ");
    reveal_strlit("() {\n    use crashlab_core::{replay_seed_bundle, CaseBundle, CaseSeed, CrashSignature};\n\n    let bundle = CaseBundle {\n        seed: CaseSeed {\n            id: ");
    reveal_strlit(",\n            payload: vec![");
    reveal_strlit("],\n        },\n        signature: CrashSignature {\n            category: ");
    reveal_strlit(".to_string(),\n            digest: ");
    reveal_strlit(",\n            signature_hash: ");
    reveal_strlit(",\n        },\n        environment: None,\n        failure_payload: vec![],\n        rpc_envelope: None,\n    };\n\n    let result = replay_seed_bundle(&bundle);\n    assert_eq!(result.actual.category, ");
    reveal_strlit(");\n    assert_eq!(result.actual.digest, ");
    reveal_strlit(");\n    assert_eq!(result.actual.signature_hash, ");
    reveal_strlit(");\n    assert!(result.matches, \"replay should match exported failing bundle signature\");\n}\n");
    reveal_strlit("fn ");
    reveal_strlit("()");
    assert("#[test]\nfn "@.subrange("#[test]\nfn "@.len() - "fn "@.len(), "#[test]\nfn "@.len() as int) =~= "fn "@);
    assert("() {\n    use crashlab_core::{replay_seed_bundle, CaseBundle, CaseSeed, CrashSignature};\n\n    let bundle = CaseBundle {\n        seed: CaseSeed {\n            id: "@.subrange(0, "()"@.len() as int) =~= "()"@);
    lemma_contains_join(Seq::<char>::empty(), "#[test]\nfn "@, test_name, "() {\n    use crashlab_core::{replay_seed_bundle, CaseBundle, CaseSeed, CrashSignature};\n\n    let bundle = CaseBundle {\n        seed: CaseSeed {\n            id: "@, "fn "@, "()"@);
    assert(Seq::<char>::empty() + "#[test]\nfn "@ =~= s0);
    lemma_contains_extend(s2, idd, "fn "@ + test_name + "()"@);
    lemma_contains_extend(s3, ",\n            payload: vec!["@, "fn "@ + test_name + "()"@);
    lemma_contains_extend(s4, bytes, "fn "@ + test_name + "()"@);
    lemma_contains_extend(s5, "],\n        },\n        signature: CrashSignature {\n            category: "@, "fn "@ + test_name + "()"@);
    lemma_contains_extend(s6, cat, "fn "@ + test_name + "()"@);
    lemma_contains_extend(s7, ".to_string(),\n            digest: "@, "fn "@ + test_name + "()"@);
    lemma_contains_extend(s8, dig, "fn "@ + test_name + "()"@);
    lemma_contains_extend(s9, ",\n            signature_hash: "@, "fn "@ + test_name + "()"@);
    lemma_contains_extend(s10, hash, "fn "@ + test_name + "()"@);
    lemma_contains_extend(s11, ",\n        },\n        environment: None,\n        failure_payload: vec![],\n        rpc_envelope: None,\n    };\n\n    let result = replay_seed_bundle(&bundle);\n    assert_eq!(result.actual.category, "@, "fn "@ + test_name + "()"@);
    lemma_contains_extend(s12, cat, "fn "@ + test_name + "()"@);
    lemma_contains_extend(s13, ");\n    assert_eq!(result.actual.digest, "@, "fn "@ + test_name + "()"@);
    lemma_contains_extend(s14, dig, "fn "@ + test_name + "()"@);
    lemma_contains_extend(s15, ");\n    assert_eq!(result.actual.signature_hash, "@, "fn "@ + test_name + "()"@);
    lemma_contains_extend(s16, hash, "fn "@ + test_name + "()"@);
    lemma_contains_extend(s17, ");\n    assert!(result.matches, \"replay should match exported failing bundle signature\");\n}\n"@, "fn "@ + test_name + "()"@);
    reveal_strlit("id: ");
    reveal_strlit(",");
    assert("() {\n    use crashlab_core::{replay_seed_bundle, CaseBundle, CaseSeed, CrashSignature};\n\n    let bundle = CaseBundle {\n        seed: CaseSeed {\n            id: "@.subrange("() {\n    use crashlab_core::{replay_seed_bundle, CaseBundle, CaseSeed, CrashSignature};\n\n    let bundle = CaseBundle {\n        seed: CaseSeed {\n            id: "@.len() - "id: "@.len(), "() {\n    use crashlab_core::{replay_seed_bundle, CaseBundle, CaseSeed, CrashSignature};\n\n    let bundle = CaseBundle {\n        seed: CaseSeed {\n            id: "@.len() as int) =~= "id: "@);
    assert(",\n            payload: vec!["@.subrange(0, ","@.len() as int) =~= ","@);
    lemma_contains_join(s1, "() {\n    use crashlab_core::{replay_seed_bundle, CaseBundle, CaseSeed, CrashSignature};\n\n    let bundle = CaseBundle {\n        seed: CaseSeed {\n            id: "@, idd, ",\n            payload: vec!["@, "id: "@, ","@);
    lemma_contains_extend(s4, bytes, "id: "@ + spec_decimal(bundle.seed.id as nat) + ","@);
    lemma_contains_extend(s5, "],\n        },\n        signature: CrashSignature {\n            category: "@, "id: "@ + spec_decimal(bundle.seed.id as nat) + ","@);
    lemma_contains_extend(s6, cat, "id: "@ + spec_decimal(bundle.seed.id as nat) + ","@);
    lemma_contains_extend(s7, ".to_string(),\n            digest: "@, "id: "@ + spec_decimal(bundle.seed.id as nat) + ","@);
    lemma_contains_extend(s8, dig, "id: "@ + spec_decimal(bundle.seed.id as nat) + ","@);
    lemma_contains_extend(s9, ",\n            signature_hash: "@, "id: "@ + spec_decimal(bundle.seed.id as nat) + ","@);
    lemma_contains_extend(s10, hash, "id: "@ + spec_decimal(bundle.seed.id as nat) + ","@);
    lemma_contains_extend(s11, ",\n        },\n        environment: None,\n        failure_payload: vec![],\n        rpc_envelope: None,\n    };\n\n    let result = replay_seed_bundle(&bundle);\n    assert_eq!(result.actual.category, "@, "id: "@ + spec_decimal(bundle.seed.id as nat) + ","@);
    lemma_contains_extend(s12, cat, "id: "@ + spec_decimal(bundle.seed.id as nat) + ","@);
    lemma_contains_extend(s13, ");\n    assert_eq!(result.actual.digest, "@, "id: "@ + spec_decimal(bundle.seed.id as nat) + ","@);
    lemma_contains_extend(s14, dig, "id: "@ + spec_decimal(bundle.seed.id as nat) + ","@);
    lemma_contains_extend(s15, ");\n    assert_eq!(result.actual.signature_hash, "@, "id: "@ + spec_decimal(bundle.seed.id as nat) + ","@);
    lemma_contains_extend(s16, hash, "id: "@ + spec_decimal(bundle.seed.id as nat) + ","@);
    lemma_contains_extend(s17, ");\n    assert!(result.matches, \"replay should match exported failing bundle signature\");\n}\n"@, "id: "@ + spec_decimal(bundle.seed.id as nat) + ","@);
    reveal_strlit("payload: vec![");
    reveal_strlit("]");
    assert(",\n            payload: vec!["@.subrange(",\n            payload: vec!["@.len() - "payload: vec!["@.len(), ",\n            payload: vec!["@.len() as int) =~= "payload: vec!["@);
    assert("],\n        },\n        signature: CrashSignature {\n            category: "@.subrange(0, "]"@.len() as int) =~= "]"@);
    lemma_contains_join(s3, ",\n            payload: vec!["@, bytes, "],\n        },\n        signature: CrashSignature {\n            category: "@, "payload: vec!["@, "]"@);
    lemma_contains_extend(s6, cat, "payload: vec!["@ + spec_byte_literals(bundle.seed.payload) + "]"@);
    lemma_contains_extend(s7, ".to_string(),\n            digest: "@, "payload: vec!["@ + spec_byte_literals(bundle.seed.payload) + "]"@);
    lemma_contains_extend(s8, dig, "payload: vec!["@ + spec_byte_literals(bundle.seed.payload) + "]"@);
    lemma_contains_extend(s9, ",\n            signature_hash: "@, "payload: vec!["@ + spec_byte_literals(bundle.seed.payload) + "]"@);
    lemma_contains_extend(s10, hash, "payload: vec!["@ + spec_byte_literals(bundle.seed.payload) + "]"@);
    lemma_contains_extend(s11, ",\n        },\n        environment: None,\n        failure_payload: vec![],\n        rpc_envelope: None,\n    };\n\n    let result = replay_seed_bundle(&bundle);\n    assert_eq!(result.actual.category, "@, "payload: vec!["@ + spec_byte_literals(bundle.seed.payload) + "]"@);
    lemma_contains_extend(s12, cat, "payload: vec!["@ + spec_byte_literals(bundle.seed.payload) + "]"@);
    lemma_contains_extend(s13, ");\n    assert_eq!(result.actual.digest, "@, "payload: vec!["@ + spec_byte_literals(bundle.seed.payload) + "]"@);
    lemma_contains_extend(s14, dig, "payload: vec!["@ + spec_byte_literals(bundle.seed.payload) + "]"@);
    lemma_contains_extend(s15, ");\n    assert_eq!(result.actual.signature_hash, "@, "payload: vec!["@ + spec_byte_literals(bundle.seed.payload) + "]"@);
    lemma_contains_extend(s16, hash, "payload: vec!["@ + spec_byte_literals(bundle.seed.payload) + "]"@);
    lemma_contains_extend(s17, ");\n    assert!(result.matches, \"replay should match exported failing bundle signature\");\n}\n"@, "payload: vec!["@ + spec_byte_literals(bundle.seed.payload) + "]"@);
    reveal_strlit("category: ");
    reveal_strlit(".to_string()");
    assert("],\n        },\n        signature: CrashSignature {\n            category: "@.subrange("],\n        },\n        signature: CrashSignature {\n            category: "@.len() - "category: "@.len(), "],\n        },\n        signature: CrashSignature {\n            category: "@.len() as int) =~= "category: "@);
    assert(".to_string(),\n            digest: "@.subrange(0, ".to_string()"@.len() as int) =~= ".to_string()"@);
    lemma_contains_join(s5, "],\n        },\n        signature: CrashSignature {\n            category: "@, cat, ".to_string(),\n            digest: "@, "category: "@, ".to_string()"@);
    lemma_contains_extend(s8, dig, "category: "@ + spec_str_debug(bundle.signature.category) + ".to_string()"@);
    lemma_contains_extend(s9, ",\n            signature_hash: "@, "category: "@ + spec_str_debug(bundle.signature.category) + ".to_string()"@);
    lemma_contains_extend(s10, hash, "category: "@ + spec_str_debug(bundle.signature.category) + ".to_string()"@);
    lemma_contains_extend(s11, ",\n        },\n        environment: None,\n        failure_payload: vec![],\n        rpc_envelope: None,\n    };\n\n    let result = replay_seed_bundle(&bundle);\n    assert_eq!(result.actual.category, "@, "category: "@ + spec_str_debug(bundle.signature.category) + ".to_string()"@);
    lemma_contains_extend(s12, cat, "category: "@ + spec_str_debug(bundle.signature.category) + ".to_string()"@);
    lemma_contains_extend(s13, ");\n    assert_eq!(result.actual.digest, "@, "category: "@ + spec_str_debug(bundle.signature.category) + ".to_string()"@);
    lemma_contains_extend(s14, dig, "category: "@ + spec_str_debug(bundle.signature.category) + ".to_string()"@);
    lemma_contains_extend(s15, ");\n    assert_eq!(result.actual.signature_hash, "@, "category: "@ + spec_str_debug(bundle.signature.category) + ".to_string()"@);
    lemma_contains_extend(s16, hash, "category: "@ + spec_str_debug(bundle.signature.category) + ".to_string()"@);
    lemma_contains_extend(s17, ");\n    assert!(result.matches, \"replay should match exported failing bundle signature\");\n}\n"@, "category: "@ + spec_str_debug(bundle.signature.category) + ".to_string()"@);
    reveal_strlit("digest: ");
    reveal_strlit(",");
    assert(".to_string(),\n            digest: "@.subrange(".to_string(),\n            digest: "@.len() - "digest: "@.len(), ".to_string(),\n            digest: "@.len() as int) =~= "digest: "@);
    assert(",\n            signature_hash: "@.subrange(0, ","@.len() as int) =~= ","@);
    lemma_contains_join(s7, ".to_string(),\n            digest: "@, dig, ",\n            signature_hash: "@, "digest: "@, ","@);
    lemma_contains_extend(s10, hash, "digest: "@ + spec_decimal(bundle.signature.digest as nat) + ","@);
    lemma_contains_extend(s11, ",\n        },\n        environment: None,\n        failure_payload: vec![],\n        rpc_envelope: None,\n    };\n\n    let result = replay_seed_bundle(&bundle);\n    assert_eq!(result.actual.category, "@, "digest: "@ + spec_decimal(bundle.signature.digest as nat) + ","@);
    lemma_contains_extend(s12, cat, "digest: "@ + spec_decimal(bundle.signature.digest as nat) + ","@);
    lemma_contains_extend(s13, ");\n    assert_eq!(result.actual.digest, "@, "digest: "@ + spec_decimal(bundle.signature.digest as nat) + ","@);
    lemma_contains_extend(s14, dig, "digest: "@ + spec_decimal(bundle.signature.digest as nat) + ","@);
    lemma_contains_extend(s15, ");\n    assert_eq!(result.actual.signature_hash, "@, "digest: "@ + spec_decimal(bundle.signature.digest as nat) + ","@);
    lemma_contains_extend(s16, hash, "digest: "@ + spec_decimal(bundle.signature.digest as nat) + ","@);
    lemma_contains_extend(s17, ");\n    assert!(result.matches, \"replay should match exported failing bundle signature\");\n}\n"@, "digest: "@ + spec_decimal(bundle.signature.digest as nat) + ","@);
    reveal_strlit("signature_hash: ");
    reveal_strlit(",");
    assert(",\n            signature_hash: "@.subrange(",\n            signature_hash: "@.len() - "signature_hash: "@.len(), ",\n            signature_hash: "@.len() as int) =~= "signature_hash: "@);
    assert(",\n        },\n        environment: None,\n        failure_payload: vec![],\n        rpc_envelope: None,\n    };\n\n    let result = replay_seed_bundle(&bundle);\n    assert_eq!(result.actual.category, "@.subrange(0, ","@.len() as int) =~= ","@);
    lemma_contains_join(s9, ",\n            signature_hash: "@, hash, ",\n        },\n        environment: None,\n        failure_payload: vec![],\n        rpc_envelope: None,\n    };\n\n    let result = replay_seed_bundle(&bundle);\n    assert_eq!(result.actual.category, "@, "signature_hash: "@, ","@);
    lemma_contains_extend(s12, cat, "signature_hash: "@ + spec_decimal(bundle.signature.signature_hash as nat) + ","@);
    lemma_contains_extend(s13, ");\n    assert_eq!(result.actual.digest, "@, "signature_hash: "@ + spec_decimal(bundle.signature.signature_hash as nat) + ","@);
    lemma_contains_extend(s14, dig, "signature_hash: "@ + spec_decimal(bundle.signature.signature_hash as nat) + ","@);
    lemma_contains_extend(s15, ");\n    assert_eq!(result.actual.signature_hash, "@, "signature_hash: "@ + spec_decimal(bundle.signature.signature_hash as nat) + ","@);
    lemma_contains_extend(s16, hash, "signature_hash: "@ + spec_decimal(bundle.signature.signature_hash as nat) + ","@);
    lemma_contains_extend(s17, ");\n    assert!(result.matches, \"replay should match exported failing bundle signature\");\n}\n"@, "signature_hash: "@ + spec_decimal(bundle.signature.signature_hash as nat) + ","@);
    reveal_strlit("assert_eq!(result.actual.category, ");
    reveal_strlit(");");
    assert(",\n        },\n        environment: None,\n        failure_payload: vec![],\n        rpc_envelope: None,\n    };\n\n    let result = replay_seed_bundle(&bundle);\n    assert_eq!(result.actual.category, "@.subrange(",\n        },\n        environment: None,\n        failure_payload: vec![],\n        rpc_envelope: None,\n    };\n\n    let result = replay_seed_bundle(&bundle);\n    assert_eq!(result.actual.category, "@.len() - "assert_eq!(result.actual.category, "@.len(), ",\n        },\n        environment: None,\n        failure_payload: vec![],\n        rpc_envelope: None,\n    };\n\n    let result = replay_seed_bundle(&bundle);\n    assert_eq!(result.actual.category, "@.len() as int) =~= "assert_eq!(result.actual.category, "@);
    assert(");\n    assert_eq!(result.actual.digest, "@.subrange(0, ");"@.len() as int) =~= ");"@);
    lemma_contains_join(s11, ",\n        },\n        environment: None,\n        failure_payload: vec![],\n        rpc_envelope: None,\n    };\n\n    let result = replay_seed_bundle(&bundle);\n    assert_eq!(result.actual.category, "@, cat, ");\n    assert_eq!(result.actual.digest, "@, "assert_eq!(result.actual.category, "@, ");"@);
    lemma_contains_extend(s14, dig, "assert_eq!(result.actual.category, "@ + spec_str_debug(bundle.signature.category) + ");"@);
    lemma_contains_extend(s15, ");\n    assert_eq!(result.actual.signature_hash, "@, "assert_eq!(result.actual.category, "@ + spec_str_debug(bundle.signature.category) + ");"@);
    lemma_contains_extend(s16, hash, "assert_eq!(result.actual.category, "@ + spec_str_debug(bundle.signature.category) + ");"@);
    lemma_contains_extend(s17, ");\n    assert!(result.matches, \"replay should match exported failing bundle signature\");\n}\n"@, "assert_eq!(result.actual.category, "@ + spec_str_debug(bundle.signature.category) + ");"@);
    reveal_strlit("assert_eq!(result.actual.digest, ");
    reveal_strlit(");");
    assert(");\n    assert_eq!(result.actual.digest, "@.subrange(");\n    assert_eq!(result.actual.digest, "@.len() - "assert_eq!(result.actual.digest, "@.len(), ");\n    assert_eq!(result.actual.digest, "@.len() as int) =~= "assert_eq!(result.actual.digest, "@);
    assert(");\n    assert_eq!(result.actual.signature_hash, "@.subrange(0, ");"@.len() as int) =~= ");"@);
    lemma_contains_join(s13, ");\n    assert_eq!(result.actual.digest, "@, dig, ");\n    assert_eq!(result.actual.signature_hash, "@, "assert_eq!(result.actual.digest, "@, ");"@);
    lemma_contains_extend(s16, hash, "assert_eq!(result.actual.digest, "@ + spec_decimal(bundle.signature.digest as nat) + ");"@);
    lemma_contains_extend(s17, ");\n    assert!(result.matches, \"replay should match exported failing bundle signature\");\n}\n"@, "assert_eq!(result.actual.digest, "@ + spec_decimal(bundle.signature.digest as nat) + ");"@);
    reveal_strlit("assert_eq!(result.actual.signature_hash, ");
    reveal_strlit(");");
    assert(");\n    assert_eq!(result.actual.signature_hash, "@.subrange(");\n    assert_eq!(result.actual.signature_hash, "@.len() - "assert_eq!(result.actual.signature_hash, "@.len(), ");\n    assert_eq!(result.actual.signature_hash, "@.len() as int) =~= "assert_eq!(result.actual.signature_hash, "@);
    assert(");\n    assert!(result.matches, \"replay should match exported failing bundle signature\");\n}\n"@.subrange(0, ");"@.len() as int) =~= ");"@);
    lemma_contains_join(s15, ");\n    assert_eq!(result.actual.signature_hash, "@, hash, ");\n    assert!(result.matches, \"replay should match exported failing bundle signature\");\n}\n"@, "assert_eq!(result.actual.signature_hash, "@, ");"@);
}

} // verus!
