//! Fixture compatibility checker for the Soroban CrashLab engine.
//!
//! Checks whether a fixture set (seeds or bundle documents) matches the current
//! engine schema and capabilities, and reports actionable migration warnings.
use vstd::prelude::*;

use crate::bundle_persist::{is_supported_schema, spec_schema_supported, CaseBundleDocument};
use crate::seed_validator::{spec_seed_errors, SeedSchema, SeedValidationError, Validate};
use crate::text::{push_decimal, spec_decimal};
use crate::{CaseSeed, SeedView};
use vstd::string::StringExecFns;

verus! {

/// A migration warning produced by the fixture compatibility checker.
#[derive(Debug, PartialEq, Eq)]
pub struct CompatWarning {
    /// Zero-based index of the fixture that triggered this warning.
    pub fixture_index: usize,
    /// Human-readable description of the incompatibility and suggested action.
    pub message: String,
}

/// The mathematical value of a [`CompatWarning`].
pub struct WarningView {
    pub fixture_index: usize,
    pub message: Seq<char>,
}

impl View for CompatWarning {
    type V = WarningView;

    open spec fn view(&self) -> WarningView {
        WarningView { fixture_index: self.fixture_index, message: self.message@ }
    }
}

impl Clone for CompatWarning {
    fn clone(&self) -> (r: Self)
        ensures
            r@ == self@,
    {
        CompatWarning { fixture_index: self.fixture_index, message: self.message.clone() }
    }
}

/// Result of checking a fixture set against the current engine schema.
#[derive(Debug)]
pub struct CompatReport {
    /// Warnings for each incompatible fixture.
    pub warnings: Vec<CompatWarning>,
}

/// The views of a list of warnings.
pub open spec fn spec_warning_views(ws: Seq<CompatWarning>) -> Seq<WarningView> {
    ws.map_values(|w: CompatWarning| w@)
}

impl CompatReport {
    /// Returns `true` when no warnings were produced (all fixtures are compatible).
    pub fn is_compatible(&self) -> (r: bool)
        ensures
            r == (self.warnings@.len() == 0),
    {
        self.warnings.len() == 0
    }
}

/// One warning per validation error, for fixture `index`: the message is
/// `head` followed by the error's message.
pub open spec fn spec_error_warnings(index: usize, head: Seq<char>, errors: Seq<SeedValidationError>) -> Seq<
    WarningView,
> {
    errors.map_values(|e: SeedValidationError| WarningView { fixture_index: index, message: head + e.spec_message() })
}

/// The prefix of the warnings about seed fixture `i`: `seed[i] id=ID: `.
pub open spec fn spec_seed_head(i: usize, id: u64) -> Seq<char> {
    "seed["@ + spec_decimal(i as nat) + "] id="@ + spec_decimal(id as nat) + ": "@
}

/// The warnings about the first `n` seed fixtures, in fixture order.
pub open spec fn spec_seed_warnings(seeds: Seq<SeedView>, schema: SeedSchema, n: nat) -> Seq<WarningView>
    decreases n,
{
    if n == 0 {
        seq![]
    } else {
        let i = (n - 1) as int;
        spec_seed_warnings(seeds, schema, (n - 1) as nat) + spec_error_warnings(
            i as usize,
            spec_seed_head(i as usize, seeds[i].id),
            spec_seed_errors(seeds[i], schema),
        )
    }
}

/// The prefix of the warnings about the seed of bundle fixture `i`.
pub open spec fn spec_bundle_seed_head(i: usize, id: u64) -> Seq<char> {
    "bundle["@ + spec_decimal(i as nat) + "] seed id="@ + spec_decimal(id as nat) + ": "@
}

/// The warning about bundle fixture `i` written with an unsupported schema.
pub open spec fn spec_bundle_schema_message(i: usize, schema: u32) -> Seq<char> {
    "bundle["@ + spec_decimal(i as nat) + "] schema version "@ + spec_decimal(schema as nat)
        + " is not supported (supported: [1, 2]); re-export this bundle with the current engine"@
}

/// The warnings about bundle fixture `i`: its schema version, then its seed.
pub open spec fn spec_bundle_warnings_at(i: usize, doc_schema: u32, seed: SeedView, schema: SeedSchema) -> Seq<
    WarningView,
> {
    let version: Seq<WarningView> = if spec_schema_supported(doc_schema) {
        seq![]
    } else {
        seq![WarningView { fixture_index: i, message: spec_bundle_schema_message(i, doc_schema) }]
    };
    version + spec_error_warnings(i, spec_bundle_seed_head(i, seed.id), spec_seed_errors(seed, schema))
}

/// The warnings about the first `n` bundle fixtures, in fixture order.
pub open spec fn spec_bundle_warnings(docs: Seq<CaseBundleDocument>, schema: SeedSchema, n: nat) -> Seq<
    WarningView,
>
    decreases n,
{
    if n == 0 {
        seq![]
    } else {
        let i = (n - 1) as int;
        spec_bundle_warnings(docs, schema, (n - 1) as nat) + spec_bundle_warnings_at(
            i as usize,
            docs[i].schema,
            docs[i].seed@,
            schema,
        )
    }
}

/// Appends one warning per error, each message being `head` and the error's.
fn push_error_warnings(
    out: &mut Vec<CompatWarning>,
    index: usize,
    head: &String,
    errors: &Vec<SeedValidationError>,
)
    ensures
        spec_warning_views(final(out)@) == spec_warning_views(old(out)@) + spec_error_warnings(
            index,
            head@,
            errors@,
        ),
{
    let ghost start = spec_warning_views(out@);
    let ghost target = spec_error_warnings(index, head@, errors@);
    let mut k: usize = 0;
    while k < errors.len()
        invariant
            k <= errors@.len(),
            target == spec_error_warnings(index, head@, errors@),
            spec_warning_views(out@) =~= start + target.subrange(0, k as int),
        decreases errors@.len() - k,
    {
        let mut message = head.clone();
        message.append(errors[k].message().as_str());
        let ghost before = out@;
        out.push(CompatWarning { fixture_index: index, message });
        assert(spec_warning_views(out@) =~= spec_warning_views(before).push(target[k as int]));
        assert(target.subrange(0, k + 1) =~= target.subrange(0, k as int).push(target[k as int]));
        k = k + 1;
    }
    assert(target.subrange(0, k as int) =~= target);
}

/// The errors of `seed` against `schema`, none when it is valid.
fn seed_errors(seed: &CaseSeed, schema: &SeedSchema) -> (r: Vec<SeedValidationError>)
    ensures
        r@ == spec_seed_errors(seed@, *schema),
{
    match seed.validate(schema) {
        Ok(()) => Vec::new(),
        Err(errors) => errors,
    }
}

/// Checks a slice of [`CaseSeed`] fixtures against `schema`.
///
/// Returns a [`CompatReport`] with one warning per validation failure, including
/// which fixture is affected and what change is needed.
pub fn check_seed_fixtures(seeds: &[CaseSeed], schema: &SeedSchema) -> (r: CompatReport)
    ensures
        spec_warning_views(r.warnings@) == spec_seed_warnings(
            seeds@.map_values(|s: CaseSeed| s@),
            *schema,
            seeds@.len(),
        ),
{
    let ghost views = seeds@.map_values(|s: CaseSeed| s@);
    let mut warnings: Vec<CompatWarning> = Vec::new();
    let mut i: usize = 0;
    while i < seeds.len()
        invariant
            i <= seeds@.len(),
            views == seeds@.map_values(|s: CaseSeed| s@),
            spec_warning_views(warnings@) == spec_seed_warnings(views, *schema, i as nat),
        decreases seeds@.len() - i,
    {
        let seed = &seeds[i];
        let errors = seed_errors(seed, schema);
        let mut head = String::from_str("seed[");
        push_decimal(&mut head, i as u64);
        head.append("] id=");
        push_decimal(&mut head, seed.id);
        head.append(": ");
        push_error_warnings(&mut warnings, i, &head, &errors);
        proof {
            assert(views[i as int] == seed@);
            assert(head@ =~= spec_seed_head(i, seed.id));
        }
        i = i + 1;
    }
    CompatReport { warnings }
}

/// Checks a slice of [`CaseBundleDocument`] fixtures.
///
/// Each bundle document is checked for:
/// - Bundle schema version against the supported bundle schemas.
/// - Embedded seed against `schema`.
pub fn check_bundle_fixtures(docs: &[CaseBundleDocument], schema: &SeedSchema) -> (r: CompatReport)
    ensures
        spec_warning_views(r.warnings@) == spec_bundle_warnings(docs@, *schema, docs@.len()),
{
    let mut warnings: Vec<CompatWarning> = Vec::new();
    let mut i: usize = 0;
    while i < docs.len()
        invariant
            i <= docs@.len(),
            spec_warning_views(warnings@) == spec_bundle_warnings(docs@, *schema, i as nat),
        decreases docs@.len() - i,
    {
        let doc = &docs[i];
        let ghost before = spec_warning_views(warnings@);
        if !is_supported_schema(doc.schema) {
            let mut message = String::from_str("bundle[");
            push_decimal(&mut message, i as u64);
            message.append("] schema version ");
            push_decimal(&mut message, doc.schema as u64);
            message.append(
                " is not supported (supported: [1, 2]); re-export this bundle with the current engine",
            );
            let ghost prev = warnings@;
            warnings.push(CompatWarning { fixture_index: i, message });
            proof {
                assert(spec_warning_views(warnings@) =~= spec_warning_views(prev).push(
                    WarningView { fixture_index: i, message: spec_bundle_schema_message(i, doc.schema) },
                ));
            }
        }
        let errors = seed_errors(&doc.seed, schema);
        let mut head = String::from_str("bundle[");
        push_decimal(&mut head, i as u64);
        head.append("] seed id=");
        push_decimal(&mut head, doc.seed.id);
        head.append(": ");
        push_error_warnings(&mut warnings, i, &head, &errors);
        proof {
            assert(head@ =~= spec_bundle_seed_head(i, doc.seed.id));
            let version: Seq<WarningView> = if spec_schema_supported(doc.schema) {
                seq![]
            } else {
                seq![WarningView { fixture_index: i, message: spec_bundle_schema_message(i, doc.schema) }]
            };
            assert(spec_warning_views(warnings@) =~= before + spec_bundle_warnings_at(
                i,
                doc.schema,
                doc.seed@,
                *schema,
            ));
        }
        i = i + 1;
    }
    CompatReport { warnings }
}

/// A fixture set is compatible exactly when no seed breaks the schema.
pub proof fn law_seed_fixtures_compatible_iff_all_valid(seeds: Seq<SeedView>, schema: SeedSchema, n: nat)
    requires
        n <= seeds.len(),
    ensures
        (spec_seed_warnings(seeds, schema, n).len() == 0) <==> forall|i: int|
            0 <= i < n ==> #[trigger] spec_seed_errors(seeds[i], schema).len() == 0,
    decreases n,
{
    if n > 0 {
        law_seed_fixtures_compatible_iff_all_valid(seeds, schema, (n - 1) as nat);
    }
}

} // verus!
