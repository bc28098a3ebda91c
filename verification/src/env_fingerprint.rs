//! Runtime environment fingerprinting for [`CaseBundle`](crate::CaseBundle) replay.
//!
//! When a failing case is persisted, callers can attach an [`EnvironmentFingerprint`]
//! so replay tooling can detect **material** host differences (OS, CPU architecture,
//! process family) that may invalidate a strict reproduction.
use vstd::prelude::*;
use vstd::string::StringExecFns;

verus! {

/// Snapshot of the host environment at bundle capture time.
#[derive(Debug, PartialEq, Eq)]
pub struct EnvironmentFingerprint {
    /// Operating system name (e.g. `linux`, `macos`, `windows`).
    pub os: String,
    /// CPU architecture (e.g. `x86_64`, `aarch64`).
    pub arch: String,
    /// Platform family (`unix` or `windows`).
    pub family: String,
    /// Crate semantic version at capture time.
    pub tool_version: String,
}

impl Clone for EnvironmentFingerprint {
    fn clone(&self) -> (r: Self)
        ensures
            r == *self,
    {
        EnvironmentFingerprint {
            os: self.os.clone(),
            arch: self.arch.clone(),
            family: self.family.clone(),
            tool_version: self.tool_version.clone(),
        }
    }
}

impl EnvironmentFingerprint {
    /// Builds a fingerprint from explicit fields (tests, fixtures, imports).
    pub fn new(os: &str, arch: &str, family: &str, tool_version: &str) -> (r: Self)
        ensures
            r.os@ == os@,
            r.arch@ == arch@,
            r.family@ == family@,
            r.tool_version@ == tool_version@,
    {
        EnvironmentFingerprint {
            os: os.to_owned(),
            arch: arch.to_owned(),
            family: family.to_owned(),
            tool_version: tool_version.to_owned(),
        }
    }
}

/// Outcome of comparing a recorded fingerprint to the current environment before replay.
#[derive(Debug, PartialEq, Eq)]
pub struct ReplayEnvironmentReport {
    /// `true` when OS, architecture, or platform family differs — replay may not be equivalent.
    pub material_mismatch: bool,
    /// Human-readable warnings suitable for logs or CLI output.
    pub warnings: Vec<String>,
}

/// The mathematical value of a [`ReplayEnvironmentReport`].
pub struct ReportView {
    pub material_mismatch: bool,
    pub warnings: Seq<Seq<char>>,
}

impl View for ReplayEnvironmentReport {
    type V = ReportView;

    open spec fn view(&self) -> ReportView {
        ReportView {
            material_mismatch: self.material_mismatch,
            warnings: self.warnings@.map_values(|w: String| w@),
        }
    }
}

/// The warning for one differing field: names the field and quotes both values.
pub open spec fn spec_mismatch_warning(field: Seq<char>, recorded: Seq<char>, current: Seq<char>) -> Seq<
    char,
> {
    "replay environment mismatch: recorded "@ + field + " '"@ + recorded + "' differs from current '"@
        + current + "'"@
}

/// The warning for `field` if `recorded` and `current` differ, in a list of zero or one.
pub open spec fn spec_field_warnings(field: Seq<char>, recorded: Seq<char>, current: Seq<char>) -> Seq<
    Seq<char>,
> {
    if recorded != current {
        seq![spec_mismatch_warning(field, recorded, current)]
    } else {
        seq![]
    }
}

/// The report of [`check_replay_environment`]: no warning for a legacy bundle
/// without a fingerprint; otherwise one warning for each of `os`, `arch` and
/// `family` that differs, in that order. The tool version is never material.
pub open spec fn spec_replay_report(
    recorded: Option<EnvironmentFingerprint>,
    current: EnvironmentFingerprint,
) -> ReportView {
    match recorded {
        None => ReportView { material_mismatch: false, warnings: seq![] },
        Some(rec) => ReportView {
            material_mismatch: rec.os@ != current.os@ || rec.arch@ != current.arch@
                || rec.family@ != current.family@,
            warnings: spec_field_warnings("os"@, rec.os@, current.os@) + spec_field_warnings(
                "arch"@,
                rec.arch@,
                current.arch@,
            ) + spec_field_warnings("family"@, rec.family@, current.family@),
        },
    }
}

/// Builds the warning text for one differing field.
fn mismatch_warning(field: &str, recorded: &String, current: &String) -> (r: String)
    ensures
        r@ == spec_mismatch_warning(field@, recorded@, current@),
{
    let mut w = String::from_str("replay environment mismatch: recorded ");
    w.append(field);
    w.append(" '");
    w.append(recorded.as_str());
    w.append("' differs from current '");
    w.append(current.as_str());
    w.append("'");
    w
}

/// Compares `recorded` (from a persisted bundle) with `current` (captured at replay time).
///
/// Returns no warnings when `recorded` is [`None`] (legacy bundles without fingerprinting).
///
/// A **material** difference is a mismatch on `os`, `arch`, or `family`. A different
/// [`EnvironmentFingerprint::tool_version`] alone is not treated as material: the same
/// host can reproduce across minor crate upgrades, but OS/arch changes often imply ABI or
/// runtime divergence.
pub fn check_replay_environment(
    recorded: Option<&EnvironmentFingerprint>,
    current: &EnvironmentFingerprint,
) -> (r: ReplayEnvironmentReport)
    ensures
        r@ == spec_replay_report(
            match recorded {
                Some(rec) => Some(*rec),
                None => None,
            },
            *current,
        ),
{
    let mut warnings: Vec<String> = Vec::new();
    let rec = match recorded {
        Some(rec) => rec,
        None => {
            let r = ReplayEnvironmentReport { material_mismatch: false, warnings };
            assert(r@.warnings =~= Seq::<Seq<char>>::empty());
            return r;
        },
    };
    let ghost w_os = spec_field_warnings("os"@, rec.os@, current.os@);
    let ghost w_arch = spec_field_warnings("arch"@, rec.arch@, current.arch@);
    let ghost w_family = spec_field_warnings("family"@, rec.family@, current.family@);

    let mut material = false;
    if rec.os != current.os {
        material = true;
        warnings.push(mismatch_warning("os", &rec.os, &current.os));
    }
    assert(warnings@.map_values(|w: String| w@) =~= w_os);
    if rec.arch != current.arch {
        material = true;
        warnings.push(mismatch_warning("arch", &rec.arch, &current.arch));
    }
    assert(warnings@.map_values(|w: String| w@) =~= w_os + w_arch);
    if rec.family != current.family {
        material = true;
        warnings.push(mismatch_warning("family", &rec.family, &current.family));
    }
    assert(warnings@.map_values(|w: String| w@) =~= w_os + w_arch + w_family);
    ReplayEnvironmentReport { material_mismatch: material, warnings }
}

/// Runs [`check_replay_environment`] using the optional fingerprint stored on `bundle`.
pub fn check_bundle_replay_environment(
    bundle: &crate::CaseBundle,
    current: &EnvironmentFingerprint,
) -> (r: ReplayEnvironmentReport)
    ensures
        r@ == spec_replay_report(bundle.environment, *current),
{
    check_replay_environment(bundle.environment.as_ref(), current)
}

/// A fingerprint compared with itself is clean: no mismatch and no warnings.
pub proof fn law_identical_fingerprint_is_clean(fp: EnvironmentFingerprint)
    ensures
        !spec_replay_report(Some(fp), fp).material_mismatch,
        spec_replay_report(Some(fp), fp).warnings.len() == 0,
{
}

/// The tool version never makes a difference: two fingerprints that agree on
/// `os`, `arch` and `family` compare clean whatever their tool versions.
pub proof fn law_tool_version_not_material(rec: EnvironmentFingerprint, cur: EnvironmentFingerprint)
    requires
        rec.os@ == cur.os@,
        rec.arch@ == cur.arch@,
        rec.family@ == cur.family@,
    ensures
        !spec_replay_report(Some(rec), cur).material_mismatch,
        spec_replay_report(Some(rec), cur).warnings.len() == 0,
{
}

/// A mismatch is reported exactly when there is at least one warning.
pub proof fn law_mismatch_iff_warnings(rec: Option<EnvironmentFingerprint>, cur: EnvironmentFingerprint)
    ensures
        spec_replay_report(rec, cur).material_mismatch <==> spec_replay_report(rec, cur).warnings.len()
            > 0,
{
}

} // verus!
