//! Named fuzz campaign presets for repeatable run profiles.
//!
//! Presets bundle a **runtime mutation budget** (maximum mutation attempts per
//! campaign) and **mutation intensity** (how aggressively the engine explores
//! the mutation space). Values are fixed so CI and operators get predictable
//! behaviour: [`CampaignPreset::Smoke`] for quick checks, [`CampaignPreset::Nightly`]
//! for scheduled runs, and [`CampaignPreset::Deep`] for exhaustive campaigns.
use vstd::prelude::*;

use crate::text::{spec_ascii_lower, spec_trim, str_to_ascii_lowercase, str_trim};
use vstd::string::StringExecFns;

verus! {

/// Predefined fuzz campaign profile (smoke, nightly, or deep).
#[derive(Debug, Clone, Copy, PartialEq, Eq, Hash, Structural)]
pub enum CampaignPreset {
    /// Fast feedback: minimal budget and low exploration intensity.
    Smoke,
    /// Default scheduled profile: balanced budget and intensity.
    Nightly,
    /// Exhaustive: large budget and maximum mutation intensity.
    Deep,
}

/// Parameters derived from a [`CampaignPreset`].
#[derive(Debug, Clone, Copy, PartialEq, Eq, Structural)]
pub struct CampaignParameters {
    /// Maximum mutation attempts for the campaign (runtime budget cap).
    pub max_mutations_per_run: u64,
    /// Mutation intensity in basis points (0–10_000).
    pub mutation_intensity_bps: u32,
}

impl CampaignPreset {
    /// All presets in stable order: smoke → nightly → deep.
    pub const ALL: [CampaignPreset; 3] = [CampaignPreset::Smoke, CampaignPreset::Nightly, CampaignPreset::Deep];

    /// The fixed parameters of a preset.
    pub open spec fn spec_parameters(self) -> CampaignParameters {
        match self {
            CampaignPreset::Smoke => CampaignParameters {
                max_mutations_per_run: 1_000,
                mutation_intensity_bps: 2_500,
            },
            CampaignPreset::Nightly => CampaignParameters {
                max_mutations_per_run: 100_000,
                mutation_intensity_bps: 5_000,
            },
            CampaignPreset::Deep => CampaignParameters {
                max_mutations_per_run: 10_000_000,
                mutation_intensity_bps: 10_000,
            },
        }
    }

    /// The stable snake_case name of a preset.
    pub open spec fn spec_name(self) -> Seq<char> {
        match self {
            CampaignPreset::Smoke => "smoke"@,
            CampaignPreset::Nightly => "nightly"@,
            CampaignPreset::Deep => "deep"@,
        }
    }

    /// Returns the fixed parameters for this preset.
    pub fn parameters(self) -> (r: CampaignParameters)
        ensures
            r == self.spec_parameters(),
    {
        match self {
            CampaignPreset::Smoke => CampaignParameters {
                max_mutations_per_run: 1_000,
                mutation_intensity_bps: 2_500,
            },
            CampaignPreset::Nightly => CampaignParameters {
                max_mutations_per_run: 100_000,
                mutation_intensity_bps: 5_000,
            },
            CampaignPreset::Deep => CampaignParameters {
                max_mutations_per_run: 10_000_000,
                mutation_intensity_bps: 10_000,
            },
        }
    }

    /// Stable snake_case name for CLI and metadata.
    pub fn as_str(self) -> (r: &'static str)
        ensures
            r@ == self.spec_name(),
    {
        match self {
            CampaignPreset::Smoke => "smoke",
            CampaignPreset::Nightly => "nightly",
            CampaignPreset::Deep => "deep",
        }
    }

    /// The name as an owned string (what displaying the preset prints).
    pub fn to_string(&self) -> (r: String)
        ensures
            r@ == self.spec_name(),
    {
        self.as_str().to_owned()
    }

    /// The preset named by `s` (ignoring surrounding whitespace and ASCII
    /// case), or an error holding `s` unchanged.
    pub open spec fn spec_parse(s: Seq<char>) -> Result<CampaignPreset, Seq<char>> {
        let key = spec_ascii_lower(spec_trim(s));
        if key == "smoke"@ {
            Ok(CampaignPreset::Smoke)
        } else if key == "nightly"@ {
            Ok(CampaignPreset::Nightly)
        } else if key == "deep"@ {
            Ok(CampaignPreset::Deep)
        } else {
            Err(s)
        }
    }

    /// Parses `smoke`, `nightly`, or `deep` (case-insensitive, surrounding
    /// whitespace ignored).
    pub fn parse(s: &str) -> (r: Result<CampaignPreset, ParseCampaignPresetError>)
        ensures
            match r {
                Ok(p) => Self::spec_parse(s@) == Ok::<CampaignPreset, Seq<char>>(p),
                Err(e) => Self::spec_parse(s@) == Err::<CampaignPreset, Seq<char>>(e.0@),
            },
    {
        let key = str_to_ascii_lowercase(str_trim(s));
        if key == String::from_str("smoke") {
            Ok(CampaignPreset::Smoke)
        } else if key == String::from_str("nightly") {
            Ok(CampaignPreset::Nightly)
        } else if key == String::from_str("deep") {
            Ok(CampaignPreset::Deep)
        } else {
            Err(ParseCampaignPresetError(s.to_owned()))
        }
    }
}

/// Parsing a preset's name gives the preset back.
pub proof fn law_preset_name_round_trip(p: CampaignPreset)
    ensures
        CampaignPreset::spec_parse(p.spec_name()) == Ok::<CampaignPreset, Seq<char>>(p),
{
    reveal_strlit("smoke");
    reveal_strlit("nightly");
    reveal_strlit("deep");
    let name = p.spec_name();
    crate::text::lemma_trim_keeps_alnum_ends(name);
    assert(spec_ascii_lower(name) =~= name);
}

/// Error for a name that is not `smoke`, `nightly`, or `deep`; holds the input.
#[derive(Debug, Clone, PartialEq, Eq)]
pub struct ParseCampaignPresetError(pub String);

impl ParseCampaignPresetError {
    /// The error message: the rejected input, quoted, and the accepted names.
    pub open spec fn spec_message(self) -> Seq<char> {
        "unknown campaign preset "@ + crate::text::spec_str_debug(self.0@)
            + ": expected smoke, nightly, or deep"@
    }

    /// Human-readable description of the error.
    pub fn message(&self) -> (r: String)
        ensures
            r@ == self.spec_message(),
    {
        let mut s = String::from_str("unknown campaign preset ");
        s.append(crate::text::str_debug(self.0.as_str()).as_str());
        s.append(": expected smoke, nightly, or deep");
        s
    }
}

impl std::str::FromStr for CampaignPreset {
    type Err = ParseCampaignPresetError;

    fn from_str(s: &str) -> (r: Result<Self, Self::Err>)
        ensures
            match r {
                Ok(p) => Self::spec_parse(s@) == Ok::<CampaignPreset, Seq<char>>(p),
                Err(e) => Self::spec_parse(s@) == Err::<CampaignPreset, Seq<char>>(e.0@),
            },
    {
        CampaignPreset::parse(s)
    }
}

/// Budgets and intensities strictly increase from smoke to nightly to deep, and
/// every intensity is at most 10 000 basis points.
pub proof fn law_presets_ordered()
    ensures
        CampaignPreset::Smoke.spec_parameters().max_mutations_per_run
            < CampaignPreset::Nightly.spec_parameters().max_mutations_per_run,
        CampaignPreset::Nightly.spec_parameters().max_mutations_per_run
            < CampaignPreset::Deep.spec_parameters().max_mutations_per_run,
        CampaignPreset::Smoke.spec_parameters().mutation_intensity_bps
            < CampaignPreset::Nightly.spec_parameters().mutation_intensity_bps,
        CampaignPreset::Nightly.spec_parameters().mutation_intensity_bps
            < CampaignPreset::Deep.spec_parameters().mutation_intensity_bps,
        forall|p: CampaignPreset| #[trigger] p.spec_parameters().mutation_intensity_bps <= 10_000,
{
}

} // verus!
