//! Validation of seeds against the engine's seed schema: the payload length
//! must lie within the schema's bounds.
use vstd::prelude::*;

use crate::text::{push_decimal, spec_decimal};
use crate::{CaseSeed, SeedView};
use vstd::string::StringExecFns;

verus! {

/// Bounds that a seed must meet to be run by the engine.
#[derive(Debug, Clone, Copy, PartialEq, Eq, Structural)]
pub struct SeedSchema {
    /// Fewest payload bytes accepted.
    pub min_payload_len: usize,
    /// Most payload bytes accepted (the seed cap).
    pub max_payload_len: usize,
}

impl Default for SeedSchema {
    /// Payloads of 1 to 64 bytes.
    fn default() -> (r: Self)
        ensures
            r == (SeedSchema { min_payload_len: 1, max_payload_len: 64 }),
    {
        SeedSchema { min_payload_len: 1, max_payload_len: 64 }
    }
}

/// A way in which a seed breaks its schema.
#[derive(Debug, Clone, Copy, PartialEq, Eq, Structural)]
pub enum SeedValidationError {
    /// The payload has fewer bytes than the schema's minimum.
    PayloadTooShort { len: usize, min: usize },
    /// The payload has more bytes than the schema's maximum.
    PayloadTooLong { len: usize, max: usize },
}

impl SeedValidationError {
    /// The error message.
    pub open spec fn spec_message(self) -> Seq<char> {
        match self {
            SeedValidationError::PayloadTooShort { len, min } => "payload too short: "@
                + spec_decimal(len as nat) + " bytes (minimum "@ + spec_decimal(min as nat) + ")"@,
            SeedValidationError::PayloadTooLong { len, max } => "payload too long: "@
                + spec_decimal(len as nat) + " bytes (maximum "@ + spec_decimal(max as nat) + ")"@,
        }
    }

    /// Human-readable description of the error.
    pub fn message(&self) -> (r: String)
        ensures
            r@ == self.spec_message(),
    {
        match self {
            SeedValidationError::PayloadTooShort { len, min } => {
                let mut s = String::from_str("payload too short: ");
                push_decimal(&mut s, *len as u64);
                s.append(" bytes (minimum ");
                push_decimal(&mut s, *min as u64);
                s.append(")");
                s
            },
            SeedValidationError::PayloadTooLong { len, max } => {
                let mut s = String::from_str("payload too long: ");
                push_decimal(&mut s, *len as u64);
                s.append(" bytes (maximum ");
                push_decimal(&mut s, *max as u64);
                s.append(")");
                s
            },
        }
    }
}

/// Every way in which `seed` breaks `schema`: a short payload first, then a
/// long one.
pub open spec fn spec_seed_errors(seed: SeedView, schema: SeedSchema) -> Seq<SeedValidationError> {
    let len = seed.payload.len();
    let short: Seq<SeedValidationError> = if len < schema.min_payload_len {
        seq![SeedValidationError::PayloadTooShort { len: len as usize, min: schema.min_payload_len }]
    } else {
        seq![]
    };
    let long: Seq<SeedValidationError> = if len > schema.max_payload_len {
        seq![SeedValidationError::PayloadTooLong { len: len as usize, max: schema.max_payload_len }]
    } else {
        seq![]
    };
    short + long
}

/// Checking a value against a [`SeedSchema`].
pub trait Validate {
    /// `Ok` when the value meets the schema, else every error found.
    fn validate(&self, schema: &SeedSchema) -> Result<(), Vec<SeedValidationError>>;
}

impl Validate for CaseSeed {
    fn validate(&self, schema: &SeedSchema) -> (r: Result<(), Vec<SeedValidationError>>)
        ensures
            r is Ok <==> spec_seed_errors(self@, *schema).len() == 0,
            r matches Err(errors) ==> errors@ == spec_seed_errors(self@, *schema) && errors@.len() > 0,
    {
        let len = self.payload.len();
        let mut errors: Vec<SeedValidationError> = Vec::new();
        if len < schema.min_payload_len {
            errors.push(SeedValidationError::PayloadTooShort { len, min: schema.min_payload_len });
        }
        if len > schema.max_payload_len {
            errors.push(SeedValidationError::PayloadTooLong { len, max: schema.max_payload_len });
        }
        assert(errors@ =~= spec_seed_errors(self@, *schema));
        if errors.len() == 0 {
            Ok(())
        } else {
            Err(errors)
        }
    }
}

} // verus!
