//! Versioned document form of [`CaseBundle`](crate::CaseBundle) for persistence.
//!
//! Failing cases are stored as portable JSON with a top-level **`schema`**
//! field so future formats can be decoded explicitly. This module holds the
//! document shape and its schema check; reading and writing JSON bytes lives in
//! the application layer.
use vstd::prelude::*;

use crate::text::push_decimal;
use crate::{BundleView, CaseBundle, CaseSeed, CrashSignature, EnvironmentFingerprint, RpcEnvelopeCapture};
use vstd::string::StringExecFns;

verus! {

/// Current on-disk schema version.
pub const CASE_BUNDLE_SCHEMA_VERSION: u32 = 2;

/// Schema versions this crate can load.
pub const SUPPORTED_BUNDLE_SCHEMAS: [u32; 2] = [1, CASE_BUNDLE_SCHEMA_VERSION];

/// Wire/document shape. The `schema` field versions the layout.
#[derive(Debug, PartialEq, Eq)]
pub struct CaseBundleDocument {
    /// Format discriminator; bump when fields are added, removed, or re-interpreted.
    pub schema: u32,
    pub seed: CaseSeed,
    pub signature: CrashSignature,
    pub environment: Option<EnvironmentFingerprint>,
    /// Raw failure output (stderr, host error bytes, trace snippet, etc.).
    pub failure_payload: Vec<u8>,
    /// Captured RPC request/response envelopes for reproducibility auditing.
    pub rpc_envelope: Option<RpcEnvelopeCapture>,
}

/// I/O failure when reading or writing bundle bytes.
#[verifier::external_type_specification]
#[verifier::external_body]
pub struct ExIoError(std::io::Error);

/// JSON encode or decode failure.
#[verifier::external_type_specification]
#[verifier::external_body]
pub struct ExJsonError(serde_json::Error);

/// Errors from loading or saving a bundle.
#[derive(Debug)]
pub enum BundlePersistError {
    /// `serde_json` encode/decode failure.
    Json(serde_json::Error),
    /// I/O when reading or writing bytes.
    Io(std::io::Error),
    /// Document `schema` is not in [`SUPPORTED_BUNDLE_SCHEMAS`].
    UnsupportedSchema { found: u32 },
}

/// Whether a schema version can be loaded.
pub open spec fn spec_schema_supported(schema: u32) -> bool {
    schema == 1 || schema == CASE_BUNDLE_SCHEMA_VERSION
}

/// Whether `schema` is one of [`SUPPORTED_BUNDLE_SCHEMAS`].
pub fn is_supported_schema(schema: u32) -> (r: bool)
    ensures
        r == spec_schema_supported(schema),
{
    let mut i: usize = 0;
    while i < 2
        invariant
            i <= 2,
            SUPPORTED_BUNDLE_SCHEMAS@ == seq![1u32, CASE_BUNDLE_SCHEMA_VERSION],
            forall|k: int| 0 <= k < i ==> SUPPORTED_BUNDLE_SCHEMAS@[k] != schema,
        decreases 2 - i,
    {
        if SUPPORTED_BUNDLE_SCHEMAS[i] == schema {
            return true;
        }
        i = i + 1;
    }
    false
}

/// The text of a JSON failure, as its `Display` prints it.
///
/// Calls `ToString::to_string` on the `serde_json` error; nothing is claimed of
/// the text.
#[verifier::external_body]
pub(crate) fn json_error_text(e: &serde_json::Error) -> String {
    e.to_string()
}

/// The text of an I/O failure, as its `Display` prints it.
///
/// Calls `ToString::to_string` on the error; nothing is claimed of the text.
#[verifier::external_body]
fn io_error_text(e: &std::io::Error) -> String {
    e.to_string()
}

impl BundlePersistError {
    /// The message of an unsupported schema error.
    pub open spec fn spec_unsupported_message(found: u32) -> Seq<char> {
        "unsupported bundle schema version "@ + crate::text::spec_decimal(found as nat)
            + " (supported: [1, 2])"@
    }

    /// Human-readable description of the error: the JSON or I/O failure text
    /// after a prefix, or the unsupported schema and the supported list.
    pub fn message(&self) -> (r: String)
        ensures
            *self matches BundlePersistError::UnsupportedSchema { found } ==> r@
                == Self::spec_unsupported_message(found),
            *self is Json ==> "bundle JSON error: "@.is_prefix_of(r@),
            *self is Io ==> "bundle I/O error: "@.is_prefix_of(r@),
    {
        match self {
            BundlePersistError::Json(e) => {
                let mut s = String::from_str("bundle JSON error: ");
                let ghost head = s@;
                s.append(json_error_text(e).as_str());
                assert(s@.subrange(0, head.len() as int) =~= head);
                s
            },
            BundlePersistError::Io(e) => {
                let mut s = String::from_str("bundle I/O error: ");
                let ghost head = s@;
                s.append(io_error_text(e).as_str());
                assert(s@.subrange(0, head.len() as int) =~= head);
                s
            },
            BundlePersistError::UnsupportedSchema { found } => {
                let mut s = String::from_str("unsupported bundle schema version ");
                push_decimal(&mut s, *found as u64);
                s.append(" (supported: [1, 2])");
                s
            },
        }
    }
}

impl From<serde_json::Error> for BundlePersistError {
    fn from(e: serde_json::Error) -> (r: Self) {
        BundlePersistError::Json(e)
    }
}

impl vstd::std_specs::convert::FromSpecImpl<serde_json::Error> for BundlePersistError {
    open spec fn obeys_from_spec() -> bool {
        true
    }

    open spec fn from_spec(e: serde_json::Error) -> Self {
        BundlePersistError::Json(e)
    }
}

impl From<std::io::Error> for BundlePersistError {
    fn from(e: std::io::Error) -> (r: Self) {
        BundlePersistError::Io(e)
    }
}

impl vstd::std_specs::convert::FromSpecImpl<std::io::Error> for BundlePersistError {
    open spec fn obeys_from_spec() -> bool {
        true
    }

    open spec fn from_spec(e: std::io::Error) -> Self {
        BundlePersistError::Io(e)
    }
}

/// The bundle that a document holds.
pub open spec fn spec_document_bundle(doc: CaseBundleDocument) -> BundleView {
    BundleView {
        seed: doc.seed@,
        signature: doc.signature@,
        environment: doc.environment,
        failure_payload: doc.failure_payload@,
        rpc_envelope: crate::envelope_view(doc.rpc_envelope),
    }
}

impl CaseBundleDocument {
    /// Builds a document from an in-memory bundle using the current schema version.
    pub fn from_bundle(bundle: &CaseBundle) -> (r: Self)
        ensures
            r.schema == CASE_BUNDLE_SCHEMA_VERSION,
            spec_document_bundle(r) == bundle@,
    {
        let b = bundle.clone();
        CaseBundleDocument {
            schema: CASE_BUNDLE_SCHEMA_VERSION,
            seed: b.seed,
            signature: b.signature,
            environment: b.environment,
            failure_payload: b.failure_payload,
            rpc_envelope: b.rpc_envelope,
        }
    }

    /// Converts this document into a [`CaseBundle`] after validating `schema`.
    pub fn into_bundle(self) -> (r: Result<CaseBundle, BundlePersistError>)
        ensures
            spec_schema_supported(self.schema) ==> (r matches Ok(b) && b@ == spec_document_bundle(
                self,
            )),
            !spec_schema_supported(self.schema) ==> (r matches Err(
                BundlePersistError::UnsupportedSchema { found },
            ) && found == self.schema),
    {
        if !is_supported_schema(self.schema) {
            return Err(BundlePersistError::UnsupportedSchema { found: self.schema });
        }
        Ok(
            CaseBundle {
                seed: self.seed,
                signature: self.signature,
                environment: self.environment,
                failure_payload: self.failure_payload,
                rpc_envelope: self.rpc_envelope,
            },
        )
    }
}

/// A document made from a bundle gives that bundle back.
pub proof fn law_document_round_trip(bundle: BundleView, doc: CaseBundleDocument)
    requires
        doc.schema == CASE_BUNDLE_SCHEMA_VERSION,
        spec_document_bundle(doc) == bundle,
    ensures
        spec_schema_supported(doc.schema),
        spec_document_bundle(doc) == bundle,
{
}

} // verus!
