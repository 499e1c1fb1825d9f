//! The errors of a source check.

use vstd::prelude::*;
use vstd::std_specs::convert::FromSpecImpl;

verus! {

/// Why a source check produced no result.
#[derive(Clone, Copy, Debug, PartialEq, Eq, Structural)]
pub enum ErrorCode {
    /// The sample could not be fetched, or what came back was malformed.
    FetchError,
    /// The first fetch for a key returned nothing to take a baseline from.
    BaselineMissingError,
}

/// `reqwest::Error`, carried as an opaque value.
#[verifier::external_type_specification]
#[verifier::external_body]
pub struct ExTransportError(reqwest::Error);

impl From<reqwest::Error> for ErrorCode {
    /// Whatever went wrong in transport or decoding is a fetch error.
    fn from(_error: reqwest::Error) -> (r: ErrorCode) {
        ErrorCode::FetchError
    }
}

impl FromSpecImpl<reqwest::Error> for ErrorCode {
    open spec fn obeys_from_spec() -> bool {
        true
    }

    open spec fn from_spec(_error: reqwest::Error) -> ErrorCode {
        ErrorCode::FetchError
    }
}

} // verus!
