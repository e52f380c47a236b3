//! The errors of a proxied call.
use vstd::prelude::*;

verus! {

#[verifier::external_type_specification]
#[verifier::external_body]
pub struct ExInvalidUri(hyper::http::uri::InvalidUri);

#[verifier::external_type_specification]
#[verifier::external_body]
pub struct ExHyperError(hyper::Error);

#[verifier::external_type_specification]
#[verifier::external_body]
pub struct ExToStrError(hyper::header::ToStrError);

#[verifier::external_type_specification]
#[verifier::external_body]
pub struct ExInvalidHeaderValue(hyper::header::InvalidHeaderValue);

/// Why a proxied call failed.
#[derive(Debug)]
pub enum ProxyError {
    /// The forwarding URL does not parse as a URI.
    InvalidUri(hyper::http::uri::InvalidUri),
    /// The transport failed to deliver the request or its response.
    HyperError(hyper::Error),
    /// A header that must be text (connection, upgrade, te,
    /// x-forwarded-for) is not.
    ForwardHeaderError,
    /// The origin switched protocols in a way the request did not ask for.
    UpgradeError(String),
}

impl From<hyper::Error> for ProxyError {
    fn from(err: hyper::Error) -> (r: ProxyError) {
        ProxyError::HyperError(err)
    }
}

impl vstd::std_specs::convert::FromSpecImpl<hyper::Error> for ProxyError {
    open spec fn obeys_from_spec() -> bool {
        true
    }

    open spec fn from_spec(err: hyper::Error) -> ProxyError {
        ProxyError::HyperError(err)
    }
}

impl From<hyper::http::uri::InvalidUri> for ProxyError {
    fn from(err: hyper::http::uri::InvalidUri) -> (r: ProxyError) {
        ProxyError::InvalidUri(err)
    }
}

impl vstd::std_specs::convert::FromSpecImpl<hyper::http::uri::InvalidUri> for ProxyError {
    open spec fn obeys_from_spec() -> bool {
        true
    }

    open spec fn from_spec(err: hyper::http::uri::InvalidUri) -> ProxyError {
        ProxyError::InvalidUri(err)
    }
}

impl From<hyper::header::ToStrError> for ProxyError {
    fn from(_err: hyper::header::ToStrError) -> (r: ProxyError) {
        ProxyError::ForwardHeaderError
    }
}

impl vstd::std_specs::convert::FromSpecImpl<hyper::header::ToStrError> for ProxyError {
    open spec fn obeys_from_spec() -> bool {
        true
    }

    open spec fn from_spec(_err: hyper::header::ToStrError) -> ProxyError {
        ProxyError::ForwardHeaderError
    }
}

impl From<hyper::header::InvalidHeaderValue> for ProxyError {
    fn from(_err: hyper::header::InvalidHeaderValue) -> (r: ProxyError) {
        ProxyError::ForwardHeaderError
    }
}

impl vstd::std_specs::convert::FromSpecImpl<hyper::header::InvalidHeaderValue> for ProxyError {
    open spec fn obeys_from_spec() -> bool {
        true
    }

    open spec fn from_spec(_err: hyper::header::InvalidHeaderValue) -> ProxyError {
        ProxyError::ForwardHeaderError
    }
}

} // verus!
