//! The parts of requests and responses that the proxy reads and rewrites.
use vstd::prelude::*;
use crate::headers::HeaderSet;

verus! {

#[verifier::external_type_specification]
#[verifier::external_body]
pub struct ExUri(hyper::Uri);

/// An inbound request: its path, its query if the URI has one, its headers.
#[derive(Debug)]
pub struct RequestHead {
    pub path: String,
    pub query: Option<String>,
    pub headers: HeaderSet,
}

/// The request to send to the origin: the forwarding URI, as text and as
/// parsed from that text, and the headers.
#[derive(Debug)]
pub struct ForwardedRequest {
    pub uri: hyper::Uri,
    pub uri_text: String,
    pub headers: HeaderSet,
}

/// A response: its status code and headers.
#[derive(Debug)]
pub struct ResponseHead {
    pub status: u16,
    pub headers: HeaderSet,
}

impl RequestHead {
    /// The query of the request, empty when the URI has none.
    pub open spec fn query_text(&self) -> Seq<char> {
        match self.query {
            Some(q) => q@,
            None => Seq::empty(),
        }
    }
}

} // verus!
