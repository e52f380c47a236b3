//! The request sent to the origin: forwarding URL, header hygiene, upgrade
//! and trailer headers, and the forwarding chain.
use vstd::prelude::*;
use crate::error::ProxyError;
use crate::forward::{forward_uri, forward_uri_of};
use crate::headers::{first_value, keep, replaced, HeaderSet, HeaderValue, ValueView};
use crate::hygiene::{cleaned, remove_hop_by_hop};
use crate::message::{ForwardedRequest, RequestHead};
use crate::upgrade::{contains_token, has_token};

verus! {

/// Whether a string parses as a URI; a property of the string alone.
pub uninterp spec fn uri_parses(s: Seq<char>) -> bool;

/// Relies on `<http::Uri as FromStr>::from_str` (re-exported by hyper as
/// `hyper::Uri`): it returns `Ok` exactly for the strings it accepts as a URI,
/// which depends on the string alone.
#[verifier::external_body]
fn parse_uri(s: &str) -> (r: Result<hyper::Uri, hyper::http::uri::InvalidUri>)
    ensures
        r is Ok == uri_parses(s@),
{
    s.parse::<hyper::Uri>()
}

/// Whether the te header asks for trailers; `None` when it is not text.
pub open spec fn te_trailers(s: Seq<(Seq<char>, ValueView)>) -> Option<bool> {
    match first_value(s, "te"@) {
        Some(ValueView::Bytes(_)) => None,
        Some(ValueView::Text(v)) => Some(has_token(v, "trailers"@)),
        None => Some(false),
    }
}

/// The entries `s` with `ip` added to the forwarding chain; `None` when the
/// chain is not text.
pub open spec fn forwarded_for(s: Seq<(Seq<char>, ValueView)>, ip: Seq<char>) -> Option<
    Seq<(Seq<char>, ValueView)>,
> {
    match first_value(s, "x-forwarded-for"@) {
        None => Some(replaced(s, "x-forwarded-for"@, ValueView::Text(ip))),
        Some(ValueView::Text(v)) => Some(
            replaced(s, "x-forwarded-for"@, ValueView::Text(v + ", "@ + ip)),
        ),
        Some(ValueView::Bytes(_)) => None,
    }
}

/// The headers of the forwarded request, made from the inbound headers `s`
/// for client `ip` and the protocol `upgrade` that the request asks for;
/// `None` when a header that this reads is not text.
pub open spec fn outbound_headers(
    s: Seq<(Seq<char>, ValueView)>,
    ip: Seq<char>,
    upgrade: Option<Seq<char>>,
) -> Option<Seq<(Seq<char>, ValueView)>> {
    match (te_trailers(s), cleaned(keep(s, seq!["host"@]))) {
        (Some(trailers), Some(c)) => {
            let with_te = if trailers {
                replaced(c, "te"@, ValueView::Text("trailers"@))
            } else {
                c
            };
            let with_upgrade = match upgrade {
                Some(u) => replaced(
                    replaced(with_te, "upgrade"@, ValueView::Text(u)),
                    "connection"@,
                    ValueView::Text("UPGRADE"@),
                ),
                None => with_te,
            };
            forwarded_for(with_upgrade, ip)
        },
        _ => None,
    }
}

/// Adds `client_ip` to the forwarding chain: sets it when the chain is
/// absent, appends `", "` and it otherwise. Fails, changing nothing, when the
/// chain is not text.
pub fn append_forwarded_for(headers: &mut HeaderSet, client_ip: &str) -> (r: Result<
    (),
    ProxyError,
>)
    ensures
        match forwarded_for(old(headers)@, client_ip@) {
            Some(s) => r is Ok && final(headers)@ == s,
            None => r matches Err(ProxyError::ForwardHeaderError) && final(headers)@ == old(
                headers,
            )@,
        },
{
    let chain = match headers.get("x-forwarded-for") {
        None => String::from_str(client_ip),
        Some(HeaderValue::Bytes(_)) => return Err(ProxyError::ForwardHeaderError),
        Some(HeaderValue::Text(v)) => {
            let mut chain = v.clone();
            chain.append(", ");
            chain.append(client_ip);
            chain
        },
    };
    headers.insert(String::from_str("x-forwarded-for"), HeaderValue::Text(chain));
    Ok(())
}

/// Builds the request to send to the origin under the target `forward_url`
/// for a client at `client_ip`, given the protocol `upgrade_type` that the
/// inbound request asks to switch to.
pub fn create_proxied_request(
    client_ip: &str,
    forward_url: &str,
    request: RequestHead,
    upgrade_type: Option<&String>,
) -> (r: Result<ForwardedRequest, ProxyError>)
    ensures
        match r {
            Ok(f) => {
                &&& f.uri_text@ == forward_uri_of(forward_url@, request.path@, request.query_text())
                &&& uri_parses(f.uri_text@)
                &&& outbound_headers(
                    request.headers@,
                    client_ip@,
                    crate::upgrade::ref_view(upgrade_type),
                ) == Some(f.headers@)
            },
            Err(ProxyError::InvalidUri(_)) => {
                &&& te_trailers(request.headers@) is Some
                &&& !uri_parses(forward_uri_of(forward_url@, request.path@, request.query_text()))
            },
            Err(ProxyError::ForwardHeaderError) => {
                ||| te_trailers(request.headers@) is None
                ||| {
                    &&& uri_parses(
                        forward_uri_of(forward_url@, request.path@, request.query_text()),
                    )
                    &&& outbound_headers(
                        request.headers@,
                        client_ip@,
                        crate::upgrade::ref_view(upgrade_type),
                    ) is None
                }
            },
            Err(_) => false,
        },
{
    let mut request = request;
    let trailers = match request.headers.get("te") {
        None => false,
        Some(HeaderValue::Bytes(_)) => return Err(ProxyError::ForwardHeaderError),
        Some(HeaderValue::Text(v)) => contains_token(v.as_str(), "trailers"),
    };
    let uri_text = forward_uri(forward_url, &request);
    let uri = match parse_uri(uri_text.as_str()) {
        Ok(u) => u,
        Err(e) => return Err(ProxyError::from(e)),
    };
    let mut headers = request.headers;
    headers.remove("host");
    match remove_hop_by_hop(&mut headers) {
        Ok(()) => {},
        Err(e) => return Err(e),
    }
    if trailers {
        headers.insert(String::from_str("te"), HeaderValue::Text(String::from_str("trailers")));
    }
    match upgrade_type {
        Some(value) => {
            headers.insert(String::from_str("upgrade"), HeaderValue::Text(value.clone()));
            headers.insert(
                String::from_str("connection"),
                HeaderValue::Text(String::from_str("UPGRADE")),
            );
        },
        None => {},
    }
    match append_forwarded_for(&mut headers, client_ip) {
        Ok(()) => {},
        Err(e) => return Err(e),
    }
    Ok(ForwardedRequest { uri, uri_text, headers })
}

} // verus!
