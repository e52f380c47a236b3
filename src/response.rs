//! What becomes of the origin's response: hygiene, or a switch of protocols
//! that joins the two connections.
use vstd::prelude::*;
use crate::error::ProxyError;
use crate::hygiene::{cleaned, remove_hop_by_hop};
use crate::message::ResponseHead;
use crate::upgrade::{mismatch_message, negotiate_upgrade, ref_view, upgrade_of};

verus! {

/// The status code of a switch of protocols.
pub const SWITCHING_PROTOCOLS: u16 = 101;

/// What to hand back to the caller.
#[derive(Debug)]
pub enum Reply {
    /// Return the response; nothing more to do.
    Forward(ResponseHead),
    /// Return the response, and relay bytes between the two upgraded
    /// connections from now on.
    Tunnel(ResponseHead),
}

/// Applies header hygiene to the origin's response.
pub fn create_proxied_response(response: ResponseHead) -> (r: Result<ResponseHead, ProxyError>)
    ensures
        match cleaned(response.headers@) {
            Some(s) => r matches Ok(h) && h.status == response.status && h.headers@ == s,
            None => r matches Err(ProxyError::ForwardHeaderError),
        },
{
    let mut response = response;
    match remove_hop_by_hop(&mut response.headers) {
        Ok(()) => Ok(response),
        Err(e) => Err(e),
    }
}

/// Decides what becomes of the origin's `response` to a request that asked
/// for the protocol `requested` and that carries an upgrade handle when
/// `request_has_handle`. A switch of protocols is checked and kept as it is;
/// any other response goes through hygiene.
pub fn finish_call(requested: Option<&String>, request_has_handle: bool, response: ResponseHead) -> (r:
    Result<Reply, ProxyError>)
    ensures
        response.status != SWITCHING_PROTOCOLS ==> match cleaned(response.headers@) {
            Some(s) => r matches Ok(Reply::Forward(h)) && h.status == response.status && h.headers@
                == s,
            None => r matches Err(ProxyError::ForwardHeaderError),
        },
        response.status == SWITCHING_PROTOCOLS && !request_has_handle ==> (r matches Err(
            ProxyError::UpgradeError(m),
        ) && m@ == "request does not have an upgrade extension"@),
        response.status == SWITCHING_PROTOCOLS && request_has_handle ==> match upgrade_of(
            response.headers@,
        ) {
            None => r matches Err(ProxyError::ForwardHeaderError),
            Some(offered) => if offered == ref_view(requested) {
                r == Ok::<Reply, ProxyError>(Reply::Tunnel(response))
            } else {
                (r matches Err(ProxyError::UpgradeError(m)) && m@ == mismatch_message(
                    ref_view(requested),
                    offered,
                ))
            },
        },
{
    if response.status == SWITCHING_PROTOCOLS {
        match negotiate_upgrade(requested, request_has_handle, &response.headers) {
            Ok(()) => Ok(Reply::Tunnel(response)),
            Err(e) => Err(e),
        }
    } else {
        match create_proxied_response(response) {
            Ok(h) => Ok(Reply::Forward(h)),
            Err(e) => Err(e),
        }
    }
}

} // verus!
