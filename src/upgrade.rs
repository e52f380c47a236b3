//! Detection of protocol upgrades and the checks made before two upgraded
//! connections are joined.
use vstd::prelude::*;
use crate::error::ProxyError;
use crate::headers::{first_value, HeaderSet, HeaderValue, ValueView};
use crate::text::{eq_ignore_case, same_name, same_text, split, split_str, trim, trim_str};

verus! {

/// Whether the comma-separated list `v` holds `t`, trimmed and up to case.
pub open spec fn has_token(v: Seq<char>, t: Seq<char>) -> bool {
    exists|i: int| 0 <= i < split(v, ',').len() && same_name(trim(#[trigger] split(v, ',')[i]), t)
}

/// The view of an optional string.
pub open spec fn opt_view(o: Option<String>) -> Option<Seq<char>> {
    match o {
        Some(s) => Some(s@),
        None => None,
    }
}

/// The view of an optional borrowed string.
pub open spec fn ref_view(o: Option<&String>) -> Option<Seq<char>> {
    match o {
        Some(s) => Some(s@),
        None => None,
    }
}

/// The protocol that the headers `s` ask to switch to: the upgrade header's
/// value when the connection header lists `upgrade`. `None` when one of the
/// two headers that this reads is not text.
pub open spec fn upgrade_of(s: Seq<(Seq<char>, ValueView)>) -> Option<Option<Seq<char>>> {
    match first_value(s, "connection"@) {
        Some(ValueView::Bytes(_)) => None,
        Some(ValueView::Text(c)) => if has_token(c, "upgrade"@) {
            match first_value(s, "upgrade"@) {
                Some(ValueView::Text(u)) => Some(Some(u)),
                Some(ValueView::Bytes(_)) => None,
                None => Some(None),
            }
        } else {
            Some(None)
        },
        None => Some(None),
    }
}

/// How an absent protocol is written in a message.
pub open spec fn describe(o: Option<Seq<char>>) -> Seq<char> {
    match o {
        Some(p) => p,
        None => "none"@,
    }
}

/// The message of the error for an origin that switched to `offered` when
/// `requested` was asked for.
pub open spec fn mismatch_message(requested: Option<Seq<char>>, offered: Option<Seq<char>>) -> Seq<
    char,
> {
    "backend tried to switch to protocol "@ + describe(offered) + " when "@ + describe(requested)
        + " was requested"@
}

/// Whether the comma-separated list `v` holds `t`, trimmed and up to case.
pub fn contains_token(v: &str, t: &str) -> (r: bool)
    ensures
        r == has_token(v@, t@),
{
    let pieces = split_str(v, ',');
    let mut i: usize = 0;
    while i < pieces.len()
        invariant
            pieces.len() == split(v@, ',').len(),
            forall|k: int| 0 <= k < pieces.len() ==> (#[trigger] pieces[k])@ == split(v@, ',')[k],
            i <= pieces.len(),
            forall|k: int| 0 <= k < i ==> !same_name(trim(#[trigger] split(v@, ',')[k]), t@),
        decreases pieces.len() - i,
    {
        if eq_ignore_case(trim_str(pieces[i]), t) {
            return true;
        }
        i = i + 1;
    }
    false
}

/// The protocol that `headers` ask to switch to, if any; fails when the
/// connection or upgrade header that this reads is not text.
pub fn get_upgrade_type(headers: &HeaderSet) -> (r: Result<Option<String>, ProxyError>)
    ensures
        match r {
            Ok(t) => upgrade_of(headers@) == Some(opt_view(t)),
            Err(e) => upgrade_of(headers@) is None && e is ForwardHeaderError,
        },
{
    match headers.get("connection") {
        None => Ok(None),
        Some(HeaderValue::Bytes(_)) => Err(ProxyError::ForwardHeaderError),
        Some(HeaderValue::Text(c)) => {
            if !contains_token(c.as_str(), "upgrade") {
                return Ok(None);
            }
            match headers.get("upgrade") {
                None => Ok(None),
                Some(HeaderValue::Bytes(_)) => Err(ProxyError::ForwardHeaderError),
                Some(HeaderValue::Text(u)) => Ok(Some(u.clone())),
            }
        },
    }
}

fn same_protocol(a: Option<&String>, b: &Option<String>) -> (r: bool)
    ensures
        r == (ref_view(a) == opt_view(*b)),
{
    match (a, b) {
        (Some(x), Some(y)) => same_text(x.as_str(), y.as_str()),
        (None, None) => true,
        _ => false,
    }
}

fn describe_protocol(o: &Option<String>) -> (r: String)
    ensures
        r@ == describe(opt_view(*o)),
{
    match o {
        Some(p) => p.clone(),
        None => String::from_str("none"),
    }
}

/// Checks a switch of protocols by the origin against the request: the
/// request must carry an upgrade handle and ask for the protocol that the
/// response `response` switches to.
pub fn negotiate_upgrade(
    requested: Option<&String>,
    request_has_handle: bool,
    response: &HeaderSet,
) -> (r: Result<(), ProxyError>)
    ensures
        !request_has_handle ==> (r matches Err(ProxyError::UpgradeError(m))
            && m@ == "request does not have an upgrade extension"@),
        request_has_handle ==> match upgrade_of(response@) {
            None => r matches Err(ProxyError::ForwardHeaderError),
            Some(offered) => if offered == ref_view(requested) {
                r is Ok
            } else {
                (r matches Err(ProxyError::UpgradeError(m)) && m@ == mismatch_message(
                    ref_view(requested),
                    offered,
                ))
            },
        },
{
    if !request_has_handle {
        return Err(ProxyError::UpgradeError(String::from_str("request does not have an upgrade extension")));
    }
    let offered = match get_upgrade_type(response) {
        Ok(t) => t,
        Err(e) => return Err(e),
    };
    if same_protocol(requested, &offered) {
        return Ok(());
    }
    let wanted: Option<String> = match requested {
        Some(p) => Some(p.clone()),
        None => None,
    };
    let mut m = String::from_str("backend tried to switch to protocol ");
    let o = describe_protocol(&offered);
    m.append(o.as_str());
    m.append(" when ");
    let w = describe_protocol(&wanted);
    m.append(w.as_str());
    m.append(" was requested");
    Err(ProxyError::UpgradeError(m))
}

} // verus!
