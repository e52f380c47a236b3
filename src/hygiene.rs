//! Removal of the headers that concern one connection only.
use vstd::prelude::*;
use crate::error::ProxyError;
use crate::headers::{first_value, keep, listed, HeaderSet, HeaderValue, ValueView};
use crate::text::{same_name, split, split_str, trim, trim_str};

verus! {

/// The hop-by-hop header names, removed whatever the connection header says.
pub open spec fn hop_names() -> Seq<Seq<char>> {
    seq![
        "connection"@,
        "te"@,
        "trailer"@,
        "keep-alive"@,
        "proxy-connection"@,
        "proxy-authenticate"@,
        "proxy-authorization"@,
        "transfer-encoding"@,
        "upgrade"@,
    ]
}

/// The non-empty trimmed pieces among `pieces`, in order.
pub open spec fn named_tokens(pieces: Seq<Seq<char>>) -> Seq<Seq<char>>
    decreases pieces.len(),
{
    if pieces.len() == 0 {
        Seq::empty()
    } else {
        let prev = named_tokens(pieces.drop_last());
        let t = trim(pieces.last());
        if t.len() > 0 {
            prev.push(t)
        } else {
            prev
        }
    }
}

/// The header names that a connection header value lists: its
/// comma-separated pieces, trimmed, leaving out the empty ones.
pub open spec fn connection_tokens(v: Seq<char>) -> Seq<Seq<char>> {
    named_tokens(split(v, ','))
}

/// What hygiene leaves of the entries `s`, or `None` when the connection
/// header is not text.
pub open spec fn cleaned(s: Seq<(Seq<char>, ValueView)>) -> Option<Seq<(Seq<char>, ValueView)>> {
    match first_value(s, "connection"@) {
        Some(ValueView::Bytes(_)) => None,
        Some(ValueView::Text(v)) => Some(keep(keep(s, connection_tokens(v)), hop_names())),
        None => Some(keep(s, hop_names())),
    }
}

pub proof fn lemma_listed_push(x: Seq<char>, names: Seq<Seq<char>>, n: Seq<char>)
    ensures
        listed(x, names.push(n)) == (listed(x, names) || same_name(x, n)),
        listed(x, seq![n]) == same_name(x, n),
{
    let p = names.push(n);
    if listed(x, p) {
        let i = choose|i: int| 0 <= i < p.len() && same_name(x, #[trigger] p[i]);
        if i < names.len() {
            assert(same_name(x, names[i]));
        }
    }
    if listed(x, names) {
        let i = choose|i: int| 0 <= i < names.len() && same_name(x, #[trigger] names[i]);
        assert(same_name(x, p[i]));
    }
    if same_name(x, n) {
        assert(same_name(x, p[names.len() as int]));
        assert(same_name(x, seq![n][0]));
    }
    if listed(x, seq![n]) {
        let i = choose|i: int| 0 <= i < 1 && same_name(x, #[trigger] seq![n][i]);
        assert(i == 0);
    }
}

/// Removing the names one after the other is removing them all at once.
pub proof fn lemma_keep_push(s: Seq<(Seq<char>, ValueView)>, names: Seq<Seq<char>>, n: Seq<char>)
    ensures
        keep(keep(s, names), seq![n]) == keep(s, names.push(n)),
    decreases s.len(),
{
    if s.len() > 0 {
        let t = s.drop_last();
        let x = s.last();
        lemma_keep_push(t, names, n);
        lemma_listed_push(x.0, names, n);
        if !listed(x.0, names) {
            let k = keep(t, names).push(x);
            assert(k.drop_last() =~= keep(t, names));
            assert(k.last() == x);
        }
    }
}

/// Removing the same names twice is removing them once.
pub proof fn lemma_keep_idempotent(s: Seq<(Seq<char>, ValueView)>, names: Seq<Seq<char>>)
    ensures
        keep(keep(s, names), names) == keep(s, names),
    decreases s.len(),
{
    if s.len() > 0 {
        let t = s.drop_last();
        let x = s.last();
        lemma_keep_idempotent(t, names);
        if !listed(x.0, names) {
            let k = keep(t, names).push(x);
            assert(k.drop_last() =~= keep(t, names));
            assert(k.last() == x);
        }
    }
}

/// No entry that is left has a listed name.
pub proof fn lemma_keep_unlisted(s: Seq<(Seq<char>, ValueView)>, names: Seq<Seq<char>>)
    ensures
        forall|i: int|
            0 <= i < keep(s, names).len() ==> !listed(#[trigger] keep(s, names)[i].0, names),
    decreases s.len(),
{
    if s.len() > 0 {
        let t = s.drop_last();
        lemma_keep_unlisted(t, names);
        let k = keep(s, names);
        assert forall|i: int| 0 <= i < k.len() implies !listed(#[trigger] k[i].0, names) by {
            if i < keep(t, names).len() {
                assert(k[i] == keep(t, names)[i]);
            }
        }
    }
}

/// Nothing is removed from entries that have no listed name.
pub proof fn lemma_keep_all_unlisted(s: Seq<(Seq<char>, ValueView)>, names: Seq<Seq<char>>)
    requires
        forall|i: int| 0 <= i < s.len() ==> !listed(#[trigger] s[i].0, names),
    ensures
        keep(s, names) == s,
    decreases s.len(),
{
    if s.len() > 0 {
        let t = s.drop_last();
        assert forall|i: int| 0 <= i < t.len() implies !listed(#[trigger] t[i].0, names) by {
            assert(t[i] == s[i]);
        }
        lemma_keep_all_unlisted(t, names);
        assert(s.last() == s[s.len() - 1]);
        assert(t.push(s.last()) =~= s);
    }
}

/// Removing the hop-by-hop headers leaves no entry whose name is one of them
/// up to case, and leaves entries of other names as they were: a set that has
/// none keeps all its entries, with their values, in their order.
pub proof fn lemma_hop_headers_removed(s: Seq<(Seq<char>, ValueView)>)
    ensures
        forall|i: int|
            0 <= i < keep(s, hop_names()).len() ==> !listed(
                #[trigger] keep(s, hop_names())[i].0,
                hop_names(),
            ),
        (forall|i: int| 0 <= i < s.len() ==> !listed(#[trigger] s[i].0, hop_names())) ==> keep(
            s,
            hop_names(),
        ) == s,
{
    lemma_keep_unlisted(s, hop_names());
    if forall|i: int| 0 <= i < s.len() ==> !listed(#[trigger] s[i].0, hop_names()) {
        lemma_keep_all_unlisted(s, hop_names());
    }
}

/// The first entry named `name` is one whose name is `name` up to case.
pub proof fn lemma_first_value_named(s: Seq<(Seq<char>, ValueView)>, name: Seq<char>)
    ensures
        first_value(s, name) is Some ==> exists|i: int|
            0 <= i < s.len() && same_name(#[trigger] s[i].0, name),
    decreases s.len(),
{
    if s.len() > 0 {
        lemma_first_value_named(s.drop_last(), name);
        if first_value(s.drop_last(), name) is Some {
            let i = choose|i: int|
                0 <= i < s.drop_last().len() && same_name(#[trigger] s.drop_last()[i].0, name);
            assert(s[i] == s.drop_last()[i]);
        } else if first_value(s, name) is Some {
            assert(s[s.len() - 1] == s.last());
        }
    }
}

/// Once hygiene has run, the set holds no hop-by-hop header, and no entry
/// whose name the connection header listed; the other entries stay, with
/// their values, in their order.
pub proof fn lemma_hygiene_removes(s: Seq<(Seq<char>, ValueView)>)
    requires
        cleaned(s) is Some,
    ensures
        forall|i: int|
            0 <= i < cleaned(s)->0.len() ==> !listed(#[trigger] cleaned(s)->0[i].0, hop_names()),
        first_value(s, "connection"@) matches Some(ValueView::Text(v)) ==> cleaned(s)->0 == keep(
            keep(s, connection_tokens(v)),
            hop_names(),
        ),
        first_value(s, "connection"@) is None ==> cleaned(s)->0 == keep(s, hop_names()),
{
    match first_value(s, "connection"@) {
        Some(ValueView::Text(v)) => lemma_keep_unlisted(keep(s, connection_tokens(v)), hop_names()),
        _ => lemma_keep_unlisted(s, hop_names()),
    }
}

/// Hygiene applied to its own result changes nothing.
pub proof fn lemma_hygiene_idempotent(s: Seq<(Seq<char>, ValueView)>)
    requires
        cleaned(s) is Some,
    ensures
        cleaned(cleaned(s)->0) == cleaned(s),
{
    let t = cleaned(s)->0;
    let base = match first_value(s, "connection"@) {
        Some(ValueView::Text(v)) => keep(s, connection_tokens(v)),
        _ => s,
    };
    assert(t == keep(base, hop_names()));
    lemma_keep_unlisted(base, hop_names());
    lemma_first_value_named(t, "connection"@);
    if first_value(t, "connection"@) is Some {
        let i = choose|i: int| 0 <= i < t.len() && same_name(#[trigger] t[i].0, "connection"@);
        assert(same_name(t[i].0, hop_names()[0]));
        assert(listed(t[i].0, hop_names()));
    }
    lemma_keep_idempotent(base, hop_names());
}

/// The hop-by-hop header names.
pub fn hop_headers() -> (r: Vec<&'static str>)
    ensures
        r.len() == hop_names().len(),
        forall|i: int| 0 <= i < r.len() ==> (#[trigger] r[i])@ == hop_names()[i],
{
    vec![
        "connection",
        "te",
        "trailer",
        "keep-alive",
        "proxy-connection",
        "proxy-authenticate",
        "proxy-authorization",
        "transfer-encoding",
        "upgrade",
    ]
}

/// Removes every hop-by-hop header, leaving the other entries in order.
pub fn remove_hop_headers(headers: &mut HeaderSet)
    ensures
        final(headers)@ == keep(old(headers)@, hop_names()),
{
    let hops = hop_headers();
    let ghost orig = headers@;
    let mut k: usize = 0;
    proof {
        lemma_keep_all_unlisted(orig, hop_names().take(0));
    }
    while k < hops.len()
        invariant
            hops.len() == hop_names().len(),
            forall|i: int| 0 <= i < hops.len() ==> (#[trigger] hops[i])@ == hop_names()[i],
            k <= hops.len(),
            headers@ == keep(orig, hop_names().take(k as int)),
        decreases hops.len() - k,
    {
        headers.remove(hops[k]);
        proof {
            lemma_keep_push(orig, hop_names().take(k as int), hop_names()[k as int]);
            assert(hop_names().take(k as int).push(hop_names()[k as int]) =~= hop_names().take(
                k + 1,
            ));
        }
        k = k + 1;
    }
    assert(hop_names().take(9) =~= hop_names());
}

/// Removes the entries that the connection header lists by name; fails when
/// that header is not text.
pub fn remove_connection_headers(headers: &mut HeaderSet) -> (r: Result<(), ProxyError>)
    ensures
        match first_value(old(headers)@, "connection"@) {
            Some(ValueView::Bytes(_)) => r matches Err(ProxyError::ForwardHeaderError)
                && final(headers)@ == old(headers)@,
            Some(ValueView::Text(v)) => r is Ok && final(headers)@ == keep(
                old(headers)@,
                connection_tokens(v),
            ),
            None => r is Ok && final(headers)@ == old(headers)@,
        },
{
    let value = match headers.get("connection") {
        None => return Ok(()),
        Some(HeaderValue::Bytes(_)) => return Err(ProxyError::ForwardHeaderError),
        Some(HeaderValue::Text(v)) => v.clone(),
    };
    let ghost orig = headers@;
    let ghost pieces_v = split(value@, ',');
    let pieces = split_str(value.as_str(), ',');
    let mut k: usize = 0;
    proof {
        assert(pieces_v.take(0) =~= Seq::<Seq<char>>::empty());
        lemma_keep_all_unlisted(orig, named_tokens(pieces_v.take(0)));
    }
    while k < pieces.len()
        invariant
            pieces_v == split(value@, ','),
            pieces.len() == pieces_v.len(),
            forall|i: int| 0 <= i < pieces.len() ==> (#[trigger] pieces[i])@ == pieces_v[i],
            k <= pieces.len(),
            headers@ == keep(orig, named_tokens(pieces_v.take(k as int))),
        decreases pieces.len() - k,
    {
        let name = trim_str(pieces[k]);
        proof {
            assert(pieces_v.take(k + 1).drop_last() =~= pieces_v.take(k as int));
            assert(pieces_v.take(k + 1).last() == pieces_v[k as int]);
        }
        if !name.is_empty() {
            headers.remove(name);
            proof {
                lemma_keep_push(orig, named_tokens(pieces_v.take(k as int)), name@);
            }
        }
        k = k + 1;
    }
    assert(pieces_v.take(pieces.len() as int) =~= pieces_v);
    Ok(())
}

/// Header hygiene: removes the entries that the connection header lists,
/// then the hop-by-hop headers. Fails, changing nothing, when the connection
/// header is not text.
pub fn remove_hop_by_hop(headers: &mut HeaderSet) -> (r: Result<(), ProxyError>)
    ensures
        match cleaned(old(headers)@) {
            Some(s) => r is Ok && final(headers)@ == s,
            None => r matches Err(ProxyError::ForwardHeaderError) && final(headers)@ == old(
                headers,
            )@,
        },
{
    match remove_connection_headers(headers) {
        Ok(()) => {},
        Err(e) => return Err(e),
    }
    remove_hop_headers(headers);
    Ok(())
}

} // verus!
