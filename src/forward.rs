//! The URL that a request is forwarded to: the target's path followed by the
//! request's, and the two queries merged.
use vstd::prelude::*;
use crate::message::RequestHead;
use crate::text::{cut, head, split, split_str, same_text, tail};

verus! {

/// `b` without one trailing slash.
pub open spec fn strip_slash(b: Seq<char>) -> Seq<char> {
    if b.len() > 0 && b.last() == '/' {
        b.drop_last()
    } else {
        b
    }
}

/// The keys of the pairs of a query.
pub open spec fn query_keys(q: Seq<char>) -> Seq<Seq<char>> {
    split(q, '&').map_values(|p: Seq<char>| head(p, '='))
}

/// The request pairs, each as `&key=value`, whose key is not among `keys`.
pub open spec fn extra_pairs(pairs: Seq<Seq<char>>, keys: Seq<Seq<char>>) -> Seq<char>
    decreases pairs.len(),
{
    if pairs.len() == 0 {
        Seq::empty()
    } else {
        let prev = extra_pairs(pairs.drop_last(), keys);
        let p = pairs.last();
        if keys.contains(head(p, '=')) {
            prev
        } else {
            prev + "&"@ + head(p, '=') + "="@ + tail(p, '=')
        }
    }
}

/// The pairs of a query; none when it is empty.
pub open spec fn query_pairs(q: Seq<char>) -> Seq<Seq<char>> {
    if q.len() == 0 {
        Seq::empty()
    } else {
        split(q, '&')
    }
}

/// The target's query followed by the request pairs whose keys it lacks,
/// without a trailing `&`.
pub open spec fn merged_query(target: Seq<char>, request: Seq<char>) -> Seq<char> {
    let q = target + extra_pairs(query_pairs(request), query_keys(target));
    if q.len() > 0 && q.last() == '&' {
        q.drop_last()
    } else {
        q
    }
}

/// The forwarding URL for target `url` and a request with `path` and `query`.
pub open spec fn forward_uri_of(url: Seq<char>, path: Seq<char>, query: Seq<char>) -> Seq<char> {
    let base = strip_slash(head(url, '?')) + path;
    let target = tail(url, '?');
    if target.len() == 0 && query.len() == 0 {
        base
    } else if target.len() == 0 {
        base + "?"@ + query
    } else {
        base + "?"@ + merged_query(target, query)
    }
}

/// The keys of the pairs of `q`.
fn keys_of(q: &str) -> (r: Vec<&str>)
    ensures
        r@.map_values(|k: &str| k@) == query_keys(q@),
{
    let pieces = split_str(q, '&');
    let mut keys: Vec<&str> = Vec::new();
    let mut i: usize = 0;
    while i < pieces.len()
        invariant
            pieces.len() == split(q@, '&').len(),
            forall|k: int| 0 <= k < pieces.len() ==> (#[trigger] pieces[k])@ == split(q@, '&')[k],
            i <= pieces.len(),
            keys@.map_values(|k: &str| k@) == query_keys(q@).take(i as int),
        decreases pieces.len() - i,
    {
        let (key, _) = cut(pieces[i], '=');
        let ghost before = keys@;
        keys.push(key);
        proof {
            let m = keys@.map_values(|k: &str| k@);
            let want = query_keys(q@).take(i + 1);
            assert(query_keys(q@).len() == pieces.len());
            assert(before.map_values(|k: &str| k@).len() == before.len());
            assert(before.len() == i);
            assert(query_keys(q@)[i as int] == head(split(q@, '&')[i as int], '='));
            assert forall|j: int| 0 <= j < i implies m[j] == want[j] by {
                assert(keys@[j] == before[j]);
                assert(before.map_values(|k: &str| k@)[j] == query_keys(q@).take(i as int)[j]);
            }
            assert(m =~= want);
        }
        i = i + 1;
    }
    assert(query_keys(q@).take(i as int) =~= query_keys(q@));
    keys
}

/// Whether `keys` holds `k`.
fn has_key(keys: &Vec<&str>, k: &str) -> (r: bool)
    ensures
        r == keys@.map_values(|x: &str| x@).contains(k@),
{
    let ghost m = keys@.map_values(|x: &str| x@);
    let mut i: usize = 0;
    while i < keys.len()
        invariant
            m == keys@.map_values(|x: &str| x@),
            i <= keys.len(),
            forall|j: int| 0 <= j < i ==> m[j] != k@,
        decreases keys.len() - i,
    {
        if same_text(keys[i], k) {
            assert(m[i as int] == k@);
            return true;
        }
        i = i + 1;
    }
    false
}

/// Appends to `url` the pairs of `request` whose keys `keys` lacks.
fn push_extra_pairs(url: &mut String, request: &str, keys: &Vec<&str>)
    requires
        request@.len() > 0,
    ensures
        final(url)@ == old(url)@ + extra_pairs(
            query_pairs(request@),
            keys@.map_values(|x: &str| x@),
        ),
{
    let ghost km = keys@.map_values(|x: &str| x@);
    let ghost start = url@;
    let pieces = split_str(request, '&');
    let ghost pairs = split(request@, '&');
    let mut i: usize = 0;
    assert(pairs.take(0) =~= Seq::<Seq<char>>::empty());
    assert(url@ =~= start + extra_pairs(pairs.take(0), km));
    while i < pieces.len()
        invariant
            km == keys@.map_values(|x: &str| x@),
            pairs == split(request@, '&'),
            pieces.len() == pairs.len(),
            forall|k: int| 0 <= k < pieces.len() ==> (#[trigger] pieces[k])@ == pairs[k],
            i <= pieces.len(),
            url@ == start + extra_pairs(pairs.take(i as int), km),
        decreases pieces.len() - i,
    {
        let (key, value) = cut(pieces[i], '=');
        assert(pairs.take(i + 1).drop_last() =~= pairs.take(i as int));
        assert(pairs.take(i + 1).last() == pairs[i as int]);
        if !has_key(keys, key) {
            url.append("&");
            url.append(key);
            url.append("=");
            match value {
                Some(v) => url.append(v),
                None => {},
            }
            assert(url@ =~= start + extra_pairs(pairs.take(i + 1), km));
        }
        i = i + 1;
    }
    assert(pairs.take(pieces.len() as int) =~= pairs);
}

/// Builds the URL that `req` is forwarded to under the target `forward_url`.
pub fn forward_uri(forward_url: &str, req: &RequestHead) -> (r: String)
    ensures
        r@ == forward_uri_of(forward_url@, req.path@, req.query_text()),
{
    let (body, target) = cut(forward_url, '?');
    let blen = body.unicode_len();
    let base = if blen > 0 && body.get_char(blen - 1) == '/' {
        body.substring_char(0, blen - 1)
    } else {
        body
    };
    assert(base@ == strip_slash(head(forward_url@, '?')));
    let mut url = String::from_str(base);
    url.append(req.path.as_str());
    let query: &str = match &req.query {
        Some(q) => q.as_str(),
        None => "",
    };
    proof {
        reveal_strlit("");
    }
    assert(query@ == req.query_text());
    let target: &str = match target {
        Some(t) => t,
        None => "",
    };
    assert(target@ == tail(forward_url@, '?'));
    if target.is_empty() && query.is_empty() {
        return url;
    }
    url.append("?");
    if target.is_empty() {
        url.append(query);
        return url;
    }
    let ghost prefix = url@;
    url.append(target);
    let keys = keys_of(target);
    if !query.is_empty() {
        push_extra_pairs(&mut url, query, &keys);
    } else {
        assert(extra_pairs(query_pairs(query@), query_keys(target@)) =~= Seq::<char>::empty());
    }
    assert(url@ =~= prefix + (target@ + extra_pairs(query_pairs(query@), query_keys(target@))));
    let n = url.unicode_len();
    if n > 0 && url.get_char(n - 1) == '&' {
        let trimmed = String::from_str(url.as_str().substring_char(0, n - 1));
        assert(trimmed@ =~= prefix + merged_query(target@, query@));
        trimmed
    } else {
        url
    }
}

} // verus!
