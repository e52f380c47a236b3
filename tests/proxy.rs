use hyper_reverse_proxy::text::{split_str, trim_str};
use hyper_reverse_proxy::{
    append_forwarded_for, create_proxied_request, create_proxied_response, finish_call,
    forward_uri, get_upgrade_type, hop_headers, remove_hop_by_hop, remove_hop_headers, HeaderSet,
    HeaderValue, ProxyError, Reply, RequestHead, ResponseHead,
};

fn set(pairs: &[(&str, &str)]) -> HeaderSet {
    let mut h = HeaderSet::new();
    for (n, v) in pairs {
        h.append(n.to_string(), HeaderValue::Text(v.to_string()));
    }
    h
}

fn texts(h: &HeaderSet) -> Vec<(String, String)> {
    let mut out = Vec::new();
    for i in 0..h.len() {
        let (n, v) = h.entry(i);
        match v {
            HeaderValue::Text(t) => out.push((n.clone(), t.clone())),
            HeaderValue::Bytes(b) => out.push((n.clone(), format!("{:?}", b))),
        }
    }
    out
}

fn pairs(p: &[(&str, &str)]) -> Vec<(String, String)> {
    p.iter().map(|(a, b)| (a.to_string(), b.to_string())).collect()
}

fn head(path: &str, query: Option<&str>, headers: HeaderSet) -> RequestHead {
    RequestHead { path: path.to_string(), query: query.map(|q| q.to_string()), headers }
}

#[test]
fn hop_headers_are_the_nine_names() {
    assert_eq!(
        hop_headers(),
        vec![
            "connection",
            "te",
            "trailer",
            "keep-alive",
            "proxy-connection",
            "proxy-authenticate",
            "proxy-authorization",
            "transfer-encoding",
            "upgrade",
        ]
    );
}

#[test]
fn hop_removal_keeps_other_headers_in_order() {
    let mut h = set(&[
        ("Host", "a"),
        ("Connection", "close"),
        ("X-A", "1"),
        ("TE", "trailers"),
        ("keep-alive", "5"),
        ("X-B", "2"),
        ("UPGRADE", "websocket"),
        ("Proxy-Authorization", "p"),
        ("Transfer-Encoding", "chunked"),
        ("trailer", "x"),
        ("proxy-connection", "y"),
        ("proxy-authenticate", "z"),
        ("X-A", "3"),
        ("trailers", "kept"),
    ]);
    remove_hop_headers(&mut h);
    assert_eq!(
        texts(&h),
        pairs(&[("Host", "a"), ("X-A", "1"), ("X-B", "2"), ("X-A", "3"), ("trailers", "kept")])
    );
}

#[test]
fn hop_removal_of_a_set_without_hop_headers_changes_nothing() {
    let mut h = set(&[("accept", "*/*"), ("x-forwarded-for", "1.2.3.4")]);
    remove_hop_headers(&mut h);
    assert_eq!(texts(&h), pairs(&[("accept", "*/*"), ("x-forwarded-for", "1.2.3.4")]));
}

#[test]
fn hygiene_removes_connection_listed_headers() {
    let mut h = set(&[("connection", "Foo, Bar"), ("foo", "1"), ("bar", "2"), ("baz", "3")]);
    assert!(remove_hop_by_hop(&mut h).is_ok());
    assert_eq!(texts(&h), pairs(&[("baz", "3")]));
}

#[test]
fn hygiene_twice_is_hygiene_once() {
    let mut once = set(&[
        ("connection", "x-a, keep-alive"),
        ("x-a", "1"),
        ("keep-alive", "2"),
        ("x-b", "3"),
        ("te", "gzip"),
    ]);
    assert!(remove_hop_by_hop(&mut once).is_ok());
    let first = texts(&once);
    assert!(remove_hop_by_hop(&mut once).is_ok());
    assert_eq!(texts(&once), first);
    assert_eq!(first, pairs(&[("x-b", "3")]));
}

#[test]
fn hygiene_fails_on_a_connection_header_that_is_not_text() {
    let mut h = HeaderSet::new();
    h.append("connection".to_string(), HeaderValue::Bytes(vec![0xff, 0x01]));
    h.append("foo".to_string(), HeaderValue::Text("1".to_string()));
    assert!(matches!(remove_hop_by_hop(&mut h), Err(ProxyError::ForwardHeaderError)));
    assert_eq!(h.len(), 2);
}

#[test]
fn forward_uri_joins_base_and_path() {
    let req = head("/a", None, HeaderSet::new());
    assert_eq!(forward_uri("http://h/", &req), "http://h/a");
    let req = head("/a", Some(""), HeaderSet::new());
    assert_eq!(forward_uri("http://h/", &req), "http://h/a");
}

#[test]
fn forward_uri_target_query_wins() {
    let req = head("/p", Some("x=2&y=3"), HeaderSet::new());
    assert_eq!(forward_uri("http://h/base?x=1", &req), "http://h/base/p?x=1&y=3");
}

#[test]
fn forward_uri_uses_the_request_query_alone() {
    let req = head("/a", Some("q=1&r"), HeaderSet::new());
    assert_eq!(forward_uri("http://h", &req), "http://h/a?q=1&r");
}

#[test]
fn forward_uri_uses_the_target_query_alone() {
    let req = head("/x", None, HeaderSet::new());
    assert_eq!(forward_uri("http://h/?a=1", &req), "http://h/x?a=1");
}

#[test]
fn forward_uri_drops_a_trailing_ampersand() {
    let req = head("/x", None, HeaderSet::new());
    assert_eq!(forward_uri("http://h?a=1&", &req), "http://h/x?a=1");
}

#[test]
fn forward_uri_merges_pairs_without_values() {
    let req = head("/x", Some("b&c=1=2&a=9"), HeaderSet::new());
    assert_eq!(forward_uri("http://h/?a=1", &req), "http://h/x?a=1&b=&c=1=2");
}

#[test]
fn upgrade_type_needs_the_connection_token() {
    let h = set(&[("connection", "keep-alive, Upgrade "), ("upgrade", "websocket")]);
    assert_eq!(get_upgrade_type(&h).unwrap(), Some("websocket".to_string()));
    let h = set(&[("connection", "keep-alive"), ("upgrade", "websocket")]);
    assert_eq!(get_upgrade_type(&h).unwrap(), None);
    let h = set(&[("connection", "upgrade")]);
    assert_eq!(get_upgrade_type(&h).unwrap(), None);
    let h = set(&[("upgrade", "websocket")]);
    assert_eq!(get_upgrade_type(&h).unwrap(), None);
    let h = set(&[("connection", "upgraded"), ("upgrade", "websocket")]);
    assert_eq!(get_upgrade_type(&h).unwrap(), None);
}

#[test]
fn upgrade_type_fails_on_a_value_that_is_not_text() {
    let mut h = set(&[("connection", "Upgrade")]);
    h.append("upgrade".to_string(), HeaderValue::Bytes(vec![0x80]));
    assert!(matches!(get_upgrade_type(&h), Err(ProxyError::ForwardHeaderError)));
}

#[test]
fn forwarded_for_is_set_when_absent() {
    let mut h = set(&[("accept", "*/*")]);
    assert!(append_forwarded_for(&mut h, "5.6.7.8").is_ok());
    assert_eq!(texts(&h), pairs(&[("accept", "*/*"), ("x-forwarded-for", "5.6.7.8")]));
}

#[test]
fn forwarded_for_appends_to_an_existing_chain() {
    let mut h = set(&[("X-Forwarded-For", "1.2.3.4")]);
    assert!(append_forwarded_for(&mut h, "5.6.7.8").is_ok());
    assert_eq!(texts(&h), pairs(&[("x-forwarded-for", "1.2.3.4, 5.6.7.8")]));
}

#[test]
fn forwarded_for_fails_on_a_chain_that_is_not_text() {
    let mut h = HeaderSet::new();
    h.append("x-forwarded-for".to_string(), HeaderValue::Bytes(vec![0xfe]));
    assert!(matches!(append_forwarded_for(&mut h, "5.6.7.8"), Err(ProxyError::ForwardHeaderError)));
}

#[test]
fn proxied_request_rewrites_uri_and_headers() {
    let h = set(&[
        ("host", "proxy.local"),
        ("connection", "keep-alive, x-custom"),
        ("x-custom", "1"),
        ("te", "trailers, deflate"),
        ("accept", "*/*"),
    ]);
    let f = create_proxied_request("10.0.0.1", "http://origin:8080/", head("/a", Some("b=1"), h), None)
        .unwrap();
    assert_eq!(f.uri_text, "http://origin:8080/a?b=1");
    assert_eq!(f.uri.to_string(), "http://origin:8080/a?b=1");
    assert_eq!(
        texts(&f.headers),
        pairs(&[("accept", "*/*"), ("te", "trailers"), ("x-forwarded-for", "10.0.0.1")])
    );
}

#[test]
fn proxied_request_restores_upgrade_headers() {
    let h = set(&[("connection", "Upgrade"), ("upgrade", "websocket"), ("x-forwarded-for", "1.1.1.1")]);
    let ws = "websocket".to_string();
    let f = create_proxied_request("2.2.2.2", "http://o", head("/ws", None, h), Some(&ws)).unwrap();
    assert_eq!(f.uri_text, "http://o/ws");
    assert_eq!(
        texts(&f.headers),
        pairs(&[
            ("upgrade", "websocket"),
            ("connection", "UPGRADE"),
            ("x-forwarded-for", "1.1.1.1, 2.2.2.2"),
        ])
    );
}

#[test]
fn proxied_request_rejects_an_invalid_uri() {
    let r = create_proxied_request("1.2.3.4", "http://exa mple/", head("/a", None, HeaderSet::new()), None);
    assert!(matches!(r, Err(ProxyError::InvalidUri(_))));
}

#[test]
fn proxied_request_rejects_a_te_header_that_is_not_text() {
    let mut h = HeaderSet::new();
    h.append("te".to_string(), HeaderValue::Bytes(vec![0xff]));
    let r = create_proxied_request("1.2.3.4", "http://o", head("/a", None, h), None);
    assert!(matches!(r, Err(ProxyError::ForwardHeaderError)));
}

#[test]
fn proxied_response_is_cleaned() {
    let r = ResponseHead {
        status: 200,
        headers: set(&[("Connection", "x-trace"), ("x-trace", "1"), ("content-type", "text/plain")]),
    };
    let out = create_proxied_response(r).unwrap();
    assert_eq!(out.status, 200);
    assert_eq!(texts(&out.headers), pairs(&[("content-type", "text/plain")]));
}

#[test]
fn switch_with_matching_protocol_is_tunnelled_at_once() {
    let ws = "websocket".to_string();
    let r = ResponseHead { status: 101, headers: set(&[("connection", "upgrade"), ("upgrade", "websocket")]) };
    match finish_call(Some(&ws), true, r).unwrap() {
        Reply::Tunnel(h) => {
            assert_eq!(h.status, 101);
            assert_eq!(texts(&h.headers), pairs(&[("connection", "upgrade"), ("upgrade", "websocket")]));
        }
        Reply::Forward(_) => panic!("expected a tunnel"),
    }
}

#[test]
fn switch_to_another_protocol_is_refused() {
    let ws = "websocket".to_string();
    let r = ResponseHead { status: 101, headers: set(&[("connection", "upgrade"), ("upgrade", "h2c")]) };
    match finish_call(Some(&ws), true, r) {
        Err(ProxyError::UpgradeError(m)) => {
            assert_eq!(m, "backend tried to switch to protocol h2c when websocket was requested")
        }
        other => panic!("unexpected {:?}", other),
    }
    let r = ResponseHead { status: 101, headers: set(&[("connection", "upgrade"), ("upgrade", "h2c")]) };
    match finish_call(None, true, r) {
        Err(ProxyError::UpgradeError(m)) => {
            assert_eq!(m, "backend tried to switch to protocol h2c when none was requested")
        }
        other => panic!("unexpected {:?}", other),
    }
}

#[test]
fn switch_without_an_upgrade_handle_is_refused() {
    let ws = "websocket".to_string();
    let r = ResponseHead { status: 101, headers: set(&[("connection", "upgrade"), ("upgrade", "websocket")]) };
    match finish_call(Some(&ws), false, r) {
        Err(ProxyError::UpgradeError(m)) => assert_eq!(m, "request does not have an upgrade extension"),
        other => panic!("unexpected {:?}", other),
    }
}

#[test]
fn other_responses_are_forwarded_after_hygiene() {
    let r = ResponseHead { status: 404, headers: set(&[("keep-alive", "1"), ("x", "y")]) };
    match finish_call(None, false, r).unwrap() {
        Reply::Forward(h) => {
            assert_eq!(h.status, 404);
            assert_eq!(texts(&h.headers), pairs(&[("x", "y")]));
        }
        Reply::Tunnel(_) => panic!("expected a plain response"),
    }
}

#[test]
fn trim_and_split_follow_std() {
    assert_eq!(trim_str(" \t a b \n"), "a b");
    assert_eq!(split_str("a,,b", ','), vec!["a", "", "b"]);
    assert_eq!(split_str("", ','), vec![""]);
}

#[test]
fn hygiene_skips_empty_connection_tokens() {
    let mut h = set(&[("connection", ", ,foo,,"), ("", "x"), ("foo", "1"), ("bar", "2")]);
    assert!(remove_hop_by_hop(&mut h).is_ok());
    assert_eq!(texts(&h), pairs(&[("", "x"), ("bar", "2")]));
}

#[test]
fn proxied_response_keeps_entries_with_empty_names() {
    let r = ResponseHead { status: 200, headers: set(&[("connection", ","), ("", "x")]) };
    let out = create_proxied_response(r).unwrap();
    assert_eq!(texts(&out.headers), pairs(&[("", "x")]));
}

#[test]
fn proxy_errors_convert_from_header_errors() {
    let bad = hyper::header::HeaderValue::from_bytes(&[0x80]).unwrap();
    let e: ProxyError = bad.to_str().unwrap_err().into();
    assert!(matches!(e, ProxyError::ForwardHeaderError));
    let e: ProxyError = hyper::header::HeaderValue::from_str("a\nb").unwrap_err().into();
    assert!(matches!(e, ProxyError::ForwardHeaderError));
    let e: ProxyError = "http://exa mple/".parse::<hyper::Uri>().unwrap_err().into();
    assert!(matches!(e, ProxyError::InvalidUri(_)));
}
