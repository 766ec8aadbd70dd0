use http::{HeaderMap, HeaderName, HeaderValue};
use personal_data_hub::headers::{
    copy_headers, copy_request_headers, copy_response_headers, is_hop_by_hop_header, is_withheld,
    Direction,
};

const HOP_BY_HOP: [&str; 8] = [
    "connection",
    "keep-alive",
    "proxy-authenticate",
    "proxy-authorization",
    "te",
    "trailer",
    "transfer-encoding",
    "upgrade",
];

fn map_of(pairs: &[(&str, &str)]) -> HeaderMap {
    let mut map = HeaderMap::new();
    for (name, value) in pairs {
        map.append(
            HeaderName::from_bytes(name.as_bytes()).unwrap(),
            HeaderValue::from_str(value).unwrap(),
        );
    }
    map
}

fn values(map: &HeaderMap, name: &str) -> Vec<String> {
    map.get_all(name).iter().map(|v| v.to_str().unwrap().to_string()).collect()
}

#[test]
fn hop_by_hop_names_in_any_case() {
    for name in HOP_BY_HOP {
        assert!(is_hop_by_hop_header(name), "{name}");
        assert!(is_hop_by_hop_header(&name.to_uppercase()), "{name}");
        let mut mixed = name.to_string();
        mixed[..1].make_ascii_uppercase();
        assert!(is_hop_by_hop_header(&mixed), "{mixed}");
    }
    for name in ["host", "content-type", "set-cookie", "t", "tee", "connection2", "", "keepalive"] {
        assert!(!is_hop_by_hop_header(name), "{name}");
    }
}

#[test]
fn withheld_names_by_direction() {
    assert!(is_withheld(Direction::Request, "Host"));
    assert!(!is_withheld(Direction::Response, "Host"));
    assert!(is_withheld(Direction::Response, "Set-Cookie"));
    assert!(is_withheld(Direction::Response, "Cross-Origin-Resource-Policy"));
    assert!(!is_withheld(Direction::Request, "Set-Cookie"));
    assert!(!is_withheld(Direction::Request, "cross-origin-resource-policy"));
    for name in HOP_BY_HOP {
        assert!(is_withheld(Direction::Request, name));
        assert!(is_withheld(Direction::Response, name));
    }
    assert!(!is_withheld(Direction::Request, "accept"));
}

#[test]
fn request_filter_drops_hop_by_hop_and_host() {
    let mut pairs: Vec<(&str, &str)> = HOP_BY_HOP.iter().map(|n| (*n, "x")).collect();
    pairs.push(("host", "localhost:1234"));
    pairs.push(("accept", "text/html"));
    pairs.push(("x-custom", "1"));
    pairs.push(("set-cookie", "a=b"));
    let src = map_of(&pairs);
    let mut dst = HeaderMap::new();
    assert_eq!(copy_request_headers(&src, &mut dst), Ok(()));
    for name in HOP_BY_HOP {
        assert!(!dst.contains_key(name), "{name}");
    }
    assert!(!dst.contains_key("host"));
    assert_eq!(values(&dst, "accept"), vec!["text/html"]);
    assert_eq!(values(&dst, "x-custom"), vec!["1"]);
    assert_eq!(values(&dst, "set-cookie"), vec!["a=b"]);
    assert_eq!(dst.len(), 3);
}

#[test]
fn response_filter_drops_cookies_and_resource_policy() {
    let mut pairs: Vec<(&str, &str)> = HOP_BY_HOP.iter().map(|n| (*n, "x")).collect();
    pairs.push(("set-cookie", "a=b"));
    pairs.push(("set-cookie", "c=d"));
    pairs.push(("cross-origin-resource-policy", "same-origin"));
    pairs.push(("content-type", "image/png"));
    pairs.push(("host", "backend"));
    let src = map_of(&pairs);
    let mut dst = HeaderMap::new();
    assert_eq!(copy_response_headers(&src, &mut dst), Ok(()));
    for name in HOP_BY_HOP {
        assert!(!dst.contains_key(name), "{name}");
    }
    assert!(!dst.contains_key("set-cookie"));
    assert!(!dst.contains_key("cross-origin-resource-policy"));
    assert_eq!(values(&dst, "content-type"), vec!["image/png"]);
    assert_eq!(values(&dst, "host"), vec!["backend"]);
    assert_eq!(dst.len(), 2);
}

#[test]
fn every_value_of_a_name_is_copied_in_order() {
    let src = map_of(&[
        ("accept", "a"),
        ("x-other", "1"),
        ("accept", "b"),
        ("te", "trailers"),
        ("accept", "c"),
    ]);
    let mut dst = HeaderMap::new();
    assert_eq!(copy_request_headers(&src, &mut dst), Ok(()));
    assert_eq!(values(&dst, "accept"), vec!["a", "b", "c"]);
    assert_eq!(values(&dst, "x-other"), vec!["1"]);
    assert_eq!(dst.len(), 4);
}

#[test]
fn copied_headers_follow_what_the_target_holds() {
    let src = map_of(&[("accept", "b"), ("upgrade", "h2c")]);
    let mut dst = map_of(&[("accept", "a"), ("upgrade", "kept")]);
    assert_eq!(copy_headers(Direction::Response, &src, &mut dst), Ok(()));
    assert_eq!(values(&dst, "accept"), vec!["a", "b"]);
    // a withheld name keeps what the target held, and gets nothing new
    assert_eq!(values(&dst, "upgrade"), vec!["kept"]);
}

#[test]
fn values_with_bytes_beyond_ascii_survive() {
    let mut src = HeaderMap::new();
    src.insert("x-bytes", HeaderValue::from_bytes(&[0x80, 0xff, b'\t', b' ']).unwrap());
    let mut dst = HeaderMap::new();
    assert_eq!(copy_response_headers(&src, &mut dst), Ok(()));
    assert_eq!(dst.get("x-bytes").unwrap().as_bytes(), &[0x80, 0xff, b'\t', b' ']);
}

#[test]
fn empty_source_copies_nothing() {
    let src = HeaderMap::new();
    let mut dst = map_of(&[("accept", "a")]);
    assert_eq!(copy_request_headers(&src, &mut dst), Ok(()));
    assert_eq!(dst.len(), 1);
}

#[test]
fn a_full_target_stops_the_copy() {
    let mut dst = HeaderMap::new();
    let mut n = 0u32;
    while dst
        .try_insert(
            HeaderName::from_bytes(format!("x-{n}").as_bytes()).unwrap(),
            HeaderValue::from_static("v"),
        )
        .is_ok()
    {
        n += 1;
        assert!(n < 40_000);
    }
    let before = dst.len();
    let src = map_of(&[("x-0", "again"), ("connection", "close"), ("brand-new", "1"), ("x-1", "z")]);
    let r = copy_request_headers(&src, &mut dst);
    // the map had no room: for the first header, or for the first new name
    assert!(matches!(r, Err(0) | Err(2)), "{r:?}");
    let appended = if r == Err(2) { 1 } else { 0 };
    assert_eq!(dst.len(), before + appended);
    assert!(!dst.contains_key("brand-new"));
    assert!(!dst.contains_key("connection"));
}

#[test]
fn a_roomy_target_takes_every_header() {
    // the largest table a map can have, and as many headers as fit the promise
    let mut dst = HeaderMap::with_capacity(24_000);
    for i in 0..6000 {
        dst.insert(
            HeaderName::from_bytes(format!("x-d{i}").as_bytes()).unwrap(),
            HeaderValue::from_static("v"),
        );
    }
    let mut src = HeaderMap::new();
    for i in 0..554 {
        src.append(
            HeaderName::from_bytes(format!("x-s{}", i % 300).as_bytes()).unwrap(),
            HeaderValue::from_static("w"),
        );
    }
    assert_eq!(dst.len() + src.len(), 6554);
    assert_eq!(copy_response_headers(&src, &mut dst), Ok(()));
    assert_eq!(dst.len(), 6554);
    assert_eq!(values(&dst, "x-s7"), vec!["w", "w"]);
}
