use http::{HeaderMap, HeaderValue};
use personal_data_hub::gateway::{
    forwards_body, proxy_api, proxy_attachment, proxy_response, ConfigError, GatewayConfig,
    GatewayFailure,
};

fn config(backend: Option<&str>, token: Option<&str>) -> GatewayConfig {
    GatewayConfig {
        backend_base_url: backend.map(|s| s.to_string()),
        bearer_token: token.map(|s| s.to_string()),
    }
}

fn values(map: &HeaderMap, name: &str) -> Vec<String> {
    map.get_all(name).iter().map(|v| v.to_str().unwrap().to_string()).collect()
}

#[test]
fn default_config_has_neither_backend_nor_token() {
    let c = GatewayConfig::default();
    assert_eq!(c.backend_base_url, None);
    assert_eq!(c.bearer_token, None);
    let d = c.clone();
    assert_eq!(d.backend_base_url, None);
    assert_eq!(d.bearer_token, None);
}

#[test]
fn backend_url_is_trimmed_and_loses_trailing_slashes() {
    let mut c = GatewayConfig::default();
    assert_eq!(c.set_backend_url("  https://hub.example.com:8443///  "), Ok(()));
    assert_eq!(c.backend_base_url.as_deref(), Some("https://hub.example.com:8443"));
    assert_eq!(c.set_backend_url("http://Host"), Ok(()));
    assert_eq!(c.backend_base_url.as_deref(), Some("http://Host"));
    assert_eq!(c.set_backend_url("http://a/b/"), Ok(()));
    assert_eq!(c.backend_base_url.as_deref(), Some("http://a/b"));
}

#[test]
fn backend_url_without_scheme_is_refused_and_changes_nothing() {
    let mut c = config(Some("http://old"), Some("tok"));
    let r = c.set_backend_url("ftp://files");
    assert_eq!(r, Err(ConfigError::InvalidBackendUrl));
    assert_eq!(r.unwrap_err().message(), "backend url must start with http:// or https://");
    assert_eq!(c.backend_base_url.as_deref(), Some("http://old"));
    assert_eq!(c.bearer_token.as_deref(), Some("tok"));
    assert_eq!(c.set_backend_url("hub.example.com"), Err(ConfigError::InvalidBackendUrl));
    assert_eq!(c.set_backend_url("http:/x"), Err(ConfigError::InvalidBackendUrl));
    assert_eq!(c.set_backend_url("http://"), Err(ConfigError::InvalidBackendUrl));
    // the scheme is written in lower case
    assert_eq!(c.set_backend_url("HTTP://h"), Err(ConfigError::InvalidBackendUrl));
    assert_eq!(c.set_backend_url("Https://h"), Err(ConfigError::InvalidBackendUrl));
    assert_eq!(c.backend_base_url.as_deref(), Some("http://old"));
}

#[test]
fn blank_backend_url_unsets_the_backend() {
    let mut c = config(Some("http://old"), Some("tok"));
    assert_eq!(c.set_backend_url("   "), Ok(()));
    assert_eq!(c.backend_base_url, None);
    assert_eq!(c.bearer_token.as_deref(), Some("tok"));
    let mut c = config(Some("http://old"), None);
    assert_eq!(c.set_backend_url(" /// "), Ok(()));
    assert_eq!(c.backend_base_url, None);
    assert_eq!(c.backend_base_url_from_state(), Err(ConfigError::BackendNotSet));
    assert_eq!(ConfigError::BackendNotSet.message(), "backend url not set");
}

#[test]
fn token_is_trimmed_and_blank_means_none() {
    let mut c = config(Some("http://b"), None);
    c.set_token(Some("  abc  ".to_string()));
    assert_eq!(c.bearer_token.as_deref(), Some("abc"));
    assert_eq!(c.token_or_empty(), "abc");
    c.set_token(Some("   ".to_string()));
    assert_eq!(c.bearer_token, None);
    c.set_token(Some("x".to_string()));
    c.set_token(None);
    assert_eq!(c.bearer_token, None);
    assert_eq!(c.token_or_empty(), "");
    assert_eq!(c.backend_base_url.as_deref(), Some("http://b"));
    assert_eq!(c.backend_base_url_from_state(), Ok("http://b".to_string()));
}

#[test]
fn attachment_without_backend_is_503() {
    let r = proxy_attachment(&config(None, Some("t")), "abc", &HeaderMap::new());
    let failure = r.err().expect("a failure");
    assert_eq!(failure, GatewayFailure::NoBackend);
    assert_eq!(failure.status_code(), 503);
    // the missing backend is reported before the blank id
    let r = proxy_attachment(&config(None, None), "  ", &HeaderMap::new());
    assert_eq!(r.err(), Some(GatewayFailure::NoBackend));
}

#[test]
fn attachment_with_blank_id_is_400() {
    for id in ["", "   ", "\t\n"] {
        let r = proxy_attachment(&config(Some("http://b"), None), id, &HeaderMap::new());
        let failure = r.err().expect("a failure");
        assert_eq!(failure, GatewayFailure::BadRequest);
        assert_eq!(failure.status_code(), 400);
    }
}

#[test]
fn failure_status_codes() {
    assert_eq!(GatewayFailure::NoBackend.status_code(), 503);
    assert_eq!(GatewayFailure::BadRequest.status_code(), 400);
    assert_eq!(GatewayFailure::Upstream.status_code(), 502);
    assert_eq!(GatewayFailure::Internal.status_code(), 500);
}

#[test]
fn attachment_request_gets_the_token_when_it_has_no_authorization() {
    let mut inbound = HeaderMap::new();
    inbound.insert("accept", HeaderValue::from_static("image/*"));
    inbound.insert("host", HeaderValue::from_static("127.0.0.1:5000"));
    inbound.insert("connection", HeaderValue::from_static("keep-alive"));
    let r = proxy_attachment(&config(Some("http://b:3000"), Some(" tok ")), "abc", &inbound);
    let req = r.ok().expect("a request");
    assert_eq!(req.url, "http://b:3000/api/attachments/abc");
    assert_eq!(values(&req.headers, "authorization"), vec!["Bearer tok"]);
    assert_eq!(values(&req.headers, "accept"), vec!["image/*"]);
    assert!(!req.headers.contains_key("host"));
    assert!(!req.headers.contains_key("connection"));
    assert_eq!(req.headers.len(), 2);
}

#[test]
fn attachment_request_keeps_its_own_authorization() {
    let mut inbound = HeaderMap::new();
    inbound.insert("authorization", HeaderValue::from_static("Bearer mine"));
    let r = proxy_attachment(&config(Some("http://b"), Some("tok")), " a b ", &inbound);
    let req = r.ok().expect("a request");
    // the id goes into the address as it came
    assert_eq!(req.url, "http://b/api/attachments/ a b ");
    assert_eq!(values(&req.headers, "authorization"), vec!["Bearer mine"]);
}

#[test]
fn attachment_request_without_usable_token_has_no_authorization() {
    for token in [None, Some("   "), Some("bad\ntoken")] {
        let r = proxy_attachment(&config(Some("http://b"), token), "x", &HeaderMap::new());
        let req = r.ok().expect("a request");
        assert!(!req.headers.contains_key("authorization"));
        assert_eq!(req.headers.len(), 0);
    }
}

#[test]
fn api_without_backend_is_503() {
    let r = proxy_api(&config(None, None), "v1/x", "", &HeaderMap::new());
    assert_eq!(r.err(), Some(GatewayFailure::NoBackend));
}

#[test]
fn api_request_always_carries_the_gateways_token() {
    let mut inbound = HeaderMap::new();
    inbound.insert("authorization", HeaderValue::from_static("Bearer mine"));
    inbound.insert("content-type", HeaderValue::from_static("application/json"));
    inbound.insert("host", HeaderValue::from_static("localhost"));
    inbound.insert("te", HeaderValue::from_static("trailers"));
    let r = proxy_api(&config(Some("https://b"), Some("tok")), "/notes/1", "a=1&b=2", &inbound);
    let req = r.ok().expect("a request");
    assert_eq!(req.url, "https://b/api/notes/1?a=1&b=2");
    assert_eq!(values(&req.headers, "authorization"), vec!["Bearer tok"]);
    assert_eq!(values(&req.headers, "content-type"), vec!["application/json"]);
    assert_eq!(values(&req.headers, "x-pdh-client"), vec!["tauri"]);
    assert!(!req.headers.contains_key("host"));
    assert!(!req.headers.contains_key("te"));
    assert_eq!(req.headers.len(), 3);
}

#[test]
fn api_request_loses_the_callers_authorization_without_a_token() {
    let mut inbound = HeaderMap::new();
    inbound.insert("authorization", HeaderValue::from_static("Bearer mine"));
    inbound.insert("x-pdh-client", HeaderValue::from_static("web"));
    let r = proxy_api(&config(Some("https://b"), None), "///auth/login", "", &inbound);
    let req = r.ok().expect("a request");
    assert_eq!(req.url, "https://b/api/auth/login");
    assert!(!req.headers.contains_key("authorization"));
    assert_eq!(values(&req.headers, "x-pdh-client"), vec!["web"]);
    assert_eq!(req.headers.len(), 1);
}

#[test]
fn response_headers_get_the_gateways_resource_policy() {
    let mut upstream = HeaderMap::new();
    upstream.insert("content-type", HeaderValue::from_static("image/png"));
    upstream.insert("cross-origin-resource-policy", HeaderValue::from_static("same-origin"));
    upstream.append("set-cookie", HeaderValue::from_static("a=b"));
    upstream.insert("transfer-encoding", HeaderValue::from_static("chunked"));
    let out = proxy_response(&upstream).ok().expect("headers");
    assert_eq!(values(&out, "cross-origin-resource-policy"), vec!["cross-origin"]);
    assert_eq!(values(&out, "content-type"), vec!["image/png"]);
    assert!(!out.contains_key("set-cookie"));
    assert!(!out.contains_key("transfer-encoding"));
    assert_eq!(out.len(), 2);
    let out = proxy_response(&HeaderMap::new()).ok().expect("headers");
    assert_eq!(values(&out, "cross-origin-resource-policy"), vec!["cross-origin"]);
    assert_eq!(out.len(), 1);
}

#[test]
fn head_requests_get_no_body() {
    assert!(!forwards_body("HEAD"));
    assert!(forwards_body("GET"));
    assert!(forwards_body("POST"));
    assert!(forwards_body("head"));
}

#[test]
fn requests_of_many_headers_are_still_forwarded() {
    let mut inbound = HeaderMap::new();
    for i in 0..6000 {
        let name = http::HeaderName::from_bytes(format!("x-h{i}").as_bytes()).unwrap();
        inbound.insert(name, HeaderValue::from_static("v"));
    }
    inbound.insert("connection", HeaderValue::from_static("close"));
    let c = config(Some("http://b"), Some("tok"));
    let req = proxy_attachment(&c, "abc", &inbound).ok().expect("a request");
    assert_eq!(req.headers.len(), 6001);
    let req = proxy_api(&c, "x", "", &inbound).ok().expect("a request");
    assert_eq!(req.headers.len(), 6002);
    let out = proxy_response(&inbound).ok().expect("headers");
    assert_eq!(out.len(), 6001);
}
