//! The gateway's configuration and what it decides for each proxied request:
//! where the request goes, with which headers, and which status answers a
//! request that cannot be forwarded.

use crate::header_map::{
    clear_header, empty_map, has_header, insert_header, listed, parse_name, parse_value, stored,
    valid_value, values_named, FULL_AT_LEAST,
};
use crate::headers::{copy_request_headers, copy_response_headers, forwarded, Direction};
use crate::text::{
    concat2, concat3, has_prefix, lower_ascii, opt_view, starts_with, strip_end, strip_start, trim,
    trim_end_of, trim_start_of, trimmed, Strip,
};
use http::HeaderMap;
use vstd::prelude::*;
use vstd::utf8::encode_utf8;

verus! {

/// Where the backend is and which token opens it.
pub struct GatewayConfig {
    pub backend_base_url: Option<String>,
    pub bearer_token: Option<String>,
}

/// [`GatewayConfig`] over mathematical values.
pub struct ConfigModel {
    pub backend_base_url: Option<Seq<char>>,
    pub bearer_token: Option<Seq<char>>,
}

impl View for GatewayConfig {
    type V = ConfigModel;

    open spec fn view(&self) -> ConfigModel {
        ConfigModel {
            backend_base_url: opt_view(self.backend_base_url),
            bearer_token: opt_view(self.bearer_token),
        }
    }
}

/// Whether `url` starts with `http://` or `https://`.
pub open spec fn has_scheme(url: Seq<char>) -> bool {
    has_prefix(url, "http://"@) || has_prefix(url, "https://"@)
}

/// Whether `url` names a backend: it starts with `http://` or `https://`
/// and does not end with a slash.
pub open spec fn backend_url(url: Seq<char>) -> bool {
    &&& has_scheme(url)
    &&& url.len() > 0
    &&& url.last() != '/'
}

/// The backend address that a text stands for, before its scheme is checked.
pub open spec fn normalized_url(url: Seq<char>) -> Seq<char> {
    strip_end(trimmed(url), Strip::Char('/'))
}

/// The token that a text stands for: trimmed, and none where nothing is left.
pub open spec fn normalized_token(token: Option<Seq<char>>) -> Option<Seq<char>> {
    match token {
        Some(t) => if trimmed(t).len() == 0 {
            None
        } else {
            Some(trimmed(t))
        },
        None => None,
    }
}

impl ConfigModel {
    /// A backend address, where there is one, starts with `http://` or
    /// `https://` and has no trailing slash.
    pub open spec fn wf(self) -> bool {
        match self.backend_base_url {
            Some(url) => backend_url(url),
            None => true,
        }
    }
}

/// Why a change of the configuration or a command was refused.
#[derive(Clone, Copy, Debug, PartialEq, Eq, Structural)]
pub enum ConfigError {
    /// The backend address has no `http://` or `https://` scheme.
    InvalidBackendUrl,
    /// No backend address is configured.
    BackendNotSet,
    /// The gateway has not bound its port yet.
    GatewayNotReady,
}

impl ConfigError {
    /// The message shown to the caller.
    pub open spec fn text(self) -> Seq<char> {
        match self {
            ConfigError::InvalidBackendUrl => "backend url must start with http:// or https://"@,
            ConfigError::BackendNotSet => "backend url not set"@,
            ConfigError::GatewayNotReady => "gateway not ready"@,
        }
    }

    /// The message shown to the caller.
    pub fn message(&self) -> (m: String)
        ensures
            m@ == self.text(),
    {
        match self {
            ConfigError::InvalidBackendUrl => {
                "backend url must start with http:// or https://".to_owned()
            },
            ConfigError::BackendNotSet => "backend url not set".to_owned(),
            ConfigError::GatewayNotReady => "gateway not ready".to_owned(),
        }
    }
}

impl Clone for GatewayConfig {
    fn clone(&self) -> (config: GatewayConfig)
        ensures
            config@ == self@,
    {
        GatewayConfig {
            backend_base_url: self.backend_base_url.clone(),
            bearer_token: self.bearer_token.clone(),
        }
    }
}

impl Default for GatewayConfig {
    fn default() -> (config: GatewayConfig)
        ensures
            config@ == (ConfigModel { backend_base_url: None, bearer_token: None }),
    {
        GatewayConfig { backend_base_url: None, bearer_token: None }
    }
}

impl GatewayConfig {
    /// Sets the backend address from a text: trimmed, and without trailing
    /// slashes. An empty address unsets the backend; one that does not
    /// start with `http://` or `https://`, in these letters, is refused
    /// and changes nothing.
    pub fn set_backend_url(&mut self, url: &str) -> (r: Result<(), ConfigError>)
        ensures
            final(self)@.bearer_token == old(self)@.bearer_token,
            match r {
                Ok(_) => if normalized_url(url@).len() == 0 {
                    final(self)@.backend_base_url is None
                } else {
                    backend_url(normalized_url(url@)) && final(self)@.backend_base_url == Some(
                        normalized_url(url@),
                    )
                },
                Err(e) => {
                    &&& e == ConfigError::InvalidBackendUrl
                    &&& normalized_url(url@).len() > 0
                    &&& !has_scheme(normalized_url(url@))
                    &&& final(self)@ == old(self)@
                },
            },
            old(self)@.wf() ==> final(self)@.wf(),
    {
        let t = trim(url);
        let normalized = trim_end_of(t.as_str(), Strip::Char('/'));
        proof {
            crate::text::lemma_trail_bounds(t@, Strip::Char('/'), 0, t@.len() as int);
        }
        if normalized.as_str().is_empty() {
            self.backend_base_url = None;
            return Ok(());
        }
        if !(starts_with(normalized.as_str(), "http://") || starts_with(
            normalized.as_str(),
            "https://",
        )) {
            return Err(ConfigError::InvalidBackendUrl);
        }
        self.backend_base_url = Some(normalized);
        Ok(())
    }

    /// Sets the bearer token from a text: trimmed, and none where nothing is left.
    pub fn set_token(&mut self, token: Option<String>)
        ensures
            final(self)@.backend_base_url == old(self)@.backend_base_url,
            final(self)@.bearer_token == normalized_token(opt_view(token)),
    {
        self.bearer_token = match token {
            Some(t) => {
                let trimmed_token = trim(t.as_str());
                if trimmed_token.as_str().is_empty() {
                    None
                } else {
                    Some(trimmed_token)
                }
            },
            None => None,
        };
    }

    /// The configured backend address.
    pub fn backend_base_url_from_state(&self) -> (r: Result<String, ConfigError>)
        ensures
            match r {
                Ok(url) => self@.backend_base_url == Some(url@),
                Err(e) => self@.backend_base_url is None && e == ConfigError::BackendNotSet,
            },
    {
        match &self.backend_base_url {
            Some(url) => Ok(url.clone()),
            None => Err(ConfigError::BackendNotSet),
        }
    }

    /// The configured token, or the empty text.
    pub fn token_or_empty(&self) -> (token: String)
        ensures
            token@ == match self@.bearer_token {
                Some(t) => t,
                None => Seq::<char>::empty(),
            },
    {
        match &self.bearer_token {
            Some(t) => t.clone(),
            None => String::new(),
        }
    }
}

/// The address under which the gateway is reached, once it has bound the
/// socket address `bound`.
pub fn pdh_gateway_url(bound: Option<String>) -> (r: Result<String, ConfigError>)
    ensures
        match r {
            Ok(url) => bound is Some && url@ == "http://"@ + bound->0@,
            Err(e) => bound is None && e == ConfigError::GatewayNotReady,
        },
{
    match bound {
        Some(addr) => Ok(concat2("http://", addr.as_str())),
        None => Err(ConfigError::GatewayNotReady),
    }
}

/// Why the gateway answers a request itself instead of forwarding it.
#[derive(Clone, Copy, Debug, PartialEq, Eq, Structural)]
pub enum GatewayFailure {
    /// No backend is configured.
    NoBackend,
    /// A path parameter is malformed.
    BadRequest,
    /// The request could not be sent to the backend.
    Upstream,
    /// The headers or the body of a message could not be built.
    Internal,
}

impl GatewayFailure {
    /// The HTTP status that reports the failure.
    pub open spec fn status(self) -> u16 {
        match self {
            GatewayFailure::NoBackend => 503,
            GatewayFailure::BadRequest => 400,
            GatewayFailure::Upstream => 502,
            GatewayFailure::Internal => 500,
        }
    }

    /// The HTTP status that reports the failure.
    pub fn status_code(&self) -> (code: u16)
        ensures
            code == self.status(),
    {
        match self {
            GatewayFailure::NoBackend => 503,
            GatewayFailure::BadRequest => 400,
            GatewayFailure::Upstream => 502,
            GatewayFailure::Internal => 500,
        }
    }
}

/// A request as the gateway sends it to the backend.
pub struct UpstreamRequest {
    pub url: String,
    pub headers: HeaderMap,
}

/// The value of the `Authorization` header that carries `token`, where the
/// token is not blank and the value can be encoded.
pub open spec fn bearer_value(token: Option<Seq<char>>) -> Option<Seq<u8>> {
    match token {
        Some(t) => if trimmed(t).len() > 0 && valid_value(
            encode_utf8("Bearer "@ + trimmed(t)),
        ) {
            Some(encode_utf8("Bearer "@ + trimmed(t)))
        } else {
            None
        },
        None => None,
    }
}

/// The values under `name` that an attachment request carries to the
/// backend, for the headers `inbound` of the caller: those that the filter
/// lets through, and the gateway's token where the caller sent no
/// `Authorization` of its own.
pub open spec fn attachment_header(
    inbound: Seq<(Seq<char>, Seq<u8>)>,
    token: Option<Seq<char>>,
    name: Seq<char>,
) -> Seq<Seq<u8>> {
    let own = values_named(forwarded(Direction::Request, inbound), name);
    if name == "authorization"@ && own.len() == 0 {
        match bearer_value(token) {
            Some(v) => seq![v],
            None => Seq::empty(),
        }
    } else {
        own
    }
}

/// The values under `name` that an API request carries to the backend: the
/// gateway's token in place of any `Authorization` of the caller, the
/// client mark where the caller sent none, and otherwise what the filter
/// lets through.
pub open spec fn api_header(
    inbound: Seq<(Seq<char>, Seq<u8>)>,
    token: Option<Seq<char>>,
    name: Seq<char>,
) -> Seq<Seq<u8>> {
    let own = values_named(forwarded(Direction::Request, inbound), name);
    if name == "authorization"@ {
        match bearer_value(token) {
            Some(v) => seq![v],
            None => Seq::empty(),
        }
    } else if name == "x-pdh-client"@ && own.len() == 0 {
        seq![encode_utf8("tauri"@)]
    } else {
        own
    }
}

/// The values under `name` that a proxied response carries to the caller:
/// the gateway's own resource policy, and otherwise what the filter lets
/// through of the backend's headers `upstream`.
pub open spec fn response_header(upstream: Seq<(Seq<char>, Seq<u8>)>, name: Seq<char>) -> Seq<
    Seq<u8>,
> {
    if name == "cross-origin-resource-policy"@ {
        seq![encode_utf8("cross-origin"@)]
    } else {
        values_named(forwarded(Direction::Response, upstream), name)
    }
}

/// The address of the attachment `id` at the backend.
pub open spec fn attachment_address(backend: Seq<char>, id: Seq<char>) -> Seq<char> {
    backend + "/api/attachments/"@ + id
}

/// The address at the backend of the API path `path` with the query `query`.
pub open spec fn api_address(backend: Seq<char>, path: Seq<char>, query: Seq<char>) -> Seq<char> {
    let base = backend + "/api/"@ + strip_start(path, Strip::Char('/'));
    if query.len() == 0 {
        base
    } else {
        base + "?"@ + query
    }
}

/// Sets the one value of the header `name` in `map`; `false` where the map
/// reported that it is full, and then the map is unchanged. A map of fewer
/// than [`FULL_AT_LEAST`] headers always takes the value.
fn set_header(map: &mut HeaderMap, name: &str, value: &str) -> (done: bool)
    requires
        crate::header_map::valid_name(name@),
        lower_ascii(name@) == name@,
        valid_value(encode_utf8(value@)),
    ensures
        listed(*old(map)).len() < FULL_AT_LEAST ==> done,
        done ==> forall|n: Seq<char>|
            #[trigger] stored(*final(map), n) == if n == name@ {
                seq![encode_utf8(value@)]
            } else {
                stored(*old(map), n)
            },
        done ==> listed(*final(map)).len() <= listed(*old(map)).len() + 1,
        !done ==> listed(*final(map)) == listed(*old(map)),
{
    match parse_name(name) {
        Some(n) => match parse_value(value.as_bytes()) {
            Some(v) => insert_header(map, n, v).is_ok(),
            None => false,
        },
        None => false,
    }
}

/// Whether `map` holds a value under `name`.
fn holds_header(map: &HeaderMap, name: &str) -> (r: bool)
    requires
        crate::header_map::valid_name(name@),
        lower_ascii(name@) == name@,
    ensures
        r == (stored(*map, name@).len() > 0),
{
    match parse_name(name) {
        Some(n) => has_header(map, &n),
        None => false,
    }
}

/// The `Authorization` value for the configured token, if it has one.
fn bearer_text(token: &Option<String>) -> (r: Option<String>)
    ensures
        match r {
            Some(v) => bearer_value(opt_view(*token)) == Some(encode_utf8(v@)) && valid_value(
                encode_utf8(v@),
            ),
            None => bearer_value(opt_view(*token)) is None,
        },
{
    match token {
        Some(t) => {
            let trimmed_token = trim(t.as_str());
            if trimmed_token.as_str().is_empty() {
                return None;
            }
            let value = concat2("Bearer ", trimmed_token.as_str());
            match parse_value(value.as_str().as_bytes()) {
                Some(_) => Some(value),
                None => None,
            }
        },
        None => None,
    }
}

/// Decides what becomes of a request for the attachment `id`: the request
/// to send to the backend, or the failure to answer with. Without a backend
/// the answer is 503, with a blank id 400; 500 only where the header map
/// reported that it is full, which it never does for a request of fewer
/// than [`FULL_AT_LEAST`] headers.
pub fn proxy_attachment(config: &GatewayConfig, id: &str, headers: &HeaderMap) -> (r: Result<
    UpstreamRequest,
    GatewayFailure,
>)
    ensures
        config@.backend_base_url is None ==> r == Err::<UpstreamRequest, GatewayFailure>(
            GatewayFailure::NoBackend,
        ),
        config@.backend_base_url is Some && trimmed(id@).len() == 0 ==> r == Err::<
            UpstreamRequest,
            GatewayFailure,
        >(GatewayFailure::BadRequest),
        config@.backend_base_url is Some && trimmed(id@).len() > 0 && listed(*headers).len()
            < FULL_AT_LEAST ==> r is Ok,
        match r {
            Ok(request) => {
                &&& config@.backend_base_url is Some
                &&& trimmed(id@).len() > 0
                &&& request.url@ == attachment_address(config@.backend_base_url->0, id@)
                &&& forall|n: Seq<char>|
                    #[trigger] stored(request.headers, n) == attachment_header(
                        listed(*headers),
                        config@.bearer_token,
                        n,
                    )
            },
            Err(failure) => {
                &&& failure == GatewayFailure::NoBackend || failure == GatewayFailure::BadRequest
                    || failure == GatewayFailure::Internal
                &&& failure == GatewayFailure::NoBackend ==> config@.backend_base_url is None
                &&& failure == GatewayFailure::BadRequest ==> trimmed(id@).len() == 0
                &&& failure == GatewayFailure::Internal ==> listed(*headers).len()
                    >= FULL_AT_LEAST
            },
        },
{
    let backend = match &config.backend_base_url {
        Some(url) => url,
        None => {
            return Err(GatewayFailure::NoBackend);
        },
    };
    if trim(id).as_str().is_empty() {
        return Err(GatewayFailure::BadRequest);
    }
    let url = concat3(backend.as_str(), "/api/attachments/", id);
    let mut out = empty_map();
    let ghost inbound = listed(*headers);
    if copy_request_headers(headers, &mut out).is_err() {
        return Err(GatewayFailure::Internal);
    }
    proof {
        reveal_strlit("authorization");
        assert(inbound.take(inbound.len() as int) =~= inbound);
        assert forall|n: Seq<char>| #[trigger]
            stored(out, n) == values_named(forwarded(Direction::Request, inbound), n) by {
            assert(Seq::<Seq<u8>>::empty() + values_named(
                forwarded(Direction::Request, inbound),
                n,
            ) =~= values_named(forwarded(Direction::Request, inbound), n));
        }
        assert(lower_ascii("authorization"@) =~= "authorization"@);
    }
    if !holds_header(&out, "authorization") {
        match bearer_text(&config.bearer_token) {
            Some(value) => {
                if !set_header(&mut out, "authorization", value.as_str()) {
                    return Err(GatewayFailure::Internal);
                }
            },
            None => {},
        }
    }
    Ok(UpstreamRequest { url, headers: out })
}

/// Decides what becomes of a request for the API path `path`: the request
/// to send to the backend, or the failure to answer with. Without a backend
/// the answer is 503; 500 only where the header map reported that it is
/// full, which it never does for a request of fewer than
/// [`FULL_AT_LEAST`] headers, one short.
pub fn proxy_api(config: &GatewayConfig, path: &str, query: &str, headers: &HeaderMap) -> (r:
    Result<UpstreamRequest, GatewayFailure>)
    ensures
        config@.backend_base_url is None ==> r == Err::<UpstreamRequest, GatewayFailure>(
            GatewayFailure::NoBackend,
        ),
        config@.backend_base_url is Some && listed(*headers).len() + 1 < FULL_AT_LEAST ==> r is Ok,
        match r {
            Ok(request) => {
                &&& config@.backend_base_url is Some
                &&& request.url@ == api_address(config@.backend_base_url->0, path@, query@)
                &&& forall|n: Seq<char>|
                    #[trigger] stored(request.headers, n) == api_header(
                        listed(*headers),
                        config@.bearer_token,
                        n,
                    )
            },
            Err(failure) => {
                &&& failure == GatewayFailure::NoBackend || failure == GatewayFailure::Internal
                &&& failure == GatewayFailure::NoBackend ==> config@.backend_base_url is None
                &&& failure == GatewayFailure::Internal ==> listed(*headers).len() + 1
                    >= FULL_AT_LEAST
            },
        },
{
    let backend = match &config.backend_base_url {
        Some(url) => url,
        None => {
            return Err(GatewayFailure::NoBackend);
        },
    };
    let tail = trim_start_of(path, Strip::Char('/'));
    let mut url = concat3(backend.as_str(), "/api/", tail.as_str());
    if !query.is_empty() {
        url = concat3(url.as_str(), "?", query);
    }
    let mut out = empty_map();
    let ghost inbound = listed(*headers);
    if copy_request_headers(headers, &mut out).is_err() {
        return Err(GatewayFailure::Internal);
    }
    proof {
        reveal_strlit("authorization");
        reveal_strlit("x-pdh-client");
        reveal_strlit("tauri");
        assert(inbound.take(inbound.len() as int) =~= inbound);
        assert forall|n: Seq<char>| #[trigger]
            stored(out, n) == values_named(forwarded(Direction::Request, inbound), n) by {
            assert(Seq::<Seq<u8>>::empty() + values_named(
                forwarded(Direction::Request, inbound),
                n,
            ) =~= values_named(forwarded(Direction::Request, inbound), n));
        }
        assert(lower_ascii("authorization"@) =~= "authorization"@);
        assert(lower_ascii("x-pdh-client"@) =~= "x-pdh-client"@);
        assert("authorization"@ != "x-pdh-client"@);
        vstd::string::is_ascii_spec_bytes("tauri");
    }
    match bearer_text(&config.bearer_token) {
        Some(value) => {
            if !set_header(&mut out, "authorization", value.as_str()) {
                return Err(GatewayFailure::Internal);
            }
        },
        None => {
            clear_header(&mut out, "authorization");
        },
    }
    if !holds_header(&out, "x-pdh-client") {
        if !set_header(&mut out, "x-pdh-client", "tauri") {
            return Err(GatewayFailure::Internal);
        }
    }
    Ok(UpstreamRequest { url, headers: out })
}

/// The headers of the response that the gateway hands to the caller, for
/// the headers of the backend's response: what the filter lets through,
/// and `Cross-Origin-Resource-Policy: cross-origin` in any case. It fails,
/// with 500, only where the header map reported that it is full, which it
/// never does for a response of fewer than [`FULL_AT_LEAST`] headers.
pub fn proxy_response(upstream: &HeaderMap) -> (r: Result<HeaderMap, GatewayFailure>)
    ensures
        listed(*upstream).len() < FULL_AT_LEAST ==> r is Ok,
        match r {
            Ok(headers) => forall|n: Seq<char>|
                #[trigger] stored(headers, n) == response_header(listed(*upstream), n),
            Err(failure) => failure == GatewayFailure::Internal && listed(*upstream).len()
                >= FULL_AT_LEAST,
        },
{
    let mut out = empty_map();
    let ghost all = listed(*upstream);
    if copy_response_headers(upstream, &mut out).is_err() {
        return Err(GatewayFailure::Internal);
    }
    proof {
        reveal_strlit("cross-origin-resource-policy");
        reveal_strlit("cross-origin");
        assert(all.take(all.len() as int) =~= all);
        assert forall|n: Seq<char>| #[trigger]
            stored(out, n) == values_named(forwarded(Direction::Response, all), n) by {
            assert(Seq::<Seq<u8>>::empty() + values_named(
                forwarded(Direction::Response, all),
                n,
            ) =~= values_named(forwarded(Direction::Response, all), n));
        }
        assert(lower_ascii("cross-origin-resource-policy"@) =~= "cross-origin-resource-policy"@);
        vstd::string::is_ascii_spec_bytes("cross-origin");
    }
    if !set_header(&mut out, "cross-origin-resource-policy", "cross-origin") {
        return Err(GatewayFailure::Internal);
    }
    Ok(out)
}

/// Whether the body of the backend's response is handed on: not for `HEAD`.
pub fn forwards_body(method: &str) -> (r: bool)
    ensures
        r == (method@ != "HEAD"@),
{
    !crate::text::text_eq(method, "HEAD")
}

} // verus!
