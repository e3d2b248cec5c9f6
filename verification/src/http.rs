//! Plugin HTTP requests: what a plugin asks for, how it is checked and
//! turned into the parts of a `reqwest` request, and the answer it gets.

use vstd::prelude::*;
use vstd::string::*;

use vstd::utf8::encode_utf8;

use crate::text::{ascii_lowercase_spec, chars_equal, owned, trim, trimmed};

verus! {

#[verifier::external_type_specification]
#[verifier::external_body]
pub struct ExMethod(reqwest::Method);

#[verifier::external_type_specification]
#[verifier::external_body]
pub struct ExProxy(reqwest::Proxy);

#[verifier::external_type_specification]
#[verifier::external_body]
pub struct ExHeaderName(reqwest::header::HeaderName);

#[verifier::external_type_specification]
#[verifier::external_body]
pub struct ExHeaderValue(reqwest::header::HeaderValue);

/// A request made by a plugin through the host.
#[derive(Debug, Clone)]
pub struct PluginHttpRequest {
    pub url: String,
    pub method: String,
    /// The header map, in ascending name order.
    pub headers: Vec<(String, String)>,
    pub body: Option<String>,
    pub timeout_ms: Option<u64>,
    pub proxy_url: Option<String>,
    pub response_type: Option<String>,
}

/// The answer handed back to the plugin.
#[derive(Debug, Clone)]
pub struct PluginHttpResponse {
    pub status: u16,
    pub ok: bool,
    /// The response headers by name, in ascending name order.
    pub headers: Vec<(String, String)>,
    /// The body as text, unless bytes were asked for.
    pub body: Option<String>,
    /// The raw body, when `responseType` is `bytes`.
    pub bytes: Option<Vec<u8>>,
}

/// The method of a request that names none.
pub fn default_http_method() -> (method: String)
    ensures
        method@ == "GET"@,
{
    owned("GET")
}

/// The `tchar` characters of RFC 9110: letters, digits and
/// ``!#$%&'*+-.^_`|~``.
pub open spec fn is_tchar(c: char) -> bool {
    ('a' <= c && c <= 'z') || ('A' <= c && c <= 'Z') || ('0' <= c && c <= '9') || c == '!' || c
        == '#' || c == '$' || c == '%' || c == '&' || c == '\'' || c == '*' || c == '+' || c == '-'
        || c == '.' || c == '^' || c == '_' || c == '`' || c == '|' || c == '~'
}

/// A non-empty HTTP token.
pub open spec fn is_http_token(s: Seq<char>) -> bool {
    s.len() > 0 && forall|i: int| 0 <= i < s.len() ==> is_tchar(#[trigger] s[i])
}

/// The characters a header value may hold: visible ASCII, space, tab and
/// anything outside ASCII.
pub open spec fn is_header_value_char(c: char) -> bool {
    ((c as u32) >= 32 && (c as u32) != 127) || c == '\t'
}

pub open spec fn is_header_value(s: Seq<char>) -> bool {
    forall|i: int| 0 <= i < s.len() ==> is_header_value_char(#[trigger] s[i])
}

/// The longest header name that is accepted.
pub const MAX_HEADER_NAME_LEN: usize = 65535;

/// What parsing `text` as a URL gives: its serialization, or the text of
/// the parse error.
pub uninterp spec fn url_parse_result(text: Seq<char>) -> Result<Seq<char>, Seq<char>>;

/// `reqwest::Url::parse`, as the URL's serialization (`String::from`) or the
/// parse error's text. Its result is named by `url_parse_result`; a URL's
/// serialization holds the `:` that ends its scheme.
#[verifier::external_body]
fn parse_url(text: &str) -> (r: Result<String, String>)
    ensures
        match r {
            Ok(s) => url_parse_result(text@) == Ok::<Seq<char>, Seq<char>>(s@) && s@.contains(
                ':',
            ),
            Err(e) => url_parse_result(text@) == Err::<Seq<char>, Seq<char>>(e@),
        },
{
    match reqwest::Url::parse(text) {
        Ok(url) => Ok(String::from(url)),
        Err(error) => Err(error.to_string()),
    }
}

/// The text of a method, as `Method::as_str` gives it.
pub uninterp spec fn method_name(method: reqwest::Method) -> Seq<char>;

/// `reqwest::Method::from_bytes` on the text's bytes: it accepts exactly the
/// HTTP tokens, keeps their exact text (case included), and its error reads
/// `invalid HTTP method`.
#[verifier::external_body]
fn parse_method(text: &str) -> (r: Result<reqwest::Method, String>)
    ensures
        match r {
            Ok(m) => is_http_token(text@) && method_name(m) == text@,
            Err(e) => !is_http_token(text@) && e@ == "invalid HTTP method"@,
        },
{
    reqwest::Method::from_bytes(text.as_bytes()).map_err(|error| error.to_string())
}

/// What `reqwest::Proxy::all` makes of a proxy address: the serialization
/// of the URL that every request is then sent through, or the error's text.
pub uninterp spec fn proxy_result(address: Seq<char>) -> Result<Seq<char>, Seq<char>>;

/// The serialization of the URL that a proxy sends every request through.
pub uninterp spec fn proxy_target(proxy: reqwest::Proxy) -> Seq<char>;

/// `reqwest::Proxy::all`, with the error as its text; its outcome is named
/// by `proxy_result`. An address that parses as an `http` or `https` URL is
/// that URL; one that does not parse at all is retried with `http://` in
/// front.
#[verifier::external_body]
fn proxy_for_all(url: &str) -> (r: Result<reqwest::Proxy, String>)
    ensures
        match r {
            Ok(p) => proxy_result(url@) == Ok::<Seq<char>, Seq<char>>(proxy_target(p)) && ((
            url_parse_result(url@) matches Ok(s) && (before_colon(s) == "http"@ || before_colon(s)
                == "https"@)) ==> proxy_target(p) == url_parse_result(url@)->Ok_0) && (
            url_parse_result(url@) is Err ==> url_parse_result("http://"@ + url@) == Ok::<
                Seq<char>,
                Seq<char>,
            >(proxy_target(p))),
            Err(e) => proxy_result(url@) == Err::<Seq<char>, Seq<char>>(e@),
        },
{
    reqwest::Proxy::all(url).map_err(|error| error.to_string())
}

/// The text of a header name, as `HeaderName::as_str` gives it.
pub uninterp spec fn header_name_text(name: reqwest::header::HeaderName) -> Seq<char>;

/// The bytes of a header value, as `HeaderValue::as_bytes` gives them.
pub uninterp spec fn header_value_bytes(value: reqwest::header::HeaderValue) -> Seq<u8>;

/// `reqwest::header::HeaderName::from_bytes` on the name's bytes: it accepts
/// exactly the HTTP tokens of at most 65535 characters and holds them in
/// lower case, and its error reads `invalid HTTP header name`.
#[verifier::external_body]
fn parse_header_name(name: &str) -> (r: Result<reqwest::header::HeaderName, String>)
    ensures
        match r {
            Ok(n) => is_http_token(name@) && name@.len() <= MAX_HEADER_NAME_LEN
                && header_name_text(n) == ascii_lowercase_spec(name@),
            Err(e) => !(is_http_token(name@) && name@.len() <= MAX_HEADER_NAME_LEN) && e@
                == "invalid HTTP header name"@,
        },
{
    reqwest::header::HeaderName::from_bytes(name.as_bytes()).map_err(|error| error.to_string())
}

/// `reqwest::header::HeaderValue::from_str`: it accepts exactly the values
/// of header-value characters, holds the text's UTF-8 bytes, and its error
/// reads `failed to parse header value`.
#[verifier::external_body]
fn parse_header_value(value: &str) -> (r: Result<reqwest::header::HeaderValue, String>)
    ensures
        match r {
            Ok(v) => is_header_value(value@) && header_value_bytes(v) == encode_utf8(value@),
            Err(e) => !is_header_value(value@) && e@ == "failed to parse header value"@,
        },
{
    reqwest::header::HeaderValue::from_str(value).map_err(|error| error.to_string())
}

/// The default timeout and its bounds, in milliseconds.
pub const DEFAULT_TIMEOUT_MS: u64 = 15_000;

pub const MIN_TIMEOUT_MS: u64 = 100;

pub const MAX_TIMEOUT_MS: u64 = 120_000;

/// The timeout of a request: 15 s unless given, kept within 0.1 s to 120 s.
pub open spec fn timeout_spec(timeout_ms: Option<u64>) -> u64 {
    let t = match timeout_ms {
        Some(t) => t,
        None => DEFAULT_TIMEOUT_MS,
    };
    if t < MIN_TIMEOUT_MS {
        MIN_TIMEOUT_MS
    } else if t > MAX_TIMEOUT_MS {
        MAX_TIMEOUT_MS
    } else {
        t
    }
}

pub fn request_timeout_ms(timeout_ms: Option<u64>) -> (t: u64)
    ensures
        t == timeout_spec(timeout_ms),
        MIN_TIMEOUT_MS <= t <= MAX_TIMEOUT_MS,
{
    let t = match timeout_ms {
        Some(t) => t,
        None => DEFAULT_TIMEOUT_MS,
    };
    if t < MIN_TIMEOUT_MS {
        MIN_TIMEOUT_MS
    } else if t > MAX_TIMEOUT_MS {
        MAX_TIMEOUT_MS
    } else {
        t
    }
}

/// The text before the first `:`.
pub open spec fn before_colon(s: Seq<char>) -> Seq<char>
    decreases s.len(),
{
    if s.len() == 0 || s[0] == ':' {
        Seq::empty()
    } else {
        seq![s[0]] + before_colon(s.drop_first())
    }
}

fn scheme_of(serialization: &str) -> (scheme: String)
    ensures
        scheme@ == before_colon(serialization@),
{
    let n = serialization.unicode_len();
    let mut k: usize = 0;
    let mut scheme = String::new();
    assert(serialization@.skip(0) =~= serialization@);
    while k < n && serialization.get_char(k) != ':'
        invariant
            n == serialization@.len(),
            k <= n,
            scheme@ + before_colon(serialization@.skip(k as int)) == before_colon(serialization@),
        decreases n - k,
    {
        let c = serialization.get_char(k);
        assert(serialization@.skip(k as int).drop_first() =~= serialization@.skip(k + 1));
        crate::text::push_char(&mut scheme, c);
        assert(scheme@ + before_colon(serialization@.skip(k + 1)) =~= before_colon(
            serialization@,
        ));
        k = k + 1;
    }
    assert(before_colon(serialization@.skip(k as int)) =~= Seq::<char>::empty());
    assert(scheme@ =~= before_colon(serialization@));
    scheme
}

/// The parts of a request that the client is built from.
pub struct HttpTarget {
    /// The serialization of the parsed URL.
    pub url: String,
    pub method: reqwest::Method,
    pub timeout_ms: u64,
    pub proxy: Option<reqwest::Proxy>,
}

/// The proxy address of a request, trimmed; blank means none.
pub open spec fn requested_proxy(proxy_url: Option<String>) -> Option<Seq<char>> {
    match proxy_url {
        Some(p) => if trimmed(p@).len() > 0 {
            Some(trimmed(p@))
        } else {
            None
        },
        None => None,
    }
}

/// The error, if any, of a request's URL, method and proxy, in the order
/// they are checked.
pub open spec fn target_error(request: PluginHttpRequest) -> Option<Seq<char>> {
    match url_parse_result(trimmed(request.url@)) {
        Err(e) => Some("HTTP URL 无效："@ + e),
        Ok(s) => if before_colon(s) != "http"@ && before_colon(s) != "https"@ {
            Some("HTTP 请求只允许 http:// 或 https://"@)
        } else if !is_http_token(trimmed(request.method@)) {
            Some("HTTP method 无效："@ + "invalid HTTP method"@)
        } else {
            match requested_proxy(request.proxy_url) {
                Some(p) => match proxy_result(p) {
                    Err(e) => Some("HTTP 代理地址无效："@ + e),
                    Ok(_) => None,
                },
                None => None,
            }
        },
    }
}

/// Checks a plugin's request and parses its URL, method and proxy: only
/// `http` and `https` URLs are allowed, and the timeout is clamped.
pub fn prepare_http_target(request: &PluginHttpRequest) -> (r: Result<HttpTarget, String>)
    ensures
        match r {
            Ok(target) => {
                &&& target_error(*request) is None
                &&& url_parse_result(trimmed(request.url@)) == Ok::<Seq<char>, Seq<char>>(
                    target.url@,
                )
                &&& method_name(target.method) == trimmed(request.method@)
                &&& target.timeout_ms == timeout_spec(request.timeout_ms)
                &&& match target.proxy {
                    Some(p) => requested_proxy(request.proxy_url) matches Some(a)
                        && proxy_result(a) == Ok::<Seq<char>, Seq<char>>(proxy_target(p)),
                    None => requested_proxy(request.proxy_url) is None,
                }
            },
            Err(e) => target_error(*request) == Some(e@),
        },
{
    let url_text = trim(request.url.as_str());
    let url = match parse_url(url_text.as_str()) {
        Ok(url) => url,
        Err(error) => {
            let mut message = owned("HTTP URL 无效：");
            message.append(error.as_str());
            return Err(message);
        },
    };
    let scheme = scheme_of(url.as_str());
    if !chars_equal(scheme.as_str(), "http") && !chars_equal(scheme.as_str(), "https") {
        return Err(owned("HTTP 请求只允许 http:// 或 https://"));
    }
    let method_text = trim(request.method.as_str());
    let method = match parse_method(method_text.as_str()) {
        Ok(method) => method,
        Err(error) => {
            let mut message = owned("HTTP method 无效：");
            message.append(error.as_str());
            return Err(message);
        },
    };
    let timeout_ms = request_timeout_ms(request.timeout_ms);
    let proxy = match &request.proxy_url {
        Some(proxy_url) => {
            let address = trim(proxy_url.as_str());
            if address.as_str().unicode_len() == 0 {
                None
            } else {
                match proxy_for_all(address.as_str()) {
                    Ok(proxy) => Some(proxy),
                    Err(error) => {
                        let mut message = owned("HTTP 代理地址无效：");
                        message.append(error.as_str());
                        return Err(message);
                    },
                }
            }
        },
        None => None,
    };
    Ok(HttpTarget { url, method, timeout_ms, proxy })
}

/// The error, if any, of the request headers: the first invalid name or
/// value, in name order.
pub open spec fn headers_error(headers: Seq<(String, String)>) -> Option<Seq<char>>
    decreases headers.len(),
{
    if headers.len() == 0 {
        None
    } else if !(is_http_token(headers[0].0@) && headers[0].0@.len() <= MAX_HEADER_NAME_LEN) {
        Some("HTTP header 名称无效："@ + "invalid HTTP header name"@)
    } else if !is_header_value(headers[0].1@) {
        Some("HTTP header 值无效："@ + "failed to parse header value"@)
    } else {
        headers_error(headers.drop_first())
    }
}

/// Parses the request headers, keeping their order.
pub fn prepare_http_headers(headers: &Vec<(String, String)>) -> (r: Result<
    Vec<(reqwest::header::HeaderName, reqwest::header::HeaderValue)>,
    String,
>)
    ensures
        match r {
            Ok(parsed) => headers_error(headers@) is None && parsed@.len() == headers@.len() && forall|
                i: int,
            |
                0 <= i < headers@.len() ==> header_name_text(#[trigger] parsed@[i].0)
                    == ascii_lowercase_spec(headers@[i].0@) && header_value_bytes(parsed@[i].1)
                    == encode_utf8(headers@[i].1@),
            Err(e) => headers_error(headers@) == Some(e@),
        },
{
    let mut parsed: Vec<(reqwest::header::HeaderName, reqwest::header::HeaderValue)> = Vec::new();
    let mut i: usize = 0;
    assert(headers@.skip(0) =~= headers@);
    while i < headers.len()
        invariant
            i <= headers@.len(),
            parsed@.len() == i,
            forall|j: int|
                0 <= j < i ==> header_name_text(#[trigger] parsed@[j].0) == ascii_lowercase_spec(
                    headers@[j].0@,
                ) && header_value_bytes(parsed@[j].1) == encode_utf8(headers@[j].1@),
            headers_error(headers@) == headers_error(headers@.skip(i as int)),
        decreases headers@.len() - i,
    {
        assert(headers@.skip(i as int)[0] == headers@[i as int]);
        assert(headers@.skip(i as int).drop_first() =~= headers@.skip(i + 1));
        let name = match parse_header_name(headers[i].0.as_str()) {
            Ok(name) => name,
            Err(error) => {
                let mut message = owned("HTTP header 名称无效：");
                message.append(error.as_str());
                return Err(message);
            },
        };
        let value = match parse_header_value(headers[i].1.as_str()) {
            Ok(value) => value,
            Err(error) => {
                let mut message = owned("HTTP header 值无效：");
                message.append(error.as_str());
                return Err(message);
            },
        };
        parsed.push((name, value));
        i = i + 1;
    }
    Ok(parsed)
}

/// The largest response a plugin may receive: 16 MiB.
pub const MAX_RESPONSE_BYTES: u64 = 16 * 1024 * 1024;

pub open spec fn too_large_message() -> Seq<char> {
    "HTTP 响应超过 16 MiB 限制"@
}

/// A response that announces more than 16 MiB is refused before its body
/// is read.
pub fn check_content_length(content_length: Option<u64>) -> (r: Result<(), String>)
    ensures
        match r {
            Ok(()) => !(content_length matches Some(l) && l > MAX_RESPONSE_BYTES),
            Err(e) => (content_length matches Some(l) && l > MAX_RESPONSE_BYTES) && e@
                == too_large_message(),
        },
{
    match content_length {
        Some(length) => if length > MAX_RESPONSE_BYTES {
            Err(owned("HTTP 响应超过 16 MiB 限制"))
        } else {
            Ok(())
        },
        None => Ok(()),
    }
}

/// The text of bytes decoded as UTF-8 with invalid sequences replaced.
pub uninterp spec fn utf8_lossy_text(bytes: Seq<u8>) -> Seq<char>;

/// `String::from_utf8_lossy`, named by `utf8_lossy_text`; ASCII bytes stay
/// the same characters.
#[verifier::external_body]
fn utf8_lossy(bytes: &[u8]) -> (text: String)
    ensures
        text@ == utf8_lossy_text(bytes@),
        (forall|i: int| 0 <= i < bytes@.len() ==> #[trigger] bytes@[i] < 128) ==> text@ == bytes@.map_values(
            |b: u8| (b as u32) as char,
        ),
{
    String::from_utf8_lossy(bytes).into_owned()
}

/// `StatusCode::is_success`: a status in 200..=299.
pub open spec fn is_success_status(status: u16) -> bool {
    200 <= status && status <= 299
}

/// Whether the plugin asked for the raw body (`responseType: "bytes"`).
pub open spec fn wants_bytes(response_type: Option<String>) -> bool {
    response_type matches Some(t) && t@ == "bytes"@
}

/// Builds the answer to the plugin from a received response: refused above
/// 16 MiB; the raw bytes when asked for, else the body as text.
pub fn build_http_response(
    status: u16,
    headers: Vec<(String, String)>,
    bytes: Vec<u8>,
    response_type: &Option<String>,
) -> (r: Result<PluginHttpResponse, String>)
    ensures
        bytes@.len() > MAX_RESPONSE_BYTES ==> (r matches Err(e) && e@ == too_large_message()),
        bytes@.len() <= MAX_RESPONSE_BYTES ==> (r matches Ok(response) && response.status
            == status && response.ok == is_success_status(status) && response.headers@ == headers@
            && (wants_bytes(*response_type) ==> response.body is None && (response.bytes matches Some(
            b) && b@ == bytes@)) && (!wants_bytes(*response_type) ==> response.bytes is None && (
        response.body matches Some(t) && t@ == utf8_lossy_text(bytes@)))),
{
    if bytes.len() as u64 > MAX_RESPONSE_BYTES {
        return Err(owned("HTTP 响应超过 16 MiB 限制"));
    }
    let wants = match response_type {
        Some(t) => chars_equal(t.as_str(), "bytes"),
        None => false,
    };
    let ok = 200 <= status && status <= 299;
    if wants {
        Ok(PluginHttpResponse { status, ok, headers, body: None, bytes: Some(bytes) })
    } else {
        let text = utf8_lossy(bytes.as_slice());
        Ok(PluginHttpResponse { status, ok, headers, body: Some(text), bytes: None })
    }
}

} // verus!
