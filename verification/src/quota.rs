//! The quota query around its network call: what is requested, how a
//! transport failure is reported, and what each HTTP status means.

use crate::http::{parse_url, url_error, HttpError};
use crate::insight::{mask_key, masked_key, normalized_endpoint_text, QuotaConfig, DEFAULT_ENDPOINT};
use crate::text::{decimal, push_decimal, str_eq, str_trim, trimmed};
use vstd::prelude::*;

verus! {

/// What the quota query sends.
#[derive(Debug, Clone, PartialEq, Eq)]
pub struct QuotaRequest {
    /// The normalized endpoint.
    pub endpoint: String,
    /// Header names and values, in the order they are sent.
    pub headers: Vec<(String, String)>,
}

/// The headers of a quota query for an API key: the key is sent both as a
/// bearer token and as `X-API-Key` (the server ignores the one it does not
/// use), and HTML is refused.
pub open spec fn request_headers(key: Seq<char>) -> Seq<(Seq<char>, Seq<char>)> {
    let k = trimmed(key);
    seq![
        ("Authorization"@, "Bearer "@ + k),
        ("X-API-Key"@, k),
        ("Accept"@, "application/json"@),
        ("Accept-Language"@, "zh-CN,zh;q=0.9,en;q=0.8"@),
    ]
}

/// The request for a configuration, or `None` when no key is configured (no
/// request is sent then).
pub fn quota_request(config: &QuotaConfig) -> (r: Option<QuotaRequest>)
    ensures
        r is Some <==> trimmed(config.api_key@).len() > 0,
        r is Some ==> {
            &&& r->0.endpoint@ == normalized_endpoint_text(config.endpoint@)
            &&& r->0.headers@.map_values(|h: (String, String)| (h.0@, h.1@)) == request_headers(
                config.api_key@,
            )
        },
{
    if !config.is_ready() {
        return None;
    }
    let key = str_trim(config.api_key.as_str());
    let mut bearer = String::from_str("Bearer ");
    bearer.append(key);
    let mut headers: Vec<(String, String)> = Vec::new();
    headers.push((String::from_str("Authorization"), bearer));
    headers.push((String::from_str("X-API-Key"), String::from_str(key)));
    headers.push((String::from_str("Accept"), String::from_str("application/json")));
    headers.push((String::from_str("Accept-Language"), String::from_str("zh-CN,zh;q=0.9,en;q=0.8")));
    let endpoint = config.normalized_endpoint();
    assert(headers@.map_values(|h: (String, String)| (h.0@, h.1@)) =~= request_headers(
        config.api_key@,
    ));
    Some(QuotaRequest { endpoint, headers })
}

/// The detail of a transport failure: every kind of failure of the request
/// itself is a network problem (a bad key arrives as an HTTP status).
pub fn transport_detail(err: HttpError) -> (s: String)
    ensures
        s@ == match err {
            HttpError::Unreachable(d) => d@,
            HttpError::Timeout(d) => d@,
            HttpError::Tls(d) => d@,
            HttpError::Other(d) => d@,
        },
{
    match err {
        HttpError::Unreachable(detail) => detail,
        HttpError::Timeout(detail) => detail,
        HttpError::Tls(detail) => detail,
        HttpError::Other(detail) => detail,
    }
}

/// What an HTTP status says about a quota response.
#[derive(Debug, Clone, PartialEq, Eq)]
pub enum ResponseClass {
    /// 2xx: the body is to be parsed.
    Body,
    /// The credentials are wrong.
    Unauthorized { message: String },
    /// The endpoint answered with an error.
    ApiError { message: String },
}

/// The message for a missing endpoint, which names the two usual path
/// conventions so that the user knows what to fix.
pub open spec fn not_found_text() -> Seq<char> {
    "接口不存在（404）：请检查地址路径，常见有两种格式 — OpenAI 风格 /v1/dashboard/billing/usage；one-api 风格 /api/user/self"@
}

/// The message of a status that is an endpoint error.
pub open spec fn api_error_text(status: u16) -> Seq<char> {
    if status == 404 {
        not_found_text()
    } else if status == 405 {
        "接口不支持此请求方式（405）：需 GET"@
    } else if status == 429 {
        "请求过于频繁（429），请稍后再试"@
    } else if 500 <= status <= 599 {
        "服务端错误 "@ + decimal(status as nat)
    } else {
        "未预期的状态码 "@ + decimal(status as nat)
    }
}

/// Classifies an HTTP status of the quota endpoint: 2xx carries a body to
/// parse; 401, 403 and 407 (a proxy asking for credentials) mean the
/// credentials are wrong; 404, 405, 429, 5xx and the rest
/// are endpoint errors, each with its own message.
pub fn response_class(status: u16) -> (r: ResponseClass)
    ensures
        r is Body <==> 200 <= status <= 299,
        r is Unauthorized <==> (status == 401 || status == 403 || status == 407),
        r matches ResponseClass::Unauthorized { message } ==> message@ == "服务端返回 "@ + decimal(
            status as nat,
        ),
        r matches ResponseClass::ApiError { message } ==> message@ == api_error_text(status),
{
    if 200 <= status && status <= 299 {
        ResponseClass::Body
    } else if status == 401 || status == 403 || status == 407 {
        let mut m = String::from_str("服务端返回 ");
        push_decimal(&mut m, status as u64);
        ResponseClass::Unauthorized { message: m }
    } else if status == 404 {
        ResponseClass::ApiError {
            message: String::from_str(
                "接口不存在（404）：请检查地址路径，常见有两种格式 — OpenAI 风格 /v1/dashboard/billing/usage；one-api 风格 /api/user/self",
            ),
        }
    } else if status == 405 {
        ResponseClass::ApiError { message: String::from_str("接口不支持此请求方式（405）：需 GET") }
    } else if status == 429 {
        ResponseClass::ApiError { message: String::from_str("请求过于频繁（429），请稍后再试") }
    } else if 500 <= status && status <= 599 {
        let mut m = String::from_str("服务端错误 ");
        push_decimal(&mut m, status as u64);
        ResponseClass::ApiError { message: m }
    } else {
        let mut m = String::from_str("未预期的状态码 ");
        push_decimal(&mut m, status as u64);
        ResponseClass::ApiError { message: m }
    }
}

// ---------------------------------------------------------------------------
// The configuration as the settings panel sees and changes it.
// ---------------------------------------------------------------------------

/// What the settings panel shows of the configuration: never the key itself.
#[derive(Debug, Clone, PartialEq, Eq)]
pub struct QuotaConfigView {
    /// Whether a key is set.
    pub has_key: bool,
    /// The masked key.
    pub key_hint: String,
    /// The endpoint that is actually requested.
    pub endpoint: String,
    /// Whether that is the built-in endpoint.
    pub endpoint_is_default: bool,
}

/// The panel's view of a configuration.
pub fn config_view(config: &QuotaConfig) -> (v: QuotaConfigView)
    ensures
        v.has_key == (trimmed(config.api_key@).len() > 0),
        v.key_hint@ == masked_key(config.api_key@),
        v.endpoint@ == normalized_endpoint_text(config.endpoint@),
        v.endpoint_is_default == (normalized_endpoint_text(config.endpoint@) == DEFAULT_ENDPOINT@),
{
    let endpoint = config.normalized_endpoint();
    let endpoint_is_default = str_eq(endpoint.as_str(), DEFAULT_ENDPOINT);
    QuotaConfigView {
        has_key: config.is_ready(),
        key_hint: mask_key(config.api_key.as_str()),
        endpoint,
        endpoint_is_default,
    }
}

/// Applies the panel's changes: a new key is stored trimmed; a new endpoint
/// is stored trimmed, and must be a valid address unless it is empty (empty
/// means the built-in endpoint). A field that is not given keeps its value.
/// An invalid endpoint is refused with the reason the address was refused.
pub fn apply_quota_config(current: QuotaConfig, api_key: Option<&str>, endpoint: Option<&str>) -> (r:
    Result<QuotaConfig, String>)
    ensures
        ({
            let bad = match endpoint {
                Some(url) => trimmed(url@).len() > 0 && url_error(trimmed(url@)) is Some,
                None => false,
            };
            &&& r is Err <==> bad
            &&& r is Err ==> r->Err_0@ == url_error(trimmed(endpoint->0@))->0
            &&& r is Ok ==> r->Ok_0.api_key@ == match api_key {
                Some(key) => trimmed(key@),
                None => current.api_key@,
            }
            &&& r is Ok ==> r->Ok_0.endpoint@ == match endpoint {
                Some(url) => trimmed(url@),
                None => current.endpoint@,
            }
        }),
{
    let mut current = current;
    match api_key {
        Some(key) => {
            current.api_key = String::from_str(str_trim(key));
        },
        None => {},
    }
    match endpoint {
        Some(url) => {
            let t = str_trim(url);
            if !t.is_empty() {
                match parse_url(t) {
                    Ok(_) => {},
                    Err(e) => return Err(e.message()),
                }
            }
            current.endpoint = String::from_str(t);
        },
        None => {},
    }
    Ok(current)
}

} // verus!
