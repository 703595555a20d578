use crate::config::{platform_base, regional_base, Config, RateLimitConfig};
use crate::limiter::{
    app_after, backoff_delay, backoff_ms, cooldown_ms, keyed_after, method_key, service_key,
    RateLimiter,
};
use crate::text::{parse_i32, parse_u64, parsed_i32, parsed_u64, split_on, starts_with};
use vstd::prelude::*;
use vstd::string::*;

verus! {

/// Why an upstream call failed.
#[derive(Clone, Debug)]
pub enum ApiError {
    /// The transport failed; `timeout` and `connect` tell the kind.
    Http { timeout: bool, connect: bool, message: String },
    RateLimit,
    Authentication,
    NotFound,
    ServiceUnavailable,
    BadRequest(String),
    /// The body did not decode.
    Json(String),
    /// No permit could be had from the rate limiter.
    RateLimiter(String),
    Api { status: u16, message: String },
    Unknown(String),
}

/// Whether an error's class permits an automatic retry after a backoff.
pub open spec fn retryable(e: ApiError) -> bool {
    match e {
        ApiError::RateLimit => true,
        ApiError::ServiceUnavailable => true,
        ApiError::Http { timeout, connect, .. } => timeout || connect,
        ApiError::RateLimiter(_) => true,
        ApiError::Api { status, .. } => status == 429 || status == 500 || status == 502 || status
            == 503 || status == 504,
        _ => false,
    }
}

impl ApiError {
    pub fn is_retryable(&self) -> (r: bool)
        ensures
            r == retryable(*self),
    {
        match self {
            ApiError::RateLimit => true,
            ApiError::ServiceUnavailable => true,
            ApiError::Http { timeout, connect, .. } => *timeout || *connect,
            ApiError::RateLimiter(_) => true,
            ApiError::Api { status, .. } => *status == 429 || *status == 500 || *status == 502
                || *status == 503 || *status == 504,
            _ => false,
        }
    }

    pub fn should_retry_after_delay(&self) -> (r: bool)
        ensures
            r == (*self is RateLimit || *self is ServiceUnavailable),
    {
        match self {
            ApiError::RateLimit | ApiError::ServiceUnavailable => true,
            _ => false,
        }
    }
}

/// The result that a status code maps to; `body` is the response text.
pub open spec fn status_result(status: u16, body: Seq<char>, e: Result<(), ApiError>) -> bool {
    if status == 200 {
        e is Ok
    } else if status == 400 {
        e matches Err(ApiError::BadRequest(b)) && b@ == body
    } else if status == 401 || status == 403 {
        e matches Err(ApiError::Authentication)
    } else if status == 404 {
        e matches Err(ApiError::NotFound)
    } else if status == 429 {
        e matches Err(ApiError::RateLimit)
    } else if 500 <= status <= 599 {
        e matches Err(ApiError::ServiceUnavailable)
    } else {
        e matches Err(ApiError::Api { status: s, message: m }) && s == status && m@ == body
    }
}

/// Maps a response status to success or to the error of its class.
pub fn classify_status(status: u16, body: String) -> (r: Result<(), ApiError>)
    ensures
        status_result(status, body@, r),
{
    if status == 200 {
        Ok(())
    } else if status == 400 {
        Err(ApiError::BadRequest(body))
    } else if status == 401 || status == 403 {
        Err(ApiError::Authentication)
    } else if status == 404 {
        Err(ApiError::NotFound)
    } else if status == 429 {
        Err(ApiError::RateLimit)
    } else if 500 <= status && status <= 599 {
        Err(ApiError::ServiceUnavailable)
    } else {
        Err(ApiError::Api { status, message: body })
    }
}

/// The backoff before the next attempt of a decoded request, or `None` when
/// the error is permanent or `retries` has reached `max_retries`. `retries`
/// counts the retries made so far; the next waits `retry_delay_ms * 2^retries`.
pub fn retry_delay_for(err: &ApiError, retries: u32, config: &RateLimitConfig) -> (r: Option<u64>)
    ensures
        r == (if retryable(*err) && retries < config.max_retries {
            Some(backoff_ms(config.retry_delay_ms, retries as nat))
        } else {
            None
        }),
{
    if err.is_retryable() && retries < config.max_retries {
        Some(backoff_delay(config.retry_delay_ms, retries))
    } else {
        None
    }
}

/// The endpoint key of `url`: the text after the region's platform or
/// regional base URL, whichever `url` starts with, else `url` itself.
pub open spec fn endpoint_of(url: Seq<char>, region: Seq<char>) -> Seq<char> {
    let p = platform_base(region);
    let g = regional_base(region);
    if p.is_prefix_of(url) {
        url.subrange(p.len() as int, url.len() as int)
    } else if g.is_prefix_of(url) {
        url.subrange(g.len() as int, url.len() as int)
    } else {
        url
    }
}

/// Derives the endpoint key of `url` for rate limiting and auditing.
pub fn extract_endpoint(config: &Config, url: &str, region: &str) -> (r: String)
    ensures
        r@ == endpoint_of(url@, region@),
{
    let n = url.unicode_len();
    let p = config.base_url_for_region(region);
    if starts_with(url, p.as_str()) {
        return String::from_str(url.substring_char(p.unicode_len(), n));
    }
    let g = config.regional_base_url_for_region(region);
    if starts_with(url, g.as_str()) {
        return String::from_str(url.substring_char(g.unicode_len(), n));
    }
    String::from_str(url)
}

/// One row of the append-only audit of upstream calls.
#[derive(Clone, Debug)]
pub struct DbApiCall {
    pub id: Option<i64>,
    pub endpoint: String,
    pub region: String,
    /// Wall-clock time of the call, in milliseconds since the Unix epoch.
    pub timestamp: i64,
    pub response_code: i32,
    pub rate_limit_remaining: Option<i32>,
}

/// What a response carries that the gateway reads.
#[derive(Clone, Debug)]
pub struct ResponseMeta {
    pub status: u16,
    pub body: String,
    pub retry_after: Option<String>,
    pub app_rate_limit_count: Option<String>,
    pub app_rate_limit: Option<String>,
    pub method_rate_limit: Option<String>,
    pub service_rate_limit: Option<String>,
}

/// What the gateway makes of a response.
#[derive(Debug)]
pub struct ResponseOutcome {
    /// The audit row to persist.
    pub api_call: DbApiCall,
    /// Success, or the error of the status's class.
    pub result: Result<(), ApiError>,
    /// For a 429: how many milliseconds to cool down before the caller decides.
    pub cooldown_ms: Option<u128>,
}

/// The `Retry-After` seconds, where the header is a whole number.
pub open spec fn retry_after_secs(o: Option<String>) -> Option<u64> {
    match o {
        Some(s) => parsed_u64(s@),
        None => None,
    }
}

/// Handles a response to a call of `endpoint` in `region`: builds the audit
/// row, feeds the limit headers back into the rate limiter, and maps the
/// status to a result, with the cool-down a 429 asks for.
pub fn handle_response(
    limiter: &mut RateLimiter,
    endpoint: &str,
    region: &str,
    meta: ResponseMeta,
    now_ms: u64,
    wall_clock_ms: i64,
) -> (out: ResponseOutcome)
    requires
        old(limiter).wf(),
    ensures
        final(limiter).wf(),
        final(limiter).settings() == old(limiter).settings(),
        out.api_call.id is None,
        out.api_call.endpoint@ == endpoint@,
        out.api_call.region@ == region@,
        out.api_call.timestamp == wall_clock_ms,
        out.api_call.response_code == meta.status as i32,
        out.api_call.rate_limit_remaining == (match meta.app_rate_limit_count {
            Some(s) => parsed_i32(s@),
            None => None,
        }),
        (final(limiter)@.app_second, final(limiter)@.app_two_minutes) == (match meta.app_rate_limit {
            Some(h) => app_after(
                (old(limiter)@.app_second, old(limiter)@.app_two_minutes),
                split_on(h@, ','),
                now_ms as nat,
            ),
            None => (old(limiter)@.app_second, old(limiter)@.app_two_minutes),
        }),
        final(limiter)@.methods == (match meta.method_rate_limit {
            Some(h) => keyed_after(
                old(limiter)@.methods,
                method_key(endpoint@, region@),
                h@,
                now_ms as nat,
            ),
            None => old(limiter)@.methods,
        }),
        final(limiter)@.services == (match meta.service_rate_limit {
            Some(h) => keyed_after(
                old(limiter)@.services,
                service_key(endpoint@, region@),
                h@,
                now_ms as nat,
            ),
            None => old(limiter)@.services,
        }),
        status_result(meta.status, meta.body@, out.result),
        out.cooldown_ms == (if meta.status == 429 {
            Some(cooldown_ms(retry_after_secs(meta.retry_after), old(limiter).settings().retry_delay_ms) as u128)
        } else {
            None
        }),
{
    let remaining = match &meta.app_rate_limit_count {
        Some(s) => parse_i32(s.as_str()),
        None => None,
    };
    let api_call = DbApiCall {
        id: None,
        endpoint: String::from_str(endpoint),
        region: String::from_str(region),
        timestamp: wall_clock_ms,
        response_code: meta.status as i32,
        rate_limit_remaining: remaining,
    };
    let app = match &meta.app_rate_limit {
        Some(h) => Some(h.as_str()),
        None => None,
    };
    let method = match &meta.method_rate_limit {
        Some(h) => Some(h.as_str()),
        None => None,
    };
    let service = match &meta.service_rate_limit {
        Some(h) => Some(h.as_str()),
        None => None,
    };
    limiter.update_limits_from_headers(endpoint, region, app, method, service, now_ms);
    let cooldown = if meta.status == 429 {
        let secs = match &meta.retry_after {
            Some(s) => parse_u64(s.as_str()),
            None => None,
        };
        Some(limiter.handle_429_response(secs))
    } else {
        None
    };
    let status = meta.status;
    let result = classify_status(status, meta.body);
    ResponseOutcome { api_call, result, cooldown_ms: cooldown }
}

} // verus!
