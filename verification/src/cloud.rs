//! Requests to the hosted-browser service and what its answers become.

use vstd::prelude::*;

use crate::error::AppError;
use crate::ids::opt_text;
use crate::text::push_text;
use crate::urls::{join_url, parse_url, url_join_result, url_parse_result};

verus! {

/// A request to provision a browser: where to send it, the bearer token,
/// and the region to ask for (the body is `{"region": ...}` when one is
/// given, `{}` otherwise).
#[derive(Debug, Clone)]
pub struct ProvisionRequest {
    pub url: String,
    pub bearer: String,
    pub region: Option<String>,
}

/// A request to release a browser: where to send it and the bearer token.
#[derive(Debug, Clone)]
pub struct ReleaseRequest {
    pub url: String,
    pub bearer: String,
}

/// A provisioned browser: its session, where its DevTools endpoint is
/// (a URL's text), its region and when it expires.
#[derive(Debug, Clone)]
pub struct CloudSession {
    pub session_id: String,
    pub cdp_url: String,
    pub region: Option<String>,
    pub expires_at_unix_ms: i64,
}

/// The text of the error for a missing API key.
pub open spec fn missing_key_text() -> Seq<char> {
    "api key missing"@
}

fn missing_key() -> (e: AppError)
    ensures
        e matches AppError::Unauthorized(m) && m@ == missing_key_text(),
{
    let mut m = String::new();
    push_text(&mut m, "api key missing");
    AppError::Unauthorized(m)
}

fn validation_error(prefix: &str, detail: &str) -> (e: AppError)
    ensures
        e matches AppError::ValidationError(m) && m@ == prefix@ + detail@,
{
    let mut m = String::new();
    push_text(&mut m, prefix);
    push_text(&mut m, detail);
    AppError::ValidationError(m)
}

/// The request that provisions a browser: refused without an API key, or
/// when `v1/browsers` cannot be joined to the service's base URL.
pub fn provision_request(api_key: &Option<String>, base_url: &str, region: &Option<String>) -> (r: Result<
    ProvisionRequest,
    AppError,
>)
    ensures
        api_key is None ==> (r matches Err(AppError::Unauthorized(m)) && m@ == missing_key_text()),
        api_key is Some ==> match url_join_result(base_url@, "v1/browsers"@) {
            Err(e) => r matches Err(AppError::ValidationError(m)) && m@ == "base_url: "@ + e,
            Ok(u) => r matches Ok(req) && req.url@ == u && req.bearer@ == api_key.unwrap()@
                && opt_text(req.region) == opt_text(*region),
        },
{
    let key = match api_key {
        Some(k) => k,
        None => return Err(missing_key()),
    };
    match join_url(base_url, "v1/browsers") {
        Ok(url) => {
            let mut bearer = String::new();
            push_text(&mut bearer, key.as_str());
            let region = match region {
                Some(x) => {
                    let mut t = String::new();
                    push_text(&mut t, x.as_str());
                    Some(t)
                },
                None => None,
            };
            Ok(ProvisionRequest { url, bearer, region })
        },
        Err(e) => Err(validation_error("base_url: ", e.as_str())),
    }
}

/// The session described by the service's answer: refused when its DevTools
/// URL does not parse.
pub fn session_from_response(
    session_id: String,
    cdp_url: &str,
    region: Option<String>,
    expires_at_unix_ms: i64,
) -> (r: Result<CloudSession, AppError>)
    ensures
        match url_parse_result(cdp_url@) {
            Err(e) => r matches Err(AppError::ValidationError(m)) && m@ == "cdp_url: "@ + e,
            Ok(u) => r matches Ok(s) && s.cdp_url@ == u && s.session_id == session_id && s.region == region
                && s.expires_at_unix_ms == expires_at_unix_ms,
        },
{
    match parse_url(cdp_url) {
        Ok(u) => Ok(CloudSession { session_id, cdp_url: u, region, expires_at_unix_ms }),
        Err(e) => Err(validation_error("cdp_url: ", e.as_str())),
    }
}

/// The request that releases the browser of `session_id`: refused without
/// an API key, or when `v1/browsers/{session_id}` cannot be joined to the
/// service's base URL.
pub fn release_request(api_key: &Option<String>, base_url: &str, session_id: &str) -> (r: Result<
    ReleaseRequest,
    AppError,
>)
    ensures
        api_key is None ==> (r matches Err(AppError::Unauthorized(m)) && m@ == missing_key_text()),
        api_key is Some ==> match url_join_result(base_url@, "v1/browsers/"@ + session_id@) {
            Err(e) => r matches Err(AppError::ValidationError(m)) && m@ == "url: "@ + e,
            Ok(u) => r matches Ok(req) && req.url@ == u && req.bearer@ == api_key.unwrap()@,
        },
{
    let key = match api_key {
        Some(k) => k,
        None => return Err(missing_key()),
    };
    let mut rel = String::new();
    push_text(&mut rel, "v1/browsers/");
    push_text(&mut rel, session_id);
    match join_url(base_url, rel.as_str()) {
        Ok(url) => {
            let mut bearer = String::new();
            push_text(&mut bearer, key.as_str());
            Ok(ReleaseRequest { url, bearer })
        },
        Err(e) => Err(validation_error("url: ", e.as_str())),
    }
}

} // verus!
