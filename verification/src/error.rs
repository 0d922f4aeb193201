//! Errors raised across the agent, and which of them warrant the fallback model.

use vstd::prelude::*;

verus! {

/// An error from the model provider, the browser or the agent itself.
#[derive(Debug, Clone)]
pub enum AppError {
    LlmRateLimited(String),
    LlmAuthExpired(String),
    LlmProviderError(String),
    CdpTimeout(String),
    BrowserDisconnected(String),
    ActionFailed(String),
    NotFound(String),
    Unauthorized(String),
    ValidationError(String),
    InternalError(String),
}

/// Errors the fallback model may cure: provider trouble, timeouts and a lost browser.
pub open spec fn is_transient(e: AppError) -> bool {
    match e {
        AppError::LlmRateLimited(_) => true,
        AppError::LlmAuthExpired(_) => true,
        AppError::LlmProviderError(_) => true,
        AppError::CdpTimeout(_) => true,
        AppError::BrowserDisconnected(_) => true,
        _ => false,
    }
}

/// Whether a failed model call should be retried on the fallback model.
pub fn should_switch_to_fallback(error: &AppError) -> (r: bool)
    ensures
        r == is_transient(*error),
{
    match error {
        AppError::LlmRateLimited(_) => true,
        AppError::LlmAuthExpired(_) => true,
        AppError::LlmProviderError(_) => true,
        AppError::CdpTimeout(_) => true,
        AppError::BrowserDisconnected(_) => true,
        _ => false,
    }
}

impl AppError {
    /// The error's detail text.
    pub fn message(&self) -> (m: &String)
        ensures
            m@ == error_detail(*self),
    {
        match self {
            AppError::LlmRateLimited(m) => m,
            AppError::LlmAuthExpired(m) => m,
            AppError::LlmProviderError(m) => m,
            AppError::CdpTimeout(m) => m,
            AppError::BrowserDisconnected(m) => m,
            AppError::ActionFailed(m) => m,
            AppError::NotFound(m) => m,
            AppError::Unauthorized(m) => m,
            AppError::ValidationError(m) => m,
            AppError::InternalError(m) => m,
        }
    }
}

/// The detail text every variant carries.
pub open spec fn error_detail(e: AppError) -> Seq<char> {
    match e {
        AppError::LlmRateLimited(m) => m@,
        AppError::LlmAuthExpired(m) => m@,
        AppError::LlmProviderError(m) => m@,
        AppError::CdpTimeout(m) => m@,
        AppError::BrowserDisconnected(m) => m@,
        AppError::ActionFailed(m) => m@,
        AppError::NotFound(m) => m@,
        AppError::Unauthorized(m) => m@,
        AppError::ValidationError(m) => m@,
        AppError::InternalError(m) => m@,
    }
}

} // verus!
