use vstd::prelude::*;
use crate::error::{DomainError, ErrorView};

verus! {

/// An error as answered over HTTP.
pub struct ApiError(pub DomainError);

/// The HTTP status with which an error of the given kind is answered.
pub open spec fn spec_status_code(e: ErrorView) -> u16 {
    match e {
        ErrorView::Unauthorized => 401,
        ErrorView::InsufficientTier => 403,
        ErrorView::NotFound => 404,
        ErrorView::AiServiceUnavailable => 503,
        ErrorView::BillingServiceUnavailable => 503,
        ErrorView::MailServiceUnavailable => 503,
        ErrorView::InvalidInput(_) => 400,
        ErrorView::LimitExceeded => 403,
        ErrorView::Parse => 500,
        ErrorView::Internal(_) => 500,
    }
}

impl ApiError {
    /// Wraps a domain error.
    pub fn from_domain(e: DomainError) -> (r: ApiError)
        ensures
            r.0@ == e@,
    {
        ApiError(e)
    }

    /// The HTTP status code of the response for this error.
    pub fn status_code(&self) -> (code: u16)
        ensures
            code == spec_status_code(self.0@),
    {
        match &self.0 {
            DomainError::Unauthorized => 401,
            DomainError::InsufficientTier => 403,
            DomainError::NotFound => 404,
            DomainError::AiServiceUnavailable => 503,
            DomainError::BillingServiceUnavailable => 503,
            DomainError::MailServiceUnavailable => 503,
            DomainError::InvalidInput(_) => 400,
            DomainError::LimitExceeded => 403,
            DomainError::Parse => 500,
            DomainError::Internal(_) => 500,
        }
    }
}

/// Every error is answered with a client (4xx) or server (5xx) status, and
/// exactly the unavailable services and internal failures are server errors.
pub proof fn lemma_status_class(e: ErrorView)
    ensures
        400 <= spec_status_code(e) < 600,
        spec_status_code(e) >= 500 <==> (e is AiServiceUnavailable || e is BillingServiceUnavailable
            || e is MailServiceUnavailable || e is Parse || e is Internal),
{
}

} // verus!
