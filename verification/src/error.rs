use vstd::prelude::*;
use vstd::string::*;

verus! {

/// Errors of the service's domain rules.
#[derive(Debug)]
pub enum DomainError {
    Unauthorized,
    InsufficientTier,
    NotFound,
    AiServiceUnavailable,
    BillingServiceUnavailable,
    MailServiceUnavailable,
    LimitExceeded,
    Parse,
    InvalidInput(String),
    Internal(String),
}

/// Mathematical model of a [`DomainError`]: the variant, with its message as characters.
pub enum ErrorView {
    Unauthorized,
    InsufficientTier,
    NotFound,
    AiServiceUnavailable,
    BillingServiceUnavailable,
    MailServiceUnavailable,
    LimitExceeded,
    Parse,
    InvalidInput(Seq<char>),
    Internal(Seq<char>),
}

impl View for DomainError {
    type V = ErrorView;

    open spec fn view(&self) -> ErrorView {
        match self {
            DomainError::Unauthorized => ErrorView::Unauthorized,
            DomainError::InsufficientTier => ErrorView::InsufficientTier,
            DomainError::NotFound => ErrorView::NotFound,
            DomainError::AiServiceUnavailable => ErrorView::AiServiceUnavailable,
            DomainError::BillingServiceUnavailable => ErrorView::BillingServiceUnavailable,
            DomainError::MailServiceUnavailable => ErrorView::MailServiceUnavailable,
            DomainError::LimitExceeded => ErrorView::LimitExceeded,
            DomainError::Parse => ErrorView::Parse,
            DomainError::InvalidInput(m) => ErrorView::InvalidInput(m@),
            DomainError::Internal(m) => ErrorView::Internal(m@),
        }
    }
}

/// The model of a result whose success value has a view.
pub open spec fn result_view<T: View>(r: Result<T, DomainError>) -> Result<T::V, ErrorView> {
    match r {
        Ok(v) => Ok(v@),
        Err(e) => Err(e@),
    }
}

/// The human-readable text of an error.
pub open spec fn error_message(e: ErrorView) -> Seq<char> {
    match e {
        ErrorView::Unauthorized => "unauthorized"@,
        ErrorView::InsufficientTier => "insufficient tier"@,
        ErrorView::NotFound => "not found"@,
        ErrorView::AiServiceUnavailable => "AI service unavailable"@,
        ErrorView::BillingServiceUnavailable => "billing service unavailable"@,
        ErrorView::MailServiceUnavailable => "mail service unavailable"@,
        ErrorView::LimitExceeded => "limit exceeded"@,
        ErrorView::Parse => "couldn't parse"@,
        ErrorView::InvalidInput(m) => "invalid input: "@ + m,
        ErrorView::Internal(_) => "internal error"@,
    }
}

impl DomainError {
    /// An invalid-input error carrying `msg`.
    pub fn invalid_input(msg: &str) -> (e: DomainError)
        ensures
            e@ == ErrorView::InvalidInput(msg@),
    {
        DomainError::InvalidInput(String::from_str(msg))
    }

    /// An internal error carrying `msg`.
    pub fn internal(msg: &str) -> (e: DomainError)
        ensures
            e@ == ErrorView::Internal(msg@),
    {
        DomainError::Internal(String::from_str(msg))
    }

    /// The text shown for this error.
    pub fn message(&self) -> (s: String)
        ensures
            s@ == error_message(self@),
    {
        match self {
            DomainError::Unauthorized => String::from_str("unauthorized"),
            DomainError::InsufficientTier => String::from_str("insufficient tier"),
            DomainError::NotFound => String::from_str("not found"),
            DomainError::AiServiceUnavailable => String::from_str("AI service unavailable"),
            DomainError::BillingServiceUnavailable => String::from_str("billing service unavailable"),
            DomainError::MailServiceUnavailable => String::from_str("mail service unavailable"),
            DomainError::LimitExceeded => String::from_str("limit exceeded"),
            DomainError::Parse => String::from_str("couldn't parse"),
            DomainError::InvalidInput(m) => {
                let s = String::from_str("invalid input: ");
                s.concat(m.as_str())
            },
            DomainError::Internal(_) => String::from_str("internal error"),
        }
    }

    /// Whether this is the `NotFound` error.
    pub fn is_not_found(&self) -> (b: bool)
        ensures
            b == (self@ == ErrorView::NotFound),
    {
        match self {
            DomainError::NotFound => true,
            _ => false,
        }
    }
}

} // verus!
