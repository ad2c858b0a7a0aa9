use vstd::prelude::*;
use crate::error::{DomainError, ErrorView};
use crate::ports::Authenticator;
use crate::text::copy_str;
use crate::user::{AuthUser, AuthUserView};

verus! {

/// What a [`FakeTokenValidator`] answers to every token.
#[derive(Debug, Clone)]
pub enum FakeTokenBehaviour {
    Valid { sub: String, email: String, display_name: String },
    Invalid,
}

/// A token validator for tests: it accepts every token as one fixed identity, or none.
#[derive(Debug, Clone)]
pub struct FakeTokenValidator {
    pub behaviour: FakeTokenBehaviour,
}

/// The answer of a fake validator with the given behaviour.
pub open spec fn fake_answer(b: FakeTokenBehaviour) -> Result<AuthUserView, ErrorView> {
    match b {
        FakeTokenBehaviour::Valid { sub, email, display_name } =>
            Ok(AuthUserView { sub: sub@, email: email@, display_name: display_name@ }),
        FakeTokenBehaviour::Invalid => Err(ErrorView::Unauthorized),
    }
}

impl FakeTokenValidator {
    /// A validator that accepts every token as the given identity.
    pub fn valid(sub: &str, email: &str, display_name: &str) -> (v: Self)
        ensures
            fake_answer(v.behaviour) == Ok::<AuthUserView, ErrorView>(AuthUserView { sub: sub@, email: email@, display_name: display_name@ }),
    {
        Self {
            behaviour: FakeTokenBehaviour::Valid {
                sub: copy_str(sub),
                email: copy_str(email),
                display_name: copy_str(display_name),
            },
        }
    }

    /// A validator that refuses every token.
    pub fn invalid() -> (v: Self)
        ensures
            fake_answer(v.behaviour) == Err::<AuthUserView, ErrorView>(ErrorView::Unauthorized),
    {
        Self { behaviour: FakeTokenBehaviour::Invalid }
    }
}

impl Authenticator for FakeTokenValidator {
    fn validate(&self, token: &str) -> (r: Result<AuthUser, DomainError>)
        ensures
            crate::error::result_view(r) == fake_answer(self.behaviour),
    {
        match &self.behaviour {
            FakeTokenBehaviour::Valid { sub, email, display_name } => Ok(AuthUser {
                sub: copy_str(sub.as_str()),
                email: copy_str(email.as_str()),
                display_name: copy_str(display_name.as_str()),
            }),
            FakeTokenBehaviour::Invalid => Err(DomainError::Unauthorized),
        }
    }
}

} // verus!
