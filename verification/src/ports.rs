use vstd::prelude::*;
use crate::entitlement::{ConfigEntitlementService, tier_outcome};
use crate::error::{DomainError, ErrorView};
use crate::json::{JsonValue, JsonView};
use crate::user::{AuthUser, Tier, User, unit_view, features_of, limit_outcome, export_outcome};

verus! {

/// Turns a bearer token into the identity it carries.
pub trait Authenticator {
    fn validate(&self, token: &str) -> (r: Result<AuthUser, DomainError>);
}

/// A large language model service. Structured answers are JSON documents that
/// follow the schema handed in; embeddings are the bit patterns of `f32` values.
/// A model's answers are not fixed by its inputs, so each kind of answer is a
/// relation between what is asked and what may come back.
pub trait LlmService {
    /// `answer` is a reply `model` may give to `user_message` under `system_prompt`.
    spec fn answers(&self, model: Seq<char>, system_prompt: Seq<char>, user_message: Seq<char>, answer: Seq<char>) -> bool;

    /// `answer` is a document `model` may give to `user_message` under `system_prompt`,
    /// asked to follow `schema`.
    spec fn structured_answers(&self, model: Seq<char>, system_prompt: Seq<char>, user_message: Seq<char>, schema: JsonView, answer: JsonView) -> bool;

    /// `embedding` is an embedding `model` may give of `input`.
    spec fn embeds(&self, model: Seq<char>, input: Seq<char>, embedding: Seq<u32>) -> bool;

    /// `error` is an error with which a plain request may be refused.
    spec fn refuses(&self, model: Seq<char>, system_prompt: Seq<char>, user_message: Seq<char>, error: ErrorView) -> bool;

    /// `error` is an error with which a structured request may be refused.
    spec fn refuses_structured(&self, model: Seq<char>, system_prompt: Seq<char>, user_message: Seq<char>, schema: JsonView, error: ErrorView) -> bool;

    /// `error` is an error with which an embedding request may be refused.
    spec fn refuses_embedding(&self, model: Seq<char>, input: Seq<char>, error: ErrorView) -> bool;

    fn available_models(&self) -> (r: Vec<String>);

    fn get_simple_response(&self, model: &str, system_prompt: &str, user_message: &str) -> (r: Result<String, DomainError>)
        ensures
            r matches Ok(s) ==> self.answers(model@, system_prompt@, user_message@, s@),
            r matches Err(e) ==> self.refuses(model@, system_prompt@, user_message@, e@),
    ;

    fn get_structured_response(&self, model: &str, system_prompt: &str, user_message: &str, schema: &JsonValue) -> (r: Result<JsonValue, DomainError>)
        ensures
            r matches Ok(d) ==> self.structured_answers(model@, system_prompt@, user_message@, schema@, d@),
            r matches Err(e) ==> self.refuses_structured(model@, system_prompt@, user_message@, schema@, e@),
    ;

    fn embed(&self, model: &str, input: &str) -> (r: Result<Vec<u32>, DomainError>)
        ensures
            r matches Ok(v) ==> self.embeds(model@, input@, v@),
            r matches Err(e) ==> self.refuses_embedding(model@, input@, e@),
    ;
}

/// Sends e-mail.
pub trait MailService {
    fn send(&self, to_email: &str, to_name: &str, subject: &str, html_body: &str) -> (r: Result<(), DomainError>);
}

/// Decides what a user's tier entitles them to.
pub trait EntitlementService {
    /// Whether `user` may use what is reserved to `required` and above.
    spec fn grants(&self, user: User, required: Tier) -> bool;

    /// The answer to a tier check: `Ok`, or the error it is refused with.
    spec fn tier_check(&self, user: User, required: Tier) -> Result<(), ErrorView>;

    fn check_tier(&self, user: &User, required: &Tier) -> (r: Result<(), DomainError>)
        ensures
            r is Ok <==> self.grants(*user, *required),
            unit_view(r) == self.tier_check(*user, *required),
    ;

    fn check_api_limit(&self, user: &User, usage: u32) -> (r: Result<(), DomainError>);

    fn check_project_limit(&self, user: &User, count: u32) -> (r: Result<(), DomainError>);

    fn check_storage_limit(&self, user: &User, used_gb: u32) -> (r: Result<(), DomainError>);

    fn can_export(&self, user: &User) -> (r: Result<(), DomainError>);
}

impl EntitlementService for ConfigEntitlementService {
    open spec fn grants(&self, user: User, required: Tier) -> bool {
        tier_outcome(user.tier, required) is Ok
    }

    open spec fn tier_check(&self, user: User, required: Tier) -> Result<(), ErrorView> {
        tier_outcome(user.tier, required)
    }

    fn check_tier(&self, user: &User, required: &Tier) -> (r: Result<(), DomainError>)
        ensures
            unit_view(r) == tier_outcome(user.tier, *required),
    {
        ConfigEntitlementService::check_tier(self, user, required)
    }

    fn check_api_limit(&self, user: &User, usage: u32) -> (r: Result<(), DomainError>)
        ensures
            unit_view(r) == limit_outcome(usage, features_of(self.config, user.tier).api_calls_per_day),
    {
        ConfigEntitlementService::check_api_limit(self, user, usage)
    }

    fn check_project_limit(&self, user: &User, count: u32) -> (r: Result<(), DomainError>)
        ensures
            unit_view(r) == limit_outcome(count, features_of(self.config, user.tier).max_projects),
    {
        ConfigEntitlementService::check_project_limit(self, user, count)
    }

    fn check_storage_limit(&self, user: &User, used_gb: u32) -> (r: Result<(), DomainError>)
        ensures
            unit_view(r) == limit_outcome(used_gb, features_of(self.config, user.tier).max_storage_gb),
    {
        ConfigEntitlementService::check_storage_limit(self, user, used_gb)
    }

    fn can_export(&self, user: &User) -> (r: Result<(), DomainError>)
        ensures
            unit_view(r) == export_outcome(features_of(self.config, user.tier)),
    {
        ConfigEntitlementService::can_export(self, user)
    }
}

} // verus!
