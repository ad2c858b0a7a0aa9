use vstd::prelude::*;
use crate::error::{DomainError, ErrorView};
use crate::user::{Tier, TierSettings, User, tier_rank, features_of, limit_outcome, export_outcome, unit_view};

verus! {

/// Entitlement checks driven by the configured tier features.
#[derive(Debug, Clone, Copy)]
pub struct ConfigEntitlementService {
    pub config: TierSettings,
}

/// The outcome of a tier check: `Ok` when the user's tier is at least the required one.
pub open spec fn tier_outcome(user_tier: Tier, required: Tier) -> Result<(), ErrorView> {
    if tier_rank(user_tier) >= tier_rank(required) { Ok(()) } else { Err(ErrorView::InsufficientTier) }
}

impl ConfigEntitlementService {
    pub fn new(config: TierSettings) -> (s: Self)
        ensures
            s.config == config,
    {
        Self { config }
    }

    /// Succeeds when the user's tier is at least `required`.
    pub fn check_tier(&self, user: &User, required: &Tier) -> (r: Result<(), DomainError>)
        ensures
            unit_view(r) == tier_outcome(user.tier, *required),
    {
        if user.tier.at_least(required) {
            Ok(())
        } else {
            Err(DomainError::InsufficientTier)
        }
    }

    /// The API-call limit check of the user's tier.
    pub fn check_api_limit(&self, user: &User, usage: u32) -> (r: Result<(), DomainError>)
        ensures
            unit_view(r) == limit_outcome(usage, features_of(self.config, user.tier).api_calls_per_day),
    {
        self.config.for_tier(&user.tier).check_api_limit(usage)
    }

    /// The project limit check of the user's tier.
    pub fn check_project_limit(&self, user: &User, count: u32) -> (r: Result<(), DomainError>)
        ensures
            unit_view(r) == limit_outcome(count, features_of(self.config, user.tier).max_projects),
    {
        self.config.for_tier(&user.tier).check_project_limit(count)
    }

    /// The storage limit check of the user's tier.
    pub fn check_storage_limit(&self, user: &User, used_gb: u32) -> (r: Result<(), DomainError>)
        ensures
            unit_view(r) == limit_outcome(used_gb, features_of(self.config, user.tier).max_storage_gb),
    {
        self.config.for_tier(&user.tier).check_storage_limit(used_gb)
    }

    /// The export check of the user's tier.
    pub fn can_export(&self, user: &User) -> (r: Result<(), DomainError>)
        ensures
            unit_view(r) == export_outcome(features_of(self.config, user.tier)),
    {
        self.config.for_tier(&user.tier).check_can_export()
    }
}

/// Tier checks follow the order of tiers: a user passes a check for every tier
/// at or below their own, Enterprise passes every check, and Free passes only
/// the check for Free.
pub proof fn lemma_tier_check_order(user_tier: Tier, required: Tier, lower: Tier)
    requires
        tier_rank(lower) <= tier_rank(required),
    ensures
        tier_outcome(user_tier, required) is Ok ==> tier_outcome(user_tier, lower) is Ok,
        tier_outcome(Tier::Enterprise, required) is Ok,
        tier_outcome(user_tier, user_tier) is Ok,
        tier_outcome(Tier::Free, required) is Ok <==> required == Tier::Free,
{
}

/// The tier check is a total order test: of two distinct tiers, exactly one
/// passes the check required by the other.
pub proof fn lemma_tier_check_antisymmetric(a: Tier, b: Tier)
    requires
        a != b,
    ensures
        tier_outcome(a, b) is Ok != tier_outcome(b, a) is Ok,
{
}

} // verus!
