use vstd::prelude::*;
use crate::error::{DomainError, ErrorView};
use crate::text::{copy_str, copy_opt_str};

verus! {

/// The identity that a validated token carries.
#[derive(Debug, Clone)]
pub struct AuthUser {
    pub sub: String,
    pub email: String,
    pub display_name: String,
}

/// Model of an [`AuthUser`].
pub struct AuthUserView {
    pub sub: Seq<char>,
    pub email: Seq<char>,
    pub display_name: Seq<char>,
}

impl View for AuthUser {
    type V = AuthUserView;

    open spec fn view(&self) -> AuthUserView {
        AuthUserView { sub: self.sub@, email: self.email@, display_name: self.display_name@ }
    }
}

/// Subscription tiers, in increasing order of entitlement.
#[derive(Debug, Clone, Copy, PartialEq, Eq, Structural, PartialOrd, Ord, Hash)]
pub enum Tier {
    Free,
    Essential,
    Pro,
    Enterprise,
}

/// Position of a tier in the order `Free < Essential < Pro < Enterprise`.
pub open spec fn tier_rank(t: Tier) -> nat {
    match t {
        Tier::Free => 0,
        Tier::Essential => 1,
        Tier::Pro => 2,
        Tier::Enterprise => 3,
    }
}

impl Tier {
    /// Position of the tier in the order of entitlement.
    pub fn rank(&self) -> (r: u8)
        ensures
            r == tier_rank(*self),
    {
        match self {
            Tier::Free => 0,
            Tier::Essential => 1,
            Tier::Pro => 2,
            Tier::Enterprise => 3,
        }
    }

    /// Whether this tier is at least `other` in the order of entitlement.
    pub fn at_least(&self, other: &Tier) -> (b: bool)
        ensures
            b == (tier_rank(*self) >= tier_rank(*other)),
    {
        self.rank() >= other.rank()
    }
}

/// Daily API call counter of a user.
#[derive(Debug, Clone, Copy, PartialEq, Eq, Structural, PartialOrd, Ord, Hash)]
pub struct ApiUsage(pub i64);

/// Storage used by a user.
#[derive(Debug, Clone, Copy, PartialEq, Eq, Structural, PartialOrd, Ord, Hash)]
pub struct StorageUsage(pub i64);

/// A user profile. Identifiers are the 128-bit value of a UUID, instants are
/// nanoseconds since the Unix epoch (UTC), and coordinates are the bit
/// patterns of IEEE-754 doubles, carried through unchanged.
#[derive(Debug, Clone)]
pub struct User {
    pub id: u128,
    pub sub: String,
    pub email: String,
    pub display_name: String,
    pub avatar_url: Option<String>,
    pub bio: Option<String>,
    pub city: Option<String>,
    pub latitude: Option<u64>,
    pub longitude: Option<u64>,
    pub tier: Tier,
    pub api_usage: ApiUsage,
    pub storage_usage: StorageUsage,
    pub billing_customer_id: Option<String>,
    pub billing_period_start: i128,
    pub created_at: i128,
    pub updated_at: i128,
    pub archived_at: Option<i128>,
}

/// Model of a [`User`].
pub struct UserView {
    pub id: u128,
    pub sub: Seq<char>,
    pub email: Seq<char>,
    pub display_name: Seq<char>,
    pub avatar_url: Option<Seq<char>>,
    pub bio: Option<Seq<char>>,
    pub city: Option<Seq<char>>,
    pub latitude: Option<u64>,
    pub longitude: Option<u64>,
    pub tier: Tier,
    pub api_usage: i64,
    pub storage_usage: i64,
    pub billing_customer_id: Option<Seq<char>>,
    pub billing_period_start: i128,
    pub created_at: i128,
    pub updated_at: i128,
    pub archived_at: Option<i128>,
}

impl View for User {
    type V = UserView;

    open spec fn view(&self) -> UserView {
        UserView {
            id: self.id,
            sub: self.sub@,
            email: self.email@,
            display_name: self.display_name@,
            avatar_url: self.avatar_url.deep_view(),
            bio: self.bio.deep_view(),
            city: self.city.deep_view(),
            latitude: self.latitude,
            longitude: self.longitude,
            tier: self.tier,
            api_usage: self.api_usage.0,
            storage_usage: self.storage_usage.0,
            billing_customer_id: self.billing_customer_id.deep_view(),
            billing_period_start: self.billing_period_start,
            created_at: self.created_at,
            updated_at: self.updated_at,
            archived_at: self.archived_at,
        }
    }
}

impl User {
    /// A copy with the same model.
    pub fn duplicate(&self) -> (u: User)
        ensures
            u@ == self@,
    {
        User {
            id: self.id,
            sub: copy_str(self.sub.as_str()),
            email: copy_str(self.email.as_str()),
            display_name: copy_str(self.display_name.as_str()),
            avatar_url: copy_opt_str(&self.avatar_url),
            bio: copy_opt_str(&self.bio),
            city: copy_opt_str(&self.city),
            latitude: self.latitude,
            longitude: self.longitude,
            tier: self.tier,
            api_usage: self.api_usage,
            storage_usage: self.storage_usage,
            billing_customer_id: copy_opt_str(&self.billing_customer_id),
            billing_period_start: self.billing_period_start,
            created_at: self.created_at,
            updated_at: self.updated_at,
            archived_at: self.archived_at,
        }
    }
}

/// Parsed Stripe webhook events relevant to subscription management.
#[derive(Debug)]
pub enum BillingEvent {
    /// A checkout session completed: link the Stripe customer to the user and set the tier.
    CheckoutCompleted { user_id: u128, customer_id: String, tier: Tier },
    /// A subscription was updated (plan change, renewal status change).
    SubscriptionUpdated { customer_id: String, tier: Tier },
    /// A subscription was cancelled or expired: downgrade to Free.
    SubscriptionDeleted { customer_id: String },
    /// Any other event type: ignore.
    Other,
}

/// Model of a [`BillingEvent`].
pub enum BillingEventView {
    CheckoutCompleted { user_id: u128, customer_id: Seq<char>, tier: Tier },
    SubscriptionUpdated { customer_id: Seq<char>, tier: Tier },
    SubscriptionDeleted { customer_id: Seq<char> },
    Other,
}

impl View for BillingEvent {
    type V = BillingEventView;

    open spec fn view(&self) -> BillingEventView {
        match self {
            BillingEvent::CheckoutCompleted { user_id, customer_id, tier } =>
                BillingEventView::CheckoutCompleted { user_id: *user_id, customer_id: customer_id@, tier: *tier },
            BillingEvent::SubscriptionUpdated { customer_id, tier } =>
                BillingEventView::SubscriptionUpdated { customer_id: customer_id@, tier: *tier },
            BillingEvent::SubscriptionDeleted { customer_id } =>
                BillingEventView::SubscriptionDeleted { customer_id: customer_id@ },
            BillingEvent::Other => BillingEventView::Other,
        }
    }
}

/// The limits and capabilities of one tier.
#[derive(Debug, Clone, Copy, PartialEq, Eq, Structural)]
pub struct TierFeatures {
    pub max_projects: u32,
    pub max_storage_gb: u32,
    pub can_export: bool,
    pub api_calls_per_day: u32,
}

/// The outcome of a limit check: `Ok` or `LimitExceeded`.
pub open spec fn limit_outcome(used: u32, limit: u32) -> Result<(), ErrorView> {
    if used >= limit { Err(ErrorView::LimitExceeded) } else { Ok(()) }
}

/// The model of a unit result.
pub open spec fn unit_view(r: Result<(), DomainError>) -> Result<(), ErrorView> {
    match r {
        Ok(_) => Ok(()),
        Err(e) => Err(e@),
    }
}

/// The outcome of an export check: `Ok` or `InsufficientTier`.
pub open spec fn export_outcome(f: TierFeatures) -> Result<(), ErrorView> {
    if !f.can_export { Err(ErrorView::InsufficientTier) } else { Ok(()) }
}

impl TierFeatures {
    /// Succeeds while `usage` is below the daily API call allowance.
    pub fn check_api_limit(&self, usage: u32) -> (r: Result<(), DomainError>)
        ensures
            unit_view(r) == limit_outcome(usage, self.api_calls_per_day),
    {
        if usage >= self.api_calls_per_day {
            return Err(DomainError::LimitExceeded);
        }
        Ok(())
    }

    /// Succeeds while `count` is below the project allowance.
    pub fn check_project_limit(&self, count: u32) -> (r: Result<(), DomainError>)
        ensures
            unit_view(r) == limit_outcome(count, self.max_projects),
    {
        if count >= self.max_projects {
            return Err(DomainError::LimitExceeded);
        }
        Ok(())
    }

    /// Succeeds while `used_gb` is below the storage allowance.
    pub fn check_storage_limit(&self, used_gb: u32) -> (r: Result<(), DomainError>)
        ensures
            unit_view(r) == limit_outcome(used_gb, self.max_storage_gb),
    {
        if used_gb >= self.max_storage_gb {
            return Err(DomainError::LimitExceeded);
        }
        Ok(())
    }

    /// Succeeds when the tier may export.
    pub fn check_can_export(&self) -> (r: Result<(), DomainError>)
        ensures
            unit_view(r) == export_outcome(*self),
    {
        if !self.can_export {
            return Err(DomainError::InsufficientTier);
        }
        Ok(())
    }
}

/// The features of every tier.
#[derive(Debug, Clone, Copy, PartialEq, Eq, Structural)]
pub struct TierSettings {
    pub free: TierFeatures,
    pub essential: TierFeatures,
    pub pro: TierFeatures,
    pub enterprise: TierFeatures,
}

/// The features that the settings give a tier.
pub open spec fn features_of(s: TierSettings, t: Tier) -> TierFeatures {
    match t {
        Tier::Free => s.free,
        Tier::Essential => s.essential,
        Tier::Pro => s.pro,
        Tier::Enterprise => s.enterprise,
    }
}

impl TierSettings {
    /// The features of `tier`.
    pub fn for_tier(&self, tier: &Tier) -> (f: &TierFeatures)
        ensures
            *f == features_of(*self, *tier),
    {
        match tier {
            Tier::Free => &self.free,
            Tier::Essential => &self.essential,
            Tier::Pro => &self.pro,
            Tier::Enterprise => &self.enterprise,
        }
    }
}

/// A limit check passes exactly below the limit, and once it fails for some
/// usage it fails for every larger usage.
pub proof fn lemma_limit_monotone(used: u32, more: u32, limit: u32)
    requires
        used <= more,
    ensures
        limit_outcome(used, limit) is Ok <==> used < limit,
        limit_outcome(used, limit) is Err ==> limit_outcome(more, limit) == Err::<(), ErrorView>(ErrorView::LimitExceeded),
        limit_outcome(more, limit) is Ok ==> limit_outcome(used, limit) is Ok,
{
}

/// A zero allowance admits nothing.
pub proof fn lemma_zero_limit_admits_nothing(used: u32)
    ensures
        limit_outcome(used, 0) == Err::<(), ErrorView>(ErrorView::LimitExceeded),
{
}

} // verus!
