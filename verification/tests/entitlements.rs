use domain::api_error::ApiError;
use domain::entitlement::ConfigEntitlementService;
use domain::error::DomainError;
use domain::user::{ApiUsage, StorageUsage, Tier, TierFeatures, TierSettings, User};

fn features(max_projects: u32, max_storage_gb: u32, can_export: bool, api_calls_per_day: u32) -> TierFeatures {
    TierFeatures { max_projects, max_storage_gb, can_export, api_calls_per_day }
}

fn settings() -> TierSettings {
    TierSettings {
        free: features(1, 1, false, 100),
        essential: features(5, 10, false, 1_000),
        pro: features(50, 100, true, 10_000),
        enterprise: features(0, 1_000, true, 100_000),
    }
}

fn user(tier: Tier) -> User {
    User {
        id: 1,
        sub: "sub".into(),
        email: "a@b.c".into(),
        display_name: "A".into(),
        avatar_url: None,
        bio: None,
        city: None,
        latitude: None,
        longitude: None,
        tier,
        api_usage: ApiUsage(0),
        storage_usage: StorageUsage(0),
        billing_customer_id: None,
        billing_period_start: 0,
        created_at: 0,
        updated_at: 0,
        archived_at: None,
    }
}

#[test]
fn tiers_are_ordered() {
    assert!(Tier::Free.rank() < Tier::Essential.rank());
    assert!(Tier::Essential.rank() < Tier::Pro.rank());
    assert!(Tier::Pro.rank() < Tier::Enterprise.rank());
    assert!(Tier::Pro.at_least(&Tier::Essential));
    assert!(Tier::Pro.at_least(&Tier::Pro));
    assert!(!Tier::Essential.at_least(&Tier::Pro));
}

#[test]
fn tier_check_admits_equal_and_higher_tiers() {
    let svc = ConfigEntitlementService::new(settings());
    assert!(svc.check_tier(&user(Tier::Essential), &Tier::Essential).is_ok());
    assert!(svc.check_tier(&user(Tier::Enterprise), &Tier::Essential).is_ok());
    assert!(matches!(svc.check_tier(&user(Tier::Free), &Tier::Essential), Err(DomainError::InsufficientTier)));
    assert!(matches!(svc.check_tier(&user(Tier::Pro), &Tier::Enterprise), Err(DomainError::InsufficientTier)));
}

#[test]
fn limits_admit_usage_strictly_below_allowance() {
    let svc = ConfigEntitlementService::new(settings());
    let free = user(Tier::Free);
    assert!(svc.check_api_limit(&free, 99).is_ok());
    assert!(matches!(svc.check_api_limit(&free, 100), Err(DomainError::LimitExceeded)));
    assert!(svc.check_project_limit(&free, 0).is_ok());
    assert!(matches!(svc.check_project_limit(&free, 1), Err(DomainError::LimitExceeded)));
    assert!(svc.check_storage_limit(&user(Tier::Essential), 9).is_ok());
    assert!(matches!(svc.check_storage_limit(&user(Tier::Essential), 10), Err(DomainError::LimitExceeded)));
}

#[test]
fn zero_allowance_admits_nothing() {
    let svc = ConfigEntitlementService::new(settings());
    assert!(matches!(svc.check_project_limit(&user(Tier::Enterprise), 0), Err(DomainError::LimitExceeded)));
}

#[test]
fn export_follows_tier_features() {
    let svc = ConfigEntitlementService::new(settings());
    assert!(matches!(svc.can_export(&user(Tier::Essential)), Err(DomainError::InsufficientTier)));
    assert!(svc.can_export(&user(Tier::Pro)).is_ok());
}

#[test]
fn features_are_looked_up_per_tier() {
    let s = settings();
    assert_eq!(*s.for_tier(&Tier::Free), s.free);
    assert_eq!(*s.for_tier(&Tier::Essential), s.essential);
    assert_eq!(*s.for_tier(&Tier::Pro), s.pro);
    assert_eq!(*s.for_tier(&Tier::Enterprise), s.enterprise);
    assert!(s.pro.check_can_export().is_ok());
    assert!(matches!(s.free.check_can_export(), Err(DomainError::InsufficientTier)));
    assert!(s.free.check_api_limit(0).is_ok());
    assert!(s.free.check_project_limit(0).is_ok());
    assert!(s.free.check_storage_limit(0).is_ok());
}

#[test]
fn errors_map_to_http_statuses() {
    let cases: Vec<(DomainError, u16)> = vec![
        (DomainError::Unauthorized, 401),
        (DomainError::InsufficientTier, 403),
        (DomainError::NotFound, 404),
        (DomainError::AiServiceUnavailable, 503),
        (DomainError::BillingServiceUnavailable, 503),
        (DomainError::MailServiceUnavailable, 503),
        (DomainError::InvalidInput("x".into()), 400),
        (DomainError::LimitExceeded, 403),
        (DomainError::Parse, 500),
        (DomainError::Internal("boom".into()), 500),
    ];
    for (e, code) in cases {
        assert_eq!(ApiError::from_domain(e).status_code(), code);
    }
}

#[test]
fn errors_have_readable_messages() {
    assert_eq!(DomainError::Unauthorized.message(), "unauthorized");
    assert_eq!(DomainError::InsufficientTier.message(), "insufficient tier");
    assert_eq!(DomainError::NotFound.message(), "not found");
    assert_eq!(DomainError::AiServiceUnavailable.message(), "AI service unavailable");
    assert_eq!(DomainError::BillingServiceUnavailable.message(), "billing service unavailable");
    assert_eq!(DomainError::MailServiceUnavailable.message(), "mail service unavailable");
    assert_eq!(DomainError::LimitExceeded.message(), "limit exceeded");
    assert_eq!(DomainError::Parse.message(), "couldn't parse");
    assert_eq!(DomainError::invalid_input("bad name").message(), "invalid input: bad name");
    assert_eq!(DomainError::internal("secret detail").message(), "internal error");
    assert!(DomainError::NotFound.is_not_found());
    assert!(!DomainError::Parse.is_not_found());
}
