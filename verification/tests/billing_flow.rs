use domain::billing::{
    apply_billing_event, handle_webhook, portal_customer, webhook_next, webhook_start, RepoReply, TierParam, WebhookCommand,
    WebhookStage,
};
use domain::error::DomainError;
use domain::fakes::FakeUserProfileRepository;
use domain::stripe::StripeClient;
use domain::user::{ApiUsage, BillingEvent, StorageUsage, Tier, User};
use domain::users::UserRepository;

fn profile(id: u128, sub: &str, customer: Option<&str>, tier: Tier) -> User {
    User {
        id,
        sub: sub.to_string(),
        email: format!("{sub}@example.com"),
        display_name: sub.to_string(),
        avatar_url: None,
        bio: None,
        city: None,
        latitude: None,
        longitude: None,
        tier,
        api_usage: ApiUsage(0),
        storage_usage: StorageUsage(0),
        billing_customer_id: customer.map(|c| c.to_string()),
        billing_period_start: 0,
        created_at: 0,
        updated_at: 0,
        archived_at: None,
    }
}

#[test]
fn tier_params_name_self_serve_tiers() {
    assert_eq!(TierParam::Essential.to_tier(), Tier::Essential);
    assert_eq!(TierParam::Pro.to_tier(), Tier::Pro);
}

#[test]
fn portal_needs_a_customer() {
    let with = profile(1, "a", Some("cus_1"), Tier::Pro);
    assert_eq!(portal_customer(&with).unwrap(), "cus_1");
    let without = profile(2, "b", None, Tier::Free);
    assert!(matches!(portal_customer(&without), Err(DomainError::NotFound)));
}

#[test]
fn checkout_event_updates_then_finishes() {
    let (stage, cmd) = webhook_start(BillingEvent::CheckoutCompleted { user_id: 5, customer_id: "cus_5".into(), tier: Tier::Pro });
    assert_eq!(stage, WebhookStage::AwaitingUpdate { tolerate_not_found: true });
    match cmd {
        WebhookCommand::UpdateSubscription { user_id, tier, customer_id } => {
            assert_eq!((user_id, tier, customer_id.as_deref()), (5, Tier::Pro, Some("cus_5")));
        }
        other => panic!("unexpected {:?}", other),
    }
    let (done, fin) = webhook_next(stage, RepoReply::Updated(Ok(())));
    assert_eq!(done, WebhookStage::Done);
    assert!(matches!(fin, WebhookCommand::Finish(Ok(()))));
}

#[test]
fn checkout_for_unknown_user_is_acknowledged() {
    let stage = WebhookStage::AwaitingUpdate { tolerate_not_found: true };
    let (_, fin) = webhook_next(stage, RepoReply::Updated(Err(DomainError::NotFound)));
    assert!(matches!(fin, WebhookCommand::Finish(Ok(()))));
}

#[test]
fn subscription_change_looks_up_customer_first() {
    let (stage, cmd) = webhook_start(BillingEvent::SubscriptionUpdated { customer_id: "cus_7".into(), tier: Tier::Essential });
    assert_eq!(stage, WebhookStage::AwaitingLookup { tier: Tier::Essential });
    assert!(matches!(cmd, WebhookCommand::FindByCustomer { ref customer_id } if customer_id == "cus_7"));
    let (stage2, cmd2) = webhook_next(stage, RepoReply::Found(Ok(9)));
    assert_eq!(stage2, WebhookStage::AwaitingUpdate { tolerate_not_found: false });
    assert!(matches!(cmd2, WebhookCommand::UpdateSubscription { user_id: 9, tier: Tier::Essential, customer_id: None }));
    let (_, fin) = webhook_next(stage2, RepoReply::Updated(Err(DomainError::NotFound)));
    assert!(matches!(fin, WebhookCommand::Finish(Err(DomainError::NotFound))));
}

#[test]
fn deleted_subscription_moves_user_to_free() {
    let (stage, _) = webhook_start(BillingEvent::SubscriptionDeleted { customer_id: "cus_7".into() });
    assert_eq!(stage, WebhookStage::AwaitingLookup { tier: Tier::Free });
    let (_, cmd) = webhook_next(stage, RepoReply::Found(Ok(3)));
    assert!(matches!(cmd, WebhookCommand::UpdateSubscription { user_id: 3, tier: Tier::Free, customer_id: None }));
}

#[test]
fn unknown_customer_is_acknowledged_and_other_errors_reported() {
    let stage = WebhookStage::AwaitingLookup { tier: Tier::Pro };
    let (_, fin) = webhook_next(stage, RepoReply::Found(Err(DomainError::NotFound)));
    assert!(matches!(fin, WebhookCommand::Finish(Ok(()))));
    let (_, fin) = webhook_next(stage, RepoReply::Found(Err(DomainError::internal("db down"))));
    assert!(matches!(fin, WebhookCommand::Finish(Err(DomainError::Internal(ref m))) if m == "db down"));
}

#[test]
fn other_events_finish_at_once_and_mismatched_replies_fail() {
    let (stage, cmd) = webhook_start(BillingEvent::Other);
    assert_eq!(stage, WebhookStage::Done);
    assert!(matches!(cmd, WebhookCommand::Finish(Ok(()))));
    let (_, fin) = webhook_next(WebhookStage::Done, RepoReply::Updated(Ok(())));
    assert!(matches!(fin, WebhookCommand::Finish(Err(DomainError::Internal(ref m))) if m == "unexpected repository reply"));
}

#[test]
fn applying_checkout_sets_tier_and_customer() {
    let mut repo = FakeUserProfileRepository::new().with_profile(profile(1, "ann", None, Tier::Free));
    apply_billing_event(&mut repo, BillingEvent::CheckoutCompleted { user_id: 1, customer_id: "cus_1".into(), tier: Tier::Pro })
        .unwrap();
    let u = repo.find_by_id(1).unwrap();
    assert_eq!(u.tier, Tier::Pro);
    assert_eq!(u.billing_customer_id.as_deref(), Some("cus_1"));
}

#[test]
fn applying_checkout_twice_is_the_same_as_once() {
    let mut repo = FakeUserProfileRepository::new().with_profile(profile(1, "ann", None, Tier::Free));
    let ev = || BillingEvent::CheckoutCompleted { user_id: 1, customer_id: "cus_1".into(), tier: Tier::Essential };
    apply_billing_event(&mut repo, ev()).unwrap();
    let once = repo.find_by_id(1).unwrap();
    apply_billing_event(&mut repo, ev()).unwrap();
    let twice = repo.find_by_id(1).unwrap();
    assert_eq!((once.tier, once.billing_customer_id), (twice.tier, twice.billing_customer_id));
}

#[test]
fn applying_checkout_for_unknown_user_changes_nothing() {
    let mut repo = FakeUserProfileRepository::new().with_profile(profile(1, "ann", None, Tier::Free));
    apply_billing_event(&mut repo, BillingEvent::CheckoutCompleted { user_id: 2, customer_id: "cus_2".into(), tier: Tier::Pro })
        .unwrap();
    assert_eq!(repo.find_by_id(1).unwrap().tier, Tier::Free);
    assert!(matches!(repo.find_by_id(2), Err(DomainError::NotFound)));
}

#[test]
fn applying_subscription_changes_finds_user_by_customer() {
    let mut repo = FakeUserProfileRepository::new().with_profile(profile(4, "bob", Some("cus_4"), Tier::Essential));
    apply_billing_event(&mut repo, BillingEvent::SubscriptionUpdated { customer_id: "cus_4".into(), tier: Tier::Pro }).unwrap();
    let u = repo.find_by_id(4).unwrap();
    assert_eq!(u.tier, Tier::Pro);
    assert_eq!(u.billing_customer_id.as_deref(), Some("cus_4"));
    apply_billing_event(&mut repo, BillingEvent::SubscriptionDeleted { customer_id: "cus_4".into() }).unwrap();
    assert_eq!(repo.find_by_id(4).unwrap().tier, Tier::Free);
    apply_billing_event(&mut repo, BillingEvent::SubscriptionDeleted { customer_id: "cus_unknown".into() }).unwrap();
    apply_billing_event(&mut repo, BillingEvent::Other).unwrap();
    assert_eq!(repo.find_by_id(4).unwrap().tier, Tier::Free);
}

#[test]
fn webhook_without_signature_header_is_unauthorized() {
    let client = StripeClient::new(
        "sk".into(),
        "whsec".into(),
        "pe".into(),
        "pp".into(),
        "s".into(),
        "c".into(),
        "r".into(),
    );
    let mut repo = FakeUserProfileRepository::new();
    assert!(matches!(handle_webhook(&mut repo, &client, b"{}", None), Err(DomainError::Unauthorized)));
    assert!(matches!(handle_webhook(&mut repo, &client, b"{}", Some("t=1,v1=00")), Err(DomainError::Unauthorized)));
}
