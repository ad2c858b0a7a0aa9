use domain::error::DomainError;
use domain::stripe::{session_url_from_response, tier_from_metadata_name, tier_to_metadata_name, StripeClient};
use domain::user::Tier;

fn client() -> StripeClient {
    StripeClient::new(
        "sk_test".to_string(),
        "whsec".to_string(),
        "price_essential".to_string(),
        "price_pro".to_string(),
        "https://app.example/success".to_string(),
        "https://app.example/cancel".to_string(),
        "https://app.example/account".to_string(),
    )
}

fn params(v: &[(&str, &str)]) -> Vec<(String, String)> {
    v.iter().map(|(k, x)| (k.to_string(), x.to_string())).collect()
}

#[test]
fn checkout_for_new_customer_sends_email() {
    let user = uuid::Uuid::parse_str("0190a1b2-c3d4-7e5f-8a9b-0c1d2e3f4a5b").unwrap().as_u128();
    let req = client().checkout_request(user, "ann@example.com", &Tier::Pro, None).unwrap();
    assert_eq!(req.idempotency_key, "checkout-0190a1b2-c3d4-7e5f-8a9b-0c1d2e3f4a5b-pro");
    assert_eq!(
        req.params,
        params(&[
            ("mode", "subscription"),
            ("line_items[0][price]", "price_pro"),
            ("line_items[0][quantity]", "1"),
            ("client_reference_id", "0190a1b2-c3d4-7e5f-8a9b-0c1d2e3f4a5b"),
            ("success_url", "https://app.example/success"),
            ("cancel_url", "https://app.example/cancel"),
            ("metadata[tier]", "pro"),
            ("customer_email", "ann@example.com"),
        ])
    );
}

#[test]
fn checkout_for_known_customer_reuses_customer() {
    let req = client().checkout_request(1, "ann@example.com", &Tier::Essential, Some("cus_42")).unwrap();
    assert_eq!(req.idempotency_key, "checkout-00000000-0000-0000-0000-000000000001-essential");
    assert_eq!(req.params[1], ("line_items[0][price]".to_string(), "price_essential".to_string()));
    assert_eq!(req.params.last().unwrap(), &("customer".to_string(), "cus_42".to_string()));
    assert!(!req.params.iter().any(|(k, _)| k == "customer_email"));
}

#[test]
fn checkout_refuses_tiers_not_sold_self_serve() {
    for tier in [Tier::Free, Tier::Enterprise] {
        match client().checkout_request(7, "a@b.c", &tier, None) {
            Err(DomainError::InvalidInput(m)) => assert_eq!(m, "tier is not available for self-serve checkout"),
            other => panic!("unexpected {:?}", other.map(|r| r.idempotency_key)),
        }
    }
}

#[test]
fn portal_request_names_customer_and_return_url() {
    let req = client().portal_request("cus_42");
    assert_eq!(req.idempotency_key, "portal-cus_42");
    assert_eq!(req.params, params(&[("customer", "cus_42"), ("return_url", "https://app.example/account")]));
}

#[test]
fn session_url_is_read_from_success_response() {
    let url = session_url_from_response(200, br#"{"id":"cs_1","url":"https://checkout.stripe.com/c/pay/cs_1"}"#).unwrap();
    assert_eq!(url, "https://checkout.stripe.com/c/pay/cs_1");
}

#[test]
fn failed_or_unreadable_session_response_is_unavailable() {
    assert!(matches!(session_url_from_response(402, br#"{"url":"x"}"#), Err(DomainError::BillingServiceUnavailable)));
    assert!(matches!(session_url_from_response(199, br#"{"url":"x"}"#), Err(DomainError::BillingServiceUnavailable)));
    assert!(matches!(session_url_from_response(200, b"not json"), Err(DomainError::BillingServiceUnavailable)));
    assert!(matches!(session_url_from_response(201, br#"{"url":7}"#), Err(DomainError::BillingServiceUnavailable)));
    assert!(session_url_from_response(299, br#"{"url":"u"}"#).is_ok());
}

#[test]
fn prices_map_to_tiers_both_ways() {
    let c = client();
    assert_eq!(c.price_id_for_tier(&Tier::Essential), Some("price_essential"));
    assert_eq!(c.price_id_for_tier(&Tier::Pro), Some("price_pro"));
    assert_eq!(c.price_id_for_tier(&Tier::Free), None);
    assert_eq!(c.price_id_for_tier(&Tier::Enterprise), None);
    assert_eq!(c.price_id_to_tier("price_essential"), Some(Tier::Essential));
    assert_eq!(c.price_id_to_tier("price_pro"), Some(Tier::Pro));
    assert_eq!(c.price_id_to_tier("price_unknown"), None);
    for tier in [Tier::Essential, Tier::Pro] {
        assert_eq!(c.price_id_to_tier(c.price_id_for_tier(&tier).unwrap()), Some(tier));
    }
}

#[test]
fn metadata_names_round_trip() {
    assert_eq!(tier_to_metadata_name(&Tier::Essential), "essential");
    assert_eq!(tier_to_metadata_name(&Tier::Pro), "pro");
    for tier in [Tier::Essential, Tier::Pro] {
        assert_eq!(tier_from_metadata_name(tier_to_metadata_name(&tier)).unwrap(), tier);
    }
    match tier_from_metadata_name("Pro") {
        Err(DomainError::InvalidInput(m)) => assert_eq!(m, "unknown tier in metadata: Pro"),
        other => panic!("unexpected {:?}", other),
    }
}

#[test]
fn checkout_keys_never_collide_across_users_or_tiers() {
    let c = client();
    let a = c.checkout_request(1, "a@x", &Tier::Pro, None).unwrap().idempotency_key;
    let b = c.checkout_request(2, "a@x", &Tier::Pro, None).unwrap().idempotency_key;
    let e = c.checkout_request(1, "a@x", &Tier::Essential, None).unwrap().idempotency_key;
    let again = c.checkout_request(1, "other@x", &Tier::Pro, Some("cus_1")).unwrap().idempotency_key;
    assert_ne!(a, b);
    assert_ne!(a, e);
    assert_eq!(a, again);
}
