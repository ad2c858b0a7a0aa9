use domain::error::DomainError;
use domain::stripe::StripeClient;
use domain::user::{BillingEvent, Tier};
use hmac::{Hmac, Mac};
use sha2::Sha256;

const SECRET: &str = "whsec_test_secret";
const NOW: i64 = 1_700_000_000;
const USER: &str = "0190a1b2-c3d4-7e5f-8a9b-0c1d2e3f4a5b";

fn client() -> StripeClient {
    StripeClient::new(
        "sk_test".to_string(),
        SECRET.to_string(),
        "price_essential".to_string(),
        "price_pro".to_string(),
        "https://app.example/success".to_string(),
        "https://app.example/cancel".to_string(),
        "https://app.example/account".to_string(),
    )
}

fn sign(ts: i64, payload: &[u8]) -> String {
    let mut mac = Hmac::<Sha256>::new_from_slice(SECRET.as_bytes()).unwrap();
    mac.update(ts.to_string().as_bytes());
    mac.update(b".");
    mac.update(payload);
    hex::encode(mac.finalize().into_bytes())
}

fn header(ts: i64, payload: &[u8]) -> String {
    format!("t={},v1={}", ts, sign(ts, payload))
}

fn deliver(payload: &str) -> Result<BillingEvent, DomainError> {
    client().verify_webhook_at(payload.as_bytes(), &header(NOW, payload.as_bytes()), NOW)
}

fn checkout(payment_status: &str, tier: &str) -> String {
    format!(
        r#"{{"type":"checkout.session.completed","livemode":true,"data":{{"object":{{"payment_status":"{}","client_reference_id":"{}","customer":"cus_123","metadata":{{"tier":"{}"}}}}}}}}"#,
        payment_status, USER, tier
    )
}

fn subscription(kind: &str, status: &str, price: &str) -> String {
    format!(
        r#"{{"type":"customer.subscription.{}","data":{{"object":{{"customer":"cus_9","status":"{}","items":{{"data":[{{"price":{{"id":"{}"}}}}]}}}}}}}}"#,
        kind, status, price
    )
}

#[test]
fn paid_checkout_links_customer_and_tier() {
    match deliver(&checkout("paid", "pro")).unwrap() {
        BillingEvent::CheckoutCompleted { user_id, customer_id, tier } => {
            assert_eq!(user_id, uuid::Uuid::parse_str(USER).unwrap().as_u128());
            assert_eq!(customer_id, "cus_123");
            assert_eq!(tier, Tier::Pro);
        }
        other => panic!("unexpected event {:?}", other),
    }
}

#[test]
fn checkout_without_payment_required_counts_as_paid() {
    let ev = deliver(&checkout("no_payment_required", "essential")).unwrap();
    assert!(matches!(ev, BillingEvent::CheckoutCompleted { tier: Tier::Essential, .. }));
}

#[test]
fn unpaid_checkout_is_ignored() {
    assert!(matches!(deliver(&checkout("unpaid", "pro")).unwrap(), BillingEvent::Other));
}

#[test]
fn checkout_with_unknown_tier_is_invalid() {
    match deliver(&checkout("paid", "gold")) {
        Err(DomainError::InvalidInput(m)) => assert_eq!(m, "unknown tier in metadata: gold"),
        other => panic!("unexpected {:?}", other),
    }
}

#[test]
fn checkout_without_reference_is_invalid() {
    let payload = r#"{"type":"checkout.session.completed","data":{"object":{"payment_status":"paid","customer":"cus_1"}}}"#;
    match deliver(payload) {
        Err(DomainError::InvalidInput(m)) => assert_eq!(m, "missing client_reference_id"),
        other => panic!("unexpected {:?}", other),
    }
}

#[test]
fn checkout_with_bad_uuid_is_invalid() {
    let payload = r#"{"type":"checkout.session.completed","data":{"object":{"payment_status":"paid","client_reference_id":"nope","customer":"cus_1"}}}"#;
    match deliver(payload) {
        Err(DomainError::InvalidInput(m)) => assert_eq!(m, "invalid uuid in client_reference_id"),
        other => panic!("unexpected {:?}", other),
    }
}

#[test]
fn checkout_without_customer_is_invalid() {
    let payload = format!(
        r#"{{"type":"checkout.session.completed","data":{{"object":{{"payment_status":"paid","client_reference_id":"{}"}}}}}}"#,
        USER
    );
    match deliver(&payload) {
        Err(DomainError::InvalidInput(m)) => assert_eq!(m, "missing customer"),
        other => panic!("unexpected {:?}", other),
    }
}

#[test]
fn active_subscription_update_sets_tier_of_price() {
    match deliver(&subscription("updated", "active", "price_essential")).unwrap() {
        BillingEvent::SubscriptionUpdated { customer_id, tier } => {
            assert_eq!(customer_id, "cus_9");
            assert_eq!(tier, Tier::Essential);
        }
        other => panic!("unexpected event {:?}", other),
    }
    let trialing = deliver(&subscription("updated", "trialing", "price_pro")).unwrap();
    assert!(matches!(trialing, BillingEvent::SubscriptionUpdated { tier: Tier::Pro, .. }));
}

#[test]
fn inactive_subscription_update_counts_as_deleted() {
    let ev = deliver(&subscription("updated", "past_due", "price_pro")).unwrap();
    match ev {
        BillingEvent::SubscriptionDeleted { customer_id } => assert_eq!(customer_id, "cus_9"),
        other => panic!("unexpected event {:?}", other),
    }
}

#[test]
fn subscription_update_with_unknown_price_is_invalid() {
    match deliver(&subscription("updated", "active", "price_other")) {
        Err(DomainError::InvalidInput(m)) => assert_eq!(m, "unknown price id: price_other"),
        other => panic!("unexpected {:?}", other),
    }
}

#[test]
fn subscription_update_without_price_is_invalid() {
    let payload = r#"{"type":"customer.subscription.updated","data":{"object":{"customer":"cus_9","status":"active"}}}"#;
    match deliver(payload) {
        Err(DomainError::InvalidInput(m)) => assert_eq!(m, "missing price id"),
        other => panic!("unexpected {:?}", other),
    }
}

#[test]
fn deleted_subscription_names_customer() {
    let ev = deliver(&subscription("deleted", "canceled", "price_pro")).unwrap();
    assert!(matches!(ev, BillingEvent::SubscriptionDeleted { ref customer_id } if customer_id == "cus_9"));
}

#[test]
fn deleted_subscription_without_customer_is_invalid() {
    let payload = r#"{"type":"customer.subscription.deleted","data":{"object":{}}}"#;
    match deliver(payload) {
        Err(DomainError::InvalidInput(m)) => assert_eq!(m, "missing customer"),
        other => panic!("unexpected {:?}", other),
    }
}

#[test]
fn test_mode_events_are_ignored() {
    let payload = checkout("paid", "pro").replace("\"livemode\":true", "\"livemode\":false");
    assert!(matches!(deliver(&payload).unwrap(), BillingEvent::Other));
}

#[test]
fn unhandled_event_types_are_ignored() {
    let payload = r#"{"type":"invoice.paid","data":{"object":{}}}"#;
    assert!(matches!(deliver(payload).unwrap(), BillingEvent::Other));
}

#[test]
fn wrong_signature_is_unauthorized() {
    let payload = checkout("paid", "pro");
    let forged = format!("t={},v1={}", NOW, "00".repeat(32));
    let r = client().verify_webhook_at(payload.as_bytes(), &forged, NOW);
    assert!(matches!(r, Err(DomainError::Unauthorized)));
}

#[test]
fn one_matching_signature_among_several_is_enough() {
    let payload = checkout("paid", "pro");
    let h = format!("t={},v1={},v1={}", NOW, "ab".repeat(32), sign(NOW, payload.as_bytes()));
    assert!(client().verify_webhook_at(payload.as_bytes(), &h, NOW).is_ok());
}

#[test]
fn signature_over_other_payload_is_unauthorized() {
    let payload = checkout("paid", "pro");
    let h = header(NOW, b"something else");
    assert!(matches!(client().verify_webhook_at(payload.as_bytes(), &h, NOW), Err(DomainError::Unauthorized)));
}

#[test]
fn missing_timestamp_is_unauthorized() {
    let payload = checkout("paid", "pro");
    let h = format!("v1={}", sign(NOW, payload.as_bytes()));
    assert!(matches!(client().verify_webhook_at(payload.as_bytes(), &h, NOW), Err(DomainError::Unauthorized)));
}

#[test]
fn non_numeric_timestamp_is_unauthorized() {
    let payload = checkout("paid", "pro");
    let h = format!("t=soon,v1={}", sign(NOW, payload.as_bytes()));
    assert!(matches!(client().verify_webhook_at(payload.as_bytes(), &h, NOW), Err(DomainError::Unauthorized)));
}

#[test]
fn timestamps_within_five_minutes_are_accepted() {
    let payload = checkout("paid", "pro");
    for ts in [NOW - 300, NOW + 300] {
        let r = client().verify_webhook_at(payload.as_bytes(), &header(ts, payload.as_bytes()), NOW);
        assert!(r.is_ok(), "timestamp {} refused", ts);
    }
}

#[test]
fn stale_or_future_timestamps_are_unauthorized() {
    let payload = checkout("paid", "pro");
    for ts in [NOW - 301, NOW + 301] {
        let r = client().verify_webhook_at(payload.as_bytes(), &header(ts, payload.as_bytes()), NOW);
        assert!(matches!(r, Err(DomainError::Unauthorized)), "timestamp {} accepted", ts);
    }
}

#[test]
fn extreme_timestamps_do_not_overflow() {
    let payload = checkout("paid", "pro");
    let r = client().verify_webhook_at(payload.as_bytes(), &header(i64::MIN, payload.as_bytes()), i64::MAX);
    assert!(matches!(r, Err(DomainError::Unauthorized)));
}

#[test]
fn non_utf8_payload_is_unauthorized() {
    let payload: &[u8] = &[0xff, 0xfe, 0x7b];
    let r = client().verify_webhook_at(payload, &header(NOW, payload), NOW);
    assert!(matches!(r, Err(DomainError::Unauthorized)));
}

#[test]
fn malformed_json_is_invalid_input() {
    let payload = b"{not json";
    match client().verify_webhook_at(payload, &header(NOW, payload), NOW) {
        Err(DomainError::InvalidInput(m)) => assert_eq!(m, "malformed webhook json"),
        other => panic!("unexpected {:?}", other),
    }
}

#[test]
fn current_time_verification_accepts_fresh_delivery() {
    let payload = checkout("paid", "essential");
    let now = std::time::SystemTime::now()
        .duration_since(std::time::UNIX_EPOCH)
        .unwrap()
        .as_secs() as i64;
    let ev = client().verify_webhook(payload.as_bytes(), &header(now, payload.as_bytes())).unwrap();
    assert!(matches!(ev, BillingEvent::CheckoutCompleted { tier: Tier::Essential, .. }));
}

#[test]
fn signature_header_is_split_into_timestamp_and_signatures() {
    let (ts, sigs) = domain::stripe::parse_signature_header("t=12,v1=aa,v0=zz,v1=bb");
    assert_eq!(ts, Some("12"));
    assert_eq!(sigs, vec!["aa", "bb"]);
    let (none, empty) = domain::stripe::parse_signature_header("");
    assert_eq!(none, None);
    assert!(empty.is_empty());
}
