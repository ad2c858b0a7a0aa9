use domain::analysis::{decode_grade, grade_product, number_as_u8, product_query};
use domain::config::TierFeatures;
use domain::entitlement::ConfigEntitlementService;
use domain::error::DomainError;
use domain::fakes::FakeAiService;
use domain::json::JsonValue;
use domain::ports::LlmService;
use domain::product::{FakeProductRepository, Product};
use domain::user::{ApiUsage, StorageUsage, Tier, TierSettings, User};

fn n(t: &str) -> JsonValue {
    JsonValue::Number(t.to_string())
}

fn s(t: &str) -> JsonValue {
    JsonValue::Str(t.to_string())
}

fn obj(members: Vec<(&str, JsonValue)>) -> JsonValue {
    JsonValue::Object(members.into_iter().map(|(k, v)| (k.to_string(), v)).collect())
}

fn deserialization_failed(r: Result<domain::analysis::ProductGrade, DomainError>) -> bool {
    matches!(r, Err(DomainError::Internal(ref m)) if m == "structured response deserialization failed")
}

#[test]
fn grade_is_read_from_object() {
    let g = decode_grade(&obj(vec![("score", n("7")), ("summary", s("Solid.")), ("extra", JsonValue::Null)])).unwrap();
    assert_eq!((g.score, g.summary.as_str()), (7, "Solid."));
}

#[test]
fn grade_is_read_from_pair() {
    let g = decode_grade(&JsonValue::Array(vec![n("10"), s("Great")])).unwrap();
    assert_eq!((g.score, g.summary.as_str()), (10, "Great"));
}

#[test]
fn malformed_grades_are_refused() {
    assert!(deserialization_failed(decode_grade(&obj(vec![("score", n("7"))]))));
    assert!(deserialization_failed(decode_grade(&obj(vec![("score", s("7")), ("summary", s("x"))]))));
    assert!(deserialization_failed(decode_grade(&obj(vec![("score", n("256")), ("summary", s("x"))]))));
    assert!(deserialization_failed(decode_grade(&obj(vec![("score", n("-1")), ("summary", s("x"))]))));
    assert!(deserialization_failed(decode_grade(&obj(vec![("score", n("7.5")), ("summary", s("x"))]))));
    assert!(deserialization_failed(decode_grade(&JsonValue::Array(vec![n("1")]))));
    assert!(deserialization_failed(decode_grade(&s("7"))));
}

#[test]
fn scores_are_bytes() {
    assert_eq!(number_as_u8(&n("0")), Some(0));
    assert_eq!(number_as_u8(&n("255")), Some(255));
    assert_eq!(number_as_u8(&n("1000")), None);
    assert_eq!(number_as_u8(&n("")), None);
    assert_eq!(number_as_u8(&s("5")), None);
}

#[test]
fn product_question_names_product() {
    assert_eq!(product_query("Widget"), "What do you think of this product: Widget");
}

fn features() -> TierFeatures {
    TierFeatures { max_projects: 1, max_storage_gb: 1, can_export: false, api_calls_per_day: 1 }
}

fn entitlements() -> ConfigEntitlementService {
    let f: domain::user::TierFeatures = features().into();
    ConfigEntitlementService::new(TierSettings { free: f, essential: f, pro: f, enterprise: f })
}

fn user(tier: Tier) -> User {
    User {
        id: 1,
        sub: "s".into(),
        email: "e".into(),
        display_name: "d".into(),
        avatar_url: None,
        bio: None,
        city: None,
        latitude: None,
        longitude: None,
        tier,
        api_usage: ApiUsage(0),
        storage_usage: StorageUsage(0),
        billing_customer_id: None,
        billing_period_start: 0,
        created_at: 0,
        updated_at: 0,
        archived_at: None,
    }
}

fn product() -> Product {
    Product { id: 42, user_id: 1, name: "Widget".into(), brand: None, created_at: 0, updated_at: 0, archived_at: None }
}

#[test]
fn grading_with_the_fake_model() {
    let repo = FakeProductRepository::new().with_product(product());
    let g = grade_product(&user(Tier::Essential), &FakeAiService::new(), &repo, &entitlements(), 42, "fake", "fake", &JsonValue::Null)
        .unwrap();
    assert_eq!((g.score, g.summary.as_str()), (5, "Fake AI summary."));
}

#[test]
fn grading_requires_essential_tier() {
    let repo = FakeProductRepository::new().with_product(product());
    let r = grade_product(&user(Tier::Free), &FakeAiService::new(), &repo, &entitlements(), 42, "fake", "fake", &JsonValue::Null);
    assert!(matches!(r, Err(DomainError::InsufficientTier)));
}

#[test]
fn grading_unknown_product_is_not_found() {
    let repo = FakeProductRepository::new();
    let r = grade_product(&user(Tier::Pro), &FakeAiService::new(), &repo, &entitlements(), 42, "fake", "fake", &JsonValue::Null);
    assert!(matches!(r, Err(DomainError::NotFound)));
}

#[test]
fn fake_model_answers() {
    let ai = FakeAiService::new();
    assert_eq!(ai.available_models(), vec!["fake".to_string()]);
    assert_eq!(ai.get_simple_response("m", "s", "u").unwrap(), "This is a fake AI response.");
    let e = ai.embed("m", "x").unwrap();
    assert_eq!(e.len(), 1536);
    assert!(e.iter().all(|b| f32::from_bits(*b) == 0.0));
}
