use domain::error::DomainError;
use domain::product::{
    archive_product, create_product, delete_product, get_product, list_products, FakeProductRepository, Product,
    ProductRepository,
};
use time::OffsetDateTime;
use uuid::Uuid;

fn new_id() -> u128 {
    Uuid::now_v7().as_u128()
}

fn now() -> i128 {
    OffsetDateTime::now_utc().unix_timestamp_nanos()
}

fn make_product(user_id: u128) -> Product {
    let now = now();
    Product {
        id: new_id(),
        user_id,
        name: "Widget".to_string(),
        brand: Some("Acme".to_string()),
        created_at: now,
        updated_at: now,
        archived_at: None,
    }
}

#[test]
fn create_product_sets_correct_fields() {
    let mut repo = FakeProductRepository::new();
    let user_id = new_id();

    let product = create_product(&mut repo, user_id, "Widget".to_string(), Some("Acme".to_string())).unwrap();

    assert_eq!(product.user_id, user_id);
    assert_eq!(product.name, "Widget");
    assert_eq!(product.brand, Some("Acme".to_string()));
    assert!(product.archived_at.is_none());
}

#[test]
fn get_product_returns_not_found_for_unknown_id() {
    let repo = FakeProductRepository::new();
    let user_id = new_id();

    let result = get_product(&repo, new_id(), user_id);

    assert!(matches!(result, Err(DomainError::NotFound)));
}

#[test]
fn get_product_returns_not_found_for_wrong_user() {
    let owner_id = new_id();
    let product = make_product(owner_id);
    let repo = FakeProductRepository::new().with_product(product.clone());

    let result = get_product(&repo, product.id, new_id());

    assert!(matches!(result, Err(DomainError::NotFound)));
}

#[test]
fn list_products_excludes_archived() {
    let user_id = new_id();
    let mut archived = make_product(user_id);
    archived.archived_at = Some(now());
    let active = make_product(user_id);
    let repo = FakeProductRepository::new().with_product(archived).with_product(active.clone());

    let products = list_products(&repo, user_id).unwrap();

    assert_eq!(products.len(), 1);
    assert_eq!(products[0].id, active.id);
}

#[test]
fn list_products_returns_only_user_products() {
    let user_id = new_id();
    let other_user_id = new_id();
    let repo = FakeProductRepository::new()
        .with_product(make_product(user_id))
        .with_product(make_product(other_user_id));

    let products = list_products(&repo, user_id).unwrap();

    assert_eq!(products.len(), 1);
    assert_eq!(products[0].user_id, user_id);
}

#[test]
fn archive_product_sets_archived_at() {
    let user_id = new_id();
    let product = make_product(user_id);
    let mut repo = FakeProductRepository::new().with_product(product.clone());

    let result = archive_product(&mut repo, product.id, user_id).unwrap();

    assert!(result.archived_at.is_some());
}

#[test]
fn archive_product_returns_not_found_for_wrong_user() {
    let product = make_product(new_id());
    let mut repo = FakeProductRepository::new().with_product(product.clone());

    let result = archive_product(&mut repo, product.id, new_id());

    assert!(matches!(result, Err(DomainError::NotFound)));
}

#[test]
fn archive_already_archived_product_returns_error() {
    let user_id = new_id();
    let mut product = make_product(user_id);
    product.archived_at = Some(now());
    let mut repo = FakeProductRepository::new().with_product(product.clone());

    let result = archive_product(&mut repo, product.id, user_id);

    assert!(matches!(result, Err(DomainError::InvalidInput(_))));
}

#[test]
fn delete_product_removes_it() {
    let user_id = new_id();
    let product = make_product(user_id);
    let mut repo = FakeProductRepository::new().with_product(product.clone());

    delete_product(&mut repo, product.id, user_id).unwrap();

    let result = repo.find(product.id);
    assert!(matches!(result, Err(DomainError::NotFound)));
}

#[test]
fn delete_product_returns_not_found_for_wrong_user() {
    let product = make_product(new_id());
    let mut repo = FakeProductRepository::new().with_product(product.clone());

    let result = delete_product(&mut repo, product.id, new_id());

    assert!(matches!(result, Err(DomainError::NotFound)));
}

// ── Further cases ────────────────────────────────────────────────────────────

#[test]
fn archived_product_then_disappears_from_listing() {
    let user_id = new_id();
    let product = make_product(user_id);
    let mut repo = FakeProductRepository::new().with_product(product.clone());

    assert_eq!(list_products(&repo, user_id).unwrap().len(), 1);
    archive_product(&mut repo, product.id, user_id).unwrap();
    assert!(list_products(&repo, user_id).unwrap().is_empty());
    // archiving twice is refused
    assert!(matches!(archive_product(&mut repo, product.id, user_id), Err(DomainError::InvalidInput(_))));
}

#[test]
fn created_product_is_found_by_its_owner() {
    let mut repo = FakeProductRepository::new();
    let user_id = new_id();
    let product = create_product(&mut repo, user_id, "Lamp".to_string(), None).unwrap();
    let found = get_product(&repo, product.id, user_id).unwrap();
    assert_eq!(found.name, "Lamp");
    assert_eq!(found.created_at, found.updated_at);
    assert_eq!(list_products(&repo, user_id).unwrap().len(), 1);
}

#[test]
fn delete_unknown_product_is_not_found() {
    let mut repo = FakeProductRepository::new();
    assert!(matches!(delete_product(&mut repo, new_id(), new_id()), Err(DomainError::NotFound)));
}

#[test]
fn upsert_replaces_product_with_same_id() {
    let user_id = new_id();
    let mut product = make_product(user_id);
    let mut repo = FakeProductRepository::new().with_product(product.clone());
    product.name = "Gadget".to_string();
    repo.upsert(&product).unwrap();
    let listed = list_products(&repo, user_id).unwrap();
    assert_eq!(listed.len(), 1);
    assert_eq!(listed[0].name, "Gadget");
}
