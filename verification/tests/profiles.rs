use domain::error::DomainError;
use domain::fakes::FakeUserProfileRepository;
use domain::user::{ApiUsage, AuthUser, StorageUsage, Tier, User};
use domain::users::{find_nearby_users, get_or_upsert_user, get_user, update_profile, without_user, UserRepository};

fn auth(sub: &str, email: &str, name: &str) -> AuthUser {
    AuthUser { sub: sub.into(), email: email.into(), display_name: name.into() }
}

fn profile(id: u128, sub: &str, email: &str, name: &str) -> User {
    User {
        id,
        sub: sub.into(),
        email: email.into(),
        display_name: name.into(),
        avatar_url: None,
        bio: None,
        city: None,
        latitude: None,
        longitude: None,
        tier: Tier::Pro,
        api_usage: ApiUsage(3),
        storage_usage: StorageUsage(4),
        billing_customer_id: Some("cus_1".into()),
        billing_period_start: 10,
        created_at: 10,
        updated_at: 10,
        archived_at: None,
    }
}

#[test]
fn returns_existing_profile_without_upsert() {
    let user = auth("123", "test@example.com", "Test User");
    let mut repo = FakeUserProfileRepository::new().with_profile(profile(9, "123", "test@example.com", "Test User"));
    let result = get_or_upsert_user(&mut repo, &user).unwrap();
    assert_eq!(result.sub, user.sub);
    assert_eq!(result.email, user.email);
    assert_eq!(result.tier, Tier::Pro);
    assert_eq!(result.billing_customer_id.as_deref(), Some("cus_1"));
}

#[test]
fn upserts_on_first_access() {
    let user = auth("123", "new@example.com", "New User");
    let mut repo = FakeUserProfileRepository::new();
    let result = get_or_upsert_user(&mut repo, &user).unwrap();
    assert_eq!(result.email, "new@example.com");
    assert_eq!(result.tier, Tier::Free);
    assert_eq!(repo.find_by_sub("123").unwrap().id, result.id);
}

#[test]
fn upserts_when_email_changes() {
    let user = auth("123456789", "new@example.com", "Test User");
    let mut repo = FakeUserProfileRepository::new().with_profile(profile(9, "123456789", "old@example.com", "Test User"));
    let result = get_or_upsert_user(&mut repo, &user).unwrap();
    assert_eq!(result.email, "new@example.com");
    assert_eq!(result.id, 9);
    assert_eq!(repo.find_by_id(9).unwrap().email, "new@example.com");
}

#[test]
fn upserts_when_display_name_changes() {
    let user = auth("s", "a@b.c", "New Name");
    let mut repo = FakeUserProfileRepository::new().with_profile(profile(9, "s", "a@b.c", "Old Name"));
    let result = get_or_upsert_user(&mut repo, &user).unwrap();
    assert_eq!((result.id, result.display_name.as_str()), (9, "New Name"));
}

#[test]
fn get_user_reports_missing_profile() {
    let repo = FakeUserProfileRepository::new().with_profile(profile(1, "a", "a@x", "A"));
    assert_eq!(get_user(&repo, 1).unwrap().sub, "a");
    assert!(matches!(get_user(&repo, 2), Err(DomainError::NotFound)));
}

#[test]
fn profile_update_replaces_public_fields() {
    let mut repo = FakeUserProfileRepository::new().with_profile(profile(1, "a", "a@x", "A"));
    let lat = Some(52.5f64.to_bits());
    let lon = Some(13.4f64.to_bits());
    let u = update_profile(&mut repo, 1, Some("https://img".into()), Some("hi".into()), Some("Berlin".into()), lat, lon).unwrap();
    assert_eq!(u.city.as_deref(), Some("Berlin"));
    let stored = repo.find_by_id(1).unwrap();
    assert_eq!(stored.bio.as_deref(), Some("hi"));
    assert_eq!(stored.latitude, lat);
    assert_eq!(stored.email, "a@x");
    assert!(matches!(update_profile(&mut repo, 2, None, None, None, None, None), Err(DomainError::NotFound)));
}

#[test]
fn nearby_users_exclude_the_asker_and_unlocated_profiles() {
    let mut a = profile(1, "a", "a@x", "A");
    a.latitude = Some(1);
    a.longitude = Some(2);
    let mut b = profile(2, "b", "b@x", "B");
    b.latitude = Some(1);
    b.longitude = Some(2);
    let c = profile(3, "c", "c@x", "C");
    let repo = FakeUserProfileRepository::new().with_profile(a).with_profile(b).with_profile(c);
    let near = find_nearby_users(&repo, 1, 0, 0, 0).unwrap();
    let ids: Vec<u128> = near.iter().map(|u| u.id).collect();
    assert_eq!(ids, vec![2]);
}

#[test]
fn without_user_keeps_order_of_others() {
    let list = vec![profile(3, "c", "", ""), profile(1, "a", "", ""), profile(2, "b", "", "")];
    let ids: Vec<u128> = without_user(list, 1).iter().map(|u| u.id).collect();
    assert_eq!(ids, vec![3, 2]);
}

#[test]
fn fake_repository_lookups() {
    let mut repo = FakeUserProfileRepository::new().with_profile(profile(1, "a", "a@x", "A"));
    assert_eq!(repo.find_by_billing_customer_id("cus_1").unwrap().id, 1);
    assert!(matches!(repo.find_by_billing_customer_id("cus_2"), Err(DomainError::NotFound)));
    assert!(matches!(repo.find_by_sub("zz"), Err(DomainError::NotFound)));
    repo.update_subscription(1, Tier::Essential, None).unwrap();
    let u = repo.find_by_id(1).unwrap();
    assert_eq!((u.tier, u.billing_customer_id.as_deref()), (Tier::Essential, Some("cus_1")));
    repo.update_subscription(1, Tier::Pro, Some("cus_9".into())).unwrap();
    assert_eq!(repo.find_by_id(1).unwrap().billing_customer_id.as_deref(), Some("cus_9"));
    assert!(matches!(repo.update_subscription(5, Tier::Pro, None), Err(DomainError::NotFound)));
    assert!(repo.find_nearby_by_interests(0, 0, 0, &vec![]).unwrap().is_empty());
}
