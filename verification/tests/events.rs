use domain::error::DomainError;
use domain::event::{apply_details, hosted_event, new_event, Event, EventDetails, Rsvp, RsvpStatus};

fn details(title: &str) -> EventDetails {
    EventDetails {
        title: title.into(),
        description: Some("desc".into()),
        address: None,
        latitude: Some(1.5f64.to_bits()),
        longitude: None,
        start_time: 1_000,
        max_capacity: Some(20),
    }
}

#[test]
fn new_event_takes_details_and_creation_instant() {
    let e = new_event(7, 3, details("Picnic"), 99);
    assert_eq!((e.id, e.host_id, e.created_at), (7, 3, 99));
    assert_eq!(e.title, "Picnic");
    assert_eq!(e.description.as_deref(), Some("desc"));
    assert_eq!(e.latitude, Some(1.5f64.to_bits()));
    assert_eq!((e.start_time, e.max_capacity), (1_000, Some(20)));
}

#[test]
fn applying_details_keeps_identity_host_and_creation() {
    let e = new_event(7, 3, details("Picnic"), 99);
    let mut d = details("Party");
    d.max_capacity = None;
    let u = apply_details(e, d);
    assert_eq!((u.id, u.host_id, u.created_at), (7, 3, 99));
    assert_eq!(u.title, "Party");
    assert_eq!(u.max_capacity, None);
}

#[test]
fn only_the_host_sees_an_event_as_theirs() {
    let e: Event = new_event(7, 3, details("Picnic"), 99);
    assert_eq!(hosted_event(Ok(e.clone()), 3).unwrap().id, 7);
    assert!(matches!(hosted_event(Ok(e), 4), Err(DomainError::NotFound)));
    assert!(matches!(hosted_event(Err(DomainError::Parse), 3), Err(DomainError::Parse)));
}

#[test]
fn rsvp_answers_are_values() {
    let r = Rsvp { user_id: 1, event_id: 2, status: RsvpStatus::Maybe, created_at: 5 };
    let copy = r;
    assert_eq!(copy, r);
    assert_ne!(RsvpStatus::Going, RsvpStatus::Declined);
}
