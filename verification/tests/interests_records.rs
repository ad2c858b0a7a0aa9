use domain::fakes::{FakeAiService, FakeUserInterestsRepository};
use domain::interests::{get_interests, interests_record, update_interests, LlmInterestsService, UserInterests};
use domain::json::JsonValue;

fn existing() -> UserInterests {
    UserInterests {
        id: 11,
        user_id: 5,
        messages: JsonValue::Null,
        summary: Some("old".into()),
        embedding: None,
        created_at: 100,
        updated_at: 100,
    }
}

#[test]
fn stored_record_keeps_id_and_creation_instant() {
    let r = interests_record(Some(existing()), 99, 500, 5, JsonValue::Bool(true), "likes hiking".into(), vec![1, 2]);
    assert_eq!((r.id, r.user_id, r.created_at, r.updated_at), (11, 5, 100, 500));
    assert_eq!(r.summary.as_deref(), Some("likes hiking"));
    assert_eq!(r.embedding, Some(vec![1, 2]));
    assert!(matches!(r.messages, JsonValue::Bool(true)));
}

#[test]
fn new_record_takes_fresh_id_and_now() {
    let r = interests_record(None, 99, 500, 5, JsonValue::Null, "s".into(), vec![]);
    assert_eq!((r.id, r.created_at, r.updated_at), (99, 500, 500));
}

#[test]
fn interests_service_keeps_its_models() {
    let s = LlmInterestsService::new("openai:gpt".into(), "openai:embed".into());
    assert_eq!((s.summary_model.as_str(), s.embed_model.as_str()), ("openai:gpt", "openai:embed"));
}

#[test]
fn updating_interests_summarises_embeds_and_stores() {
    let mut repo = FakeUserInterestsRepository::new();
    let ai = FakeAiService::new();
    let messages = JsonValue::Array(vec![JsonValue::Str("I like hiking".into())]);
    let first = update_interests(&mut repo, &ai, 5, messages, "fake", "fake").unwrap();
    assert_eq!(first.user_id, 5);
    assert_eq!(first.summary.as_deref(), Some("This is a fake AI response."));
    assert_eq!(first.embedding.as_ref().map(|e| e.len()), Some(1536));
    let stored = get_interests(&repo, 5).unwrap().unwrap();
    assert_eq!((stored.id, stored.created_at), (first.id, first.created_at));
    let second = update_interests(&mut repo, &ai, 5, JsonValue::Null, "fake", "fake").unwrap();
    assert_eq!((second.id, second.created_at), (first.id, first.created_at));
    assert!(matches!(second.messages, JsonValue::Null));
    assert!(get_interests(&repo, 6).unwrap().is_none());
}

#[test]
fn interests_service_uses_its_models() {
    let svc = LlmInterestsService::new("fake".into(), "fake".into());
    let mut repo = FakeUserInterestsRepository::new();
    let r = svc.update_interests(&mut repo, &FakeAiService::new(), 9, JsonValue::Bool(false)).unwrap();
    assert_eq!(r.user_id, 9);
    assert!(svc.get_interests(&repo, 9).unwrap().is_some());
}
