use domain::error::DomainError;
use domain::json::JsonValue;
use domain::llm::{
    chat_content, chat_reply, embed_reply, embedding_numbers, endpoint_url, replace_spaces, schema_name, structured_answer, EmbedModelConfig, ModelConfig,
    ModelParameters, Provider, SimpleLlmClient,
};

fn client() -> SimpleLlmClient {
    let params = ModelParameters { max_tokens: Some(100), temperature: Some(0.25f32.to_bits()), ..Default::default() };
    SimpleLlmClient::new(
        vec![
            ("openai".to_string(), Provider { base_url: "https://api.openai.com/v1//".to_string(), api_key: Some("sk".to_string()) }),
            ("local".to_string(), Provider { base_url: "http://localhost:8080".to_string(), api_key: None }),
        ],
        vec![
            ("openai:gpt".to_string(), ModelConfig { provider_name: "openai".to_string(), params }),
            ("ghost:model".to_string(), ModelConfig { provider_name: "ghost".to_string(), params: ModelParameters::default() }),
        ],
        vec![
            ("local:embed".to_string(), EmbedModelConfig { provider_name: "local".to_string() }),
            ("ghost:embed".to_string(), EmbedModelConfig { provider_name: "ghost".to_string() }),
        ],
    )
}

fn internal<T: std::fmt::Debug>(r: Result<T, DomainError>) -> String {
    match r {
        Err(DomainError::Internal(m)) => m,
        other => panic!("expected an internal error, got {:?}", other),
    }
}

fn obj(members: Vec<(&str, JsonValue)>) -> JsonValue {
    JsonValue::Object(members.into_iter().map(|(k, v)| (k.to_string(), v)).collect())
}

fn s(t: &str) -> JsonValue {
    JsonValue::Str(t.to_string())
}

#[test]
fn available_models_lists_chat_models_in_order() {
    assert_eq!(client().available_models(), vec!["openai:gpt".to_string(), "ghost:model".to_string()]);
}

#[test]
fn unknown_models_and_providers_are_reported() {
    let c = client();
    assert_eq!(internal(c.resolve("nope")), "unknown model: nope");
    assert_eq!(internal(c.resolve("ghost:model")), "unknown provider 'ghost' for model 'ghost:model'");
    assert_eq!(internal(c.resolve_embed("nope")), "unknown embed model: nope");
    assert_eq!(internal(c.resolve_embed("ghost:embed")), "unknown provider 'ghost' for embed model 'ghost:embed'");
}

#[test]
fn endpoints_drop_trailing_slashes_of_base_url() {
    assert_eq!(endpoint_url("https://x/v1//", "/chat/completions"), "https://x/v1/chat/completions");
    assert_eq!(endpoint_url("https://x/v1", "/embeddings"), "https://x/v1/embeddings");
    assert_eq!(endpoint_url("///", "/e"), "/e");
}

#[test]
fn simple_request_carries_model_messages_and_parameters() {
    let req = client().simple_request("openai:gpt", "be brief", "hello").unwrap();
    assert_eq!(req.url, "https://api.openai.com/v1/chat/completions");
    assert_eq!(req.api_key.as_deref(), Some("sk"));
    assert_eq!(req.model, "openai:gpt");
    assert_eq!(req.messages.len(), 2);
    assert_eq!((req.messages[0].role.as_str(), req.messages[0].content.as_str()), ("system", "be brief"));
    assert_eq!((req.messages[1].role.as_str(), req.messages[1].content.as_str()), ("user", "hello"));
    assert_eq!(req.params.max_tokens, Some(100));
    assert_eq!(req.params.temperature, Some(0.25f32.to_bits()));
    assert!(req.response_format.is_none());
    assert_eq!(internal(client().simple_request("nope", "a", "b")), "unknown model: nope");
}

#[test]
fn structured_request_names_schema_by_title() {
    let schema = obj(vec![("title", s("Product Grade")), ("type", s("object"))]);
    let req = client().structured_request("openai:gpt", "grade", "it is fine", schema).unwrap();
    let f = req.response_format.unwrap();
    assert_eq!(f.name, "product_grade");
    assert!(f.strict);
    assert!(matches!(f.schema, JsonValue::Object(ref m) if m.len() == 2));
}

#[test]
fn schema_without_title_is_named_response() {
    assert_eq!(schema_name(&obj(vec![("type", s("object"))])), "response");
    assert_eq!(schema_name(&obj(vec![("title", JsonValue::Number("3".into()))])), "response");
    assert_eq!(schema_name(&obj(vec![("title", s("Big Fat Title"))])), "big_fat_title");
    assert_eq!(replace_spaces(" a b "), "_a_b_");
}

#[test]
fn embedding_target_uses_provider_endpoint() {
    let (url, key) = client().embed_target("local:embed").unwrap();
    assert_eq!(url, "http://localhost:8080/embeddings");
    assert_eq!(key, None);
}

#[test]
fn chat_content_reads_first_choice() {
    let body = br#"{"choices":[{"message":{"role":"assistant","content":"Hi there"}},{"message":{"content":"no"}}]}"#;
    assert_eq!(chat_content(body).unwrap(), "Hi there");
}

#[test]
fn chat_content_errors() {
    assert_eq!(internal(chat_content(b"<html>")), "failed to deserialize response");
    assert_eq!(internal(chat_content(br#"{"choices":[]}"#)), "failed to deserialize response");
    assert_eq!(internal(chat_content(br#"{"choices":[{"message":{"content":null}}]}"#)), "empty content in LLM response");
}

#[test]
fn embedding_numbers_are_read_in_order() {
    let body = br#"{"data":[{"embedding":[0.5,-1,2e-3]}]}"#;
    let v = embedding_numbers(body).unwrap();
    assert_eq!(v.len(), 3);
    let parsed: Vec<f64> = v.iter().map(|t| t.parse::<f64>().unwrap()).collect();
    assert_eq!(parsed, vec![0.5, -1.0, 0.002]);
}

#[test]
fn embedding_errors() {
    assert_eq!(internal(embedding_numbers(b"nope")), "failed to deserialize embed response");
    assert_eq!(internal(embedding_numbers(br#"{"data":[]}"#)), "missing embedding in response");
    assert_eq!(internal(embedding_numbers(br#"{"data":[{"embedding":"x"}]}"#)), "embedding is not an array");
    assert_eq!(internal(embedding_numbers(br#"{"data":[{"embedding":[1,"2"]}]}"#)), "non-numeric value in embedding");
}

#[test]
fn structured_answer_reads_json_text() {
    assert!(matches!(structured_answer(r#"{"score":3}"#), Ok(JsonValue::Object(_))));
    assert_eq!(internal(structured_answer("score: 3")), "structured response deserialization failed");
}

#[test]
fn trailing_slash_does_not_change_endpoint() {
    assert_eq!(endpoint_url("https://x/v1/", "/embeddings"), endpoint_url("https://x/v1", "/embeddings"));
}

#[test]
fn refused_model_requests_name_status_and_body() {
    assert_eq!(internal(chat_reply(404, "404 Not Found", b"missing", "missing")), "LLM API error 404 Not Found: missing");
    assert_eq!(internal(embed_reply(500, "500 Internal Server Error", b"", "")), "embed API error 500 Internal Server Error: ");
}

#[test]
fn accepted_model_replies_are_read() {
    let body = br#"{"choices":[{"message":{"content":"Hi"}}]}"#;
    assert_eq!(chat_reply(200, "200 OK", body, "").unwrap(), "Hi");
    let v = embed_reply(201, "201 Created", br#"{"data":[{"embedding":[1,2]}]}"#, "").unwrap();
    assert_eq!(v.len(), 2);
    assert_eq!(internal(chat_reply(200, "200 OK", b"<html>", "<html>")), "failed to deserialize response");
}
