use domain::config::{
    ConfigError, EnvOr, EnvSnapshot, RawDatabaseConfig, RawResendConfig, RawStripeConfig, RawTierConfig, RawTierFeatures,
    RawZitadelConfig, TierConfig, TierFeatures,
};
use domain::llm::SimpleLlmClient;
use domain::llm_config::{RawInterestsModels, RawLlmConfig, RawModel, RawProvider};
use domain::user::{Tier, TierSettings};

fn env(vars: &[(&str, &str)]) -> EnvSnapshot {
    EnvSnapshot { vars: vars.iter().map(|(k, v)| (k.to_string(), v.to_string())).collect() }
}

fn text(s: &str) -> EnvOr<String> {
    EnvOr::Value(s.to_string())
}

fn var<T>(name: &str) -> EnvOr<T> {
    EnvOr::Env { var: name.to_string() }
}

fn message<T>(r: Result<T, ConfigError>) -> String {
    match r {
        Ok(_) => panic!("expected an error"),
        Err(e) => e.message,
    }
}

#[test]
fn environment_lookup_takes_first_binding() {
    let e = env(&[("A", "1"), ("B", "2"), ("A", "3")]);
    assert_eq!(e.get("A"), Some("1"));
    assert_eq!(e.get("B"), Some("2"));
    assert_eq!(e.get("C"), None);
}

#[test]
fn inline_values_ignore_the_environment() {
    let e = env(&[("X", "from env")]);
    assert_eq!(text("inline").resolve_text(&e).unwrap(), "inline");
    assert_eq!(EnvOr::Value(7u32).resolve_u32(&e).unwrap(), 7);
    assert!(EnvOr::Value(true).resolve_bool(&e).unwrap());
}

#[test]
fn variable_references_read_the_environment() {
    let e = env(&[("HOST", "db.local"), ("POOL", "16"), ("EXPORT", "false")]);
    assert_eq!(var::<String>("HOST").resolve_text(&e).unwrap(), "db.local");
    assert_eq!(var::<u32>("POOL").resolve_u32(&e).unwrap(), 16);
    assert!(!var::<bool>("EXPORT").resolve_bool(&e).unwrap());
}

#[test]
fn unset_and_unparsable_variables_are_errors() {
    let e = env(&[("POOL", "many"), ("FLAG", "yes"), ("NEG", "-1")]);
    assert_eq!(message(var::<String>("MISSING").resolve_text(&e)), "env var 'MISSING' is not set");
    assert_eq!(message(var::<u32>("MISSING").resolve_u32(&e)), "env var 'MISSING' is not set");
    assert_eq!(message(var::<u32>("POOL").resolve_u32(&e)), "env var 'POOL' could not be parsed: invalid digit found in string");
    assert_eq!(message(var::<u32>("NEG").resolve_u32(&e)), "env var 'NEG' could not be parsed: invalid digit found in string");
    assert_eq!(message(var::<bool>("FLAG").resolve_bool(&e)), "env var 'FLAG' could not be parsed: provided string was not `true` or `false`");
}

fn raw_features(n: u32) -> RawTierFeatures {
    RawTierFeatures {
        max_projects: EnvOr::Value(n),
        max_storage_gb: EnvOr::Value(n * 10),
        can_export: EnvOr::Value(n > 1),
        api_calls_per_day: EnvOr::Value(n * 100),
    }
}

#[test]
fn tier_configuration_resolves_every_tier() {
    let raw = RawTierConfig { free: raw_features(1), essential: raw_features(2), pro: raw_features(3), enterprise: raw_features(4) };
    let cfg = raw.into_config(&env(&[])).unwrap();
    assert_eq!(cfg.pro, TierFeatures { max_projects: 3, max_storage_gb: 30, can_export: true, api_calls_per_day: 300 });
    let settings: TierSettings = cfg.into();
    assert_eq!(settings.for_tier(&Tier::Free).max_projects, 1);
    assert_eq!(settings.for_tier(&Tier::Enterprise).api_calls_per_day, 400);
    assert!(!settings.for_tier(&Tier::Free).can_export);
}

#[test]
fn tier_configuration_reports_first_failure() {
    let mut essential = raw_features(2);
    essential.max_storage_gb = var("STORAGE");
    essential.api_calls_per_day = var("CALLS");
    let raw = RawTierConfig { free: raw_features(1), essential, pro: raw_features(3), enterprise: raw_features(4) };
    assert_eq!(message(raw.into_config(&env(&[]))), "env var 'STORAGE' is not set");
}

#[test]
fn configured_features_convert_unchanged() {
    let f = TierFeatures { max_projects: 9, max_storage_gb: 8, can_export: true, api_calls_per_day: 7 };
    let d: domain::user::TierFeatures = f.into();
    assert_eq!((d.max_projects, d.max_storage_gb, d.can_export, d.api_calls_per_day), (9, 8, true, 7));
    let c = TierConfig { free: f, essential: f, pro: f, enterprise: f };
    let s: TierSettings = c.into();
    assert_eq!(s.essential.max_storage_gb, 8);
}

#[test]
fn identity_provider_settings_resolve() {
    let raw = RawZitadelConfig { issuer: text("https://id.example"), client_id: var("CLIENT"), jwks_url: text("https://id.example/keys") };
    let cfg = raw.into_config(&env(&[("CLIENT", "abc")])).unwrap();
    assert_eq!((cfg.issuer.as_str(), cfg.client_id.as_str(), cfg.jwks_url.as_str()), ("https://id.example", "abc", "https://id.example/keys"));
    let raw = RawZitadelConfig { issuer: text("i"), client_id: var("CLIENT"), jwks_url: var("JWKS") };
    assert_eq!(message(raw.into_config(&env(&[]))), "env var 'CLIENT' is not set");
}

#[test]
fn database_settings_resolve() {
    let raw = RawDatabaseConfig { url: var("DATABASE_URL"), max_connections: var("POOL") };
    let cfg = raw.into_config(&env(&[("DATABASE_URL", "postgres://x"), ("POOL", "5")])).unwrap();
    assert_eq!((cfg.url.as_str(), cfg.max_connections), ("postgres://x", 5));
    let raw = RawDatabaseConfig { url: text("postgres://x"), max_connections: var("POOL") };
    assert_eq!(message(raw.into_config(&env(&[("POOL", "five")]))), "env var 'POOL' could not be parsed: invalid digit found in string");
}

fn raw_stripe() -> RawStripeConfig {
    RawStripeConfig {
        secret_key: var("STRIPE_KEY"),
        webhook_secret: var("STRIPE_WEBHOOK"),
        essential_price_id: text("price_e"),
        pro_price_id: text("price_p"),
        success_url: text("https://s"),
        cancel_url: text("https://c"),
        portal_return_url: text("https://r"),
    }
}

#[test]
fn stripe_settings_resolve_in_order() {
    let cfg = raw_stripe().into_config(&env(&[("STRIPE_KEY", "sk"), ("STRIPE_WEBHOOK", "wh")])).unwrap();
    assert_eq!(cfg.secret_key, "sk");
    assert_eq!(cfg.webhook_secret, "wh");
    assert_eq!(cfg.essential_price_id, "price_e");
    assert_eq!(cfg.pro_price_id, "price_p");
    assert_eq!(cfg.success_url, "https://s");
    assert_eq!(cfg.cancel_url, "https://c");
    assert_eq!(cfg.portal_return_url, "https://r");
    assert_eq!(message(raw_stripe().into_config(&env(&[]))), "env var 'STRIPE_KEY' is not set");
    assert_eq!(message(raw_stripe().into_config(&env(&[("STRIPE_KEY", "sk")]))), "env var 'STRIPE_WEBHOOK' is not set");
}

#[test]
fn mail_settings_resolve() {
    let raw = RawResendConfig { api_key: var("RESEND"), sender_email: text("no-reply@example.com"), sender_name: text("Example") };
    let cfg = raw.into_config(&env(&[("RESEND", "re_1")])).unwrap();
    assert_eq!((cfg.api_key.as_str(), cfg.sender_email.as_str(), cfg.sender_name.as_str()), ("re_1", "no-reply@example.com", "Example"));
    let raw = RawResendConfig { api_key: var("RESEND"), sender_email: text("a"), sender_name: text("b") };
    assert_eq!(message(raw.into_config(&env(&[]))), "env var 'RESEND' is not set");
}

fn raw_llm() -> RawLlmConfig {
    RawLlmConfig {
        providers: vec![
            (
                "openai".to_string(),
                RawProvider {
                    base_url: text("https://api.openai.com/v1/"),
                    key: Some(var("OPENAI_KEY")),
                    models: vec![
                        ("gpt-4o".to_string(), RawModel { max_tokens: Some(EnvOr::Value(512)), temperature: Some(0.5f32.to_bits()) }),
                        ("gpt-4o-mini".to_string(), RawModel { max_tokens: None, temperature: None }),
                    ],
                    embed_models: vec!["text-embedding-3-small".to_string()],
                },
            ),
            (
                "local".to_string(),
                RawProvider { base_url: var("LOCAL_URL"), key: None, models: vec![("llama".to_string(), RawModel { max_tokens: Some(var("LLAMA_TOKENS")), temperature: None })], embed_models: vec![] },
            ),
        ],
        interests: RawInterestsModels { summary_model: "openai:gpt-4o-mini".to_string(), embed_model: "openai:text-embedding-3-small".to_string() },
    }
}

#[test]
fn llm_configuration_builds_qualified_model_tables() {
    let e = env(&[("OPENAI_KEY", "sk-1"), ("LOCAL_URL", "http://localhost:11434/v1"), ("LLAMA_TOKENS", "256")]);
    let cfg = raw_llm().into_config(&e).unwrap();
    assert_eq!(cfg.interests_summary_model, "openai:gpt-4o-mini");
    assert_eq!(cfg.interests_embed_model, "openai:text-embedding-3-small");
    let mut names: Vec<&str> = cfg.models.iter().map(|(k, _)| k.as_str()).collect();
    names.sort();
    assert_eq!(names, vec!["local:llama", "openai:gpt-4o", "openai:gpt-4o-mini"]);
    let client = SimpleLlmClient::new(cfg.providers, cfg.models, cfg.embed_models);
    let (p, mc) = client.resolve("openai:gpt-4o").unwrap();
    assert_eq!(p.base_url, "https://api.openai.com/v1/");
    assert_eq!(p.api_key.as_deref(), Some("sk-1"));
    assert_eq!(mc.provider_name, "openai");
    assert_eq!(mc.params.max_tokens, Some(512));
    assert_eq!(mc.params.temperature, Some(0.5f32.to_bits()));
    assert_eq!(mc.params.top_p, None);
    let (p, mc) = client.resolve("local:llama").unwrap();
    assert_eq!(p.base_url, "http://localhost:11434/v1");
    assert_eq!(p.api_key, None);
    assert_eq!(mc.params.max_tokens, Some(256));
    assert_eq!(client.resolve_embed("openai:text-embedding-3-small").unwrap().api_key.as_deref(), Some("sk-1"));
    assert!(client.resolve("gpt-4o").is_err());
}

#[test]
fn llm_configuration_reports_key_before_endpoint() {
    let e = env(&[]);
    assert_eq!(message(raw_llm().into_config(&e)), "env var 'OPENAI_KEY' is not set");
    let e = env(&[("OPENAI_KEY", "sk-1"), ("LOCAL_URL", "http://l")]);
    assert_eq!(message(raw_llm().into_config(&e)), "env var 'LLAMA_TOKENS' is not set");
}

#[test]
fn later_providers_win_for_the_same_qualified_name() {
    let raw = RawLlmConfig {
        providers: vec![
            ("a".to_string(), RawProvider { base_url: text("http://a"), key: None, models: vec![("x".to_string(), RawModel { max_tokens: Some(EnvOr::Value(1)), temperature: None })], embed_models: vec![] }),
            ("a".to_string(), RawProvider { base_url: text("http://a2"), key: None, models: vec![("x".to_string(), RawModel { max_tokens: Some(EnvOr::Value(2)), temperature: None })], embed_models: vec![] }),
        ],
        interests: RawInterestsModels { summary_model: "a:x".to_string(), embed_model: "a:x".to_string() },
    };
    let cfg = raw.into_config(&env(&[])).unwrap();
    assert_eq!(cfg.models.len(), 1);
    assert_eq!(cfg.providers.len(), 1);
    let client = SimpleLlmClient::new(cfg.providers, cfg.models, cfg.embed_models);
    let (p, mc) = client.resolve("a:x").unwrap();
    assert_eq!((p.base_url.as_str(), mc.params.max_tokens), ("http://a2", Some(2)));
}
