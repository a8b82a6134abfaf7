use openagent_plugins::events::HostEvent;
use openagent_plugins::renew::{
    embedding_config_json, is_managed_provider, model_config_json, renew_step, renewed_model_configs, should_renew,
    RenewAction, RenewEvent, RenewNote, RenewState,
};
use openagent_plugins::tokenhub::{AgentConfig, EmbeddingModel, ModelInfo};

#[test]
fn renewal_trigger() {
    assert!(should_renew("leave", "HTTP 401 Unauthorized"));
    assert!(!should_renew("enter", "HTTP 401"));
    assert!(!should_renew("leave", ""));
    assert!(!should_renew("leave", "HTTP 500"));
}

#[test]
fn managed_provider() {
    assert!(is_managed_provider("hwdevspace"));
    assert!(!is_managed_provider("openai"));
    assert!(!is_managed_provider(""));
}

fn model(id: &str) -> ModelInfo {
    ModelInfo { model_id: id.to_string(), model_name: String::new(), context_window: 131072, max_tokens: 32768 }
}

#[test]
fn model_config_escapes_strings() {
    let j = model_config_json(&model("m\"1"), "k\\", "https://x");
    assert_eq!(
        j,
        "{\"provider\":\"hwdevspace\",\"model_id\":\"m\\\"1\",\"api_key\":\"k\\\\\",\"base_url\":\"https://x\",\
         \"max_input_tokens\":131072,\"max_output_tokens\":32768}"
    );
    let v: serde_json::Value = serde_json::from_str(&j).expect("valid JSON");
    assert_eq!(v["model_id"], "m\"1");
}

#[test]
fn one_config_per_model() {
    let cfg = AgentConfig { api_key: "k".to_string(), base_url: "u".to_string(), models: vec![model("a"), model("b")], embedding_models: vec![] };
    let all = renewed_model_configs(&cfg);
    assert_eq!(all.len(), 2);
    assert_eq!(all[1], model_config_json(&cfg.models[1], "k", "u"));
}

fn start(phase: &str, error: &str) -> RenewState {
    RenewState::Start { phase: phase.to_string(), error: error.to_string() }
}

fn is_continue(a: &RenewAction, note: impl Fn(&RenewNote) -> bool) -> bool {
    match a {
        RenewAction::Finish(n, answer) => note(n) && answer.action == "continue" && answer.reason.is_empty(),
        _ => false,
    }
}

fn read_keyring(a: &RenewAction, name: &str) -> bool {
    matches!(a, RenewAction::ReadKeyring(n) if n == name)
}

#[test]
fn renewal_sets_every_model_in_order() {
    let (s, a) = renew_step(start("leave", "HTTP 401 Unauthorized"), RenewEvent::Begin);
    assert!(matches!(a, RenewAction::ReadProvider));
    let (s, a) = renew_step(s, RenewEvent::Provider("hwdevspace".to_string()));
    assert!(matches!(a, RenewAction::Report(ref r)
        if matches!(r.event, HostEvent::Llm401) && r.message == "LLM call returned 401 auth error"));
    let (s, a) = renew_step(s, RenewEvent::Reported);
    assert!(read_keyring(&a, "HW_ACCESS_KEY"));
    let (s, a) = renew_step(s, RenewEvent::KeyringValue(Ok("ak".to_string())));
    assert!(read_keyring(&a, "HW_SECRET_KEY"));
    let (s, a) = renew_step(s, RenewEvent::KeyringValue(Ok("sk".to_string())));
    assert!(read_keyring(&a, "HW_SECURITY_TOKEN"));
    let (s, a) = renew_step(s, RenewEvent::KeyringValue(Err("no entry".to_string())));
    match a {
        RenewAction::FetchModels { ak, sk, security_token } => {
            assert_eq!(ak, "ak");
            assert_eq!(sk, "sk");
            assert_eq!(security_token, None);
        }
        _ => panic!("expected a fetch"),
    }
    let cfg = AgentConfig {
        api_key: "k".to_string(),
        base_url: "u".to_string(),
        models: vec![model("a"), model("b")],
        embedding_models: vec![EmbeddingModel { model_id: "e1".to_string() }, EmbeddingModel { model_id: "e2".to_string() }],
    };
    let embedding = embedding_config_json(&cfg.embedding_models[0], "k", "u");
    let first = model_config_json(&cfg.models[0], "k", "u");
    let second = model_config_json(&cfg.models[1], "k", "u");
    let (s, a) = renew_step(s, RenewEvent::Models(Some(cfg)));
    match a {
        RenewAction::SetModelConfig { model_id, config } => {
            assert_eq!(model_id, "a");
            assert_eq!(config, first);
        }
        _ => panic!("expected the first model"),
    }
    let (s, a) = renew_step(s, RenewEvent::ConfigSet(Err("rejected".to_string())));
    match a {
        RenewAction::SetModelConfig { model_id, config } => {
            assert_eq!(model_id, "b");
            assert_eq!(config, second);
        }
        _ => panic!("expected the second model"),
    }
    let (s, a) = renew_step(s, RenewEvent::ConfigSet(Ok(())));
    match a {
        RenewAction::SetEmbeddingConfig { model_id, config } => {
            assert_eq!(model_id, "e1");
            assert_eq!(config, embedding);
        }
        _ => panic!("expected the embedding update"),
    }
    let (s, a) = renew_step(s, RenewEvent::EmbeddingSet(Err("rejected".to_string())));
    assert!(is_continue(&a, |n| matches!(n, RenewNote::Renewed)));
    assert!(matches!(s, RenewState::Done));
    let (_, a) = renew_step(s, RenewEvent::Begin);
    assert!(matches!(a, RenewAction::Ignore));
}

#[test]
fn renewal_passes_the_security_token() {
    let s = RenewState::ReadingToken { ak: "ak".to_string(), sk: "sk".to_string() };
    let (_, a) = renew_step(s, RenewEvent::KeyringValue(Ok("tok".to_string())));
    assert!(matches!(a, RenewAction::FetchModels { security_token: Some(t), .. } if t == "tok"));
}

#[test]
fn renewal_not_requested() {
    let (s, a) = renew_step(start("leave", "HTTP 500"), RenewEvent::Begin);
    assert!(is_continue(&a, |n| matches!(n, RenewNote::NotRequested)));
    assert!(matches!(s, RenewState::Done));
    let (_, a) = renew_step(start("enter", "401"), RenewEvent::Begin);
    assert!(is_continue(&a, |n| matches!(n, RenewNote::NotRequested)));
}

#[test]
fn renewal_skips_other_providers() {
    let (_, a) = renew_step(RenewState::ReadingProvider, RenewEvent::Provider("openai".to_string()));
    assert!(is_continue(&a, |n| matches!(n, RenewNote::OtherProvider(p) if p == "openai")));
}

#[test]
fn renewal_needs_both_keys() {
    let missing = |a: &RenewAction| {
        matches!(a, RenewAction::Report(r) if matches!(r.event, HostEvent::AkskMissing)
            && r.message == "Failed to read HW_ACCESS_KEY or HW_SECRET_KEY from keyring when renewing")
    };
    let (s, a) = renew_step(RenewState::ReadingAccessKey, RenewEvent::KeyringValue(Ok(String::new())));
    assert!(missing(&a));
    let (_, a) = renew_step(s, RenewEvent::Reported);
    assert!(is_continue(&a, |n| matches!(n, RenewNote::CredentialsMissing)));
    let s = RenewState::ReadingSecretKey { ak: "ak".to_string() };
    let (s, a) = renew_step(s, RenewEvent::KeyringValue(Err("missing".to_string())));
    assert!(missing(&a));
    let (_, a) = renew_step(s, RenewEvent::Reported);
    assert!(is_continue(&a, |n| matches!(n, RenewNote::CredentialsMissing)));
}

#[test]
fn renewal_without_configuration() {
    let (_, a) = renew_step(RenewState::Fetching, RenewEvent::Models(None));
    assert!(is_continue(&a, |n| matches!(n, RenewNote::FetchFailed)));
    let empty =
        AgentConfig { api_key: "k".to_string(), base_url: "u".to_string(), models: vec![], embedding_models: vec![] };
    let (_, a) = renew_step(RenewState::Fetching, RenewEvent::Models(Some(empty)));
    assert!(is_continue(&a, |n| matches!(n, RenewNote::Renewed)));
    let only_embedding = AgentConfig {
        api_key: "k\"".to_string(),
        base_url: "u".to_string(),
        models: vec![],
        embedding_models: vec![EmbeddingModel { model_id: "e".to_string() }],
    };
    let (_, a) = renew_step(RenewState::Fetching, RenewEvent::Models(Some(only_embedding)));
    assert!(matches!(a, RenewAction::SetEmbeddingConfig { ref model_id, ref config }
        if model_id == "e" && config == "{\"base_url\":\"u\",\"api_key\":\"k\\\"\",\"model\":\"e\"}"));
}

#[test]
fn renewal_ignores_unexpected_events() {
    let (s, a) = renew_step(RenewState::Fetching, RenewEvent::Begin);
    assert!(matches!(a, RenewAction::Ignore));
    assert!(matches!(s, RenewState::Fetching));
}
