use openagent_plugins::events::HostEvent;
use openagent_plugins::settings::{
    extended_settings, init_step, merge_settings, models_settings, InitAction, InitEvent, InitState,
};
use openagent_plugins::tokenhub::{AgentConfig, ModelInfo};

fn config(ids: &[&str]) -> AgentConfig {
    AgentConfig {
        api_key: "k".to_string(),
        base_url: "u".to_string(),
        models: ids
            .iter()
            .map(|id| ModelInfo {
                model_id: id.to_string(),
                model_name: String::new(),
                context_window: 131072,
                max_tokens: 65536,
            })
            .collect(),
        embedding_models: vec![],
    }
}

const ENV: &str = "\"env\":{\"HW_ACCESS_KEY\":\"ak\",\"HW_SECRET_KEY\":\"sk\"}}";

#[test]
fn merge_into_empty_object_without_config() {
    assert_eq!(merge_settings("{}", None, "ak", "sk", None), format!("{{{}", ENV));
}

#[test]
fn merge_into_empty_text() {
    assert_eq!(merge_settings("", None, "ak", "sk", Some("")), ENV);
}

#[test]
fn merge_adds_provider_default_model_and_token() {
    let cfg = config(&["glm-5"]);
    let out = merge_settings("{\"theme\":\"dark\"}\n", Some(&cfg), "ak", "sk", Some("tok"));
    assert_eq!(
        out,
        "{\"theme\":\"dark\",\"provider\":{\"huawei-free\":{\"api_key\":\"k\",\"base_url\":\"u\",\
         \"models\":[\"glm-5\"]}},\
         \"model\":\"huawei-free/glm-5\",\
         \"env\":{\"HW_ACCESS_KEY\":\"ak\",\"HW_SECRET_KEY\":\"sk\",\"HW_SECURITY_TOKEN\":\"tok\"}}"
    );
    let parsed: serde_json::Value = serde_json::from_str(&out).expect("valid JSON");
    assert_eq!(parsed["model"], "huawei-free/glm-5");
    assert_eq!(parsed["provider"]["huawei-free"]["models"][0], "glm-5");
}

#[test]
fn merge_keeps_an_existing_model_choice() {
    let cfg = config(&["a", "b"]);
    let out = merge_settings("{\"model\":\"x/y\"}", Some(&cfg), "ak", "sk", None);
    assert_eq!(
        out,
        "{\"model\":\"x/y\",\"provider\":{\"huawei-free\":{\"api_key\":\"k\",\"base_url\":\"u\",\
         \"models\":[\"a\",\"b\"]}},"
            .to_string()
            + ENV
    );
}

#[test]
fn merge_with_empty_model_list() {
    let cfg = config(&[]);
    let out = merge_settings("{ }", Some(&cfg), "ak", "sk", None);
    assert_eq!(
        out,
        "{ \"provider\":{\"huawei-free\":{\"api_key\":\"k\",\"base_url\":\"u\",\"models\":[]}},\"model\":\"huawei-free/\","
            .to_string()
            + ENV
    );
}

#[test]
fn models_settings_needs_both_keys() {
    assert_eq!(models_settings("{}", None, Some("sk"), None, None), "{}");
    assert_eq!(models_settings("{}", Some("ak"), None, None, None), "{}");
    assert_eq!(models_settings("{}", Some("ak"), Some("sk"), None, None), format!("{{{}", ENV));
}

#[test]
fn extended_settings_lists_trimmed_model_names() {
    let out = extended_settings("{}", Some("k"), Some("u"), Some(" a, ,b ,"));
    assert_eq!(
        out,
        "{\"provider\":{\"my_provider\":{\"api_key\":\"k\",\"base_url\":\"u\",\"models\":[\"a\",\"b\"]}},\
         \"env\":{\"MY_PROVIDER_API_KEY\":\"k\"}}"
    );
}

#[test]
fn extended_settings_after_existing_fields() {
    let out = extended_settings("{\"x\":1}  ", Some("k"), Some("u"), None);
    assert_eq!(
        out,
        "{\"x\":1,\"provider\":{\"my_provider\":{\"api_key\":\"k\",\"base_url\":\"u\",\"models\":[]}},\
         \"env\":{\"MY_PROVIDER_API_KEY\":\"k\"}}"
    );
}

#[test]
fn extended_settings_on_empty_text_starts_with_comma() {
    let out = extended_settings("", Some("k"), Some("u"), Some("m"));
    assert_eq!(
        out,
        ",\"provider\":{\"my_provider\":{\"api_key\":\"k\",\"base_url\":\"u\",\"models\":[\"m\"]}},\
         \"env\":{\"MY_PROVIDER_API_KEY\":\"k\"}}"
    );
}

#[test]
fn extended_settings_without_credentials_is_unchanged() {
    assert_eq!(extended_settings("{\"a\":1}", None, Some("u"), Some("m")), "{\"a\":1}");
    assert_eq!(extended_settings("{\"a\":1}", Some("k"), None, None), "{\"a\":1}");
}

fn init_finish(a: InitAction) -> (String, Option<(bool, String)>) {
    match a {
        InitAction::Finish { settings, report } => (
            settings,
            report.map(|r| (matches!(r.event, HostEvent::AkskMissing), r.message)),
        ),
        _ => panic!("expected the end"),
    }
}

#[test]
fn init_reports_missing_access_key() {
    let (s, a) = init_step(InitState::Start { settings: "{\"a\":1}".to_string() }, InitEvent::Begin);
    assert!(matches!(a, InitAction::ReadKeyring(ref k) if k == "HW_ACCESS_KEY"));
    let (s, a) = init_step(s, InitEvent::KeyringValue(Err("no entry".to_string())));
    assert!(matches!(s, InitState::Done));
    assert_eq!(
        init_finish(a),
        (
            "{\"a\":1}".to_string(),
            Some((true, "Failed to read HW_ACCESS_KEY from keyring when fetching models".to_string()))
        )
    );
}

#[test]
fn init_reports_missing_secret_key() {
    let s = InitState::ReadingAccessKey { settings: "{}".to_string() };
    let (s, a) = init_step(s, InitEvent::KeyringValue(Ok("ak".to_string())));
    assert!(matches!(a, InitAction::ReadKeyring(ref k) if k == "HW_SECRET_KEY"));
    let (_, a) = init_step(s, InitEvent::KeyringValue(Ok(String::new())));
    assert_eq!(
        init_finish(a),
        ("{}".to_string(), Some((true, "Failed to read HW_SECRET_KEY from keyring when fetching models".to_string())))
    );
}

#[test]
fn init_merges_the_fetched_models() {
    let s = InitState::ReadingSecretKey { settings: "{}".to_string(), ak: "ak".to_string() };
    let (s, a) = init_step(s, InitEvent::KeyringValue(Ok("sk".to_string())));
    assert!(matches!(a, InitAction::ReadKeyring(ref k) if k == "HW_SECURITY_TOKEN"));
    let (s, a) = init_step(s, InitEvent::KeyringValue(Ok("tok".to_string())));
    match a {
        InitAction::FetchModels { ak, sk, security_token } => {
            assert_eq!((ak.as_str(), sk.as_str(), security_token.as_deref()), ("ak", "sk", Some("tok")));
        }
        _ => panic!("expected a fetch"),
    }
    let cfg = config(&["glm-5"]);
    let expected = merge_settings("{}", Some(&cfg), "ak", "sk", Some("tok"));
    let (s, a) = init_step(s, InitEvent::Models(Some(cfg)));
    assert!(matches!(s, InitState::Done));
    assert_eq!(init_finish(a), (expected, None));
}

#[test]
fn init_without_configuration_still_injects_credentials() {
    let s = InitState::Fetching {
        settings: "{}".to_string(),
        ak: "ak".to_string(),
        sk: "sk".to_string(),
        security_token: None,
    };
    let (_, a) = init_step(s, InitEvent::Models(None));
    assert_eq!(init_finish(a), (format!("{{{}", ENV), None));
}
