use openagent_plugins::tokenhub::{EmbeddingModel, 
    authorization, build_headers, canonical_request, known_limits, models_from_response,
    models_request, override_limits, sign_request, string_to_sign, AgentConfig, ApiResponse,
    ModelInfo, API_PATH_SIGN, DEFAULT_DOMAIN,
};

fn model(id: &str, cw: u64, mt: u64) -> ModelInfo {
    ModelInfo {
        model_id: id.to_string(),
        model_name: format!("{} name", id),
        context_window: cw,
        max_tokens: mt,
    }
}

#[test]
fn known_limits_table() {
    assert_eq!(known_limits("glm-5.2"), Some((131072, 131072)));
    assert_eq!(known_limits("glm-5"), Some((131072, 65536)));
    assert_eq!(known_limits("openpangu-2.0-flash"), Some((512000, 131072)));
    assert_eq!(known_limits("deepseek-r1-250528"), Some((98304, 32768)));
    assert_eq!(known_limits("DeepSeek-V3"), Some((131072, 32768)));
    assert_eq!(known_limits("deepseek-v3"), None);
}

#[test]
fn override_limits_sets_known_models_only() {
    let mut ms = vec![model("glm-5", 1, 2), model("other", 3, 4), model("deepseek-v3.2", 0, 0)];
    override_limits(&mut ms);
    assert_eq!((ms[0].context_window, ms[0].max_tokens), (131072, 65536));
    assert_eq!((ms[1].context_window, ms[1].max_tokens), (3, 4));
    assert_eq!((ms[2].context_window, ms[2].max_tokens), (131072, 32768));
    assert_eq!(ms[1].model_id, "other");
    assert_eq!(ms[0].model_name, "glm-5 name");
}

#[test]
fn override_limits_is_idempotent() {
    let mut once = vec![model("glm-5.1", 9, 9), model("x", 5, 6)];
    override_limits(&mut once);
    let first: Vec<(u64, u64)> = once.iter().map(|m| (m.context_window, m.max_tokens)).collect();
    override_limits(&mut once);
    let second: Vec<(u64, u64)> = once.iter().map(|m| (m.context_window, m.max_tokens)).collect();
    assert_eq!(first, second);
}

#[test]
fn canonical_request_layout() {
    let c = canonical_request("/p/", "h.example", "20231114T221320Z", "abc");
    assert_eq!(c, "GET\n/p/\n\nhost:h.example\nx-sdk-date:20231114T221320Z\n\nhost;x-sdk-date\nabc");
    assert_eq!(string_to_sign("T", "H"), "SDK-HMAC-SHA256\nT\nH");
    assert_eq!(
        authorization("ak", "sig"),
        "SDK-HMAC-SHA256 Access=ak, SignedHeaders=host;x-sdk-date, Signature=sig"
    );
}

#[test]
fn sign_request_known_signature() {
    let auth = sign_request("my-ak", "my-sk", DEFAULT_DOMAIN, API_PATH_SIGN, "20231114T221320Z");
    assert_eq!(
        auth,
        "SDK-HMAC-SHA256 Access=my-ak, SignedHeaders=host;x-sdk-date, \
         Signature=fca33562df0fb70915162c27137e6a72f51c843c31587ffc5940285ea1adc57c"
    );
}

#[test]
fn build_headers_with_and_without_token() {
    let base = "{\"Authorization\":\"A\",\"host\":\"H\",\"x-sdk-date\":\"T\",\"content-type\":\"application/json\"";
    assert_eq!(build_headers("A", "H", "T", None), format!("{}}}", base));
    assert_eq!(build_headers("A", "H", "T", Some("")), format!("{}}}", base));
    assert_eq!(
        build_headers("A", "H", "T", Some("tok")),
        format!("{},\"X-Security-Token\":\"tok\"}}", base)
    );
}

#[test]
fn models_request_is_signed_at_the_given_instant() {
    let r = models_request("my-ak", "my-sk", Some("tok"), 1_700_000_000_000_000_123);
    assert_eq!(r.url, "https://devstation.myhuaweicloud.com/open-api-public/v1/tokenhub-configs");
    let auth = sign_request("my-ak", "my-sk", DEFAULT_DOMAIN, API_PATH_SIGN, "20231114T221320Z");
    assert_eq!(r.headers, build_headers(&auth, DEFAULT_DOMAIN, "20231114T221320Z", Some("tok")));
}

fn reply(code: &str) -> ApiResponse {
    ApiResponse {
        error_code: code.to_string(),
        error_msg: String::new(),
        result: AgentConfig {
            api_key: "key".to_string(),
            base_url: "https://llm".to_string(),
            models: vec![model("glm-5", 0, 0), model("custom", 10, 20)],
            embedding_models: vec![EmbeddingModel { model_id: "bge-m3".to_string() }],
        },
    }
}

#[test]
fn models_from_response_accepts_success() {
    let cfg = models_from_response(200, Some(reply("0000"))).expect("config");
    assert_eq!(cfg.api_key, "key");
    assert_eq!(cfg.base_url, "https://llm");
    assert_eq!(cfg.models.len(), 2);
    assert_eq!((cfg.models[0].context_window, cfg.models[0].max_tokens), (131072, 65536));
    assert_eq!((cfg.models[1].context_window, cfg.models[1].max_tokens), (10, 20));
    assert_eq!(cfg.embedding_models.len(), 1);
    assert_eq!(cfg.embedding_models[0].model_id, "bge-m3");
}

#[test]
fn models_from_response_refuses_failures() {
    assert!(models_from_response(500, Some(reply("0000"))).is_none());
    assert!(models_from_response(200, None).is_none());
    assert!(models_from_response(200, Some(reply("1001"))).is_none());
}
