use openagent_plugins::openviking::{
    add_message_body, base_url_from, commit_body, commit_url, extract_text, memory_init_writes,
    messages_url, pick_search_texts, reply_outcome, search_body, search_from_reply, search_limit,
    search_url, session_from_reply, sessions_url, token_key, track_tokens, ContentPart,
    CreateSessionResp, CreateSessionResult, SearchEntry, SearchReply,
};
use openagent_plugins::text::parse_u32;

#[test]
fn base_url_prefers_configured_value() {
    assert_eq!(base_url_from(Ok("http://ov:8080".to_string())), "http://ov:8080");
    assert_eq!(base_url_from(Ok(String::new())), "http://127.0.0.1:1933");
    assert_eq!(base_url_from(Err("missing".to_string())), "http://127.0.0.1:1933");
}

#[test]
fn endpoints() {
    assert_eq!(sessions_url("http://b"), "http://b/api/v1/sessions");
    assert_eq!(messages_url("http://b", "s1"), "http://b/api/v1/sessions/s1/messages");
    assert_eq!(commit_url("http://b", "s1"), "http://b/api/v1/sessions/s1/commit");
    assert_eq!(search_url("http://b"), "http://b/api/v1/search/search");
}

#[test]
fn bodies_quote_text_as_json() {
    assert_eq!(
        add_message_body("user", "say \"hi\"\n"),
        "{\"role\":\"user\",\"content\":\"say \\\"hi\\\"\\n\"}"
    );
    assert_eq!(
        search_body("q\\", "s1", 10),
        "{\"query\":\"q\\\\\",\"session_id\":\"s1\",\"limit\":10}"
    );
    assert_eq!(commit_body(3), "{\"keep_recent_count\":3}");
}

#[test]
fn add_message_body_is_valid_json() {
    let content = "line1\nline2\t\u{1} \"q\" ü";
    let body = add_message_body("assistant", content);
    let v: serde_json::Value = serde_json::from_str(&body).expect("valid JSON");
    assert_eq!(v["content"], content);
    assert_eq!(v["role"], "assistant");
}

#[test]
fn reply_outcomes() {
    assert_eq!(reply_outcome("commit", 200, Ok(None)), Ok(()));
    assert_eq!(reply_outcome("commit", 200, Ok(Some(String::new()))), Ok(()));
    assert_eq!(reply_outcome("commit", 503, Ok(None)), Err("commit: status=503".to_string()));
    assert_eq!(
        reply_outcome("add_message", 200, Err("expected value".to_string())),
        Err("add_message: parse: expected value".to_string())
    );
    assert_eq!(reply_outcome("commit", 200, Ok(Some("boom".to_string()))), Err("boom".to_string()));
}

fn created(sid: &str, err: Option<&str>) -> CreateSessionResp {
    CreateSessionResp {
        result: CreateSessionResult { session_id: sid.to_string() },
        error: err.map(|e| e.to_string()),
    }
}

#[test]
fn session_from_reply_outcomes() {
    assert_eq!(session_from_reply(200, Ok(created("abc", None))), Ok("abc".to_string()));
    assert_eq!(
        session_from_reply(200, Ok(created("", None))),
        Err("create_session: empty session_id".to_string())
    );
    assert_eq!(session_from_reply(200, Ok(created("abc", Some("bad")))), Err("bad".to_string()));
    assert_eq!(session_from_reply(404, Ok(created("abc", None))), Err("create_session: status=404".to_string()));
    assert_eq!(
        session_from_reply(200, Err("eof".to_string())),
        Err("create_session: parse: eof".to_string())
    );
}

#[test]
fn search_from_reply_outcomes() {
    let ok = SearchReply { error: None, result: Ok("{\"memories\":[]}".to_string()) };
    assert_eq!(search_from_reply(200, Ok(ok)), Ok("{\"memories\":[]}".to_string()));
    let bad = SearchReply { error: None, result: Err("oops".to_string()) };
    assert_eq!(search_from_reply(200, Ok(bad)), Err("search: serialize: oops".to_string()));
    let err = SearchReply { error: Some("down".to_string()), result: Ok("null".to_string()) };
    assert_eq!(search_from_reply(200, Ok(err)), Err("down".to_string()));
    let ok2 = SearchReply { error: None, result: Ok("null".to_string()) };
    assert_eq!(search_from_reply(500, Ok(ok2)), Err("search: status=500".to_string()));
}

#[test]
fn token_tracking_counts_bytes_and_saturates() {
    assert_eq!(token_key("s1"), "tokens_s1");
    let u = track_tokens("abcdefgh", Ok("10".to_string()), 100);
    assert_eq!((u.total, u.stored.as_str(), u.commit), (12, "12", false));
    let u = track_tokens("ééé", Err("missing".to_string()), 1);
    assert_eq!((u.total, u.commit), (1, true));
    let u = track_tokens("abcd", Ok("junk".to_string()), 1);
    assert_eq!(u.total, 1);
    let u = track_tokens("abcdefgh", Ok("4294967295".to_string()), u32::MAX);
    assert_eq!((u.total, u.commit), (u32::MAX, true));
}

#[test]
fn stored_count_reads_back() {
    let u = track_tokens(&"x".repeat(400), Ok("5".to_string()), 1000);
    let again = track_tokens("", Ok(u.stored.clone()), 1000);
    assert_eq!(again.total, u.total);
    assert_eq!(parse_u32(&u.stored), Some(105));
}

fn part(t: &str, text: &str) -> ContentPart {
    ContentPart { part_type: t.to_string(), text: text.to_string() }
}

#[test]
fn extract_text_rules() {
    assert_eq!(extract_text("tool", "result", &[]), None);
    assert_eq!(extract_text("user", "hello", &[part("text", "ignored")]), Some("hello".to_string()));
    let parts = [part("text", "a"), part("image", "x"), part("text", ""), part("text", "b")];
    assert_eq!(extract_text("assistant", "", &parts), Some("a\nb".to_string()));
    assert_eq!(extract_text("assistant", "", &[part("image", "x")]), None);
    assert_eq!(extract_text("assistant", "", &[]), None);
}

#[test]
fn search_limit_defaults_to_ten() {
    assert_eq!(search_limit(0), 10);
    assert_eq!(search_limit(-3), 10);
    assert_eq!(search_limit(25), 25);
}

fn entry(overview: Option<&str>, abs: Option<&str>) -> SearchEntry {
    SearchEntry { overview: overview.map(|s| s.to_string()), abstract_text: abs.map(|s| s.to_string()) }
}

#[test]
fn search_picks_memories_then_resources() {
    let memories = vec![
        entry(Some("ov"), Some("ab")),
        entry(None, Some("only abstract")),
        entry(Some(""), Some("shadowed")),
        entry(None, None),
    ];
    let resources = vec![entry(Some("ignored"), None), entry(None, Some("res"))];
    let picks = pick_search_texts(&memories, &resources);
    let got: Vec<(bool, usize, &str)> =
        picks.iter().map(|p| (p.from_resources, p.index, p.text.as_str())).collect();
    assert_eq!(got, vec![(false, 0, "ov"), (false, 1, "only abstract"), (true, 1, "res")]);
}

#[test]
fn memory_init_writes_nonempty_values() {
    let w = memory_init_writes(Some("http://ov"), Some(""));
    assert_eq!(w, vec![("url".to_string(), "http://ov".to_string())]);
    let w = memory_init_writes(None, Some("key"));
    assert_eq!(w, vec![("api_key".to_string(), "key".to_string())]);
    assert!(memory_init_writes(None, None).is_empty());
}
