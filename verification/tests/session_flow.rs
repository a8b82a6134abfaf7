use openagent_plugins::openviking::{CreateSessionResp, CreateSessionResult};
use openagent_plugins::session_flow::{
    session_step, track_step, SessionAction, SessionEvent, SessionState, TrackAction, TrackEvent, TrackState,
};

fn reply(sid: &str, error: Option<&str>) -> Result<CreateSessionResp, String> {
    Ok(CreateSessionResp {
        result: CreateSessionResult { session_id: sid.to_string() },
        error: error.map(|e| e.to_string()),
    })
}

fn finished(a: &SessionAction) -> Option<(Result<String, String>, bool)> {
    match a {
        SessionAction::Finish { result, created } => Some((result.clone(), *created)),
        _ => None,
    }
}

#[test]
fn cached_session_is_reused() {
    let (s, a) = session_step(SessionState::Start, SessionEvent::Begin);
    assert!(matches!(a, SessionAction::ReadSessionId));
    let (s, a) = session_step(s, SessionEvent::SessionId("oa-1".to_string()));
    assert!(matches!(a, SessionAction::ReadKeyring(ref k) if k == "oa-1"));
    let (s, a) = session_step(s, SessionEvent::KeyringValue(Ok("ov-9".to_string())));
    assert_eq!(finished(&a), Some((Ok("ov-9".to_string()), false)));
    assert!(matches!(s, SessionState::Done));
}

#[test]
fn session_is_created_and_cached() {
    let s = SessionState::ReadingCached { oa_sid: "oa-1".to_string() };
    let (s, a) = session_step(s, SessionEvent::KeyringValue(Ok(String::new())));
    assert!(matches!(a, SessionAction::ReadKeyring(ref k) if k == "url"));
    let (s, a) = session_step(s, SessionEvent::KeyringValue(Err("no entry".to_string())));
    match a {
        SessionAction::Post { url, body } => {
            assert_eq!(url, "http://127.0.0.1:1933/api/v1/sessions");
            assert_eq!(body, "{}");
        }
        _ => panic!("expected a request"),
    }
    let (s, a) = session_step(s, SessionEvent::Reply(200, reply("ov-2", None)));
    assert!(matches!(a, SessionAction::WriteKeyring(ref k, ref v) if k == "oa-1" && v == "ov-2"));
    let (s, a) = session_step(s, SessionEvent::Written(Err("locked".to_string())));
    assert_eq!(finished(&a), Some((Ok("ov-2".to_string()), true)));
    assert!(matches!(s, SessionState::Done));
}

#[test]
fn session_without_agent_id_uses_configured_server() {
    let (s, a) = session_step(SessionState::ReadingSessionId, SessionEvent::SessionId(String::new()));
    assert!(matches!(a, SessionAction::ReadKeyring(ref k) if k == "url"));
    let (s, a) = session_step(s, SessionEvent::KeyringValue(Ok("http://ov:8000".to_string())));
    assert!(matches!(a, SessionAction::Post { ref url, .. } if url == "http://ov:8000/api/v1/sessions"));
    let (_, a) = session_step(s, SessionEvent::Reply(200, reply("ov-3", Some(""))));
    assert_eq!(finished(&a), Some((Ok("ov-3".to_string()), true)));
}

#[test]
fn session_creation_errors() {
    let creating = || SessionState::Creating { oa_sid: "oa".to_string() };
    let (_, a) = session_step(creating(), SessionEvent::RequestFailed("refused".to_string()));
    assert_eq!(finished(&a), Some((Err("refused".to_string()), false)));
    let (_, a) = session_step(creating(), SessionEvent::Reply(503, reply("", None)));
    assert_eq!(finished(&a), Some((Err("create_session: status=503".to_string()), false)));
    let (_, a) = session_step(creating(), SessionEvent::Reply(200, Err("eof".to_string())));
    assert_eq!(finished(&a), Some((Err("create_session: parse: eof".to_string()), false)));
    let (_, a) = session_step(creating(), SessionEvent::Reply(200, reply("x", Some("quota"))));
    assert_eq!(finished(&a), Some((Err("quota".to_string()), false)));
    let (_, a) = session_step(creating(), SessionEvent::Reply(200, reply("", None)));
    assert_eq!(finished(&a), Some((Err("create_session: empty session_id".to_string()), false)));
}

#[test]
fn session_ignores_unexpected_events() {
    let (s, a) = session_step(SessionState::Start, SessionEvent::Written(Ok(())));
    assert!(matches!(a, SessionAction::Ignore));
    assert!(matches!(s, SessionState::Start));
}

fn start(content: &str, threshold: u32) -> TrackState {
    TrackState::Start { content: content.to_string(), threshold, keep_recent: 3 }
}

#[test]
fn count_below_threshold_only_stores() {
    let (s, a) = track_step(start("abcdefgh", 100), TrackEvent::Begin);
    assert!(matches!(a, TrackAction::ReadSessionId));
    let (s, a) = track_step(s, TrackEvent::SessionId("oa".to_string()));
    assert!(matches!(a, TrackAction::ReadKeyring(ref k) if k == "tokens_oa"));
    let (s, a) = track_step(s, TrackEvent::KeyringValue(Ok("40".to_string())));
    assert!(matches!(a, TrackAction::WriteKeyring(ref k, ref v) if k == "tokens_oa" && v == "42"));
    let (s, a) = track_step(s, TrackEvent::Written(Ok(())));
    assert!(matches!(a, TrackAction::Finish(None)));
    assert!(matches!(s, TrackState::Done));
}

#[test]
fn count_at_threshold_resets_and_commits() {
    let s = TrackState::ReadingCount {
        key: "tokens_oa".to_string(),
        content: "abcd".to_string(),
        threshold: 10,
        keep_recent: 3,
    };
    let (s, a) = track_step(s, TrackEvent::KeyringValue(Ok("9".to_string())));
    assert!(matches!(a, TrackAction::WriteKeyring(ref k, ref v) if k == "tokens_oa" && v == "10"));
    let (s, a) = track_step(s, TrackEvent::Written(Ok(())));
    assert!(matches!(a, TrackAction::WriteKeyring(ref k, ref v) if k == "tokens_oa" && v == "0"));
    let (s, a) = track_step(s, TrackEvent::Written(Err("locked".to_string())));
    assert!(matches!(a, TrackAction::ResolveSession));
    let (s, a) = track_step(s, TrackEvent::Session(Ok("ov-1".to_string())));
    assert!(matches!(a, TrackAction::Commit { ref session_id, keep_recent: 3 } if session_id == "ov-1"));
    let (_, a) = track_step(s, TrackEvent::Committed(Ok(())));
    match a {
        TrackAction::Finish(Some(line)) => {
            assert!(!line.warn);
            assert_eq!(line.text, "openviking: committed session ov-1 at 10 tokens");
        }
        _ => panic!("expected a log line"),
    }
}

#[test]
fn commit_failures_are_logged_as_warnings() {
    let (_, a) = track_step(
        TrackState::ResolvingSession { total: 5, keep_recent: 1 },
        TrackEvent::Session(Err("down".to_string())),
    );
    assert!(matches!(a, TrackAction::Finish(Some(ref l))
        if l.warn && l.text == "openviking: commit: cannot get session: down"));
    let (_, a) = track_step(
        TrackState::Committing { sid: "ov".to_string(), total: 5 },
        TrackEvent::Committed(Err("commit: status=500".to_string())),
    );
    assert!(matches!(a, TrackAction::Finish(Some(ref l))
        if l.warn && l.text == "openviking: commit failed: commit: status=500"));
}

#[test]
fn unreadable_count_starts_from_zero() {
    let s = TrackState::ReadingCount {
        key: "tokens_".to_string(),
        content: "x".repeat(17),
        threshold: 5,
        keep_recent: 0,
    };
    let (_, a) = track_step(s, TrackEvent::KeyringValue(Ok("n/a".to_string())));
    assert!(matches!(a, TrackAction::WriteKeyring(_, ref v) if v == "4"));
}
