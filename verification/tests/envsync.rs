use openagent_plugins::envsync::{sync_job, sync_step, JobInfo, SyncAction, SyncEvent, SyncState};

fn job() -> JobInfo {
    JobInfo { id: "sync-hw-creds".to_string(), scheduled_at: "2024-01-01T00:00:00Z".to_string() }
}

fn describe(a: &SyncAction) -> String {
    match a {
        SyncAction::ReadKeyring(n) => format!("read {}", n),
        SyncAction::SetEnv(n, v) => format!("set {}={}", n, v),
        SyncAction::UnsetEnv(n) => format!("unset {}", n),
        SyncAction::Finish(Ok(m)) => format!("ok {}", m),
        SyncAction::Finish(Err(e)) => format!("err {}", e),
        SyncAction::Ignore => "ignore".to_string(),
    }
}

fn run(events: Vec<SyncEvent>) -> Vec<String> {
    let mut state = SyncState::Start { job: job() };
    let mut out = Vec::new();
    for e in events {
        let (next, action) = sync_step(state, e);
        out.push(describe(&action));
        state = next;
    }
    out
}

fn kv(v: &str) -> SyncEvent {
    SyncEvent::KeyringValue(Ok(v.to_string()))
}

fn env_ok() -> SyncEvent {
    SyncEvent::EnvUpdated(Ok(()))
}

#[test]
fn declared_job() {
    let j = sync_job();
    assert_eq!(j.id, "sync-hw-creds");
    assert_eq!(j.cron, "*/1 * * * *");
    assert_eq!(j.description, "sync Huawei AK/SK from keyring to host env");
}

#[test]
fn full_run_with_token() {
    let trace = run(vec![SyncEvent::Begin, kv("AKID"), kv("sécret"), env_ok(), env_ok(), kv("tok"), env_ok()]);
    assert_eq!(
        trace,
        vec![
            "read HW_ACCESS_KEY",
            "read HW_SECRET_KEY",
            "set HW_ACCESS_KEY=AKID",
            "set HW_SECRET_KEY=sécret",
            "read HW_SECURITY_TOKEN",
            "set HW_SECURITY_TOKEN=tok",
            "ok job sync-hw-creds at 2024-01-01T00:00:00Z: synced AK/SK (4+7 bytes)",
        ]
    );
}

#[test]
fn missing_token_is_cleared() {
    let trace = run(vec![
        SyncEvent::Begin,
        kv("a"),
        kv("b"),
        env_ok(),
        env_ok(),
        SyncEvent::KeyringValue(Err("not found".to_string())),
        env_ok(),
    ]);
    assert_eq!(trace[5], "unset HW_SECURITY_TOKEN");
    assert_eq!(trace[6], "ok job sync-hw-creds at 2024-01-01T00:00:00Z: synced AK/SK (1+1 bytes)");
    let trace = run(vec![SyncEvent::Begin, kv("a"), kv("b"), env_ok(), env_ok(), kv(""), env_ok()]);
    assert_eq!(trace[5], "unset HW_SECURITY_TOKEN");
}

#[test]
fn empty_or_unreadable_keys_end_the_run() {
    assert_eq!(run(vec![SyncEvent::Begin, kv("")])[1], "err HW_ACCESS_KEY not found in keyring");
    assert_eq!(run(vec![SyncEvent::Begin, kv("a"), kv("")])[2], "err HW_SECRET_KEY not found in keyring");
    assert_eq!(
        run(vec![SyncEvent::Begin, SyncEvent::KeyringValue(Err("locked".to_string()))])[1],
        "err locked"
    );
}

#[test]
fn failed_env_update_ends_the_run() {
    let trace = run(vec![
        SyncEvent::Begin,
        kv("a"),
        kv("b"),
        SyncEvent::EnvUpdated(Err("denied".to_string())),
        env_ok(),
    ]);
    assert_eq!(trace[3], "err denied");
    assert_eq!(trace[4], "ignore");
}

#[test]
fn unexpected_events_are_ignored() {
    let trace = run(vec![env_ok(), SyncEvent::Begin, SyncEvent::Begin, kv("a")]);
    assert_eq!(trace, vec!["ignore", "read HW_ACCESS_KEY", "ignore", "read HW_SECRET_KEY"]);
}
