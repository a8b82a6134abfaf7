//! The two OpenViking flows that alternate host calls and decisions, as
//! state machines: finding (or creating) the memory session of the current
//! agent session, and counting tokens until the session is committed. Each
//! step takes the outcome of the previous host call and names the next one.
use vstd::prelude::*;
use crate::envsync::byte_len;
use crate::openviking::{
    base_url_chars, base_url_from, session_from_reply, session_from_reply_spec, sessions_url, stored_count,
    string_result_view, token_key, track_tokens, CreateSessionResp,
};
use crate::text::{decimal, nonempty_ok, nonempty_value, push_chars, push_decimal};

verus! {

/// The keyring entry (under the OpenViking service) that holds the server URL.
pub const URL_KEY: &'static str = "url";

/// Where the search for the memory session stands.
pub enum SessionState {
    /// Nothing done yet.
    Start,
    /// The id of the agent session has been asked of the host.
    ReadingSessionId,
    /// The memory session cached for agent session `oa_sid` has been asked of the keyring.
    ReadingCached { oa_sid: String },
    /// The server URL has been asked of the keyring.
    ReadingBaseUrl { oa_sid: String },
    /// A session has been requested from the server.
    Creating { oa_sid: String },
    /// The new session `sid` is being cached in the keyring.
    Storing { sid: String },
    /// The search has ended.
    Done,
}

/// What the host reported.
pub enum SessionEvent {
    /// The search is to start.
    Begin,
    /// The id of the agent session (empty where the host has none).
    SessionId(String),
    /// A keyring read returned.
    KeyringValue(Result<String, String>),
    /// The request could not be made.
    RequestFailed(String),
    /// The server replied with this status; the body parsed (or not).
    Reply(u16, Result<CreateSessionResp, String>),
    /// A keyring write returned.
    Written(Result<(), String>),
}

/// What the host is to do next.
pub enum SessionAction {
    /// Ask for the id of the agent session.
    ReadSessionId,
    /// Read an entry of the OpenViking keyring service.
    ReadKeyring(String),
    /// Send a JSON `POST` with this body to this URL.
    Post { url: String, body: String },
    /// Write an entry of the OpenViking keyring service.
    WriteKeyring(String, String),
    /// End the search: the session id or the error, and whether the session
    /// was created by this search.
    Finish { result: Result<String, String>, created: bool },
    /// Nothing: the event does not belong to this state.
    Ignore,
}

/// The abstract state of the search.
pub enum SessionStateView {
    Start,
    ReadingSessionId,
    ReadingCached(Seq<char>),
    ReadingBaseUrl(Seq<char>),
    Creating(Seq<char>),
    Storing(Seq<char>),
    Done,
}

/// The abstract action.
pub enum SessionActionView {
    ReadSessionId,
    ReadKeyring(Seq<char>),
    Post(Seq<char>, Seq<char>),
    WriteKeyring(Seq<char>, Seq<char>),
    Finish(Result<Seq<char>, Seq<char>>, bool),
    Ignore,
}

impl View for SessionState {
    type V = SessionStateView;

    open spec fn view(&self) -> SessionStateView {
        match self {
            SessionState::Start => SessionStateView::Start,
            SessionState::ReadingSessionId => SessionStateView::ReadingSessionId,
            SessionState::ReadingCached { oa_sid } => SessionStateView::ReadingCached(oa_sid@),
            SessionState::ReadingBaseUrl { oa_sid } => SessionStateView::ReadingBaseUrl(oa_sid@),
            SessionState::Creating { oa_sid } => SessionStateView::Creating(oa_sid@),
            SessionState::Storing { sid } => SessionStateView::Storing(sid@),
            SessionState::Done => SessionStateView::Done,
        }
    }
}

impl View for SessionAction {
    type V = SessionActionView;

    open spec fn view(&self) -> SessionActionView {
        match self {
            SessionAction::ReadSessionId => SessionActionView::ReadSessionId,
            SessionAction::ReadKeyring(k) => SessionActionView::ReadKeyring(k@),
            SessionAction::Post { url, body } => SessionActionView::Post(url@, body@),
            SessionAction::WriteKeyring(k, v) => SessionActionView::WriteKeyring(k@, v@),
            SessionAction::Finish { result, created } => SessionActionView::Finish(
                string_result_view(*result),
                *created,
            ),
            SessionAction::Ignore => SessionActionView::Ignore,
        }
    }
}

/// The request that creates a session on the server whose URL the keyring
/// returned.
pub open spec fn create_request(stored_url: Result<String, String>) -> SessionActionView {
    SessionActionView::Post(base_url_chars(stored_url) + "/api/v1/sessions"@, "{}"@)
}

/// The search's steps. With an agent session id, the memory session cached
/// under it is used where the keyring holds a non-empty one. Otherwise the
/// server URL is read and a session is created; a failed request, a status
/// other than 200, a body that does not parse, a reported error or an empty
/// session id ends the search with that error. A created session is cached
/// under the agent session id, where there is one, whatever the write
/// returns. Any other event is ignored.
pub open spec fn session_transition(s: SessionStateView, e: SessionEvent) -> (SessionStateView, SessionActionView) {
    match (s, e) {
        (SessionStateView::Start, SessionEvent::Begin) => (
            SessionStateView::ReadingSessionId,
            SessionActionView::ReadSessionId,
        ),
        (SessionStateView::ReadingSessionId, SessionEvent::SessionId(oa)) => if oa@.len() > 0 {
            (SessionStateView::ReadingCached(oa@), SessionActionView::ReadKeyring(oa@))
        } else {
            (SessionStateView::ReadingBaseUrl(oa@), SessionActionView::ReadKeyring(URL_KEY@))
        },
        (SessionStateView::ReadingCached(oa), SessionEvent::KeyringValue(r)) => match nonempty_ok(r) {
            Some(id) => (SessionStateView::Done, SessionActionView::Finish(Ok(id), false)),
            None => (SessionStateView::ReadingBaseUrl(oa), SessionActionView::ReadKeyring(URL_KEY@)),
        },
        (SessionStateView::ReadingBaseUrl(oa), SessionEvent::KeyringValue(r)) => (
            SessionStateView::Creating(oa),
            create_request(r),
        ),
        (SessionStateView::Creating(_), SessionEvent::RequestFailed(err)) => (
            SessionStateView::Done,
            SessionActionView::Finish(Err(err@), false),
        ),
        (SessionStateView::Creating(oa), SessionEvent::Reply(status, parsed)) => match session_from_reply_spec(
            status,
            parsed,
        ) {
            Err(err) => (SessionStateView::Done, SessionActionView::Finish(Err(err), false)),
            Ok(sid) => if oa.len() > 0 {
                (SessionStateView::Storing(sid), SessionActionView::WriteKeyring(oa, sid))
            } else {
                (SessionStateView::Done, SessionActionView::Finish(Ok(sid), true))
            },
        },
        (SessionStateView::Storing(sid), SessionEvent::Written(_)) => (
            SessionStateView::Done,
            SessionActionView::Finish(Ok(sid), true),
        ),
        (s, _) => (s, SessionActionView::Ignore),
    }
}

/// One step of the search for the memory session.
pub fn session_step(state: SessionState, event: SessionEvent) -> (r: (SessionState, SessionAction))
    ensures
        (r.0@, r.1@) == session_transition(state@, event),
{
    match (state, event) {
        (SessionState::Start, SessionEvent::Begin) => (SessionState::ReadingSessionId, SessionAction::ReadSessionId),
        (SessionState::ReadingSessionId, SessionEvent::SessionId(oa_sid)) => if oa_sid.as_str().is_empty() {
            (SessionState::ReadingBaseUrl { oa_sid }, SessionAction::ReadKeyring(String::from_str(URL_KEY)))
        } else {
            let key = oa_sid.clone();
            (SessionState::ReadingCached { oa_sid }, SessionAction::ReadKeyring(key))
        },
        (SessionState::ReadingCached { oa_sid }, SessionEvent::KeyringValue(r)) => match nonempty_value(r) {
            Some(id) => (SessionState::Done, SessionAction::Finish { result: Ok(id), created: false }),
            None => (SessionState::ReadingBaseUrl { oa_sid }, SessionAction::ReadKeyring(String::from_str(URL_KEY))),
        },
        (SessionState::ReadingBaseUrl { oa_sid }, SessionEvent::KeyringValue(r)) => {
            let base = base_url_from(r);
            let url = sessions_url(base.as_str());
            (SessionState::Creating { oa_sid }, SessionAction::Post { url, body: String::from_str("{}") })
        },
        (SessionState::Creating { oa_sid }, SessionEvent::RequestFailed(err)) => {
            (SessionState::Done, SessionAction::Finish { result: Err(err), created: false })
        },
        (SessionState::Creating { oa_sid }, SessionEvent::Reply(status, parsed)) => match session_from_reply(
            status,
            parsed,
        ) {
            Err(err) => (SessionState::Done, SessionAction::Finish { result: Err(err), created: false }),
            Ok(sid) => if oa_sid.as_str().is_empty() {
                (SessionState::Done, SessionAction::Finish { result: Ok(sid), created: true })
            } else {
                let value = sid.clone();
                (SessionState::Storing { sid }, SessionAction::WriteKeyring(oa_sid, value))
            },
        },
        (SessionState::Storing { sid }, SessionEvent::Written(_)) => {
            (SessionState::Done, SessionAction::Finish { result: Ok(sid), created: true })
        },
        (state, _) => (state, SessionAction::Ignore),
    }
}

/// A session that the search finds in the keyring is used as it is: no
/// request goes to the server, and nothing is written.
pub proof fn lemma_cached_session_is_reused(oa: Seq<char>, r: Result<String, String>)
    requires
        nonempty_ok(r) is Some,
    ensures
        session_transition(SessionStateView::ReadingCached(oa), SessionEvent::KeyringValue(r)) == (
            SessionStateView::Done,
            SessionActionView::Finish(Ok(nonempty_ok(r)->Some_0), false),
        ),
{
}

/// A session that the search creates is the one the server named, and it is
/// cached under the agent session id before the search reports it.
pub proof fn lemma_created_session_is_cached(oa: Seq<char>, status: u16, parsed: Result<CreateSessionResp, String>)
    requires
        oa.len() > 0,
        session_from_reply_spec(status, parsed) is Ok,
    ensures
        ({
            let sid = session_from_reply_spec(status, parsed)->Ok_0;
            let (n, a) = session_transition(SessionStateView::Creating(oa), SessionEvent::Reply(status, parsed));
            &&& n == SessionStateView::Storing(sid)
            &&& a == SessionActionView::WriteKeyring(oa, sid)
            &&& forall|w: Result<(), String>|
                #[trigger] session_transition(n, SessionEvent::Written(w)) == (
                    SessionStateView::Done,
                    SessionActionView::Finish(Ok(sid), true),
                )
        }),
{
}

/// The actions of a search that starts in state `s` and is handed `events`
/// in turn.
pub open spec fn session_run(s: SessionStateView, events: Seq<SessionEvent>) -> Seq<SessionActionView>
    decreases events.len(),
{
    if events.len() == 0 {
        Seq::empty()
    } else {
        let (n, a) = session_transition(s, events[0]);
        seq![a] + session_run(n, events.drop_first())
    }
}

/// A session created by one search is found by the next: where the agent
/// session has an id and no session is cached, the first search creates the
/// session that the server names, caches it under that id and returns it;
/// a second search for the same agent session, given back what was cached,
/// returns that session at once, with no request to the server.
pub proof fn lemma_created_session_found_again(
    oa: String,
    oa_again: String,
    uncached: Result<String, String>,
    stored_url: Result<String, String>,
    status: u16,
    parsed: Result<CreateSessionResp, String>,
    written: Result<(), String>,
    cached: Result<String, String>,
)
    requires
        oa@.len() > 0,
        oa_again@ == oa@,
        nonempty_ok(uncached) is None,
        session_from_reply_spec(status, parsed) is Ok,
        nonempty_ok(cached) == Some(session_from_reply_spec(status, parsed)->Ok_0),
    ensures
        ({
            let sid = session_from_reply_spec(status, parsed)->Ok_0;
            &&& session_run(
                SessionStateView::Start,
                seq![
                    SessionEvent::Begin,
                    SessionEvent::SessionId(oa),
                    SessionEvent::KeyringValue(uncached),
                    SessionEvent::KeyringValue(stored_url),
                    SessionEvent::Reply(status, parsed),
                    SessionEvent::Written(written),
                ],
            ) == seq![
                SessionActionView::ReadSessionId,
                SessionActionView::ReadKeyring(oa@),
                SessionActionView::ReadKeyring(URL_KEY@),
                create_request(stored_url),
                SessionActionView::WriteKeyring(oa@, sid),
                SessionActionView::Finish(Ok(sid), true),
            ]
            &&& session_run(
                SessionStateView::Start,
                seq![SessionEvent::Begin, SessionEvent::SessionId(oa_again), SessionEvent::KeyringValue(cached)],
            ) == seq![
                SessionActionView::ReadSessionId,
                SessionActionView::ReadKeyring(oa@),
                SessionActionView::Finish(Ok(sid), false),
            ]
        }),
{
    let sid = session_from_reply_spec(status, parsed)->Ok_0;
    let first = seq![
        SessionEvent::Begin,
        SessionEvent::SessionId(oa),
        SessionEvent::KeyringValue(uncached),
        SessionEvent::KeyringValue(stored_url),
        SessionEvent::Reply(status, parsed),
        SessionEvent::Written(written),
    ];
    let second = seq![SessionEvent::Begin, SessionEvent::SessionId(oa_again), SessionEvent::KeyringValue(cached)];
    reveal_with_fuel(session_run, 7);
    assert(first.drop_first() =~= first.subrange(1, 6));
    assert(first.subrange(1, 6).drop_first() =~= first.subrange(2, 6));
    assert(first.subrange(2, 6).drop_first() =~= first.subrange(3, 6));
    assert(first.subrange(3, 6).drop_first() =~= first.subrange(4, 6));
    assert(first.subrange(4, 6).drop_first() =~= first.subrange(5, 6));
    assert(first.subrange(5, 6).drop_first() =~= Seq::<SessionEvent>::empty());
    assert(session_run(SessionStateView::Start, first) =~= seq![
        SessionActionView::ReadSessionId,
        SessionActionView::ReadKeyring(oa@),
        SessionActionView::ReadKeyring(URL_KEY@),
        create_request(stored_url),
        SessionActionView::WriteKeyring(oa@, sid),
        SessionActionView::Finish(Ok(sid), true),
    ]);
    assert(second.drop_first() =~= second.subrange(1, 3));
    assert(second.subrange(1, 3).drop_first() =~= second.subrange(2, 3));
    assert(second.subrange(2, 3).drop_first() =~= Seq::<SessionEvent>::empty());
    assert(session_run(SessionStateView::Start, second) =~= seq![
        SessionActionView::ReadSessionId,
        SessionActionView::ReadKeyring(oa@),
        SessionActionView::Finish(Ok(sid), false),
    ]);
}

/// A line for the host log: a warning or an information.
pub struct LogLine {
    pub warn: bool,
    pub text: String,
}

impl View for LogLine {
    type V = (bool, Seq<char>);

    open spec fn view(&self) -> (bool, Seq<char>) {
        (self.warn, self.text@)
    }
}

/// Where the token count stands.
pub enum TrackState {
    /// A message's text is to be counted.
    Start { content: String, threshold: u32, keep_recent: u32 },
    /// The id of the agent session has been asked of the host.
    ReadingSessionId { content: String, threshold: u32, keep_recent: u32 },
    /// The running count has been asked of the keyring under `key`.
    ReadingCount { key: String, content: String, threshold: u32, keep_recent: u32 },
    /// The new count `total` is being stored under `key`.
    StoringCount { key: String, total: u32, commit: bool, keep_recent: u32 },
    /// The count is being reset before a commit.
    Resetting { total: u32, keep_recent: u32 },
    /// The memory session is being looked up (or created).
    ResolvingSession { total: u32, keep_recent: u32 },
    /// Session `sid` is being committed.
    Committing { sid: String, total: u32 },
    /// The count has ended.
    Done,
}

/// What the host reported.
pub enum TrackEvent {
    /// The count is to start.
    Begin,
    /// The id of the agent session (empty where the host has none).
    SessionId(String),
    /// A keyring read returned.
    KeyringValue(Result<String, String>),
    /// A keyring write returned.
    Written(Result<(), String>),
    /// The search for the memory session returned.
    Session(Result<String, String>),
    /// The commit returned.
    Committed(Result<(), String>),
}

/// What the host is to do next.
pub enum TrackAction {
    /// Ask for the id of the agent session.
    ReadSessionId,
    /// Read an entry of the OpenViking keyring service.
    ReadKeyring(String),
    /// Write an entry of the OpenViking keyring service.
    WriteKeyring(String, String),
    /// Find or create the memory session.
    ResolveSession,
    /// Commit the session, keeping this many recent messages.
    Commit { session_id: String, keep_recent: u32 },
    /// End the count, with a line to log where there is one.
    Finish(Option<LogLine>),
    /// Nothing: the event does not belong to this state.
    Ignore,
}

/// The abstract state of the count.
pub enum TrackStateView {
    Start(Seq<char>, u32, u32),
    ReadingSessionId(Seq<char>, u32, u32),
    ReadingCount(Seq<char>, Seq<char>, u32, u32),
    StoringCount(Seq<char>, u32, bool, u32),
    Resetting(u32, u32),
    ResolvingSession(u32, u32),
    Committing(Seq<char>, u32),
    Done,
}

/// The abstract action.
pub enum TrackActionView {
    ReadSessionId,
    ReadKeyring(Seq<char>),
    WriteKeyring(Seq<char>, Seq<char>),
    ResolveSession,
    Commit(Seq<char>, u32),
    Finish(Option<(bool, Seq<char>)>),
    Ignore,
}

impl View for TrackState {
    type V = TrackStateView;

    open spec fn view(&self) -> TrackStateView {
        match self {
            TrackState::Start { content, threshold, keep_recent } => TrackStateView::Start(
                content@,
                *threshold,
                *keep_recent,
            ),
            TrackState::ReadingSessionId { content, threshold, keep_recent } => TrackStateView::ReadingSessionId(
                content@,
                *threshold,
                *keep_recent,
            ),
            TrackState::ReadingCount { key, content, threshold, keep_recent } => TrackStateView::ReadingCount(
                key@,
                content@,
                *threshold,
                *keep_recent,
            ),
            TrackState::StoringCount { key, total, commit, keep_recent } => TrackStateView::StoringCount(
                key@,
                *total,
                *commit,
                *keep_recent,
            ),
            TrackState::Resetting { total, keep_recent } => TrackStateView::Resetting(*total, *keep_recent),
            TrackState::ResolvingSession { total, keep_recent } => TrackStateView::ResolvingSession(
                *total,
                *keep_recent,
            ),
            TrackState::Committing { sid, total } => TrackStateView::Committing(sid@, *total),
            TrackState::Done => TrackStateView::Done,
        }
    }
}

impl View for TrackAction {
    type V = TrackActionView;

    open spec fn view(&self) -> TrackActionView {
        match self {
            TrackAction::ReadSessionId => TrackActionView::ReadSessionId,
            TrackAction::ReadKeyring(k) => TrackActionView::ReadKeyring(k@),
            TrackAction::WriteKeyring(k, v) => TrackActionView::WriteKeyring(k@, v@),
            TrackAction::ResolveSession => TrackActionView::ResolveSession,
            TrackAction::Commit { session_id, keep_recent } => TrackActionView::Commit(session_id@, *keep_recent),
            TrackAction::Finish(Some(l)) => TrackActionView::Finish(Some(l@)),
            TrackAction::Finish(None) => TrackActionView::Finish(None),
            TrackAction::Ignore => TrackActionView::Ignore,
        }
    }
}

/// The running count after a message: the stored count plus a quarter of
/// the message's length in UTF-8 bytes, saturating at `u32::MAX`.
pub open spec fn counted_total(content: Seq<char>, stored: Result<String, String>) -> u32 {
    let sum = stored_count(stored) + ((byte_len(content) / 4) as u32);
    if sum > u32::MAX {
        u32::MAX
    } else {
        sum as u32
    }
}

/// The log line of a commit that succeeded.
pub open spec fn committed_line(sid: Seq<char>, total: u32) -> (bool, Seq<char>) {
    (false, "openviking: committed session "@ + sid + " at "@ + decimal(total as nat) + " tokens"@)
}

/// The log line of a commit that failed.
pub open spec fn commit_failed_line(err: Seq<char>) -> (bool, Seq<char>) {
    (true, "openviking: commit failed: "@ + err)
}

/// The log line of a commit for which no session could be had.
pub open spec fn no_session_line(err: Seq<char>) -> (bool, Seq<char>) {
    (true, "openviking: commit: cannot get session: "@ + err)
}

/// The count's steps. The running count of the agent session is read from
/// the keyring, the message's estimate added to it and the result stored,
/// whatever the write returns. Below the threshold that is all. Once it is
/// reached, the count is reset to `"0"`, the memory session is looked up
/// (or created) and committed, and the outcome is logged. Any other event
/// is ignored.
pub open spec fn track_transition(s: TrackStateView, e: TrackEvent) -> (TrackStateView, TrackActionView) {
    match (s, e) {
        (TrackStateView::Start(content, threshold, keep), TrackEvent::Begin) => (
            TrackStateView::ReadingSessionId(content, threshold, keep),
            TrackActionView::ReadSessionId,
        ),
        (TrackStateView::ReadingSessionId(content, threshold, keep), TrackEvent::SessionId(oa)) => (
            TrackStateView::ReadingCount("tokens_"@ + oa@, content, threshold, keep),
            TrackActionView::ReadKeyring("tokens_"@ + oa@),
        ),
        (TrackStateView::ReadingCount(key, content, threshold, keep), TrackEvent::KeyringValue(r)) => {
            let total = counted_total(content, r);
            (
                TrackStateView::StoringCount(key, total, total >= threshold, keep),
                TrackActionView::WriteKeyring(key, decimal(total as nat)),
            )
        },
        (TrackStateView::StoringCount(key, total, commit, keep), TrackEvent::Written(_)) => if commit {
            (TrackStateView::Resetting(total, keep), TrackActionView::WriteKeyring(key, "0"@))
        } else {
            (TrackStateView::Done, TrackActionView::Finish(None))
        },
        (TrackStateView::Resetting(total, keep), TrackEvent::Written(_)) => (
            TrackStateView::ResolvingSession(total, keep),
            TrackActionView::ResolveSession,
        ),
        (TrackStateView::ResolvingSession(total, keep), TrackEvent::Session(r)) => match r {
            Ok(sid) => (TrackStateView::Committing(sid@, total), TrackActionView::Commit(sid@, keep)),
            Err(err) => (TrackStateView::Done, TrackActionView::Finish(Some(no_session_line(err@)))),
        },
        (TrackStateView::Committing(sid, total), TrackEvent::Committed(r)) => match r {
            Ok(_) => (TrackStateView::Done, TrackActionView::Finish(Some(committed_line(sid, total)))),
            Err(err) => (TrackStateView::Done, TrackActionView::Finish(Some(commit_failed_line(err@)))),
        },
        (s, _) => (s, TrackActionView::Ignore),
    }
}

/// `prefix` followed by `tail`.
fn prefixed(prefix: &str, tail: &str) -> (r: String)
    ensures
        r@ == prefix@ + tail@,
{
    let mut r = String::new();
    push_chars(&mut r, prefix);
    push_chars(&mut r, tail);
    r
}

/// The log line of a commit that succeeded.
fn committed_log(sid: &str, total: u32) -> (l: LogLine)
    ensures
        l@ == committed_line(sid@, total),
{
    let mut text = prefixed("openviking: committed session ", sid);
    push_chars(&mut text, " at ");
    push_decimal(&mut text, total as u64);
    push_chars(&mut text, " tokens");
    LogLine { warn: false, text }
}

/// One step of the token count.
pub fn track_step(state: TrackState, event: TrackEvent) -> (r: (TrackState, TrackAction))
    ensures
        (r.0@, r.1@) == track_transition(state@, event),
{
    match (state, event) {
        (TrackState::Start { content, threshold, keep_recent }, TrackEvent::Begin) => (
            TrackState::ReadingSessionId { content, threshold, keep_recent },
            TrackAction::ReadSessionId,
        ),
        (TrackState::ReadingSessionId { content, threshold, keep_recent }, TrackEvent::SessionId(oa_sid)) => {
            let key = token_key(oa_sid.as_str());
            let read = key.clone();
            (TrackState::ReadingCount { key, content, threshold, keep_recent }, TrackAction::ReadKeyring(read))
        },
        (TrackState::ReadingCount { key, content, threshold, keep_recent }, TrackEvent::KeyringValue(r)) => {
            let update = track_tokens(content.as_str(), r, threshold);
            let write = key.clone();
            (
                TrackState::StoringCount { key, total: update.total, commit: update.commit, keep_recent },
                TrackAction::WriteKeyring(write, update.stored),
            )
        },
        (TrackState::StoringCount { key, total, commit, keep_recent }, TrackEvent::Written(_)) => if commit {
            (TrackState::Resetting { total, keep_recent }, TrackAction::WriteKeyring(key, String::from_str("0")))
        } else {
            (TrackState::Done, TrackAction::Finish(None))
        },
        (TrackState::Resetting { total, keep_recent }, TrackEvent::Written(_)) => {
            (TrackState::ResolvingSession { total, keep_recent }, TrackAction::ResolveSession)
        },
        (TrackState::ResolvingSession { total, keep_recent }, TrackEvent::Session(r)) => match r {
            Ok(sid) => {
                let id = sid.clone();
                (TrackState::Committing { sid, total }, TrackAction::Commit { session_id: id, keep_recent })
            },
            Err(err) => {
                let text = prefixed("openviking: commit: cannot get session: ", err.as_str());
                (TrackState::Done, TrackAction::Finish(Some(LogLine { warn: true, text })))
            },
        },
        (TrackState::Committing { sid, total }, TrackEvent::Committed(r)) => match r {
            Ok(()) => (TrackState::Done, TrackAction::Finish(Some(committed_log(sid.as_str(), total)))),
            Err(err) => {
                let text = prefixed("openviking: commit failed: ", err.as_str());
                (TrackState::Done, TrackAction::Finish(Some(LogLine { warn: true, text })))
            },
        },
        (state, _) => (state, TrackAction::Ignore),
    }
}

/// Once the count reaches the threshold, the stored count is reset to
/// `"0"` before the session is looked up for the commit; below it, the
/// count ends right after the new count is stored.
pub proof fn lemma_reset_before_commit(
    key: Seq<char>,
    content: Seq<char>,
    threshold: u32,
    keep: u32,
    r: Result<String, String>,
    w: Result<(), String>,
)
    ensures
        ({
            let total = counted_total(content, r);
            let (n1, a1) = track_transition(
                TrackStateView::ReadingCount(key, content, threshold, keep),
                TrackEvent::KeyringValue(r),
            );
            let (n2, a2) = track_transition(n1, TrackEvent::Written(w));
            &&& a1 == TrackActionView::WriteKeyring(key, decimal(total as nat))
            &&& total >= threshold ==> a2 == TrackActionView::WriteKeyring(key, "0"@)
                && track_transition(n2, TrackEvent::Written(w)) == (
                TrackStateView::ResolvingSession(total, keep),
                TrackActionView::ResolveSession,
            )
            &&& total < threshold ==> (n2, a2) == (TrackStateView::Done, TrackActionView::Finish(None))
        }),
{
}

} // verus!
