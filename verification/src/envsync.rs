//! The scheduled job that copies the Huawei Cloud credentials from the
//! keyring into the host environment, as a state machine: each step takes
//! the outcome of the previous host call and names the next one.
use vstd::prelude::*;
use vstd::utf8::encode_utf8;
use crate::text::{decimal, push_chars, push_decimal};

verus! {

/// The keyring entry and environment variable of the access key.
pub const ACCESS_KEY: &'static str = "HW_ACCESS_KEY";
/// The keyring entry and environment variable of the secret key.
pub const SECRET_KEY: &'static str = "HW_SECRET_KEY";
/// The keyring entry and environment variable of the security token.
pub const SECURITY_TOKEN: &'static str = "HW_SECURITY_TOKEN";
/// The keyring service that holds the credentials.
pub const CREDENTIAL_SERVICE: &'static str = "hwcloud";

/// A job as the scheduler announces it.
pub struct JobInfo {
    pub id: String,
    pub scheduled_at: String,
}

/// The job that the plugin declares: an id, a cron schedule and a description.
pub struct JobSpec {
    pub id: String,
    pub cron: String,
    pub description: String,
}

/// The job that syncs the credentials, once a minute.
pub fn sync_job() -> (j: JobSpec)
    ensures
        j.id@ == "sync-hw-creds"@,
        j.cron@ == "*/1 * * * *"@,
        j.description@ == "sync Huawei AK/SK from keyring to host env"@,
{
    JobSpec {
        id: String::from_str("sync-hw-creds"),
        cron: String::from_str("*/1 * * * *"),
        description: String::from_str("sync Huawei AK/SK from keyring to host env"),
    }
}

/// Where a run of the job stands.
pub enum SyncState {
    /// Nothing done yet.
    Start { job: JobInfo },
    /// The access key has been asked of the keyring.
    ReadingAccessKey { job: JobInfo },
    /// The secret key has been asked of the keyring.
    ReadingSecretKey { job: JobInfo, ak: String },
    /// The access key is being set in the environment.
    SettingAccessKey { job: JobInfo, ak: String, sk: String },
    /// The secret key is being set in the environment.
    SettingSecretKey { job: JobInfo, ak: String, sk: String },
    /// The security token has been asked of the keyring.
    ReadingToken { job: JobInfo, ak: String, sk: String },
    /// The security token is being set or cleared in the environment.
    SettingToken { job: JobInfo, ak: String, sk: String },
    /// The run has ended.
    Done,
}

/// What the host reported.
pub enum SyncEvent {
    /// The scheduler started the job.
    Begin,
    /// A keyring read returned.
    KeyringValue(Result<String, String>),
    /// An environment update returned.
    EnvUpdated(Result<(), String>),
}

/// What the host is to do next.
pub enum SyncAction {
    /// Read an entry of the credential keyring service.
    ReadKeyring(String),
    /// Set an environment variable.
    SetEnv(String, String),
    /// Remove an environment variable.
    UnsetEnv(String),
    /// End the job with this outcome.
    Finish(Result<String, String>),
    /// Nothing: the event does not belong to this state.
    Ignore,
}

/// A job, by its id and its scheduled time.
pub type JobView = (Seq<char>, Seq<char>);

/// The abstract state of a run.
pub enum SyncStateView {
    Start(JobView),
    ReadingAccessKey(JobView),
    ReadingSecretKey(JobView, Seq<char>),
    SettingAccessKey(JobView, Seq<char>, Seq<char>),
    SettingSecretKey(JobView, Seq<char>, Seq<char>),
    ReadingToken(JobView, Seq<char>, Seq<char>),
    SettingToken(JobView, Seq<char>, Seq<char>),
    Done,
}

/// The abstract event.
pub enum SyncEventView {
    Begin,
    KeyringValue(Result<Seq<char>, Seq<char>>),
    EnvUpdated(Result<(), Seq<char>>),
}

/// The abstract action.
pub enum SyncActionView {
    ReadKeyring(Seq<char>),
    SetEnv(Seq<char>, Seq<char>),
    UnsetEnv(Seq<char>),
    Finish(Result<Seq<char>, Seq<char>>),
    Ignore,
}

impl View for JobInfo {
    type V = JobView;

    open spec fn view(&self) -> JobView {
        (self.id@, self.scheduled_at@)
    }
}

impl View for SyncState {
    type V = SyncStateView;

    open spec fn view(&self) -> SyncStateView {
        match self {
            SyncState::Start { job } => SyncStateView::Start(job@),
            SyncState::ReadingAccessKey { job } => SyncStateView::ReadingAccessKey(job@),
            SyncState::ReadingSecretKey { job, ak } => SyncStateView::ReadingSecretKey(job@, ak@),
            SyncState::SettingAccessKey { job, ak, sk } => SyncStateView::SettingAccessKey(job@, ak@, sk@),
            SyncState::SettingSecretKey { job, ak, sk } => SyncStateView::SettingSecretKey(job@, ak@, sk@),
            SyncState::ReadingToken { job, ak, sk } => SyncStateView::ReadingToken(job@, ak@, sk@),
            SyncState::SettingToken { job, ak, sk } => SyncStateView::SettingToken(job@, ak@, sk@),
            SyncState::Done => SyncStateView::Done,
        }
    }
}

impl View for SyncEvent {
    type V = SyncEventView;

    open spec fn view(&self) -> SyncEventView {
        match self {
            SyncEvent::Begin => SyncEventView::Begin,
            SyncEvent::KeyringValue(Ok(v)) => SyncEventView::KeyringValue(Ok(v@)),
            SyncEvent::KeyringValue(Err(e)) => SyncEventView::KeyringValue(Err(e@)),
            SyncEvent::EnvUpdated(Ok(())) => SyncEventView::EnvUpdated(Ok(())),
            SyncEvent::EnvUpdated(Err(e)) => SyncEventView::EnvUpdated(Err(e@)),
        }
    }
}

impl View for SyncAction {
    type V = SyncActionView;

    open spec fn view(&self) -> SyncActionView {
        match self {
            SyncAction::ReadKeyring(n) => SyncActionView::ReadKeyring(n@),
            SyncAction::SetEnv(n, v) => SyncActionView::SetEnv(n@, v@),
            SyncAction::UnsetEnv(n) => SyncActionView::UnsetEnv(n@),
            SyncAction::Finish(Ok(m)) => SyncActionView::Finish(Ok(m@)),
            SyncAction::Finish(Err(e)) => SyncActionView::Finish(Err(e@)),
            SyncAction::Ignore => SyncActionView::Ignore,
        }
    }
}

/// The length in UTF-8 bytes of a text (as `str::len` gives it).
pub open spec fn byte_len(s: Seq<char>) -> nat {
    (encode_utf8(s).len() as usize) as nat
}

/// The report of a successful run: the job, when it was scheduled, and the
/// sizes of the keys in UTF-8 bytes.
pub open spec fn sync_report(job: JobView, ak: Seq<char>, sk: Seq<char>) -> Seq<char> {
    "job "@ + job.0 + " at "@ + job.1 + ": synced AK/SK ("@ + decimal(byte_len(ak)) + "+"@
        + decimal(byte_len(sk)) + " bytes)"@
}

/// The job's steps. Read the access key, then the secret key (a failed read
/// or an empty key ends the run with an error); set both in the environment
/// (a failed update ends the run with its error); read the security token
/// and set it where it is there and not empty, else clear it; report.
/// Any other event is ignored.
pub open spec fn sync_transition(s: SyncStateView, e: SyncEventView) -> (SyncStateView, SyncActionView) {
    match (s, e) {
        (SyncStateView::Start(job), SyncEventView::Begin) => (
            SyncStateView::ReadingAccessKey(job),
            SyncActionView::ReadKeyring(ACCESS_KEY@),
        ),
        (SyncStateView::ReadingAccessKey(job), SyncEventView::KeyringValue(r)) => match r {
            Err(err) => (SyncStateView::Done, SyncActionView::Finish(Err(err))),
            Ok(v) => if v.len() == 0 {
                (SyncStateView::Done, SyncActionView::Finish(Err("HW_ACCESS_KEY not found in keyring"@)))
            } else {
                (SyncStateView::ReadingSecretKey(job, v), SyncActionView::ReadKeyring(SECRET_KEY@))
            },
        },
        (SyncStateView::ReadingSecretKey(job, ak), SyncEventView::KeyringValue(r)) => match r {
            Err(err) => (SyncStateView::Done, SyncActionView::Finish(Err(err))),
            Ok(v) => if v.len() == 0 {
                (SyncStateView::Done, SyncActionView::Finish(Err("HW_SECRET_KEY not found in keyring"@)))
            } else {
                (SyncStateView::SettingAccessKey(job, ak, v), SyncActionView::SetEnv(ACCESS_KEY@, ak))
            },
        },
        (SyncStateView::SettingAccessKey(job, ak, sk), SyncEventView::EnvUpdated(r)) => match r {
            Err(err) => (SyncStateView::Done, SyncActionView::Finish(Err(err))),
            Ok(_) => (SyncStateView::SettingSecretKey(job, ak, sk), SyncActionView::SetEnv(SECRET_KEY@, sk)),
        },
        (SyncStateView::SettingSecretKey(job, ak, sk), SyncEventView::EnvUpdated(r)) => match r {
            Err(err) => (SyncStateView::Done, SyncActionView::Finish(Err(err))),
            Ok(_) => (SyncStateView::ReadingToken(job, ak, sk), SyncActionView::ReadKeyring(SECURITY_TOKEN@)),
        },
        (SyncStateView::ReadingToken(job, ak, sk), SyncEventView::KeyringValue(r)) => (
            SyncStateView::SettingToken(job, ak, sk),
            match r {
                Ok(t) => if t.len() > 0 {
                    SyncActionView::SetEnv(SECURITY_TOKEN@, t)
                } else {
                    SyncActionView::UnsetEnv(SECURITY_TOKEN@)
                },
                Err(_) => SyncActionView::UnsetEnv(SECURITY_TOKEN@),
            },
        ),
        (SyncStateView::SettingToken(job, ak, sk), SyncEventView::EnvUpdated(r)) => match r {
            Err(err) => (SyncStateView::Done, SyncActionView::Finish(Err(err))),
            Ok(_) => (SyncStateView::Done, SyncActionView::Finish(Ok(sync_report(job, ak, sk)))),
        },
        (s, _) => (s, SyncActionView::Ignore),
    }
}

/// Builds the report of a successful run.
fn report(job: &JobInfo, ak: &String, sk: &String) -> (r: String)
    ensures
        r@ == sync_report(job@, ak@, sk@),
{
    let mut r = String::from_str("job ");
    push_chars(&mut r, job.id.as_str());
    push_chars(&mut r, " at ");
    push_chars(&mut r, job.scheduled_at.as_str());
    push_chars(&mut r, ": synced AK/SK (");
    push_decimal(&mut r, ak.as_str().len() as u64);
    push_chars(&mut r, "+");
    push_decimal(&mut r, sk.as_str().len() as u64);
    push_chars(&mut r, " bytes)");
    r
}

/// One step of the job: the next state and the host call to make, given
/// the outcome of the previous one.
pub fn sync_step(state: SyncState, event: SyncEvent) -> (r: (SyncState, SyncAction))
    ensures
        (r.0@, r.1@) == sync_transition(state@, event@),
{
    match (state, event) {
        (SyncState::Start { job }, SyncEvent::Begin) => (
            SyncState::ReadingAccessKey { job },
            SyncAction::ReadKeyring(String::from_str(ACCESS_KEY)),
        ),
        (SyncState::ReadingAccessKey { job }, SyncEvent::KeyringValue(r)) => match r {
            Err(e) => (SyncState::Done, SyncAction::Finish(Err(e))),
            Ok(v) => if v.as_str().is_empty() {
                (
                    SyncState::Done,
                    SyncAction::Finish(Err(String::from_str("HW_ACCESS_KEY not found in keyring"))),
                )
            } else {
                (
                    SyncState::ReadingSecretKey { job, ak: v },
                    SyncAction::ReadKeyring(String::from_str(SECRET_KEY)),
                )
            },
        },
        (SyncState::ReadingSecretKey { job, ak }, SyncEvent::KeyringValue(r)) => match r {
            Err(e) => (SyncState::Done, SyncAction::Finish(Err(e))),
            Ok(v) => if v.as_str().is_empty() {
                (
                    SyncState::Done,
                    SyncAction::Finish(Err(String::from_str("HW_SECRET_KEY not found in keyring"))),
                )
            } else {
                let value = ak.clone();
                (
                    SyncState::SettingAccessKey { job, ak, sk: v },
                    SyncAction::SetEnv(String::from_str(ACCESS_KEY), value),
                )
            },
        },
        (SyncState::SettingAccessKey { job, ak, sk }, SyncEvent::EnvUpdated(r)) => match r {
            Err(e) => (SyncState::Done, SyncAction::Finish(Err(e))),
            Ok(()) => {
                let value = sk.clone();
                (
                    SyncState::SettingSecretKey { job, ak, sk },
                    SyncAction::SetEnv(String::from_str(SECRET_KEY), value),
                )
            },
        },
        (SyncState::SettingSecretKey { job, ak, sk }, SyncEvent::EnvUpdated(r)) => match r {
            Err(e) => (SyncState::Done, SyncAction::Finish(Err(e))),
            Ok(()) => (
                SyncState::ReadingToken { job, ak, sk },
                SyncAction::ReadKeyring(String::from_str(SECURITY_TOKEN)),
            ),
        },
        (SyncState::ReadingToken { job, ak, sk }, SyncEvent::KeyringValue(r)) => {
            let action = match r {
                Ok(t) => if t.as_str().is_empty() {
                    SyncAction::UnsetEnv(String::from_str(SECURITY_TOKEN))
                } else {
                    SyncAction::SetEnv(String::from_str(SECURITY_TOKEN), t)
                },
                Err(_) => SyncAction::UnsetEnv(String::from_str(SECURITY_TOKEN)),
            };
            (SyncState::SettingToken { job, ak, sk }, action)
        },
        (SyncState::SettingToken { job, ak, sk }, SyncEvent::EnvUpdated(r)) => match r {
            Err(e) => (SyncState::Done, SyncAction::Finish(Err(e))),
            Ok(()) => {
                let msg = report(&job, &ak, &sk);
                (SyncState::Done, SyncAction::Finish(Ok(msg)))
            },
        },
        (state, _) => (state, SyncAction::Ignore),
    }
}

/// The rank of a state: it grows with every step that is not ignored.
pub open spec fn rank(s: SyncStateView) -> int {
    match s {
        SyncStateView::Start(..) => 0,
        SyncStateView::ReadingAccessKey(..) => 1,
        SyncStateView::ReadingSecretKey(..) => 2,
        SyncStateView::SettingAccessKey(..) => 3,
        SyncStateView::SettingSecretKey(..) => 4,
        SyncStateView::ReadingToken(..) => 5,
        SyncStateView::SettingToken(..) => 6,
        SyncStateView::Done => 7,
    }
}

/// Every step that is not ignored moves the run forward, and the run ends
/// (with an outcome) exactly when it reaches `Done`; so a run makes at most
/// six host calls before it reports.
pub proof fn lemma_sync_progress(s: SyncStateView, e: SyncEventView)
    ensures
        ({
            let (n, a) = sync_transition(s, e);
            &&& a is Ignore ==> n == s
            &&& !(a is Ignore) ==> rank(n) > rank(s)
            &&& (a is Finish) <==> (n is Done && !(s is Done))
        }),
{
}

/// A run reports success only from its last step, once the security token
/// has been set or cleared without error; every earlier step that succeeds
/// asks for another host call.
pub proof fn lemma_sync_success_is_last(s: SyncStateView, e: SyncEventView)
    ensures
        sync_transition(s, e).1 matches SyncActionView::Finish(Ok(_)) ==> (s is SettingToken
            && e matches SyncEventView::EnvUpdated(Ok(_))),
{
}

} // verus!
