//! Renewal of the TokenHub model configurations after an authentication
//! error of a model call, as a state machine: each step takes the outcome
//! of the previous host call and names the next one.
use vstd::prelude::*;
use crate::envsync::{ACCESS_KEY, SECRET_KEY, SECURITY_TOKEN};
use crate::events::{event_report, EventReport, HostEvent};
use crate::json::{escape_json, json_escape};
use crate::text::{contains_seq, contains_str, decimal, push_chars, push_decimal, str_eq};
use crate::tokenhub::{AgentConfig, EmbeddingModel, ModelInfo, PROVIDER};

verus! {

/// The text that marks an authentication error in a model-call error.
pub const TRIGGER_ERROR: &'static str = "401";

/// Whether a stage event asks for a renewal: the leave phase of a model
/// call whose error is not empty and mentions the trigger.
pub open spec fn renewal_wanted(phase: Seq<char>, error: Seq<char>) -> bool {
    phase == "leave"@ && error.len() > 0 && contains_seq(error, TRIGGER_ERROR@)
}

/// Decides whether a stage event asks for a renewal.
pub fn should_renew(phase: &str, error: &str) -> (r: bool)
    ensures
        r == renewal_wanted(phase@, error@),
{
    str_eq(phase, "leave") && !error.is_empty() && contains_str(error, TRIGGER_ERROR)
}

/// Whether the active provider is the one whose models this plugin manages.
pub fn is_managed_provider(provider_id: &str) -> (r: bool)
    ensures
        r == (provider_id@ == PROVIDER@),
{
    str_eq(provider_id, PROVIDER)
}

/// The runtime configuration of one model, as a JSON object; the id, the
/// api key and the base url are escaped for JSON.
pub open spec fn model_config_chars(m: ModelInfo, api_key: Seq<char>, base_url: Seq<char>) -> Seq<char> {
    "{\"provider\":\""@ + PROVIDER@ + "\",\"model_id\":\""@ + json_escape(m.model_id@)
        + "\",\"api_key\":\""@ + json_escape(api_key) + "\",\"base_url\":\""@ + json_escape(base_url)
        + "\",\"max_input_tokens\":"@ + decimal(m.context_window as nat) + ",\"max_output_tokens\":"@
        + decimal(m.max_tokens as nat) + "}"@
}

/// Builds the runtime configuration of one model.
pub fn model_config_json(m: &ModelInfo, api_key: &str, base_url: &str) -> (r: String)
    ensures
        r@ == model_config_chars(*m, api_key@, base_url@),
{
    let esc_api_key = escape_json(api_key);
    let esc_base_url = escape_json(base_url);
    let esc_model_id = escape_json(m.model_id.as_str());
    let mut r = String::from_str("{\"provider\":\"");
    push_chars(&mut r, PROVIDER);
    push_chars(&mut r, "\",\"model_id\":\"");
    push_chars(&mut r, esc_model_id.as_str());
    push_chars(&mut r, "\",\"api_key\":\"");
    push_chars(&mut r, esc_api_key.as_str());
    push_chars(&mut r, "\",\"base_url\":\"");
    push_chars(&mut r, esc_base_url.as_str());
    push_chars(&mut r, "\",\"max_input_tokens\":");
    push_decimal(&mut r, m.context_window);
    push_chars(&mut r, ",\"max_output_tokens\":");
    push_decimal(&mut r, m.max_tokens);
    push_chars(&mut r, "}");
    r
}

/// The runtime configurations to set after a renewal: one per model of the
/// fresh configuration, in order, each with its api key and base url.
pub fn renewed_model_configs(cfg: &AgentConfig) -> (r: Vec<String>)
    ensures
        r@.len() == cfg.models@.len(),
        forall|i: int|
            0 <= i < r@.len() ==> (#[trigger] r@[i])@ == model_config_chars(
                cfg.models@[i],
                cfg.api_key@,
                cfg.base_url@,
            ),
{
    let mut r: Vec<String> = Vec::new();
    let n = cfg.models.len();
    for i in 0..n
        invariant
            n == cfg.models@.len(),
            r@.len() == i,
            forall|j: int|
                0 <= j < i ==> (#[trigger] r@[j])@ == model_config_chars(
                    cfg.models@[j],
                    cfg.api_key@,
                    cfg.base_url@,
                ),
    {
        r.push(model_config_json(&cfg.models[i], cfg.api_key.as_str(), cfg.base_url.as_str()));
    }
    r
}

/// The message of the report of an authentication error.
pub const LLM_401_MESSAGE: &'static str = "LLM call returned 401 auth error";
/// The message of the report of missing credentials during a renewal.
pub const RENEW_AKSK_MISSING_MESSAGE: &'static str =
    "Failed to read HW_ACCESS_KEY or HW_SECRET_KEY from keyring when renewing";

/// The embedding configuration of the runtime, as a JSON object; the base
/// url, the api key and the model id are escaped for JSON.
pub open spec fn embedding_config_chars(em: EmbeddingModel, api_key: Seq<char>, base_url: Seq<char>) -> Seq<char> {
    "{\"base_url\":\""@ + json_escape(base_url) + "\",\"api_key\":\""@ + json_escape(api_key)
        + "\",\"model\":\""@ + json_escape(em.model_id@) + "\"}"@
}

/// Builds the embedding configuration of the runtime.
pub fn embedding_config_json(em: &EmbeddingModel, api_key: &str, base_url: &str) -> (r: String)
    ensures
        r@ == embedding_config_chars(*em, api_key@, base_url@),
{
    let esc_base_url = escape_json(base_url);
    let esc_api_key = escape_json(api_key);
    let esc_model = escape_json(em.model_id.as_str());
    let mut r = String::from_str("{\"base_url\":\"");
    push_chars(&mut r, esc_base_url.as_str());
    push_chars(&mut r, "\",\"api_key\":\"");
    push_chars(&mut r, esc_api_key.as_str());
    push_chars(&mut r, "\",\"model\":\"");
    push_chars(&mut r, esc_model.as_str());
    push_chars(&mut r, "\"}");
    r
}

/// The answer of the observer to a stage.
pub struct StageAnswer {
    pub action: String,
    pub reason: String,
}

impl View for StageAnswer {
    type V = (Seq<char>, Seq<char>);

    open spec fn view(&self) -> (Seq<char>, Seq<char>) {
        (self.action@, self.reason@)
    }
}

/// The answer that lets the stage go on: `continue`, with no reason.
pub open spec fn continue_answer_view() -> (Seq<char>, Seq<char>) {
    ("continue"@, Seq::empty())
}

/// Builds the answer that lets the stage go on.
pub fn continue_answer() -> (a: StageAnswer)
    ensures
        a@ == continue_answer_view(),
{
    StageAnswer { action: String::from_str("continue"), reason: String::new() }
}

/// Where a renewal stands.
pub enum RenewState {
    /// A stage event has been observed: its phase and its error.
    Start { phase: String, error: String },
    /// The active provider has been asked of the host.
    ReadingProvider,
    /// The authentication error is being reported.
    ReportingAuthError,
    /// The access key has been asked of the keyring.
    ReadingAccessKey,
    /// The secret key has been asked of the keyring.
    ReadingSecretKey { ak: String },
    /// The missing credentials are being reported.
    ReportingMissing,
    /// The security token has been asked of the keyring.
    ReadingToken { ak: String, sk: String },
    /// The fresh configuration has been asked of TokenHub.
    Fetching,
    /// The runtime configuration of model `next` of `cfg` is being set.
    Setting { cfg: AgentConfig, next: usize },
    /// The embedding configuration of the first embedding model of `cfg` is being set.
    SettingEmbedding { cfg: AgentConfig },
    /// The renewal has ended.
    Done,
}

/// What the host reported.
pub enum RenewEvent {
    /// The stage event is to be handled.
    Begin,
    /// The id of the active provider (empty where the host has none).
    Provider(String),
    /// An event report has been made.
    Reported,
    /// A keyring read returned.
    KeyringValue(Result<String, String>),
    /// The TokenHub call returned a configuration, or failed.
    Models(Option<AgentConfig>),
    /// Setting a model's runtime configuration returned.
    ConfigSet(Result<(), String>),
    /// Setting the embedding configuration returned.
    EmbeddingSet(Result<(), String>),
}

/// Why a renewal ended.
pub enum RenewNote {
    /// The stage event does not ask for a renewal.
    NotRequested,
    /// The active provider, named here, is not the managed one.
    OtherProvider(String),
    /// The access key or the secret key is not in the keyring.
    CredentialsMissing,
    /// TokenHub gave no configuration.
    FetchFailed,
    /// Every model of the fresh configuration has been handed to the host.
    Renewed,
}

/// What the host is to do next.
pub enum RenewAction {
    /// Ask for the id of the active provider.
    ReadProvider,
    /// Report an event to the host.
    Report(EventReport),
    /// Read an entry of the credential keyring service.
    ReadKeyring(String),
    /// Fetch the configuration from TokenHub with these credentials.
    FetchModels { ak: String, sk: String, security_token: Option<String> },
    /// Set the runtime configuration of a model, named by its id.
    SetModelConfig { model_id: String, config: String },
    /// Set the embedding configuration of the runtime, for the named model.
    SetEmbeddingConfig { model_id: String, config: String },
    /// End the stage with this answer.
    Finish(RenewNote, StageAnswer),
    /// Nothing: the event does not belong to this state.
    Ignore,
}

/// The abstract state of a renewal.
pub enum RenewStateView {
    Start(Seq<char>, Seq<char>),
    ReadingProvider,
    ReportingAuthError,
    ReadingAccessKey,
    ReadingSecretKey(Seq<char>),
    ReportingMissing,
    ReadingToken(Seq<char>, Seq<char>),
    Fetching,
    Setting(AgentConfig, int),
    SettingEmbedding(AgentConfig),
    Done,
}

/// The abstract note.
pub enum RenewNoteView {
    NotRequested,
    OtherProvider(Seq<char>),
    CredentialsMissing,
    FetchFailed,
    Renewed,
}

/// The abstract action.
pub enum RenewActionView {
    ReadProvider,
    Report(HostEvent, Seq<char>),
    ReadKeyring(Seq<char>),
    FetchModels(Seq<char>, Seq<char>, Option<Seq<char>>),
    SetModelConfig(Seq<char>, Seq<char>),
    SetEmbeddingConfig(Seq<char>, Seq<char>),
    Finish(RenewNoteView, (Seq<char>, Seq<char>)),
    Ignore,
}

impl View for RenewState {
    type V = RenewStateView;

    open spec fn view(&self) -> RenewStateView {
        match self {
            RenewState::Start { phase, error } => RenewStateView::Start(phase@, error@),
            RenewState::ReadingProvider => RenewStateView::ReadingProvider,
            RenewState::ReportingAuthError => RenewStateView::ReportingAuthError,
            RenewState::ReadingAccessKey => RenewStateView::ReadingAccessKey,
            RenewState::ReadingSecretKey { ak } => RenewStateView::ReadingSecretKey(ak@),
            RenewState::ReportingMissing => RenewStateView::ReportingMissing,
            RenewState::ReadingToken { ak, sk } => RenewStateView::ReadingToken(ak@, sk@),
            RenewState::Fetching => RenewStateView::Fetching,
            RenewState::Setting { cfg, next } => RenewStateView::Setting(*cfg, *next as int),
            RenewState::SettingEmbedding { cfg } => RenewStateView::SettingEmbedding(*cfg),
            RenewState::Done => RenewStateView::Done,
        }
    }
}

impl View for RenewNote {
    type V = RenewNoteView;

    open spec fn view(&self) -> RenewNoteView {
        match self {
            RenewNote::NotRequested => RenewNoteView::NotRequested,
            RenewNote::OtherProvider(p) => RenewNoteView::OtherProvider(p@),
            RenewNote::CredentialsMissing => RenewNoteView::CredentialsMissing,
            RenewNote::FetchFailed => RenewNoteView::FetchFailed,
            RenewNote::Renewed => RenewNoteView::Renewed,
        }
    }
}

impl View for RenewAction {
    type V = RenewActionView;

    open spec fn view(&self) -> RenewActionView {
        match self {
            RenewAction::ReadProvider => RenewActionView::ReadProvider,
            RenewAction::Report(r) => RenewActionView::Report(r@.0, r@.1),
            RenewAction::ReadKeyring(n) => RenewActionView::ReadKeyring(n@),
            RenewAction::FetchModels { ak, sk, security_token } => RenewActionView::FetchModels(
                ak@,
                sk@,
                match security_token {
                    Some(t) => Some(t@),
                    None => None,
                },
            ),
            RenewAction::SetModelConfig { model_id, config } => RenewActionView::SetModelConfig(
                model_id@,
                config@,
            ),
            RenewAction::SetEmbeddingConfig { model_id, config } => RenewActionView::SetEmbeddingConfig(
                model_id@,
                config@,
            ),
            RenewAction::Finish(n, a) => RenewActionView::Finish(n@, a@),
            RenewAction::Ignore => RenewActionView::Ignore,
        }
    }
}

/// The action that sets the runtime configuration of model `i` of `cfg`.
pub open spec fn set_config_action(cfg: AgentConfig, i: int) -> RenewActionView {
    RenewActionView::SetModelConfig(
        cfg.models@[i].model_id@,
        model_config_chars(cfg.models@[i], cfg.api_key@, cfg.base_url@),
    )
}

/// The end of a renewal with this note; the stage goes on.
pub open spec fn finish(note: RenewNoteView) -> RenewActionView {
    RenewActionView::Finish(note, continue_answer_view())
}

/// What follows the model updates: the embedding update of the first
/// embedding model of `cfg`, where it has one, else the end.
pub open spec fn after_models(cfg: AgentConfig) -> (RenewStateView, RenewActionView) {
    if cfg.embedding_models@.len() > 0 {
        (
            RenewStateView::SettingEmbedding(cfg),
            RenewActionView::SetEmbeddingConfig(
                cfg.embedding_models@[0].model_id@,
                embedding_config_chars(cfg.embedding_models@[0], cfg.api_key@, cfg.base_url@),
            ),
        )
    } else {
        (RenewStateView::Done, finish(RenewNoteView::Renewed))
    }
}

/// A keyring value, if it is there and not empty.
pub open spec fn present(r: Result<String, String>) -> Option<Seq<char>> {
    match r {
        Ok(v) => if v@.len() > 0 {
            Some(v@)
        } else {
            None
        },
        Err(_) => None,
    }
}

/// The renewal's steps. A stage event that asks for no renewal ends it at
/// once; else the active provider is asked for, and one that is not the
/// managed provider ends it. The authentication error is reported; the
/// access key and the secret key are read, and either missing or empty is
/// reported and ends the renewal; then the optional security token is read.
/// The configuration is fetched with them (no configuration ends it), the
/// runtime configuration of each of its models is set in order, whatever each
/// update returns, and then the embedding configuration of its first
/// embedding model, if any. Every end lets the stage go on. Any other event
/// is ignored.
pub open spec fn renew_transition(s: RenewStateView, e: RenewEvent) -> (RenewStateView, RenewActionView) {
    match (s, e) {
        (RenewStateView::Start(phase, error), RenewEvent::Begin) => if renewal_wanted(phase, error) {
            (RenewStateView::ReadingProvider, RenewActionView::ReadProvider)
        } else {
            (RenewStateView::Done, finish(RenewNoteView::NotRequested))
        },
        (RenewStateView::ReadingProvider, RenewEvent::Provider(pid)) => if pid@ == PROVIDER@ {
            (RenewStateView::ReportingAuthError, RenewActionView::Report(HostEvent::Llm401, LLM_401_MESSAGE@))
        } else {
            (RenewStateView::Done, finish(RenewNoteView::OtherProvider(pid@)))
        },
        (RenewStateView::ReportingAuthError, RenewEvent::Reported) => (
            RenewStateView::ReadingAccessKey,
            RenewActionView::ReadKeyring(ACCESS_KEY@),
        ),
        (RenewStateView::ReadingAccessKey, RenewEvent::KeyringValue(r)) => match present(r) {
            Some(ak) => (RenewStateView::ReadingSecretKey(ak), RenewActionView::ReadKeyring(SECRET_KEY@)),
            None => (
                RenewStateView::ReportingMissing,
                RenewActionView::Report(HostEvent::AkskMissing, RENEW_AKSK_MISSING_MESSAGE@),
            ),
        },
        (RenewStateView::ReadingSecretKey(ak), RenewEvent::KeyringValue(r)) => match present(r) {
            Some(sk) => (RenewStateView::ReadingToken(ak, sk), RenewActionView::ReadKeyring(SECURITY_TOKEN@)),
            None => (
                RenewStateView::ReportingMissing,
                RenewActionView::Report(HostEvent::AkskMissing, RENEW_AKSK_MISSING_MESSAGE@),
            ),
        },
        (RenewStateView::ReportingMissing, RenewEvent::Reported) => (
            RenewStateView::Done,
            finish(RenewNoteView::CredentialsMissing),
        ),
        (RenewStateView::ReadingToken(ak, sk), RenewEvent::KeyringValue(r)) => (
            RenewStateView::Fetching,
            RenewActionView::FetchModels(ak, sk, present(r)),
        ),
        (RenewStateView::Fetching, RenewEvent::Models(m)) => match m {
            None => (RenewStateView::Done, finish(RenewNoteView::FetchFailed)),
            Some(cfg) => if cfg.models@.len() > 0 {
                (RenewStateView::Setting(cfg, 0), set_config_action(cfg, 0))
            } else {
                after_models(cfg)
            },
        },
        (RenewStateView::Setting(cfg, i), RenewEvent::ConfigSet(_)) => if i + 1 < cfg.models@.len() {
            (RenewStateView::Setting(cfg, i + 1), set_config_action(cfg, i + 1))
        } else {
            after_models(cfg)
        },
        (RenewStateView::SettingEmbedding(_), RenewEvent::EmbeddingSet(_)) => (
            RenewStateView::Done,
            finish(RenewNoteView::Renewed),
        ),
        (s, _) => (s, RenewActionView::Ignore),
    }
}

/// A keyring value, if it is there and not empty.
fn present_value(r: Result<String, String>) -> (o: Option<String>)
    ensures
        match o {
            Some(v) => present(r) == Some(v@),
            None => present(r) is None,
        },
{
    match r {
        Ok(v) => if v.as_str().is_empty() {
            None
        } else {
            Some(v)
        },
        Err(_) => None,
    }
}

/// The action that sets the runtime configuration of model `i` of `cfg`.
fn set_config(cfg: &AgentConfig, i: usize) -> (a: RenewAction)
    requires
        i < cfg.models@.len(),
    ensures
        a@ == set_config_action(*cfg, i as int),
{
    let m = &cfg.models[i];
    let config = model_config_json(m, cfg.api_key.as_str(), cfg.base_url.as_str());
    RenewAction::SetModelConfig { model_id: m.model_id.clone(), config }
}

/// The end of a renewal with this note.
fn finish_with(note: RenewNote) -> (a: RenewAction)
    ensures
        a@ == finish(note@),
{
    RenewAction::Finish(note, continue_answer())
}

/// The step that follows the model updates.
fn models_done(cfg: AgentConfig) -> (r: (RenewState, RenewAction))
    ensures
        (r.0@, r.1@) == after_models(cfg),
{
    if cfg.embedding_models.len() > 0 {
        let em = &cfg.embedding_models[0];
        let config = embedding_config_json(em, cfg.api_key.as_str(), cfg.base_url.as_str());
        let model_id = em.model_id.clone();
        (RenewState::SettingEmbedding { cfg }, RenewAction::SetEmbeddingConfig { model_id, config })
    } else {
        (RenewState::Done, finish_with(RenewNote::Renewed))
    }
}

/// One step of the renewal: the next state and the host call to make, given
/// the outcome of the previous one.
pub fn renew_step(state: RenewState, event: RenewEvent) -> (r: (RenewState, RenewAction))
    ensures
        (r.0@, r.1@) == renew_transition(state@, event),
{
    match (state, event) {
        (RenewState::Start { phase, error }, RenewEvent::Begin) => if should_renew(
            phase.as_str(),
            error.as_str(),
        ) {
            (RenewState::ReadingProvider, RenewAction::ReadProvider)
        } else {
            (RenewState::Done, finish_with(RenewNote::NotRequested))
        },
        (RenewState::ReadingProvider, RenewEvent::Provider(pid)) => if is_managed_provider(pid.as_str()) {
            (RenewState::ReportingAuthError, RenewAction::Report(event_report(HostEvent::Llm401, LLM_401_MESSAGE)))
        } else {
            (RenewState::Done, finish_with(RenewNote::OtherProvider(pid)))
        },
        (RenewState::ReportingAuthError, RenewEvent::Reported) => {
            (RenewState::ReadingAccessKey, RenewAction::ReadKeyring(String::from_str(ACCESS_KEY)))
        },
        (RenewState::ReadingAccessKey, RenewEvent::KeyringValue(r)) => match present_value(r) {
            Some(ak) => (RenewState::ReadingSecretKey { ak }, RenewAction::ReadKeyring(String::from_str(SECRET_KEY))),
            None => (
                RenewState::ReportingMissing,
                RenewAction::Report(event_report(HostEvent::AkskMissing, RENEW_AKSK_MISSING_MESSAGE)),
            ),
        },
        (RenewState::ReadingSecretKey { ak }, RenewEvent::KeyringValue(r)) => match present_value(r) {
            Some(sk) => (
                RenewState::ReadingToken { ak, sk },
                RenewAction::ReadKeyring(String::from_str(SECURITY_TOKEN)),
            ),
            None => (
                RenewState::ReportingMissing,
                RenewAction::Report(event_report(HostEvent::AkskMissing, RENEW_AKSK_MISSING_MESSAGE)),
            ),
        },
        (RenewState::ReportingMissing, RenewEvent::Reported) => {
            (RenewState::Done, finish_with(RenewNote::CredentialsMissing))
        },
        (RenewState::ReadingToken { ak, sk }, RenewEvent::KeyringValue(r)) => {
            let security_token = present_value(r);
            (RenewState::Fetching, RenewAction::FetchModels { ak, sk, security_token })
        },
        (RenewState::Fetching, RenewEvent::Models(m)) => match m {
            None => (RenewState::Done, finish_with(RenewNote::FetchFailed)),
            Some(cfg) => if cfg.models.len() > 0 {
                let a = set_config(&cfg, 0);
                (RenewState::Setting { cfg, next: 0 }, a)
            } else {
                models_done(cfg)
            },
        },
        (RenewState::Setting { cfg, next }, RenewEvent::ConfigSet(_)) => if next < cfg.models.len()
            && next + 1 < cfg.models.len() {
            let a = set_config(&cfg, next + 1);
            (RenewState::Setting { cfg, next: next + 1 }, a)
        } else {
            models_done(cfg)
        },
        (RenewState::SettingEmbedding { cfg }, RenewEvent::EmbeddingSet(_)) => {
            (RenewState::Done, finish_with(RenewNote::Renewed))
        },
        (state, _) => (state, RenewAction::Ignore),
    }
}

/// The rank of a state: it grows with every step that is not ignored.
pub open spec fn renew_rank(s: RenewStateView) -> int {
    match s {
        RenewStateView::Start(..) => 0,
        RenewStateView::ReadingProvider => 1,
        RenewStateView::ReportingAuthError => 2,
        RenewStateView::ReadingAccessKey => 3,
        RenewStateView::ReadingSecretKey(..) => 4,
        RenewStateView::ReportingMissing => 5,
        RenewStateView::ReadingToken(..) => 5,
        RenewStateView::Fetching => 6,
        RenewStateView::Setting(cfg, i) => 7 + i,
        RenewStateView::SettingEmbedding(..) => usize::MAX + 7,
        RenewStateView::Done => usize::MAX + 8,
    }
}

/// Every step that is not ignored moves the renewal forward, and it ends
/// exactly when it reaches `Done`; every end answers `continue`, with no
/// reason, so the observer never stops the stage.
pub proof fn lemma_renew_progress(s: RenewStateView, e: RenewEvent)
    requires
        s matches RenewStateView::Setting(cfg, i) ==> 0 <= i < cfg.models@.len() <= usize::MAX,
    ensures
        ({
            let (n, a) = renew_transition(s, e);
            &&& a is Ignore ==> n == s
            &&& !(a is Ignore) ==> renew_rank(n) > renew_rank(s)
            &&& (a is Finish) <==> (n is Done && !(s is Done))
            &&& a matches RenewActionView::Finish(_, answer) ==> answer == continue_answer_view()
            &&& n matches RenewStateView::Setting(cfg, i) ==> 0 <= i < cfg.models@.len()
        }),
{
}

/// The runtime configurations are set one model after the other, in the
/// order of the fetched configuration: its first model right after the
/// fetch, model `i + 1` once the update of model `i` has returned (whether
/// or not that update failed), and the first embedding model after the last
/// model.
pub proof fn lemma_renew_order(cfg: AgentConfig, i: int, r: Result<(), String>)
    requires
        0 <= i < cfg.models@.len(),
    ensures
        i + 1 < cfg.models@.len() ==> renew_transition(RenewStateView::Setting(cfg, i), RenewEvent::ConfigSet(r))
            == (RenewStateView::Setting(cfg, i + 1), set_config_action(cfg, i + 1)),
        i + 1 == cfg.models@.len() ==> renew_transition(RenewStateView::Setting(cfg, i), RenewEvent::ConfigSet(r))
            == after_models(cfg),
        renew_transition(RenewStateView::Fetching, RenewEvent::Models(Some(cfg))) == (
            RenewStateView::Setting(cfg, 0),
            set_config_action(cfg, 0),
        ),
{
}

/// A renewal for the managed provider reports the authentication error
/// before it reads any credential, and credentials that are missing are
/// reported before the renewal ends, with no fetch.
pub proof fn lemma_renew_reports(pid: String, r: Result<String, String>, ak: Seq<char>)
    requires
        pid@ == PROVIDER@,
        present(r) is None,
    ensures
        renew_transition(RenewStateView::ReadingProvider, RenewEvent::Provider(pid)) == (
            RenewStateView::ReportingAuthError,
            RenewActionView::Report(HostEvent::Llm401, LLM_401_MESSAGE@),
        ),
        renew_transition(RenewStateView::ReportingAuthError, RenewEvent::Reported) == (
            RenewStateView::ReadingAccessKey,
            RenewActionView::ReadKeyring(ACCESS_KEY@),
        ),
        renew_transition(RenewStateView::ReadingAccessKey, RenewEvent::KeyringValue(r)) == (
            RenewStateView::ReportingMissing,
            RenewActionView::Report(HostEvent::AkskMissing, RENEW_AKSK_MISSING_MESSAGE@),
        ),
        renew_transition(RenewStateView::ReadingSecretKey(ak), RenewEvent::KeyringValue(r)) == (
            RenewStateView::ReportingMissing,
            RenewActionView::Report(HostEvent::AkskMissing, RENEW_AKSK_MISSING_MESSAGE@),
        ),
        renew_transition(RenewStateView::ReportingMissing, RenewEvent::Reported) == (
            RenewStateView::Done,
            finish(RenewNoteView::CredentialsMissing),
        ),
{
}

/// A renewal is asked for exactly by the leave phase of a model call whose
/// error mentions `401`: any other error, such as a `403`, starts nothing
/// and the stage goes on at once.
pub proof fn lemma_renewal_needs_401(phase: Seq<char>, error: Seq<char>)
    ensures
        renewal_wanted(phase, error) <==> (phase == "leave"@ && contains_seq(error, "401"@)),
        !contains_seq(error, "401"@) ==> renew_transition(
            RenewStateView::Start(phase, error),
            RenewEvent::Begin,
        ) == (RenewStateView::Done, finish(RenewNoteView::NotRequested)),
{
    reveal_strlit("401");
    if contains_seq(error, "401"@) {
        let i = choose|i: int|
            0 <= i && i + "401"@.len() <= error.len() && #[trigger] error.subrange(i, i + "401"@.len()) == "401"@;
        assert(error.len() >= 3);
    }
}

} // verus!
