//! Injection of provider and credential blocks into a `settings.json` text.
use vstd::prelude::*;
use crate::text::{
    trim, trim_start_pos, contains_seq, contains_str, push_chars, str_chars, trim_end, trim_end_len,
};
use crate::envsync::{ACCESS_KEY, SECRET_KEY, SECURITY_TOKEN};
use crate::events::{event_report, EventReport, HostEvent};
use crate::tokenhub::{opt_view, AgentConfig, ModelInfo};

verus! {

/// The key of the provider block written into the settings.
pub const SETTINGS_PROVIDER: &'static str = "huawei-free";

/// Where the settings text is cut: before its closing brace if, once
/// trailing white space is dropped, it ends with one; else after the
/// trailing-space-free text.
pub open spec fn settings_cut(settings: Seq<char>) -> int {
    let trimmed = trim_end(settings);
    if trimmed.len() > 0 && trimmed.last() == '}' {
        trimmed.len() - 1
    } else {
        trimmed.len() as int
    }
}

/// The JSON entry of one model in the provider block: its id as a string.
pub open spec fn model_entry_chars(m: ModelInfo) -> Seq<char> {
    "\""@ + m.model_id@ + "\""@
}

/// The model entries, separated by commas.
pub open spec fn model_entries_chars(ms: Seq<ModelInfo>) -> Seq<char>
    decreases ms.len(),
{
    if ms.len() == 0 {
        Seq::empty()
    } else if ms.len() == 1 {
        model_entry_chars(ms[0])
    } else {
        model_entries_chars(ms.drop_last()) + ","@ + model_entry_chars(ms.last())
    }
}

/// The provider block (with its trailing comma) for a configuration, and
/// the default model where `settings` names no `"model"` yet.
pub open spec fn provider_block_chars(settings: Seq<char>, cfg: AgentConfig) -> Seq<char> {
    let default_model = if contains_seq(settings, "\"model\""@) {
        Seq::empty()
    } else {
        "\"model\":\""@ + SETTINGS_PROVIDER@ + "/"@ + (if cfg.models@.len() > 0 {
            cfg.models@[0].model_id@
        } else {
            Seq::empty()
        }) + "\","@
    };
    "\"provider\":{\""@ + SETTINGS_PROVIDER@ + "\":{\"api_key\":\""@ + cfg.api_key@ + "\",\"base_url\":\""@
        + cfg.base_url@ + "\",\"models\":["@ + model_entries_chars(cfg.models@) + "]}},"@
        + default_model
}

/// The closing `env` block with the credentials, which closes the object too.
pub open spec fn env_block_chars(ak: Seq<char>, sk: Seq<char>, security_token: Option<Seq<char>>) -> Seq<char> {
    let token_part = match security_token {
        Some(t) => if t.len() > 0 {
            ",\"HW_SECURITY_TOKEN\":\""@ + t + "\""@
        } else {
            Seq::empty()
        },
        None => Seq::empty(),
    };
    "\"env\":{\"HW_ACCESS_KEY\":\""@ + ak + "\",\"HW_SECRET_KEY\":\""@ + sk + "\""@ + token_part
        + "}}"@
}

/// The settings text with the provider block (when there is a configuration)
/// and the credential block added before its closing brace.
pub open spec fn merged_settings_chars(
    settings: Seq<char>,
    config: Option<AgentConfig>,
    ak: Seq<char>,
    sk: Seq<char>,
    security_token: Option<Seq<char>>,
) -> Seq<char> {
    let head = settings.take(settings_cut(settings));
    let content = trim_end(head);
    let sep = if content.len() > 0 && content.last() != '{' { ","@ } else { Seq::empty() };
    let provider = match config {
        Some(cfg) => provider_block_chars(settings, cfg),
        None => Seq::empty(),
    };
    head + sep + provider + env_block_chars(ak, sk, security_token)
}

/// The view of an optional borrowed configuration.
pub open spec fn opt_config(config: Option<&AgentConfig>) -> Option<AgentConfig> {
    match config {
        Some(c) => Some(*c),
        None => None,
    }
}

/// Finds where the settings text is to be cut, and the characters of it.
fn cut_settings(settings: &str) -> (r: (Vec<char>, usize))
    ensures
        r.0@ == settings@,
        r.1 == settings_cut(settings@),
        r.1 <= settings@.len(),
{
    let cs = str_chars(settings);
    let k = trim_end_len(&cs, 0, cs.len());
    assert(cs@.subrange(0, cs@.len() as int) == cs@);
    let end = if k > 0 && cs[k - 1] == '}' { k - 1 } else { k };
    (cs, end)
}

/// Renders the entry of one model.
fn model_entry(m: &ModelInfo) -> (e: String)
    ensures
        e@ == model_entry_chars(*m),
{
    let mut e = String::new();
    push_chars(&mut e, "\"");
    push_chars(&mut e, m.model_id.as_str());
    push_chars(&mut e, "\"");
    e
}

/// Appends the model entries, separated by commas.
fn push_model_entries(out: &mut String, models: &Vec<ModelInfo>)
    ensures
        final(out)@ == old(out)@ + model_entries_chars(models@),
{
    let n = models.len();
    let ghost start = out@;
    for i in 0..n
        invariant
            n == models@.len(),
            out@ == start + model_entries_chars(models@.take(i as int)),
    {
        let e = model_entry(&models[i]);
        let ghost before = out@;
        if i > 0 {
            push_chars(out, ",");
        }
        push_chars(out, e.as_str());
        proof {
            let t = models@.take(i + 1);
            assert(t.drop_last() == models@.take(i as int));
            assert(t.last() == models@[i as int]);
            if i > 0 {
                assert(out@ =~= start + (model_entries_chars(models@.take(i as int)) + ","@
                    + model_entry_chars(models@[i as int])));
            } else {
                assert(models@.take(i as int).len() == 0);
                assert(out@ =~= start + model_entry_chars(t[0]));
            }
        }
    }
    assert(models@.take(n as int) == models@);
}

/// Appends the provider block for `cfg`.
fn push_provider_block(out: &mut String, settings: &str, cfg: &AgentConfig)
    ensures
        final(out)@ == old(out)@ + provider_block_chars(settings@, *cfg),
{
    let mut b = String::new();
    push_chars(&mut b, "\"provider\":{\"");
    push_chars(&mut b, SETTINGS_PROVIDER);
    push_chars(&mut b, "\":{\"api_key\":\"");
    push_chars(&mut b, cfg.api_key.as_str());
    push_chars(&mut b, "\",\"base_url\":\"");
    push_chars(&mut b, cfg.base_url.as_str());
    push_chars(&mut b, "\",\"models\":[");
    push_model_entries(&mut b, &cfg.models);
    push_chars(&mut b, "]}},");
    let mut dm = String::new();
    if !contains_str(settings, "\"model\"") {
        push_chars(&mut dm, "\"model\":\"");
        push_chars(&mut dm, SETTINGS_PROVIDER);
        push_chars(&mut dm, "/");
        if cfg.models.len() > 0 {
            push_chars(&mut dm, cfg.models[0].model_id.as_str());
        }
        push_chars(&mut dm, "\",");
    }
    push_chars(out, b.as_str());
    push_chars(out, dm.as_str());
    assert(final(out)@ =~= old(out)@ + provider_block_chars(settings@, *cfg)) by {
        assert(old(out)@ + b@ + dm@ =~= old(out)@ + (b@ + dm@));
    }
}

/// Appends the credential block, which closes the object.
fn push_env_block(out: &mut String, ak: &str, sk: &str, security_token: Option<&str>)
    ensures
        final(out)@ == old(out)@ + env_block_chars(ak@, sk@, opt_view(security_token)),
{
    let mut b = String::new();
    push_chars(&mut b, "\"env\":{\"HW_ACCESS_KEY\":\"");
    push_chars(&mut b, ak);
    push_chars(&mut b, "\",\"HW_SECRET_KEY\":\"");
    push_chars(&mut b, sk);
    push_chars(&mut b, "\"");
    if let Some(token) = security_token {
        if !token.is_empty() {
            push_chars(&mut b, ",\"HW_SECURITY_TOKEN\":\"");
            push_chars(&mut b, token);
            push_chars(&mut b, "\"");
        }
    }
    push_chars(&mut b, "}}");
    push_chars(out, b.as_str());
}

/// Adds the provider block for `config` (if any) and the credential block to
/// a `settings.json` text, before its closing brace.
pub fn merge_settings(
    settings: &str,
    config: Option<&AgentConfig>,
    ak: &str,
    sk: &str,
    security_token: Option<&str>,
) -> (out: String)
    ensures
        out@ == merged_settings_chars(settings@, opt_config(config), ak@, sk@, opt_view(security_token)),
{
    let (cs, end) = cut_settings(settings);
    let mut out = String::new();
    push_chars(&mut out, settings.substring_char(0, end));
    let k = trim_end_len(&cs, 0, end);
    assert(cs@.subrange(0, end as int) == settings@.take(end as int));
    if k > 0 && cs[k - 1] != '{' {
        push_chars(&mut out, ",");
    }
    if let Some(cfg) = config {
        push_provider_block(&mut out, settings, cfg);
    }
    push_env_block(&mut out, ak, sk, security_token);
    assert(out@ =~= merged_settings_chars(settings@, opt_config(config), ak@, sk@, opt_view(security_token)));
    out
}

/// The pieces of `s` between commas, as `str::split(',')` yields them (one
/// empty piece for an empty text).
pub open spec fn split_commas(s: Seq<char>) -> Seq<Seq<char>>
    decreases s.len(),
{
    if s.len() == 0 {
        seq![Seq::empty()]
    } else {
        let p = split_commas(s.drop_last());
        if s.last() == ',' {
            p.push(Seq::empty())
        } else {
            p.update(p.len() - 1, p.last().push(s.last()))
        }
    }
}

/// The pieces, trimmed, with the empty ones left out.
pub open spec fn nonempty_trimmed(pieces: Seq<Seq<char>>) -> Seq<Seq<char>>
    decreases pieces.len(),
{
    if pieces.len() == 0 {
        Seq::empty()
    } else if trim(pieces.last()).len() > 0 {
        nonempty_trimmed(pieces.drop_last()).push(trim(pieces.last()))
    } else {
        nonempty_trimmed(pieces.drop_last())
    }
}

/// The items as JSON strings (in double quotes, unescaped), comma-separated.
pub open spec fn quoted_list(items: Seq<Seq<char>>) -> Seq<char>
    decreases items.len(),
{
    if items.len() == 0 {
        Seq::empty()
    } else if items.len() == 1 {
        "\""@ + items[0] + "\""@
    } else {
        quoted_list(items.drop_last()) + ","@ + "\""@ + items.last() + "\""@
    }
}

/// The model list of the `my_provider` block: the comma-separated names of
/// `models`, trimmed, the empty ones left out.
pub open spec fn model_names_chars(models: Seq<char>) -> Seq<char> {
    quoted_list(nonempty_trimmed(split_commas(models)))
}

proof fn lemma_split_commas_len(s: Seq<char>)
    ensures
        split_commas(s).len() > 0,
    decreases s.len(),
{
    if s.len() > 0 {
        lemma_split_commas_len(s.drop_last());
    }
}

/// Appends the quoted names of `models`, comma-separated.
fn push_model_names(out: &mut String, models: &str)
    ensures
        final(out)@ == old(out)@ + model_names_chars(models@),
{
    let cs = str_chars(models);
    let n = cs.len();
    let ghost base = out@;
    let ghost mut done: Seq<Seq<char>> = Seq::empty();
    let mut start: usize = 0;
    let mut first = true;
    assert(cs@.take(0) =~= Seq::<char>::empty());
    assert(cs@.subrange(0, 0) =~= Seq::<char>::empty());
    for i in 0..n
        invariant
            n == cs@.len(),
            cs@ == models@,
            start <= i,
            split_commas(cs@.take(i as int)) == done.push(cs@.subrange(start as int, i as int)),
            out@ == base + quoted_list(nonempty_trimmed(done)),
            first == (nonempty_trimmed(done).len() == 0),
    {
        proof {
            lemma_split_commas_len(cs@.take(i as int));
            assert(cs@.take(i + 1).drop_last() == cs@.take(i as int));
            assert(cs@.take(i + 1).last() == cs@[i as int]);
        }
        if cs[i] == ',' {
            push_piece(out, &cs, start, i, &mut first, Ghost(base), Ghost(done));
            proof {
                done = done.push(cs@.subrange(start as int, i as int));
                assert(cs@.subrange(i + 1, i + 1) =~= Seq::<char>::empty());
            }
            start = i + 1;
        } else {
            assert(cs@.subrange(start as int, i + 1) =~= cs@.subrange(start as int, i as int).push(
                cs@[i as int],
            ));
            assert(done.push(cs@.subrange(start as int, i as int)).update(
                done.len() as int,
                cs@.subrange(start as int, i + 1),
            ) =~= done.push(cs@.subrange(start as int, i + 1)));
        }
    }
    push_piece(out, &cs, start, n, &mut first, Ghost(base), Ghost(done));
    assert(cs@.take(n as int) == cs@);
}

/// Appends one piece, trimmed, if it is not empty.
fn push_piece(
    out: &mut String,
    cs: &Vec<char>,
    lo: usize,
    hi: usize,
    first: &mut bool,
    Ghost(base): Ghost<Seq<char>>,
    Ghost(done): Ghost<Seq<Seq<char>>>,
)
    requires
        lo <= hi <= cs@.len(),
        old(out)@ == base + quoted_list(nonempty_trimmed(done)),
        *old(first) == (nonempty_trimmed(done).len() == 0),
    ensures
        final(out)@ == base + quoted_list(nonempty_trimmed(done.push(cs@.subrange(lo as int, hi as int)))),
        *final(first) == (nonempty_trimmed(done.push(cs@.subrange(lo as int, hi as int))).len() == 0),
{
    let a = trim_start_pos(cs, lo, hi);
    let b = trim_end_len(cs, a, hi);
    let ghost piece = cs@.subrange(lo as int, hi as int);
    let ghost pieces = done.push(piece);
    assert(pieces.drop_last() == done);
    assert(pieces.last() == piece);
    assert(cs@.subrange(a as int, b as int) == trim(piece));
    if b > a {
        if !*first {
            push_chars(out, ",");
        }
        *first = false;
        push_chars(out, "\"");
        let ghost pre = out@;
        let mut k = a;
        assert(cs@.subrange(a as int, a as int) =~= Seq::<char>::empty());
        while k < b
            invariant
                a <= k <= b <= cs@.len(),
                out@ == pre + cs@.subrange(a as int, k as int),
            decreases b - k,
        {
            crate::text::push_char(out, cs[k]);
            assert(cs@.subrange(a as int, k + 1) =~= cs@.subrange(a as int, k as int).push(cs@[k as int]));
            k += 1;
        }
        push_chars(out, "\"");
        proof {
            let items = nonempty_trimmed(pieces);
            assert(items == nonempty_trimmed(done).push(trim(piece)));
            assert(items.drop_last() == nonempty_trimmed(done));
            assert(out@ =~= base + quoted_list(items));
        }
    } else {
        assert(nonempty_trimmed(pieces) == nonempty_trimmed(done));
    }
}

/// The settings text with a `my_provider` block (api key, base url, and the
/// model names) and an `env` block added before its closing brace.
pub open spec fn provider_settings_chars(
    settings: Seq<char>,
    api_key: Seq<char>,
    base_url: Seq<char>,
    models: Option<Seq<char>>,
) -> Seq<char> {
    let head = settings.take(settings_cut(settings));
    let sep = if trim_end(head) != "{"@ { ","@ } else { Seq::empty() };
    let names = match models {
        Some(m) => model_names_chars(m),
        None => Seq::empty(),
    };
    head + sep + "\"provider\":{\"my_provider\":{\"api_key\":\""@ + api_key + "\",\"base_url\":\""@
        + base_url + "\",\"models\":["@ + names + "]}}"@ + ",\"env\":{\"MY_PROVIDER_API_KEY\":\""@
        + api_key + "\"}}"@
}

/// Injects the `my_provider` configuration read from the keyring into a
/// `settings.json` text; without both an api key and a base url the text is
/// returned as it is. `models` is the comma-separated list of model names.
pub fn extended_settings(
    settings: &str,
    api_key: Option<&str>,
    base_url: Option<&str>,
    models: Option<&str>,
) -> (out: String)
    ensures
        out@ == (match (api_key, base_url) {
            (Some(ak), Some(bu)) => provider_settings_chars(settings@, ak@, bu@, opt_view(models)),
            _ => settings@,
        }),
{
    let (ak, bu) = match (api_key, base_url) {
        (Some(ak), Some(bu)) => (ak, bu),
        _ => return String::from_str(settings),
    };
    let (cs, end) = cut_settings(settings);
    let mut out = String::new();
    push_chars(&mut out, settings.substring_char(0, end));
    let k = trim_end_len(&cs, 0, end);
    assert(cs@.subrange(0, end as int) == settings@.take(end as int));
    let brace_only = k == 1 && cs[0] == '{';
    let ghost content = trim_end(settings@.take(end as int));
    assert(cs@.subrange(0, k as int) == content);
    assert(brace_only == (content == "{"@)) by {
        reveal_strlit("{");
        if k == 1 && cs[0] == '{' {
            assert(content =~= "{"@);
        }
        if content == "{"@ {
            assert(content.len() == 1);
            assert(content[0] == cs@[0]);
        }
    }
    if !brace_only {
        push_chars(&mut out, ",");
    }
    let mut b = String::new();
    push_chars(&mut b, "\"provider\":{\"my_provider\":{\"api_key\":\"");
    push_chars(&mut b, ak);
    push_chars(&mut b, "\",\"base_url\":\"");
    push_chars(&mut b, bu);
    push_chars(&mut b, "\",\"models\":[");
    if let Some(m) = models {
        push_model_names(&mut b, m);
    }
    push_chars(&mut b, "]}}");
    push_chars(&mut b, ",\"env\":{\"MY_PROVIDER_API_KEY\":\"");
    push_chars(&mut b, ak);
    push_chars(&mut b, "\"}}");
    push_chars(&mut out, b.as_str());
    assert(out@ =~= provider_settings_chars(settings@, ak@, bu@, opt_view(models)));
    out
}

/// The settings after the credentials were read: as they are unless both the
/// access key and the secret key were found, else merged with the
/// configuration (if any) and the credentials.
pub fn models_settings(
    settings: &str,
    ak: Option<&str>,
    sk: Option<&str>,
    security_token: Option<&str>,
    config: Option<&AgentConfig>,
) -> (out: String)
    ensures
        out@ == (match (ak, sk) {
            (Some(a), Some(s)) => merged_settings_chars(
                settings@,
                opt_config(config),
                a@,
                s@,
                opt_view(security_token),
            ),
            _ => settings@,
        }),
{
    match (ak, sk) {
        (Some(a), Some(s)) => merge_settings(settings, config, a, s, security_token),
        _ => String::from_str(settings),
    }
}

/// The merged settings keep the given text up to its closing brace and
/// end with the credential block; the provider block is there exactly when
/// there is a configuration.
pub proof fn lemma_merge_structure(
    settings: Seq<char>,
    config: Option<AgentConfig>,
    ak: Seq<char>,
    sk: Seq<char>,
    security_token: Option<Seq<char>>,
)
    ensures
        ({
            let out = merged_settings_chars(settings, config, ak, sk, security_token);
            let head = settings.take(settings_cut(settings));
            let env = env_block_chars(ak, sk, security_token);
            &&& out.take(head.len() as int) == head
            &&& out.skip(out.len() - env.len()) == env
            &&& config matches Some(cfg) ==> contains_seq(out, provider_block_chars(settings, cfg))
        }),
{
    let out = merged_settings_chars(settings, config, ak, sk, security_token);
    let head = settings.take(settings_cut(settings));
    let content = trim_end(head);
    let sep = if content.len() > 0 && content.last() != '{' { ","@ } else { Seq::<char>::empty() };
    let env = env_block_chars(ak, sk, security_token);
    assert(out.take(head.len() as int) =~= head);
    assert(out.skip(out.len() - env.len()) =~= env);
    if let Some(cfg) = config {
        let p = provider_block_chars(settings, cfg);
        let i = (head.len() + sep.len()) as int;
        assert(out.subrange(i, i + p.len() as int) =~= p);
    }
}

/// Where the settings name no model yet, the merged settings choose the
/// first model of the configuration, under the `huawei-free` provider.
pub proof fn lemma_default_model_is_first(
    settings: Seq<char>,
    cfg: AgentConfig,
    ak: Seq<char>,
    sk: Seq<char>,
    security_token: Option<Seq<char>>,
)
    requires
        !contains_seq(settings, "\"model\""@),
        cfg.models@.len() > 0,
    ensures
        contains_seq(
            merged_settings_chars(settings, Some(cfg), ak, sk, security_token),
            "\"model\":\"huawei-free/"@ + cfg.models@[0].model_id@ + "\","@,
        ),
{
    let out = merged_settings_chars(settings, Some(cfg), ak, sk, security_token);
    let head = settings.take(settings_cut(settings));
    let content = trim_end(head);
    let sep = if content.len() > 0 && content.last() != '{' { ","@ } else { Seq::<char>::empty() };
    let id = cfg.models@[0].model_id@;
    let block = "\"provider\":{\""@ + SETTINGS_PROVIDER@ + "\":{\"api_key\":\""@ + cfg.api_key@ + "\",\"base_url\":\""@
        + cfg.base_url@ + "\",\"models\":["@ + model_entries_chars(cfg.models@) + "]}},"@;
    let dm = "\"model\":\""@ + SETTINGS_PROVIDER@ + "/"@ + id + "\","@;
    let pat = "\"model\":\"huawei-free/"@ + id + "\","@;
    assert(provider_block_chars(settings, cfg) =~= block + dm);
    assert(dm =~= pat) by {
        reveal_strlit("\"model\":\"");
        reveal_strlit("huawei-free");
        reveal_strlit("/");
        reveal_strlit("\"model\":\"huawei-free/");
    }
    let j = (head.len() + sep.len() + block.len()) as int;
    assert(out =~= head + sep + block + dm + env_block_chars(ak, sk, security_token));
    assert(out.subrange(j, j + pat.len()) =~= pat);
}

/// The ids of a list of models, in order.
pub open spec fn model_ids(ms: Seq<ModelInfo>) -> Seq<Seq<char>> {
    ms.map_values(|m: ModelInfo| m.model_id@)
}

/// The model list of the merged provider block is the ids of the
/// configuration's models, in their order, each as a JSON string: written
/// the same way as the model names of the `my_provider` block.
pub proof fn lemma_model_list_is_ids(ms: Seq<ModelInfo>)
    ensures
        model_entries_chars(ms) == quoted_list(model_ids(ms)),
    decreases ms.len(),
{
    if ms.len() > 1 {
        lemma_model_list_is_ids(ms.drop_last());
        assert(model_ids(ms).drop_last() =~= model_ids(ms.drop_last()));
    } else if ms.len() == 1 {
        assert(model_ids(ms).len() == 1);
    }
}

/// The separator before the injected `my_provider` block: where the settings
/// up to their closing brace hold only `{` and white space, the block follows
/// at once, with no comma (so `"{\n}\n"` gives valid JSON); otherwise a comma
/// comes first. The text before it is kept as it was.
pub proof fn lemma_extended_separator(
    settings: Seq<char>,
    api_key: Seq<char>,
    base_url: Seq<char>,
    models: Option<Seq<char>>,
)
    ensures
        ({
            let out = provider_settings_chars(settings, api_key, base_url, models);
            let head = settings.take(settings_cut(settings));
            &&& out.take(head.len() as int) == head
            &&& trim_end(head) == "{"@ ==> out.subrange(head.len() as int, head.len() + 11int) == "\"provider\":"@
            &&& trim_end(head) != "{"@ ==> out.subrange(head.len() as int, head.len() + 12int) == ",\"provider\":"@
        }),
{
    let out = provider_settings_chars(settings, api_key, base_url, models);
    let head = settings.take(settings_cut(settings));
    let sep = if trim_end(head) != "{"@ { ","@ } else { Seq::<char>::empty() };
    let rest = "\"provider\":{\"my_provider\":{\"api_key\":\""@;
    let tail = out.skip((head.len() + sep.len() + rest.len()) as int);
    assert(out =~= head + sep + rest + tail);
    assert(out.take(head.len() as int) =~= head);
    reveal_strlit("\"provider\":{\"my_provider\":{\"api_key\":\"");
    reveal_strlit("\"provider\":");
    reveal_strlit(",\"provider\":");
    reveal_strlit(",");
    if trim_end(head) == "{"@ {
        assert(out.subrange(head.len() as int, head.len() + 11int) =~= "\"provider\":"@);
    } else {
        assert(out.subrange(head.len() as int, head.len() + 12int) =~= ",\"provider\":"@);
    }
}

/// The separator before the blocks that the merge injects: the blocks follow
/// the settings at once where, once trailing white space is dropped, the text
/// before the closing brace is empty or ends with `{`; otherwise a comma
/// comes first.
pub proof fn lemma_merge_separator(
    settings: Seq<char>,
    config: Option<AgentConfig>,
    ak: Seq<char>,
    sk: Seq<char>,
    security_token: Option<Seq<char>>,
)
    ensures
        ({
            let out = merged_settings_chars(settings, config, ak, sk, security_token);
            let head = settings.take(settings_cut(settings));
            let content = trim_end(head);
            &&& out.take(head.len() as int) == head
            &&& (content.len() == 0 || content.last() == '{') ==> out[head.len() as int] == '"'
            &&& (content.len() > 0 && content.last() != '{') ==> out[head.len() as int] == ','
        }),
{
    let out = merged_settings_chars(settings, config, ak, sk, security_token);
    let head = settings.take(settings_cut(settings));
    let content = trim_end(head);
    let sep = if content.len() > 0 && content.last() != '{' { ","@ } else { Seq::<char>::empty() };
    let provider = match config {
        Some(cfg) => provider_block_chars(settings, cfg),
        None => Seq::<char>::empty(),
    };
    let env = env_block_chars(ak, sk, security_token);
    assert(out =~= head + sep + provider + env);
    assert(out.take(head.len() as int) =~= head);
    reveal_strlit(",");
    reveal_strlit("\"provider\":{\"");
    reveal_strlit("\"env\":{\"HW_ACCESS_KEY\":\"");
    if sep.len() == 0 {
        match config {
            Some(cfg) => {
                assert(out[head.len() as int] == provider[0]);
            },
            None => {
                assert(out[head.len() as int] == env[0]);
            },
        }
    } else {
        assert(out[head.len() as int] == sep[0]);
    }
}

/// The message of the report of a missing access key.
pub const AK_MISSING_MESSAGE: &'static str = "Failed to read HW_ACCESS_KEY from keyring when fetching models";
/// The message of the report of a missing secret key.
pub const SK_MISSING_MESSAGE: &'static str = "Failed to read HW_SECRET_KEY from keyring when fetching models";

/// Where the injection of the models into the settings stands.
pub enum InitState {
    /// The settings text has been handed over.
    Start { settings: String },
    /// The access key has been asked of the keyring.
    ReadingAccessKey { settings: String },
    /// The secret key has been asked of the keyring.
    ReadingSecretKey { settings: String, ak: String },
    /// The security token has been asked of the keyring.
    ReadingToken { settings: String, ak: String, sk: String },
    /// The configuration has been asked of TokenHub.
    Fetching { settings: String, ak: String, sk: String, security_token: Option<String> },
    /// The injection has ended.
    Done,
}

/// What the host reported.
pub enum InitEvent {
    /// The injection is to start.
    Begin,
    /// A keyring read returned.
    KeyringValue(Result<String, String>),
    /// The TokenHub call returned a configuration, or failed.
    Models(Option<AgentConfig>),
}

/// What the host is to do next.
pub enum InitAction {
    /// Read an entry of the credential keyring service.
    ReadKeyring(String),
    /// Fetch the configuration from TokenHub with these credentials.
    FetchModels { ak: String, sk: String, security_token: Option<String> },
    /// End with these settings, after reporting the event, if any.
    Finish { settings: String, report: Option<EventReport> },
    /// Nothing: the event does not belong to this state.
    Ignore,
}

/// The abstract state of the injection.
pub enum InitStateView {
    Start(Seq<char>),
    ReadingAccessKey(Seq<char>),
    ReadingSecretKey(Seq<char>, Seq<char>),
    ReadingToken(Seq<char>, Seq<char>, Seq<char>),
    Fetching(Seq<char>, Seq<char>, Seq<char>, Option<Seq<char>>),
    Done,
}

/// The abstract action.
pub enum InitActionView {
    ReadKeyring(Seq<char>),
    FetchModels(Seq<char>, Seq<char>, Option<Seq<char>>),
    Finish(Seq<char>, Option<(HostEvent, Seq<char>)>),
    Ignore,
}

/// The view of an optional text.
pub open spec fn opt_string(o: Option<String>) -> Option<Seq<char>> {
    match o {
        Some(t) => Some(t@),
        None => None,
    }
}

impl View for InitState {
    type V = InitStateView;

    open spec fn view(&self) -> InitStateView {
        match self {
            InitState::Start { settings } => InitStateView::Start(settings@),
            InitState::ReadingAccessKey { settings } => InitStateView::ReadingAccessKey(settings@),
            InitState::ReadingSecretKey { settings, ak } => InitStateView::ReadingSecretKey(settings@, ak@),
            InitState::ReadingToken { settings, ak, sk } => InitStateView::ReadingToken(settings@, ak@, sk@),
            InitState::Fetching { settings, ak, sk, security_token } => InitStateView::Fetching(
                settings@,
                ak@,
                sk@,
                opt_string(*security_token),
            ),
            InitState::Done => InitStateView::Done,
        }
    }
}

impl View for InitAction {
    type V = InitActionView;

    open spec fn view(&self) -> InitActionView {
        match self {
            InitAction::ReadKeyring(n) => InitActionView::ReadKeyring(n@),
            InitAction::FetchModels { ak, sk, security_token } => InitActionView::FetchModels(
                ak@,
                sk@,
                opt_string(*security_token),
            ),
            InitAction::Finish { settings, report } => InitActionView::Finish(
                settings@,
                match report {
                    Some(r) => Some(r@),
                    None => None,
                },
            ),
            InitAction::Ignore => InitActionView::Ignore,
        }
    }
}

/// A keyring value, if it was read and is not empty.
pub open spec fn read_value(r: Result<String, String>) -> Option<Seq<char>> {
    match r {
        Ok(v) => if v@.len() > 0 {
            Some(v@)
        } else {
            None
        },
        Err(_) => None,
    }
}

/// The injection's steps. The access key and then the secret key are read;
/// where one is missing or empty, that is reported and the settings are
/// returned as they are, with nothing fetched. The optional security token
/// is read, the configuration fetched with the credentials, and the settings
/// returned merged with it (or with the credentials alone where TokenHub gave
/// none). Any other event is ignored.
pub open spec fn init_transition(s: InitStateView, e: InitEvent) -> (InitStateView, InitActionView) {
    match (s, e) {
        (InitStateView::Start(settings), InitEvent::Begin) => (
            InitStateView::ReadingAccessKey(settings),
            InitActionView::ReadKeyring(ACCESS_KEY@),
        ),
        (InitStateView::ReadingAccessKey(settings), InitEvent::KeyringValue(r)) => match read_value(r) {
            Some(ak) => (InitStateView::ReadingSecretKey(settings, ak), InitActionView::ReadKeyring(SECRET_KEY@)),
            None => (
                InitStateView::Done,
                InitActionView::Finish(settings, Some((HostEvent::AkskMissing, AK_MISSING_MESSAGE@))),
            ),
        },
        (InitStateView::ReadingSecretKey(settings, ak), InitEvent::KeyringValue(r)) => match read_value(r) {
            Some(sk) => (
                InitStateView::ReadingToken(settings, ak, sk),
                InitActionView::ReadKeyring(SECURITY_TOKEN@),
            ),
            None => (
                InitStateView::Done,
                InitActionView::Finish(settings, Some((HostEvent::AkskMissing, SK_MISSING_MESSAGE@))),
            ),
        },
        (InitStateView::ReadingToken(settings, ak, sk), InitEvent::KeyringValue(r)) => (
            InitStateView::Fetching(settings, ak, sk, read_value(r)),
            InitActionView::FetchModels(ak, sk, read_value(r)),
        ),
        (InitStateView::Fetching(settings, ak, sk, token), InitEvent::Models(c)) => (
            InitStateView::Done,
            InitActionView::Finish(merged_settings_chars(settings, c, ak, sk, token), None),
        ),
        (s, _) => (s, InitActionView::Ignore),
    }
}

/// A keyring value, if it was read and is not empty.
fn read_value_of(r: Result<String, String>) -> (o: Option<String>)
    ensures
        opt_string(o) == read_value(r),
{
    match r {
        Ok(v) => if v.as_str().is_empty() {
            None
        } else {
            Some(v)
        },
        Err(_) => None,
    }
}

/// A copy of an optional text.
fn clone_opt(o: &Option<String>) -> (c: Option<String>)
    ensures
        opt_string(c) == opt_string(*o),
{
    match o {
        Some(t) => Some(String::from_str(t.as_str())),
        None => None,
    }
}

/// One step of the injection of the models into the settings.
pub fn init_step(state: InitState, event: InitEvent) -> (r: (InitState, InitAction))
    ensures
        (r.0@, r.1@) == init_transition(state@, event),
{
    match (state, event) {
        (InitState::Start { settings }, InitEvent::Begin) => {
            (InitState::ReadingAccessKey { settings }, InitAction::ReadKeyring(String::from_str(ACCESS_KEY)))
        },
        (InitState::ReadingAccessKey { settings }, InitEvent::KeyringValue(r)) => match read_value_of(r) {
            Some(ak) => (
                InitState::ReadingSecretKey { settings, ak },
                InitAction::ReadKeyring(String::from_str(SECRET_KEY)),
            ),
            None => (
                InitState::Done,
                InitAction::Finish {
                    settings,
                    report: Some(event_report(HostEvent::AkskMissing, AK_MISSING_MESSAGE)),
                },
            ),
        },
        (InitState::ReadingSecretKey { settings, ak }, InitEvent::KeyringValue(r)) => match read_value_of(r) {
            Some(sk) => (
                InitState::ReadingToken { settings, ak, sk },
                InitAction::ReadKeyring(String::from_str(SECURITY_TOKEN)),
            ),
            None => (
                InitState::Done,
                InitAction::Finish {
                    settings,
                    report: Some(event_report(HostEvent::AkskMissing, SK_MISSING_MESSAGE)),
                },
            ),
        },
        (InitState::ReadingToken { settings, ak, sk }, InitEvent::KeyringValue(r)) => {
            let security_token = read_value_of(r);
            let token = clone_opt(&security_token);
            let a = String::from_str(ak.as_str());
            let b = String::from_str(sk.as_str());
            (
                InitState::Fetching { settings, ak, sk, security_token },
                InitAction::FetchModels { ak: a, sk: b, security_token: token },
            )
        },
        (InitState::Fetching { settings, ak, sk, security_token }, InitEvent::Models(c)) => {
            let token: Option<&str> = match &security_token {
                Some(t) => Some(t.as_str()),
                None => None,
            };
            let config: Option<&AgentConfig> = match &c {
                Some(x) => Some(x),
                None => None,
            };
            let merged = merge_settings(settings.as_str(), config, ak.as_str(), sk.as_str(), token);
            (InitState::Done, InitAction::Finish { settings: merged, report: None })
        },
        (state, _) => (state, InitAction::Ignore),
    }
}

/// Where a credential is missing, the settings come back as they were,
/// nothing is fetched from TokenHub, and exactly one missing-credential
/// event is reported.
pub proof fn lemma_missing_credentials_reported(settings: Seq<char>, ak: Seq<char>, r: Result<String, String>)
    requires
        read_value(r) is None,
    ensures
        init_transition(InitStateView::ReadingAccessKey(settings), InitEvent::KeyringValue(r)) == (
            InitStateView::Done,
            InitActionView::Finish(settings, Some((HostEvent::AkskMissing, AK_MISSING_MESSAGE@))),
        ),
        init_transition(InitStateView::ReadingSecretKey(settings, ak), InitEvent::KeyringValue(r)) == (
            InitStateView::Done,
            InitActionView::Finish(settings, Some((HostEvent::AkskMissing, SK_MISSING_MESSAGE@))),
        ),
{
}

} // verus!
