//! OpenViking memory client: endpoints, request bodies, the handling of its
//! replies, the token counter that triggers a commit, and the selection of
//! search hits and message text.
use vstd::prelude::*;
use crate::json::{json_quote, json_string};
use crate::tokenhub::opt_view;
use crate::text::{
    decimal, nonempty_ok, nonempty_value, parse_u32, push_chars, push_decimal, spec_parse_u32,
    str_eq,
};

verus! {

/// The OpenViking server used when none is configured.
pub const DEFAULT_BASE_URL: &'static str = "http://127.0.0.1:1933";
/// The headers of every request, as a JSON object.
pub const JSON_HEADERS: &'static str = "{\"Content-Type\":\"application/json\"}";
/// The keyring service under which the plugin keeps its state.
pub const KEYRING_SERVICE: &'static str = "openviking";

/// The server URL: the configured one where the keyring holds a non-empty
/// value, else the default.
pub open spec fn base_url_chars(stored: Result<String, String>) -> Seq<char> {
    match nonempty_ok(stored) {
        Some(v) => v,
        None => DEFAULT_BASE_URL@,
    }
}

/// Chooses the server URL from what the keyring returned for `url`.
pub fn base_url_from(stored: Result<String, String>) -> (r: String)
    ensures
        r@ == base_url_chars(stored),
{
    match nonempty_value(stored) {
        Some(v) => v,
        None => String::from_str(DEFAULT_BASE_URL),
    }
}

/// `base` followed by `suffix`.
fn join2(base: &str, suffix: &str) -> (r: String)
    ensures
        r@ == base@ + suffix@,
{
    let mut r = String::new();
    push_chars(&mut r, base);
    push_chars(&mut r, suffix);
    r
}

/// The endpoint that creates sessions.
pub fn sessions_url(base: &str) -> (r: String)
    ensures
        r@ == base@ + "/api/v1/sessions"@,
{
    join2(base, "/api/v1/sessions")
}

/// The endpoint that searches.
pub fn search_url(base: &str) -> (r: String)
    ensures
        r@ == base@ + "/api/v1/search/search"@,
{
    join2(base, "/api/v1/search/search")
}

/// The endpoint that takes the messages of a session.
pub fn messages_url(base: &str, session_id: &str) -> (r: String)
    ensures
        r@ == base@ + "/api/v1/sessions/"@ + session_id@ + "/messages"@,
{
    let mut r = join2(base, "/api/v1/sessions/");
    push_chars(&mut r, session_id);
    push_chars(&mut r, "/messages");
    r
}

/// The endpoint that commits a session.
pub fn commit_url(base: &str, session_id: &str) -> (r: String)
    ensures
        r@ == base@ + "/api/v1/sessions/"@ + session_id@ + "/commit"@,
{
    let mut r = join2(base, "/api/v1/sessions/");
    push_chars(&mut r, session_id);
    push_chars(&mut r, "/commit");
    r
}

/// The body that adds a message: the role, and the content as a JSON string.
pub fn add_message_body(role: &str, content: &str) -> (r: String)
    ensures
        r@ == "{\"role\":\""@ + role@ + "\",\"content\":"@ + json_quote(content@) + "}"@,
{
    let mut r = String::new();
    push_chars(&mut r, "{\"role\":\"");
    push_chars(&mut r, role);
    push_chars(&mut r, "\",\"content\":");
    let quoted = json_string(content);
    push_chars(&mut r, quoted.as_str());
    push_chars(&mut r, "}");
    r
}

/// The body of a search: the query as a JSON string, the session and the limit.
pub fn search_body(query: &str, session_id: &str, limit: u32) -> (r: String)
    ensures
        r@ == "{\"query\":"@ + json_quote(query@) + ",\"session_id\":\""@ + session_id@
            + "\",\"limit\":"@ + decimal(limit as nat) + "}"@,
{
    let mut r = String::new();
    push_chars(&mut r, "{\"query\":");
    let quoted = json_string(query);
    push_chars(&mut r, quoted.as_str());
    push_chars(&mut r, ",\"session_id\":\"");
    push_chars(&mut r, session_id);
    push_chars(&mut r, "\",\"limit\":");
    push_decimal(&mut r, limit as u64);
    push_chars(&mut r, "}");
    r
}

/// The body of a commit: how many recent messages to keep.
pub fn commit_body(keep_recent: u32) -> (r: String)
    ensures
        r@ == "{\"keep_recent_count\":"@ + decimal(keep_recent as nat) + "}"@,
{
    let mut r = String::new();
    push_chars(&mut r, "{\"keep_recent_count\":");
    push_decimal(&mut r, keep_recent as u64);
    push_chars(&mut r, "}");
    r
}

/// The outcome of a reply to operation `op`: an error naming the status
/// unless it is 200, an error naming the parse failure, the server's error
/// where it reports a non-empty one, and success otherwise. `parsed` is the
/// `error` field of the parsed body, or the parser's message.
pub open spec fn reply_outcome_spec(
    op: Seq<char>,
    status: u16,
    parsed: Result<Option<String>, String>,
) -> Result<(), Seq<char>> {
    if status != 200 {
        Err(op + ": status="@ + decimal(status as nat))
    } else {
        match parsed {
            Err(e) => Err(op + ": parse: "@ + e@),
            Ok(Some(e)) => if e@.len() > 0 {
                Err(e@)
            } else {
                Ok(())
            },
            Ok(None) => Ok(()),
        }
    }
}

/// The view of a result whose error is a string.
pub open spec fn result_view<T>(r: Result<T, String>) -> Result<T, Seq<char>> {
    match r {
        Ok(v) => Ok(v),
        Err(e) => Err(e@),
    }
}

/// Decides the outcome of a reply to operation `op`.
pub fn reply_outcome(op: &str, status: u16, parsed: Result<Option<String>, String>) -> (r: Result<
    (),
    String,
>)
    ensures
        result_view(r) == reply_outcome_spec(op@, status, parsed),
{
    if status != 200 {
        let mut m = join2(op, ": status=");
        push_decimal(&mut m, status as u64);
        return Err(m);
    }
    match parsed {
        Err(e) => {
            let mut m = join2(op, ": parse: ");
            push_chars(&mut m, e.as_str());
            Err(m)
        },
        Ok(Some(e)) => if e.as_str().is_empty() {
            Ok(())
        } else {
            Err(e)
        },
        Ok(None) => Ok(()),
    }
}

/// The `result` of a session-creation reply.
pub struct CreateSessionResult {
    pub session_id: String,
}

/// A session-creation reply.
pub struct CreateSessionResp {
    pub result: CreateSessionResult,
    pub error: Option<String>,
}

/// The `error` field of a parsed reply, or the parser's message.
pub open spec fn parsed_error(parsed: Result<CreateSessionResp, String>) -> Result<Option<String>, String> {
    match parsed {
        Ok(r) => Ok(r.error),
        Err(e) => Err(e),
    }
}

/// The session that a creation reply yields: the reply must be a success
/// (see `reply_outcome_spec`) and name a non-empty session id.
pub open spec fn session_from_reply_spec(
    status: u16,
    parsed: Result<CreateSessionResp, String>,
) -> Result<Seq<char>, Seq<char>> {
    match reply_outcome_spec("create_session"@, status, parsed_error(parsed)) {
        Err(e) => Err(e),
        Ok(_) => {
            let sid = parsed->Ok_0.result.session_id@;
            if sid.len() == 0 {
                Err("create_session: empty session_id"@)
            } else {
                Ok(sid)
            }
        },
    }
}

/// The view of a result of strings.
pub open spec fn string_result_view(r: Result<String, String>) -> Result<Seq<char>, Seq<char>> {
    match r {
        Ok(v) => Ok(v@),
        Err(e) => Err(e@),
    }
}

/// Decides the session id that a creation reply yields.
pub fn session_from_reply(status: u16, parsed: Result<CreateSessionResp, String>) -> (r: Result<
    String,
    String,
>)
    ensures
        string_result_view(r) == session_from_reply_spec(status, parsed),
{
    let (err, sid) = match parsed {
        Ok(resp) => (Ok(resp.error), Some(resp.result.session_id)),
        Err(e) => (Err(e), None),
    };
    match reply_outcome("create_session", status, err) {
        Err(e) => Err(e),
        Ok(()) => {
            let sid = match sid {
                Some(s) => s,
                None => String::new(),
            };
            if sid.as_str().is_empty() {
                Err(String::from_str("create_session: empty session_id"))
            } else {
                Ok(sid)
            }
        },
    }
}

/// A parsed search reply: the server's error, and its `result` serialized
/// back to JSON text (or the serializer's message).
pub struct SearchReply {
    pub error: Option<String>,
    pub result: Result<String, String>,
}

/// The outcome of a search reply: that of `reply_outcome_spec`, then the
/// serialized result.
pub open spec fn search_from_reply_spec(
    status: u16,
    parsed: Result<SearchReply, String>,
) -> Result<Seq<char>, Seq<char>> {
    let err = match parsed {
        Ok(r) => Ok(r.error),
        Err(e) => Err(e),
    };
    match reply_outcome_spec("search"@, status, err) {
        Err(e) => Err(e),
        Ok(_) => match parsed->Ok_0.result {
            Ok(j) => Ok(j@),
            Err(e) => Err("search: serialize: "@ + e@),
        },
    }
}

/// Decides the outcome of a search reply.
pub fn search_from_reply(status: u16, parsed: Result<SearchReply, String>) -> (r: Result<
    String,
    String,
>)
    ensures
        string_result_view(r) == search_from_reply_spec(status, parsed),
{
    let (err, result) = match parsed {
        Ok(resp) => (Ok(resp.error), Some(resp.result)),
        Err(e) => (Err(e), None),
    };
    match reply_outcome("search", status, err) {
        Err(e) => Err(e),
        Ok(()) => match result {
            Some(Ok(j)) => Ok(j),
            Some(Err(e)) => {
                let mut m = String::from_str("search: serialize: ");
                push_chars(&mut m, e.as_str());
                Err(m)
            },
            None => Err(String::new()),
        },
    }
}

/// The keyring entry that holds the token count of a session.
pub fn token_key(session_id: &str) -> (r: String)
    ensures
        r@ == "tokens_"@ + session_id@,
{
    join2("tokens_", session_id)
}

/// The result of counting the tokens of a message.
pub struct TokenUpdate {
    /// The new running count.
    pub total: u32,
    /// What to store as the running count.
    pub stored: String,
    /// Whether the count reached the threshold, so that the session is to be
    /// committed and the count reset to `"0"`.
    pub commit: bool,
}

/// The token estimate of a text: a quarter of its length in UTF-8 bytes.
pub open spec fn token_estimate(content: &str) -> u32 {
    (content.len() / 4) as u32
}

/// The running count read back from the keyring: the stored number where
/// it parses, else zero.
pub open spec fn stored_count(stored: Result<String, String>) -> u32 {
    match stored {
        Ok(s) => match spec_parse_u32(s@) {
            Some(n) => n,
            None => 0,
        },
        Err(_) => 0,
    }
}

/// Adds the estimate for `content` to the stored count (saturating), and
/// decides whether the threshold is reached.
pub fn track_tokens(content: &str, stored: Result<String, String>, threshold: u32) -> (r: TokenUpdate)
    ensures
        r.total as int == if stored_count(stored) + token_estimate(content) > u32::MAX {
            u32::MAX as int
        } else {
            stored_count(stored) + token_estimate(content)
        },
        r.stored@ == decimal(r.total as nat),
        r.commit == (r.total >= threshold),
{
    let added = (content.len() / 4) as u32;
    let current = match stored {
        Ok(s) => match parse_u32(s.as_str()) {
            Some(n) => n,
            None => 0,
        },
        Err(_) => 0,
    };
    let total = current.saturating_add(added);
    let mut text = String::new();
    push_decimal(&mut text, total as u64);
    TokenUpdate { total, stored: text, commit: total >= threshold }
}

/// One part of a message's content.
pub struct ContentPart {
    pub part_type: String,
    pub text: String,
}

/// The texts of the `"text"` parts that are not empty, joined by line feeds.
pub open spec fn joined_texts(parts: Seq<ContentPart>) -> Seq<char>
    decreases parts.len(),
{
    if parts.len() == 0 {
        Seq::empty()
    } else {
        let t = joined_texts(parts.drop_last());
        let p = parts.last();
        if p.part_type@ == "text"@ && p.text@.len() > 0 {
            if t.len() == 0 {
                p.text@
            } else {
                t + "\n"@ + p.text@
            }
        } else {
            t
        }
    }
}

/// The text that a message contributes to memory: none for tool messages;
/// the content where it is not empty; else the joined text parts, if any.
pub open spec fn extract_text_spec(role: Seq<char>, content: Seq<char>, parts: Seq<ContentPart>) -> Option<Seq<char>> {
    if role == "tool"@ {
        None
    } else if content.len() > 0 {
        Some(content)
    } else if joined_texts(parts).len() > 0 {
        Some(joined_texts(parts))
    } else {
        None
    }
}

/// Extracts the text of a message to mirror into memory.
pub fn extract_text(role: &str, content: &str, content_parts: &[ContentPart]) -> (r: Option<String>)
    ensures
        match r {
            Some(t) => extract_text_spec(role@, content@, content_parts@) == Some(t@),
            None => extract_text_spec(role@, content@, content_parts@) is None,
        },
{
    if str_eq(role, "tool") {
        return None;
    }
    if !content.is_empty() {
        return Some(String::from_str(content));
    }
    let mut text = String::new();
    let n = content_parts.len();
    for i in 0..n
        invariant
            n == content_parts@.len(),
            text@ == joined_texts(content_parts@.take(i as int)),
    {
        let part = &content_parts[i];
        assert(content_parts@.take(i + 1).drop_last() == content_parts@.take(i as int));
        assert(content_parts@.take(i + 1).last() == content_parts@[i as int]);
        if str_eq(part.part_type.as_str(), "text") && !part.text.as_str().is_empty() {
            if !text.as_str().is_empty() {
                push_chars(&mut text, "\n");
            }
            push_chars(&mut text, part.text.as_str());
        }
    }
    assert(content_parts@.take(n as int) == content_parts@);
    if text.as_str().is_empty() {
        None
    } else {
        Some(text)
    }
}

/// The number of hits to ask for: the requested limit where it is positive
/// (as `u32`, keeping its low 32 bits), else ten.
pub fn search_limit(limit: i64) -> (r: u32)
    ensures
        r == if limit > 0 { limit as u32 } else { 10 },
{
    if limit > 0 {
        limit as u32
    } else {
        10
    }
}

/// The string fields of one entry of a search result (absent where the
/// entry has no such field or it is not a string).
pub struct SearchEntry {
    pub overview: Option<String>,
    pub abstract_text: Option<String>,
}

/// One hit chosen from a search result: the list it comes from (memories
/// or resources), its position there, and its text.
pub struct SearchPick {
    pub from_resources: bool,
    pub index: usize,
    pub text: String,
}

/// The view of an optional string.
pub open spec fn opt_string(o: Option<String>) -> Option<Seq<char>> {
    match o {
        Some(s) => Some(s@),
        None => None,
    }
}

/// The text of a memory entry: its overview, or its abstract where it has
/// no overview, or nothing.
pub open spec fn memory_text(e: SearchEntry) -> Seq<char> {
    match opt_string(e.overview) {
        Some(t) => t,
        None => match opt_string(e.abstract_text) {
            Some(t) => t,
            None => Seq::empty(),
        },
    }
}

/// The text of a resource entry: its abstract, or nothing.
pub open spec fn resource_text(e: SearchEntry) -> Seq<char> {
    match opt_string(e.abstract_text) {
        Some(t) => t,
        None => Seq::empty(),
    }
}

/// The hits (source, position, text) that a list of entries yields: one per
/// entry with a non-empty text, in order.
pub open spec fn picks_of(entries: Seq<SearchEntry>, from_resources: bool) -> Seq<(bool, int, Seq<char>)>
    decreases entries.len(),
{
    if entries.len() == 0 {
        Seq::empty()
    } else {
        let rest = picks_of(entries.drop_last(), from_resources);
        let t = if from_resources {
            resource_text(entries.last())
        } else {
            memory_text(entries.last())
        };
        if t.len() > 0 {
            rest.push((from_resources, entries.len() - 1, t))
        } else {
            rest
        }
    }
}

/// Whether the picks are exactly the given hits.
pub open spec fn picks_match(picks: Seq<SearchPick>, hits: Seq<(bool, int, Seq<char>)>) -> bool {
    &&& picks.len() == hits.len()
    &&& forall|i: int|
        0 <= i < picks.len() ==> {
            &&& (#[trigger] picks[i]).from_resources == hits[i].0
            &&& picks[i].index as int == hits[i].1
            &&& picks[i].text@ == hits[i].2
        }
}

/// The text of an entry as `memory_text` or `resource_text` takes it.
fn entry_text(e: &SearchEntry, from_resources: bool) -> (t: String)
    ensures
        t@ == if from_resources { resource_text(*e) } else { memory_text(*e) },
{
    if !from_resources {
        if let Some(o) = &e.overview {
            return o.clone();
        }
    }
    match &e.abstract_text {
        Some(a) => a.clone(),
        None => String::new(),
    }
}

/// Appends the hits of one list.
fn push_picks(out: &mut Vec<SearchPick>, entries: &Vec<SearchEntry>, from_resources: bool)
    ensures
        final(out)@.len() == old(out)@.len() + picks_of(entries@, from_resources).len(),
        final(out)@.take(old(out)@.len() as int) == old(out)@,
        picks_match(final(out)@.skip(old(out)@.len() as int), picks_of(entries@, from_resources)),
{
    let n = entries.len();
    let ghost start = out@;
    for i in 0..n
        invariant
            n == entries@.len(),
            out@.len() == start.len() + picks_of(entries@.take(i as int), from_resources).len(),
            out@.take(start.len() as int) == start,
            picks_match(out@.skip(start.len() as int), picks_of(entries@.take(i as int), from_resources)),
    {
        assert(entries@.take(i + 1).drop_last() == entries@.take(i as int));
        assert(entries@.take(i + 1).last() == entries@[i as int]);
        let t = entry_text(&entries[i], from_resources);
        let ghost before = out@;
        if !t.as_str().is_empty() {
            out.push(SearchPick { from_resources, index: i, text: t });
            assert(out@.take(start.len() as int) =~= start);
            assert(out@.skip(start.len() as int) =~= before.skip(start.len() as int).push(out@.last()));
        }
    }
    assert(entries@.take(n as int) == entries@);
}

/// Chooses the hits of a search result: the memories with a non-empty text,
/// then the resources with a non-empty abstract, each in order.
pub fn pick_search_texts(memories: &Vec<SearchEntry>, resources: &Vec<SearchEntry>) -> (r: Vec<SearchPick>)
    ensures
        picks_match(r@, picks_of(memories@, false) + picks_of(resources@, true)),
{
    let mut out: Vec<SearchPick> = Vec::new();
    push_picks(&mut out, memories, false);
    let ghost first = out@;
    push_picks(&mut out, resources, true);
    proof {
        let h = picks_of(memories@, false) + picks_of(resources@, true);
        assert(first.skip(0) == first);
        assert forall|i: int| 0 <= i < out@.len() implies {
            &&& (#[trigger] out@[i]).from_resources == h[i].0
            &&& out@[i].index as int == h[i].1
            &&& out@[i].text@ == h[i].2
        } by {
            if i < first.len() {
                assert(out@[i] == first[i]);
                assert(first.skip(0)[i] == first[i]);
            } else {
                assert(out@.skip(first.len() as int)[i - first.len()] == out@[i]);
            }
        }
    }
    out
}

/// The keyring entries that the memory configuration sets: the server URL
/// and the API key, each where it is given and not empty.
pub open spec fn memory_init_writes_spec(server_url: Option<Seq<char>>, api_key: Option<Seq<char>>) -> Seq<(Seq<char>, Seq<char>)> {
    let a: Seq<(Seq<char>, Seq<char>)> = match server_url {
        Some(u) => if u.len() > 0 { seq![("url"@, u)] } else { Seq::empty() },
        None => Seq::empty(),
    };
    let b: Seq<(Seq<char>, Seq<char>)> = match api_key {
        Some(k) => if k.len() > 0 { seq![("api_key"@, k)] } else { Seq::empty() },
        None => Seq::empty(),
    };
    a + b
}

/// The keyring entries (name, value) to set from the memory configuration.
pub fn memory_init_writes(server_url: Option<&str>, api_key: Option<&str>) -> (r: Vec<(String, String)>)
    ensures
        r@.len() == memory_init_writes_spec(opt_view(server_url), opt_view(api_key)).len(),
        forall|i: int|
            0 <= i < r@.len() ==> (#[trigger] r@[i]).0@ == memory_init_writes_spec(
                opt_view(server_url),
                opt_view(api_key),
            )[i].0 && r@[i].1@ == memory_init_writes_spec(opt_view(server_url), opt_view(api_key))[i].1,
{
    let mut r: Vec<(String, String)> = Vec::new();
    if let Some(u) = server_url {
        if !u.is_empty() {
            r.push((String::from_str("url"), String::from_str(u)));
        }
    }
    if let Some(k) = api_key {
        if !k.is_empty() {
            r.push((String::from_str("api_key"), String::from_str(k)));
        }
    }
    let ghost w = memory_init_writes_spec(opt_view(server_url), opt_view(api_key));
    assert(r@.len() == w.len());
    r
}


/// The two keyring writes of the memory configuration are independent: the
/// server URL is stored exactly when it is given and not empty, the API key
/// likewise, whatever the other one is; every write stores a non-empty value
/// under `url` or `api_key`, and there is one write per such value.
pub proof fn lemma_memory_writes_independent(server_url: Option<Seq<char>>, api_key: Option<Seq<char>>)
    ensures
        ({
            let w = memory_init_writes_spec(server_url, api_key);
            let has_url = server_url matches Some(u) && u.len() > 0;
            let has_key = api_key matches Some(k) && k.len() > 0;
            &&& w.len() == (if has_url { 1int } else { 0int }) + (if has_key { 1int } else { 0int })
            &&& forall|u: Seq<char>| server_url == Some(u) && u.len() > 0 ==> #[trigger] w.contains(("url"@, u))
            &&& forall|k: Seq<char>| api_key == Some(k) && k.len() > 0 ==> #[trigger] w.contains(("api_key"@, k))
            &&& forall|i: int|
                0 <= i < w.len() ==> (#[trigger] w[i]).1.len() > 0 && (w[i].0 == "url"@ || w[i].0 == "api_key"@)
        }),
{
    let w = memory_init_writes_spec(server_url, api_key);
    if let Some(u) = server_url {
        if u.len() > 0 {
            assert(w[0] == ("url"@, u));
        }
    }
    if let Some(k) = api_key {
        if k.len() > 0 {
            assert(w[w.len() - 1] == ("api_key"@, k));
        }
    }
}

/// The count that `track_tokens` stores is the count it reads back.
pub proof fn lemma_stored_count_round_trip(update: TokenUpdate)
    requires
        update.stored@ == decimal(update.total as nat),
    ensures
        stored_count(Ok(update.stored)) == update.total,
{
    crate::text::lemma_parse_decimal_round_trip(update.total);
}

/// The text mirrored into memory is never empty, and tool messages have none.
pub proof fn lemma_extracted_text_nonempty(role: Seq<char>, content: Seq<char>, parts: Seq<ContentPart>)
    ensures
        extract_text_spec(role, content, parts) matches Some(t) ==> t.len() > 0,
        role == "tool"@ ==> extract_text_spec(role, content, parts) is None,
{
}

/// Every hit has a non-empty text and names an entry of its list.
pub proof fn lemma_picks_valid(entries: Seq<SearchEntry>, from_resources: bool)
    ensures
        forall|i: int|
            0 <= i < picks_of(entries, from_resources).len() ==> {
                let h = #[trigger] picks_of(entries, from_resources)[i];
                &&& h.0 == from_resources
                &&& 0 <= h.1 < entries.len()
                &&& h.2.len() > 0
            },
    decreases entries.len(),
{
    if entries.len() > 0 {
        let rest = picks_of(entries.drop_last(), from_resources);
        lemma_picks_valid(entries.drop_last(), from_resources);
        assert forall|i: int| 0 <= i < picks_of(entries, from_resources).len() implies {
            let h = #[trigger] picks_of(entries, from_resources)[i];
            &&& h.0 == from_resources
            &&& 0 <= h.1 < entries.len()
            &&& h.2.len() > 0
        } by {
            if i < rest.len() {
                assert(picks_of(entries, from_resources)[i] == rest[i]);
            }
        }
    }
}

} // verus!
