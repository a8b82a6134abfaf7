//! TokenHub model-configuration client: request signing (SDK-HMAC-SHA256),
//! headers, and the handling of the reply.
use vstd::prelude::*;
use vstd::utf8::encode_utf8;
use crate::calendar::{timestamp_chars, utc_nanos_to_timestamp};
use crate::digest::{hmac_sha256_owned, hmac_sha256_tag, sha256, sha256_digest};
use crate::hexcode::{hex, spec_hex};
use crate::text::{push_chars, str_eq};

verus! {

/// The host of the TokenHub API.
pub const DEFAULT_DOMAIN: &'static str = "devstation.myhuaweicloud.com";
/// The path that the request is sent to.
pub const API_PATH: &'static str = "/open-api-public/v1/tokenhub-configs";
/// The path that the signature covers.
pub const API_PATH_SIGN: &'static str = "/open-api-public/v1/tokenhub-configs/";
/// The id of the runtime provider whose model configurations are renewed.
pub const PROVIDER: &'static str = "hwdevspace";

/// One model as TokenHub describes it.
pub struct ModelInfo {
    pub model_id: String,
    pub model_name: String,
    pub context_window: u64,
    pub max_tokens: u64,
}

/// An embedding model as TokenHub names it.
pub struct EmbeddingModel {
    pub model_id: String,
}

/// The configuration that TokenHub returns: credentials, endpoint, chat
/// models and embedding models.
pub struct AgentConfig {
    pub api_key: String,
    pub base_url: String,
    pub models: Vec<ModelInfo>,
    pub embedding_models: Vec<EmbeddingModel>,
}

/// The context window and output limit that this library sets for a known
/// model, by its id.
pub open spec fn model_limits(id: Seq<char>) -> Option<(u64, u64)> {
    if id == "glm-5.2"@ {
        Some((131072, 131072))
    } else if id == "glm-5.1"@ {
        Some((131072, 131072))
    } else if id == "glm-5"@ {
        Some((131072, 65536))
    } else if id == "openpangu-2.0-flash"@ {
        Some((512000, 131072))
    } else if id == "deepseek-r1-250528"@ {
        Some((98304, 32768))
    } else if id == "deepseek-v3.2"@ {
        Some((131072, 32768))
    } else if id == "DeepSeek-V3"@ {
        Some((131072, 32768))
    } else if id == "deepseek-v3.1-terminus"@ {
        Some((131072, 32768))
    } else {
        None
    }
}

/// Looks a model id up in the table of known limits.
pub fn known_limits(id: &str) -> (r: Option<(u64, u64)>)
    ensures
        r == model_limits(id@),
{
    if str_eq(id, "glm-5.2") {
        Some((131072, 131072))
    } else if str_eq(id, "glm-5.1") {
        Some((131072, 131072))
    } else if str_eq(id, "glm-5") {
        Some((131072, 65536))
    } else if str_eq(id, "openpangu-2.0-flash") {
        Some((512000, 131072))
    } else if str_eq(id, "deepseek-r1-250528") {
        Some((98304, 32768))
    } else if str_eq(id, "deepseek-v3.2") {
        Some((131072, 32768))
    } else if str_eq(id, "DeepSeek-V3") {
        Some((131072, 32768))
    } else if str_eq(id, "deepseek-v3.1-terminus") {
        Some((131072, 32768))
    } else {
        None
    }
}

/// Whether `new` is `old` with the known limits of its model applied: the
/// same id and name, and the context window and output limit of the table
/// where the id is in it, else unchanged.
pub open spec fn limits_applied(old: ModelInfo, new: ModelInfo) -> bool {
    &&& new.model_id == old.model_id
    &&& new.model_name == old.model_name
    &&& match model_limits(old.model_id@) {
        Some(l) => new.context_window == l.0 && new.max_tokens == l.1,
        None => new.context_window == old.context_window && new.max_tokens == old.max_tokens,
    }
}

/// Sets the context window and output limit of every model whose id is in
/// the table of known limits; other models are left as they are.
pub fn override_limits(models: &mut [ModelInfo])
    ensures
        final(models)@.len() == old(models)@.len(),
        forall|i: int|
            0 <= i < old(models)@.len() ==> limits_applied(#[trigger] old(models)@[i], final(models)@[i]),
{
    let n = models.len();
    for i in 0..n
        invariant
            n == old(models)@.len(),
            models@.len() == n,
            forall|j: int| 0 <= j < i ==> limits_applied(#[trigger] old(models)@[j], models@[j]),
            forall|j: int| i <= j < n ==> #[trigger] models@[j] == old(models)@[j],
    {
        if let Some((cw, mt)) = known_limits(models[i].model_id.as_str()) {
            models[i].context_window = cw;
            models[i].max_tokens = mt;
        }
    }
}

/// The canonical request that SDK-HMAC-SHA256 signs for a `GET` of `path`
/// on `host` at `timestamp`, with an empty query, the signed headers `host`
/// and `x-sdk-date`, and `payload_hash` as the hash of the body.
pub open spec fn canonical_request_chars(
    path: Seq<char>,
    host: Seq<char>,
    timestamp: Seq<char>,
    payload_hash: Seq<char>,
) -> Seq<char> {
    "GET\n"@ + path + "\n\n"@ + "host:"@ + host + "\nx-sdk-date:"@ + timestamp + "\n\n"@
        + "host;x-sdk-date\n"@ + payload_hash
}

/// The string that SDK-HMAC-SHA256 signs: the algorithm, the timestamp and
/// the hash of the canonical request, one per line.
pub open spec fn string_to_sign_chars(timestamp: Seq<char>, hashed_request: Seq<char>) -> Seq<
    char,
> {
    "SDK-HMAC-SHA256\n"@ + timestamp + "\n"@ + hashed_request
}

/// The value of the `Authorization` header for an access key and a signature.
pub open spec fn authorization_chars(ak: Seq<char>, signature: Seq<char>) -> Seq<char> {
    "SDK-HMAC-SHA256 Access="@ + ak + ", SignedHeaders=host;x-sdk-date, Signature="@ + signature
}

/// The signature of the canonical request with secret key `sk`, in hex.
pub open spec fn signature_chars(sk: Seq<char>, timestamp: Seq<char>, canonical: Seq<char>) -> Seq<
    char,
> {
    let hashed = spec_hex(sha256_digest(encode_utf8(canonical)));
    spec_hex(hmac_sha256_tag(encode_utf8(sk), encode_utf8(string_to_sign_chars(timestamp, hashed))))
}

/// The `Authorization` value that `sign_request` computes.
pub open spec fn signed_authorization(
    ak: Seq<char>,
    sk: Seq<char>,
    host: Seq<char>,
    path: Seq<char>,
    timestamp: Seq<char>,
) -> Seq<char> {
    let payload = spec_hex(sha256_digest(Seq::empty()));
    let canonical = canonical_request_chars(path, host, timestamp, payload);
    authorization_chars(ak, signature_chars(sk, timestamp, canonical))
}

/// Builds the canonical request of a `GET` of `path` on `host`.
pub fn canonical_request(path: &str, host: &str, timestamp: &str, payload_hash: &str) -> (s: String)
    ensures
        s@ == canonical_request_chars(path@, host@, timestamp@, payload_hash@),
{
    let mut s = String::new();
    push_chars(&mut s, "GET\n");
    push_chars(&mut s, path);
    push_chars(&mut s, "\n\n");
    push_chars(&mut s, "host:");
    push_chars(&mut s, host);
    push_chars(&mut s, "\nx-sdk-date:");
    push_chars(&mut s, timestamp);
    push_chars(&mut s, "\n\n");
    push_chars(&mut s, "host;x-sdk-date\n");
    push_chars(&mut s, payload_hash);
    s
}

/// Builds the string to sign from the timestamp and the hashed request.
pub fn string_to_sign(timestamp: &str, hashed_request: &str) -> (s: String)
    ensures
        s@ == string_to_sign_chars(timestamp@, hashed_request@),
{
    let mut s = String::new();
    push_chars(&mut s, "SDK-HMAC-SHA256\n");
    push_chars(&mut s, timestamp);
    push_chars(&mut s, "\n");
    push_chars(&mut s, hashed_request);
    s
}

/// Builds the `Authorization` value from the access key and the signature.
pub fn authorization(ak: &str, signature: &str) -> (s: String)
    ensures
        s@ == authorization_chars(ak@, signature@),
{
    let mut s = String::new();
    push_chars(&mut s, "SDK-HMAC-SHA256 Access=");
    push_chars(&mut s, ak);
    push_chars(&mut s, ", SignedHeaders=host;x-sdk-date, Signature=");
    push_chars(&mut s, signature);
    s
}

/// Signs a `GET` of `path` on `host` at `timestamp` with SDK-HMAC-SHA256 and
/// returns the `Authorization` header value.
pub fn sign_request(ak: &str, sk: &str, host: &str, path: &str, timestamp: &str) -> (s: String)
    ensures
        s@ == signed_authorization(ak@, sk@, host@, path@, timestamp@),
{
    let empty: [u8; 0] = [];
    assert(empty@ =~= Seq::<u8>::empty());
    let payload = hex(&sha256(&empty));
    let canonical = canonical_request(path, host, timestamp, payload.as_str());
    let hashed = hex(&sha256(canonical.as_str().as_bytes()));
    let to_sign = string_to_sign(timestamp, hashed.as_str());
    let signature = hex(&hmac_sha256_owned(sk.as_bytes(), to_sign.as_str().as_bytes()));
    authorization(ak, signature.as_str())
}

/// The headers of a TokenHub request, as a JSON object.
pub open spec fn headers_chars(
    auth: Seq<char>,
    host: Seq<char>,
    timestamp: Seq<char>,
    security_token: Option<Seq<char>>,
) -> Seq<char> {
    let token_part = match security_token {
        Some(t) => if t.len() > 0 {
            ",\"X-Security-Token\":\""@ + t + "\""@
        } else {
            Seq::empty()
        },
        None => Seq::empty(),
    };
    "{\"Authorization\":\""@ + auth + "\",\"host\":\""@ + host + "\",\"x-sdk-date\":\""@ + timestamp
        + "\",\"content-type\":\"application/json\""@ + token_part + "}"@
}

/// The view of an optional string slice.
pub open spec fn opt_view(o: Option<&str>) -> Option<Seq<char>> {
    match o {
        Some(t) => Some(t@),
        None => None,
    }
}

/// Builds the JSON object of request headers: authorization, host, date,
/// content type, and the security token where one is given and not empty.
pub fn build_headers(auth: &str, host_val: &str, timestamp: &str, security_token: Option<&str>) -> (h: String)
    ensures
        h@ == headers_chars(auth@, host_val@, timestamp@, opt_view(security_token)),
{
    let mut h = String::new();
    push_chars(&mut h, "{\"Authorization\":\"");
    push_chars(&mut h, auth);
    push_chars(&mut h, "\",\"host\":\"");
    push_chars(&mut h, host_val);
    push_chars(&mut h, "\",\"x-sdk-date\":\"");
    push_chars(&mut h, timestamp);
    push_chars(&mut h, "\",\"content-type\":\"application/json\"");
    if let Some(token) = security_token {
        if !token.is_empty() {
            push_chars(&mut h, ",\"X-Security-Token\":\"");
            push_chars(&mut h, token);
            push_chars(&mut h, "\"");
        }
    }
    push_chars(&mut h, "}");
    h
}

/// What TokenHub answers: an error code (`"0000"` on success), a message,
/// and the configuration.
pub struct ApiResponse {
    pub error_code: String,
    pub error_msg: String,
    pub result: AgentConfig,
}

/// An HTTP request to make: its URL and its headers as a JSON object.
pub struct TokenHubRequest {
    pub url: String,
    pub headers: String,
}

/// The URL of the TokenHub configuration API.
pub open spec fn models_url_chars() -> Seq<char> {
    "https://"@ + DEFAULT_DOMAIN@ + API_PATH@
}

/// Prepares the signed request for the model configuration of the account
/// with access key `ak` and secret key `sk`, at the instant `now_nanos`
/// (nanoseconds since the Unix epoch).
pub fn models_request(ak: &str, sk: &str, security_token: Option<&str>, now_nanos: u64) -> (r:
    TokenHubRequest)
    ensures
        r.url@ == models_url_chars(),
        r.headers@ == headers_chars(
            signed_authorization(
                ak@,
                sk@,
                DEFAULT_DOMAIN@,
                API_PATH_SIGN@,
                timestamp_chars(now_nanos as int),
            ),
            DEFAULT_DOMAIN@,
            timestamp_chars(now_nanos as int),
            opt_view(security_token),
        ),
{
    let ts = utc_nanos_to_timestamp(now_nanos);
    let mut url = String::new();
    push_chars(&mut url, "https://");
    push_chars(&mut url, DEFAULT_DOMAIN);
    push_chars(&mut url, API_PATH);
    let auth = sign_request(ak, sk, DEFAULT_DOMAIN, API_PATH_SIGN, ts.as_str());
    let headers = build_headers(auth.as_str(), DEFAULT_DOMAIN, ts.as_str(), security_token);
    TokenHubRequest { url, headers }
}

/// Whether `cfg` is the configuration of the reply `resp` with the known
/// model limits applied.
pub open spec fn config_from_reply(resp: ApiResponse, cfg: AgentConfig) -> bool {
    &&& cfg.api_key == resp.result.api_key
    &&& cfg.base_url == resp.result.base_url
    &&& cfg.embedding_models == resp.result.embedding_models
    &&& cfg.models@.len() == resp.result.models@.len()
    &&& forall|i: int|
        0 <= i < cfg.models@.len() ==> limits_applied(
            #[trigger] resp.result.models@[i],
            cfg.models@[i],
        )
}

/// Turns TokenHub's reply into the model configuration: there is one only
/// when the status is 200, the body parsed, and the error code is `"0000"`.
/// `response` is the parsed body, `None` where it did not parse.
pub fn models_from_response(status: u16, response: Option<ApiResponse>) -> (r: Option<AgentConfig>)
    ensures
        r is Some <==> (status == 200 && response is Some && response->0.error_code@ == "0000"@),
        r matches Some(cfg) ==> config_from_reply(response->0, cfg),
{
    if status != 200 {
        return None;
    }
    let resp = match response {
        Some(r) => r,
        None => return None,
    };
    if !str_eq(resp.error_code.as_str(), "0000") {
        return None;
    }
    let mut result = resp.result;
    override_limits(result.models.as_mut_slice());
    Some(result)
}


/// Applying the known limits a second time changes nothing.
pub proof fn lemma_limits_idempotent(a: ModelInfo, b: ModelInfo, c: ModelInfo)
    requires
        limits_applied(a, b),
        limits_applied(b, c),
    ensures
        limits_applied(a, c),
        c == b,
{
}

/// The limits that the configuration gives each model of the known table:
/// a model with one of these ids comes out with this context window and
/// output limit, whatever TokenHub sent.
pub proof fn lemma_known_model_limits(old: ModelInfo, new: ModelInfo)
    requires
        limits_applied(old, new),
    ensures
        new.model_id == old.model_id,
        old.model_id@ == "glm-5.2"@ ==> new.context_window == 131072 && new.max_tokens == 131072,
        old.model_id@ == "glm-5.1"@ ==> new.context_window == 131072 && new.max_tokens == 131072,
        old.model_id@ == "glm-5"@ ==> new.context_window == 131072 && new.max_tokens == 65536,
        old.model_id@ == "openpangu-2.0-flash"@ ==> new.context_window == 512000 && new.max_tokens == 131072,
        old.model_id@ == "deepseek-r1-250528"@ ==> new.context_window == 98304 && new.max_tokens == 32768,
        old.model_id@ == "deepseek-v3.2"@ ==> new.context_window == 131072 && new.max_tokens == 32768,
        old.model_id@ == "DeepSeek-V3"@ ==> new.context_window == 131072 && new.max_tokens == 32768,
        old.model_id@ == "deepseek-v3.1-terminus"@ ==> new.context_window == 131072 && new.max_tokens == 32768,
{
    reveal_strlit("glm-5.2");
    reveal_strlit("glm-5.1");
    reveal_strlit("glm-5");
    reveal_strlit("openpangu-2.0-flash");
    reveal_strlit("deepseek-r1-250528");
    reveal_strlit("deepseek-v3.2");
    reveal_strlit("DeepSeek-V3");
    reveal_strlit("deepseek-v3.1-terminus");
    let id = old.model_id@;
    if id == "glm-5"@ {
        assert(id != "glm-5.2"@ && id != "glm-5.1"@) by {
            assert(id.len() != "glm-5.2"@.len());
        }
    }
    if id == "openpangu-2.0-flash"@ {
        assert(id != "glm-5.2"@ && id != "glm-5.1"@ && id != "glm-5"@) by {
            assert(id[0] != "glm-5.2"@[0]);
        }
    }
    if id == "deepseek-r1-250528"@ || id == "deepseek-v3.2"@ || id == "DeepSeek-V3"@
        || id == "deepseek-v3.1-terminus"@ {
        assert(id[0] != "glm-5"@[0] && id[0] != "openpangu-2.0-flash"@[0]);
        assert(id != "glm-5.2"@ && id != "glm-5.1"@ && id != "glm-5"@ && id != "openpangu-2.0-flash"@);
        if id == "deepseek-v3.2"@ {
            assert(id != "deepseek-r1-250528"@) by { assert(id[9] != "deepseek-r1-250528"@[9]); }
        }
        if id == "DeepSeek-V3"@ {
            assert(id != "deepseek-r1-250528"@ && id != "deepseek-v3.2"@) by { assert(id[0] != "deepseek-v3.2"@[0]); }
        }
        if id == "deepseek-v3.1-terminus"@ {
            assert(id != "deepseek-r1-250528"@ && id != "deepseek-v3.2"@ && id != "DeepSeek-V3"@) by {
                assert(id.len() != "deepseek-v3.2"@.len());
                assert(id.len() != "deepseek-r1-250528"@.len());
                assert(id[0] != "DeepSeek-V3"@[0]);
            }
        }
    }
}

} // verus!
