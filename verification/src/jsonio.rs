//! The crate's boundary to serde_json: quoting strings for the wire and
//! decoding response bodies.
//!
//! Each function here is trusted: its body makes the serde_json call and its
//! contract names the result, which depends on the argument alone. Everything
//! that acts on a decoded value is ordinary verified code elsewhere.

use vstd::prelude::*;

verus! {

/// The JSON string literal that serde_json produces for a given string:
/// quoted and escaped, as UTF-8 bytes.
pub uninterp spec fn json_quoted_bytes(s: Seq<char>) -> Seq<u8>;

/// Relies on serde_json::to_vec on a `&str`: the JSON quoting of `s`.
/// Serializing a string value cannot fail.
#[verifier::external_body]
pub fn json_quote_bytes(s: &str) -> (r: Vec<u8>)
    ensures
        r@ == json_quoted_bytes(s@),
{
    serde_json::to_vec(s).unwrap()
}

/// A decoded JSON-RPC response body. A failure carries the `error` member's
/// `code` and `message` exactly as present: defaulting absent parts is the
/// caller's verified rule, not this boundary's.
pub enum WireOutcome {
    /// The body is not well-formed JSON.
    Malformed,
    /// Well-formed JSON, but neither an `error` nor a `result` member.
    MissingResult,
    /// The remote host rejected the request.
    RpcFailure { code: Option<i64>, message: Option<String> },
    /// The `result` member, re-serialized as JSON text.
    Success { result: String },
}

/// `WireOutcome` as a plain value: `Err(true)` is malformed JSON, `Err(false)`
/// a missing `result`, `Ok(Err(..))` a remote error, `Ok(Ok(..))` the result.
pub open spec fn outcome_model(r: WireOutcome) -> Result<
    Result<Seq<char>, (Option<int>, Option<Seq<char>>)>,
    bool,
> {
    match r {
        WireOutcome::Malformed => Err(true),
        WireOutcome::MissingResult => Err(false),
        WireOutcome::RpcFailure { code, message } => Ok(
            Err(
                (
                    (match code {
                        Some(c) => Some(c as int),
                        None => None,
                    }),
                    message.deep_view(),
                ),
            ),
        ),
        WireOutcome::Success { result } => Ok(Ok(result@)),
    }
}

/// What decoding a response body yields, in the shape of `outcome_model`.
pub uninterp spec fn wire_decoded(body: Seq<u8>) -> Result<
    Result<Seq<char>, (Option<int>, Option<Seq<char>>)>,
    bool,
>;

/// Relies on serde_json::from_slice and Value's accessors: an `error` member
/// fails the call with its `code` and `message`, each only when present as
/// the right kind; otherwise the `result` member is handed on as JSON text.
#[verifier::external_body]
pub fn decode_wire_response(body: &[u8]) -> (r: WireOutcome)
    ensures
        outcome_model(r) == wire_decoded(body@),
{
    match serde_json::from_slice::<serde_json::Value>(body) {
        Err(_) => WireOutcome::Malformed,
        Ok(v) => {
            if let Some(e) = v.get("error") {
                let code = e.get("code").and_then(|c| c.as_i64());
                let message = e.get("message").and_then(|m| m.as_str()).map(str::to_string);
                WireOutcome::RpcFailure { code, message }
            } else if let Some(res) = v.get("result") {
                WireOutcome::Success { result: res.to_string() }
            } else {
                WireOutcome::MissingResult
            }
        },
    }
}

/// What the `lifecycle/ping` result holds: its `ok` member, if it is a bool.
pub uninterp spec fn ping_result_of(s: Seq<char>) -> Option<bool>;

/// Relies on serde_json::from_str and Value's accessors: the boolean `ok`
/// member of the result object.
#[verifier::external_body]
pub fn decode_ping_result(s: &str) -> (r: Option<bool>)
    ensures
        r == ping_result_of(s@),
{
    serde_json::from_str::<serde_json::Value>(s).ok().and_then(|v| v.get("ok").and_then(|b| b.as_bool()))
}

/// What a `secrets/get` result holds: `Some(value)` when the shape is usable
/// (with `None` inside for an absent or null `value`), `None` otherwise.
pub uninterp spec fn secret_value_of(s: Seq<char>) -> Option<Option<Seq<char>>>;

/// Relies on serde_json::from_str and Value's accessors: the optional string
/// `value` member of the result object.
#[verifier::external_body]
pub fn decode_secret_value(s: &str) -> (r: Option<Option<String>>)
    ensures
        match r {
            Some(Some(v)) => secret_value_of(s@) == Some(Some(v@)),
            Some(None) => secret_value_of(s@) == Some(None::<Seq<char>>),
            None => secret_value_of(s@) == None::<Option<Seq<char>>>,
        },
{
    match serde_json::from_str::<serde_json::Value>(s) {
        Ok(serde_json::Value::Object(map)) => match map.get("value") {
            None | Some(serde_json::Value::Null) => Some(None),
            Some(serde_json::Value::String(v)) => Some(Some(v.clone())),
            Some(_) => None,
        },
        _ => None,
    }
}

/// What a store or delete result holds: its `success` member, if a bool.
pub uninterp spec fn success_of(s: Seq<char>) -> Option<bool>;

/// Relies on serde_json::from_str and Value's accessors: the boolean
/// `success` member of the result object.
#[verifier::external_body]
pub fn decode_success(s: &str) -> (r: Option<bool>)
    ensures
        r == success_of(s@),
{
    serde_json::from_str::<serde_json::Value>(s).ok().and_then(|v| v.get("success").and_then(|b| b.as_bool()))
}

/// What a `secrets/list` result holds: the `keys` member as strings.
pub uninterp spec fn keys_of(s: Seq<char>) -> Option<Seq<Seq<char>>>;

/// Relies on serde_json::from_str and Value's accessors: the `keys` member
/// of the result object, an array of strings.
#[verifier::external_body]
pub fn decode_keys(s: &str) -> (r: Option<Vec<String>>)
    ensures
        match r {
            Some(v) => keys_of(s@) == Some(v.deep_view()),
            None => keys_of(s@) == None::<Seq<Seq<char>>>,
        },
{
    let v = serde_json::from_str::<serde_json::Value>(s).ok()?;
    let arr = v.get("keys")?.as_array()?;
    arr.iter().map(|x| x.as_str().map(str::to_string)).collect::<Option<Vec<String>>>()
}

/// What a `config/getSettings` result holds: the optional `configSource` and
/// `secretsSource` strings, or `None` when the shape is unusable.
pub uninterp spec fn settings_of(s: Seq<char>) -> Option<(Option<Seq<char>>, Option<Seq<char>>)>;

/// Relies on serde_json::from_str and Value's accessors: the `settings`
/// object of the result, with its `configSource` and `secretsSource` members.
#[verifier::external_body]
pub fn decode_settings(s: &str) -> (r: Option<(Option<String>, Option<String>)>)
    ensures
        match r {
            Some(p) => settings_of(s@) == Some((p.0.deep_view(), p.1.deep_view())),
            None => settings_of(s@) == None::<(Option<Seq<char>>, Option<Seq<char>>)>,
        },
{
    let v = serde_json::from_str::<serde_json::Value>(s).ok()?;
    let settings = v.get("settings")?;
    let config_source = settings.get("configSource").and_then(|x| x.as_str()).map(str::to_string);
    let secrets_source = settings.get("secretsSource").and_then(|x| x.as_str()).map(str::to_string);
    Some((config_source, secrets_source))
}

/// What a `workspace/getRoot` result holds: the optional `path` string.
pub uninterp spec fn workspace_root_of(s: Seq<char>) -> Option<Option<Seq<char>>>;

/// Relies on serde_json::from_str and Value's accessors: the optional string
/// `path` member of the result object.
#[verifier::external_body]
pub fn decode_workspace_root(s: &str) -> (r: Option<Option<String>>)
    ensures
        match r {
            Some(Some(v)) => workspace_root_of(s@) == Some(Some(v@)),
            Some(None) => workspace_root_of(s@) == Some(None::<Seq<char>>),
            None => workspace_root_of(s@) == None::<Option<Seq<char>>>,
        },
{
    match serde_json::from_str::<serde_json::Value>(s) {
        Ok(serde_json::Value::Object(map)) => match map.get("path") {
            None | Some(serde_json::Value::Null) => Some(None),
            Some(serde_json::Value::String(v)) => Some(Some(v.clone())),
            Some(_) => None,
        },
        _ => None,
    }
}

/// What a `workspace/getPaths` result holds: the `paths` member as strings.
pub uninterp spec fn workspace_paths_of(s: Seq<char>) -> Option<Seq<Seq<char>>>;

/// Relies on serde_json::from_str and Value's accessors: the `paths` member
/// of the result object, an array of strings.
#[verifier::external_body]
pub fn decode_workspace_paths(s: &str) -> (r: Option<Vec<String>>)
    ensures
        match r {
            Some(v) => workspace_paths_of(s@) == Some(v.deep_view()),
            None => workspace_paths_of(s@) == None::<Seq<Seq<char>>>,
        },
{
    let v = serde_json::from_str::<serde_json::Value>(s).ok()?;
    let arr = v.get("paths")?.as_array()?;
    arr.iter().map(|x| x.as_str().map(str::to_string)).collect::<Option<Vec<String>>>()
}

/// What a `config/get` result holds: each member of the `providers` array,
/// re-serialized as JSON text.
pub uninterp spec fn provider_array_of(s: Seq<char>) -> Option<Seq<Seq<char>>>;

/// Relies on serde_json::from_str and Value's accessors: the `providers`
/// member of the result object, each element handed on as JSON text.
#[verifier::external_body]
pub fn decode_provider_array(s: &str) -> (r: Option<Vec<String>>)
    ensures
        match r {
            Some(v) => provider_array_of(s@) == Some(v.deep_view()),
            None => provider_array_of(s@) == None::<Seq<Seq<char>>>,
        },
{
    let v = serde_json::from_str::<serde_json::Value>(s).ok()?;
    let arr = v.get("providers")?.as_array()?;
    Some(arr.iter().map(|x| x.to_string()).collect())
}

/// What one `config/get` provider object holds: its name, and its `enabled`,
/// `models` and `apiBase` members exactly as present — defaulting the absent
/// ones is the caller's verified rule. `None` when the shape is unusable.
pub uninterp spec fn provider_item_of(s: Seq<char>) -> Option<(Seq<char>, Option<bool>, Option<Seq<Seq<char>>>, Option<Seq<char>>)>;

/// Relies on serde_json::from_str and Value's accessors: the `name`,
/// `enabled`, `models` and `apiBase` members of one provider object, each
/// only when present as the right kind.
#[verifier::external_body]
pub fn decode_provider_item(s: &str) -> (r: Option<
    (String, Option<bool>, Option<Vec<String>>, Option<String>),
>)
    ensures
        match r {
            Some(p) => provider_item_of(s@) == Some(
                (
                    p.0@,
                    p.1,
                    (match p.2 {
                        Some(m) => Some(m.deep_view()),
                        None => None,
                    }),
                    p.3.deep_view(),
                ),
            ),
            None => provider_item_of(s@) == None::<
                (Seq<char>, Option<bool>, Option<Seq<Seq<char>>>, Option<Seq<char>>),
            >,
        },
{
    let v = serde_json::from_str::<serde_json::Value>(s).ok()?;
    let name = v.get("name")?.as_str()?.to_string();
    let enabled = v.get("enabled").and_then(|b| b.as_bool());
    let models = match v.get("models") {
        None | Some(serde_json::Value::Null) => None,
        Some(m) => Some(
            m.as_array()?.iter().map(|x| x.as_str().map(str::to_string)).collect::<
                Option<Vec<String>>,
            >()?,
        ),
    };
    let api_base = v.get("apiBase").and_then(|b| b.as_str()).map(str::to_string);
    Some((name, enabled, models, api_base))
}

} // verus!
