//! RPC request/response envelope capture for reproducibility auditing.
//!
//! Captured RPC request and response bodies are stored with sensitive fields
//! redacted, to prevent credential leakage while keeping enough information for
//! reproducibility debugging.
use vstd::prelude::*;
use vstd::utf8::encode_utf8;

use crate::text::{bytes_contain, push_decimal, spec_contains_run, spec_decimal, spec_to_lowercase, str_to_lowercase, string_push};
use vstd::string::StringExecFns;

verus! {

/// A JSON value as the envelope logic sees it.
#[derive(Debug, PartialEq, Eq)]
pub enum JsonValue {
    Null,
    Bool(bool),
    /// A number, held as its JSON text.
    Number(String),
    String(String),
    Array(Vec<JsonValue>),
    /// An object's entries, in the order of the source map.
    Object(Vec<(String, JsonValue)>),
}

/// The mathematical value of a [`JsonValue`].
pub enum JsonModel {
    Null,
    Bool(bool),
    Number(Seq<char>),
    String(Seq<char>),
    Array(Seq<JsonModel>),
    Object(Seq<(Seq<char>, JsonModel)>),
}

/// The model of a value.
pub open spec fn json_model(v: JsonValue) -> JsonModel
    decreases v, 0nat,
{
    match v {
        JsonValue::Null => JsonModel::Null,
        JsonValue::Bool(b) => JsonModel::Bool(b),
        JsonValue::Number(n) => JsonModel::Number(n@),
        JsonValue::String(s) => JsonModel::String(s@),
        JsonValue::Array(items) => JsonModel::Array(json_models(items@, items@.len())),
        JsonValue::Object(entries) => JsonModel::Object(json_entry_models(entries@, entries@.len())),
    }
}

/// The models of the first `n` items.
pub open spec fn json_models(items: Seq<JsonValue>, n: nat) -> Seq<JsonModel>
    decreases items, n,
{
    if n == 0 || n > items.len() {
        seq![]
    } else {
        json_models(items, (n - 1) as nat).push(json_model(items[n - 1]))
    }
}

/// The models of the first `n` entries.
pub open spec fn json_entry_models(entries: Seq<(String, JsonValue)>, n: nat) -> Seq<
    (Seq<char>, JsonModel),
>
    decreases entries, n,
{
    if n == 0 || n > entries.len() {
        seq![]
    } else {
        json_entry_models(entries, (n - 1) as nat).push(
            (entries[n - 1].0@, json_model(entries[n - 1].1)),
        )
    }
}

impl View for JsonValue {
    type V = JsonModel;

    open spec fn view(&self) -> JsonModel {
        json_model(*self)
    }
}

/// The value put in place of a redacted field.
pub open spec fn spec_redacted_marker() -> JsonModel {
    JsonModel::String("[REDACTED]"@)
}

/// Field-name fragments that mark a field as sensitive.
pub open spec fn spec_sensitive_patterns() -> Seq<Seq<char>> {
    seq![
        "authorization"@,
        "auth"@,
        "token"@,
        "key"@,
        "secret"@,
        "signature"@,
        "private"@,
        "password"@,
        "credential"@,
        "seed"@,
        "mnemonic"@,
    ]
}

/// A field is sensitive when the UTF-8 bytes of its lowercased name contain
/// one of the sensitive patterns.
pub open spec fn spec_is_sensitive(name: Seq<char>) -> bool {
    spec_matches_sensitive_pattern(spec_to_lowercase(name))
}

/// Whether lowercased text contains one of the sensitive patterns.
pub open spec fn spec_matches_sensitive_pattern(lower: Seq<char>) -> bool {
    exists|k: int|
        0 <= k < 11 && spec_contains_run(
            encode_utf8(lower),
            encode_utf8(#[trigger] spec_sensitive_patterns()[k]),
        )
}

/// The path of an object member: the key at the top level, else `path.key`.
pub open spec fn spec_member_path(path: Seq<char>, key: Seq<char>) -> Seq<char> {
    if path.len() == 0 {
        key
    } else {
        path + "."@ + key
    }
}

/// The path of an array item: `path[i]`.
pub open spec fn spec_item_path(path: Seq<char>, i: nat) -> Seq<char> {
    path + "["@ + spec_decimal(i) + "]"@
}

/// Redaction of a value found at `path`: sensitive object members are replaced
/// by `"[REDACTED]"` and their paths recorded; other members and array items
/// are redacted recursively; anything else is kept. Paths are recorded in
/// depth-first order.
pub open spec fn spec_redact(v: JsonModel, path: Seq<char>) -> (JsonModel, Seq<Seq<char>>)
    decreases v, 0nat,
{
    match v {
        JsonModel::Object(entries) => {
            let (es, paths) = spec_redact_entries(entries, path, entries.len());
            (JsonModel::Object(es), paths)
        },
        JsonModel::Array(items) => {
            let (vs, paths) = spec_redact_items(items, path, items.len());
            (JsonModel::Array(vs), paths)
        },
        _ => (v, seq![]),
    }
}

/// Redaction of the first `n` members of an object at `path`.
pub open spec fn spec_redact_entries(entries: Seq<(Seq<char>, JsonModel)>, path: Seq<char>, n: nat) -> (
    Seq<(Seq<char>, JsonModel)>,
    Seq<Seq<char>>,
)
    decreases entries, n,
{
    if n == 0 || n > entries.len() {
        (seq![], seq![])
    } else {
        let (prev, paths) = spec_redact_entries(entries, path, (n - 1) as nat);
        let key = entries[n - 1].0;
        let cur = spec_member_path(path, key);
        if spec_is_sensitive(key) {
            (prev.push((key, spec_redacted_marker())), paths.push(cur))
        } else {
            let (rv, rp) = spec_redact(entries[n - 1].1, cur);
            (prev.push((key, rv)), paths + rp)
        }
    }
}

/// Redaction of the first `n` items of an array at `path`.
pub open spec fn spec_redact_items(items: Seq<JsonModel>, path: Seq<char>, n: nat) -> (
    Seq<JsonModel>,
    Seq<Seq<char>>,
)
    decreases items, n,
{
    if n == 0 || n > items.len() {
        (seq![], seq![])
    } else {
        let (prev, paths) = spec_redact_items(items, path, (n - 1) as nat);
        let (rv, rp) = spec_redact(items[n - 1], spec_item_path(path, (n - 1) as nat));
        (prev.push(rv), paths + rp)
    }
}

/// The models of the first `n` items are the models of `items.take(n)`, one by one.
pub proof fn lemma_json_models_map(items: Seq<JsonValue>, n: nat)
    requires
        n <= items.len(),
    ensures
        json_models(items, n) == items.take(n as int).map_values(|x: JsonValue| json_model(x)),
    decreases n,
{
    if n > 0 {
        lemma_json_models_map(items, (n - 1) as nat);
        assert(items.take(n as int).map_values(|x: JsonValue| json_model(x)) =~= items.take(
            (n - 1) as int,
        ).map_values(|x: JsonValue| json_model(x)).push(json_model(items[n - 1])));
    } else {
        assert(items.take(0).map_values(|x: JsonValue| json_model(x)) =~= Seq::<JsonModel>::empty());
    }
}

/// The model of one object entry.
pub open spec fn entry_model(e: (String, JsonValue)) -> (Seq<char>, JsonModel) {
    (e.0@, json_model(e.1))
}

/// The models of the first `n` entries are the models of `entries.take(n)`, one by one.
pub proof fn lemma_json_entry_models_map(entries: Seq<(String, JsonValue)>, n: nat)
    requires
        n <= entries.len(),
    ensures
        json_entry_models(entries, n) == entries.take(n as int).map_values(
            |e: (String, JsonValue)| entry_model(e),
        ),
    decreases n,
{
    if n > 0 {
        lemma_json_entry_models_map(entries, (n - 1) as nat);
        assert(entries.take(n as int).map_values(|e: (String, JsonValue)| entry_model(e))
            =~= entries.take((n - 1) as int).map_values(|e: (String, JsonValue)| entry_model(e)).push(
            entry_model(entries[n - 1]),
        ));
    } else {
        assert(entries.take(0).map_values(|e: (String, JsonValue)| entry_model(e)) =~= Seq::<
            (Seq<char>, JsonModel),
        >::empty());
    }
}

impl Clone for JsonValue {
    fn clone(&self) -> (r: Self)
        ensures
            r@ == self@,
        decreases self@,
    {
        match self {
            JsonValue::Null => JsonValue::Null,
            JsonValue::Bool(b) => JsonValue::Bool(*b),
            JsonValue::Number(n) => JsonValue::Number(n.clone()),
            JsonValue::String(s) => JsonValue::String(s.clone()),
            JsonValue::Array(items) => {
                proof {
                    lemma_json_models_map(items@, items@.len());
                    assert(items@.take(items@.len() as int) =~= items@);
                }
                let mut out: Vec<JsonValue> = Vec::new();
                let mut i: usize = 0;
                while i < items.len()
                    invariant
                        i <= items@.len(),
                        self@ == JsonModel::Array(json_models(items@, items@.len())),
                        json_models(items@, items@.len()) == items@.map_values(|x: JsonValue| json_model(x)),
                        out@.map_values(|x: JsonValue| json_model(x)) =~= items@.take(i as int).map_values(
                            |x: JsonValue| json_model(x),
                        ),
                    decreases items.len() - i,
                {
                    proof {
                        let m = json_models(items@, items@.len());
                        assert(m[i as int] == items@[i as int]@);
                        assert(decreases_to!(self@ => self@->Array_0));
                        assert(decreases_to!(m => m[i as int]));
                    }
                    let c = items[i].clone();
                    let ghost before = out@;
                    out.push(c);
                    assert(out@.map_values(|x: JsonValue| json_model(x)) =~= before.map_values(
                        |x: JsonValue| json_model(x),
                    ).push(json_model(c)));
                    assert(items@.take(i + 1).map_values(|x: JsonValue| json_model(x))
                        =~= items@.take(i as int).map_values(|x: JsonValue| json_model(x)).push(
                        json_model(items@[i as int]),
                    ));
                    i = i + 1;
                }
                proof {
                    lemma_json_models_map(items@, items@.len());
                    lemma_json_models_map(out@, out@.len());
                    assert(items@.take(items@.len() as int) =~= items@);
                    assert(out@.take(out@.len() as int) =~= out@);
                }
                JsonValue::Array(out)
            },
            JsonValue::Object(entries) => {
                proof {
                    lemma_json_entry_models_map(entries@, entries@.len());
                    assert(entries@.take(entries@.len() as int) =~= entries@);
                }
                let mut out: Vec<(String, JsonValue)> = Vec::new();
                let mut i: usize = 0;
                while i < entries.len()
                    invariant
                        i <= entries@.len(),
                        self@ == JsonModel::Object(json_entry_models(entries@, entries@.len())),
                        json_entry_models(entries@, entries@.len()) == entries@.map_values(
                            |e: (String, JsonValue)| entry_model(e),
                        ),
                        out@.map_values(|e: (String, JsonValue)| entry_model(e)) =~= entries@.take(
                            i as int,
                        ).map_values(|e: (String, JsonValue)| entry_model(e)),
                    decreases entries.len() - i,
                {
                    let k = entries[i].0.clone();
                    proof {
                        let m = json_entry_models(entries@, entries@.len());
                        assert(m[i as int].1 == entries@[i as int].1@);
                        assert(decreases_to!(self@ => self@->Object_0));
                        assert(decreases_to!(m => m[i as int]));
                        assert(decreases_to!(m[i as int] => m[i as int].1));
                    }
                    let v = entries[i].1.clone();
                    let ghost before = out@;
                    out.push((k, v));
                    assert(out@.map_values(|e: (String, JsonValue)| entry_model(e)) =~= before.map_values(
                        |e: (String, JsonValue)| entry_model(e),
                    ).push(entry_model(entries@[i as int])));
                    assert(entries@.take(i + 1).map_values(|e: (String, JsonValue)| entry_model(e))
                        =~= entries@.take(i as int).map_values(
                        |e: (String, JsonValue)| entry_model(e),
                    ).push(entry_model(entries@[i as int])));
                    i = i + 1;
                }
                proof {
                    lemma_json_entry_models_map(entries@, entries@.len());
                    lemma_json_entry_models_map(out@, out@.len());
                    assert(entries@.take(entries@.len() as int) =~= entries@);
                    assert(out@.take(out@.len() as int) =~= out@);
                }
                JsonValue::Object(out)
            },
        }
    }
}

/// The sensitive pattern at position `k`.
fn sensitive_pattern(k: usize) -> (r: &'static str)
    requires
        k < 11,
    ensures
        r@ == spec_sensitive_patterns()[k as int],
{
    match k {
        0 => "authorization",
        1 => "auth",
        2 => "token",
        3 => "key",
        4 => "secret",
        5 => "signature",
        6 => "private",
        7 => "password",
        8 => "credential",
        9 => "seed",
        _ => "mnemonic",
    }
}

/// Checks if a field name matches any sensitive pattern (case-insensitive).
pub fn is_sensitive_field(field_name: &str) -> (r: bool)
    ensures
        r == spec_is_sensitive(field_name@),
{
    let lower = str_to_lowercase(field_name);
    matches_sensitive_pattern(lower.as_str())
}

/// Whether already lowercased text contains one of the sensitive patterns
/// (`authorization`, `auth`, `token`, `key`, `secret`, `signature`, `private`,
/// `password`, `credential`, `seed`, `mnemonic`).
pub fn matches_sensitive_pattern(lower: &str) -> (r: bool)
    ensures
        r == spec_matches_sensitive_pattern(lower@),
{
    let hay = lower.as_bytes();
    let mut k: usize = 0;
    while k < 11
        invariant
            k <= 11,
            hay@ == encode_utf8(lower@),
            forall|t: int|
                0 <= t < k ==> !spec_contains_run(
                    hay@,
                    encode_utf8(#[trigger] spec_sensitive_patterns()[t]),
                ),
        decreases 11 - k,
    {
        let pattern = sensitive_pattern(k);
        if bytes_contain(hay, pattern.as_bytes()) {
            assert(spec_contains_run(hay@, encode_utf8(spec_sensitive_patterns()[k as int])));
            return true;
        }
        k = k + 1;
    }
    false
}

/// The path of an object member, built as `spec_member_path` says.
fn member_path(path: &str, key: &String) -> (r: String)
    ensures
        r@ == spec_member_path(path@, key@),
{
    if path.is_empty() {
        key.clone()
    } else {
        let mut p = String::from_str(path);
        p.append(".");
        p.append(key.as_str());
        p
    }
}

/// The path of an array item, built as `spec_item_path` says.
fn item_path(path: &str, i: usize) -> (r: String)
    ensures
        r@ == spec_item_path(path@, i as nat),
{
    let mut p = String::from_str(path);
    p.append("[");
    push_decimal(&mut p, i as u64);
    p.append("]");
    p
}

/// Recursively redacts sensitive fields from a JSON value.
///
/// Field names are compared case-insensitively against known sensitive patterns.
/// Returns a new value with sensitive fields replaced by `[REDACTED]`, and
/// appends the path of every redacted field to `redacted`.
pub fn redact_sensitive_fields(value: &JsonValue, path: &str, redacted: &mut Vec<String>) -> (r:
    JsonValue)
    ensures
        r@ == spec_redact(value@, path@).0,
        final(redacted)@.map_values(|s: String| s@) == old(redacted)@.map_values(|s: String| s@)
            + spec_redact(value@, path@).1,
    decreases value@,
{
    match value {
        JsonValue::Object(map) => {
            let ghost model = json_entry_models(map@, map@.len());
            let ghost start = redacted@.map_values(|s: String| s@);
            proof {
                lemma_json_entry_models_map(map@, map@.len());
                assert(map@.take(map@.len() as int) =~= map@);
            }
            let mut new_map: Vec<(String, JsonValue)> = Vec::new();
            let mut i: usize = 0;
            while i < map.len()
                invariant
                    i <= map@.len(),
                    model == json_entry_models(map@, map@.len()),
                    value@ == JsonModel::Object(model),
                    model == map@.map_values(|e: (String, JsonValue)| entry_model(e)),
                    new_map@.len() == i,
                    new_map@.map_values(|e: (String, JsonValue)| entry_model(e)) =~= spec_redact_entries(
                        model,
                        path@,
                        i as nat,
                    ).0,
                    redacted@.map_values(|s: String| s@) =~= start + spec_redact_entries(
                        model,
                        path@,
                        i as nat,
                    ).1,
                decreases map.len() - i,
            {
                let key = &map[i].0;
                let current_path = member_path(path, key);
                let ghost before_map = new_map@;
                let ghost before_red = redacted@;
                let ghost step = spec_redact_entries(model, path@, (i + 1) as nat);
                assert(model[i as int] == entry_model(map@[i as int]));
                if is_sensitive_field(key.as_str()) {
                    redacted.push(current_path);
                    let marker = JsonValue::String(String::from_str("[REDACTED]"));
                    proof {
                        reveal_strlit("[REDACTED]");
                    }
                    new_map.push((key.clone(), marker));
                    assert(redacted@.map_values(|s: String| s@) =~= before_red.map_values(
                        |s: String| s@,
                    ).push(current_path@));
                    assert(entry_model(new_map@[i as int]) == (key@, spec_redacted_marker()));
                } else {
                    assert(model[i as int].1 == map@[i as int].1@);
                    assert(decreases_to!(value@ => value@->Object_0));
                    assert(decreases_to!(model => model[i as int]));
                    assert(decreases_to!(model[i as int] => model[i as int].1));
                    let inner = redact_sensitive_fields(&map[i].1, current_path.as_str(), redacted);
                    new_map.push((key.clone(), inner));
                    assert(entry_model(new_map@[i as int]) == (key@, inner@));
                }
                assert(new_map@.map_values(|e: (String, JsonValue)| entry_model(e)) =~= before_map.map_values(
                    |e: (String, JsonValue)| entry_model(e),
                ).push(entry_model(new_map@[i as int])));
                i = i + 1;
            }
            proof {
                lemma_json_entry_models_map(new_map@, new_map@.len());
                assert(new_map@.take(new_map@.len() as int) =~= new_map@);
            }
            JsonValue::Object(new_map)
        },
        JsonValue::Array(arr) => {
            let ghost model = json_models(arr@, arr@.len());
            let ghost start = redacted@.map_values(|s: String| s@);
            proof {
                lemma_json_models_map(arr@, arr@.len());
                assert(arr@.take(arr@.len() as int) =~= arr@);
            }
            let mut new_arr: Vec<JsonValue> = Vec::new();
            let mut i: usize = 0;
            while i < arr.len()
                invariant
                    i <= arr@.len(),
                    model == json_models(arr@, arr@.len()),
                    value@ == JsonModel::Array(model),
                    model == arr@.map_values(|x: JsonValue| json_model(x)),
                    new_arr@.len() == i,
                    new_arr@.map_values(|x: JsonValue| json_model(x)) =~= spec_redact_items(
                        model,
                        path@,
                        i as nat,
                    ).0,
                    redacted@.map_values(|s: String| s@) =~= start + spec_redact_items(
                        model,
                        path@,
                        i as nat,
                    ).1,
                decreases arr.len() - i,
            {
                let p = item_path(path, i);
                let ghost before_arr = new_arr@;
                assert(model[i as int] == arr@[i as int]@);
                assert(decreases_to!(value@ => value@->Array_0));
                assert(decreases_to!(model => model[i as int]));
                let inner = redact_sensitive_fields(&arr[i], p.as_str(), redacted);
                new_arr.push(inner);
                assert(new_arr@.map_values(|x: JsonValue| json_model(x)) =~= before_arr.map_values(
                    |x: JsonValue| json_model(x),
                ).push(json_model(inner)));
                i = i + 1;
            }
            proof {
                lemma_json_models_map(new_arr@, new_arr@.len());
                assert(new_arr@.take(new_arr@.len() as int) =~= new_arr@);
            }
            JsonValue::Array(new_arr)
        },
        JsonValue::Null => JsonValue::Null,
        JsonValue::Bool(b) => JsonValue::Bool(*b),
        JsonValue::Number(n) => JsonValue::Number(n.clone()),
        JsonValue::String(s) => JsonValue::String(s.clone()),
    }
}

/// A captured RPC request envelope with sensitive fields redacted.
#[derive(Debug, PartialEq, Eq)]
pub struct RpcRequestEnvelope {
    /// The RPC method name.
    pub method: String,
    /// The request parameters with sensitive fields redacted.
    pub params: JsonValue,
    /// List of field paths that were redacted.
    pub redacted_fields: Vec<String>,
}

/// A captured RPC response envelope with sensitive fields redacted.
#[derive(Debug, PartialEq, Eq)]
pub struct RpcResponseEnvelope {
    /// The response status (e.g., "success", "error").
    pub status: String,
    /// The response result data with sensitive fields redacted.
    pub result: Option<JsonValue>,
    /// Error details if the response indicates a failure.
    pub error: Option<JsonValue>,
    /// List of field paths that were redacted.
    pub redacted_fields: Vec<String>,
}

/// A complete RPC envelope capture containing both request and response.
#[derive(Debug, PartialEq, Eq)]
pub struct RpcEnvelopeCapture {
    /// The captured request envelope.
    pub request: RpcRequestEnvelope,
    /// The captured response envelope.
    pub response: RpcResponseEnvelope,
    /// RFC 3339 timestamp of the capture.
    pub captured_at: String,
}

/// The mathematical value of an [`RpcRequestEnvelope`].
pub struct RequestView {
    pub method: Seq<char>,
    pub params: JsonModel,
    pub redacted_fields: Seq<Seq<char>>,
}

/// The mathematical value of an [`RpcResponseEnvelope`].
pub struct ResponseView {
    pub status: Seq<char>,
    pub result: Option<JsonModel>,
    pub error: Option<JsonModel>,
    pub redacted_fields: Seq<Seq<char>>,
}

/// The mathematical value of an [`RpcEnvelopeCapture`].
pub struct CaptureView {
    pub request: RequestView,
    pub response: ResponseView,
    pub captured_at: Seq<char>,
}

/// The model of an optional value.
pub open spec fn option_model(v: Option<JsonValue>) -> Option<JsonModel> {
    match v {
        Some(x) => Some(x@),
        None => None,
    }
}

impl View for RpcRequestEnvelope {
    type V = RequestView;

    open spec fn view(&self) -> RequestView {
        RequestView {
            method: self.method@,
            params: self.params@,
            redacted_fields: spec_strings(self.redacted_fields@),
        }
    }
}

impl View for RpcResponseEnvelope {
    type V = ResponseView;

    open spec fn view(&self) -> ResponseView {
        ResponseView {
            status: self.status@,
            result: option_model(self.result),
            error: option_model(self.error),
            redacted_fields: spec_strings(self.redacted_fields@),
        }
    }
}

impl View for RpcEnvelopeCapture {
    type V = CaptureView;

    open spec fn view(&self) -> CaptureView {
        CaptureView {
            request: self.request@,
            response: self.response@,
            captured_at: self.captured_at@,
        }
    }
}

/// The views of a list of strings.
pub open spec fn spec_strings(v: Seq<String>) -> Seq<Seq<char>> {
    v.map_values(|s: String| s@)
}

/// A copy of a list of strings.
fn clone_strings(v: &Vec<String>) -> (r: Vec<String>)
    ensures
        spec_strings(r@) == spec_strings(v@),
{
    let mut out: Vec<String> = Vec::new();
    let mut i: usize = 0;
    while i < v.len()
        invariant
            i <= v@.len(),
            spec_strings(out@) =~= spec_strings(v@.take(i as int)),
        decreases v.len() - i,
    {
        out.push(v[i].clone());
        assert(spec_strings(v@.take(i + 1)) =~= spec_strings(v@.take(i as int)).push(v@[i as int]@));
        i = i + 1;
    }
    assert(v@.take(i as int) =~= v@);
    out
}

/// A copy of an optional value.
fn clone_option(v: &Option<JsonValue>) -> (r: Option<JsonValue>)
    ensures
        option_model(r) == option_model(*v),
{
    match v {
        Some(x) => Some(x.clone()),
        None => None,
    }
}

impl Clone for RpcRequestEnvelope {
    fn clone(&self) -> (r: Self)
        ensures
            r@ == self@,
    {
        RpcRequestEnvelope {
            method: self.method.clone(),
            params: self.params.clone(),
            redacted_fields: clone_strings(&self.redacted_fields),
        }
    }
}

impl Clone for RpcResponseEnvelope {
    fn clone(&self) -> (r: Self)
        ensures
            r@ == self@,
    {
        RpcResponseEnvelope {
            status: self.status.clone(),
            result: clone_option(&self.result),
            error: clone_option(&self.error),
            redacted_fields: clone_strings(&self.redacted_fields),
        }
    }
}

impl Clone for RpcEnvelopeCapture {
    fn clone(&self) -> (r: Self)
        ensures
            r@ == self@,
    {
        RpcEnvelopeCapture {
            request: self.request.clone(),
            response: self.response.clone(),
            captured_at: self.captured_at.clone(),
        }
    }
}

impl RpcRequestEnvelope {
    /// Creates a new request envelope with automatic redaction of sensitive fields.
    pub fn new(method: &str, params: JsonValue) -> (r: Self)
        ensures
            r.method@ == method@,
            r.params@ == spec_redact(params@, Seq::empty()).0,
            spec_strings(r.redacted_fields@) == spec_redact(params@, Seq::empty()).1,
    {
        let mut redacted_fields: Vec<String> = Vec::new();
        proof {
            reveal_strlit("");
            assert(""@ =~= Seq::<char>::empty());
        }
        let sanitized = redact_sensitive_fields(&params, "", &mut redacted_fields);
        assert(spec_strings(redacted_fields@) =~= spec_redact(params@, Seq::empty()).1);
        RpcRequestEnvelope { method: String::from_str(method), params: sanitized, redacted_fields }
    }

    /// Creates a new request envelope without redaction (use with caution).
    pub fn new_unsanitized(method: &str, params: JsonValue) -> (r: Self)
        ensures
            r.method@ == method@,
            r.params == params,
            r.redacted_fields@.len() == 0,
    {
        RpcRequestEnvelope { method: String::from_str(method), params, redacted_fields: Vec::new() }
    }
}

impl RpcResponseEnvelope {
    /// Creates a new successful response envelope with automatic redaction.
    pub fn success(result: JsonValue) -> (r: Self)
        ensures
            r.status@ == "success"@,
            r.result matches Some(v) && v@ == spec_redact(result@, Seq::empty()).0,
            r.error is None,
            spec_strings(r.redacted_fields@) == spec_redact(result@, Seq::empty()).1,
    {
        let mut redacted_fields: Vec<String> = Vec::new();
        proof {
            reveal_strlit("");
            assert(""@ =~= Seq::<char>::empty());
        }
        let sanitized = redact_sensitive_fields(&result, "", &mut redacted_fields);
        assert(spec_strings(redacted_fields@) =~= spec_redact(result@, Seq::empty()).1);
        RpcResponseEnvelope {
            status: String::from_str("success"),
            result: Some(sanitized),
            error: None,
            redacted_fields,
        }
    }

    /// Creates a new error response envelope with automatic redaction.
    pub fn error(error: JsonValue) -> (r: Self)
        ensures
            r.status@ == "error"@,
            r.result is None,
            r.error matches Some(v) && v@ == spec_redact(error@, Seq::empty()).0,
            spec_strings(r.redacted_fields@) == spec_redact(error@, Seq::empty()).1,
    {
        let mut redacted_fields: Vec<String> = Vec::new();
        proof {
            reveal_strlit("");
            assert(""@ =~= Seq::<char>::empty());
        }
        let sanitized = redact_sensitive_fields(&error, "", &mut redacted_fields);
        assert(spec_strings(redacted_fields@) =~= spec_redact(error@, Seq::empty()).1);
        RpcResponseEnvelope {
            status: String::from_str("error"),
            result: None,
            error: Some(sanitized),
            redacted_fields,
        }
    }

    /// Creates a new response envelope without redaction (use with caution).
    pub fn new_unsanitized(status: &str, result: Option<JsonValue>, error: Option<JsonValue>) -> (r:
        Self)
        ensures
            r.status@ == status@,
            r.result == result,
            r.error == error,
            r.redacted_fields@.len() == 0,
    {
        RpcResponseEnvelope {
            status: String::from_str(status),
            result,
            error,
            redacted_fields: Vec::new(),
        }
    }
}

/// The current UTC time as an RFC 3339 timestamp.
///
/// Calls `chrono::Utc::now` and formats the instant with `DateTime::to_rfc3339`.
/// Nothing is claimed of the text: it depends on the clock.
#[verifier::external_body]
fn utc_now_rfc3339() -> String {
    chrono::Utc::now().to_rfc3339()
}

impl RpcEnvelopeCapture {
    /// Creates a new envelope capture stamped with the current time.
    pub fn new(request: RpcRequestEnvelope, response: RpcResponseEnvelope) -> (r: Self)
        ensures
            r.request == request,
            r.response == response,
    {
        RpcEnvelopeCapture { request, response, captured_at: utc_now_rfc3339() }
    }

    /// Creates a new envelope capture with a specific timestamp.
    pub fn new_with_timestamp(
        request: RpcRequestEnvelope,
        response: RpcResponseEnvelope,
        captured_at: &str,
    ) -> (r: Self)
        ensures
            r.request == request,
            r.response == response,
            r.captured_at@ == captured_at@,
    {
        RpcEnvelopeCapture { request, response, captured_at: String::from_str(captured_at) }
    }

    /// Returns true if any fields were redacted from either request or response.
    pub fn has_redactions(&self) -> (r: bool)
        ensures
            r == (self.request.redacted_fields@.len() > 0 || self.response.redacted_fields@.len() > 0),
    {
        self.request.redacted_fields.len() > 0 || self.response.redacted_fields.len() > 0
    }

    /// Returns a combined list of all redacted field paths: the request's, then the response's.
    pub fn all_redacted_fields(&self) -> (r: Vec<&String>)
        ensures
            r@.map_values(|s: &String| s@) == spec_strings(self.request.redacted_fields@) + spec_strings(
                self.response.redacted_fields@,
            ),
    {
        let ghost target = spec_strings(self.request.redacted_fields@) + spec_strings(
            self.response.redacted_fields@,
        );
        let mut out: Vec<&String> = Vec::new();
        let n = self.request.redacted_fields.len();
        let mut i: usize = 0;
        while i < n
            invariant
                i <= n,
                n == self.request.redacted_fields@.len(),
                out@.len() == i,
                target.len() == n + self.response.redacted_fields@.len(),
                target == spec_strings(self.request.redacted_fields@) + spec_strings(
                    self.response.redacted_fields@,
                ),
                out@.map_values(|s: &String| s@) =~= target.take(i as int),
            decreases n - i,
        {
            let ghost before = out@;
            assert(target[i as int] == spec_strings(self.request.redacted_fields@)[i as int]);
            out.push(&self.request.redacted_fields[i]);
            assert(out@.map_values(|s: &String| s@) =~= before.map_values(|s: &String| s@).push(
                target[i as int],
            ));
            i = i + 1;
        }
        let m = self.response.redacted_fields.len();
        let mut k: usize = 0;
        while k < m
            invariant
                k <= m,
                n == self.request.redacted_fields@.len(),
                m == self.response.redacted_fields@.len(),
                out@.len() == n + k,
                target.len() == n + m,
                target == spec_strings(self.request.redacted_fields@) + spec_strings(
                    self.response.redacted_fields@,
                ),
                out@.map_values(|s: &String| s@) =~= target.take(n + k),
            decreases m - k,
        {
            let ghost before = out@;
            assert(target[n + k] == spec_strings(self.response.redacted_fields@)[k as int]);
            out.push(&self.response.redacted_fields[k]);
            assert(out@.map_values(|s: &String| s@) =~= before.map_values(|s: &String| s@).push(
                target[n + k],
            ));
            k = k + 1;
        }
        assert(target.take(n + k) =~= target);
        out
    }
}

/// Redacting the first `n` members gives `n` members.
pub proof fn lemma_redact_entries_len(entries: Seq<(Seq<char>, JsonModel)>, path: Seq<char>, n: nat)
    requires
        n <= entries.len(),
    ensures
        spec_redact_entries(entries, path, n).0.len() == n,
    decreases n,
{
    if n > 0 {
        lemma_redact_entries_len(entries, path, (n - 1) as nat);
    }
}

/// Every sensitive member of an object is replaced by the redaction marker,
/// under its own key and in its own position.
pub proof fn law_redaction_removes_sensitive_members(entries: Seq<(Seq<char>, JsonModel)>, path: Seq<char>, n: nat, k: int)
    requires
        n <= entries.len(),
        0 <= k < n,
        spec_is_sensitive(entries[k].0),
    ensures
        spec_redact_entries(entries, path, n).0[k] == (entries[k].0, spec_redacted_marker()),
    decreases n,
{
    lemma_redact_entries_len(entries, path, (n - 1) as nat);
    if k < n - 1 {
        law_redaction_removes_sensitive_members(entries, path, (n - 1) as nat, k);
    }
}

/// The redaction of one member of an object found at `path`.
pub open spec fn spec_redact_member(e: (Seq<char>, JsonModel), path: Seq<char>) -> (Seq<char>, JsonModel) {
    if spec_is_sensitive(e.0) {
        (e.0, spec_redacted_marker())
    } else {
        (e.0, spec_redact(e.1, spec_member_path(path, e.0)).0)
    }
}

/// Member `k` of a redacted object is the redaction of member `k`.
proof fn lemma_redact_entries_at(entries: Seq<(Seq<char>, JsonModel)>, path: Seq<char>, n: nat, k: int)
    requires
        n <= entries.len(),
        0 <= k < n,
    ensures
        spec_redact_entries(entries, path, n).0[k] == spec_redact_member(entries[k], path),
    decreases n,
{
    lemma_redact_entries_len(entries, path, (n - 1) as nat);
    if k < n - 1 {
        lemma_redact_entries_at(entries, path, (n - 1) as nat, k);
    }
}

/// Redacting the first `n` items gives `n` items.
proof fn lemma_redact_items_len(items: Seq<JsonModel>, path: Seq<char>, n: nat)
    requires
        n <= items.len(),
    ensures
        spec_redact_items(items, path, n).0.len() == n,
    decreases n,
{
    if n > 0 {
        lemma_redact_items_len(items, path, (n - 1) as nat);
    }
}

/// Item `k` of a redacted array is the redaction of item `k`.
proof fn lemma_redact_items_at(items: Seq<JsonModel>, path: Seq<char>, n: nat, k: int)
    requires
        n <= items.len(),
        0 <= k < n,
    ensures
        spec_redact_items(items, path, n).0[k] == spec_redact(items[k], spec_item_path(path, k as nat)).0,
    decreases n,
{
    lemma_redact_items_len(items, path, (n - 1) as nat);
    if k < n - 1 {
        lemma_redact_items_at(items, path, (n - 1) as nat, k);
    }
}

/// Redacting the members of an already redacted object again gives the same
/// members and the same paths.
proof fn lemma_redact_entries_idempotent(
    entries: Seq<(Seq<char>, JsonModel)>,
    path: Seq<char>,
    x: Seq<(Seq<char>, JsonModel)>,
    n: nat,
)
    requires
        n <= entries.len(),
        x == spec_redact_entries(entries, path, entries.len()).0,
    ensures
        spec_redact_entries(x, path, n) == spec_redact_entries(entries, path, n),
    decreases entries, n,
{
    lemma_redact_entries_len(entries, path, entries.len());
    if n > 0 {
        lemma_redact_entries_idempotent(entries, path, x, (n - 1) as nat);
        lemma_redact_entries_at(entries, path, entries.len(), n - 1);
        let e = entries[n - 1];
        if !spec_is_sensitive(e.0) {
            law_redaction_idempotent(e.1, spec_member_path(path, e.0));
        }
    }
}

/// Redacting the items of an already redacted array again gives the same
/// items and the same paths.
proof fn lemma_redact_items_idempotent(items: Seq<JsonModel>, path: Seq<char>, x: Seq<JsonModel>, n: nat)
    requires
        n <= items.len(),
        x == spec_redact_items(items, path, items.len()).0,
    ensures
        spec_redact_items(x, path, n) == spec_redact_items(items, path, n),
    decreases items, n,
{
    lemma_redact_items_len(items, path, items.len());
    if n > 0 {
        lemma_redact_items_idempotent(items, path, x, (n - 1) as nat);
        lemma_redact_items_at(items, path, items.len(), n - 1);
        law_redaction_idempotent(items[n - 1], spec_item_path(path, (n - 1) as nat));
    }
}

/// Redaction is idempotent: redacting an already redacted value at the same
/// path changes nothing and reports the same paths again.
pub proof fn law_redaction_idempotent(v: JsonModel, path: Seq<char>)
    ensures
        spec_redact(spec_redact(v, path).0, path) == spec_redact(v, path),
    decreases v, 0nat,
{
    match v {
        JsonModel::Object(entries) => {
            lemma_redact_entries_len(entries, path, entries.len());
            let x = spec_redact_entries(entries, path, entries.len()).0;
            lemma_redact_entries_idempotent(entries, path, x, entries.len());
        },
        JsonModel::Array(items) => {
            lemma_redact_items_len(items, path, items.len());
            let x = spec_redact_items(items, path, items.len()).0;
            lemma_redact_items_idempotent(items, path, x, items.len());
        },
        _ => {},
    }
}

} // verus!
