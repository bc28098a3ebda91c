use crashlab_core::rpc_envelope::{is_sensitive_field, matches_sensitive_pattern, redact_sensitive_fields};
use crashlab_core::{JsonValue, RpcEnvelopeCapture, RpcRequestEnvelope, RpcResponseEnvelope};

fn s(text: &str) -> JsonValue {
    JsonValue::String(text.to_string())
}

fn num(text: &str) -> JsonValue {
    JsonValue::Number(text.to_string())
}

fn obj(entries: Vec<(&str, JsonValue)>) -> JsonValue {
    JsonValue::Object(entries.into_iter().map(|(k, v)| (k.to_string(), v)).collect())
}

fn field<'a>(v: &'a JsonValue, key: &str) -> &'a JsonValue {
    match v {
        JsonValue::Object(entries) => &entries.iter().find(|(k, _)| k == key).expect("key").1,
        _ => panic!("not an object"),
    }
}

fn item(v: &JsonValue, i: usize) -> &JsonValue {
    match v {
        JsonValue::Array(items) => &items[i],
        _ => panic!("not an array"),
    }
}

#[test]
fn request_envelope_redacts_authorization() {
    let params = obj(vec![
        ("account", s("GABC123")),
        ("authorization", s("secret_token_123")),
        ("amount", num("100")),
    ]);
    let envelope = RpcRequestEnvelope::new("submitTransaction", params);

    assert_eq!(envelope.method, "submitTransaction");
    assert_eq!(field(&envelope.params, "authorization"), &s("[REDACTED]"));
    assert_eq!(field(&envelope.params, "account"), &s("GABC123"));
    assert_eq!(field(&envelope.params, "amount"), &num("100"));
    assert!(envelope.redacted_fields.contains(&"authorization".to_string()));
}

#[test]
fn request_envelope_redacts_nested_sensitive_fields() {
    let params = obj(vec![(
        "transaction",
        obj(vec![
            ("sourceAccount", s("GABC123")),
            ("signature", s("base64sigdata")),
            (
                "operations",
                JsonValue::Array(vec![obj(vec![("type", s("payment")), ("secretKey", s("SXXX"))])]),
            ),
        ]),
    )]);
    let envelope = RpcRequestEnvelope::new("simulateTransaction", params);

    let tx = field(&envelope.params, "transaction");
    assert_eq!(field(tx, "signature"), &s("[REDACTED]"));
    assert_eq!(field(item(field(tx, "operations"), 0), "secretKey"), &s("[REDACTED]"));
    assert!(envelope.redacted_fields.contains(&"transaction.signature".to_string()));
    assert!(envelope
        .redacted_fields
        .contains(&"transaction.operations[0].secretKey".to_string()));
}

#[test]
fn response_envelope_redacts_private_key() {
    let result = obj(vec![("account", s("GABC123")), ("privateKey", s("should_be_hidden"))]);
    let envelope = RpcResponseEnvelope::success(result);

    assert_eq!(envelope.status, "success");
    assert_eq!(field(envelope.result.as_ref().unwrap(), "privateKey"), &s("[REDACTED]"));
    assert!(envelope.redacted_fields.contains(&"privateKey".to_string()));
}

#[test]
fn response_envelope_preserves_non_sensitive_data() {
    let result = obj(vec![
        ("ledger", num("12345")),
        ("hash", s("abc123")),
        ("result_meta_xdr", s("AAAA")),
    ]);
    let envelope = RpcResponseEnvelope::success(result);

    assert!(envelope.redacted_fields.is_empty());
    assert_eq!(field(envelope.result.as_ref().unwrap(), "ledger"), &num("12345"));
    assert_eq!(field(envelope.result.as_ref().unwrap(), "hash"), &s("abc123"));
}

#[test]
fn is_sensitive_field_matches_case_insensitive() {
    assert!(is_sensitive_field("Authorization"));
    assert!(is_sensitive_field("authorization"));
    assert!(is_sensitive_field("auth_token"));
    assert!(is_sensitive_field("mySecretKey"));
    assert!(is_sensitive_field("private_key"));
    assert!(is_sensitive_field("public_key"));
    assert!(!is_sensitive_field("account"));
    assert!(!is_sensitive_field("ledger"));
}

#[test]
fn envelope_capture_tracks_redactions() {
    let request = RpcRequestEnvelope::new("submit", obj(vec![("auth", s("secret"))]));
    let response = RpcResponseEnvelope::success(obj(vec![("result", s("ok"))]));

    let capture = RpcEnvelopeCapture::new_with_timestamp(request, response, "2024-01-01T00:00:00Z");

    assert!(capture.has_redactions());
    assert_eq!(capture.all_redacted_fields().len(), 1);
    assert!(capture.all_redacted_fields().contains(&&"auth".to_string()));
}

#[test]
fn envelope_capture_no_redactions_when_clean() {
    let request = RpcRequestEnvelope::new_unsanitized("getLedger", obj(vec![("sequence", num("123"))]));
    let response =
        RpcResponseEnvelope::new_unsanitized("success", Some(obj(vec![("ledger", num("123"))])), None);

    let capture = RpcEnvelopeCapture::new_with_timestamp(request, response, "2024-01-01T00:00:00Z");

    assert!(!capture.has_redactions());
    assert!(capture.all_redacted_fields().is_empty());
}

#[test]
fn error_response_redacts_sensitive_fields() {
    let error = obj(vec![
        ("code", num("-32600")),
        ("message", s("Invalid request")),
        ("data", obj(vec![("token", s("should_be_hidden")), ("details", s("some error"))])),
    ]);
    let envelope = RpcResponseEnvelope::error(error);

    assert_eq!(envelope.status, "error");
    assert_eq!(field(field(envelope.error.as_ref().unwrap(), "data"), "token"), &s("[REDACTED]"));
    assert!(envelope.redacted_fields.contains(&"data.token".to_string()));
}

#[test]
fn redaction_handles_arrays_of_objects() {
    let params = obj(vec![(
        "operations",
        JsonValue::Array(vec![
            obj(vec![("type", s("payment")), ("secret", s("s1"))]),
            obj(vec![("type", s("offer")), ("secret", s("s2"))]),
        ]),
    )]);
    let envelope = RpcRequestEnvelope::new("batchSubmit", params);

    let ops = field(&envelope.params, "operations");
    assert_eq!(field(item(ops, 0), "secret"), &s("[REDACTED]"));
    assert_eq!(field(item(ops, 1), "secret"), &s("[REDACTED]"));
    assert!(envelope.redacted_fields.contains(&"operations[0].secret".to_string()));
    assert!(envelope.redacted_fields.contains(&"operations[1].secret".to_string()));
}

// Own checks of the redaction walk.

#[test]
fn redaction_records_paths_in_walk_order_and_keeps_other_values() {
    let value = obj(vec![
        ("token", s("t")),
        ("list", JsonValue::Array(vec![obj(vec![("password", s("p"))]), num("7")])),
        ("plain", JsonValue::Bool(true)),
    ]);
    let mut redacted = Vec::new();
    let out = redact_sensitive_fields(&value, "root", &mut redacted);
    assert_eq!(redacted, vec!["root.token".to_string(), "root.list[0].password".to_string()]);
    assert_eq!(field(&out, "token"), &s("[REDACTED]"));
    assert_eq!(item(field(&out, "list"), 1), &num("7"));
    assert_eq!(field(&out, "plain"), &JsonValue::Bool(true));
}

#[test]
fn redaction_of_scalar_returns_it_unchanged() {
    let mut redacted = Vec::new();
    let out = redact_sensitive_fields(&JsonValue::Null, "", &mut redacted);
    assert_eq!(out, JsonValue::Null);
    assert!(redacted.is_empty());
}

#[test]
fn redacting_twice_changes_nothing() {
    let value = obj(vec![
        ("Api_Key", s("k")),
        ("list", JsonValue::Array(vec![obj(vec![("seedPhrase", s("p")), ("x", num("1"))])])),
        ("plain", s("v")),
    ]);
    let mut first = Vec::new();
    let once = redact_sensitive_fields(&value, "", &mut first);
    let mut second = Vec::new();
    let twice = redact_sensitive_fields(&once, "", &mut second);
    assert_eq!(twice, once);
    assert_eq!(second, first);
    assert_eq!(first, vec!["Api_Key".to_string(), "list[0].seedPhrase".to_string()]);
}

#[test]
fn pattern_matching_works_on_lowercased_text() {
    assert!(matches_sensitive_pattern("x-auth-header"));
    assert!(matches_sensitive_pattern("mnemonic"));
    assert!(!matches_sensitive_pattern("AUTH"));
    assert!(!matches_sensitive_pattern("username"));
    assert!(is_sensitive_field("AUTH"));
}
