use connectcare::auth::HmacValidator;
use connectcare::event::{Operation, PipelineEvent, PkField};
use connectcare::handler::prepare_event;
use connectcare::json::JsonValue;
use connectcare::paths::{extract_value_by_path, get_primary_key_by_path};
use connectcare::digest::{hex_encode, hmac_sha256};
use connectcare::AppError;
use hmac::{KeyInit, Mac};

type HmacSha256 = hmac::Hmac<sha2::Sha256>;

fn generate_signature(secret: &str, body: &[u8]) -> String {
    let mut mac = HmacSha256::new_from_slice(secret.as_bytes()).unwrap();
    mac.update(body);
    hex::encode(mac.finalize().into_bytes())
}

fn wstr(s: &str) -> JsonValue {
    JsonValue::Str(s.to_string())
}

fn wobj(entries: Vec<(&str, JsonValue)>) -> JsonValue {
    JsonValue::Obj(entries.into_iter().map(|(k, v)| (k.to_string(), v)).collect())
}

fn test_validator() -> HmacValidator {
    HmacValidator::new("test_secret".to_string(), "X-Hub-Signature".to_string())
}

#[test]
fn test_hmac_validation_success() {
    let secret = "test_secret";
    let body = b"test body content";
    let mut mac = HmacSha256::new_from_slice(secret.as_bytes()).unwrap();
    mac.update(body);
    let expected = hex::encode(mac.finalize().into_bytes());
    let validator = HmacValidator::new(secret.to_string(), "X-Hub-Signature".to_string());
    let signature_header = format!("sha256={}", expected);
    assert!(validator.validate(body, &signature_header).is_ok());
}

#[test]
fn test_hmac_validation_failure() {
    let validator = test_validator();
    let result = validator.validate(b"test body", "sha256=wrongsignature");
    assert!(result.is_err());
}

#[test]
fn test_hmac_validation_bad_prefix() {
    let validator = test_validator();
    let err = validator.validate(b"test body", "md5=abc").unwrap_err();
    assert_eq!(err, AppError::InvalidSignatureFormat);
    assert_eq!(err.status_code(), 400);
}

#[test]
fn test_extract_value_by_path() {
    let body = wobj(vec![(
        "issue",
        wobj(vec![("id", wstr("12345")), ("key", wstr("TEST-123"))]),
    )]);
    let result = extract_value_by_path(&body, "issue.id").unwrap();
    assert_eq!(result, &wstr("12345"));
}

#[test]
fn test_get_primary_key_by_path() {
    let body = wobj(vec![("issue", wobj(vec![("id", wstr("12345"))]))]);
    let pk_fields = get_primary_key_by_path("issue.id", &body).unwrap();
    assert_eq!(pk_fields.len(), 1);
    assert_eq!(pk_fields[0].key, "issue.id");
    assert_eq!(pk_fields[0].value, "12345");
}

#[test]
fn test_extract_array_index() {
    let body = wobj(vec![(
        "items",
        JsonValue::Arr(vec![wstr("zero"), wobj(vec![("id", wstr("x"))])]),
    )]);
    assert_eq!(extract_value_by_path(&body, "items.0").unwrap(), &wstr("zero"));
    assert_eq!(extract_value_by_path(&body, "items.1.id").unwrap(), &wstr("x"));
    let err = extract_value_by_path(&body, "items.2").unwrap_err();
    assert!(matches!(err, AppError::PrimaryKeyPathNotFound(_)));
    let err = extract_value_by_path(&body, "items.x").unwrap_err();
    assert!(matches!(err, AppError::PrimaryKeyPathNotFound(_)));
}

#[test]
fn test_jira_issue_created() {
    let body = r#"{"webhookEvent":"jira:issue_created","issue":{"id":"12345","key":"TEST-123"}}"#;
    let signature = generate_signature("test_secret", body.as_bytes());
    let header = format!("sha256={}", signature);
    let validator = test_validator();
    let result = prepare_event(&validator, body.as_bytes(), Some(&header)).unwrap();
    let event = result.expect("the event should be accepted");
    assert_eq!(event.event_type, "jira:issue_created");
    assert_eq!(event.pk_fields[0].key, "issue.id");
    assert_eq!(event.pk_fields[0].value, "12345");
    assert_eq!(event.operation, Operation::Write);
    assert_eq!(event.id, "b5cc4132364a3f7c55c224bd7066c15c956c3ac097229384eba3b5a471473bbb");
}

#[test]
fn test_jira_invalid_signature() {
    let body = r#"{"webhookEvent":"jira:issue_created","issue":{"id":"12345"}}"#;
    let validator = test_validator();
    let err = prepare_event(&validator, body.as_bytes(), Some("sha256=invalidsignature"))
        .unwrap_err();
    assert_eq!(err.status_code(), 401);
}

#[test]
fn test_jira_missing_signature() {
    let body = r#"{"webhookEvent":"jira:issue_created","issue":{"id":"12345"}}"#;
    let validator = test_validator();
    let err = prepare_event(&validator, body.as_bytes(), None).unwrap_err();
    assert_eq!(err, AppError::MissingSignature);
    assert_eq!(err.status_code(), 400);
}

#[test]
fn test_unknown_event_is_swallowed() {
    let body = r#"{"webhookEvent":"jira:whatever"}"#;
    let signature = generate_signature("test_secret", body.as_bytes());
    let header = format!("sha256={}", signature);
    let validator = test_validator();
    let result = prepare_event(&validator, body.as_bytes(), Some(&header)).unwrap();
    assert!(result.is_none());
}

#[test]
fn test_bad_json_is_rejected() {
    let body = b"{not json";
    let signature = generate_signature("test_secret", body);
    let header = format!("sha256={}", signature);
    let validator = test_validator();
    let err = prepare_event(&validator, body, Some(&header)).unwrap_err();
    assert!(matches!(err, AppError::JsonParse(_)));
    assert_eq!(err.status_code(), 400);
}

#[test]
fn test_missing_event_type_is_rejected() {
    let body = br#"{"issue":{"id":"1"}}"#;
    let signature = generate_signature("test_secret", body);
    let header = format!("sha256={}", signature);
    let validator = test_validator();
    let err = prepare_event(&validator, body, Some(&header)).unwrap_err();
    assert_eq!(err, AppError::EventTypeNotFound);
}

#[test]
fn test_missing_primary_key_is_rejected() {
    let body = br#"{"webhookEvent":"jira:issue_created","issue":{"key":"TEST-123"}}"#;
    let signature = generate_signature("test_secret", body);
    let header = format!("sha256={}", signature);
    let validator = test_validator();
    let err = prepare_event(&validator, body, Some(&header)).unwrap_err();
    assert!(matches!(err, AppError::PrimaryKeyPathNotFound(_)));
    assert_eq!(err.status_code(), 400);
}

#[test]
fn test_event_id_pinned() {
    let event = PipelineEvent::new(
        wobj(vec![]),
        "jira:issue_created".to_string(),
        vec![PkField { key: "issue.id".to_string(), value: "12345".to_string() }],
        Operation::Write,
    );
    assert_eq!(event.id, "b5cc4132364a3f7c55c224bd7066c15c956c3ac097229384eba3b5a471473bbb");
}

#[test]
fn test_event_id_empty_fields() {
    let id = PipelineEvent::generate_id(&vec![]);
    assert_eq!(id, "e3b0c44298fc1c149afbf4c8996fb92427ae41e4649b934ca495991b7852b855");
}

#[test]
fn test_hmac_known_vector() {
    let tag = hmac_sha256(b"Jefe", b"what do ya want for nothing?");
    assert_eq!(
        hex::encode(&tag),
        "5bdcc146bf60754e6a042426089575c75a003f089d2739839dec58b964ec3843"
    );
}

#[test]
fn test_hex_encode_bytes() {
    assert_eq!(hex_encode(b"Hello world!"), "48656c6c6f20776f726c6421");
    assert_eq!(hex_encode(&[1u8, 2, 3, 15, 16]), "0102030f10");
}
