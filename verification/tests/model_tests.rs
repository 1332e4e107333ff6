use connectcare::codec::{parse_json_bytes, parse_json_str};
use connectcare::jira::{get_event_type, get_supported_events, lookup_event, JiraSourceConfig,
    JiraAuthentication};
use connectcare::json::JsonValue;
use connectcare::event::Operation;
use connectcare::numbers::{i64_to_digits, parse_i64, parse_usize};
use connectcare::paths::{split_path, stringify_value};
use connectcare::secret::SecretSource;
use connectcare::serialize::to_json_text;
use connectcare::sinks::{document_key, parse_mongo_url, parse_mongo_url_for_sink};
use connectcare::AppError;

fn mstr(s: &str) -> JsonValue {
    JsonValue::Str(s.to_string())
}

fn mnum(s: &str) -> JsonValue {
    JsonValue::Num(s.to_string())
}

fn mobj(entries: Vec<(&str, JsonValue)>) -> JsonValue {
    JsonValue::Obj(entries.into_iter().map(|(k, v)| (k.to_string(), v)).collect())
}

#[test]
fn test_serialize_compact() {
    let v = mobj(vec![
        ("a", mnum("1")),
        ("b", JsonValue::Arr(vec![JsonValue::Bool(true), JsonValue::Null])),
        ("c", mstr("x")),
    ]);
    assert_eq!(to_json_text(&v), r#"{"a":1,"b":[true,null],"c":"x"}"#);
    assert_eq!(to_json_text(&mobj(vec![])), "{}");
    assert_eq!(to_json_text(&JsonValue::Arr(vec![])), "[]");
}

#[test]
fn test_serialize_escapes() {
    let v = mstr("a\"b\\c\nd\te\u{1}");
    assert_eq!(to_json_text(&v), "\"a\\\"b\\\\c\\nd\\te\\u0001\"");
}

#[test]
fn test_parse_json_round_trip() {
    let text = r#"{"issue":{"id":"12345","n":7,"ok":true,"tags":["a","b"],"gone":null}}"#;
    let v = parse_json_str(text).unwrap();
    assert_eq!(to_json_text(&v), text);
    let v2 = parse_json_bytes(text.as_bytes()).unwrap();
    assert_eq!(v, v2);
    assert!(parse_json_str("{oops").is_none());
}

#[test]
fn test_stringify_values() {
    assert_eq!(stringify_value(&mstr("plain")), "plain");
    assert_eq!(stringify_value(&mnum("42")), "42");
    assert_eq!(stringify_value(&JsonValue::Bool(true)), "true");
    assert_eq!(stringify_value(&JsonValue::Null), "null");
    assert_eq!(
        stringify_value(&mobj(vec![("k", mnum("1"))])),
        r#"{"k":1}"#
    );
}

#[test]
fn test_split_path_segments() {
    let parts = split_path("issue.fields.fixVersions.0.id");
    assert_eq!(parts, vec!["issue", "fields", "fixVersions", "0", "id"]);
    assert_eq!(split_path("plain"), vec!["plain"]);
    assert_eq!(split_path("a..b"), vec!["a", "", "b"]);
    assert_eq!(split_path(""), vec![""]);
}

#[test]
fn test_parse_usize_values() {
    assert_eq!(parse_usize(&"42".chars().collect()), Some(42));
    assert_eq!(parse_usize(&"+7".chars().collect()), Some(7));
    assert_eq!(parse_usize(&"0012".chars().collect()), Some(12));
    assert_eq!(parse_usize(&"".chars().collect()), None);
    assert_eq!(parse_usize(&"-1".chars().collect()), None);
    assert_eq!(parse_usize(&"4x".chars().collect()), None);
    assert_eq!(parse_usize(&"99999999999999999999999".chars().collect()), None);
}

#[test]
fn test_parse_i64_values() {
    assert_eq!(parse_i64(&"-42".chars().collect()), Some(-42));
    assert_eq!(parse_i64(&"9223372036854775807".chars().collect()), Some(i64::MAX));
    assert_eq!(parse_i64(&"-9223372036854775808".chars().collect()), Some(i64::MIN));
    assert_eq!(parse_i64(&"9223372036854775808".chars().collect()), None);
    assert_eq!(parse_i64(&"--1".chars().collect()), None);
}

#[test]
fn test_i64_rendering() {
    let digits: String = i64_to_digits(-120).into_iter().collect();
    assert_eq!(digits, "-120");
    let digits: String = i64_to_digits(0).into_iter().collect();
    assert_eq!(digits, "0");
    let digits: String = i64_to_digits(i64::MIN).into_iter().collect();
    assert_eq!(digits, "-9223372036854775808");
}

#[test]
fn test_event_table_lookup() {
    let c = lookup_event("jira:issue_created").unwrap();
    assert_eq!(c.operation, Operation::Write);
    assert_eq!(c.pk_path, "issue.id");
    let c = lookup_event("jira:version_deleted").unwrap();
    assert_eq!(c.operation, Operation::Delete);
    assert_eq!(c.pk_path, "version.id");
    let c = lookup_event("project_restored_deleted").unwrap();
    assert_eq!(c.operation, Operation::Write);
    assert_eq!(c.pk_path, "project.id");
    assert!(lookup_event("jira:whatever").is_none());
}

#[test]
fn test_supported_events_table() {
    let events = get_supported_events();
    assert_eq!(events.len(), 15);
    for (name, config) in &events {
        let looked_up = lookup_event(name).expect("every listed event is supported");
        assert_eq!(looked_up.operation, config.operation);
        assert_eq!(looked_up.pk_path, config.pk_path);
    }
}

#[test]
fn test_get_event_type_reads_webhook_event() {
    let body = mobj(vec![("webhookEvent", mstr("jira:issue_created"))]);
    assert_eq!(get_event_type(&body).unwrap(), "jira:issue_created");
    let body = mobj(vec![("webhookEvent", mnum("3"))]);
    assert_eq!(get_event_type(&body).unwrap_err(), AppError::EventTypeNotFound);
    let body = mobj(vec![]);
    assert_eq!(get_event_type(&body).unwrap_err(), AppError::EventTypeNotFound);
}

#[test]
fn test_webhook_path_defaults() {
    let config = JiraSourceConfig {
        webhook_path: None,
        authentication: JiraAuthentication {
            secret: SecretSource::Plain("s".to_string()),
            header_name: "X-Hub-Signature".to_string(),
        },
    };
    assert_eq!(config.get_webhook_path(), "/jira/webhook");
    let config = JiraSourceConfig {
        webhook_path: Some("/hooks/jira".to_string()),
        authentication: JiraAuthentication {
            secret: SecretSource::Plain("s".to_string()),
            header_name: "X-Hub-Signature".to_string(),
        },
    };
    assert_eq!(config.get_webhook_path(), "/hooks/jira");
}

#[test]
fn test_secret_plain_value() {
    assert_eq!(SecretSource::Plain("abc".to_string()).plain_value(), Some("abc".to_string()));
    assert_eq!(SecretSource::FromEnv { from_env: "X".to_string() }.plain_value(), None);
}

#[test]
fn test_mongo_url_ok() {
    let (db, coll) = parse_mongo_url("mongodb://localhost:27017/mydb/events").unwrap();
    assert_eq!(db, "mydb");
    assert_eq!(coll, "events");
    let (db, coll) = parse_mongo_url("mongodb+srv://cluster.example.com/appdb/items").unwrap();
    assert_eq!(db, "appdb");
    assert_eq!(coll, "items");
}

#[test]
fn test_mongo_url_with_query() {
    let (db, coll) = parse_mongo_url("mongodb://h/db/events?retryWrites=true").unwrap();
    assert_eq!(db, "db");
    assert_eq!(coll, "events");
}

#[test]
fn test_mongo_url_errors() {
    assert!(matches!(parse_mongo_url("http://h/db/coll"), Err(AppError::Config(_))));
    assert!(matches!(parse_mongo_url("mongodb://host"), Err(AppError::Config(_))));
    assert!(matches!(parse_mongo_url("mongodb://host/db"), Err(AppError::Config(_))));
    assert!(matches!(parse_mongo_url("mongodb://host/db/"), Err(AppError::Config(_))));
}

#[test]
fn test_mongo_url_for_sink() {
    let (base, db) = parse_mongo_url_for_sink("mongodb://localhost:27017/mydb").unwrap();
    assert_eq!(base, "mongodb://localhost:27017");
    assert_eq!(db, "mydb");
    let (base, db) = parse_mongo_url_for_sink("mongodb://h/db?x=1").unwrap();
    assert_eq!(base, "mongodb://h");
    assert_eq!(db, "db");
    assert!(matches!(parse_mongo_url_for_sink("mongodb://host"), Err(AppError::Config(_))));
}

#[test]
fn test_document_key_from_body() {
    let body = mobj(vec![("id", mstr("custom")), ("x", mnum("1"))]);
    assert_eq!(document_key(&body, "eventid"), mstr("custom"));
}

#[test]
fn test_document_key_fallback() {
    let body = mobj(vec![("x", mnum("1"))]);
    assert_eq!(document_key(&body, "eventid"), mstr("eventid"));
    assert_eq!(document_key(&JsonValue::Null, "eventid"), mstr("eventid"));
}

#[test]
fn test_error_status_codes() {
    assert_eq!(AppError::HmacValidation.status_code(), 401);
    assert_eq!(AppError::MissingSignature.status_code(), 400);
    assert_eq!(AppError::InvalidSignatureFormat.status_code(), 400);
    assert_eq!(AppError::EventTypeNotFound.status_code(), 400);
    assert_eq!(AppError::PrimaryKeyPathNotFound("p".to_string()).status_code(), 400);
    assert_eq!(AppError::JsonParse("m".to_string()).status_code(), 400);
    assert_eq!(AppError::PipelineSend.status_code(), 500);
    assert_eq!(AppError::Database("m".to_string()).status_code(), 500);
    assert_eq!(AppError::Processing("m".to_string()).status_code(), 500);
    assert_eq!(AppError::Config("m".to_string()).status_code(), 500);
}
