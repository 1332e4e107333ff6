use connectcare::event::{Operation, PipelineEvent};
use connectcare::filter::{filter_decision, CelOutcome, FilterProcessor};
use connectcare::json::JsonValue;
use connectcare::mapper::{cast_value, MapperProcessor};
use connectcare::AppError;

fn jstr(s: &str) -> JsonValue {
    JsonValue::Str(s.to_string())
}

fn jnum(s: &str) -> JsonValue {
    JsonValue::Num(s.to_string())
}

fn jobj(entries: Vec<(&str, JsonValue)>) -> JsonValue {
    JsonValue::Obj(entries.into_iter().map(|(k, v)| (k.to_string(), v)).collect())
}

fn test_event(body: JsonValue) -> PipelineEvent {
    PipelineEvent::new(body, "test_event".to_string(), vec![], Operation::Write)
}

fn field<'a>(v: &'a JsonValue, key: &str) -> &'a JsonValue {
    v.obj_get(key).expect("missing field")
}

#[test]
fn test_filter_passes() {
    let filter = FilterProcessor::new("eventType == 'test_event'").unwrap();
    let event = test_event(jobj(vec![("data", jstr("test"))]));
    let result = filter.process(event).unwrap();
    assert!(result.is_some());
}

#[test]
fn test_filter_blocks() {
    let filter = FilterProcessor::new("eventType == 'other_event'").unwrap();
    let event = test_event(jobj(vec![("data", jstr("test"))]));
    let result = filter.process(event).unwrap();
    assert!(result.is_none());
}

#[test]
fn test_filter_with_body_field() {
    let filter = FilterProcessor::new("status == 'active'").unwrap();
    let event = test_event(jobj(vec![("status", jstr("active")), ("name", jstr("test"))]));
    let result = filter.process(event).unwrap();
    assert!(result.is_some());
}

#[test]
fn test_filter_decision_outcomes() {
    let event = test_event(jobj(vec![("status", jstr("active"))]));
    let passed = filter_decision(event, CelOutcome::Bool(true)).unwrap().unwrap();
    assert_eq!(field(&passed.body, "status"), &jstr("active"));
    let event = test_event(jobj(vec![]));
    assert!(filter_decision(event, CelOutcome::Bool(false)).unwrap().is_none());
    let event = test_event(jobj(vec![]));
    let err = filter_decision(event, CelOutcome::NonBool("2".to_string())).unwrap_err();
    assert!(matches!(err, AppError::Processing(_)));
}

#[test]
fn test_simple_mapping() {
    let template = jobj(vec![
        ("name", jstr("{{ deployment.name }}")),
        ("status", jstr("{{ deployment.status }}")),
    ]);
    let mapper = MapperProcessor::new(template).unwrap();
    let event = test_event(jobj(vec![(
        "deployment",
        jobj(vec![("name", jstr("app-v1")), ("status", jstr("success"))]),
    )]));
    let result = mapper.process(event).unwrap();
    assert!(result.is_some());
    let result_event = result.unwrap();
    assert_eq!(field(&result_event.body, "name"), &jstr("app-v1"));
    assert_eq!(field(&result_event.body, "status"), &jstr("success"));
}

#[test]
fn test_mapping_with_top_level_field() {
    let template = jobj(vec![("timestamp", jstr("{{ timestamp }}"))]);
    let mapper = MapperProcessor::new(template).unwrap();
    let event = test_event(jobj(vec![("timestamp", jstr("2023-01-01T00:00:00Z"))]));
    let result = mapper.process(event).unwrap();
    assert!(result.is_some());
    let result_event = result.unwrap();
    assert_eq!(field(&result_event.body, "timestamp"), &jstr("2023-01-01T00:00:00Z"));
}

#[test]
fn test_type_preservation_for_objects() {
    let template = jobj(vec![
        ("status", jstr("{{ issue.fields.status }}")),
        ("labels", jstr("{{ issue.fields.labels }}")),
        ("priority", jstr("{{ issue.fields.priority }}")),
    ]);
    let mapper = MapperProcessor::new(template).unwrap();
    let event = test_event(jobj(vec![(
        "issue",
        jobj(vec![(
            "fields",
            jobj(vec![
                ("status", jobj(vec![("id", jstr("1")), ("name", jstr("Open"))])),
                ("labels", JsonValue::Arr(vec![jstr("bug"), jstr("urgent")])),
                ("priority", jnum("4")),
            ]),
        )]),
    )]));
    let result = mapper.process(event).unwrap();
    assert!(result.is_some());
    let result_event = result.unwrap();

    let status = field(&result_event.body, "status");
    assert!(matches!(status, JsonValue::Obj(_)));
    assert_eq!(field(status, "id"), &jstr("1"));
    assert_eq!(field(status, "name"), &jstr("Open"));

    let labels = field(&result_event.body, "labels");
    assert!(matches!(labels, JsonValue::Arr(_)));
    assert_eq!(labels, &JsonValue::Arr(vec![jstr("bug"), jstr("urgent")]));

    let priority = field(&result_event.body, "priority");
    assert!(matches!(priority, JsonValue::Num(_)));
    assert_eq!(priority, &jnum("4"));
}

#[test]
fn test_nested_path_extraction() {
    let template = jobj(vec![
        ("versionId", jstr("{{ issue.fields.fixVersions.0.id }}")),
        ("versionName", jstr("{{ issue.fields.fixVersions.0.name }}")),
    ]);
    let mapper = MapperProcessor::new(template).unwrap();
    let event = test_event(jobj(vec![(
        "issue",
        jobj(vec![(
            "fields",
            jobj(vec![(
                "fixVersions",
                JsonValue::Arr(vec![jobj(vec![("id", jstr("12345")), ("name", jstr("v1.0.0"))])]),
            )]),
        )]),
    )]));
    let result = mapper.process(event).unwrap();
    assert!(result.is_some());
    let result_event = result.unwrap();
    assert_eq!(field(&result_event.body, "versionId"), &jstr("12345"));
    assert_eq!(field(&result_event.body, "versionName"), &jstr("v1.0.0"));
}

#[test]
fn test_cast_string_to_number() {
    let template = jobj(vec![
        ("issueId", jobj(vec![("value", jstr("{{ issue.id }}")), ("castTo", jstr("number"))])),
        ("count", jobj(vec![("value", jstr("{{ issue.count }}")), ("castTo", jstr("number"))])),
    ]);
    let mapper = MapperProcessor::new(template).unwrap();
    let event = test_event(jobj(vec![(
        "issue",
        jobj(vec![("id", jstr("12345")), ("count", jstr("42"))]),
    )]));
    let result = mapper.process(event).unwrap();
    assert!(result.is_some());
    let result_event = result.unwrap();
    let issue_id = field(&result_event.body, "issueId");
    assert!(matches!(issue_id, JsonValue::Num(_)));
    assert_eq!(issue_id, &jnum("12345"));
    let count = field(&result_event.body, "count");
    assert!(matches!(count, JsonValue::Num(_)));
    assert_eq!(count, &jnum("42"));
}

#[test]
fn test_cast_number_to_string() {
    let template = jobj(vec![
        (
            "priorityLabel",
            jobj(vec![("value", jstr("{{ issue.priority }}")), ("castTo", jstr("string"))]),
        ),
        (
            "statusCode",
            jobj(vec![("value", jstr("{{ issue.status }}")), ("castTo", jstr("string"))]),
        ),
    ]);
    let mapper = MapperProcessor::new(template).unwrap();
    let event = test_event(jobj(vec![(
        "issue",
        jobj(vec![("priority", jnum("3")), ("status", jnum("200"))]),
    )]));
    let result = mapper.process(event).unwrap();
    assert!(result.is_some());
    let result_event = result.unwrap();
    let priority = field(&result_event.body, "priorityLabel");
    assert!(matches!(priority, JsonValue::Str(_)));
    assert_eq!(priority, &jstr("3"));
    let status = field(&result_event.body, "statusCode");
    assert!(matches!(status, JsonValue::Str(_)));
    assert_eq!(status, &jstr("200"));
}

#[test]
fn test_mixed_casting_and_normal_fields() {
    let template = jobj(vec![
        ("key", jstr("{{ issue.key }}")),
        ("issueId", jobj(vec![("value", jstr("{{ issue.id }}")), ("castTo", jstr("number"))])),
        ("summary", jstr("{{ issue.summary }}")),
    ]);
    let mapper = MapperProcessor::new(template).unwrap();
    let event = test_event(jobj(vec![(
        "issue",
        jobj(vec![
            ("key", jstr("TEST-123")),
            ("id", jstr("9999")),
            ("summary", jstr("Test issue")),
        ]),
    )]));
    let result = mapper.process(event).unwrap();
    assert!(result.is_some());
    let result_event = result.unwrap();
    assert_eq!(field(&result_event.body, "key"), &jstr("TEST-123"));
    let issue_id = field(&result_event.body, "issueId");
    assert!(matches!(issue_id, JsonValue::Num(_)));
    assert_eq!(issue_id, &jnum("9999"));
    assert_eq!(field(&result_event.body, "summary"), &jstr("Test issue"));
}

#[test]
fn test_plain_value_mappings() {
    let template = jobj(vec![
        ("staticText", jstr("My var text")),
        ("staticNumber", jnum("42")),
        ("staticBool", JsonValue::Bool(true)),
        ("staticNull", JsonValue::Null),
        ("staticArray", JsonValue::Arr(vec![jnum("1"), jnum("2"), jnum("3")])),
        ("staticObject", jobj(vec![("nested", jstr("value"))])),
        ("dynamicValue", jstr("{{ issue.id }}")),
    ]);
    let mapper = MapperProcessor::new(template).unwrap();
    let event = test_event(jobj(vec![("issue", jobj(vec![("id", jstr("12345"))]))]));
    let result = mapper.process(event).unwrap();
    assert!(result.is_some());
    let result_event = result.unwrap();
    assert_eq!(field(&result_event.body, "staticText"), &jstr("My var text"));
    assert_eq!(field(&result_event.body, "staticNumber"), &jnum("42"));
    assert_eq!(field(&result_event.body, "staticBool"), &JsonValue::Bool(true));
    assert!(matches!(field(&result_event.body, "staticNull"), JsonValue::Null));
    let arr = field(&result_event.body, "staticArray");
    assert!(matches!(arr, JsonValue::Arr(_)));
    assert_eq!(arr, &JsonValue::Arr(vec![jnum("1"), jnum("2"), jnum("3")]));
    let obj = field(&result_event.body, "staticObject");
    assert!(matches!(obj, JsonValue::Obj(_)));
    assert_eq!(field(obj, "nested"), &jstr("value"));
    assert_eq!(field(&result_event.body, "dynamicValue"), &jstr("12345"));
}

#[test]
fn test_identity_template_maps_body() {
    let template = jstr("{{ @this }}");
    let mapper = MapperProcessor::new(template).unwrap();
    let original = jobj(vec![
        ("issue", jobj(vec![("id", jstr("7"))])),
        ("tags", JsonValue::Arr(vec![jstr("a"), jnum("2")])),
    ]);
    let expected = jobj(vec![
        ("issue", jobj(vec![("id", jstr("7"))])),
        ("tags", JsonValue::Arr(vec![jstr("a"), jnum("2")])),
    ]);
    let event = test_event(original);
    let result = mapper.process(event).unwrap().unwrap();
    assert_eq!(result.body, expected);
}

#[test]
fn test_cast_errors() {
    let err = cast_value(&jobj(vec![]), "string").unwrap_err();
    assert!(matches!(err, AppError::Processing(_)));
    let err = cast_value(&jstr("not a number"), "number").unwrap_err();
    assert!(matches!(err, AppError::Processing(_)));
    let err = cast_value(&jstr("5"), "boolean").unwrap_err();
    assert!(matches!(err, AppError::Processing(_)));
}

#[test]
fn test_cast_float_string() {
    let out = cast_value(&jstr("3.5"), "number").unwrap();
    assert_eq!(out, jnum("3.5"));
    let out = cast_value(&jstr("-0012"), "number").unwrap();
    assert_eq!(out, jnum("-12"));
    let out = cast_value(&JsonValue::Bool(true), "number").unwrap();
    assert_eq!(out, jnum("1"));
    let out = cast_value(&JsonValue::Null, "string").unwrap();
    assert_eq!(out, jstr(""));
}

#[test]
fn test_text_interpolation_falls_through() {
    let template = jobj(vec![("label", jstr("issue {{ issue.id }} ({{ issue.key }})"))]);
    let mapper = MapperProcessor::new(template).unwrap();
    let event = test_event(jobj(vec![(
        "issue",
        jobj(vec![("id", jnum("7")), ("key", jstr("TEST-7"))]),
    )]));
    let result = mapper.process(event).unwrap().unwrap();
    assert_eq!(field(&result.body, "label"), &jstr("issue 7 (TEST-7)"));
}

#[test]
fn test_rendered_json_is_reparsed() {
    let template = jobj(vec![("pair", jstr("[{{ a }},{{ b }}]"))]);
    let mapper = MapperProcessor::new(template).unwrap();
    let event = test_event(jobj(vec![("a", jnum("1")), ("b", jnum("2"))]));
    let result = mapper.process(event).unwrap().unwrap();
    assert_eq!(
        field(&result.body, "pair"),
        &JsonValue::Arr(vec![jnum("1"), jnum("2")])
    );
}

#[test]
fn test_cast_form_requires_exact_keys() {
    // an object holding a third key besides value and castTo is rebuilt
    // key by key, not treated as a cast
    let template = jobj(vec![(
        "issueId",
        jobj(vec![
            ("value", jstr("{{ issue.id }}")),
            ("castTo", jstr("number")),
            ("note", jstr("kept")),
        ]),
    )]);
    let mapper = MapperProcessor::new(template).unwrap();
    let event = test_event(jobj(vec![("issue", jobj(vec![("id", jstr("9999"))]))]));
    let result = mapper.process(event).unwrap().unwrap();
    let rebuilt = field(&result.body, "issueId");
    assert!(matches!(rebuilt, JsonValue::Obj(_)));
    assert_eq!(field(rebuilt, "value"), &jstr("9999"));
    assert_eq!(field(rebuilt, "castTo"), &jstr("number"));
    assert_eq!(field(rebuilt, "note"), &jstr("kept"));
}

#[test]
fn test_filter_rejects_comprehension() {
    // the evaluator cannot run comprehensions safely, so the library
    // rejects them when the pipeline is built
    match FilterProcessor::new("eventType.all(x, true)") {
        Ok(_) => panic!("a comprehension must be rejected"),
        Err(e) => assert!(matches!(e, AppError::Config(_))),
    }
    match FilterProcessor::new("[1, 2].map(x, x)") {
        Ok(_) => panic!("a comprehension must be rejected"),
        Err(e) => assert!(matches!(e, AppError::Config(_))),
    }
}
