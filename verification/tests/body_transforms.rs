use xiranet::gateway::body_transform::{BodyTransformConfig, Json};

fn s(x: &str) -> Json {
    Json::Str(x.to_string())
}

fn obj(ms: Vec<(&str, Json)>) -> Json {
    Json::Object(ms.into_iter().map(|(k, v)| (k.to_string(), v)).collect())
}

fn config() -> BodyTransformConfig {
    BodyTransformConfig {
        remove_fields: vec![],
        add_fields: vec![],
        rename_fields: vec![],
        redact_fields: vec![],
        remove_response_fields: vec![],
        redact_value: "***REDACTED***".to_string(),
    }
}

#[test]
fn response_fields_are_redacted_and_removed_at_every_depth() {
    let mut c = config();
    c.redact_fields = vec!["password".to_string()];
    c.remove_response_fields = vec!["secret".to_string()];
    let body = obj(vec![
        ("a", obj(vec![("password", s("x")), ("keep", Json::Number("1".to_string())), ("secret", s("s"))])),
        ("list", Json::Array(vec![obj(vec![("password", obj(vec![("deep", s("y"))]))]), Json::Null])),
        ("secret", Json::Bool(true)),
    ]);
    let out = c.transform_response_body(body).unwrap();
    let expected = obj(vec![
        ("a", obj(vec![("password", s("***REDACTED***")), ("keep", Json::Number("1".to_string()))])),
        ("list", Json::Array(vec![obj(vec![("password", s("***REDACTED***"))]), Json::Null])),
    ]);
    assert_eq!(out, expected);
}

#[test]
fn request_fields_are_removed_added_then_renamed() {
    let mut c = config();
    c.remove_fields = vec!["a".to_string()];
    c.add_fields = vec![("c".to_string(), s("x")), ("b".to_string(), s("new"))];
    c.rename_fields = vec![("b".to_string(), "d".to_string()), ("missing".to_string(), "z".to_string())];
    let body = obj(vec![("a", Json::Number("1".to_string())), ("b", Json::Number("2".to_string()))]);
    let out = c.transform_request_body(body).unwrap();
    assert_eq!(out, obj(vec![("c", s("x")), ("d", s("new"))]));
    assert_eq!(c.transform_request_body(Json::Array(vec![])), Some(Json::Array(vec![])));
}

#[test]
fn nothing_configured_changes_nothing() {
    let c = config();
    assert_eq!(c.transform_request_body(obj(vec![("a", Json::Null)])), None);
    assert_eq!(c.transform_response_body(obj(vec![("a", Json::Null)])), None);
}
