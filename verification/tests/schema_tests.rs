use moduprompt::json::Json;
use moduprompt::schema::SchemaRegistry;

fn obj(fields: Vec<(&str, Json)>) -> Json {
    Json::Obj(fields.into_iter().map(|(k, v)| (k.to_string(), v)).collect())
}

#[test]
fn schemas_compile() {
    let registry = SchemaRegistry::new();
    assert!(registry.is_ok());
}

#[test]
fn command_schema_rejects_unknown_fields() {
    let registry = SchemaRegistry::new().expect("registry");
    let payload = obj(vec![
        ("name", Json::Str("demo".to_string())),
        ("path", Json::Str("./demo".to_string())),
        ("extra", Json::Str("nope".to_string())),
    ]);
    let result = registry.validate_command_payload("workspace.create", 1, &payload);
    assert!(result.is_err());
}

#[test]
fn event_schema_rejects_unknown_fields() {
    let registry = SchemaRegistry::new().expect("registry");
    let payload = obj(vec![
        ("name", Json::Str("demo".to_string())),
        ("root_path", Json::Str("./demo".to_string())),
        ("extra", Json::Bool(true)),
    ]);
    let result = registry.validate_event_payload("workspace.created", 1, &payload);
    assert!(result.is_err());
}

#[test]
fn command_schema_requires_fields() {
    let registry = SchemaRegistry::new().expect("registry");
    let payload = obj(vec![]);
    let result = registry.validate_command_payload("workspace.create", 1, &payload);
    assert!(result.is_err());
}

#[test]
fn command_schema_accepts_valid_payload() {
    let registry = SchemaRegistry::new().expect("registry");
    let payload = obj(vec![
        ("name", Json::Str("demo".to_string())),
        ("path", Json::Str("./demo".to_string())),
    ]);
    assert!(registry.validate_command_payload("workspace.create", 1, &payload).is_ok());
    let no_path = obj(vec![("name", Json::Str("demo".to_string()))]);
    assert!(registry.validate_command_payload("workspace.create", 1, &no_path).is_ok());
}

#[test]
fn command_schema_rejects_wrong_type() {
    let registry = SchemaRegistry::new().expect("registry");
    let payload = obj(vec![("name", Json::Int(5))]);
    assert!(registry.validate_command_payload("workspace.create", 1, &payload).is_err());
}

#[test]
fn unknown_schema_version_is_not_found() {
    let registry = SchemaRegistry::new().expect("registry");
    let payload = obj(vec![("name", Json::Str("demo".to_string()))]);
    assert!(registry.validate_command_payload("workspace.create", 2, &payload).is_err());
    assert!(registry.validate_command_payload("nope.create", 1, &payload).is_err());
}

#[test]
fn actor_rejects_unknown_fields() {
    let payload = obj(vec![
        ("kind", Json::Str("system".to_string())),
        ("id", Json::Str("system".to_string())),
        ("label", Json::Null),
        ("extra", Json::Bool(true)),
    ]);
    let result = moduprompt::wire::parse_actor(&payload);
    assert!(result.is_none());
}

#[test]
fn actor_parses_with_null_label() {
    let payload = obj(vec![
        ("kind", Json::Str("system".to_string())),
        ("id", Json::Str("system".to_string())),
        ("label", Json::Null),
    ]);
    let actor = moduprompt::wire::parse_actor(&payload).expect("actor");
    assert_eq!(actor.kind, "system");
    assert_eq!(actor.id, "system");
    assert!(actor.label.is_none());
}
