//! Event planning: stream names, event types, payload text, identifiers.
use mutation_events::call::{MutationArg, MutationCall};
use mutation_events::json::JsonValue;
use mutation_events::render::{mutation_call_payload, to_json_text};
use mutation_events::sink::{
    default_connection_string, default_event_type_prefix, default_stream_prefix, plan_batch,
};

fn s(text: &str) -> JsonValue {
    JsonValue::Str(text.to_string())
}

fn simple_call(op: Option<&str>, field: &str) -> MutationCall {
    MutationCall {
        operation_name: op.map(|o| o.to_string()),
        field_name: field.to_string(),
        loan_id: None,
        alias: None,
        arguments: vec![MutationArg { name: "name".to_string(), value: s("a") }],
        selected_fields: vec!["id".to_string()],
    }
}

#[test]
fn defaults_are_the_documented_literals() {
    assert_eq!(
        "kurrentdb://kurrentdb:2113?tls=false&tlsVerifyCert=false",
        default_connection_string()
    );
    assert_eq!("graphql-mutation-", default_stream_prefix());
    assert_eq!("GraphQL", default_event_type_prefix());
}

#[test]
fn payload_is_the_exact_json_shape() {
    let call = simple_call(Some("M"), "createX");
    assert_eq!(
        "{\"operation_name\":\"M\",\"field_name\":\"createX\",\"alias\":null,\
         \"arguments\":{\"name\":\"a\"},\"selected_fields\":[\"id\"]}",
        mutation_call_payload(&call)
    );
}

#[test]
fn payload_includes_identifier_only_when_present() {
    let mut call = simple_call(None, "createX");
    call.loan_id = Some("loan-1".to_string());
    call.alias = Some("aka".to_string());
    assert_eq!(
        "{\"operation_name\":null,\"field_name\":\"createX\",\"loan_id\":\"loan-1\",\
         \"alias\":\"aka\",\"arguments\":{\"name\":\"a\"},\"selected_fields\":[\"id\"]}",
        mutation_call_payload(&call)
    );
}

#[test]
fn json_text_renders_every_shape() {
    let value = JsonValue::Object(vec![
        ("n".to_string(), JsonValue::Null),
        ("b".to_string(), JsonValue::Bool(false)),
        ("i".to_string(), JsonValue::Int(-42)),
        ("f".to_string(), JsonValue::Float("2.5e3".to_string())),
        ("s".to_string(), s("say \"hi\"\n")),
        (
            "a".to_string(),
            JsonValue::Array(vec![JsonValue::Int(1), JsonValue::Null]),
        ),
    ]);
    assert_eq!(
        "{\"n\":null,\"b\":false,\"i\":-42,\"f\":2.5e3,\"s\":\"say \\\"hi\\\"\\n\",\"a\":[1,null]}",
        to_json_text(&value)
    );
}

#[test]
fn control_characters_render_as_unicode_escapes() {
    assert_eq!("\"\\u0000x\\u001f\"", to_json_text(&s("\u{0}x\u{1f}")));
}

#[test]
fn batch_of_three_plans_three_appends_with_distinct_identifiers() {
    let calls = vec![
        simple_call(Some("M"), "createX"),
        simple_call(None, "createY"),
        simple_call(Some("M"), "createX"),
    ];
    let plans = plan_batch(&calls, "graphql-mutation-", "GraphQL");
    assert_eq!(3, plans.len());
    assert_eq!("graphql-mutation-createX", plans[0].stream_name);
    assert_eq!("graphql-mutation-createY", plans[1].stream_name);
    assert_eq!("graphql-mutation-createX", plans[2].stream_name);
    assert_eq!("GraphQL.M", plans[0].event_type);
    assert_eq!("GraphQL.createY", plans[1].event_type);
    assert_eq!(mutation_call_payload(&calls[1]), plans[1].payload);
    for p in &plans {
        assert_eq!(36, p.event_id.len());
    }
    assert_ne!(plans[0].event_id, plans[1].event_id);
    assert_ne!(plans[0].event_id, plans[2].event_id);
    assert_ne!(plans[1].event_id, plans[2].event_id);
}

#[test]
fn empty_batch_plans_nothing() {
    let plans = plan_batch(&Vec::new(), "graphql-mutation-", "GraphQL");
    assert!(plans.is_empty());
}
