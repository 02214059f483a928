//! The value resolver and the scalar-literal parsers.
use mutation_events::chars::chars_of;
use mutation_events::json::JsonValue;
use mutation_events::numbers::{is_number_chars, parse_int_chars};
use mutation_events::resolve::{ast_value_to_json, ValueNode, VarBinding};
use mutation_events::strings::parse_string_chars;

fn resolve(node: &ValueNode, vars: &Vec<VarBinding>) -> Option<JsonValue> {
    ast_value_to_json(node, vars)
}

fn no_vars() -> Vec<VarBinding> {
    Vec::new()
}

fn text(t: &str) -> String {
    t.to_string()
}

#[test]
fn scalar_literals_resolve() {
    let vars = no_vars();
    assert_eq!(
        Some(JsonValue::Str("a".to_string())),
        resolve(&ValueNode::StrLit(text("\"a\"")), &vars)
    );
    assert_eq!(Some(JsonValue::Int(42)), resolve(&ValueNode::IntLit(text("42")), &vars));
    assert_eq!(Some(JsonValue::Int(-7)), resolve(&ValueNode::IntLit(text("-7")), &vars));
    assert_eq!(
        Some(JsonValue::Float("50000.0".to_string())),
        resolve(&ValueNode::FloatLit(text("50000.0")), &vars)
    );
    assert_eq!(Some(JsonValue::Bool(true)), resolve(&ValueNode::BoolLit(text("true")), &vars));
    assert_eq!(Some(JsonValue::Bool(false)), resolve(&ValueNode::BoolLit(text("false")), &vars));
    assert_eq!(Some(JsonValue::Null), resolve(&ValueNode::NullLit, &vars));
    assert_eq!(
        Some(JsonValue::Str("ACTIVE".to_string())),
        resolve(&ValueNode::EnumTok(text("ACTIVE")), &vars)
    );
}

#[test]
fn malformed_literals_resolve_to_absent() {
    let vars = no_vars();
    assert_eq!(None, resolve(&ValueNode::IntLit(text("007")), &vars));
    assert_eq!(None, resolve(&ValueNode::IntLit(text("12a")), &vars));
    assert_eq!(None, resolve(&ValueNode::StrLit(text("\"unterminated")), &vars));
    assert_eq!(None, resolve(&ValueNode::FloatLit(text("1.")), &vars));
    assert_eq!(None, resolve(&ValueNode::BoolLit(text("True")), &vars));
    assert_eq!(None, resolve(&ValueNode::Invalid, &vars));
}

#[test]
fn unbound_variable_resolves_to_absent_without_panic() {
    let vars = vec![VarBinding { name: "bound".to_string(), value: JsonValue::Int(1) }];
    assert_eq!(None, resolve(&ValueNode::VarRef(text("unbound")), &vars));
    assert_eq!(Some(JsonValue::Int(1)), resolve(&ValueNode::VarRef(text("bound")), &vars));
}

#[test]
fn list_with_unresolvable_member_keeps_length_with_null_in_place() {
    let vars = no_vars();
    let node = ValueNode::List(vec![
        ValueNode::IntLit(text("1")),
        ValueNode::VarRef(text("missing")),
        ValueNode::IntLit(text("3")),
    ]);
    let resolved = resolve(&node, &vars).expect("a list always resolves");
    match resolved {
        JsonValue::Array(items) => {
            assert_eq!(3, items.len());
            assert_eq!(JsonValue::Int(1), items[0]);
            assert_eq!(JsonValue::Null, items[1]);
            assert_eq!(JsonValue::Int(3), items[2]);
        }
        other => panic!("expected an array, got {:?}", other),
    }
}

#[test]
fn object_with_unresolvable_member_keeps_keys_with_null_in_place() {
    let vars = no_vars();
    let node = ValueNode::ObjectLit(vec![
        ("kept".to_string(), ValueNode::IntLit(text("1"))),
        ("broken".to_string(), ValueNode::VarRef(text("missing"))),
    ]);
    let resolved = resolve(&node, &vars).expect("an object always resolves");
    match resolved {
        JsonValue::Object(fields) => {
            assert_eq!(2, fields.len());
            assert_eq!(("kept".to_string(), JsonValue::Int(1)), fields[0]);
            assert_eq!(("broken".to_string(), JsonValue::Null), fields[1]);
        }
        other => panic!("expected an object, got {:?}", other),
    }
}

#[test]
fn integer_literal_bounds() {
    assert_eq!(Some(0), parse_int_chars(&chars_of("0")));
    assert_eq!(Some(0), parse_int_chars(&chars_of("-0")));
    assert_eq!(
        Some(9223372036854775807),
        parse_int_chars(&chars_of("9223372036854775807"))
    );
    assert_eq!(None, parse_int_chars(&chars_of("9223372036854775808")));
    assert_eq!(
        Some(-9223372036854775808),
        parse_int_chars(&chars_of("-9223372036854775808"))
    );
    assert_eq!(None, parse_int_chars(&chars_of("-9223372036854775809")));
    assert_eq!(None, parse_int_chars(&chars_of("12345678901234567890123")));
    assert_eq!(None, parse_int_chars(&chars_of("")));
    assert_eq!(None, parse_int_chars(&chars_of("-")));
    assert_eq!(None, parse_int_chars(&chars_of("01")));
}

#[test]
fn number_shape() {
    assert!(is_number_chars(&chars_of("0")));
    assert!(is_number_chars(&chars_of("-12.5e+3")));
    assert!(is_number_chars(&chars_of("1.25")));
    assert!(is_number_chars(&chars_of("2E8")));
    assert!(!is_number_chars(&chars_of("1.")));
    assert!(!is_number_chars(&chars_of(".5")));
    assert!(!is_number_chars(&chars_of("1e")));
    assert!(!is_number_chars(&chars_of("01")));
    assert!(!is_number_chars(&chars_of("--1")));
}

#[test]
fn string_literal_escapes() {
    let parsed = |t: &str| parse_string_chars(&chars_of(t)).map(|v| v.into_iter().collect::<String>());
    assert_eq!(Some("a\nb".to_string()), parsed("\"a\\nb\""));
    assert_eq!(Some("q\"w".to_string()), parsed("\"q\\\"w\""));
    assert_eq!(Some("back\\slash".to_string()), parsed("\"back\\\\slash\""));
    assert_eq!(Some("A".to_string()), parsed("\"\\u0041\""));
    assert_eq!(Some("\u{1F600}".to_string()), parsed("\"\\ud83d\\ude00\""));
    assert_eq!(None, parsed("\"\\ud800\""));
    assert_eq!(None, parsed("\"\\x41\""));
    assert_eq!(None, parsed("\"\"extra\"\""));
    assert_eq!(None, parsed("no quotes"));
    assert_eq!(None, parsed("\"raw\ncontrol\""));
}
