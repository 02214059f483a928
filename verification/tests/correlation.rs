//! The response correlator's rules on hand-built batches.
use mutation_events::call::{MutationArg, MutationCall};
use mutation_events::correlate::{
    default_scalar_identifier_fields, enrich_mutations_with_response, extract_loan_id_from_args,
    mutations_to_persist,
};
use mutation_events::json::JsonValue;

fn s(text: &str) -> JsonValue {
    JsonValue::Str(text.to_string())
}

fn obj(fields: Vec<(&str, JsonValue)>) -> JsonValue {
    JsonValue::Object(fields.into_iter().map(|(k, v)| (k.to_string(), v)).collect())
}

fn call(field_name: &str, alias: Option<&str>, arguments: Vec<MutationArg>) -> MutationCall {
    MutationCall {
        operation_name: Some("Op".to_string()),
        field_name: field_name.to_string(),
        loan_id: None,
        alias: alias.map(|a| a.to_string()),
        arguments,
        selected_fields: Vec::new(),
    }
}

fn input_arg(fields: Vec<(&str, JsonValue)>) -> MutationArg {
    MutationArg { name: "input".to_string(), value: obj(fields) }
}

#[test]
fn unmatched_calls_pass_through_unchanged() {
    let calls = vec![
        call("alpha", None, vec![input_arg(vec![("loanId", s("keeps-nothing"))])]),
        call("beta", Some("aliased"), Vec::new()),
    ];
    let expected = vec![
        call("alpha", None, vec![input_arg(vec![("loanId", s("keeps-nothing"))])]),
        call("beta", Some("aliased"), Vec::new()),
    ];
    let response = obj(vec![("unrelated", s("x"))]);
    let out =
        enrich_mutations_with_response(calls, &response, &default_scalar_identifier_fields());
    assert_eq!(expected, out);
}

#[test]
fn non_object_response_is_a_no_op() {
    let calls = vec![call("alpha", None, Vec::new())];
    let expected = vec![call("alpha", None, Vec::new())];
    let out = enrich_mutations_with_response(
        calls,
        &s("not an object"),
        &default_scalar_identifier_fields(),
    );
    assert_eq!(expected, out);
}

#[test]
fn scalar_identifier_field_with_string_result_sets_extracted_id() {
    let calls = vec![call("recordLoanRequested", None, Vec::new())];
    let response = obj(vec![("recordLoanRequested", s("loan-789"))]);
    let out =
        enrich_mutations_with_response(calls, &response, &default_scalar_identifier_fields());
    assert_eq!(Some("loan-789".to_string()), out[0].loan_id);
    assert!(out[0].arguments.iter().all(|a| a.name != "responseData"));
}

#[test]
fn result_side_identifier_overrides_input_side() {
    let calls = vec![call(
        "recordLoanRequested",
        None,
        vec![input_arg(vec![("loanId", s("from-input"))])],
    )];
    let response = obj(vec![("recordLoanRequested", s("from-result"))]);
    let out =
        enrich_mutations_with_response(calls, &response, &default_scalar_identifier_fields());
    assert_eq!(Some("from-result".to_string()), out[0].loan_id);
}

#[test]
fn input_identifier_survives_when_result_is_not_scalar() {
    let calls = vec![call(
        "recordCreditChecked",
        None,
        vec![input_arg(vec![("loanId", s("from-input"))])],
    )];
    let response = obj(vec![("recordCreditChecked", obj(vec![("ok", JsonValue::Bool(true))]))]);
    let out =
        enrich_mutations_with_response(calls, &response, &default_scalar_identifier_fields());
    assert_eq!(Some("from-input".to_string()), out[0].loan_id);
    let rd = out[0]
        .arguments
        .iter()
        .find(|a| a.name == "responseData")
        .expect("responseData argument");
    assert_eq!(obj(vec![("ok", JsonValue::Bool(true))]), rd.value);
}

#[test]
fn matching_prefers_alias_over_field_name() {
    let calls = vec![call("hidden", Some("visible"), Vec::new())];
    let response = obj(vec![
        ("hidden", s("wrong key")),
        ("visible", obj(vec![("id", s("1"))])),
    ]);
    let out =
        enrich_mutations_with_response(calls, &response, &default_scalar_identifier_fields());
    let rd = out[0]
        .arguments
        .iter()
        .find(|a| a.name == "responseData")
        .expect("responseData argument");
    assert_eq!(obj(vec![("id", s("1"))]), rd.value);
}

#[test]
fn input_identifier_requires_string_value() {
    assert_eq!(
        Some("x-1".to_string()),
        extract_loan_id_from_args(&vec![input_arg(vec![("loanId", s("x-1"))])])
    );
    assert_eq!(
        None,
        extract_loan_id_from_args(&vec![input_arg(vec![("loanId", JsonValue::Int(5))])])
    );
    assert_eq!(
        None,
        extract_loan_id_from_args(&vec![input_arg(vec![("other", s("x-1"))])])
    );
    assert_eq!(
        None,
        extract_loan_id_from_args(&vec![MutationArg {
            name: "notinput".to_string(),
            value: obj(vec![("loanId", s("x-1"))]),
        }])
    );
    assert_eq!(None, extract_loan_id_from_args(&Vec::new()));
}

#[test]
fn empty_batch_or_missing_data_persists_nothing() {
    let set = default_scalar_identifier_fields();
    assert!(mutations_to_persist(Vec::new(), Some(&obj(vec![])), &set).is_none());
    let calls = vec![call("alpha", None, Vec::new())];
    assert!(mutations_to_persist(calls, None, &set).is_none());
}
