//! End-to-end behaviour: extraction from operation text, correlation with
//! a result payload, and the sink handoff.
use mutation_events::correlate::{
    default_scalar_identifier_fields, enrich_mutations_with_response, mutations_to_persist,
};
use mutation_events::json::JsonValue;
use mutation_events::parse::extract_mutations;
use mutation_events::resolve::VarBinding;
use mutation_events::sink::MutationSink;
use mutation_events::call::MutationCall;
use std::cell::RefCell;

struct MockMutationSink {
    calls: RefCell<Vec<Vec<MutationCall>>>,
}

impl MockMutationSink {
    fn new() -> Self {
        MockMutationSink { calls: RefCell::new(Vec::new()) }
    }

    fn recorded(&self) -> usize {
        self.calls.borrow().len()
    }
}

impl MutationSink for MockMutationSink {
    fn persist_mutations(&self, calls: Vec<MutationCall>) {
        self.calls.borrow_mut().push(calls);
    }
}

fn obj(fields: Vec<(&str, JsonValue)>) -> JsonValue {
    JsonValue::Object(fields.into_iter().map(|(k, v)| (k.to_string(), v)).collect())
}

fn s(text: &str) -> JsonValue {
    JsonValue::Str(text.to_string())
}

#[test]
fn detects_mutations_and_invokes_sink() {
    let mutation = r#"
        mutation RecordSummary {
          recordAutomatedSummary(
            input: {
              loanId: "test-loan-123"
              CreditScoreSummary: "credit score summary"
              IncomeAndEmploymentSummary: "income"
              LoanToIncomeSummary: "ratio"
              MaritalStatusAndDependentsSummary: "status"
              RecommendedFurtherInvestigation: "none"
              SummarizedBy: "Analyst"
              SummarizedAt: "2024-09-29T00:00:00Z"
            }
          ) {
            LoanRequestID
            CreditScoreSummary
          }
        }
    "#;
    let calls = extract_mutations(mutation, &vec![]);
    assert_eq!(1, calls.len());

    let response = obj(vec![(
        "recordAutomatedSummary",
        obj(vec![
            ("LoanRequestID", s("test-loan-123")),
            ("CreditScoreSummary", s("credit score summary")),
        ]),
    )]);

    let sink = MockMutationSink::new();
    let batch = mutations_to_persist(calls, Some(&response), &default_scalar_identifier_fields())
        .expect("a captured mutation with response data must be persisted");
    sink.persist_mutations(batch);

    assert_eq!(1, sink.recorded());
    let recorded = sink.calls.borrow();
    let calls = &recorded[0];
    assert_eq!(1, calls.len());
    let call = &calls[0];
    assert_eq!("recordAutomatedSummary", call.field_name);
    let input = call
        .arguments
        .iter()
        .find(|arg| arg.name == "input")
        .expect("input argument");
    match &input.value {
        JsonValue::Object(fields) => {
            let found = fields
                .iter()
                .find(|(k, _)| k == "CreditScoreSummary")
                .expect("summary key");
            assert_eq!(s("credit score summary"), found.1);
        }
        other => panic!("input should be an object, got {:?}", other),
    }
    let response_data = call.arguments.iter().find(|arg| arg.name == "responseData");
    assert!(response_data.is_some(), "Response data should be present");
}

#[test]
fn extracts_loan_id_from_record_loan_requested_response() {
    let mutation = r#"
        mutation RecordLoan {
          recordLoanRequested(
            input: {
              Amount: 50000.0
              NationalID: "123456789"
              Name: "John Doe"
              Gender: "Male"
              Age: 35
              MaritalStatus: "Married"
              Dependents: 2
              EducationLevel: "Bachelor"
              EmployerName: "Tech Corp"
              JobTitle: "Engineer"
              JobSeniority: 5.0
              Income: 85000.0
              Address: {
                Street: "123 Main St"
                City: "San Francisco"
                Region: "CA"
                Country: "USA"
                PostalCode: "94102"
              }
              LoanRequestedTimestamp: "2024-09-29T00:00:00Z"
            }
          )
        }
    "#;
    let calls = extract_mutations(mutation, &vec![]);
    assert_eq!(1, calls.len());

    let response = obj(vec![(
        "recordLoanRequested",
        s("550e8400-e29b-41d4-a716-446655440000"),
    )]);
    let enriched =
        enrich_mutations_with_response(calls, &response, &default_scalar_identifier_fields());
    assert_eq!(1, enriched.len());
    let call = &enriched[0];
    assert_eq!("recordLoanRequested", call.field_name);
    assert!(
        call.loan_id.is_some(),
        "loanId should be extracted from response"
    );
    assert_eq!(
        "550e8400-e29b-41d4-a716-446655440000",
        call.loan_id.as_ref().unwrap()
    );
}

#[test]
fn extracts_loan_id_from_input_arguments() {
    let mutation = r#"
        mutation CheckCredit {
          recordCreditChecked(
            input: {
              loanId: "test-loan-456"
              NationalID: "123456789"
              Score: 750
              CreditCheckedTimestamp: "2024-09-29T00:00:00Z"
            }
          ) {
            LoanRequestID
            Score
          }
        }
    "#;
    let calls = extract_mutations(mutation, &vec![]);
    assert_eq!(1, calls.len());

    let response = obj(vec![(
        "recordCreditChecked",
        obj(vec![
            ("LoanRequestID", s("test-loan-456")),
            ("NationalID", s("123456789")),
            ("Score", JsonValue::Int(750)),
            ("CreditCheckedTimestamp", s("2024-09-29T00:00:00Z")),
        ]),
    )]);
    let enriched =
        enrich_mutations_with_response(calls, &response, &default_scalar_identifier_fields());
    assert_eq!(1, enriched.len());
    let call = &enriched[0];
    assert_eq!("recordCreditChecked", call.field_name);
    assert!(
        call.loan_id.is_some(),
        "loanId should be extracted from input arguments"
    );
    assert_eq!("test-loan-456", call.loan_id.as_ref().unwrap());
}

#[test]
fn ignores_non_mutation_operations() {
    let calls = extract_mutations("query { __typename }", &vec![]);
    assert!(calls.is_empty());

    let sink = MockMutationSink::new();
    let response = obj(vec![("__typename", s("Query"))]);
    let batch =
        mutations_to_persist(calls, Some(&response), &default_scalar_identifier_fields());
    assert!(batch.is_none(), "nothing to persist for a read operation");
    assert_eq!(0, sink.recorded());
}

#[test]
fn single_mutation_scenario_captures_field_arguments_and_selection() {
    let calls = extract_mutations("mutation M { createX(name: \"a\") { id } }", &vec![]);
    assert_eq!(1, calls.len());
    let call = &calls[0];
    assert_eq!(Some("M".to_string()), call.operation_name);
    assert_eq!("createX", call.field_name);
    assert_eq!(None, call.alias);
    assert_eq!(None, call.loan_id);
    assert_eq!(1, call.arguments.len());
    assert_eq!("name", call.arguments[0].name);
    assert_eq!(s("a"), call.arguments[0].value);
    assert_eq!(vec!["id".to_string()], call.selected_fields);
}

#[test]
fn single_mutation_scenario_gains_response_data() {
    let calls = extract_mutations("mutation M { createX(name: \"a\") { id } }", &vec![]);
    let response = obj(vec![("createX", obj(vec![("id", s("123"))]))]);
    let enriched =
        enrich_mutations_with_response(calls, &response, &default_scalar_identifier_fields());
    assert_eq!(1, enriched.len());
    let call = &enriched[0];
    let rd = call
        .arguments
        .iter()
        .find(|arg| arg.name == "responseData")
        .expect("responseData argument");
    assert_eq!(obj(vec![("id", s("123"))]), rd.value);
    assert_eq!(None, call.loan_id);
}

#[test]
fn two_top_level_fields_yield_two_calls_in_source_order() {
    let calls = extract_mutations(
        "mutation Pair { first(a: 1) { id } second: renamed(b: true) }",
        &vec![],
    );
    assert_eq!(2, calls.len());
    assert_eq!("first", calls[0].field_name);
    assert_eq!(JsonValue::Int(1), calls[0].arguments[0].value);
    assert_eq!("renamed", calls[1].field_name);
    assert_eq!(Some("second".to_string()), calls[1].alias);
    assert_eq!(JsonValue::Bool(true), calls[1].arguments[0].value);
    assert!(calls[1].selected_fields.is_empty());
}

#[test]
fn variables_resolve_into_arguments() {
    let vars = vec![VarBinding {
        name: "inp".to_string(),
        value: obj(vec![("loanId", s("var-loan-1"))]),
    }];
    let calls = extract_mutations("mutation { recordCreditChecked(input: $inp) }", &vars);
    assert_eq!(1, calls.len());
    assert_eq!(obj(vec![("loanId", s("var-loan-1"))]), calls[0].arguments[0].value);

    let response = obj(vec![("recordCreditChecked", obj(vec![("ok", JsonValue::Bool(true))]))]);
    let enriched =
        enrich_mutations_with_response(calls, &response, &default_scalar_identifier_fields());
    assert_eq!(Some("var-loan-1".to_string()), enriched[0].loan_id);
}

#[test]
fn unbound_variable_becomes_null_argument() {
    let calls = extract_mutations("mutation { createX(name: $missing) }", &vec![]);
    assert_eq!(1, calls.len());
    assert_eq!(JsonValue::Null, calls[0].arguments[0].value);
}

#[test]
fn malformed_query_text_captures_nothing() {
    let calls = extract_mutations("{{{{ not a document", &vec![]);
    assert!(calls.is_empty());
}
