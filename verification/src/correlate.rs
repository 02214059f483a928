//! The response correlator: matches each captured call to its sub-tree of
//! the downstream result payload, by alias or field name, and applies the
//! enrichment rules.
//!
//! Enrichment, per matched call: first the input-side fallback reads an
//! identifier from an `input` argument object; then, when the call's field
//! is in the scalar-identifier set and the matched value is a string, that
//! string becomes the extracted identifier (overriding the input-side
//! one); otherwise the matched value is appended as a synthetic
//! `responseData` argument. A call with no matching result key passes
//! through unchanged.
use crate::call::{ArgV, CallV, MutationArg, MutationCall};
use crate::json::{obj_lookup, JVal, JsonValue};
use vstd::prelude::*;

verus! {

/// The value of the first argument named `input`, if any.
pub open spec fn first_input_value(args: Seq<ArgV>) -> Option<JVal>
    decreases args,
{
    if args.len() == 0 {
        Option::None
    } else if args.first().name == "input"@ {
        Option::Some(args.first().value)
    } else {
        first_input_value(args.drop_first())
    }
}

/// The identifier carried inside an `input` argument: the string under the
/// conventional identifier key of the first `input` argument's object
/// value, if all of that is present.
pub open spec fn input_loan_id(args: Seq<ArgV>) -> Option<Seq<char>> {
    match first_input_value(args) {
        Option::Some(v) => match obj_lookup(v, "loanId"@) {
            Option::Some(JVal::Str(s)) => Option::Some(s),
            _ => Option::None,
        },
        Option::None => Option::None,
    }
}

/// The result key a call is matched under: its alias when it has one,
/// else its field name.
pub open spec fn response_key(c: CallV) -> Seq<char> {
    match c.alias {
        Option::Some(a) => a,
        Option::None => c.field_name,
    }
}

pub open spec fn seq_contains_str(set: Seq<Seq<char>>, name: Seq<char>) -> bool {
    exists|i: int| 0 <= i < set.len() && set[i] == name
}

/// A matched call after enrichment: the input-side identifier fallback,
/// then either the result-side scalar identifier (which overrides) or the
/// synthetic `responseData` argument.
pub open spec fn enrich_call(c: CallV, matched: JVal, idset: Seq<Seq<char>>) -> CallV {
    let with_input_id = CallV {
        operation_name: c.operation_name,
        field_name: c.field_name,
        loan_id: match input_loan_id(c.arguments) {
            Option::Some(id) => Option::Some(id),
            Option::None => c.loan_id,
        },
        alias: c.alias,
        arguments: c.arguments,
        selected_fields: c.selected_fields,
    };
    if seq_contains_str(idset, c.field_name) && matched is Str {
        CallV {
            operation_name: with_input_id.operation_name,
            field_name: with_input_id.field_name,
            loan_id: Option::Some(matched->Str_0),
            alias: with_input_id.alias,
            arguments: with_input_id.arguments,
            selected_fields: with_input_id.selected_fields,
        }
    } else {
        CallV {
            operation_name: with_input_id.operation_name,
            field_name: with_input_id.field_name,
            loan_id: with_input_id.loan_id,
            alias: with_input_id.alias,
            arguments: with_input_id.arguments.push(
                ArgV { name: "responseData"@, value: matched },
            ),
            selected_fields: with_input_id.selected_fields,
        }
    }
}

/// What correlation does to one call: enrichment when the result holds a
/// matching key, the call unchanged otherwise.
pub open spec fn correlate_one(c: CallV, result: JVal, idset: Seq<Seq<char>>) -> CallV {
    match obj_lookup(result, response_key(c)) {
        Option::Some(v) => enrich_call(c, v, idset),
        Option::None => c,
    }
}

/// What correlation yields for a batch: each call correlated in order.
pub open spec fn spec_correlate(calls: Seq<CallV>, result: JVal, idset: Seq<Seq<char>>) -> Seq<
    CallV,
>
    decreases calls,
{
    if calls.len() == 0 {
        Seq::empty()
    } else {
        spec_correlate(calls.drop_last(), result, idset).push(
            correlate_one(calls.last(), result, idset),
        )
    }
}

pub proof fn lemma_correlate_pointwise(calls: Seq<CallV>, result: JVal, idset: Seq<Seq<char>>)
    ensures
        spec_correlate(calls, result, idset).len() == calls.len(),
        forall|i: int|
            0 <= i < calls.len() ==> #[trigger] spec_correlate(calls, result, idset)[i]
                == correlate_one(calls[i], result, idset),
    decreases calls,
{
    if calls.len() > 0 {
        lemma_correlate_pointwise(calls.drop_last(), result, idset);
        assert(forall|i: int|
            0 <= i < calls.len() - 1 ==> #[trigger] spec_correlate(calls, result, idset)[i]
                == spec_correlate(calls.drop_last(), result, idset)[i]);
        assert(forall|i: int| 0 <= i < calls.len() - 1 ==> calls.drop_last()[i] == calls[i]);
    }
}

/// Correlation is the identity on a batch none of whose calls has a
/// matching result key: the output equals the input.
pub proof fn lemma_correlate_unmatched_is_identity(
    calls: Seq<CallV>,
    result: JVal,
    idset: Seq<Seq<char>>,
)
    requires
        forall|i: int|
            0 <= i < calls.len() ==> obj_lookup(
                result,
                response_key(#[trigger] calls[i]),
            ) is None,
    ensures
        spec_correlate(calls, result, idset) =~= calls,
{
    lemma_correlate_pointwise(calls, result, idset);
}

/// A call whose field is in the scalar-identifier set and whose matched
/// result value is a string gets exactly that string as its extracted
/// identifier.
pub proof fn lemma_scalar_identifier_from_result(
    c: CallV,
    result: JVal,
    idset: Seq<Seq<char>>,
    s: Seq<char>,
)
    requires
        obj_lookup(result, response_key(c)) == Option::Some(JVal::Str(s)),
        seq_contains_str(idset, c.field_name),
    ensures
        correlate_one(c, result, idset).loan_id == Option::<Seq<char>>::Some(s),
{
}

/// A call that carries an identifier in its `input` argument, is matched,
/// and gets no scalar identifier from the result, keeps the input-side
/// identifier.
pub proof fn lemma_identifier_from_input(
    c: CallV,
    result: JVal,
    idset: Seq<Seq<char>>,
    s: Seq<char>,
)
    requires
        input_loan_id(c.arguments) == Option::<Seq<char>>::Some(s),
        obj_lookup(result, response_key(c)) is Some,
        !(seq_contains_str(idset, c.field_name) && obj_lookup(result, response_key(c))->0 is Str),
    ensures
        correlate_one(c, result, idset).loan_id == Option::<Seq<char>>::Some(s),
{
}

/// Reads the identifier from the first `input` argument's object value,
/// mirroring `input_loan_id`.
#[verifier::loop_isolation(false)]
pub fn extract_loan_id_from_args(arguments: &Vec<MutationArg>) -> (r: Option<String>)
    ensures
        r.deep_view() == input_loan_id(arguments.deep_view()),
{
    let input_key = String::from_str("input");
    let id_key = String::from_str("loanId");
    let ghost avs = arguments.deep_view();
    proof {
        assert(avs.skip(0) =~= avs);
    }
    let mut j: usize = 0;
    while j < arguments.len()
        invariant
            j <= arguments@.len(),
            avs.len() == arguments@.len(),
            forall|k: int| 0 <= k < avs.len() ==> #[trigger] avs[k] == arguments@[k].deep_view(),
            first_input_value(avs) == first_input_value(avs.skip(j as int)),
            input_key@ == "input"@,
            id_key@ == "loanId"@,
        decreases arguments@.len() - j,
    {
        if arguments[j].name == input_key {
            proof {
                assert(avs.skip(j as int).first() == avs[j as int]);
            }
            match crate::json::lookup_field(&arguments[j].value, &id_key) {
                Option::Some(found) => match found {
                    JsonValue::Str(s) => {
                        return Option::Some(s.clone());
                    },
                    _ => {
                        return Option::None;
                    },
                },
                Option::None => {
                    return Option::None;
                },
            }
        }
        proof {
            assert(avs.skip(j as int).drop_first() =~= avs.skip(j as int + 1));
        }
        j = j + 1;
    }
    proof {
        assert(avs.skip(arguments@.len() as int).len() == 0);
    }
    Option::None
}

/// Whether `name` is one of the configured names.
#[verifier::loop_isolation(false)]
fn contains_string(set: &Vec<String>, name: &String) -> (r: bool)
    ensures
        r == seq_contains_str(set.deep_view(), name@),
{
    let mut j: usize = 0;
    while j < set.len()
        invariant
            j <= set@.len(),
            forall|k: int| 0 <= k < j ==> set.deep_view()[k] != name@,
        decreases set@.len() - j,
    {
        if set[j] == *name {
            proof {
                assert(set.deep_view()[j as int] == name@);
            }
            return true;
        }
        j = j + 1;
    }
    false
}

/// Correlates a batch of captured calls with the downstream result
/// payload, returning the new batch, mirroring `spec_correlate`. A result
/// that is not an object matches no call, so the batch passes through
/// unchanged.
#[verifier::loop_isolation(false)]
pub fn enrich_mutations_with_response(
    calls: Vec<MutationCall>,
    response_data: &JsonValue,
    scalar_id_fields: &Vec<String>,
) -> (r: Vec<MutationCall>)
    ensures
        r.deep_view() == spec_correlate(
            calls.deep_view(),
            response_data.deep_view(),
            scalar_id_fields.deep_view(),
        ),
{
    let ghost all = calls.deep_view();
    let ghost result = response_data.deep_view();
    let ghost idset = scalar_id_fields.deep_view();
    let response_data_key = String::from_str("responseData");
    let mut rest = calls;
    let mut out: Vec<MutationCall> = Vec::new();
    proof {
        assert(all.subrange(0, 0) =~= Seq::<CallV>::empty());
        assert(rest.deep_view() =~= all.skip(0));
    }
    while rest.len() > 0
        invariant
            out@.len() + rest@.len() == all.len(),
            rest.deep_view() =~= all.skip(out@.len() as int),
            out.deep_view() =~= spec_correlate(
                all.subrange(0, out@.len() as int),
                result,
                idset,
            ),
            response_data_key@ == "responseData"@,
        decreases rest@.len(),
    {
        let ghost k = out@.len() as int;
        let ghost rv0 = rest.deep_view();
        let ghost rraw0 = rest@;
        let call = rest.remove(0);
        proof {
            assert(call == rraw0[0]);
            assert(rv0[0] == rraw0[0].deep_view());
            assert(call.deep_view() == all.skip(k).first());
            assert(all.skip(k).first() == all[k]);
            assert(forall|i: int|
                0 <= i < rest@.len() ==> rest@[i] == rraw0[i + 1] && #[trigger] rest.deep_view()[i]
                    == rv0[i + 1]);
            assert(rest.deep_view() =~= all.skip(k + 1));
        }
        let ghost c0 = call.deep_view();
        let matched_opt = match &call.alias {
            Option::Some(a) => crate::json::lookup_field(response_data, a),
            Option::None => crate::json::lookup_field(response_data, &call.field_name),
        };
        proof {
            assert(response_key(c0) == match c0.alias {
                Option::Some(a) => a,
                Option::None => c0.field_name,
            });
        }
        match matched_opt {
            Option::None => {
                out.push(call);
                proof {
                    assert(correlate_one(c0, result, idset) == c0);
                }
            },
            Option::Some(matched) => {
                let mut c = call;
                match extract_loan_id_from_args(&c.arguments) {
                    Option::Some(id) => {
                        c.loan_id = Option::Some(id);
                    },
                    Option::None => (),
                }
                if contains_string(scalar_id_fields, &c.field_name) {
                    match matched {
                        JsonValue::Str(s) => {
                            c.loan_id = Option::Some(s.clone());
                        },
                        _ => {
                            c.arguments.push(
                                MutationArg {
                                    name: response_data_key.clone(),
                                    value: crate::json::clone_json(matched),
                                },
                            );
                        },
                    }
                } else {
                    c.arguments.push(
                        MutationArg {
                            name: response_data_key.clone(),
                            value: crate::json::clone_json(matched),
                        },
                    );
                }
                proof {
                    assert(c.deep_view() =~= enrich_call(c0, matched.deep_view(), idset));
                    assert(c.deep_view() == correlate_one(c0, result, idset));
                }
                out.push(c);
            },
        }
        proof {
            let pre = all.subrange(0, k);
            let nxt = all.subrange(0, k + 1);
            assert(nxt.drop_last() =~= pre);
            assert(nxt.last() == all[k]);
            assert(out.deep_view() =~= spec_correlate(nxt, result, idset));
        }
    }
    proof {
        assert(all.subrange(0, all.len() as int) =~= all);
    }
    out
}

/// The conventional scalar-identifier set: the write operations whose
/// matched result value is itself the identifier.
pub fn default_scalar_identifier_fields() -> (r: Vec<String>)
    ensures
        r.deep_view() =~= seq!["recordLoanRequested"@],
{
    let mut v: Vec<String> = Vec::new();
    v.push(String::from_str("recordLoanRequested"));
    proof {
        assert(v.deep_view() =~= seq!["recordLoanRequested"@]);
    }
    v
}

/// The response-path decision: the batch to hand the event sink, if any.
/// Nothing is persisted when no calls were captured or the response
/// carries no data; otherwise the batch is correlated with the data and
/// handed over whole.
pub fn mutations_to_persist(
    calls: Vec<MutationCall>,
    response_data: Option<&JsonValue>,
    scalar_id_fields: &Vec<String>,
) -> (r: Option<Vec<MutationCall>>)
    ensures
        match r {
            Option::Some(batch) => calls.deep_view().len() > 0 && response_data is Some
                && batch.deep_view() == spec_correlate(
                calls.deep_view(),
                response_data->0.deep_view(),
                scalar_id_fields.deep_view(),
            ),
            Option::None => calls.deep_view().len() == 0 || response_data is None,
        },
{
    if calls.len() == 0 {
        return Option::None;
    }
    match response_data {
        Option::Some(data) => Option::Some(
            enrich_mutations_with_response(calls, data, scalar_id_fields),
        ),
        Option::None => Option::None,
    }
}

} // verus!
