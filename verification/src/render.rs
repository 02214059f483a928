//! Rendering: a JSON-like value as JSON text, and a call record as the
//! event payload that is appended to the event store.
//!
//! The payload carries the call's operation name, field name, extracted
//! identifier when present, alias, arguments keyed by name in source
//! order, and selected field names.
use crate::call::{ArgV, CallV, MutationCall};
use crate::json::{jval_entries, jval_of, jval_seq, JVal, JsonValue};
use crate::numbers::int_text;
use crate::strings::quoted;
use vstd::prelude::*;

verus! {

/// The JSON text of a value. Object entries are written in their kept
/// order; a duplicated key is written as often as it occurs.
pub open spec fn render_json(v: JVal) -> Seq<char>
    decreases v, 0int,
{
    match v {
        JVal::Null => "null"@,
        JVal::Bool(b) => if b {
            "true"@
        } else {
            "false"@
        },
        JVal::Int(i) => int_text(i),
        JVal::Float(t) => t,
        JVal::Str(s) => quoted(s),
        JVal::Arr(items) => seq!['['] + render_items(items) + seq![']'],
        JVal::Obj(es) => seq!['{'] + render_obj_entries(es) + seq!['}'],
    }
}

pub open spec fn render_items(items: Seq<JVal>) -> Seq<char>
    decreases items, 1int,
{
    if items.len() == 0 {
        Seq::empty()
    } else {
        render_items(items.drop_last()) + (if items.len() > 1 {
            seq![',']
        } else {
            Seq::empty()
        }) + render_json(items.last())
    }
}

pub open spec fn render_obj_entries(es: Seq<(Seq<char>, JVal)>) -> Seq<char>
    decreases es, 1int,
{
    if es.len() == 0 {
        Seq::empty()
    } else {
        render_obj_entries(es.drop_last()) + (if es.len() > 1 {
            seq![',']
        } else {
            Seq::empty()
        }) + quoted(es.last().0) + seq![':'] + render_json(es.last().1)
    }
}

/// Appends the JSON text of `v` to `out`, mirroring `render_json`.
#[verifier::loop_isolation(false)]
pub fn render_json_into(v: &JsonValue, out: &mut Vec<char>)
    ensures
        final(out)@ == old(out)@ + render_json(jval_of(*v)),
    decreases v,
{
    match v {
        JsonValue::Null => crate::chars::append_str(out, "null"),
        JsonValue::Bool(b) => {
            if *b {
                crate::chars::append_str(out, "true");
            } else {
                crate::chars::append_str(out, "false");
            }
        },
        JsonValue::Int(i) => crate::numbers::render_i64(*i, out),
        JsonValue::Float(t) => crate::chars::append_str(out, t.as_str()),
        JsonValue::Str(s) => crate::strings::append_quoted(out, s.as_str()),
        JsonValue::Array(items) => {
            let ghost iv = jval_seq(items@);
            proof {
                crate::json::lemma_jval_seq(items@);
                assert(iv.subrange(0, 0) =~= Seq::<JVal>::empty());
            }
            out.push('[');
            let mut j: usize = 0;
            while j < items.len()
                invariant
                    j <= items.len(),
                    iv.len() == items@.len(),
                    forall|k: int| 0 <= k < iv.len() ==> #[trigger] iv[k] == jval_of(items@[k]),
                    out@ =~= old(out)@ + seq!['['] + render_items(iv.subrange(0, j as int)),
                decreases items.len() - j,
            {
                if j > 0 {
                    out.push(',');
                }
                proof {
                    assert(decreases_to!(*v => v->Array_0));
                    assert(decreases_to!(items@ => items@[j as int]));
                    assert(decreases_to!(*v => items@[j as int]));
                }
                render_json_into(&items[j], out);
                proof {
                    let pre = iv.subrange(0, j as int);
                    let nxt = iv.subrange(0, j as int + 1);
                    assert(nxt.drop_last() =~= pre);
                    assert(nxt.last() == iv[j as int]);
                    assert(out@ =~= old(out)@ + seq!['['] + render_items(nxt));
                }
                j = j + 1;
            }
            proof {
                assert(iv.subrange(0, items@.len() as int) =~= iv);
            }
            out.push(']');
            proof {
                assert(out@ =~= old(out)@ + render_json(jval_of(*v)));
            }
        },
        JsonValue::Object(fields) => {
            let ghost ev = jval_entries(fields@);
            proof {
                crate::json::lemma_jval_entries(fields@);
                assert(ev.subrange(0, 0) =~= Seq::<(Seq<char>, JVal)>::empty());
            }
            out.push('{');
            let mut j: usize = 0;
            while j < fields.len()
                invariant
                    j <= fields.len(),
                    ev.len() == fields@.len(),
                    forall|k: int|
                        0 <= k < ev.len() ==> #[trigger] ev[k] == (
                            fields@[k].0@,
                            jval_of(fields@[k].1),
                        ),
                    out@ =~= old(out)@ + seq!['{'] + render_obj_entries(ev.subrange(0, j as int)),
                decreases fields.len() - j,
            {
                if j > 0 {
                    out.push(',');
                }
                let entry = &fields[j];
                crate::strings::append_quoted(out, entry.0.as_str());
                out.push(':');
                proof {
                    assert(decreases_to!(*v => v->Object_0));
                    assert(decreases_to!(fields@ => fields@[j as int]));
                    assert(decreases_to!(fields@[j as int] => fields@[j as int].1));
                    assert(decreases_to!(*v => fields@[j as int].1));
                }
                render_json_into(&entry.1, out);
                proof {
                    let pre = ev.subrange(0, j as int);
                    let nxt = ev.subrange(0, j as int + 1);
                    assert(nxt.drop_last() =~= pre);
                    assert(nxt.last() == ev[j as int]);
                    assert(out@ =~= old(out)@ + seq!['{'] + render_obj_entries(nxt));
                }
                j = j + 1;
            }
            proof {
                assert(ev.subrange(0, fields@.len() as int) =~= ev);
            }
            out.push('}');
            proof {
                assert(out@ =~= old(out)@ + render_json(jval_of(*v)));
            }
        },
    }
}

/// The JSON text of `v`.
pub fn to_json_text(v: &JsonValue) -> (r: String)
    ensures
        r@ == render_json(v.deep_view()),
{
    let mut out: Vec<char> = Vec::new();
    render_json_into(v, &mut out);
    crate::chars::string_from_chars(out)
}

/// A string field's JSON text, or `null` when absent.
pub open spec fn render_opt_text(o: Option<Seq<char>>) -> Seq<char> {
    match o {
        Option::Some(s) => quoted(s),
        Option::None => "null"@,
    }
}

/// The arguments as one JSON object body: each argument's name and value,
/// in source order. A duplicated name is written as often as it occurs,
/// never merged away.
pub open spec fn render_arg_entries(args: Seq<ArgV>) -> Seq<char>
    decreases args,
{
    if args.len() == 0 {
        Seq::empty()
    } else {
        render_arg_entries(args.drop_last()) + (if args.len() > 1 {
            seq![',']
        } else {
            Seq::empty()
        }) + quoted(args.last().name) + seq![':'] + render_json(args.last().value)
    }
}

/// The selected field names as one JSON array body.
pub open spec fn render_name_items(names: Seq<Seq<char>>) -> Seq<char>
    decreases names,
{
    if names.len() == 0 {
        Seq::empty()
    } else {
        render_name_items(names.drop_last()) + (if names.len() > 1 {
            seq![',']
        } else {
            Seq::empty()
        }) + quoted(names.last())
    }
}

/// The event payload of a call record: its operation name, field name,
/// extracted identifier when present, alias, arguments keyed by name, and
/// selected field names, as one JSON object.
pub open spec fn spec_payload(c: CallV) -> Seq<char> {
    "{\"operation_name\":"@ + render_opt_text(c.operation_name) + ",\"field_name\":"@ + quoted(
        c.field_name,
    ) + (match c.loan_id {
        Option::Some(s) => ",\"loan_id\":"@ + quoted(s),
        Option::None => Seq::empty(),
    }) + ",\"alias\":"@ + render_opt_text(c.alias) + ",\"arguments\":{"@ + render_arg_entries(
        c.arguments,
    ) + "},\"selected_fields\":["@ + render_name_items(c.selected_fields) + "]}"@
}

/// Appends a string field's JSON text, or `null` when absent.
fn append_opt_text(out: &mut Vec<char>, o: &Option<String>)
    ensures
        final(out)@ == old(out)@ + render_opt_text(o.deep_view()),
{
    match o {
        Option::Some(s) => crate::strings::append_quoted(out, s.as_str()),
        Option::None => crate::chars::append_str(out, "null"),
    }
}

/// Serializes a call record as its event payload, mirroring
/// `spec_payload`.
#[verifier::loop_isolation(false)]
pub fn mutation_call_payload(call: &MutationCall) -> (r: String)
    ensures
        r@ == spec_payload(call.deep_view()),
{
    let mut out: Vec<char> = Vec::new();
    crate::chars::append_str(&mut out, "{\"operation_name\":");
    append_opt_text(&mut out, &call.operation_name);
    crate::chars::append_str(&mut out, ",\"field_name\":");
    crate::strings::append_quoted(&mut out, call.field_name.as_str());
    match &call.loan_id {
        Option::Some(s) => {
            crate::chars::append_str(&mut out, ",\"loan_id\":");
            crate::strings::append_quoted(&mut out, s.as_str());
        },
        Option::None => (),
    }
    crate::chars::append_str(&mut out, ",\"alias\":");
    append_opt_text(&mut out, &call.alias);
    crate::chars::append_str(&mut out, ",\"arguments\":{");
    let ghost argv = call.arguments.deep_view();
    let ghost base = out@;
    proof {
        assert(argv.subrange(0, 0) =~= Seq::<ArgV>::empty());
        assert(out@ =~= base + render_arg_entries(argv.subrange(0, 0)));
    }
    let mut j: usize = 0;
    while j < call.arguments.len()
        invariant
            j <= call.arguments@.len(),
            argv.len() == call.arguments@.len(),
            forall|k: int|
                0 <= k < argv.len() ==> #[trigger] argv[k] == call.arguments@[k].deep_view(),
            out@ =~= base + render_arg_entries(argv.subrange(0, j as int)),
        decreases call.arguments@.len() - j,
    {
        if j > 0 {
            out.push(',');
        }
        let a = &call.arguments[j];
        crate::strings::append_quoted(&mut out, a.name.as_str());
        out.push(':');
        render_json_into(&a.value, &mut out);
        proof {
            let pre = argv.subrange(0, j as int);
            let nxt = argv.subrange(0, j as int + 1);
            assert(nxt.drop_last() =~= pre);
            assert(nxt.last() == argv[j as int]);
            assert(out@ =~= base + render_arg_entries(nxt));
        }
        j = j + 1;
    }
    proof {
        assert(argv.subrange(0, call.arguments@.len() as int) =~= argv);
    }
    crate::chars::append_str(&mut out, "},\"selected_fields\":[");
    let ghost namev = call.selected_fields.deep_view();
    let ghost base2 = out@;
    proof {
        assert(namev.subrange(0, 0) =~= Seq::<Seq<char>>::empty());
        assert(out@ =~= base2 + render_name_items(namev.subrange(0, 0)));
    }
    let mut k: usize = 0;
    while k < call.selected_fields.len()
        invariant
            k <= call.selected_fields@.len(),
            namev.len() == call.selected_fields@.len(),
            forall|m: int|
                0 <= m < namev.len() ==> #[trigger] namev[m] == call.selected_fields@[m]@,
            out@ =~= base2 + render_name_items(namev.subrange(0, k as int)),
        decreases call.selected_fields@.len() - k,
    {
        if k > 0 {
            out.push(',');
        }
        crate::strings::append_quoted(&mut out, call.selected_fields[k].as_str());
        proof {
            let pre = namev.subrange(0, k as int);
            let nxt = namev.subrange(0, k as int + 1);
            assert(nxt.drop_last() =~= pre);
            assert(nxt.last() == namev[k as int]);
            assert(out@ =~= base2 + render_name_items(nxt));
        }
        k = k + 1;
    }
    proof {
        assert(namev.subrange(0, call.selected_fields@.len() as int) =~= namev);
    }
    crate::chars::append_str(&mut out, "]}");
    proof {
        assert(out@ =~= spec_payload(call.deep_view()));
    }
    crate::chars::string_from_chars(out)
}

} // verus!
