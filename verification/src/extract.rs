//! The mutation extractor: walks the operations of a parsed document and
//! produces one call record per named field selected directly under a
//! write-operation root, resolving every argument value on the way.
//!
//! The document model here holds exactly what extraction reads: per
//! operation its kind and name, per field its name, alias, arguments and
//! immediate sub-fields. The parser adapter fills this model from the
//! operation text.
use crate::call::{ArgV, CallV, MutationArg, MutationCall};
use crate::json::JsonValue;
use crate::resolve::{nodev_of, resolve_or_null, BindV, NodeV, ValueNode, VarBinding};
use vstd::prelude::*;

verus! {

/// One argument as written: its name token, if present, and its value.
#[derive(Debug, PartialEq)]
pub struct RawArgument {
    pub name: Option<String>,
    pub value: ValueNode,
}

/// The mathematical model of a `RawArgument`.
#[verifier::ext_equal]
pub struct RArgV {
    pub name: Option<Seq<char>>,
    pub value: NodeV,
}

impl vstd::view::DeepView for RawArgument {
    type V = RArgV;

    open spec fn deep_view(&self) -> RArgV {
        RArgV { name: self.name.deep_view(), value: nodev_of(self.value) }
    }
}

/// One immediate sub-field of a field's selection set: its alias, if any,
/// and its name.
#[derive(Debug, PartialEq)]
pub struct SubField {
    pub alias: Option<String>,
    pub name: Option<String>,
}

/// The mathematical model of a `SubField`.
#[verifier::ext_equal]
pub struct SubV {
    pub alias: Option<Seq<char>>,
    pub name: Option<Seq<char>>,
}

impl vstd::view::DeepView for SubField {
    type V = SubV;

    open spec fn deep_view(&self) -> SubV {
        SubV { alias: self.alias.deep_view(), name: self.name.deep_view() }
    }
}

/// One field selected directly under an operation root.
#[derive(Debug, PartialEq)]
pub struct RawField {
    pub name: Option<String>,
    pub alias: Option<String>,
    pub arguments: Vec<RawArgument>,
    pub subfields: Vec<SubField>,
}

/// The mathematical model of a `RawField`.
#[verifier::ext_equal]
pub struct RFieldV {
    pub name: Option<Seq<char>>,
    pub alias: Option<Seq<char>>,
    pub arguments: Seq<RArgV>,
    pub subfields: Seq<SubV>,
}

impl vstd::view::DeepView for RawField {
    type V = RFieldV;

    open spec fn deep_view(&self) -> RFieldV {
        RFieldV {
            name: self.name.deep_view(),
            alias: self.alias.deep_view(),
            arguments: self.arguments.deep_view(),
            subfields: self.subfields.deep_view(),
        }
    }
}

/// One operation definition: whether its root is a write operation, its
/// name, and its top-level fields.
#[derive(Debug, PartialEq)]
pub struct RawOperation {
    pub is_mutation: bool,
    pub name: Option<String>,
    pub fields: Vec<RawField>,
}

/// The mathematical model of a `RawOperation`.
#[verifier::ext_equal]
pub struct ROpV {
    pub is_mutation: bool,
    pub name: Option<Seq<char>>,
    pub fields: Seq<RFieldV>,
}

impl vstd::view::DeepView for RawOperation {
    type V = ROpV;

    open spec fn deep_view(&self) -> ROpV {
        ROpV {
            is_mutation: self.is_mutation,
            name: self.name.deep_view(),
            fields: self.fields.deep_view(),
        }
    }
}

pub open spec fn opt_or_empty(n: Option<Seq<char>>) -> Seq<char> {
    match n {
        Option::Some(s) => s,
        Option::None => Seq::empty(),
    }
}

/// What collecting a field's arguments yields: one pair per argument in
/// source order, a missing name becoming empty and an unresolvable value
/// becoming null.
pub open spec fn spec_collect_args(args: Seq<RArgV>, vars: Seq<BindV>) -> Seq<ArgV>
    decreases args,
{
    if args.len() == 0 {
        Seq::empty()
    } else {
        spec_collect_args(args.drop_last(), vars).push(
            ArgV {
                name: opt_or_empty(args.last().name),
                value: resolve_or_null(args.last().value, vars),
            },
        )
    }
}

/// The response key a sub-field will answer under: its alias when it has
/// one, else its name.
pub open spec fn response_key_of(sub: SubV) -> Option<Seq<char>> {
    if sub.alias is Some {
        sub.alias
    } else {
        sub.name
    }
}

/// What collecting the immediate sub-field names yields: the
/// alias-preferred name of each sub-field, in order, skipping sub-fields
/// with neither.
pub open spec fn spec_selected_fields(subs: Seq<SubV>) -> Seq<Seq<char>>
    decreases subs,
{
    if subs.len() == 0 {
        Seq::empty()
    } else {
        spec_selected_fields(subs.drop_last()) + (match response_key_of(subs.last()) {
            Option::Some(k) => seq![k],
            Option::None => Seq::empty(),
        })
    }
}

/// A field that extraction captures: it has a name and the name is not
/// empty.
pub open spec fn field_named(f: RFieldV) -> bool {
    &&& f.name is Some
    &&& f.name->0.len() > 0
}

/// The call record captured for one named field under an operation.
pub open spec fn call_of_field(op_name: Option<Seq<char>>, f: RFieldV, vars: Seq<BindV>) -> CallV {
    CallV {
        operation_name: op_name,
        field_name: f.name->0,
        loan_id: Option::None,
        alias: f.alias,
        arguments: spec_collect_args(f.arguments, vars),
        selected_fields: spec_selected_fields(f.subfields),
    }
}

/// The calls captured from a row of fields: one per named field, in
/// source order.
pub open spec fn calls_of_fields(
    op_name: Option<Seq<char>>,
    fields: Seq<RFieldV>,
    vars: Seq<BindV>,
) -> Seq<CallV>
    decreases fields,
{
    if fields.len() == 0 {
        Seq::empty()
    } else {
        calls_of_fields(op_name, fields.drop_last(), vars) + (if field_named(fields.last()) {
            seq![call_of_field(op_name, fields.last(), vars)]
        } else {
            Seq::empty()
        })
    }
}

/// The calls captured from one operation: none unless its root is a write
/// operation.
pub open spec fn calls_of_op(op: ROpV, vars: Seq<BindV>) -> Seq<CallV> {
    if op.is_mutation {
        calls_of_fields(op.name, op.fields, vars)
    } else {
        Seq::empty()
    }
}

/// What extraction yields for a whole document: the operations'
/// captures, concatenated in document order.
pub open spec fn spec_extract(ops: Seq<ROpV>, vars: Seq<BindV>) -> Seq<CallV>
    decreases ops,
{
    if ops.len() == 0 {
        Seq::empty()
    } else {
        spec_extract(ops.drop_last(), vars) + calls_of_op(ops.last(), vars)
    }
}

/// A document whose operations hold no write-operation root yields no
/// calls at all.
pub proof fn lemma_extract_no_mutations(ops: Seq<ROpV>, vars: Seq<BindV>)
    requires
        forall|i: int| 0 <= i < ops.len() ==> !(#[trigger] ops[i]).is_mutation,
    ensures
        spec_extract(ops, vars) =~= Seq::<CallV>::empty(),
    decreases ops,
{
    if ops.len() > 0 {
        assert(forall|i: int| 0 <= i < ops.len() - 1 ==> ops.drop_last()[i] == ops[i]);
        lemma_extract_no_mutations(ops.drop_last(), vars);
        assert(!ops.last().is_mutation);
    }
}

pub proof fn lemma_calls_of_fields_all_named(
    op_name: Option<Seq<char>>,
    fields: Seq<RFieldV>,
    vars: Seq<BindV>,
)
    requires
        forall|i: int| 0 <= i < fields.len() ==> field_named(#[trigger] fields[i]),
    ensures
        calls_of_fields(op_name, fields, vars).len() == fields.len(),
        forall|i: int|
            0 <= i < fields.len() ==> #[trigger] calls_of_fields(op_name, fields, vars)[i]
                == call_of_field(op_name, fields[i], vars),
    decreases fields,
{
    if fields.len() > 0 {
        assert(forall|i: int| 0 <= i < fields.len() - 1 ==> fields.drop_last()[i] == fields[i]);
        lemma_calls_of_fields_all_named(op_name, fields.drop_last(), vars);
        assert(field_named(fields.last()));
        assert(forall|i: int|
            0 <= i < fields.len() - 1 ==> #[trigger] calls_of_fields(op_name, fields, vars)[i]
                == calls_of_fields(op_name, fields.drop_last(), vars)[i]);
    }
}

/// A single write operation with N named top-level fields yields exactly
/// N calls, in source order: the i-th call carries the i-th field's name,
/// alias, resolved arguments and selected sub-field names, under the
/// operation's name, with no extracted identifier.
pub proof fn lemma_extract_counts_fields(op: ROpV, vars: Seq<BindV>)
    requires
        op.is_mutation,
        forall|i: int| 0 <= i < op.fields.len() ==> field_named(#[trigger] op.fields[i]),
    ensures
        spec_extract(seq![op], vars).len() == op.fields.len(),
        forall|i: int|
            0 <= i < op.fields.len() ==> #[trigger] spec_extract(seq![op], vars)[i]
                == call_of_field(op.name, op.fields[i], vars),
{
    lemma_calls_of_fields_all_named(op.name, op.fields, vars);
    reveal_with_fuel(spec_extract, 2);
    assert(seq![op].drop_last() =~= Seq::<ROpV>::empty());
    assert(seq![op].last() == op);
    assert(spec_extract(seq![op], vars) == spec_extract(seq![op].drop_last(), vars) + calls_of_op(
        op,
        vars,
    ));
    assert(spec_extract(seq![op].drop_last(), vars) =~= Seq::<CallV>::empty());
    assert(spec_extract(seq![op], vars) =~= calls_of_fields(op.name, op.fields, vars));
}

/// Every call that extraction yields is a capture: a nonempty field name
/// and no extracted identifier.
pub proof fn lemma_extract_captured(ops: Seq<ROpV>, vars: Seq<BindV>)
    ensures
        forall|i: int|
            0 <= i < spec_extract(ops, vars).len() ==> crate::call::captured_call(
                #[trigger] spec_extract(ops, vars)[i],
            ),
    decreases ops,
{
    if ops.len() > 0 {
        lemma_extract_captured(ops.drop_last(), vars);
        lemma_calls_captured(ops.last().name, ops.last().fields, vars);
        let pre = spec_extract(ops.drop_last(), vars);
        let add = calls_of_op(ops.last(), vars);
        assert(spec_extract(ops, vars) == pre + add);
        assert forall|i: int|
            0 <= i < spec_extract(ops, vars).len() implies crate::call::captured_call(
            #[trigger] spec_extract(ops, vars)[i],
        ) by {
            if i < pre.len() {
                assert(spec_extract(ops, vars)[i] == pre[i]);
            } else {
                assert(spec_extract(ops, vars)[i] == add[i - pre.len()]);
            }
        }
    }
}

pub proof fn lemma_calls_captured(
    op_name: Option<Seq<char>>,
    fields: Seq<RFieldV>,
    vars: Seq<BindV>,
)
    ensures
        forall|i: int|
            0 <= i < calls_of_fields(op_name, fields, vars).len() ==> crate::call::captured_call(
                #[trigger] calls_of_fields(op_name, fields, vars)[i],
            ),
    decreases fields,
{
    if fields.len() > 0 {
        lemma_calls_captured(op_name, fields.drop_last(), vars);
        let pre = calls_of_fields(op_name, fields.drop_last(), vars);
        let add = if field_named(fields.last()) {
            seq![call_of_field(op_name, fields.last(), vars)]
        } else {
            Seq::<CallV>::empty()
        };
        assert(calls_of_fields(op_name, fields, vars) == pre + add);
        assert forall|i: int|
            0 <= i < calls_of_fields(op_name, fields, vars).len() implies crate::call::captured_call(
            #[trigger] calls_of_fields(op_name, fields, vars)[i],
        ) by {
            if i < pre.len() {
                assert(calls_of_fields(op_name, fields, vars)[i] == pre[i]);
            } else {
                assert(calls_of_fields(op_name, fields, vars)[i] == add[i - pre.len()]);
            }
        }
    }
}

/// Clones an optional name.
pub fn clone_opt_string(o: &Option<String>) -> (r: Option<String>)
    ensures
        r.deep_view() == o.deep_view(),
{
    match o {
        Option::Some(s) => Option::Some(s.clone()),
        Option::None => Option::None,
    }
}

/// Collects a field's arguments: one pair per argument in source order,
/// mirroring `spec_collect_args`.
#[verifier::loop_isolation(false)]
pub fn collect_args(args: &Vec<RawArgument>, vars: &Vec<VarBinding>) -> (r: Vec<MutationArg>)
    ensures
        r.deep_view() == spec_collect_args(args.deep_view(), vars.deep_view()),
{
    let mut out: Vec<MutationArg> = Vec::new();
    let mut j: usize = 0;
    while j < args.len()
        invariant
            j <= args.len(),
            out.deep_view() =~= spec_collect_args(
                args.deep_view().subrange(0, j as int),
                vars.deep_view(),
            ),
        decreases args.len() - j,
    {
        let a = &args[j];
        let name = match &a.name {
            Option::Some(s) => s.clone(),
            Option::None => String::new(),
        };
        let value = match crate::resolve::ast_value_to_json(&a.value, vars) {
            Option::Some(v) => v,
            Option::None => JsonValue::Null,
        };
        out.push(MutationArg { name, value });
        proof {
            let pre = args.deep_view().subrange(0, j as int);
            let nxt = args.deep_view().subrange(0, j as int + 1);
            assert(nxt.drop_last() =~= pre);
            assert(nxt.last() == args.deep_view()[j as int]);
            assert(args.deep_view()[j as int] == args@[j as int].deep_view());
            assert(out.deep_view() =~= spec_collect_args(nxt, vars.deep_view()));
        }
        j = j + 1;
    }
    proof {
        assert(args.deep_view().subrange(0, args@.len() as int) =~= args.deep_view());
    }
    out
}

/// Collects the alias-preferred names of a field's immediate sub-fields,
/// mirroring `spec_selected_fields`.
#[verifier::loop_isolation(false)]
pub fn collect_top_level_response_field_names(subfields: &Vec<SubField>) -> (r: Vec<String>)
    ensures
        r.deep_view() == spec_selected_fields(subfields.deep_view()),
{
    let mut out: Vec<String> = Vec::new();
    let mut j: usize = 0;
    while j < subfields.len()
        invariant
            j <= subfields.len(),
            out.deep_view() =~= spec_selected_fields(subfields.deep_view().subrange(0, j as int)),
        decreases subfields.len() - j,
    {
        let sub = &subfields[j];
        match &sub.alias {
            Option::Some(a) => out.push(a.clone()),
            Option::None => match &sub.name {
                Option::Some(nm) => out.push(nm.clone()),
                Option::None => (),
            },
        }
        proof {
            let pre = subfields.deep_view().subrange(0, j as int);
            let nxt = subfields.deep_view().subrange(0, j as int + 1);
            assert(nxt.drop_last() =~= pre);
            assert(nxt.last() == subfields.deep_view()[j as int]);
            assert(subfields.deep_view()[j as int] == subfields@[j as int].deep_view());
            assert(out.deep_view() =~= spec_selected_fields(nxt));
        }
        j = j + 1;
    }
    proof {
        assert(subfields.deep_view().subrange(0, subfields@.len() as int)
            =~= subfields.deep_view());
    }
    out
}

/// The calls captured from one operation, mirroring `calls_of_op`.
#[verifier::loop_isolation(false)]
fn calls_of_op_exec(op: &RawOperation, vars: &Vec<VarBinding>) -> (r: Vec<MutationCall>)
    ensures
        r.deep_view() == calls_of_op(op.deep_view(), vars.deep_view()),
{
    let mut out: Vec<MutationCall> = Vec::new();
    if !op.is_mutation {
        proof {
            assert(out.deep_view() =~= calls_of_op(op.deep_view(), vars.deep_view()));
        }
        return out;
    }
    let mut j: usize = 0;
    while j < op.fields.len()
        invariant
            j <= op.fields.len(),
            out.deep_view() =~= calls_of_fields(
                op.name.deep_view(),
                op.fields.deep_view().subrange(0, j as int),
                vars.deep_view(),
            ),
        decreases op.fields.len() - j,
    {
        let f = &op.fields[j];
        match &f.name {
            Option::Some(nm) => if !nm.as_str().is_empty() {
                let call = MutationCall {
                    operation_name: clone_opt_string(&op.name),
                    field_name: nm.clone(),
                    loan_id: Option::None,
                    alias: clone_opt_string(&f.alias),
                    arguments: collect_args(&f.arguments, vars),
                    selected_fields: collect_top_level_response_field_names(&f.subfields),
                };
                proof {
                    assert(call.deep_view() =~= call_of_field(
                        op.name.deep_view(),
                        f.deep_view(),
                        vars.deep_view(),
                    ));
                }
                out.push(call);
            },
            Option::None => (),
        }
        proof {
            let pre = op.fields.deep_view().subrange(0, j as int);
            let nxt = op.fields.deep_view().subrange(0, j as int + 1);
            assert(nxt.drop_last() =~= pre);
            assert(nxt.last() == op.fields.deep_view()[j as int]);
            assert(op.fields.deep_view()[j as int] == op.fields@[j as int].deep_view());
            assert(out.deep_view() =~= calls_of_fields(op.name.deep_view(), nxt, vars.deep_view()));
        }
        j = j + 1;
    }
    proof {
        assert(op.fields.deep_view().subrange(0, op.fields@.len() as int)
            =~= op.fields.deep_view());
    }
    out
}

/// Walks a document's operations and captures one call record per named
/// field selected directly under a write-operation root, mirroring
/// `spec_extract`.
#[verifier::loop_isolation(false)]
pub fn extract_calls(ops: &Vec<RawOperation>, vars: &Vec<VarBinding>) -> (r: Vec<MutationCall>)
    ensures
        r.deep_view() == spec_extract(ops.deep_view(), vars.deep_view()),
{
    let mut out: Vec<MutationCall> = Vec::new();
    let mut j: usize = 0;
    while j < ops.len()
        invariant
            j <= ops.len(),
            out.deep_view() =~= spec_extract(
                ops.deep_view().subrange(0, j as int),
                vars.deep_view(),
            ),
        decreases ops.len() - j,
    {
        let mut add = calls_of_op_exec(&ops[j], vars);
        let ghost out0 = out.deep_view();
        let ghost addv = add.deep_view();
        out.append(&mut add);
        proof {
            assert(out.deep_view() =~= out0 + addv);
            let pre = ops.deep_view().subrange(0, j as int);
            let nxt = ops.deep_view().subrange(0, j as int + 1);
            assert(nxt.drop_last() =~= pre);
            assert(nxt.last() == ops.deep_view()[j as int]);
            assert(ops.deep_view()[j as int] == ops@[j as int].deep_view());
            assert(out.deep_view() =~= spec_extract(nxt, vars.deep_view()));
        }
        j = j + 1;
    }
    proof {
        assert(ops.deep_view().subrange(0, ops@.len() as int) =~= ops.deep_view());
    }
    out
}

} // verus!
