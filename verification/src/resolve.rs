//! The value resolver: turns one syntactic value node — literal, list,
//! object or variable reference — into a concrete JSON-like value, given
//! the request's resolved-variables bindings.
//!
//! Resolution is fail-open: a malformed literal or an unbound variable
//! resolves to absent at the top level, and to an in-place null inside a
//! list or object, so that positions and keys are never dropped.
use crate::json::{jval_of, JVal, JsonValue};
use vstd::prelude::*;

verus! {

/// One syntactic value as written in the operation text. Scalar literals
/// keep their source text; `Invalid` stands for a node the parser could
/// not complete (a variable without a name, an object field without a name
/// or value, or nesting beyond any reasonable depth).
#[derive(Debug, PartialEq)]
pub enum ValueNode {
    StrLit(String),
    IntLit(String),
    FloatLit(String),
    BoolLit(String),
    NullLit,
    EnumTok(String),
    VarRef(String),
    List(Vec<ValueNode>),
    ObjectLit(Vec<(String, ValueNode)>),
    Invalid,
}

/// The mathematical model of a `ValueNode`.
#[verifier::ext_equal]
pub enum NodeV {
    StrLit(Seq<char>),
    IntLit(Seq<char>),
    FloatLit(Seq<char>),
    BoolLit(Seq<char>),
    NullLit,
    EnumTok(Seq<char>),
    VarRef(Seq<char>),
    List(Seq<NodeV>),
    ObjectLit(Seq<(Seq<char>, NodeV)>),
    Invalid,
}

pub open spec fn nodev_of(n: ValueNode) -> NodeV
    decreases n,
{
    match n {
        ValueNode::StrLit(t) => NodeV::StrLit(t@),
        ValueNode::IntLit(t) => NodeV::IntLit(t@),
        ValueNode::FloatLit(t) => NodeV::FloatLit(t@),
        ValueNode::BoolLit(t) => NodeV::BoolLit(t@),
        ValueNode::NullLit => NodeV::NullLit,
        ValueNode::EnumTok(t) => NodeV::EnumTok(t@),
        ValueNode::VarRef(x) => NodeV::VarRef(x@),
        ValueNode::List(items) => NodeV::List(nodev_seq(items@)),
        ValueNode::ObjectLit(fields) => NodeV::ObjectLit(nodev_entries(fields@)),
        ValueNode::Invalid => NodeV::Invalid,
    }
}

pub open spec fn nodev_seq(s: Seq<ValueNode>) -> Seq<NodeV>
    decreases s,
{
    if s.len() == 0 {
        Seq::empty()
    } else {
        nodev_seq(s.drop_last()).push(nodev_of(s.last()))
    }
}

pub open spec fn nodev_entries(s: Seq<(String, ValueNode)>) -> Seq<(Seq<char>, NodeV)>
    decreases s,
{
    if s.len() == 0 {
        Seq::empty()
    } else {
        nodev_entries(s.drop_last()).push((s.last().0@, nodev_of(s.last().1)))
    }
}

pub proof fn lemma_nodev_seq(s: Seq<ValueNode>)
    ensures
        nodev_seq(s).len() == s.len(),
        forall|i: int| 0 <= i < s.len() ==> #[trigger] nodev_seq(s)[i] == nodev_of(s[i]),
    decreases s,
{
    if s.len() > 0 {
        lemma_nodev_seq(s.drop_last());
        assert(forall|i: int|
            0 <= i < s.len() - 1 ==> #[trigger] nodev_seq(s)[i] == nodev_seq(s.drop_last())[i]);
        assert(forall|i: int| 0 <= i < s.len() - 1 ==> s.drop_last()[i] == s[i]);
    }
}

pub proof fn lemma_nodev_entries(s: Seq<(String, ValueNode)>)
    ensures
        nodev_entries(s).len() == s.len(),
        forall|i: int|
            0 <= i < s.len() ==> #[trigger] nodev_entries(s)[i] == (s[i].0@, nodev_of(s[i].1)),
    decreases s,
{
    if s.len() > 0 {
        lemma_nodev_entries(s.drop_last());
        assert(forall|i: int|
            0 <= i < s.len() - 1 ==> #[trigger] nodev_entries(s)[i] == nodev_entries(
                s.drop_last(),
            )[i]);
        assert(forall|i: int| 0 <= i < s.len() - 1 ==> s.drop_last()[i] == s[i]);
    }
}

impl vstd::view::DeepView for ValueNode {
    type V = NodeV;

    open spec fn deep_view(&self) -> NodeV {
        nodev_of(*self)
    }
}

/// One resolved variable: a name bound to a concrete value.
#[derive(Debug, PartialEq)]
pub struct VarBinding {
    pub name: String,
    pub value: JsonValue,
}

/// The mathematical model of a `VarBinding`.
#[verifier::ext_equal]
pub struct BindV {
    pub name: Seq<char>,
    pub value: JVal,
}

impl vstd::view::DeepView for VarBinding {
    type V = BindV;

    open spec fn deep_view(&self) -> BindV {
        BindV { name: self.name@, value: jval_of(self.value) }
    }
}

/// The value bound to `name`, taking the first binding with that name.
pub open spec fn lookup_var(vars: Seq<BindV>, name: Seq<char>) -> Option<JVal>
    decreases vars,
{
    if vars.len() == 0 {
        Option::None
    } else if vars.first().name == name {
        Option::Some(vars.first().value)
    } else {
        lookup_var(vars.drop_first(), name)
    }
}

/// What resolving a node against the bindings yields. A scalar literal
/// whose text fails parsing, a reference to an unbound variable and an
/// incomplete node all yield absent; a list or object always resolves,
/// with unresolvable members becoming null in place.
pub open spec fn spec_resolve(n: NodeV, vars: Seq<BindV>) -> Option<JVal>
    decreases n, 0int,
{
    match n {
        NodeV::StrLit(t) => match crate::strings::parse_string_token(t) {
            Option::Some(c) => Option::Some(JVal::Str(c)),
            Option::None => Option::None,
        },
        NodeV::IntLit(t) => match crate::numbers::spec_parse_int(t) {
            Option::Some(i) => Option::Some(JVal::Int(i as int)),
            Option::None => Option::None,
        },
        NodeV::FloatLit(t) => if crate::numbers::is_number(t) {
            Option::Some(JVal::Float(t))
        } else {
            Option::None
        },
        NodeV::BoolLit(t) => if t == "true"@ {
            Option::Some(JVal::Bool(true))
        } else if t == "false"@ {
            Option::Some(JVal::Bool(false))
        } else {
            Option::None
        },
        NodeV::NullLit => Option::Some(JVal::Null),
        NodeV::EnumTok(t) => Option::Some(JVal::Str(t)),
        NodeV::VarRef(x) => lookup_var(vars, x),
        NodeV::List(items) => Option::Some(JVal::Arr(resolve_list(items, vars))),
        NodeV::ObjectLit(es) => Option::Some(JVal::Obj(resolve_entries(es, vars))),
        NodeV::Invalid => Option::None,
    }
}

/// A member's value inside a list or object: its resolution, or null where
/// it fails to resolve.
pub open spec fn resolve_or_null(n: NodeV, vars: Seq<BindV>) -> JVal
    decreases n, 1int,
{
    match spec_resolve(n, vars) {
        Option::Some(v) => v,
        Option::None => JVal::Null,
    }
}

pub open spec fn resolve_list(items: Seq<NodeV>, vars: Seq<BindV>) -> Seq<JVal>
    decreases items, 2int,
{
    if items.len() == 0 {
        Seq::empty()
    } else {
        resolve_list(items.drop_last(), vars).push(resolve_or_null(items.last(), vars))
    }
}

pub open spec fn resolve_entries(es: Seq<(Seq<char>, NodeV)>, vars: Seq<BindV>) -> Seq<
    (Seq<char>, JVal),
>
    decreases es, 2int,
{
    if es.len() == 0 {
        Seq::empty()
    } else {
        resolve_entries(es.drop_last(), vars).push(
            (es.last().0, resolve_or_null(es.last().1, vars)),
        )
    }
}

/// Resolving a list keeps every position: the result is a same-length
/// array, and a member that fails to resolve is null in place, never
/// dropped.
pub proof fn lemma_list_resolution_keeps_positions(items: Seq<NodeV>, vars: Seq<BindV>)
    ensures
        resolve_list(items, vars).len() == items.len(),
        forall|i: int|
            0 <= i < items.len() ==> #[trigger] resolve_list(items, vars)[i] == resolve_or_null(
                items[i],
                vars,
            ),
        forall|i: int|
            0 <= i < items.len() && spec_resolve(#[trigger] items[i], vars) is None
                ==> resolve_list(items, vars)[i] == JVal::Null,
    decreases items,
{
    if items.len() > 0 {
        lemma_list_resolution_keeps_positions(items.drop_last(), vars);
        assert(forall|i: int|
            0 <= i < items.len() - 1 ==> #[trigger] resolve_list(items, vars)[i] == resolve_list(
                items.drop_last(),
                vars,
            )[i]);
        assert(forall|i: int| 0 <= i < items.len() - 1 ==> items.drop_last()[i] == items[i]);
    }
    assert forall|i: int|
        0 <= i < items.len() && spec_resolve(#[trigger] items[i], vars) is None implies resolve_list(
        items,
        vars,
    )[i] == JVal::Null by {
        assert(resolve_list(items, vars)[i] == resolve_or_null(items[i], vars));
    }
}

/// Resolving an object keeps every field: same keys in the same order, and
/// a field whose value fails to resolve is null, never dropped.
pub proof fn lemma_object_resolution_keeps_fields(es: Seq<(Seq<char>, NodeV)>, vars: Seq<BindV>)
    ensures
        resolve_entries(es, vars).len() == es.len(),
        forall|i: int|
            0 <= i < es.len() ==> #[trigger] resolve_entries(es, vars)[i] == (
                es[i].0,
                resolve_or_null(es[i].1, vars),
            ),
        forall|i: int|
            0 <= i < es.len() && spec_resolve(#[trigger] es[i].1, vars) is None ==> resolve_entries(
                es,
                vars,
            )[i].1 == JVal::Null,
    decreases es,
{
    if es.len() > 0 {
        lemma_object_resolution_keeps_fields(es.drop_last(), vars);
        assert(forall|i: int|
            0 <= i < es.len() - 1 ==> #[trigger] resolve_entries(es, vars)[i] == resolve_entries(
                es.drop_last(),
                vars,
            )[i]);
        assert(forall|i: int| 0 <= i < es.len() - 1 ==> es.drop_last()[i] == es[i]);
    }
    assert forall|i: int|
        0 <= i < es.len() && spec_resolve(#[trigger] es[i].1, vars) is None implies resolve_entries(
        es,
        vars,
    )[i].1 == JVal::Null by {
        assert(resolve_entries(es, vars)[i] == (es[i].0, resolve_or_null(es[i].1, vars)));
    }
}

/// Resolving a reference to a variable with no matching binding yields
/// absent, never an error.
pub proof fn lemma_unbound_variable_resolves_absent(x: Seq<char>, vars: Seq<BindV>)
    requires
        lookup_var(vars, x) is None,
    ensures
        spec_resolve(NodeV::VarRef(x), vars) is None,
{
}

/// The value bound to `name`, mirroring `lookup_var`.
#[verifier::loop_isolation(false)]
fn lookup_var_exec<'a>(vars: &'a Vec<VarBinding>, name: &String) -> (r: Option<&'a JsonValue>)
    ensures
        match r {
            Option::Some(v) => lookup_var(vars.deep_view(), name@) == Option::Some(v.deep_view()),
            Option::None => lookup_var(vars.deep_view(), name@) is None,
        },
{
    let ghost bs = vars.deep_view();
    proof {
        assert(bs.skip(0) =~= bs);
    }
    let mut j: usize = 0;
    while j < vars.len()
        invariant
            j <= vars@.len(),
            bs.len() == vars@.len(),
            forall|k: int| 0 <= k < bs.len() ==> #[trigger] bs[k] == vars@[k].deep_view(),
            lookup_var(bs, name@) == lookup_var(bs.skip(j as int), name@),
        decreases vars@.len() - j,
    {
        if vars[j].name == *name {
            proof {
                assert(bs.skip(j as int).first() == bs[j as int]);
            }
            return Option::Some(&vars[j].value);
        }
        proof {
            assert(bs.skip(j as int).drop_first() =~= bs.skip(j as int + 1));
        }
        j = j + 1;
    }
    proof {
        assert(bs.skip(vars@.len() as int).len() == 0);
    }
    Option::None
}

/// Resolves one value node against the bindings, mirroring
/// `spec_resolve`.
#[verifier::loop_isolation(false)]
pub fn ast_value_to_json(node: &ValueNode, vars: &Vec<VarBinding>) -> (r: Option<JsonValue>)
    ensures
        match r {
            Option::Some(v) => spec_resolve(node.deep_view(), vars.deep_view()) == Option::Some(
                v.deep_view(),
            ),
            Option::None => spec_resolve(node.deep_view(), vars.deep_view()) is None,
        },
    decreases node,
{
    match node {
        ValueNode::StrLit(t) => {
            let cs = crate::chars::chars_of(t.as_str());
            match crate::strings::parse_string_chars(&cs) {
                Option::Some(v) => Option::Some(
                    JsonValue::Str(crate::chars::string_from_chars(v)),
                ),
                Option::None => Option::None,
            }
        },
        ValueNode::IntLit(t) => {
            let cs = crate::chars::chars_of(t.as_str());
            match crate::numbers::parse_int_chars(&cs) {
                Option::Some(i) => Option::Some(JsonValue::Int(i)),
                Option::None => Option::None,
            }
        },
        ValueNode::FloatLit(t) => {
            let cs = crate::chars::chars_of(t.as_str());
            if crate::numbers::is_number_chars(&cs) {
                Option::Some(JsonValue::Float(t.clone()))
            } else {
                Option::None
            }
        },
        ValueNode::BoolLit(t) => {
            let true_text = String::from_str("true");
            let false_text = String::from_str("false");
            if *t == true_text {
                Option::Some(JsonValue::Bool(true))
            } else if *t == false_text {
                Option::Some(JsonValue::Bool(false))
            } else {
                Option::None
            }
        },
        ValueNode::NullLit => Option::Some(JsonValue::Null),
        ValueNode::EnumTok(t) => Option::Some(JsonValue::Str(t.clone())),
        ValueNode::VarRef(x) => match lookup_var_exec(vars, x) {
            Option::Some(v) => Option::Some(crate::json::clone_json(v)),
            Option::None => Option::None,
        },
        ValueNode::List(items) => {
            let mut out: Vec<JsonValue> = Vec::new();
            let mut j: usize = 0;
            while j < items.len()
                invariant
                    j <= items.len(),
                    out@.len() == j as int,
                    forall|k: int|
                        0 <= k < j as int ==> jval_of(#[trigger] out@[k]) == resolve_or_null(
                            nodev_of(items@[k]),
                            vars.deep_view(),
                        ),
                decreases items.len() - j,
            {
                proof {
                    assert(decreases_to!(*node => node->List_0));
                    assert(decreases_to!(items@ => items@[j as int]));
                    assert(decreases_to!(*node => items@[j as int]));
                }
                let v = match ast_value_to_json(&items[j], vars) {
                    Option::Some(v) => v,
                    Option::None => JsonValue::Null,
                };
                out.push(v);
                j = j + 1;
            }
            proof {
                lemma_nodev_seq(items@);
                crate::json::lemma_jval_seq(out@);
                lemma_list_resolution_keeps_positions(nodev_seq(items@), vars.deep_view());
                assert(crate::json::jval_seq(out@) =~= resolve_list(
                    nodev_seq(items@),
                    vars.deep_view(),
                ));
            }
            Option::Some(JsonValue::Array(out))
        },
        ValueNode::ObjectLit(fields) => {
            let mut out: Vec<(String, JsonValue)> = Vec::new();
            let mut j: usize = 0;
            while j < fields.len()
                invariant
                    j <= fields.len(),
                    out@.len() == j as int,
                    forall|k: int|
                        0 <= k < j as int ==> (#[trigger] out@[k]).0@ == fields@[k].0@ && jval_of(
                            out@[k].1,
                        ) == resolve_or_null(nodev_of(fields@[k].1), vars.deep_view()),
                decreases fields.len() - j,
            {
                proof {
                    assert(decreases_to!(*node => node->ObjectLit_0));
                    assert(decreases_to!(fields@ => fields@[j as int]));
                    assert(decreases_to!(fields@[j as int] => fields@[j as int].1));
                    assert(decreases_to!(*node => fields@[j as int].1));
                }
                let entry = &fields[j];
                let v = match ast_value_to_json(&entry.1, vars) {
                    Option::Some(v) => v,
                    Option::None => JsonValue::Null,
                };
                out.push((entry.0.clone(), v));
                j = j + 1;
            }
            proof {
                lemma_nodev_entries(fields@);
                crate::json::lemma_jval_entries(out@);
                lemma_object_resolution_keeps_fields(nodev_entries(fields@), vars.deep_view());
                assert(crate::json::jval_entries(out@) =~= resolve_entries(
                    nodev_entries(fields@),
                    vars.deep_view(),
                ));
            }
            Option::Some(JsonValue::Object(out))
        },
        ValueNode::Invalid => Option::None,
    }
}

} // verus!
