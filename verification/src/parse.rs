//! The parser adapter: reads a raw operation text through the query
//! language parser and fills the extractor's document model, then runs
//! extraction.
//!
//! The trusted boundary is the read from the syntax tree: the thin
//! accessors below, and `read_operations`, whose result — a pure function
//! of the text — is named `parsed_doc_of`. Everything from the document
//! model onward is verified against that name. The adapter is fail-open:
//! text that parses to no write operation, and any piece the parser
//! leaves incomplete, degrade to nothing captured.
use crate::call::MutationCall;
use crate::extract::{RawArgument, RawField, RawOperation, SubField};
use crate::resolve::{ValueNode, VarBinding};
use apollo_parser::cst::CstNode;
use apollo_parser::cst::Value as GqlValue;
use vstd::prelude::*;

verus! {

#[verifier::external_type_specification]
#[verifier::external_body]
pub struct ExOperationDefinition(apollo_parser::cst::OperationDefinition);

#[verifier::external_type_specification]
#[verifier::external_body]
pub struct ExField(apollo_parser::cst::Field);

#[verifier::external_type_specification]
#[verifier::external_body]
pub struct ExValue(apollo_parser::cst::Value);

#[verifier::external_type_specification]
#[verifier::external_body]
pub struct ExObjectField(apollo_parser::cst::ObjectField);

/// One layer of a parsed value: which scalar kind it is, a variable's
/// name, or the children of a list or object, still unconverted. Scalar
/// token text is read separately.
pub enum ValueShape {
    TextTok,
    IntTok,
    FloatTok,
    BoolTok,
    NullTok,
    EnumTok,
    VarTok(Option<String>),
    ListTok(Vec<apollo_parser::cst::Value>),
    ObjectTok(Vec<apollo_parser::cst::ObjectField>),
}

/// Relies on `apollo_parser::Parser::parse` and `Document::definitions`:
/// parses the text, tolerating errors, and hands back its operation
/// definitions in document order.
#[verifier::external_body]
fn parse_operations(query: &str) -> (r: Vec<apollo_parser::cst::OperationDefinition>)
{
    let tree = apollo_parser::Parser::new(query).parse();
    tree.document().definitions().filter_map(
        |d| match d {
            apollo_parser::cst::Definition::OperationDefinition(op) => Some(op),
            _ => None,
        },
    ).collect()
}

/// Relies on `OperationDefinition::operation_type` and
/// `OperationType::mutation_token`: whether the operation's root is the
/// write-operation keyword.
#[verifier::external_body]
fn operation_is_mutation(op: &apollo_parser::cst::OperationDefinition) -> (r: bool)
{
    op.operation_type().map_or(false, |t| t.mutation_token().is_some())
}

/// Relies on `OperationDefinition::name`: the operation's name token, if
/// it has one.
#[verifier::external_body]
fn operation_name_of(op: &apollo_parser::cst::OperationDefinition) -> (r: Option<String>)
{
    op.name().map(|n| n.text().to_string())
}

/// Relies on `OperationDefinition::selection_set` and
/// `SelectionSet::selections`: the fields selected directly at the
/// operation's top level, in source order.
#[verifier::external_body]
fn operation_fields(op: &apollo_parser::cst::OperationDefinition) -> (r: Vec<
    apollo_parser::cst::Field,
>)
{
    op.selection_set().into_iter().flat_map(|s| s.selections()).filter_map(
        |sel| match sel {
            apollo_parser::cst::Selection::Field(f) => Some(f),
            _ => None,
        },
    ).collect()
}

/// Relies on `Field::selection_set` and `SelectionSet::selections`: the
/// immediate sub-fields of the field's own selection set, in source
/// order.
#[verifier::external_body]
fn field_subfields(f: &apollo_parser::cst::Field) -> (r: Vec<apollo_parser::cst::Field>)
{
    f.selection_set().into_iter().flat_map(|s| s.selections()).filter_map(
        |sel| match sel {
            apollo_parser::cst::Selection::Field(sub) => Some(sub),
            _ => None,
        },
    ).collect()
}

/// Relies on `Field::name`: the field's name token, if it has one.
#[verifier::external_body]
fn field_name_of(f: &apollo_parser::cst::Field) -> (r: Option<String>)
{
    f.name().map(|n| n.text().to_string())
}

/// Relies on `Field::alias` and `Alias::name`: the field's alias name, if
/// aliased.
#[verifier::external_body]
fn field_alias_of(f: &apollo_parser::cst::Field) -> (r: Option<String>)
{
    f.alias().and_then(|a| a.name()).map(|n| n.text().to_string())
}

/// Relies on `Field::arguments`, `Arguments::arguments`,
/// `Argument::name` and `Argument::value`: the field's arguments in
/// source order, each as its name token and unconverted value.
#[verifier::external_body]
fn field_arguments(f: &apollo_parser::cst::Field) -> (r: Vec<
    (Option<String>, Option<apollo_parser::cst::Value>),
>)
{
    f.arguments().into_iter().flat_map(|a| a.arguments()).map(
        |a| (a.name().map(|n| n.text().to_string()), a.value()),
    ).collect()
}

/// Relies on the `Value` node's variants: which kind of value the node
/// is, with a variable's name and a list's or object's children.
#[verifier::external_body]
fn value_shape_of(v: &apollo_parser::cst::Value) -> (r: ValueShape)
{
    match v {
        GqlValue::StringValue(_) => ValueShape::TextTok,
        GqlValue::IntValue(_) => ValueShape::IntTok,
        GqlValue::FloatValue(_) => ValueShape::FloatTok,
        GqlValue::BooleanValue(_) => ValueShape::BoolTok,
        GqlValue::NullValue(_) => ValueShape::NullTok,
        GqlValue::EnumValue(_) => ValueShape::EnumTok,
        GqlValue::Variable(var) => ValueShape::VarTok(var.name().map(|n| n.text().to_string())),
        GqlValue::ListValue(l) => ValueShape::ListTok(l.values().collect()),
        GqlValue::ObjectValue(o) => ValueShape::ObjectTok(o.object_fields().collect()),
    }
}

/// Relies on `CstNode::syntax` and the node's text: a scalar token's
/// source text, verbatim, for the scalar value kinds.
#[verifier::external_body]
fn scalar_token_text(v: &apollo_parser::cst::Value) -> (r: Option<String>)
{
    match v {
        GqlValue::StringValue(s) => Some(s.syntax().text().to_string()),
        GqlValue::IntValue(t) => Some(t.syntax().text().to_string()),
        GqlValue::FloatValue(t) => Some(t.syntax().text().to_string()),
        GqlValue::BooleanValue(t) => Some(t.syntax().text().to_string()),
        GqlValue::EnumValue(e) => Some(e.syntax().text().to_string()),
        _ => None,
    }
}

/// Relies on `ObjectField::name` and `ObjectField::value`: one object
/// field's name token and unconverted value.
#[verifier::external_body]
fn object_field_parts(f: &apollo_parser::cst::ObjectField) -> (r: (
    Option<String>,
    Option<apollo_parser::cst::Value>,
))
{
    (f.name().map(|n| n.text().to_string()), f.value())
}

/// Converts one parsed value into the resolver's node model. `fuel`
/// bounds the nesting depth; a deeper value — impossible for any value
/// parsed from a text shorter than the fuel — degrades to an incomplete
/// node, as does a variable or object field the parser left nameless.
#[verifier::loop_isolation(false)]
fn convert_value(v: &apollo_parser::cst::Value, fuel: usize) -> ValueNode
    decreases fuel,
{
    if fuel == 0 {
        return ValueNode::Invalid;
    }
    match value_shape_of(v) {
        ValueShape::TextTok => match scalar_token_text(v) {
            Option::Some(t) => ValueNode::StrLit(t),
            Option::None => ValueNode::Invalid,
        },
        ValueShape::IntTok => match scalar_token_text(v) {
            Option::Some(t) => ValueNode::IntLit(t),
            Option::None => ValueNode::Invalid,
        },
        ValueShape::FloatTok => match scalar_token_text(v) {
            Option::Some(t) => ValueNode::FloatLit(t),
            Option::None => ValueNode::Invalid,
        },
        ValueShape::BoolTok => match scalar_token_text(v) {
            Option::Some(t) => ValueNode::BoolLit(t),
            Option::None => ValueNode::Invalid,
        },
        ValueShape::NullTok => ValueNode::NullLit,
        ValueShape::EnumTok => match scalar_token_text(v) {
            Option::Some(t) => ValueNode::EnumTok(t),
            Option::None => ValueNode::Invalid,
        },
        ValueShape::VarTok(name) => match name {
            Option::Some(n) => ValueNode::VarRef(n),
            Option::None => ValueNode::Invalid,
        },
        ValueShape::ListTok(children) => {
            let mut items: Vec<ValueNode> = Vec::new();
            let mut j: usize = 0;
            while j < children.len()
                decreases children.len() - j,
            {
                items.push(convert_value(&children[j], fuel - 1));
                j = j + 1;
            }
            ValueNode::List(items)
        },
        ValueShape::ObjectTok(entries) => {
            let mut fields: Vec<(String, ValueNode)> = Vec::new();
            let mut j: usize = 0;
            while j < entries.len()
                decreases entries.len() - j,
            {
                let parts = object_field_parts(&entries[j]);
                match (parts.0, parts.1) {
                    (Option::Some(n), Option::Some(ev)) => {
                        fields.push((n, convert_value(&ev, fuel - 1)));
                    },
                    _ => {
                        return ValueNode::Invalid;
                    },
                }
                j = j + 1;
            }
            ValueNode::ObjectLit(fields)
        },
    }
}

/// Converts one parsed field into the extractor's field model.
fn convert_field(f: &apollo_parser::cst::Field, fuel: usize) -> RawField {
    let name = field_name_of(f);
    let alias = field_alias_of(f);
    let raw_args = field_arguments(f);
    let mut arguments: Vec<RawArgument> = Vec::new();
    let mut j: usize = 0;
    while j < raw_args.len()
        decreases raw_args.len() - j,
    {
        let arg_name = crate::extract::clone_opt_string(&raw_args[j].0);
        let value = match &raw_args[j].1 {
            Option::Some(av) => convert_value(av, fuel),
            Option::None => ValueNode::Invalid,
        };
        arguments.push(RawArgument { name: arg_name, value });
        j = j + 1;
    }
    let subs = field_subfields(f);
    let mut subfields: Vec<SubField> = Vec::new();
    let mut k: usize = 0;
    while k < subs.len()
        decreases subs.len() - k,
    {
        subfields.push(
            SubField { alias: field_alias_of(&subs[k]), name: field_name_of(&subs[k]) },
        );
        k = k + 1;
    }
    RawField { name, alias, arguments, subfields }
}

/// The document model that parsing an operation text yields: one entry
/// per operation definition, in document order. The parser is a pure
/// function of the text, so the model is too; what it holds for a given
/// text is stated nowhere — extraction is verified for every model, and
/// the scenario tests check concrete texts.
pub uninterp spec fn parsed_doc_of(q: Seq<char>) -> Seq<crate::extract::ROpV>;

/// Parses the operation text and fills the extractor's document model,
/// one entry per operation definition in document order. Relies on
/// `apollo_parser::Parser::parse` depending on the text alone: the model
/// read from the tree — through the accessors above and the converters
/// below — is the text's `parsed_doc_of`.
#[verifier::external_body]
fn read_operations(query: &str) -> (r: Vec<RawOperation>)
    ensures
        r.deep_view() == parsed_doc_of(query@),
{
    // any value parsed from this text nests shallower than its byte length
    let fuel = query.len();
    parse_operations(query)
        .iter()
        .map(|op| RawOperation {
            is_mutation: operation_is_mutation(op),
            name: operation_name_of(op),
            fields: operation_fields(op).iter().map(|f| convert_field(f, fuel)).collect(),
        })
        .collect()
}

/// Captures the write operations of one request: parses the operation
/// text and yields one call record per named field selected directly
/// under a write-operation root, with every argument value resolved
/// against the bindings. Text with no write operation, including text the
/// parser rejects, yields the empty batch; extraction never fails the
/// request.
pub fn extract_mutations(query: &str, variables: &Vec<VarBinding>) -> (r: Vec<MutationCall>)
    ensures
        r.deep_view() == crate::extract::spec_extract(
            parsed_doc_of(query@),
            variables.deep_view(),
        ),
        forall|i: int|
            0 <= i < r.deep_view().len() ==> crate::call::captured_call(
                #[trigger] r.deep_view()[i],
            ),
{
    let ops = read_operations(query);
    let r = crate::extract::extract_calls(&ops, variables);
    proof {
        crate::extract::lemma_extract_captured(ops.deep_view(), variables.deep_view());
        assert(r.deep_view() == crate::extract::spec_extract(
            ops.deep_view(),
            variables.deep_view(),
        ));
    }
    r
}

} // verus!
