//! The call record: the structured capture of one write operation, and the
//! argument pairs it carries.
use crate::json::{jval_of, JVal, JsonValue};
use vstd::prelude::*;

verus! {

/// One argument of a captured call: a name and its fully resolved value.
/// Duplicate names are kept in encounter order, never merged.
#[derive(Debug, PartialEq)]
pub struct MutationArg {
    pub name: String,
    pub value: JsonValue,
}

/// The mathematical model of a `MutationArg`.
#[verifier::ext_equal]
pub struct ArgV {
    pub name: Seq<char>,
    pub value: JVal,
}

impl vstd::view::DeepView for MutationArg {
    type V = ArgV;

    open spec fn deep_view(&self) -> ArgV {
        ArgV { name: self.name@, value: jval_of(self.value) }
    }
}

/// The structured capture of one write operation: the operation's name if
/// it has one, the field written, the response key it will answer under,
/// the resolved arguments in source order, the immediate result fields it
/// selects, and the identifier that correlation may extract later.
///
/// At capture time `loan_id` is absent; only correlation sets it.
#[derive(Debug, PartialEq)]
pub struct MutationCall {
    pub operation_name: Option<String>,
    pub field_name: String,
    pub loan_id: Option<String>,
    pub alias: Option<String>,
    pub arguments: Vec<MutationArg>,
    pub selected_fields: Vec<String>,
}

/// The mathematical model of a `MutationCall`.
#[verifier::ext_equal]
pub struct CallV {
    pub operation_name: Option<Seq<char>>,
    pub field_name: Seq<char>,
    pub loan_id: Option<Seq<char>>,
    pub alias: Option<Seq<char>>,
    pub arguments: Seq<ArgV>,
    pub selected_fields: Seq<Seq<char>>,
}

impl vstd::view::DeepView for MutationCall {
    type V = CallV;

    open spec fn deep_view(&self) -> CallV {
        CallV {
            operation_name: self.operation_name.deep_view(),
            field_name: self.field_name@,
            loan_id: self.loan_id.deep_view(),
            alias: self.alias.deep_view(),
            arguments: self.arguments.deep_view(),
            selected_fields: self.selected_fields.deep_view(),
        }
    }
}

/// A call as extraction hands it over: a named, nonempty field and no
/// extracted identifier yet.
pub open spec fn captured_call(c: CallV) -> bool {
    &&& c.field_name.len() > 0
    &&& c.loan_id is None
}

} // verus!
