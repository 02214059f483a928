//! Concrete JSON-like values: the fully resolved data that rides in a
//! captured call's arguments and in the downstream result payload.
//!
//! A number is kept either as a 64-bit integer or, for fractional and
//! exponent forms, as its decimal source text, so that no precision is
//! invented or lost between capture and serialization.
use vstd::prelude::*;

verus! {

/// A concrete JSON-like value: null, boolean, number, string, array or
/// object. Object entries keep their source order; duplicate keys are kept
/// rather than merged, and lookups take the first match.
#[derive(Debug, PartialEq)]
pub enum JsonValue {
    Null,
    Bool(bool),
    Int(i64),
    Float(String),
    Str(String),
    Array(Vec<JsonValue>),
    Object(Vec<(String, JsonValue)>),
}

/// The mathematical model of a `JsonValue`.
#[verifier::ext_equal]
pub enum JVal {
    Null,
    Bool(bool),
    Int(int),
    Float(Seq<char>),
    Str(Seq<char>),
    Arr(Seq<JVal>),
    Obj(Seq<(Seq<char>, JVal)>),
}

pub open spec fn jval_of(v: JsonValue) -> JVal
    decreases v,
{
    match v {
        JsonValue::Null => JVal::Null,
        JsonValue::Bool(b) => JVal::Bool(b),
        JsonValue::Int(i) => JVal::Int(i as int),
        JsonValue::Float(t) => JVal::Float(t@),
        JsonValue::Str(s) => JVal::Str(s@),
        JsonValue::Array(items) => JVal::Arr(jval_seq(items@)),
        JsonValue::Object(fields) => JVal::Obj(jval_entries(fields@)),
    }
}

pub open spec fn jval_seq(s: Seq<JsonValue>) -> Seq<JVal>
    decreases s,
{
    if s.len() == 0 {
        Seq::empty()
    } else {
        jval_seq(s.drop_last()).push(jval_of(s.last()))
    }
}

pub open spec fn jval_entries(s: Seq<(String, JsonValue)>) -> Seq<(Seq<char>, JVal)>
    decreases s,
{
    if s.len() == 0 {
        Seq::empty()
    } else {
        jval_entries(s.drop_last()).push((s.last().0@, jval_of(s.last().1)))
    }
}

pub proof fn lemma_jval_seq(s: Seq<JsonValue>)
    ensures
        jval_seq(s).len() == s.len(),
        forall|i: int| 0 <= i < s.len() ==> #[trigger] jval_seq(s)[i] == jval_of(s[i]),
    decreases s,
{
    if s.len() > 0 {
        lemma_jval_seq(s.drop_last());
        assert(forall|i: int|
            0 <= i < s.len() - 1 ==> #[trigger] jval_seq(s)[i] == jval_seq(s.drop_last())[i]);
        assert(forall|i: int| 0 <= i < s.len() - 1 ==> s.drop_last()[i] == s[i]);
    }
}

pub proof fn lemma_jval_entries(s: Seq<(String, JsonValue)>)
    ensures
        jval_entries(s).len() == s.len(),
        forall|i: int|
            0 <= i < s.len() ==> #[trigger] jval_entries(s)[i] == (s[i].0@, jval_of(s[i].1)),
    decreases s,
{
    if s.len() > 0 {
        lemma_jval_entries(s.drop_last());
        assert(forall|i: int|
            0 <= i < s.len() - 1 ==> #[trigger] jval_entries(s)[i] == jval_entries(
                s.drop_last(),
            )[i]);
        assert(forall|i: int| 0 <= i < s.len() - 1 ==> s.drop_last()[i] == s[i]);
    }
}

impl vstd::view::DeepView for JsonValue {
    type V = JVal;

    open spec fn deep_view(&self) -> JVal {
        jval_of(*self)
    }
}

/// A structural copy of a value; the copy and the original have the same
/// mathematical model.
#[verifier::loop_isolation(false)]
pub fn clone_json(v: &JsonValue) -> (r: JsonValue)
    ensures
        r.deep_view() == v.deep_view(),
    decreases v,
{
    match v {
        JsonValue::Null => JsonValue::Null,
        JsonValue::Bool(b) => JsonValue::Bool(*b),
        JsonValue::Int(i) => JsonValue::Int(*i),
        JsonValue::Float(t) => JsonValue::Float(t.clone()),
        JsonValue::Str(s) => JsonValue::Str(s.clone()),
        JsonValue::Array(items) => {
            let mut out: Vec<JsonValue> = Vec::new();
            let mut j: usize = 0;
            while j < items.len()
                invariant
                    j <= items.len(),
                    out@.len() == j as int,
                    forall|k: int|
                        0 <= k < j as int ==> jval_of(#[trigger] out@[k]) == jval_of(items@[k]),
                decreases items.len() - j,
            {
                proof {
                    assert(decreases_to!(*v => v->Array_0));
                    assert(decreases_to!(items@ => items@[j as int]));
                    assert(decreases_to!(*v => items@[j as int]));
                }
                out.push(clone_json(&items[j]));
                j = j + 1;
            }
            let r = JsonValue::Array(out);
            proof {
                lemma_jval_seq(out@);
                lemma_jval_seq(items@);
                assert(jval_seq(out@) =~= jval_seq(items@));
            }
            r
        },
        JsonValue::Object(fields) => {
            let mut out: Vec<(String, JsonValue)> = Vec::new();
            let mut j: usize = 0;
            while j < fields.len()
                invariant
                    j <= fields.len(),
                    out@.len() == j as int,
                    forall|k: int|
                        0 <= k < j as int ==> (#[trigger] out@[k]).0@ == fields@[k].0@ && jval_of(
                            out@[k].1,
                        ) == jval_of(fields@[k].1),
                decreases fields.len() - j,
            {
                proof {
                    assert(decreases_to!(*v => v->Object_0));
                    assert(decreases_to!(fields@ => fields@[j as int]));
                    assert(decreases_to!(fields@[j as int] => fields@[j as int].1));
                    assert(decreases_to!(*v => fields@[j as int].1));
                }
                let entry = &fields[j];
                out.push((entry.0.clone(), clone_json(&entry.1)));
                j = j + 1;
            }
            let r = JsonValue::Object(out);
            proof {
                lemma_jval_entries(out@);
                lemma_jval_entries(fields@);
                assert(jval_entries(out@) =~= jval_entries(fields@));
            }
            r
        },
    }
}

/// First entry of `es` whose key equals `key`, if any.
pub open spec fn obj_lookup_entries(es: Seq<(Seq<char>, JVal)>, key: Seq<char>) -> Option<JVal>
    decreases es,
{
    if es.len() == 0 {
        Option::None
    } else if es.first().0 == key {
        Option::Some(es.first().1)
    } else {
        obj_lookup_entries(es.drop_first(), key)
    }
}

/// Looking a key up in a JSON-like value: defined only on objects, absent
/// on every other shape.
pub open spec fn obj_lookup(v: JVal, key: Seq<char>) -> Option<JVal> {
    match v {
        JVal::Obj(es) => obj_lookup_entries(es, key),
        _ => Option::None,
    }
}

/// The first field of `v` named `key`, or `None` when `v` is not an object
/// or has no such field.
#[verifier::loop_isolation(false)]
pub fn lookup_field<'a>(v: &'a JsonValue, key: &String) -> (r: Option<&'a JsonValue>)
    ensures
        match r {
            Option::Some(x) => obj_lookup(v.deep_view(), key@) == Option::Some(x.deep_view()),
            Option::None => obj_lookup(v.deep_view(), key@) is None,
        },
{
    match v {
        JsonValue::Object(fields) => {
            proof {
                lemma_jval_entries(fields@);
            }
            let ghost es = jval_entries(fields@);
            proof {
                assert(es.skip(0) =~= es);
            }
            let mut j: usize = 0;
            while j < fields.len()
                invariant
                    j <= fields.len(),
                    obj_lookup_entries(es, key@) == obj_lookup_entries(
                        es.skip(j as int),
                        key@,
                    ),
                decreases fields.len() - j,
            {
                if fields[j].0 == *key {
                    proof {
                        assert(es.skip(j as int).first() == es[j as int]);
                    }
                    return Option::Some(&fields[j].1);
                }
                proof {
                    assert(es.skip(j as int).drop_first() =~= es.skip(j as int + 1));
                }
                j = j + 1;
            }
            proof {
                assert(es.skip(fields@.len() as int).len() == 0);
            }
            Option::None
        },
        _ => Option::None,
    }
}

} // verus!
