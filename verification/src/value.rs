//! Runtime values that patterns are matched against: a tree of integers,
//! characters, text, booleans, tuples, named structs and tagged enum values.

use vstd::prelude::*;

verus! {

/// Mathematical model of a [`Value`]: the same tree with unbounded integers
/// and sequences in place of machine integers, vectors and strings.
#[verifier::ext_equal]
pub enum ValueModel {
    Integer(int),
    Char(char),
    Text(Seq<char>),
    Bool(bool),
    Tuple(Seq<ValueModel>),
    Struct(Seq<char>, Seq<(Seq<char>, ValueModel)>),
    Enum(Seq<char>, Seq<char>, Option<Box<ValueModel>>),
}

/// A runtime value to be matched. Struct fields and enum payloads are part of
/// the tree; an enum payload is absent, a single value, or (for tuple-like and
/// struct-like variants) a `Tuple` or `Struct` value.
#[derive(Debug, PartialEq)]
pub enum Value {
    /// A signed integer.
    Integer(i64),
    /// A single character.
    Char(char),
    /// A text value.
    Text(String),
    /// A boolean.
    Bool(bool),
    /// An ordered sequence of values.
    Tuple(Vec<Value>),
    /// A named struct: struct name, then the fields in declaration order.
    Struct(String, Vec<(String, Value)>),
    /// A tagged enum value: enum name, variant tag, optional payload.
    Enum(String, String, Option<Box<Value>>),
}

/// The model of one value.
pub open spec fn value_model(v: Value) -> ValueModel
    decreases v via value_model_decreases
{
    match v {
        Value::Integer(i) => ValueModel::Integer(i as int),
        Value::Char(c) => ValueModel::Char(c),
        Value::Text(s) => ValueModel::Text(s@),
        Value::Bool(b) => ValueModel::Bool(b),
        Value::Tuple(elems) => ValueModel::Tuple(value_models(elems@)),
        Value::Struct(name, fields) => ValueModel::Struct(name@, field_models(fields@)),
        Value::Enum(name, tag, payload) => ValueModel::Enum(
            name@,
            tag@,
            match payload {
                Option::None => Option::None,
                Option::Some(p) => Option::Some(Box::new(value_model(*p))),
            },
        ),
    }
}

/// The models of a sequence of values, element by element.
pub open spec fn value_models(s: Seq<Value>) -> Seq<ValueModel>
    decreases s via value_models_decreases
{
    if s.len() == 0 {
        Seq::empty()
    } else {
        value_models(s.drop_last()).push(value_model(s.last()))
    }
}

/// The models of a sequence of named fields, element by element.
pub open spec fn field_models(s: Seq<(String, Value)>) -> Seq<(Seq<char>, ValueModel)>
    decreases s via field_models_decreases
{
    if s.len() == 0 {
        Seq::empty()
    } else {
        field_models(s.drop_last()).push((s.last().0@, value_model(s.last().1)))
    }
}

#[via_fn]
proof fn value_model_decreases(v: Value) {
    match v {
        Value::Tuple(elems) => {
            assert(decreases_to!(v => elems));
            assert(decreases_to!(elems => elems@));
        },
        Value::Struct(name, fields) => {
            assert(decreases_to!(v => fields));
            assert(decreases_to!(fields => fields@));
        },
        _ => {},
    }
}

#[via_fn]
proof fn value_models_decreases(s: Seq<Value>) {
    if s.len() > 0 {
        assert(decreases_to!(s => s.subrange(0, s.len() - 1)));
        assert(s.drop_last() =~= s.subrange(0, s.len() - 1));
        assert(decreases_to!(s => s[s.len() - 1]));
    }
}

#[via_fn]
proof fn field_models_decreases(s: Seq<(String, Value)>) {
    if s.len() > 0 {
        assert(decreases_to!(s => s.subrange(0, s.len() - 1)));
        assert(s.drop_last() =~= s.subrange(0, s.len() - 1));
        assert(decreases_to!(s => s[s.len() - 1]));
        assert(decreases_to!(s[s.len() - 1] => s[s.len() - 1].1));
    }
}

impl View for Value {
    type V = ValueModel;

    open spec fn view(&self) -> ValueModel {
        value_model(*self)
    }
}

/// Each element of `value_models(s)` is the model of the matching element of
/// `s`, and the lengths agree.
pub proof fn lemma_value_models_index(s: Seq<Value>)
    ensures
        value_models(s).len() == s.len(),
        forall|i: int| 0 <= i < s.len() ==> value_models(s)[i] == value_model(s[i]),
    decreases s.len(),
{
    if s.len() > 0 {
        lemma_value_models_index(s.drop_last());
    }
}

/// Each element of `field_models(s)` carries the field name's characters and
/// the model of the field's value, and the lengths agree.
pub proof fn lemma_field_models_index(s: Seq<(String, Value)>)
    ensures
        field_models(s).len() == s.len(),
        forall|i: int|
            0 <= i < s.len() ==> field_models(s)[i] == (s[i].0@, value_model(s[i].1)),
    decreases s.len(),
{
    if s.len() > 0 {
        lemma_field_models_index(s.drop_last());
    }
}

pub(crate) fn string_eq(a: &String, b: &String) -> (r: bool)
    ensures
        r == (a@ == b@),
{
    a.eq(b)
}

/// Structural (deep) equality of two values: true exactly when their models
/// are equal trees.
pub fn value_eq(a: &Value, b: &Value) -> (r: bool)
    ensures
        r == (a@ == b@),
    decreases a,
{
    match (a, b) {
        (Value::Integer(x), Value::Integer(y)) => x == y,
        (Value::Char(x), Value::Char(y)) => x == y,
        (Value::Text(x), Value::Text(y)) => string_eq(x, y),
        (Value::Bool(x), Value::Bool(y)) => x == y,
        (Value::Tuple(xs), Value::Tuple(ys)) => value_seq_eq(xs, ys),
        (Value::Struct(xn, xf), Value::Struct(yn, yf)) => {
            let names_eq = string_eq(xn, yn);
            names_eq && field_seq_eq(xf, yf)
        },
        (Value::Enum(xn, xt, xp), Value::Enum(yn, yt, yp)) => {
            let heads_eq = string_eq(xn, yn) && string_eq(xt, yt);
            if !heads_eq {
                false
            } else {
                match (xp, yp) {
                    (Option::None, Option::None) => true,
                    (Option::Some(p), Option::Some(q)) => value_eq(p, q),
                    _ => false,
                }
            }
        },
        _ => false,
    }
}

#[verifier::loop_isolation(false)]
fn value_seq_eq(xs: &Vec<Value>, ys: &Vec<Value>) -> (r: bool)
    ensures
        r == (value_models(xs@) == value_models(ys@)),
    decreases xs,
{
    proof {
        lemma_value_models_index(xs@);
        lemma_value_models_index(ys@);
    }
    let ghost xv = value_models(xs@);
    let ghost yv = value_models(ys@);
    if xs.len() != ys.len() {
        assert(xv.len() != yv.len());
        return false;
    }
    let mut i: usize = 0;
    while i < xs.len()
        invariant
            i <= xs@.len(),
            forall|j: int| 0 <= j < i ==> xv[j] == yv[j],
        decreases xs@.len() - i,
    {
        if !value_eq(&xs[i], &ys[i]) {
            assert(xv[i as int] != yv[i as int]);
            return false;
        }
        i += 1;
    }
    assert(xv =~= yv);
    true
}

#[verifier::loop_isolation(false)]
fn field_seq_eq(xs: &Vec<(String, Value)>, ys: &Vec<(String, Value)>) -> (r: bool)
    ensures
        r == (field_models(xs@) == field_models(ys@)),
    decreases xs,
{
    proof {
        lemma_field_models_index(xs@);
        lemma_field_models_index(ys@);
    }
    let ghost xv = field_models(xs@);
    let ghost yv = field_models(ys@);
    if xs.len() != ys.len() {
        assert(xv.len() != yv.len());
        return false;
    }
    let mut i: usize = 0;
    while i < xs.len()
        invariant
            i <= xs@.len(),
            forall|j: int| 0 <= j < i ==> xv[j] == yv[j],
        decreases xs@.len() - i,
    {
        let name_eq = string_eq(&xs[i].0, &ys[i].0);
        if !(name_eq && value_eq(&xs[i].1, &ys[i].1)) {
            assert(xv[i as int] != yv[i as int]);
            return false;
        }
        assert(xv[i as int] == yv[i as int]);
        i += 1;
    }
    assert(xv =~= yv);
    true
}

/// A structurally equal copy of a value.
pub fn clone_value(v: &Value) -> (r: Value)
    ensures
        r@ == v@,
    decreases v,
{
    match v {
        Value::Integer(i) => Value::Integer(*i),
        Value::Char(c) => Value::Char(*c),
        Value::Text(s) => Value::Text(s.clone()),
        Value::Bool(b) => Value::Bool(*b),
        Value::Tuple(elems) => clone_tuple(elems),
        Value::Struct(name, fields) => clone_struct(name, fields),
        Value::Enum(name, tag, payload) => {
            let p = match payload {
                Option::None => Option::None,
                Option::Some(inner) => Option::Some(Box::new(clone_value(inner))),
            };
            Value::Enum(name.clone(), tag.clone(), p)
        },
    }
}

#[verifier::loop_isolation(false)]
fn clone_tuple(elems: &Vec<Value>) -> (r: Value)
    ensures
        r@ == ValueModel::Tuple(value_models(elems@)),
    decreases elems,
{
    proof {
        lemma_value_models_index(elems@);
    }
    let mut out: Vec<Value> = Vec::new();
    let mut i: usize = 0;
    while i < elems.len()
        invariant
            i <= elems@.len(),
            out@.len() == i,
            forall|j: int| 0 <= j < i ==> out@[j]@ == elems@[j]@,
        decreases elems@.len() - i,
    {
        out.push(clone_value(&elems[i]));
        i += 1;
    }
    proof {
        lemma_value_models_index(out@);
        assert(value_models(out@) =~= value_models(elems@));
    }
    Value::Tuple(out)
}

#[verifier::loop_isolation(false)]
fn clone_struct(name: &String, fields: &Vec<(String, Value)>) -> (r: Value)
    ensures
        r@ == ValueModel::Struct(name@, field_models(fields@)),
    decreases fields,
{
    proof {
        lemma_field_models_index(fields@);
    }
    let mut out: Vec<(String, Value)> = Vec::new();
    let mut i: usize = 0;
    while i < fields.len()
        invariant
            i <= fields@.len(),
            out@.len() == i,
            forall|j: int|
                0 <= j < i ==> out@[j].0@ == fields@[j].0@ && out@[j].1@ == fields@[j].1@,
        decreases fields@.len() - i,
    {
        out.push((fields[i].0.clone(), clone_value(&fields[i].1)));
        i += 1;
    }
    proof {
        lemma_field_models_index(out@);
        assert(field_models(out@) =~= field_models(fields@));
    }
    Value::Struct(name.clone(), out)
}

} // verus!
