//! Pattern trees: the matching-side mirror of values, plus matching-only
//! constructs (wildcards, bindings, ranges, alternatives, rest markers and
//! guards), with their mathematical models.

use vstd::prelude::*;

use crate::value::{value_model, Value, ValueModel};

verus! {

/// One end of a range pattern: an integer or a character bound.
#[derive(Debug, Clone, Copy, PartialEq)]
pub enum RangeEnd {
    /// An integer bound.
    IntEnd(i64),
    /// A character bound.
    CharEnd(char),
}

/// Model of a range end: the integer bound unbounded.
pub enum RangeEndModel {
    IntEnd(int),
    CharEnd(char),
}

/// Comparison operators usable in a guard.
#[derive(Debug, Clone, Copy, PartialEq, Eq, Structural)]
pub enum CmpOp {
    /// Structural equality.
    EqOp,
    /// Structural inequality.
    NeOp,
    /// Strictly less (integers or characters).
    LtOp,
    /// Less or equal (integers or characters).
    LeOp,
    /// Strictly greater (integers or characters).
    GtOp,
    /// Greater or equal (integers or characters).
    GeOp,
}

/// An operand of a guard comparison: a bound name, or a constant the caller
/// closed over (how an outer-scope value enters a guard).
#[derive(Debug, PartialEq)]
pub enum Operand {
    /// The value bound to a name by the arm's pattern.
    Var(String),
    /// A constant value.
    Lit(Value),
}

/// Model of an operand.
pub enum OperandModel {
    Var(Seq<char>),
    Lit(ValueModel),
}

/// A guard predicate over an arm's bindings: a boolean expression built from
/// constants, negation, conjunction, disjunction and comparisons.
#[derive(Debug, PartialEq)]
pub enum GuardExpr {
    /// A constant truth value.
    ConstBool(bool),
    /// Logical negation.
    Not(Box<GuardExpr>),
    /// Both sides must hold.
    AndExpr(Box<GuardExpr>, Box<GuardExpr>),
    /// At least one side must hold.
    OrExpr(Box<GuardExpr>, Box<GuardExpr>),
    /// A comparison of two operands.
    Cmp(CmpOp, Operand, Operand),
}

/// Model of a guard predicate.
pub enum GuardModel {
    ConstBool(bool),
    Not(Box<GuardModel>),
    AndExpr(Box<GuardModel>, Box<GuardModel>),
    OrExpr(Box<GuardModel>, Box<GuardModel>),
    Cmp(CmpOp, OperandModel, OperandModel),
}

/// A pattern to match a [`Value`] against.
#[derive(Debug, PartialEq)]
pub enum Pattern {
    /// Matches a value structurally equal to the given one; binds nothing.
    Literal(Value),
    /// Matches anything; binds nothing.
    Wildcard,
    /// Matches anything; binds the name to the matched value.
    Binding(String),
    /// Matches if the sub-pattern matches; additionally binds the name to the
    /// whole matched value.
    AtBinding(String, Box<Pattern>),
    /// Matches an integer or character within the bounds; the upper bound is
    /// inclusive when the flag is set.
    Range(RangeEnd, RangeEnd, bool),
    /// Matches if any alternative matches, tried left to right.
    Or(Vec<Pattern>),
    /// Destructures a tuple value positionally; may contain one `Rest`.
    TuplePattern(Vec<Pattern>),
    /// Consumes zero or more middle elements of a tuple; binds nothing.
    /// Only meaningful directly inside a `TuplePattern`.
    Rest,
    /// Destructures a struct value by field name; unlisted fields are allowed
    /// only when the rest flag is set.
    StructPattern(String, Vec<(String, Pattern)>, bool),
    /// Matches an enum value with equal enum name and variant tag, then
    /// matches the payload pattern against the payload.
    EnumPattern(String, String, Option<Box<Pattern>>),
    /// Matches if the sub-pattern matches and the guard predicate holds over
    /// its bindings.
    Guard(Box<Pattern>, GuardExpr),
}

/// Model of a pattern.
#[verifier::ext_equal]
pub enum PatternModel {
    Literal(ValueModel),
    Wildcard,
    Binding(Seq<char>),
    AtBinding(Seq<char>, Box<PatternModel>),
    Range(RangeEndModel, RangeEndModel, bool),
    Or(Seq<PatternModel>),
    TuplePattern(Seq<PatternModel>),
    Rest,
    StructPattern(Seq<char>, Seq<(Seq<char>, PatternModel)>, bool),
    EnumPattern(Seq<char>, Seq<char>, Option<Box<PatternModel>>),
    Guard(Box<PatternModel>, GuardModel),
}

/// The model of one range end.
pub open spec fn range_end_model(e: RangeEnd) -> RangeEndModel {
    match e {
        RangeEnd::IntEnd(i) => RangeEndModel::IntEnd(i as int),
        RangeEnd::CharEnd(c) => RangeEndModel::CharEnd(c),
    }
}

/// The model of one operand.
pub open spec fn operand_model(o: Operand) -> OperandModel {
    match o {
        Operand::Var(n) => OperandModel::Var(n@),
        Operand::Lit(v) => OperandModel::Lit(value_model(v)),
    }
}

/// The model of one guard expression.
pub open spec fn guard_model(g: GuardExpr) -> GuardModel
    decreases g,
{
    match g {
        GuardExpr::ConstBool(b) => GuardModel::ConstBool(b),
        GuardExpr::Not(e) => GuardModel::Not(Box::new(guard_model(*e))),
        GuardExpr::AndExpr(a, b) => GuardModel::AndExpr(
            Box::new(guard_model(*a)),
            Box::new(guard_model(*b)),
        ),
        GuardExpr::OrExpr(a, b) => GuardModel::OrExpr(
            Box::new(guard_model(*a)),
            Box::new(guard_model(*b)),
        ),
        GuardExpr::Cmp(op, l, r) => GuardModel::Cmp(op, operand_model(l), operand_model(r)),
    }
}

/// The model of one pattern.
pub open spec fn pattern_model(p: Pattern) -> PatternModel
    decreases p via pattern_model_decreases
{
    match p {
        Pattern::Literal(v) => PatternModel::Literal(value_model(v)),
        Pattern::Wildcard => PatternModel::Wildcard,
        Pattern::Binding(n) => PatternModel::Binding(n@),
        Pattern::AtBinding(n, sub) => PatternModel::AtBinding(
            n@,
            Box::new(pattern_model(*sub)),
        ),
        Pattern::Range(lo, hi, inclusive) => PatternModel::Range(
            range_end_model(lo),
            range_end_model(hi),
            inclusive,
        ),
        Pattern::Or(alts) => PatternModel::Or(pattern_models(alts@)),
        Pattern::TuplePattern(elems) => PatternModel::TuplePattern(pattern_models(elems@)),
        Pattern::Rest => PatternModel::Rest,
        Pattern::StructPattern(name, fields, has_rest) => PatternModel::StructPattern(
            name@,
            pattern_field_models(fields@),
            has_rest,
        ),
        Pattern::EnumPattern(name, tag, payload) => PatternModel::EnumPattern(
            name@,
            tag@,
            match payload {
                Option::None => Option::None,
                Option::Some(pp) => Option::Some(Box::new(pattern_model(*pp))),
            },
        ),
        Pattern::Guard(sub, g) => PatternModel::Guard(
            Box::new(pattern_model(*sub)),
            guard_model(g),
        ),
    }
}

/// The models of a sequence of patterns, element by element.
pub open spec fn pattern_models(s: Seq<Pattern>) -> Seq<PatternModel>
    decreases s via pattern_models_decreases
{
    if s.len() == 0 {
        Seq::empty()
    } else {
        pattern_models(s.drop_last()).push(pattern_model(s.last()))
    }
}

/// The models of a sequence of named field patterns, element by element.
pub open spec fn pattern_field_models(s: Seq<(String, Pattern)>) -> Seq<
    (Seq<char>, PatternModel),
>
    decreases s via pattern_field_models_decreases
{
    if s.len() == 0 {
        Seq::empty()
    } else {
        pattern_field_models(s.drop_last()).push(
            (s.last().0@, pattern_model(s.last().1)),
        )
    }
}

#[via_fn]
proof fn pattern_model_decreases(p: Pattern) {
    match p {
        Pattern::Or(alts) => {
            assert(decreases_to!(p => alts));
            assert(decreases_to!(alts => alts@));
        },
        Pattern::TuplePattern(elems) => {
            assert(decreases_to!(p => elems));
            assert(decreases_to!(elems => elems@));
        },
        Pattern::StructPattern(name, fields, has_rest) => {
            assert(decreases_to!(p => fields));
            assert(decreases_to!(fields => fields@));
        },
        _ => {},
    }
}

#[via_fn]
proof fn pattern_models_decreases(s: Seq<Pattern>) {
    if s.len() > 0 {
        assert(decreases_to!(s => s.subrange(0, s.len() - 1)));
        assert(s.drop_last() =~= s.subrange(0, s.len() - 1));
        assert(decreases_to!(s => s[s.len() - 1]));
    }
}

#[via_fn]
proof fn pattern_field_models_decreases(s: Seq<(String, Pattern)>) {
    if s.len() > 0 {
        assert(decreases_to!(s => s.subrange(0, s.len() - 1)));
        assert(s.drop_last() =~= s.subrange(0, s.len() - 1));
        assert(decreases_to!(s => s[s.len() - 1]));
        assert(decreases_to!(s[s.len() - 1] => s[s.len() - 1].1));
    }
}

impl View for RangeEnd {
    type V = RangeEndModel;

    open spec fn view(&self) -> RangeEndModel {
        range_end_model(*self)
    }
}

impl View for Operand {
    type V = OperandModel;

    open spec fn view(&self) -> OperandModel {
        operand_model(*self)
    }
}

impl View for GuardExpr {
    type V = GuardModel;

    open spec fn view(&self) -> GuardModel {
        guard_model(*self)
    }
}

impl View for Pattern {
    type V = PatternModel;

    open spec fn view(&self) -> PatternModel {
        pattern_model(*self)
    }
}

/// Each element of `pattern_models(s)` is the model of the matching element
/// of `s`, and the lengths agree.
pub proof fn lemma_pattern_models_index(s: Seq<Pattern>)
    ensures
        pattern_models(s).len() == s.len(),
        forall|i: int| 0 <= i < s.len() ==> pattern_models(s)[i] == pattern_model(s[i]),
    decreases s.len(),
{
    if s.len() > 0 {
        lemma_pattern_models_index(s.drop_last());
    }
}

/// Each element of `pattern_field_models(s)` carries the field name's
/// characters and the model of the field's pattern, and the lengths agree.
pub proof fn lemma_pattern_field_models_index(s: Seq<(String, Pattern)>)
    ensures
        pattern_field_models(s).len() == s.len(),
        forall|i: int|
            0 <= i < s.len() ==> pattern_field_models(s)[i] == (
                s[i].0@,
                pattern_model(s[i].1),
            ),
    decreases s.len(),
{
    if s.len() > 0 {
        lemma_pattern_field_models_index(s.drop_last());
    }
}

} // verus!
