//! Refutability: classify a pattern as irrefutable (it matches every value
//! of its declared domain) or refutable (it may fail), and reject refutable
//! patterns at binding sites that demand an irrefutable one.

use vstd::prelude::*;

use crate::matcher::{field_lookup, fields_cover, match_elements, match_fields,
    match_pattern};
use crate::pattern::{Pattern, PatternModel};
use crate::value::ValueModel;

verus! {

/// Whether a pattern is irrefutable: wildcards and bindings always match;
/// an at-binding is as refutable as its sub-pattern; tuple and struct
/// patterns are irrefutable when every sub-pattern is; anything that
/// constrains the value (a literal, a range, an enum variant, a guard) is
/// refutable, and an or-pattern is conservatively treated as refutable.
pub open spec fn irrefutable(p: PatternModel) -> bool
    decreases p,
{
    match p {
        PatternModel::Literal(_) => false,
        PatternModel::Wildcard => true,
        PatternModel::Binding(_) => true,
        PatternModel::AtBinding(_, sub) => irrefutable(*sub),
        PatternModel::Range(_, _, _) => false,
        PatternModel::Or(_) => false,
        PatternModel::TuplePattern(elems) => all_irrefutable(elems),
        PatternModel::Rest => true,
        PatternModel::StructPattern(_, fields, _) => all_fields_irrefutable(fields),
        PatternModel::EnumPattern(_, _, _) => false,
        PatternModel::Guard(_, _) => false,
    }
}

/// Every pattern of the sequence is irrefutable.
pub open spec fn all_irrefutable(s: Seq<PatternModel>) -> bool
    decreases s via all_irrefutable_decreases
{
    if s.len() == 0 {
        true
    } else {
        irrefutable(s[0]) && all_irrefutable(s.drop_first())
    }
}

/// Every field pattern of the sequence is irrefutable.
pub open spec fn all_fields_irrefutable(s: Seq<(Seq<char>, PatternModel)>) -> bool
    decreases s via all_fields_irrefutable_decreases
{
    if s.len() == 0 {
        true
    } else {
        irrefutable(s[0].1) && all_fields_irrefutable(s.drop_first())
    }
}

#[via_fn]
proof fn all_irrefutable_decreases(s: Seq<PatternModel>) {
    if s.len() > 0 {
        assert(decreases_to!(s => s[0]));
        assert(decreases_to!(s => s.subrange(1, s.len() as int)));
        assert(s.drop_first() =~= s.subrange(1, s.len() as int));
    }
}

#[via_fn]
proof fn all_fields_irrefutable_decreases(s: Seq<(Seq<char>, PatternModel)>) {
    if s.len() > 0 {
        assert(decreases_to!(s => s[0]));
        assert(decreases_to!(s[0] => s[0].1));
        assert(decreases_to!(s => s.subrange(1, s.len() as int)));
        assert(s.drop_first() =~= s.subrange(1, s.len() as int));
    }
}

/// A short name for the kind of a pattern, for diagnostics.
pub open spec fn kind_label(p: PatternModel) -> Seq<char> {
    match p {
        PatternModel::Literal(_) => "literal"@,
        PatternModel::Wildcard => "wildcard"@,
        PatternModel::Binding(_) => "binding"@,
        PatternModel::AtBinding(_, _) => "at-binding"@,
        PatternModel::Range(_, _, _) => "range"@,
        PatternModel::Or(_) => "or"@,
        PatternModel::TuplePattern(_) => "tuple"@,
        PatternModel::Rest => "rest"@,
        PatternModel::StructPattern(_, _, _) => "struct"@,
        PatternModel::EnumPattern(_, _, _) => "enum"@,
        PatternModel::Guard(_, _) => "guard"@,
    }
}

/// The kind of a pattern, as text.
pub fn pattern_kind(p: &Pattern) -> (r: String)
    ensures
        r@ == kind_label(p@),
{
    match p {
        Pattern::Literal(_) => "literal".to_owned(),
        Pattern::Wildcard => "wildcard".to_owned(),
        Pattern::Binding(_) => "binding".to_owned(),
        Pattern::AtBinding(_, _) => "at-binding".to_owned(),
        Pattern::Range(_, _, _) => "range".to_owned(),
        Pattern::Or(_) => "or".to_owned(),
        Pattern::TuplePattern(_) => "tuple".to_owned(),
        Pattern::Rest => "rest".to_owned(),
        Pattern::StructPattern(_, _, _) => "struct".to_owned(),
        Pattern::EnumPattern(_, _, _) => "enum".to_owned(),
        Pattern::Guard(_, _) => "guard".to_owned(),
    }
}

/// Rejection of a refutable pattern at a binding site that requires an
/// irrefutable one. Carries the kind of the offending pattern.
#[derive(Debug, PartialEq)]
pub struct RefutablePatternError {
    /// The kind of the rejected pattern.
    pub kind: String,
}

/// Classify a pattern: true exactly when it is irrefutable.
pub fn classify_irrefutable(p: &Pattern) -> (r: bool)
    ensures
        r == irrefutable(p@),
    decreases p, 0int,
{
    match p {
        Pattern::Literal(_) => false,
        Pattern::Wildcard => true,
        Pattern::Binding(_) => true,
        Pattern::AtBinding(_, sub) => classify_irrefutable(&**sub),
        Pattern::Range(_, _, _) => false,
        Pattern::Or(_) => false,
        Pattern::TuplePattern(elems) => {
            let r = elems_irrefutable(elems, 0);
            proof {
                assert(crate::pattern::pattern_models(elems@).skip(0)
                    =~= crate::pattern::pattern_models(elems@));
            }
            r
        },
        Pattern::Rest => true,
        Pattern::StructPattern(_, fields, _) => {
            let r = fields_irrefutable(fields, 0);
            proof {
                assert(crate::pattern::pattern_field_models(fields@).skip(0)
                    =~= crate::pattern::pattern_field_models(fields@));
            }
            r
        },
        Pattern::EnumPattern(_, _, _) => false,
        Pattern::Guard(_, _) => false,
    }
}

fn elems_irrefutable(ps: &Vec<Pattern>, i: usize) -> (r: bool)
    requires
        i <= ps@.len(),
    ensures
        r == all_irrefutable(crate::pattern::pattern_models(ps@).skip(i as int)),
    decreases ps, ps@.len() - i,
{
    proof {
        crate::pattern::lemma_pattern_models_index(ps@);
    }
    let ghost sp = crate::pattern::pattern_models(ps@).skip(i as int);
    if i == ps.len() {
        proof {
            assert(sp.len() == 0);
        }
        return true;
    }
    proof {
        assert(sp[0] == crate::pattern::pattern_models(ps@)[i as int]);
        assert(sp.drop_first() =~= crate::pattern::pattern_models(ps@).skip(i as int + 1));
    }
    let head = classify_irrefutable(&ps[i]);
    head && elems_irrefutable(ps, i + 1)
}

fn fields_irrefutable(fps: &Vec<(String, Pattern)>, i: usize) -> (r: bool)
    requires
        i <= fps@.len(),
    ensures
        r == all_fields_irrefutable(crate::pattern::pattern_field_models(fps@).skip(i as int)),
    decreases fps, fps@.len() - i,
{
    proof {
        crate::pattern::lemma_pattern_field_models_index(fps@);
    }
    let ghost sp = crate::pattern::pattern_field_models(fps@).skip(i as int);
    if i == fps.len() {
        proof {
            assert(sp.len() == 0);
        }
        return true;
    }
    proof {
        assert(sp[0] == crate::pattern::pattern_field_models(fps@)[i as int]);
        assert(sp.drop_first() =~= crate::pattern::pattern_field_models(fps@).skip(
            i as int + 1,
        ));
    }
    let head = classify_irrefutable(&fps[i].1);
    head && fields_irrefutable(fps, i + 1)
}

/// Gate for binding sites that demand an irrefutable pattern (the analogue
/// of unconditional destructuring): accept an irrefutable pattern, reject a
/// refutable one with a `RefutablePatternError` before any value is seen.
/// Conditional binding sites accept any pattern and simply use `try_match`.
pub fn require_irrefutable(p: &Pattern) -> (r: Result<(), RefutablePatternError>)
    ensures
        r is Ok <==> irrefutable(p@),
        (r matches Err(e) ==> e.kind@ == kind_label(p@)),
{
    if classify_irrefutable(p) {
        Result::Ok(())
    } else {
        Result::Err(RefutablePatternError { kind: pattern_kind(p) })
    }
}

/// Whether a literal or an enum pattern occurs anywhere in the pattern.
pub open spec fn contains_literal_or_enum(p: PatternModel) -> bool
    decreases p via contains_literal_or_enum_decreases
{
    match p {
        PatternModel::Literal(_) => true,
        PatternModel::EnumPattern(_, _, _) => true,
        PatternModel::Wildcard => false,
        PatternModel::Binding(_) => false,
        PatternModel::Rest => false,
        PatternModel::Range(_, _, _) => false,
        PatternModel::AtBinding(_, sub) => contains_literal_or_enum(*sub),
        PatternModel::Guard(sub, _) => contains_literal_or_enum(*sub),
        PatternModel::Or(alts) => any_contains_literal_or_enum(alts),
        PatternModel::TuplePattern(elems) => any_contains_literal_or_enum(elems),
        PatternModel::StructPattern(_, fields, _) => any_field_contains_literal_or_enum(
            fields,
        ),
    }
}

/// Whether some pattern of the sequence contains a literal or enum pattern.
pub open spec fn any_contains_literal_or_enum(s: Seq<PatternModel>) -> bool
    decreases s via any_contains_decreases
{
    if s.len() == 0 {
        false
    } else {
        contains_literal_or_enum(s[0]) || any_contains_literal_or_enum(s.drop_first())
    }
}

/// Whether some field pattern of the sequence contains a literal or enum
/// pattern.
pub open spec fn any_field_contains_literal_or_enum(
    s: Seq<(Seq<char>, PatternModel)>,
) -> bool
    decreases s via any_field_contains_decreases
{
    if s.len() == 0 {
        false
    } else {
        contains_literal_or_enum(s[0].1) || any_field_contains_literal_or_enum(
            s.drop_first(),
        )
    }
}

#[via_fn]
proof fn contains_literal_or_enum_decreases(p: PatternModel) {
    match p {
        PatternModel::Or(alts) => {
            assert(decreases_to!(p => alts));
        },
        PatternModel::TuplePattern(elems) => {
            assert(decreases_to!(p => elems));
        },
        PatternModel::StructPattern(name, fields, has_rest) => {
            assert(decreases_to!(p => fields));
        },
        _ => {},
    }
}

#[via_fn]
proof fn any_contains_decreases(s: Seq<PatternModel>) {
    if s.len() > 0 {
        assert(decreases_to!(s => s[0]));
        assert(decreases_to!(s => s.subrange(1, s.len() as int)));
        assert(s.drop_first() =~= s.subrange(1, s.len() as int));
    }
}

#[via_fn]
proof fn any_field_contains_decreases(s: Seq<(Seq<char>, PatternModel)>) {
    if s.len() > 0 {
        assert(decreases_to!(s => s[0]));
        assert(decreases_to!(s[0] => s[0].1));
        assert(decreases_to!(s => s.subrange(1, s.len() as int)));
        assert(s.drop_first() =~= s.subrange(1, s.len() as int));
    }
}

/// A pattern that contains a literal or an enum pattern anywhere is
/// refutable.
pub proof fn lemma_literal_or_enum_refutable(p: PatternModel)
    requires
        contains_literal_or_enum(p),
    ensures
        !irrefutable(p),
    decreases p,
{
    match p {
        PatternModel::AtBinding(_, sub) => {
            lemma_literal_or_enum_refutable(*sub);
        },
        PatternModel::TuplePattern(elems) => {
            lemma_any_contains_refutable(elems);
        },
        PatternModel::StructPattern(_, fields, _) => {
            lemma_any_field_contains_refutable(fields);
        },
        _ => {},
    }
}

proof fn lemma_any_contains_refutable(s: Seq<PatternModel>)
    requires
        any_contains_literal_or_enum(s),
    ensures
        !all_irrefutable(s),
    decreases s,
{
    if s.len() > 0 {
        if contains_literal_or_enum(s[0]) {
            lemma_literal_or_enum_refutable(s[0]);
        } else {
            lemma_any_contains_refutable(s.drop_first());
        }
    }
}

proof fn lemma_any_field_contains_refutable(s: Seq<(Seq<char>, PatternModel)>)
    requires
        any_field_contains_literal_or_enum(s),
    ensures
        !all_fields_irrefutable(s),
    decreases s,
{
    if s.len() > 0 {
        if contains_literal_or_enum(s[0].1) {
            lemma_literal_or_enum_refutable(s[0].1);
        } else {
            lemma_any_field_contains_refutable(s.drop_first());
        }
    }
}

/// A struct pattern whose listed sub-patterns are all plain bindings is
/// irrefutable, whatever its name and rest flag.
pub proof fn lemma_struct_of_bindings_irrefutable(
    name: Seq<char>,
    fields: Seq<(Seq<char>, PatternModel)>,
    has_rest: bool,
)
    requires
        forall|i: int| 0 <= i < fields.len() ==> (#[trigger] fields[i].1) is Binding,
    ensures
        irrefutable(PatternModel::StructPattern(name, fields, has_rest)),
{
    lemma_fields_of_bindings_irrefutable(fields);
}

proof fn lemma_fields_of_bindings_irrefutable(s: Seq<(Seq<char>, PatternModel)>)
    requires
        forall|i: int| 0 <= i < s.len() ==> (#[trigger] s[i].1) is Binding,
    ensures
        all_fields_irrefutable(s),
    decreases s.len(),
{
    if s.len() > 0 {
        assert(s[0].1 is Binding);
        assert(irrefutable(s[0].1));
        assert(forall|i: int|
            0 <= i < s.drop_first().len() ==> (#[trigger] s.drop_first()[i].1)
                == s[i + 1].1);
        lemma_fields_of_bindings_irrefutable(s.drop_first());
        assert(all_fields_irrefutable(s.drop_first()));
    }
}

/// Whether a value lies in a pattern's declared domain: it has the shape the
/// pattern declares (tuple of fitting arity, struct of that name with the
/// listed fields, and so on element by element), whatever its contents.
pub open spec fn in_domain(p: PatternModel, v: ValueModel) -> bool
    decreases p via in_domain_decreases
{
    match p {
        PatternModel::Literal(_) => true,
        PatternModel::Wildcard => true,
        PatternModel::Binding(_) => true,
        PatternModel::Rest => true,
        PatternModel::Range(_, _, _) => true,
        PatternModel::Or(_) => true,
        PatternModel::EnumPattern(_, _, _) => true,
        PatternModel::Guard(sub, _) => in_domain(*sub, v),
        PatternModel::AtBinding(_, sub) => in_domain(*sub, v),
        PatternModel::TuplePattern(elems) => match v {
            ValueModel::Tuple(vs) => elems_domain(elems, vs),
            _ => false,
        },
        PatternModel::StructPattern(name, fields, has_rest) => match v {
            ValueModel::Struct(vname, vfields) => vname == name && (has_rest
                || fields_cover(fields, vfields)) && fields_domain(fields, vfields),
            _ => false,
        },
    }
}

/// Positional domain agreement of tuple elements, with the same rest-marker
/// alignment the matcher uses.
pub open spec fn elems_domain(ps: Seq<PatternModel>, vs: Seq<ValueModel>) -> bool
    decreases ps via elems_domain_decreases
{
    if ps.len() == 0 {
        vs.len() == 0
    } else if ps[0] is Rest {
        vs.len() >= ps.len() - 1 && elems_domain(
            ps.drop_first(),
            vs.skip(vs.len() - (ps.len() - 1)),
        )
    } else {
        vs.len() > 0 && in_domain(ps[0], vs[0]) && elems_domain(
            ps.drop_first(),
            vs.drop_first(),
        )
    }
}

/// Every listed field exists on the value, with domain agreement.
pub open spec fn fields_domain(
    fps: Seq<(Seq<char>, PatternModel)>,
    vfs: Seq<(Seq<char>, ValueModel)>,
) -> bool
    decreases fps via fields_domain_decreases
{
    if fps.len() == 0 {
        true
    } else {
        (match field_lookup(vfs, fps[0].0) {
            Option::Some(fv) => in_domain(fps[0].1, fv),
            Option::None => false,
        }) && fields_domain(fps.drop_first(), vfs)
    }
}

#[via_fn]
proof fn in_domain_decreases(p: PatternModel, v: ValueModel) {
    match p {
        PatternModel::TuplePattern(elems) => {
            assert(decreases_to!(p => elems));
        },
        PatternModel::StructPattern(name, fields, has_rest) => {
            assert(decreases_to!(p => fields));
        },
        _ => {},
    }
}

#[via_fn]
proof fn elems_domain_decreases(ps: Seq<PatternModel>, vs: Seq<ValueModel>) {
    if ps.len() > 0 {
        assert(decreases_to!(ps => ps[0]));
        assert(decreases_to!(ps => ps.subrange(1, ps.len() as int)));
        assert(ps.drop_first() =~= ps.subrange(1, ps.len() as int));
    }
}

#[via_fn]
proof fn fields_domain_decreases(
    fps: Seq<(Seq<char>, PatternModel)>,
    vfs: Seq<(Seq<char>, ValueModel)>,
) {
    if fps.len() > 0 {
        assert(decreases_to!(fps => fps[0]));
        assert(decreases_to!(fps[0] => fps[0].1));
        assert(decreases_to!(fps => fps.subrange(1, fps.len() as int)));
        assert(fps.drop_first() =~= fps.subrange(1, fps.len() as int));
    }
}

/// Law: the classification is sound — an irrefutable pattern matches every
/// value of its declared domain.
pub proof fn lemma_irrefutable_matches(p: PatternModel, v: ValueModel)
    requires
        irrefutable(p),
        in_domain(p, v),
    ensures
        match_pattern(p, v) is Some,
    decreases p,
{
    match p {
        PatternModel::AtBinding(_, sub) => {
            lemma_irrefutable_matches(*sub, v);
        },
        PatternModel::TuplePattern(elems) => {
            match v {
                ValueModel::Tuple(vs) => {
                    lemma_irrefutable_elements_match(elems, vs);
                },
                _ => {},
            }
        },
        PatternModel::StructPattern(_, fields, _) => {
            match v {
                ValueModel::Struct(_, vfields) => {
                    lemma_irrefutable_fields_match(fields, vfields);
                },
                _ => {},
            }
        },
        _ => {},
    }
}

proof fn lemma_irrefutable_elements_match(ps: Seq<PatternModel>, vs: Seq<ValueModel>)
    requires
        all_irrefutable(ps),
        elems_domain(ps, vs),
    ensures
        match_elements(ps, vs) is Some,
    decreases ps,
{
    if ps.len() > 0 {
        if ps[0] is Rest {
            lemma_irrefutable_elements_match(
                ps.drop_first(),
                vs.skip(vs.len() - (ps.len() - 1)),
            );
        } else {
            lemma_irrefutable_matches(ps[0], vs[0]);
            lemma_irrefutable_elements_match(ps.drop_first(), vs.drop_first());
        }
    }
}

proof fn lemma_irrefutable_fields_match(
    fps: Seq<(Seq<char>, PatternModel)>,
    vfs: Seq<(Seq<char>, ValueModel)>,
)
    requires
        all_fields_irrefutable(fps),
        fields_domain(fps, vfs),
    ensures
        match_fields(fps, vfs) is Some,
    decreases fps,
{
    if fps.len() > 0 {
        match field_lookup(vfs, fps[0].0) {
            Option::Some(fv) => {
                lemma_irrefutable_matches(fps[0].1, fv);
                lemma_irrefutable_fields_match(fps.drop_first(), vfs);
            },
            Option::None => {},
        }
    }
}

} // verus!
