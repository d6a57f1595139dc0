//! Construction-time validation of patterns: duplicate bound names,
//! inconsistent name sets across or-alternatives, misplaced or repeated rest
//! markers, and struct patterns held against a struct type's field list.
//! Violations are programmer errors, reported when the pattern is built,
//! never at match time.

use vstd::prelude::*;

use crate::pattern::{lemma_pattern_field_models_index, lemma_pattern_models_index,
    pattern_field_models, pattern_models, Pattern, PatternModel};
use crate::value::string_eq;

verus! {

/// A violated construction-time invariant, with the name it concerns.
#[derive(Debug, PartialEq)]
pub enum PatternConstructionError {
    /// One identifier is bound twice within a single (non-or) pattern.
    DuplicateBinding(String),
    /// An or-alternative binds a name set different from the first
    /// alternative's; carries a name present in one set and not the other.
    OrBindingMismatch(String),
    /// More than one rest marker in one tuple pattern.
    MultipleRestMarkers,
    /// A rest marker outside a tuple pattern's element list.
    MisplacedRest,
    /// A struct pattern lists the same field twice.
    DuplicateField(String),
    /// Without a rest flag, a struct pattern must list every field of the
    /// struct type; this field is missing.
    MissingField(String),
    /// A struct pattern lists a field the struct type does not have.
    UnknownField(String),
}

/// Whether a name occurs in a list of names.
pub open spec fn name_in(s: Seq<Seq<char>>, k: Seq<char>) -> bool
    decreases s.len(),
{
    if s.len() == 0 {
        false
    } else {
        s[0] == k || name_in(s.drop_first(), k)
    }
}

/// Whether no name occurs twice in the list.
pub open spec fn distinct_names(s: Seq<Seq<char>>) -> bool
    decreases s.len(),
{
    if s.len() == 0 {
        true
    } else {
        !name_in(s.drop_first(), s[0]) && distinct_names(s.drop_first())
    }
}

/// Whether every name of `a` occurs in `b`.
pub open spec fn all_in(a: Seq<Seq<char>>, b: Seq<Seq<char>>) -> bool
    decreases a.len(),
{
    if a.len() == 0 {
        true
    } else {
        name_in(b, a[0]) && all_in(a.drop_first(), b)
    }
}

/// Any element of a name list occurs in it.
pub proof fn lemma_name_in_index(s: Seq<Seq<char>>, i: int)
    requires
        0 <= i < s.len(),
    ensures
        name_in(s, s[i]),
    decreases s.len(),
{
    if i > 0 {
        lemma_name_in_index(s.drop_first(), i - 1);
    }
}

/// Whether two name lists describe the same set of names.
pub open spec fn name_sets_equal(a: Seq<Seq<char>>, b: Seq<Seq<char>>) -> bool {
    all_in(a, b) && all_in(b, a)
}

/// The character sequences of a list of strings.
pub open spec fn string_views(s: Seq<String>) -> Seq<Seq<char>>
    decreases s.len(),
{
    if s.len() == 0 {
        Seq::empty()
    } else {
        seq![s[0]@] + string_views(s.drop_first())
    }
}

/// Each element of `string_views(s)` is the view of the matching string.
pub proof fn lemma_string_views_index(s: Seq<String>)
    ensures
        string_views(s).len() == s.len(),
        forall|i: int| 0 <= i < s.len() ==> string_views(s)[i] == s[i]@,
    decreases s.len(),
{
    if s.len() > 0 {
        lemma_string_views_index(s.drop_first());
    }
}

/// `string_views` distributes over concatenation.
pub proof fn lemma_string_views_concat(a: Seq<String>, b: Seq<String>)
    ensures
        string_views(a + b) == string_views(a) + string_views(b),
{
    lemma_string_views_index(a);
    lemma_string_views_index(b);
    lemma_string_views_index(a + b);
    assert(string_views(a + b) =~= string_views(a) + string_views(b));
}

/// The names a pattern binds, in traversal order, counting each
/// or-alternative set once (by its first alternative).
pub open spec fn names_of(p: PatternModel) -> Seq<Seq<char>>
    decreases p via names_of_decreases
{
    match p {
        PatternModel::Literal(_) => Seq::empty(),
        PatternModel::Wildcard => Seq::empty(),
        PatternModel::Rest => Seq::empty(),
        PatternModel::Range(_, _, _) => Seq::empty(),
        PatternModel::Binding(n) => seq![n],
        PatternModel::AtBinding(n, sub) => names_of(*sub).push(n),
        PatternModel::Or(alts) => if alts.len() == 0 {
            Seq::empty()
        } else {
            names_of(alts[0])
        },
        PatternModel::TuplePattern(elems) => seq_names_of(elems),
        PatternModel::StructPattern(_, fields, _) => field_names_of(fields),
        PatternModel::EnumPattern(_, _, payload) => match payload {
            Option::None => Seq::empty(),
            Option::Some(pp) => names_of(*pp),
        },
        PatternModel::Guard(sub, _) => names_of(*sub),
    }
}

/// The names bound by a sequence of patterns, concatenated.
pub open spec fn seq_names_of(s: Seq<PatternModel>) -> Seq<Seq<char>>
    decreases s via seq_names_of_decreases
{
    if s.len() == 0 {
        Seq::empty()
    } else {
        names_of(s[0]) + seq_names_of(s.drop_first())
    }
}

/// The names bound by a sequence of field patterns, concatenated.
pub open spec fn field_names_of(s: Seq<(Seq<char>, PatternModel)>) -> Seq<Seq<char>>
    decreases s via field_names_of_decreases
{
    if s.len() == 0 {
        Seq::empty()
    } else {
        names_of(s[0].1) + field_names_of(s.drop_first())
    }
}

/// The listed field names of a struct pattern, in order.
pub open spec fn field_names(s: Seq<(Seq<char>, PatternModel)>) -> Seq<Seq<char>>
    decreases s.len(),
{
    if s.len() == 0 {
        Seq::empty()
    } else {
        seq![s[0].0] + field_names(s.drop_first())
    }
}

/// How many rest markers a sequence of patterns holds.
pub open spec fn rest_count(s: Seq<PatternModel>) -> nat
    decreases s.len(),
{
    if s.len() == 0 {
        0
    } else {
        (if s[0] is Rest {
            1nat
        } else {
            0nat
        }) + rest_count(s.drop_first())
    }
}

/// There are never more rest markers than elements.
pub proof fn lemma_rest_count_bound(s: Seq<PatternModel>)
    ensures
        rest_count(s) <= s.len(),
    decreases s.len(),
{
    if s.len() > 0 {
        lemma_rest_count_bound(s.drop_first());
    }
}

#[via_fn]
proof fn names_of_decreases(p: PatternModel) {
    match p {
        PatternModel::Or(alts) => {
            if alts.len() > 0 {
                assert(decreases_to!(p => alts));
                assert(decreases_to!(alts => alts[0]));
            }
        },
        PatternModel::EnumPattern(name, tag, payload) => match payload {
            Option::Some(pp) => {
                assert(decreases_to!(p => payload));
                assert(decreases_to!(payload => pp));
            },
            Option::None => {},
        },
        _ => {},
    }
}

#[via_fn]
proof fn seq_names_of_decreases(s: Seq<PatternModel>) {
    if s.len() > 0 {
        assert(decreases_to!(s => s[0]));
        assert(decreases_to!(s => s.subrange(1, s.len() as int)));
        assert(s.drop_first() =~= s.subrange(1, s.len() as int));
    }
}

#[via_fn]
proof fn field_names_of_decreases(s: Seq<(Seq<char>, PatternModel)>) {
    if s.len() > 0 {
        assert(decreases_to!(s => s[0]));
        assert(decreases_to!(s[0] => s[0].1));
        assert(decreases_to!(s => s.subrange(1, s.len() as int)));
        assert(s.drop_first() =~= s.subrange(1, s.len() as int));
    }
}

/// A valid pattern: no rest marker outside a tuple and at most one inside,
/// no identifier bound twice within one (non-or) pattern, and every
/// or-alternative binding the same name set, each listed struct field once.
pub open spec fn valid_pattern(p: PatternModel) -> bool
    decreases p via valid_pattern_decreases
{
    match p {
        PatternModel::Literal(_) => true,
        PatternModel::Wildcard => true,
        PatternModel::Binding(_) => true,
        PatternModel::Range(_, _, _) => true,
        PatternModel::Rest => false,
        PatternModel::AtBinding(n, sub) => valid_pattern(*sub) && !name_in(
            names_of(*sub),
            n,
        ),
        PatternModel::Or(alts) => if alts.len() == 0 {
            true
        } else {
            valid_alternatives(alts, names_of(alts[0]))
        },
        PatternModel::TuplePattern(elems) => elements_valid(elems) && rest_count(elems)
            <= 1 && distinct_names(seq_names_of(elems)),
        PatternModel::StructPattern(_, fields, _) => field_patterns_valid(fields)
            && distinct_names(field_names(fields)) && distinct_names(field_names_of(fields)),
        PatternModel::EnumPattern(_, _, payload) => match payload {
            Option::None => true,
            Option::Some(pp) => valid_pattern(*pp),
        },
        PatternModel::Guard(sub, _) => valid_pattern(*sub),
    }
}

/// Every alternative is valid and binds the same name set as the first.
pub open spec fn valid_alternatives(alts: Seq<PatternModel>, base: Seq<Seq<char>>) -> bool
    decreases alts via valid_alternatives_decreases
{
    if alts.len() == 0 {
        true
    } else {
        valid_pattern(alts[0]) && name_sets_equal(names_of(alts[0]), base)
            && valid_alternatives(alts.drop_first(), base)
    }
}

/// Every element is a rest marker or a valid pattern.
pub open spec fn elements_valid(s: Seq<PatternModel>) -> bool
    decreases s via elements_valid_decreases
{
    if s.len() == 0 {
        true
    } else {
        (s[0] is Rest || valid_pattern(s[0])) && elements_valid(s.drop_first())
    }
}

/// Every field pattern is valid.
pub open spec fn field_patterns_valid(s: Seq<(Seq<char>, PatternModel)>) -> bool
    decreases s via field_patterns_valid_decreases
{
    if s.len() == 0 {
        true
    } else {
        valid_pattern(s[0].1) && field_patterns_valid(s.drop_first())
    }
}

#[via_fn]
proof fn valid_pattern_decreases(p: PatternModel) {
    match p {
        PatternModel::EnumPattern(name, tag, payload) => match payload {
            Option::Some(pp) => {
                assert(decreases_to!(p => payload));
                assert(decreases_to!(payload => pp));
            },
            Option::None => {},
        },
        _ => {},
    }
}

#[via_fn]
proof fn valid_alternatives_decreases(alts: Seq<PatternModel>, base: Seq<Seq<char>>) {
    if alts.len() > 0 {
        assert(decreases_to!(alts => alts[0]));
        assert(decreases_to!(alts => alts.subrange(1, alts.len() as int)));
        assert(alts.drop_first() =~= alts.subrange(1, alts.len() as int));
    }
}

#[via_fn]
proof fn elements_valid_decreases(s: Seq<PatternModel>) {
    if s.len() > 0 {
        assert(decreases_to!(s => s[0]));
        assert(decreases_to!(s => s.subrange(1, s.len() as int)));
        assert(s.drop_first() =~= s.subrange(1, s.len() as int));
    }
}

#[via_fn]
proof fn field_patterns_valid_decreases(s: Seq<(Seq<char>, PatternModel)>) {
    if s.len() > 0 {
        assert(decreases_to!(s => s[0]));
        assert(decreases_to!(s[0] => s[0].1));
        assert(decreases_to!(s => s.subrange(1, s.len() as int)));
        assert(s.drop_first() =~= s.subrange(1, s.len() as int));
    }
}

#[verifier::loop_isolation(false)]
fn name_in_from(names: &Vec<String>, start: usize, k: &String) -> (r: bool)
    requires
        start <= names@.len(),
    ensures
        r == name_in(string_views(names@).skip(start as int), k@),
{
    proof {
        lemma_string_views_index(names@);
    }
    let ghost m = string_views(names@);
    let mut i: usize = start;
    while i < names.len()
        invariant
            start <= i <= names@.len(),
            name_in(m.skip(start as int), k@) == name_in(m.skip(i as int), k@),
        decreases names@.len() - i,
    {
        if string_eq(&names[i], k) {
            proof {
                assert(m.skip(i as int)[0] == k@);
            }
            return true;
        }
        proof {
            assert(m.skip(i as int)[0] != k@);
            assert(m.skip(i as int).drop_first() =~= m.skip(i as int + 1));
        }
        i += 1;
    }
    proof {
        assert(m.skip(names@.len() as int).len() == 0);
    }
    false
}

fn name_in_vec(names: &Vec<String>, k: &String) -> (r: bool)
    ensures
        r == name_in(string_views(names@), k@),
{
    let r = name_in_from(names, 0, k);
    proof {
        assert(string_views(names@).skip(0) =~= string_views(names@));
    }
    r
}

/// The first name that occurs twice, if any; `None` exactly when the names
/// are pairwise distinct.
#[verifier::loop_isolation(false)]
fn find_duplicate(names: &Vec<String>) -> (r: Option<String>)
    ensures
        (r is None) == distinct_names(string_views(names@)),
        (r matches Option::Some(x) ==> name_in(string_views(names@), x@)),
{
    proof {
        lemma_string_views_index(names@);
    }
    let ghost m = string_views(names@);
    let mut i: usize = 0;
    proof {
        assert(m.skip(0) =~= m);
    }
    while i < names.len()
        invariant
            i <= names@.len(),
            distinct_names(m) == distinct_names(m.skip(i as int)),
        decreases names@.len() - i,
    {
        proof {
            assert(m.skip(i as int)[0] == m[i as int]);
            assert(m.skip(i as int).drop_first() =~= m.skip(i as int + 1));
        }
        if name_in_from(names, i + 1, &names[i]) {
            proof {
                lemma_name_in_index(m, i as int);
            }
            return Option::Some(names[i].clone());
        }
        i += 1;
    }
    proof {
        assert(m.skip(names@.len() as int).len() == 0);
    }
    Option::None
}

/// The first name of `a` that does not occur in `b`, if any; `None` exactly
/// when every name of `a` occurs in `b`.
#[verifier::loop_isolation(false)]
fn find_missing(a: &Vec<String>, b: &Vec<String>) -> (r: Option<String>)
    ensures
        (r is None) == all_in(string_views(a@), string_views(b@)),
        (r matches Option::Some(x) ==> name_in(string_views(a@), x@) && !name_in(
            string_views(b@),
            x@,
        )),
{
    proof {
        lemma_string_views_index(a@);
    }
    let ghost ma = string_views(a@);
    let ghost mb = string_views(b@);
    let mut i: usize = 0;
    proof {
        assert(ma.skip(0) =~= ma);
    }
    while i < a.len()
        invariant
            i <= a@.len(),
            all_in(ma, mb) == all_in(ma.skip(i as int), mb),
        decreases a@.len() - i,
    {
        proof {
            assert(ma.skip(i as int)[0] == ma[i as int]);
            assert(ma.skip(i as int).drop_first() =~= ma.skip(i as int + 1));
        }
        if !name_in_vec(b, &a[i]) {
            proof {
                lemma_name_in_index(ma, i as int);
            }
            return Option::Some(a[i].clone());
        }
        i += 1;
    }
    proof {
        assert(ma.skip(a@.len() as int).len() == 0);
    }
    Option::None
}

/// The names a pattern binds, as strings.
pub fn collect_names(p: &Pattern) -> (r: Vec<String>)
    ensures
        string_views(r@) == names_of(p@),
    decreases p, 0int,
{
    match p {
        Pattern::Literal(_) => Vec::new(),
        Pattern::Wildcard => Vec::new(),
        Pattern::Rest => Vec::new(),
        Pattern::Range(_, _, _) => Vec::new(),
        Pattern::Binding(n) => {
            let mut r: Vec<String> = Vec::new();
            r.push(n.clone());
            proof {
                lemma_string_views_index(r@);
                assert(string_views(r@) =~= seq![n@]);
            }
            r
        },
        Pattern::AtBinding(n, sub) => {
            let mut r = collect_names(&**sub);
            let ghost before = r@;
            r.push(n.clone());
            proof {
                let pushed = r@[before.len() as int];
                assert(pushed@ == n@);
                assert(r@ =~= before + seq![pushed]);
                lemma_string_views_concat(before, seq![pushed]);
                lemma_string_views_index(seq![pushed]);
                assert(string_views(seq![pushed]) =~= seq![n@]);
                assert(string_views(r@) =~= names_of((**sub)@).push(n@));
            }
            r
        },
        Pattern::Or(alts) => collect_or_names(alts),
        Pattern::TuplePattern(elems) => {
            let r = collect_elem_names(elems, 0);
            proof {
                assert(pattern_models(elems@).skip(0) =~= pattern_models(elems@));
            }
            r
        },
        Pattern::StructPattern(_, fields, _) => {
            let r = collect_field_bound_names(fields, 0);
            proof {
                assert(pattern_field_models(fields@).skip(0) =~= pattern_field_models(
                    fields@,
                ));
            }
            r
        },
        Pattern::EnumPattern(_, _, payload) => match payload {
            Option::None => Vec::new(),
            Option::Some(pp) => collect_names(&**pp),
        },
        Pattern::Guard(sub, _) => collect_names(&**sub),
    }
}

fn collect_or_names(alts: &Vec<Pattern>) -> (r: Vec<String>)
    ensures
        string_views(r@) == (if alts@.len() == 0 {
            Seq::<Seq<char>>::empty()
        } else {
            names_of(pattern_models(alts@)[0])
        }),
    decreases alts, 0int,
{
    proof {
        lemma_pattern_models_index(alts@);
    }
    if alts.len() == 0 {
        Vec::new()
    } else {
        collect_names(&alts[0])
    }
}

fn collect_elem_names(ps: &Vec<Pattern>, i: usize) -> (r: Vec<String>)
    requires
        i <= ps@.len(),
    ensures
        string_views(r@) == seq_names_of(pattern_models(ps@).skip(i as int)),
    decreases ps, ps@.len() - i,
{
    proof {
        lemma_pattern_models_index(ps@);
    }
    let ghost sp = pattern_models(ps@).skip(i as int);
    if i == ps.len() {
        proof {
            assert(sp.len() == 0);
        }
        return Vec::new();
    }
    proof {
        assert(sp[0] == pattern_models(ps@)[i as int]);
        assert(sp.drop_first() =~= pattern_models(ps@).skip(i as int + 1));
    }
    let mut head = collect_names(&ps[i]);
    let mut tail = collect_elem_names(ps, i + 1);
    let ghost hs = head@;
    let ghost ts = tail@;
    head.append(&mut tail);
    proof {
        lemma_string_views_concat(hs, ts);
    }
    head
}

fn collect_field_bound_names(fps: &Vec<(String, Pattern)>, i: usize) -> (r: Vec<String>)
    requires
        i <= fps@.len(),
    ensures
        string_views(r@) == field_names_of(pattern_field_models(fps@).skip(i as int)),
    decreases fps, fps@.len() - i,
{
    proof {
        lemma_pattern_field_models_index(fps@);
    }
    let ghost sp = pattern_field_models(fps@).skip(i as int);
    if i == fps.len() {
        proof {
            assert(sp.len() == 0);
        }
        return Vec::new();
    }
    proof {
        assert(sp[0] == pattern_field_models(fps@)[i as int]);
        assert(sp.drop_first() =~= pattern_field_models(fps@).skip(i as int + 1));
    }
    let mut head = collect_names(&fps[i].1);
    let mut tail = collect_field_bound_names(fps, i + 1);
    let ghost hs = head@;
    let ghost ts = tail@;
    head.append(&mut tail);
    proof {
        lemma_string_views_concat(hs, ts);
    }
    head
}

fn collect_listed_names(fps: &Vec<(String, Pattern)>, i: usize) -> (r: Vec<String>)
    requires
        i <= fps@.len(),
    ensures
        string_views(r@) == field_names(pattern_field_models(fps@).skip(i as int)),
    decreases fps@.len() - i,
{
    proof {
        lemma_pattern_field_models_index(fps@);
    }
    let ghost sp = pattern_field_models(fps@).skip(i as int);
    if i == fps.len() {
        proof {
            assert(sp.len() == 0);
        }
        return Vec::new();
    }
    proof {
        assert(sp[0] == pattern_field_models(fps@)[i as int]);
        assert(sp.drop_first() =~= pattern_field_models(fps@).skip(i as int + 1));
    }
    let mut head: Vec<String> = Vec::new();
    head.push(fps[i].0.clone());
    let mut tail = collect_listed_names(fps, i + 1);
    let ghost hs = head@;
    let ghost ts = tail@;
    head.append(&mut tail);
    proof {
        lemma_string_views_index(hs);
        assert(string_views(hs) =~= seq![sp[0].0]);
        lemma_string_views_concat(hs, ts);
    }
    head
}

fn count_rests(ps: &Vec<Pattern>, i: usize) -> (r: usize)
    requires
        i <= ps@.len(),
    ensures
        r == rest_count(pattern_models(ps@).skip(i as int)),
        r <= ps@.len() - i,
    decreases ps@.len() - i,
{
    proof {
        lemma_pattern_models_index(ps@);
        lemma_rest_count_bound(pattern_models(ps@).skip(i as int));
    }
    let ghost sp = pattern_models(ps@).skip(i as int);
    if i == ps.len() {
        proof {
            assert(sp.len() == 0);
        }
        return 0;
    }
    proof {
        assert(sp[0] == pattern_models(ps@)[i as int]);
        assert(sp.drop_first() =~= pattern_models(ps@).skip(i as int + 1));
    }
    let tail = count_rests(ps, i + 1);
    if matches!(&ps[i], Pattern::Rest) {
        tail + 1
    } else {
        tail
    }
}

/// Validate a pattern: `Ok` exactly when the pattern satisfies every
/// construction-time invariant; otherwise the first violation found.
pub fn validate(p: &Pattern) -> (r: Result<(), PatternConstructionError>)
    ensures
        (r is Ok) == valid_pattern(p@),
        (r matches Result::Err(e) ==> !(e is UnknownField) && !(e is MissingField)),
    decreases p, 0int,
{
    match p {
        Pattern::Literal(_) => Result::Ok(()),
        Pattern::Wildcard => Result::Ok(()),
        Pattern::Binding(_) => Result::Ok(()),
        Pattern::Range(_, _, _) => Result::Ok(()),
        Pattern::Rest => Result::Err(PatternConstructionError::MisplacedRest),
        Pattern::AtBinding(n, sub) => {
            proof {
                assert(p@ == PatternModel::AtBinding(n@, Box::new((**sub)@)));
            }
            match validate(&**sub) {
                Result::Err(e) => Result::Err(e),
                Result::Ok(()) => {
                    let names = collect_names(&**sub);
                    if name_in_vec(&names, n) {
                        Result::Err(PatternConstructionError::DuplicateBinding(n.clone()))
                    } else {
                        Result::Ok(())
                    }
                },
            }
        },
        Pattern::Or(alts) => {
            proof {
                assert(pattern_models(alts@).skip(0) =~= pattern_models(alts@));
                lemma_pattern_models_index(alts@);
            }
            if alts.len() == 0 {
                Result::Ok(())
            } else {
                let base = collect_or_names(alts);
                check_alternatives(alts, 0, &base)
            }
        },
        Pattern::TuplePattern(elems) => {
            proof {
                assert(pattern_models(elems@).skip(0) =~= pattern_models(elems@));
            }
            match validate_elements(elems, 0) {
                Result::Err(e) => Result::Err(e),
                Result::Ok(()) => {
                    let rests = count_rests(elems, 0);
                    if rests > 1 {
                        Result::Err(PatternConstructionError::MultipleRestMarkers)
                    } else {
                        let names = collect_elem_names(elems, 0);
                        match find_duplicate(&names) {
                            Option::Some(d) => Result::Err(
                                PatternConstructionError::DuplicateBinding(d),
                            ),
                            Option::None => Result::Ok(()),
                        }
                    }
                },
            }
        },
        Pattern::StructPattern(_, fields, _) => {
            proof {
                assert(pattern_field_models(fields@).skip(0) =~= pattern_field_models(
                    fields@,
                ));
            }
            match validate_fields(fields, 0) {
                Result::Err(e) => Result::Err(e),
                Result::Ok(()) => {
                    let listed = collect_listed_names(fields, 0);
                    match find_duplicate(&listed) {
                        Option::Some(d) => Result::Err(
                            PatternConstructionError::DuplicateField(d),
                        ),
                        Option::None => {
                            let bound = collect_field_bound_names(fields, 0);
                            match find_duplicate(&bound) {
                                Option::Some(d) => Result::Err(
                                    PatternConstructionError::DuplicateBinding(d),
                                ),
                                Option::None => Result::Ok(()),
                            }
                        },
                    }
                },
            }
        },
        Pattern::EnumPattern(_, _, payload) => match payload {
            Option::None => Result::Ok(()),
            Option::Some(pp) => {
                proof {
                    assert(p@ is EnumPattern);
                }
                validate(&**pp)
            },
        },
        Pattern::Guard(sub, g) => {
            proof {
                assert(p@ == PatternModel::Guard(Box::new((**sub)@), g@));
            }
            validate(&**sub)
        },
    }
}

fn check_alternatives(alts: &Vec<Pattern>, i: usize, base: &Vec<String>) -> (r: Result<
    (),
    PatternConstructionError,
>)
    requires
        i <= alts@.len(),
    ensures
        (r is Ok) == valid_alternatives(
            pattern_models(alts@).skip(i as int),
            string_views(base@),
        ),
        (r matches Result::Err(e) ==> !(e is UnknownField) && !(e is MissingField)),
    decreases alts, alts@.len() - i,
{
    proof {
        lemma_pattern_models_index(alts@);
    }
    let ghost sp = pattern_models(alts@).skip(i as int);
    if i == alts.len() {
        proof {
            assert(sp.len() == 0);
        }
        return Result::Ok(());
    }
    proof {
        assert(sp[0] == pattern_models(alts@)[i as int]);
        assert(sp.drop_first() =~= pattern_models(alts@).skip(i as int + 1));
    }
    match validate(&alts[i]) {
        Result::Err(e) => Result::Err(e),
        Result::Ok(()) => {
            let names = collect_names(&alts[i]);
            match find_missing(&names, base) {
                Option::Some(x) => Result::Err(PatternConstructionError::OrBindingMismatch(x)),
                Option::None => match find_missing(base, &names) {
                    Option::Some(x) => Result::Err(
                        PatternConstructionError::OrBindingMismatch(x),
                    ),
                    Option::None => check_alternatives(alts, i + 1, base),
                },
            }
        },
    }
}

fn validate_elements(ps: &Vec<Pattern>, i: usize) -> (r: Result<
    (),
    PatternConstructionError,
>)
    requires
        i <= ps@.len(),
    ensures
        (r is Ok) == elements_valid(pattern_models(ps@).skip(i as int)),
        (r matches Result::Err(e) ==> !(e is UnknownField) && !(e is MissingField)),
    decreases ps, ps@.len() - i,
{
    proof {
        lemma_pattern_models_index(ps@);
    }
    let ghost sp = pattern_models(ps@).skip(i as int);
    if i == ps.len() {
        proof {
            assert(sp.len() == 0);
        }
        return Result::Ok(());
    }
    proof {
        assert(sp[0] == pattern_models(ps@)[i as int]);
        assert(sp.drop_first() =~= pattern_models(ps@).skip(i as int + 1));
    }
    if matches!(&ps[i], Pattern::Rest) {
        return validate_elements(ps, i + 1);
    }
    match validate(&ps[i]) {
        Result::Err(e) => Result::Err(e),
        Result::Ok(()) => validate_elements(ps, i + 1),
    }
}

fn validate_fields(fps: &Vec<(String, Pattern)>, i: usize) -> (r: Result<
    (),
    PatternConstructionError,
>)
    requires
        i <= fps@.len(),
    ensures
        (r is Ok) == field_patterns_valid(pattern_field_models(fps@).skip(i as int)),
        (r matches Result::Err(e) ==> !(e is UnknownField) && !(e is MissingField)),
    decreases fps, fps@.len() - i,
{
    proof {
        lemma_pattern_field_models_index(fps@);
    }
    let ghost sp = pattern_field_models(fps@).skip(i as int);
    if i == fps.len() {
        proof {
            assert(sp.len() == 0);
        }
        return Result::Ok(());
    }
    proof {
        assert(sp[0] == pattern_field_models(fps@)[i as int]);
        assert(sp.drop_first() =~= pattern_field_models(fps@).skip(i as int + 1));
    }
    match validate(&fps[i].1) {
        Result::Err(e) => Result::Err(e),
        Result::Ok(()) => validate_fields(fps, i + 1),
    }
}

/// The struct pattern fits the struct type: every listed field is a field of
/// the type, and (without the rest flag) every field of the type is listed.
pub open spec fn covers_type(
    fields: Seq<(Seq<char>, PatternModel)>,
    has_rest: bool,
    type_fields: Seq<Seq<char>>,
) -> bool {
    all_in(field_names(fields), type_fields) && (has_rest || all_in(
        type_fields,
        field_names(fields),
    ))
}

/// Build a struct pattern for a struct type with the given field names:
/// `Ok` exactly when the pattern is valid and fits the type; the error names
/// the missing, unknown or duplicated field. This is the construction-time
/// check that a struct pattern without a rest flag lists every field.
pub fn struct_pattern_for_type(
    name: String,
    fields: Vec<(String, Pattern)>,
    has_rest: bool,
    type_fields: &Vec<String>,
) -> (r: Result<Pattern, PatternConstructionError>)
    ensures
        (r is Ok) == (valid_pattern(
            PatternModel::StructPattern(name@, pattern_field_models(fields@), has_rest),
        ) && covers_type(
            pattern_field_models(fields@),
            has_rest,
            string_views(type_fields@),
        )),
        (r matches Result::Ok(p) ==> p@ == PatternModel::StructPattern(
            name@,
            pattern_field_models(fields@),
            has_rest,
        )),
        (r matches Result::Err(PatternConstructionError::UnknownField(f)) ==> name_in(
            field_names(pattern_field_models(fields@)),
            f@,
        ) && !name_in(string_views(type_fields@), f@)),
        (r matches Result::Err(PatternConstructionError::MissingField(f)) ==> !has_rest
            && name_in(string_views(type_fields@), f@) && !name_in(
            field_names(pattern_field_models(fields@)),
            f@,
        )),
{
    proof {
        assert(pattern_field_models(fields@).skip(0) =~= pattern_field_models(fields@));
    }
    let listed = collect_listed_names(&fields, 0);
    match find_missing(&listed, type_fields) {
        Option::Some(x) => Result::Err(PatternConstructionError::UnknownField(x)),
        Option::None => {
            if !has_rest {
                match find_missing(type_fields, &listed) {
                    Option::Some(x) => {
                        return Result::Err(PatternConstructionError::MissingField(x));
                    },
                    Option::None => {},
                }
            }
            let p = Pattern::StructPattern(name, fields, has_rest);
            match validate(&p) {
                Result::Err(e) => Result::Err(e),
                Result::Ok(()) => Result::Ok(p),
            }
        },
    }
}

} // verus!
