//! The matcher: a recursive evaluator over a pattern tree and a value tree,
//! producing either a binding set or a definitive non-match, and a
//! first-match-wins evaluator over a list of match arms.

use vstd::prelude::*;

use crate::bindings::{BindingMap, Bindings};
use crate::pattern::{CmpOp, GuardExpr, GuardModel, Operand, OperandModel, Pattern,
    PatternModel, RangeEnd, RangeEndModel};
use crate::pattern::{lemma_pattern_field_models_index, lemma_pattern_models_index,
    pattern_field_models, pattern_models};
use crate::value::{clone_value, field_models, lemma_field_models_index,
    lemma_value_models_index, string_eq, value_eq, value_model, value_models, Value,
    ValueModel};

verus! {

/// Whether a range with the given ends admits the value. Only integers fall
/// in integer ranges and only characters in character ranges; any other
/// combination is a non-match.
pub open spec fn range_matches(
    lo: RangeEndModel,
    hi: RangeEndModel,
    inclusive: bool,
    v: ValueModel,
) -> bool {
    match (lo, hi, v) {
        (RangeEndModel::IntEnd(a), RangeEndModel::IntEnd(b), ValueModel::Integer(x)) => a <= x
            && (x < b || (inclusive && x == b)),
        (RangeEndModel::CharEnd(a), RangeEndModel::CharEnd(b), ValueModel::Char(c)) => (a
            as u32) <= (c as u32) && ((c as u32) < (b as u32) || (inclusive && c == b)),
        _ => false,
    }
}

/// The value an operand denotes under a binding set: a bound name's value,
/// or the constant itself. An unbound name denotes nothing.
pub open spec fn operand_value(o: OperandModel, bs: BindingMap) -> Option<ValueModel> {
    match o {
        OperandModel::Var(n) => if bs.contains_key(n) {
            Option::Some(bs[n])
        } else {
            Option::None
        },
        OperandModel::Lit(v) => Option::Some(v),
    }
}

/// Whether the comparison holds. Equality is structural; the ordering
/// operators hold only between two integers or two characters.
pub open spec fn compare_values(op: CmpOp, a: ValueModel, b: ValueModel) -> bool {
    match op {
        CmpOp::EqOp => a == b,
        CmpOp::NeOp => a != b,
        _ => match (a, b) {
            (ValueModel::Integer(x), ValueModel::Integer(y)) => match op {
                CmpOp::LtOp => x < y,
                CmpOp::LeOp => x <= y,
                CmpOp::GtOp => x > y,
                CmpOp::GeOp => x >= y,
                _ => false,
            },
            (ValueModel::Char(x), ValueModel::Char(y)) => match op {
                CmpOp::LtOp => (x as u32) < (y as u32),
                CmpOp::LeOp => (x as u32) <= (y as u32),
                CmpOp::GtOp => (x as u32) > (y as u32),
                CmpOp::GeOp => (x as u32) >= (y as u32),
                _ => false,
            },
            _ => false,
        },
    }
}

/// Whether a guard predicate holds over a binding set. A comparison whose
/// operand names an unbound identifier does not hold.
pub open spec fn guard_holds(g: GuardModel, bs: BindingMap) -> bool
    decreases g,
{
    match g {
        GuardModel::ConstBool(b) => b,
        GuardModel::Not(e) => !guard_holds(*e, bs),
        GuardModel::AndExpr(a, b) => guard_holds(*a, bs) && guard_holds(*b, bs),
        GuardModel::OrExpr(a, b) => guard_holds(*a, bs) || guard_holds(*b, bs),
        GuardModel::Cmp(op, l, r) => match (operand_value(l, bs), operand_value(r, bs)) {
            (Option::Some(a), Option::Some(b)) => compare_values(op, a, b),
            _ => false,
        },
    }
}

/// The value of the first field with the given name, if any.
pub open spec fn field_lookup(
    vfs: Seq<(Seq<char>, ValueModel)>,
    name: Seq<char>,
) -> Option<ValueModel>
    decreases vfs.len(),
{
    if vfs.len() == 0 {
        Option::None
    } else if vfs[0].0 == name {
        Option::Some(vfs[0].1)
    } else {
        field_lookup(vfs.drop_first(), name)
    }
}

/// Whether some listed field pattern carries the given name.
pub open spec fn has_field_name(
    fps: Seq<(Seq<char>, PatternModel)>,
    name: Seq<char>,
) -> bool
    decreases fps.len(),
{
    if fps.len() == 0 {
        false
    } else if fps[0].0 == name {
        true
    } else {
        has_field_name(fps.drop_first(), name)
    }
}

/// Every field of the value is listed in the pattern.
pub open spec fn fields_cover(
    fps: Seq<(Seq<char>, PatternModel)>,
    vfs: Seq<(Seq<char>, ValueModel)>,
) -> bool {
    forall|j: int| 0 <= j < vfs.len() ==> has_field_name(fps, #[trigger] vfs[j].0)
}

/// The outcome of matching one pattern against one value: the bindings of a
/// successful match, or `None` for a definitive non-match.
pub open spec fn match_pattern(p: PatternModel, v: ValueModel) -> Option<BindingMap>
    decreases p via match_pattern_decreases
{
    match p {
        PatternModel::Literal(l) => if v == l {
            Option::Some(Map::empty())
        } else {
            Option::None
        },
        PatternModel::Wildcard => Option::Some(Map::empty()),
        PatternModel::Rest => Option::Some(Map::empty()),
        PatternModel::Binding(n) => Option::Some(Map::empty().insert(n, v)),
        PatternModel::AtBinding(n, sub) => match match_pattern(*sub, v) {
            Option::Some(bs) => Option::Some(bs.insert(n, v)),
            Option::None => Option::None,
        },
        PatternModel::Range(lo, hi, inclusive) => if range_matches(lo, hi, inclusive, v) {
            Option::Some(Map::empty())
        } else {
            Option::None
        },
        PatternModel::Or(alts) => match_alternatives(alts, v),
        PatternModel::TuplePattern(elems) => match v {
            ValueModel::Tuple(vs) => match_elements(elems, vs),
            _ => Option::None,
        },
        PatternModel::StructPattern(name, fields, has_rest) => match v {
            ValueModel::Struct(vname, vfields) => if vname == name && (has_rest
                || fields_cover(fields, vfields)) {
                match_fields(fields, vfields)
            } else {
                Option::None
            },
            _ => Option::None,
        },
        PatternModel::EnumPattern(name, tag, payload) => match v {
            ValueModel::Enum(vname, vtag, vpayload) => if vname == name && vtag == tag {
                match (payload, vpayload) {
                    (Option::None, Option::None) => Option::Some(Map::empty()),
                    (Option::Some(pp), Option::Some(pv)) => match_pattern(*pp, *pv),
                    _ => Option::None,
                }
            } else {
                Option::None
            },
            _ => Option::None,
        },
        PatternModel::Guard(sub, g) => match match_pattern(*sub, v) {
            Option::Some(bs) => if guard_holds(g, bs) {
                Option::Some(bs)
            } else {
                Option::None
            },
            Option::None => Option::None,
        },
    }
}

/// The outcome of an or-pattern: the first alternative that matches wins;
/// later alternatives are never consulted.
pub open spec fn match_alternatives(alts: Seq<PatternModel>, v: ValueModel) -> Option<
    BindingMap,
>
    decreases alts via match_alternatives_decreases
{
    if alts.len() == 0 {
        Option::None
    } else {
        match match_pattern(alts[0], v) {
            Option::Some(bs) => Option::Some(bs),
            Option::None => match_alternatives(alts.drop_first(), v),
        }
    }
}

/// The outcome of matching tuple elements positionally. A `Rest` marker
/// consumes as many middle values as needed for the patterns after it to
/// align with the trailing values; it binds nothing.
pub open spec fn match_elements(ps: Seq<PatternModel>, vs: Seq<ValueModel>) -> Option<
    BindingMap,
>
    decreases ps via match_elements_decreases
{
    if ps.len() == 0 {
        if vs.len() == 0 {
            Option::Some(Map::empty())
        } else {
            Option::None
        }
    } else if ps[0] is Rest {
        let after = ps.len() - 1;
        if vs.len() < after {
            Option::None
        } else {
            match_elements(ps.drop_first(), vs.skip(vs.len() - after))
        }
    } else if vs.len() == 0 {
        Option::None
    } else {
        match match_pattern(ps[0], vs[0]) {
            Option::Some(b1) => match match_elements(ps.drop_first(), vs.drop_first()) {
                Option::Some(b2) => Option::Some(b1.union_prefer_right(b2)),
                Option::None => Option::None,
            },
            Option::None => Option::None,
        }
    }
}

/// The outcome of matching the listed struct fields: each listed field must
/// exist on the value and its pattern must match that field's value.
pub open spec fn match_fields(
    fps: Seq<(Seq<char>, PatternModel)>,
    vfs: Seq<(Seq<char>, ValueModel)>,
) -> Option<BindingMap>
    decreases fps via match_fields_decreases
{
    if fps.len() == 0 {
        Option::Some(Map::empty())
    } else {
        match field_lookup(vfs, fps[0].0) {
            Option::Some(fv) => match match_pattern(fps[0].1, fv) {
                Option::Some(b1) => match match_fields(fps.drop_first(), vfs) {
                    Option::Some(b2) => Option::Some(b1.union_prefer_right(b2)),
                    Option::None => Option::None,
                },
                Option::None => Option::None,
            },
            Option::None => Option::None,
        }
    }
}

#[via_fn]
proof fn match_pattern_decreases(p: PatternModel, v: ValueModel) {
    match p {
        PatternModel::EnumPattern(name, tag, payload) => match payload {
            Option::Some(pp) => {
                assert(decreases_to!(p => payload));
                assert(decreases_to!(payload => pp));
            },
            Option::None => {},
        },
        _ => {},
    }
}

#[via_fn]
proof fn match_alternatives_decreases(alts: Seq<PatternModel>, v: ValueModel) {
    if alts.len() > 0 {
        assert(decreases_to!(alts => alts[0]));
        assert(decreases_to!(alts => alts.subrange(1, alts.len() as int)));
        assert(alts.drop_first() =~= alts.subrange(1, alts.len() as int));
    }
}

#[via_fn]
proof fn match_elements_decreases(ps: Seq<PatternModel>, vs: Seq<ValueModel>) {
    if ps.len() > 0 {
        assert(decreases_to!(ps => ps[0]));
        assert(decreases_to!(ps => ps.subrange(1, ps.len() as int)));
        assert(ps.drop_first() =~= ps.subrange(1, ps.len() as int));
    }
}

#[via_fn]
proof fn match_fields_decreases(
    fps: Seq<(Seq<char>, PatternModel)>,
    vfs: Seq<(Seq<char>, ValueModel)>,
) {
    if fps.len() > 0 {
        assert(decreases_to!(fps => fps[0]));
        assert(decreases_to!(fps[0] => fps[0].1));
        assert(decreases_to!(fps => fps.subrange(1, fps.len() as int)));
        assert(fps.drop_first() =~= fps.subrange(1, fps.len() as int));
    }
}

/// The outcome of one match attempt: the bindings of a successful match, or
/// a definitive non-match.
#[derive(Debug)]
pub enum MatchOutcome {
    /// The pattern matched; here are its bindings.
    Matched(Bindings),
    /// The pattern did not match. Not an error: an ordinary outcome.
    NotMatched,
}

impl View for MatchOutcome {
    type V = Option<BindingMap>;

    open spec fn view(&self) -> Option<BindingMap> {
        match self {
            MatchOutcome::Matched(bs) => Option::Some(bs@),
            MatchOutcome::NotMatched => Option::None,
        }
    }
}

/// The bindings of a successful outcome are well formed.
pub open spec fn outcome_wf(o: MatchOutcome) -> bool {
    match o {
        MatchOutcome::Matched(bs) => bs.wf(),
        MatchOutcome::NotMatched => true,
    }
}

fn range_check(lo: &RangeEnd, hi: &RangeEnd, inclusive: bool, v: &Value) -> (r: bool)
    ensures
        r == range_matches(lo@, hi@, inclusive, v@),
{
    match (lo, hi, v) {
        (RangeEnd::IntEnd(a), RangeEnd::IntEnd(b), Value::Integer(x)) => *a <= *x && (*x < *b
            || (inclusive && *x == *b)),
        (RangeEnd::CharEnd(a), RangeEnd::CharEnd(b), Value::Char(c)) => (*a as u32) <= (*c
            as u32) && ((*c as u32) < (*b as u32) || (inclusive && *c == *b)),
        _ => false,
    }
}

fn compare_exec(op: CmpOp, a: &Value, b: &Value) -> (r: bool)
    ensures
        r == compare_values(op, a@, b@),
{
    match op {
        CmpOp::EqOp => value_eq(a, b),
        CmpOp::NeOp => !value_eq(a, b),
        _ => match (a, b) {
            (Value::Integer(x), Value::Integer(y)) => match op {
                CmpOp::LtOp => *x < *y,
                CmpOp::LeOp => *x <= *y,
                CmpOp::GtOp => *x > *y,
                CmpOp::GeOp => *x >= *y,
                _ => false,
            },
            (Value::Char(x), Value::Char(y)) => match op {
                CmpOp::LtOp => (*x as u32) < (*y as u32),
                CmpOp::LeOp => (*x as u32) <= (*y as u32),
                CmpOp::GtOp => (*x as u32) > (*y as u32),
                CmpOp::GeOp => (*x as u32) >= (*y as u32),
                _ => false,
            },
            _ => false,
        },
    }
}

fn eval_operand<'a>(o: &'a Operand, bs: &'a Bindings) -> (r: Option<&'a Value>)
    requires
        bs.wf(),
    ensures
        match r {
            Option::Some(v) => operand_value(o@, bs@) == Option::Some(v@),
            Option::None => operand_value(o@, bs@) is None,
        },
{
    match o {
        Operand::Var(n) => bs.get(n),
        Operand::Lit(v) => Option::Some(v),
    }
}

fn eval_guard(g: &GuardExpr, bs: &Bindings) -> (r: bool)
    requires
        bs.wf(),
    ensures
        r == guard_holds(g@, bs@),
    decreases g,
{
    match g {
        GuardExpr::ConstBool(b) => *b,
        GuardExpr::Not(e) => !eval_guard(e, bs),
        GuardExpr::AndExpr(a, b) => {
            let ra = eval_guard(a, bs);
            ra && eval_guard(b, bs)
        },
        GuardExpr::OrExpr(a, b) => {
            let ra = eval_guard(a, bs);
            ra || eval_guard(b, bs)
        },
        GuardExpr::Cmp(op, l, r2) => {
            let lv = eval_operand(l, bs);
            let rv = eval_operand(r2, bs);
            match (lv, rv) {
                (Option::Some(a), Option::Some(b)) => compare_exec(*op, a, b),
                _ => false,
            }
        },
    }
}

#[verifier::loop_isolation(false)]
fn lookup_field<'a>(vfs: &'a Vec<(String, Value)>, name: &String) -> (r: Option<&'a Value>)
    ensures
        match r {
            Option::Some(fv) => field_lookup(field_models(vfs@), name@) == Option::Some(fv@),
            Option::None => field_lookup(field_models(vfs@), name@) is None,
        },
{
    proof {
        lemma_field_models_index(vfs@);
    }
    let ghost m = field_models(vfs@);
    let mut i: usize = 0;
    proof {
        assert(m.skip(0) =~= m);
    }
    while i < vfs.len()
        invariant
            i <= vfs@.len(),
            field_lookup(m, name@) == field_lookup(m.skip(i as int), name@),
        decreases vfs@.len() - i,
    {
        if string_eq(&vfs[i].0, name) {
            proof {
                assert(m.skip(i as int)[0] == m[i as int]);
                assert(m[i as int].1 == value_model(vfs@[i as int].1));
            }
            return Option::Some(&vfs[i].1);
        }
        proof {
            assert(m.skip(i as int)[0].0 != name@);
            assert(m.skip(i as int).drop_first() =~= m.skip(i as int + 1));
        }
        i += 1;
    }
    proof {
        assert(m.skip(vfs@.len() as int).len() == 0);
    }
    Option::None
}

#[verifier::loop_isolation(false)]
fn field_name_listed(fps: &Vec<(String, Pattern)>, name: &String) -> (r: bool)
    ensures
        r == has_field_name(pattern_field_models(fps@), name@),
{
    proof {
        lemma_pattern_field_models_index(fps@);
    }
    let ghost m = pattern_field_models(fps@);
    let mut i: usize = 0;
    proof {
        assert(m.skip(0) =~= m);
    }
    while i < fps.len()
        invariant
            i <= fps@.len(),
            has_field_name(m, name@) == has_field_name(m.skip(i as int), name@),
        decreases fps@.len() - i,
    {
        if string_eq(&fps[i].0, name) {
            proof {
                assert(m.skip(i as int)[0].0 == name@);
            }
            return true;
        }
        proof {
            assert(m.skip(i as int)[0].0 != name@);
            assert(m.skip(i as int).drop_first() =~= m.skip(i as int + 1));
        }
        i += 1;
    }
    proof {
        assert(m.skip(fps@.len() as int).len() == 0);
    }
    false
}

#[verifier::loop_isolation(false)]
fn check_fields_cover(fps: &Vec<(String, Pattern)>, vfs: &Vec<(String, Value)>) -> (r: bool)
    ensures
        r == fields_cover(pattern_field_models(fps@), field_models(vfs@)),
{
    proof {
        lemma_pattern_field_models_index(fps@);
        lemma_field_models_index(vfs@);
    }
    let ghost fm = pattern_field_models(fps@);
    let ghost vm = field_models(vfs@);
    let mut j: usize = 0;
    while j < vfs.len()
        invariant
            j <= vfs@.len(),
            forall|jj: int| 0 <= jj < j ==> has_field_name(fm, #[trigger] vm[jj].0),
        decreases vfs@.len() - j,
    {
        if !field_name_listed(fps, &vfs[j].0) {
            proof {
                assert(vm[j as int].0 == vfs@[j as int].0@);
                assert(!has_field_name(fm, vm[j as int].0));
            }
            return false;
        }
        j += 1;
    }
    true
}

/// Match one pattern against one value: `Matched` with the bindings exactly
/// when the model-level match succeeds with those bindings, `NotMatched`
/// exactly when it is `None`. Total: no panic, no error for a non-match.
pub fn try_match(p: &Pattern, v: &Value) -> (r: MatchOutcome)
    ensures
        r@ == match_pattern(p@, v@),
        outcome_wf(r),
    decreases p, 0int,
{
    match p {
        Pattern::Literal(lit) => {
            if value_eq(lit, v) {
                MatchOutcome::Matched(Bindings::new())
            } else {
                MatchOutcome::NotMatched
            }
        },
        Pattern::Wildcard => MatchOutcome::Matched(Bindings::new()),
        Pattern::Rest => MatchOutcome::Matched(Bindings::new()),
        Pattern::Binding(n) => {
            let mut bs = Bindings::new();
            bs.insert(n.clone(), clone_value(v));
            MatchOutcome::Matched(bs)
        },
        Pattern::AtBinding(n, sub) => {
            match try_match(&**sub, v) {
                MatchOutcome::Matched(mut bs) => {
                    bs.insert(n.clone(), clone_value(v));
                    MatchOutcome::Matched(bs)
                },
                MatchOutcome::NotMatched => MatchOutcome::NotMatched,
            }
        },
        Pattern::Range(lo, hi, inclusive) => {
            if range_check(lo, hi, *inclusive, v) {
                MatchOutcome::Matched(Bindings::new())
            } else {
                MatchOutcome::NotMatched
            }
        },
        Pattern::Or(alts) => {
            let r = try_match_alternatives(alts, 0, v);
            proof {
                assert(pattern_models(alts@).skip(0) =~= pattern_models(alts@));
            }
            r
        },
        Pattern::TuplePattern(elems) => {
            match v {
                Value::Tuple(vs) => {
                    let r = try_match_elements(elems, 0, vs, 0, vs.len());
                    proof {
                        lemma_value_models_index(vs@);
                        assert(pattern_models(elems@).skip(0) =~= pattern_models(elems@));
                        assert(value_models(vs@).subrange(0, vs@.len() as int) =~= value_models(
                            vs@,
                        ));
                    }
                    r
                },
                _ => MatchOutcome::NotMatched,
            }
        },
        Pattern::StructPattern(name, fields, has_rest) => {
            match v {
                Value::Struct(vname, vfields) => {
                    if !string_eq(vname, name) {
                        MatchOutcome::NotMatched
                    } else {
                        let cover_ok = *has_rest || check_fields_cover(fields, vfields);
                        if !cover_ok {
                            MatchOutcome::NotMatched
                        } else {
                            let r = try_match_fields(fields, 0, vfields);
                            proof {
                                assert(pattern_field_models(fields@).skip(0)
                                    =~= pattern_field_models(fields@));
                            }
                            r
                        }
                    }
                },
                _ => MatchOutcome::NotMatched,
            }
        },
        Pattern::EnumPattern(name, tag, payload) => {
            match v {
                Value::Enum(vname, vtag, vpayload) => {
                    let heads_eq = string_eq(vname, name) && string_eq(vtag, tag);
                    if !heads_eq {
                        MatchOutcome::NotMatched
                    } else {
                        match (payload, vpayload) {
                            (Option::None, Option::None) => MatchOutcome::Matched(
                                Bindings::new(),
                            ),
                            (Option::Some(pp), Option::Some(pv)) => try_match(&**pp, &**pv),
                            _ => MatchOutcome::NotMatched,
                        }
                    }
                },
                _ => MatchOutcome::NotMatched,
            }
        },
        Pattern::Guard(sub, g) => {
            match try_match(&**sub, v) {
                MatchOutcome::Matched(bs) => {
                    if eval_guard(g, &bs) {
                        MatchOutcome::Matched(bs)
                    } else {
                        MatchOutcome::NotMatched
                    }
                },
                MatchOutcome::NotMatched => MatchOutcome::NotMatched,
            }
        },
    }
}

fn try_match_alternatives(alts: &Vec<Pattern>, ai: usize, v: &Value) -> (r: MatchOutcome)
    requires
        ai <= alts@.len(),
    ensures
        r@ == match_alternatives(pattern_models(alts@).skip(ai as int), v@),
        outcome_wf(r),
    decreases alts, alts@.len() - ai,
{
    proof {
        lemma_pattern_models_index(alts@);
    }
    let ghost sp = pattern_models(alts@).skip(ai as int);
    if ai == alts.len() {
        proof {
            assert(sp.len() == 0);
        }
        return MatchOutcome::NotMatched;
    }
    proof {
        assert(sp[0] == pattern_models(alts@)[ai as int]);
    }
    match try_match(&alts[ai], v) {
        MatchOutcome::Matched(bs) => MatchOutcome::Matched(bs),
        MatchOutcome::NotMatched => {
            let r = try_match_alternatives(alts, ai + 1, v);
            proof {
                assert(sp.drop_first() =~= pattern_models(alts@).skip(ai as int + 1));
            }
            r
        },
    }
}

fn try_match_elements(
    ps: &Vec<Pattern>,
    pi: usize,
    vs: &Vec<Value>,
    vlo: usize,
    vhi: usize,
) -> (r: MatchOutcome)
    requires
        pi <= ps@.len(),
        vlo <= vhi <= vs@.len(),
    ensures
        r@ == match_elements(
            pattern_models(ps@).skip(pi as int),
            value_models(vs@).subrange(vlo as int, vhi as int),
        ),
        outcome_wf(r),
    decreases ps, ps@.len() - pi,
{
    proof {
        lemma_pattern_models_index(ps@);
        lemma_value_models_index(vs@);
    }
    let ghost sp = pattern_models(ps@).skip(pi as int);
    let ghost sv = value_models(vs@).subrange(vlo as int, vhi as int);
    if pi == ps.len() {
        proof {
            assert(sp.len() == 0);
        }
        if vlo == vhi {
            return MatchOutcome::Matched(Bindings::new());
        } else {
            return MatchOutcome::NotMatched;
        }
    }
    proof {
        assert(sp[0] == pattern_models(ps@)[pi as int]);
    }
    let is_rest = matches!(&ps[pi], Pattern::Rest);
    if is_rest {
        let after = ps.len() - 1 - pi;
        let avail = vhi - vlo;
        if avail < after {
            return MatchOutcome::NotMatched;
        }
        let r = try_match_elements(ps, pi + 1, vs, vhi - after, vhi);
        proof {
            assert(sp.drop_first() =~= pattern_models(ps@).skip(pi as int + 1));
            assert(sv.skip(sv.len() - (sp.len() - 1)) =~= value_models(vs@).subrange(
                vhi as int - after as int,
                vhi as int,
            ));
        }
        return r;
    }
    if vlo == vhi {
        return MatchOutcome::NotMatched;
    }
    proof {
        assert(sv[0] == value_models(vs@)[vlo as int]);
    }
    proof {
        assert(sp.drop_first() =~= pattern_models(ps@).skip(pi as int + 1));
        assert(sv.drop_first() =~= value_models(vs@).subrange(vlo as int + 1, vhi as int));
    }
    match try_match(&ps[pi], &vs[vlo]) {
        MatchOutcome::NotMatched => MatchOutcome::NotMatched,
        MatchOutcome::Matched(mut b1) => {
            match try_match_elements(ps, pi + 1, vs, vlo + 1, vhi) {
                MatchOutcome::NotMatched => MatchOutcome::NotMatched,
                MatchOutcome::Matched(b2) => {
                    b1.extend(&b2);
                    MatchOutcome::Matched(b1)
                },
            }
        },
    }
}

fn try_match_fields(
    fps: &Vec<(String, Pattern)>,
    fi: usize,
    vfs: &Vec<(String, Value)>,
) -> (r: MatchOutcome)
    requires
        fi <= fps@.len(),
    ensures
        r@ == match_fields(
            pattern_field_models(fps@).skip(fi as int),
            field_models(vfs@),
        ),
        outcome_wf(r),
    decreases fps, fps@.len() - fi,
{
    proof {
        lemma_pattern_field_models_index(fps@);
    }
    let ghost sp = pattern_field_models(fps@).skip(fi as int);
    if fi == fps.len() {
        proof {
            assert(sp.len() == 0);
        }
        return MatchOutcome::Matched(Bindings::new());
    }
    proof {
        assert(sp[0] == pattern_field_models(fps@)[fi as int]);
    }
    proof {
        assert(sp.drop_first() =~= pattern_field_models(fps@).skip(fi as int + 1));
    }
    match lookup_field(vfs, &fps[fi].0) {
        Option::None => MatchOutcome::NotMatched,
        Option::Some(fv) => {
            match try_match(&fps[fi].1, fv) {
                MatchOutcome::NotMatched => MatchOutcome::NotMatched,
                MatchOutcome::Matched(mut b1) => {
                    match try_match_fields(fps, fi + 1, vfs) {
                        MatchOutcome::NotMatched => MatchOutcome::NotMatched,
                        MatchOutcome::Matched(b2) => {
                            b1.extend(&b2);
                            MatchOutcome::Matched(b1)
                        },
                    }
                },
            }
        },
    }
}

/// The result of evaluating a match expression: the index of the first arm
/// whose pattern matched together with its bindings, or `NoArmMatched`.
#[derive(Debug)]
pub enum ArmResult {
    /// The arm at `index` is the first whose pattern matched; `bindings` are
    /// the bindings of that match.
    Matched { index: usize, bindings: Bindings },
    /// No arm's pattern matched the value.
    NoArmMatched,
}

/// Evaluate the arms strictly in order against the value; the first arm
/// whose pattern matches wins, and later arms are never consulted.
#[verifier::loop_isolation(false)]
pub fn evaluate(v: &Value, arms: &Vec<Pattern>) -> (r: ArmResult)
    ensures
        (r matches ArmResult::Matched { index, bindings } ==> index < arms@.len()
            && match_pattern(arms@[index as int]@, v@) == Option::Some(bindings@)
            && bindings.wf() && forall|j: int|
            0 <= j < index ==> match_pattern(#[trigger] arms@[j]@, v@) is None),
        (r is NoArmMatched ==> forall|j: int|
            0 <= j < arms@.len() ==> match_pattern(#[trigger] arms@[j]@, v@) is None),
{
    let mut i: usize = 0;
    while i < arms.len()
        invariant
            i <= arms@.len(),
            forall|j: int| 0 <= j < i ==> match_pattern(#[trigger] arms@[j]@, v@) is None,
        decreases arms@.len() - i,
    {
        match try_match(&arms[i], v) {
            MatchOutcome::Matched(bs) => {
                return ArmResult::Matched { index: i, bindings: bs };
            },
            MatchOutcome::NotMatched => {},
        }
        i += 1;
    }
    ArmResult::NoArmMatched
}

} // verus!
