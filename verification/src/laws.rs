//! General laws of the matcher, stated over the models and proved once for
//! all inputs.

use vstd::prelude::*;

use crate::bindings::BindingMap;
use crate::matcher::{match_alternatives, match_elements, match_pattern};
use crate::pattern::PatternModel;
use crate::value::ValueModel;

verus! {

/// Law: the wildcard pattern matches every value, with no bindings.
pub proof fn lemma_wildcard_matches_all(v: ValueModel)
    ensures
        match_pattern(PatternModel::Wildcard, v) == Option::Some(
            Map::<Seq<char>, ValueModel>::empty(),
        ),
{
}

/// Law: an or-pattern of a pattern with itself behaves exactly as the
/// pattern alone, on every value.
pub proof fn lemma_or_duplicate(p: PatternModel, v: ValueModel)
    ensures
        match_pattern(PatternModel::Or(seq![p, p]), v) == match_pattern(p, v),
{
    let alts: Seq<PatternModel> = seq![p, p];
    assert(alts[0] == p);
    match match_pattern(p, v) {
        Option::Some(bs) => {
            assert(match_alternatives(alts, v) == Option::Some(bs));
        },
        Option::None => {
            let tail = alts.drop_first();
            assert(tail.len() == 1);
            assert(tail[0] == p);
            assert(tail.drop_first().len() == 0);
            assert(match_alternatives(tail.drop_first(), v) is None);
            assert(match_alternatives(tail, v) is None);
            assert(match_alternatives(alts, v) is None);
        },
    }
}

/// A tuple pattern made of one plain binding per name.
pub open spec fn binding_patterns(names: Seq<Seq<char>>) -> Seq<PatternModel> {
    Seq::new(names.len(), |i: int| PatternModel::Binding(names[i]))
}

/// Law: a tuple pattern of distinct plain bindings over an n-tuple always
/// matches, and binds exactly the n names, each to the tuple element at its
/// position.
pub proof fn lemma_tuple_of_bindings(names: Seq<Seq<char>>, vs: Seq<ValueModel>)
    requires
        names.len() == vs.len(),
        forall|i: int, j: int| 0 <= i < j < names.len() ==> names[i] != names[j],
    ensures
        match_pattern(
            PatternModel::TuplePattern(binding_patterns(names)),
            ValueModel::Tuple(vs),
        ) matches Option::Some(bs) && bs.dom().finite() && bs.len() == names.len() && (
        forall|i: int|
            0 <= i < names.len() ==> bs.contains_key(#[trigger] names[i]) && bs[names[i]]
                == vs[i]) && (forall|k: Seq<char>|
            bs.contains_key(k) ==> exists|i: int| 0 <= i < names.len() && names[i] == k),
{
    lemma_binding_elements(names, vs);
}

proof fn lemma_binding_elements(names: Seq<Seq<char>>, vs: Seq<ValueModel>)
    requires
        names.len() == vs.len(),
        forall|i: int, j: int| 0 <= i < j < names.len() ==> names[i] != names[j],
    ensures
        match_elements(binding_patterns(names), vs) matches Option::Some(bs) && bs
            .dom()
            .finite() && bs.len() == names.len() && (forall|i: int|
            0 <= i < names.len() ==> bs.contains_key(#[trigger] names[i]) && bs[names[i]]
                == vs[i]) && (forall|k: Seq<char>|
            bs.contains_key(k) ==> exists|i: int| 0 <= i < names.len() && names[i] == k),
    decreases names.len(),
{
    let bp = binding_patterns(names);
    if names.len() == 0 {
        assert(match_elements(bp, vs) == Option::Some(Map::<Seq<char>, ValueModel>::empty()));
    } else {
        let tailn = names.drop_first();
        let tailv = vs.drop_first();
        assert(forall|i: int, j: int|
            0 <= i < j < tailn.len() ==> tailn[i] != tailn[j]) by {
            assert(forall|i: int| 0 <= i < tailn.len() ==> tailn[i] == names[i + 1]);
        }
        lemma_binding_elements(tailn, tailv);
        let bs_tail = match match_elements(binding_patterns(tailn), tailv) {
            Option::Some(b) => b,
            Option::None => Map::empty(),
        };
        assert(binding_patterns(tailn) =~= bp.drop_first());
        assert(bp[0] == PatternModel::Binding(names[0]));
        assert(match_pattern(bp[0], vs[0]) == Option::Some(
            Map::<Seq<char>, ValueModel>::empty().insert(names[0], vs[0]),
        ));
        let b1 = Map::<Seq<char>, ValueModel>::empty().insert(names[0], vs[0]);
        assert(match_elements(bp, vs) == Option::Some(b1.union_prefer_right(bs_tail)));
        let bs = b1.union_prefer_right(bs_tail);
        assert(!bs_tail.contains_key(names[0])) by {
            if bs_tail.contains_key(names[0]) {
                let i = choose|i: int| 0 <= i < tailn.len() && tailn[i] == names[0];
                assert(names[i + 1] == names[0]);
            }
        }
        assert(bs.dom() =~= bs_tail.dom().insert(names[0]));
        assert(bs.len() == names.len());
        assert forall|i: int|
            0 <= i < names.len() implies bs.contains_key(#[trigger] names[i]) && bs[names[i]]
            == vs[i] by {
            if i == 0 {
                assert(bs[names[0]] == vs[0]);
            } else {
                assert(tailn[i - 1] == names[i]);
                assert(bs_tail.contains_key(names[i]));
                assert(bs[names[i]] == bs_tail[tailn[i - 1]]);
                assert(bs_tail[tailn[i - 1]] == tailv[i - 1]);
                assert(tailv[i - 1] == vs[i]);
            }
        }
        assert forall|k: Seq<char>| bs.contains_key(k) implies exists|i: int|
            0 <= i < names.len() && names[i] == k by {
            if k == names[0] {
                assert(names[0] == k);
            } else {
                assert(bs_tail.contains_key(k));
                let i = choose|i: int| 0 <= i < tailn.len() && tailn[i] == k;
                assert(names[i + 1] == k);
            }
        }
    }
}

} // verus!
