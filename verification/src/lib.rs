//! A structural pattern-matching engine: values, pattern trees, a matcher
//! that produces binding sets, construction-time validation of patterns, and
//! a refutability classifier.

pub mod bindings;
pub mod laws;
pub mod matcher;
pub mod pattern;
pub mod refutability;
pub mod validation;
pub mod value;

use vstd::prelude::*;

verus! {

use crate::matcher::{evaluate, match_pattern, ArmResult};
use crate::pattern::{Pattern, PatternModel, RangeEnd, RangeEndModel};
use crate::value::{Value, ValueModel};

/// Drive the matcher through the classic demonstration matches — literal
/// arms, or-patterns, integer and character ranges — and return, for each,
/// the index of the arm that fired.
pub fn run() -> (r: Vec<usize>)
    ensures
        r@ == seq![0usize, 2usize, 0usize, 0usize, 0usize],
{
    let mut results: Vec<usize> = Vec::new();

    // match 1 { 1 => .., 2 => .., 3 => .., _ => .. }
    let mut literal_arms: Vec<Pattern> = Vec::new();
    literal_arms.push(Pattern::Literal(Value::Integer(1)));
    literal_arms.push(Pattern::Literal(Value::Integer(2)));
    literal_arms.push(Pattern::Literal(Value::Integer(3)));
    literal_arms.push(Pattern::Wildcard);
    let one = Value::Integer(1);
    proof {
        assert(literal_arms@[0]@ == PatternModel::Literal(ValueModel::Integer(1)));
        assert(match_pattern(literal_arms@[0]@, one@) is Some);
    }
    let e1 = evaluate(&one, &literal_arms);
    let i1: usize = match e1 {
        ArmResult::Matched { index, bindings: _ } => {
            proof {
                assert(index == 0);
            }
            index
        },
        ArmResult::NoArmMatched => {
            proof {
                assert(false);
            }
            0
        },
    };
    results.push(i1);

    // match 3 against the same arms: the third arm fires.
    let three = Value::Integer(3);
    proof {
        assert(match_pattern(literal_arms@[0]@, three@) is None);
        assert(literal_arms@[1]@ == PatternModel::Literal(ValueModel::Integer(2)));
        assert(match_pattern(literal_arms@[1]@, three@) is None);
        assert(literal_arms@[2]@ == PatternModel::Literal(ValueModel::Integer(3)));
        assert(match_pattern(literal_arms@[2]@, three@) is Some);
    }
    let e2 = evaluate(&three, &literal_arms);
    let i2: usize = match e2 {
        ArmResult::Matched { index, bindings: _ } => {
            proof {
                assert(index == 2);
            }
            index
        },
        ArmResult::NoArmMatched => {
            proof {
                assert(false);
            }
            0
        },
    };
    results.push(i2);

    // match 5 { 1..=5 => .., _ => .. }
    let mut range_arms: Vec<Pattern> = Vec::new();
    range_arms.push(Pattern::Range(RangeEnd::IntEnd(1), RangeEnd::IntEnd(5), true));
    range_arms.push(Pattern::Wildcard);
    let five = Value::Integer(5);
    proof {
        assert(range_arms@[0]@ == PatternModel::Range(
            RangeEndModel::IntEnd(1),
            RangeEndModel::IntEnd(5),
            true,
        ));
        assert(match_pattern(range_arms@[0]@, five@) is Some);
    }
    let e3 = evaluate(&five, &range_arms);
    let i3: usize = match e3 {
        ArmResult::Matched { index, bindings: _ } => {
            proof {
                assert(index == 0);
            }
            index
        },
        ArmResult::NoArmMatched => {
            proof {
                assert(false);
            }
            0
        },
    };
    results.push(i3);

    // match 'c' { 'a'..='j' => .., 'k'..='z' => .., _ => .. }
    let mut char_arms: Vec<Pattern> = Vec::new();
    char_arms.push(Pattern::Range(RangeEnd::CharEnd('a'), RangeEnd::CharEnd('j'), true));
    char_arms.push(Pattern::Range(RangeEnd::CharEnd('k'), RangeEnd::CharEnd('z'), true));
    char_arms.push(Pattern::Wildcard);
    let letter = Value::Char('c');
    proof {
        assert(char_arms@[0]@ == PatternModel::Range(
            RangeEndModel::CharEnd('a'),
            RangeEndModel::CharEnd('j'),
            true,
        ));
        assert(match_pattern(char_arms@[0]@, letter@) is Some);
    }
    let e4 = evaluate(&letter, &char_arms);
    let i4: usize = match e4 {
        ArmResult::Matched { index, bindings: _ } => {
            proof {
                assert(index == 0);
            }
            index
        },
        ArmResult::NoArmMatched => {
            proof {
                assert(false);
            }
            0
        },
    };
    results.push(i4);

    // match 1 { 1 | 2 => .., 3 => .., _ => .. }
    let mut or_parts: Vec<Pattern> = Vec::new();
    or_parts.push(Pattern::Literal(Value::Integer(1)));
    or_parts.push(Pattern::Literal(Value::Integer(2)));
    let ghost op = or_parts@;
    let mut multi_arms: Vec<Pattern> = Vec::new();
    multi_arms.push(Pattern::Or(or_parts));
    multi_arms.push(Pattern::Literal(Value::Integer(3)));
    multi_arms.push(Pattern::Wildcard);
    let again_one = Value::Integer(1);
    proof {
        let alts = crate::pattern::pattern_models(op);
        crate::pattern::lemma_pattern_models_index(op);
        assert(alts[0] == PatternModel::Literal(ValueModel::Integer(1)));
        assert(match_pattern(alts[0], again_one@) is Some);
        assert(multi_arms@[0]@ == PatternModel::Or(alts));
        assert(crate::matcher::match_alternatives(alts, again_one@) is Some);
        assert(match_pattern(multi_arms@[0]@, again_one@) is Some);
    }
    let e5 = evaluate(&again_one, &multi_arms);
    let i5: usize = match e5 {
        ArmResult::Matched { index, bindings: _ } => {
            proof {
                assert(index == 0);
            }
            index
        },
        ArmResult::NoArmMatched => {
            proof {
                assert(false);
            }
            0
        },
    };
    results.push(i5);

    proof {
        assert(results@ =~= seq![0usize, 2usize, 0usize, 0usize, 0usize]);
    }
    results
}

} // verus!
