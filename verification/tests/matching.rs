use pattern_engine::matcher::{evaluate, try_match, ArmResult, MatchOutcome};
use pattern_engine::pattern::{CmpOp, GuardExpr, Operand, Pattern, RangeEnd};
use pattern_engine::run;
use pattern_engine::value::{value_eq, Value};

fn s(text: &str) -> String {
    String::from(text)
}

fn ints(values: &[i64]) -> Vec<Value> {
    values.iter().map(|i| Value::Integer(*i)).collect()
}

fn must_match(p: &Pattern, v: &Value) -> pattern_engine::bindings::Bindings {
    match try_match(p, v) {
        MatchOutcome::Matched(bs) => bs,
        MatchOutcome::NotMatched => panic!("expected a match"),
    }
}

#[test]
fn wildcard_matches_everything() {
    let samples = vec![
        Value::Integer(-3),
        Value::Char('x'),
        Value::Text(s("hello")),
        Value::Bool(false),
        Value::Tuple(ints(&[1, 2])),
        Value::Struct(s("P"), vec![(s("x"), Value::Integer(1))]),
        Value::Enum(s("Option"), s("None"), None),
    ];
    for v in &samples {
        let bs = must_match(&Pattern::Wildcard, v);
        assert_eq!(bs.len(), 0);
    }
}

#[test]
fn or_duplicate_behaves_like_single() {
    let twice = Pattern::Or(vec![
        Pattern::Literal(Value::Integer(7)),
        Pattern::Literal(Value::Integer(7)),
    ]);
    let once = Pattern::Literal(Value::Integer(7));
    for x in [6i64, 7, 8] {
        let v = Value::Integer(x);
        let a = matches!(try_match(&twice, &v), MatchOutcome::Matched(_));
        let b = matches!(try_match(&once, &v), MatchOutcome::Matched(_));
        assert_eq!(a, b);
    }
}

#[test]
fn tuple_of_bindings_round_trip() {
    let p = Pattern::TuplePattern(vec![
        Pattern::Binding(s("a")),
        Pattern::Binding(s("b")),
        Pattern::Binding(s("c")),
    ]);
    let v = Value::Tuple(ints(&[10, 20, 30]));
    let bs = must_match(&p, &v);
    assert_eq!(bs.len(), 3);
    assert_eq!(bs.get(&s("a")), Some(&Value::Integer(10)));
    assert_eq!(bs.get(&s("b")), Some(&Value::Integer(20)));
    assert_eq!(bs.get(&s("c")), Some(&Value::Integer(30)));
}

#[test]
fn empty_tuple_matches_empty_pattern() {
    let bs = must_match(&Pattern::TuplePattern(vec![]), &Value::Tuple(vec![]));
    assert_eq!(bs.len(), 0);
}

#[test]
fn tuple_arity_mismatch_fails() {
    let p = Pattern::TuplePattern(vec![Pattern::Binding(s("a")), Pattern::Binding(s("b"))]);
    let v = Value::Tuple(ints(&[1, 2, 3]));
    assert!(matches!(try_match(&p, &v), MatchOutcome::NotMatched));
}

#[test]
fn first_match_wins() {
    let arms = vec![
        Pattern::Literal(Value::Integer(1)),
        Pattern::Binding(s("x")),
    ];
    match evaluate(&Value::Integer(1), &arms) {
        ArmResult::Matched { index, bindings } => {
            assert_eq!(index, 0);
            assert_eq!(bindings.len(), 0);
        }
        ArmResult::NoArmMatched => panic!("an arm should match"),
    }
}

#[test]
fn guard_short_circuit_falls_to_next_arm() {
    let arms = vec![
        Pattern::Guard(
            Box::new(Pattern::Binding(s("x"))),
            GuardExpr::Cmp(CmpOp::LtOp, Operand::Var(s("x")), Operand::Lit(Value::Integer(5))),
        ),
        Pattern::Binding(s("x")),
    ];
    match evaluate(&Value::Integer(10), &arms) {
        ArmResult::Matched { index, bindings } => {
            assert_eq!(index, 1);
            assert_eq!(bindings.get(&s("x")), Some(&Value::Integer(10)));
        }
        ArmResult::NoArmMatched => panic!("the second arm should match"),
    }
}

#[test]
fn guard_admits_small_values() {
    let p = Pattern::Guard(
        Box::new(Pattern::Binding(s("x"))),
        GuardExpr::Cmp(CmpOp::LtOp, Operand::Var(s("x")), Operand::Lit(Value::Integer(5))),
    );
    let bs = must_match(&p, &Value::Integer(4));
    assert_eq!(bs.get(&s("x")), Some(&Value::Integer(4)));
}

#[test]
fn guard_with_unbound_name_never_holds() {
    let p = Pattern::Guard(
        Box::new(Pattern::Wildcard),
        GuardExpr::Cmp(CmpOp::LtOp, Operand::Var(s("z")), Operand::Lit(Value::Integer(5))),
    );
    assert!(matches!(try_match(&p, &Value::Integer(1)), MatchOutcome::NotMatched));
}

#[test]
fn range_inclusivity() {
    let closed = Pattern::Range(RangeEnd::IntEnd(1), RangeEnd::IntEnd(5), true);
    let half_open = Pattern::Range(RangeEnd::IntEnd(1), RangeEnd::IntEnd(5), false);
    assert!(matches!(try_match(&closed, &Value::Integer(5)), MatchOutcome::Matched(_)));
    assert!(matches!(try_match(&half_open, &Value::Integer(5)), MatchOutcome::NotMatched));
    assert!(matches!(try_match(&half_open, &Value::Integer(4)), MatchOutcome::Matched(_)));
}

#[test]
fn range_of_chars_rejects_integers() {
    let p = Pattern::Range(RangeEnd::CharEnd('a'), RangeEnd::CharEnd('j'), true);
    assert!(matches!(try_match(&p, &Value::Integer(98)), MatchOutcome::NotMatched));
    assert!(matches!(try_match(&p, &Value::Char('c')), MatchOutcome::Matched(_)));
}

#[test]
fn rest_pattern_binds_first_and_last() {
    let p = Pattern::TuplePattern(vec![
        Pattern::Binding(s("first")),
        Pattern::Rest,
        Pattern::Binding(s("last")),
    ]);
    let v = Value::Tuple(ints(&[1, 2, 3, 4, 5, 6, 7, 7]));
    let bs = must_match(&p, &v);
    assert_eq!(bs.len(), 2);
    assert_eq!(bs.get(&s("first")), Some(&Value::Integer(1)));
    assert_eq!(bs.get(&s("last")), Some(&Value::Integer(7)));
}

#[test]
fn rest_pattern_may_consume_nothing() {
    let p = Pattern::TuplePattern(vec![
        Pattern::Binding(s("first")),
        Pattern::Rest,
        Pattern::Binding(s("last")),
    ]);
    let v = Value::Tuple(ints(&[1, 2]));
    let bs = must_match(&p, &v);
    assert_eq!(bs.get(&s("first")), Some(&Value::Integer(1)));
    assert_eq!(bs.get(&s("last")), Some(&Value::Integer(2)));
}

fn hsv_message(h: i64, sat: i64, v: i64) -> Value {
    Value::Enum(
        s("Message2"),
        s("ChangeColor"),
        Some(Box::new(Value::Enum(
            s("Color"),
            s("Hsv"),
            Some(Box::new(Value::Tuple(ints(&[h, sat, v])))),
        ))),
    )
}

fn color_pattern(variant: &str) -> Pattern {
    Pattern::EnumPattern(
        s("Message2"),
        s("ChangeColor"),
        Some(Box::new(Pattern::EnumPattern(
            s("Color"),
            variant.to_string(),
            Some(Box::new(Pattern::TuplePattern(vec![
                Pattern::Binding(s("h")),
                Pattern::Binding(s("s")),
                Pattern::Binding(s("v")),
            ]))),
        ))),
    )
}

#[test]
fn enum_pattern_nested_destructuring() {
    let value = hsv_message(0, 160, 255);
    let bs = must_match(&color_pattern("Hsv"), &value);
    assert_eq!(bs.get(&s("h")), Some(&Value::Integer(0)));
    assert_eq!(bs.get(&s("s")), Some(&Value::Integer(160)));
    assert_eq!(bs.get(&s("v")), Some(&Value::Integer(255)));
    assert!(matches!(try_match(&color_pattern("Rgb"), &value), MatchOutcome::NotMatched));
}

fn point(x: i64, y: i64) -> Value {
    Value::Struct(
        s("Point"),
        vec![(s("x"), Value::Integer(x)), (s("y"), Value::Integer(y))],
    )
}

#[test]
fn struct_destructuring_picks_the_right_axis_arm() {
    let arms = vec![
        Pattern::StructPattern(
            s("Point"),
            vec![(s("x"), Pattern::Binding(s("x"))), (s("y"), Pattern::Literal(Value::Integer(0)))],
            false,
        ),
        Pattern::StructPattern(
            s("Point"),
            vec![(s("x"), Pattern::Literal(Value::Integer(0))), (s("y"), Pattern::Binding(s("y")))],
            false,
        ),
        Pattern::StructPattern(
            s("Point"),
            vec![(s("x"), Pattern::Binding(s("x"))), (s("y"), Pattern::Binding(s("y")))],
            false,
        ),
    ];
    match evaluate(&point(13, 12), &arms) {
        ArmResult::Matched { index, bindings } => {
            assert_eq!(index, 2);
            assert_eq!(bindings.get(&s("x")), Some(&Value::Integer(13)));
            assert_eq!(bindings.get(&s("y")), Some(&Value::Integer(12)));
        }
        ArmResult::NoArmMatched => panic!("the last arm should match"),
    }
    match evaluate(&point(7, 0), &arms) {
        ArmResult::Matched { index, bindings } => {
            assert_eq!(index, 0);
            assert_eq!(bindings.get(&s("x")), Some(&Value::Integer(7)));
        }
        ArmResult::NoArmMatched => panic!("the first arm should match"),
    }
}

#[test]
fn struct_pattern_rest_ignores_unlisted_fields() {
    let origin = Value::Struct(
        s("ThreeDimensionPoint"),
        vec![
            (s("x"), Value::Integer(0)),
            (s("y"), Value::Integer(0)),
            (s("z"), Value::Integer(0)),
        ],
    );
    let with_rest = Pattern::StructPattern(s("ThreeDimensionPoint"), vec![(s("x"), Pattern::Binding(s("x")))], true);
    let without_rest = Pattern::StructPattern(s("ThreeDimensionPoint"), vec![(s("x"), Pattern::Binding(s("x")))], false);
    let bs = must_match(&with_rest, &origin);
    assert_eq!(bs.get(&s("x")), Some(&Value::Integer(0)));
    assert!(matches!(try_match(&without_rest, &origin), MatchOutcome::NotMatched));
}

#[test]
fn struct_pattern_requires_same_name() {
    let p = Pattern::StructPattern(s("Point"), vec![(s("x"), Pattern::Wildcard)], true);
    let other = Value::Struct(s("Dot"), vec![(s("x"), Value::Integer(1))]);
    assert!(matches!(try_match(&p, &other), MatchOutcome::NotMatched));
}

#[test]
fn at_binding_binds_whole_value_in_range() {
    let msg = Value::Enum(
        s("Message3"),
        s("Hello"),
        Some(Box::new(Value::Struct(s("Hello"), vec![(s("id"), Value::Integer(5))]))),
    );
    let arms = vec![
        Pattern::EnumPattern(
            s("Message3"),
            s("Hello"),
            Some(Box::new(Pattern::StructPattern(
                s("Hello"),
                vec![(
                    s("id"),
                    Pattern::AtBinding(
                        s("id_variable"),
                        Box::new(Pattern::Range(RangeEnd::IntEnd(3), RangeEnd::IntEnd(7), true)),
                    ),
                )],
                false,
            ))),
        ),
        Pattern::Wildcard,
    ];
    match evaluate(&msg, &arms) {
        ArmResult::Matched { index, bindings } => {
            assert_eq!(index, 0);
            assert_eq!(bindings.get(&s("id_variable")), Some(&Value::Integer(5)));
        }
        ArmResult::NoArmMatched => panic!("the range arm should match"),
    }
}

#[test]
fn shadowed_name_compares_against_outer_constant() {
    // match Some(5) { Some(50) => .., Some(n) if n == y => .., _ => .. } with y = 10
    let some5 = Value::Enum(s("Option"), s("Some"), Some(Box::new(Value::Integer(5))));
    let arms = vec![
        Pattern::EnumPattern(s("Option"), s("Some"), Some(Box::new(Pattern::Literal(Value::Integer(50))))),
        Pattern::Guard(
            Box::new(Pattern::EnumPattern(s("Option"), s("Some"), Some(Box::new(Pattern::Binding(s("n")))))),
            GuardExpr::Cmp(CmpOp::EqOp, Operand::Var(s("n")), Operand::Lit(Value::Integer(10))),
        ),
        Pattern::Wildcard,
    ];
    match evaluate(&some5, &arms) {
        ArmResult::Matched { index, .. } => assert_eq!(index, 2),
        ArmResult::NoArmMatched => panic!("the wildcard should match"),
    }
}

#[test]
fn text_literal_matching() {
    let arms = vec![Pattern::Literal(Value::Text(s("Findus"))), Pattern::Wildcard];
    match evaluate(&Value::Text(s("Petterson")), &arms) {
        ArmResult::Matched { index, .. } => assert_eq!(index, 1),
        ArmResult::NoArmMatched => panic!("the wildcard should match"),
    }
    match evaluate(&Value::Text(s("Findus")), &arms) {
        ArmResult::Matched { index, .. } => assert_eq!(index, 0),
        ArmResult::NoArmMatched => panic!("the literal should match"),
    }
}

#[test]
fn no_arm_matched_is_reported() {
    let arms = vec![Pattern::Literal(Value::Integer(1))];
    assert!(matches!(evaluate(&Value::Integer(2), &arms), ArmResult::NoArmMatched));
    let empty: Vec<Pattern> = vec![];
    assert!(matches!(evaluate(&Value::Integer(2), &empty), ArmResult::NoArmMatched));
}

#[test]
fn deep_equality_on_nested_values() {
    let a = Value::Tuple(vec![
        Value::Tuple(ints(&[3, 10])),
        point(3, -10),
    ]);
    let b = Value::Tuple(vec![
        Value::Tuple(ints(&[3, 10])),
        point(3, -10),
    ]);
    let c = Value::Tuple(vec![
        Value::Tuple(ints(&[3, 11])),
        point(3, -10),
    ]);
    assert!(value_eq(&a, &b));
    assert!(!value_eq(&a, &c));
    let bs = must_match(&Pattern::Literal(a), &b);
    assert_eq!(bs.len(), 0);
}

#[test]
fn comparison_operators_on_chars() {
    let p = |op: CmpOp| {
        Pattern::Guard(
            Box::new(Pattern::Binding(s("c"))),
            GuardExpr::Cmp(op, Operand::Var(s("c")), Operand::Lit(Value::Char('m'))),
        )
    };
    assert!(matches!(try_match(&p(CmpOp::LtOp), &Value::Char('a')), MatchOutcome::Matched(_)));
    assert!(matches!(try_match(&p(CmpOp::GeOp), &Value::Char('m')), MatchOutcome::Matched(_)));
    assert!(matches!(try_match(&p(CmpOp::GtOp), &Value::Char('m')), MatchOutcome::NotMatched));
    assert!(matches!(try_match(&p(CmpOp::NeOp), &Value::Char('n')), MatchOutcome::Matched(_)));
}

#[test]
fn later_or_alternatives_are_reachable() {
    let p = Pattern::Or(vec![
        Pattern::Literal(Value::Integer(1)),
        Pattern::Literal(Value::Integer(2)),
    ]);
    assert!(matches!(try_match(&p, &Value::Integer(2)), MatchOutcome::Matched(_)));
    assert!(matches!(try_match(&p, &Value::Integer(3)), MatchOutcome::NotMatched));
}

#[test]
fn unit_enum_variants_match_by_tag() {
    let quit = Value::Enum(s("Message"), s("Quit"), None);
    let p_quit = Pattern::EnumPattern(s("Message"), s("Quit"), None);
    let p_move = Pattern::EnumPattern(s("Message"), s("Move"), None);
    assert!(matches!(try_match(&p_quit, &quit), MatchOutcome::Matched(_)));
    assert!(matches!(try_match(&p_move, &quit), MatchOutcome::NotMatched));
}

#[test]
fn bindings_report_emptiness_and_membership() {
    let bs = must_match(&Pattern::Wildcard, &Value::Integer(1));
    assert!(bs.is_empty());
    let named = must_match(&Pattern::Binding(s("x")), &Value::Integer(1));
    assert!(!named.is_empty());
    assert!(named.contains(&s("x")));
    assert!(!named.contains(&s("y")));
    assert_eq!(named.get(&s("y")), None);
}

#[test]
fn binding_overwrites_keep_the_last_writer() {
    // An at-binding reusing a name is a construction error, but the matcher
    // is total on such a pattern: the outer binding is the last writer.
    let p = Pattern::AtBinding(
        s("a"),
        Box::new(Pattern::TuplePattern(vec![Pattern::Binding(s("a"))])),
    );
    let v = Value::Tuple(vec![Value::Integer(9)]);
    let bs = must_match(&p, &v);
    assert_eq!(bs.len(), 1);
    assert_eq!(bs.get(&s("a")), Some(&Value::Tuple(vec![Value::Integer(9)])));
}

#[test]
fn run_reports_the_demonstration_outcomes() {
    assert_eq!(run(), vec![0, 2, 0, 0, 0]);
}
