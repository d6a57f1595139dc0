use pattern_engine::matcher::{try_match, MatchOutcome};
use pattern_engine::pattern::{Pattern, RangeEnd};
use pattern_engine::refutability::{classify_irrefutable, require_irrefutable};
use pattern_engine::validation::{struct_pattern_for_type, validate, PatternConstructionError};
use pattern_engine::value::Value;

fn s(text: &str) -> String {
    String::from(text)
}

fn three_field_type() -> Vec<String> {
    vec![s("x"), s("y"), s("z")]
}

#[test]
fn struct_pattern_missing_field_is_rejected_before_matching() {
    let r = struct_pattern_for_type(
        s("ThreeDimensionPoint"),
        vec![(s("x"), Pattern::Binding(s("x"))), (s("y"), Pattern::Binding(s("y")))],
        false,
        &three_field_type(),
    );
    match r {
        Err(PatternConstructionError::MissingField(f)) => assert_eq!(f, s("z")),
        other => panic!("expected a missing-field error, got {:?}", other),
    }
}

#[test]
fn struct_pattern_with_rest_may_omit_fields() {
    let r = struct_pattern_for_type(
        s("ThreeDimensionPoint"),
        vec![(s("x"), Pattern::Binding(s("x")))],
        true,
        &three_field_type(),
    );
    assert!(r.is_ok());
}

#[test]
fn struct_pattern_unknown_field_is_rejected() {
    let r = struct_pattern_for_type(
        s("ThreeDimensionPoint"),
        vec![(s("w"), Pattern::Wildcard)],
        true,
        &three_field_type(),
    );
    match r {
        Err(PatternConstructionError::UnknownField(f)) => assert_eq!(f, s("w")),
        other => panic!("expected an unknown-field error, got {:?}", other),
    }
}

#[test]
fn struct_pattern_duplicate_field_is_rejected() {
    let r = struct_pattern_for_type(
        s("Point"),
        vec![
            (s("x"), Pattern::Wildcard),
            (s("x"), Pattern::Wildcard),
            (s("y"), Pattern::Wildcard),
        ],
        false,
        &vec![s("x"), s("y")],
    );
    assert!(matches!(r, Err(PatternConstructionError::DuplicateField(_))));
}

#[test]
fn duplicate_binding_in_tuple_is_rejected() {
    let p = Pattern::TuplePattern(vec![Pattern::Binding(s("a")), Pattern::Binding(s("a"))]);
    match validate(&p) {
        Err(PatternConstructionError::DuplicateBinding(n)) => assert_eq!(n, s("a")),
        other => panic!("expected a duplicate-binding error, got {:?}", other),
    }
}

#[test]
fn at_binding_reusing_inner_name_is_rejected() {
    let p = Pattern::AtBinding(s("a"), Box::new(Pattern::Binding(s("a"))));
    assert!(matches!(validate(&p), Err(PatternConstructionError::DuplicateBinding(_))));
}

#[test]
fn or_alternatives_must_bind_the_same_names() {
    let bad = Pattern::Or(vec![Pattern::Binding(s("a")), Pattern::Binding(s("b"))]);
    match validate(&bad) {
        Err(PatternConstructionError::OrBindingMismatch(_)) => {}
        other => panic!("expected an or-mismatch error, got {:?}", other),
    }
    let good = Pattern::Or(vec![Pattern::Binding(s("a")), Pattern::Binding(s("a"))]);
    assert!(validate(&good).is_ok());
    let no_names = Pattern::Or(vec![
        Pattern::Literal(Value::Integer(1)),
        Pattern::Literal(Value::Integer(2)),
    ]);
    assert!(validate(&no_names).is_ok());
}

#[test]
fn at_most_one_rest_marker_per_tuple() {
    let two = Pattern::TuplePattern(vec![Pattern::Rest, Pattern::Rest]);
    assert!(matches!(validate(&two), Err(PatternConstructionError::MultipleRestMarkers)));
    let one = Pattern::TuplePattern(vec![
        Pattern::Binding(s("a")),
        Pattern::Rest,
        Pattern::Binding(s("b")),
    ]);
    assert!(validate(&one).is_ok());
}

#[test]
fn rest_marker_outside_a_tuple_is_rejected() {
    assert!(matches!(validate(&Pattern::Rest), Err(PatternConstructionError::MisplacedRest)));
    let nested = Pattern::AtBinding(s("a"), Box::new(Pattern::Rest));
    assert!(matches!(validate(&nested), Err(PatternConstructionError::MisplacedRest)));
}

#[test]
fn ordinary_patterns_validate() {
    let p = Pattern::TuplePattern(vec![
        Pattern::Binding(s("a")),
        Pattern::Literal(Value::Integer(1)),
        Pattern::Range(RangeEnd::IntEnd(0), RangeEnd::IntEnd(9), true),
        Pattern::Wildcard,
    ]);
    assert!(validate(&p).is_ok());
}

#[test]
fn wildcard_and_binding_are_irrefutable() {
    assert!(classify_irrefutable(&Pattern::Wildcard));
    assert!(classify_irrefutable(&Pattern::Binding(s("x"))));
    assert!(require_irrefutable(&Pattern::Binding(s("x"))).is_ok());
}

#[test]
fn struct_of_bindings_is_irrefutable() {
    let p = Pattern::StructPattern(
        s("Point"),
        vec![(s("x"), Pattern::Binding(s("x"))), (s("y"), Pattern::Binding(s("y")))],
        false,
    );
    assert!(classify_irrefutable(&p));
}

#[test]
fn literal_and_enum_patterns_are_refutable() {
    let lit = Pattern::Literal(Value::Integer(1));
    assert!(!classify_irrefutable(&lit));
    let tuple_with_literal = Pattern::TuplePattern(vec![
        Pattern::Binding(s("a")),
        Pattern::Literal(Value::Integer(1)),
    ]);
    assert!(!classify_irrefutable(&tuple_with_literal));
    let enum_pattern = Pattern::EnumPattern(s("Option"), s("Some"), Some(Box::new(Pattern::Wildcard)));
    assert!(!classify_irrefutable(&enum_pattern));
    let err = require_irrefutable(&lit).expect_err("a literal is refutable");
    assert_eq!(err.kind, s("literal"));
}

#[test]
fn range_or_and_guard_patterns_are_refutable() {
    assert!(!classify_irrefutable(&Pattern::Range(RangeEnd::IntEnd(0), RangeEnd::IntEnd(1), true)));
    assert!(!classify_irrefutable(&Pattern::Or(vec![Pattern::Wildcard])));
    let guard = Pattern::Guard(
        Box::new(Pattern::Wildcard),
        pattern_engine::pattern::GuardExpr::ConstBool(true),
    );
    assert!(!classify_irrefutable(&guard));
}

#[test]
fn constructed_struct_pattern_matches_its_type() {
    let p = struct_pattern_for_type(
        s("Point"),
        vec![(s("x"), Pattern::Binding(s("a"))), (s("y"), Pattern::Binding(s("b")))],
        false,
        &vec![s("x"), s("y")],
    )
    .expect("a full listing is accepted");
    let v = Value::Struct(
        s("Point"),
        vec![(s("x"), Value::Integer(7)), (s("y"), Value::Integer(0))],
    );
    match try_match(&p, &v) {
        MatchOutcome::Matched(bs) => {
            assert_eq!(bs.get(&s("a")), Some(&Value::Integer(7)));
            assert_eq!(bs.get(&s("b")), Some(&Value::Integer(0)));
        }
        MatchOutcome::NotMatched => panic!("the constructed pattern should match"),
    }
}
