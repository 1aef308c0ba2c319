use dmn_tck_runner::decimal::DecimalNumber;
use dmn_tck_runner::dto::{ComponentDto, ListDto, SimpleDto, ValueDto};
use dmn_tck_runner::duration::DurationParts;
use dmn_tck_runner::equivalence::{
    compare_components, compare_decimal_texts, compare_duration_texts, compare_numbers,
    compare_values, is_decimal, is_duration, judge_difference, same_optional_text, text, tolerance,
    Fatal,
};

fn simple(typ: &str, text: &str) -> SimpleDto {
    SimpleDto { typ: Some(typ.to_string()), text: Some(text.to_string()), nil: false }
}

fn simple_value(typ: &str, text: &str) -> ValueDto {
    ValueDto { simple: Some(simple(typ, text)), components: None, list: None }
}

fn component(name: &str, value: Option<ValueDto>) -> ComponentDto {
    ComponentDto { name: Some(name.to_string()), value, nil: false }
}

fn components_value(components: Vec<ComponentDto>) -> ValueDto {
    ValueDto { simple: None, components: Some(components), list: None }
}

fn list_value(items: Vec<ValueDto>) -> ValueDto {
    ValueDto { simple: None, components: None, list: Some(ListDto { items, nil: false }) }
}

fn number(mantissa: i128, scale: u32) -> DecimalNumber {
    DecimalNumber { mantissa, scale }
}

#[test]
fn equal_simples_are_equivalent() {
    assert_eq!(simple("xsd:string", "a").compare(&simple("xsd:string", "a")), Ok(true));
}

#[test]
fn plain_simples_are_equivalent_only_when_all_fields_agree() {
    let a = simple("xsd:string", "a");
    assert_eq!(a.compare(&simple("xsd:string", "b")), Ok(false));
    assert_eq!(a.compare(&simple("xsd:boolean", "a")), Ok(false));
    let nil = SimpleDto { typ: Some("xsd:string".to_string()), text: Some("a".to_string()), nil: true };
    assert_eq!(a.compare(&nil), Ok(false));
    let untyped = SimpleDto { typ: None, text: Some("a".to_string()), nil: false };
    assert_eq!(a.compare(&untyped), Ok(false));
    assert_eq!(untyped.compare(&untyped), Ok(true));
}

#[test]
fn decimals_with_trailing_zeros_are_equivalent() {
    assert_eq!(simple("xsd:decimal", "1.0000000000").compare(&simple("xsd:decimal", "1.0")), Ok(true));
}

#[test]
fn decimals_within_epsilon_are_equivalent() {
    assert_eq!(simple("xsd:decimal", "1.00000000001").compare(&simple("xsd:decimal", "1.0")), Ok(true));
    assert_eq!(simple("xsd:decimal", "1.0").compare(&simple("xsd:decimal", "1.00000000001")), Ok(true));
    assert_eq!(simple("xsd:decimal", "0.0000000066").compare(&simple("xsd:decimal", "0")), Ok(true));
}

#[test]
fn decimal_and_double_are_compared_as_decimals() {
    assert_eq!(simple("xsd:double", "2.50").compare(&simple("xsd:decimal", "2.5")), Ok(true));
}

#[test]
fn decimal_near_miss_is_fatal() {
    assert_eq!(
        simple("xsd:decimal", "1.0").compare(&simple("xsd:decimal", "1.0000001")),
        Err(Fatal::DecimalsDiffer {
            a: number(10, 1),
            b: number(10000001, 7),
            difference: number(1, 7),
        })
    );
}

#[test]
fn decimal_far_miss_is_fatal() {
    assert_eq!(
        simple("xsd:decimal", "1.1").compare(&simple("xsd:decimal", "1.0")),
        Err(Fatal::DecimalsDiffer { a: number(11, 1), b: number(10, 1), difference: number(1, 1) })
    );
}

#[test]
fn decimal_difference_of_exactly_epsilon_is_fatal() {
    assert_eq!(
        simple("xsd:decimal", "0.0000000067").compare(&simple("xsd:decimal", "0")),
        Err(Fatal::DecimalsDiffer {
            a: number(67, 10),
            b: number(0, 0),
            difference: number(67, 10),
        })
    );
}

#[test]
fn decimal_that_does_not_parse_is_fatal() {
    assert_eq!(
        simple("xsd:decimal", "abc").compare(&simple("xsd:decimal", "1.0")),
        Err(Fatal::InvalidDecimal)
    );
    assert_eq!(
        simple("xsd:decimal", "1.0").compare(&simple("xsd:decimal", "abc")),
        Err(Fatal::InvalidDecimal)
    );
}

#[test]
fn decimal_without_text_is_fatal() {
    let without = SimpleDto { typ: Some("xsd:decimal".to_string()), text: None, nil: false };
    assert_eq!(without.compare(&simple("xsd:decimal", "1.0")), Err(Fatal::MissingText));
    assert_eq!(simple("xsd:decimal", "1.0").compare(&without), Err(Fatal::MissingText));
    assert_eq!(simple("xsd:decimal", "abc").compare(&without), Err(Fatal::InvalidDecimal));
}

#[test]
fn decimal_difference_that_overflows_is_fatal() {
    assert_eq!(
        simple("xsd:decimal", "79228162514264337593543950335")
            .compare(&simple("xsd:decimal", "-79228162514264337593543950335")),
        Err(Fatal::DecimalOverflow)
    );
}

#[test]
fn decimals_with_different_null_flags_are_not_parsed() {
    let nil = SimpleDto { typ: Some("xsd:decimal".to_string()), text: Some("abc".to_string()), nil: true };
    assert_eq!(nil.compare(&simple("xsd:decimal", "1.0")), Ok(false));
}

#[test]
fn durations_are_compared_by_their_parsed_components() {
    assert_eq!(simple("xsd:duration", "PT1H").compare(&simple("xsd:duration", "PT1.0H")), Ok(true));
    assert_eq!(simple("xsd:duration", "P1Y2M").compare(&simple("xsd:duration", "P1Y2M0D")), Ok(true));
}

#[test]
fn durations_are_not_normalized_across_units() {
    assert_eq!(simple("xsd:duration", "PT1H").compare(&simple("xsd:duration", "PT60M")), Ok(false));
    assert_eq!(simple("xsd:duration", "P1Y").compare(&simple("xsd:duration", "P12M")), Ok(false));
}

#[test]
fn duration_that_does_not_parse_is_fatal() {
    assert_eq!(
        simple("xsd:duration", "one hour").compare(&simple("xsd:duration", "PT1H")),
        Err(Fatal::InvalidDuration)
    );
    assert_eq!(
        simple("xsd:duration", "PT1H").compare(&simple("xsd:duration", "one hour")),
        Err(Fatal::InvalidDuration)
    );
}

#[test]
fn duration_without_text_is_fatal() {
    let without = SimpleDto { typ: Some("xsd:duration".to_string()), text: None, nil: false };
    assert_eq!(without.compare(&simple("xsd:duration", "PT1H")), Err(Fatal::MissingText));
}

#[test]
fn null_durations_are_not_parsed() {
    let nil = SimpleDto { typ: Some("xsd:duration".to_string()), text: Some("x".to_string()), nil: true };
    let other = SimpleDto { typ: Some("xsd:duration".to_string()), text: Some("y".to_string()), nil: true };
    assert_eq!(nil.compare(&other), Ok(false));
    assert_eq!(nil.compare(&nil), Ok(true));
}

#[test]
fn duration_parts_compare_as_numbers() {
    let zero = DurationParts { year: 0, month: 0, day: 0, hour: 0, minute: 0, second: 0 };
    let negative_zero = DurationParts { year: 0x8000_0000, ..zero };
    let one = DurationParts { year: 0x3f80_0000, ..zero };
    let not_a_number = DurationParts { year: 0x7fc0_0000, ..zero };
    assert!(zero.same_as(&zero));
    assert!(zero.same_as(&negative_zero));
    assert!(one.same_as(&one));
    assert!(!one.same_as(&zero));
    assert!(!not_a_number.same_as(&not_a_number));
}

#[test]
fn equivalence_is_reflexive_on_a_nested_value() {
    let value = components_value(vec![
        component("a", Some(simple_value("xsd:decimal", "not a number"))),
        component("b", Some(list_value(vec![simple_value("xsd:duration", "bad"), list_value(vec![])]))),
        component("c", None),
    ]);
    assert_eq!(value.compare(&value), Ok(true));
}

#[test]
fn equivalence_is_symmetric_on_concrete_values() {
    let a = list_value(vec![simple_value("xsd:decimal", "1.0"), simple_value("xsd:duration", "PT1H")]);
    let b = list_value(vec![simple_value("xsd:double", "1.000"), simple_value("xsd:duration", "PT1.0H")]);
    assert_eq!(a.compare(&b), Ok(true));
    assert_eq!(b.compare(&a), Ok(true));
    let c = list_value(vec![simple_value("xsd:string", "1.0"), simple_value("xsd:duration", "PT1H")]);
    assert_eq!(a.compare(&c), Ok(false));
    assert_eq!(c.compare(&a), Ok(false));
}

#[test]
fn values_of_different_variants_are_not_equivalent() {
    assert_eq!(simple_value("xsd:string", "a").compare(&list_value(vec![])), Ok(false));
    assert_eq!(list_value(vec![]).compare(&components_value(vec![])), Ok(false));
    assert_eq!(components_value(vec![]).compare(&simple_value("xsd:string", "a")), Ok(false));
}

#[test]
fn components_are_compared_pairwise_and_in_order() {
    let a = components_value(vec![
        component("x", Some(simple_value("xsd:string", "1"))),
        component("y", Some(simple_value("xsd:string", "2"))),
    ]);
    let swapped = components_value(vec![
        component("y", Some(simple_value("xsd:string", "2"))),
        component("x", Some(simple_value("xsd:string", "1"))),
    ]);
    let shorter = components_value(vec![component("x", Some(simple_value("xsd:string", "1")))]);
    assert_eq!(a.compare(&swapped), Ok(false));
    assert_eq!(a.compare(&shorter), Ok(false));
    let renamed = components_value(vec![
        component("x", Some(simple_value("xsd:string", "1"))),
        component("z", Some(simple_value("xsd:string", "2"))),
    ]);
    assert_eq!(a.compare(&renamed), Ok(false));
}

#[test]
fn components_differ_by_null_flag_and_by_presence_of_value() {
    let with = component("x", Some(simple_value("xsd:string", "1")));
    let without = component("x", None);
    assert_eq!(with.compare(&without), Ok(false));
    assert_eq!(without.compare(&component("x", None)), Ok(true));
    let nil = ComponentDto { name: Some("x".to_string()), value: None, nil: true };
    assert_eq!(without.compare(&nil), Ok(false));
    let unnamed = ComponentDto { name: None, value: None, nil: false };
    assert_eq!(without.compare(&unnamed), Ok(false));
}

#[test]
fn a_difference_before_a_fatal_pair_ends_the_comparison() {
    let actual = list_value(vec![simple_value("xsd:string", "a"), simple_value("xsd:decimal", "1.1")]);
    let expected = list_value(vec![simple_value("xsd:string", "b"), simple_value("xsd:decimal", "1.0")]);
    assert_eq!(actual.compare(&expected), Ok(false));
}

#[test]
fn a_fatal_pair_before_a_difference_is_fatal() {
    let actual = list_value(vec![simple_value("xsd:decimal", "1.1"), simple_value("xsd:string", "a")]);
    let expected = list_value(vec![simple_value("xsd:decimal", "1.0"), simple_value("xsd:string", "b")]);
    assert_eq!(
        actual.compare(&expected),
        Err(Fatal::DecimalsDiffer { a: number(11, 1), b: number(10, 1), difference: number(1, 1) })
    );
}

#[test]
fn lists_differ_by_null_flag_and_length() {
    let a = ListDto { items: vec![simple_value("xsd:string", "a")], nil: false };
    let nil = ListDto { items: vec![simple_value("xsd:string", "a")], nil: true };
    let empty = ListDto { items: vec![], nil: false };
    assert_eq!(a.compare(&nil), Ok(false));
    assert_eq!(a.compare(&empty), Ok(false));
    assert_eq!(a.compare(&a), Ok(true));
}

#[test]
fn vectors_are_compared_by_length_first() {
    assert_eq!(compare_values(&vec![], &vec![]), Ok(true));
    assert_eq!(compare_values(&vec![simple_value("xsd:decimal", "bad")], &vec![]), Ok(false));
    assert_eq!(compare_components(&vec![], &vec![component("x", None)]), Ok(false));
    assert_eq!(compare_components(&vec![component("x", None)], &vec![component("x", None)]), Ok(true));
}

#[test]
fn type_tests_recognise_decimal_and_duration() {
    assert!(is_decimal(&Some("xsd:decimal".to_string())));
    assert!(is_decimal(&Some("xsd:double".to_string())));
    assert!(!is_decimal(&Some("xsd:string".to_string())));
    assert!(!is_decimal(&None));
    assert!(is_duration(&simple("xsd:duration", "PT1H")));
    assert!(!is_duration(&simple("xsd:decimal", "1")));
    assert!(!is_duration(&SimpleDto { typ: Some("xsd:duration".to_string()), text: None, nil: true }));
    assert!(!is_duration(&SimpleDto { typ: None, text: None, nil: false }));
}

#[test]
fn text_hands_out_the_lexical_form() {
    assert_eq!(text(&simple("xsd:string", "hello")), "hello");
}

#[test]
fn optional_texts_are_same_when_both_absent_or_equal() {
    assert!(same_optional_text(&None, &None));
    assert!(same_optional_text(&Some("a".to_string()), &Some("a".to_string())));
    assert!(!same_optional_text(&Some("a".to_string()), &Some("b".to_string())));
    assert!(!same_optional_text(&Some("a".to_string()), &None));
    assert!(!same_optional_text(&None, &Some("a".to_string())));
}

#[test]
fn tolerance_is_the_exact_constant() {
    assert_eq!(tolerance(), number(67, 10));
}

#[test]
fn judge_difference_compares_with_the_tolerance() {
    let a = number(10, 1);
    let b = number(11, 1);
    assert_eq!(judge_difference(a, b, Some(number(66, 10))), Ok(true));
    assert_eq!(judge_difference(a, b, Some(number(0, 0))), Ok(true));
    assert_eq!(judge_difference(a, b, Some(number(669, 11))), Ok(true));
    assert_eq!(
        judge_difference(a, b, Some(number(67, 10))),
        Err(Fatal::DecimalsDiffer { a, b, difference: number(67, 10) })
    );
    assert_eq!(
        judge_difference(a, b, Some(number(1, 0))),
        Err(Fatal::DecimalsDiffer { a, b, difference: number(1, 0) })
    );
    assert_eq!(judge_difference(a, b, None), Err(Fatal::DecimalOverflow));
}

#[test]
fn compare_numbers_takes_the_distance_either_way() {
    assert_eq!(compare_numbers(number(10, 1), number(100, 2)), Ok(true));
    assert_eq!(compare_numbers(number(-5, 0), number(-5, 0)), Ok(true));
    assert_eq!(
        compare_numbers(number(1, 0), number(2, 0)),
        Err(Fatal::DecimalsDiffer { a: number(1, 0), b: number(2, 0), difference: number(1, 0) })
    );
    assert_eq!(
        compare_numbers(number(2, 0), number(1, 0)),
        Err(Fatal::DecimalsDiffer { a: number(2, 0), b: number(1, 0), difference: number(1, 0) })
    );
    assert_eq!(
        compare_numbers(number(-1, 0), number(1, 0)),
        Err(Fatal::DecimalsDiffer { a: number(-1, 0), b: number(1, 0), difference: number(2, 0) })
    );
}

#[test]
fn texts_are_compared_as_decimals() {
    assert_eq!(compare_decimal_texts(&Some("3.14".to_string()), &Some("3.140".to_string())), Ok(true));
    assert_eq!(compare_decimal_texts(&None, &Some("3.140".to_string())), Err(Fatal::MissingText));
    assert_eq!(compare_decimal_texts(&Some("".to_string()), &Some("1".to_string())), Err(Fatal::InvalidDecimal));
}

#[test]
fn texts_are_compared_as_durations() {
    assert_eq!(compare_duration_texts(&Some("P1D".to_string()), &Some("P1D".to_string())), Ok(true));
    assert_eq!(compare_duration_texts(&Some("P1D".to_string()), &Some("P2D".to_string())), Ok(false));
    assert_eq!(compare_duration_texts(&Some("P1D".to_string()), &None), Err(Fatal::MissingText));
    assert_eq!(compare_duration_texts(&Some("P".to_string()), &Some("P1D".to_string())), Err(Fatal::InvalidDuration));
}
