//! The value-equivalence relation: structural comparison of two values, with
//! approximate equality for decimals and parsed equality for durations.

use crate::decimal::{
    decimal_less, difference, epsilon, parse_decimal, parsed_decimal, subtract_decimals,
    DecimalNumber, EPSILON_MANTISSA, EPSILON_SCALE,
};
use crate::dto::{
    components_dto_view, optional_text, values_dto_view, ComponentDto, ComponentView, ListDto,
    ListView, SimpleDto, SimpleView, ValueDto, ValueView,
};
use crate::duration::{durations_equal, parse_duration, parsed_duration};
use crate::text::same_text;
use vstd::prelude::*;

verus! {

/// A condition that ends the run: the comparison cannot be trusted.
#[derive(Clone, Copy, Debug, PartialEq, Eq, Structural)]
pub enum Fatal {
    /// A decimal or a duration that has to be parsed has no text.
    MissingText,
    /// A text does not parse as a decimal.
    InvalidDecimal,
    /// The difference of two decimals overflows.
    DecimalOverflow,
    /// Two decimals are `difference` apart, which is not less than the
    /// tolerance.
    DecimalsDiffer { a: DecimalNumber, b: DecimalNumber, difference: DecimalNumber },
    /// A text does not parse as a duration.
    InvalidDuration,
}

/// What a comparison gives: whether the values are equivalent, or the
/// condition that ends the run.
pub type Outcome = Result<bool, Fatal>;

/// The conjunction of two outcomes, the second consulted only where the
/// first holds.
pub open spec fn both(first: Outcome, second: Outcome) -> Outcome {
    match first {
        Ok(true) => second,
        _ => first,
    }
}

/// The type tag names a decimal type.
pub open spec fn is_decimal_type(typ: Option<Seq<char>>) -> bool {
    typ == Some("xsd:decimal"@) || typ == Some("xsd:double"@)
}

/// The simple value is a duration that is not null.
pub open spec fn is_duration_value(value: SimpleView) -> bool {
    !value.nil && value.typ == Some("xsd:duration"@)
}

/// The verdict on two decimals of which `difference` is the larger minus the
/// smaller, `None` where that overflowed.
pub open spec fn difference_outcome(
    a: DecimalNumber,
    b: DecimalNumber,
    difference: Option<DecimalNumber>,
) -> Outcome {
    match difference {
        None => Err(Fatal::DecimalOverflow),
        Some(d) => if d.less_than(epsilon()) {
            Ok(true)
        } else {
            Err(Fatal::DecimalsDiffer { a, b, difference: d })
        },
    }
}

/// The verdict on two decimals: equivalent where their distance is less
/// than the tolerance, fatal otherwise.
pub open spec fn numbers_outcome(a: DecimalNumber, b: DecimalNumber) -> Outcome {
    if a.less_than(b) {
        difference_outcome(a, b, difference(b, a))
    } else if b.less_than(a) {
        difference_outcome(a, b, difference(a, b))
    } else {
        Ok(true)
    }
}

/// The verdict on two texts that are compared as decimals.
pub open spec fn decimal_outcome(a: Option<Seq<char>>, e: Option<Seq<char>>) -> Outcome {
    match a {
        None => Err(Fatal::MissingText),
        Some(a_text) => match parsed_decimal(a_text) {
            None => Err(Fatal::InvalidDecimal),
            Some(x) => match e {
                None => Err(Fatal::MissingText),
                Some(e_text) => match parsed_decimal(e_text) {
                    None => Err(Fatal::InvalidDecimal),
                    Some(y) => numbers_outcome(x, y),
                },
            },
        },
    }
}

/// The verdict on two texts that are compared as durations.
pub open spec fn duration_outcome(a: Option<Seq<char>>, e: Option<Seq<char>>) -> Outcome {
    match a {
        None => Err(Fatal::MissingText),
        Some(a_text) => match parsed_duration(a_text) {
            None => Err(Fatal::InvalidDuration),
            Some(x) => match e {
                None => Err(Fatal::MissingText),
                Some(e_text) => match parsed_duration(e_text) {
                    None => Err(Fatal::InvalidDuration),
                    Some(y) => Ok(durations_equal(x, y)),
                },
            },
        },
    }
}

/// The two simple values have the same type, text and null flag.
pub open spec fn same_simple(a: SimpleView, e: SimpleView) -> bool {
    a.typ == e.typ && a.text == e.text && a.nil == e.nil
}

/// The verdict on two simple values.
pub open spec fn simple_outcome(a: SimpleView, e: SimpleView) -> Outcome {
    if same_simple(a, e) {
        Ok(true)
    } else if is_decimal_type(a.typ) && is_decimal_type(e.typ) && a.nil == e.nil {
        decimal_outcome(a.text, e.text)
    } else if is_duration_value(a) && is_duration_value(e) {
        duration_outcome(a.text, e.text)
    } else {
        Ok(false)
    }
}

/// The verdict on two values: their simple parts, then their components,
/// then their lists, each present in both or absent in both.
pub open spec fn value_outcome(a: ValueView, e: ValueView) -> Outcome
    decreases a, 0nat,
{
    both(
        match (a.simple, e.simple) {
            (Some(x), Some(y)) => simple_outcome(x, y),
            (None, None) => Ok(true),
            _ => Ok(false),
        },
        both(
            match (a.components, e.components) {
                (Some(x), Some(y)) => if x.len() == y.len() {
                    components_outcome_from(x, y, 0)
                } else {
                    Ok(false)
                },
                (None, None) => Ok(true),
                _ => Ok(false),
            },
            match (a.list, e.list) {
                (Some(x), Some(y)) => list_outcome(x, y),
                (None, None) => Ok(true),
                _ => Ok(false),
            },
        ),
    )
}

/// The verdict on two components: names, then values, then null flags.
pub open spec fn component_outcome(a: ComponentView, e: ComponentView) -> Outcome
    decreases a, 0nat,
{
    both(
        Ok(a.name == e.name),
        both(
            match (a.value, e.value) {
                (Some(x), Some(y)) => value_outcome(x, y),
                (None, None) => Ok(true),
                _ => Ok(false),
            },
            Ok(a.nil == e.nil),
        ),
    )
}

/// The verdict on two lists: items, then null flags.
pub open spec fn list_outcome(a: ListView, e: ListView) -> Outcome
    decreases a, 0nat,
{
    both(
        if a.items.len() == e.items.len() {
            values_outcome_from(a.items, e.items, 0)
        } else {
            Ok(false)
        },
        Ok(a.nil == e.nil),
    )
}

/// The verdict on two sequences of components from index `i` on, pairwise
/// and in order.
pub open spec fn components_outcome_from(
    a: Seq<ComponentView>,
    e: Seq<ComponentView>,
    i: int,
) -> Outcome
    decreases a, a.len() - i,
{
    if 0 <= i < a.len() {
        both(component_outcome(a[i], e[i]), components_outcome_from(a, e, i + 1))
    } else {
        Ok(true)
    }
}

/// The verdict on two sequences of values from index `i` on, pairwise and
/// in order.
pub open spec fn values_outcome_from(a: Seq<ValueView>, e: Seq<ValueView>, i: int) -> Outcome
    decreases a, a.len() - i,
{
    if 0 <= i < a.len() {
        both(value_outcome(a[i], e[i]), values_outcome_from(a, e, i + 1))
    } else {
        Ok(true)
    }
}

/// Two values are equivalent: the comparison holds and nothing fatal stands
/// in its way.
pub open spec fn equivalent(a: ValueView, e: ValueView) -> bool {
    value_outcome(a, e) == Ok::<bool, Fatal>(true)
}

/// Two simple values are equivalent.
pub open spec fn simple_equivalent(a: SimpleView, e: SimpleView) -> bool {
    simple_outcome(a, e) == Ok::<bool, Fatal>(true)
}

/// Whether the type tag names a decimal type.
pub fn is_decimal(opt_type: &Option<String>) -> (r: bool)
    ensures
        r == is_decimal_type(optional_text(*opt_type)),
{
    match opt_type {
        None => false,
        Some(typ) => same_text(typ.as_str(), "xsd:decimal") || same_text(
            typ.as_str(),
            "xsd:double",
        ),
    }
}

/// Whether the simple value is a duration that is not null.
pub fn is_duration(value: &SimpleDto) -> (r: bool)
    ensures
        r == is_duration_value(value@),
{
    if value.nil {
        return false;
    }
    match &value.typ {
        None => false,
        Some(typ) => same_text(typ.as_str(), "xsd:duration"),
    }
}

/// The lexical form of a simple value that has one.
pub fn text(value: &SimpleDto) -> (r: String)
    requires
        value.text is Some,
    ensures
        Some(r@) == value@.text,
{
    match &value.text {
        Some(t) => t.clone(),
        None => String::new(),
    }
}

/// Whether two optional strings are both absent or hold the same text.
pub fn same_optional_text(a: &Option<String>, b: &Option<String>) -> (r: bool)
    ensures
        r == (optional_text(*a) == optional_text(*b)),
{
    match (a, b) {
        (Some(x), Some(y)) => same_text(x.as_str(), y.as_str()),
        (None, None) => true,
        _ => false,
    }
}

/// The tolerance 0.000_000_006_7.
pub fn tolerance() -> (r: DecimalNumber)
    ensures
        r == epsilon(),
        r.representable(),
{
    DecimalNumber { mantissa: EPSILON_MANTISSA, scale: EPSILON_SCALE }
}

/// Judges two decimals by the difference of the larger and the smaller:
/// equivalent where it is less than the tolerance, fatal where it is not or
/// where it overflowed.
pub fn judge_difference(
    a: DecimalNumber,
    b: DecimalNumber,
    distance: Option<DecimalNumber>,
) -> (r: Outcome)
    requires
        distance matches Some(d) ==> d.representable(),
    ensures
        r == difference_outcome(a, b, distance),
{
    match distance {
        None => Err(Fatal::DecimalOverflow),
        Some(d) => {
            let limit = tolerance();
            if decimal_less(&d, &limit) {
                Ok(true)
            } else {
                Err(Fatal::DecimalsDiffer { a, b, difference: d })
            }
        },
    }
}

/// Compares two decimals with the tolerance.
pub fn compare_numbers(a: DecimalNumber, b: DecimalNumber) -> (r: Outcome)
    requires
        a.representable(),
        b.representable(),
    ensures
        r == numbers_outcome(a, b),
{
    if decimal_less(&a, &b) {
        let distance = subtract_decimals(&b, &a);
        judge_difference(a, b, distance)
    } else if decimal_less(&b, &a) {
        let distance = subtract_decimals(&a, &b);
        judge_difference(a, b, distance)
    } else {
        Ok(true)
    }
}

/// Compares two texts as decimals.
pub fn compare_decimal_texts(a: &Option<String>, e: &Option<String>) -> (r: Outcome)
    ensures
        r == decimal_outcome(optional_text(*a), optional_text(*e)),
{
    let x = match a {
        None => {
            return Err(Fatal::MissingText);
        },
        Some(a_text) => match parse_decimal(a_text.as_str()) {
            None => {
                return Err(Fatal::InvalidDecimal);
            },
            Some(x) => x,
        },
    };
    let y = match e {
        None => {
            return Err(Fatal::MissingText);
        },
        Some(e_text) => match parse_decimal(e_text.as_str()) {
            None => {
                return Err(Fatal::InvalidDecimal);
            },
            Some(y) => y,
        },
    };
    compare_numbers(x, y)
}

/// Compares two texts as durations.
pub fn compare_duration_texts(a: &Option<String>, e: &Option<String>) -> (r: Outcome)
    ensures
        r == duration_outcome(optional_text(*a), optional_text(*e)),
{
    let x = match a {
        None => {
            return Err(Fatal::MissingText);
        },
        Some(a_text) => match parse_duration(a_text.as_str()) {
            None => {
                return Err(Fatal::InvalidDuration);
            },
            Some(x) => x,
        },
    };
    let y = match e {
        None => {
            return Err(Fatal::MissingText);
        },
        Some(e_text) => match parse_duration(e_text.as_str()) {
            None => {
                return Err(Fatal::InvalidDuration);
            },
            Some(y) => y,
        },
    };
    Ok(x.same_as(&y))
}

impl SimpleDto {
    /// Compares this simple value, the actual one, with the expected one.
    pub fn compare(&self, expected: &SimpleDto) -> (r: Outcome)
        ensures
            r == simple_outcome(self@, expected@),
    {
        if same_optional_text(&self.typ, &expected.typ) && same_optional_text(
            &self.text,
            &expected.text,
        ) && self.nil == expected.nil {
            return Ok(true);
        }
        if is_decimal(&self.typ) && is_decimal(&expected.typ) && self.nil == expected.nil {
            return compare_decimal_texts(&self.text, &expected.text);
        }
        if is_duration(self) && is_duration(expected) {
            return compare_duration_texts(&self.text, &expected.text);
        }
        Ok(false)
    }
}

impl ValueDto {
    /// Compares this value, the actual one, with the expected one.
    pub fn compare(&self, expected: &ValueDto) -> (r: Outcome)
        ensures
            r == value_outcome(self@, expected@),
        decreases self, 0nat,
    {
        let simple = match (&self.simple, &expected.simple) {
            (Some(x), Some(y)) => x.compare(y),
            (None, None) => Ok(true),
            _ => Ok(false),
        };
        match simple {
            Ok(true) => {},
            _ => {
                return simple;
            },
        }
        let components = match (&self.components, &expected.components) {
            (Some(x), Some(y)) => compare_components(x, y),
            (None, None) => Ok(true),
            _ => Ok(false),
        };
        match components {
            Ok(true) => {},
            _ => {
                return components;
            },
        }
        match (&self.list, &expected.list) {
            (Some(x), Some(y)) => x.compare(y),
            (None, None) => Ok(true),
            _ => Ok(false),
        }
    }
}

impl ComponentDto {
    /// Compares this component, the actual one, with the expected one.
    pub fn compare(&self, expected: &ComponentDto) -> (r: Outcome)
        ensures
            r == component_outcome(self@, expected@),
        decreases self, 0nat,
    {
        if !same_optional_text(&self.name, &expected.name) {
            return Ok(false);
        }
        let value = match (&self.value, &expected.value) {
            (Some(x), Some(y)) => x.compare(y),
            (None, None) => Ok(true),
            _ => Ok(false),
        };
        match value {
            Ok(true) => {},
            _ => {
                return value;
            },
        }
        Ok(self.nil == expected.nil)
    }
}

impl ListDto {
    /// Compares this list, the actual one, with the expected one.
    pub fn compare(&self, expected: &ListDto) -> (r: Outcome)
        ensures
            r == list_outcome(self@, expected@),
        decreases self, 0nat,
    {
        let items = compare_values(&self.items, &expected.items);
        match items {
            Ok(true) => {},
            _ => {
                return items;
            },
        }
        Ok(self.nil == expected.nil)
    }
}

/// Compares two vectors of components: their lengths, then the components
/// pairwise and in order, up to the first pair that is not equivalent.
pub fn compare_components(a: &Vec<ComponentDto>, e: &Vec<ComponentDto>) -> (r: Outcome)
    ensures
        r == if a@.len() == e@.len() {
            components_outcome_from(components_dto_view(a@), components_dto_view(e@), 0)
        } else {
            Ok(false)
        },
    decreases a, 0nat,
{
    if a.len() != e.len() {
        return Ok(false);
    }
    let ghost av = components_dto_view(a@);
    let ghost ev = components_dto_view(e@);
    let mut i: usize = 0;
    while i < a.len()
        invariant
            i <= a.len(),
            a.len() == e.len(),
            av == components_dto_view(a@),
            ev == components_dto_view(e@),
            components_outcome_from(av, ev, 0) == components_outcome_from(av, ev, i as int),
        decreases a.len() - i,
    {
        let step = a[i].compare(&e[i]);
        match step {
            Ok(true) => {},
            _ => {
                return step;
            },
        }
        i = i + 1;
    }
    Ok(true)
}

/// Compares two vectors of values: their lengths, then the values pairwise
/// and in order, up to the first pair that is not equivalent.
pub fn compare_values(a: &Vec<ValueDto>, e: &Vec<ValueDto>) -> (r: Outcome)
    ensures
        r == if a@.len() == e@.len() {
            values_outcome_from(values_dto_view(a@), values_dto_view(e@), 0)
        } else {
            Ok(false)
        },
    decreases a, 0nat,
{
    if a.len() != e.len() {
        return Ok(false);
    }
    let ghost av = values_dto_view(a@);
    let ghost ev = values_dto_view(e@);
    let mut i: usize = 0;
    while i < a.len()
        invariant
            i <= a.len(),
            a.len() == e.len(),
            av == values_dto_view(a@),
            ev == values_dto_view(e@),
            values_outcome_from(av, ev, 0) == values_outcome_from(av, ev, i as int),
        decreases a.len() - i,
    {
        let step = a[i].compare(&e[i]);
        match step {
            Ok(true) => {},
            _ => {
                return step;
            },
        }
        i = i + 1;
    }
    Ok(true)
}

/// Every value is equivalent to itself.
pub proof fn lemma_equivalent_reflexive(v: ValueView)
    ensures
        equivalent(v, v),
    decreases v, 0nat,
{
    match v.components {
        Some(x) => {
            lemma_components_reflexive(x, 0);
        },
        None => {},
    }
    match v.list {
        Some(l) => {
            lemma_values_reflexive(l.items, 0);
        },
        None => {},
    }
}

proof fn lemma_components_reflexive(x: Seq<ComponentView>, i: int)
    requires
        0 <= i <= x.len(),
    ensures
        components_outcome_from(x, x, i) == Ok::<bool, Fatal>(true),
    decreases x, x.len() - i,
{
    if i < x.len() {
        match x[i].value {
            Some(v) => {
                lemma_equivalent_reflexive(v);
            },
            None => {},
        }
        assert(component_outcome(x[i], x[i]) == Ok::<bool, Fatal>(true));
        lemma_components_reflexive(x, i + 1);
    }
}

proof fn lemma_values_reflexive(x: Seq<ValueView>, i: int)
    requires
        0 <= i <= x.len(),
    ensures
        values_outcome_from(x, x, i) == Ok::<bool, Fatal>(true),
    decreases x, x.len() - i,
{
    if i < x.len() {
        lemma_equivalent_reflexive(x[i]);
        lemma_values_reflexive(x, i + 1);
    }
}

/// Equivalence of simple values is symmetric.
pub proof fn lemma_simple_equivalent_symmetric(a: SimpleView, e: SimpleView)
    ensures
        simple_equivalent(a, e) == simple_equivalent(e, a),
{
}

/// Equivalence is symmetric: the actual and the expected value may change
/// places.
pub proof fn lemma_equivalent_symmetric(a: ValueView, e: ValueView)
    ensures
        equivalent(a, e) == equivalent(e, a),
    decreases a, 0nat,
{
    match (a.simple, e.simple) {
        (Some(x), Some(y)) => {
            lemma_simple_equivalent_symmetric(x, y);
        },
        _ => {},
    }
    match (a.components, e.components) {
        (Some(x), Some(y)) => {
            if x.len() == y.len() {
                lemma_components_symmetric(x, y, 0);
            }
        },
        _ => {},
    }
    match (a.list, e.list) {
        (Some(x), Some(y)) => {
            if x.items.len() == y.items.len() {
                lemma_values_symmetric(x.items, y.items, 0);
            }
        },
        _ => {},
    }
}

proof fn lemma_components_symmetric(x: Seq<ComponentView>, y: Seq<ComponentView>, i: int)
    requires
        0 <= i <= x.len(),
        x.len() == y.len(),
    ensures
        (components_outcome_from(x, y, i) == Ok::<bool, Fatal>(true)) == (components_outcome_from(
            y,
            x,
            i,
        ) == Ok::<bool, Fatal>(true)),
    decreases x, x.len() - i,
{
    if i < x.len() {
        match (x[i].value, y[i].value) {
            (Some(v), Some(w)) => {
                lemma_equivalent_symmetric(v, w);
            },
            _ => {},
        }
        assert((component_outcome(x[i], y[i]) == Ok::<bool, Fatal>(true)) == (component_outcome(
            y[i],
            x[i],
        ) == Ok::<bool, Fatal>(true)));
        lemma_components_symmetric(x, y, i + 1);
    }
}

proof fn lemma_values_symmetric(x: Seq<ValueView>, y: Seq<ValueView>, i: int)
    requires
        0 <= i <= x.len(),
        x.len() == y.len(),
    ensures
        (values_outcome_from(x, y, i) == Ok::<bool, Fatal>(true)) == (values_outcome_from(y, x, i)
            == Ok::<bool, Fatal>(true)),
    decreases x, x.len() - i,
{
    if i < x.len() {
        lemma_equivalent_symmetric(x[i], y[i]);
        lemma_values_symmetric(x, y, i + 1);
    }
}

/// Two simple values whose types are neither decimal nor duration are
/// equivalent exactly when type, text and null flag are the same.
pub proof fn lemma_plain_simple_equivalent(a: SimpleView, e: SimpleView)
    requires
        !is_decimal_type(a.typ),
        !is_decimal_type(e.typ),
        a.typ != Some("xsd:duration"@),
        e.typ != Some("xsd:duration"@),
    ensures
        simple_equivalent(a, e) <==> (a.typ == e.typ && a.text == e.text && a.nil == e.nil),
{
}

} // verus!
