//! Decimal numbers as plain integers, compared through `rust_decimal`.

use vstd::prelude::*;

verus! {

/// Largest magnitude of a mantissa: 2^96 - 1.
pub const MAX_MANTISSA: i128 = 79_228_162_514_264_337_593_543_950_335;

/// Largest scale of a decimal number.
pub const MAX_SCALE: u32 = 28;

/// Mantissa of the tolerance 0.000_000_006_7.
pub const EPSILON_MANTISSA: i128 = 67;

/// Scale of the tolerance 0.000_000_006_7.
pub const EPSILON_SCALE: u32 = 10;

/// A decimal number: its value is `mantissa / 10^scale`.
#[derive(Clone, Copy, Debug, PartialEq, Eq, Structural)]
pub struct DecimalNumber {
    pub mantissa: i128,
    pub scale: u32,
}

/// Ten to the power `n`.
pub open spec fn pow10(n: nat) -> nat
    decreases n,
{
    if n == 0 {
        1
    } else {
        10 * pow10((n - 1) as nat)
    }
}

/// What `rust_decimal` parses a text to: mantissa and scale, or `None` where
/// it rejects the text.
pub uninterp spec fn decimal_from_str(text: Seq<char>) -> Option<(i128, u32)>;

/// What `rust_decimal` gives as the difference of two decimal numbers, each
/// given by mantissa and scale: mantissa and scale of the difference, or
/// `None` where the difference overflows.
pub uninterp spec fn decimal_checked_sub(
    a_mantissa: i128,
    a_scale: u32,
    b_mantissa: i128,
    b_scale: u32,
) -> Option<(i128, u32)>;

impl DecimalNumber {
    /// The number fits the 96-bit mantissa and the scale range of
    /// `rust_decimal::Decimal`.
    pub open spec fn representable(self) -> bool {
        &&& self.scale <= MAX_SCALE
        &&& -MAX_MANTISSA <= self.mantissa <= MAX_MANTISSA
    }

    /// Numeric order: `self < other` as rational numbers.
    pub open spec fn less_than(self, other: DecimalNumber) -> bool {
        self.mantissa * pow10(other.scale as nat) < other.mantissa * pow10(self.scale as nat)
    }
}

/// The tolerance 0.000_000_006_7 as a decimal number.
pub open spec fn epsilon() -> DecimalNumber {
    DecimalNumber { mantissa: EPSILON_MANTISSA, scale: EPSILON_SCALE }
}

/// The parsed form of a text, over the name for the parser's result.
pub open spec fn parsed_decimal(text: Seq<char>) -> Option<DecimalNumber> {
    match decimal_from_str(text) {
        Some((mantissa, scale)) => Some(DecimalNumber { mantissa, scale }),
        None => None,
    }
}

/// The difference `a - b`, over the name for the subtraction's result.
pub open spec fn difference(a: DecimalNumber, b: DecimalNumber) -> Option<DecimalNumber> {
    match decimal_checked_sub(a.mantissa, a.scale, b.mantissa, b.scale) {
        Some((mantissa, scale)) => Some(DecimalNumber { mantissa, scale }),
        None => None,
    }
}

/// Calls `rust_decimal::Decimal::from_str`. The result is the parsed number
/// as mantissa and scale, `None` where the text is rejected. A parsed number
/// is representable: the crate keeps 96 bits of mantissa and a scale between
/// 0 and 28.
#[verifier::external_body]
pub(crate) fn parse_decimal(text: &str) -> (r: Option<DecimalNumber>)
    ensures
        r == match decimal_from_str(text@) {
            Some((mantissa, scale)) => Some((DecimalNumber { mantissa, scale })),
            None => None,
        },
        r matches Some(d) ==> d.representable(),
{
    match text.parse::<rust_decimal::Decimal>() {
        Ok(d) => Some(DecimalNumber { mantissa: d.mantissa(), scale: d.scale() }),
        Err(_) => None,
    }
}

/// Calls `rust_decimal::Decimal::checked_sub` on two representable numbers.
/// The result is the difference as mantissa and scale, `None` on overflow;
/// a difference is representable.
#[verifier::external_body]
pub(crate) fn subtract_decimals(a: &DecimalNumber, b: &DecimalNumber) -> (r: Option<DecimalNumber>)
    requires
        a.representable(),
        b.representable(),
    ensures
        r == match decimal_checked_sub(a.mantissa, a.scale, b.mantissa, b.scale) {
            Some((mantissa, scale)) => Some((DecimalNumber { mantissa, scale })),
            None => None,
        },
        r matches Some(d) ==> d.representable(),
{
    let x = rust_decimal::Decimal::from_i128_with_scale(a.mantissa, a.scale);
    let y = rust_decimal::Decimal::from_i128_with_scale(b.mantissa, b.scale);
    match x.checked_sub(y) {
        Some(d) => Some(DecimalNumber { mantissa: d.mantissa(), scale: d.scale() }),
        None => None,
    }
}

/// Calls the `<` of `rust_decimal::Decimal` on two representable numbers,
/// which orders decimals by their numeric value.
#[verifier::external_body]
pub(crate) fn decimal_less(a: &DecimalNumber, b: &DecimalNumber) -> (r: bool)
    requires
        a.representable(),
        b.representable(),
    ensures
        r == a.less_than(*b),
{
    let x = rust_decimal::Decimal::from_i128_with_scale(a.mantissa, a.scale);
    let y = rust_decimal::Decimal::from_i128_with_scale(b.mantissa, b.scale);
    x < y
}

} // verus!
