//! ISO-8601 durations, parsed through `iso8601_duration` and held as plain
//! integers.

use vstd::prelude::*;

verus! {

/// The six components of a parsed duration. Each is a 32-bit IEEE-754
/// number, held by its bit pattern.
#[derive(Clone, Copy, Debug, PartialEq, Eq, Structural)]
pub struct DurationParts {
    pub year: u32,
    pub month: u32,
    pub day: u32,
    pub hour: u32,
    pub minute: u32,
    pub second: u32,
}

/// What `iso8601_duration` parses a text to: the bit patterns of year,
/// month, day, hour, minute and second, or `None` where it rejects the text.
pub uninterp spec fn iso8601_duration(text: Seq<char>) -> Option<(u32, u32, u32, u32, u32, u32)>;

/// The parsed form of a text, over the name for the parser's result.
pub open spec fn parsed_duration(text: Seq<char>) -> Option<DurationParts> {
    match iso8601_duration(text) {
        Some((year, month, day, hour, minute, second)) => Some(
            DurationParts { year, month, day, hour, minute, second },
        ),
        None => None,
    }
}

/// Calls `iso8601_duration::Duration::from_str` and hands each component out
/// by its bits. `None` where the text is rejected.
#[verifier::external_body]
pub(crate) fn parse_duration(text: &str) -> (r: Option<DurationParts>)
    ensures
        r == match iso8601_duration(text@) {
            Some((year, month, day, hour, minute, second)) => Some(
                (DurationParts { year, month, day, hour, minute, second }),
            ),
            None => None,
        },
{
    match text.parse::<iso8601_duration::Duration>() {
        Ok(d) => Some(
            DurationParts {
                year: d.year.to_bits(),
                month: d.month.to_bits(),
                day: d.day.to_bits(),
                hour: d.hour.to_bits(),
                minute: d.minute.to_bits(),
                second: d.second.to_bits(),
            },
        ),
        Err(_) => None,
    }
}

/// The bits without the sign bit.
pub open spec fn magnitude_bits(bits: u32) -> int {
    bits as int % 0x8000_0000
}

/// The bit pattern is not a number: all exponent bits set and a fraction
/// that is not zero.
pub open spec fn is_not_a_number(bits: u32) -> bool {
    magnitude_bits(bits) > 0x7f80_0000
}

/// IEEE-754 equality on bit patterns: nothing equals a pattern that is not a
/// number, the two zeros are equal, and any other two are equal when their
/// bits are.
pub open spec fn component_equal(a: u32, b: u32) -> bool {
    &&& !is_not_a_number(a)
    &&& !is_not_a_number(b)
    &&& (a == b || (magnitude_bits(a) == 0 && magnitude_bits(b) == 0))
}

/// Two parsed durations are equal when each component equals its
/// counterpart; nothing is carried from one unit to another.
pub open spec fn durations_equal(a: DurationParts, b: DurationParts) -> bool {
    &&& component_equal(a.year, b.year)
    &&& component_equal(a.month, b.month)
    &&& component_equal(a.day, b.day)
    &&& component_equal(a.hour, b.hour)
    &&& component_equal(a.minute, b.minute)
    &&& component_equal(a.second, b.second)
}

fn same_component(a: u32, b: u32) -> (r: bool)
    ensures
        r == component_equal(a, b),
{
    let x: u32 = a % 0x8000_0000;
    let y: u32 = b % 0x8000_0000;
    x <= 0x7f80_0000 && y <= 0x7f80_0000 && (a == b || (x == 0 && y == 0))
}

impl DurationParts {
    /// Whether two parsed durations are equal, component by component.
    pub fn same_as(&self, other: &DurationParts) -> (r: bool)
        ensures
            r == durations_equal(*self, *other),
    {
        same_component(self.year, other.year) && same_component(self.month, other.month)
            && same_component(self.day, other.day) && same_component(self.hour, other.hour)
            && same_component(self.minute, other.minute) && same_component(
            self.second,
            other.second,
        )
    }
}

/// Equality of parsed durations is symmetric.
pub proof fn lemma_durations_equal_symmetric(a: DurationParts, b: DurationParts)
    ensures
        durations_equal(a, b) == durations_equal(b, a),
{
}

} // verus!
