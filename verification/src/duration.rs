//! Elapsed time as text: the choice of a unit, the digits, and the colour
//! that goes with the unit.
//!
//! A duration is a count of nanoseconds. In nanoseconds it is printed as a
//! whole number; in every coarser unit it is printed with exactly three
//! decimal places, cut off and never rounded.

use vstd::prelude::*;
use vstd::string::*;

use crate::decimal::{
    decimal,
    is_digit,
    lemma_decimal_digits,
    lemma_decimal_no_leading_zero,
    push_decimal,
    push_thousandths,
    thousandths,
};
use crate::text::{is_plain, ESCAPE};
use crate::unit::TimeUnit;

verus! {

/// Below this many nanoseconds a duration is printed in nanoseconds.
pub const MICRO_FROM: u128 = 1_100;

/// Below this many nanoseconds a duration is printed in microseconds at most.
pub const MILLI_FROM: u128 = 1_100_000;

/// Below this many nanoseconds a duration is printed in milliseconds at most.
pub const SECONDS_FROM: u128 = 1_100_000_000;

/// From this many nanoseconds on, ten seconds, a duration in seconds stands out.
pub const EMPHASIS_FROM: u128 = 10_000_000_000;

/// The colour of a printed duration.
#[derive(Clone, Copy, Debug, PartialEq, Eq, Structural)]
pub enum Tint {
    /// The colour of nanoseconds.
    Cyan,
    /// The colour of microseconds.
    Green,
    /// The colour of milliseconds.
    Yellow,
    /// The colour of seconds.
    Red,
}

/// A text with the colour and weight in which it is to be shown.
#[derive(Debug)]
pub struct Styled {
    /// The text itself.
    pub text: String,
    /// Its colour.
    pub tint: Tint,
    /// Whether it is shown in bold.
    pub bold: bool,
}

/// What a [`Styled`] stands for.
pub struct StyledView {
    /// The text itself.
    pub text: Seq<char>,
    /// Its colour.
    pub tint: Tint,
    /// Whether it is shown in bold.
    pub bold: bool,
}

impl View for Styled {
    type V = StyledView;

    open spec fn view(&self) -> StyledView {
        StyledView { text: self.text@, tint: self.tint, bold: self.bold }
    }
}

/// The unit chosen for a duration when none is fixed. Each threshold lies a
/// tenth above the round boundary between two units, so that a value just
/// over a boundary still starts with a digit other than zero.
pub open spec fn auto_unit(nanos: nat) -> TimeUnit {
    if nanos < MICRO_FROM {
        TimeUnit::Nano
    } else if nanos < MILLI_FROM {
        TimeUnit::Micro
    } else if nanos < SECONDS_FROM {
        TimeUnit::Milli
    } else {
        TimeUnit::Seconds
    }
}

/// The unit in which a duration is printed: the fixed one, or else the one
/// chosen by magnitude.
pub open spec fn unit_for(nanos: nat, fixed: Option<TimeUnit>) -> TimeUnit {
    match fixed {
        Some(unit) => unit,
        None => auto_unit(nanos),
    }
}

/// The length of a unit in nanoseconds.
pub open spec fn nanos_per(unit: TimeUnit) -> nat {
    match unit {
        TimeUnit::Nano => 1,
        TimeUnit::Micro => 1_000,
        TimeUnit::Milli => 1_000_000,
        TimeUnit::Seconds => 1_000_000_000,
    }
}

/// The number printed for a duration in a unit, without the suffix.
pub open spec fn magnitude_text(nanos: nat, unit: TimeUnit) -> Seq<char> {
    match unit {
        TimeUnit::Nano => decimal(nanos),
        TimeUnit::Micro => thousandths(nanos),
        TimeUnit::Milli => thousandths(nanos / 1_000),
        TimeUnit::Seconds => thousandths(nanos / 1_000_000),
    }
}

/// A duration printed in a unit: the number, then the unit's suffix.
pub open spec fn duration_text(nanos: nat, unit: TimeUnit) -> Seq<char> {
    magnitude_text(nanos, unit) + unit.spec_suffix()
}

/// The colour that goes with a unit.
pub open spec fn tint_of(unit: TimeUnit) -> Tint {
    match unit {
        TimeUnit::Nano => Tint::Cyan,
        TimeUnit::Micro => Tint::Green,
        TimeUnit::Milli => Tint::Yellow,
        TimeUnit::Seconds => Tint::Red,
    }
}

/// Whether a duration printed in a unit stands out: in seconds, from ten
/// seconds on.
pub open spec fn stands_out(nanos: nat, unit: TimeUnit) -> bool {
    unit == TimeUnit::Seconds && nanos >= EMPHASIS_FROM
}

/// A duration as it is printed when `fixed` is the configured unit.
pub open spec fn styled_duration(nanos: nat, fixed: Option<TimeUnit>) -> StyledView {
    let unit = unit_for(nanos, fixed);
    StyledView {
        text: duration_text(nanos, unit),
        tint: tint_of(unit),
        bold: stands_out(nanos, unit),
    }
}

/// Chooses the unit for a duration by its magnitude.
pub fn select_unit(nanos: u128) -> (unit: TimeUnit)
    ensures
        unit == auto_unit(nanos as nat),
{
    if nanos < MICRO_FROM {
        TimeUnit::Nano
    } else if nanos < MILLI_FROM {
        TimeUnit::Micro
    } else if nanos < SECONDS_FROM {
        TimeUnit::Milli
    } else {
        TimeUnit::Seconds
    }
}

/// The colour that goes with a unit.
pub fn unit_tint(unit: TimeUnit) -> (tint: Tint)
    ensures
        tint == tint_of(unit),
{
    match unit {
        TimeUnit::Nano => Tint::Cyan,
        TimeUnit::Micro => Tint::Green,
        TimeUnit::Milli => Tint::Yellow,
        TimeUnit::Seconds => Tint::Red,
    }
}

/// Prints a duration in a given unit.
pub fn duration_string(nanos: u128, unit: TimeUnit) -> (out: String)
    ensures
        out@ == duration_text(nanos as nat, unit),
{
    let mut out: String = String::new();
    match unit {
        TimeUnit::Nano => push_decimal(&mut out, nanos),
        TimeUnit::Micro => push_thousandths(&mut out, nanos),
        TimeUnit::Milli => push_thousandths(&mut out, nanos / 1_000),
        TimeUnit::Seconds => push_thousandths(&mut out, nanos / 1_000_000),
    }
    out.append(unit.suffix());
    assert(out@ =~= duration_text(nanos as nat, unit));
    out
}

/// Prints a duration of `nanos` nanoseconds: in `unit` where one is fixed,
/// else in the unit that its magnitude calls for, and with the colour and
/// weight of that unit.
pub fn format_duration(nanos: u128, unit: &Option<TimeUnit>) -> (out: Styled)
    ensures
        out@ == styled_duration(nanos as nat, *unit),
        is_plain(out.text@),
{
    proof {
        lemma_duration_is_plain(nanos as nat, *unit);
    }
    let chosen: TimeUnit = match unit {
        Some(fixed) => *fixed,
        None => select_unit(nanos),
    };
    Styled {
        text: duration_string(nanos, chosen),
        tint: unit_tint(chosen),
        bold: matches!(chosen, TimeUnit::Seconds) && nanos >= EMPHASIS_FROM,
    }
}

/// A printed duration is plain text: digits, at most one point, and the
/// letters of its suffix.
pub proof fn lemma_duration_is_plain(nanos: nat, fixed: Option<TimeUnit>)
    ensures
        is_plain(styled_duration(nanos, fixed).text),
{
    reveal_strlit("ns");
    reveal_strlit("us");
    reveal_strlit("ms");
    reveal_strlit("s");
    lemma_decimal_digits(nanos);
    lemma_decimal_digits(nanos / 1_000);
    lemma_decimal_digits(nanos / 1_000 / 1_000);
    lemma_decimal_digits(nanos / 1_000_000 / 1_000);
    let unit = unit_for(nanos, fixed);
    let suffix = unit.spec_suffix();
    assert forall|i: int| 0 <= i < suffix.len() implies suffix[i] != ESCAPE by {}
}

/// A printed duration always ends with the suffix of its unit.
pub proof fn lemma_text_ends_with_suffix(nanos: nat, unit: TimeUnit)
    ensures
        unit.spec_suffix().is_suffix_of(duration_text(nanos, unit)),
{
    let number = magnitude_text(nanos, unit);
    let suffix = unit.spec_suffix();
    assert((number + suffix).subrange(number.len() as int, (number + suffix).len() as int)
        =~= suffix);
}

/// Under 1100 ns, a duration with no fixed unit is printed in nanoseconds:
/// the whole count, followed by `ns`.
pub proof fn lemma_auto_nanoseconds(nanos: nat)
    requires
        nanos < 1_100,
    ensures
        auto_unit(nanos) == TimeUnit::Nano,
        styled_duration(nanos, None).text == decimal(nanos) + "ns"@,
        "ns"@.is_suffix_of(styled_duration(nanos, None).text),
{
    lemma_text_ends_with_suffix(nanos, TimeUnit::Nano);
}

/// From 1100 ns and under 1.1 ms, a duration with no fixed unit is printed in
/// microseconds: the nanoseconds as thousandths, followed by `us`.
pub proof fn lemma_auto_microseconds(nanos: nat)
    requires
        1_100 <= nanos < 1_100_000,
    ensures
        auto_unit(nanos) == TimeUnit::Micro,
        styled_duration(nanos, None).text == thousandths(nanos) + "us"@,
        "us"@.is_suffix_of(styled_duration(nanos, None).text),
{
    lemma_text_ends_with_suffix(nanos, TimeUnit::Micro);
}

/// From 1.1 ms and under 1.1 s, a duration with no fixed unit is printed in
/// milliseconds: the whole microseconds as thousandths, followed by `ms`.
pub proof fn lemma_auto_milliseconds(nanos: nat)
    requires
        1_100_000 <= nanos < 1_100_000_000,
    ensures
        auto_unit(nanos) == TimeUnit::Milli,
        styled_duration(nanos, None).text == thousandths(nanos / 1_000) + "ms"@,
        "ms"@.is_suffix_of(styled_duration(nanos, None).text),
{
    lemma_text_ends_with_suffix(nanos, TimeUnit::Milli);
}

/// From 1.1 s on, a duration with no fixed unit is printed in seconds: the
/// whole milliseconds as thousandths, followed by `s` alone.
pub proof fn lemma_auto_seconds(nanos: nat)
    requires
        nanos >= 1_100_000_000,
    ensures
        auto_unit(nanos) == TimeUnit::Seconds,
        styled_duration(nanos, None).text == thousandths(nanos / 1_000_000) + "s"@,
        "s"@.is_suffix_of(styled_duration(nanos, None).text),
        is_digit(styled_duration(nanos, None).text[styled_duration(nanos, None).text.len() - 2]),
{
    lemma_text_ends_with_suffix(nanos, TimeUnit::Seconds);
    reveal_strlit("s");
    let number = thousandths(nanos / 1_000_000);
    let text = number + "s"@;
    assert(text[text.len() - 2] == number[number.len() - 1]);
}

/// The unit chosen by magnitude never prints a leading zero: what is not
/// zero starts with a digit that counts.
pub proof fn lemma_auto_text_starts_with_nonzero(nanos: nat)
    requires
        nanos > 0,
    ensures
        is_digit(styled_duration(nanos, None).text[0]),
        styled_duration(nanos, None).text[0] != '0',
{
    let whole: nat = match auto_unit(nanos) {
        TimeUnit::Nano => nanos,
        TimeUnit::Micro => nanos / 1_000,
        TimeUnit::Milli => nanos / 1_000 / 1_000,
        TimeUnit::Seconds => nanos / 1_000_000 / 1_000,
    };
    assert(whole > 0);
    lemma_decimal_no_leading_zero(whole);
    lemma_decimal_digits(whole);
    assert(styled_duration(nanos, None).text[0] == decimal(whole)[0]);
}

/// The choice of a unit by magnitude goes one way, a longer duration never
/// gets a finer unit, and it keeps the number readable: at least 1.1 of the
/// unit for every unit coarser than nanoseconds, and less than 1100 of it for
/// every unit finer than seconds.
pub proof fn lemma_auto_unit_fits(shorter: nat, longer: nat)
    requires
        shorter <= longer,
    ensures
        nanos_per(auto_unit(shorter)) <= nanos_per(auto_unit(longer)),
        auto_unit(longer) != TimeUnit::Nano ==> 10 * longer >= 11 * nanos_per(auto_unit(longer)),
        auto_unit(longer) != TimeUnit::Seconds ==> longer < 1_100 * nanos_per(auto_unit(longer)),
{
}

/// In every unit coarser than nanoseconds, the number printed is the
/// duration in thousandths of that unit, cut off; in nanoseconds it is the
/// count itself.
pub proof fn lemma_magnitude_is_in_unit(nanos: nat, unit: TimeUnit)
    ensures
        unit == TimeUnit::Nano ==> magnitude_text(nanos, unit) == decimal(nanos),
        unit != TimeUnit::Nano ==> magnitude_text(nanos, unit) == thousandths(
            nanos * 1_000 / nanos_per(unit),
        ),
{
    assert(nanos * 1_000 / 1_000 == nanos);
    assert(nanos * 1_000 / 1_000_000 == nanos / 1_000) by (nonlinear_arith);
    assert(nanos * 1_000 / 1_000_000_000 == nanos / 1_000_000) by (nonlinear_arith);
}

/// A fixed unit is used whatever the magnitude, and no fixed unit means the
/// unit chosen by magnitude.
pub proof fn lemma_fixed_unit_wins(nanos: nat, unit: TimeUnit)
    ensures
        styled_duration(nanos, Some(unit)).text == duration_text(nanos, unit),
        styled_duration(nanos, None) == styled_duration(nanos, Some(auto_unit(nanos))),
{
}

/// The three finer units have colours of their own, and only seconds can
/// stand out.
pub proof fn lemma_tints_tell_units_apart(a: TimeUnit, b: TimeUnit, nanos: nat)
    ensures
        tint_of(a) == tint_of(b) <==> a == b,
        stands_out(nanos, a) ==> a == TimeUnit::Seconds && nanos >= 10_000_000_000,
{
}

} // verus!
