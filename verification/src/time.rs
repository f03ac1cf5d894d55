//! Run times (exact decimals) and instants, with the comparisons the rankings rest on.
use rust_decimal::Decimal;
use crate::text::nat_digits;
use vstd::prelude::*;

verus! {

/// The largest magnitude of a decimal mantissa (96 bits).
pub const MAX_MANTISSA: i128 = 0xFFFF_FFFF_FFFF_FFFF_FFFF_FFFF;

/// The largest number of digits after the decimal point.
pub const MAX_SCALE: u32 = 28;

/// `10^n`.
pub open spec fn pow10(n: nat) -> int
    decreases n,
{
    if n == 0 {
        1
    } else {
        10 * pow10((n - 1) as nat)
    }
}

/// A run time in seconds, held as an exact decimal: `mantissa / 10^scale`.
#[derive(Clone, Copy, Debug, PartialEq, Eq)]
pub struct RunTime {
    pub mantissa: i128,
    pub scale: u32,
}

impl RunTime {
    /// The mantissa and scale are within what a decimal can hold.
    pub open spec fn wf(self) -> bool {
        &&& self.scale <= MAX_SCALE
        &&& -MAX_MANTISSA <= self.mantissa <= MAX_MANTISSA
    }

    /// The value of the time, scaled to the finest unit (`10^-28` seconds).
    pub open spec fn value(self) -> int {
        self.mantissa * pow10((MAX_SCALE - self.scale) as nat)
    }

    /// Builds a time from its mantissa and scale, if a decimal can hold them.
    pub fn new(mantissa: i128, scale: u32) -> (r: Option<RunTime>)
        ensures
            r is Some <==> (scale <= MAX_SCALE && -MAX_MANTISSA <= mantissa <= MAX_MANTISSA),
            r matches Some(t) ==> t.mantissa == mantissa && t.scale == scale && t.wf(),
    {
        if scale <= MAX_SCALE && -MAX_MANTISSA <= mantissa && mantissa <= MAX_MANTISSA {
            Some(RunTime { mantissa, scale })
        } else {
            None
        }
    }

    /// The time that no real run reaches: 999.999 seconds.
    pub fn ceiling() -> (r: RunTime)
        ensures
            r.wf(),
            r.value() == ceiling_value(),
    {
        proof {
            lemma_pow10_values();
        }
        RunTime { mantissa: 999999, scale: 3 }
    }
}

/// The value of [`RunTime::ceiling`].
pub open spec fn ceiling_value() -> int {
    999999 * pow10(25)
}

/// Concrete powers of ten used by the proofs.
pub proof fn lemma_pow10_values()
    ensures
        pow10(0) == 1,
        pow10(1) == 10,
        pow10(2) == 100,
        pow10(3) == 1000,
        pow10(25) == 10000000000000000000000000,
        pow10(26) == 100000000000000000000000000,
        pow10(27) == 1000000000000000000000000000,
        pow10(28) == 10000000000000000000000000000,
{
    reveal_with_fuel(pow10, 29);
}

/// Whether `a` is strictly less than `b` (`<` on `rust_decimal::Decimal`, which compares values).
#[verifier::external_body]
pub(crate) fn time_lt(a: &RunTime, b: &RunTime) -> (r: bool)
    requires
        a.wf(),
        b.wf(),
    ensures
        r == (a.value() < b.value()),
{
    Decimal::from_i128_with_scale(a.mantissa, a.scale) < Decimal::from_i128_with_scale(b.mantissa, b.scale)
}

/// Whether `a` and `b` are the same number (`==` on `rust_decimal::Decimal`, which compares values).
#[verifier::external_body]
pub(crate) fn time_eq(a: &RunTime, b: &RunTime) -> (r: bool)
    requires
        a.wf(),
        b.wf(),
    ensures
        r == (a.value() == b.value()),
{
    Decimal::from_i128_with_scale(a.mantissa, a.scale) == Decimal::from_i128_with_scale(b.mantissa, b.scale)
}

/// `n` zero digits.
pub open spec fn zeros(n: nat) -> Seq<char> {
    Seq::new(n, |i: int| '0')
}

/// The text `rust_decimal` prints for the decimal `mantissa / 10^scale`: a `-` where it is
/// negative, then the digits of the magnitude with exactly `scale` of them after the
/// point (zero-padded), and a `0` before the point where no digit stands there.
pub open spec fn decimal_text(mantissa: i128, scale: u32) -> Seq<char> {
    let mag: int = if mantissa < 0 {
        -mantissa
    } else {
        mantissa as int
    };
    let digits = if mag == 0 {
        Seq::empty()
    } else {
        nat_digits(mag as nat)
    };
    let padded = if digits.len() < scale {
        zeros((scale - digits.len()) as nat) + digits
    } else {
        digits
    };
    let whole = padded.subrange(0, padded.len() - scale);
    let fraction = padded.subrange(padded.len() - scale, padded.len() as int);
    let body = if scale == 0 {
        if padded.len() == 0 {
            "0"@
        } else {
            padded
        }
    } else {
        (if whole.len() == 0 {
            "0"@
        } else {
            whole
        }) + "."@ + fraction
    };
    (if mantissa < 0 {
        "-"@
    } else {
        Seq::empty()
    }) + body
}

/// The printed form of a time (`Decimal`'s `Display`, through `to_string`).
#[verifier::external_body]
pub(crate) fn time_to_string(t: &RunTime) -> (r: String)
    requires
        t.wf(),
    ensures
        r@ == decimal_text(t.mantissa, t.scale),
{
    Decimal::from_i128_with_scale(t.mantissa, t.scale).to_string()
}

/// What `Decimal::checked_sub` gives for two decimals, as mantissa and scale.
pub uninterp spec fn decimal_difference(
    a_mantissa: i128,
    a_scale: u32,
    b_mantissa: i128,
    b_scale: u32,
) -> Option<(i128, u32)>;

/// `a - b` (`Decimal::checked_sub`), `None` where the difference overflows.
#[verifier::external_body]
pub(crate) fn time_sub(a: &RunTime, b: &RunTime) -> (r: Option<RunTime>)
    requires
        a.wf(),
        b.wf(),
    ensures
        r matches Some(d) ==> d.wf(),
        match decimal_difference(a.mantissa, a.scale, b.mantissa, b.scale) {
            Some((m, s)) => r == Some(RunTime { mantissa: m, scale: s }),
            None => r is None,
        },
{
    Decimal::from_i128_with_scale(a.mantissa, a.scale)
        .checked_sub(Decimal::from_i128_with_scale(b.mantissa, b.scale))
        .map(|d| RunTime { mantissa: d.mantissa(), scale: d.scale() })
}

/// A time rounded to `dp` decimal places, down (`up` false) or up: a time with at most
/// `dp` decimal places stays as it is; any other gets `dp` decimal places, its mantissa
/// divided by the dropped power of ten and rounded toward minus or plus infinity.
pub open spec fn dp_rounded(t: RunTime, dp: u32, up: bool) -> RunTime {
    if t.scale <= dp {
        t
    } else {
        let d = pow10((t.scale - dp) as nat);
        RunTime {
            mantissa: (if up {
                -((-(t.mantissa as int)) / d)
            } else {
                (t.mantissa as int) / d
            }) as i128,
            scale: dp,
        }
    }
}

/// Rounds a time to `dp` decimal places toward minus infinity (`up` false) or plus
/// infinity (`Decimal::round_dp_with_strategy` with `ToNegativeInfinity` or
/// `ToPositiveInfinity`).
#[verifier::external_body]
pub(crate) fn round_dp(t: &RunTime, dp: u32, up: bool) -> (r: RunTime)
    requires
        t.wf(),
    ensures
        r == dp_rounded(*t, dp, up),
        r.wf(),
{
    let strategy = if up {
        rust_decimal::RoundingStrategy::ToPositiveInfinity
    } else {
        rust_decimal::RoundingStrategy::ToNegativeInfinity
    };
    let d = Decimal::from_i128_with_scale(t.mantissa, t.scale).round_dp_with_strategy(dp, strategy);
    RunTime { mantissa: d.mantissa(), scale: d.scale() }
}

/// What `Decimal`'s `FromStr` makes of a text, as mantissa and scale.
pub uninterp spec fn decimal_parse(text: Seq<char>) -> Option<(i128, u32)>;

/// Parses a decimal number (`<Decimal as FromStr>::from_str`).
#[verifier::external_body]
pub(crate) fn parse_time(text: &str) -> (r: Option<RunTime>)
    ensures
        r matches Some(t) ==> t.wf(),
        match decimal_parse(text@) {
            Some((m, s)) => r == Some(RunTime { mantissa: m, scale: s }),
            None => r is None,
        },
{
    text.parse::<Decimal>().ok().map(|d| RunTime { mantissa: d.mantissa(), scale: d.scale() })
}

/// An instant: whole seconds since the Unix epoch and the nanoseconds past them.
#[derive(Clone, Copy, Debug, PartialEq, Eq)]
pub struct Timestamp {
    pub secs: i64,
    pub nanos: u32,
}

impl Timestamp {
    /// The nanoseconds are below one second.
    pub open spec fn wf(self) -> bool {
        self.nanos < 1_000_000_000
    }

    /// Nanoseconds since the epoch.
    pub open spec fn value(self) -> int {
        self.secs * 1_000_000_000 + self.nanos
    }
}

/// Whether instant `a` is strictly before instant `b`.
pub fn instant_lt(a: &Timestamp, b: &Timestamp) -> (r: bool)
    requires
        a.wf(),
        b.wf(),
    ensures
        r == (a.value() < b.value()),
{
    a.secs < b.secs || (a.secs == b.secs && a.nanos < b.nanos)
}

/// The earliest whole second an instant can hold (January 1 of the year -262143, UTC).
pub const MIN_INSTANT_SECS: i64 = -8334601315200;

/// The latest whole second an instant can hold (December 31 of the year 262142, 23:59:59 UTC).
pub const MAX_INSTANT_SECS: i64 = 8210266876799;

/// The largest number of seconds a time span can hold (`i64::MAX` milliseconds).
pub const MAX_SPAN_SECS: i64 = 9223372036854775;

impl Timestamp {
    /// The instant `secs` seconds after `self`, as `DateTime + TimeDelta::seconds(secs)`
    /// gives it; `None` where that panics: the span is longer than a time span holds, or
    /// the sum falls outside the instants that can be held.
    pub fn plus_seconds(&self, secs: i64) -> (r: Option<Timestamp>)
        requires
            self.wf(),
        ensures
            r is Some <==> (-MAX_SPAN_SECS <= secs <= MAX_SPAN_SECS && MIN_INSTANT_SECS <= self.secs
                + secs <= MAX_INSTANT_SECS),
            r matches Some(t) ==> t.wf() && t.secs == self.secs + secs && t.nanos == self.nanos,
    {
        if secs < -MAX_SPAN_SECS || secs > MAX_SPAN_SECS {
            return None;
        }
        let sum: i128 = self.secs as i128 + secs as i128;
        if sum < MIN_INSTANT_SECS as i128 || sum > MAX_INSTANT_SECS as i128 {
            return None;
        }
        Some(Timestamp { secs: sum as i64, nanos: self.nanos })
    }
}

} // verus!
