use vstd::prelude::*;

use crate::error::Error;

verus! {

/// Number of `Decibels` units in one decibel.
pub const UNITS_PER_DB: i64 = 65536;

/// Number of `Decibels` units in one step of the Q7.8 encoding (1/256 dB).
pub const UNITS_PER_STEP: i64 = 256;

/// The loudness specified by EBU R 128, in `Decibels` units (-23 LUFS).
pub const R128_LUFS_UNITS: i64 = -23 * 65536;

/// The loudness used for ReplayGain, in `Decibels` units (-18 LUFS).
pub const REPLAY_GAIN_LUFS_UNITS: i64 = -18 * 65536;

/// Division by a positive `d`, rounded to the nearest integer with ties
/// away from zero.
pub open spec fn round_div(n: int, d: int) -> int
    recommends
        d > 0,
{
    if n >= 0 {
        (n + d / 2) / d
    } else {
        -((-n + d / 2) / d)
    }
}

/// Does `v` fit in an `i16`?
pub open spec fn fits_i16(v: int) -> bool {
    i16::MIN <= v <= i16::MAX
}

/// The character of a decimal digit.
pub open spec fn digit_char(d: int) -> char {
    if d == 0 {
        '0'
    } else if d == 1 {
        '1'
    } else if d == 2 {
        '2'
    } else if d == 3 {
        '3'
    } else if d == 4 {
        '4'
    } else if d == 5 {
        '5'
    } else if d == 6 {
        '6'
    } else if d == 7 {
        '7'
    } else if d == 8 {
        '8'
    } else {
        '9'
    }
}

/// The decimal digits of `n`, without leading zeros.
pub open spec fn digits_text(n: nat) -> Seq<char>
    decreases n,
{
    if n < 10 {
        seq![digit_char(n as int)]
    } else {
        digits_text(n / 10) + seq![digit_char((n % 10) as int)]
    }
}

/// The decimal text of an integer, with a leading `-` when negative.
pub open spec fn decimal_text(v: int) -> Seq<char> {
    if v < 0 {
        seq!['-'] + digits_text((-v) as nat)
    } else {
        digits_text(v as nat)
    }
}

/// Is `c` a decimal digit?
pub open spec fn is_digit(c: char) -> bool {
    '0' <= c && c <= '9'
}

/// The value of a decimal digit.
pub open spec fn digit_value(c: char) -> int {
    (c as u32) - 48
}

/// The value of a string of decimal digits.
pub open spec fn digits_value(s: Seq<char>) -> int
    decreases s.len(),
{
    if s.len() == 0 {
        0
    } else {
        digits_value(s.drop_last()) * 10 + digit_value(s.last())
    }
}

/// A non-empty string of decimal digits.
pub open spec fn all_digits(s: Seq<char>) -> bool {
    s.len() > 0 && forall|i: int| 0 <= i < s.len() ==> is_digit(#[trigger] s[i])
}

/// The value of a decimal integer text (an optional sign and then digits),
/// where it fits in an `i16`.
pub open spec fn parsed_i16(s: Seq<char>) -> Option<i16> {
    let v = if s.len() > 0 && s[0] == '-' && all_digits(s.drop_first()) {
        Some(-digits_value(s.drop_first()))
    } else if s.len() > 0 && s[0] == '+' && all_digits(s.drop_first()) {
        Some(digits_value(s.drop_first()))
    } else if all_digits(s) {
        Some(digits_value(s))
    } else {
        None
    };
    match v {
        Some(n) => if fits_i16(n) {
            Some(n as i16)
        } else {
            None
        },
        None => None,
    }
}

/// Relies on `i16`'s `Display` (through `to_string`): decimal digits
/// without leading zeros, after a `-` for negative values.
#[verifier::external_body]
fn i16_text(v: i16) -> (r: String)
    ensures
        r@ == decimal_text(v as int),
{
    v.to_string()
}

/// Relies on `str::parse::<i16>`: an optional sign and then decimal digits,
/// the value fitting in an `i16`.
#[verifier::external_body]
fn parse_i16(s: &str) -> (r: Option<i16>)
    ensures
        r == parsed_i16(s@),
{
    s.parse::<i16>().ok()
}

proof fn lemma_digits_round_trip(n: nat)
    ensures
        all_digits(digits_text(n)),
        digits_value(digits_text(n)) == n,
        digits_text(n)[0] != '-' && digits_text(n)[0] != '+',
    decreases n,
{
    let t = digits_text(n);
    if n < 10 {
        assert(t.drop_last() =~= Seq::<char>::empty());
        assert(digits_value(Seq::<char>::empty()) == 0);
        assert(digit_value(digit_char(n as int)) == n);
        assert(digits_value(t) == digits_value(t.drop_last()) * 10 + digit_value(t.last()));
    } else {
        lemma_digits_round_trip(n / 10);
        let d = (n % 10) as int;
        assert(t.drop_last() =~= digits_text(n / 10));
        assert(t.last() == digit_char(d));
        assert(digit_value(digit_char(d)) == d);
        assert forall|i: int| 0 <= i < t.len() implies is_digit(#[trigger] t[i]) by {
            if i < t.len() - 1 {
                assert(t[i] == digits_text(n / 10)[i]);
            }
        }
        assert(t[0] == digits_text(n / 10)[0]);
        assert(digits_value(t) == digits_value(t.drop_last()) * 10 + digit_value(t.last()));
        assert((n / 10) * 10 + n % 10 == n);
    }
}

/// The decimal text of a Q7.8 value parses back to the same value.
pub proof fn lemma_decimal_round_trip(v: i16)
    ensures
        parsed_i16(decimal_text(v as int)) == Some(v),
{
    if v < 0 {
        lemma_digits_round_trip((-v) as nat);
        assert((seq!['-'] + digits_text((-v) as nat)).drop_first() =~= digits_text((-v) as nat));
    } else {
        lemma_digits_round_trip(v as nat);
    }
}

/// A loudness or gain in decibels, held in fixed point with a resolution of
/// 1/65536 dB.
#[derive(Debug, Clone, Copy, PartialEq, Eq, Structural)]
pub struct Decibels {
    units: i64,
}

impl Decibels {
    /// The value in 1/65536 dB units.
    pub closed spec fn units_of(self) -> int {
        self.units as int
    }

    /// Constructs a value from a count of 1/65536 dB units.
    pub fn from_units(units: i64) -> (r: Decibels)
        ensures
            r.units_of() == units,
    {
        Decibels { units }
    }

    /// The count of 1/65536 dB units.
    pub fn as_units(self) -> (r: i64)
        ensures
            r == self.units_of(),
    {
        self.units
    }

    /// The sum of two values.
    pub fn add(self, other: Decibels) -> (r: Decibels)
        requires
            i64::MIN <= self.units_of() + other.units_of() <= i64::MAX,
        ensures
            r.units_of() == self.units_of() + other.units_of(),
    {
        Decibels { units: self.units + other.units }
    }

    /// The difference of two values.
    pub fn sub(self, other: Decibels) -> (r: Decibels)
        requires
            i64::MIN <= self.units_of() - other.units_of() <= i64::MAX,
        ensures
            r.units_of() == self.units_of() - other.units_of(),
    {
        Decibels { units: self.units - other.units }
    }

    /// A whole number of decibels.
    pub fn from_whole_db(db: i32) -> (r: Decibels)
        ensures
            r.units_of() == db * UNITS_PER_DB,
    {
        Decibels { units: db as i64 * UNITS_PER_DB }
    }

    /// The loudness specified by EBU R 128 (-23 LUFS).
    pub closed spec fn r128_lufs_spec() -> Decibels {
        Decibels { units: R128_LUFS_UNITS }
    }

    /// The loudness used for ReplayGain (-18 LUFS).
    pub closed spec fn replay_gain_lufs_spec() -> Decibels {
        Decibels { units: REPLAY_GAIN_LUFS_UNITS }
    }

    /// The loudness specified by EBU R 128 (-23 LUFS).
    pub fn r128_lufs() -> (r: Decibels)
        ensures
            r.units_of() == R128_LUFS_UNITS,
            r == Self::r128_lufs_spec(),
    {
        Decibels { units: R128_LUFS_UNITS }
    }

    /// The loudness used for ReplayGain (-18 LUFS).
    pub fn replay_gain_lufs() -> (r: Decibels)
        ensures
            r.units_of() == REPLAY_GAIN_LUFS_UNITS,
            r == Self::replay_gain_lufs_spec(),
    {
        Decibels { units: REPLAY_GAIN_LUFS_UNITS }
    }
}

impl Default for Decibels {
    fn default() -> (r: Decibels)
        ensures
            r.units_of() == 0,
    {
        Decibels { units: 0 }
    }
}

/// The fixed-point decibel encoding (Q7.8) used in Opus headers and R128 tags.
#[derive(Debug, Clone, Copy, PartialEq, Eq, Structural)]
pub struct FixedPointGain {
    value: i16,
}

/// The Q7.8 gain under its short name.
pub type Gain = FixedPointGain;

/// The Q7.8 value nearest to `units` 1/65536 dB units, ties away from zero.
pub open spec fn units_to_steps(units: int) -> int {
    round_div(units, UNITS_PER_STEP as int)
}

impl FixedPointGain {
    /// The raw Q7.8 value.
    pub closed spec fn raw(self) -> int {
        self.value as int
    }

    /// The underlying signed 16-bit integer representation
    pub fn as_fixed_point(self) -> (r: i16)
        ensures
            r == self.raw(),
    {
        self.value
    }

    /// Construct from a fixed-point integer encoding
    pub fn from_fixed_point(value: i16) -> (r: FixedPointGain)
        ensures
            r.raw() == value,
    {
        FixedPointGain { value }
    }

    /// Does this value represent the identity gain?
    pub fn is_zero(self) -> (r: bool)
        ensures
            r == (self.raw() == 0),
    {
        self.value == 0
    }

    /// Checked addition returning `None` on overflow or underflow.
    pub fn checked_add(self, rhs: FixedPointGain) -> (r: Option<FixedPointGain>)
        ensures
            r is Some <==> fits_i16(self.raw() + rhs.raw()),
            r is Some ==> r->Some_0.raw() == self.raw() + rhs.raw(),
    {
        match self.value.checked_add(rhs.value) {
            Some(value) => Some(FixedPointGain { value }),
            None => None,
        }
    }

    /// Checked negation returning `None` on overflow.
    pub fn checked_neg(self) -> (r: Option<FixedPointGain>)
        ensures
            r is Some <==> self.raw() != i16::MIN,
            r is Some ==> r->Some_0.raw() == -self.raw(),
    {
        if self.value == i16::MIN {
            None
        } else {
            Some(FixedPointGain { value: -self.value })
        }
    }

    /// This value as `Decibels` (value / 256 dB).
    pub fn as_decibels(self) -> (r: Decibels)
        ensures
            r.units_of() == self.raw() * UNITS_PER_STEP,
    {
        Decibels { units: self.value as i64 * UNITS_PER_STEP }
    }

    /// The Q7.8 value nearest to a count of 1/65536 dB units, or
    /// `GainOutOfBounds` where it does not fit in 16 bits.
    pub fn try_from_units(units: i128) -> (r: Result<FixedPointGain, Error>)
        requires
            -0x1000_0000_0000_0000_0000_0000 <= units <= 0x1000_0000_0000_0000_0000_0000,
        ensures
            r is Ok <==> fits_i16(units_to_steps(units as int)),
            r is Ok ==> r->Ok_0.raw() == units_to_steps(units as int),
            r is Err ==> r->Err_0 == Error::GainOutOfBounds,
    {
        let half: i128 = 128;
        let steps: i128 = if units >= 0 {
            (units + half) / 256
        } else {
            -((-units + half) / 256)
        };
        if steps < -32768 || steps > 32767 {
            Err(Error::GainOutOfBounds)
        } else {
            Ok(FixedPointGain { value: steps as i16 })
        }
    }

    /// The Q7.8 value nearest to `value`, or `GainOutOfBounds` where it does
    /// not fit in 16 bits.
    pub fn try_from_decibels(value: Decibels) -> (r: Result<FixedPointGain, Error>)
        ensures
            r is Ok <==> fits_i16(units_to_steps(value.units_of())),
            r is Ok ==> r->Ok_0.raw() == units_to_steps(value.units_of()),
            r is Err ==> r->Err_0 == Error::GainOutOfBounds,
    {
        Self::try_from_units(value.units as i128)
    }
}

impl FixedPointGain {
    /// The textual form used in R128 tags: the raw Q7.8 value in decimal.
    pub fn to_text(self) -> (r: String)
        ensures
            r@ == decimal_text(self.raw()),
    {
        i16_text(self.value)
    }

    /// Parses the textual form used in R128 tags.
    pub fn parse(s: &str) -> (r: Option<FixedPointGain>)
        ensures
            r is Some <==> parsed_i16(s@) is Some,
            r is Some ==> r->Some_0.raw() == parsed_i16(s@)->Some_0,
    {
        match parse_i16(s) {
            Some(value) => Some(FixedPointGain { value }),
            None => None,
        }
    }
}

/// The error for text that is not a Q7.8 value.
#[derive(Debug, Clone, Copy, PartialEq, Eq, Structural)]
pub struct GainParseError {}

impl std::str::FromStr for FixedPointGain {
    type Err = GainParseError;

    fn from_str(s: &str) -> (r: Result<FixedPointGain, GainParseError>)
        ensures
            r is Ok <==> parsed_i16(s@) is Some,
            r is Ok ==> r->Ok_0.raw() == parsed_i16(s@)->Some_0,
    {
        match FixedPointGain::parse(s) {
            Some(g) => Ok(g),
            None => Err(GainParseError {  }),
        }
    }
}

impl Default for FixedPointGain {
    fn default() -> (r: FixedPointGain)
        ensures
            r.raw() == 0,
    {
        FixedPointGain { value: 0 }
    }
}

/// Converting a Q7.8 value to decibels and back yields the same value.
pub proof fn lemma_fixed_point_round_trip(v: i16)
    ensures
        fits_i16(units_to_steps(v * UNITS_PER_STEP)),
        units_to_steps(v * UNITS_PER_STEP) == v,
{
    let n = v * 256;
    if v >= 0 {
        assert((n + 128) / 256 == v as int) by (nonlinear_arith)
            requires n == v * 256, v >= 0;
    } else {
        assert((-n + 128) / 256 == -v) by (nonlinear_arith)
            requires n == v * 256, v < 0;
    }
}

} // verus!
