//! How a number is written in the report.
//!
//! Turning a number into digits is floating-point work and is done by the
//! caller, who hands in both spellings of the number: fixed-point and
//! scientific, each with the wanted count of fractional digits. Which of
//! them is shown, and how it is tidied, is decided here.
use vstd::prelude::*;
use crate::double::Double;
use crate::report::NumericCells;
use crate::stats::FieldStatistics;
use crate::text::chars_of;

verus! {

/// The pattern of `10000.0`.
pub const TEN_THOUSAND_BITS: u64 = 0x40C3_8800_0000_0000;

/// The pattern of `0.001`.
pub const THOUSANDTH_BITS: u64 = 0x3F50_624D_D2F1_A9FC;

/// The form in which a number is shown.
#[derive(Clone, Copy, Debug, PartialEq, Eq, Structural)]
pub enum Notation {
    /// The literal `0`, for either zero.
    Zero,
    /// The literal `NaN`.
    NotANumber,
    /// The literal `Inf`, with a minus sign for negative infinity.
    Infinite,
    /// Mantissa and exponent, for the very large and the very small.
    Scientific,
    /// Plain decimal digits, without trailing zeros.
    Fixed,
}

/// The two spellings of one number, as the caller's formatter wrote them.
pub struct Rendering {
    pub fixed: String,
    pub scientific: String,
}

/// The form in which `value` is shown.
pub open spec fn notation_of(value: Double) -> Notation {
    if value.nan() {
        Notation::NotANumber
    } else if value.infinite() {
        Notation::Infinite
    } else if value.zero() {
        Notation::Zero
    } else if value.magnitude() >= TEN_THOUSAND_BITS || value.magnitude() < THOUSANDTH_BITS {
        Notation::Scientific
    } else {
        Notation::Fixed
    }
}

/// `s` without the run of `c` at its end.
pub open spec fn without_trailing(s: Seq<char>, c: char) -> Seq<char>
    decreases s.len(),
{
    if s.len() > 0 && s.last() == c {
        without_trailing(s.drop_last(), c)
    } else {
        s
    }
}

/// A fixed-point spelling tidied: first the zeros at its end go, then a
/// decimal point that is left at the end.
pub open spec fn trimmed(fixed: Seq<char>) -> Seq<char> {
    without_trailing(without_trailing(fixed, '0'), '.')
}

/// What the report shows for `value`, given its two spellings.
pub open spec fn formatted(value: Double, fixed: Seq<char>, scientific: Seq<char>) -> Seq<char> {
    match notation_of(value) {
        Notation::Zero => "0"@,
        Notation::NotANumber => "NaN"@,
        Notation::Infinite => if value.negative() {
            "-Inf"@
        } else {
            "Inf"@
        },
        Notation::Scientific => scientific,
        Notation::Fixed => trimmed(fixed),
    }
}

/// What the report shows for `value`, given its rendering.
pub open spec fn shown(value: Double, rendering: Rendering) -> Seq<char> {
    formatted(value, rendering.fixed@, rendering.scientific@)
}

/// Chooses the form in which `value` is shown.
pub fn notation(value: Double) -> (n: Notation)
    ensures
        n == notation_of(value),
{
    let magnitude: u64 = value.abs().to_bits();
    if value.is_nan() {
        Notation::NotANumber
    } else if value.is_infinite() {
        Notation::Infinite
    } else if value.is_zero() {
        Notation::Zero
    } else if magnitude >= TEN_THOUSAND_BITS || magnitude < THOUSANDTH_BITS {
        Notation::Scientific
    } else {
        Notation::Fixed
    }
}

/// Tidies a fixed-point spelling: `3.000` becomes `3`, `3.100` becomes
/// `3.1`. The zeros go whether or not a decimal point stands before them,
/// so a spelling with no fractional digits is not safe here: `100` becomes
/// `1`.
pub fn trim_fixed(fixed: &str) -> (out: String)
    ensures
        out@ == trimmed(fixed@),
{
    let chars = chars_of(fixed);
    let mut end: usize = chars.len();
    assert(chars@.take(end as int) =~= chars@);
    while end > 0 && chars[end - 1] == '0'
        invariant
            end <= chars.len(),
            without_trailing(chars@, '0') == without_trailing(chars@.take(end as int), '0'),
        decreases end,
    {
        assert(chars@.take(end as int).drop_last() =~= chars@.take(end - 1));
        end -= 1;
    }
    let ghost digits = chars@.take(end as int);
    assert(without_trailing(chars@, '0') == digits);
    while end > 0 && chars[end - 1] == '.'
        invariant
            end <= chars.len(),
            without_trailing(digits, '.') == without_trailing(chars@.take(end as int), '.'),
        decreases end,
    {
        assert(chars@.take(end as int).drop_last() =~= chars@.take(end - 1));
        end -= 1;
    }
    assert(trimmed(chars@) == chars@.take(end as int));
    let mut out = String::new();
    let mut i: usize = 0;
    while i < end
        invariant
            i <= end <= chars.len(),
            out@ =~= chars@.take(i as int),
        decreases end - i,
    {
        out.push(chars[i]);
        i += 1;
    }
    out
}

/// Writes `value` for the report. Zero is `0` whatever its sign, a NaN is
/// `NaN`, an infinity is `Inf` with its sign. A number that is not zero and
/// whose absolute value is at least 10000 or below 0.001 is shown as
/// `scientific` stands; every other number as `fixed` without trailing
/// zeros, and without the decimal point where nothing follows it.
pub fn science_pretty_format(value: Double, fixed: &str, scientific: &str) -> (out: String)
    ensures
        out@ == formatted(value, fixed@, scientific@),
        value.zero() ==> out@ == "0"@,
{
    match notation(value) {
        Notation::Zero => String::from_str("0"),
        Notation::NotANumber => String::from_str("NaN"),
        Notation::Infinite => {
            if value.is_sign_negative() {
                String::from_str("-Inf")
            } else {
                String::from_str("Inf")
            }
        },
        Notation::Scientific => String::from_str(scientific),
        Notation::Fixed => trim_fixed(fixed),
    }
}

/// Writes the statistics of a numeric field, each from its rendering.
pub fn numeric_cells(
    stats: &FieldStatistics,
    mean: &Rendering,
    median: &Rendering,
    std_dev: &Rendering,
    min: &Rendering,
    max: &Rendering,
) -> (cells: NumericCells)
    ensures
        cells.mean@ == shown(stats.mean, *mean),
        cells.median@ == shown(stats.median, *median),
        cells.std_dev@ == shown(stats.std_dev, *std_dev),
        cells.min@ == shown(stats.min, *min),
        cells.max@ == shown(stats.max, *max),
        cells.outliers == stats.outlier_count,
{
    NumericCells {
        mean: science_pretty_format(stats.mean, mean.fixed.as_str(), mean.scientific.as_str()),
        median: science_pretty_format(
            stats.median,
            median.fixed.as_str(),
            median.scientific.as_str(),
        ),
        std_dev: science_pretty_format(
            stats.std_dev,
            std_dev.fixed.as_str(),
            std_dev.scientific.as_str(),
        ),
        min: science_pretty_format(stats.min, min.fixed.as_str(), min.scientific.as_str()),
        max: science_pretty_format(stats.max, max.fixed.as_str(), max.scientific.as_str()),
        outliers: stats.outlier_count,
    }
}

/// A finite number is shown in scientific notation exactly when it is not
/// zero and its absolute value is at least 10000 or less than 0.001. It is
/// then shown as its scientific spelling stands, and otherwise never.
pub proof fn lemma_scientific_iff(value: Double, fixed: Seq<char>, scientific: Seq<char>)
    requires
        !value.nan(),
        !value.infinite(),
    ensures
        notation_of(value) == Notation::Scientific <==> (value.absolute().at_least(
            Double { bits: TEN_THOUSAND_BITS },
        ) || (!value.zero() && value.absolute().less(Double { bits: THOUSANDTH_BITS }))),
        notation_of(value) == Notation::Scientific ==> formatted(value, fixed, scientific)
            == scientific,
        notation_of(value) != Notation::Scientific ==> formatted(value, fixed, scientific) == if
            value.zero() {
            "0"@
        } else {
            trimmed(fixed)
        },
{
}

/// What is left of a text once a trailing run is taken off: a prefix of the
/// text that does not end in the character, followed in the text by that
/// character only.
pub proof fn lemma_without_trailing(s: Seq<char>, c: char)
    ensures
        without_trailing(s, c).len() <= s.len(),
        without_trailing(s, c) == s.take(without_trailing(s, c).len() as int),
        without_trailing(s, c).len() > 0 ==> without_trailing(s, c).last() != c,
        forall|i: int| without_trailing(s, c).len() <= i < s.len() ==> #[trigger] s[i] == c,
    decreases s.len(),
{
    if s.len() > 0 && s.last() == c {
        lemma_without_trailing(s.drop_last(), c);
        let rest = without_trailing(s.drop_last(), c);
        assert(s.drop_last().take(rest.len() as int) =~= s.take(rest.len() as int));
        assert forall|i: int| rest.len() <= i < s.len() implies #[trigger] s[i] == c by {
            if i < s.len() - 1 {
                assert(s.drop_last()[i] == s[i]);
            }
        }
    } else {
        assert(s.take(s.len() as int) =~= s);
    }
}

} // verus!
