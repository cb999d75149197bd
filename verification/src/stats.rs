//! The per-field reducers: one column of the matrix in, one value of the
//! report out.
use vstd::prelude::*;
use crate::double::{Double, ONE_BITS};
use crate::error::DataError;
use crate::order::{count, greatest, least, median, min_max, order_statistic};
use crate::report::EventCategory;

verus! {

/// The pattern of `2.0`.
pub const TWO_BITS: u64 = 0x4000_0000_0000_0000;

/// The pattern of `3.0`.
pub const THREE_BITS: u64 = 0x4008_0000_0000_0000;

/// The pattern of `4.0`.
pub const FOUR_BITS: u64 = 0x4010_0000_0000_0000;

/// The mean, the population standard deviation and the z-scores of a
/// sample. They are computed in floating point, outside this library.
pub struct Moments {
    pub mean: Double,
    pub std_dev: Double,
    pub z_scores: Vec<Double>,
}

/// The statistics of one numeric field.
#[derive(Clone, Copy, Debug, PartialEq, Eq, Structural)]
pub struct FieldStatistics {
    pub mean: Double,
    pub median: Double,
    pub std_dev: Double,
    pub min: Double,
    pub max: Double,
    pub outlier_count: u64,
}

/// Whether every row of the matrix reaches column `index`.
pub open spec fn has_column(matrix: Seq<Vec<Double>>, index: int) -> bool {
    forall|i: int| 0 <= i < matrix.len() ==> index < (#[trigger] matrix[i]).len()
}

/// Column `index` of the matrix, top to bottom.
pub open spec fn column_of(matrix: Seq<Vec<Double>>, index: int) -> Seq<Double> {
    Seq::new(matrix.len(), |i: int| matrix[i]@[index])
}

/// Whether some element of the sample is greater than zero.
pub open spec fn some_positive(sample: Seq<Double>) -> bool {
    exists|i: int| 0 <= i < sample.len() && (#[trigger] sample[i]).positive()
}

/// Whether `z` lies `threshold` or more away from zero, on either side.
pub open spec fn outlier(z: Double, threshold: Double) -> bool {
    z.absolute().at_least(threshold)
}

/// How many of the z-scores are outliers.
pub open spec fn outliers(z_scores: Seq<Double>, threshold: Double) -> nat {
    count(z_scores, |z: Double| outlier(z, threshold))
}

/// The whole part of `d` where that is 0, 1, 2 or 3, the codes of the event
/// table. Truncation goes toward zero, so everything strictly between -1
/// and 1 has whole part 0; a NaN counts as 0 too, as it does when a number
/// is cast to an integer.
pub open spec fn event_code(d: Double) -> Option<nat> {
    if d.nan() || d.magnitude() < ONE_BITS {
        Some(0nat)
    } else if d.negative() {
        None
    } else if d.bits < TWO_BITS {
        Some(1nat)
    } else if d.bits < THREE_BITS {
        Some(2nat)
    } else if d.bits < FOUR_BITS {
        Some(3nat)
    } else {
        None
    }
}

/// The event table. A code outside 0..=3 is an error, never "no event".
pub open spec fn category_of(code: Option<nat>) -> EventCategory {
    if code == Some(0nat) {
        EventCategory::NoEvent
    } else if code == Some(1nat) {
        EventCategory::Session
    } else if code == Some(2nat) {
        EventCategory::Button
    } else if code == Some(3nat) {
        EventCategory::SessionAndButton
    } else {
        EventCategory::Error
    }
}

/// What a binary field is worth: whether its column holds a value above
/// zero, or an error where a row does not reach the column.
pub open spec fn flag_of(matrix: Seq<Vec<Double>>, index: int) -> Result<bool, DataError> {
    if has_column(matrix, index) {
        Ok(some_positive(column_of(matrix, index)))
    } else {
        Err(DataError::Parse)
    }
}

/// Whether `value` is what the event field is worth: the category of a
/// greatest code of its column, or an error where a row does not reach the
/// column or there are no rows.
pub open spec fn event_of(
    matrix: Seq<Vec<Double>>,
    index: int,
    value: Result<EventCategory, DataError>,
) -> bool {
    if !has_column(matrix, index) {
        value == Err::<EventCategory, DataError>(DataError::Parse)
    } else if matrix.len() == 0 {
        value == Err::<EventCategory, DataError>(DataError::InsufficientData)
    } else {
        exists|top: Double|
            greatest(column_of(matrix, index), top) && value == Ok::<EventCategory, DataError>(
                category_of(event_code(top)),
            )
    }
}

/// Extracts one column of the matrix, in row order. A row that does not
/// reach the column is an error; the column is never padded.
pub fn extract_column(matrix: &Vec<Vec<Double>>, index: usize) -> (sample: Result<Vec<Double>, DataError>)
    ensures
        has_column(matrix@, index as int) ==> sample.is_ok() && sample.unwrap()@ == column_of(
            matrix@,
            index as int,
        ),
        !has_column(matrix@, index as int) ==> sample == Err::<Vec<Double>, DataError>(
            DataError::Parse,
        ),
{
    let mut sample: Vec<Double> = Vec::new();
    let mut i: usize = 0;
    while i < matrix.len()
        invariant
            i <= matrix.len(),
            sample@ =~= column_of(matrix@.take(i as int), index as int),
            has_column(matrix@.take(i as int), index as int),
        decreases matrix.len() - i,
    {
        if index >= matrix[i].len() {
            return Err(DataError::Parse);
        }
        sample.push(matrix[i][index]);
        i += 1;
    }
    assert(matrix@.take(matrix.len() as int) =~= matrix@);
    Ok(sample)
}

/// The reducer of a binary sensor: whether any value of the column is
/// greater than zero.
pub fn any_positive(sample: &Vec<Double>) -> (fired: bool)
    ensures
        fired == some_positive(sample@),
{
    let mut i: usize = 0;
    while i < sample.len()
        invariant
            i <= sample.len(),
            forall|k: int| 0 <= k < i ==> !(#[trigger] sample@[k]).positive(),
        decreases sample.len() - i,
    {
        if sample[i].is_positive() {
            return true;
        }
        i += 1;
    }
    false
}

/// Names an event code: the whole part of `value`, looked up in the event
/// table.
pub fn event_category(value: Double) -> (category: EventCategory)
    ensures
        category == category_of(event_code(value)),
{
    if value.is_nan() || value.abs().to_bits() < ONE_BITS {
        EventCategory::NoEvent
    } else if value.is_sign_negative() {
        EventCategory::Error
    } else if value.to_bits() < TWO_BITS {
        EventCategory::Session
    } else if value.to_bits() < THREE_BITS {
        EventCategory::Button
    } else if value.to_bits() < FOUR_BITS {
        EventCategory::SessionAndButton
    } else {
        EventCategory::Error
    }
}

/// Counts the z-scores that lie `t` or more away from zero. Scores below
/// `-t` count as those above `t` do.
pub fn cnt_zscore(zs: &Vec<Double>, t: Double) -> (c: usize)
    ensures
        c == outliers(zs@, t),
{
    let mut c: usize = 0;
    let mut i: usize = 0;
    assert(zs@.take(0) =~= Seq::empty());
    while i < zs.len()
        invariant
            i <= zs.len(),
            c <= i,
            c == outliers(zs@.take(i as int), t),
        decreases zs.len() - i,
    {
        proof {
            assert(zs@.take(i + 1).drop_last() =~= zs@.take(i as int));
            assert(zs@.take(i + 1).last() == zs@[i as int]);
        }
        if zs[i].abs().ge(t) {
            c += 1;
        }
        i += 1;
    }
    assert(zs@.take(zs.len() as int) =~= zs@);
    c
}

/// The value of a binary field: whether the sensor in column `index` fired
/// in any row. With no rows it did not.
pub fn boolean_field(matrix: &Vec<Vec<Double>>, index: usize) -> (value: Result<bool, DataError>)
    ensures
        value == flag_of(matrix@, index as int),
{
    match extract_column(matrix, index) {
        Ok(sample) => Ok(any_positive(&sample)),
        Err(e) => Err(e),
    }
}

/// The value of the event field: the category of the greatest code in
/// column `index`. With no rows there is no greatest code, and no value.
pub fn events_field(matrix: &Vec<Vec<Double>>, index: usize) -> (value: Result<
    EventCategory,
    DataError,
>)
    ensures
        event_of(matrix@, index as int, value),
{
    match extract_column(matrix, index) {
        Ok(sample) => {
            if sample.len() == 0 {
                Err(DataError::InsufficientData)
            } else {
                let (_, top) = min_max(&sample);
                Ok(event_category(top))
            }
        },
        Err(e) => Err(e),
    }
}

/// The statistics of a numeric field. The median, the range and the count
/// of outliers are computed here; the moments are taken as given. An empty
/// sample has no statistics.
pub fn field_statistics(sample: &Vec<Double>, moments: &Moments, threshold: Double) -> (stats:
    Result<FieldStatistics, DataError>)
    ensures
        sample.len() == 0 ==> stats == Err::<FieldStatistics, DataError>(
            DataError::InsufficientData,
        ),
        sample.len() > 0 ==> stats.is_ok() && ({
            let s = stats.unwrap();
            &&& s.mean == moments.mean
            &&& s.std_dev == moments.std_dev
            &&& order_statistic(sample@, sample.len() as int / 2, s.median)
            &&& least(sample@, s.min)
            &&& greatest(sample@, s.max)
            &&& s.outlier_count == outliers(moments.z_scores@, threshold)
        }),
{
    if sample.len() == 0 {
        return Err(DataError::InsufficientData);
    }
    let (min, max) = min_max(sample);
    Ok(
        FieldStatistics {
            mean: moments.mean,
            median: median(sample),
            std_dev: moments.std_dev,
            min,
            max,
            outlier_count: cnt_zscore(&moments.z_scores, threshold) as u64,
        },
    )
}

/// Outliers are counted on both sides alike: flipping the sign of every
/// z-score leaves the count as it was.
pub proof fn lemma_outliers_symmetric(z_scores: Seq<Double>, threshold: Double)
    ensures
        outliers(z_scores.map_values(|z: Double| z.negated()), threshold) == outliers(
            z_scores,
            threshold,
        ),
    decreases z_scores.len(),
{
    let flipped = z_scores.map_values(|z: Double| z.negated());
    if z_scores.len() > 0 {
        lemma_outliers_symmetric(z_scores.drop_last(), threshold);
        assert(flipped.drop_last() =~= z_scores.drop_last().map_values(|z: Double| z.negated()));
        assert(flipped.last() == z_scores.last().negated());
        lemma_outlier_ignores_sign(z_scores.last(), threshold);
    }
}

/// A z-score and its negation are outliers together.
pub proof fn lemma_outlier_ignores_sign(z: Double, threshold: Double)
    ensures
        outlier(z.negated(), threshold) == outlier(z, threshold),
{
    crate::double::lemma_absolute_of_negated(z);
}

/// The category of a code depends on the number alone, not on its
/// encoding: two codes that are equal as numbers, or that are both NaNs,
/// have one category.
pub proof fn lemma_event_code_of_equal_rank(a: Double, b: Double)
    requires
        a.rank() == b.rank(),
    ensures
        event_code(a) == event_code(b),
{
}

/// The event field has one value: it does not matter which of several
/// greatest codes of the column is taken.
pub proof fn lemma_event_unique(
    matrix: Seq<Vec<Double>>,
    index: int,
    a: Result<EventCategory, DataError>,
    b: Result<EventCategory, DataError>,
)
    requires
        event_of(matrix, index, a),
        event_of(matrix, index, b),
    ensures
        a == b,
{
    if has_column(matrix, index) && matrix.len() > 0 {
        let sample = column_of(matrix, index);
        let x = choose|top: Double|
            greatest(sample, top) && a == Ok::<EventCategory, DataError>(
                category_of(event_code(top)),
            );
        let y = choose|top: Double|
            greatest(sample, top) && b == Ok::<EventCategory, DataError>(
                category_of(event_code(top)),
            );
        let i = choose|i: int| 0 <= i < sample.len() && sample[i] == x;
        let j = choose|j: int| 0 <= j < sample.len() && sample[j] == y;
        assert(sample[i].rank() <= y.rank());
        assert(sample[j].rank() <= x.rank());
        lemma_event_code_of_equal_rank(x, y);
    }
}

} // verus!
