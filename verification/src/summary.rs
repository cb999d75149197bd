//! From the matrix to the entries of the report, field by field.
//!
//! A flag or an event mask is read off the matrix at once. A measurement
//! needs the moments of its sample, which are floating-point work: for such
//! a field the sample is handed out, and the entry is completed once the
//! caller has the moments and the spellings of the statistics.
use vstd::prelude::*;
use crate::double::Double;
use crate::error::DataError;
use crate::format::{numeric_cells, shown, Rendering};
use crate::report::{Field, FieldKind, FieldValue, ReportEntry};
use crate::stats::{
    boolean_field, column_of, event_of, events_field, extract_column, flag_of, has_column,
    FieldStatistics,
};

verus! {

/// How far the value of a field is known from the matrix alone.
pub enum Summary {
    /// The value, or the reason there is none.
    Ready(FieldValue),
    /// The sample of a measurement, not empty, whose moments are wanted.
    Pending(Vec<Double>),
}

/// The spellings of the five statistics of a measurement.
pub struct Renderings {
    pub mean: Rendering,
    pub median: Rendering,
    pub std_dev: Rendering,
    pub min: Rendering,
    pub max: Rendering,
}

/// Whether `summary` is what the matrix says about a field of the given
/// kind in column `index`.
pub open spec fn summary_of(
    matrix: Seq<Vec<Double>>,
    kind: FieldKind,
    index: int,
    summary: Summary,
) -> bool {
    match kind {
        FieldKind::Boolean => summary matches Summary::Ready(FieldValue::Flag(flag)) && flag
            == flag_of(matrix, index),
        FieldKind::Categorical => summary matches Summary::Ready(FieldValue::Event(event))
            && event_of(matrix, index, event),
        FieldKind::Numeric => if !has_column(matrix, index) {
            summary matches Summary::Ready(FieldValue::Numbers(Err(DataError::Parse)))
        } else if matrix.len() == 0 {
            summary matches Summary::Ready(FieldValue::Numbers(Err(DataError::InsufficientData)))
        } else {
            summary matches Summary::Pending(values) && values@ == column_of(matrix, index)
        },
    }
}

/// Reads one field off the matrix. A matrix with a row too short for the
/// field, or a matrix without rows, costs only this field its value.
pub fn summarize(matrix: &Vec<Vec<Double>>, field: &Field) -> (summary: Summary)
    ensures
        summary_of(matrix@, field.kind, field.column as int, summary),
{
    match field.kind {
        FieldKind::Boolean => Summary::Ready(FieldValue::Flag(boolean_field(matrix, field.column))),
        FieldKind::Categorical => Summary::Ready(
            FieldValue::Event(events_field(matrix, field.column)),
        ),
        FieldKind::Numeric => match extract_column(matrix, field.column) {
            Err(e) => Summary::Ready(FieldValue::Numbers(Err(e))),
            Ok(sample) => if sample.len() == 0 {
                Summary::Ready(FieldValue::Numbers(Err(DataError::InsufficientData)))
            } else {
                Summary::Pending(sample)
            },
        },
    }
}

/// The value of a measurement: its statistics, each written as the report
/// shows it.
pub fn complete(stats: &FieldStatistics, renderings: &Renderings) -> (value: FieldValue)
    ensures
        value matches FieldValue::Numbers(Ok(cells)) && {
            &&& cells.mean@ == shown(stats.mean, renderings.mean)
            &&& cells.median@ == shown(stats.median, renderings.median)
            &&& cells.std_dev@ == shown(stats.std_dev, renderings.std_dev)
            &&& cells.min@ == shown(stats.min, renderings.min)
            &&& cells.max@ == shown(stats.max, renderings.max)
            &&& cells.outliers == stats.outlier_count
        },
{
    FieldValue::Numbers(
        Ok(
            numeric_cells(
                stats,
                &renderings.mean,
                &renderings.median,
                &renderings.std_dev,
                &renderings.min,
                &renderings.max,
            ),
        ),
    )
}

/// The entry of a field with the given value.
pub fn entry(field: &Field, value: FieldValue) -> (e: ReportEntry)
    ensures
        e.name@ == field.name@,
        e.value == value,
{
    ReportEntry { name: String::from_str(field.name), value }
}

} // verus!
