use std::cmp::Ordering;
use telemetry_monitor::double::Double;
use telemetry_monitor::error::DataError;
use telemetry_monitor::order::{compare, median, min_max, sort};
use telemetry_monitor::report::EventCategory;
use telemetry_monitor::stats::{
    any_positive, boolean_field, cnt_zscore, event_category, events_field, extract_column,
    field_statistics, FieldStatistics, Moments,
};

fn d(x: f64) -> Double {
    Double::from_bits(x.to_bits())
}

fn f(x: Double) -> f64 {
    f64::from_bits(x.to_bits())
}

fn sample(values: &[f64]) -> Vec<Double> {
    values.iter().map(|v| d(*v)).collect()
}

fn floats(values: &[Double]) -> Vec<f64> {
    values.iter().map(|v| f(*v)).collect()
}

fn rows(values: &[&[f64]]) -> Vec<Vec<Double>> {
    values.iter().map(|r| sample(r)).collect()
}

#[test]
fn compare_orders_numbers_and_puts_nan_last() {
    assert_eq!(compare(&d(1.0), &d(2.0)), Ordering::Less);
    assert_eq!(compare(&d(2.0), &d(1.0)), Ordering::Greater);
    assert_eq!(compare(&d(2.0), &d(2.0)), Ordering::Equal);
    assert_eq!(compare(&d(-0.0), &d(0.0)), Ordering::Equal);
    assert_eq!(compare(&d(-3.0), &d(-2.0)), Ordering::Less);
    assert_eq!(compare(&d(f64::NEG_INFINITY), &d(f64::MIN)), Ordering::Less);
    assert_eq!(compare(&d(f64::NAN), &d(f64::INFINITY)), Ordering::Greater);
    assert_eq!(compare(&d(f64::INFINITY), &d(f64::NAN)), Ordering::Less);
    assert_eq!(compare(&d(f64::NAN), &d(f64::NAN)), Ordering::Greater);
    assert_eq!(compare(&d(-f64::NAN), &d(1.0)), Ordering::Greater);
}

#[test]
fn sort_is_ascending_with_nan_last() {
    let sorted = sort(&sample(&[3.0, f64::NAN, -1.0, 2.0, f64::NEG_INFINITY, 0.0, f64::INFINITY]));
    let values = floats(&sorted);
    assert_eq!(&values[..6], &[f64::NEG_INFINITY, -1.0, 0.0, 2.0, 3.0, f64::INFINITY]);
    assert!(values[6].is_nan());
    assert_eq!(sort(&vec![]), Vec::<Double>::new());
}

#[test]
fn sort_keeps_every_value() {
    let sorted = sort(&sample(&[2.0, 1.0, 2.0, 1.0, 2.0]));
    assert_eq!(floats(&sorted), vec![1.0, 1.0, 2.0, 2.0, 2.0]);
}

#[test]
fn median_of_even_sample_is_upper_middle() {
    assert_eq!(f(median(&sample(&[1.0, 2.0, 3.0, 4.0]))), 3.0);
    assert_eq!(f(median(&sample(&[4.0, 1.0, 3.0, 2.0]))), 3.0);
}

#[test]
fn median_of_odd_sample_is_middle() {
    assert_eq!(f(median(&sample(&[5.0, 1.0, 3.0]))), 3.0);
    assert_eq!(f(median(&sample(&[7.0]))), 7.0);
}

#[test]
fn median_ranks_nan_last() {
    assert_eq!(f(median(&sample(&[f64::NAN, 1.0, 2.0]))), 2.0);
    assert!(f(median(&sample(&[f64::NAN, 1.0, f64::NAN]))).is_nan());
    assert_eq!(f(median(&sample(&[-f64::NAN, -5.0, -7.0]))), -5.0);
}

#[test]
fn min_max_of_sample() {
    let (low, high) = min_max(&sample(&[3.0, -2.0, 8.5, 0.0]));
    assert_eq!((f(low), f(high)), (-2.0, 8.5));
    let (low, high) = min_max(&sample(&[4.0]));
    assert_eq!((f(low), f(high)), (4.0, 4.0));
}

#[test]
fn min_max_of_empty_sample_is_zero() {
    let (low, high) = min_max(&vec![]);
    assert_eq!((low.to_bits(), high.to_bits()), (0, 0));
}

#[test]
fn min_max_ranks_nan_last() {
    let (low, high) = min_max(&sample(&[f64::NAN, 1.0, -1.0]));
    assert_eq!(f(low), -1.0);
    assert!(f(high).is_nan());
}

#[test]
fn column_extracts_in_row_order() {
    let m = rows(&[&[1.0, 2.0, 3.0], &[4.0, 5.0, 6.0]]);
    assert_eq!(extract_column(&m, 1).map(|c| floats(&c)), Ok(vec![2.0, 5.0]));
    assert_eq!(extract_column(&m, 2).map(|c| floats(&c)), Ok(vec![3.0, 6.0]));
    assert_eq!(extract_column(&vec![], 5).map(|c| floats(&c)), Ok(vec![]));
}

#[test]
fn column_beyond_a_row_is_an_error() {
    let m = rows(&[&[1.0, 2.0, 3.0], &[4.0, 5.0]]);
    assert_eq!(extract_column(&m, 2), Err(DataError::Parse));
    assert_eq!(extract_column(&m, 3), Err(DataError::Parse));
    assert_eq!(extract_column(&rows(&[&[]]), 0), Err(DataError::Parse));
}

#[test]
fn boolean_reducer_needs_a_positive_value() {
    assert!(!any_positive(&sample(&[0.0, 0.0, -1.0, 0.0])));
    assert!(any_positive(&sample(&[0.0, 0.0, 1.0, 0.0])));
    assert!(!any_positive(&sample(&[])));
    assert!(!any_positive(&sample(&[-0.0, f64::NAN, f64::NEG_INFINITY])));
    assert!(any_positive(&sample(&[5e-324])));
}

#[test]
fn boolean_field_reads_its_column() {
    let m = rows(&[&[0.0, 0.0], &[0.0, 1.0]]);
    assert_eq!(boolean_field(&m, 0), Ok(false));
    assert_eq!(boolean_field(&m, 1), Ok(true));
    assert_eq!(boolean_field(&m, 2), Err(DataError::Parse));
    assert_eq!(boolean_field(&vec![], 2), Ok(false));
}

#[test]
fn events_reducer_names_the_code() {
    assert_eq!(event_category(d(0.0)), EventCategory::NoEvent);
    assert_eq!(event_category(d(1.0)), EventCategory::Session);
    assert_eq!(event_category(d(2.0)), EventCategory::Button);
    assert_eq!(event_category(d(3.0)), EventCategory::SessionAndButton);
}

#[test]
fn events_reducer_rejects_codes_outside_the_table() {
    assert_eq!(event_category(d(5.0)), EventCategory::Error);
    assert_eq!(event_category(d(4.0)), EventCategory::Error);
    assert_eq!(event_category(d(-1.0)), EventCategory::Error);
    assert_eq!(event_category(d(1.0e300)), EventCategory::Error);
    assert_eq!(event_category(d(f64::INFINITY)), EventCategory::Error);
    assert_eq!(event_category(d(f64::NEG_INFINITY)), EventCategory::Error);
}

#[test]
fn events_reducer_truncates_toward_zero() {
    for x in [0.0, 0.99, -0.99, -0.0, 1.0, 1.5, 1.999, 2.0, 2.7, 3.0, 3.999, 4.0, -1.0, 7.0, f64::NAN] {
        let expected = match x as i32 {
            0 => EventCategory::NoEvent,
            1 => EventCategory::Session,
            2 => EventCategory::Button,
            3 => EventCategory::SessionAndButton,
            _ => EventCategory::Error,
        };
        assert_eq!(event_category(d(x)), expected, "code {x:?}");
    }
}

#[test]
fn events_field_takes_the_greatest_code() {
    let m = rows(&[&[0.0, 1.0], &[0.0, 2.0], &[0.0, 0.0]]);
    assert_eq!(events_field(&m, 1), Ok(EventCategory::Button));
    assert_eq!(events_field(&m, 0), Ok(EventCategory::NoEvent));
    let m = rows(&[&[5.0], &[1.0]]);
    assert_eq!(events_field(&m, 0), Ok(EventCategory::Error));
}

#[test]
fn events_field_without_rows_has_no_value() {
    assert_eq!(events_field(&vec![], 9), Err(DataError::InsufficientData));
    assert_eq!(events_field(&rows(&[&[1.0]]), 9), Err(DataError::Parse));
}

#[test]
fn outlier_count_is_symmetric() {
    let t = d(3.0);
    assert_eq!(cnt_zscore(&sample(&[3.0, -3.0, 2.99, -2.99, 4.5, -4.5, 0.0]), t), 4);
    let zs = [0.5, 3.2, -1.0, 7.0, -3.0];
    let negated: Vec<f64> = zs.iter().map(|z| -z).collect();
    assert_eq!(cnt_zscore(&sample(&zs), t), 3);
    assert_eq!(cnt_zscore(&sample(&negated), t), 3);
}

#[test]
fn outlier_count_edge_cases() {
    let t = d(3.0);
    assert_eq!(cnt_zscore(&vec![], t), 0);
    assert_eq!(cnt_zscore(&sample(&[f64::NAN, f64::INFINITY, f64::NEG_INFINITY]), t), 2);
    assert_eq!(cnt_zscore(&sample(&[10.0, -10.0]), d(f64::NAN)), 0);
    assert_eq!(cnt_zscore(&sample(&[0.0, -0.0, 1.0]), d(0.0)), 3);
}

#[test]
fn field_statistics_of_a_sample() {
    let values = [2.0, 4.0, 4.0, 4.0, 5.0, 5.0, 7.0, 9.0];
    let moments = Moments {
        mean: d(5.0),
        std_dev: d(2.0),
        z_scores: sample(&[-1.5, -0.5, -0.5, -0.5, 0.0, 0.0, 1.0, 2.0]),
    };
    let stats = field_statistics(&sample(&values), &moments, d(1.5));
    assert_eq!(
        stats,
        Ok(FieldStatistics {
            mean: d(5.0),
            median: d(5.0),
            std_dev: d(2.0),
            min: d(2.0),
            max: d(9.0),
            outlier_count: 2,
        })
    );
}

#[test]
fn field_statistics_of_nothing_is_insufficient_data() {
    let moments = Moments { mean: d(f64::NAN), std_dev: d(f64::NAN), z_scores: vec![] };
    assert_eq!(field_statistics(&vec![], &moments, d(3.0)), Err(DataError::InsufficientData));
}
