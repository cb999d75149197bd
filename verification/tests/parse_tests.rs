use telemetry_monitor::double::Double;
use telemetry_monitor::parse::{
    csv_split, is_whitespace, newline_split, parse_matrix, parse_row, tokenize,
};

fn read(token: &str) -> Option<Double> {
    match token.parse::<f64>() {
        Ok(v) => Some(Double::from_bits(v.to_bits())),
        Err(_) => None,
    }
}

fn matrix(text: &str) -> Vec<Vec<f64>> {
    let grid = tokenize(text);
    let readings: Vec<Vec<Option<Double>>> =
        grid.iter().map(|row| row.iter().map(|t| read(t)).collect()).collect();
    parse_matrix(&readings)
        .iter()
        .map(|row| row.iter().map(|v| f64::from_bits(v.to_bits())).collect())
        .collect()
}

fn strings(items: &[&str]) -> Vec<String> {
    items.iter().map(|s| s.to_string()).collect()
}

#[test]
fn whitespace_is_the_unicode_property() {
    for u in 0u32..=0x10FFFF {
        if let Some(c) = char::from_u32(u) {
            assert_eq!(is_whitespace(c), c.is_whitespace(), "U+{u:04X}");
        }
    }
}

#[test]
fn parse_matrix_reads_two_records() {
    assert_eq!(matrix("1,2,3\n4,5,6\n"), vec![vec![1.0, 2.0, 3.0], vec![4.0, 5.0, 6.0]]);
}

#[test]
fn parse_matrix_drops_a_malformed_token() {
    assert_eq!(matrix("1,x,3\n"), vec![vec![1.0, 3.0]]);
}

#[test]
fn parse_matrix_of_nothing_is_empty() {
    assert_eq!(matrix(""), Vec::<Vec<f64>>::new());
    assert_eq!(matrix("\n\n"), Vec::<Vec<f64>>::new());
    assert_eq!(matrix("  \n\t\n"), Vec::<Vec<f64>>::new());
}

#[test]
fn parse_matrix_keeps_line_order() {
    assert_eq!(matrix("3\n1\n2"), vec![vec![3.0], vec![1.0], vec![2.0]]);
}

#[test]
fn parse_matrix_keeps_a_record_without_numbers() {
    assert_eq!(matrix("a,b\n1\n"), vec![vec![], vec![1.0]]);
}

#[test]
fn parse_matrix_ignores_whitespace_inside_a_record() {
    assert_eq!(matrix(" 1 , 2\t,3 \r\n4, 5 ,6"), vec![vec![1.0, 2.0, 3.0], vec![4.0, 5.0, 6.0]]);
    assert_eq!(matrix("1 2,3\n"), vec![vec![12.0, 3.0]]);
}

#[test]
fn parse_matrix_reads_negative_and_scientific_numbers() {
    assert_eq!(matrix("-1.5,2e3,0.001\n"), vec![vec![-1.5, 2000.0, 0.001]]);
}

#[test]
fn newline_split_skips_empty_lines() {
    assert_eq!(newline_split("a\n\nb\n"), strings(&["a", "b"]));
    assert_eq!(newline_split("a"), strings(&["a"]));
    assert_eq!(newline_split(""), Vec::<String>::new());
    assert_eq!(newline_split("\n"), Vec::<String>::new());
}

#[test]
fn newline_split_skips_blank_lines_and_keeps_the_text_of_others() {
    assert_eq!(newline_split(" \t \n 1, 2 \n\r\n"), strings(&[" 1, 2 "]));
}

#[test]
fn csv_split_cuts_at_commas() {
    assert_eq!(csv_split("1,2,3"), strings(&["1", "2", "3"]));
    assert_eq!(csv_split("1,,3,"), strings(&["1", "", "3", ""]));
    assert_eq!(csv_split(""), strings(&[""]));
    assert_eq!(csv_split(","), strings(&["", ""]));
}

#[test]
fn csv_split_removes_whitespace_first() {
    assert_eq!(csv_split(" 1 ,\t2 , 3\u{00A0}"), strings(&["1", "2", "3"]));
    assert_eq!(csv_split("1\n2,3"), strings(&["12", "3"]));
    assert_eq!(csv_split("   "), strings(&[""]));
}

#[test]
fn csv_split_keeps_other_characters() {
    assert_eq!(csv_split("é,x y,-"), strings(&["é", "xy", "-"]));
}

#[test]
fn tokenize_gives_the_tokens_of_each_record() {
    assert_eq!(
        tokenize("1,x,3\n\n4, 5\n"),
        vec![strings(&["1", "x", "3"]), strings(&["4", "5"])]
    );
    assert_eq!(tokenize(""), Vec::<Vec<String>>::new());
}

#[test]
fn parse_row_keeps_what_was_read() {
    let one = Double::from_bits(1.0f64.to_bits());
    let three = Double::from_bits(3.0f64.to_bits());
    assert_eq!(parse_row(&vec![Some(one), None, Some(three)]), vec![one, three]);
    assert_eq!(parse_row(&vec![None, None]), Vec::<Double>::new());
    assert_eq!(parse_row(&vec![]), Vec::<Double>::new());
}
