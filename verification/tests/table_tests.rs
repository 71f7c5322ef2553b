use simpleweather::pretty_printer::{
    calc_column_width, calc_columns_number, calc_min_record_size, render_delimiter_line,
    render_record_line, render_table, temp_to_string, TableError,
};

fn table(rows: &[&[&str]]) -> Vec<Vec<String>> {
    rows.iter().map(|row| row.iter().map(|cell| cell.to_string()).collect()).collect()
}

#[test]
fn single_cell_table() {
    let rows = table(&[&["X"]]);
    assert_eq!(calc_column_width(&rows[0]), 3);
    let lines = render_table(&rows).unwrap();
    assert_eq!(lines.len(), 3);
    assert_eq!(lines[0].as_str(), "+---+");
    assert_eq!(lines[1].as_str(), "| X |");
    assert_eq!(lines[2].as_str(), "+---+");
}

#[test]
fn city_temperature_table() {
    let city_column: Vec<String> = vec!["City".to_string(), "Oslo".to_string()];
    let temp_column: Vec<String> = vec!["Temperature".to_string(), "5 \u{b0}C".to_string()];
    assert_eq!(calc_column_width(&city_column), 6);
    assert_eq!(calc_column_width(&temp_column), 13);

    let rows = table(&[&["City", "Temperature"], &["Oslo", "5 \u{b0}C"]]);
    let lines = render_table(&rows).unwrap();
    assert_eq!(lines.len(), 5);
    assert_eq!(lines[0].as_str(), "+------+-------------+");
    assert_eq!(lines[1].as_str(), "| City | Temperature |");
    assert_eq!(lines[2].as_str(), "+------+-------------+");
    assert_eq!(lines[3].as_str(), "| Oslo |    5 \u{b0}C     |");
    assert_eq!(lines[4].as_str(), "+------+-------------+");
}

#[test]
fn delimiter_count_is_rows_plus_one() {
    let rows = table(&[&["a"], &["bb"], &["ccc"]]);
    let lines = render_table(&rows).unwrap();
    assert_eq!(lines.len(), 2 * 3 + 1);
    let delimiters = lines.iter().filter(|l| l.starts_with('+')).count();
    assert_eq!(delimiters, 3 + 1);
    for i in [0, 2, 4, 6] {
        assert_eq!(lines[i], lines[0]);
    }
}

#[test]
fn content_lines_match_planned_widths() {
    let rows = table(&[&["alpha", "b"], &["c", "delta epsilon"]]);
    let lines = render_table(&rows).unwrap();
    for line in &lines {
        assert_eq!(line.chars().count(), lines[0].chars().count());
    }
    let widths: Vec<usize> =
        lines[0].split('+').map(|seg| seg.len()).filter(|len| *len > 0).collect();
    assert_eq!(widths, vec![5 + 2, 13 + 2]);
    for content in [&lines[1], &lines[3]] {
        let segments: Vec<&str> = content[1..content.len() - 1].split('|').collect();
        assert_eq!(segments.len(), 2);
        assert_eq!(segments[0].chars().count(), widths[0]);
        assert_eq!(segments[1].chars().count(), widths[1]);
    }
}

#[test]
fn centering_even_slack_is_symmetric() {
    let widths: Vec<usize> = vec![6];
    let row: Vec<String> = vec!["ab".to_string()];
    let line = render_record_line(&widths, &row).unwrap();
    assert_eq!(line.as_str(), "|  ab  |");
}

#[test]
fn centering_odd_slack_leans_right() {
    let widths: Vec<usize> = vec![7];
    let row: Vec<String> = vec!["ab".to_string()];
    let line = render_record_line(&widths, &row).unwrap();
    assert_eq!(line.as_str(), "|  ab   |");
}

#[test]
fn grapheme_width_of_flag_emoji_is_one() {
    // Two regional-indicator codepoints form a single flag cluster.
    assert_eq!(calc_min_record_size("\u{1F1F3}\u{1F1F4}"), 1 + 2);
}

#[test]
fn grapheme_width_of_combining_sequence_is_one() {
    // A letter followed by a combining accent is one user-perceived character.
    assert_eq!(calc_min_record_size("e\u{301}"), 1 + 2);
}

#[test]
fn grapheme_width_of_ascii_is_its_length() {
    assert_eq!(calc_min_record_size("Hello"), 5 + 2);
    assert_eq!(calc_min_record_size(""), 0 + 2);
}

#[test]
fn ragged_rows_are_a_contract_violation() {
    let rows = table(&[&["a", "b"], &["c"]]);
    let result = render_table(&rows);
    assert!(matches!(result, Err(TableError::ContractViolation)));
}

#[test]
fn undersized_width_is_a_contract_violation() {
    let widths: Vec<usize> = vec![3];
    let row: Vec<String> = vec!["abcd".to_string()];
    let result = render_record_line(&widths, &row);
    assert!(matches!(result, Err(TableError::ContractViolation)));
}

#[test]
fn columns_number_is_longest_row() {
    let rows = table(&[&["a", "b"], &["c"], &[]]);
    assert_eq!(calc_columns_number(&rows), 2);
    assert_eq!(calc_columns_number(&table(&[])), 0);
}

#[test]
fn delimiter_line_of_no_columns_degenerates() {
    let widths: Vec<usize> = vec![];
    assert_eq!(render_delimiter_line(&widths).as_str(), "+");
}

#[test]
fn temperatures_read_as_celsius_labels() {
    assert_eq!(temp_to_string(5).as_str(), "5 \u{b0}C");
    assert_eq!(temp_to_string(0).as_str(), "0 \u{b0}C");
    assert_eq!(temp_to_string(-3).as_str(), "-3 \u{b0}C");
    assert_eq!(temp_to_string(32767).as_str(), "32767 \u{b0}C");
    assert_eq!(temp_to_string(-32768).as_str(), "-32768 \u{b0}C");
}

#[test]
fn zero_column_table_degenerates() {
    let rows: Vec<Vec<String>> = vec![vec![]];
    let lines = render_table(&rows).unwrap();
    assert_eq!(lines.len(), 3);
    assert_eq!(lines[0].as_str(), "+");
    assert_eq!(lines[1].as_str(), "|");
    assert_eq!(lines[2].as_str(), "+");
}
