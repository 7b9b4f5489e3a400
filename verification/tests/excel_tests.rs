use regmap::error::Error;
use regmap::excel::{Column, Sheet, Table};
use regmap::parser::fill::fill_forward;

fn cell(s: &str) -> Option<String> {
    if s.is_empty() {
        None
    } else {
        Some(s.to_string())
    }
}

fn cells(v: &[&str]) -> Vec<Option<String>> {
    v.iter().map(|c| cell(c)).collect()
}

fn sheet(rows: &[&[&str]]) -> Sheet {
    Sheet { rows: rows.iter().map(|r| cells(r)).collect() }
}

fn names(t: &Table) -> Vec<String> {
    t.columns().iter().map(|c| c.name.clone()).collect()
}

#[test]
fn blank_cells_are_filled_from_above() {
    let filled = fill_forward(&cells(&["", "", "a", "", "", "b", "", "c", ""]));
    assert_eq!(filled, cells(&["", "", "a", "a", "a", "b", "b", "c", "c"]));
}

#[test]
fn filling_leaves_blank_and_full_columns_alone() {
    assert_eq!(fill_forward(&cells(&[])), cells(&[]));
    assert_eq!(fill_forward(&cells(&["", "", ""])), cells(&["", "", ""]));
    assert_eq!(fill_forward(&cells(&["x", "y"])), cells(&["x", "y"]));
}

#[test]
fn filling_keeps_an_empty_text_as_written() {
    let col = vec![Some("a".to_string()), Some(String::new()), None];
    let filled = fill_forward(&col);
    assert_eq!(filled, vec![Some("a".to_string()), Some(String::new()), Some(String::new())]);
}

#[test]
fn a_sheet_becomes_a_table() {
    let t = sheet(&[&["TAG", "VALUE"], &["VENDOR", "acme"], &["NAME", ""]]).to_data_frame().unwrap();
    assert_eq!(names(&t), vec!["TAG", "VALUE"]);
    assert_eq!(t.height(), 2);
    assert_eq!(t.column("TAG").unwrap(), &cells(&["VENDOR", "NAME"]));
    assert_eq!(t.column("VALUE").unwrap(), &cells(&["acme", ""]));
    assert!(t.column("tag").is_none());
}

#[test]
fn repeated_headers_are_told_apart() {
    let t = sheet(&[&["A", "B", "A", "A", "B", ""], &["1", "2", "3", "4", "5", "6"]])
        .to_data_frame()
        .unwrap();
    assert_eq!(names(&t), vec!["A", "B", "A_duplicated_1", "A_duplicated_2", "B_duplicated_1", ""]);
    assert_eq!(t.column("A_duplicated_2").unwrap(), &cells(&["4"]));
}

#[test]
fn a_sheet_with_headers_only_is_an_empty_table() {
    let t = sheet(&[&["A", "B"]]).to_data_frame().unwrap();
    assert_eq!(t.height(), 0);
    assert_eq!(names(&t), vec!["A", "B"]);
}

#[test]
fn a_sheet_without_rows_holds_no_table() {
    let r = sheet(&[]).to_data_frame();
    assert_eq!(r.err(), Some(Error::Empty("No data".to_string())));
}

#[test]
fn a_ragged_sheet_holds_no_table() {
    let s = Sheet { rows: vec![cells(&["A", "B"]), cells(&["1", "2"]), cells(&["1"])] };
    assert_eq!(s.to_data_frame().err(), Some(Error::Shape("2".to_string())));
}

#[test]
fn headers_that_collide_after_renaming_are_refused() {
    let r = sheet(&[&["A", "A", "A_duplicated_1"], &["1", "2", "3"]]).to_data_frame();
    assert_eq!(r.err(), Some(Error::Duplicate("A_duplicated_1".to_string())));
}

#[test]
fn a_table_needs_distinct_names_and_one_height() {
    let col = |n: &str, c: &[&str]| Column { name: n.to_string(), cells: cells(c) };
    assert!(Table::new(vec![]).is_ok());
    assert!(Table::new(vec![col("A", &["1"]), col("B", &["2"])]).is_ok());
    assert_eq!(
        Table::new(vec![col("A", &["1"]), col("B", &["2"]), col("A", &["3"])]).err(),
        Some(Error::Duplicate("A".to_string()))
    );
    assert_eq!(
        Table::new(vec![col("A", &["1"]), col("B", &["2", "3"])]).err(),
        Some(Error::Shape("B".to_string()))
    );
    assert_eq!(
        Table::new(vec![col("A", &["1"]), col("B", &["2", "3"]), col("A", &["3"])]).err(),
        Some(Error::Duplicate("A".to_string()))
    );
}

#[test]
fn a_copy_of_a_table_holds_the_same() {
    let t = sheet(&[&["A", "B"], &["1", ""], &["", "4"]]).to_data_frame().unwrap();
    let c = t.copy();
    assert_eq!(names(&c), names(&t));
    assert_eq!(c.column("A"), t.column("A"));
    assert_eq!(c.column("B"), t.column("B"));
}
