use csv_processing_automation::brackets::strip_brackets;
use csv_processing_automation::error::{require_input, CsvError};
use csv_processing_automation::pipeline::{
    column_set_names, find_column, project, strip_column_brackets, transform, COL_BW_COPIER,
    COL_BW_LARGE, COL_BW_PRINTER, COL_NAME, COL_TOTAL_PRINTS,
};
use csv_processing_automation::table::Table;

fn strings(v: &[&str]) -> Vec<String> {
    v.iter().map(|s| s.to_string()).collect()
}

fn report_header() -> Vec<String> {
    strings(&[
        "Name",
        "Total Prints",
        "Black & WhiteTotal(Printer)",
        "Black & WhiteTotal(Copier/Document Server)",
        "Black & White(Large size)(Copier/Document Server)",
    ])
}

#[test]
fn extra_column_dropped_and_name_cleaned() {
    let mut header = report_header();
    header.push("Extra".to_string());
    let rows = vec![strings(&["[Finance]", "120", "80", "30", "10", "ignored"])];
    let t = Table::new(header, rows).unwrap();
    let out = transform(&t).unwrap();
    assert_eq!(out.header(), &report_header());
    assert_eq!(out.column_count(), 5);
    assert_eq!(out.rows(), &vec![strings(&["Finance", "120", "80", "30", "10"])]);
}

#[test]
fn nested_brackets_removed() {
    let rows = vec![strings(&["[[Lab]]", "1", "2", "3", "4"])];
    let t = Table::new(report_header(), rows).unwrap();
    let out = transform(&t).unwrap();
    assert_eq!(out.rows()[0][0], "Lab");
}

#[test]
fn missing_total_prints_is_schema_error() {
    let header = strings(&[
        "Name",
        "Black & WhiteTotal(Printer)",
        "Black & WhiteTotal(Copier/Document Server)",
        "Black & White(Large size)(Copier/Document Server)",
    ]);
    let rows = vec![strings(&["A", "1", "2", "3"])];
    let t = Table::new(header, rows).unwrap();
    assert_eq!(transform(&t).err(), Some(CsvError::Schema("Total Prints".to_string())));
}

#[test]
fn first_missing_column_is_reported() {
    let header = strings(&["Other"]);
    let t = Table::new(header, vec![]).unwrap();
    assert_eq!(transform(&t).err(), Some(CsvError::Schema("Name".to_string())));
}

#[test]
fn absent_input_is_not_found() {
    assert_eq!(
        require_input("./nope.csv", false),
        Err(CsvError::NotFound("./nope.csv".to_string()))
    );
    assert_eq!(require_input("./data/in.csv", true), Ok(()));
}

#[test]
fn header_only_input_gives_empty_report() {
    let t = Table::new(report_header(), vec![]).unwrap();
    let out = transform(&t).unwrap();
    assert_eq!(out.row_count(), 0);
    assert_eq!(out.header(), &report_header());
}

#[test]
fn columns_are_reordered_to_report_order() {
    let header = strings(&[
        "Black & White(Large size)(Copier/Document Server)",
        "Extra",
        "Total Prints",
        "Name",
        "Black & WhiteTotal(Copier/Document Server)",
        "Black & WhiteTotal(Printer)",
    ]);
    let rows = vec![
        strings(&["4", "x", "1", "[A]", "3", "2"]),
        strings(&["8", "y", "5", "B]", "7", "6"]),
    ];
    let t = Table::new(header, rows).unwrap();
    let out = transform(&t).unwrap();
    assert_eq!(out.header(), &report_header());
    assert_eq!(out.row_count(), 2);
    assert_eq!(out.rows()[0], strings(&["A", "1", "2", "3", "4"]));
    assert_eq!(out.rows()[1], strings(&["B", "5", "6", "7", "8"]));
}

#[test]
fn brackets_kept_outside_name_column() {
    let rows = vec![strings(&["[x]", "[1]", "2]", "[3", "]4["])];
    let t = Table::new(report_header(), rows).unwrap();
    let out = transform(&t).unwrap();
    assert_eq!(out.rows()[0], strings(&["x", "[1]", "2]", "[3", "]4["]));
}

#[test]
fn row_count_is_kept() {
    let rows: Vec<Vec<String>> = (0..7)
        .map(|i| strings(&[&format!("[n{}]", i), "1", "2", "3", "4"]))
        .collect();
    let t = Table::new(report_header(), rows).unwrap();
    assert_eq!(transform(&t).unwrap().row_count(), 7);
}

#[test]
fn ragged_row_is_parse_error() {
    let rows = vec![strings(&["A", "1", "2", "3", "4"]), strings(&["B", "1"])];
    assert!(matches!(Table::new(report_header(), rows), Err(CsvError::Parse(_))));
}

#[test]
fn strip_brackets_values() {
    assert_eq!(strip_brackets("[Dept]"), "Dept");
    assert_eq!(strip_brackets("]]a[b[c]"), "abc");
    assert_eq!(strip_brackets("no brackets"), "no brackets");
    assert_eq!(strip_brackets(""), "");
    assert_eq!(strip_brackets("[]"), "");
    assert_eq!(strip_brackets("(x) {y} [zé]"), "(x) {y} zé");
}

#[test]
fn strip_brackets_length_drops_by_bracket_count() {
    let s = "[[a]b]c[";
    let k = s.chars().filter(|c| *c == '[' || *c == ']').count();
    let r = strip_brackets(s);
    assert_eq!(r.chars().count(), s.chars().count() - k);
    assert!(!r.contains('[') && !r.contains(']'));
}

#[test]
fn find_column_takes_first_match() {
    let header = strings(&["a", "b", "a"]);
    assert_eq!(find_column(&header, &"a".to_string()), Some(0));
    assert_eq!(find_column(&header, &"b".to_string()), Some(1));
    assert_eq!(find_column(&header, &"c".to_string()), None);
}

#[test]
fn project_selects_named_columns() {
    let header = strings(&["a", "b", "c"]);
    let t = Table::new(header, vec![strings(&["1", "2", "3"])]).unwrap();
    let p = project(&t, &strings(&["c", "a"])).unwrap();
    assert_eq!(p.header(), &strings(&["c", "a"]));
    assert_eq!(p.rows(), &vec![strings(&["3", "1"])]);
    assert_eq!(
        project(&t, &strings(&["a", "z", "y"])).err(),
        Some(CsvError::Schema("z".to_string()))
    );
}

#[test]
fn strip_column_touches_one_column() {
    let header = strings(&["a", "b"]);
    let t = Table::new(header, vec![strings(&["[1]", "[2]"])]).unwrap();
    let s = strip_column_brackets(&t, 1);
    assert_eq!(s.rows(), &vec![strings(&["[1]", "2"])]);
    assert_eq!(s.header(), &strings(&["a", "b"]));
}

#[test]
fn report_column_names() {
    assert_eq!(
        column_set_names(),
        strings(&[COL_NAME, COL_TOTAL_PRINTS, COL_BW_PRINTER, COL_BW_COPIER, COL_BW_LARGE])
    );
    assert_eq!(column_set_names(), report_header());
}
