use map_json::convert::sheet_to_json;
use map_json::model::Cell;

fn text(s: &str) -> Cell {
    Cell::Other(s.to_string())
}

fn num(v: i64) -> Cell {
    Cell::Int(v)
}

fn float(v: f64) -> Cell {
    Cell::Float {
        integral: v.fract() == 0.0,
        trunc: v as i64,
        text: serde_json::Number::from_f64(v).unwrap().to_string(),
    }
}

#[test]
fn single_row_mixed_types() {
    let grid = vec![
        vec![text("A"), text("B"), text("C")],
        vec![num(1), float(2.5), text("x")],
    ];
    let expected = "{\n  \"Markers\": [\n    {\n      \"A\": 1,\n      \"B\": 2.5,\n      \"C\": \"x\"\n    }\n  ]\n}";
    assert_eq!(sheet_to_json(&grid), expected);
}

#[test]
fn integral_float_becomes_integer() {
    let grid = vec![vec![text("A")], vec![float(4.0)]];
    let expected = "{\n  \"Markers\": [\n    {\n      \"A\": 4\n    }\n  ]\n}";
    assert_eq!(sheet_to_json(&grid), expected);
}

#[test]
fn short_row_omits_trailing_columns() {
    let grid = vec![
        vec![text("A"), text("B"), text("C")],
        vec![num(1), num(2)],
    ];
    let expected = "{\n  \"Markers\": [\n    {\n      \"A\": 1,\n      \"B\": 2\n    }\n  ]\n}";
    let out = sheet_to_json(&grid);
    assert_eq!(out, expected);
    assert!(!out.contains("\"C\""));
}

#[test]
fn long_row_drops_extra_cells() {
    let grid = vec![
        vec![text("A"), text("B")],
        vec![num(1), num(2), num(3), text("extra")],
    ];
    let expected = "{\n  \"Markers\": [\n    {\n      \"A\": 1,\n      \"B\": 2\n    }\n  ]\n}";
    let out = sheet_to_json(&grid);
    assert_eq!(out, expected);
    assert!(!out.contains("3"));
    assert!(!out.contains("extra"));
}

#[test]
fn header_only_sheet_gives_empty_markers() {
    let grid = vec![vec![text("A"), text("B")]];
    assert_eq!(sheet_to_json(&grid), "{\n  \"Markers\": []\n}");
}

#[test]
fn empty_sheet_gives_empty_markers() {
    let grid: Vec<Vec<Cell>> = Vec::new();
    assert_eq!(sheet_to_json(&grid), "{\n  \"Markers\": []\n}");
}

#[test]
fn empty_data_row_gives_empty_record() {
    let grid = vec![vec![text("A")], vec![]];
    assert_eq!(sheet_to_json(&grid), "{\n  \"Markers\": [\n    {}\n  ]\n}");
}

#[test]
fn keys_come_out_sorted() {
    let grid = vec![
        vec![text("b"), text("a"), text("B")],
        vec![num(1), num(2), num(3)],
    ];
    let expected = "{\n  \"Markers\": [\n    {\n      \"B\": 3,\n      \"a\": 2,\n      \"b\": 1\n    }\n  ]\n}";
    assert_eq!(sheet_to_json(&grid), expected);
}

#[test]
fn duplicate_header_keeps_last_value() {
    let grid = vec![
        vec![text("A"), text("A")],
        vec![num(1), num(2)],
    ];
    let expected = "{\n  \"Markers\": [\n    {\n      \"A\": 2\n    }\n  ]\n}";
    assert_eq!(sheet_to_json(&grid), expected);
}

#[test]
fn numeric_header_cell_gives_empty_name() {
    let grid = vec![vec![num(7)], vec![num(1)]];
    let expected = "{\n  \"Markers\": [\n    {\n      \"\": 1\n    }\n  ]\n}";
    assert_eq!(sheet_to_json(&grid), expected);
}

#[test]
fn non_string_cell_without_text_becomes_empty_string() {
    // A boolean or empty cell has no string representation and reaches the
    // library as an empty text cell.
    let grid = vec![vec![text("A")], vec![text("")]];
    let expected = "{\n  \"Markers\": [\n    {\n      \"A\": \"\"\n    }\n  ]\n}";
    assert_eq!(sheet_to_json(&grid), expected);
}

#[test]
fn several_rows_keep_order() {
    let grid = vec![
        vec![text("N")],
        vec![num(1)],
        vec![num(2)],
        vec![num(3)],
    ];
    let expected = "{\n  \"Markers\": [\n    {\n      \"N\": 1\n    },\n    {\n      \"N\": 2\n    },\n    {\n      \"N\": 3\n    }\n  ]\n}";
    assert_eq!(sheet_to_json(&grid), expected);
}

#[test]
fn negative_and_extreme_integers() {
    let grid = vec![
        vec![text("A"), text("B"), text("C")],
        vec![num(-42), num(i64::MIN), num(i64::MAX)],
    ];
    let expected = "{\n  \"Markers\": [\n    {\n      \"A\": -42,\n      \"B\": -9223372036854775808,\n      \"C\": 9223372036854775807\n    }\n  ]\n}";
    assert_eq!(sheet_to_json(&grid), expected);
}

#[test]
fn conversion_is_deterministic() {
    let grid = vec![
        vec![text("A"), text("B")],
        vec![num(1), float(2.5)],
        vec![text("x"), float(-4.0)],
    ];
    let first = sheet_to_json(&grid);
    let second = sheet_to_json(&grid);
    assert_eq!(first, second);
    let rebuilt = vec![
        vec![text("A"), text("B")],
        vec![num(1), float(2.5)],
        vec![text("x"), float(-4.0)],
    ];
    assert_eq!(sheet_to_json(&rebuilt), first);
}

#[test]
fn record_insert_sorts_and_replaces() {
    let mut rec = map_json::record::Record::new();
    rec.insert("b".to_string(), map_json::model::JsonValue::Int(1));
    rec.insert("a".to_string(), map_json::model::JsonValue::Int(2));
    rec.insert("b".to_string(), map_json::model::JsonValue::Int(3));
    assert_eq!(rec.len(), 2);
    let first = rec.field_at(0);
    assert_eq!(first.0, "a");
    assert!(matches!(first.1, map_json::model::JsonValue::Int(2)));
    let second = rec.field_at(1);
    assert_eq!(second.0, "b");
    assert!(matches!(second.1, map_json::model::JsonValue::Int(3)));
}
