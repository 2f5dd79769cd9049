//! The rendered documents must match what pretty serialization of the same
//! records produces, byte for byte.

use map_json::convert::sheet_to_json;
use map_json::model::Cell;
use serde_json::{Number, Value};

fn reference_doc(records: Vec<serde_json::Map<String, Value>>) -> String {
    let mut top = serde_json::Map::new();
    top.insert(
        "Markers".to_string(),
        Value::Array(records.into_iter().map(Value::Object).collect()),
    );
    serde_json::to_string_pretty(&Value::Object(top)).unwrap()
}

#[test]
fn matches_reference_serializer_mixed() {
    let grid = vec![
        vec![
            Cell::Other("name".to_string()),
            Cell::Other("count".to_string()),
            Cell::Other("ratio".to_string()),
        ],
        vec![
            Cell::Other("alpha".to_string()),
            Cell::Int(12),
            Cell::Float {
                integral: false,
                trunc: 0,
                text: Number::from_f64(0.125).unwrap().to_string(),
            },
        ],
        vec![
            Cell::Other("beta".to_string()),
            Cell::Int(-3),
            Cell::Float {
                integral: true,
                trunc: 9,
                text: Number::from_f64(9.0).unwrap().to_string(),
            },
        ],
    ];

    let mut r1 = serde_json::Map::new();
    r1.insert("name".to_string(), Value::String("alpha".to_string()));
    r1.insert("count".to_string(), Value::Number(Number::from(12i64)));
    r1.insert(
        "ratio".to_string(),
        Value::Number(Number::from_f64(0.125).unwrap()),
    );
    let mut r2 = serde_json::Map::new();
    r2.insert("name".to_string(), Value::String("beta".to_string()));
    r2.insert("count".to_string(), Value::Number(Number::from(-3i64)));
    r2.insert("ratio".to_string(), Value::Number(Number::from(9i64)));

    assert_eq!(sheet_to_json(&grid), reference_doc(vec![r1, r2]));
}

#[test]
fn matches_reference_serializer_escapes() {
    let tricky = "he said \"hi\"\\ \n\t\r\u{8}\u{c}\u{1}\u{1f}\u{7f} caf\u{e9} \u{1f600}";
    let key = "we\"ird\\key\n";
    let grid = vec![
        vec![Cell::Other(key.to_string())],
        vec![Cell::Other(tricky.to_string())],
    ];

    let mut r = serde_json::Map::new();
    r.insert(key.to_string(), Value::String(tricky.to_string()));

    assert_eq!(sheet_to_json(&grid), reference_doc(vec![r]));
}

#[test]
fn matches_reference_serializer_empty() {
    let grid: Vec<Vec<Cell>> = vec![];
    assert_eq!(sheet_to_json(&grid), reference_doc(Vec::new()));

    let header_only = vec![vec![Cell::Other("A".to_string())]];
    assert_eq!(sheet_to_json(&header_only), reference_doc(Vec::new()));
}

#[test]
fn matches_reference_serializer_extreme_integers() {
    let grid = vec![
        vec![Cell::Other("lo".to_string()), Cell::Other("hi".to_string())],
        vec![Cell::Int(i64::MIN), Cell::Int(i64::MAX)],
    ];
    let mut r = serde_json::Map::new();
    r.insert("lo".to_string(), Value::Number(Number::from(i64::MIN)));
    r.insert("hi".to_string(), Value::Number(Number::from(i64::MAX)));
    assert_eq!(sheet_to_json(&grid), reference_doc(vec![r]));
}
