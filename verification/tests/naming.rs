use map_json::naming::output_filename;

#[test]
fn plain_name() {
    assert_eq!(output_filename("data.xlsx", "Sheet1"), "data.xlsx-Sheet1.json");
}

#[test]
fn name_with_spaces() {
    assert_eq!(
        output_filename("my book.xlsx", "First Sheet"),
        "my book.xlsx-First Sheet.json"
    );
}

#[test]
fn name_with_punctuation() {
    assert_eq!(
        output_filename("a/b.xlsx", "Q1: totals (v2)!"),
        "a/b.xlsx-Q1: totals (v2)!.json"
    );
}

#[test]
fn empty_sheet_name() {
    assert_eq!(output_filename("in.xlsx", ""), "in.xlsx-.json");
}
