//! Cells and the JSON-compatible values they convert to.
//!
//! A spreadsheet cell reaches the library reduced to plain values: integer
//! cells as their value, floating-point cells as the three facts the
//! conversion rule reads (whether the fractional part is exactly zero, the
//! truncated integer value, and the JSON number rendering), and every other
//! kind of cell (text, boolean, date, error, empty) as its string
//! representation — the empty string where the cell has none.

use vstd::prelude::*;

verus! {

/// A spreadsheet cell, reduced to the plain values the conversion reads.
pub enum Cell {
    /// An integer cell.
    Int(i64),
    /// A floating-point cell: `integral` is true when its fractional part is
    /// exactly zero, `trunc` is its value truncated to an integer, and `text`
    /// is its rendering as a JSON number (meaningful only when `integral` is
    /// false).
    Float { integral: bool, trunc: i64, text: String },
    /// Any other cell, as its string representation.
    Other(String),
}

/// Mathematical model of a `Cell`.
pub ghost enum CellModel {
    Int(int),
    Float { integral: bool, trunc: int, text: Seq<char> },
    Other(Seq<char>),
}

impl DeepView for Cell {
    type V = CellModel;

    open spec fn deep_view(&self) -> CellModel {
        self@
    }
}

impl View for Cell {
    type V = CellModel;

    open spec fn view(&self) -> CellModel {
        match self {
            Cell::Int(v) => CellModel::Int(*v as int),
            Cell::Float { integral, trunc, text } => CellModel::Float {
                integral: *integral,
                trunc: *trunc as int,
                text: text@,
            },
            Cell::Other(s) => CellModel::Other(s@),
        }
    }
}

/// A JSON-compatible value as the converter emits it.
pub enum JsonValue {
    /// A JSON integer.
    Int(i64),
    /// A JSON number, held as its literal rendering.
    Num(String),
    /// A JSON string.
    Str(String),
}

/// Mathematical model of a `JsonValue`.
pub ghost enum JsonModel {
    Int(int),
    Num(Seq<char>),
    Str(Seq<char>),
}

impl View for JsonValue {
    type V = JsonModel;

    open spec fn view(&self) -> JsonModel {
        match self {
            JsonValue::Int(v) => JsonModel::Int(*v as int),
            JsonValue::Num(s) => JsonModel::Num(s@),
            JsonValue::Str(s) => JsonModel::Str(s@),
        }
    }
}

/// The value a cell converts to: an integer cell gives a JSON integer; a
/// floating-point cell gives a JSON integer of its truncated value when its
/// fractional part is exactly zero, and a JSON number otherwise; every other
/// cell gives a JSON string of its string representation.
pub open spec fn spec_convert_cell(c: CellModel) -> JsonModel {
    match c {
        CellModel::Int(v) => JsonModel::Int(v),
        CellModel::Float { integral, trunc, text } => if integral {
            JsonModel::Int(trunc)
        } else {
            JsonModel::Num(text)
        },
        CellModel::Other(s) => JsonModel::Str(s),
    }
}

/// The column name a header cell yields: its string representation, which is
/// empty for numeric cells.
pub open spec fn spec_header_name(c: CellModel) -> Seq<char> {
    match c {
        CellModel::Other(s) => s,
        _ => Seq::<char>::empty(),
    }
}

/// Converts one cell to the JSON value the output holds for it.
pub fn convert_cell(c: &Cell) -> (r: JsonValue)
    ensures
        r@ == spec_convert_cell(c@),
{
    match c {
        Cell::Int(v) => JsonValue::Int(*v),
        Cell::Float { integral, trunc, text } => {
            if *integral {
                JsonValue::Int(*trunc)
            } else {
                JsonValue::Num(text.clone())
            }
        },
        Cell::Other(s) => JsonValue::Str(s.clone()),
    }
}

/// Reads a header cell as a column name.
pub fn header_name(c: &Cell) -> (r: String)
    ensures
        r@ == spec_header_name(c@),
{
    match c {
        Cell::Other(s) => s.clone(),
        _ => String::new(),
    }
}

} // verus!
