//! Sheet conversion: header extraction, row-to-record pairing, and the full
//! sheet-to-document text.
//!
//! The first row of a grid is the header row. Every later row becomes one
//! record: header names are paired with cell values positionally, stopping at
//! the shorter of the two, and later pairs overwrite earlier ones of the same
//! name.

use vstd::prelude::*;

use crate::model::{convert_cell, header_name, spec_convert_cell, spec_header_name, Cell, CellModel};
use crate::record::{insert_pair, FieldModel, Record};
use crate::render::{render_doc, render_document};

verus! {

/// The column names a sheet yields: its first row, each cell read as a name;
/// an empty sheet has no columns.
pub open spec fn spec_headers(grid: Seq<Seq<CellModel>>) -> Seq<Seq<char>> {
    if grid.len() == 0 {
        Seq::<Seq<char>>::empty()
    } else {
        grid[0].map_values(|c: CellModel| spec_header_name(c))
    }
}

/// The fields after pairing the first `n` headers with the first `n` cells of
/// a row, in order.
pub open spec fn record_prefix(h: Seq<Seq<char>>, row: Seq<CellModel>, n: int) -> Seq<FieldModel>
    decreases n,
{
    if n <= 0 {
        Seq::<FieldModel>::empty()
    } else {
        insert_pair(record_prefix(h, row, n - 1), h[n - 1], spec_convert_cell(row[n - 1]))
    }
}

/// How many header-cell pairs a row yields: the shorter of the two lengths.
pub open spec fn pair_count(h: Seq<Seq<char>>, row: Seq<CellModel>) -> int {
    if h.len() <= row.len() {
        h.len() as int
    } else {
        row.len() as int
    }
}

/// The record one data row converts to: headers zipped with converted cell
/// values positionally, stopping at the shorter sequence.
pub open spec fn spec_record(h: Seq<Seq<char>>, row: Seq<CellModel>) -> Seq<FieldModel> {
    record_prefix(h, row, pair_count(h, row))
}

/// The records of a sheet: one per data row after the header row.
pub open spec fn spec_records(grid: Seq<Seq<CellModel>>) -> Seq<Seq<FieldModel>> {
    if grid.len() == 0 {
        Seq::<Seq<FieldModel>>::empty()
    } else {
        grid.skip(1).map_values(|row: Seq<CellModel>| spec_record(spec_headers(grid), row))
    }
}

/// The JSON document text a sheet's grid converts to.
pub open spec fn spec_sheet_json(grid: Seq<Seq<CellModel>>) -> Seq<char> {
    render_doc(spec_records(grid))
}

/// Reads the header row of a grid as the sheet's column names.
pub fn sheet_headers(grid: &Vec<Vec<Cell>>) -> (h: Vec<String>)
    ensures
        h.deep_view() == spec_headers(grid.deep_view()),
{
    let mut h: Vec<String> = Vec::new();
    if grid.len() == 0 {
        proof {
            assert(h.deep_view() =~= spec_headers(grid.deep_view()));
        }
        return h;
    }
    let row = &grid[0];
    let n = row.len();
    proof {
        assert(grid.deep_view()[0] == grid@[0].deep_view());
        assert(spec_headers(grid.deep_view()).len() == n as int);
    }
    let mut i: usize = 0;
    while i < n
        invariant
            n == row@.len(),
            row@ == grid@[0]@,
            grid@.len() > 0,
            i <= n,
            h@.len() == i as int,
            spec_headers(grid.deep_view()).len() == n as int,
            forall|j: int| 0 <= j < i ==> #[trigger] h@[j]@ == spec_headers(grid.deep_view())[j],
        decreases n - i,
    {
        h.push(header_name(&row[i]));
        proof {
            assert(grid.deep_view()[0] == grid@[0].deep_view());
            assert(grid@[0].deep_view()[i as int] == grid@[0]@[i as int]@);
            assert(h@[i as int]@ == spec_header_name(grid.deep_view()[0][i as int]));
        }
        i = i + 1;
    }
    proof {
        assert forall|j: int| 0 <= j < n implies h.deep_view()[j] == spec_headers(
            grid.deep_view(),
        )[j] by {
            assert(h.deep_view()[j] == h@[j]@);
        }
        assert(h.deep_view() =~= spec_headers(grid.deep_view()));
    }
    h
}

/// Converts one data row into a record, pairing header names with converted
/// cell values positionally; pairing stops at the shorter sequence, and a
/// repeated name keeps only the later value.
pub fn convert_row(headers: &Vec<String>, row: &Vec<Cell>) -> (rec: Record)
    ensures
        rec.wf(),
        rec@ == spec_record(headers.deep_view(), row.deep_view()),
{
    let n = if headers.len() <= row.len() {
        headers.len()
    } else {
        row.len()
    };
    let mut rec = Record::new();
    let mut i: usize = 0;
    while i < n
        invariant
            n == pair_count(headers.deep_view(), row.deep_view()),
            n <= headers@.len(),
            n <= row@.len(),
            i <= n,
            rec.wf(),
            rec@ == record_prefix(headers.deep_view(), row.deep_view(), i as int),
        decreases n - i,
    {
        rec.insert(headers[i].clone(), convert_cell(&row[i]));
        i = i + 1;
    }
    rec
}

/// Converts a whole grid: one record per data row after the header row.
pub fn convert_sheet(grid: &Vec<Vec<Cell>>) -> (records: Vec<Record>)
    ensures
        records.deep_view() == spec_records(grid.deep_view()),
        forall|i: int| 0 <= i < records@.len() ==> (#[trigger] records@[i]).wf(),
{
    let mut records: Vec<Record> = Vec::new();
    if grid.len() == 0 {
        proof {
            assert(records.deep_view() =~= spec_records(grid.deep_view()));
        }
        return records;
    }
    let headers = sheet_headers(grid);
    let ghost target = spec_records(grid.deep_view());
    proof {
        assert(target.len() == grid@.len() - 1);
    }
    let mut r: usize = 1;
    while r < grid.len()
        invariant
            1 <= r <= grid@.len(),
            headers.deep_view() == spec_headers(grid.deep_view()),
            target == spec_records(grid.deep_view()),
            target.len() == grid@.len() - 1,
            records@.len() == r - 1,
            forall|j: int| 0 <= j < r - 1 ==> #[trigger] records@[j]@ == target[j],
            forall|i: int| 0 <= i < records@.len() ==> (#[trigger] records@[i]).wf(),
        decreases grid@.len() - r,
    {
        let rec = convert_row(&headers, &grid[r]);
        proof {
            assert(grid.deep_view().skip(1)[r - 1] == grid.deep_view()[r as int]);
            assert(grid.deep_view()[r as int] == grid@[r as int].deep_view());
            assert(target[r - 1] == spec_record(
                spec_headers(grid.deep_view()),
                grid.deep_view().skip(1)[r - 1],
            ));
            assert(rec@ == target[r - 1]);
        }
        records.push(rec);
        r = r + 1;
    }
    proof {
        assert forall|j: int| 0 <= j < target.len() implies records.deep_view()[j] == target[j] by {
            assert(records.deep_view()[j] == records@[j]@);
        }
        assert(records.deep_view() =~= target);
    }
    records
}

/// Converts one sheet's grid to its full JSON document text.
pub fn sheet_to_json(grid: &Vec<Vec<Cell>>) -> (r: String)
    ensures
        r@ == spec_sheet_json(grid.deep_view()),
{
    let records = convert_sheet(grid);
    render_document(&records)
}

} // verus!
