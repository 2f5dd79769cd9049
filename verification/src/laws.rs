//! Properties of the conversion, stated and proved over its models.

use vstd::prelude::*;

use crate::convert::{pair_count, record_prefix, spec_record, spec_records, spec_sheet_json};
use crate::model::{spec_convert_cell, CellModel};
use crate::record::{insert_pair, keys_sorted, lemma_insert_pair_keys, FieldModel};
use crate::strorder::{lemma_lex_transitive, lemma_lex_trichotomy, lex_lt};

verus! {

/// The record of a row depends only on the paired prefixes: headers beyond
/// the row's length and cells beyond the header count are ignored, so a short
/// row omits the trailing columns and a long row's extra cells never appear.
pub proof fn lemma_row_pairing_truncates(h: Seq<Seq<char>>, row: Seq<CellModel>)
    ensures
        spec_record(h, row) == spec_record(
            h.take(pair_count(h, row)),
            row.take(pair_count(h, row)),
        ),
{
    let n = pair_count(h, row);
    lemma_record_prefix_same(h, row, h.take(n), row.take(n), n);
}

/// `record_prefix` reads only the first `n` headers and cells.
proof fn lemma_record_prefix_same(
    h1: Seq<Seq<char>>,
    row1: Seq<CellModel>,
    h2: Seq<Seq<char>>,
    row2: Seq<CellModel>,
    n: int,
)
    requires
        forall|j: int| 0 <= j < n ==> #[trigger] h1[j] == h2[j],
        forall|j: int| 0 <= j < n ==> #[trigger] row1[j] == row2[j],
    ensures
        record_prefix(h1, row1, n) == record_prefix(h2, row2, n),
    decreases n,
{
    if n > 0 {
        lemma_record_prefix_same(h1, row1, h2, row2, n - 1);
    }
}

/// Every key of a row's record is one of the headers actually paired: a
/// header with no cell under it, or a cell with no header over it, leaves no
/// key behind.
pub proof fn lemma_record_keys_from_headers(h: Seq<Seq<char>>, row: Seq<CellModel>)
    ensures
        forall|j: int|
            0 <= j < spec_record(h, row).len() ==> exists|i: int|
                0 <= i < pair_count(h, row) && #[trigger] h[i] == (#[trigger] spec_record(
                    h,
                    row,
                )[j]).0,
{
    lemma_record_prefix_keys(h, row, pair_count(h, row));
}

/// Every key of `record_prefix(h, row, n)` is one of the first `n` headers.
proof fn lemma_record_prefix_keys(h: Seq<Seq<char>>, row: Seq<CellModel>, n: int)
    ensures
        forall|j: int|
            0 <= j < record_prefix(h, row, n).len() ==> exists|i: int|
                0 <= i < n && #[trigger] h[i] == (#[trigger] record_prefix(h, row, n)[j]).0,
    decreases n,
{
    if n > 0 {
        let prev = record_prefix(h, row, n - 1);
        let r = record_prefix(h, row, n);
        lemma_record_prefix_keys(h, row, n - 1);
        lemma_insert_pair_keys(prev, h[n - 1], spec_convert_cell(row[n - 1]));
        assert forall|j: int| 0 <= j < r.len() implies exists|i: int|
            0 <= i < n && #[trigger] h[i] == (#[trigger] r[j]).0 by {
            if r[j].0 == h[n - 1] {
                assert(h[n - 1] == r[j].0);
            } else {
                let p = choose|p: int| 0 <= p < prev.len() && #[trigger] prev[p].0 == r[j].0;
                let i = choose|i: int| 0 <= i < n - 1 && #[trigger] h[i] == prev[p].0;
                assert(h[i] == r[j].0);
            }
        }
    }
}

/// Inserting into a key-sorted field sequence keeps it key-sorted.
pub proof fn lemma_insert_pair_sorted(s: Seq<FieldModel>, k: Seq<char>, v: crate::model::JsonModel)
    requires
        keys_sorted(s),
    ensures
        keys_sorted(insert_pair(s, k, v)),
    decreases s.len(),
{
    let r = insert_pair(s, k, v);
    if s.len() == 0 {
    } else if lex_lt(s[0].0, k) {
        let t = s.skip(1);
        let rt = insert_pair(t, k, v);
        lemma_insert_pair_sorted(t, k, v);
        lemma_insert_pair_keys(t, k, v);
        assert forall|i: int, j: int| 0 <= i < j < r.len() implies lex_lt(
            #[trigger] r[i].0,
            #[trigger] r[j].0,
        ) by {
            if i == 0 {
                assert(r[j] == rt[j - 1]);
                if rt[j - 1].0 == k {
                } else {
                    let p = choose|p: int| 0 <= p < t.len() && #[trigger] t[p].0 == rt[j - 1].0;
                    assert(t[p] == s[p + 1]);
                    assert(lex_lt(s[0].0, s[p + 1].0));
                }
            } else {
                assert(r[i] == rt[i - 1]);
                assert(r[j] == rt[j - 1]);
            }
        }
    } else if s[0].0 == k {
        assert forall|i: int, j: int| 0 <= i < j < r.len() implies lex_lt(
            #[trigger] r[i].0,
            #[trigger] r[j].0,
        ) by {
            if i == 0 {
                assert(r[j] == s[j]);
                assert(lex_lt(s[0].0, s[j].0));
            } else {
                assert(r[i] == s[i]);
                assert(r[j] == s[j]);
            }
        }
    } else {
        lemma_lex_trichotomy(s[0].0, k);
        assert(lex_lt(k, s[0].0));
        assert forall|i: int, j: int| 0 <= i < j < r.len() implies lex_lt(
            #[trigger] r[i].0,
            #[trigger] r[j].0,
        ) by {
            if i == 0 {
                assert(r[j] == s[j - 1]);
                if j - 1 > 0 {
                    assert(lex_lt(s[0].0, s[j - 1].0));
                    lemma_lex_transitive(k, s[0].0, s[j - 1].0);
                }
            } else {
                assert(r[i] == s[i - 1]);
                assert(r[j] == s[j - 1]);
            }
        }
    }
}

/// A record's keys always come out in strictly increasing lexicographic
/// order, whatever order the sheet's columns had.
pub proof fn lemma_record_keys_sorted(h: Seq<Seq<char>>, row: Seq<CellModel>)
    ensures
        keys_sorted(spec_record(h, row)),
{
    lemma_record_prefix_sorted(h, row, pair_count(h, row));
}

/// The record built from any pairing prefix is key-sorted.
proof fn lemma_record_prefix_sorted(h: Seq<Seq<char>>, row: Seq<CellModel>, n: int)
    ensures
        keys_sorted(record_prefix(h, row, n)),
    decreases n,
{
    if n > 0 {
        lemma_record_prefix_sorted(h, row, n - 1);
        lemma_insert_pair_sorted(record_prefix(h, row, n - 1), h[n - 1], spec_convert_cell(
            row[n - 1],
        ));
    }
}

/// Inserting a key that a sorted field sequence already holds replaces that
/// key's value in place: a repeated column name loses its earlier value.
pub proof fn lemma_insert_existing_key_replaces(
    s: Seq<FieldModel>,
    k: Seq<char>,
    v: crate::model::JsonModel,
    i: int,
)
    requires
        keys_sorted(s),
        0 <= i < s.len(),
        s[i].0 == k,
    ensures
        insert_pair(s, k, v) == s.update(i, (k, v)),
{
    lemma_lex_trichotomy(s[i].0, k);
    assert forall|j: int| 0 <= j < i implies lex_lt(#[trigger] s[j].0, k) by {
        assert(lex_lt(s[j].0, s[i].0));
    }
    crate::record::lemma_insert_pair_at(s, k, v, i);
    assert(s.take(i) + seq![(k, v)] + s.skip(i + 1) =~= s.update(i, (k, v)));
}

/// A sheet with no data rows — header only, or wholly empty — converts to the
/// document with an empty marker list.
pub proof fn lemma_empty_sheet_document(grid: Seq<Seq<CellModel>>)
    requires
        grid.len() <= 1,
    ensures
        spec_sheet_json(grid) == "{\n  \"Markers\": []\n}"@,
{
    assert(spec_records(grid) =~= Seq::<Seq<FieldModel>>::empty());
    reveal_strlit("{\n  \"Markers\": ");
    reveal_strlit("[]");
    reveal_strlit("\n}");
    reveal_strlit("{\n  \"Markers\": []\n}");
    assert(spec_sheet_json(grid) =~= "{\n  \"Markers\": []\n}"@);
}

/// The conversion is deterministic: the document text is a function of the
/// cell contents alone, so converting the same sheet twice gives
/// byte-identical output.
pub proof fn lemma_conversion_deterministic(g1: Seq<Seq<CellModel>>, g2: Seq<Seq<CellModel>>)
    requires
        g1 == g2,
    ensures
        spec_sheet_json(g1) == spec_sheet_json(g2),
{
}

} // verus!
