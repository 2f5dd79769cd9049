//! Pretty-printed JSON rendering of the converted records.
//!
//! The output document is a single object whose one field, `"Markers"`, holds
//! the record list. The layout follows the usual pretty form: two-space
//! indentation, every element and field on a line of its own, and `{}` / `[]`
//! for empty objects and arrays. Strings escape the quote, the backslash and
//! the control characters below `0x20` — the five common ones as their
//! two-character escapes, the rest as `\u00` and two lowercase hex digits.

use vstd::prelude::*;

use crate::model::{JsonModel, JsonValue};
use crate::record::{FieldModel, Record};

verus! {

/// What one character contributes to an escaped JSON string.
pub open spec fn escape_char(c: char) -> Seq<char> {
    if c == '"' {
        "\\\""@
    } else if c == '\\' {
        "\\\\"@
    } else if c == '\u{08}' {
        "\\b"@
    } else if c == '\t' {
        "\\t"@
    } else if c == '\n' {
        "\\n"@
    } else if c == '\u{0c}' {
        "\\f"@
    } else if c == '\r' {
        "\\r"@
    } else if c == '\u{00}' {
        "\\u0000"@
    } else if c == '\u{01}' {
        "\\u0001"@
    } else if c == '\u{02}' {
        "\\u0002"@
    } else if c == '\u{03}' {
        "\\u0003"@
    } else if c == '\u{04}' {
        "\\u0004"@
    } else if c == '\u{05}' {
        "\\u0005"@
    } else if c == '\u{06}' {
        "\\u0006"@
    } else if c == '\u{07}' {
        "\\u0007"@
    } else if c == '\u{0b}' {
        "\\u000b"@
    } else if c == '\u{0e}' {
        "\\u000e"@
    } else if c == '\u{0f}' {
        "\\u000f"@
    } else if c == '\u{10}' {
        "\\u0010"@
    } else if c == '\u{11}' {
        "\\u0011"@
    } else if c == '\u{12}' {
        "\\u0012"@
    } else if c == '\u{13}' {
        "\\u0013"@
    } else if c == '\u{14}' {
        "\\u0014"@
    } else if c == '\u{15}' {
        "\\u0015"@
    } else if c == '\u{16}' {
        "\\u0016"@
    } else if c == '\u{17}' {
        "\\u0017"@
    } else if c == '\u{18}' {
        "\\u0018"@
    } else if c == '\u{19}' {
        "\\u0019"@
    } else if c == '\u{1a}' {
        "\\u001a"@
    } else if c == '\u{1b}' {
        "\\u001b"@
    } else if c == '\u{1c}' {
        "\\u001c"@
    } else if c == '\u{1d}' {
        "\\u001d"@
    } else if c == '\u{1e}' {
        "\\u001e"@
    } else if c == '\u{1f}' {
        "\\u001f"@
    } else {
        seq![c]
    }
}

/// The escaped form of the characters of `s` from position `i` on.
pub open spec fn escape_from(s: Seq<char>, i: int) -> Seq<char>
    decreases s.len() - i,
{
    if i < 0 || i >= s.len() {
        Seq::<char>::empty()
    } else {
        escape_char(s[i]) + escape_from(s, i + 1)
    }
}

/// The escaped form of a whole string.
pub open spec fn escape_seq(s: Seq<char>) -> Seq<char> {
    escape_from(s, 0)
}

/// The decimal digits of `n`, most significant first.
pub open spec fn dec_digits(n: nat) -> Seq<char>
    decreases n,
{
    if n < 10 {
        seq![digit_char(n as int)]
    } else {
        dec_digits(n / 10) + seq![digit_char((n % 10) as int)]
    }
}

/// The decimal rendering of an integer, with a leading minus sign when
/// negative.
pub open spec fn dec_int(v: int) -> Seq<char> {
    if v < 0 {
        seq!['-'] + dec_digits((-v) as nat)
    } else {
        dec_digits(v as nat)
    }
}

/// The character for one decimal digit.
pub open spec fn digit_char(d: int) -> char {
    if d == 0 {
        '0'
    } else if d == 1 {
        '1'
    } else if d == 2 {
        '2'
    } else if d == 3 {
        '3'
    } else if d == 4 {
        '4'
    } else if d == 5 {
        '5'
    } else if d == 6 {
        '6'
    } else if d == 7 {
        '7'
    } else if d == 8 {
        '8'
    } else {
        '9'
    }
}

/// The rendering of one JSON value: an integer in decimal, a number as its
/// held literal text, a string quoted and escaped.
pub open spec fn render_value(v: JsonModel) -> Seq<char> {
    match v {
        JsonModel::Int(i) => dec_int(i),
        JsonModel::Num(t) => t,
        JsonModel::Str(s) => "\""@ + escape_seq(s) + "\""@,
    }
}

/// The rendering of one record field: quoted escaped key, `: `, value.
pub open spec fn render_field(k: Seq<char>, v: JsonModel) -> Seq<char> {
    "\""@ + escape_seq(k) + "\": "@ + render_value(v)
}

/// The record's fields from position `i` on, each preceded by the separator
/// and the field indentation.
pub open spec fn render_fields_from(fs: Seq<FieldModel>, i: int) -> Seq<char>
    decreases fs.len() - i,
{
    if i < 0 || i >= fs.len() {
        Seq::<char>::empty()
    } else {
        ",\n      "@ + render_field(fs[i].0, fs[i].1) + render_fields_from(fs, i + 1)
    }
}

/// The rendering of one record as a JSON object.
pub open spec fn render_record(fs: Seq<FieldModel>) -> Seq<char> {
    if fs.len() == 0 {
        "{}"@
    } else {
        "{\n      "@ + render_field(fs[0].0, fs[0].1) + render_fields_from(fs, 1) + "\n    }"@
    }
}

/// The records from position `i` on, each preceded by the separator and the
/// element indentation.
pub open spec fn render_records_from(rs: Seq<Seq<FieldModel>>, i: int) -> Seq<char>
    decreases rs.len() - i,
{
    if i < 0 || i >= rs.len() {
        Seq::<char>::empty()
    } else {
        ",\n    "@ + render_record(rs[i]) + render_records_from(rs, i + 1)
    }
}

/// The record list as a JSON array.
pub open spec fn render_markers(rs: Seq<Seq<FieldModel>>) -> Seq<char> {
    if rs.len() == 0 {
        "[]"@
    } else {
        "[\n    "@ + render_record(rs[0]) + render_records_from(rs, 1) + "\n  ]"@
    }
}

/// The whole output document: one object with the `"Markers"` field.
pub open spec fn render_doc(rs: Seq<Seq<FieldModel>>) -> Seq<char> {
    "{\n  \"Markers\": "@ + render_markers(rs) + "\n}"@
}

/// The escape a character needs, or `None` where it stands for itself.
fn escape_replacement(c: char) -> (r: Option<&'static str>)
    ensures
        match r {
            Some(t) => t@ == escape_char(c),
            None => escape_char(c) == seq![c],
        },
{
    if c == '"' {
        Some("\\\"")
    } else if c == '\\' {
        Some("\\\\")
    } else if c == '\u{08}' {
        Some("\\b")
    } else if c == '\t' {
        Some("\\t")
    } else if c == '\n' {
        Some("\\n")
    } else if c == '\u{0c}' {
        Some("\\f")
    } else if c == '\r' {
        Some("\\r")
    } else if c == '\u{00}' {
        Some("\\u0000")
    } else if c == '\u{01}' {
        Some("\\u0001")
    } else if c == '\u{02}' {
        Some("\\u0002")
    } else if c == '\u{03}' {
        Some("\\u0003")
    } else if c == '\u{04}' {
        Some("\\u0004")
    } else if c == '\u{05}' {
        Some("\\u0005")
    } else if c == '\u{06}' {
        Some("\\u0006")
    } else if c == '\u{07}' {
        Some("\\u0007")
    } else if c == '\u{0b}' {
        Some("\\u000b")
    } else if c == '\u{0e}' {
        Some("\\u000e")
    } else if c == '\u{0f}' {
        Some("\\u000f")
    } else if c == '\u{10}' {
        Some("\\u0010")
    } else if c == '\u{11}' {
        Some("\\u0011")
    } else if c == '\u{12}' {
        Some("\\u0012")
    } else if c == '\u{13}' {
        Some("\\u0013")
    } else if c == '\u{14}' {
        Some("\\u0014")
    } else if c == '\u{15}' {
        Some("\\u0015")
    } else if c == '\u{16}' {
        Some("\\u0016")
    } else if c == '\u{17}' {
        Some("\\u0017")
    } else if c == '\u{18}' {
        Some("\\u0018")
    } else if c == '\u{19}' {
        Some("\\u0019")
    } else if c == '\u{1a}' {
        Some("\\u001a")
    } else if c == '\u{1b}' {
        Some("\\u001b")
    } else if c == '\u{1c}' {
        Some("\\u001c")
    } else if c == '\u{1d}' {
        Some("\\u001d")
    } else if c == '\u{1e}' {
        Some("\\u001e")
    } else if c == '\u{1f}' {
        Some("\\u001f")
    } else {
        None
    }
}

/// Appends the escaped characters of `s` from position `i` on.
fn push_escaped_from(out: &mut String, s: &str, i: usize)
    requires
        i <= s@.len(),
    ensures
        final(out)@ == old(out)@ + escape_from(s@, i as int),
    decreases s@.len() - i,
{
    if i < s.unicode_len() {
        let c = s.get_char(i);
        match escape_replacement(c) {
            Some(t) => out.append(t),
            None => {
                let one = s.substring_char(i, i + 1);
                proof {
                    assert(one@ =~= seq![s@[i as int]]);
                }
                out.append(one);
            },
        }
        push_escaped_from(out, s, i + 1);
        proof {
            assert(out@ =~= old(out)@ + escape_from(s@, i as int));
        }
    } else {
        proof {
            assert(out@ =~= old(out)@ + escape_from(s@, i as int));
        }
    }
}

/// Appends `s` quoted and escaped.
fn push_quoted(out: &mut String, s: &str)
    ensures
        final(out)@ == old(out)@ + "\""@ + escape_seq(s@) + "\""@,
{
    out.append("\"");
    push_escaped_from(out, s, 0);
    out.append("\"");
}

/// The decimal digit `d` as a string.
fn digit_str(d: u64) -> (r: &'static str)
    requires
        d < 10,
    ensures
        r@ == seq![digit_char(d as int)],
{
    proof {
        reveal_strlit("0");
        reveal_strlit("1");
        reveal_strlit("2");
        reveal_strlit("3");
        reveal_strlit("4");
        reveal_strlit("5");
        reveal_strlit("6");
        reveal_strlit("7");
        reveal_strlit("8");
        reveal_strlit("9");
    }
    if d == 0 {
        "0"
    } else if d == 1 {
        "1"
    } else if d == 2 {
        "2"
    } else if d == 3 {
        "3"
    } else if d == 4 {
        "4"
    } else if d == 5 {
        "5"
    } else if d == 6 {
        "6"
    } else if d == 7 {
        "7"
    } else if d == 8 {
        "8"
    } else {
        "9"
    }
}

/// Appends the decimal digits of `m`.
fn push_dec_u64(out: &mut String, m: u64)
    ensures
        final(out)@ == old(out)@ + dec_digits(m as nat),
    decreases m,
{
    if m < 10 {
        out.append(digit_str(m));
    } else {
        push_dec_u64(out, m / 10);
        out.append(digit_str(m % 10));
        proof {
            assert(out@ =~= old(out)@ + dec_digits(m as nat));
        }
    }
}

/// Appends the decimal rendering of `v`.
fn push_dec_i64(out: &mut String, v: i64)
    ensures
        final(out)@ == old(out)@ + dec_int(v as int),
{
    if v < 0 {
        proof {
            reveal_strlit("-");
        }
        out.append("-");
        let m: u64 = ((-(v + 1)) as u64) + 1;
        assert(m as nat == (-(v as int)) as nat);
        push_dec_u64(out, m);
        proof {
            assert(out@ =~= old(out)@ + dec_int(v as int));
        }
    } else {
        push_dec_u64(out, v as u64);
    }
}

/// Appends the rendering of one JSON value.
fn push_value(out: &mut String, v: &JsonValue)
    ensures
        final(out)@ == old(out)@ + render_value(v@),
{
    match v {
        JsonValue::Int(i) => push_dec_i64(out, *i),
        JsonValue::Num(t) => out.append(t.as_str()),
        JsonValue::Str(s) => {
            push_quoted(out, s.as_str());
        },
    }
}

/// Appends the rendering of one record field.
fn push_field(out: &mut String, k: &String, v: &JsonValue)
    ensures
        final(out)@ == old(out)@ + render_field(k@, v@),
{
    push_quoted(out, k.as_str());
    out.append(": ");
    push_value(out, v);
    proof {
        reveal_strlit("\"");
        reveal_strlit(": ");
        reveal_strlit("\": ");
        assert(out@ =~= old(out)@ + render_field(k@, v@));
    }
}

} // verus!

verus! {

/// Appends the record's fields from position `i` on, each preceded by the
/// separator and the field indentation.
fn push_fields_from(out: &mut String, rec: &Record, i: usize)
    ensures
        final(out)@ == old(out)@ + render_fields_from(rec@, i as int),
    decreases rec@.len() - i,
{
    if i < rec.len() {
        out.append(",\n      ");
        let p = rec.field_at(i);
        push_field(out, &p.0, &p.1);
        push_fields_from(out, rec, i + 1);
        proof {
            assert(out@ =~= old(out)@ + render_fields_from(rec@, i as int));
        }
    } else {
        proof {
            assert(out@ =~= old(out)@ + render_fields_from(rec@, i as int));
        }
    }
}

/// Appends the rendering of one record.
fn push_record(out: &mut String, rec: &Record)
    ensures
        final(out)@ == old(out)@ + render_record(rec@),
{
    if rec.len() == 0 {
        out.append("{}");
    } else {
        out.append("{\n      ");
        let p = rec.field_at(0);
        push_field(out, &p.0, &p.1);
        push_fields_from(out, rec, 1);
        out.append("\n    }");
        proof {
            assert(out@ =~= old(out)@ + render_record(rec@));
        }
    }
}

/// Appends the records from position `i` on, each preceded by the separator
/// and the element indentation.
fn push_records_from(out: &mut String, records: &Vec<Record>, i: usize)
    ensures
        final(out)@ == old(out)@ + render_records_from(records.deep_view(), i as int),
    decreases records@.len() - i,
{
    proof {
        assert(records.deep_view().len() == records@.len());
    }
    if i < records.len() {
        out.append(",\n    ");
        push_record(out, &records[i]);
        push_records_from(out, records, i + 1);
        proof {
            assert(records.deep_view()[i as int] == records@[i as int]@);
            assert(out@ =~= old(out)@ + render_records_from(records.deep_view(), i as int));
        }
    } else {
        proof {
            assert(out@ =~= old(out)@ + render_records_from(records.deep_view(), i as int));
        }
    }
}

/// Renders the full output document for a sheet's records: a pretty-printed
/// JSON object whose single field `"Markers"` holds the record array.
pub fn render_document(records: &Vec<Record>) -> (r: String)
    ensures
        r@ == render_doc(records.deep_view()),
{
    let mut out = String::new();
    out.append("{\n  \"Markers\": ");
    if records.len() == 0 {
        out.append("[]");
        proof {
            assert(records.deep_view().len() == 0);
        }
    } else {
        proof {
            assert(records.deep_view().len() == records@.len());
            assert(records.deep_view()[0] == records@[0]@);
        }
        out.append("[\n    ");
        push_record(&mut out, &records[0]);
        push_records_from(&mut out, records, 1);
        out.append("\n  ]");
    }
    out.append("\n}");
    proof {
        assert(out@ =~= render_doc(records.deep_view()));
    }
    out
}

} // verus!
