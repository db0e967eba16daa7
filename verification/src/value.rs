//! Values on their way into a statement and out of a result row.
use vstd::prelude::*;
use vstd::string::*;

use crate::json::{Double, Json, Number};
use crate::json;
use crate::text;

verus! {

/// A value to bind to a statement parameter. `Real` is a double by its bit pattern;
/// `NearestReal` is the double nearest to an integer that no signed 64-bit integer
/// holds.
#[derive(Debug)]
pub enum SqlValue {
    Null,
    Integer(i64),
    Real(u64),
    NearestReal(u64),
    Text(String),
}

/// What a `SqlValue` is: see there.
pub enum SqlValueView {
    Null,
    Integer(i64),
    Real(u64),
    NearestReal(u64),
    Text(Seq<char>),
}

impl View for SqlValue {
    type V = SqlValueView;

    open spec fn view(&self) -> SqlValueView {
        match self {
            SqlValue::Null => SqlValueView::Null,
            SqlValue::Integer(n) => SqlValueView::Integer(*n),
            SqlValue::Real(bits) => SqlValueView::Real(*bits),
            SqlValue::NearestReal(n) => SqlValueView::NearestReal(*n),
            SqlValue::Text(s) => SqlValueView::Text(s@),
        }
    }
}

/// The views of a list of values to bind.
pub open spec fn bind_view(v: Seq<SqlValue>) -> Seq<SqlValueView> {
    v.map_values(|x: SqlValue| x@)
}

/// A cell of a result row, as the database holds it.
#[derive(Debug)]
pub enum Cell {
    Null,
    Integer(i64),
    Real(Double),
    Text(Vec<u8>),
    Blob(Vec<u8>),
}

/// What a `Cell` is: see there.
pub enum CellView {
    Null,
    Integer(i64),
    Real { bits: u64, literal: Seq<char> },
    Text(Seq<u8>),
    Blob(Seq<u8>),
}

impl View for Cell {
    type V = CellView;

    open spec fn view(&self) -> CellView {
        match self {
            Cell::Null => CellView::Null,
            Cell::Integer(n) => CellView::Integer(*n),
            Cell::Real(d) => CellView::Real { bits: d.bits, literal: d.literal@ },
            Cell::Text(b) => CellView::Text(b@),
            Cell::Blob(b) => CellView::Blob(b@),
        }
    }
}

/// The value that a JSON parameter is bound as. A truth value is an integer; a list or
/// an object is its compact text.
pub open spec fn sql_value_of(v: json::JsonView) -> SqlValueView {
    match v {
        json::JsonView::Null => SqlValueView::Null,
        json::JsonView::Bool(b) => SqlValueView::Integer(
            if b {
                1
            } else {
                0
            },
        ),
        json::JsonView::Number(json::NumberView::Unsigned(n)) => if n <= i64::MAX {
            SqlValueView::Integer(n as i64)
        } else {
            SqlValueView::NearestReal(n)
        },
        json::JsonView::Number(json::NumberView::Negative(n)) => SqlValueView::Integer(n),
        json::JsonView::Number(json::NumberView::Float { bits, literal }) => SqlValueView::Real(
            bits,
        ),
        json::JsonView::Text(s) => SqlValueView::Text(s),
        json::JsonView::Array(_) => SqlValueView::Text(json::compact(v)),
        json::JsonView::Object(_) => SqlValueView::Text(json::compact(v)),
    }
}

/// The values that a list of JSON parameters is bound as.
pub open spec fn sql_values_of(items: Seq<json::JsonView>) -> Seq<SqlValueView> {
    items.map_values(|v: json::JsonView| sql_value_of(v))
}

/// Converts a JSON bind parameter into a SQLite value.
pub fn json_to_sql_value(v: &Json) -> (r: SqlValue)
    ensures
        r@ == sql_value_of(v@),
{
    broadcast use {json::lemma_array_view, json::lemma_object_view};

    match v {
        Json::Null => SqlValue::Null,
        Json::Bool(b) => SqlValue::Integer(
            if *b {
                1
            } else {
                0
            },
        ),
        Json::Number(Number::Unsigned(n)) => if *n <= i64::MAX as u64 {
            SqlValue::Integer(*n as i64)
        } else {
            SqlValue::NearestReal(*n)
        },
        Json::Number(Number::Negative(n)) => SqlValue::Integer(*n),
        Json::Number(Number::Float(d)) => SqlValue::Real(d.bits),
        Json::Text(s) => SqlValue::Text(s.clone()),
        other => SqlValue::Text(json::write_compact(other)),
    }
}

/// Converts a list of JSON bind parameters into SQLite values.
pub fn json_to_sql_values(items: &Vec<Json>) -> (r: Vec<SqlValue>)
    ensures
        bind_view(r@) == sql_values_of(json::items_view(items@)),
{
    let mut out: Vec<SqlValue> = Vec::new();
    let mut i: usize = 0;
    while i < items.len()
        invariant
            i <= items.len(),
            out.len() == i,
            forall|k: int| 0 <= k < i ==> (#[trigger] out@[k])@ == sql_value_of(items@[k]@),
        decreases items.len() - i,
    {
        out.push(json_to_sql_value(&items[i]));
        i += 1;
    }
    assert(bind_view(out@) =~= sql_values_of(json::items_view(items@)));
    out
}

/// What `String::from_utf8_lossy` reads from bytes.
pub uninterp spec fn utf8_lossy(bytes: Seq<u8>) -> Seq<char>;

/// `String::from_utf8_lossy`: bytes that are valid UTF-8 are decoded as they stand; of
/// others only the name of the result is given.
#[verifier::external_body]
fn text_of_bytes(bytes: &Vec<u8>) -> (r: String)
    ensures
        r@ == utf8_lossy(bytes@),
        vstd::utf8::valid_utf8(bytes@) ==> r@ == vstd::utf8::decode_utf8(bytes@),
{
    String::from_utf8_lossy(bytes.as_slice()).into_owned()
}

/// A bit pattern is that of a finite double: its exponent is not all ones.
pub open spec fn finite(bits: u64) -> bool {
    (bits / 0x10_0000_0000_0000) % 0x800 != 0x7ff
}

/// What stands for a blob of `n` bytes.
pub open spec fn blob_note(n: nat) -> Seq<char> {
    "<blob:"@ + text::decimal(n) + " bytes>"@
}

/// The JSON value of a cell. A double that is not finite has none and reads as `null`;
/// of a blob only the size is told.
pub open spec fn json_of_cell(c: CellView) -> json::JsonView {
    match c {
        CellView::Null => json::JsonView::Null,
        CellView::Integer(n) => json::JsonView::Number(
            if n >= 0 {
                json::NumberView::Unsigned(n as u64)
            } else {
                json::NumberView::Negative(n)
            },
        ),
        CellView::Real { bits, literal } => if finite(bits) {
            json::JsonView::Number(json::NumberView::Float { bits, literal })
        } else {
            json::JsonView::Null
        },
        CellView::Text(bytes) => json::JsonView::Text(cell_text(bytes)),
        CellView::Blob(bytes) => json::JsonView::Text(blob_note(bytes.len())),
    }
}

/// The text of a text cell: its bytes read as UTF-8.
pub open spec fn cell_text(bytes: Seq<u8>) -> Seq<char> {
    if vstd::utf8::valid_utf8(bytes) {
        vstd::utf8::decode_utf8(bytes)
    } else {
        utf8_lossy(bytes)
    }
}

/// Converts a SQLite value, as read from a result row, into JSON.
pub fn value_ref_to_json(c: &Cell) -> (r: Json)
    ensures
        r@ == json_of_cell(c@),
{
    match c {
        Cell::Null => Json::Null,
        Cell::Integer(n) => if *n >= 0 {
            Json::Number(Number::Unsigned(*n as u64))
        } else {
            Json::Number(Number::Negative(*n))
        },
        Cell::Real(d) => if (d.bits / 0x10_0000_0000_0000) % 0x800 != 0x7ff {
            Json::Number(Number::Float(Double { bits: d.bits, literal: d.literal.clone() }))
        } else {
            Json::Null
        },
        Cell::Text(bytes) => Json::Text(text_of_bytes(bytes)),
        Cell::Blob(bytes) => {
            let mut note = text::joined("<blob:", text::decimal_text(bytes.len() as u64).as_str());
            note.append(" bytes>");
            Json::Text(note)
        },
    }
}

/// The cell that a bound value is kept in as it is: a number as the same number, a text as
/// its UTF-8 bytes.
pub open spec fn keeps(cell: CellView, v: SqlValueView) -> bool {
    match (cell, v) {
        (CellView::Null, SqlValueView::Null) => true,
        (CellView::Integer(a), SqlValueView::Integer(b)) => a == b,
        (CellView::Real { bits, literal }, SqlValueView::Real(b)) => bits == b,
        (CellView::Text(bytes), SqlValueView::Text(s)) => bytes == vstd::utf8::encode_utf8(s),
        _ => false,
    }
}

/// The JSON values that lose nothing on their way into a database and back: null, the
/// integers that a database holds, the finite doubles, and texts.
pub open spec fn survives(v: json::JsonView) -> bool {
    match v {
        json::JsonView::Null => true,
        json::JsonView::Number(json::NumberView::Unsigned(n)) => n <= i64::MAX,
        json::JsonView::Number(json::NumberView::Negative(n)) => n < 0,
        json::JsonView::Number(json::NumberView::Float { bits, literal }) => finite(bits),
        json::JsonView::Text(_) => true,
        _ => false,
    }
}

/// A value that is bound, kept as it is, and read back is the value it was; a truth value
/// comes back as one or zero. A double is written by the same literal both times.
pub proof fn law_bound_values_read_back(v: json::JsonView, cell: CellView)
    requires
        keeps(cell, sql_value_of(v)),
        cell is Real && v is Number && v->Number_0 is Float ==> cell->literal
            == v->Number_0->literal,
    ensures
        survives(v) ==> json_of_cell(cell) == v,
        v matches json::JsonView::Bool(b) ==> json_of_cell(cell) == json::JsonView::Number(
            json::NumberView::Unsigned(
                if b {
                    1
                } else {
                    0
                },
            ),
        ),
{
    if let json::JsonView::Text(s) = v {
        vstd::utf8::encode_utf8_valid_utf8(s);
        vstd::utf8::encode_utf8_decode_utf8(s);
    }
}

/// Of a blob nothing is told but its size.
pub proof fn law_blobs_are_not_told(a: Seq<u8>, b: Seq<u8>)
    requires
        a.len() == b.len(),
    ensures
        json_of_cell(CellView::Blob(a)) == json::JsonView::Text(blob_note(a.len())),
        json_of_cell(CellView::Blob(a)) == json_of_cell(CellView::Blob(b)),
{
}

} // verus!
