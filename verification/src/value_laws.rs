//! What holds of values on their way into a statement and out of a row.
use vstd::prelude::*;

use crate::json;
use crate::text;
use crate::value;

verus! {

/// What each JSON value is bound as: `null` as NULL, a truth value as one or zero, an
/// integer as that integer where a database holds it and as the nearest double where not,
/// a double by its bits, a text as it stands, and a list or an object as its compact text.
pub proof fn law_what_a_parameter_is_bound_as(v: json::JsonView)
    ensures
        v is Null ==> value::sql_value_of(v) is Null,
        v == json::JsonView::Bool(true) ==> value::sql_value_of(v)
            == value::SqlValueView::Integer(1),
        v == json::JsonView::Bool(false) ==> value::sql_value_of(v)
            == value::SqlValueView::Integer(0),
        v is Number && v->Number_0 is Unsigned && v->Number_0->Unsigned_0
            <= 0x7fff_ffff_ffff_ffff ==> {
            &&& value::sql_value_of(v) is Integer
            &&& value::sql_value_of(v)->Integer_0 == v->Number_0->Unsigned_0
        },
        v is Number && v->Number_0 is Unsigned && v->Number_0->Unsigned_0
            > 0x7fff_ffff_ffff_ffff ==> value::sql_value_of(v) == value::SqlValueView::NearestReal(
            v->Number_0->Unsigned_0,
        ),
        v is Number && v->Number_0 is Negative ==> value::sql_value_of(v)
            == value::SqlValueView::Integer(v->Number_0->Negative_0),
        v is Number && v->Number_0 is Float ==> value::sql_value_of(v) == value::SqlValueView::Real(
            v->Number_0->bits,
        ),
        v is Text ==> value::sql_value_of(v) == value::SqlValueView::Text(v->Text_0),
        v is Array || v is Object ==> value::sql_value_of(v) == value::SqlValueView::Text(
            json::compact(v),
        ),
{
}

/// The values of a list are bound each on its own, in their order.
pub proof fn law_each_parameter_is_bound(items: Seq<json::JsonView>)
    ensures
        value::sql_values_of(items).len() == items.len(),
        forall|i: int|
            0 <= i < items.len() ==> #[trigger] value::sql_values_of(items)[i]
                == value::sql_value_of(items[i]),
{
}

/// What each cell is told as: NULL as `null`, an integer as that integer, a double by its
/// literal where it is finite and as `null` where not, a text as what its bytes read as in
/// UTF-8, and a blob by its size alone.
pub proof fn law_what_a_cell_is_told_as(c: value::CellView)
    ensures
        c is Null ==> value::json_of_cell(c) is Null,
        c is Integer && c->Integer_0 >= 0 ==> {
            &&& value::json_of_cell(c) is Number
            &&& value::json_of_cell(c)->Number_0 is Unsigned
            &&& value::json_of_cell(c)->Number_0->Unsigned_0 == c->Integer_0
        },
        c is Integer && c->Integer_0 < 0 ==> value::json_of_cell(c) == json::JsonView::Number(
            json::NumberView::Negative(c->Integer_0),
        ),
        c is Real && value::finite(c->bits) ==> value::json_of_cell(c) == json::JsonView::Number(
            json::NumberView::Float { bits: c->bits, literal: c->literal },
        ),
        c is Real && !value::finite(c->bits) ==> value::json_of_cell(c) is Null,
        c is Text && vstd::utf8::valid_utf8(c->Text_0) ==> value::json_of_cell(c)
            == json::JsonView::Text(vstd::utf8::decode_utf8(c->Text_0)),
        c is Text && !vstd::utf8::valid_utf8(c->Text_0) ==> value::json_of_cell(c)
            == json::JsonView::Text(value::utf8_lossy(c->Text_0)),
        c is Blob ==> value::json_of_cell(c) == json::JsonView::Text(
            "<blob:"@ + text::decimal(c->Blob_0.len()) + " bytes>"@,
        ),
{
}

/// A double is finite unless all eleven bits of its exponent are set.
pub proof fn law_which_doubles_are_finite(bits: u64)
    ensures
        value::finite(bits) == ((bits >> 52) & 0x7ff != 0x7ff),
{
    assert(((bits / 0x10_0000_0000_0000) % 0x800 != 0x7ff) == ((bits >> 52) & 0x7ff != 0x7ff))
        by (bit_vector);
}

} // verus!
