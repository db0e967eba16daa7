//! Reading rows field by field: what a query over the schema or the ledger gave, turned
//! into values row by row, up to the first error.
use vstd::prelude::*;
use vstd::string::*;

use crate::step::{Field, Rows};
use crate::step;
use crate::text;

verus! {

/// The message for a column that a row does not have.
pub open spec fn no_column(i: nat) -> Seq<char> {
    "Invalid column index: "@ + text::decimal(i)
}

/// The text of a field, or why it has none.
pub open spec fn text_field(row: Seq<step::FieldView>, i: nat) -> Result<Seq<char>, Seq<char>> {
    if i < row.len() {
        row[i as int].text
    } else {
        Err(no_column(i))
    }
}

/// The text of a field, nothing where it is NULL, or why it has none.
pub open spec fn nullable_field(row: Seq<step::FieldView>, i: nat) -> Result<
    Option<Seq<char>>,
    Seq<char>,
> {
    if i < row.len() && row[i as int].null {
        Ok(None)
    } else {
        match text_field(row, i) {
            Ok(s) => Ok(Some(s)),
            Err(e) => Err(e),
        }
    }
}

/// The text of a field where it has one.
pub open spec fn optional_field(row: Seq<step::FieldView>, i: nat) -> Option<Seq<char>> {
    match nullable_field(row, i) {
        Ok(s) => s,
        Err(_) => None,
    }
}

/// The text of a field, empty where it has none.
pub open spec fn text_or_empty(row: Seq<step::FieldView>, i: nat) -> Seq<char> {
    match text_field(row, i) {
        Ok(s) => s,
        Err(_) => Seq::empty(),
    }
}

/// Whether a field holds an integer other than zero.
pub open spec fn nonzero_field(row: Seq<step::FieldView>, i: nat) -> bool {
    i < row.len() && match row[i as int].int {
        Some(n) => n != 0,
        None => false,
    }
}

/// The values of the rows, or the error of the first row that has none.
pub open spec fn collected<T>(
    rows: Seq<Seq<step::FieldView>>,
    f: spec_fn(Seq<step::FieldView>) -> Result<T, Seq<char>>,
) -> Result<Seq<T>, Seq<char>>
    decreases rows.len(),
{
    if rows.len() == 0 {
        Ok(Seq::empty())
    } else {
        match collected(rows.drop_last(), f) {
            Err(e) => Err(e),
            Ok(values) => match f(rows.last()) {
                Err(e) => Err(e),
                Ok(value) => Ok(values.push(value)),
            },
        }
    }
}

/// The values of a query's rows, or the first error on the way.
pub open spec fn values_of<T>(
    reply: step::RowsView,
    f: spec_fn(Seq<step::FieldView>) -> Result<T, Seq<char>>,
) -> Result<Seq<T>, Seq<char>> {
    match collected(reply.rows, f) {
        Err(e) => Err(e),
        Ok(values) => match reply.error {
            Some(e) => Err(e),
            None => Ok(values),
        },
    }
}

/// An error in the first rows stays the error of all rows.
proof fn lemma_first_error<T>(
    rows: Seq<Seq<step::FieldView>>,
    n: int,
    f: spec_fn(Seq<step::FieldView>) -> Result<T, Seq<char>>,
)
    requires
        0 <= n <= rows.len(),
        collected(rows.take(n), f) is Err,
    ensures
        collected(rows, f) == collected(rows.take(n), f),
    decreases rows.len() - n,
{
    if n == rows.len() {
        assert(rows.take(n) =~= rows);
    } else {
        assert(rows.take(n + 1).drop_last() =~= rows.take(n));
        lemma_first_error(rows, n + 1, f);
    }
}

/// Rows that all have a value give as many values as there are rows, each in its place.
pub proof fn lemma_collected<T>(
    rows: Seq<Seq<step::FieldView>>,
    f: spec_fn(Seq<step::FieldView>) -> Result<T, Seq<char>>,
)
    requires
        collected(rows, f) is Ok,
    ensures
        collected(rows, f)->Ok_0.len() == rows.len(),
        forall|i: int|
            0 <= i < rows.len() ==> f(#[trigger] rows[i]) == Ok::<T, Seq<char>>(
                collected(rows, f)->Ok_0[i],
            ),
    decreases rows.len(),
{
    if rows.len() > 0 {
        lemma_collected(rows.drop_last(), f);
        assert forall|i: int| 0 <= i < rows.len() implies f(#[trigger] rows[i]) == Ok::<
            T,
            Seq<char>,
        >(collected(rows, f)->Ok_0[i]) by {
            if i < rows.len() - 1 {
                assert(rows.drop_last()[i] == rows[i]);
            }
        }
    }
}

/// How a field is read: as its text or the error of it; as nothing where it is NULL; or, for
/// what may be missing, as nothing or as empty where it has no text. A field is set where it
/// holds an integer other than zero. A field that the row does not have is an error by its
/// number.
pub proof fn law_how_a_field_is_read(row: Seq<step::FieldView>, i: nat)
    ensures
        i < row.len() ==> {
            let field = row[i as int];
            &&& text_field(row, i) == field.text
            &&& field.null ==> nullable_field(row, i) == Ok::<Option<Seq<char>>, Seq<char>>(None)
            &&& !field.null && field.text is Ok ==> nullable_field(row, i) == Ok::<
                Option<Seq<char>>,
                Seq<char>,
            >(Some(field.text->Ok_0))
            &&& !field.null && field.text is Err ==> nullable_field(row, i) == Err::<
                Option<Seq<char>>,
                Seq<char>,
            >(field.text->Err_0)
            &&& optional_field(row, i) == if !field.null && field.text is Ok {
                Some(field.text->Ok_0)
            } else {
                None
            }
            &&& field.text is Ok ==> text_or_empty(row, i) == field.text->Ok_0
            &&& field.text is Err ==> text_or_empty(row, i).len() == 0
            &&& nonzero_field(row, i) == (field.int is Some && field.int->0 != 0)
        },
        i >= row.len() ==> {
            let error = "Invalid column index: "@ + text::decimal(i);
            &&& text_field(row, i) == Err::<Seq<char>, Seq<char>>(error)
            &&& nullable_field(row, i) == Err::<Option<Seq<char>>, Seq<char>>(error)
            &&& optional_field(row, i) is None
            &&& text_or_empty(row, i).len() == 0
            &&& !nonzero_field(row, i)
        },
{
}

proof fn lemma_all_have_a_value<T>(
    rows: Seq<Seq<step::FieldView>>,
    f: spec_fn(Seq<step::FieldView>) -> Result<T, Seq<char>>,
)
    requires
        forall|i: int| 0 <= i < rows.len() ==> f(#[trigger] rows[i]) is Ok,
    ensures
        collected(rows, f) is Ok,
    decreases rows.len(),
{
    if rows.len() > 0 {
        assert forall|i: int| 0 <= i < rows.drop_last().len() implies f(
            #[trigger] rows.drop_last()[i],
        ) is Ok by {
            assert(rows.drop_last()[i] == rows[i]);
        }
        lemma_all_have_a_value(rows.drop_last(), f);
        assert(f(rows[rows.len() - 1]) is Ok);
    }
}

/// Where every row has a value and the query ended without an error, each row gives its
/// value, in order. Otherwise the first error is told: that of the first row without a
/// value, or, where there is none, that with which the query ended.
pub proof fn law_each_row_gives_its_value<T>(
    reply: step::RowsView,
    f: spec_fn(Seq<step::FieldView>) -> Result<T, Seq<char>>,
)
    ensures
        (forall|i: int| 0 <= i < reply.rows.len() ==> f(#[trigger] reply.rows[i]) is Ok)
            && reply.error is None ==> {
            &&& values_of(reply, f) is Ok
            &&& values_of(reply, f)->Ok_0.len() == reply.rows.len()
            &&& forall|i: int|
                0 <= i < reply.rows.len() ==> f(#[trigger] reply.rows[i]) == Ok::<T, Seq<char>>(
                    values_of(reply, f)->Ok_0[i],
                )
        },
        (forall|i: int| 0 <= i < reply.rows.len() ==> f(#[trigger] reply.rows[i]) is Ok)
            && reply.error is Some ==> values_of(reply, f) == Err::<Seq<T>, Seq<char>>(
            reply.error->0,
        ),
        forall|k: int|
            0 <= k < reply.rows.len() && f(#[trigger] reply.rows[k]) is Err && (forall|i: int|
                0 <= i < k ==> f(#[trigger] reply.rows[i]) is Ok) ==> values_of(reply, f) == Err::<
                Seq<T>,
                Seq<char>,
            >(f(reply.rows[k])->Err_0),
{
    if forall|i: int| 0 <= i < reply.rows.len() ==> f(#[trigger] reply.rows[i]) is Ok {
        lemma_all_have_a_value(reply.rows, f);
        lemma_collected(reply.rows, f);
    }
    assert forall|k: int|
        0 <= k < reply.rows.len() && f(#[trigger] reply.rows[k]) is Err && (forall|i: int|
            0 <= i < k ==> f(#[trigger] reply.rows[i]) is Ok) implies values_of(reply, f) == Err::<
        Seq<T>,
        Seq<char>,
    >(f(reply.rows[k])->Err_0) by {
        let before = reply.rows.take(k);
        assert forall|i: int| 0 <= i < before.len() implies f(#[trigger] before[i]) is Ok by {
            assert(before[i] == reply.rows[i]);
        }
        lemma_all_have_a_value(before, f);
        assert(reply.rows.take(k + 1).drop_last() =~= before);
        lemma_first_error(reply.rows, k + 1, f);
    }
}

/// The view of a value, or of an error message.
pub open spec fn value_view<T: View>(r: Result<T, String>) -> Result<T::V, Seq<char>> {
    match r {
        Ok(x) => Ok(x@),
        Err(e) => Err(e@),
    }
}

/// The views of a list of values, or of an error message.
pub open spec fn values_view<T: View>(r: Result<Vec<T>, String>) -> Result<Seq<T::V>, Seq<char>> {
    match r {
        Ok(xs) => Ok(xs@.map_values(|x: T| x@)),
        Err(e) => Err(e@),
    }
}

/// Turns the rows of a query into values by `f`, up to the first error.
pub(crate) fn read_all<T: View, F: Fn(&Vec<Field>) -> Result<T, String>>(
    reply: Rows,
    f: F,
    Ghost(g): Ghost<spec_fn(Seq<step::FieldView>) -> Result<T::V, Seq<char>>>,
) -> (r: Result<Vec<T>, String>)
    requires
        forall|row: &Vec<Field>| call_requires(f, (row,)),
        forall|row: &Vec<Field>, out: Result<T, String>|
            call_ensures(f, (row,), out) ==> value_view(out) == g(step::row_view(row@)),
    ensures
        values_view(r) == values_of(reply@, g),
{
    let Rows { rows, error } = reply;
    let ghost all = step::rows_view(rows@);
    let mut out: Vec<T> = Vec::new();
    let mut i: usize = 0;
    assert(all.take(0) =~= Seq::empty());
    assert(out@.map_values(|x: T| x@) =~= Seq::empty());
    while i < rows.len()
        invariant
            i <= rows.len(),
            all == step::rows_view(rows@),
            reply@.rows == all,
            collected(all.take(i as int), g) == Ok::<Seq<T::V>, Seq<char>>(
                out@.map_values(|x: T| x@),
            ),
            forall|row: &Vec<Field>| call_requires(f, (row,)),
            forall|row: &Vec<Field>, out: Result<T, String>|
                call_ensures(f, (row,), out) ==> value_view(out) == g(step::row_view(row@)),
        decreases rows.len() - i,
    {
        assert(all.take(i + 1).drop_last() =~= all.take(i as int));
        assert(all.take(i + 1).last() == step::row_view(rows@[i as int]@));
        let ghost before = out@;
        match f(&rows[i]) {
            Err(e) => {
                proof {
                    lemma_first_error(all, i + 1, g);
                }
                return Err(e);
            },
            Ok(x) => {
                out.push(x);
                assert(out@.map_values(|x: T| x@) =~= before.map_values(|x: T| x@).push(x@));
            },
        }
        i += 1;
    }
    assert(all.take(i as int) =~= all);
    match error {
        Some(e) => Err(e),
        None => Ok(out),
    }
}

/// The text of a field, or why it has none.
pub fn text_at(row: &Vec<Field>, i: usize) -> (r: Result<String, String>)
    ensures
        step::text_result(r) == text_field(step::row_view(row@), i as nat),
{
    if i < row.len() {
        match &row[i].text {
            Ok(s) => Ok(s.clone()),
            Err(e) => Err(e.clone()),
        }
    } else {
        let n = text::decimal_text(i as u64);
        Err(text::joined("Invalid column index: ", n.as_str()))
    }
}

/// The text of a field, nothing where it is NULL, or why it has none.
pub fn nullable_at(row: &Vec<Field>, i: usize) -> (r: Result<Option<String>, String>)
    ensures
        step::text_reply_view(r) == nullable_field(step::row_view(row@), i as nat),
{
    if i < row.len() && row[i].null {
        Ok(None)
    } else {
        match text_at(row, i) {
            Ok(s) => Ok(Some(s)),
            Err(e) => Err(e),
        }
    }
}

/// The text of a field where it has one.
pub fn optional_at(row: &Vec<Field>, i: usize) -> (r: Option<String>)
    ensures
        text::opt_text(r) == optional_field(step::row_view(row@), i as nat),
{
    match nullable_at(row, i) {
        Ok(s) => s,
        Err(_) => None,
    }
}

/// The text of a field, empty where it has none.
pub fn text_or_empty_at(row: &Vec<Field>, i: usize) -> (r: String)
    ensures
        r@ == text_or_empty(step::row_view(row@), i as nat),
{
    match text_at(row, i) {
        Ok(s) => s,
        Err(_) => String::new(),
    }
}

/// Whether a field holds an integer other than zero.
pub fn nonzero_at(row: &Vec<Field>, i: usize) -> (r: bool)
    ensures
        r == nonzero_field(step::row_view(row@), i as nat),
{
    if i < row.len() {
        match row[i].int {
            Some(n) => n != 0,
            None => false,
        }
    } else {
        false
    }
}

} // verus!
