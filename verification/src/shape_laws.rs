//! What a catalog tells of each table: its columns, foreign keys and indexes, each from
//! the row that the database gave for it.
use vstd::prelude::*;

use crate::catalog;
use crate::dispatch;
use crate::json;
use crate::json_laws;
use crate::outcome;
use crate::rows;
use crate::run;
use crate::service;
use crate::sql;
use crate::step;

verus! {

/// An index as a database tells of it: its row in the list of indexes, and the rows of its
/// columns.
pub struct IndexRows {
    pub row: Seq<step::FieldView>,
    pub columns: Seq<Seq<step::FieldView>>,
}

/// A table as a database tells of it: the rows of its columns, of its foreign keys and of
/// its indexes.
pub struct TableRows {
    pub name: Seq<char>,
    pub columns: Seq<Seq<step::FieldView>>,
    pub foreign_keys: Seq<Seq<step::FieldView>>,
    pub indexes: Seq<IndexRows>,
}

/// The text of a field, `null` where it is NULL or has none, or where there is no such field.
pub open spec fn text_or_null(row: Seq<step::FieldView>, i: int) -> json::JsonView {
    if i < row.len() && !row[i].null && row[i].text is Ok {
        json::JsonView::Text(row[i].text->Ok_0)
    } else {
        json::JsonView::Null
    }
}

/// The text of a field, empty where it has none, or where there is no such field.
pub open spec fn text_or_nothing(row: Seq<step::FieldView>, i: int) -> Seq<char> {
    if i < row.len() && row[i].text is Ok {
        row[i].text->Ok_0
    } else {
        ""@
    }
}

/// There is such a field, and it holds an integer other than zero.
pub open spec fn is_set(row: Seq<step::FieldView>, i: int) -> bool {
    i < row.len() && row[i].int is Some && row[i].int->0 != 0
}

/// A row of a column: its number, name, type, whether it may not be NULL, its default and
/// whether it belongs to the primary key. It has a name.
pub open spec fn column_row(row: Seq<step::FieldView>) -> bool {
    row.len() > 1 && row[1].text is Ok
}

/// What is told of a column.
pub open spec fn tells_column(told: json::JsonView, row: Seq<step::FieldView>) -> bool {
    &&& told is Object && told->Object_0.len() == 5
    &&& told.text_at("name"@) == Some(row[1].text->Ok_0)
    &&& told.text_at("type"@) == Some(text_or_nothing(row, 2))
    &&& told.bool_at("notnull"@) == Some(is_set(row, 3))
    &&& told.get("default"@) == Some(text_or_null(row, 4))
    &&& told.bool_at("pk"@) == Some(is_set(row, 5))
}

/// A row of a foreign key: its number, its place, the other table, the column and the other
/// column, and what follows an update and a deletion there.
pub open spec fn foreign_key_row(row: Seq<step::FieldView>) -> bool {
    row.len() > 3 && row[2].text is Ok && row[3].text is Ok
}

/// What is told of a foreign key.
pub open spec fn tells_foreign_key(told: json::JsonView, row: Seq<step::FieldView>) -> bool {
    &&& told is Object && told->Object_0.len() == 5
    &&& told.text_at("table"@) == Some(row[2].text->Ok_0)
    &&& told.text_at("from"@) == Some(row[3].text->Ok_0)
    &&& told.get("to"@) == Some(text_or_null(row, 4))
    &&& told.text_at("onUpdate"@) == Some(text_or_nothing(row, 5))
    &&& told.text_at("onDelete"@) == Some(text_or_nothing(row, 6))
}

/// A row of an index: its place, its name and whether it is unique; and a row of each of its
/// columns: its place, the number of the column and its name, which an expression lacks.
pub open spec fn index_rows(index: IndexRows) -> bool {
    &&& index.row.len() > 1 && index.row[1].text is Ok
    &&& forall|i: int|
        0 <= i < index.columns.len() ==> (#[trigger] index.columns[i]).len() > 2 && (
        index.columns[i][2].null || index.columns[i][2].text is Ok)
}

/// What is told of an index: of its columns those that have a name, in order.
pub open spec fn tells_index(told: json::JsonView, index: IndexRows) -> bool {
    &&& told is Object && told->Object_0.len() == 3
    &&& told.text_at("name"@) == Some(index.row[1].text->Ok_0)
    &&& told.bool_at("unique"@) == Some(is_set(index.row, 2))
    &&& told.array_at("columns"@) == Some(
        index.columns.filter(|row: Seq<step::FieldView>| !row[2].null).map_values(
            |row: Seq<step::FieldView>| json::JsonView::Text(row[2].text->Ok_0),
        ),
    )
}

/// All rows of a table can be read.
pub open spec fn table_rows(table: TableRows) -> bool {
    &&& forall|i: int| 0 <= i < table.columns.len() ==> column_row(#[trigger] table.columns[i])
    &&& forall|i: int|
        0 <= i < table.foreign_keys.len() ==> foreign_key_row(#[trigger] table.foreign_keys[i])
    &&& forall|i: int| 0 <= i < table.indexes.len() ==> index_rows(#[trigger] table.indexes[i])
}

/// What is told of a table: its name, its columns, foreign keys and indexes, each from its
/// row and in the order of the rows.
pub open spec fn tells_table(told: json::JsonView, table: TableRows) -> bool {
    let columns = told.array_at("columns"@);
    let foreign_keys = told.array_at("foreignKeys"@);
    let indexes = told.array_at("indexes"@);
    &&& told is Object && told->Object_0.len() == 4
    &&& told.text_at("name"@) == Some(table.name)
    &&& columns is Some && columns->0.len() == table.columns.len()
    &&& forall|i: int|
        0 <= i < table.columns.len() ==> tells_column(#[trigger] columns->0[i], table.columns[i])
    &&& foreign_keys is Some && foreign_keys->0.len() == table.foreign_keys.len()
    &&& forall|i: int|
        0 <= i < table.foreign_keys.len() ==> tells_foreign_key(
            #[trigger] foreign_keys->0[i],
            table.foreign_keys[i],
        )
    &&& indexes is Some && indexes->0.len() == table.indexes.len()
    &&& forall|i: int|
        0 <= i < table.indexes.len() ==> tells_index(#[trigger] indexes->0[i], table.indexes[i])
}

/// A reply of rows without an error.
pub open spec fn given(rows: Seq<Seq<step::FieldView>>) -> run::ReplyView {
    run::ReplyView::Rows(step::RowsView { rows, error: None })
}

/// The rows of the indexes in the list of indexes.
pub open spec fn listed(indexes: Seq<IndexRows>) -> Seq<Seq<step::FieldView>> {
    indexes.map_values(|x: IndexRows| x.row)
}

/// The replies for the columns of the first `n` indexes.
pub open spec fn index_replies(indexes: Seq<IndexRows>, n: int) -> Seq<run::ReplyView> {
    Seq::new(n as nat, |i: int| given(indexes[i].columns))
}

/// The replies for a table.
pub open spec fn table_replies(table: TableRows) -> Seq<run::ReplyView> {
    seq![given(table.columns), given(table.foreign_keys), given(listed(table.indexes))]
        + index_replies(table.indexes, table.indexes.len() as int)
}

/// The replies for a list of tables.
pub open spec fn replies_for(tables: Seq<TableRows>) -> Seq<run::ReplyView>
    decreases tables.len(),
{
    if tables.len() == 0 {
        Seq::empty()
    } else {
        replies_for(tables.drop_last()) + table_replies(tables.last())
    }
}

/// The names of a list of tables.
pub open spec fn names_of(tables: Seq<TableRows>) -> Seq<Seq<char>> {
    tables.map_values(|t: TableRows| t.name)
}

/// A step that asks the database `conn` for rows of `width` fields.
pub open spec fn asks(st: step::StepView, conn: u64, sql: Seq<char>, width: int) -> bool {
    &&& st is ReadRows
    &&& st->ReadRows_conn == conn
    &&& st->ReadRows_sql == sql
    &&& st->width == width
}

proof fn lemma_column_keys()
    ensures
        "name"@ != "type"@,
        "name"@ != "notnull"@,
        "name"@ != "pk"@,
        "name"@ != "default"@,
        "type"@ != "notnull"@,
        "type"@ != "pk"@,
        "type"@ != "default"@,
        "notnull"@ != "pk"@,
        "notnull"@ != "default"@,
        "pk"@ != "default"@,
        ""@ == Seq::<char>::empty(),
{
    reveal_strlit("name");
    reveal_strlit("type");
    reveal_strlit("notnull");
    reveal_strlit("pk");
    reveal_strlit("default");
    reveal_strlit("");
    assert("name"@.len() == 4 && "type"@.len() == 4 && "notnull"@.len() == 7 && "pk"@.len() == 2 && "default"@.len() == 7);
    assert("name"@[0] == 'n' && "type"@[0] == 't' && "notnull"@[0] == 'n' && "default"@[0] == 'd');
}

proof fn lemma_foreign_key_keys()
    ensures
        "table"@ != "from"@,
        "table"@ != "to"@,
        "table"@ != "onUpdate"@,
        "table"@ != "onDelete"@,
        "from"@ != "to"@,
        "from"@ != "onUpdate"@,
        "from"@ != "onDelete"@,
        "to"@ != "onUpdate"@,
        "to"@ != "onDelete"@,
        "onUpdate"@ != "onDelete"@,
        ""@ == Seq::<char>::empty(),
{
    reveal_strlit("table");
    reveal_strlit("from");
    reveal_strlit("to");
    reveal_strlit("onUpdate");
    reveal_strlit("onDelete");
    reveal_strlit("");
    assert("table"@.len() == 5 && "from"@.len() == 4 && "to"@.len() == 2 && "onUpdate"@.len() == 8 && "onDelete"@.len() == 8);
    assert("onUpdate"@[2] == 'U' && "onDelete"@[2] == 'D');
}

proof fn lemma_table_keys()
    ensures
        "name"@ != "columns"@,
        "name"@ != "foreignKeys"@,
        "name"@ != "indexes"@,
        "columns"@ != "foreignKeys"@,
        "columns"@ != "indexes"@,
        "foreignKeys"@ != "indexes"@,
        "name"@ != "unique"@,
        "unique"@ != "columns"@,
{
    reveal_strlit("name");
    reveal_strlit("columns");
    reveal_strlit("foreignKeys");
    reveal_strlit("indexes");
    reveal_strlit("unique");
    assert("name"@.len() == 4 && "columns"@.len() == 7 && "foreignKeys"@.len() == 11 && "indexes"@.len() == 7 && "unique"@.len() == 6);
    assert("columns"@[0] == 'c' && "indexes"@[0] == 'i');
}

/// A column is told from its row: the name and the type are the texts of the fields that
/// hold them, and so are the default, the key and whether it may not be NULL.
pub proof fn law_a_column_is_told_from_its_row(row: Seq<step::FieldView>)
    requires
        column_row(row),
    ensures
        catalog::column_of(row) is Ok,
        tells_column(catalog::column_of(row)->Ok_0, row),
{
    lemma_column_keys();
    let told = catalog::column_of(row)->Ok_0->Object_0;
    json_laws::lemma_entry(told, 0);
    json_laws::lemma_entry(told, 1);
    json_laws::lemma_entry(told, 2);
    json_laws::lemma_entry(told, 3);
    json_laws::lemma_entry(told, 4);
}

/// A foreign key is told from its row.
pub proof fn law_a_foreign_key_is_told_from_its_row(row: Seq<step::FieldView>)
    requires
        foreign_key_row(row),
    ensures
        catalog::foreign_key_of(row) is Ok,
        tells_foreign_key(catalog::foreign_key_of(row)->Ok_0, row),
{
    lemma_foreign_key_keys();
    let told = catalog::foreign_key_of(row)->Ok_0->Object_0;
    json_laws::lemma_entry(told, 0);
    json_laws::lemma_entry(told, 1);
    json_laws::lemma_entry(told, 2);
    json_laws::lemma_entry(told, 3);
    json_laws::lemma_entry(told, 4);
}

proof fn lemma_named(columns: Seq<Seq<step::FieldView>>, names: Seq<Option<Seq<char>>>)
    requires
        columns.len() == names.len(),
        forall|i: int|
            0 <= i < names.len() ==> #[trigger] names[i] == if columns[i][2].null {
                None
            } else {
                Some(columns[i][2].text->Ok_0)
            },
    ensures
        catalog::named(names) == columns.filter(
            |row: Seq<step::FieldView>| !row[2].null,
        ).map_values(|row: Seq<step::FieldView>| row[2].text->Ok_0),
    decreases names.len(),
{
    reveal(Seq::filter);
    let keep = |row: Seq<step::FieldView>| !row[2].null;
    let text = |row: Seq<step::FieldView>| row[2].text->Ok_0;
    if names.len() == 0 {
        assert(catalog::named(names) =~= columns.filter(keep).map_values(text));
    } else {
        let front = columns.drop_last();
        assert forall|i: int| 0 <= i < names.drop_last().len() implies #[trigger] names.drop_last()[i]
            == if front[i][2].null {
            None
        } else {
            Some(front[i][2].text->Ok_0)
        } by {
            assert(names.drop_last()[i] == names[i]);
        }
        lemma_named(front, names.drop_last());
        assert(names.last() == names[names.len() - 1]);
        assert(catalog::named(names) =~= columns.filter(keep).map_values(text));
    }
}

proof fn lemma_index_told(
    index: IndexRows,
    meta: step::IndexMetaView,
    names: Seq<Option<Seq<char>>>,
)
    requires
        index_rows(index),
        catalog::index_of(index.row) == Ok::<step::IndexMetaView, Seq<char>>(meta),
        rows::values_of(
            step::RowsView { rows: index.columns, error: None },
            |row: Seq<step::FieldView>| rows::nullable_field(row, 2),
        ) == Ok::<Seq<Option<Seq<char>>>, Seq<char>>(names),
    ensures
        tells_index(catalog::index_json(meta, catalog::named(names)), index),
{
    let f = |row: Seq<step::FieldView>| rows::nullable_field(row, 2);
    let reply = step::RowsView { rows: index.columns, error: None };
    rows::law_each_row_gives_its_value(reply, f);
    assert forall|i: int| 0 <= i < index.columns.len() implies f(#[trigger] index.columns[i]) is Ok by {
    }
    assert forall|i: int| 0 <= i < names.len() implies #[trigger] names[i]
        == if index.columns[i][2].null {
        None
    } else {
        Some(index.columns[i][2].text->Ok_0)
    } by {
        assert(f(index.columns[i]) == Ok::<Option<Seq<char>>, Seq<char>>(names[i]));
    }
    lemma_named(index.columns, names);
    lemma_table_keys();
    let told = catalog::index_json(meta, catalog::named(names))->Object_0;
    json_laws::lemma_entry(told, 0);
    json_laws::lemma_entry(told, 1);
    json_laws::lemma_entry(told, 2);
    assert(told[2].1->Array_0 =~= index.columns.filter(
        |row: Seq<step::FieldView>| !row[2].null,
    ).map_values(|row: Seq<step::FieldView>| json::JsonView::Text(row[2].text->Ok_0)));
}

/// Where a walk stands once the columns of the first `n` indexes of a table were read.
proof fn lemma_indexes(
    s: service::ServiceView,
    walk: step::WalkView,
    columns: Seq<json::JsonView>,
    foreign_keys: Seq<json::JsonView>,
    indexes: Seq<IndexRows>,
    metas: Seq<step::IndexMetaView>,
    n: int,
) -> (told: Seq<json::JsonView>)
    requires
        0 <= n <= indexes.len(),
        metas.len() == indexes.len(),
        forall|i: int| 0 <= i < indexes.len() ==> index_rows(#[trigger] indexes[i]),
        forall|i: int|
            0 <= i < indexes.len() ==> catalog::index_of((#[trigger] indexes[i]).row) == Ok::<
                step::IndexMetaView,
                Seq<char>,
            >(metas[i]),
    ensures
        told.len() == n,
        forall|i: int| 0 <= i < n ==> tells_index(#[trigger] told[i], indexes[i]),
        ({
            let (s0, st0) = catalog::next_index(
                s,
                walk,
                columns,
                foreign_keys,
                metas,
                Seq::empty(),
            );
            run::run(s0, st0, index_replies(indexes, n)) == catalog::next_index(
                s,
                walk,
                columns,
                foreign_keys,
                metas.skip(n),
                told,
            )
        }),
    decreases n,
{
    let (s0, st0) = catalog::next_index(s, walk, columns, foreign_keys, metas, Seq::empty());
    if n == 0 {
        assert(metas.skip(0) =~= metas);
        assert(index_replies(indexes, 0) =~= Seq::empty());
        Seq::empty()
    } else {
        let before = lemma_indexes(s, walk, columns, foreign_keys, indexes, metas, n - 1);
        let index = indexes[n - 1];
        let reply = step::RowsView { rows: index.columns, error: None };
        let f = |row: Seq<step::FieldView>| rows::nullable_field(row, 2);
        rows::law_each_row_gives_its_value(reply, f);
        assert forall|i: int| 0 <= i < reply.rows.len() implies f(#[trigger] reply.rows[i]) is Ok by {
            assert(index.columns[i].len() > 2);
        }
        let names = rows::values_of(reply, f)->Ok_0;
        lemma_index_told(index, metas[n - 1], names);
        let told = before.push(catalog::index_json(metas[n - 1], catalog::named(names)));
        assert(metas.skip(n - 1)[0] == metas[n - 1]);
        assert(metas.skip(n - 1).drop_first() =~= metas.skip(n));
        assert(index_replies(indexes, n) =~= index_replies(indexes, n - 1).push(
            given(index.columns),
        ));
        run::lemma_after(s0, st0, index_replies(indexes, n - 1), given(index.columns));
        told
    }
}

proof fn lemma_columns_read(columns: Seq<Seq<step::FieldView>>) -> (told: Seq<json::JsonView>)
    requires
        forall|i: int| 0 <= i < columns.len() ==> column_row(#[trigger] columns[i]),
    ensures
        rows::values_of(
            step::RowsView { rows: columns, error: None },
            |row: Seq<step::FieldView>| catalog::column_of(row),
        ) == Ok::<Seq<json::JsonView>, Seq<char>>(told),
        told.len() == columns.len(),
        forall|i: int| 0 <= i < told.len() ==> tells_column(#[trigger] told[i], columns[i]),
{
    let f = |row: Seq<step::FieldView>| catalog::column_of(row);
    let reply = step::RowsView { rows: columns, error: None };
    rows::law_each_row_gives_its_value(reply, f);
    assert forall|i: int| 0 <= i < reply.rows.len() implies f(#[trigger] reply.rows[i]) is Ok by {
        law_a_column_is_told_from_its_row(columns[i]);
    }
    let told = rows::values_of(reply, f)->Ok_0;
    assert forall|i: int| 0 <= i < told.len() implies tells_column(
        #[trigger] told[i],
        columns[i],
    ) by {
        assert(f(reply.rows[i]) == Ok::<json::JsonView, Seq<char>>(told[i]));
        law_a_column_is_told_from_its_row(columns[i]);
    }
    told
}

proof fn lemma_foreign_keys_read(keys: Seq<Seq<step::FieldView>>) -> (told: Seq<json::JsonView>)
    requires
        forall|i: int| 0 <= i < keys.len() ==> foreign_key_row(#[trigger] keys[i]),
    ensures
        rows::values_of(
            step::RowsView { rows: keys, error: None },
            |row: Seq<step::FieldView>| catalog::foreign_key_of(row),
        ) == Ok::<Seq<json::JsonView>, Seq<char>>(told),
        told.len() == keys.len(),
        forall|i: int| 0 <= i < told.len() ==> tells_foreign_key(#[trigger] told[i], keys[i]),
{
    let f = |row: Seq<step::FieldView>| catalog::foreign_key_of(row);
    let reply = step::RowsView { rows: keys, error: None };
    rows::law_each_row_gives_its_value(reply, f);
    assert forall|i: int| 0 <= i < reply.rows.len() implies f(#[trigger] reply.rows[i]) is Ok by {
        law_a_foreign_key_is_told_from_its_row(keys[i]);
    }
    let told = rows::values_of(reply, f)->Ok_0;
    assert forall|i: int| 0 <= i < told.len() implies tells_foreign_key(
        #[trigger] told[i],
        keys[i],
    ) by {
        assert(f(reply.rows[i]) == Ok::<json::JsonView, Seq<char>>(told[i]));
        law_a_foreign_key_is_told_from_its_row(keys[i]);
    }
    told
}

proof fn lemma_indexes_read(indexes: Seq<IndexRows>) -> (metas: Seq<step::IndexMetaView>)
    requires
        forall|i: int| 0 <= i < indexes.len() ==> index_rows(#[trigger] indexes[i]),
    ensures
        rows::values_of(
            step::RowsView { rows: listed(indexes), error: None },
            |row: Seq<step::FieldView>| catalog::index_of(row),
        ) == Ok::<Seq<step::IndexMetaView>, Seq<char>>(metas),
        metas.len() == indexes.len(),
        forall|i: int|
            0 <= i < indexes.len() ==> catalog::index_of((#[trigger] indexes[i]).row) == Ok::<
                step::IndexMetaView,
                Seq<char>,
            >(metas[i]),
        forall|i: int|
            0 <= i < indexes.len() ==> (#[trigger] indexes[i]).row[1].text->Ok_0 == metas[i].name,
{
    let f = |row: Seq<step::FieldView>| catalog::index_of(row);
    let reply = step::RowsView { rows: listed(indexes), error: None };
    rows::law_each_row_gives_its_value(reply, f);
    assert forall|i: int| 0 <= i < reply.rows.len() implies f(#[trigger] reply.rows[i]) is Ok by {
        assert(index_rows(indexes[i]));
    }
    let metas = rows::values_of(reply, f)->Ok_0;
    assert forall|i: int| 0 <= i < indexes.len() implies catalog::index_of(
        (#[trigger] indexes[i]).row,
    ) == Ok::<step::IndexMetaView, Seq<char>>(metas[i]) && indexes[i].row[1].text->Ok_0
        == metas[i].name by {
        assert(f(reply.rows[i]) == Ok::<step::IndexMetaView, Seq<char>>(metas[i]));
    }
    metas
}

/// The steps of a walk up to the indexes of a table.
#[verifier::rlimit(40)]
proof fn lemma_table_head(
    s: service::ServiceView,
    profile: Seq<char>,
    conn: u64,
    names: Seq<Seq<char>>,
    tables: Seq<json::JsonView>,
    table: TableRows,
) -> (told: (Seq<json::JsonView>, Seq<json::JsonView>, Seq<step::IndexMetaView>))
    requires
        names.len() > 0,
        names[0] == table.name,
        table_rows(table),
    ensures
        told.0.len() == table.columns.len(),
        forall|i: int|
            0 <= i < told.0.len() ==> tells_column(#[trigger] told.0[i], table.columns[i]),
        told.1.len() == table.foreign_keys.len(),
        forall|i: int|
            0 <= i < told.1.len() ==> tells_foreign_key(
                #[trigger] told.1[i],
                table.foreign_keys[i],
            ),
        told.2.len() == table.indexes.len(),
        forall|i: int|
            0 <= i < told.2.len() ==> catalog::index_of((#[trigger] table.indexes[i]).row) == Ok::<
                step::IndexMetaView,
                Seq<char>,
            >(told.2[i]),
        forall|i: int|
            0 <= i < told.2.len() ==> (#[trigger] table.indexes[i]).row[1].text->Ok_0
                == told.2[i].name,
        ({
            let (s0, st0) = catalog::next_table(s, profile, conn, names, tables);
            let name = sql::quoted_ident(table.name);
            let a = given(table.columns);
            let b = given(table.foreign_keys);
            let c = given(listed(table.indexes));
            let walk = step::WalkView {
                profile,
                conn,
                name: names[0],
                rest: names.drop_first(),
                tables,
            };
            &&& asks(st0, conn, "PRAGMA "@ + "table_info"@ + "("@ + name + ")"@, 6)
            &&& asks(
                run::run(s0, st0, seq![a]).1,
                conn,
                "PRAGMA "@ + "foreign_key_list"@ + "("@ + name + ")"@,
                7,
            )
            &&& asks(
                run::run(s0, st0, seq![a, b]).1,
                conn,
                "PRAGMA "@ + "index_list"@ + "("@ + name + ")"@,
                3,
            )
            &&& run::run(s0, st0, seq![a, b, c]) == catalog::next_index(
                s,
                walk,
                told.0,
                told.1,
                told.2,
                Seq::empty(),
            )
        }),
{
    let (s0, st0) = catalog::next_table(s, profile, conn, names, tables);
    let columns = lemma_columns_read(table.columns);
    let keys = lemma_foreign_keys_read(table.foreign_keys);
    let metas = lemma_indexes_read(table.indexes);
    run::lemma_short(
        s0,
        st0,
        given(table.columns),
        given(table.foreign_keys),
        given(listed(table.indexes)),
    );
    (columns, keys, metas)
}

proof fn lemma_table_told(
    table: TableRows,
    columns: Seq<json::JsonView>,
    keys: Seq<json::JsonView>,
    indexes: Seq<json::JsonView>,
)
    requires
        columns.len() == table.columns.len(),
        forall|i: int|
            0 <= i < columns.len() ==> tells_column(#[trigger] columns[i], table.columns[i]),
        keys.len() == table.foreign_keys.len(),
        forall|i: int|
            0 <= i < keys.len() ==> tells_foreign_key(#[trigger] keys[i], table.foreign_keys[i]),
        indexes.len() == table.indexes.len(),
        forall|i: int|
            0 <= i < indexes.len() ==> tells_index(#[trigger] indexes[i], table.indexes[i]),
    ensures
        tells_table(catalog::table_json(table.name, columns, keys, indexes), table),
{
    lemma_table_keys();
    let told = catalog::table_json(table.name, columns, keys, indexes)->Object_0;
    json_laws::lemma_entry(told, 0);
    json_laws::lemma_entry(told, 1);
    json_laws::lemma_entry(told, 2);
    json_laws::lemma_entry(told, 3);
}

/// The step of a walk that asks for the columns of index `j` of a table.
proof fn lemma_index_asked(
    s: service::ServiceView,
    walk: step::WalkView,
    columns: Seq<json::JsonView>,
    keys: Seq<json::JsonView>,
    indexes: Seq<IndexRows>,
    metas: Seq<step::IndexMetaView>,
    j: int,
)
    requires
        0 <= j < indexes.len(),
        metas.len() == indexes.len(),
        forall|i: int| 0 <= i < indexes.len() ==> index_rows(#[trigger] indexes[i]),
        forall|i: int|
            0 <= i < indexes.len() ==> catalog::index_of((#[trigger] indexes[i]).row) == Ok::<
                step::IndexMetaView,
                Seq<char>,
            >(metas[i]),
        indexes[j].row[1].text->Ok_0 == metas[j].name,
    ensures
        ({
            let (s3, st3) = catalog::next_index(s, walk, columns, keys, metas, Seq::empty());
            asks(
                run::run(s3, st3, index_replies(indexes, j)).1,
                walk.conn,
                "PRAGMA "@ + "index_info"@ + "("@ + sql::quoted_ident(
                    indexes[j].row[1].text->Ok_0,
                ) + ")"@,
                3,
            )
        }),
{
    let some = lemma_indexes(s, walk, columns, keys, indexes, metas, j);
    assert(metas.skip(j)[0] == metas[j]);
}

/// Where a walk stands once a table was read.
#[verifier::rlimit(40)]
proof fn lemma_table(
    s: service::ServiceView,
    profile: Seq<char>,
    conn: u64,
    names: Seq<Seq<char>>,
    tables: Seq<json::JsonView>,
    table: TableRows,
) -> (told: json::JsonView)
    requires
        names.len() > 0,
        names[0] == table.name,
        table_rows(table),
    ensures
        tells_table(told, table),
        ({
            let (s0, st0) = catalog::next_table(s, profile, conn, names, tables);
            let name = sql::quoted_ident(table.name);
            let all = table_replies(table);
            &&& run::run(s0, st0, all) == catalog::next_table(
                s,
                profile,
                conn,
                names.drop_first(),
                tables.push(told),
            )
            &&& asks(st0, conn, "PRAGMA "@ + "table_info"@ + "("@ + name + ")"@, 6)
            &&& asks(
                run::run(s0, st0, all.take(1)).1,
                conn,
                "PRAGMA "@ + "foreign_key_list"@ + "("@ + name + ")"@,
                7,
            )
            &&& asks(
                run::run(s0, st0, all.take(2)).1,
                conn,
                "PRAGMA "@ + "index_list"@ + "("@ + name + ")"@,
                3,
            )
            &&& forall|j: int|
                #![trigger table.indexes[j]]
                0 <= j < table.indexes.len() ==> asks(
                    run::run(s0, st0, all.take(3 + j)).1,
                    conn,
                    "PRAGMA "@ + "index_info"@ + "("@ + sql::quoted_ident(
                        table.indexes[j].row[1].text->Ok_0,
                    ) + ")"@,
                    3,
                )
        }),
{
    let (s0, st0) = catalog::next_table(s, profile, conn, names, tables);
    let walk = step::WalkView { profile, conn, name: names[0], rest: names.drop_first(), tables };
    let a = given(table.columns);
    let b = given(table.foreign_keys);
    let c = given(listed(table.indexes));
    let (columns, keys, metas) = lemma_table_head(s, profile, conn, names, tables, table);
    let (s3, st3) = catalog::next_index(s, walk, columns, keys, metas, Seq::empty());
    let all = table_replies(table);
    let n = table.indexes.len() as int;
    let indexes = lemma_indexes(s, walk, columns, keys, table.indexes, metas, n);
    let told = catalog::table_json(table.name, columns, keys, indexes);
    lemma_table_told(table, columns, keys, indexes);
    run::lemma_run_in_parts(s0, st0, seq![a, b, c], index_replies(table.indexes, n));
    assert(metas.skip(n) =~= Seq::empty());
    assert(all.take(1) =~= seq![a]);
    assert(all.take(2) =~= seq![a, b]);
    assert forall|j: int| #![trigger table.indexes[j]] 0 <= j < n implies asks(
        run::run(s0, st0, all.take(3 + j)).1,
        conn,
        "PRAGMA "@ + "index_info"@ + "("@ + sql::quoted_ident(table.indexes[j].row[1].text->Ok_0)
            + ")"@,
        3,
    ) by {
        lemma_index_asked(s, walk, columns, keys, table.indexes, metas, j);
        run::lemma_run_in_parts(s0, st0, seq![a, b, c], index_replies(table.indexes, j));
        assert(all.take(3 + j) =~= seq![a, b, c] + index_replies(table.indexes, j));
    }
    told
}

/// Where a walk stands once the first `k` tables were read.
#[verifier::rlimit(40)]
proof fn lemma_tables(
    s: service::ServiceView,
    profile: Seq<char>,
    conn: u64,
    tables: Seq<TableRows>,
    k: int,
) -> (told: Seq<json::JsonView>)
    requires
        0 <= k <= tables.len(),
        forall|i: int| 0 <= i < tables.len() ==> table_rows(#[trigger] tables[i]),
    ensures
        told.len() == k,
        forall|i: int| 0 <= i < k ==> tells_table(#[trigger] told[i], tables[i]),
        ({
            let (s0, st0) = catalog::next_table(s, profile, conn, names_of(tables), Seq::empty());
            run::run(s0, st0, replies_for(tables.take(k))) == catalog::next_table(
                s,
                profile,
                conn,
                names_of(tables).skip(k),
                told,
            )
        }),
    decreases k,
{
    let (s0, st0) = catalog::next_table(s, profile, conn, names_of(tables), Seq::empty());
    if k == 0 {
        assert(names_of(tables).skip(0) =~= names_of(tables));
        assert(tables.take(0) =~= Seq::empty());
        Seq::empty()
    } else {
        let before = lemma_tables(s, profile, conn, tables, k - 1);
        let names = names_of(tables).skip(k - 1);
        let told = lemma_table(s, profile, conn, names, before, tables[k - 1]);
        assert(names.drop_first() =~= names_of(tables).skip(k));
        assert(tables.take(k).drop_last() =~= tables.take(k - 1));
        run::lemma_run_in_parts(
            s0,
            st0,
            replies_for(tables.take(k - 1)),
            table_replies(tables[k - 1]),
        );
        before.push(told)
    }
}

/// A request that can be walked: its profile holds a database, and `names` are the names
/// that the database gives.
pub open spec fn walks(
    s: service::ServiceView,
    params: json::JsonView,
    names: Seq<Seq<step::FieldView>>,
    tables: Seq<TableRows>,
) -> bool {
    &&& params.text_at("profile"@) is Some
    &&& s.conn_of(params.text_at("profile"@)->0) is Some
    &&& forall|i: int|
        0 <= i < names.len() ==> (#[trigger] names[i]).len() > 0 && names[i][0].text is Ok
    &&& names_of(tables) == catalog::retained(
        names.map_values(|row: Seq<step::FieldView>| row[0].text->Ok_0),
        catalog::only_of(params),
    )
    &&& forall|i: int| 0 <= i < tables.len() ==> table_rows(#[trigger] tables[i])
}

proof fn lemma_names(
    s: service::ServiceView,
    params: json::JsonView,
    names: Seq<Seq<step::FieldView>>,
    tables: Seq<TableRows>,
    rest: Seq<run::ReplyView>,
)
    requires
        walks(s, params, names, tables),
    ensures
        ({
            let profile = params.text_at("profile"@)->0;
            let (s0, st0) = catalog::next_table(
                s,
                profile,
                s.conn_of(profile)->0,
                names_of(tables),
                Seq::empty(),
            );
            run::served(s, "db-introspect"@, params, seq![given(names)] + rest) == run::run(
                s0,
                st0,
                rest,
            )
        }),
{
    dispatch::lemma_marks();
    let (s0, st0) = dispatch::start(s, "db-introspect"@, params);
    let f = |row: Seq<step::FieldView>| rows::text_field(row, 0);
    let reply = step::RowsView { rows: names, error: None };
    rows::law_each_row_gives_its_value(reply, f);
    assert forall|i: int| 0 <= i < reply.rows.len() implies f(#[trigger] reply.rows[i]) is Ok by {
        assert(names[i].len() > 0);
    }
    let texts = names.map_values(|row: Seq<step::FieldView>| row[0].text->Ok_0);
    let values = rows::values_of(reply, f)->Ok_0;
    assert forall|i: int| 0 <= i < values.len() implies values[i] == texts[i] by {
        assert(f(reply.rows[i]) == Ok::<Seq<char>, Seq<char>>(values[i]));
    }
    assert(values =~= texts);
    run::lemma_short(s0, st0, given(names), given(names), given(names));
    run::lemma_run_in_parts(s0, st0, seq![given(names)], rest);
}

/// A walk over a database whose rows can all be read tells each table that is asked for,
/// in the order of the database: its name, and its columns, foreign keys and indexes from
/// the rows that the database gave for that table. It records how many tables it told.
pub proof fn law_what_the_catalog_tells(
    s: service::ServiceView,
    params: json::JsonView,
    names: Seq<Seq<step::FieldView>>,
    tables: Seq<TableRows>,
)
    requires
        walks(s, params, names, tables),
    ensures
        ({
            let (s1, end) = run::served(
                s,
                "db-introspect"@,
                params,
                seq![given(names)] + replies_for(tables),
            );
            let told = end->outcome.data->0.array_at("tables"@);
            &&& end is Done && end->outcome.ok && end->close is None
            &&& end->outcome.code is None && end->outcome.message is None
            &&& end->outcome.data is Some && end->outcome.data->0->Object_0.len() == 1
            &&& told is Some && told->0.len() == tables.len()
            &&& forall|i: int|
                0 <= i < tables.len() ==> tells_table(#[trigger] told->0[i], tables[i])
            &&& s1 == s.audited(
                params.text_at("profile"@)->0,
                "db-introspect"@,
                true,
                tables.len() as u64,
            )
        }),
{
    lemma_names(s, params, names, tables, replies_for(tables));
    let profile = params.text_at("profile"@)->0;
    let told = lemma_tables(s, profile, s.conn_of(profile)->0, tables, tables.len() as int);
    assert(tables.take(tables.len() as int) =~= tables);
    assert(names_of(tables).skip(tables.len() as int) =~= Seq::empty());
    let entries = seq![("tables"@, json::JsonView::Array(told))];
    json_laws::lemma_entry(entries, 0);
}

/// What a walk asks of the database that the profile holds: first the names of its
/// tables; then of each table its columns, its foreign keys and its indexes by the pragmas
/// that tell them, and the columns of each index.
pub proof fn law_what_the_walk_asks(
    s: service::ServiceView,
    params: json::JsonView,
    names: Seq<Seq<step::FieldView>>,
    tables: Seq<TableRows>,
    k: int,
    j: int,
)
    requires
        walks(s, params, names, tables),
        0 <= k < tables.len(),
    ensures
        ({
            let conn = s.conn_of(params.text_at("profile"@)->0)->0;
            let before = seq![given(names)] + replies_for(tables.take(k));
            let all = table_replies(tables[k]);
            let name = sql::quoted_ident(tables[k].name);
            let index = sql::quoted_ident(tables[k].indexes[j].row[1].text->Ok_0);
            let at = |n: int| run::served(s, "db-introspect"@, params, before + all.take(n)).1;
            &&& asks(
                run::served(s, "db-introspect"@, params, Seq::empty()).1,
                conn,
                "SELECT name FROM sqlite_master WHERE type='table' AND name NOT LIKE 'sqlite\\_%' ESCAPE '\\' ORDER BY name"@,
                1,
            )
            &&& asks(at(0), conn, "PRAGMA "@ + "table_info"@ + "("@ + name + ")"@, 6)
            &&& asks(at(1), conn, "PRAGMA "@ + "foreign_key_list"@ + "("@ + name + ")"@, 7)
            &&& asks(at(2), conn, "PRAGMA "@ + "index_list"@ + "("@ + name + ")"@, 3)
            &&& 0 <= j < tables[k].indexes.len() ==> asks(
                at(3 + j),
                conn,
                "PRAGMA "@ + "index_info"@ + "("@ + index + ")"@,
                3,
            )
        }),
{
    dispatch::lemma_marks();
    let profile = params.text_at("profile"@)->0;
    let conn = s.conn_of(profile)->0;
    let told = lemma_tables(s, profile, conn, tables, k);
    let rest = names_of(tables).skip(k);
    let table = lemma_table(s, profile, conn, rest, told, tables[k]);
    lemma_at(s, params, names, tables, k, 0, told);
    lemma_at(s, params, names, tables, k, 1, told);
    lemma_at(s, params, names, tables, k, 2, told);
    if 0 <= j < tables[k].indexes.len() {
        lemma_at(s, params, names, tables, k, 3 + j, told);
        assert(index_rows(tables[k].indexes[j]));
    }
    assert(table_replies(tables[k]).take(0) =~= Seq::empty());
}

proof fn lemma_at(
    s: service::ServiceView,
    params: json::JsonView,
    names: Seq<Seq<step::FieldView>>,
    tables: Seq<TableRows>,
    k: int,
    n: int,
    told: Seq<json::JsonView>,
)
    requires
        walks(s, params, names, tables),
        ({
            let profile = params.text_at("profile"@)->0;
            let conn = s.conn_of(profile)->0;
            let (s0, st0) = catalog::next_table(s, profile, conn, names_of(tables), Seq::empty());
            run::run(s0, st0, replies_for(tables.take(k))) == catalog::next_table(
                s,
                profile,
                conn,
                names_of(tables).skip(k),
                told,
            )
        }),
    ensures
        ({
            let profile = params.text_at("profile"@)->0;
            let conn = s.conn_of(profile)->0;
            let before = seq![given(names)] + replies_for(tables.take(k));
            let some = table_replies(tables[k]).take(n);
            let (s1, st1) = catalog::next_table(
                s,
                profile,
                conn,
                names_of(tables).skip(k),
                told,
            );
            run::served(s, "db-introspect"@, params, before + some) == run::run(s1, st1, some)
        }),
{
    let profile = params.text_at("profile"@)->0;
    let conn = s.conn_of(profile)->0;
    let first = replies_for(tables.take(k));
    let some = table_replies(tables[k]).take(n);
    let (s0, st0) = catalog::next_table(s, profile, conn, names_of(tables), Seq::empty());
    lemma_names(s, params, names, tables, first + some);
    assert(seq![given(names)] + first + some =~= seq![given(names)] + (first + some));
    run::lemma_run_in_parts(s0, st0, first, some);
}

/// The tables that are walked: all that the database names where the request lists none;
/// otherwise, in the order of the database, those whose name stands in the list as a text.
pub proof fn law_which_tables_are_walked(params: json::JsonView, names: Seq<Seq<char>>)
    ensures
        catalog::retained(names, catalog::only_of(params)) == match params.array_at("tables"@) {
            None => names,
            Some(items) => names.filter(|n: Seq<char>| items.contains(json::JsonView::Text(n))),
        },
    decreases names.len(),
{
    if let Some(items) = params.array_at("tables"@) {
        lemma_kept(names, items);
    }
}

proof fn lemma_kept(names: Seq<Seq<char>>, items: Seq<json::JsonView>)
    ensures
        catalog::kept(names, catalog::texts_among(items)) == names.filter(
            |n: Seq<char>| items.contains(json::JsonView::Text(n)),
        ),
    decreases names.len(),
{
    reveal(Seq::filter);
    let wanted = |n: Seq<char>| items.contains(json::JsonView::Text(n));
    if names.len() > 0 {
        lemma_kept(names.drop_last(), items);
        lemma_among(items, names.last());
    }
    assert(catalog::kept(names, catalog::texts_among(items)) =~= names.filter(wanted));
}

proof fn lemma_among(items: Seq<json::JsonView>, n: Seq<char>)
    ensures
        catalog::texts_among(items).contains(n) == items.contains(json::JsonView::Text(n)),
    decreases items.len(),
{
    if items.len() > 0 {
        let front = items.drop_last();
        lemma_among(front, n);
        let texts = catalog::texts_among(front);
        if items.contains(json::JsonView::Text(n)) {
            let k = choose|k: int| 0 <= k < items.len() && items[k] == json::JsonView::Text(n);
            if k < front.len() {
                assert(front[k] == json::JsonView::Text(n));
                assert(texts.contains(n));
                let j = choose|j: int| 0 <= j < texts.len() && texts[j] == n;
                assert(catalog::texts_among(items)[j] == n);
            } else {
                assert(catalog::texts_among(items) == texts.push(n));
                assert(texts.push(n)[texts.len() as int] == n);
            }
        }
        if catalog::texts_among(items).contains(n) {
            let all = catalog::texts_among(items);
            let j = choose|j: int| 0 <= j < all.len() && all[j] == n;
            if j < texts.len() {
                assert(texts[j] == n);
                assert(front.contains(json::JsonView::Text(n)));
                let k = choose|k: int| 0 <= k < front.len() && front[k] == json::JsonView::Text(n);
                assert(items[k] == json::JsonView::Text(n));
            } else {
                assert(items[items.len() - 1] == json::JsonView::Text(n));
            }
        }
    }
}

/// The profile that a walk belongs to.
pub open spec fn walker(then: step::AfterReadRowsView) -> Seq<char> {
    match then {
        step::AfterReadRowsView::TableNames { profile, conn, only } => profile,
        step::AfterReadRowsView::Columns { walk } => walk.profile,
        step::AfterReadRowsView::ForeignKeys { walk, columns } => walk.profile,
        step::AfterReadRowsView::Indexes { walk, columns, foreign_keys } => walk.profile,
        step::AfterReadRowsView::IndexColumns {
            walk,
            columns,
            foreign_keys,
            index,
            rest,
            indexes,
        } => walk.profile,
        step::AfterReadRowsView::Ledger { profile } => profile,
    }
}

/// Why a row cannot be read at a step of a walk, if it cannot: the name of a table, a column,
/// an index or the column of an index, or a table or a column of a foreign key, is no text.
pub open spec fn row_fault(then: step::AfterReadRowsView, row: Seq<step::FieldView>) -> Option<
    Seq<char>,
> {
    match then {
        step::AfterReadRowsView::TableNames { profile, conn, only } => fault(row[0]),
        step::AfterReadRowsView::Columns { walk } => fault(row[1]),
        step::AfterReadRowsView::ForeignKeys { walk, columns } => if fault(row[2]) is Some {
            fault(row[2])
        } else {
            fault(row[3])
        },
        step::AfterReadRowsView::Indexes { walk, columns, foreign_keys } => fault(row[1]),
        _ => if row[2].null {
            None
        } else {
            fault(row[2])
        },
    }
}

/// Why a field has no text, if it has none.
pub open spec fn fault(field: step::FieldView) -> Option<Seq<char>> {
    if field.text is Ok {
        None
    } else {
        Some(field.text->Err_0)
    }
}

/// How many fields a row has at a step of a walk.
pub open spec fn row_width(then: step::AfterReadRowsView) -> int {
    match then {
        step::AfterReadRowsView::TableNames { profile, conn, only } => 1,
        step::AfterReadRowsView::Columns { walk } => 6,
        step::AfterReadRowsView::ForeignKeys { walk, columns } => 7,
        _ => 3,
    }
}

/// The rows of a reply up to row `k` can be read; row `k`, or, past the last row, the end of
/// the reading, has the error.
pub open spec fn breaks_at(
    then: step::AfterReadRowsView,
    reply: step::RowsView,
    k: int,
    error: Seq<char>,
) -> bool {
    &&& forall|i: int|
        0 <= i < reply.rows.len() ==> (#[trigger] reply.rows[i]).len() == row_width(then)
    &&& 0 <= k <= reply.rows.len()
    &&& forall|i: int| 0 <= i < k ==> row_fault(then, #[trigger] reply.rows[i]) is None
    &&& if k < reply.rows.len() {
        row_fault(then, reply.rows[k]) == Some(error)
    } else {
        reply.error == Some(error)
    }
}

/// What a row gives at a step of a walk, by whether it can be read.
proof fn lemma_faults<T>(
    then: step::AfterReadRowsView,
    reply: step::RowsView,
    k: int,
    error: Seq<char>,
    f: spec_fn(Seq<step::FieldView>) -> Result<T, Seq<char>>,
)
    requires
        breaks_at(then, reply, k, error),
        forall|i: int|
            0 <= i < reply.rows.len() ==> match row_fault(then, #[trigger] reply.rows[i]) {
                Some(e) => f(reply.rows[i]) is Err && f(reply.rows[i])->Err_0 == e,
                None => f(reply.rows[i]) is Ok,
            },
    ensures
        rows::values_of(reply, f) is Err,
        rows::values_of(reply, f)->Err_0 == error,
{
    rows::law_each_row_gives_its_value(reply, f);
    assert forall|i: int| 0 <= i < k implies f(#[trigger] reply.rows[i]) is Ok by {
        assert(row_fault(then, reply.rows[i]) is None);
    }
    if k < reply.rows.len() {
        assert(f(reply.rows[k]) is Err);
    }
}

/// A walk ends at the first error, which is told and recorded: that of the first row that
/// cannot be read, or, where all can, that which ended the reading.
pub proof fn law_a_walk_ends_at_the_first_error(
    s: service::ServiceView,
    conn: u64,
    sql: Seq<char>,
    width: usize,
    then: step::AfterReadRowsView,
    reply: step::RowsView,
    k: int,
    error: Seq<char>,
)
    requires
        !(then is Ledger),
        breaks_at(then, reply, k, error),
    ensures
        run::advance(
            s,
            step::StepView::ReadRows { conn, sql, width, then },
            run::ReplyView::Rows(reply),
        ) == (
            s.audited(walker(then), "db-introspect"@, false, 0),
            step::StepView::Done {
                outcome: outcome::OutcomeView {
                    ok: false,
                    data: None,
                    code: Some("INTERNAL"@),
                    message: Some("introspect failed: "@ + error),
                },
                close: None,
            },
        ),
{
    match then {
        step::AfterReadRowsView::TableNames { profile, conn, only } => {
            lemma_faults(
                then,
                reply,
                k,
                error,
                |row: Seq<step::FieldView>| rows::text_field(row, 0),
            );
        },
        step::AfterReadRowsView::Columns { walk } => {
            lemma_faults(
                then,
                reply,
                k,
                error,
                |row: Seq<step::FieldView>| catalog::column_of(row),
            );
        },
        step::AfterReadRowsView::ForeignKeys { walk, columns } => {
            lemma_faults(
                then,
                reply,
                k,
                error,
                |row: Seq<step::FieldView>| catalog::foreign_key_of(row),
            );
        },
        step::AfterReadRowsView::Indexes { walk, columns, foreign_keys } => {
            lemma_faults(
                then,
                reply,
                k,
                error,
                |row: Seq<step::FieldView>| catalog::index_of(row),
            );
        },
        _ => {
            lemma_faults(
                then,
                reply,
                k,
                error,
                |row: Seq<step::FieldView>| rows::nullable_field(row, 2),
            );
        },
    }
}

} // verus!
