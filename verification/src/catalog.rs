//! The catalog: `db-introspect` walks the tables of a database and tells their shape,
//! never their contents.
use vstd::prelude::*;
use vstd::string::*;

use crate::json::Json;
use crate::json;
use crate::outcome::{ErrCode, Outcome};
use crate::outcome;
use crate::rows;
use crate::service::DbStudioService;
use crate::service;
use crate::session;
use crate::sql;
use crate::step::{AfterReadRows, Field, IndexMeta, Rows, Step, Walk};
use crate::step;
use crate::text;

verus! {

/// Reads the names of the tables in order, without those that SQLite keeps for itself:
/// their names begin with `sqlite_`.
pub open spec fn names_sql() -> Seq<char> {
    "SELECT name FROM sqlite_master WHERE type='table' AND name NOT LIKE 'sqlite\\_%' ESCAPE '\\' ORDER BY name"@
}

/// The pragma `pragma` on a name. Pragmas bind no values, so the name is quoted.
pub open spec fn pragma_sql(pragma: Seq<char>, name: Seq<char>) -> Seq<char> {
    "PRAGMA "@ + pragma + "("@ + sql::quoted_ident(name) + ")"@
}

/// The texts among the items of a list.
pub open spec fn texts_among(items: Seq<json::JsonView>) -> Seq<Seq<char>>
    decreases items.len(),
{
    if items.len() == 0 {
        Seq::empty()
    } else {
        match items.last() {
            json::JsonView::Text(s) => texts_among(items.drop_last()).push(s),
            _ => texts_among(items.drop_last()),
        }
    }
}

/// The tables that a request asks for: all where it names no list.
pub open spec fn only_of(params: json::JsonView) -> Option<Seq<Seq<char>>> {
    match params.array_at("tables"@) {
        Some(items) => Some(texts_among(items)),
        None => None,
    }
}

/// The names that stand in `allow`, in their order.
pub open spec fn kept(names: Seq<Seq<char>>, allow: Seq<Seq<char>>) -> Seq<Seq<char>>
    decreases names.len(),
{
    if names.len() == 0 {
        names
    } else if allow.contains(names.last()) {
        kept(names.drop_last(), allow).push(names.last())
    } else {
        kept(names.drop_last(), allow)
    }
}

/// The names that a request asks for.
pub open spec fn retained(names: Seq<Seq<char>>, only: Option<Seq<Seq<char>>>) -> Seq<Seq<char>> {
    match only {
        Some(allow) => kept(names, allow),
        None => names,
    }
}

/// The first step of `db-introspect`.
pub open spec fn introspect_start(
    s: service::ServiceView,
    params: json::JsonView,
) -> (service::ServiceView, step::StepView) {
    match params.text_at("profile"@) {
        None => (s, step::failed(ErrCode::InvalidParams, "profile required"@)),
        Some(profile) => match s.conn_of(profile) {
            None => service::failed_on(
                s,
                profile,
                "db-introspect"@,
                ErrCode::Unavailable,
                service::not_connected(profile),
            ),
            Some(conn) => (
                s,
                step::StepView::ReadRows {
                    conn,
                    sql: names_sql(),
                    width: 1,
                    then: step::AfterReadRowsView::TableNames {
                        profile,
                        conn,
                        only: only_of(params),
                    },
                },
            ),
        },
    }
}

/// The end of a walk that failed.
pub open spec fn introspect_failed(
    s: service::ServiceView,
    profile: Seq<char>,
    error: Seq<char>,
) -> (service::ServiceView, step::StepView) {
    service::failed_on(
        s,
        profile,
        "db-introspect"@,
        ErrCode::Internal,
        "introspect failed: "@ + error,
    )
}

/// The way on to the next table: its columns are read, or, past the last table, the
/// catalog is told.
pub open spec fn next_table(
    s: service::ServiceView,
    profile: Seq<char>,
    conn: u64,
    names: Seq<Seq<char>>,
    tables: Seq<json::JsonView>,
) -> (service::ServiceView, step::StepView) {
    if names.len() == 0 {
        (
            s.audited(profile, "db-introspect"@, true, tables.len() as u64),
            step::StepView::Done {
                outcome: outcome::success(
                    json::JsonView::Object(seq![("tables"@, json::JsonView::Array(tables))]),
                ),
                close: None,
            },
        )
    } else {
        (
            s,
            step::StepView::ReadRows {
                conn,
                sql: pragma_sql("table_info"@, names[0]),
                width: 6,
                then: step::AfterReadRowsView::Columns {
                    walk: step::WalkView {
                        profile,
                        conn,
                        name: names[0],
                        rest: names.drop_first(),
                        tables,
                    },
                },
            },
        )
    }
}

/// What follows the reading of the tables' names.
pub open spec fn after_names(
    s: service::ServiceView,
    profile: Seq<char>,
    conn: u64,
    only: Option<Seq<Seq<char>>>,
    reply: step::RowsView,
) -> (service::ServiceView, step::StepView) {
    match rows::values_of(reply, |row: Seq<step::FieldView>| rows::text_field(row, 0)) {
        Err(e) => introspect_failed(s, profile, e),
        Ok(names) => next_table(s, profile, conn, retained(names, only), Seq::empty()),
    }
}

/// A column of a table, from a row of `PRAGMA table_info`: cid, name, type, notnull,
/// dflt_value, pk.
pub open spec fn column_of(row: Seq<step::FieldView>) -> Result<json::JsonView, Seq<char>> {
    match rows::text_field(row, 1) {
        Err(e) => Err(e),
        Ok(name) => Ok(
            json::JsonView::Object(
                seq![
                    ("name"@, json::JsonView::Text(name)),
                    ("type"@, json::JsonView::Text(rows::text_or_empty(row, 2))),
                    ("notnull"@, json::JsonView::Bool(rows::nonzero_field(row, 3))),
                    ("pk"@, json::JsonView::Bool(rows::nonzero_field(row, 5))),
                    ("default"@, json::optional_text(rows::optional_field(row, 4))),
                ],
            ),
        ),
    }
}

/// What follows the reading of a table's columns.
pub open spec fn after_columns(
    s: service::ServiceView,
    walk: step::WalkView,
    reply: step::RowsView,
) -> (service::ServiceView, step::StepView) {
    match rows::values_of(reply, |row: Seq<step::FieldView>| column_of(row)) {
        Err(e) => introspect_failed(s, walk.profile, e),
        Ok(columns) => (
            s,
            step::StepView::ReadRows {
                conn: walk.conn,
                sql: pragma_sql("foreign_key_list"@, walk.name),
                width: 7,
                then: step::AfterReadRowsView::ForeignKeys { walk, columns },
            },
        ),
    }
}

/// A foreign key of a table, from a row of `PRAGMA foreign_key_list`: id, seq, table,
/// from, to, on_update, on_delete.
pub open spec fn foreign_key_of(row: Seq<step::FieldView>) -> Result<json::JsonView, Seq<char>> {
    match (rows::text_field(row, 2), rows::text_field(row, 3)) {
        (Err(e), _) => Err(e),
        (Ok(_), Err(e)) => Err(e),
        (Ok(table), Ok(from)) => Ok(
            json::JsonView::Object(
                seq![
                    ("table"@, json::JsonView::Text(table)),
                    ("from"@, json::JsonView::Text(from)),
                    ("to"@, json::optional_text(rows::optional_field(row, 4))),
                    ("onUpdate"@, json::JsonView::Text(rows::text_or_empty(row, 5))),
                    ("onDelete"@, json::JsonView::Text(rows::text_or_empty(row, 6))),
                ],
            ),
        ),
    }
}

/// What follows the reading of a table's foreign keys.
pub open spec fn after_foreign_keys(
    s: service::ServiceView,
    walk: step::WalkView,
    columns: Seq<json::JsonView>,
    reply: step::RowsView,
) -> (service::ServiceView, step::StepView) {
    match rows::values_of(reply, |row: Seq<step::FieldView>| foreign_key_of(row)) {
        Err(e) => introspect_failed(s, walk.profile, e),
        Ok(foreign_keys) => (
            s,
            step::StepView::ReadRows {
                conn: walk.conn,
                sql: pragma_sql("index_list"@, walk.name),
                width: 3,
                then: step::AfterReadRowsView::Indexes { walk, columns, foreign_keys },
            },
        ),
    }
}

/// A table as the catalog tells of it.
pub open spec fn table_json(
    name: Seq<char>,
    columns: Seq<json::JsonView>,
    foreign_keys: Seq<json::JsonView>,
    indexes: Seq<json::JsonView>,
) -> json::JsonView {
    json::JsonView::Object(
        seq![
            ("name"@, json::JsonView::Text(name)),
            ("columns"@, json::JsonView::Array(columns)),
            ("foreignKeys"@, json::JsonView::Array(foreign_keys)),
            ("indexes"@, json::JsonView::Array(indexes)),
        ],
    )
}

/// The way on to the next index of a table: its columns are read, or, past the last
/// index, the table is done.
pub open spec fn next_index(
    s: service::ServiceView,
    walk: step::WalkView,
    columns: Seq<json::JsonView>,
    foreign_keys: Seq<json::JsonView>,
    metas: Seq<step::IndexMetaView>,
    indexes: Seq<json::JsonView>,
) -> (service::ServiceView, step::StepView) {
    if metas.len() == 0 {
        next_table(
            s,
            walk.profile,
            walk.conn,
            walk.rest,
            walk.tables.push(table_json(walk.name, columns, foreign_keys, indexes)),
        )
    } else {
        (
            s,
            step::StepView::ReadRows {
                conn: walk.conn,
                sql: pragma_sql("index_info"@, metas[0].name),
                width: 3,
                then: step::AfterReadRowsView::IndexColumns {
                    walk,
                    columns,
                    foreign_keys,
                    index: metas[0],
                    rest: metas.drop_first(),
                    indexes,
                },
            },
        )
    }
}

/// An index of a table, from a row of `PRAGMA index_list`: seq, name, unique.
pub open spec fn index_of(row: Seq<step::FieldView>) -> Result<step::IndexMetaView, Seq<char>> {
    match rows::text_field(row, 1) {
        Err(e) => Err(e),
        Ok(name) => Ok(step::IndexMetaView { name, unique: rows::nonzero_field(row, 2) }),
    }
}

/// What follows the reading of a table's indexes.
pub open spec fn after_indexes(
    s: service::ServiceView,
    walk: step::WalkView,
    columns: Seq<json::JsonView>,
    foreign_keys: Seq<json::JsonView>,
    reply: step::RowsView,
) -> (service::ServiceView, step::StepView) {
    match rows::values_of(reply, |row: Seq<step::FieldView>| index_of(row)) {
        Err(e) => introspect_failed(s, walk.profile, e),
        Ok(metas) => next_index(s, walk, columns, foreign_keys, metas, Seq::empty()),
    }
}

/// The names among the columns of an index; a column that is an expression has none.
pub open spec fn named(columns: Seq<Option<Seq<char>>>) -> Seq<Seq<char>>
    decreases columns.len(),
{
    if columns.len() == 0 {
        Seq::empty()
    } else {
        match columns.last() {
            Some(name) => named(columns.drop_last()).push(name),
            None => named(columns.drop_last()),
        }
    }
}

/// An index as the catalog tells of it.
pub open spec fn index_json(meta: step::IndexMetaView, columns: Seq<Seq<char>>) -> json::JsonView {
    json::JsonView::Object(
        seq![
            ("name"@, json::JsonView::Text(meta.name)),
            ("unique"@, json::JsonView::Bool(meta.unique)),
            ("columns"@, session::text_list(columns)),
        ],
    )
}

/// What follows the reading of an index's columns, from the rows of `PRAGMA index_info`:
/// seqno, cid, name.
pub open spec fn after_index_columns(
    s: service::ServiceView,
    walk: step::WalkView,
    columns: Seq<json::JsonView>,
    foreign_keys: Seq<json::JsonView>,
    index: step::IndexMetaView,
    rest: Seq<step::IndexMetaView>,
    indexes: Seq<json::JsonView>,
    reply: step::RowsView,
) -> (service::ServiceView, step::StepView) {
    match rows::values_of(reply, |row: Seq<step::FieldView>| rows::nullable_field(row, 2)) {
        Err(e) => introspect_failed(s, walk.profile, e),
        Ok(names) => next_index(
            s,
            walk,
            columns,
            foreign_keys,
            rest,
            indexes.push(index_json(index, named(names))),
        ),
    }
}

/// The column of an index; one that is an expression has no name.
#[derive(Debug)]
struct IndexColumn {
    name: Option<String>,
}

impl View for IndexColumn {
    type V = Option<Seq<char>>;

    closed spec fn view(&self) -> Option<Seq<char>> {
        text::opt_text(self.name)
    }
}

fn pragma(name: &str, of: &str) -> (r: String)
    ensures
        r@ == pragma_sql(name@, of@),
{
    let mut out = text::joined("PRAGMA ", name);
    out.append("(");
    let quoted = sql::quote_ident(of);
    out.append(quoted.as_str());
    out.append(")");
    out
}

fn strings_among(items: &Vec<Json>) -> (r: Vec<String>)
    ensures
        text::texts(r@) == texts_among(json::items_view(items@)),
{
    let ghost views = json::items_view(items@);
    let mut out: Vec<String> = Vec::new();
    let mut i: usize = 0;
    assert(views.take(0) =~= Seq::empty());
    assert(text::texts(out@) =~= Seq::empty());
    while i < items.len()
        invariant
            i <= items.len(),
            views == json::items_view(items@),
            text::texts(out@) == texts_among(views.take(i as int)),
        decreases items.len() - i,
    {
        assert(views.take(i + 1).drop_last() =~= views.take(i as int));
        assert(views.take(i + 1).last() == items@[i as int]@);
        let ghost before = out@;
        match &items[i] {
            Json::Text(s) => {
                out.push(s.clone());
                assert(text::texts(out@) =~= text::texts(before).push(s@));
            },
            _ => {},
        }
        i += 1;
    }
    assert(views.take(i as int) =~= views);
    out
}

fn is_among(names: &Vec<String>, name: &str) -> (r: bool)
    ensures
        r == text::texts(names@).contains(name@),
{
    let mut i: usize = 0;
    while i < names.len()
        invariant
            i <= names.len(),
            forall|k: int| 0 <= k < i ==> text::texts(names@)[k] != name@,
        decreases names.len() - i,
    {
        assert(text::texts(names@)[i as int] == names@[i as int]@);
        if text::same(names[i].as_str(), name) {
            return true;
        }
        i += 1;
    }
    false
}

fn keep(names: Vec<String>, allow: &Vec<String>) -> (r: Vec<String>)
    ensures
        text::texts(r@) == kept(text::texts(names@), text::texts(allow@)),
{
    let ghost views = text::texts(names@);
    let mut out: Vec<String> = Vec::new();
    let mut i: usize = 0;
    assert(views.take(0) =~= Seq::empty());
    assert(text::texts(out@) =~= Seq::empty());
    while i < names.len()
        invariant
            i <= names.len(),
            views == text::texts(names@),
            text::texts(out@) == kept(views.take(i as int), text::texts(allow@)),
        decreases names.len() - i,
    {
        assert(views.take(i + 1).drop_last() =~= views.take(i as int));
        assert(views.take(i + 1).last() == names@[i as int]@);
        if is_among(allow, names[i].as_str()) {
            let ghost before = out@;
            out.push(names[i].clone());
            assert(text::texts(out@) =~= text::texts(before).push(names@[i as int]@));
        }
        i += 1;
    }
    assert(views.take(i as int) =~= views);
    out
}

fn names_of(columns: Vec<IndexColumn>) -> (r: Vec<String>)
    ensures
        text::texts(r@) == named(columns@.map_values(|c: IndexColumn| c@)),
{
    let ghost views = columns@.map_values(|c: IndexColumn| c@);
    let mut out: Vec<String> = Vec::new();
    let mut i: usize = 0;
    assert(views.take(0) =~= Seq::empty());
    assert(text::texts(out@) =~= Seq::empty());
    while i < columns.len()
        invariant
            i <= columns.len(),
            views == columns@.map_values(|c: IndexColumn| c@),
            text::texts(out@) == named(views.take(i as int)),
        decreases columns.len() - i,
    {
        assert(views.take(i + 1).drop_last() =~= views.take(i as int));
        assert(views.take(i + 1).last() == columns@[i as int]@);
        let ghost before = out@;
        match &columns[i].name {
            Some(s) => {
                out.push(s.clone());
                assert(text::texts(out@) =~= text::texts(before).push(s@));
            },
            None => {},
        }
        i += 1;
    }
    assert(views.take(i as int) =~= views);
    out
}

fn optional_json(s: Option<String>) -> (r: Json)
    ensures
        r@ == json::optional_text(text::opt_text(s)),
{
    match s {
        Some(s) => Json::Text(s),
        None => Json::Null,
    }
}

fn first_text(row: &Vec<Field>) -> (r: Result<String, String>)
    ensures
        rows::value_view(r) == rows::text_field(step::row_view(row@), 0),
{
    rows::text_at(row, 0)
}

fn read_column(row: &Vec<Field>) -> (r: Result<Json, String>)
    ensures
        rows::value_view(r) == column_of(step::row_view(row@)),
{
    broadcast use json::lemma_object_view;

    let name = match rows::text_at(row, 1) {
        Ok(s) => s,
        Err(e) => return Err(e),
    };
    let mut o: Vec<(String, Json)> = Vec::new();
    json::put(&mut o, "name", Json::Text(name));
    json::put(&mut o, "type", Json::Text(rows::text_or_empty_at(row, 2)));
    json::put(&mut o, "notnull", Json::Bool(rows::nonzero_at(row, 3)));
    json::put(&mut o, "pk", Json::Bool(rows::nonzero_at(row, 5)));
    json::put(&mut o, "default", optional_json(rows::optional_at(row, 4)));
    assert(json::entries_view(o@) =~= column_of(step::row_view(row@))->Ok_0->Object_0);
    Ok(Json::Object(o))
}

fn read_foreign_key(row: &Vec<Field>) -> (r: Result<Json, String>)
    ensures
        rows::value_view(r) == foreign_key_of(step::row_view(row@)),
{
    broadcast use json::lemma_object_view;

    let table = match rows::text_at(row, 2) {
        Ok(s) => s,
        Err(e) => return Err(e),
    };
    let from = match rows::text_at(row, 3) {
        Ok(s) => s,
        Err(e) => return Err(e),
    };
    let mut o: Vec<(String, Json)> = Vec::new();
    json::put(&mut o, "table", Json::Text(table));
    json::put(&mut o, "from", Json::Text(from));
    json::put(&mut o, "to", optional_json(rows::optional_at(row, 4)));
    json::put(&mut o, "onUpdate", Json::Text(rows::text_or_empty_at(row, 5)));
    json::put(&mut o, "onDelete", Json::Text(rows::text_or_empty_at(row, 6)));
    assert(json::entries_view(o@) =~= foreign_key_of(step::row_view(row@))->Ok_0->Object_0);
    Ok(Json::Object(o))
}

fn read_index(row: &Vec<Field>) -> (r: Result<IndexMeta, String>)
    ensures
        rows::value_view(r) == index_of(step::row_view(row@)),
{
    match rows::text_at(row, 1) {
        Ok(name) => Ok(IndexMeta { name, unique: rows::nonzero_at(row, 2) }),
        Err(e) => Err(e),
    }
}

fn read_index_column(row: &Vec<Field>) -> (r: Result<IndexColumn, String>)
    ensures
        rows::value_view(r) == rows::nullable_field(step::row_view(row@), 2),
{
    match rows::nullable_at(row, 2) {
        Ok(name) => Ok(IndexColumn { name }),
        Err(e) => Err(e),
    }
}

fn tell_index(meta: IndexMeta, columns: Vec<String>) -> (r: Json)
    ensures
        r@ == index_json(meta@, text::texts(columns@)),
{
    broadcast use json::lemma_object_view;

    let mut o: Vec<(String, Json)> = Vec::new();
    json::put(&mut o, "name", Json::Text(meta.name));
    json::put(&mut o, "unique", Json::Bool(meta.unique));
    json::put(&mut o, "columns", session::string_list(columns));
    assert(json::entries_view(o@) =~= index_json(meta@, text::texts(columns@))->Object_0);
    Json::Object(o)
}

fn tell_table(
    name: String,
    columns: Vec<Json>,
    foreign_keys: Vec<Json>,
    indexes: Vec<Json>,
) -> (r: Json)
    ensures
        r@ == table_json(
            name@,
            json::items_view(columns@),
            json::items_view(foreign_keys@),
            json::items_view(indexes@),
        ),
{
    broadcast use {json::lemma_object_view, json::lemma_array_view};

    let ghost told = table_json(
        name@,
        json::items_view(columns@),
        json::items_view(foreign_keys@),
        json::items_view(indexes@),
    );
    let mut o: Vec<(String, Json)> = Vec::new();
    json::put(&mut o, "name", Json::Text(name));
    json::put(&mut o, "columns", Json::Array(columns));
    json::put(&mut o, "foreignKeys", Json::Array(foreign_keys));
    json::put(&mut o, "indexes", Json::Array(indexes));
    assert(json::entries_view(o@) =~= told->Object_0);
    Json::Object(o)
}

impl DbStudioService {
    /// `db-introspect`: the catalog of a held database.
    pub fn db_introspect(&mut self, params: &Json) -> (r: Step)
        requires
            old(self).wf(),
        ensures
            final(self).wf(),
            (final(self)@, r@) == introspect_start(old(self)@, params@),
    {
        broadcast use {json::lemma_object_view, json::lemma_array_view};

        let profile = match params.text_at("profile") {
            Some(p) => p,
            None => return step::fail_with(ErrCode::InvalidParams, "profile required"),
        };
        let only: Option<Vec<String>> = match params.get("tables") {
            Some(Json::Array(items)) => Some(strings_among(items)),
            _ => None,
        };
        match self.conn_of(profile.as_str()) {
            None => {
                let message = text::joined("profile not connected: ", profile.as_str());
                self.fail_on(profile.as_str(), "db-introspect", ErrCode::Unavailable, message)
            },
            Some(conn) => Step::ReadRows {
                conn,
                sql: "SELECT name FROM sqlite_master WHERE type='table' AND name NOT LIKE 'sqlite\\_%' ESCAPE '\\' ORDER BY name".to_owned(),
                width: 1,
                then: AfterReadRows::TableNames { profile, conn, only },
            },
        }
    }

    fn fail_walk(&mut self, profile: &str, error: String) -> (r: Step)
        requires
            old(self).wf(),
        ensures
            final(self).wf(),
            (final(self)@, r@) == introspect_failed(old(self)@, profile@, error@),
    {
        self.fail_on(
            profile,
            "db-introspect",
            ErrCode::Internal,
            text::joined("introspect failed: ", error.as_str()),
        )
    }

    fn walk_on(
        &mut self,
        profile: String,
        conn: u64,
        names: Vec<String>,
        tables: Vec<Json>,
    ) -> (r: Step)
        requires
            old(self).wf(),
        ensures
            final(self).wf(),
            (final(self)@, r@) == next_table(
                old(self)@,
                profile@,
                conn,
                text::texts(names@),
                json::items_view(tables@),
            ),
    {
        broadcast use {json::lemma_object_view, json::lemma_array_view};

        if names.len() == 0 {
            self.audit_append(profile.as_str(), "db-introspect", true, tables.len() as u64);
            let ghost views = json::items_view(tables@);
            let mut o: Vec<(String, Json)> = Vec::new();
            json::put(&mut o, "tables", Json::Array(tables));
            assert(json::entries_view(o@) =~= seq![("tables"@, json::JsonView::Array(views))]);
            Step::Done { outcome: Outcome::ok(Json::Object(o)), close: None }
        } else {
            let ghost all = text::texts(names@);
            let mut rest = names;
            let name = rest.remove(0);
            assert(name@ == all[0]);
            assert(text::texts(rest@) =~= all.drop_first());
            Step::ReadRows {
                conn,
                sql: pragma("table_info", name.as_str()),
                width: 6,
                then: AfterReadRows::Columns { walk: Walk { profile, conn, name, rest, tables } },
            }
        }
    }

    /// Goes on once the names of the tables were read.
    pub fn after_names(
        &mut self,
        profile: String,
        conn: u64,
        only: Option<Vec<String>>,
        reply: Rows,
    ) -> (r: Step)
        requires
            old(self).wf(),
        ensures
            final(self).wf(),
            (final(self)@, r@) == after_names(
                old(self)@,
                profile@,
                conn,
                step::opt_texts(only),
                reply@,
            ),
    {
        match rows::read_all(
            reply,
            first_text,
            Ghost(|row: Seq<step::FieldView>| rows::text_field(row, 0)),
        ) {
            Err(e) => self.fail_walk(profile.as_str(), e),
            Ok(names) => {
                assert(text::texts(names@) =~= names@.map_values(|s: String| s@));
                let names = match only {
                    Some(allow) => keep(names, &allow),
                    None => names,
                };
                let tables: Vec<Json> = Vec::new();
                assert(json::items_view(tables@) =~= Seq::empty());
                self.walk_on(profile, conn, names, tables)
            },
        }
    }

    /// Goes on once the columns of a table were read.
    pub fn after_columns(&mut self, walk: Walk, reply: Rows) -> (r: Step)
        requires
            old(self).wf(),
        ensures
            final(self).wf(),
            (final(self)@, r@) == after_columns(old(self)@, walk@, reply@),
    {
        match rows::read_all(
            reply,
            read_column,
            Ghost(|row: Seq<step::FieldView>| column_of(row)),
        ) {
            Err(e) => self.fail_walk(walk.profile.as_str(), e),
            Ok(columns) => Step::ReadRows {
                conn: walk.conn,
                sql: pragma("foreign_key_list", walk.name.as_str()),
                width: 7,
                then: AfterReadRows::ForeignKeys { walk, columns },
            },
        }
    }

    /// Goes on once the foreign keys of a table were read.
    pub fn after_foreign_keys(&mut self, walk: Walk, columns: Vec<Json>, reply: Rows) -> (r: Step)
        requires
            old(self).wf(),
        ensures
            final(self).wf(),
            (final(self)@, r@) == after_foreign_keys(
                old(self)@,
                walk@,
                json::items_view(columns@),
                reply@,
            ),
    {
        match rows::read_all(
            reply,
            read_foreign_key,
            Ghost(|row: Seq<step::FieldView>| foreign_key_of(row)),
        ) {
            Err(e) => self.fail_walk(walk.profile.as_str(), e),
            Ok(foreign_keys) => Step::ReadRows {
                conn: walk.conn,
                sql: pragma("index_list", walk.name.as_str()),
                width: 3,
                then: AfterReadRows::Indexes { walk, columns, foreign_keys },
            },
        }
    }

    fn index_on(
        &mut self,
        walk: Walk,
        columns: Vec<Json>,
        foreign_keys: Vec<Json>,
        metas: Vec<IndexMeta>,
        indexes: Vec<Json>,
    ) -> (r: Step)
        requires
            old(self).wf(),
        ensures
            final(self).wf(),
            (final(self)@, r@) == next_index(
                old(self)@,
                walk@,
                json::items_view(columns@),
                json::items_view(foreign_keys@),
                step::metas_view(metas@),
                json::items_view(indexes@),
            ),
    {
        if metas.len() == 0 {
            let Walk { profile, conn, name, rest, tables } = walk;
            let ghost before = tables@;
            let table = tell_table(name, columns, foreign_keys, indexes);
            let mut tables = tables;
            tables.push(table);
            assert(json::items_view(tables@) =~= json::items_view(before).push(table@));
            self.walk_on(profile, conn, rest, tables)
        } else {
            let ghost all = step::metas_view(metas@);
            let mut rest = metas;
            let index = rest.remove(0);
            assert(index@ == all[0]);
            assert(step::metas_view(rest@) =~= all.drop_first());
            Step::ReadRows {
                conn: walk.conn,
                sql: pragma("index_info", index.name.as_str()),
                width: 3,
                then: AfterReadRows::IndexColumns {
                    walk,
                    columns,
                    foreign_keys,
                    index,
                    rest,
                    indexes,
                },
            }
        }
    }

    /// Goes on once the indexes of a table were read.
    pub fn after_indexes(
        &mut self,
        walk: Walk,
        columns: Vec<Json>,
        foreign_keys: Vec<Json>,
        reply: Rows,
    ) -> (r: Step)
        requires
            old(self).wf(),
        ensures
            final(self).wf(),
            (final(self)@, r@) == after_indexes(
                old(self)@,
                walk@,
                json::items_view(columns@),
                json::items_view(foreign_keys@),
                reply@,
            ),
    {
        match rows::read_all(
            reply,
            read_index,
            Ghost(|row: Seq<step::FieldView>| index_of(row)),
        ) {
            Err(e) => self.fail_walk(walk.profile.as_str(), e),
            Ok(metas) => {
                let indexes: Vec<Json> = Vec::new();
                assert(json::items_view(indexes@) =~= Seq::empty());
                self.index_on(walk, columns, foreign_keys, metas, indexes)
            },
        }
    }

    /// Goes on once the columns of an index were read.
    pub fn after_index_columns(
        &mut self,
        walk: Walk,
        columns: Vec<Json>,
        foreign_keys: Vec<Json>,
        index: IndexMeta,
        rest: Vec<IndexMeta>,
        indexes: Vec<Json>,
        reply: Rows,
    ) -> (r: Step)
        requires
            old(self).wf(),
        ensures
            final(self).wf(),
            (final(self)@, r@) == after_index_columns(
                old(self)@,
                walk@,
                json::items_view(columns@),
                json::items_view(foreign_keys@),
                index@,
                step::metas_view(rest@),
                json::items_view(indexes@),
                reply@,
            ),
    {
        match rows::read_all(
            reply,
            read_index_column,
            Ghost(|row: Seq<step::FieldView>| rows::nullable_field(row, 2)),
        ) {
            Err(e) => self.fail_walk(walk.profile.as_str(), e),
            Ok(found) => {
                let ghost before = indexes@;
                let told = tell_index(index, names_of(found));
                let mut indexes = indexes;
                indexes.push(told);
                assert(json::items_view(indexes@) =~= json::items_view(before).push(told@));
                self.index_on(walk, columns, foreign_keys, rest, indexes)
            },
        }
    }
}

} // verus!
