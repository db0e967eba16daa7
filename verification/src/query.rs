//! Queries and changes: `query-run` and `db-exec`.
use vstd::prelude::*;
use vstd::string::*;

use crate::json::{Json, Number};
use crate::json;
use crate::mask;
use crate::outcome::{ErrCode, Outcome};
use crate::outcome;
use crate::service::DbStudioService;
use crate::service;
use crate::session;
use crate::sql;
use crate::step::{AfterExecute, AfterPrepare, Reading, Step};
use crate::step;
use crate::text;
use crate::value::{Cell, SqlValue};
use crate::value;

verus! {

/// How many rows a query gives where the request sets no limit.
pub const DEFAULT_ROW_LIMIT: u64 = 1000;

/// The limit that a request sets on the rows of its query.
pub open spec fn row_limit_of(params: json::JsonView) -> u64 {
    match params.unsigned_at("rowLimit"@) {
        Some(n) => n,
        None => DEFAULT_ROW_LIMIT,
    }
}

/// The values that a request binds: none where it names none, and no answer where what
/// it names is not a list.
pub open spec fn bind_of(params: json::JsonView) -> Option<Seq<value::SqlValueView>> {
    match params.get("params"@) {
        Some(json::JsonView::Array(items)) => Some(value::sql_values_of(items)),
        Some(json::JsonView::Null) | None => Some(Seq::empty()),
        Some(_) => None,
    }
}

/// Why a request cannot be run as a query, if it cannot.
pub open spec fn query_fault(params: json::JsonView) -> Option<Seq<char>> {
    if params.text_at("profile"@) is None {
        Some("profile required"@)
    } else if params.text_at("sql"@) is None {
        Some("sql required"@)
    } else if sql::multiple_statements(params.text_at("sql"@)->0) {
        Some("single statement required (multiple statements rejected)"@)
    } else if bind_of(params) is None {
        Some("params must be an array"@)
    } else {
        None
    }
}

/// Whether a request insists on changing every row.
pub open spec fn forced(params: json::JsonView) -> bool {
    params.bool_at("force"@) == Some(true)
}

/// Why a request cannot be run as a change, if it cannot.
pub open spec fn exec_fault(params: json::JsonView) -> Option<Seq<char>> {
    if params.text_at("profile"@) is None {
        Some("profile required"@)
    } else if params.text_at("sql"@) is None {
        Some("sql required"@)
    } else if sql::multiple_statements(params.text_at("sql"@)->0) {
        Some("single statement required (multiple statements rejected)"@)
    } else if !forced(params) && sql::where_less_mutation(params.text_at("sql"@)->0) {
        Some("WHERE-less UPDATE/DELETE refused (pass force:true to mutate every row)"@)
    } else if bind_of(params) is None {
        Some("params must be an array"@)
    } else {
        None
    }
}

/// The first step of `query-run`.
pub open spec fn query_start(
    s: service::ServiceView,
    params: json::JsonView,
) -> (service::ServiceView, step::StepView) {
    match query_fault(params) {
        Some(message) => (s, step::failed(ErrCode::InvalidParams, message)),
        None => {
            let profile = params.text_at("profile"@)->0;
            match s.conn_of(profile) {
                None => service::failed_on(
                    s,
                    profile,
                    "query-run"@,
                    ErrCode::Unavailable,
                    service::not_connected(profile),
                ),
                Some(conn) => (
                    s,
                    step::StepView::Prepare {
                        conn,
                        sql: params.text_at("sql"@)->0,
                        then: step::AfterPrepareView {
                            profile,
                            select: sql::selects(params.text_at("sql"@)->0),
                            row_limit: row_limit_of(params),
                            bind: bind_of(params)->0,
                        },
                    },
                ),
            }
        },
    }
}

/// What follows the preparation of a query: it is started where it is a SELECT and the
/// database takes it for read-only, and refused otherwise.
pub open spec fn after_prepare(
    s: service::ServiceView,
    then: step::AfterPrepareView,
    reply: Result<(Seq<Seq<char>>, bool), Seq<char>>,
) -> (service::ServiceView, step::StepView) {
    match reply {
        Err(e) => service::failed_on(
            s,
            then.profile,
            "query-run"@,
            ErrCode::InvalidParams,
            "prepare failed: "@ + e,
        ),
        Ok((names, read_only)) => if then.select && read_only {
            (
                s,
                step::StepView::Query {
                    bind: then.bind,
                    then: step::ReadingView {
                        profile: then.profile,
                        names,
                        row_limit: then.row_limit,
                        rows: Seq::empty(),
                    },
                },
            )
        } else {
            service::failed_on(
                s,
                then.profile,
                "query-run"@,
                ErrCode::InvalidParams,
                "read-only SELECT required (other statements rejected)"@,
            )
        },
    }
}

/// What follows the start of a query.
pub open spec fn after_query(
    s: service::ServiceView,
    then: step::ReadingView,
    reply: Result<(), Seq<char>>,
) -> (service::ServiceView, step::StepView) {
    match reply {
        Err(e) => service::failed_on(
            s,
            then.profile,
            "query-run"@,
            ErrCode::Internal,
            "query failed: "@ + e,
        ),
        Ok(_) => (s, step::StepView::NextRow { then }),
    }
}

/// The columns of a query as an answer names them.
pub open spec fn columns_json(names: Seq<Seq<char>>) -> json::JsonView {
    json::JsonView::Array(
        names.map_values(
            |n: Seq<char>| json::JsonView::Object(seq![("name"@, json::JsonView::Text(n))]),
        ),
    )
}

/// The answer of a query.
pub open spec fn query_json(read: step::ReadingView, truncated: bool) -> json::JsonView {
    json::JsonView::Object(
        seq![
            ("columns"@, columns_json(read.names)),
            ("rows"@, json::JsonView::Array(read.rows)),
            (
                "rowCount"@,
                json::JsonView::Number(json::NumberView::Unsigned(read.rows.len() as u64)),
            ),
            ("truncated"@, json::JsonView::Bool(truncated)),
        ],
    )
}

/// The end of a query that was read.
pub open spec fn query_end(
    s: service::ServiceView,
    read: step::ReadingView,
    truncated: bool,
) -> (service::ServiceView, step::StepView) {
    (
        s.audited(read.profile, "query-run"@, true, read.rows.len() as u64),
        step::StepView::Done {
            outcome: outcome::success(query_json(read, truncated)),
            close: None,
        },
    )
}

/// What follows the move to the next row. A row past the limit shows that the answer is
/// cut off; it is not read.
pub open spec fn after_next_row(
    s: service::ServiceView,
    then: step::ReadingView,
    reply: Result<bool, Seq<char>>,
) -> (service::ServiceView, step::StepView) {
    match reply {
        Err(e) => service::failed_on(
            s,
            then.profile,
            "query-run"@,
            ErrCode::Internal,
            "row read failed: "@ + e,
        ),
        Ok(false) => query_end(s, then, false),
        Ok(true) => if then.rows.len() >= then.row_limit {
            query_end(s, then, true)
        } else {
            (s, step::StepView::ReadCells { wanted: step::wanted_columns(then.names), then })
        },
    }
}

/// What follows the reading of a row's cells.
pub open spec fn after_read_cells(
    then: step::ReadingView,
    cells: Seq<Option<value::CellView>>,
) -> step::StepView {
    step::StepView::NextRow {
        then: step::ReadingView {
            rows: then.rows.push(mask::masked_row(then.names, cells)),
            ..then
        },
    }
}

/// The first step of `db-exec`.
pub open spec fn exec_start(
    s: service::ServiceView,
    params: json::JsonView,
) -> (service::ServiceView, step::StepView) {
    match exec_fault(params) {
        Some(message) => (s, step::failed(ErrCode::InvalidParams, message)),
        None => {
            let profile = params.text_at("profile"@)->0;
            match s.conn_of(profile) {
                None => service::failed_on(
                    s,
                    profile,
                    "db-exec"@,
                    ErrCode::Unavailable,
                    service::not_connected(profile),
                ),
                Some(conn) => (
                    s,
                    step::StepView::Execute {
                        conn,
                        sql: params.text_at("sql"@)->0,
                        bind: bind_of(params)->0,
                        then: step::AfterExecuteView::Exec { profile },
                    },
                ),
            }
        },
    }
}

/// What follows a change: how many rows it touched, or the error.
pub open spec fn after_exec(
    s: service::ServiceView,
    profile: Seq<char>,
    reply: Result<u64, Seq<char>>,
) -> (service::ServiceView, step::StepView) {
    match reply {
        Err(e) => service::failed_on(
            s,
            profile,
            "db-exec"@,
            ErrCode::Internal,
            "exec failed: "@ + e,
        ),
        Ok(n) => (
            s.audited(profile, "db-exec"@, true, n),
            step::StepView::Done {
                outcome: outcome::success(
                    json::JsonView::Object(
                        seq![
                            (
                                "rowsAffected"@,
                                json::JsonView::Number(json::NumberView::Unsigned(n)),
                            ),
                        ],
                    ),
                ),
                close: None,
            },
        ),
    }
}

/// The values that a request binds.
fn bind_params(params: &Json) -> (r: Option<Vec<SqlValue>>)
    ensures
        r is Some == bind_of(params@) is Some,
        r is Some ==> value::bind_view(r->0@) == bind_of(params@)->0,
{
    broadcast use {json::lemma_array_view, json::lemma_object_view};

    match params.get("params") {
        Some(Json::Array(items)) => Some(value::json_to_sql_values(items)),
        Some(Json::Null) | None => {
            let none: Vec<SqlValue> = Vec::new();
            assert(value::bind_view(none@) =~= Seq::empty());
            Some(none)
        },
        Some(_) => None,
    }
}

/// The columns of a query as an answer names them.
fn column_list(names: &Vec<String>) -> (r: Json)
    ensures
        r@ == columns_json(text::texts(names@)),
{
    broadcast use json::lemma_array_view;

    let mut out: Vec<Json> = Vec::new();
    let mut i: usize = 0;
    while i < names.len()
        invariant
            i <= names.len(),
            out@.len() == i,
            forall|k: int|
                0 <= k < i ==> (#[trigger] out@[k])@ == json::JsonView::Object(
                    seq![("name"@, json::JsonView::Text(names@[k]@))],
                ),
        decreases names.len() - i,
    {
        let mut o: Vec<(String, Json)> = Vec::new();
        json::put(&mut o, "name", Json::Text(names[i].clone()));
        assert(json::entries_view(o@) =~= seq![("name"@, json::JsonView::Text(names@[i as int]@))]);
        proof {
            json::lemma_object_view(o);
        }
        out.push(Json::Object(o));
        i += 1;
    }
    assert(json::items_view(out@) =~= columns_json(text::texts(names@))->Array_0);
    Json::Array(out)
}

impl DbStudioService {
    /// `query-run`: runs a single read-only SELECT on a held database. More than one
    /// statement is refused, and so is one that is no SELECT or not read-only; the rows
    /// are limited, and sensitive columns are masked.
    pub fn query_run(&mut self, params: &Json) -> (r: Step)
        requires
            old(self).wf(),
        ensures
            final(self).wf(),
            (final(self)@, r@) == query_start(old(self)@, params@),
    {
        let profile = match params.text_at("profile") {
            Some(p) => p,
            None => return step::fail_with(ErrCode::InvalidParams, "profile required"),
        };
        let sql = match params.text_at("sql") {
            Some(s) => s,
            None => return step::fail_with(ErrCode::InvalidParams, "sql required"),
        };
        if sql::has_multiple_statements(sql.as_str()) {
            return step::fail_with(
                ErrCode::InvalidParams,
                "single statement required (multiple statements rejected)",
            );
        }
        let row_limit: u64 = match params.unsigned_at("rowLimit") {
            Some(n) => n,
            None => DEFAULT_ROW_LIMIT,
        };
        let bind = match bind_params(params) {
            Some(b) => b,
            None => return step::fail_with(ErrCode::InvalidParams, "params must be an array"),
        };
        match self.conn_of(profile.as_str()) {
            None => {
                let message = text::joined("profile not connected: ", profile.as_str());
                self.fail_on(profile.as_str(), "query-run", ErrCode::Unavailable, message)
            },
            Some(conn) => {
                let select = sql::is_select(sql.as_str());
                Step::Prepare { conn, sql, then: AfterPrepare { profile, select, row_limit, bind } }
            },
        }
    }

    /// Goes on once a query was prepared.
    pub fn after_prepare(
        &mut self,
        then: AfterPrepare,
        reply: Result<(Vec<String>, bool), String>,
    ) -> (r: Step)
        requires
            old(self).wf(),
        ensures
            final(self).wf(),
            (final(self)@, r@) == after_prepare(old(self)@, then@, step::prepared_view(reply)),
    {
        match reply {
            Err(e) => self.fail_on(
                then.profile.as_str(),
                "query-run",
                ErrCode::InvalidParams,
                text::joined("prepare failed: ", e.as_str()),
            ),
            Ok((names, read_only)) => if then.select && read_only {
                Step::Query {
                    bind: then.bind,
                    then: Reading::begin(then.profile, names, then.row_limit),
                }
            } else {
                self.fail_on(
                    then.profile.as_str(),
                    "query-run",
                    ErrCode::InvalidParams,
                    "read-only SELECT required (other statements rejected)".to_owned(),
                )
            },
        }
    }

    /// Goes on once a query was started.
    pub fn after_query(&mut self, then: Reading, reply: Result<(), String>) -> (r: Step)
        requires
            old(self).wf(),
        ensures
            final(self).wf(),
            (final(self)@, r@) == after_query(old(self)@, then@, step::reply_view(reply)),
    {
        match reply {
            Err(e) => {
                let profile = then.into_profile();
                self.fail_on(
                    profile.as_str(),
                    "query-run",
                    ErrCode::Internal,
                    text::joined("query failed: ", e.as_str()),
                )
            },
            Ok(_) => Step::NextRow { then },
        }
    }

    fn end_query(&mut self, read: Reading, truncated: bool) -> (r: Step)
        requires
            old(self).wf(),
        ensures
            final(self).wf(),
            (final(self)@, r@) == query_end(old(self)@, read@, truncated),
    {
        broadcast use {json::lemma_array_view, json::lemma_object_view};

        let (profile, names, rows) = read.finish();
        let n = rows.len();
        assert(n == read@.rows.len()) by {
            assert(json::items_view(rows@).len() == n);
        }
        self.audit_append(profile.as_str(), "query-run", true, n as u64);
        let mut o: Vec<(String, Json)> = Vec::new();
        json::put(&mut o, "columns", column_list(&names));
        json::put(&mut o, "rows", Json::Array(rows));
        json::put(&mut o, "rowCount", session::count(n));
        json::put(&mut o, "truncated", Json::Bool(truncated));
        assert(json::entries_view(o@) =~= query_json(read@, truncated)->Object_0);
        Step::Done { outcome: Outcome::ok(Json::Object(o)), close: None }
    }

    /// Goes on once the next row was looked for.
    pub fn after_next_row(&mut self, then: Reading, reply: Result<bool, String>) -> (r: Step)
        requires
            old(self).wf(),
        ensures
            final(self).wf(),
            (final(self)@, r@) == after_next_row(old(self)@, then@, step::reply_view(reply)),
    {
        match reply {
            Err(e) => {
                let profile = then.into_profile();
                self.fail_on(
                    profile.as_str(),
                    "query-run",
                    ErrCode::Internal,
                    text::joined("row read failed: ", e.as_str()),
                )
            },
            Ok(more) => if !more {
                self.end_query(then, false)
            } else if then.is_full() {
                self.end_query(then, true)
            } else {
                let wanted = then.wanted();
                Step::ReadCells { wanted, then }
            },
        }
    }

    /// Goes on once the cells of a row were read.
    pub fn after_read_cells(&self, then: Reading, cells: &Vec<Option<Cell>>) -> (r: Step)
        ensures
            r@ == after_read_cells(then@, mask::cells_view(cells@)),
    {
        Step::NextRow { then: then.with_row(cells) }
    }

    /// `db-exec`: runs one statement that changes a held database. More than one
    /// statement is refused, and so is an UPDATE or DELETE without a WHERE unless it is
    /// forced.
    pub fn db_exec(&mut self, params: &Json) -> (r: Step)
        requires
            old(self).wf(),
        ensures
            final(self).wf(),
            (final(self)@, r@) == exec_start(old(self)@, params@),
    {
        let profile = match params.text_at("profile") {
            Some(p) => p,
            None => return step::fail_with(ErrCode::InvalidParams, "profile required"),
        };
        let sql = match params.text_at("sql") {
            Some(s) => s,
            None => return step::fail_with(ErrCode::InvalidParams, "sql required"),
        };
        if sql::has_multiple_statements(sql.as_str()) {
            return step::fail_with(
                ErrCode::InvalidParams,
                "single statement required (multiple statements rejected)",
            );
        }
        let force: bool = match params.bool_at("force") {
            Some(b) => b,
            None => false,
        };
        if !force && sql::is_where_less_mutation(sql.as_str()) {
            return step::fail_with(
                ErrCode::InvalidParams,
                "WHERE-less UPDATE/DELETE refused (pass force:true to mutate every row)",
            );
        }
        let bind = match bind_params(params) {
            Some(b) => b,
            None => return step::fail_with(ErrCode::InvalidParams, "params must be an array"),
        };
        match self.conn_of(profile.as_str()) {
            None => {
                let message = text::joined("profile not connected: ", profile.as_str());
                self.fail_on(profile.as_str(), "db-exec", ErrCode::Unavailable, message)
            },
            Some(conn) => Step::Execute { conn, sql, bind, then: AfterExecute::Exec { profile } },
        }
    }

    /// Goes on once a change was made.
    pub fn after_exec(&mut self, profile: String, reply: Result<u64, String>) -> (r: Step)
        requires
            old(self).wf(),
        ensures
            final(self).wf(),
            (final(self)@, r@) == after_exec(old(self)@, profile@, step::reply_view(reply)),
    {
        broadcast use json::lemma_object_view;

        match reply {
            Err(e) => self.fail_on(
                profile.as_str(),
                "db-exec",
                ErrCode::Internal,
                text::joined("exec failed: ", e.as_str()),
            ),
            Ok(n) => {
                self.audit_append(profile.as_str(), "db-exec", true, n);
                let mut o: Vec<(String, Json)> = Vec::new();
                json::put(&mut o, "rowsAffected", Json::Number(Number::Unsigned(n)));
                assert(json::entries_view(o@) =~= seq![
                    ("rowsAffected"@, json::JsonView::Number(json::NumberView::Unsigned(n))),
                ]);
                Step::Done { outcome: Outcome::ok(Json::Object(o)), close: None }
            },
        }
    }
}

} // verus!
