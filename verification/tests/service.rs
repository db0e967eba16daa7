//! The service against real SQLite databases: a bench performs the steps that the
//! service asks for.
use std::collections::HashMap;

use rusqlite::types::{Value, ValueRef};
use rusqlite::{Connection, OptionalExtension};

use soksak_sidecar_db_studio::json::{write_compact, Double, Json, Number};
use soksak_sidecar_db_studio::outcome::Outcome;
use soksak_sidecar_db_studio::service::DbStudioService;
use soksak_sidecar_db_studio::step::{AfterPrepare, Command, Field, Rows, Step};
use soksak_sidecar_db_studio::value::{Cell, SqlValue};

/// A service with the databases that it has opened.
struct Bench {
    svc: DbStudioService,
    open: HashMap<u64, Connection>,
    next: u64,
}

fn sql_value(v: SqlValue) -> Value {
    match v {
        SqlValue::Null => Value::Null,
        SqlValue::Integer(n) => Value::Integer(n),
        SqlValue::Real(bits) => Value::Real(f64::from_bits(bits)),
        SqlValue::NearestReal(n) => Value::Real(n as f64),
        SqlValue::Text(s) => Value::Text(s),
    }
}

fn sql_values(bind: Vec<SqlValue>) -> Vec<Value> {
    bind.into_iter().map(sql_value).collect()
}

fn cell(v: ValueRef<'_>) -> Cell {
    match v {
        ValueRef::Null => Cell::Null,
        ValueRef::Integer(n) => Cell::Integer(n),
        ValueRef::Real(f) => Cell::Real(Double {
            bits: f.to_bits(),
            literal: serde_json::Value::from(f).to_string(),
        }),
        ValueRef::Text(b) => Cell::Text(b.to_vec()),
        ValueRef::Blob(b) => Cell::Blob(b.to_vec()),
    }
}

fn field(row: &rusqlite::Row<'_>, i: usize) -> Field {
    Field {
        text: row.get::<_, String>(i).map_err(|e| e.to_string()),
        int: row.get::<_, i64>(i).ok(),
        null: matches!(row.get_ref(i), Ok(ValueRef::Null)),
    }
}

fn read_rows(conn: &Connection, sql: &str, width: usize) -> Rows {
    let mut out = Rows { rows: Vec::new(), error: None };
    let mut stmt = match conn.prepare(sql) {
        Ok(s) => s,
        Err(e) => {
            out.error = Some(e.to_string());
            return out;
        }
    };
    let mut rows = match stmt.query([]) {
        Ok(r) => r,
        Err(e) => {
            out.error = Some(e.to_string());
            return out;
        }
    };
    loop {
        match rows.next() {
            Ok(Some(row)) => out.rows.push((0..width).map(|i| field(row, i)).collect()),
            Ok(None) => return out,
            Err(e) => {
                out.error = Some(e.to_string());
                return out;
            }
        }
    }
}

fn run_command(conn: &Connection, command: Command) -> Result<(), String> {
    match command {
        Command::Pragma { name, value } => conn.pragma_update(None, &name, &value),
        Command::Batch { sql } => conn.execute_batch(&sql),
        Command::ReadInt { sql } => conn.query_row(&sql, [], |r| r.get::<_, i64>(0)).map(|_| ()),
    }
    .map_err(|e| e.to_string())
}

fn run_query(svc: &mut DbStudioService, conn: &Connection, sql: &str, then: AfterPrepare) -> Step {
    let mut stmt = match conn.prepare(sql) {
        Ok(s) => s,
        Err(e) => return svc.after_prepare(then, Err(e.to_string())),
    };
    let names: Vec<String> = stmt.column_names().iter().map(|s| s.to_string()).collect();
    let width = names.len();
    let mut step = svc.after_prepare(then, Ok((names, stmt.readonly())));
    let (bind, then) = match step {
        Step::Query { bind, then } => (sql_values(bind), then),
        other => return other,
    };
    let mut rows = match stmt.query(rusqlite::params_from_iter(bind)) {
        Ok(r) => r,
        Err(e) => return svc.after_query(then, Err(e.to_string())),
    };
    step = svc.after_query(then, Ok(()));
    loop {
        let then = match step {
            Step::NextRow { then } => then,
            other => return other,
        };
        step = match rows.next() {
            Err(e) => svc.after_next_row(then, Err(e.to_string())),
            Ok(None) => svc.after_next_row(then, Ok(false)),
            Ok(Some(row)) => match svc.after_next_row(then, Ok(true)) {
                Step::ReadCells { wanted, then } => {
                    let cells: Vec<Option<Cell>> = (0..width)
                        .map(|i| if wanted[i] { row.get_ref(i).ok().map(cell) } else { None })
                        .collect();
                    svc.after_read_cells(then, &cells)
                }
                other => other,
            },
        };
    }
}

impl Bench {
    fn new() -> Bench {
        Bench { svc: DbStudioService::new(), open: HashMap::new(), next: 1 }
    }

    /// Serves one request to its end.
    fn call(&mut self, op: &str, params: Json) -> Outcome {
        let mut step = self.svc.handle(op, &params);
        loop {
            step = match step {
                Step::Done { outcome, close } => {
                    if let Some(conn) = close {
                        self.open.remove(&conn);
                    }
                    return outcome;
                }
                Step::Open { file, then } => match Connection::open(&file) {
                    Ok(conn) => {
                        let number = self.next;
                        self.next += 1;
                        self.open.insert(number, conn);
                        self.svc.after_open(then, Ok(number))
                    }
                    Err(e) => self.svc.after_open(then, Err(e.to_string())),
                },
                Step::Run { conn, command, then } => {
                    let reply = run_command(&self.open[&conn], command);
                    self.svc.after_run(then, reply)
                }
                Step::Execute { conn, sql, bind, then } => {
                    let reply = self.open[&conn]
                        .execute(&sql, rusqlite::params_from_iter(sql_values(bind)))
                        .map(|n| n as u64)
                        .map_err(|e| e.to_string());
                    self.svc.after_execute(then, reply)
                }
                Step::ReadText { conn, sql, bind, then } => {
                    let reply = self.open[&conn]
                        .query_row(&sql, rusqlite::params_from_iter(sql_values(bind)), |r| {
                            r.get::<_, String>(0)
                        })
                        .optional()
                        .map_err(|e| e.to_string());
                    self.svc.after_read_text(then, reply)
                }
                Step::ReadRows { conn, sql, width, then } => {
                    let reply = read_rows(&self.open[&conn], &sql, width);
                    self.svc.after_read_rows(then, reply)
                }
                Step::Prepare { conn, sql, then } => {
                    run_query(&mut self.svc, &self.open[&conn], &sql, then)
                }
                Step::Query { .. } | Step::NextRow { .. } | Step::ReadCells { .. } => {
                    unreachable!()
                }
            };
        }
    }
}

fn t(s: &str) -> Json {
    Json::Text(s.to_string())
}

fn n(i: u64) -> Json {
    Json::Number(Number::Unsigned(i))
}

fn arr(items: Vec<Json>) -> Json {
    Json::Array(items)
}

fn obj(entries: Vec<(&str, Json)>) -> Json {
    Json::Object(entries.into_iter().map(|(k, v)| (k.to_string(), v)).collect())
}

fn at<'a>(j: &'a Json, key: &str) -> &'a Json {
    j.get(key).unwrap()
}

fn items(j: &Json) -> &Vec<Json> {
    match j {
        Json::Array(v) => v,
        other => panic!("no list: {other:?}"),
    }
}

fn text(j: &Json) -> &str {
    match j {
        Json::Text(s) => s,
        other => panic!("no text: {other:?}"),
    }
}

fn number(j: &Json) -> u64 {
    match j {
        Json::Number(Number::Unsigned(n)) => *n,
        other => panic!("no number: {other:?}"),
    }
}

fn truth(j: &Json) -> bool {
    match j {
        Json::Bool(b) => *b,
        other => panic!("no truth value: {other:?}"),
    }
}

fn count_of(b: &mut Bench) -> u64 {
    number(at(&b.call("db-status", obj(vec![])).data.unwrap(), "count"))
}

fn connected(profile: &str) -> Bench {
    let mut b = Bench::new();
    assert!(b.call("db-connect", obj(vec![("profile", t(profile)), ("file", t(":memory:"))])).ok);
    b
}

fn query(b: &mut Bench, profile: &str, sql: &str) -> Outcome {
    b.call("query-run", obj(vec![("profile", t(profile)), ("sql", t(sql))]))
}

fn exec(b: &mut Bench, sql: &str) -> Outcome {
    b.call("db-exec", obj(vec![("profile", t("p1")), ("sql", t(sql))]))
}

fn applied(b: &mut Bench, profile: &str) -> Outcome {
    b.call("migration-applied", obj(vec![("profile", t(profile))]))
}

fn seeded_service() -> Bench {
    let b = connected("p1");
    let number = b.svc.conn_of("p1").unwrap();
    b.open[&number]
        .execute_batch(
            "CREATE TABLE users(\
                    id INTEGER PRIMARY KEY, \
                    email TEXT NOT NULL, \
                    password TEXT, \
                    api_key TEXT, \
                    display TEXT DEFAULT 'anon');\
                 CREATE UNIQUE INDEX idx_users_email ON users(email);\
                 CREATE TABLE posts(\
                    id INTEGER PRIMARY KEY, \
                    user_id INTEGER, \
                    body TEXT, \
                    FOREIGN KEY(user_id) REFERENCES users(id) ON DELETE CASCADE);\
                 INSERT INTO users(email,password,api_key,display) \
                    VALUES('a@x.io','s3cret','ak-123','alice');\
                 INSERT INTO users(email,password,api_key,display) \
                    VALUES('b@x.io','hunter2','ak-456','bob');",
        )
        .unwrap();
    b
}

#[test]
fn db_test_probes_in_memory_sqlite() {
    let mut b = Bench::new();
    let o = b.call("db-test", obj(vec![("file", t(":memory:"))]));
    assert!(o.ok);
    assert!(text(at(&o.data.unwrap(), "version")).starts_with("3."));
}

#[test]
fn connect_status_disconnect_lifecycle() {
    let mut b = Bench::new();
    assert_eq!(count_of(&mut b), 0);

    let c = b.call("db-connect", obj(vec![("profile", t("p1")), ("file", t(":memory:"))]));
    assert!(c.ok);
    assert_eq!(text(at(&c.data.unwrap(), "dialect")), "sqlite");
    assert_eq!(count_of(&mut b), 1);

    let d = b.call("db-disconnect", obj(vec![("profile", t("p1"))]));
    assert!(truth(at(&d.data.unwrap(), "closed")));
    assert_eq!(count_of(&mut b), 0);
}

#[test]
fn db_connect_requires_profile() {
    let mut b = Bench::new();
    let o = b.call("db-connect", obj(vec![("file", t(":memory:"))]));
    assert!(!o.ok);
    assert_eq!(o.code.as_deref(), Some("INVALID_PARAMS"));
}

#[test]
fn unknown_op_is_rejected() {
    let svc = DbStudioService::new();
    let ops = svc.ops();
    assert!(ops.contains(&"db-test".to_string()));
    assert!(ops.contains(&"db-connect".to_string()));
    assert!(svc.read_only("db-status"));
    assert!(!svc.read_only("db-connect"));
}

#[test]
fn phase2_ops_are_registered_and_read_only() {
    let svc = DbStudioService::new();
    let ops = svc.ops();
    for op in ["query-run", "db-introspect", "db-audit"] {
        assert!(ops.contains(&op.to_string()), "missing op {op}");
        assert!(svc.read_only(op), "{op} must be read-only");
    }
}

#[test]
fn query_run_shape_and_masking() {
    let mut b = seeded_service();
    let o = query(&mut b, "p1", "SELECT id, email, password, api_key FROM users ORDER BY id");
    assert!(o.ok, "query-run failed: {:?}", o.message);
    let d = o.data.unwrap();
    // columns shape: [{name}]
    let cols = items(at(&d, "columns"));
    assert_eq!(cols.len(), 4);
    assert_eq!(text(at(&cols[0], "name")), "id");
    assert_eq!(text(at(&cols[2], "name")), "password");
    // rows + counts
    assert_eq!(number(at(&d, "rowCount")), 2);
    assert!(!truth(at(&d, "truncated")));
    let rows = items(at(&d, "rows"));
    assert_eq!(rows.len(), 2);
    // non-sensitive values survive
    assert_eq!(number(&items(&rows[0])[0]), 1);
    assert_eq!(text(&items(&rows[0])[1]), "a@x.io");
    // sensitive columns masked (password + api_key), never the plaintext
    assert_eq!(text(&items(&rows[0])[2]), "<redacted:password>");
    assert_eq!(text(&items(&rows[0])[3]), "<redacted:api_key>");
    assert_ne!(text(&items(&rows[0])[2]), "s3cret");
}

#[test]
fn query_run_row_limit_truncates() {
    let mut b = seeded_service();
    let o = b.call(
        "query-run",
        obj(vec![
            ("profile", t("p1")),
            ("sql", t("SELECT id FROM users ORDER BY id")),
            ("rowLimit", n(1)),
        ]),
    );
    assert!(o.ok);
    let d = o.data.unwrap();
    assert_eq!(number(at(&d, "rowCount")), 1);
    assert!(truth(at(&d, "truncated")));
    assert_eq!(items(at(&d, "rows")).len(), 1);
}

#[test]
fn query_run_binds_params() {
    let mut b = seeded_service();
    let o = b.call(
        "query-run",
        obj(vec![
            ("profile", t("p1")),
            ("sql", t("SELECT email FROM users WHERE id = ?")),
            ("params", arr(vec![n(2)])),
        ]),
    );
    assert!(o.ok);
    let d = o.data.unwrap();
    assert_eq!(number(at(&d, "rowCount")), 1);
    assert_eq!(text(&items(&items(at(&d, "rows"))[0])[0]), "b@x.io");
}

#[test]
fn query_run_rejects_multiple_statements() {
    let mut b = seeded_service();
    let o = query(&mut b, "p1", "SELECT 1; DROP TABLE users");
    assert!(!o.ok);
    assert_eq!(o.code.as_deref(), Some("INVALID_PARAMS"));
    // a trailing semicolon is NOT multiple statements
    let ok = query(&mut b, "p1", "SELECT 1;");
    assert!(ok.ok);
    // a semicolon inside a string literal is NOT a separator
    let lit = query(&mut b, "p1", "SELECT 'a;b' AS v");
    assert!(lit.ok);
    assert_eq!(text(&items(&items(at(&lit.data.unwrap(), "rows"))[0])[0]), "a;b");
}

#[test]
fn query_run_unconnected_profile_errors() {
    let mut b = Bench::new();
    let o = query(&mut b, "nope", "SELECT 1");
    assert!(!o.ok);
    assert_eq!(o.code.as_deref(), Some("UNAVAILABLE"));
}

#[test]
fn db_introspect_catalog_with_fk_and_index_no_rows() {
    let mut b = seeded_service();
    let o = b.call("db-introspect", obj(vec![("profile", t("p1"))]));
    assert!(o.ok, "introspect failed: {:?}", o.message);
    let d = o.data.unwrap();
    let tables = items(at(&d, "tables"));
    // schema-only: NO row data anywhere in the payload
    let dump = write_compact(&d);
    assert!(!dump.contains("a@x.io"), "row data leaked into catalog");
    assert!(!dump.contains("s3cret"), "row data leaked into catalog");

    let users = tables.iter().find(|x| text(at(x, "name")) == "users").unwrap();
    let cols = items(at(users, "columns"));
    assert_eq!(cols.len(), 5);
    let id_col = cols.iter().find(|c| text(at(c, "name")) == "id").unwrap();
    assert!(truth(at(id_col, "pk")));
    let email_col = cols.iter().find(|c| text(at(c, "name")) == "email").unwrap();
    assert!(truth(at(email_col, "notnull")));
    let display_col = cols.iter().find(|c| text(at(c, "name")) == "display").unwrap();
    assert_eq!(text(at(display_col, "default")), "'anon'");
    // unique index present with its column
    let idxs = items(at(users, "indexes"));
    let uidx = idxs
        .iter()
        .find(|i| items(at(i, "columns")).iter().any(|c| text(c) == "email"))
        .unwrap();
    assert!(truth(at(uidx, "unique")));

    // posts carries the foreign key to users
    let posts = tables.iter().find(|x| text(at(x, "name")) == "posts").unwrap();
    let fks = items(at(posts, "foreignKeys"));
    assert_eq!(fks.len(), 1);
    assert_eq!(text(at(&fks[0], "table")), "users");
    assert_eq!(text(at(&fks[0], "from")), "user_id");
    assert_eq!(text(at(&fks[0], "to")), "id");
    assert_eq!(text(at(&fks[0], "onDelete")), "CASCADE");
}

#[test]
fn db_introspect_tables_filter() {
    let mut b = seeded_service();
    let o = b.call(
        "db-introspect",
        obj(vec![("profile", t("p1")), ("tables", arr(vec![t("posts")]))]),
    );
    assert!(o.ok);
    let d = o.data.unwrap();
    let tables = items(at(&d, "tables"));
    assert_eq!(tables.len(), 1);
    assert_eq!(text(at(&tables[0], "name")), "posts");
}

#[test]
fn db_audit_appends_and_reads_back_without_sql() {
    let mut b = seeded_service(); // logs one db-connect
    let _ = query(&mut b, "p1", "SELECT id, password FROM users");
    let o = b.call("db-audit", obj(vec![]));
    assert!(o.ok);
    let d = o.data.unwrap();
    let entries = items(at(&d, "entries"));
    // at least the db-connect + query-run traces are present
    assert!(entries.len() >= 2, "entries: {}", entries.len());
    // newest first: the query-run is the latest
    assert_eq!(text(at(&entries[0], "op")), "query-run");
    assert!(truth(at(&entries[0], "ok")));
    assert_eq!(number(at(&entries[0], "rowCount")), 2);
    assert_eq!(text(at(&entries[0], "profile")), "p1");
    // sequence is monotonic and present
    assert!(number(at(&entries[0], "tsSeq")) > number(at(&entries[1], "tsSeq")));
    // NO SQL literals are ever stored in the audit payload
    let dump = write_compact(&d);
    assert!(!dump.contains("SELECT"), "audit leaked SQL text");
    assert!(!dump.contains("password"), "audit leaked column/SQL text");
}

#[test]
fn db_audit_limit_and_profile_filter() {
    let mut b = Bench::new();
    assert!(b.call("db-connect", obj(vec![("profile", t("p1")), ("file", t(":memory:"))])).ok);
    assert!(b.call("db-connect", obj(vec![("profile", t("p2")), ("file", t(":memory:"))])).ok);
    // limit
    let limited = b.call("db-audit", obj(vec![("limit", n(1))]));
    assert_eq!(items(at(&limited.data.unwrap(), "entries")).len(), 1);
    // profile filter
    let only_p2 = b.call("db-audit", obj(vec![("profile", t("p2"))]));
    let d = only_p2.data.unwrap();
    let entries = items(at(&d, "entries"));
    assert_eq!(entries.len(), 1);
    assert_eq!(text(at(&entries[0], "profile")), "p2");
}

#[test]
fn phase5_6_ops_registered_with_correct_read_only_axis() {
    let svc = DbStudioService::new();
    let ops = svc.ops();
    for op in ["db-exec", "db-migrate", "migration-applied"] {
        assert!(ops.contains(&op.to_string()), "missing op {op}");
    }
    // migration-applied is a read; db-exec/db-migrate mutate.
    assert!(svc.read_only("migration-applied"));
    assert!(!svc.read_only("db-exec"));
    assert!(!svc.read_only("db-migrate"));
}

#[test]
fn db_exec_insert_reports_rows_affected() {
    let mut b = seeded_service();
    let o = b.call(
        "db-exec",
        obj(vec![
            ("profile", t("p1")),
            ("sql", t("INSERT INTO users(email, display) VALUES(?, ?)")),
            ("params", arr(vec![t("c@x.io"), t("carol")])),
        ]),
    );
    assert!(o.ok, "db-exec insert failed: {:?}", o.message);
    assert_eq!(number(at(&o.data.unwrap(), "rowsAffected")), 1);

    // the row is really there — a real round-trip through the driver
    let check = query(&mut b, "p1", "SELECT email FROM users WHERE display = 'carol'");
    assert_eq!(text(&items(&items(at(&check.data.unwrap(), "rows"))[0])[0]), "c@x.io");
}

#[test]
fn db_exec_update_with_where_affects_only_matched_rows() {
    let mut b = seeded_service();
    let o = exec(&mut b, "UPDATE users SET display = 'ALICE' WHERE email = 'a@x.io'");
    assert!(o.ok, "guarded update failed: {:?}", o.message);
    assert_eq!(number(at(&o.data.unwrap(), "rowsAffected")), 1);
}

#[test]
fn db_exec_refuses_where_less_delete_and_update_without_force() {
    let mut b = seeded_service();
    // whole-table DELETE is refused
    let del = exec(&mut b, "DELETE FROM users");
    assert!(!del.ok);
    assert_eq!(del.code.as_deref(), Some("INVALID_PARAMS"));
    // whole-table UPDATE is refused (case-insensitive keyword detection)
    let upd = exec(&mut b, "update users set display = 'x'");
    assert!(!upd.ok);
    assert_eq!(upd.code.as_deref(), Some("INVALID_PARAMS"));
    // both rows still present — the refusal actually prevented the mutation
    let q = query(&mut b, "p1", "SELECT id FROM users");
    assert_eq!(number(at(&q.data.unwrap(), "rowCount")), 2);
}

#[test]
fn db_exec_force_allows_whole_table_delete() {
    let mut b = seeded_service();
    let o = b.call(
        "db-exec",
        obj(vec![
            ("profile", t("p1")),
            ("sql", t("DELETE FROM users")),
            ("force", Json::Bool(true)),
        ]),
    );
    assert!(o.ok, "forced delete failed: {:?}", o.message);
    assert_eq!(number(at(&o.data.unwrap(), "rowsAffected")), 2);
    let q = query(&mut b, "p1", "SELECT id FROM users");
    assert_eq!(number(at(&q.data.unwrap(), "rowCount")), 0);
}

#[test]
fn db_exec_where_inside_a_string_is_not_a_where_clause() {
    // A DELETE whose only `where` sits inside a string literal is still a
    // whole-table delete and must be refused without force.
    let mut b = seeded_service();
    let o = exec(&mut b, "DELETE FROM users WHERE display = 'where'");
    // this one HAS a real WHERE, so it is allowed
    assert!(o.ok, "delete with real where failed: {:?}", o.message);
}

#[test]
fn db_exec_rejects_multiple_statements() {
    let mut b = seeded_service();
    let o = exec(&mut b, "INSERT INTO users(email) VALUES('z@x.io'); DROP TABLE users");
    assert!(!o.ok);
    assert_eq!(o.code.as_deref(), Some("INVALID_PARAMS"));
}

fn migrate(b: &mut Bench, id: &str, checksum: &str, statements: Vec<&str>) -> Outcome {
    b.call(
        "db-migrate",
        obj(vec![
            ("profile", t("m")),
            ("id", t(id)),
            ("checksum", t(checksum)),
            ("statements", arr(statements.into_iter().map(t).collect())),
        ]),
    )
}

#[test]
fn db_migrate_applies_transaction_and_records_ledger() {
    let mut b = connected("m");
    let o = migrate(
        &mut b,
        "0001_init",
        "abc123",
        vec![
            "CREATE TABLE widget(id INTEGER PRIMARY KEY, name TEXT)",
            "INSERT INTO widget(name) VALUES('gizmo')",
        ],
    );
    assert!(o.ok, "migrate failed: {:?}", o.message);
    let d = o.data.unwrap();
    assert!(truth(at(&d, "applied")));
    assert_eq!(text(at(&d, "id")), "0001_init");

    // both statements landed inside the one transaction
    let q = query(&mut b, "m", "SELECT name FROM widget");
    assert_eq!(text(&items(&items(at(&q.data.unwrap(), "rows"))[0])[0]), "gizmo");

    // the ledger recorded the migration with an RFC3339 stamp
    let ml = applied(&mut b, "m").data.unwrap();
    assert_eq!(number(at(&ml, "count")), 1);
    let m0 = &items(at(&ml, "migrations"))[0];
    assert_eq!(text(at(m0, "id")), "0001_init");
    assert_eq!(text(at(m0, "checksum")), "abc123");
    let stamp = text(at(m0, "appliedAt"));
    assert!(stamp.contains('T') && stamp.ends_with('Z'), "stamp: {stamp}");
    assert!(stamp.starts_with("20"), "stamp: {stamp}");
}

#[test]
fn db_migrate_reapply_same_checksum_skips_mismatch_conflicts() {
    let mut b = connected("m");
    let first = migrate(&mut b, "0001", "cs-1", vec!["CREATE TABLE t(id INTEGER)"]);
    assert!(first.ok);
    assert!(truth(at(&first.data.unwrap(), "applied")));

    // re-applying the same id + checksum is a no-op skip (ok, applied:false)
    let again = migrate(&mut b, "0001", "cs-1", vec!["CREATE TABLE t(id INTEGER)"]);
    assert!(again.ok, "reapply should skip, not fail");
    assert!(!truth(at(&again.data.unwrap(), "applied")));

    // same id, DIFFERENT checksum = tamper → Conflict
    let tampered = migrate(&mut b, "0001", "cs-2", vec!["CREATE TABLE t(id INTEGER)"]);
    assert!(!tampered.ok);
    assert_eq!(tampered.code.as_deref(), Some("CONFLICT"));

    // ledger still has exactly one row (the original)
    let ml = applied(&mut b, "m").data.unwrap();
    assert_eq!(number(at(&ml, "count")), 1);
    assert_eq!(text(at(&items(at(&ml, "migrations"))[0], "checksum")), "cs-1");
}

#[test]
fn db_migrate_rolls_back_the_whole_file_on_failure() {
    let mut b = connected("m");
    // second statement is invalid SQL — the whole migration must roll back
    let o = migrate(
        &mut b,
        "0002_bad",
        "zzz",
        vec!["CREATE TABLE good(id INTEGER)", "CREATE TABLE nope(!!! not sql"],
    );
    assert!(!o.ok, "invalid migration must fail");
    assert_eq!(o.code.as_deref(), Some("INTERNAL"));

    // the first statement's table must NOT survive — atomic rollback
    let leaked = query(&mut b, "m", "SELECT id FROM good");
    assert!(!leaked.ok, "partial migration leaked table `good`");

    // and the ledger has no entry for the failed migration
    let ml = applied(&mut b, "m").data.unwrap();
    assert_eq!(number(at(&ml, "count")), 0);
}

#[test]
fn migration_applied_empty_when_no_ledger() {
    let mut b = connected("m");
    let o = applied(&mut b, "m");
    assert!(o.ok);
    let d = o.data.unwrap();
    assert_eq!(number(at(&d, "count")), 0);
    assert!(items(at(&d, "migrations")).is_empty());
}

#[test]
fn migration_applied_unconnected_profile_errors() {
    let mut b = Bench::new();
    let o = applied(&mut b, "nope");
    assert!(!o.ok);
    assert_eq!(o.code.as_deref(), Some("UNAVAILABLE"));
}

#[test]
fn ping_tells_the_driver() {
    let mut b = Bench::new();
    let o = b.call("ping", obj(vec![]));
    assert!(o.ok);
    let d = o.data.unwrap();
    assert_eq!(text(at(&d, "dialect")), "sqlite");
    assert!(text(at(&d, "version")).starts_with("3."));
    assert!(b.open.is_empty());
}

#[test]
fn unknown_operation_is_answered_with_its_name() {
    let mut b = Bench::new();
    let o = b.call("db-drop", obj(vec![]));
    assert!(!o.ok);
    assert_eq!(o.code.as_deref(), Some("UNKNOWN_OP"));
    assert_eq!(o.message.as_deref(), Some("db-drop"));
}

#[test]
fn every_listed_operation_is_known() {
    let ops = DbStudioService::new().ops();
    assert_eq!(ops.len(), 13);
    for op in ops {
        let mut b = Bench::new();
        assert_ne!(b.call(&op, obj(vec![])).code.as_deref(), Some("UNKNOWN_OP"), "{op}");
    }
}

#[test]
fn a_file_that_cannot_be_opened_is_unavailable() {
    let mut b = Bench::new();
    let nowhere = obj(vec![("profile", t("p")), ("file", t("/no/such/directory/x.sqlite"))]);
    let o = b.call("db-connect", nowhere);
    assert_eq!(o.code.as_deref(), Some("UNAVAILABLE"));
    assert!(o.message.unwrap().starts_with("open failed: "));
    let d = b.call("db-audit", obj(vec![])).data.unwrap();
    let entries = items(at(&d, "entries"));
    assert_eq!(entries.len(), 1);
    assert!(!truth(at(&entries[0], "ok")));
    assert_eq!(text(at(&entries[0], "op")), "db-connect");
    assert_eq!(count_of(&mut b), 0);
}

#[test]
fn connecting_again_closes_the_database_before() {
    let mut b = connected("p1");
    let first = b.svc.conn_of("p1").unwrap();
    assert!(b.call("db-connect", obj(vec![("profile", t("p1"))])).ok);
    let second = b.svc.conn_of("p1").unwrap();
    assert_ne!(first, second);
    assert!(!b.open.contains_key(&first));
    assert!(b.open.contains_key(&second));
    assert_eq!(count_of(&mut b), 1);
}

#[test]
fn status_lists_profiles_in_order() {
    let mut b = Bench::new();
    for p in ["b", "a", "c", "B"] {
        assert!(b.call("db-connect", obj(vec![("profile", t(p))])).ok);
    }
    let d = b.call("db-status", obj(vec![])).data.unwrap();
    let names: Vec<&str> = items(at(&d, "connections")).iter().map(text).collect();
    assert_eq!(names, vec!["B", "a", "b", "c"]);
    assert_eq!(number(at(&d, "count")), 4);
    let d = b.call("db-disconnect", obj(vec![("profile", t("nope"))])).data.unwrap();
    assert!(!truth(at(&d, "closed")));
    assert_eq!(count_of(&mut b), 4);
}

#[test]
fn create_writes_a_database_and_closes_it() {
    let mut b = Bench::new();
    let o = b.call("db-create", obj(vec![("file", t(":memory:")), ("key", t("k"))]));
    assert!(o.ok);
    assert_eq!(o.message.as_deref(), Some("database created"));
    assert!(truth(at(&o.data.unwrap(), "encrypted")));
    assert!(b.open.is_empty());
    let missing = b.call("db-create", obj(vec![]));
    assert_eq!(missing.message.as_deref(), Some("file required"));
}

#[test]
fn a_key_opens_a_new_database_and_can_be_changed() {
    let mut b = Bench::new();
    let o = b.call("db-connect", obj(vec![("profile", t("e")), ("key", t("one"))]));
    assert!(o.ok);
    assert_eq!(o.message.as_deref(), Some("connected: e"));
    assert!(truth(at(&o.data.unwrap(), "encrypted")));
    let missing = b.call("db-rekey", obj(vec![("profile", t("e"))]));
    assert_eq!(missing.message.as_deref(), Some("newKey required"));
    let nobody = b.call("db-rekey", obj(vec![("profile", t("x")), ("newKey", t("two"))]));
    assert_eq!(nobody.code.as_deref(), Some("UNAVAILABLE"));
}

#[test]
fn queries_that_cannot_be_prepared_or_run_fail() {
    let mut b = seeded_service();
    let o = query(&mut b, "p1", "SELEC 1");
    assert_eq!(o.code.as_deref(), Some("INVALID_PARAMS"));
    assert!(o.message.unwrap().starts_with("prepare failed: "));
    // one value too many
    let o = b.call(
        "query-run",
        obj(vec![("profile", t("p1")), ("sql", t("SELECT 1")), ("params", arr(vec![n(1)]))]),
    );
    assert_eq!(o.code.as_deref(), Some("INTERNAL"));
    assert!(o.message.unwrap().starts_with("query failed: "));
    // a row that cannot be computed
    let o = query(&mut b, "p1", "SELECT abs(-9223372036854775808)");
    assert_eq!(o.code.as_deref(), Some("INTERNAL"));
    assert!(o.message.unwrap().starts_with("row read failed: "));
    let o = b.call(
        "query-run",
        obj(vec![("profile", t("p1")), ("sql", t("SELECT 1")), ("params", t("x"))]),
    );
    assert_eq!(o.message.as_deref(), Some("params must be an array"));
    let d = b.call("db-audit", obj(vec![])).data.unwrap();
    let failed = items(at(&d, "entries")).iter().filter(|e| !truth(at(e, "ok"))).count();
    assert_eq!(failed, 3);
}

#[test]
fn cells_of_every_kind_are_told() {
    let mut b = connected("p1");
    let sql = "SELECT NULL AS a, -5 AS b, 7 AS c, 1.5 AS d, x'00ff' AS e, 'x' AS f, 9e999 AS g, CAST(x'61ff' AS TEXT) AS h";
    let d = query(&mut b, "p1", sql).data.unwrap();
    let row = items(&items(at(&d, "rows"))[0]);
    assert!(matches!(row[0], Json::Null));
    assert!(matches!(row[1], Json::Number(Number::Negative(-5))));
    assert_eq!(number(&row[2]), 7);
    assert_eq!(write_compact(&row[3]), "1.5");
    assert_eq!(text(&row[4]), "<blob:2 bytes>");
    assert_eq!(text(&row[5]), "x");
    assert!(matches!(row[6], Json::Null));
    assert_eq!(text(&row[7]), "a\u{fffd}");
}

#[test]
fn values_of_every_kind_are_bound() {
    let mut b = connected("p1");
    let values = vec![
        Json::Null,
        Json::Bool(true),
        Json::Number(Number::Negative(-3)),
        n(u64::MAX),
        Json::Number(Number::Float(Double { bits: 2.5f64.to_bits(), literal: "2.5".to_string() })),
        t("q"),
        arr(vec![n(1), t("a\"b")]),
        obj(vec![("k", Json::Null)]),
    ];
    let o = b.call(
        "query-run",
        obj(vec![
            ("profile", t("p1")),
            ("sql", t("SELECT ?, ?, ?, ?, ?, ?, ?, ?")),
            ("params", arr(values)),
        ]),
    );
    let d = o.data.unwrap();
    let row = &items(at(&d, "rows"))[0];
    assert_eq!(
        write_compact(row),
        "[null,1,-3,1.8446744073709552e+19,2.5,\"q\",\"[1,\\\"a\\\\\\\"b\\\"]\",\"{\\\"k\\\":null}\"]"
    );
}

#[test]
fn a_limit_of_zero_reads_no_row() {
    let mut b = seeded_service();
    let limited = |b: &mut Bench, sql: &str, limit: u64| {
        b.call("query-run", obj(vec![("profile", t("p1")), ("sql", t(sql)), ("rowLimit", n(limit))]))
            .data
            .unwrap()
    };
    let d = limited(&mut b, "SELECT id FROM users", 0);
    assert_eq!(number(at(&d, "rowCount")), 0);
    assert!(truth(at(&d, "truncated")));
    let d = limited(&mut b, "SELECT id FROM users WHERE id > 9", 0);
    assert!(!truth(at(&d, "truncated")));
    // just as many rows as allowed
    let d = limited(&mut b, "SELECT id FROM users", 2);
    assert_eq!(number(at(&d, "rowCount")), 2);
    assert!(!truth(at(&d, "truncated")));
}

#[test]
fn a_thousand_rows_are_told_unless_asked_otherwise() {
    let mut b = connected("p1");
    let sql = "WITH RECURSIVE c(x) AS (SELECT 1 UNION ALL SELECT x+1 FROM c WHERE x < 1001) SELECT x FROM c";
    let d = query(&mut b, "p1", sql).data.unwrap();
    assert_eq!(number(at(&d, "rowCount")), 1000);
    assert!(truth(at(&d, "truncated")));
}

#[test]
fn changes_that_fail_are_told() {
    let mut b = seeded_service();
    let o = exec(&mut b, "INSERT INTO users(email) VALUES(NULL)");
    assert_eq!(o.code.as_deref(), Some("INTERNAL"));
    assert!(o.message.unwrap().starts_with("exec failed: "));
    let o = b.call("db-exec", obj(vec![("profile", t("x")), ("sql", t("VACUUM"))]));
    assert_eq!(o.message.as_deref(), Some("profile not connected: x"));
    let o = b.call("db-exec", obj(vec![("profile", t("p1"))]));
    assert_eq!(o.message.as_deref(), Some("sql required"));
}

#[test]
fn a_catalog_names_odd_tables_and_expression_indexes() {
    let mut b = connected("p1");
    let number_of = b.svc.conn_of("p1").unwrap();
    b.open[&number_of]
        .execute_batch(
            "CREATE TABLE \"a \"\"b\"\"\"(x TEXT PRIMARY KEY, y);
             CREATE INDEX \"i\"\"1\" ON \"a \"\"b\"\"\"(y, lower(x));",
        )
        .unwrap();
    let d = b.call("db-introspect", obj(vec![("profile", t("p1"))])).data.unwrap();
    let table = &items(at(&d, "tables"))[0];
    assert_eq!(text(at(table, "name")), "a \"b\"");
    let y = &items(at(table, "columns"))[1];
    assert_eq!(write_compact(y), "{\"name\":\"y\",\"type\":\"\",\"notnull\":false,\"pk\":false,\"default\":null}");
    let odd = items(at(table, "indexes")).iter().find(|i| text(at(i, "name")) == "i\"1").unwrap();
    let names: Vec<&str> = items(at(odd, "columns")).iter().map(text).collect();
    assert_eq!(names, vec!["y"]);
    assert!(!truth(at(odd, "unique")));
}

#[test]
fn migrations_are_checked_before_they_run() {
    let mut b = connected("m");
    let ask = |b: &mut Bench, entries: Vec<(&str, Json)>| b.call("db-migrate", obj(entries)).message.unwrap();
    assert_eq!(ask(&mut b, vec![]), "profile required");
    assert_eq!(ask(&mut b, vec![("profile", t("m"))]), "id required");
    assert_eq!(ask(&mut b, vec![("profile", t("m")), ("id", t("1"))]), "checksum required");
    let base = || vec![("profile", t("m")), ("id", t("1")), ("checksum", t("c"))];
    assert_eq!(ask(&mut b, base()), "statements array required");
    let mut odd = base();
    odd.push(("statements", arr(vec![t("SELECT 1"), n(1)])));
    assert_eq!(ask(&mut b, odd), "statements must be strings");
    // a migration without statements is entered all the same
    let mut empty = base();
    empty.push(("statements", arr(vec![])));
    assert_eq!(ask(&mut b, empty), "migration applied: 1");
    assert_eq!(number(at(&applied(&mut b, "m").data.unwrap(), "count")), 1);
}

#[test]
fn a_migration_inside_an_open_transaction_cannot_begin() {
    let mut b = connected("m");
    let number_of = b.svc.conn_of("m").unwrap();
    b.open[&number_of].execute_batch("BEGIN").unwrap();
    let o = migrate(&mut b, "1", "c", vec!["CREATE TABLE t(x)"]);
    assert_eq!(o.code.as_deref(), Some("INTERNAL"));
    assert!(o.message.unwrap().starts_with("begin failed: "));
}

#[test]
fn a_ledger_of_another_shape_cannot_be_read() {
    let mut b = connected("m");
    let number_of = b.svc.conn_of("m").unwrap();
    b.open[&number_of].execute_batch("CREATE TABLE _soksak_migrations(x)").unwrap();
    let o = applied(&mut b, "m");
    assert_eq!(o.code.as_deref(), Some("INTERNAL"));
    assert!(o.message.unwrap().starts_with("ledger read failed: "));
    let o = migrate(&mut b, "1", "c", vec![]);
    assert!(o.message.unwrap().starts_with("ledger read failed: "));
}

#[test]
fn a_ledger_is_told_in_the_order_of_application() {
    let mut b = connected("m");
    assert!(migrate(&mut b, "z", "1", vec![]).ok);
    let number_of = b.svc.conn_of("m").unwrap();
    b.open[&number_of]
        .execute_batch(
            "INSERT INTO _soksak_migrations VALUES('y', '2', '1999-12-31T23:59:59Z');
             INSERT INTO _soksak_migrations VALUES('x', '3', NULL);",
        )
        .unwrap();
    let d = applied(&mut b, "m").data.unwrap();
    let ids: Vec<&str> = items(at(&d, "migrations")).iter().map(|m| text(at(m, "id"))).collect();
    assert_eq!(ids, vec!["z", "y", "x"]);
    assert!(matches!(at(&items(at(&d, "migrations"))[2], "appliedAt"), Json::Null));
}

fn log(b: &mut Bench) -> Vec<(String, String, bool, u64)> {
    let d = b.call("db-audit", obj(vec![])).data.unwrap();
    items(at(&d, "entries"))
        .iter()
        .map(|e| {
            (
                text(at(e, "op")).to_string(),
                text(at(e, "profile")).to_string(),
                truth(at(e, "ok")),
                number(at(e, "rowCount")),
            )
        })
        .collect()
}

fn entry(op: &str, profile: &str, ok: bool, rows: u64) -> (String, String, bool, u64) {
    (op.to_string(), profile.to_string(), ok, rows)
}

#[test]
fn every_operation_that_is_carried_out_leaves_a_record() {
    let mut b = connected("p1");
    assert_eq!(log(&mut b), vec![entry("db-connect", "p1", true, 0)]);
    let _ = b.call("db-test", obj(vec![]));
    let _ = b.call("db-test", obj(vec![("file", t("/no/such/directory/x"))]));
    let _ = b.call("ping", obj(vec![]));
    let _ = b.call("db-status", obj(vec![]));
    let _ = b.call("db-create", obj(vec![("file", t(":memory:"))]));
    let _ = b.call("db-create", obj(vec![("file", t("/no/such/directory/x"))]));
    let _ = applied(&mut b, "p1");
    let _ = b.call("db-disconnect", obj(vec![("profile", t("p1"))]));
    assert_eq!(
        log(&mut b),
        vec![
            entry("db-disconnect", "p1", true, 0),
            entry("migration-applied", "p1", true, 0),
            entry("db-create", "", false, 0),
            entry("db-create", "", true, 0),
            entry("db-status", "", true, 0),
            entry("ping", "", true, 0),
            entry("db-test", "", false, 0),
            entry("db-test", "", true, 0),
            entry("db-connect", "p1", true, 0),
        ]
    );
}

#[test]
fn reading_the_audit_leaves_it_as_it_was() {
    let mut b = connected("p1");
    let _ = query(&mut b, "p1", "SELECT 1");
    let read = |b: &mut Bench, entries: Vec<(&str, Json)>| {
        write_compact(&b.call("db-audit", obj(entries)).data.unwrap())
    };
    let all = read(&mut b, vec![]);
    assert_eq!(read(&mut b, vec![]), all);
    let of_p1 = read(&mut b, vec![("profile", t("p1"))]);
    assert_eq!(read(&mut b, vec![("profile", t("p1"))]), of_p1);
    assert_eq!(of_p1, all);
    assert_eq!(read(&mut b, vec![("limit", n(0))]), "{\"entries\":[],\"count\":0}");
    assert_eq!(log(&mut b).len(), 2);
}

#[test]
fn a_disconnect_is_recorded() {
    let mut b = connected("p1");
    assert!(b.call("db-disconnect", obj(vec![("profile", t("p1"))])).ok);
    let records = log(&mut b);
    assert_eq!(records.len(), 2);
    assert_eq!(records[0], entry("db-disconnect", "p1", true, 0));
}

#[test]
fn requests_that_lack_something_leave_no_record() {
    let mut b = connected("p1");
    let _ = b.call("db-rekey", obj(vec![("profile", t("x")), ("newKey", t("k"))]));
    let _ = applied(&mut b, "x");
    let _ = b.call("query-run", obj(vec![("profile", t("p1"))]));
    let _ = b.call("db-create", obj(vec![]));
    let _ = b.call("db-disconnect", obj(vec![]));
    let _ = b.call("db-drop", obj(vec![]));
    assert_eq!(log(&mut b).len(), 1);
}

#[test]
fn a_where_in_a_comment_guards_nothing() {
    let mut b = seeded_service();
    for sql in [
        "DELETE FROM users -- where",
        "DELETE FROM users /* where */",
        "/* x */ DELETE FROM users",
        "-- x\nDELETE FROM users",
        "DELETE FROM users RETURNING id AS `where`",
        "DELETE FROM users RETURNING id AS [where]",
        "UPDATE users SET display = (SELECT 1 WHERE 0)",
        "WITH x AS (SELECT 1 WHERE 1) DELETE FROM users",
        "UPDATE users SET display = :where",
    ] {
        let o = exec(&mut b, sql);
        assert_eq!(o.code.as_deref(), Some("INVALID_PARAMS"), "{sql}");
    }
    let d = query(&mut b, "p1", "SELECT id FROM users").data.unwrap();
    assert_eq!(number(at(&d, "rowCount")), 2);
    let o = exec(&mut b, "WITH x AS (SELECT 1 AS n) DELETE FROM users WHERE id IN (SELECT n FROM x)");
    assert_eq!(number(at(&o.data.unwrap(), "rowsAffected")), 1);
}

#[test]
fn queries_only_select() {
    let mut b = seeded_service();
    for sql in [
        "DELETE FROM users",
        "INSERT INTO users(email) VALUES('z')",
        "WITH x AS (SELECT 1) DELETE FROM users",
        "UPDATE users SET display = 'x' RETURNING id",
        "DROP TABLE users",
        "BEGIN",
        "PRAGMA user_version = 7",
    ] {
        let o = query(&mut b, "p1", sql);
        assert_eq!(o.code.as_deref(), Some("INVALID_PARAMS"), "{sql}");
        assert_eq!(
            o.message.as_deref(),
            Some("read-only SELECT required (other statements rejected)"),
            "{sql}"
        );
    }
    let d = query(&mut b, "p1", "/* all */ SELECT id FROM users -- ordered; or not").data.unwrap();
    assert_eq!(number(at(&d, "rowCount")), 2);
    let d = query(&mut b, "p1", "VALUES (1), (2), (3)").data.unwrap();
    assert_eq!(number(at(&d, "rowCount")), 3);
    assert_eq!(log(&mut b)[2], entry("query-run", "p1", false, 0));
}

#[test]
fn tables_whose_names_only_resemble_sqlites_own_are_listed() {
    let mut b = connected("p1");
    let number_of = b.svc.conn_of("p1").unwrap();
    b.open[&number_of]
        .execute_batch(
            "CREATE TABLE sqlitedata(id INTEGER PRIMARY KEY AUTOINCREMENT);
             INSERT INTO sqlitedata DEFAULT VALUES;",
        )
        .unwrap();
    let d = b.call("db-introspect", obj(vec![("profile", t("p1"))])).data.unwrap();
    let names: Vec<&str> = items(at(&d, "tables")).iter().map(|x| text(at(x, "name"))).collect();
    assert_eq!(names, vec!["sqlitedata"]);
}

#[test]
fn migrations_of_one_second_are_listed_in_their_order() {
    let mut b = connected("m");
    assert!(migrate(&mut b, "b", "1", vec![]).ok);
    assert!(migrate(&mut b, "a", "2", vec![]).ok);
    let d = applied(&mut b, "m").data.unwrap();
    let ids: Vec<&str> = items(at(&d, "migrations")).iter().map(|m| text(at(m, "id"))).collect();
    assert_eq!(ids, vec!["b", "a"]);
    assert_eq!(number(at(&d, "count")), 2);
}

#[test]
fn a_migration_that_cannot_be_committed_is_rolled_back() {
    let mut b = connected("m");
    let number_of = b.svc.conn_of("m").unwrap();
    b.open[&number_of]
        .execute_batch(
            "PRAGMA foreign_keys = ON;
             CREATE TABLE parent(id INTEGER PRIMARY KEY);
             CREATE TABLE child(p INTEGER REFERENCES parent(id) DEFERRABLE INITIALLY DEFERRED);",
        )
        .unwrap();
    let o = migrate(&mut b, "1", "c", vec!["INSERT INTO child(p) VALUES(99)"]);
    assert_eq!(o.code.as_deref(), Some("INTERNAL"));
    assert!(o.message.unwrap().starts_with("commit failed: "));
    assert!(b.open[&number_of].is_autocommit());
    let d = query(&mut b, "m", "SELECT p FROM child").data.unwrap();
    assert_eq!(number(at(&d, "rowCount")), 0);
    assert_eq!(number(at(&applied(&mut b, "m").data.unwrap(), "count")), 0);
}
