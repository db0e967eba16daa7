//! The steps of operations, answered by hand.
use soksak_sidecar_db_studio::json::{write_compact, Json, Number};
use soksak_sidecar_db_studio::outcome::Outcome;
use soksak_sidecar_db_studio::service::DbStudioService;
use soksak_sidecar_db_studio::step::{AfterOpen, Command, Field, Purpose, Rows, Step};
use soksak_sidecar_db_studio::value::{Cell, SqlValue};

fn t(s: &str) -> Json {
    Json::Text(s.to_string())
}

fn obj(entries: Vec<(&str, Json)>) -> Json {
    Json::Object(entries.into_iter().map(|(k, v)| (k.to_string(), v)).collect())
}

fn err<T>(s: &str) -> Result<T, String> {
    Err(s.to_string())
}

fn done(step: Step) -> (Outcome, Option<u64>) {
    match step {
        Step::Done { outcome, close } => (outcome, close),
        other => panic!("not the end: {other:?}"),
    }
}

fn records(svc: &DbStudioService) -> String {
    let all = svc.records(&None, None);
    all.iter().map(write_compact).collect::<Vec<_>>().join("\n")
}

fn record(seq: u64, profile: &str, op: &str, ok: bool, rows: u64) -> String {
    format!(
        "{{\"tsSeq\":{seq},\"profile\":\"{profile}\",\"op\":\"{op}\",\"ok\":{ok},\"rowCount\":{rows}}}"
    )
}

/// A service in which profile `p` holds database 7.
fn holding() -> DbStudioService {
    let mut svc = DbStudioService::new();
    let step = svc.handle("db-connect", &obj(vec![("profile", t("p")), ("file", t("f"))]));
    let then = match step {
        Step::Open { file, then } => {
            assert_eq!(file, "f");
            then
        }
        other => panic!("{other:?}"),
    };
    let then = match svc.after_open(then, Ok(7)) {
        Step::Run { conn: 7, command: Command::ReadInt { sql }, then } => {
            assert_eq!(sql, "SELECT count(*) FROM sqlite_master");
            then
        }
        other => panic!("{other:?}"),
    };
    let then = match svc.after_run(then, Ok(())) {
        Step::ReadText { conn: 7, sql, then, .. } => {
            assert_eq!(sql, "SELECT sqlite_version()");
            then
        }
        other => panic!("{other:?}"),
    };
    let (outcome, close) = done(svc.after_read_text(then, err("no")));
    assert_eq!(close, None);
    assert_eq!(
        write_compact(&outcome.data.unwrap()),
        "{\"profile\":\"p\",\"dialect\":\"sqlite\",\"version\":\"unknown\",\"encrypted\":false}"
    );
    assert_eq!(records(&svc), record(0, "p", "db-connect", true, 0));
    svc
}

fn opened(svc: &mut DbStudioService, step: Step, conn: u64) -> Step {
    match step {
        Step::Open { then, .. } => svc.after_open(then, Ok(conn)),
        other => panic!("{other:?}"),
    }
}

fn ran(svc: &mut DbStudioService, step: Step, reply: Result<(), String>) -> Step {
    match step {
        Step::Run { then, .. } => svc.after_run(then, reply),
        other => panic!("{other:?}"),
    }
}

fn batch(step: &Step) -> &str {
    match step {
        Step::Run { conn: 7, command: Command::Batch { sql }, .. } => sql,
        other => panic!("{other:?}"),
    }
}

#[test]
fn the_key_is_set_before_anything_else() {
    let mut svc = DbStudioService::new();
    let params = obj(vec![("profile", t("p")), ("key", t("k1"))]);
    let step = svc.handle("db-connect", &params);
    assert!(matches!(&step, Step::Open { file, .. } if file == ":memory:"));
    let step = opened(&mut svc, step, 3);
    match &step {
        Step::Run { conn: 3, command: Command::Pragma { name, value }, .. } => {
            assert_eq!((name.as_str(), value.as_str()), ("key", "k1"));
        }
        other => panic!("{other:?}"),
    }
    let step = ran(&mut svc, step, Ok(()));
    let (outcome, close) = done(ran(&mut svc, step, err("file is not a database")));
    assert_eq!(close, Some(3));
    assert_eq!(outcome.code.as_deref(), Some("UNAVAILABLE"));
    assert_eq!(
        outcome.message.as_deref(),
        Some("cannot read database (wrong key or not a database): file is not a database")
    );
    assert_eq!(svc.conn_of("p"), None);
    assert_eq!(records(&svc), record(0, "p", "db-connect", false, 0));
}

#[test]
fn a_key_that_cannot_be_set_fails_the_session() {
    let mut svc = DbStudioService::new();
    let step = svc.handle("db-test", &obj(vec![("file", t("f")), ("key", t("k"))]));
    let step = opened(&mut svc, step, 3);
    let (outcome, close) = done(ran(&mut svc, step, err("bad")));
    assert_eq!(outcome.message.as_deref(), Some("set key failed: bad"));
    assert_eq!(close, Some(3));
    assert_eq!(records(&svc), record(0, "", "db-test", false, 0));
}

#[test]
fn the_text_of_a_key_changes_nothing_else() {
    let answer = |key: &str| {
        let mut svc = DbStudioService::new();
        let step = svc.handle("db-connect", &obj(vec![("profile", t("p")), ("key", t(key))]));
        let step = opened(&mut svc, step, 1);
        let step = ran(&mut svc, step, Ok(()));
        let step = ran(&mut svc, step, Ok(()));
        let end = match step {
            Step::ReadText { then, .. } => svc.after_read_text(then, Ok(Some("3.1".to_string()))),
            other => panic!("{other:?}"),
        };
        format!("{end:?} {}", records(&svc))
    };
    assert_eq!(answer("a"), answer("b"));
    assert!(!answer("hidden-key").contains("hidden-key"));
}

#[test]
fn a_database_that_cannot_be_written_is_not_created() {
    let mut svc = DbStudioService::new();
    let step = svc.handle("db-create", &obj(vec![("file", t("f"))]));
    let step = opened(&mut svc, step, 7);
    assert_eq!(batch(&step), "PRAGMA user_version = 1;");
    let (outcome, close) = done(ran(&mut svc, step, err("full")));
    assert_eq!(outcome.code.as_deref(), Some("INTERNAL"));
    assert_eq!(outcome.message.as_deref(), Some("create failed: full"));
    assert_eq!(close, Some(7));
    assert_eq!(records(&svc), record(0, "", "db-create", false, 0));
    let step = svc.handle("db-create", &obj(vec![("file", t("f")), ("key", t("k"))]));
    let step = opened(&mut svc, step, 7);
    let (outcome, _) = done(ran(&mut svc, step, err("no")));
    assert_eq!(outcome.code.as_deref(), Some("UNAVAILABLE"));
    let step = svc.handle("db-create", &obj(vec![("file", t("f"))]));
    let step = opened(&mut svc, step, 7);
    let (outcome, _) = done(ran(&mut svc, step, Ok(())));
    assert!(outcome.ok);
    assert!(records(&svc).starts_with(&record(2, "", "db-create", true, 0)));
}

#[test]
fn keys_are_changed_on_the_held_database() {
    let mut svc = holding();
    let params = obj(vec![("profile", t("p")), ("newKey", t("n"))]);
    let step = svc.handle("db-rekey", &params);
    match &step {
        Step::Run { conn: 7, command: Command::Pragma { name, value }, .. } => {
            assert_eq!((name.as_str(), value.as_str()), ("rekey", "n"));
        }
        other => panic!("{other:?}"),
    }
    let (outcome, close) = done(ran(&mut svc, step, Ok(())));
    assert_eq!(outcome.message.as_deref(), Some("key rotated"));
    assert_eq!(write_compact(&outcome.data.unwrap()), "{\"profile\":\"p\",\"rekeyed\":true}");
    assert_eq!(close, None);
    let step = svc.handle("db-rekey", &params);
    let (outcome, _) = done(ran(&mut svc, step, err("locked")));
    assert_eq!(outcome.message.as_deref(), Some("rekey failed: locked"));
    let log = records(&svc);
    assert!(log.starts_with(&record(2, "p", "db-rekey", false, 0)));
    assert!(log.contains(&record(1, "p", "db-rekey", true, 0)));
}

#[test]
fn a_query_asks_for_the_cells_that_may_leave() {
    let mut svc = holding();
    let params = obj(vec![
        ("profile", t("p")),
        ("sql", t("SELECT a, token FROM x")),
        ("params", Json::Array(vec![t("v")])),
        ("rowLimit", Json::Number(Number::Unsigned(1))),
    ]);
    let then = match svc.handle("query-run", &params) {
        Step::Prepare { conn: 7, sql, then } => {
            assert_eq!(sql, "SELECT a, token FROM x");
            then
        }
        other => panic!("{other:?}"),
    };
    let names = vec!["a".to_string(), "token".to_string()];
    let then = match svc.after_prepare(then, Ok((names, true))) {
        Step::Query { bind, then } => {
            assert!(matches!(&bind[0], SqlValue::Text(s) if s == "v"));
            then
        }
        other => panic!("{other:?}"),
    };
    let then = match svc.after_query(then, Ok(())) {
        Step::NextRow { then } => then,
        other => panic!("{other:?}"),
    };
    let then = match svc.after_next_row(then, Ok(true)) {
        Step::ReadCells { wanted, then } => {
            assert_eq!(wanted, vec![true, false]);
            then
        }
        other => panic!("{other:?}"),
    };
    let cells = vec![Some(Cell::Integer(1)), None];
    let then = match svc.after_read_cells(then, &cells) {
        Step::NextRow { then } => then,
        other => panic!("{other:?}"),
    };
    let (outcome, _) = done(svc.after_next_row(then, Ok(true)));
    assert_eq!(
        write_compact(&outcome.data.unwrap()),
        "{\"columns\":[{\"name\":\"a\"},{\"name\":\"token\"}],\"rows\":[[1,\"<redacted:token>\"]],\"rowCount\":1,\"truncated\":true}"
    );
    assert!(records(&svc).starts_with(&record(1, "p", "query-run", true, 1)));
}

fn job(svc: &mut DbStudioService) -> Step {
    let params = obj(vec![
        ("profile", t("p")),
        ("id", t("1")),
        ("checksum", t("c")),
        ("statements", Json::Array(vec![t("A"), t("B")])),
    ]);
    let step = svc.handle("db-migrate", &params);
    assert_eq!(
        batch(&step),
        "CREATE TABLE IF NOT EXISTS _soksak_migrations (id TEXT PRIMARY KEY, checksum TEXT, applied_at TEXT)"
    );
    ran(svc, step, Ok(()))
}

fn standing(svc: &mut DbStudioService, step: Step, checksum: Option<&str>) -> Step {
    match step {
        Step::ReadText { conn: 7, sql, bind, then } => {
            assert_eq!(sql, "SELECT checksum FROM _soksak_migrations WHERE id = ?1");
            assert!(matches!(&bind[0], SqlValue::Text(s) if s == "1"));
            svc.after_read_text(then, Ok(checksum.map(|s| s.to_string())))
        }
        other => panic!("{other:?}"),
    }
}

#[test]
fn a_migration_is_begun_applied_recorded_and_committed() {
    let mut svc = holding();
    let step = job(&mut svc);
    let mut step = standing(&mut svc, step, None);
    for sql in ["BEGIN", "A", "B"] {
        assert_eq!(batch(&step), sql);
        step = ran(&mut svc, step, Ok(()));
    }
    let step = match step {
        Step::Execute { conn: 7, sql, bind, then } => {
            assert_eq!(
                sql,
                "INSERT INTO _soksak_migrations(id, checksum, applied_at) VALUES(?1, ?2, ?3)"
            );
            assert!(matches!(&bind[0], SqlValue::Text(s) if s == "1"));
            assert!(matches!(&bind[1], SqlValue::Text(s) if s == "c"));
            assert!(matches!(&bind[2], SqlValue::Text(s) if s.len() == 20 && s.ends_with('Z')));
            svc.after_execute(then, Ok(1))
        }
        other => panic!("{other:?}"),
    };
    assert_eq!(batch(&step), "COMMIT");
    let (outcome, _) = done(ran(&mut svc, step, Ok(())));
    assert_eq!(outcome.message.as_deref(), Some("migration applied: 1"));
    assert!(records(&svc).starts_with(&record(1, "p", "db-migrate", true, 1)));
}

#[test]
fn a_migration_that_fails_is_rolled_back() {
    let mut svc = holding();
    let step = job(&mut svc);
    let step = standing(&mut svc, step, None);
    let step = ran(&mut svc, step, Ok(()));
    let step = ran(&mut svc, step, Ok(()));
    let step = ran(&mut svc, step, err("syntax"));
    assert_eq!(batch(&step), "ROLLBACK");
    let (outcome, _) = done(ran(&mut svc, step, err("ignored")));
    assert_eq!(outcome.code.as_deref(), Some("INTERNAL"));
    assert_eq!(outcome.message.as_deref(), Some("migration failed (rolled back): syntax"));
    assert!(records(&svc).starts_with(&record(1, "p", "db-migrate", false, 0)));
}

#[test]
fn a_migration_that_cannot_be_recorded_is_rolled_back() {
    let mut svc = holding();
    let step = job(&mut svc);
    let mut step = standing(&mut svc, step, None);
    for _ in 0..3 {
        step = ran(&mut svc, step, Ok(()));
    }
    let step = match step {
        Step::Execute { then, .. } => svc.after_execute(then, err("unique")),
        other => panic!("{other:?}"),
    };
    assert_eq!(batch(&step), "ROLLBACK");
    let (outcome, _) = done(ran(&mut svc, step, Ok(())));
    assert_eq!(outcome.message.as_deref(), Some("migration failed (rolled back): unique"));
}

#[test]
fn a_migration_that_stands_is_left_alone_or_refused() {
    let mut svc = holding();
    let step = job(&mut svc);
    let (outcome, _) = done(standing(&mut svc, step, Some("c")));
    assert_eq!(outcome.message.as_deref(), Some("migration already applied: 1"));
    let step = job(&mut svc);
    let (outcome, _) = done(standing(&mut svc, step, Some("d")));
    assert_eq!(outcome.code.as_deref(), Some("CONFLICT"));
    assert_eq!(
        outcome.message.as_deref(),
        Some("migration 1 already applied with a different checksum (refusing to reapply)")
    );
}

#[test]
fn a_ledger_that_cannot_be_made_fails_the_migration() {
    let mut svc = holding();
    let params = obj(vec![
        ("profile", t("p")),
        ("id", t("1")),
        ("checksum", t("c")),
        ("statements", Json::Array(vec![])),
    ]);
    let step = svc.handle("db-migrate", &params);
    let (outcome, _) = done(ran(&mut svc, step, err("readonly")));
    assert_eq!(outcome.message.as_deref(), Some("ledger init failed: readonly"));
}

fn field(s: &str) -> Field {
    Field { text: Ok(s.to_string()), int: s.parse().ok(), null: false }
}

fn null() -> Field {
    Field { text: Err("Invalid column type Null".to_string()), int: None, null: true }
}

#[test]
fn a_walk_reads_each_table_in_turn() {
    let mut svc = holding();
    let step = svc.handle("db-introspect", &obj(vec![("profile", t("p"))]));
    let read = |svc: &mut DbStudioService, step: Step, expected: &str, rows: Vec<Vec<Field>>| {
        match step {
            Step::ReadRows { conn: 7, sql, then, .. } => {
                assert_eq!(sql, expected);
                svc.after_read_rows(then, Rows { rows, error: None })
            }
            other => panic!("{other:?}"),
        }
    };
    let names = "SELECT name FROM sqlite_master WHERE type='table' AND name NOT LIKE 'sqlite\\_%' ESCAPE '\\' ORDER BY name";
    let step = read(&mut svc, step, names, vec![vec![field("a\"")], vec![field("b")]]);
    let column = vec![field("0"), field("id"), null(), field("1"), null(), field("0")];
    let step = read(&mut svc, step, "PRAGMA table_info(\"a\"\"\")", vec![column]);
    let key = vec![field("0"), field("0"), field("b"), field("id"), null(), null(), field("CASCADE")];
    let step = read(&mut svc, step, "PRAGMA foreign_key_list(\"a\"\"\")", vec![key]);
    let metas = vec![vec![field("0"), field("i"), field("1")], vec![field("1"), field("j"), field("0")]];
    let step = read(&mut svc, step, "PRAGMA index_list(\"a\"\"\")", metas);
    let cols = vec![vec![field("0"), field("0"), field("id")], vec![field("1"), field("-2"), null()]];
    let step = read(&mut svc, step, "PRAGMA index_info(\"i\")", cols);
    let step = read(&mut svc, step, "PRAGMA index_info(\"j\")", vec![]);
    let step = read(&mut svc, step, "PRAGMA table_info(\"b\")", vec![]);
    let step = read(&mut svc, step, "PRAGMA foreign_key_list(\"b\")", vec![]);
    let (outcome, _) = done(read(&mut svc, step, "PRAGMA index_list(\"b\")", vec![]));
    assert_eq!(
        write_compact(&outcome.data.unwrap()),
        "{\"tables\":[{\"name\":\"a\\\"\",\"columns\":[{\"name\":\"id\",\"type\":\"\",\"notnull\":true,\"pk\":false,\"default\":null}],\
\"foreignKeys\":[{\"table\":\"b\",\"from\":\"id\",\"to\":null,\"onUpdate\":\"\",\"onDelete\":\"CASCADE\"}],\
\"indexes\":[{\"name\":\"i\",\"unique\":true,\"columns\":[\"id\"]},{\"name\":\"j\",\"unique\":false,\"columns\":[]}]},\
{\"name\":\"b\",\"columns\":[],\"foreignKeys\":[],\"indexes\":[]}]}"
    );
    assert!(records(&svc).starts_with(&record(1, "p", "db-introspect", true, 2)));
}

#[test]
fn a_walk_ends_at_the_first_error() {
    let answer = |rows: Vec<Vec<Field>>, error: Option<&str>| {
        let mut svc = holding();
        match svc.handle("db-introspect", &obj(vec![("profile", t("p"))])) {
            Step::ReadRows { then, .. } => {
                let reply = Rows { rows, error: error.map(|s| s.to_string()) };
                done(svc.after_read_rows(then, reply)).0.message.unwrap()
            }
            other => panic!("{other:?}"),
        }
    };
    let bad = || vec![null()];
    assert_eq!(
        answer(vec![bad()], Some("later")),
        "introspect failed: Invalid column type Null"
    );
    assert_eq!(answer(vec![vec![field("a")]], Some("io")), "introspect failed: io");
    assert_eq!(answer(vec![vec![]], None), "introspect failed: Invalid column index: 0");
}

#[test]
fn unheld_profiles_are_refused() {
    let mut svc = DbStudioService::default();
    let (outcome, _) = done(svc.handle("db-introspect", &obj(vec![("profile", t("x"))])));
    assert_eq!(outcome.message.as_deref(), Some("profile not connected: x"));
    assert_eq!(records(&svc), record(0, "x", "db-introspect", false, 0));
    let (outcome, _) = done(svc.handle("db-introspect", &obj(vec![])));
    assert_eq!(outcome.message.as_deref(), Some("profile required"));
    assert_eq!(records(&svc), record(0, "x", "db-introspect", false, 0));
}

#[test]
fn probes_are_not_held() {
    let mut svc = DbStudioService::new();
    let then = AfterOpen::Session { purpose: Purpose::Ping, key: None };
    let (outcome, close) = done(svc.after_open(then, err("no driver")));
    assert_eq!(outcome.message.as_deref(), Some("open failed: no driver"));
    assert_eq!(close, None);
    assert_eq!(records(&svc), record(0, "", "ping", false, 0));
    assert!(svc.connected().is_empty());
}

#[test]
fn a_statement_that_is_not_read_only_is_not_started() {
    let ask = |sql: &str, read_only: bool| {
        let mut svc = holding();
        let params = obj(vec![("profile", t("p")), ("sql", t(sql))]);
        match svc.handle("query-run", &params) {
            Step::Prepare { then, .. } => svc.after_prepare(then, Ok((vec![], read_only))),
            other => panic!("{other:?}"),
        }
    };
    assert!(matches!(ask("SELECT 1", true), Step::Query { .. }));
    assert!(matches!(ask("WITH x AS (VALUES (1)) SELECT * FROM x", true), Step::Query { .. }));
    for (sql, read_only) in [("SELECT 1", false), ("DELETE FROM t", false), ("COMMIT", true)] {
        let (outcome, _) = done(ask(sql, read_only));
        assert_eq!(outcome.code.as_deref(), Some("INVALID_PARAMS"), "{sql}");
    }
}

#[test]
fn a_commit_that_fails_is_rolled_back() {
    let mut svc = holding();
    let step = job(&mut svc);
    let mut step = standing(&mut svc, step, None);
    for _ in 0..3 {
        step = ran(&mut svc, step, Ok(()));
    }
    let step = match step {
        Step::Execute { then, .. } => svc.after_execute(then, Ok(1)),
        other => panic!("{other:?}"),
    };
    assert_eq!(batch(&step), "COMMIT");
    let step = ran(&mut svc, step, err("busy"));
    assert_eq!(batch(&step), "ROLLBACK");
    let (outcome, _) = done(ran(&mut svc, step, Ok(())));
    assert_eq!(outcome.code.as_deref(), Some("INTERNAL"));
    assert_eq!(outcome.message.as_deref(), Some("commit failed: busy"));
    assert!(records(&svc).starts_with(&record(1, "p", "db-migrate", false, 0)));
}

#[test]
fn the_ledger_is_asked_for_in_the_order_of_its_rows() {
    let mut svc = holding();
    let step = svc.handle("migration-applied", &obj(vec![("profile", t("p"))]));
    let step = ran(&mut svc, step, Ok(()));
    match step {
        Step::ReadRows { conn: 7, sql, width: 3, then } => {
            assert_eq!(sql, "SELECT id, checksum, applied_at FROM _soksak_migrations ORDER BY rowid");
            let rows = vec![vec![field("b"), field("1"), null()], vec![field("a"), field("2"), null()]];
            let (outcome, _) = done(svc.after_read_rows(then, Rows { rows, error: None }));
            let data = write_compact(&outcome.data.unwrap());
            assert!(data.find("\"b\"").unwrap() < data.find("\"a\"").unwrap());
        }
        other => panic!("{other:?}"),
    }
    assert!(records(&svc).starts_with(&record(1, "p", "migration-applied", true, 2)));
}
