//! Migrations: `db-migrate` applies one as a single transaction and enters it in a
//! ledger; `migration-applied` reads the ledger.
use vstd::prelude::*;
use vstd::string::*;

use crate::clock;
use crate::json::Json;
use crate::json;
use crate::outcome::{ErrCode, Outcome};
use crate::outcome;
use crate::rows;
use crate::service::DbStudioService;
use crate::service;
use crate::session;
use crate::step::{AfterExecute, AfterReadRows, AfterReadText, AfterRun, Command, Field, Job, Rows, Step};
use crate::step;
use crate::text;
use crate::value::SqlValue;
use crate::value;

verus! {

/// Makes the ledger where there is none.
pub open spec fn ledger_sql() -> Seq<char> {
    "CREATE TABLE IF NOT EXISTS _soksak_migrations (id TEXT PRIMARY KEY, checksum TEXT, applied_at TEXT)"@
}

/// Reads the checksum under which a migration stands in the ledger.
pub open spec fn checksum_sql() -> Seq<char> {
    "SELECT checksum FROM _soksak_migrations WHERE id = ?1"@
}

/// Enters a migration in the ledger.
pub open spec fn record_sql() -> Seq<char> {
    "INSERT INTO _soksak_migrations(id, checksum, applied_at) VALUES(?1, ?2, ?3)"@
}

/// Looks for the ledger.
pub open spec fn seen_sql() -> Seq<char> {
    "SELECT 1 FROM sqlite_master WHERE type='table' AND name='_soksak_migrations'"@
}

/// Reads the ledger in the order of application: that in which its rows were entered.
pub open spec fn entries_sql() -> Seq<char> {
    "SELECT id, checksum, applied_at FROM _soksak_migrations ORDER BY rowid"@
}

/// Runs the statements of a text.
pub open spec fn batch(conn: u64, sql: Seq<char>, then: step::AfterRunView) -> step::StepView {
    step::StepView::Run { conn, command: step::CommandView::Batch { sql }, then }
}

/// Every item is a text.
pub open spec fn all_texts(items: Seq<json::JsonView>) -> bool {
    forall|i: int| 0 <= i < items.len() ==> #[trigger] items[i] is Text
}

/// The texts of a list of texts.
pub open spec fn texts_of(items: Seq<json::JsonView>) -> Seq<Seq<char>> {
    items.map_values(|v: json::JsonView| v->Text_0)
}

/// Why a request is not a migration, if it is not.
pub open spec fn migrate_fault(params: json::JsonView) -> Option<Seq<char>> {
    if params.text_at("profile"@) is None {
        Some("profile required"@)
    } else if params.text_at("id"@) is None {
        Some("id required"@)
    } else if params.text_at("checksum"@) is None {
        Some("checksum required"@)
    } else if params.array_at("statements"@) is None {
        Some("statements array required"@)
    } else if !all_texts(params.array_at("statements"@)->0) {
        Some("statements must be strings"@)
    } else {
        None
    }
}

/// The migration that a request asks for.
pub open spec fn job_of(params: json::JsonView) -> step::JobView {
    step::JobView {
        profile: params.text_at("profile"@)->0,
        id: params.text_at("id"@)->0,
        checksum: params.text_at("checksum"@)->0,
        statements: texts_of(params.array_at("statements"@)->0),
    }
}

/// The first step of `db-migrate`.
pub open spec fn migrate_start(
    s: service::ServiceView,
    params: json::JsonView,
) -> (service::ServiceView, step::StepView) {
    match migrate_fault(params) {
        Some(message) => (s, step::failed(ErrCode::InvalidParams, message)),
        None => {
            let job = job_of(params);
            match s.conn_of(job.profile) {
                None => migrate_failed(
                    s,
                    job,
                    ErrCode::Unavailable,
                    service::not_connected(job.profile),
                ),
                Some(conn) => (
                    s,
                    batch(conn, ledger_sql(), step::AfterRunView::LedgerReady { job, conn }),
                ),
            }
        },
    }
}

/// The end of a migration that failed.
pub open spec fn migrate_failed(
    s: service::ServiceView,
    job: step::JobView,
    code: ErrCode,
    message: Seq<char>,
) -> (service::ServiceView, step::StepView) {
    service::failed_on(s, job.profile, "db-migrate"@, code, message)
}

/// The end of a migration that was applied, or had been before.
pub open spec fn migrated(
    s: service::ServiceView,
    job: step::JobView,
    applied: bool,
) -> (service::ServiceView, step::StepView) {
    (
        s.audited(
            job.profile,
            "db-migrate"@,
            true,
            if applied {
                1
            } else {
                0
            },
        ),
        step::StepView::Done {
            outcome: outcome::success_with(
                json::JsonView::Object(
                    seq![
                        ("applied"@, json::JsonView::Bool(applied)),
                        ("id"@, json::JsonView::Text(job.id)),
                    ],
                ),
                if applied {
                    "migration applied: "@ + job.id
                } else {
                    "migration already applied: "@ + job.id
                },
            ),
            close: None,
        },
    )
}

/// What follows the making of the ledger.
pub open spec fn after_ledger(
    s: service::ServiceView,
    job: step::JobView,
    conn: u64,
    reply: Result<(), Seq<char>>,
) -> (service::ServiceView, step::StepView) {
    match reply {
        Err(e) => migrate_failed(s, job, ErrCode::Internal, "ledger init failed: "@ + e),
        Ok(_) => (
            s,
            step::StepView::ReadText {
                conn,
                sql: checksum_sql(),
                bind: seq![value::SqlValueView::Text(job.id)],
                then: step::AfterReadTextView::Checksum { job, conn },
            },
        ),
    }
}

/// The message for a migration that stands in the ledger under another checksum.
pub open spec fn conflict(id: Seq<char>) -> Seq<char> {
    "migration "@ + id + " already applied with a different checksum (refusing to reapply)"@
}

/// What follows the look into the ledger: a migration that stands there under the same
/// checksum is left alone, under another it is refused, and one that does not stand
/// there is begun.
pub open spec fn after_checksum(
    s: service::ServiceView,
    job: step::JobView,
    conn: u64,
    reply: Result<Option<Seq<char>>, Seq<char>>,
) -> (service::ServiceView, step::StepView) {
    match reply {
        Err(e) => migrate_failed(s, job, ErrCode::Internal, "ledger read failed: "@ + e),
        Ok(Some(standing)) => if standing == job.checksum {
            migrated(s, job, false)
        } else {
            migrate_failed(s, job, ErrCode::Conflict, conflict(job.id))
        },
        Ok(None) => (s, batch(conn, "BEGIN"@, step::AfterRunView::Begun { job, conn })),
    }
}

/// The step that runs statement `index` of a migration, or, past the last, enters the
/// migration in the ledger with the time `now`.
pub open spec fn work(
    job: step::JobView,
    conn: u64,
    index: int,
    now: Seq<char>,
) -> step::StepView {
    if index < job.statements.len() {
        batch(
            conn,
            job.statements[index],
            step::AfterRunView::Applied { job, conn, index: index as usize },
        )
    } else {
        step::StepView::Execute {
            conn,
            sql: record_sql(),
            bind: seq![
                value::SqlValueView::Text(job.id),
                value::SqlValueView::Text(job.checksum),
                value::SqlValueView::Text(now),
            ],
            then: step::AfterExecuteView::Recorded { job, conn },
        }
    }
}

/// The step that takes back what a migration did, for the reason that the message tells.
pub open spec fn roll_back(job: step::JobView, conn: u64, message: Seq<char>) -> step::StepView {
    batch(conn, "ROLLBACK"@, step::AfterRunView::RolledBack { job, message })
}

/// The message for a migration of which a statement failed, or the entry in the ledger.
pub open spec fn rolled_back(error: Seq<char>) -> Seq<char> {
    "migration failed (rolled back): "@ + error
}

/// What follows the beginning of the transaction.
pub open spec fn after_begin(
    s: service::ServiceView,
    job: step::JobView,
    conn: u64,
    reply: Result<(), Seq<char>>,
    now: Seq<char>,
) -> (service::ServiceView, step::StepView) {
    match reply {
        Err(e) => migrate_failed(s, job, ErrCode::Internal, "begin failed: "@ + e),
        Ok(_) => (s, work(job, conn, 0, now)),
    }
}

/// What follows statement `index` of a migration.
pub open spec fn after_statement(
    job: step::JobView,
    conn: u64,
    index: usize,
    reply: Result<(), Seq<char>>,
    now: Seq<char>,
) -> step::StepView {
    match reply {
        Err(e) => roll_back(job, conn, rolled_back(e)),
        Ok(_) => work(job, conn, index + 1, now),
    }
}

/// What follows the entry in the ledger.
pub open spec fn after_record(
    job: step::JobView,
    conn: u64,
    reply: Result<u64, Seq<char>>,
) -> step::StepView {
    match reply {
        Err(e) => roll_back(job, conn, rolled_back(e)),
        Ok(_) => batch(conn, "COMMIT"@, step::AfterRunView::Committed { job, conn }),
    }
}

/// What follows the end of the transaction. One that could not be committed is still
/// open, so it is rolled back.
pub open spec fn after_commit(
    s: service::ServiceView,
    job: step::JobView,
    conn: u64,
    reply: Result<(), Seq<char>>,
) -> (service::ServiceView, step::StepView) {
    match reply {
        Err(e) => (s, roll_back(job, conn, "commit failed: "@ + e)),
        Ok(_) => migrated(s, job, true),
    }
}

/// What follows the taking back of a migration: the error that led to it is told,
/// whether or not it could be taken back.
pub open spec fn after_rollback(
    s: service::ServiceView,
    job: step::JobView,
    message: Seq<char>,
) -> (service::ServiceView, step::StepView) {
    migrate_failed(s, job, ErrCode::Internal, message)
}

/// The first step of `migration-applied`.
pub open spec fn applied_start(
    s: service::ServiceView,
    params: json::JsonView,
) -> step::StepView {
    match params.text_at("profile"@) {
        None => step::failed(ErrCode::InvalidParams, "profile required"@),
        Some(profile) => match s.conn_of(profile) {
            None => step::failed(ErrCode::Unavailable, service::not_connected(profile)),
            Some(conn) => step::StepView::Run {
                conn,
                command: step::CommandView::ReadInt { sql: seen_sql() },
                then: step::AfterRunView::LedgerSeen { profile, conn },
            },
        },
    }
}

/// The answer of `migration-applied`.
pub open spec fn ledger_json(entries: Seq<json::JsonView>) -> step::StepView {
    step::StepView::Done {
        outcome: outcome::success(
            json::JsonView::Object(
                seq![
                    ("migrations"@, json::JsonView::Array(entries)),
                    (
                        "count"@,
                        json::JsonView::Number(json::NumberView::Unsigned(entries.len() as u64)),
                    ),
                ],
            ),
        ),
        close: None,
    }
}

/// The end of `migration-applied` on a ledger that was read.
pub open spec fn listed(
    s: service::ServiceView,
    profile: Seq<char>,
    entries: Seq<json::JsonView>,
) -> (service::ServiceView, step::StepView) {
    (
        s.audited(profile, "migration-applied"@, true, entries.len() as u64),
        ledger_json(entries),
    )
}

/// What follows the look for the ledger: a database without one has applied nothing.
pub open spec fn after_seen(
    s: service::ServiceView,
    profile: Seq<char>,
    conn: u64,
    reply: Result<(), Seq<char>>,
) -> (service::ServiceView, step::StepView) {
    match reply {
        Err(_) => listed(s, profile, Seq::empty()),
        Ok(_) => (
            s,
            step::StepView::ReadRows {
                conn,
                sql: entries_sql(),
                width: 3,
                then: step::AfterReadRowsView::Ledger { profile },
            },
        ),
    }
}

/// An entry of the ledger: its id and checksum are texts, its time may be missing.
pub open spec fn entry_of(row: Seq<step::FieldView>) -> Result<json::JsonView, Seq<char>> {
    match (
        rows::text_field(row, 0),
        rows::text_field(row, 1),
        rows::nullable_field(row, 2),
    ) {
        (Err(e), _, _) => Err(e),
        (Ok(_), Err(e), _) => Err(e),
        (Ok(_), Ok(_), Err(e)) => Err(e),
        (Ok(id), Ok(checksum), Ok(applied_at)) => Ok(
            json::JsonView::Object(
                seq![
                    ("id"@, json::JsonView::Text(id)),
                    ("checksum"@, json::JsonView::Text(checksum)),
                    ("appliedAt"@, json::optional_text(applied_at)),
                ],
            ),
        ),
    }
}

/// What follows the reading of the ledger.
pub open spec fn after_entries(
    s: service::ServiceView,
    profile: Seq<char>,
    reply: step::RowsView,
) -> (service::ServiceView, step::StepView) {
    match rows::values_of(reply, |row: Seq<step::FieldView>| entry_of(row)) {
        Err(e) => service::failed_on(
            s,
            profile,
            "migration-applied"@,
            ErrCode::Internal,
            "ledger read failed: "@ + e,
        ),
        Ok(entries) => listed(s, profile, entries),
    }
}

fn send_batch(conn: u64, sql: String, then: AfterRun) -> (r: Step)
    ensures
        r@ == batch(conn, sql@, then@),
{
    Step::Run { conn, command: Command::Batch { sql }, then }
}

fn send_roll_back(job: Job, conn: u64, message: String) -> (r: Step)
    ensures
        r@ == roll_back(job@, conn, message@),
{
    send_batch(conn, "ROLLBACK".to_owned(), AfterRun::RolledBack { job, message })
}

/// The texts of a list, where all its items are texts.
fn strings(items: &Vec<Json>) -> (r: Option<Vec<String>>)
    ensures
        r is Some == all_texts(json::items_view(items@)),
        r is Some ==> text::texts(r->0@) == texts_of(json::items_view(items@)),
{
    let ghost views = json::items_view(items@);
    let mut out: Vec<String> = Vec::new();
    let mut i: usize = 0;
    while i < items.len()
        invariant
            i <= items.len(),
            views == json::items_view(items@),
            out@.len() == i,
            forall|k: int|
                0 <= k < i ==> #[trigger] views[k] == json::JsonView::Text(out@[k]@),
        decreases items.len() - i,
    {
        assert(views[i as int] == items@[i as int]@);
        match &items[i] {
            Json::Text(s) => {
                out.push(s.clone());
            },
            _ => {
                assert(!(views[i as int] is Text));
                return None;
            },
        }
        i += 1;
    }
    assert(text::texts(out@) =~= texts_of(views));
    Some(out)
}

/// Enters a migration in the ledger with the time `now`.
pub fn record_at(job: Job, conn: u64, now: String) -> (r: Step)
    ensures
        r@ == work(job@, conn, job@.statements.len() as int, now@),
{
    let mut bind: Vec<SqlValue> = Vec::new();
    bind.push(SqlValue::Text(job.id.clone()));
    bind.push(SqlValue::Text(job.checksum.clone()));
    bind.push(SqlValue::Text(now));
    assert(value::bind_view(bind@) =~= seq![
        value::SqlValueView::Text(job@.id),
        value::SqlValueView::Text(job@.checksum),
        value::SqlValueView::Text(now@),
    ]);
    Step::Execute {
        conn,
        sql: "INSERT INTO _soksak_migrations(id, checksum, applied_at) VALUES(?1, ?2, ?3)".to_owned(),
        bind,
        then: AfterExecute::Recorded { job, conn },
    }
}

fn run_statement(job: Job, conn: u64, index: usize) -> (r: Step)
    requires
        index < job.statements@.len(),
    ensures
        forall|now: Seq<char>| r@ == #[trigger] work(job@, conn, index as int, now),
{
    let sql = job.statements[index].clone();
    send_batch(conn, sql, AfterRun::Applied { job, conn, index })
}

fn entry_at(row: &Vec<Field>) -> (r: Result<Json, String>)
    ensures
        rows::value_view(r) == entry_of(step::row_view(row@)),
{
    broadcast use json::lemma_object_view;

    let id = match rows::text_at(row, 0) {
        Ok(s) => s,
        Err(e) => return Err(e),
    };
    let checksum = match rows::text_at(row, 1) {
        Ok(s) => s,
        Err(e) => return Err(e),
    };
    let applied_at = match rows::nullable_at(row, 2) {
        Ok(s) => s,
        Err(e) => return Err(e),
    };
    let ghost views = (id@, checksum@, text::opt_text(applied_at));
    let mut o: Vec<(String, Json)> = Vec::new();
    json::put(&mut o, "id", Json::Text(id));
    json::put(&mut o, "checksum", Json::Text(checksum));
    json::put(
        &mut o,
        "appliedAt",
        match applied_at {
            Some(s) => Json::Text(s),
            None => Json::Null,
        },
    );
    assert(json::entries_view(o@) =~= seq![
        ("id"@, json::JsonView::Text(views.0)),
        ("checksum"@, json::JsonView::Text(views.1)),
        ("appliedAt"@, json::optional_text(views.2)),
    ]);
    Ok(Json::Object(o))
}

fn ledger_answer(entries: Vec<Json>) -> (r: Step)
    ensures
        r@ == ledger_json(json::items_view(entries@)),
{
    broadcast use {json::lemma_object_view, json::lemma_array_view};

    let n = entries.len();
    let ghost views = json::items_view(entries@);
    let mut o: Vec<(String, Json)> = Vec::new();
    json::put(&mut o, "migrations", Json::Array(entries));
    json::put(&mut o, "count", session::count(n));
    assert(json::entries_view(o@) =~= seq![
        ("migrations"@, json::JsonView::Array(views)),
        (
            "count"@,
            json::JsonView::Number(json::NumberView::Unsigned(views.len() as u64)),
        ),
    ]);
    Step::Done { outcome: Outcome::ok(Json::Object(o)), close: None }
}

impl DbStudioService {
    /// `db-migrate`: applies one migration as a single transaction. One that stands in
    /// the ledger under the same checksum is left alone; under another it is refused.
    pub fn db_migrate(&mut self, params: &Json) -> (r: Step)
        requires
            old(self).wf(),
        ensures
            final(self).wf(),
            (final(self)@, r@) == migrate_start(old(self)@, params@),
    {
        broadcast use {json::lemma_object_view, json::lemma_array_view};

        let profile = match params.text_at("profile") {
            Some(p) => p,
            None => return step::fail_with(ErrCode::InvalidParams, "profile required"),
        };
        let id = match params.text_at("id") {
            Some(s) => s,
            None => return step::fail_with(ErrCode::InvalidParams, "id required"),
        };
        let checksum = match params.text_at("checksum") {
            Some(s) => s,
            None => return step::fail_with(ErrCode::InvalidParams, "checksum required"),
        };
        let statements = match params.get("statements") {
            Some(Json::Array(items)) => match strings(items) {
                Some(v) => v,
                None => return step::fail_with(
                    ErrCode::InvalidParams,
                    "statements must be strings",
                ),
            },
            _ => return step::fail_with(ErrCode::InvalidParams, "statements array required"),
        };
        let job = Job { profile, id, checksum, statements };
        match self.conn_of(job.profile.as_str()) {
            None => {
                let message = text::joined("profile not connected: ", job.profile.as_str());
                self.fail_migration(&job, ErrCode::Unavailable, message)
            },
            Some(conn) => send_batch(
                conn,
                "CREATE TABLE IF NOT EXISTS _soksak_migrations (id TEXT PRIMARY KEY, checksum TEXT, applied_at TEXT)".to_owned(),
                AfterRun::LedgerReady { job, conn },
            ),
        }
    }

    fn fail_migration(&mut self, job: &Job, code: ErrCode, message: String) -> (r: Step)
        requires
            old(self).wf(),
        ensures
            final(self).wf(),
            (final(self)@, r@) == migrate_failed(old(self)@, job@, code, message@),
    {
        self.fail_on(job.profile.as_str(), "db-migrate", code, message)
    }

    fn end_migration(&mut self, job: Job, applied: bool) -> (r: Step)
        requires
            old(self).wf(),
        ensures
            final(self).wf(),
            (final(self)@, r@) == migrated(old(self)@, job@, applied),
    {
        broadcast use json::lemma_object_view;

        self.audit_append(
            job.profile.as_str(),
            "db-migrate",
            true,
            if applied {
                1
            } else {
                0
            },
        );
        let message = if applied {
            text::joined("migration applied: ", job.id.as_str())
        } else {
            text::joined("migration already applied: ", job.id.as_str())
        };
        let mut o: Vec<(String, Json)> = Vec::new();
        json::put(&mut o, "applied", Json::Bool(applied));
        json::put(&mut o, "id", Json::Text(job.id.clone()));
        assert(json::entries_view(o@) =~= seq![
            ("applied"@, json::JsonView::Bool(applied)),
            ("id"@, json::JsonView::Text(job@.id)),
        ]);
        Step::Done { outcome: Outcome::ok_msg(Json::Object(o), message), close: None }
    }

    /// Goes on once the ledger was made.
    pub fn after_ledger(&mut self, job: Job, conn: u64, reply: Result<(), String>) -> (r: Step)
        requires
            old(self).wf(),
        ensures
            final(self).wf(),
            (final(self)@, r@) == after_ledger(old(self)@, job@, conn, step::reply_view(reply)),
    {
        match reply {
            Err(e) => self.fail_migration(
                &job,
                ErrCode::Internal,
                text::joined("ledger init failed: ", e.as_str()),
            ),
            Ok(_) => {
                let mut bind: Vec<SqlValue> = Vec::new();
                bind.push(SqlValue::Text(job.id.clone()));
                assert(value::bind_view(bind@) =~= seq![value::SqlValueView::Text(job@.id)]);
                Step::ReadText {
                    conn,
                    sql: "SELECT checksum FROM _soksak_migrations WHERE id = ?1".to_owned(),
                    bind,
                    then: AfterReadText::Checksum { job, conn },
                }
            },
        }
    }

    /// Goes on once the ledger was asked for the migration.
    pub fn after_checksum(
        &mut self,
        job: Job,
        conn: u64,
        reply: Result<Option<String>, String>,
    ) -> (r: Step)
        requires
            old(self).wf(),
        ensures
            final(self).wf(),
            (final(self)@, r@) == after_checksum(
                old(self)@,
                job@,
                conn,
                step::text_reply_view(reply),
            ),
    {
        match reply {
            Err(e) => self.fail_migration(
                &job,
                ErrCode::Internal,
                text::joined("ledger read failed: ", e.as_str()),
            ),
            Ok(Some(standing)) => if text::same(standing.as_str(), job.checksum.as_str()) {
                self.end_migration(job, false)
            } else {
                let mut message = text::joined("migration ", job.id.as_str());
                message.append(" already applied with a different checksum (refusing to reapply)");
                self.fail_migration(&job, ErrCode::Conflict, message)
            },
            Ok(None) => send_batch(conn, "BEGIN".to_owned(), AfterRun::Begun { job, conn }),
        }
    }

    /// Goes on once the transaction of a migration was begun.
    pub fn after_begin(&mut self, job: Job, conn: u64, reply: Result<(), String>) -> (r: Step)
        requires
            old(self).wf(),
        ensures
            final(self).wf(),
            exists|now: Seq<char>|
                clock::is_stamp(now) && (final(self)@, r@) == #[trigger] after_begin(
                    old(self)@,
                    job@,
                    conn,
                    step::reply_view(reply),
                    now,
                ),
    {
        let ghost mut at = clock::lemma_epoch();
        let r = match reply {
            Err(e) => self.fail_migration(
                &job,
                ErrCode::Internal,
                text::joined("begin failed: ", e.as_str()),
            ),
            Ok(_) => if job.statements.len() > 0 {
                run_statement(job, conn, 0)
            } else {
                let now = clock::rfc3339_now();
                proof {
                    at = now@;
                }
                record_at(job, conn, now)
            },
        };
        assert((self@, r@) == after_begin(old(self)@, job@, conn, step::reply_view(reply), at));
        r
    }

    /// Goes on once statement `index` of a migration was run.
    pub fn after_statement(
        &self,
        job: Job,
        conn: u64,
        index: usize,
        reply: Result<(), String>,
    ) -> (r: Step)
        ensures
            exists|now: Seq<char>|
                clock::is_stamp(now) && r@ == #[trigger] after_statement(
                    job@,
                    conn,
                    index,
                    step::reply_view(reply),
                    now,
                ),
    {
        let ghost mut at = clock::lemma_epoch();
        let r = match reply {
            Err(e) => send_roll_back(
                job,
                conn,
                text::joined("migration failed (rolled back): ", e.as_str()),
            ),
            Ok(_) => if job.statements.len() > 0 && index < job.statements.len() - 1 {
                run_statement(job, conn, index + 1)
            } else {
                let now = clock::rfc3339_now();
                proof {
                    at = now@;
                }
                record_at(job, conn, now)
            },
        };
        assert(r@ == after_statement(job@, conn, index, step::reply_view(reply), at));
        r
    }

    /// Goes on once a migration was entered in the ledger.
    pub fn after_record(&self, job: Job, conn: u64, reply: Result<u64, String>) -> (r: Step)
        ensures
            r@ == after_record(job@, conn, step::reply_view(reply)),
    {
        match reply {
            Err(e) => send_roll_back(
                job,
                conn,
                text::joined("migration failed (rolled back): ", e.as_str()),
            ),
            Ok(_) => send_batch(conn, "COMMIT".to_owned(), AfterRun::Committed { job, conn }),
        }
    }

    /// Goes on once the transaction of a migration was committed.
    pub fn after_commit(&mut self, job: Job, conn: u64, reply: Result<(), String>) -> (r: Step)
        requires
            old(self).wf(),
        ensures
            final(self).wf(),
            (final(self)@, r@) == after_commit(old(self)@, job@, conn, step::reply_view(reply)),
    {
        match reply {
            Err(e) => send_roll_back(job, conn, text::joined("commit failed: ", e.as_str())),
            Ok(_) => self.end_migration(job, true),
        }
    }

    /// Goes on once a migration was rolled back, or could not be.
    pub fn after_rollback(&mut self, job: Job, message: String) -> (r: Step)
        requires
            old(self).wf(),
        ensures
            final(self).wf(),
            (final(self)@, r@) == after_rollback(old(self)@, job@, message@),
    {
        self.fail_migration(&job, ErrCode::Internal, message)
    }

    /// `migration-applied`: lists the ledger of a held database.
    pub fn migration_applied(&self, params: &Json) -> (r: Step)
        requires
            self.wf(),
        ensures
            r@ == applied_start(self@, params@),
    {
        let profile = match params.text_at("profile") {
            Some(p) => p,
            None => return step::fail_with(ErrCode::InvalidParams, "profile required"),
        };
        match self.conn_of(profile.as_str()) {
            None => step::fail(
                ErrCode::Unavailable,
                text::joined("profile not connected: ", profile.as_str()),
            ),
            Some(conn) => Step::Run {
                conn,
                command: Command::ReadInt {
                    sql: "SELECT 1 FROM sqlite_master WHERE type='table' AND name='_soksak_migrations'".to_owned(),
                },
                then: AfterRun::LedgerSeen { profile, conn },
            },
        }
    }

    fn end_listing(&mut self, profile: &str, entries: Vec<Json>) -> (r: Step)
        requires
            old(self).wf(),
        ensures
            final(self).wf(),
            (final(self)@, r@) == listed(old(self)@, profile@, json::items_view(entries@)),
    {
        self.audit_append(profile, "migration-applied", true, entries.len() as u64);
        ledger_answer(entries)
    }

    /// Goes on once the ledger was looked for.
    pub fn after_seen(&mut self, profile: String, conn: u64, reply: Result<(), String>) -> (r: Step)
        requires
            old(self).wf(),
        ensures
            final(self).wf(),
            (final(self)@, r@) == after_seen(
                old(self)@,
                profile@,
                conn,
                step::reply_view(reply),
            ),
    {
        match reply {
            Err(_) => {
                let none: Vec<Json> = Vec::new();
                assert(json::items_view(none@) =~= Seq::empty());
                self.end_listing(profile.as_str(), none)
            },
            Ok(_) => Step::ReadRows {
                conn,
                sql: "SELECT id, checksum, applied_at FROM _soksak_migrations ORDER BY rowid".to_owned(),
                width: 3,
                then: AfterReadRows::Ledger { profile },
            },
        }
    }

    /// Goes on once the ledger was read.
    pub fn after_entries(&mut self, profile: String, reply: Rows) -> (r: Step)
        requires
            old(self).wf(),
        ensures
            final(self).wf(),
            (final(self)@, r@) == after_entries(old(self)@, profile@, reply@),
    {
        match rows::read_all(reply, entry_at, Ghost(|row: Seq<step::FieldView>| entry_of(row))) {
            Err(e) => self.fail_on(
                profile.as_str(),
                "migration-applied",
                ErrCode::Internal,
                text::joined("ledger read failed: ", e.as_str()),
            ),
            Ok(entries) => self.end_listing(profile.as_str(), entries),
        }
    }
}

} // verus!
