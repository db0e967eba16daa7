//! The operations of the service by name, and the way on from each of their steps.
use vstd::prelude::*;
use vstd::string::*;

use crate::catalog;
use crate::clock;
use crate::json::Json;
use crate::json;
use crate::migration;
use crate::outcome::ErrCode;
use crate::query;
use crate::service::DbStudioService;
use crate::service;
use crate::session;
use crate::step::{AfterExecute, AfterReadRows, AfterReadText, AfterRun, Rows, Step};
use crate::step;
use crate::text;

verus! {

/// The names of the operations.
pub open spec fn op_names() -> Seq<Seq<char>> {
    seq![
        "ping"@,
        "db-test"@,
        "db-connect"@,
        "db-disconnect"@,
        "db-status"@,
        "db-create"@,
        "db-rekey"@,
        "query-run"@,
        "db-introspect"@,
        "db-audit"@,
        "db-exec"@,
        "db-migrate"@,
        "migration-applied"@,
    ]
}

/// The operations that are registered as reads: they leave the held databases as they
/// are.
pub open spec fn reads_only(op: Seq<char>) -> bool {
    ||| op == "ping"@
    ||| op == "db-test"@
    ||| op == "db-status"@
    ||| op == "query-run"@
    ||| op == "db-introspect"@
    ||| op == "db-audit"@
    ||| op == "migration-applied"@
}

/// The first step of an operation.
pub open spec fn start(
    s: service::ServiceView,
    op: Seq<char>,
    params: json::JsonView,
) -> (service::ServiceView, step::StepView) {
    if op == "ping"@ {
        (s, session::ping_start())
    } else if op == "db-test"@ {
        (s, session::test_start(params))
    } else if op == "db-connect"@ {
        (s, session::connect_start(params))
    } else if op == "db-disconnect"@ {
        session::disconnect(s, params)
    } else if op == "db-status"@ {
        session::status(s)
    } else if op == "db-create"@ {
        (s, session::create_start(params))
    } else if op == "db-rekey"@ {
        (s, session::rekey_start(s, params))
    } else if op == "query-run"@ {
        query::query_start(s, params)
    } else if op == "db-introspect"@ {
        catalog::introspect_start(s, params)
    } else if op == "db-audit"@ {
        (s, session::read_audit(s, params))
    } else if op == "db-exec"@ {
        query::exec_start(s, params)
    } else if op == "db-migrate"@ {
        migration::migrate_start(s, params)
    } else if op == "migration-applied"@ {
        (s, migration::applied_start(s, params))
    } else {
        (s, step::failed(ErrCode::UnknownOp, op))
    }
}

/// What follows a command that has run. A migration is entered in the ledger with the
/// time `now`.
pub open spec fn after_run(
    s: service::ServiceView,
    then: step::AfterRunView,
    reply: Result<(), Seq<char>>,
    now: Seq<char>,
) -> (service::ServiceView, step::StepView) {
    match then {
        step::AfterRunView::Keyed { purpose, conn } => session::after_key(s, purpose, conn, reply),
        step::AfterRunView::Probed { purpose, conn, encrypted } => session::after_probe(
            s,
            purpose,
            conn,
            encrypted,
            reply,
        ),
        step::AfterRunView::CreateKeyed { file, conn } => session::after_create_key(
            s,
            file,
            conn,
            reply,
        ),
        step::AfterRunView::Created { file, conn, encrypted } => session::after_create(
            s,
            file,
            conn,
            encrypted,
            reply,
        ),
        step::AfterRunView::Rekeyed { profile } => session::after_rekey(s, profile, reply),
        step::AfterRunView::LedgerReady { job, conn } => migration::after_ledger(
            s,
            job,
            conn,
            reply,
        ),
        step::AfterRunView::Begun { job, conn } => migration::after_begin(
            s,
            job,
            conn,
            reply,
            now,
        ),
        step::AfterRunView::Applied { job, conn, index } => (
            s,
            migration::after_statement(job, conn, index, reply, now),
        ),
        step::AfterRunView::Committed { job, conn } => migration::after_commit(
            s,
            job,
            conn,
            reply,
        ),
        step::AfterRunView::RolledBack { job, message } => migration::after_rollback(
            s,
            job,
            message,
        ),
        step::AfterRunView::LedgerSeen { profile, conn } => migration::after_seen(
            s,
            profile,
            conn,
            reply,
        ),
    }
}

/// What follows a statement that has changed rows.
pub open spec fn after_execute(
    s: service::ServiceView,
    then: step::AfterExecuteView,
    reply: Result<u64, Seq<char>>,
) -> (service::ServiceView, step::StepView) {
    match then {
        step::AfterExecuteView::Exec { profile } => query::after_exec(s, profile, reply),
        step::AfterExecuteView::Recorded { job, conn } => (
            s,
            migration::after_record(job, conn, reply),
        ),
    }
}

/// What follows a text that was read.
pub open spec fn after_read_text(
    s: service::ServiceView,
    then: step::AfterReadTextView,
    reply: Result<Option<Seq<char>>, Seq<char>>,
) -> (service::ServiceView, step::StepView) {
    match then {
        step::AfterReadTextView::Version { purpose, conn, encrypted } => session::after_version(
            s,
            purpose,
            conn,
            encrypted,
            reply,
        ),
        step::AfterReadTextView::Checksum { job, conn } => migration::after_checksum(
            s,
            job,
            conn,
            reply,
        ),
    }
}

/// What follows rows that were read.
pub open spec fn after_read_rows(
    s: service::ServiceView,
    then: step::AfterReadRowsView,
    reply: step::RowsView,
) -> (service::ServiceView, step::StepView) {
    match then {
        step::AfterReadRowsView::TableNames { profile, conn, only } => catalog::after_names(
            s,
            profile,
            conn,
            only,
            reply,
        ),
        step::AfterReadRowsView::Columns { walk } => catalog::after_columns(s, walk, reply),
        step::AfterReadRowsView::ForeignKeys { walk, columns } => catalog::after_foreign_keys(
            s,
            walk,
            columns,
            reply,
        ),
        step::AfterReadRowsView::Indexes { walk, columns, foreign_keys } =>
        catalog::after_indexes(s, walk, columns, foreign_keys, reply),
        step::AfterReadRowsView::IndexColumns {
            walk,
            columns,
            foreign_keys,
            index,
            rest,
            indexes,
        } => catalog::after_index_columns(
            s,
            walk,
            columns,
            foreign_keys,
            index,
            rest,
            indexes,
            reply,
        ),
        step::AfterReadRowsView::Ledger { profile } => migration::after_entries(
            s,
            profile,
            reply,
        ),
    }
}

/// The length and the fourth character of a name. No two operations share both.
pub open spec fn mark(op: Seq<char>) -> (nat, char) {
    (op.len(), op[3])
}

/// The names of the operations differ, by their marks.
pub proof fn lemma_marks()
    ensures
        mark("ping"@) == (4nat, 'g'),
        mark("db-test"@) == (7nat, 't'),
        mark("db-connect"@) == (10nat, 'c'),
        mark("db-disconnect"@) == (13nat, 'd'),
        mark("db-status"@) == (9nat, 's'),
        mark("db-create"@) == (9nat, 'c'),
        mark("db-rekey"@) == (8nat, 'r'),
        mark("query-run"@) == (9nat, 'r'),
        mark("db-introspect"@) == (13nat, 'i'),
        mark("db-audit"@) == (8nat, 'a'),
        mark("db-exec"@) == (7nat, 'e'),
        mark("db-migrate"@) == (10nat, 'm'),
        mark("migration-applied"@) == (17nat, 'r'),
{
    reveal_strlit("ping");
    reveal_strlit("db-test");
    reveal_strlit("db-connect");
    reveal_strlit("db-disconnect");
    reveal_strlit("db-status");
    reveal_strlit("db-create");
    reveal_strlit("db-rekey");
    reveal_strlit("query-run");
    reveal_strlit("db-introspect");
    reveal_strlit("db-audit");
    reveal_strlit("db-exec");
    reveal_strlit("db-migrate");
    reveal_strlit("migration-applied");
}

impl DbStudioService {
    /// The names of the operations.
    pub fn ops(&self) -> (r: Vec<String>)
        ensures
            text::texts(r@) == op_names(),
    {
        let mut out: Vec<String> = Vec::new();
        out.push("ping".to_owned());
        out.push("db-test".to_owned());
        out.push("db-connect".to_owned());
        out.push("db-disconnect".to_owned());
        out.push("db-status".to_owned());
        out.push("db-create".to_owned());
        out.push("db-rekey".to_owned());
        out.push("query-run".to_owned());
        out.push("db-introspect".to_owned());
        out.push("db-audit".to_owned());
        out.push("db-exec".to_owned());
        out.push("db-migrate".to_owned());
        out.push("migration-applied".to_owned());
        assert(text::texts(out@) =~= op_names());
        out
    }

    /// Whether an operation is registered as a read.
    pub fn read_only(&self, op: &str) -> (r: bool)
        ensures
            r == reads_only(op@),
    {
        text::same(op, "ping") || text::same(op, "db-test") || text::same(op, "db-status")
            || text::same(op, "query-run") || text::same(op, "db-introspect") || text::same(
            op,
            "db-audit",
        ) || text::same(op, "migration-applied")
    }

    /// Begins the operation that a request names.
    pub fn handle(&mut self, op: &str, params: &Json) -> (r: Step)
        requires
            old(self).wf(),
        ensures
            final(self).wf(),
            (final(self)@, r@) == start(old(self)@, op@, params@),
    {
        if text::same(op, "ping") {
            session::op_ping()
        } else if text::same(op, "db-test") {
            session::op_db_test(params)
        } else if text::same(op, "db-connect") {
            self.db_connect(params)
        } else if text::same(op, "db-disconnect") {
            self.db_disconnect(params)
        } else if text::same(op, "db-status") {
            self.db_status()
        } else if text::same(op, "db-create") {
            self.db_create(params)
        } else if text::same(op, "db-rekey") {
            self.db_rekey(params)
        } else if text::same(op, "query-run") {
            self.query_run(params)
        } else if text::same(op, "db-introspect") {
            self.db_introspect(params)
        } else if text::same(op, "db-audit") {
            self.db_audit(params)
        } else if text::same(op, "db-exec") {
            self.db_exec(params)
        } else if text::same(op, "db-migrate") {
            self.db_migrate(params)
        } else if text::same(op, "migration-applied") {
            self.migration_applied(params)
        } else {
            step::fail_with(ErrCode::UnknownOp, op)
        }
    }

    /// Goes on once a command has run.
    pub fn after_run(&mut self, then: AfterRun, reply: Result<(), String>) -> (r: Step)
        requires
            old(self).wf(),
        ensures
            final(self).wf(),
            exists|now: Seq<char>|
                clock::is_stamp(now) && (final(self)@, r@) == #[trigger] after_run(
                    old(self)@,
                    then@,
                    step::reply_view(reply),
                    now,
                ),
    {
        let ghost mut at = clock::lemma_epoch();
        let r = match then {
            AfterRun::Keyed { purpose, conn } => self.after_key(purpose, conn, reply),
            AfterRun::Probed { purpose, conn, encrypted } => self.after_probe(
                purpose,
                conn,
                encrypted,
                reply,
            ),
            AfterRun::CreateKeyed { file, conn } => self.after_create_key(file, conn, reply),
            AfterRun::Created { file, conn, encrypted } => self.after_create(
                file,
                conn,
                encrypted,
                reply,
            ),
            AfterRun::Rekeyed { profile } => self.after_rekey(profile, reply),
            AfterRun::LedgerReady { job, conn } => self.after_ledger(job, conn, reply),
            AfterRun::Begun { job, conn } => {
                let next = self.after_begin(job, conn, reply);
                proof {
                    at = choose|now: Seq<char>|
                        clock::is_stamp(now) && (self@, next@) == #[trigger] migration::after_begin(
                            old(self)@,
                            job@,
                            conn,
                            step::reply_view(reply),
                            now,
                        );
                }
                next
            },
            AfterRun::Applied { job, conn, index } => {
                let next = self.after_statement(job, conn, index, reply);
                proof {
                    at = choose|now: Seq<char>|
                        clock::is_stamp(now) && next@ == #[trigger] migration::after_statement(
                            job@,
                            conn,
                            index,
                            step::reply_view(reply),
                            now,
                        );
                }
                next
            },
            AfterRun::Committed { job, conn } => self.after_commit(job, conn, reply),
            AfterRun::RolledBack { job, message } => self.after_rollback(job, message),
            AfterRun::LedgerSeen { profile, conn } => self.after_seen(profile, conn, reply),
        };
        assert((self@, r@) == after_run(old(self)@, then@, step::reply_view(reply), at));
        r
    }

    /// Goes on once a statement has changed rows.
    pub fn after_execute(&mut self, then: AfterExecute, reply: Result<u64, String>) -> (r: Step)
        requires
            old(self).wf(),
        ensures
            final(self).wf(),
            (final(self)@, r@) == after_execute(old(self)@, then@, step::reply_view(reply)),
    {
        match then {
            AfterExecute::Exec { profile } => self.after_exec(profile, reply),
            AfterExecute::Recorded { job, conn } => self.after_record(job, conn, reply),
        }
    }

    /// Goes on once a text was read.
    pub fn after_read_text(
        &mut self,
        then: AfterReadText,
        reply: Result<Option<String>, String>,
    ) -> (r: Step)
        requires
            old(self).wf(),
        ensures
            final(self).wf(),
            (final(self)@, r@) == after_read_text(
                old(self)@,
                then@,
                step::text_reply_view(reply),
            ),
    {
        match then {
            AfterReadText::Version { purpose, conn, encrypted } => self.after_version(
                purpose,
                conn,
                encrypted,
                reply,
            ),
            AfterReadText::Checksum { job, conn } => self.after_checksum(job, conn, reply),
        }
    }

    /// Goes on once rows were read.
    pub fn after_read_rows(&mut self, then: AfterReadRows, reply: Rows) -> (r: Step)
        requires
            old(self).wf(),
        ensures
            final(self).wf(),
            (final(self)@, r@) == after_read_rows(old(self)@, then@, reply@),
    {
        match then {
            AfterReadRows::TableNames { profile, conn, only } => self.after_names(
                profile,
                conn,
                only,
                reply,
            ),
            AfterReadRows::Columns { walk } => self.after_columns(walk, reply),
            AfterReadRows::ForeignKeys { walk, columns } => self.after_foreign_keys(
                walk,
                columns,
                reply,
            ),
            AfterReadRows::Indexes { walk, columns, foreign_keys } => self.after_indexes(
                walk,
                columns,
                foreign_keys,
                reply,
            ),
            AfterReadRows::IndexColumns { walk, columns, foreign_keys, index, rest, indexes } =>
            self.after_index_columns(walk, columns, foreign_keys, index, rest, indexes, reply),
            AfterReadRows::Ledger { profile } => self.after_entries(profile, reply),
        }
    }
}

} // verus!
