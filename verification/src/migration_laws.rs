//! What holds of every migration.
use vstd::prelude::*;

use crate::dispatch;
use crate::json;
use crate::migration;
use crate::outcome::ErrCode;
use crate::rows;
use crate::run;
use crate::service;
use crate::step;

verus! {

/// The reply belongs to the step and is no error.
pub open spec fn goes_well(st: step::StepView, reply: run::ReplyView) -> bool {
    match (st, reply) {
        (step::StepView::Run { conn, command, then }, run::ReplyView::Ran(r, now)) => r is Ok,
        (step::StepView::Execute { conn, sql, bind, then }, run::ReplyView::Changed(r)) => r is Ok,
        _ => false,
    }
}

/// The reply belongs to the step.
pub open spec fn answers(st: step::StepView, reply: run::ReplyView) -> bool {
    match (st, reply) {
        (step::StepView::Run { conn, command, then }, run::ReplyView::Ran(r, now)) => true,
        (step::StepView::Execute { conn, sql, bind, then }, run::ReplyView::Changed(r)) => true,
        _ => false,
    }
}

/// The step that a run has come to after `n` replies.
pub open spec fn step_at(
    s: service::ServiceView,
    st: step::StepView,
    replies: Seq<run::ReplyView>,
    n: int,
) -> step::StepView {
    run::run(s, st, replies.take(n)).1
}

/// Each step of a run up to its end was answered.
pub open spec fn all_answered(
    s: service::ServiceView,
    st: step::StepView,
    replies: Seq<run::ReplyView>,
) -> bool {
    forall|i: int| 0 <= i < replies.len() ==> answers(#[trigger] step_at(s, st, replies, i), replies[i])
}

/// The first `n` steps of a run went well.
pub open spec fn well_until(
    s: service::ServiceView,
    st: step::StepView,
    replies: Seq<run::ReplyView>,
    n: int,
) -> bool {
    forall|i: int| 0 <= i < n ==> goes_well(#[trigger] step_at(s, st, replies, i), replies[i])
}

/// The step that begins the transaction of a migration.
pub open spec fn begin(job: step::JobView, conn: u64) -> step::StepView {
    migration::batch(conn, "BEGIN"@, step::AfterRunView::Begun { job, conn })
}

/// The step that ends it.
pub open spec fn commit(job: step::JobView, conn: u64) -> step::StepView {
    migration::batch(conn, "COMMIT"@, step::AfterRunView::Committed { job, conn })
}

/// The step is to run statement `i` of the migration, or, past the last, to enter the
/// migration in the ledger.
pub open spec fn is_work(st: step::StepView, job: step::JobView, conn: u64, i: int) -> bool {
    exists|now: Seq<char>| st == #[trigger] migration::work(job, conn, i, now)
}

/// The step is to roll the transaction back.
pub open spec fn is_roll_back(st: step::StepView, job: step::JobView, conn: u64) -> bool {
    exists|message: Seq<char>| st == #[trigger] migration::roll_back(job, conn, message)
}

/// Where a migration stands after `n` replies.
spec fn stands(
    s: service::ServiceView,
    job: step::JobView,
    conn: u64,
    replies: Seq<run::ReplyView>,
    n: int,
) -> bool {
    let st0 = begin(job, conn);
    let (s1, st) = run::run(s, st0, replies.take(n));
    let len = job.statements.len();
    let well = well_until(s, st0, replies, n);
    match st {
        step::StepView::Done { outcome, close } => {
            &&& n >= 1
            &&& outcome.ok ==> well && n == len + 3 && (s1, st) == migration::migrated(s, job, true)
            &&& !outcome.ok ==> {
                ||| n == 1 && !well
                ||| is_roll_back(step_at(s, st0, replies, n - 1), job, conn)
            }
        },
        _ => {
            &&& s1 == s
            &&& {
                ||| n == 0 && st == st0
                ||| well && 1 <= n <= len + 1 && is_work(st, job, conn, n - 1)
                ||| well && n == len + 2 && st == commit(job, conn)
                ||| is_roll_back(st, job, conn)
            }
        },
    }
}

proof fn lemma_stands(
    s: service::ServiceView,
    job: step::JobView,
    conn: u64,
    replies: Seq<run::ReplyView>,
    n: int,
)
    requires
        job.statements.len() <= usize::MAX,
        all_answered(s, begin(job, conn), replies),
        0 <= n <= replies.len(),
    ensures
        stands(s, job, conn, replies, n),
    decreases n,
{
    let st0 = begin(job, conn);
    if n == 0 {
        assert(replies.take(0).len() == 0);
    } else {
        lemma_stands(s, job, conn, replies, n - 1);
        run::lemma_one_more(s, st0, replies, n - 1);
        let (s1, before) = run::run(s, st0, replies.take(n - 1));
        let (s2, after) = run::run(s, st0, replies.take(n));
        let reply = replies[n - 1];
        assert(before == step_at(s, st0, replies, n - 1));
        assert(answers(before, reply));
        assert(!(before is Done));
        let well = well_until(s, st0, replies, n - 1);
        if well && goes_well(before, reply) {
            assert(well_until(s, st0, replies, n));
        }
        if n - 1 == job.statements.len() + 2 && before == commit(job, conn) {
            if let run::ReplyView::Ran(r, now) = reply {
                if let Err(e) = r {
                    assert(after == migration::roll_back(job, conn, "commit failed: "@ + e));
                }
            }
        } else if before == st0 && n == 1 {
            assert(step_at(s, st0, replies, 0) == st0);
            if let run::ReplyView::Ran(r, now) = reply {
                if r is Ok {
                    assert(after == migration::work(job, conn, 0, now));
                }
            }
        } else if well && 1 <= n - 1 <= job.statements.len() + 1 && is_work(before, job, conn, n - 2) {
            let now0 = choose|now: Seq<char>| before == #[trigger] migration::work(job, conn, n - 2, now);
            if n - 2 < job.statements.len() {
                if let run::ReplyView::Ran(r, now) = reply {
                    match r {
                        Ok(_) => {
                            assert(after == migration::work(job, conn, n - 1, now));
                        },
                        Err(e) => {
                            assert(after == migration::roll_back(
                                job,
                                conn,
                                migration::rolled_back(e),
                            ));
                        },
                    }
                }
            } else {
                if let run::ReplyView::Changed(r) = reply {
                    match r {
                        Ok(_) => {
                            assert(after == commit(job, conn));
                        },
                        Err(e) => {
                            assert(after == migration::roll_back(
                                job,
                                conn,
                                migration::rolled_back(e),
                            ));
                        },
                    }
                }
            }
        }
    }
}

/// A migration is one transaction. It succeeds exactly in this way: the transaction is
/// begun, each statement is run in its order, the migration is entered in the ledger,
/// and the transaction is committed, all without an error. Where it fails, either the
/// transaction could not be begun, or the last thing that was asked was to roll it back:
/// no transaction that was begun is left open.
pub proof fn law_a_migration_is_one_transaction(
    s: service::ServiceView,
    job: step::JobView,
    conn: u64,
    replies: Seq<run::ReplyView>,
)
    requires
        job.statements.len() <= usize::MAX,
        all_answered(s, begin(job, conn), replies),
        run::run(s, begin(job, conn), replies).1 is Done,
    ensures
        ({
            let st0 = begin(job, conn);
            let (s1, st1) = run::run(s, st0, replies);
            let len = job.statements.len() as int;
            let n = replies.len() as int;
            if st1->outcome.ok {
                &&& n == len + 3
                &&& forall|i: int|
                    0 <= i < n ==> goes_well(#[trigger] step_at(s, st0, replies, i), replies[i])
                &&& forall|i: int|
                    0 <= i <= len ==> is_work(#[trigger] step_at(s, st0, replies, i + 1), job, conn, i)
                &&& step_at(s, st0, replies, len + 2) == commit(job, conn)
                &&& (s1, st1) == migration::migrated(s, job, true)
            } else {
                ||| n == 1 && !goes_well(st0, replies[0])
                ||| is_roll_back(step_at(s, st0, replies, n - 1), job, conn)
            }
        }),
{
    let st0 = begin(job, conn);
    let n = replies.len() as int;
    let len = job.statements.len() as int;
    assert(replies.take(n) =~= replies);
    lemma_stands(s, job, conn, replies, n);
    lemma_stands(s, job, conn, replies, n - 1);
    if run::run(s, st0, replies).1->outcome.ok {
        assert forall|i: int| 0 <= i <= len implies is_work(
            #[trigger] step_at(s, st0, replies, i + 1),
            job,
            conn,
            i,
        ) by {
            lemma_stands(s, job, conn, replies, i + 1);
            let st = step_at(s, st0, replies, i + 1);
            if is_roll_back(st, job, conn) {
                run::lemma_one_more(s, st0, replies, i + 1);
                assert(answers(st, replies[i + 1]));
                assert(answers(step_at(s, st0, replies, i + 2), replies[i + 2]));
            }
        }
    }
}

/// A migration whose every step goes well is applied.
pub proof fn law_a_migration_that_goes_well_is_applied(
    s: service::ServiceView,
    job: step::JobView,
    conn: u64,
    replies: Seq<run::ReplyView>,
)
    requires
        job.statements.len() <= usize::MAX,
        replies.len() == job.statements.len() + 3,
        forall|i: int|
            0 <= i < replies.len() ==> if i == job.statements.len() + 1 {
                #[trigger] replies[i] is Changed && replies[i]->Changed_0 is Ok
            } else {
                replies[i] is Ran && replies[i]->Ran_0 is Ok
            },
    ensures
        run::run(s, begin(job, conn), replies) == migration::migrated(s, job, true),
{
    let st0 = begin(job, conn);
    let len = job.statements.len() as int;
    lemma_work_goes_on(s, job, conn, replies, len);
    run::lemma_one_more(s, st0, replies, len + 1);
    run::lemma_one_more(s, st0, replies, len + 2);
    assert(replies.take(len + 3) =~= replies);
}

/// Where a migration stands once it was begun and its first `n` statements were run.
pub proof fn lemma_work_goes_on(
    s: service::ServiceView,
    job: step::JobView,
    conn: u64,
    replies: Seq<run::ReplyView>,
    n: int,
)
    requires
        0 <= n <= job.statements.len() <= usize::MAX,
        n < replies.len(),
        forall|i: int|
            0 <= i <= n ==> #[trigger] replies[i] is Ran && replies[i]->Ran_0 is Ok,
    ensures
        run::run(s, begin(job, conn), replies.take(n + 1)) == (
            s,
            migration::work(job, conn, n, replies[n]->Ran_1),
        ),
        is_work(step_at(s, begin(job, conn), replies, n + 1), job, conn, n),
    decreases n,
{
    let st0 = begin(job, conn);
    if n > 0 {
        lemma_work_goes_on(s, job, conn, replies, n - 1);
    }
    run::lemma_one_more(s, st0, replies, n);
    assert(step_at(s, st0, replies, n + 1) == migration::work(job, conn, n, replies[n]->Ran_1));
}

/// Whatever fails once the transaction was begun, be it a statement, the entry in the
/// ledger or the commit, it is rolled back, and the error that led to it is told, whether
/// or not the database could roll back.
pub proof fn law_a_failure_is_rolled_back(
    s: service::ServiceView,
    job: step::JobView,
    conn: u64,
    i: int,
    now: Seq<char>,
    error: Seq<char>,
    message: Seq<char>,
    reply: Result<(), Seq<char>>,
)
    requires
        0 <= i <= job.statements.len() <= usize::MAX,
    ensures
        ({
            let failed = if i < job.statements.len() {
                run::ReplyView::Ran(Err(error), now)
            } else {
                run::ReplyView::Changed(Err(error))
            };
            run::advance(s, migration::work(job, conn, i, now), failed) == (
                s,
                migration::roll_back(job, conn, "migration failed (rolled back): "@ + error),
            )
        }),
        run::advance(s, commit(job, conn), run::ReplyView::Ran(Err(error), now)) == (
            s,
            migration::roll_back(job, conn, "commit failed: "@ + error),
        ),
        run::advance(
            s,
            migration::roll_back(job, conn, message),
            run::ReplyView::Ran(reply, now),
        ) == migration::migrate_failed(s, job, ErrCode::Internal, message),
{
}

/// A migration that does not stand in the ledger is begun. One that stands there under
/// the same checksum is left alone and told as not applied; under another checksum it is
/// refused as a conflict. Neither runs a statement of it.
pub proof fn law_a_migration_is_applied_once(
    s: service::ServiceView,
    params: json::JsonView,
    standing: Option<Seq<char>>,
    now: Seq<char>,
)
    requires
        migration::migrate_fault(params) is None,
        s.conn_of(params.text_at("profile"@)->0) is Some,
    ensures
        ({
            let job = migration::job_of(params);
            let conn = s.conn_of(job.profile)->0;
            let replies = seq![
                run::ReplyView::Ran(Ok(()), now),
                run::ReplyView::Text(Ok(standing)),
            ];
            let end = run::served(s, "db-migrate"@, params, replies);
            match standing {
                None => end == (s, begin(job, conn)),
                Some(checksum) => if checksum == job.checksum {
                    end == migration::migrated(s, job, false)
                } else {
                    end == migration::migrate_failed(
                        s,
                        job,
                        ErrCode::Conflict,
                        migration::conflict(job.id),
                    )
                },
            }
        }),
{
    let replies = seq![run::ReplyView::Ran(Ok(()), now), run::ReplyView::Text(Ok(standing))];
    dispatch::lemma_marks();
    let (s0, st) = dispatch::start(s, "db-migrate"@, params);
    run::lemma_one_more(s0, st, replies, 0);
    run::lemma_one_more(s0, st, replies, 1);
    assert(replies.take(2) =~= replies);
}

/// A ledger that could be read is told whole: one entry for each of its rows, in their
/// order.
pub proof fn law_the_ledger_is_told_whole(
    s: service::ServiceView,
    profile: Seq<char>,
    reply: step::RowsView,
)
    requires
        rows::values_of(reply, |row: Seq<step::FieldView>| migration::entry_of(row)) is Ok,
    ensures
        ({
            let st = migration::after_entries(s, profile, reply).1;
            &&& st is Done
            &&& st->outcome.ok
            &&& st->outcome.data matches Some(data)
            &&& data.array_at("migrations"@) matches Some(entries)
            &&& entries.len() == reply.rows.len()
            &&& forall|i: int|
                0 <= i < entries.len() ==> migration::entry_of(reply.rows[i]) == Ok::<
                    json::JsonView,
                    Seq<char>,
                >(#[trigger] entries[i])
        }),
{
    let f = |row: Seq<step::FieldView>| migration::entry_of(row);
    rows::lemma_collected(reply.rows, f);
    let data = migration::after_entries(s, profile, reply).1->outcome.data->0;
    assert(data->Object_0[0].0 == "migrations"@);
}

/// A held database in which no ledger is found has applied nothing, and its ledger is
/// not read.
pub proof fn law_without_a_ledger_nothing_is_applied(
    s: service::ServiceView,
    params: json::JsonView,
    error: Seq<char>,
    now: Seq<char>,
)
    requires
        params.text_at("profile"@) is Some,
        s.conn_of(params.text_at("profile"@)->0) is Some,
    ensures
        run::served(
            s,
            "migration-applied"@,
            params,
            seq![run::ReplyView::Ran(Err(error), now)],
        ) == migration::listed(s, params.text_at("profile"@)->0, Seq::empty()),
{
    let replies = seq![run::ReplyView::Ran(Err(error), now)];
    dispatch::lemma_marks();
    let (s0, st) = dispatch::start(s, "migration-applied"@, params);
    run::lemma_one_more(s0, st, replies, 0);
    assert(replies.take(1) =~= replies);
}

} // verus!
