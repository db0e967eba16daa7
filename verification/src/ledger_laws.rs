//! What a migration runs, what it tells and how it fails, request by request; and what is
//! told of the ledger.
use vstd::prelude::*;

use crate::dispatch;
use crate::json;
use crate::json_laws;
use crate::migration;
use crate::migration_laws;
use crate::request_laws;
use crate::rows;
use crate::run;
use crate::service;
use crate::step;
use crate::value;

verus! {

/// A migration that can be run: the request is complete and its profile holds a database.
pub open spec fn can_migrate(s: service::ServiceView, params: json::JsonView) -> bool {
    &&& request_laws::is_complete("db-migrate"@, params)
    &&& s.conns.contains_key(params.text_at("profile"@)->0)
    &&& params.array_at("statements"@)->0.len() <= usize::MAX
}

/// The replies up to the beginning of the transaction: the ledger is there, and the
/// migration does not stand in it.
pub open spec fn not_in_the_ledger(now: Seq<char>) -> Seq<run::ReplyView> {
    seq![run::ReplyView::Ran(Ok(()), now), run::ReplyView::Text(Ok(None))]
}

/// The step of a migration after its ledger was read and the first `n` of the further
/// replies came.
pub open spec fn migrating(
    s: service::ServiceView,
    params: json::JsonView,
    now: Seq<char>,
    rest: Seq<run::ReplyView>,
    n: int,
) -> step::StepView {
    run::served(s, "db-migrate"@, params, not_in_the_ledger(now) + rest.take(n)).1
}

/// A step that runs a text of statements on a database.
pub open spec fn runs(st: step::StepView, conn: u64, sql: Seq<char>) -> bool {
    &&& st is Run
    &&& st->Run_conn == conn
    &&& st->command == (step::CommandView::Batch { sql })
}

/// The reply is of the kind that the step asks for.
pub open spec fn fits(st: step::StepView, reply: run::ReplyView) -> bool {
    ||| st is Run && reply is Ran
    ||| st is Execute && reply is Changed
}

proof fn lemma_job(s: service::ServiceView, params: json::JsonView)
    requires
        can_migrate(s, params),
    ensures
        ({
            let job = migration::job_of(params);
            let statements = params.array_at("statements"@)->0;
            &&& migration::migrate_fault(params) is None
            &&& s.conn_of(job.profile) == Some(s.conns[params.text_at("profile"@)->0])
            &&& job.statements.len() == statements.len()
            &&& forall|i: int|
                0 <= i < statements.len() ==> #[trigger] statements[i] == json::JsonView::Text(
                    job.statements[i],
                )
        }),
{
    dispatch::lemma_marks();
}

proof fn lemma_begun(
    s: service::ServiceView,
    params: json::JsonView,
    now: Seq<char>,
    rest: Seq<run::ReplyView>,
)
    requires
        can_migrate(s, params),
    ensures
        ({
            let job = migration::job_of(params);
            let conn = s.conns[params.text_at("profile"@)->0];
            run::served(s, "db-migrate"@, params, not_in_the_ledger(now) + rest) == run::run(
                s,
                migration_laws::begin(job, conn),
                rest,
            )
        }),
{
    lemma_job(s, params);
    migration_laws::law_a_migration_is_applied_once(s, params, None, now);
    let (s0, st0) = dispatch::start(s, "db-migrate"@, params);
    run::lemma_run_in_parts(s0, st0, not_in_the_ledger(now), rest);
}

/// What a migration asks before it is begun, of the database that its profile holds: that
/// there be a ledger, and under which checksum the migration stands in it.
pub proof fn law_the_ledger_is_asked_first(
    s: service::ServiceView,
    params: json::JsonView,
    now: Seq<char>,
    error: Seq<char>,
)
    requires
        can_migrate(s, params),
    ensures
        ({
            let profile = params.text_at("profile"@)->0;
            let failed = s.audited(profile, "db-migrate"@, false, 0);
            let well = run::ReplyView::Ran(Ok(()), now);
            let ill = run::ReplyView::Ran(Err(error), now);
            let unread = run::ReplyView::Text(Err(error));
            let (s0, first) = run::served(s, "db-migrate"@, params, Seq::empty());
            let (s1, second) = run::served(s, "db-migrate"@, params, seq![well]);
            &&& s0 == s && s1 == s
            &&& runs(
                first,
                s.conns[profile],
                "CREATE TABLE IF NOT EXISTS _soksak_migrations (id TEXT PRIMARY KEY, checksum TEXT, applied_at TEXT)"@,
            )
            &&& second is ReadText
            &&& second->ReadText_conn == s.conns[profile]
            &&& second->ReadText_sql == "SELECT checksum FROM _soksak_migrations WHERE id = ?1"@
            &&& second->ReadText_bind == seq![
                value::SqlValueView::Text(params.text_at("id"@)->0),
            ]
            &&& run::served(s, "db-migrate"@, params, seq![ill]) == (
                failed,
                request_laws::refusal("INTERNAL"@, "ledger init failed: "@ + error),
            )
            &&& run::served(s, "db-migrate"@, params, seq![well, unread]) == (
                failed,
                request_laws::refusal("INTERNAL"@, "ledger read failed: "@ + error),
            )
        }),
{
    dispatch::lemma_marks();
    lemma_job(s, params);
    let (s0, st0) = dispatch::start(s, "db-migrate"@, params);
    let well = run::ReplyView::Ran(Ok(()), now);
    let ill = run::ReplyView::Ran(Err(error), now);
    let unread = run::ReplyView::Text(Err(error));
    run::lemma_short(s0, st0, well, unread, unread);
    run::lemma_short(s0, st0, ill, ill, ill);
}

/// A migration that stands in the ledger runs no statement. Under the checksum of the
/// request it is told as not applied again; under any other it is refused as a conflict.
pub proof fn law_a_migration_in_the_ledger_is_left_alone(
    s: service::ServiceView,
    params: json::JsonView,
    now: Seq<char>,
    standing: Seq<char>,
)
    requires
        can_migrate(s, params),
    ensures
        ({
            let profile = params.text_at("profile"@)->0;
            let id = params.text_at("id"@)->0;
            let (s1, end) = run::served(
                s,
                "db-migrate"@,
                params,
                seq![run::ReplyView::Ran(Ok(()), now), run::ReplyView::Text(Ok(Some(standing)))],
            );
            let told = end->outcome.data->0;
            &&& Some(standing) == params.text_at("checksum"@) ==> {
                &&& s1 == s.audited(profile, "db-migrate"@, true, 0)
                &&& end is Done && end->outcome.ok && end->close is None
                &&& end->outcome.code is None
                &&& end->outcome.data is Some && told->Object_0.len() == 2
                &&& told.bool_at("applied"@) == Some(false)
                &&& told.text_at("id"@) == Some(id)
                &&& end->outcome.message == Some("migration already applied: "@ + id)
            }
            &&& Some(standing) != params.text_at("checksum"@) ==> {
                &&& s1 == s.audited(profile, "db-migrate"@, false, 0)
                &&& end == request_laws::refusal(
                    "CONFLICT"@,
                    "migration "@ + id
                        + " already applied with a different checksum (refusing to reapply)"@,
                )
            }
        }),
{
    dispatch::lemma_marks();
    lemma_job(s, params);
    let (s0, st0) = dispatch::start(s, "db-migrate"@, params);
    let well = run::ReplyView::Ran(Ok(()), now);
    let read = run::ReplyView::Text(Ok(Some(standing)));
    run::lemma_short(s0, st0, well, read, read);
    if Some(standing) == params.text_at("checksum"@) {
        lemma_ledger_keys();
        let end = run::served(s, "db-migrate"@, params, seq![well, read]).1;
        let told = end->outcome.data->0->Object_0;
        json_laws::lemma_entry(told, 0);
        json_laws::lemma_entry(told, 1);
    }
}

proof fn lemma_ledger_keys()
    ensures
        "applied"@ != "id"@,
        "id"@ != "checksum"@,
        "id"@ != "appliedAt"@,
        "checksum"@ != "appliedAt"@,
        "migrations"@ != "count"@,
{
    reveal_strlit("applied");
    reveal_strlit("id");
    reveal_strlit("checksum");
    reveal_strlit("appliedAt");
    reveal_strlit("migrations");
    reveal_strlit("count");
    assert("applied"@.len() == 7 && "id"@.len() == 2 && "checksum"@.len() == 8 && "appliedAt"@.len() == 9 && "migrations"@.len() == 10 && "count"@.len() == 5);
}

/// A migration that does not stand in the ledger and ends in success has asked, of the
/// database that its profile holds and in this order: to begin a transaction; to run each
/// statement of the request, as it stands in the list, in the order of the list; to enter
/// its id, its checksum and the time of the last reply in the ledger; and to commit.
/// Nothing else was asked. It tells its id and that it was applied, and is recorded.
#[verifier::rlimit(40)]
pub proof fn law_a_migration_runs_the_statements_of_its_request(
    s: service::ServiceView,
    params: json::JsonView,
    now: Seq<char>,
    rest: Seq<run::ReplyView>,
)
    requires
        can_migrate(s, params),
        forall|i: int|
            0 <= i < rest.len() ==> fits(#[trigger] migrating(s, params, now, rest, i), rest[i]),
        migrating(s, params, now, rest, rest.len() as int) is Done,
        migrating(s, params, now, rest, rest.len() as int)->outcome.ok,
    ensures
        ({
            let profile = params.text_at("profile"@)->0;
            let conn = s.conns[profile];
            let statements = params.array_at("statements"@)->0;
            let n = statements.len() as int;
            let entry = migrating(s, params, now, rest, n + 1);
            let (s1, end) = run::served(s, "db-migrate"@, params, not_in_the_ledger(now) + rest);
            let told = end->outcome.data->0;
            &&& rest.len() == n + 3
            &&& runs(migrating(s, params, now, rest, 0), conn, "BEGIN"@)
            &&& forall|i: int|
                0 <= i < n ==> {
                    &&& #[trigger] statements[i] is Text
                    &&& runs(
                        migrating(s, params, now, rest, i + 1),
                        conn,
                        statements[i]->Text_0,
                    )
                }
            &&& entry is Execute
            &&& entry->Execute_conn == conn
            &&& entry->Execute_sql
                == "INSERT INTO _soksak_migrations(id, checksum, applied_at) VALUES(?1, ?2, ?3)"@
            &&& rest[n] is Ran
            &&& entry->Execute_bind == seq![
                value::SqlValueView::Text(params.text_at("id"@)->0),
                value::SqlValueView::Text(params.text_at("checksum"@)->0),
                value::SqlValueView::Text(rest[n]->Ran_1),
            ]
            &&& runs(migrating(s, params, now, rest, n + 2), conn, "COMMIT"@)
            &&& s1 == s.audited(profile, "db-migrate"@, true, 1)
            &&& end is Done && end->close is None && end->outcome.code is None
            &&& end->outcome.data is Some && told->Object_0.len() == 2
            &&& told.bool_at("applied"@) == Some(true)
            &&& told.text_at("id"@) == params.text_at("id"@)
            &&& end->outcome.message == Some(
                "migration applied: "@ + params.text_at("id"@)->0,
            )
        }),
{
    lemma_job(s, params);
    let job = migration::job_of(params);
    let conn = s.conns[params.text_at("profile"@)->0];
    let st0 = migration_laws::begin(job, conn);
    let statements = params.array_at("statements"@)->0;
    let n = statements.len() as int;
    assert forall|i: int| 0 <= i <= rest.len() implies #[trigger] migrating(
        s,
        params,
        now,
        rest,
        i,
    ) == migration_laws::step_at(s, st0, rest, i) by {
        lemma_begun(s, params, now, rest.take(i));
    }
    assert forall|i: int| 0 <= i < rest.len() implies migration_laws::answers(
        #[trigger] migration_laws::step_at(s, st0, rest, i),
        rest[i],
    ) by {
        assert(fits(migrating(s, params, now, rest, i), rest[i]));
    }
    assert(rest.take(rest.len() as int) =~= rest);
    lemma_begun(s, params, now, rest);
    migration_laws::law_a_migration_is_one_transaction(s, job, conn, rest);
    assert(rest.take(0) =~= Seq::empty());
    assert forall|i: int| 0 <= i <= n implies #[trigger] rest[i] is Ran && rest[i]->Ran_0 is Ok by {
        let st = migration_laws::step_at(s, st0, rest, i);
        assert(migration_laws::goes_well(st, rest[i]));
        if i > 0 {
            assert(migration_laws::is_work(
                migration_laws::step_at(s, st0, rest, (i - 1) + 1),
                job,
                conn,
                i - 1,
            ));
        }
    }
    migration_laws::lemma_work_goes_on(s, job, conn, rest, n);
    assert forall|i: int| 0 <= i < n implies {
        &&& #[trigger] statements[i] is Text
        &&& runs(migrating(s, params, now, rest, i + 1), conn, statements[i]->Text_0)
    } by {
        migration_laws::lemma_work_goes_on(s, job, conn, rest, i);
    }
    lemma_ledger_keys();
    let end = run::served(s, "db-migrate"@, params, not_in_the_ledger(now) + rest).1;
    let told = end->outcome.data->0->Object_0;
    json_laws::lemma_entry(told, 0);
    json_laws::lemma_entry(told, 1);
}

/// A migration whose transaction cannot be begun fails there. Once it was begun, whatever
/// fails, a statement, the entry in the ledger or the commit, the next thing asked is to
/// roll back, on the same database; and whatever comes of that, the error that led to it
/// is told and the failure recorded.
#[verifier::rlimit(40)]
pub proof fn law_a_failed_migration_is_rolled_back(
    s: service::ServiceView,
    params: json::JsonView,
    now: Seq<char>,
    begun: Seq<run::ReplyView>,
    error: Seq<char>,
    changed: u64,
    undone: Result<(), Seq<char>>,
)
    requires
        can_migrate(s, params),
        1 <= begun.len() <= params.array_at("statements"@)->0.len() + 1,
        forall|i: int|
            0 <= i < begun.len() ==> #[trigger] begun[i] is Ran && begun[i]->Ran_0 is Ok,
    ensures
        ({
            let profile = params.text_at("profile"@)->0;
            let conn = s.conns[profile];
            let failed = s.audited(profile, "db-migrate"@, false, 0);
            let before = not_in_the_ledger(now);
            let all_run = begun.len() == params.array_at("statements"@)->0.len() + 1;
            let ill = run::ReplyView::Ran(Err(error), now);
            let undo = run::ReplyView::Ran(undone, now);
            let broken = if all_run {
                before + begun.push(run::ReplyView::Changed(Err(error)))
            } else {
                before + begun.push(ill)
            };
            let uncommitted = before + begun.push(run::ReplyView::Changed(Ok(changed))).push(ill);
            &&& run::served(s, "db-migrate"@, params, before + seq![ill]) == (
                failed,
                request_laws::refusal("INTERNAL"@, "begin failed: "@ + error),
            )
            &&& runs(run::served(s, "db-migrate"@, params, broken).1, conn, "ROLLBACK"@)
            &&& run::served(s, "db-migrate"@, params, broken.push(undo)) == (
                failed,
                request_laws::refusal("INTERNAL"@, "migration failed (rolled back): "@ + error),
            )
            &&& all_run ==> runs(
                run::served(s, "db-migrate"@, params, uncommitted).1,
                conn,
                "ROLLBACK"@,
            )
            &&& all_run ==> run::served(s, "db-migrate"@, params, uncommitted.push(undo)) == (
                failed,
                request_laws::refusal("INTERNAL"@, "commit failed: "@ + error),
            )
        }),
{
    lemma_job(s, params);
    let job = migration::job_of(params);
    let conn = s.conns[params.text_at("profile"@)->0];
    let st0 = migration_laws::begin(job, conn);
    let before = not_in_the_ledger(now);
    let ill = run::ReplyView::Ran(Err(error), now);
    let undo = run::ReplyView::Ran(undone, now);
    let n = begun.len() as int;
    migration_laws::lemma_work_goes_on(s, job, conn, begun, n - 1);
    assert(begun.take(n) =~= begun);
    lemma_begun(s, params, now, seq![ill]);
    run::lemma_short(s, st0, ill, ill, ill);
    let last = if n == params.array_at("statements"@)->0.len() + 1 {
        run::ReplyView::Changed(Err(error))
    } else {
        ill
    };
    run::lemma_after(s, st0, begun, last);
    run::lemma_after(s, st0, begun.push(last), undo);
    lemma_begun(s, params, now, begun.push(last));
    lemma_begun(s, params, now, begun.push(last).push(undo));
    assert((before + begun.push(last)).push(undo) =~= before + begun.push(last).push(undo));
    let entered = run::ReplyView::Changed(Ok(changed));
    run::lemma_after(s, st0, begun, entered);
    run::lemma_after(s, st0, begun.push(entered), ill);
    run::lemma_after(s, st0, begun.push(entered).push(ill), undo);
    lemma_begun(s, params, now, begun.push(entered).push(ill));
    lemma_begun(s, params, now, begun.push(entered).push(ill).push(undo));
    assert((before + begun.push(entered).push(ill)).push(undo) =~= before + begun.push(
        entered,
    ).push(ill).push(undo));
}

/// A row of the ledger: an id and a checksum, which are texts, and a time, which may be
/// missing.
pub open spec fn ledger_row(row: Seq<step::FieldView>) -> bool {
    row.len() > 2 && row[0].text is Ok && row[1].text is Ok && (row[2].null || row[2].text is Ok)
}

/// What is told of a row of the ledger.
pub open spec fn tells_entry(told: json::JsonView, row: Seq<step::FieldView>) -> bool {
    &&& told is Object && told->Object_0.len() == 3
    &&& told.text_at("id"@) == Some(row[0].text->Ok_0)
    &&& told.text_at("checksum"@) == Some(row[1].text->Ok_0)
    &&& told.get("appliedAt"@) == Some(
        if row[2].null {
            json::JsonView::Null
        } else {
            json::JsonView::Text(row[2].text->Ok_0)
        },
    )
}

/// The ledger of the database that a profile holds is looked for and then read in the
/// order of its rows; each row is told, from its own fields, and their number is told and
/// recorded. Without a ledger the list is empty. A ledger that cannot be read is told as
/// such.
#[verifier::rlimit(40)]
pub proof fn law_what_the_ledger_is_told_as(
    s: service::ServiceView,
    params: json::JsonView,
    now: Seq<char>,
    ledger: Seq<Seq<step::FieldView>>,
    error: Seq<char>,
)
    requires
        params.text_at("profile"@) is Some,
        s.conns.contains_key(params.text_at("profile"@)->0),
        forall|i: int| 0 <= i < ledger.len() ==> ledger_row(#[trigger] ledger[i]),
    ensures
        ({
            let profile = params.text_at("profile"@)->0;
            let conn = s.conns[profile];
            let seen = run::ReplyView::Ran(Ok(()), now);
            let unseen = run::ReplyView::Ran(Err(error), now);
            let read = run::ReplyView::Rows(step::RowsView { rows: ledger, error: None });
            let torn = run::ReplyView::Rows(step::RowsView { rows: ledger, error: Some(error) });
            let (s0, first) = run::served(s, "migration-applied"@, params, Seq::empty());
            let (s1, second) = run::served(s, "migration-applied"@, params, seq![seen]);
            let (s2, end) = run::served(s, "migration-applied"@, params, seq![seen, read]);
            let (s3, none) = run::served(s, "migration-applied"@, params, seq![unseen]);
            let told = end->outcome.data->0;
            let entries = told.array_at("migrations"@);
            &&& s0 == s && s1 == s
            &&& first is Run && first->Run_conn == conn
            &&& first->command == (step::CommandView::ReadInt {
                sql: "SELECT 1 FROM sqlite_master WHERE type='table' AND name='_soksak_migrations'"@,
            })
            &&& second is ReadRows && second->ReadRows_conn == conn && second->width == 3
            &&& second->ReadRows_sql
                == "SELECT id, checksum, applied_at FROM _soksak_migrations ORDER BY rowid"@
            &&& end is Done && end->outcome.ok && end->close is None
            &&& end->outcome.code is None && end->outcome.message is None
            &&& end->outcome.data is Some && told->Object_0.len() == 2
            &&& entries is Some && entries->0.len() == ledger.len()
            &&& forall|i: int|
                0 <= i < ledger.len() ==> tells_entry(#[trigger] entries->0[i], ledger[i])
            &&& told.unsigned_at("count"@) == Some(ledger.len() as u64)
            &&& s2 == s.audited(profile, "migration-applied"@, true, ledger.len() as u64)
            &&& none is Done && none->outcome.ok && none->close is None
            &&& none->outcome.data is Some
            &&& none->outcome.data->0.array_at("migrations"@) == Some(
                Seq::<json::JsonView>::empty(),
            )
            &&& none->outcome.data->0.unsigned_at("count"@) == Some(0u64)
            &&& s3 == s.audited(profile, "migration-applied"@, true, 0)
            &&& run::served(s, "migration-applied"@, params, seq![seen, torn]) == (
                s.audited(profile, "migration-applied"@, false, 0),
                request_laws::refusal("INTERNAL"@, "ledger read failed: "@ + error),
            )
        }),
{
    dispatch::lemma_marks();
    let (s0, st0) = dispatch::start(s, "migration-applied"@, params);
    let seen = run::ReplyView::Ran(Ok(()), now);
    let unseen = run::ReplyView::Ran(Err(error), now);
    let reply = step::RowsView { rows: ledger, error: None };
    let cut = step::RowsView { rows: ledger, error: Some(error) };
    run::lemma_short(s0, st0, seen, run::ReplyView::Rows(reply), seen);
    run::lemma_short(s0, st0, seen, run::ReplyView::Rows(cut), seen);
    run::lemma_short(s0, st0, unseen, unseen, unseen);
    let entries = lemma_entries_read(ledger, error);
    lemma_ledger_told(entries);
    lemma_ledger_told(Seq::empty());
}

proof fn lemma_ledger_told(entries: Seq<json::JsonView>)
    ensures
        ({
            let data = migration::ledger_json(entries)->outcome.data;
            &&& data is Some && data->0 is Object && data->0->Object_0.len() == 2
            &&& data->0.array_at("migrations"@) == Some(entries)
            &&& data->0.unsigned_at("count"@) == Some(entries.len() as u64)
        }),
{
    lemma_ledger_keys();
    let told = migration::ledger_json(entries)->outcome.data->0->Object_0;
    json_laws::lemma_entry(told, 0);
    json_laws::lemma_entry(told, 1);
}

proof fn lemma_entries_read(ledger: Seq<Seq<step::FieldView>>, error: Seq<char>) -> (told: Seq<
    json::JsonView,
>)
    requires
        forall|i: int| 0 <= i < ledger.len() ==> ledger_row(#[trigger] ledger[i]),
    ensures
        rows::values_of(
            step::RowsView { rows: ledger, error: None },
            |row: Seq<step::FieldView>| migration::entry_of(row),
        ) == Ok::<Seq<json::JsonView>, Seq<char>>(told),
        rows::values_of(
            step::RowsView { rows: ledger, error: Some(error) },
            |row: Seq<step::FieldView>| migration::entry_of(row),
        ) == Err::<Seq<json::JsonView>, Seq<char>>(error),
        told.len() == ledger.len(),
        forall|i: int| 0 <= i < ledger.len() ==> tells_entry(#[trigger] told[i], ledger[i]),
{
    let f = |row: Seq<step::FieldView>| migration::entry_of(row);
    let reply = step::RowsView { rows: ledger, error: None };
    let cut = step::RowsView { rows: ledger, error: Some(error) };
    rows::law_each_row_gives_its_value(reply, f);
    rows::law_each_row_gives_its_value(cut, f);
    assert forall|i: int| 0 <= i < reply.rows.len() implies f(#[trigger] reply.rows[i]) is Ok by {
        lemma_entry_told(ledger[i]);
    }
    assert(forall|i: int| 0 <= i < cut.rows.len() ==> f(#[trigger] cut.rows[i]) is Ok);
    let told = rows::values_of(reply, f)->Ok_0;
    assert forall|i: int| 0 <= i < ledger.len() implies tells_entry(
        #[trigger] told[i],
        ledger[i],
    ) by {
        assert(f(reply.rows[i]) == Ok::<json::JsonView, Seq<char>>(told[i]));
        lemma_entry_told(ledger[i]);
    }
    told
}

proof fn lemma_entry_told(row: Seq<step::FieldView>)
    requires
        ledger_row(row),
    ensures
        migration::entry_of(row) is Ok,
        tells_entry(migration::entry_of(row)->Ok_0, row),
{
    lemma_ledger_keys();
    let told = migration::entry_of(row)->Ok_0->Object_0;
    json_laws::lemma_entry(told, 0);
    json_laws::lemma_entry(told, 1);
    json_laws::lemma_entry(told, 2);
}

} // verus!
