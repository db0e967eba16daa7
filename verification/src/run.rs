//! Runs: an operation from its first step on, answered by replies one after another, and
//! what holds of every run.
use vstd::prelude::*;

use crate::audit;
use crate::dispatch;
use crate::json;
use crate::migration;
use crate::query;
use crate::service;
use crate::session;
use crate::step;
use crate::value;

verus! {

/// The reply to a step. The reply to a command carries the time at which it came.
pub enum ReplyView {
    Opened(Result<u64, Seq<char>>),
    Ran(Result<(), Seq<char>>, Seq<char>),
    Changed(Result<u64, Seq<char>>),
    Text(Result<Option<Seq<char>>, Seq<char>>),
    Rows(step::RowsView),
    Prepared(Result<(Seq<Seq<char>>, bool), Seq<char>>),
    Started(Result<(), Seq<char>>),
    Row(Result<bool, Seq<char>>),
    Cells(Seq<Option<value::CellView>>),
}

/// Where a step leads with a reply. A reply that does not belong to the step leads
/// nowhere.
pub open spec fn advance(
    s: service::ServiceView,
    st: step::StepView,
    reply: ReplyView,
) -> (service::ServiceView, step::StepView) {
    match (st, reply) {
        (step::StepView::Open { file, then }, ReplyView::Opened(r)) => session::after_open(
            s,
            then,
            r,
        ),
        (step::StepView::Run { conn, command, then }, ReplyView::Ran(r, now)) =>
        dispatch::after_run(s, then, r, now),
        (step::StepView::Execute { conn, sql, bind, then }, ReplyView::Changed(r)) =>
        dispatch::after_execute(s, then, r),
        (step::StepView::ReadText { conn, sql, bind, then }, ReplyView::Text(r)) =>
        dispatch::after_read_text(s, then, r),
        (step::StepView::ReadRows { conn, sql, width, then }, ReplyView::Rows(r)) =>
        dispatch::after_read_rows(s, then, r),
        (step::StepView::Prepare { conn, sql, then }, ReplyView::Prepared(r)) =>
        query::after_prepare(s, then, r),
        (step::StepView::Query { bind, then }, ReplyView::Started(r)) => query::after_query(
            s,
            then,
            r,
        ),
        (step::StepView::NextRow { then }, ReplyView::Row(r)) => query::after_next_row(s, then, r),
        (step::StepView::ReadCells { wanted, then }, ReplyView::Cells(cells)) => (
            s,
            query::after_read_cells(then, cells),
        ),
        _ => (s, st),
    }
}

/// Where a step leads with a list of replies.
pub open spec fn run(
    s: service::ServiceView,
    st: step::StepView,
    replies: Seq<ReplyView>,
) -> (service::ServiceView, step::StepView)
    decreases replies.len(),
{
    if replies.len() == 0 {
        (s, st)
    } else {
        let (s1, st1) = run(s, st, replies.drop_last());
        advance(s1, st1, replies.last())
    }
}

/// Where a request leads with a list of replies.
pub open spec fn served(
    s: service::ServiceView,
    op: Seq<char>,
    params: json::JsonView,
    replies: Seq<ReplyView>,
) -> (service::ServiceView, step::StepView) {
    let (s1, st1) = dispatch::start(s, op, params);
    run(s1, st1, replies)
}

/// A run with one more reply.
pub proof fn lemma_one_more(
    s: service::ServiceView,
    st: step::StepView,
    replies: Seq<ReplyView>,
    n: int,
)
    requires
        0 <= n < replies.len(),
    ensures
        run(s, st, replies.take(n + 1)) == advance(
            run(s, st, replies.take(n)).0,
            run(s, st, replies.take(n)).1,
            replies[n],
        ),
        run(s, st, replies.take(0)) == (s, st),
{
    assert(replies.take(n + 1).drop_last() =~= replies.take(n));
}

/// A run with a reply at its end.
pub proof fn lemma_after(
    s: service::ServiceView,
    st: step::StepView,
    replies: Seq<ReplyView>,
    reply: ReplyView,
)
    ensures
        run(s, st, replies.push(reply)) == advance(
            run(s, st, replies).0,
            run(s, st, replies).1,
            reply,
        ),
        run(s, st, Seq::empty()) == (s, st),
{
    assert(replies.push(reply).drop_last() =~= replies);
}

/// Short runs.
pub proof fn lemma_short(
    s: service::ServiceView,
    st: step::StepView,
    a: ReplyView,
    b: ReplyView,
    c: ReplyView,
)
    ensures
        run(s, st, Seq::empty()) == (s, st),
        run(s, st, seq![a]) == advance(s, st, a),
        run(s, st, seq![a, b]) == advance(run(s, st, seq![a]).0, run(s, st, seq![a]).1, b),
        run(s, st, seq![a, b, c]) == advance(run(s, st, seq![a, b]).0, run(s, st, seq![a, b]).1, c),
{
    assert(seq![a].drop_last() =~= Seq::empty());
    assert(seq![a, b].drop_last() =~= seq![a]);
    assert(seq![a, b, c].drop_last() =~= seq![a, b]);
}

/// A run in two parts.
pub proof fn lemma_run_in_parts(
    s: service::ServiceView,
    st: step::StepView,
    a: Seq<ReplyView>,
    b: Seq<ReplyView>,
)
    ensures
        run(s, st, a + b) == run(run(s, st, a).0, run(s, st, a).1, b),
    decreases b.len(),
{
    if b.len() == 0 {
        assert(a + b =~= a);
    } else {
        lemma_run_in_parts(s, st, a, b.drop_last());
        assert((a + b).drop_last() =~= a + b.drop_last());
    }
}

/// Under which operation and profile the run that a step belongs to is to be recorded. A
/// run that is over has been.
pub open spec fn recorded_as(st: step::StepView) -> Option<(Seq<char>, Seq<char>)> {
    match st {
        step::StepView::Done { outcome, close } => None,
        step::StepView::Open { file, then } => match then {
            step::AfterOpenView::Session { purpose, key } => Some(session::session_of(purpose)),
            step::AfterOpenView::Create { file, key } => Some(("db-create"@, ""@)),
        },
        step::StepView::Run { conn, command, then } => match then {
            step::AfterRunView::Keyed { purpose, conn } => Some(session::session_of(purpose)),
            step::AfterRunView::Probed { purpose, conn, encrypted } => Some(
                session::session_of(purpose),
            ),
            step::AfterRunView::CreateKeyed { file, conn } => Some(("db-create"@, ""@)),
            step::AfterRunView::Created { file, conn, encrypted } => Some(("db-create"@, ""@)),
            step::AfterRunView::Rekeyed { profile } => Some(("db-rekey"@, profile)),
            step::AfterRunView::LedgerReady { job, conn } => Some(("db-migrate"@, job.profile)),
            step::AfterRunView::Begun { job, conn } => Some(("db-migrate"@, job.profile)),
            step::AfterRunView::Applied { job, conn, index } => Some(
                ("db-migrate"@, job.profile),
            ),
            step::AfterRunView::Committed { job, conn } => Some(("db-migrate"@, job.profile)),
            step::AfterRunView::RolledBack { job, message } => Some(("db-migrate"@, job.profile)),
            step::AfterRunView::LedgerSeen { profile, conn } => Some(
                ("migration-applied"@, profile),
            ),
        },
        step::StepView::Execute { conn, sql, bind, then } => match then {
            step::AfterExecuteView::Exec { profile } => Some(("db-exec"@, profile)),
            step::AfterExecuteView::Recorded { job, conn } => Some(("db-migrate"@, job.profile)),
        },
        step::StepView::ReadText { conn, sql, bind, then } => match then {
            step::AfterReadTextView::Version { purpose, conn, encrypted } => Some(
                session::session_of(purpose),
            ),
            step::AfterReadTextView::Checksum { job, conn } => Some(("db-migrate"@, job.profile)),
        },
        step::StepView::ReadRows { conn, sql, width, then } => match then {
            step::AfterReadRowsView::TableNames { profile, conn, only } => Some(
                ("db-introspect"@, profile),
            ),
            step::AfterReadRowsView::Columns { walk } => Some(("db-introspect"@, walk.profile)),
            step::AfterReadRowsView::ForeignKeys { walk, columns } => Some(
                ("db-introspect"@, walk.profile),
            ),
            step::AfterReadRowsView::Indexes { walk, columns, foreign_keys } => Some(
                ("db-introspect"@, walk.profile),
            ),
            step::AfterReadRowsView::IndexColumns {
                walk,
                columns,
                foreign_keys,
                index,
                rest,
                indexes,
            } => Some(("db-introspect"@, walk.profile)),
            step::AfterReadRowsView::Ledger { profile } => Some(("migration-applied"@, profile)),
        },
        step::StepView::Prepare { conn, sql, then } => Some(("query-run"@, then.profile)),
        step::StepView::Query { bind, then } => Some(("query-run"@, then.profile)),
        step::StepView::NextRow { then } => Some(("query-run"@, then.profile)),
        step::StepView::ReadCells { wanted, then } => Some(("query-run"@, then.profile)),
    }
}

/// `after` is `before` with one more record: of this operation on this profile, with
/// this success.
pub open spec fn one_record(
    before: Seq<audit::AuditView>,
    after: Seq<audit::AuditView>,
    op: Seq<char>,
    profile: Seq<char>,
    ok: bool,
) -> bool {
    &&& after.len() == before.len() + 1
    &&& after.drop_last() == before
    &&& after.last().ts_seq == before.len() as u64
    &&& after.last().op == op
    &&& after.last().profile == profile
    &&& after.last().ok == ok
}

/// What a step may do to the audit and the service: nothing while the operation goes on,
/// and at its end one record, with the success that is told.
pub open spec fn step_keeps_book(
    s: service::ServiceView,
    claim: Option<(Seq<char>, Seq<char>)>,
    s1: service::ServiceView,
    st1: step::StepView,
) -> bool {
    &&& claim matches Some((op, profile))
    &&& match st1 {
        step::StepView::Done { outcome, close } => one_record(
            s.audit,
            s1.audit,
            op,
            profile,
            outcome.ok,
        ),
        _ => s1 == s && recorded_as(st1) == claim,
    }
}

broadcast proof fn lemma_audited(
    s: service::ServiceView,
    profile: Seq<char>,
    op: Seq<char>,
    ok: bool,
    n: u64,
)
    ensures
        one_record(s.audit, #[trigger] s.audited(profile, op, ok, n).audit, op, profile, ok),
{
    assert(s.audited(profile, op, ok, n).audit.drop_last() =~= s.audit);
}

proof fn lemma_open_keeps_book(
    s: service::ServiceView,
    then: step::AfterOpenView,
    reply: Result<u64, Seq<char>>,
)
    ensures
        ({
            let st = step::StepView::Open { file: Seq::empty(), then };
            let (s1, st1) = session::after_open(s, then, reply);
            step_keeps_book(s, recorded_as(st), s1, st1)
        }),
{
    broadcast use lemma_audited;

    dispatch::lemma_marks();
}

proof fn lemma_session_keeps_book(
    s: service::ServiceView,
    purpose: step::PurposeView,
    conn: u64,
    encrypted: bool,
    ran: Result<(), Seq<char>>,
    version: Result<Option<Seq<char>>, Seq<char>>,
)
    ensures
        ({
            let claim = Some(session::session_of(purpose));
            let (s1, st1) = session::after_key(s, purpose, conn, ran);
            let (s2, st2) = session::after_probe(s, purpose, conn, encrypted, ran);
            let (s3, st3) = session::after_version(s, purpose, conn, encrypted, version);
            &&& step_keeps_book(s, claim, s1, st1)
            &&& step_keeps_book(s, claim, s2, st2)
            &&& step_keeps_book(s, claim, s3, st3)
        }),
{
    broadcast use lemma_audited;

    dispatch::lemma_marks();
}

proof fn lemma_run_keeps_book(
    s: service::ServiceView,
    then: step::AfterRunView,
    reply: Result<(), Seq<char>>,
    now: Seq<char>,
)
    ensures
        ({
            let st = step::StepView::Run {
                conn: 0,
                command: step::CommandView::Batch { sql: now },
                then,
            };
            let (s1, st1) = dispatch::after_run(s, then, reply, now);
            step_keeps_book(s, recorded_as(st), s1, st1)
        }),
{
    broadcast use lemma_audited;

    dispatch::lemma_marks();
    match then {
        step::AfterRunView::Keyed { purpose, conn } => {
            lemma_session_keeps_book(s, purpose, conn, true, reply, Ok(None));
        },
        step::AfterRunView::Probed { purpose, conn, encrypted } => {
            lemma_session_keeps_book(s, purpose, conn, encrypted, reply, Ok(None));
        },
        _ => {},
    }
}

proof fn lemma_rows_keep_book(
    s: service::ServiceView,
    then: step::AfterReadRowsView,
    reply: step::RowsView,
)
    ensures
        ({
            let st = step::StepView::ReadRows { conn: 0, sql: Seq::empty(), width: 0, then };
            let (s1, st1) = dispatch::after_read_rows(s, then, reply);
            step_keeps_book(s, recorded_as(st), s1, st1)
        }),
{
    broadcast use lemma_audited;

    dispatch::lemma_marks();
}

/// An operation that is going on changes nothing of the service; when it ends, it leaves
/// the one record that its steps were to be recorded as.
pub proof fn law_a_step_keeps_the_book(
    s: service::ServiceView,
    st: step::StepView,
    reply: ReplyView,
)
    requires
        !(st is Done),
    ensures
        step_keeps_book(s, recorded_as(st), advance(s, st, reply).0, advance(s, st, reply).1),
{
    match (st, reply) {
        (step::StepView::Open { file, then }, ReplyView::Opened(r)) => {
            lemma_open_keeps_book(s, then, r);
        },
        (step::StepView::Run { conn, command, then }, ReplyView::Ran(r, now)) => {
            lemma_run_keeps_book(s, then, r, now);
        },
        (step::StepView::ReadText { conn, sql, bind, then }, ReplyView::Text(r)) => {
            broadcast use lemma_audited;

            dispatch::lemma_marks();
            if let step::AfterReadTextView::Version { purpose, conn, encrypted } = then {
                lemma_session_keeps_book(s, purpose, conn, encrypted, Ok(()), r);
            }
        },
        (step::StepView::ReadRows { conn, sql, width, then }, ReplyView::Rows(r)) => {
            lemma_rows_keep_book(s, then, r);
        },
        _ => {
            broadcast use lemma_audited;

            dispatch::lemma_marks();
        },
    }
}

/// The requests that are carried out, or at least tried: those of a known operation that
/// hold what the operation needs. A key can be changed, and a ledger read, only where a
/// database is held. To read the audit is not recorded in it.
pub open spec fn is_recorded(
    s: service::ServiceView,
    op: Seq<char>,
    params: json::JsonView,
) -> bool {
    let profile = params.text_at("profile"@);
    ||| op == "ping"@
    ||| op == "db-test"@
    ||| op == "db-status"@
    ||| op == "db-connect"@ && profile is Some
    ||| op == "db-disconnect"@ && profile is Some
    ||| op == "db-introspect"@ && profile is Some
    ||| op == "db-create"@ && params.text_at("file"@) is Some
    ||| op == "query-run"@ && query::query_fault(params) is None
    ||| op == "db-exec"@ && query::exec_fault(params) is None
    ||| op == "db-migrate"@ && migration::migrate_fault(params) is None
    ||| op == "db-rekey"@ && profile is Some && params.text_at("newKey"@) is Some
        && s.conns.contains_key(profile->0)
    ||| op == "migration-applied"@ && profile is Some && s.conns.contains_key(profile->0)
}

/// The profile under which a request is recorded. What concerns no held database belongs
/// to none.
pub open spec fn subject(op: Seq<char>, params: json::JsonView) -> Seq<char> {
    if op == "ping"@ || op == "db-test"@ || op == "db-status"@ || op == "db-create"@ {
        ""@
    } else {
        params.text_at("profile"@)->0
    }
}

/// What the audit has gained when a request has been answered.
pub open spec fn request_keeps_book(
    s: service::ServiceView,
    op: Seq<char>,
    params: json::JsonView,
    s1: service::ServiceView,
    st1: step::StepView,
) -> bool {
    match st1 {
        step::StepView::Done { outcome, close } => if is_recorded(s, op, params) {
            one_record(s.audit, s1.audit, op, subject(op, params), outcome.ok)
        } else {
            s1.audit == s.audit
        },
        _ => {
            &&& s1 == s
            &&& is_recorded(s, op, params)
            &&& recorded_as(st1) == Some((op, subject(op, params)))
        },
    }
}

proof fn lemma_start_keeps_book(s: service::ServiceView, op: Seq<char>, params: json::JsonView)
    ensures
        ({
            let (s1, st1) = dispatch::start(s, op, params);
            request_keeps_book(s, op, params, s1, st1)
        }),
{
    broadcast use lemma_audited;

    dispatch::lemma_marks();
}

/// Every request that is carried out, but for reading the audit itself, leaves one record
/// when it has been answered, and none before; a request that is refused for what it lacks
/// leaves none. The record names
/// the operation and the profile of the request, and tells the success that was told;
/// earlier records stay as they were. Nothing else of the request, such as the text of a
/// statement or a key, is in it.
pub proof fn law_the_record_of_a_request(
    s: service::ServiceView,
    op: Seq<char>,
    params: json::JsonView,
    replies: Seq<ReplyView>,
)
    ensures
        request_keeps_book(
            s,
            op,
            params,
            served(s, op, params, replies).0,
            served(s, op, params, replies).1,
        ),
    decreases replies.len(),
{
    if replies.len() == 0 {
        lemma_start_keeps_book(s, op, params);
    } else {
        law_the_record_of_a_request(s, op, params, replies.drop_last());
        let (s1, st1) = served(s, op, params, replies.drop_last());
        if !(st1 is Done) {
            law_a_step_keeps_the_book(s1, st1, replies.last());
            dispatch::lemma_marks();
        }
    }
}

} // verus!
