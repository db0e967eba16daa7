//! What holds of the service as a whole: over all requests, all replies and all runs.
use vstd::prelude::*;

use crate::audit;
use crate::catalog;
use crate::dispatch;
use crate::json;
use crate::migration;
use crate::outcome::ErrCode;
use crate::order;
use crate::outcome;
use crate::query;
use crate::query_laws;
use crate::run;
use crate::service;
use crate::session;
use crate::sql;
use crate::step;

verus! {

/// Just the operations that are listed are known; any other name is answered with the
/// name itself.
pub proof fn law_known_operations(s: service::ServiceView, op: Seq<char>, params: json::JsonView)
    ensures
        dispatch::op_names().contains(op) == (dispatch::start(s, op, params).1 != step::failed(
            ErrCode::UnknownOp,
            op,
        )),
        dispatch::reads_only(op) ==> dispatch::op_names().contains(op),
        !dispatch::op_names().contains(op) ==> dispatch::start(s, op, params) == (
            s,
            step::failed(ErrCode::UnknownOp, op),
        ),
{
    dispatch::lemma_marks();
    outcome::law_codes_have_different_texts(ErrCode::UnknownOp, ErrCode::InvalidParams);
    outcome::law_codes_have_different_texts(ErrCode::UnknownOp, ErrCode::Unavailable);
    let names = dispatch::op_names();
    assert(names[0] == "ping"@ && names[1] == "db-test"@ && names[2] == "db-connect"@ && names[3]
        == "db-disconnect"@ && names[4] == "db-status"@ && names[5] == "db-create"@ && names[6]
        == "db-rekey"@ && names[7] == "query-run"@ && names[8] == "db-introspect"@ && names[9]
        == "db-audit"@ && names[10] == "db-exec"@ && names[11] == "db-migrate"@ && names[12]
        == "migration-applied"@);
    if names.contains(op) {
        let i = choose|i: int| 0 <= i < names.len() && names[i] == op;
        assert(i == 0 || i == 1 || i == 2 || i == 3 || i == 4 || i == 5 || i == 6 || i == 7 || i
            == 8 || i == 9 || i == 10 || i == 11 || i == 12);
    }
}

/// The step ends an operation as one that is not known.
pub open spec fn is_unknown(st: step::StepView) -> bool {
    st is Done && st->outcome.code == Some(ErrCode::UnknownOp.text())
}

/// No run of an operation that is listed ends as one of an unknown operation, and every
/// run of one that is not listed does.
pub proof fn law_known_operations_are_served(
    s: service::ServiceView,
    op: Seq<char>,
    params: json::JsonView,
    replies: Seq<run::ReplyView>,
)
    ensures
        is_unknown(run::served(s, op, params, replies).1) == !dispatch::op_names().contains(op),
    decreases replies.len(),
{
    if replies.len() == 0 {
        law_known_operations(s, op, params);
        lemma_start_is_known(s, op, params);
    } else {
        law_known_operations_are_served(s, op, params, replies.drop_last());
        let (s1, st1) = run::served(s, op, params, replies.drop_last());
        if !(st1 is Done) {
            lemma_step_is_known(s1, st1, replies.last());
        }
    }
}

proof fn lemma_codes()
    ensures
        ErrCode::InvalidParams.text() != ErrCode::UnknownOp.text(),
        ErrCode::Unavailable.text() != ErrCode::UnknownOp.text(),
        ErrCode::Conflict.text() != ErrCode::UnknownOp.text(),
        ErrCode::Internal.text() != ErrCode::UnknownOp.text(),
{
    outcome::law_codes_have_different_texts(ErrCode::InvalidParams, ErrCode::UnknownOp);
    outcome::law_codes_have_different_texts(ErrCode::Unavailable, ErrCode::UnknownOp);
    outcome::law_codes_have_different_texts(ErrCode::Conflict, ErrCode::UnknownOp);
    outcome::law_codes_have_different_texts(ErrCode::Internal, ErrCode::UnknownOp);
}

proof fn lemma_start_is_known(s: service::ServiceView, op: Seq<char>, params: json::JsonView)
    ensures
        is_unknown(dispatch::start(s, op, params).1) ==> dispatch::start(s, op, params).1
            == step::failed(ErrCode::UnknownOp, op),
{
    lemma_codes();
}

proof fn lemma_step_is_known(s: service::ServiceView, st: step::StepView, reply: run::ReplyView)
    requires
        !(st is Done),
    ensures
        !is_unknown(run::advance(s, st, reply).1),
{
    lemma_codes();
    match (st, reply) {
        (step::StepView::Run { conn, command, then }, run::ReplyView::Ran(r, now)) => {
            lemma_command_is_known(s, then, r, now);
        },
        (step::StepView::ReadRows { conn, sql, width, then }, run::ReplyView::Rows(r)) => {
            lemma_rows_are_known(s, then, r);
        },
        _ => {},
    }
}

proof fn lemma_command_is_known(
    s: service::ServiceView,
    then: step::AfterRunView,
    reply: Result<(), Seq<char>>,
    now: Seq<char>,
)
    ensures
        !is_unknown(dispatch::after_run(s, then, reply, now).1),
{
    lemma_codes();
}

proof fn lemma_rows_are_known(
    s: service::ServiceView,
    then: step::AfterReadRowsView,
    reply: step::RowsView,
)
    ensures
        !is_unknown(dispatch::after_read_rows(s, then, reply).1),
{
    lemma_codes();
}

/// To read the audit leaves the service as it was, whatever is asked for: the same
/// request gives the same answer again. The records come newest first, those of other
/// profiles left out before the list is cut off at the limit.
pub proof fn law_reading_the_audit_changes_nothing(
    s: service::ServiceView,
    params: json::JsonView,
    replies: Seq<run::ReplyView>,
)
    requires
        audit::numbered(s.audit),
    ensures
        run::served(s, "db-audit"@, params, replies) == (s, session::read_audit(s, params)),
        session::read_audit(s, params) is Done,
        session::read_audit(s, params)->outcome.ok,
        ({
            let all = audit::newest_first(s.audit, params.text_at("profile"@));
            let told = audit::at_most(all, params.unsigned_at("limit"@));
            &&& told == match params.unsigned_at("limit"@) {
                Some(n) => if n < all.len() {
                    all.take(n as int)
                } else {
                    all
                },
                None => all,
            }
            &&& forall|i: int, j: int|
                0 <= i < j < told.len() ==> (#[trigger] told[i]).ts_seq > (
                #[trigger] told[j]).ts_seq
        }),
    decreases replies.len(),
{
    dispatch::lemma_marks();
    if replies.len() > 0 {
        law_reading_the_audit_changes_nothing(s, params, replies.drop_last());
    }
    audit::law_audit_reads_newest_first(s.audit, params.text_at("profile"@));
}

/// A step that asks for no change: no statement is run for its effect, and the only
/// pragma that is set is the key of a database just opened.
pub open spec fn asks_no_change(st: step::StepView) -> bool {
    match st {
        step::StepView::Execute { conn, sql, bind, then } => false,
        step::StepView::Run { conn, command, then } => match command {
            step::CommandView::Batch { sql } => false,
            step::CommandView::Pragma { name, value } => name == "key"@,
            step::CommandView::ReadInt { sql } => true,
        },
        _ => true,
    }
}

/// A purpose other than to hold the database.
spec fn passing(purpose: step::PurposeView) -> bool {
    !(purpose is Connect)
}

spec fn of_a_read(st: step::StepView) -> bool {
    &&& asks_no_change(st)
    &&& match st {
        step::StepView::Open { file, then } => then matches step::AfterOpenView::Session {
            purpose,
            key,
        } && passing(purpose),
        step::StepView::Run { conn, command, then } => match then {
            step::AfterRunView::Keyed { purpose, conn } => passing(purpose),
            step::AfterRunView::Probed { purpose, conn, encrypted } => passing(purpose),
            step::AfterRunView::LedgerSeen { profile, conn } => true,
            _ => false,
        },
        step::StepView::ReadText { conn, sql, bind, then } => {
            then matches step::AfterReadTextView::Version { purpose, conn, encrypted } && passing(
                purpose,
            )
        },
        _ => true,
    }
}

/// The operations that are read-only leave the held databases as they are, and ask for
/// no change of any; the statement of a query is started only where the database takes it
/// for read-only.
pub proof fn law_reads_change_nothing(
    s: service::ServiceView,
    op: Seq<char>,
    params: json::JsonView,
    replies: Seq<run::ReplyView>,
)
    requires
        dispatch::reads_only(op),
    ensures
        run::served(s, op, params, replies).0.conns == s.conns,
        asks_no_change(run::served(s, op, params, replies).1),
        op == "query-run"@ && query_laws::is_started(run::served(s, op, params, replies).1)
            ==> query_laws::taken_for_read_only(replies),
{
    lemma_of_a_read(s, op, params, replies);
    if op == "query-run"@ && query_laws::is_started(run::served(s, op, params, replies).1) {
        query_laws::law_only_reads_are_started(s, params, replies);
    }
}

proof fn lemma_of_a_read(
    s: service::ServiceView,
    op: Seq<char>,
    params: json::JsonView,
    replies: Seq<run::ReplyView>,
)
    requires
        dispatch::reads_only(op),
    ensures
        run::served(s, op, params, replies).0.conns == s.conns,
        of_a_read(run::served(s, op, params, replies).1),
    decreases replies.len(),
{
    if replies.len() == 0 {
        dispatch::lemma_marks();
    } else {
        lemma_of_a_read(s, op, params, replies.drop_last());
        let (s1, st1) = run::served(s, op, params, replies.drop_last());
        lemma_read_goes_on(s1, st1, replies.last());
    }
}

proof fn lemma_read_goes_on(s: service::ServiceView, st: step::StepView, reply: run::ReplyView)
    requires
        of_a_read(st),
    ensures
        run::advance(s, st, reply).0.conns == s.conns,
        of_a_read(run::advance(s, st, reply).1),
{
}

spec fn holds_nothing(st: step::StepView) -> bool {
    match st {
        step::StepView::Open { file, then } => match then {
            step::AfterOpenView::Session { purpose, key } => passing(purpose),
            _ => true,
        },
        step::StepView::Run { conn, command, then } => match then {
            step::AfterRunView::Keyed { purpose, conn } => passing(purpose),
            step::AfterRunView::Probed { purpose, conn, encrypted } => passing(purpose),
            _ => true,
        },
        step::StepView::ReadText { conn, sql, bind, then } => match then {
            step::AfterReadTextView::Version { purpose, conn, encrypted } => passing(purpose),
            _ => true,
        },
        _ => true,
    }
}

/// Only `db-connect` and `db-disconnect` change which databases are held.
pub proof fn law_held_databases_stay(
    s: service::ServiceView,
    op: Seq<char>,
    params: json::JsonView,
    replies: Seq<run::ReplyView>,
)
    requires
        op != "db-connect"@,
        op != "db-disconnect"@,
    ensures
        run::served(s, op, params, replies).0.conns == s.conns,
{
    lemma_holds_nothing(s, op, params, replies);
}

proof fn lemma_holds_nothing(
    s: service::ServiceView,
    op: Seq<char>,
    params: json::JsonView,
    replies: Seq<run::ReplyView>,
)
    requires
        op != "db-connect"@,
        op != "db-disconnect"@,
    ensures
        run::served(s, op, params, replies).0.conns == s.conns,
        holds_nothing(run::served(s, op, params, replies).1),
    decreases replies.len(),
{
    if replies.len() > 0 {
        lemma_holds_nothing(s, op, params, replies.drop_last());
        let (s1, st1) = run::served(s, op, params, replies.drop_last());
        lemma_nothing_is_held(s1, st1, replies.last());
    }
}

proof fn lemma_nothing_is_held(s: service::ServiceView, st: step::StepView, reply: run::ReplyView)
    requires
        holds_nothing(st),
    ensures
        run::advance(s, st, reply).0.conns == s.conns,
        holds_nothing(run::advance(s, st, reply).1),
{
    match (st, reply) {
        (step::StepView::Run { conn, command, then }, run::ReplyView::Ran(r, now)) => {
            lemma_commands_hold_nothing(s, st, r, now);
        },
        (step::StepView::ReadRows { conn, sql, width, then }, run::ReplyView::Rows(r)) => {
            lemma_rows_hold_nothing(s, then, r);
        },
        _ => {},
    }
}

proof fn lemma_commands_hold_nothing(
    s: service::ServiceView,
    st: step::StepView,
    reply: Result<(), Seq<char>>,
    now: Seq<char>,
)
    requires
        st is Run,
        holds_nothing(st),
    ensures
        dispatch::after_run(s, st->Run_then, reply, now).0.conns == s.conns,
        holds_nothing(dispatch::after_run(s, st->Run_then, reply, now).1),
{
}

proof fn lemma_rows_hold_nothing(
    s: service::ServiceView,
    then: step::AfterReadRowsView,
    reply: step::RowsView,
)
    ensures
        dispatch::after_read_rows(s, then, reply).0.conns == s.conns,
        holds_nothing(dispatch::after_read_rows(s, then, reply).1),
{
}

/// The replies that a session takes, in their order; the key is set only where one is
/// given.
pub open spec fn session_replies(
    keyed: bool,
    opened: Result<u64, Seq<char>>,
    key: Result<(), Seq<char>>,
    probe: Result<(), Seq<char>>,
    version: Result<Option<Seq<char>>, Seq<char>>,
    now: Seq<char>,
) -> Seq<run::ReplyView> {
    if keyed {
        seq![
            run::ReplyView::Opened(opened),
            run::ReplyView::Ran(key, now),
            run::ReplyView::Ran(probe, now),
            run::ReplyView::Text(version),
        ]
    } else {
        seq![
            run::ReplyView::Opened(opened),
            run::ReplyView::Ran(probe, now),
            run::ReplyView::Text(version),
        ]
    }
}

proof fn lemma_session_run(
    s: service::ServiceView,
    file: Seq<char>,
    purpose: step::PurposeView,
    key_text: Option<Seq<char>>,
    opened: Result<u64, Seq<char>>,
    key: Result<(), Seq<char>>,
    probe: Result<(), Seq<char>>,
    version: Result<Option<Seq<char>>, Seq<char>>,
    now: Seq<char>,
)
    ensures
        ({
            let keyed = key_text is Some;
            let st = step::StepView::Open {
                file,
                then: step::AfterOpenView::Session { purpose, key: key_text },
            };
            let end = run::run(s, st, session_replies(keyed, opened, key, probe, version, now));
            end == match (opened, key, probe) {
                (Err(e), _, _) => session::session_failed(s, purpose, "open failed: "@ + e, None),
                (Ok(conn), _, _) => if keyed && key is Err {
                    session::session_failed(
                        s,
                        purpose,
                        "set key failed: "@ + key->Err_0,
                        Some(conn),
                    )
                } else if probe is Err {
                    session::session_failed(
                        s,
                        purpose,
                        "cannot read database (wrong key or not a database): "@ + probe->Err_0,
                        Some(conn),
                    )
                } else {
                    session::after_version(s, purpose, conn, keyed, version)
                },
            }
        }),
{
    let keyed = key_text is Some;
    let st = step::StepView::Open {
        file,
        then: step::AfterOpenView::Session { purpose, key: key_text },
    };
    let all = session_replies(keyed, opened, key, probe, version, now);
    run::lemma_one_more(s, st, all, 0);
    run::lemma_one_more(s, st, all, 1);
    run::lemma_one_more(s, st, all, 2);
    if keyed {
        run::lemma_one_more(s, st, all, 3);
        assert(all.take(4) =~= all);
    } else {
        assert(all.take(3) =~= all);
    }
}

/// A connection succeeds exactly where the file opens, the key, if one is given, can be
/// set, and the database can then be read: a wrong or missing key fails here, not on a
/// later read. Only then is the database held, in place of the one that the profile held
/// before, which is closed. A database that could not be connected is closed again and
/// nothing is held.
pub proof fn law_connect(
    s: service::ServiceView,
    params: json::JsonView,
    opened: Result<u64, Seq<char>>,
    key: Result<(), Seq<char>>,
    probe: Result<(), Seq<char>>,
    version: Result<Option<Seq<char>>, Seq<char>>,
    now: Seq<char>,
)
    requires
        params.text_at("profile"@) is Some,
    ensures
        ({
            let profile = params.text_at("profile"@)->0;
            let keyed = params.text_at("key"@) is Some;
            let replies = session_replies(keyed, opened, key, probe, version, now);
            let (s1, st1) = run::served(s, "db-connect"@, params, replies);
            let succeeds = opened is Ok && (keyed ==> key is Ok) && probe is Ok;
            &&& st1 is Done
            &&& st1->outcome.ok == succeeds
            &&& succeeds ==> s1.conns == s.conns.insert(profile, opened->Ok_0) && st1->close
                == s.conn_of(profile)
            &&& !succeeds ==> s1.conns == s.conns && st1->outcome.code == Some(
                ErrCode::Unavailable.text(),
            ) && st1->close == opened.ok()
        }),
{
    dispatch::lemma_marks();
    lemma_session_run(
        s,
        session::file_of(params),
        step::PurposeView::Connect(params.text_at("profile"@)->0),
        params.text_at("key"@),
        opened,
        key,
        probe,
        version,
        now,
    );
}

/// A probe of a file succeeds exactly where a connection would, and holds nothing; the
/// file is closed again.
pub proof fn law_test(
    s: service::ServiceView,
    params: json::JsonView,
    opened: Result<u64, Seq<char>>,
    key: Result<(), Seq<char>>,
    probe: Result<(), Seq<char>>,
    version: Result<Option<Seq<char>>, Seq<char>>,
    now: Seq<char>,
)
    ensures
        ({
            let keyed = params.text_at("key"@) is Some;
            let replies = session_replies(keyed, opened, key, probe, version, now);
            let (s1, st1) = run::served(s, "db-test"@, params, replies);
            &&& st1 is Done
            &&& st1->outcome.ok == (opened is Ok && (keyed ==> key is Ok) && probe is Ok)
            &&& s1.conns == s.conns
            &&& st1->close == opened.ok()
        }),
{
    dispatch::lemma_marks();
    lemma_session_run(
        s,
        session::file_of(params),
        step::PurposeView::Test(session::file_of(params)),
        params.text_at("key"@),
        opened,
        key,
        probe,
        version,
        now,
    );
}

/// Where a key is given, the first thing that is asked of a database just opened is to
/// set it.
pub proof fn law_the_key_comes_first(
    s: service::ServiceView,
    then: step::AfterOpenView,
    conn: u64,
)
    ensures
        ({
            let key = match then {
                step::AfterOpenView::Session { purpose, key } => key,
                step::AfterOpenView::Create { file, key } => key,
            };
            let (s1, st1) = session::after_open(s, then, Ok(conn));
            key matches Some(k) ==> {
                &&& s1 == s
                &&& st1 matches step::StepView::Run { conn: c, command, then }
                &&& c == conn
                &&& command == (step::CommandView::Pragma { name: "key"@, value: k })
            }
        }),
{
}

/// What a profile holds, it holds until it is let go; no other profile is touched by
/// either. Letting go tells whether anything was held.
pub proof fn law_connect_and_disconnect(
    s: service::ServiceView,
    profile: Seq<char>,
    other: Seq<char>,
    conn: u64,
    params: json::JsonView,
)
    requires
        params.text_at("profile"@) == Some(profile),
    ensures
        s.holding(profile, conn).conn_of(profile) == Some(conn),
        s.without(profile).conn_of(profile) == None::<u64>,
        other != profile ==> s.holding(profile, conn).conn_of(other) == s.conn_of(other),
        other != profile ==> s.without(profile).conn_of(other) == s.conn_of(other),
        s.conn_of(profile) is None ==> s.holding(profile, conn).without(profile) == s,
        ({
            let (s1, st1) = session::disconnect(s, params);
            &&& s1.conns == s.without(profile).conns
            &&& st1 is Done && st1->outcome.ok
            &&& st1->close == s.conn_of(profile)
            &&& st1->outcome.data->0.bool_at("closed"@) == Some(s.conn_of(profile) is Some)
        }),
{
    if s.conn_of(profile) is None {
        assert(s.holding(profile, conn).without(profile).conns =~= s.conns);
    }
    reveal_strlit("profile");
    reveal_strlit("closed");
    let told = session::disconnect(s, params).1->outcome.data->0->Object_0;
    assert("profile"@.len() != "closed"@.len());
    assert(told.drop_first()[0] == told[1]);
    reveal_with_fuel(json::lookup, 3);
}

/// Two requests that differ at most in the text of their keys.
pub open spec fn same_but_for_keys(a: json::JsonView, b: json::JsonView) -> bool {
    &&& forall|name: Seq<char>|
        name != "key"@ && name != "newKey"@ ==> #[trigger] a.get(name) == b.get(name)
    &&& a.text_at("key"@) is Some == b.text_at("key"@) is Some
    &&& a.text_at("newKey"@) is Some == b.text_at("newKey"@) is Some
}

/// Two steps that differ at most in the text of a key on its way to the database.
spec fn same_but_for_key(a: step::StepView, b: step::StepView) -> bool {
    match (a, b) {
        (
            step::StepView::Open { file: f1, then: t1 },
            step::StepView::Open { file: f2, then: t2 },
        ) => f1 == f2 && match (t1, t2) {
            (
                step::AfterOpenView::Session { purpose: p1, key: k1 },
                step::AfterOpenView::Session { purpose: p2, key: k2 },
            ) => p1 == p2 && k1 is Some == k2 is Some,
            (
                step::AfterOpenView::Create { file: g1, key: k1 },
                step::AfterOpenView::Create { file: g2, key: k2 },
            ) => g1 == g2 && k1 is Some == k2 is Some,
            _ => false,
        },
        (
            step::StepView::Run { conn: c1, command: m1, then: t1 },
            step::StepView::Run { conn: c2, command: m2, then: t2 },
        ) => c1 == c2 && t1 == t2,
        _ => a == b,
    }
}

proof fn lemma_same_replies(
    s: service::ServiceView,
    a: step::StepView,
    b: step::StepView,
    reply: run::ReplyView,
)
    requires
        same_but_for_key(a, b),
    ensures
        run::advance(s, a, reply).0 == run::advance(s, b, reply).0,
        same_but_for_key(run::advance(s, a, reply).1, run::advance(s, b, reply).1),
{
    match (a, reply) {
        (step::StepView::Open { file, then }, run::ReplyView::Opened(r)) => {},
        (step::StepView::Run { conn, command, then }, run::ReplyView::Ran(r, now)) => {
            assert(run::advance(s, a, reply) == run::advance(s, b, reply));
        },
        (step::StepView::Open { file, then }, _) => {},
        (step::StepView::Run { conn, command, then }, _) => {},
        _ => {
            assert(a == b);
        },
    }
}

proof fn lemma_same_reading(a: json::JsonView, b: json::JsonView)
    requires
        same_but_for_keys(a, b),
    ensures
        a.get("profile"@) == b.get("profile"@),
        a.get("file"@) == b.get("file"@),
        a.get("sql"@) == b.get("sql"@),
        a.get("params"@) == b.get("params"@),
        a.get("rowLimit"@) == b.get("rowLimit"@),
        a.get("force"@) == b.get("force"@),
        a.get("tables"@) == b.get("tables"@),
        a.get("limit"@) == b.get("limit"@),
        a.get("id"@) == b.get("id"@),
        a.get("checksum"@) == b.get("checksum"@),
        a.get("statements"@) == b.get("statements"@),
{
    reveal_strlit("key");
    reveal_strlit("newKey");
    reveal_strlit("profile");
    reveal_strlit("file");
    reveal_strlit("sql");
    reveal_strlit("params");
    reveal_strlit("rowLimit");
    reveal_strlit("force");
    reveal_strlit("tables");
    reveal_strlit("limit");
    reveal_strlit("id");
    reveal_strlit("checksum");
    reveal_strlit("statements");
    assert("key"@.len() == 3 && "newKey"@.len() == 6);
    assert("sql"@[0] != "key"@[0]);
    assert("params"@[0] != "newKey"@[0] && "tables"@[0] != "newKey"@[0]);
    assert("profile"@.len() == 7 && "file"@.len() == 4 && "rowLimit"@.len() == 8);
    assert("force"@.len() == 5 && "limit"@.len() == 5 && "id"@.len() == 2);
    assert("checksum"@.len() == 8 && "statements"@.len() == 10);
}

proof fn lemma_same_start(
    s: service::ServiceView,
    op: Seq<char>,
    a: json::JsonView,
    b: json::JsonView,
)
    requires
        same_but_for_keys(a, b),
    ensures
        dispatch::start(s, op, a).0 == dispatch::start(s, op, b).0,
        same_but_for_key(dispatch::start(s, op, a).1, dispatch::start(s, op, b).1),
{
    lemma_same_reading(a, b);
    if op == "query-run"@ {
        assert(query::query_start(s, a) == query::query_start(s, b));
    } else if op == "db-exec"@ {
        assert(query::exec_start(s, a) == query::exec_start(s, b));
    } else if op == "db-migrate"@ {
        assert(migration::migrate_start(s, a) == migration::migrate_start(s, b));
    } else if op == "db-introspect"@ {
        assert(catalog::introspect_start(s, a) == catalog::introspect_start(s, b));
    } else if op == "db-audit"@ {
        assert(session::read_audit(s, a) == session::read_audit(s, b));
    } else if op == "db-disconnect"@ {
        assert(session::disconnect(s, a) == session::disconnect(s, b));
    } else if op == "migration-applied"@ {
        assert(migration::applied_start(s, a) == migration::applied_start(s, b));
    }
    dispatch::lemma_marks();
}

/// A key goes to the database and nowhere else: whatever its text, the same replies lead
/// to the same answer and leave the same service behind.
pub proof fn law_keys_leave_no_trace(
    s: service::ServiceView,
    op: Seq<char>,
    a: json::JsonView,
    b: json::JsonView,
    replies: Seq<run::ReplyView>,
)
    requires
        same_but_for_keys(a, b),
    ensures
        run::served(s, op, a, replies).0 == run::served(s, op, b, replies).0,
        run::served(s, op, a, replies).1 is Done ==> run::served(s, op, a, replies).1
            == run::served(s, op, b, replies).1,
{
    lemma_same_runs(s, op, a, b, replies);
}

proof fn lemma_same_runs(
    s: service::ServiceView,
    op: Seq<char>,
    a: json::JsonView,
    b: json::JsonView,
    replies: Seq<run::ReplyView>,
)
    requires
        same_but_for_keys(a, b),
    ensures
        run::served(s, op, a, replies).0 == run::served(s, op, b, replies).0,
        same_but_for_key(
            run::served(s, op, a, replies).1,
            run::served(s, op, b, replies).1,
        ),
    decreases replies.len(),
{
    if replies.len() == 0 {
        lemma_same_start(s, op, a, b);
    } else {
        lemma_same_runs(s, op, a, b, replies.drop_last());
        let (s1, st1) = run::served(s, op, a, replies.drop_last());
        let (s2, st2) = run::served(s, op, b, replies.drop_last());
        lemma_same_replies(s1, st1, st2, replies.last());
    }
}

/// What may be run of a request's own text: one statement, with the values that the
/// request binds; where it is run for its effect, no UPDATE or DELETE of every row
/// unless the request insists on it.
pub open spec fn runs_as_asked(
    st: step::StepView,
    op: Seq<char>,
    params: json::JsonView,
) -> bool {
    match st {
        step::StepView::Prepare { conn, sql, then } => {
            &&& op == "query-run"@
            &&& params.text_at("sql"@) == Some(sql)
            &&& query::bind_of(params) == Some(then.bind)
            &&& then.select == sql::selects(sql)
            &&& !sql::multiple_statements(sql)
        },
        step::StepView::Execute { conn, sql, bind, then } => then is Exec ==> {
            &&& op == "db-exec"@
            &&& params.text_at("sql"@) == Some(sql)
            &&& query::bind_of(params) == Some(bind)
            &&& !sql::multiple_statements(sql)
            &&& query::forced(params) || !sql::where_less_mutation(sql)
        },
        _ => true,
    }
}

/// A statement of a request is run only as asked, at whatever point of its run.
pub proof fn law_statements_run_only_as_asked(
    s: service::ServiceView,
    op: Seq<char>,
    params: json::JsonView,
    replies: Seq<run::ReplyView>,
)
    ensures
        runs_as_asked(run::served(s, op, params, replies).1, op, params),
    decreases replies.len(),
{
    if replies.len() > 0 {
        law_statements_run_only_as_asked(s, op, params, replies.drop_last());
        let (s1, st1) = run::served(s, op, params, replies.drop_last());
        lemma_no_new_statement(s1, st1, replies.last());
    }
}

proof fn lemma_no_new_statement(s: service::ServiceView, st: step::StepView, reply: run::ReplyView)
    ensures
        ({
            let st1 = run::advance(s, st, reply).1;
            st1 == st || !(st1 is Prepare) && (st1 is Execute ==> !(st1->Execute_then is Exec))
        }),
{
    match (st, reply) {
        (step::StepView::ReadRows { conn, sql, width, then }, run::ReplyView::Rows(r)) => {
            lemma_rows_run_nothing(s, then, r);
        },
        (step::StepView::Run { conn, command, then }, run::ReplyView::Ran(r, now)) => {
            lemma_commands_run_nothing_asked(s, then, r, now);
        },
        _ => {},
    }
}

proof fn lemma_rows_run_nothing(
    s: service::ServiceView,
    then: step::AfterReadRowsView,
    reply: step::RowsView,
)
    ensures
        ({
            let st1 = dispatch::after_read_rows(s, then, reply).1;
            st1 is Done || st1 is ReadRows
        }),
{
}

proof fn lemma_commands_run_nothing_asked(
    s: service::ServiceView,
    then: step::AfterRunView,
    reply: Result<(), Seq<char>>,
    now: Seq<char>,
)
    ensures
        ({
            let st1 = dispatch::after_run(s, then, reply, now).1;
            !(st1 is Prepare) && (st1 is Execute ==> !(st1->Execute_then is Exec))
        }),
{
}

/// A request that is refused for what it asks is answered at once: nothing is asked of
/// any database and nothing changes.
pub proof fn law_refused_requests_do_nothing(s: service::ServiceView, params: json::JsonView)
    ensures
        query::query_fault(params) matches Some(message) ==> dispatch::start(
            s,
            "query-run"@,
            params,
        ) == (s, step::failed(ErrCode::InvalidParams, message)),
        query::exec_fault(params) matches Some(message) ==> dispatch::start(
            s,
            "db-exec"@,
            params,
        ) == (s, step::failed(ErrCode::InvalidParams, message)),
{
    dispatch::lemma_marks();
}

/// The status names just the profiles that hold a database, each once and in order, and
/// tells how many they are.
pub proof fn law_status(s: service::ServiceView)
    requires
        s.conns.dom().finite(),
    ensures
        ({
            let names = order::listing(s.conns.dom());
            let (s1, st1) = session::status(s);
            let data = st1->outcome.data;
            &&& order::lists(names, s.conns.dom())
            &&& names.len() == s.conns.dom().len()
            &&& s1.conns == s.conns
            &&& st1->outcome.ok
            &&& data matches Some(data)
            &&& data.get("connections"@) == Some(session::text_list(names))
            &&& data.unsigned_at("count"@) == Some(s.conns.dom().len() as u64)
        }),
{
    order::law_listing(s.conns.dom());
    reveal_strlit("connections");
    reveal_strlit("count");
    let told = session::status(s).1->outcome.data->0->Object_0;
    assert("connections"@.len() != "count"@.len());
    assert(told.drop_first()[0] == told[1]);
    reveal_with_fuel(json::lookup, 3);
}

/// A new database is told as created exactly where the file opens, the key, if one is
/// given, can be set, and the database can be written; it is closed again in any case.
pub proof fn law_create(
    s: service::ServiceView,
    params: json::JsonView,
    opened: Result<u64, Seq<char>>,
    key: Result<(), Seq<char>>,
    written: Result<(), Seq<char>>,
    now: Seq<char>,
)
    requires
        params.text_at("file"@) is Some,
    ensures
        ({
            let keyed = params.text_at("key"@) is Some;
            let replies = if keyed {
                seq![
                    run::ReplyView::Opened(opened),
                    run::ReplyView::Ran(key, now),
                    run::ReplyView::Ran(written, now),
                ]
            } else {
                seq![run::ReplyView::Opened(opened), run::ReplyView::Ran(written, now)]
            };
            let (s1, st1) = run::served(s, "db-create"@, params, replies);
            &&& st1 is Done
            &&& st1->outcome.ok == (opened is Ok && (keyed ==> key is Ok) && written is Ok)
            &&& st1->close == opened.ok()
            &&& s1.conns == s.conns
        }),
{
    let keyed = params.text_at("key"@) is Some;
    let replies = if keyed {
        seq![
            run::ReplyView::Opened(opened),
            run::ReplyView::Ran(key, now),
            run::ReplyView::Ran(written, now),
        ]
    } else {
        seq![run::ReplyView::Opened(opened), run::ReplyView::Ran(written, now)]
    };
    dispatch::lemma_marks();
    let st = dispatch::start(s, "db-create"@, params).1;
    run::lemma_one_more(s, st, replies, 0);
    run::lemma_one_more(s, st, replies, 1);
    if keyed {
        run::lemma_one_more(s, st, replies, 2);
        assert(replies.take(3) =~= replies);
    } else {
        assert(replies.take(2) =~= replies);
    }
}

} // verus!
