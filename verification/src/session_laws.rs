//! What sessions ask of a database and what they tell, request by request.
use vstd::prelude::*;

use crate::dispatch;
use crate::json;
use crate::json_laws;
use crate::outcome;
use crate::run;
use crate::service;
use crate::step;

verus! {

/// The file that a session opens: the one that the request names, or a database in
/// memory.
pub open spec fn session_file(op: Seq<char>, params: json::JsonView) -> Seq<char> {
    if op != "ping"@ && params.text_at("file"@) is Some {
        params.text_at("file"@)->0
    } else {
        ":memory:"@
    }
}

/// The key that a session sets, if any.
pub open spec fn session_key(op: Seq<char>, params: json::JsonView) -> Option<Seq<char>> {
    if op == "ping"@ {
        None
    } else {
        params.text_at("key"@)
    }
}

/// A request that begins a session.
pub open spec fn begins_session(op: Seq<char>, params: json::JsonView) -> bool {
    ||| op == "db-connect"@ && params.text_at("profile"@) is Some
    ||| op == "db-test"@
    ||| op == "ping"@
}

/// The profile that a session is recorded under.
pub open spec fn session_profile(op: Seq<char>, params: json::JsonView) -> Seq<char> {
    if op == "db-connect"@ {
        params.text_at("profile"@)->0
    } else {
        ""@
    }
}

/// The replies to the steps of a session up to its probe, which go well.
pub open spec fn probed(keyed: bool, conn: u64, now: Seq<char>) -> Seq<run::ReplyView> {
    if keyed {
        seq![
            run::ReplyView::Opened(Ok(conn)),
            run::ReplyView::Ran(Ok(()), now),
            run::ReplyView::Ran(Ok(()), now),
        ]
    } else {
        seq![run::ReplyView::Opened(Ok(conn)), run::ReplyView::Ran(Ok(()), now)]
    }
}

/// The purpose of a session.
spec fn purpose_of(op: Seq<char>, params: json::JsonView) -> step::PurposeView {
    if op == "db-connect"@ {
        step::PurposeView::Connect(params.text_at("profile"@)->0)
    } else if op == "db-test"@ {
        step::PurposeView::Test(session_file(op, params))
    } else {
        step::PurposeView::Ping
    }
}

proof fn lemma_start(s: service::ServiceView, op: Seq<char>, params: json::JsonView)
    requires
        begins_session(op, params),
    ensures
        dispatch::start(s, op, params) == (
            s,
            step::StepView::Open {
                file: session_file(op, params),
                then: step::AfterOpenView::Session {
                    purpose: purpose_of(op, params),
                    key: session_key(op, params),
                },
            },
        ),
{
    dispatch::lemma_marks();
}

proof fn lemma_probed(
    s: service::ServiceView,
    op: Seq<char>,
    params: json::JsonView,
    conn: u64,
    now: Seq<char>,
)
    requires
        begins_session(op, params),
    ensures
        ({
            let key = session_key(op, params);
            let purpose = purpose_of(op, params);
            let opened = run::ReplyView::Opened(Ok(conn));
            let well = run::ReplyView::Ran(Ok(()), now);
            let encrypted = key is Some;
            let probe = step::StepView::Run {
                conn,
                command: step::CommandView::ReadInt { sql: "SELECT count(*) FROM sqlite_master"@ },
                then: step::AfterRunView::Probed { purpose, conn, encrypted },
            };
            &&& run::served(s, op, params, Seq::empty()) == dispatch::start(s, op, params)
            &&& run::served(s, op, params, seq![opened]) == (
                s,
                match key {
                    Some(k) => step::StepView::Run {
                        conn,
                        command: step::CommandView::Pragma { name: "key"@, value: k },
                        then: step::AfterRunView::Keyed { purpose, conn },
                    },
                    None => probe,
                },
            )
            &&& key is Some ==> run::served(s, op, params, seq![opened, well]) == (s, probe)
            &&& run::served(s, op, params, probed(key is Some, conn, now)) == (
                s,
                step::StepView::ReadText {
                    conn,
                    sql: "SELECT sqlite_version()"@,
                    bind: Seq::empty(),
                    then: step::AfterReadTextView::Version { purpose, conn, encrypted },
                },
            )
        }),
{
    lemma_start(s, op, params);
    let (s0, st0) = dispatch::start(s, op, params);
    let opened = run::ReplyView::Opened(Ok(conn));
    let well = run::ReplyView::Ran(Ok(()), now);
    run::lemma_short(s0, st0, opened, well, well);
}

/// The steps of a session: the file is opened; the key, if the request gives one, is set
/// on the database that was opened, before anything else; then the schema is read, so
/// that a wrong or missing key shows; then the version.
pub proof fn law_what_a_session_asks(
    s: service::ServiceView,
    op: Seq<char>,
    params: json::JsonView,
    conn: u64,
    now: Seq<char>,
)
    requires
        begins_session(op, params),
    ensures
        ({
            let key = session_key(op, params);
            let all = probed(key is Some, conn, now);
            let (s0, first) = run::served(s, op, params, all.take(0));
            let (s1, second) = run::served(s, op, params, all.take(1));
            let (s2, third) = run::served(s, op, params, all.take(2));
            let (s3, last) = run::served(s, op, params, all);
            &&& s0 == s && s1 == s && s2 == s && s3 == s
            &&& first is Open
            &&& first->file == session_file(op, params)
            &&& second is Run
            &&& second->Run_conn == conn
            &&& second->command == match key {
                Some(k) => step::CommandView::Pragma { name: "key"@, value: k },
                None => step::CommandView::ReadInt { sql: "SELECT count(*) FROM sqlite_master"@ },
            }
            &&& key is Some ==> {
                &&& third is Run
                &&& third->Run_conn == conn
                &&& third->command == (step::CommandView::ReadInt {
                    sql: "SELECT count(*) FROM sqlite_master"@,
                })
            }
            &&& last is ReadText
            &&& last->ReadText_conn == conn
            &&& last->ReadText_sql == "SELECT sqlite_version()"@
            &&& last->ReadText_bind.len() == 0
        }),
{
    lemma_start(s, op, params);
    lemma_probed(s, op, params, conn, now);
    let keyed = session_key(op, params) is Some;
    let all = probed(keyed, conn, now);
    let opened = run::ReplyView::Opened(Ok(conn));
    let well = run::ReplyView::Ran(Ok(()), now);
    assert(all.take(0) =~= Seq::empty());
    assert(all.take(1) =~= seq![opened]);
    assert(all.take(2) =~= seq![opened, well]);
}

/// What a session that went well tells: a connection its profile, a test its file, each
/// the dialect, the version that was read, and whether a key was given. A ping tells the
/// dialect and the version alone.
#[verifier::rlimit(40)]
pub proof fn law_what_a_session_tells(
    s: service::ServiceView,
    op: Seq<char>,
    params: json::JsonView,
    conn: u64,
    now: Seq<char>,
    version: Result<Option<Seq<char>>, Seq<char>>,
)
    requires
        begins_session(op, params),
    ensures
        ({
            let key = session_key(op, params);
            let (s1, end) = run::served(
                s,
                op,
                params,
                probed(key is Some, conn, now).push(run::ReplyView::Text(version)),
            );
            let told = end->outcome.data->0;
            let profile = session_profile(op, params);
            &&& end is Done
            &&& end->outcome.ok && end->outcome.code is None && end->outcome.data is Some
            &&& told.text_at("dialect"@) == Some("sqlite"@)
            &&& told.text_at("version"@) == match version {
                Ok(Some(v)) => Some(v),
                _ => Some("unknown"@),
            }
            &&& op == "db-connect"@ ==> {
                &&& told->Object_0.len() == 4
                &&& told.text_at("profile"@) == Some(profile)
                &&& told.bool_at("encrypted"@) == Some(params.text_at("key"@) is Some)
                &&& end->outcome.message == Some("connected: "@ + profile)
                &&& end->close == s.conn_of(profile)
                &&& s1 == s.holding(profile, conn).audited(profile, op, true, 0)
            }
            &&& op == "db-test"@ ==> {
                &&& told->Object_0.len() == 4
                &&& told.text_at("file"@) == Some(session_file(op, params))
                &&& told.bool_at("encrypted"@) == Some(params.text_at("key"@) is Some)
                &&& end->outcome.message == Some("connection ok"@)
                &&& end->close == Some(conn)
                &&& s1 == s.audited(""@, op, true, 0)
            }
            &&& op == "ping"@ ==> {
                &&& told->Object_0.len() == 2
                &&& end->outcome.message is None
                &&& end->close == Some(conn)
                &&& s1 == s.audited(""@, op, true, 0)
            }
        }),
{
    dispatch::lemma_marks();
    lemma_probed(s, op, params, conn, now);
    let (s0, st0) = dispatch::start(s, op, params);
    let all = probed(session_key(op, params) is Some, conn, now);
    let whole = all.push(run::ReplyView::Text(version));
    run::lemma_after(s0, st0, all, run::ReplyView::Text(version));
    let end = run::served(s, op, params, whole).1;
    assert(end is Done);
    let told = end->outcome.data->0->Object_0;
    lemma_session_keys();
    if op == "ping"@ {
        json_laws::lemma_entry(told, 0);
        json_laws::lemma_entry(told, 1);
    } else {
        json_laws::lemma_entry(told, 0);
        json_laws::lemma_entry(told, 1);
        json_laws::lemma_entry(told, 2);
        json_laws::lemma_entry(told, 3);
    }
}

proof fn lemma_session_keys()
    ensures
        "profile"@ != "dialect"@,
        "profile"@ != "version"@,
        "profile"@ != "encrypted"@,
        "dialect"@ != "version"@,
        "dialect"@ != "encrypted"@,
        "dialect"@ != "file"@,
        "version"@ != "encrypted"@,
        "version"@ != "file"@,
        "file"@ != "encrypted"@,
        "rekeyed"@ != "profile"@,
        "closed"@ != "profile"@,
{
    reveal_strlit("profile");
    reveal_strlit("dialect");
    reveal_strlit("version");
    reveal_strlit("encrypted");
    reveal_strlit("file");
    reveal_strlit("rekeyed");
    reveal_strlit("closed");
    assert("file"@.len() == 4 && "encrypted"@.len() == 9);
    assert("profile"@[0] == 'p' && "dialect"@[0] == 'd' && "version"@[0] == 'v' && "rekeyed"@[0]
        == 'r');
}

/// What a session that failed tells, step by step: that the file could not be opened, the
/// key not be set, or the database not be read. What was opened is closed, nothing is
/// held, and the failure is recorded.
pub proof fn law_what_a_failed_session_tells(
    s: service::ServiceView,
    op: Seq<char>,
    params: json::JsonView,
    conn: u64,
    now: Seq<char>,
    error: Seq<char>,
)
    requires
        begins_session(op, params),
    ensures
        ({
            let key = session_key(op, params);
            let recorded = s.audited(session_profile(op, params), op, false, 0);
            let opened = run::ReplyView::Opened(Ok(conn));
            let well = run::ReplyView::Ran(Ok(()), now);
            let ill = run::ReplyView::Ran(Err(error), now);
            let told = |message: Seq<char>, close: Option<u64>|
                step::StepView::Done {
                    outcome: outcome::OutcomeView {
                        ok: false,
                        data: None,
                        code: Some("UNAVAILABLE"@),
                        message: Some(message),
                    },
                    close,
                };
            let unread = told(
                "cannot read database (wrong key or not a database): "@ + error,
                Some(conn),
            );
            &&& run::served(s, op, params, seq![run::ReplyView::Opened(Err(error))]) == (
                recorded,
                told("open failed: "@ + error, None),
            )
            &&& key is Some ==> run::served(s, op, params, seq![opened, ill]) == (
                recorded,
                told("set key failed: "@ + error, Some(conn)),
            )
            &&& key is Some ==> run::served(s, op, params, seq![opened, well, ill]) == (
                recorded,
                unread,
            )
            &&& key is None ==> run::served(s, op, params, seq![opened, ill]) == (recorded, unread)
        }),
{
    dispatch::lemma_marks();
    lemma_start(s, op, params);
    lemma_probed(s, op, params, conn, now);
    let (s0, st0) = dispatch::start(s, op, params);
    let opened = run::ReplyView::Opened(Ok(conn));
    let well = run::ReplyView::Ran(Ok(()), now);
    let ill = run::ReplyView::Ran(Err(error), now);
    run::lemma_short(s0, st0, run::ReplyView::Opened(Err(error)), ill, ill);
    run::lemma_short(s0, st0, opened, ill, ill);
    run::lemma_short(s0, st0, opened, well, ill);
}

/// A request for a session, a new database, a new key or the end of a session that lacks
/// what it needs is refused with the first thing that it lacks, and leaves no record.
pub proof fn law_incomplete_session_requests(
    s: service::ServiceView,
    params: json::JsonView,
    replies: Seq<run::ReplyView>,
)
    ensures
        ({
            let refused = |message: Seq<char>|
                step::StepView::Done {
                    outcome: outcome::OutcomeView {
                        ok: false,
                        data: None,
                        code: Some("INVALID_PARAMS"@),
                        message: Some(message),
                    },
                    close: None,
                };
            &&& params.text_at("profile"@) is None ==> {
                &&& run::served(s, "db-connect"@, params, replies) == (
                    s,
                    refused("profile required"@),
                )
                &&& run::served(s, "db-disconnect"@, params, replies) == (
                    s,
                    refused("profile required"@),
                )
                &&& run::served(s, "db-rekey"@, params, replies) == (
                    s,
                    refused("profile required"@),
                )
            }
            &&& params.text_at("profile"@) is Some && params.text_at("newKey"@) is None
                ==> run::served(s, "db-rekey"@, params, replies) == (s, refused("newKey required"@))
            &&& params.text_at("file"@) is None ==> run::served(s, "db-create"@, params, replies)
                == (s, refused("file required"@))
        }),
    decreases replies.len(),
{
    dispatch::lemma_marks();
    if replies.len() > 0 {
        law_incomplete_session_requests(s, params, replies.drop_last());
    }
}

/// The course of `db-create`, whatever the replies are.
spec fn on_course(st: step::StepView, params: json::JsonView) -> bool {
    let file = params.text_at("file"@)->0;
    let key = params.text_at("key"@);
    match st {
        step::StepView::Open { file: opened, then } => {
            &&& opened == file
            &&& then == (step::AfterOpenView::Create { file, key })
        },
        step::StepView::Run { conn, command, then } => {
            ||| {
                &&& key is Some
                &&& then == (step::AfterRunView::CreateKeyed { file, conn })
                &&& command == (step::CommandView::Pragma { name: "key"@, value: key->0 })
            }
            ||| {
                &&& then == (step::AfterRunView::Created { file, conn, encrypted: key is Some })
                &&& command == (step::CommandView::Batch { sql: "PRAGMA user_version = 1;"@ })
            }
        },
        step::StepView::Done { outcome, close } => outcome.ok ==> {
            &&& outcome.data == Some(
                json::JsonView::Object(
                    seq![
                        ("file"@, json::JsonView::Text(file)),
                        ("dialect"@, json::JsonView::Text("sqlite"@)),
                        ("encrypted"@, json::JsonView::Bool(key is Some)),
                    ],
                ),
            )
            &&& outcome.message == Some("database created"@)
        },
        _ => false,
    }
}

proof fn lemma_on_course(
    s: service::ServiceView,
    params: json::JsonView,
    replies: Seq<run::ReplyView>,
)
    requires
        params.text_at("file"@) is Some,
    ensures
        on_course(run::served(s, "db-create"@, params, replies).1, params),
    decreases replies.len(),
{
    dispatch::lemma_marks();
    if replies.len() > 0 {
        lemma_on_course(s, params, replies.drop_last());
    }
}

/// Where `db-create` ends in success, whatever was replied on the way, it tells the file
/// that the request names, the dialect, and that the database is encrypted exactly where
/// the request gives a key.
pub proof fn law_what_a_new_database_is_told_as(
    s: service::ServiceView,
    params: json::JsonView,
    replies: Seq<run::ReplyView>,
)
    requires
        run::served(s, "db-create"@, params, replies).1 is Done,
        run::served(s, "db-create"@, params, replies).1->outcome.ok,
    ensures
        ({
            let outcome = run::served(s, "db-create"@, params, replies).1->outcome;
            let told = outcome.data->0;
            &&& outcome.data is Some
            &&& told->Object_0.len() == 3
            &&& params.text_at("file"@) is Some
            &&& told.text_at("file"@) == params.text_at("file"@)
            &&& told.text_at("dialect"@) == Some("sqlite"@)
            &&& told.bool_at("encrypted"@) == Some(params.text_at("key"@) is Some)
            &&& outcome.message == Some("database created"@)
        }),
{
    if params.text_at("file"@) is None {
        law_incomplete_session_requests(s, params, replies);
    } else {
        lemma_on_course(s, params, replies);
        let told = run::served(s, "db-create"@, params, replies).1->outcome.data->0->Object_0;
        lemma_session_keys();
        json_laws::lemma_entry(told, 0);
        json_laws::lemma_entry(told, 1);
        json_laws::lemma_entry(told, 2);
    }
}

/// The steps of `db-create`: the file that the request names is opened, its key, if the
/// request gives one, set before anything else, and its header written; then the database
/// is closed. Each failure is told for what it is and recorded.
#[verifier::rlimit(40)]
pub proof fn law_what_a_new_database_asks(
    s: service::ServiceView,
    params: json::JsonView,
    conn: u64,
    now: Seq<char>,
    error: Seq<char>,
)
    requires
        params.text_at("file"@) is Some,
    ensures
        ({
            let key = params.text_at("key"@);
            let opened = run::ReplyView::Opened(Ok(conn));
            let well = run::ReplyView::Ran(Ok(()), now);
            let ill = run::ReplyView::Ran(Err(error), now);
            let before = if key is Some {
                seq![opened, well]
            } else {
                seq![opened]
            };
            let told = |code: Seq<char>, message: Seq<char>, close: Option<u64>|
                (
                    s.audited(""@, "db-create"@, false, 0),
                    step::StepView::Done {
                        outcome: outcome::OutcomeView {
                            ok: false,
                            data: None,
                            code: Some(code),
                            message: Some(message),
                        },
                        close,
                    },
                );
            let (s0, first) = run::served(s, "db-create"@, params, Seq::empty());
            let (s1, second) = run::served(s, "db-create"@, params, seq![opened]);
            let (s2, last) = run::served(s, "db-create"@, params, before);
            let (s3, end) = run::served(s, "db-create"@, params, before.push(well));
            &&& s0 == s && s1 == s && s2 == s
            &&& first is Open && Some(first->file) == params.text_at("file"@)
            &&& key is Some ==> {
                &&& second is Run && second->Run_conn == conn
                &&& second->command == (step::CommandView::Pragma { name: "key"@, value: key->0 })
            }
            &&& last is Run && last->Run_conn == conn
            &&& last->command == (step::CommandView::Batch { sql: "PRAGMA user_version = 1;"@ })
            &&& end is Done && end->outcome.ok && end->close == Some(conn)
            &&& s3 == s.audited(""@, "db-create"@, true, 0)
            &&& run::served(s, "db-create"@, params, seq![run::ReplyView::Opened(Err(error))])
                == told("UNAVAILABLE"@, "open failed: "@ + error, None)
            &&& key is Some ==> run::served(s, "db-create"@, params, seq![opened, ill]) == told(
                "UNAVAILABLE"@,
                "set key failed: "@ + error,
                Some(conn),
            )
            &&& run::served(s, "db-create"@, params, before.push(ill)) == told(
                "INTERNAL"@,
                "create failed: "@ + error,
                Some(conn),
            )
        }),
{
    dispatch::lemma_marks();
    let (s0, st0) = dispatch::start(s, "db-create"@, params);
    let opened = run::ReplyView::Opened(Ok(conn));
    let well = run::ReplyView::Ran(Ok(()), now);
    let ill = run::ReplyView::Ran(Err(error), now);
    let before = if params.text_at("key"@) is Some {
        seq![opened, well]
    } else {
        seq![opened]
    };
    run::lemma_short(s0, st0, run::ReplyView::Opened(Err(error)), ill, ill);
    run::lemma_short(s0, st0, opened, ill, ill);
    run::lemma_short(s0, st0, opened, well, ill);
    run::lemma_after(s0, st0, before, ill);
    run::lemma_after(s0, st0, before, well);
}

/// A new key is set with the pragma `rekey` on the database that the profile holds, and on
/// no other; a profile that holds none is told so. The answer names the profile.
#[verifier::rlimit(40)]
pub proof fn law_rekey(
    s: service::ServiceView,
    params: json::JsonView,
    now: Seq<char>,
    error: Seq<char>,
)
    requires
        params.text_at("profile"@) is Some,
        params.text_at("newKey"@) is Some,
    ensures
        ({
            let profile = params.text_at("profile"@)->0;
            let (s0, first) = run::served(s, "db-rekey"@, params, Seq::empty());
            let (s1, end) = run::served(
                s,
                "db-rekey"@,
                params,
                seq![run::ReplyView::Ran(Ok(()), now)],
            );
            let (s2, failed) = run::served(
                s,
                "db-rekey"@,
                params,
                seq![run::ReplyView::Ran(Err(error), now)],
            );
            let told = end->outcome.data->0;
            &&& s0 == s
            &&& match s.conn_of(profile) {
                None => first == (step::StepView::Done {
                    outcome: outcome::OutcomeView {
                        ok: false,
                        data: None,
                        code: Some("UNAVAILABLE"@),
                        message: Some("profile not connected: "@ + profile),
                    },
                    close: None,
                }),
                Some(conn) => {
                    &&& first is Run && first->Run_conn == conn
                    &&& first->command == (step::CommandView::Pragma {
                        name: "rekey"@,
                        value: params.text_at("newKey"@)->0,
                    })
                    &&& s1 == s.audited(profile, "db-rekey"@, true, 0)
                    &&& end is Done && end->outcome.ok && end->close is None
                    &&& end->outcome.data is Some && told->Object_0.len() == 2
                    &&& told.text_at("profile"@) == Some(profile)
                    &&& told.bool_at("rekeyed"@) == Some(true)
                    &&& end->outcome.message == Some("key rotated"@)
                    &&& s2 == s.audited(profile, "db-rekey"@, false, 0)
                    &&& failed == (step::StepView::Done {
                        outcome: outcome::OutcomeView {
                            ok: false,
                            data: None,
                            code: Some("INTERNAL"@),
                            message: Some("rekey failed: "@ + error),
                        },
                        close: None,
                    })
                },
            }
        }),
{
    dispatch::lemma_marks();
    let (s0, st0) = dispatch::start(s, "db-rekey"@, params);
    let a = seq![run::ReplyView::Ran(Ok(()), now)];
    let b = seq![run::ReplyView::Ran(Err(error), now)];
    run::lemma_short(s0, st0, a[0], a[0], a[0]);
    run::lemma_short(s0, st0, b[0], b[0], b[0]);
    if s.conn_of(params.text_at("profile"@)->0) is Some {
        lemma_session_keys();
        let told = run::served(s, "db-rekey"@, params, a).1->outcome.data->0->Object_0;
        json_laws::lemma_entry(told, 0);
        json_laws::lemma_entry(told, 1);
    }
}

/// Letting go of a profile closes the database that it holds, if any, and tells the
/// profile and whether it held one. It is recorded either way.
pub proof fn law_disconnect(
    s: service::ServiceView,
    params: json::JsonView,
    replies: Seq<run::ReplyView>,
)
    requires
        params.text_at("profile"@) is Some,
    ensures
        ({
            let profile = params.text_at("profile"@)->0;
            let (s1, end) = run::served(s, "db-disconnect"@, params, replies);
            let told = end->outcome.data->0;
            &&& s1.conns == s.conns.remove(profile)
            &&& s1.audit == s.audited(profile, "db-disconnect"@, true, 0).audit
            &&& end is Done && end->outcome.ok && end->outcome.code is None
            &&& end->outcome.message is None
            &&& end->close == if s.conns.contains_key(profile) {
                Some(s.conns[profile])
            } else {
                None
            }
            &&& end->outcome.data is Some && told->Object_0.len() == 2
            &&& told.text_at("profile"@) == Some(profile)
            &&& told.bool_at("closed"@) == Some(s.conns.contains_key(profile))
        }),
    decreases replies.len(),
{
    dispatch::lemma_marks();
    if replies.len() > 0 {
        law_disconnect(s, params, replies.drop_last());
    } else {
        lemma_session_keys();
        let told = run::served(s, "db-disconnect"@, params, replies).1->outcome.data->0->Object_0;
        json_laws::lemma_entry(told, 0);
        json_laws::lemma_entry(told, 1);
    }
}

} // verus!
