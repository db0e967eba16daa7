//! What requests on a held database ask of it, and which are refused.
use vstd::prelude::*;

use crate::dispatch;
use crate::json;
use crate::json_laws;
use crate::outcome;
use crate::run;
use crate::service;
use crate::sql;
use crate::step;
use crate::value;

verus! {

/// The end of an operation that failed, with nothing to close.
pub open spec fn refusal(code: Seq<char>, message: Seq<char>) -> step::StepView {
    step::StepView::Done {
        outcome: outcome::OutcomeView {
            ok: false,
            data: None,
            code: Some(code),
            message: Some(message),
        },
        close: None,
    }
}

/// Further replies change nothing once an operation is over.
pub proof fn lemma_over(
    s: service::ServiceView,
    op: Seq<char>,
    params: json::JsonView,
    replies: Seq<run::ReplyView>,
)
    requires
        dispatch::start(s, op, params).1 is Done,
    ensures
        run::served(s, op, params, replies) == dispatch::start(s, op, params),
    decreases replies.len(),
{
    if replies.len() > 0 {
        lemma_over(s, op, params, replies.drop_last());
    }
}

/// The request lists its parameters, or has none.
pub open spec fn lists_params(params: json::JsonView) -> bool {
    params.get("params"@) is None || params.get("params"@)->0 is Null || params.get(
        "params"@,
    )->0 is Array
}

/// A request for a query or a change is refused for the first thing that is wrong with it,
/// in this order: no profile, no statement, more than one statement, a change of every row
/// that is not forced, parameters that are no list. A refused request leaves no record.
#[verifier::rlimit(40)]
pub proof fn law_faulty_statements_are_refused(
    s: service::ServiceView,
    params: json::JsonView,
    replies: Seq<run::ReplyView>,
)
    ensures
        ({
            let profile = params.text_at("profile"@);
            let text = params.text_at("sql"@);
            let query = run::served(s, "query-run"@, params, replies);
            let exec = run::served(s, "db-exec"@, params, replies);
            let several = sql::multiple_statements(text->0);
            let whole = sql::where_less_mutation(text->0) && params.bool_at("force"@) != Some(true);
            &&& profile is None ==> {
                &&& query == (s, refusal("INVALID_PARAMS"@, "profile required"@))
                &&& exec == (s, refusal("INVALID_PARAMS"@, "profile required"@))
            }
            &&& profile is Some && text is None ==> {
                &&& query == (s, refusal("INVALID_PARAMS"@, "sql required"@))
                &&& exec == (s, refusal("INVALID_PARAMS"@, "sql required"@))
            }
            &&& profile is Some && text is Some && several ==> {
                let told = "single statement required (multiple statements rejected)"@;
                &&& query == (s, refusal("INVALID_PARAMS"@, told))
                &&& exec == (s, refusal("INVALID_PARAMS"@, told))
            }
            &&& profile is Some && text is Some && !several && whole ==> exec == (
                s,
                refusal(
                    "INVALID_PARAMS"@,
                    "WHERE-less UPDATE/DELETE refused (pass force:true to mutate every row)"@,
                ),
            )
            &&& profile is Some && text is Some && !several && !lists_params(params) ==> {
                &&& query == (s, refusal("INVALID_PARAMS"@, "params must be an array"@))
                &&& !whole ==> exec == (s, refusal("INVALID_PARAMS"@, "params must be an array"@))
            }
        }),
{
    dispatch::lemma_marks();
    if dispatch::start(s, "query-run"@, params).1 is Done {
        lemma_over(s, "query-run"@, params, replies);
    }
    if dispatch::start(s, "db-exec"@, params).1 is Done {
        lemma_over(s, "db-exec"@, params, replies);
    }
}

/// A request that is complete.
pub open spec fn is_complete(op: Seq<char>, params: json::JsonView) -> bool {
    let statements = params.array_at("statements"@);
    &&& params.text_at("profile"@) is Some
    &&& op == "db-rekey"@ ==> params.text_at("newKey"@) is Some
    &&& op == "query-run"@ || op == "db-exec"@ ==> {
        &&& params.text_at("sql"@) is Some
        &&& !sql::multiple_statements(params.text_at("sql"@)->0)
        &&& lists_params(params)
    }
    &&& op == "db-exec"@ && params.bool_at("force"@) != Some(true) ==> !sql::where_less_mutation(
        params.text_at("sql"@)->0,
    )
    &&& op == "db-migrate"@ ==> {
        &&& params.text_at("id"@) is Some
        &&& params.text_at("checksum"@) is Some
        &&& statements is Some
        &&& forall|i: int| 0 <= i < statements->0.len() ==> #[trigger] statements->0[i] is Text
    }
}

/// A complete request on a profile that holds no database is told so, by the name of the
/// profile. The failure is recorded, but for the two operations that record nothing before
/// a database is at hand.
#[verifier::rlimit(40)]
pub proof fn law_a_profile_must_hold_a_database(
    s: service::ServiceView,
    op: Seq<char>,
    params: json::JsonView,
    replies: Seq<run::ReplyView>,
)
    requires
        op == "query-run"@ || op == "db-exec"@ || op == "db-introspect"@ || op == "db-migrate"@
            || op == "migration-applied"@ || op == "db-rekey"@,
        is_complete(op, params),
        !s.conns.contains_key(params.text_at("profile"@)->0),
    ensures
        ({
            let profile = params.text_at("profile"@)->0;
            run::served(s, op, params, replies) == (
                if op == "migration-applied"@ || op == "db-rekey"@ {
                    s
                } else {
                    s.audited(profile, op, false, 0)
                },
                refusal("UNAVAILABLE"@, "profile not connected: "@ + profile),
            )
        }),
{
    dispatch::lemma_marks();
    lemma_over(s, op, params, replies);
}

/// A request for a catalog or for the ledger names a profile.
pub proof fn law_reads_name_a_profile(
    s: service::ServiceView,
    params: json::JsonView,
    replies: Seq<run::ReplyView>,
)
    requires
        params.text_at("profile"@) is None,
    ensures
        run::served(s, "db-introspect"@, params, replies) == (
            s,
            refusal("INVALID_PARAMS"@, "profile required"@),
        ),
        run::served(s, "migration-applied"@, params, replies) == (
            s,
            refusal("INVALID_PARAMS"@, "profile required"@),
        ),
        run::served(s, "db-migrate"@, params, replies) == (
            s,
            refusal("INVALID_PARAMS"@, "profile required"@),
        ),
{
    dispatch::lemma_marks();
    lemma_over(s, "db-introspect"@, params, replies);
    lemma_over(s, "migration-applied"@, params, replies);
    lemma_over(s, "db-migrate"@, params, replies);
}

/// A migration needs, beside its profile, an id, a checksum and a list of statements, each
/// a text; what it lacks first is told.
pub proof fn law_faulty_migrations_are_refused(
    s: service::ServiceView,
    params: json::JsonView,
    replies: Seq<run::ReplyView>,
)
    requires
        params.text_at("profile"@) is Some,
    ensures
        ({
            let end = run::served(s, "db-migrate"@, params, replies);
            let id = params.text_at("id"@);
            let checksum = params.text_at("checksum"@);
            let list = params.array_at("statements"@);
            &&& id is None ==> end == (s, refusal("INVALID_PARAMS"@, "id required"@))
            &&& id is Some && checksum is None ==> end == (
                s,
                refusal("INVALID_PARAMS"@, "checksum required"@),
            )
            &&& id is Some && checksum is Some && list is None ==> end == (
                s,
                refusal("INVALID_PARAMS"@, "statements array required"@),
            )
            &&& forall|i: int|
                id is Some && checksum is Some && list is Some && 0 <= i < list->0.len() && !(
                #[trigger] list->0[i] is Text) ==> end == (
                    s,
                    refusal("INVALID_PARAMS"@, "statements must be strings"@),
                )
        }),
{
    dispatch::lemma_marks();
    let st = dispatch::start(s, "db-migrate"@, params).1;
    if st is Done {
        lemma_over(s, "db-migrate"@, params, replies);
    }
}

/// The values that a request binds: one for each of its parameters, in order.
pub open spec fn binds(bind: Seq<value::SqlValueView>, params: json::JsonView) -> bool {
    match params.get("params"@) {
        Some(json::JsonView::Array(items)) => {
            &&& bind.len() == items.len()
            &&& forall|i: int|
                0 <= i < items.len() ==> #[trigger] bind[i] == value::sql_value_of(items[i])
        },
        _ => bind.len() == 0,
    }
}

/// A change that is not refused is executed on the database that the profile holds, as the
/// request states it and with the values that it binds; how many rows it touched is told
/// and recorded.
pub proof fn law_a_change_is_executed_as_asked(
    s: service::ServiceView,
    params: json::JsonView,
    n: u64,
    error: Seq<char>,
)
    requires
        is_complete("db-exec"@, params),
        s.conns.contains_key(params.text_at("profile"@)->0),
    ensures
        ({
            let profile = params.text_at("profile"@)->0;
            let (s0, first) = run::served(s, "db-exec"@, params, Seq::empty());
            let (s1, end) = run::served(
                s,
                "db-exec"@,
                params,
                seq![run::ReplyView::Changed(Ok(n))],
            );
            let told = end->outcome.data->0;
            &&& s0 == s
            &&& first is Execute
            &&& first->Execute_conn == s.conns[profile]
            &&& Some(first->Execute_sql) == params.text_at("sql"@)
            &&& binds(first->Execute_bind, params)
            &&& s1 == s.audited(profile, "db-exec"@, true, n)
            &&& end is Done && end->outcome.ok && end->close is None
            &&& end->outcome.code is None && end->outcome.message is None
            &&& end->outcome.data is Some && told->Object_0.len() == 1
            &&& told.unsigned_at("rowsAffected"@) == Some(n)
            &&& run::served(s, "db-exec"@, params, seq![run::ReplyView::Changed(Err(error))]) == (
                s.audited(profile, "db-exec"@, false, 0),
                refusal("INTERNAL"@, "exec failed: "@ + error),
            )
        }),
{
    dispatch::lemma_marks();
    let (s0, st0) = dispatch::start(s, "db-exec"@, params);
    let well = run::ReplyView::Changed(Ok(n));
    let ill = run::ReplyView::Changed(Err(error));
    run::lemma_short(s0, st0, well, well, well);
    run::lemma_short(s0, st0, ill, ill, ill);
    let told = run::served(s, "db-exec"@, params, seq![well]).1->outcome.data->0->Object_0;
    json_laws::lemma_entry(told, 0);
}

/// A single statement whose leading word, past whitespace and comments, is none of UPDATE,
/// DELETE and WITH is never refused for the lack of a WHERE clause: `db-exec` executes it
/// as it stands, forced or not.
pub proof fn law_other_statements_need_no_where(
    s: service::ServiceView,
    params: json::JsonView,
)
    requires
        params.text_at("profile"@) is Some,
        s.conns.contains_key(params.text_at("profile"@)->0),
        params.text_at("sql"@) is Some,
        !sql::multiple_statements(params.text_at("sql"@)->0),
        lists_params(params),
        sql::lead_word(params.text_at("sql"@)->0) != "update"@,
        sql::lead_word(params.text_at("sql"@)->0) != "delete"@,
        sql::lead_word(params.text_at("sql"@)->0) != "with"@,
    ensures
        ({
            let (s0, first) = run::served(s, "db-exec"@, params, Seq::empty());
            &&& s0 == s
            &&& first is Execute
            &&& first->Execute_conn == s.conns[params.text_at("profile"@)->0]
            &&& Some(first->Execute_sql) == params.text_at("sql"@)
            &&& binds(first->Execute_bind, params)
        }),
{
    dispatch::lemma_marks();
    law_a_change_is_executed_as_asked(s, params, 0, Seq::empty());
}

/// A single UPDATE or DELETE is executed where it has a WHERE clause of its own or the
/// request forces it, and refused otherwise.
pub proof fn law_updates_and_deletes_need_a_where(
    s: service::ServiceView,
    params: json::JsonView,
)
    requires
        params.text_at("profile"@) is Some,
        s.conns.contains_key(params.text_at("profile"@)->0),
        params.text_at("sql"@) is Some,
        !sql::multiple_statements(params.text_at("sql"@)->0),
        lists_params(params),
        sql::lead_word(params.text_at("sql"@)->0) == "update"@ || sql::lead_word(
            params.text_at("sql"@)->0,
        ) == "delete"@,
    ensures
        ({
            let (s0, first) = run::served(s, "db-exec"@, params, Seq::empty());
            let allowed = sql::has_clause(params.text_at("sql"@)->0, "where"@) || params.bool_at(
                "force"@,
            ) == Some(true);
            &&& s0 == s
            &&& allowed ==> {
                &&& first is Execute
                &&& first->Execute_conn == s.conns[params.text_at("profile"@)->0]
                &&& Some(first->Execute_sql) == params.text_at("sql"@)
                &&& binds(first->Execute_bind, params)
            }
            &&& !allowed ==> first == refusal(
                "INVALID_PARAMS"@,
                "WHERE-less UPDATE/DELETE refused (pass force:true to mutate every row)"@,
            )
        }),
{
    dispatch::lemma_marks();
    if sql::has_clause(params.text_at("sql"@)->0, "where"@) || params.bool_at("force"@) == Some(
        true,
    ) {
        law_a_change_is_executed_as_asked(s, params, 0, Seq::empty());
    } else {
        law_faulty_statements_are_refused(s, params, Seq::empty());
    }
}

} // verus!
