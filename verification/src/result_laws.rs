//! What a query asks and what it tells, request by request.
use vstd::prelude::*;

use crate::dispatch;
use crate::json;
use crate::json_laws;
use crate::mask;
use crate::query;
use crate::query_laws;
use crate::request_laws;
use crate::run;
use crate::service;
use crate::sql;
use crate::step;
use crate::text;
use crate::value;

verus! {

/// A query that can be run: the request is complete, its statement is a SELECT, and its
/// profile holds a database.
pub open spec fn can_query(s: service::ServiceView, params: json::JsonView) -> bool {
    &&& request_laws::is_complete("query-run"@, params)
    &&& s.conns.contains_key(params.text_at("profile"@)->0)
    &&& sql::selects(params.text_at("sql"@)->0)
}

/// How many rows a request allows: a thousand where it says nothing.
pub open spec fn allowed_rows(params: json::JsonView) -> u64 {
    if params.unsigned_at("rowLimit"@) is Some {
        params.unsigned_at("rowLimit"@)->0
    } else {
        1000
    }
}

/// The replies up to the `k` first rows of a query.
pub open spec fn read_so_far(
    names: Seq<Seq<char>>,
    data: Seq<Seq<Option<value::CellView>>>,
    k: int,
) -> Seq<run::ReplyView> {
    seq![run::ReplyView::Prepared(Ok((names, true))), run::ReplyView::Started(Ok(()))]
        + query_laws::row_replies(data, k)
}

spec fn reading(
    params: json::JsonView,
    names: Seq<Seq<char>>,
    data: Seq<Seq<Option<value::CellView>>>,
    k: int,
) -> step::ReadingView {
    step::ReadingView {
        profile: params.text_at("profile"@)->0,
        names,
        row_limit: allowed_rows(params),
        rows: query_laws::masked_rows(names, data, k),
    }
}

#[verifier::rlimit(40)]
proof fn lemma_opened(
    s: service::ServiceView,
    params: json::JsonView,
    names: Seq<Seq<char>>,
    error: Seq<char>,
)
    requires
        can_query(s, params),
    ensures
        ({
            let profile = params.text_at("profile"@)->0;
            let st0 = dispatch::start(s, "query-run"@, params).1;
            let prepared = run::ReplyView::Prepared(Ok((names, true)));
            let started = run::ReplyView::Started(Ok(()));
            let failed = s.audited(profile, "query-run"@, false, 0);
            let read = step::ReadingView {
                profile,
                names,
                row_limit: allowed_rows(params),
                rows: Seq::empty(),
            };
            let st1 = run::run(s, st0, seq![prepared]).1;
            &&& dispatch::start(s, "query-run"@, params).0 == s
            &&& st0 is Prepare
            &&& st0->Prepare_conn == s.conns[profile]
            &&& Some(st0->Prepare_sql) == params.text_at("sql"@)
            &&& run::run(s, st0, seq![prepared]).0 == s
            &&& st1 is Query
            &&& request_laws::binds(st1->Query_bind, params)
            &&& run::run(s, st0, seq![prepared, started]) == (
                s,
                step::StepView::NextRow { then: read },
            )
            &&& run::run(s, st0, seq![run::ReplyView::Prepared(Err(error))]) == (
                failed,
                request_laws::refusal("INVALID_PARAMS"@, "prepare failed: "@ + error),
            )
            &&& run::run(s, st0, seq![run::ReplyView::Prepared(Ok((names, false)))]) == (
                failed,
                request_laws::refusal(
                    "INVALID_PARAMS"@,
                    "read-only SELECT required (other statements rejected)"@,
                ),
            )
            &&& run::run(s, st0, seq![prepared, run::ReplyView::Started(Err(error))]) == (
                failed,
                request_laws::refusal("INTERNAL"@, "query failed: "@ + error),
            )
        }),
{
    dispatch::lemma_marks();
    let st0 = dispatch::start(s, "query-run"@, params).1;
    let prepared = run::ReplyView::Prepared(Ok((names, true)));
    let started = run::ReplyView::Started(Ok(()));
    let ill = run::ReplyView::Started(Err(error));
    run::lemma_short(s, st0, prepared, started, started);
    run::lemma_short(s, st0, prepared, ill, ill);
    run::lemma_short(s, st0, run::ReplyView::Prepared(Err(error)), ill, ill);
    run::lemma_short(s, st0, run::ReplyView::Prepared(Ok((names, false))), ill, ill);
}

proof fn lemma_reading(
    s: service::ServiceView,
    params: json::JsonView,
    names: Seq<Seq<char>>,
    data: Seq<Seq<Option<value::CellView>>>,
    k: int,
)
    requires
        can_query(s, params),
        0 <= k <= data.len(),
        k <= allowed_rows(params),
    ensures
        run::served(s, "query-run"@, params, read_so_far(names, data, k)) == (
            s,
            step::StepView::NextRow { then: reading(params, names, data, k) },
        ),
{
    lemma_opened(s, params, names, Seq::empty());
    let st0 = dispatch::start(s, "query-run"@, params).1;
    let opening = seq![run::ReplyView::Prepared(Ok((names, true))), run::ReplyView::Started(Ok(()))];
    run::lemma_run_in_parts(s, st0, opening, query_laws::row_replies(data, k));
    let read = step::ReadingView { rows: Seq::empty(), ..reading(params, names, data, k) };
    query_laws::lemma_rows_are_read(s, read, data, k);
}

/// What a query asks: that its statement be prepared on the database that the profile
/// holds; then, where that is a SELECT which the database takes for read-only, that it be
/// started with the values that the request binds; then row by row. Of a row those cells
/// are asked for whose columns are not sensitive.
pub proof fn law_what_a_query_asks(
    s: service::ServiceView,
    params: json::JsonView,
    names: Seq<Seq<char>>,
    data: Seq<Seq<Option<value::CellView>>>,
    k: int,
)
    requires
        can_query(s, params),
        0 <= k <= data.len(),
        k <= allowed_rows(params),
    ensures
        ({
            let conn = s.conns[params.text_at("profile"@)->0];
            let prepared = run::ReplyView::Prepared(Ok((names, true)));
            let so_far = read_so_far(names, data, k);
            let (s0, first) = run::served(s, "query-run"@, params, Seq::empty());
            let (s1, second) = run::served(s, "query-run"@, params, seq![prepared]);
            let (s2, third) = run::served(s, "query-run"@, params, so_far);
            let (s3, fourth) = run::served(
                s,
                "query-run"@,
                params,
                so_far.push(run::ReplyView::Row(Ok(true))),
            );
            &&& s0 == s && s1 == s && s2 == s
            &&& first is Prepare
            &&& first->Prepare_conn == conn
            &&& Some(first->Prepare_sql) == params.text_at("sql"@)
            &&& second is Query
            &&& request_laws::binds(second->Query_bind, params)
            &&& third is NextRow
            &&& k < allowed_rows(params) ==> {
                &&& s3 == s
                &&& fourth is ReadCells
                &&& fourth->wanted.len() == names.len()
                &&& forall|i: int|
                    0 <= i < names.len() ==> #[trigger] fourth->wanted[i] == !mask::sensitive(
                        names[i],
                    )
            }
        }),
{
    lemma_opened(s, params, names, Seq::empty());
    lemma_reading(s, params, names, data, k);
    let st0 = dispatch::start(s, "query-run"@, params).1;
    run::lemma_after(s, st0, read_so_far(names, data, k), run::ReplyView::Row(Ok(true)));
    assert(reading(params, names, data, k).rows.len() == k);
}

/// A query that fails is told what failed: the preparation, for a statement that is not
/// taken for read-only, the start, or the move to a further row. The failure is recorded.
pub proof fn law_what_a_failed_query_tells(
    s: service::ServiceView,
    params: json::JsonView,
    names: Seq<Seq<char>>,
    data: Seq<Seq<Option<value::CellView>>>,
    k: int,
    error: Seq<char>,
)
    requires
        can_query(s, params),
        0 <= k <= data.len(),
        k <= allowed_rows(params),
    ensures
        ({
            let failed = s.audited(params.text_at("profile"@)->0, "query-run"@, false, 0);
            let prepared = run::ReplyView::Prepared(Ok((names, true)));
            &&& run::served(s, "query-run"@, params, seq![run::ReplyView::Prepared(Err(error))])
                == (failed, request_laws::refusal("INVALID_PARAMS"@, "prepare failed: "@ + error))
            &&& run::served(
                s,
                "query-run"@,
                params,
                seq![run::ReplyView::Prepared(Ok((names, false)))],
            ) == (
                failed,
                request_laws::refusal(
                    "INVALID_PARAMS"@,
                    "read-only SELECT required (other statements rejected)"@,
                ),
            )
            &&& run::served(
                s,
                "query-run"@,
                params,
                seq![prepared, run::ReplyView::Started(Err(error))],
            ) == (failed, request_laws::refusal("INTERNAL"@, "query failed: "@ + error))
            &&& run::served(
                s,
                "query-run"@,
                params,
                read_so_far(names, data, k).push(run::ReplyView::Row(Err(error))),
            ) == (failed, request_laws::refusal("INTERNAL"@, "row read failed: "@ + error))
        }),
{
    lemma_opened(s, params, names, error);
    lemma_reading(s, params, names, data, k);
    let st0 = dispatch::start(s, "query-run"@, params).1;
    run::lemma_after(s, st0, read_so_far(names, data, k), run::ReplyView::Row(Err(error)));
}

/// A statement that is no SELECT is prepared like any other and then refused, whatever the
/// database takes it for; it is not started.
pub proof fn law_only_selects_are_queries(
    s: service::ServiceView,
    params: json::JsonView,
    names: Seq<Seq<char>>,
    read_only: bool,
    error: Seq<char>,
)
    requires
        request_laws::is_complete("query-run"@, params),
        s.conns.contains_key(params.text_at("profile"@)->0),
        !sql::selects(params.text_at("sql"@)->0),
    ensures
        ({
            let profile = params.text_at("profile"@)->0;
            let (s0, first) = run::served(s, "query-run"@, params, Seq::empty());
            let failed = s.audited(profile, "query-run"@, false, 0);
            &&& s0 == s
            &&& first is Prepare
            &&& first->Prepare_conn == s.conns[profile]
            &&& Some(first->Prepare_sql) == params.text_at("sql"@)
            &&& run::served(
                s,
                "query-run"@,
                params,
                seq![run::ReplyView::Prepared(Ok((names, read_only)))],
            ) == (
                failed,
                request_laws::refusal(
                    "INVALID_PARAMS"@,
                    "read-only SELECT required (other statements rejected)"@,
                ),
            )
            &&& run::served(s, "query-run"@, params, seq![run::ReplyView::Prepared(Err(error))])
                == (failed, request_laws::refusal("INVALID_PARAMS"@, "prepare failed: "@ + error))
        }),
{
    dispatch::lemma_marks();
    let (s0, st0) = dispatch::start(s, "query-run"@, params);
    let well = run::ReplyView::Prepared(Ok((names, read_only)));
    let ill = run::ReplyView::Prepared(Err(error));
    run::lemma_short(s0, st0, well, well, well);
    run::lemma_short(s0, st0, ill, ill, ill);
}

proof fn lemma_answer_keys()
    ensures
        "columns"@ != "rows"@,
        "columns"@ != "rowCount"@,
        "columns"@ != "truncated"@,
        "rows"@ != "rowCount"@,
        "rows"@ != "truncated"@,
        "rowCount"@ != "truncated"@,
{
    reveal_strlit("columns");
    reveal_strlit("rows");
    reveal_strlit("rowCount");
    reveal_strlit("truncated");
    assert("columns"@.len() == 7 && "rows"@.len() == 4 && "rowCount"@.len() == 8 && "truncated"@.len() == 9);
}

/// Where a query ends that goes well on a database whose result has the rows `data`: once
/// as many were read as are allowed, or all, the database says whether it has more.
pub open spec fn answered(
    s: service::ServiceView,
    params: json::JsonView,
    names: Seq<Seq<char>>,
    data: Seq<Seq<Option<value::CellView>>>,
) -> (service::ServiceView, step::StepView) {
    let limit = allowed_rows(params);
    run::served(
        s,
        "query-run"@,
        params,
        read_so_far(names, data, query_laws::told_rows(data, limit)).push(
            run::ReplyView::Row(Ok(data.len() > limit)),
        ),
    )
}

/// The answer of a query: the name of each column; each of the first rows, up to the limit,
/// with one item for each column, which is the cell that was read, or for a sensitive
/// column what stands in its place; how many rows there are; and whether the database has
/// more. The number of rows is recorded.
#[verifier::rlimit(40)]
pub proof fn law_what_a_query_tells(
    s: service::ServiceView,
    params: json::JsonView,
    names: Seq<Seq<char>>,
    data: Seq<Seq<Option<value::CellView>>>,
)
    requires
        can_query(s, params),
    ensures
        ({
            let limit = allowed_rows(params);
            let more = data.len() > limit;
            let n = query_laws::told_rows(data, limit);
            let (s1, end) = answered(s, params, names, data);
            let told = end->outcome.data->0;
            let columns = told.array_at("columns"@);
            let rows = told.array_at("rows"@);
            &&& more ==> n == limit
            &&& !more ==> n == data.len()
            &&& end is Done && end->outcome.ok && end->close is None
            &&& end->outcome.code is None && end->outcome.message is None
            &&& end->outcome.data is Some && told->Object_0.len() == 4
            &&& columns is Some && columns->0.len() == names.len()
            &&& forall|i: int|
                0 <= i < names.len() ==> {
                    &&& (#[trigger] columns->0[i])->Object_0.len() == 1
                    &&& columns->0[i].text_at("name"@) == Some(names[i])
                }
            &&& rows is Some && rows->0.len() == n
            &&& forall|r: int, i: int|
                0 <= r < n && 0 <= i < names.len() ==> {
                    &&& rows->0[r] is Array
                    &&& rows->0[r]->Array_0.len() == names.len()
                    &&& #[trigger] rows->0[r]->Array_0[i] == if mask::sensitive(names[i]) {
                        json::JsonView::Text("<redacted:"@ + names[i] + ">"@)
                    } else if i < data[r].len() && data[r][i] is Some {
                        value::json_of_cell(data[r][i]->0)
                    } else {
                        json::JsonView::Null
                    }
                }
            &&& told.unsigned_at("rowCount"@) == Some(n as u64)
            &&& told.bool_at("truncated"@) == Some(more)
            &&& s1 == s.audited(params.text_at("profile"@)->0, "query-run"@, true, n as u64)
        }),
{
    let limit = allowed_rows(params);
    let more = data.len() > limit;
    let n = query_laws::told_rows(data, limit);
    lemma_reading(s, params, names, data, n);
    lemma_opened(s, params, names, Seq::empty());
    let st0 = dispatch::start(s, "query-run"@, params).1;
    run::lemma_after(s, st0, read_so_far(names, data, n), run::ReplyView::Row(Ok(more)));
    let read = reading(params, names, data, n);
    assert(read.rows.len() == n);
    let told = query::query_json(read, more)->Object_0;
    lemma_answer_keys();
    json_laws::lemma_entry(told, 0);
    json_laws::lemma_entry(told, 1);
    json_laws::lemma_entry(told, 2);
    json_laws::lemma_entry(told, 3);
    let columns = query::columns_json(names)->Array_0;
    assert forall|i: int| 0 <= i < names.len() implies {
        &&& (#[trigger] columns[i])->Object_0.len() == 1
        &&& columns[i].text_at("name"@) == Some(names[i])
    } by {
        json_laws::lemma_entry(columns[i]->Object_0, 0);
    }
    assert forall|r: int, i: int| 0 <= r < n && 0 <= i < names.len() implies {
        &&& read.rows[r] is Array
        &&& read.rows[r]->Array_0.len() == names.len()
        &&& #[trigger] read.rows[r]->Array_0[i] == if mask::sensitive(names[i]) {
            json::JsonView::Text("<redacted:"@ + names[i] + ">"@)
        } else if i < data[r].len() && data[r][i] is Some {
            value::json_of_cell(data[r][i]->0)
        } else {
            json::JsonView::Null
        }
    } by {
        assert(read.rows[r] == mask::masked_row(names, data[r]));
    }
}

/// In the answer of a query a column that holds one of the sensitive words in its name, in
/// any case and whatever stands around it, reads `<redacted:name>` in every row.
pub proof fn law_a_query_hides_sensitive_columns(
    s: service::ServiceView,
    params: json::JsonView,
    names: Seq<Seq<char>>,
    data: Seq<Seq<Option<value::CellView>>>,
    r: int,
    i: int,
    a: Seq<char>,
    word: Seq<char>,
    b: Seq<char>,
)
    requires
        can_query(s, params),
        0 <= r < data.len(),
        r < allowed_rows(params),
        0 <= i < names.len(),
        mask::sensitive_words().contains(word),
        text::lowered(names[i]) == a + word + b,
    ensures
        ({
            let end = answered(s, params, names, data).1;
            let rows = end->outcome.data->0.array_at("rows"@)->0;
            rows[r]->Array_0[i] == json::JsonView::Text("<redacted:"@ + names[i] + ">"@)
        }),
{
    mask::law_a_word_anywhere_makes_a_name_sensitive(names, data[r], i, a, word, b);
    law_what_a_query_tells(s, params, names, data);
    let rows = answered(s, params, names, data).1->outcome.data->0.array_at("rows"@);
    let item = rows->0[r]->Array_0[i];
}

} // verus!
