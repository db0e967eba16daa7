//! What holds of every query.
use vstd::prelude::*;

use crate::dispatch;
use crate::json;
use crate::mask;
use crate::outcome::ErrCode;
use crate::query;
use crate::run;
use crate::service;
use crate::sql;
use crate::step;
use crate::value;

verus! {

/// The replies with which a database hands out the first `n` of its rows.
pub open spec fn row_replies(data: Seq<Seq<Option<value::CellView>>>, n: int) -> Seq<run::ReplyView>
    decreases n,
{
    if n <= 0 {
        Seq::empty()
    } else {
        row_replies(data, n - 1) + seq![
            run::ReplyView::Row(Ok(true)),
            run::ReplyView::Cells(data[n - 1]),
        ]
    }
}

/// The first `n` rows as they leave.
pub open spec fn masked_rows(
    names: Seq<Seq<char>>,
    data: Seq<Seq<Option<value::CellView>>>,
    n: int,
) -> Seq<json::JsonView> {
    data.take(n).map_values(|cells: Seq<Option<value::CellView>>| mask::masked_row(names, cells))
}

/// Where a query stands once its first `n` rows were read.
pub proof fn lemma_rows_are_read(
    s: service::ServiceView,
    read: step::ReadingView,
    data: Seq<Seq<Option<value::CellView>>>,
    n: int,
)
    requires
        read.rows.len() == 0,
        0 <= n <= data.len(),
        n <= read.row_limit,
    ensures
        run::run(s, step::StepView::NextRow { then: read }, row_replies(data, n)) == (
            s,
            step::StepView::NextRow {
                then: step::ReadingView { rows: masked_rows(read.names, data, n), ..read },
            },
        ),
    decreases n,
{
    let st = step::StepView::NextRow { then: read };
    if n == 0 {
        assert(masked_rows(read.names, data, 0) =~= read.rows);
    } else {
        lemma_rows_are_read(s, read, data, n - 1);
        let earlier = row_replies(data, n - 1);
        let two = seq![run::ReplyView::Row(Ok(true)), run::ReplyView::Cells(data[n - 1])];
        let before = step::ReadingView { rows: masked_rows(read.names, data, n - 1), ..read };
        run::lemma_run_in_parts(s, st, earlier, two);
        run::lemma_one_more(s, step::StepView::NextRow { then: before }, two, 0);
        run::lemma_one_more(s, step::StepView::NextRow { then: before }, two, 1);
        assert(two.take(2) =~= two);
        assert(masked_rows(read.names, data, n) =~= before.rows.push(
            mask::masked_row(read.names, data[n - 1]),
        ));
    }
}

/// How many rows of a query are told.
pub open spec fn told_rows(data: Seq<Seq<Option<value::CellView>>>, row_limit: u64) -> int {
    if data.len() <= row_limit {
        data.len() as int
    } else {
        row_limit as int
    }
}

/// A query tells the first rows that the database has, up to the limit of the request,
/// in their order and masked, and says that it was cut off exactly where the database
/// has more. Of the rows past the limit none is read.
pub proof fn law_a_query_tells_the_first_rows(
    s: service::ServiceView,
    params: json::JsonView,
    names: Seq<Seq<char>>,
    data: Seq<Seq<Option<value::CellView>>>,
)
    requires
        query::query_fault(params) is None,
        sql::selects(params.text_at("sql"@)->0),
        s.conn_of(params.text_at("profile"@)->0) is Some,
    ensures
        ({
            let limit = query::row_limit_of(params);
            let n = told_rows(data, limit);
            let replies = seq![
                run::ReplyView::Prepared(Ok((names, true))),
                run::ReplyView::Started(Ok(())),
            ] + row_replies(data, n) + seq![run::ReplyView::Row(Ok(data.len() > limit))];
            run::served(s, "query-run"@, params, replies) == query::query_end(
                s,
                step::ReadingView {
                    profile: params.text_at("profile"@)->0,
                    names,
                    row_limit: limit,
                    rows: masked_rows(names, data, n),
                },
                data.len() > limit,
            )
        }),
{
    let limit = query::row_limit_of(params);
    let n = told_rows(data, limit);
    let opening = seq![run::ReplyView::Prepared(Ok((names, true))), run::ReplyView::Started(Ok(()))];
    let last = seq![run::ReplyView::Row(Ok(data.len() > limit))];
    let read = step::ReadingView {
        profile: params.text_at("profile"@)->0,
        names,
        row_limit: limit,
        rows: Seq::empty(),
    };
    let full = step::ReadingView { rows: masked_rows(names, data, n), ..read };
    let at_start = step::StepView::NextRow { then: read };
    let at_end = step::StepView::NextRow { then: full };
    let (s0, st) = dispatch::start(s, "query-run"@, params);
    dispatch::lemma_marks();
    assert(s0 == s && st is Prepare);
    run::lemma_one_more(s, st, opening, 0);
    run::lemma_one_more(s, st, opening, 1);
    assert(opening.take(2) =~= opening);
    assert(run::run(s, st, opening) == (s, at_start));
    run::lemma_run_in_parts(s, st, opening, row_replies(data, n));
    lemma_rows_are_read(s, read, data, n);
    assert(run::run(s, st, opening + row_replies(data, n)) == (s, at_end));
    run::lemma_run_in_parts(s, st, opening + row_replies(data, n), last);
    run::lemma_one_more(s, at_end, last, 0);
    assert(last.take(1) =~= last);
    assert(full.rows.len() == n);
}

/// What stands in a sensitive column has no part in what follows: it is not asked for,
/// and rows that differ only there lead to the same step.
pub proof fn law_sensitive_values_are_not_read(
    s: service::ServiceView,
    then: step::ReadingView,
    a: Seq<Option<value::CellView>>,
    b: Seq<Option<value::CellView>>,
)
    requires
        a.len() == b.len(),
        forall|i: int|
            0 <= i < a.len() && i < then.names.len() && !mask::sensitive(then.names[i])
                ==> #[trigger] a[i] == b[i],
    ensures
        ({
            let wanted = step::wanted_columns(then.names);
            let st = step::StepView::ReadCells { wanted, then };
            &&& then.rows.len() < then.row_limit ==> run::advance(
                s,
                step::StepView::NextRow { then },
                run::ReplyView::Row(Ok(true)),
            ) == (s, st)
            &&& forall|i: int|
                0 <= i < wanted.len() ==> #[trigger] wanted[i] == !mask::sensitive(then.names[i])
            &&& run::advance(s, st, run::ReplyView::Cells(a)) == run::advance(
                s,
                st,
                run::ReplyView::Cells(b),
            )
        }),
{
    mask::law_sensitive_cells_do_not_leave(then.names, a, b);
}

/// The statement of a query has been started.
pub open spec fn is_started(st: step::StepView) -> bool {
    match st {
        step::StepView::Query { bind, then } => true,
        step::StepView::NextRow { then } => true,
        step::StepView::ReadCells { wanted, then } => true,
        step::StepView::Done { outcome, close } => outcome.ok,
        _ => false,
    }
}

/// Among the replies is one of a database that takes the statement for read-only.
pub open spec fn taken_for_read_only(replies: Seq<run::ReplyView>) -> bool {
    exists|i: int|
        0 <= i < replies.len() && #[trigger] replies[i] is Prepared && replies[i]->Prepared_0 is Ok
            && replies[i]->Prepared_0->Ok_0.1
}

/// No statement is started by a query, let alone answered, but a SELECT that the database
/// takes for read-only.
pub proof fn law_only_reads_are_started(
    s: service::ServiceView,
    params: json::JsonView,
    replies: Seq<run::ReplyView>,
)
    requires
        is_started(run::served(s, "query-run"@, params, replies).1),
    ensures
        sql::selects(params.text_at("sql"@)->0),
        taken_for_read_only(replies),
{
    lemma_started_reads(s, params, replies);
}

spec fn of_a_query(
    st: step::StepView,
    params: json::JsonView,
    replies: Seq<run::ReplyView>,
) -> bool {
    let select = sql::selects(params.text_at("sql"@)->0);
    match st {
        step::StepView::Prepare { conn, sql, then } => then.select == select,
        _ => {
            &&& is_started(st) ==> select && taken_for_read_only(replies)
            &&& is_started(st) || st is Done
        },
    }
}

proof fn lemma_started_reads(
    s: service::ServiceView,
    params: json::JsonView,
    replies: Seq<run::ReplyView>,
)
    ensures
        of_a_query(run::served(s, "query-run"@, params, replies).1, params, replies),
    decreases replies.len(),
{
    if replies.len() == 0 {
        dispatch::lemma_marks();
    } else {
        let before = replies.drop_last();
        lemma_started_reads(s, params, before);
        let (s1, st1) = run::served(s, "query-run"@, params, before);
        if taken_for_read_only(before) {
            let i = choose|i: int|
                0 <= i < before.len() && #[trigger] before[i] is Prepared
                    && before[i]->Prepared_0 is Ok && before[i]->Prepared_0->Ok_0.1;
            assert(replies[i] == before[i]);
        }
        if let (step::StepView::Prepare { conn, sql, then }, run::ReplyView::Prepared(r)) = (
            st1,
            replies.last(),
        ) {
            assert(replies[replies.len() - 1] == replies.last());
        }
    }
}

/// A statement that is no SELECT, or that the database does not take for read-only, is
/// refused before it is started.
pub proof fn law_other_statements_are_refused(
    s: service::ServiceView,
    conn: u64,
    sql: Seq<char>,
    then: step::AfterPrepareView,
    names: Seq<Seq<char>>,
    read_only: bool,
)
    requires
        !then.select || !read_only,
    ensures
        run::advance(
            s,
            step::StepView::Prepare { conn, sql, then },
            run::ReplyView::Prepared(Ok((names, read_only))),
        ) == service::failed_on(
            s,
            then.profile,
            "query-run"@,
            ErrCode::InvalidParams,
            "read-only SELECT required (other statements rejected)"@,
        ),
{
}

} // verus!
