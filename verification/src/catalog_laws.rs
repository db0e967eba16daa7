//! What holds of every walk over a database's tables.
use vstd::prelude::*;

use crate::catalog;
use crate::dispatch;
use crate::json;
use crate::rows;
use crate::run;
use crate::service;
use crate::sql;
use crate::step;

verus! {

/// A query over the schema: the names of the tables, or what a table or an index is
/// made of.
pub open spec fn over_the_schema(sql: Seq<char>) -> bool {
    ||| sql == catalog::names_sql()
    ||| exists|name: Seq<char>| sql == #[trigger] catalog::pragma_sql("table_info"@, name)
    ||| exists|name: Seq<char>| sql == #[trigger] catalog::pragma_sql("foreign_key_list"@, name)
    ||| exists|name: Seq<char>| sql == #[trigger] catalog::pragma_sql("index_list"@, name)
    ||| exists|name: Seq<char>| sql == #[trigger] catalog::pragma_sql("index_info"@, name)
}

spec fn of_a_walk(st: step::StepView) -> bool {
    match st {
        step::StepView::Done { outcome, close } => true,
        step::StepView::ReadRows { conn, sql, width, then } => over_the_schema(sql)
            && !(then is Ledger),
        _ => false,
    }
}

/// All that introspection ever asks of a database is its schema; no row of a table is
/// read.
pub proof fn law_introspection_reads_only_the_schema(
    s: service::ServiceView,
    params: json::JsonView,
    replies: Seq<run::ReplyView>,
)
    ensures
        ({
            let st = run::served(s, "db-introspect"@, params, replies).1;
            ||| st is Done
            ||| st is ReadRows && over_the_schema(st->ReadRows_sql)
        }),
{
    lemma_of_a_walk(s, params, replies);
}

proof fn lemma_of_a_walk(
    s: service::ServiceView,
    params: json::JsonView,
    replies: Seq<run::ReplyView>,
)
    ensures
        of_a_walk(run::served(s, "db-introspect"@, params, replies).1),
    decreases replies.len(),
{
    if replies.len() == 0 {
        dispatch::lemma_marks();
    } else {
        lemma_of_a_walk(s, params, replies.drop_last());
        let (s1, st1) = run::served(s, "db-introspect"@, params, replies.drop_last());
        if let (
            step::StepView::ReadRows { conn, sql, width, then },
            run::ReplyView::Rows(r),
        ) = (st1, replies.last()) {
            lemma_walk_goes_on(s1, then, r);
        }
    }
}

proof fn lemma_walk_goes_on(
    s: service::ServiceView,
    then: step::AfterReadRowsView,
    reply: step::RowsView,
)
    requires
        !(then is Ledger),
    ensures
        of_a_walk(dispatch::after_read_rows(s, then, reply).1),
{
}

/// The names of the tables of a catalog.
pub open spec fn table_names(tables: Seq<json::JsonView>) -> Seq<Seq<char>> {
    tables.map_values(|t: json::JsonView| t.text_at("name"@)->0)
}

/// The names of the tables that a walk has done, is at, and has before it.
spec fn way(walk: step::WalkView) -> Seq<Seq<char>> {
    table_names(walk.tables).push(walk.name) + walk.rest
}

spec fn way_of(then: step::AfterReadRowsView) -> Option<Seq<Seq<char>>> {
    match then {
        step::AfterReadRowsView::Columns { walk } => Some(way(walk)),
        step::AfterReadRowsView::ForeignKeys { walk, columns } => Some(way(walk)),
        step::AfterReadRowsView::Indexes { walk, columns, foreign_keys } => Some(way(walk)),
        step::AfterReadRowsView::IndexColumns {
            walk,
            columns,
            foreign_keys,
            index,
            rest,
            indexes,
        } => Some(way(walk)),
        _ => None,
    }
}

/// The step tells the tables `names` and records their number, or has failed, or is on
/// its way to them.
spec fn leads_to(
    s: service::ServiceView,
    st: step::StepView,
    names: Seq<Seq<char>>,
) -> bool {
    match st {
        step::StepView::Done { outcome, close } => outcome.ok ==> {
            &&& outcome.data matches Some(data)
            &&& data.array_at("tables"@) matches Some(tables)
            &&& table_names(tables) == names
            &&& s.audit.len() > 0
            &&& s.audit.last().row_count == names.len() as u64
        },
        step::StepView::ReadRows { conn, sql, width, then } => way_of(then) == Some(names),
        _ => false,
    }
}

proof fn lemma_next_table(
    s: service::ServiceView,
    profile: Seq<char>,
    conn: u64,
    names: Seq<Seq<char>>,
    tables: Seq<json::JsonView>,
)
    ensures
        ({
            let (s1, st1) = catalog::next_table(s, profile, conn, names, tables);
            leads_to(s1, st1, table_names(tables) + names)
        }),
{
    let (s1, st1) = catalog::next_table(s, profile, conn, names, tables);
    if names.len() == 0 {
        assert(table_names(tables) + names =~= table_names(tables));
        let entries = st1->outcome.data->0->Object_0;
        assert(entries[0] == ("tables"@, json::JsonView::Array(tables)));
        assert(table_names(tables).len() == tables.len());
    } else {
        assert(table_names(tables).push(names[0]) + names.drop_first() =~= table_names(tables)
            + names);
    }
}

proof fn lemma_next_index(
    s: service::ServiceView,
    walk: step::WalkView,
    columns: Seq<json::JsonView>,
    foreign_keys: Seq<json::JsonView>,
    metas: Seq<step::IndexMetaView>,
    indexes: Seq<json::JsonView>,
)
    ensures
        ({
            let (s1, st1) = catalog::next_index(s, walk, columns, foreign_keys, metas, indexes);
            leads_to(s1, st1, way(walk))
        }),
{
    if metas.len() == 0 {
        let table = catalog::table_json(walk.name, columns, foreign_keys, indexes);
        assert(table->Object_0[0] == ("name"@, json::JsonView::Text(walk.name)));
        assert(table.text_at("name"@) == Some(walk.name));
        assert(table_names(walk.tables.push(table)) =~= table_names(walk.tables).push(walk.name));
        lemma_next_table(s, walk.profile, walk.conn, walk.rest, walk.tables.push(table));
    }
}

proof fn lemma_still_leads_to(
    s: service::ServiceView,
    st: step::StepView,
    reply: run::ReplyView,
    names: Seq<Seq<char>>,
)
    requires
        leads_to(s, st, names),
    ensures
        leads_to(run::advance(s, st, reply).0, run::advance(s, st, reply).1, names),
{
    if let (
        step::StepView::ReadRows { conn, sql, width, then },
        run::ReplyView::Rows(r),
    ) = (st, reply) {
        match then {
            step::AfterReadRowsView::Indexes { walk, columns, foreign_keys } => {
                if let Ok(metas) = rows::values_of(
                    r,
                    |row: Seq<step::FieldView>| catalog::index_of(row),
                ) {
                    lemma_next_index(s, walk, columns, foreign_keys, metas, Seq::empty());
                }
            },
            step::AfterReadRowsView::IndexColumns {
                walk,
                columns,
                foreign_keys,
                index,
                rest,
                indexes,
            } => {
                if let Ok(found) = rows::values_of(
                    r,
                    |row: Seq<step::FieldView>| rows::nullable_field(row, 2),
                ) {
                    lemma_next_index(
                        s,
                        walk,
                        columns,
                        foreign_keys,
                        rest,
                        indexes.push(catalog::index_json(index, catalog::named(found))),
                    );
                }
            },
            _ => {},
        }
    }
}

/// A catalog that is told lists just the tables of the database that were asked for, in
/// the order in which the database names them, and its record tells their number.
pub proof fn law_the_catalog_lists_the_tables(
    s: service::ServiceView,
    params: json::JsonView,
    first: step::RowsView,
    names: Seq<Seq<char>>,
    replies: Seq<run::ReplyView>,
)
    requires
        params.text_at("profile"@) is Some,
        s.conn_of(params.text_at("profile"@)->0) is Some,
        rows::values_of(first, |row: Seq<step::FieldView>| rows::text_field(row, 0)) == Ok::<
            Seq<Seq<char>>,
            Seq<char>,
        >(names),
    ensures
        ({
            let (s1, st1) = run::served(
                s,
                "db-introspect"@,
                params,
                seq![run::ReplyView::Rows(first)] + replies,
            );
            st1 is Done && st1->outcome.ok ==> {
                &&& st1->outcome.data matches Some(data)
                &&& data.array_at("tables"@) matches Some(tables)
                &&& table_names(tables) == catalog::retained(names, catalog::only_of(params))
                &&& s1.audit.last().row_count == tables.len() as u64
            }
        }),
{
    lemma_leads_to(s, params, first, names, replies);
}

proof fn lemma_leads_to(
    s: service::ServiceView,
    params: json::JsonView,
    first: step::RowsView,
    names: Seq<Seq<char>>,
    replies: Seq<run::ReplyView>,
)
    requires
        params.text_at("profile"@) is Some,
        s.conn_of(params.text_at("profile"@)->0) is Some,
        rows::values_of(first, |row: Seq<step::FieldView>| rows::text_field(row, 0)) == Ok::<
            Seq<Seq<char>>,
            Seq<char>,
        >(names),
    ensures
        ({
            let (s1, st1) = run::served(
                s,
                "db-introspect"@,
                params,
                seq![run::ReplyView::Rows(first)] + replies,
            );
            leads_to(s1, st1, catalog::retained(names, catalog::only_of(params)))
        }),
    decreases replies.len(),
{
    let all = seq![run::ReplyView::Rows(first)] + replies;
    let wanted = catalog::retained(names, catalog::only_of(params));
    if replies.len() == 0 {
        dispatch::lemma_marks();
        let (s0, st) = dispatch::start(s, "db-introspect"@, params);
        let profile = params.text_at("profile"@)->0;
        assert(all =~= seq![run::ReplyView::Rows(first)]);
        run::lemma_one_more(s0, st, all, 0);
        assert(all.take(1) =~= all);
        lemma_next_table(s, profile, s.conn_of(profile)->0, wanted, Seq::empty());
        assert(table_names(Seq::empty()) + wanted =~= wanted);
    } else {
        lemma_leads_to(s, params, first, names, replies.drop_last());
        assert(all.drop_last() =~= seq![run::ReplyView::Rows(first)] + replies.drop_last());
        let (s1, st1) = run::served(s, "db-introspect"@, params, all.drop_last());
        lemma_still_leads_to(s1, st1, replies.last(), wanted);
    }
}

/// Whatever a table or an index is called, the pragma that asks for it names just that:
/// read as a quoted identifier, what stands between the brackets is the name.
pub proof fn law_a_pragma_names_what_it_asks_for(pragma: Seq<char>, name: Seq<char>)
    ensures
        ({
            let head = "PRAGMA "@ + pragma + "("@;
            let sql = catalog::pragma_sql(pragma, name);
            &&& sql == head + sql::quoted_ident(name) + ")"@
            &&& sql::read_ident(sql, head.len() as int + 1) == Some(
                (name, sql.len() - 1),
            )
        }),
{
    reveal_strlit(")");
    let head = "PRAGMA "@ + pragma + "("@;
    sql::law_quoted_identifier_reads_back(head, name, ")"@);
}

} // verus!
