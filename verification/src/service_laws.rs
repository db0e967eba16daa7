//! What the service keeps and tells of itself: its records, the databases it holds, its
//! operations, and the steps as they are handed out.
use vstd::prelude::*;

use crate::audit;
use crate::dispatch;
use crate::json;
use crate::json_laws;
use crate::mask;
use crate::order;
use crate::outcome;
use crate::outcome::ErrCode;
use crate::run;
use crate::service;
use crate::session;
use crate::step;
use crate::text;
use crate::value;

verus! {

/// A record is added behind those that are there, which stay as they are, and tells the
/// profile, the operation, whether it succeeded, and how many rows it touched; its number
/// is how many there were. No held database changes.
pub proof fn law_a_record_is_added(
    s: service::ServiceView,
    profile: Seq<char>,
    op: Seq<char>,
    ok: bool,
    rows: u64,
)
    ensures
        ({
            let after = s.audited(profile, op, ok, rows);
            &&& after.conns == s.conns
            &&& after.audit.len() == s.audit.len() + 1
            &&& after.audit.drop_last() == s.audit
            &&& after.audit.last().profile == profile
            &&& after.audit.last().op == op
            &&& after.audit.last().ok == ok
            &&& after.audit.last().row_count == rows
            &&& s.audit.len() <= u64::MAX ==> after.audit.last().ts_seq == s.audit.len()
        }),
{
    assert(s.audited(profile, op, ok, rows).audit.drop_last() =~= s.audit);
}

/// Holding a database and letting it go leave the records as they are, and change what one
/// profile holds and nothing else.
pub proof fn law_what_is_held(s: service::ServiceView, profile: Seq<char>, conn: u64)
    ensures
        s.holding(profile, conn).audit == s.audit,
        s.holding(profile, conn).conns == s.conns.insert(profile, conn),
        s.without(profile).audit == s.audit,
        s.without(profile).conns == s.conns.remove(profile),
        s.conn_of(profile) == if s.conns.contains_key(profile) {
            Some(s.conns[profile])
        } else {
            None
        },
{
}

/// The codes of failures, as answers tell them.
pub proof fn law_the_codes(code: ErrCode)
    ensures
        code.text() == match code {
            ErrCode::InvalidParams => "INVALID_PARAMS"@,
            ErrCode::Unavailable => "UNAVAILABLE"@,
            ErrCode::Conflict => "CONFLICT"@,
            ErrCode::Internal => "INTERNAL"@,
            ErrCode::UnknownOp => "UNKNOWN_OP"@,
        },
{
}

/// An answer of a failure has a code and a message and no data; one of a success has data
/// and no code, and a message only where it has something to say.
pub proof fn law_answers(code: ErrCode, message: Seq<char>, data: json::JsonView)
    ensures
        outcome::failure(code, message) == (outcome::OutcomeView {
            ok: false,
            data: None,
            code: Some(code.text()),
            message: Some(message),
        }),
        outcome::success(data) == (outcome::OutcomeView {
            ok: true,
            data: Some(data),
            code: None,
            message: None,
        }),
        outcome::success_with(data, message) == (outcome::OutcomeView {
            ok: true,
            data: Some(data),
            code: None,
            message: Some(message),
        }),
{
}

/// The operations, each by its name; those that only read; and no others. An operation that
/// is not among them is refused by its own name.
pub proof fn law_the_operations(
    s: service::ServiceView,
    op: Seq<char>,
    params: json::JsonView,
    replies: Seq<run::ReplyView>,
)
    ensures
        ({
            let reads = op == "ping"@ || op == "db-test"@ || op == "db-status"@ || op
                == "query-run"@ || op == "db-introspect"@ || op == "db-audit"@ || op
                == "migration-applied"@;
            let writes = op == "db-connect"@ || op == "db-disconnect"@ || op == "db-create"@ || op
                == "db-rekey"@ || op == "db-exec"@ || op == "db-migrate"@;
            &&& dispatch::reads_only(op) == reads
            &&& dispatch::op_names().contains(op) == (reads || writes)
            &&& !reads && !writes ==> run::served(s, op, params, replies) == (
                s,
                step::StepView::Done {
                    outcome: outcome::OutcomeView {
                        ok: false,
                        data: None,
                        code: Some("UNKNOWN_OP"@),
                        message: Some(op),
                    },
                    close: None,
                },
            )
        }),
        dispatch::op_names().no_duplicates(),
    decreases replies.len(),
{
    dispatch::lemma_marks();
    if replies.len() > 0 {
        law_the_operations(s, op, params, replies.drop_last());
    }
    let names = dispatch::op_names();
    assert(names[0] == "ping"@ && names[1] == "db-test"@ && names[2] == "db-connect"@ && names[3]
        == "db-disconnect"@ && names[4] == "db-status"@ && names[5] == "db-create"@ && names[6]
        == "db-rekey"@ && names[7] == "query-run"@ && names[8] == "db-introspect"@ && names[9]
        == "db-audit"@ && names[10] == "db-exec"@ && names[11] == "db-migrate"@ && names[12]
        == "migration-applied"@);
    assert(names.len() == 13);
    if names.contains(op) {
        let i = choose|i: int| 0 <= i < names.len() && names[i] == op;
        assert(i == 0 || i == 1 || i == 2 || i == 3 || i == 4 || i == 5 || i == 6 || i == 7 || i
            == 8 || i == 9 || i == 10 || i == 11 || i == 12);
    }
}

/// The records of a profile, or all where none is named, the newest first: those of the log
/// that are asked for, in the opposite order.
pub proof fn law_which_records_are_read(log: Seq<audit::AuditView>, profile: Option<Seq<char>>)
    ensures
        audit::newest_first(log, profile) == log.filter(
            |e: audit::AuditView| profile is None || e.profile == profile->0,
        ).reverse(),
    decreases log.len(),
{
    reveal(Seq::filter);
    let asked = |e: audit::AuditView| profile is None || e.profile == profile->0;
    if log.len() > 0 {
        law_which_records_are_read(log.drop_last(), profile);
    }
    assert(audit::newest_first(log, profile) =~= log.filter(asked).reverse());
}

proof fn lemma_record_keys()
    ensures
        "tsSeq"@ != "profile"@,
        "tsSeq"@ != "op"@,
        "tsSeq"@ != "ok"@,
        "tsSeq"@ != "rowCount"@,
        "profile"@ != "op"@,
        "profile"@ != "ok"@,
        "profile"@ != "rowCount"@,
        "op"@ != "ok"@,
        "op"@ != "rowCount"@,
        "ok"@ != "rowCount"@,
        "entries"@ != "count"@,
        "connections"@ != "count"@,
{
    reveal_strlit("tsSeq");
    reveal_strlit("profile");
    reveal_strlit("op");
    reveal_strlit("ok");
    reveal_strlit("rowCount");
    reveal_strlit("entries");
    reveal_strlit("count");
    reveal_strlit("connections");
    assert("tsSeq"@.len() == 5 && "profile"@.len() == 7 && "op"@.len() == 2 && "ok"@.len() == 2 && "rowCount"@.len() == 8 && "entries"@.len() == 7 && "count"@.len() == 5 && "connections"@.len() == 11);
    assert("op"@[1] == 'p' && "ok"@[1] == 'k');
}

/// What is told of a record.
pub open spec fn tells_record(told: json::JsonView, e: audit::AuditView) -> bool {
    &&& told is Object && told->Object_0.len() == 5
    &&& told.unsigned_at("tsSeq"@) == Some(e.ts_seq)
    &&& told.text_at("profile"@) == Some(e.profile)
    &&& told.text_at("op"@) == Some(e.op)
    &&& told.bool_at("ok"@) == Some(e.ok)
    &&& told.unsigned_at("rowCount"@) == Some(e.row_count)
}

/// The audit tells the newest records of the profile that the request names, or of all,
/// newest first and up to its limit, each with its number, profile, operation, success and
/// rows; and it tells how many they are. Nothing changes.
pub proof fn law_what_the_audit_tells(
    s: service::ServiceView,
    params: json::JsonView,
    replies: Seq<run::ReplyView>,
)
    ensures
        ({
            let profile = params.text_at("profile"@);
            let asked = s.audit.filter(
                |e: audit::AuditView| profile is None || e.profile == profile->0,
            ).reverse();
            let limit = params.unsigned_at("limit"@);
            let n = if limit is Some && limit->0 < asked.len() {
                limit->0 as int
            } else {
                asked.len() as int
            };
            let (s1, end) = run::served(s, "db-audit"@, params, replies);
            let told = end->outcome.data->0;
            let entries = told.array_at("entries"@);
            &&& s1 == s
            &&& end is Done && end->outcome.ok && end->close is None
            &&& end->outcome.code is None && end->outcome.message is None
            &&& end->outcome.data is Some && told->Object_0.len() == 2
            &&& entries is Some && entries->0.len() == n
            &&& forall|i: int| 0 <= i < n ==> tells_record(#[trigger] entries->0[i], asked[i])
            &&& told.unsigned_at("count"@) == Some(n as u64)
        }),
    decreases replies.len(),
{
    dispatch::lemma_marks();
    if replies.len() > 0 {
        law_what_the_audit_tells(s, params, replies.drop_last());
    } else {
        law_which_records_are_read(s.audit, params.text_at("profile"@));
        lemma_record_keys();
        let told = session::read_audit(s, params)->outcome.data->0->Object_0;
        json_laws::lemma_entry(told, 0);
        json_laws::lemma_entry(told, 1);
        let records = audit::at_most(
            audit::newest_first(s.audit, params.text_at("profile"@)),
            params.unsigned_at("limit"@),
        );
        let entries = told[0].1->Array_0;
        assert forall|i: int| 0 <= i < entries.len() implies tells_record(
            #[trigger] entries[i],
            records[i],
        ) by {
            lemma_record_told(records[i]);
        }
    }
}

proof fn lemma_record_told(e: audit::AuditView)
    ensures
        tells_record(audit::record_json(e), e),
{
    lemma_record_keys();
    let told = audit::record_json(e)->Object_0;
    json_laws::lemma_entry(told, 0);
    json_laws::lemma_entry(told, 1);
    json_laws::lemma_entry(told, 2);
    json_laws::lemma_entry(told, 3);
    json_laws::lemma_entry(told, 4);
}

/// The status tells the profiles that hold a database: each of them, in the order of texts,
/// and how many they are. It is recorded.
pub proof fn law_what_the_status_tells(
    s: service::ServiceView,
    params: json::JsonView,
    replies: Seq<run::ReplyView>,
)
    requires
        s.conns.dom().finite(),
    ensures
        ({
            let (s1, end) = run::served(s, "db-status"@, params, replies);
            let told = end->outcome.data->0;
            let names = told.array_at("connections"@);
            &&& s1 == s.audited(""@, "db-status"@, true, 0)
            &&& end is Done && end->outcome.ok && end->close is None
            &&& end->outcome.code is None && end->outcome.message is None
            &&& end->outcome.data is Some && told->Object_0.len() == 2
            &&& names is Some && names->0.len() == s.conns.dom().len()
            &&& forall|i: int|
                0 <= i < names->0.len() ==> {
                    &&& #[trigger] names->0[i] is Text
                    &&& s.conns.contains_key(names->0[i]->Text_0)
                }
            &&& forall|i: int, j: int|
                0 <= i < j < names->0.len() ==> order::before(
                    (#[trigger] names->0[i])->Text_0,
                    (#[trigger] names->0[j])->Text_0,
                )
            &&& forall|p: Seq<char>| #[trigger]
                s.conns.contains_key(p) ==> names->0.contains(json::JsonView::Text(p))
            &&& told.unsigned_at("count"@) == Some(s.conns.dom().len() as u64)
        }),
    decreases replies.len(),
{
    dispatch::lemma_marks();
    if replies.len() > 0 {
        law_what_the_status_tells(s, params, replies.drop_last());
    } else {
        let listing = order::listing(s.conns.dom());
        order::law_listing(s.conns.dom());
        lemma_record_keys();
        let told = session::status(s).1->outcome.data->0->Object_0;
        json_laws::lemma_entry(told, 0);
        json_laws::lemma_entry(told, 1);
        let names = told[0].1->Array_0;
        assert forall|i: int| 0 <= i < names.len() implies #[trigger] names[i] is Text
            && s.conns.contains_key(names[i]->Text_0) && names[i]->Text_0 == listing[i] by {
            assert(listing.contains(listing[i]));
        }
        assert forall|p: Seq<char>| #[trigger] s.conns.contains_key(p) implies names.contains(
            json::JsonView::Text(p),
        ) by {
            assert(s.conns.dom().contains(p));
            let k = choose|k: int| 0 <= k < listing.len() && listing[k] == p;
            assert(names[k] == json::JsonView::Text(p));
        }
    }
}

/// A step shows what it holds: the database that it addresses, the text of a statement, the
/// values to bind, the command, the file and the answer are those of the step itself.
pub proof fn law_steps_show_what_they_hold(st: step::Step)
    ensures
        st matches step::Step::Done { outcome, close } ==> {
            &&& st@ is Done && st@->close == close
            &&& st@->outcome.ok == outcome.ok
            &&& st@->outcome.data is Some == outcome.data is Some
            &&& outcome.data is Some ==> st@->outcome.data->0 == outcome.data->0@
            &&& st@->outcome.code is Some == outcome.code is Some
            &&& outcome.code is Some ==> st@->outcome.code->0 == outcome.code->0@
            &&& st@->outcome.message is Some == outcome.message is Some
            &&& outcome.message is Some ==> st@->outcome.message->0 == outcome.message->0@
        },
        st matches step::Step::Open { file, then } ==> st@ is Open && st@->file == file@,
        st matches step::Step::Run { conn, command, then } ==> {
            &&& st@ is Run && st@->Run_conn == conn
            &&& command matches step::Command::Pragma { name, value } ==> st@->command == (
            step::CommandView::Pragma { name: name@, value: value@ })
            &&& command matches step::Command::Batch { sql } ==> st@->command == (
            step::CommandView::Batch { sql: sql@ })
            &&& command matches step::Command::ReadInt { sql } ==> st@->command == (
            step::CommandView::ReadInt { sql: sql@ })
        },
        st matches step::Step::Execute { conn, sql, bind, then } ==> {
            &&& st@ is Execute && st@->Execute_conn == conn && st@->Execute_sql == sql@
            &&& shows_values(st@->Execute_bind, bind@)
        },
        st matches step::Step::ReadText { conn, sql, bind, then } ==> {
            &&& st@ is ReadText && st@->ReadText_conn == conn && st@->ReadText_sql == sql@
            &&& shows_values(st@->ReadText_bind, bind@)
        },
        st matches step::Step::ReadRows { conn, sql, width, then } ==> st@ is ReadRows
            && st@->ReadRows_conn == conn && st@->ReadRows_sql == sql@ && st@->width == width,
        st matches step::Step::Prepare { conn, sql, then } ==> st@ is Prepare && st@->Prepare_conn
            == conn && st@->Prepare_sql == sql@,
        st matches step::Step::Query { bind, then } ==> st@ is Query && shows_values(
            st@->Query_bind,
            bind@,
        ),
        st is NextRow ==> st@ is NextRow,
        st matches step::Step::ReadCells { wanted, then } ==> st@ is ReadCells && st@->wanted
            == wanted@,
{
}

/// A list of values to bind is shown value by value.
pub open spec fn shows_values(
    shown: Seq<value::SqlValueView>,
    values: Seq<value::SqlValue>,
) -> bool {
    &&& shown.len() == values.len()
    &&& forall|i: int|
        0 <= i < values.len() ==> #[trigger] shown[i] == match values[i] {
            value::SqlValue::Null => value::SqlValueView::Null,
            value::SqlValue::Integer(n) => value::SqlValueView::Integer(n),
            value::SqlValue::Real(bits) => value::SqlValueView::Real(bits),
            value::SqlValue::NearestReal(n) => value::SqlValueView::NearestReal(n),
            value::SqlValue::Text(s) => value::SqlValueView::Text(s@),
        }
}

/// What a database gave back shows what it holds: the fields of each row, in their order,
/// each with its text or error, its integer and whether it is NULL, and the error that ended
/// the reading.
pub proof fn law_rows_show_what_they_hold(rows: step::Rows, i: int, j: int)
    requires
        0 <= i < rows.rows@.len(),
        0 <= j < rows.rows@[i]@.len(),
    ensures
        rows@.rows.len() == rows.rows@.len(),
        rows@.rows[i].len() == rows.rows@[i]@.len(),
        rows@.rows[i][j].int == rows.rows@[i]@[j].int,
        rows@.rows[i][j].null == rows.rows@[i]@[j].null,
        rows@.rows[i][j].text is Ok == rows.rows@[i]@[j].text is Ok,
        rows.rows@[i]@[j].text matches Ok(t) ==> rows@.rows[i][j].text->Ok_0 == t@,
        rows.rows@[i]@[j].text matches Err(e) ==> rows@.rows[i][j].text->Err_0 == e@,
        rows@.error is Some == rows.error is Some,
        rows.error matches Some(e) ==> rows@.error->0 == e@,
{
}

/// A cell shows what it holds.
pub proof fn law_cells_show_what_they_hold(c: value::Cell)
    ensures
        c is Null ==> c@ is Null,
        c matches value::Cell::Integer(n) ==> c@ == value::CellView::Integer(n),
        c matches value::Cell::Real(d) ==> c@ == (value::CellView::Real {
            bits: d.bits,
            literal: d.literal@,
        }),
        c matches value::Cell::Text(bytes) ==> c@ == value::CellView::Text(bytes@),
        c matches value::Cell::Blob(bytes) ==> c@ == value::CellView::Blob(bytes@),
{
}

/// What a database replied shows what it holds: whether it went well, the value, and the
/// error.
pub proof fn law_replies_show_what_they_hold(
    number: Result<u64, String>,
    found: Result<Option<String>, String>,
    prepared: Result<(Vec<String>, bool), String>,
    names: Seq<String>,
    name: Option<String>,
)
    ensures
        number matches Ok(n) ==> step::reply_view(number) == Ok::<u64, Seq<char>>(n),
        number matches Err(e) ==> step::reply_view(number) == Err::<u64, Seq<char>>(e@),
        found matches Ok(None) ==> step::text_reply_view(found) == Ok::<
            Option<Seq<char>>,
            Seq<char>,
        >(None),
        found matches Ok(Some(t)) ==> step::text_reply_view(found) == Ok::<
            Option<Seq<char>>,
            Seq<char>,
        >(Some(t@)),
        found matches Err(e) ==> step::text_reply_view(found) == Err::<
            Option<Seq<char>>,
            Seq<char>,
        >(e@),
        prepared matches Ok((v, read_only)) ==> step::prepared_view(prepared) == Ok::<
            (Seq<Seq<char>>, bool),
            Seq<char>,
        >((text::texts(v@), read_only)),
        prepared matches Err(e) ==> step::prepared_view(prepared) == Err::<
            (Seq<Seq<char>>, bool),
            Seq<char>,
        >(e@),
        text::texts(names).len() == names.len(),
        forall|i: int| 0 <= i < names.len() ==> #[trigger] text::texts(names)[i] == names[i]@,
        name matches Some(n) ==> text::opt_text(name) == Some(n@),
        name is None ==> text::opt_text(name) is None,
{
}

/// Lists show what they hold, item by item and in order: the cells of a row, those that were
/// not read among them, the items of a list and the entries of an object, and the records of
/// the audit, each with its number, profile, operation, success and rows.
pub proof fn law_lists_show_what_they_hold(
    cells: Seq<Option<value::Cell>>,
    items: Seq<json::Json>,
    entries: Seq<(String, json::Json)>,
    log: Seq<audit::AuditEntry>,
)
    ensures
        mask::cells_view(cells).len() == cells.len(),
        forall|i: int|
            0 <= i < cells.len() ==> #[trigger] mask::cells_view(cells)[i] == if cells[i] is Some {
                Some(cells[i]->0@)
            } else {
                None
            },
        json::items_view(items).len() == items.len(),
        forall|i: int| 0 <= i < items.len() ==> #[trigger] json::items_view(items)[i] == items[i]@,
        json::entries_view(entries).len() == entries.len(),
        forall|i: int|
            0 <= i < entries.len() ==> #[trigger] json::entries_view(entries)[i] == (
                entries[i].0@,
                entries[i].1@,
            ),
        audit::log_view(log).len() == log.len(),
        forall|i: int|
            0 <= i < log.len() ==> #[trigger] audit::log_view(log)[i] == (audit::AuditView {
                ts_seq: log[i].ts_seq,
                profile: log[i].profile@,
                op: log[i].op@,
                ok: log[i].ok,
                row_count: log[i].row_count,
            }),
{
}

} // verus!
