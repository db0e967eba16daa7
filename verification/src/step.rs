//! The steps of an operation. An operation decides; what it needs of a database it
//! asks for, one step at a time, and goes on when the reply is there. A step says what
//! to do and carries what the operation knows by then. A database that was opened goes
//! by the number under which its opener keeps it.
use vstd::prelude::*;

use crate::json::Json;
use crate::json;
use crate::mask;
use crate::outcome::Outcome;
use crate::outcome;
use crate::text;
use crate::value::SqlValue;
use crate::value;

verus! {

/// Why a database is being opened: to hold it under a profile, to probe a file, or to
/// see that the driver is alive.
#[derive(Debug)]
pub enum Purpose {
    Connect(String),
    Test(String),
    Ping,
}

pub enum PurposeView {
    Connect(Seq<char>),
    Test(Seq<char>),
    Ping,
}

impl View for Purpose {
    type V = PurposeView;

    open spec fn view(&self) -> PurposeView {
        match self {
            Purpose::Connect(s) => PurposeView::Connect(s@),
            Purpose::Test(s) => PurposeView::Test(s@),
            Purpose::Ping => PurposeView::Ping,
        }
    }
}

/// A migration to apply.
#[derive(Debug)]
pub struct Job {
    pub profile: String,
    pub id: String,
    pub checksum: String,
    pub statements: Vec<String>,
}

pub struct JobView {
    pub profile: Seq<char>,
    pub id: Seq<char>,
    pub checksum: Seq<char>,
    pub statements: Seq<Seq<char>>,
}

impl View for Job {
    type V = JobView;

    open spec fn view(&self) -> JobView {
        JobView {
            profile: self.profile@,
            id: self.id@,
            checksum: self.checksum@,
            statements: text::texts(self.statements@),
        }
    }
}

/// A walk over the tables of a database: the table it has come to, those that follow,
/// and what it found of those before.
#[derive(Debug)]
pub struct Walk {
    pub profile: String,
    pub conn: u64,
    pub name: String,
    pub rest: Vec<String>,
    pub tables: Vec<Json>,
}

pub struct WalkView {
    pub profile: Seq<char>,
    pub conn: u64,
    pub name: Seq<char>,
    pub rest: Seq<Seq<char>>,
    pub tables: Seq<json::JsonView>,
}

impl View for Walk {
    type V = WalkView;

    open spec fn view(&self) -> WalkView {
        WalkView {
            profile: self.profile@,
            conn: self.conn,
            name: self.name@,
            rest: text::texts(self.rest@),
            tables: json::items_view(self.tables@),
        }
    }
}

/// An index of a table: its name, and whether it is unique.
#[derive(Debug)]
pub struct IndexMeta {
    pub name: String,
    pub unique: bool,
}

pub struct IndexMetaView {
    pub name: Seq<char>,
    pub unique: bool,
}

impl View for IndexMeta {
    type V = IndexMetaView;

    open spec fn view(&self) -> IndexMetaView {
        IndexMetaView { name: self.name@, unique: self.unique }
    }
}

/// The views of a list of indexes.
pub open spec fn metas_view(v: Seq<IndexMeta>) -> Seq<IndexMetaView> {
    v.map_values(|m: IndexMeta| m@)
}

/// A query whose rows are being read: the names of its columns, which of them are
/// sensitive, how many rows may be read, and the rows read so far as they will leave.
#[derive(Debug)]
pub struct Reading {
    profile: String,
    names: Vec<String>,
    masked: Vec<bool>,
    row_limit: u64,
    rows: Vec<Json>,
}

pub struct ReadingView {
    pub profile: Seq<char>,
    pub names: Seq<Seq<char>>,
    pub row_limit: u64,
    pub rows: Seq<json::JsonView>,
}

impl View for Reading {
    type V = ReadingView;

    closed spec fn view(&self) -> ReadingView {
        ReadingView {
            profile: self.profile@,
            names: text::texts(self.names@),
            row_limit: self.row_limit,
            rows: json::items_view(self.rows@),
        }
    }
}

impl Reading {
    #[verifier::type_invariant]
    spec fn masks_match(self) -> bool {
        &&& self.masked@.len() == self.names@.len()
        &&& forall|i: int|
            0 <= i < self.masked@.len() ==> #[trigger] self.masked@[i] == mask::sensitive(
                self.names@[i]@,
            )
    }

    /// A query of which no row has been read.
    pub fn begin(profile: String, names: Vec<String>, row_limit: u64) -> (r: Reading)
        ensures
            r@ == (ReadingView {
                profile: profile@,
                names: text::texts(names@),
                row_limit,
                rows: Seq::empty(),
            }),
    {
        let masked = mask::sensitive_columns(&names);
        let r = Reading { profile, names, masked, row_limit, rows: Vec::new() };
        assert(json::items_view(r.rows@) =~= Seq::empty());
        r
    }

    /// Whether as many rows have been read as may be.
    pub fn is_full(&self) -> (r: bool)
        ensures
            r == (self@.rows.len() >= self@.row_limit),
    {
        self.rows.len() as u64 >= self.row_limit
    }

    /// Which columns of a row may be read: those that are not sensitive.
    pub fn wanted(&self) -> (r: Vec<bool>)
        ensures
            r@ == wanted_columns(self@.names),
    {
        proof {
            use_type_invariant(self);
        }
        let mut out: Vec<bool> = Vec::new();
        let mut i: usize = 0;
        while i < self.masked.len()
            invariant
                i <= self.masked.len(),
                out@.len() == i,
                forall|k: int| 0 <= k < i ==> out@[k] == !self.masked@[k],
            decreases self.masked.len() - i,
        {
            out.push(!self.masked[i]);
            i += 1;
        }
        assert(out@ =~= wanted_columns(self@.names));
        out
    }

    /// The query with one more row read.
    pub fn with_row(self, cells: &Vec<Option<value::Cell>>) -> (r: Reading)
        ensures
            r@ == (ReadingView {
                rows: self@.rows.push(mask::masked_row(self@.names, mask::cells_view(cells@))),
                ..self@
            }),
    {
        proof {
            use_type_invariant(&self);
        }
        let row = mask::mask_row(&self.names, &self.masked, cells);
        let Reading { profile, names, masked, row_limit, rows } = self;
        let ghost before = rows@;
        let mut rows = rows;
        rows.push(row);
        assert(json::items_view(rows@) =~= json::items_view(before).push(row@));
        Reading { profile, names, masked, row_limit, rows }
    }

    /// The profile, the names of the columns and the rows of a query.
    pub fn finish(self) -> (r: (String, Vec<String>, Vec<Json>))
        ensures
            r.0@ == self@.profile,
            text::texts(r.1@) == self@.names,
            json::items_view(r.2@) == self@.rows,
    {
        let Reading { profile, names, masked, row_limit, rows } = self;
        (profile, names, rows)
    }

    /// The profile of a query.
    pub fn into_profile(self) -> (r: String)
        ensures
            r@ == self@.profile,
    {
        let Reading { profile, names, masked, row_limit, rows } = self;
        profile
    }
}

/// Which of the columns may be read.
pub open spec fn wanted_columns(names: Seq<Seq<char>>) -> Seq<bool> {
    names.map_values(|n: Seq<char>| !mask::sensitive(n))
}

/// What a database that is open is told to do without giving back data: set a pragma,
/// run the statements of a text, or read one row whose first column is an integer.
#[derive(Debug)]
pub enum Command {
    Pragma { name: String, value: String },
    Batch { sql: String },
    ReadInt { sql: String },
}

pub enum CommandView {
    Pragma { name: Seq<char>, value: Seq<char> },
    Batch { sql: Seq<char> },
    ReadInt { sql: Seq<char> },
}

impl View for Command {
    type V = CommandView;

    open spec fn view(&self) -> CommandView {
        match self {
            Command::Pragma { name, value } => CommandView::Pragma { name: name@, value: value@ },
            Command::Batch { sql } => CommandView::Batch { sql: sql@ },
            Command::ReadInt { sql } => CommandView::ReadInt { sql: sql@ },
        }
    }
}

/// What goes on once a file was opened.
#[derive(Debug)]
pub enum AfterOpen {
    Session { purpose: Purpose, key: Option<String> },
    Create { file: String, key: Option<String> },
}

pub enum AfterOpenView {
    Session { purpose: PurposeView, key: Option<Seq<char>> },
    Create { file: Seq<char>, key: Option<Seq<char>> },
}

impl View for AfterOpen {
    type V = AfterOpenView;

    open spec fn view(&self) -> AfterOpenView {
        match self {
            AfterOpen::Session { purpose, key } => AfterOpenView::Session {
                purpose: purpose@,
                key: text::opt_text(*key),
            },
            AfterOpen::Create { file, key } => AfterOpenView::Create {
                file: file@,
                key: text::opt_text(*key),
            },
        }
    }
}

/// What goes on once a command has run.
#[derive(Debug)]
pub enum AfterRun {
    /// The key of a session was set.
    Keyed { purpose: Purpose, conn: u64 },
    /// A session was probed.
    Probed { purpose: Purpose, conn: u64, encrypted: bool },
    /// The key of a new database was set.
    CreateKeyed { file: String, conn: u64 },
    /// A new database was written.
    Created { file: String, conn: u64, encrypted: bool },
    /// The key of a held database was changed.
    Rekeyed { profile: String },
    /// The ledger was made.
    LedgerReady { job: Job, conn: u64 },
    /// The transaction of a migration was begun.
    Begun { job: Job, conn: u64 },
    /// Statement `index` of a migration was run.
    Applied { job: Job, conn: u64, index: usize },
    /// The transaction of a migration was committed.
    Committed { job: Job, conn: u64 },
    /// The transaction of a migration was rolled back, for the reason that the message
    /// tells.
    RolledBack { job: Job, message: String },
    /// The ledger was looked for.
    LedgerSeen { profile: String, conn: u64 },
}

pub enum AfterRunView {
    Keyed { purpose: PurposeView, conn: u64 },
    Probed { purpose: PurposeView, conn: u64, encrypted: bool },
    CreateKeyed { file: Seq<char>, conn: u64 },
    Created { file: Seq<char>, conn: u64, encrypted: bool },
    Rekeyed { profile: Seq<char> },
    LedgerReady { job: JobView, conn: u64 },
    Begun { job: JobView, conn: u64 },
    Applied { job: JobView, conn: u64, index: usize },
    Committed { job: JobView, conn: u64 },
    RolledBack { job: JobView, message: Seq<char> },
    LedgerSeen { profile: Seq<char>, conn: u64 },
}

impl View for AfterRun {
    type V = AfterRunView;

    open spec fn view(&self) -> AfterRunView {
        match self {
            AfterRun::Keyed { purpose, conn } => AfterRunView::Keyed {
                purpose: purpose@,
                conn: *conn,
            },
            AfterRun::Probed { purpose, conn, encrypted } => AfterRunView::Probed {
                purpose: purpose@,
                conn: *conn,
                encrypted: *encrypted,
            },
            AfterRun::CreateKeyed { file, conn } => AfterRunView::CreateKeyed {
                file: file@,
                conn: *conn,
            },
            AfterRun::Created { file, conn, encrypted } => AfterRunView::Created {
                file: file@,
                conn: *conn,
                encrypted: *encrypted,
            },
            AfterRun::Rekeyed { profile } => AfterRunView::Rekeyed { profile: profile@ },
            AfterRun::LedgerReady { job, conn } => AfterRunView::LedgerReady {
                job: job@,
                conn: *conn,
            },
            AfterRun::Begun { job, conn } => AfterRunView::Begun { job: job@, conn: *conn },
            AfterRun::Applied { job, conn, index } => AfterRunView::Applied {
                job: job@,
                conn: *conn,
                index: *index,
            },
            AfterRun::Committed { job, conn } => AfterRunView::Committed {
                job: job@,
                conn: *conn,
            },
            AfterRun::RolledBack { job, message } => AfterRunView::RolledBack {
                job: job@,
                message: message@,
            },
            AfterRun::LedgerSeen { profile, conn } => AfterRunView::LedgerSeen {
                profile: profile@,
                conn: *conn,
            },
        }
    }
}

/// What goes on once a statement has changed rows.
#[derive(Debug)]
pub enum AfterExecute {
    /// The statement of a request was run.
    Exec { profile: String },
    /// A migration was entered in the ledger.
    Recorded { job: Job, conn: u64 },
}

pub enum AfterExecuteView {
    Exec { profile: Seq<char> },
    Recorded { job: JobView, conn: u64 },
}

impl View for AfterExecute {
    type V = AfterExecuteView;

    open spec fn view(&self) -> AfterExecuteView {
        match self {
            AfterExecute::Exec { profile } => AfterExecuteView::Exec { profile: profile@ },
            AfterExecute::Recorded { job, conn } => AfterExecuteView::Recorded {
                job: job@,
                conn: *conn,
            },
        }
    }
}

/// What goes on once a text was read.
#[derive(Debug)]
pub enum AfterReadText {
    /// The version of the database library was read.
    Version { purpose: Purpose, conn: u64, encrypted: bool },
    /// The checksum under which a migration stands in the ledger was read.
    Checksum { job: Job, conn: u64 },
}

pub enum AfterReadTextView {
    Version { purpose: PurposeView, conn: u64, encrypted: bool },
    Checksum { job: JobView, conn: u64 },
}

impl View for AfterReadText {
    type V = AfterReadTextView;

    open spec fn view(&self) -> AfterReadTextView {
        match self {
            AfterReadText::Version { purpose, conn, encrypted } => AfterReadTextView::Version {
                purpose: purpose@,
                conn: *conn,
                encrypted: *encrypted,
            },
            AfterReadText::Checksum { job, conn } => AfterReadTextView::Checksum {
                job: job@,
                conn: *conn,
            },
        }
    }
}

/// What goes on once the rows of a query over the schema or the ledger were read.
#[derive(Debug)]
pub enum AfterReadRows {
    /// The names of the tables; `only` are those that the request asked for.
    TableNames { profile: String, conn: u64, only: Option<Vec<String>> },
    /// The columns of the table that the walk has come to.
    Columns { walk: Walk },
    /// The foreign keys of that table.
    ForeignKeys { walk: Walk, columns: Vec<Json> },
    /// The indexes of that table.
    Indexes { walk: Walk, columns: Vec<Json>, foreign_keys: Vec<Json> },
    /// The columns of an index of that table; the indexes `rest` follow.
    IndexColumns {
        walk: Walk,
        columns: Vec<Json>,
        foreign_keys: Vec<Json>,
        index: IndexMeta,
        rest: Vec<IndexMeta>,
        indexes: Vec<Json>,
    },
    /// The entries of the ledger.
    Ledger { profile: String },
}

pub enum AfterReadRowsView {
    TableNames { profile: Seq<char>, conn: u64, only: Option<Seq<Seq<char>>> },
    Columns { walk: WalkView },
    ForeignKeys { walk: WalkView, columns: Seq<json::JsonView> },
    Indexes {
        walk: WalkView,
        columns: Seq<json::JsonView>,
        foreign_keys: Seq<json::JsonView>,
    },
    IndexColumns {
        walk: WalkView,
        columns: Seq<json::JsonView>,
        foreign_keys: Seq<json::JsonView>,
        index: IndexMetaView,
        rest: Seq<IndexMetaView>,
        indexes: Seq<json::JsonView>,
    },
    Ledger { profile: Seq<char> },
}

/// The texts of an optional list of strings.
pub open spec fn opt_texts(v: Option<Vec<String>>) -> Option<Seq<Seq<char>>> {
    match v {
        Some(v) => Some(text::texts(v@)),
        None => None,
    }
}

impl View for AfterReadRows {
    type V = AfterReadRowsView;

    open spec fn view(&self) -> AfterReadRowsView {
        match self {
            AfterReadRows::TableNames { profile, conn, only } => AfterReadRowsView::TableNames {
                profile: profile@,
                conn: *conn,
                only: opt_texts(*only),
            },
            AfterReadRows::Columns { walk } => AfterReadRowsView::Columns { walk: walk@ },
            AfterReadRows::ForeignKeys { walk, columns } => AfterReadRowsView::ForeignKeys {
                walk: walk@,
                columns: json::items_view(columns@),
            },
            AfterReadRows::Indexes { walk, columns, foreign_keys } => AfterReadRowsView::Indexes {
                walk: walk@,
                columns: json::items_view(columns@),
                foreign_keys: json::items_view(foreign_keys@),
            },
            AfterReadRows::IndexColumns { walk, columns, foreign_keys, index, rest, indexes } =>
            AfterReadRowsView::IndexColumns {
                walk: walk@,
                columns: json::items_view(columns@),
                foreign_keys: json::items_view(foreign_keys@),
                index: index@,
                rest: metas_view(rest@),
                indexes: json::items_view(indexes@),
            },
            AfterReadRows::Ledger { profile } => AfterReadRowsView::Ledger { profile: profile@ },
        }
    }
}

/// What goes on once the statement of a query was prepared. `select` tells whether its
/// text is a SELECT.
#[derive(Debug)]
pub struct AfterPrepare {
    pub profile: String,
    pub select: bool,
    pub row_limit: u64,
    pub bind: Vec<SqlValue>,
}

pub struct AfterPrepareView {
    pub profile: Seq<char>,
    pub select: bool,
    pub row_limit: u64,
    pub bind: Seq<value::SqlValueView>,
}

impl View for AfterPrepare {
    type V = AfterPrepareView;

    open spec fn view(&self) -> AfterPrepareView {
        AfterPrepareView {
            profile: self.profile@,
            select: self.select,
            row_limit: self.row_limit,
            bind: value::bind_view(self.bind@),
        }
    }
}

/// The next thing to do for an operation. Every step but `Done` is answered by a reply,
/// which the matching method of the service takes together with `then`.
#[derive(Debug)]
pub enum Step {
    /// The operation is over. The database `close`, if any, is to be closed.
    Done { outcome: Outcome, close: Option<u64> },
    /// Open a file.
    Open { file: String, then: AfterOpen },
    /// Run a command.
    Run { conn: u64, command: Command, then: AfterRun },
    /// Run a statement and count the rows it changed.
    Execute { conn: u64, sql: String, bind: Vec<SqlValue>, then: AfterExecute },
    /// Read the first column of the first row of a query as text.
    ReadText { conn: u64, sql: String, bind: Vec<SqlValue>, then: AfterReadText },
    /// Read the first `width` columns of all rows of a query.
    ReadRows { conn: u64, sql: String, width: usize, then: AfterReadRows },
    /// Prepare the statement of a query, and tell the names of its columns and whether
    /// it is read-only.
    Prepare { conn: u64, sql: String, then: AfterPrepare },
    /// Start the prepared query.
    Query { bind: Vec<SqlValue>, then: Reading },
    /// Move to the next row.
    NextRow { then: Reading },
    /// Read the wanted cells of the row.
    ReadCells { wanted: Vec<bool>, then: Reading },
}

pub enum StepView {
    Done { outcome: outcome::OutcomeView, close: Option<u64> },
    Open { file: Seq<char>, then: AfterOpenView },
    Run { conn: u64, command: CommandView, then: AfterRunView },
    Execute {
        conn: u64,
        sql: Seq<char>,
        bind: Seq<value::SqlValueView>,
        then: AfterExecuteView,
    },
    ReadText {
        conn: u64,
        sql: Seq<char>,
        bind: Seq<value::SqlValueView>,
        then: AfterReadTextView,
    },
    ReadRows { conn: u64, sql: Seq<char>, width: usize, then: AfterReadRowsView },
    Prepare { conn: u64, sql: Seq<char>, then: AfterPrepareView },
    Query { bind: Seq<value::SqlValueView>, then: ReadingView },
    NextRow { then: ReadingView },
    ReadCells { wanted: Seq<bool>, then: ReadingView },
}

impl View for Step {
    type V = StepView;

    open spec fn view(&self) -> StepView {
        match self {
            Step::Done { outcome, close } => StepView::Done { outcome: outcome@, close: *close },
            Step::Open { file, then } => StepView::Open { file: file@, then: then@ },
            Step::Run { conn, command, then } => StepView::Run {
                conn: *conn,
                command: command@,
                then: then@,
            },
            Step::Execute { conn, sql, bind, then } => StepView::Execute {
                conn: *conn,
                sql: sql@,
                bind: value::bind_view(bind@),
                then: then@,
            },
            Step::ReadText { conn, sql, bind, then } => StepView::ReadText {
                conn: *conn,
                sql: sql@,
                bind: value::bind_view(bind@),
                then: then@,
            },
            Step::ReadRows { conn, sql, width, then } => StepView::ReadRows {
                conn: *conn,
                sql: sql@,
                width: *width,
                then: then@,
            },
            Step::Prepare { conn, sql, then } => StepView::Prepare {
                conn: *conn,
                sql: sql@,
                then: then@,
            },
            Step::Query { bind, then } => StepView::Query {
                bind: value::bind_view(bind@),
                then: then@,
            },
            Step::NextRow { then } => StepView::NextRow { then: then@ },
            Step::ReadCells { wanted, then } => StepView::ReadCells { wanted: wanted@, then: then@ },
        }
    }
}

/// The end of an operation that failed.
pub open spec fn failed(code: outcome::ErrCode, message: Seq<char>) -> StepView {
    StepView::Done { outcome: outcome::failure(code, message), close: None }
}

/// Ends an operation that failed.
pub fn fail(code: outcome::ErrCode, message: String) -> (r: Step)
    ensures
        r@ == failed(code, message@),
{
    Step::Done { outcome: Outcome::err(code, message), close: None }
}

/// Ends an operation that failed, with a fixed message.
pub fn fail_with(code: outcome::ErrCode, message: &str) -> (r: Step)
    ensures
        r@ == failed(code, message@),
{
    fail(code, message.to_owned())
}

/// A reply: what was asked for, or the text of the error.
pub open spec fn reply_view<T>(r: Result<T, String>) -> Result<T, Seq<char>> {
    match r {
        Ok(x) => Ok(x),
        Err(e) => Err(e@),
    }
}

/// A reply that is a text, nothing where there was no row, or an error.
pub open spec fn text_reply_view(r: Result<Option<String>, String>) -> Result<
    Option<Seq<char>>,
    Seq<char>,
> {
    match r {
        Ok(s) => Ok(text::opt_text(s)),
        Err(e) => Err(e@),
    }
}

/// A reply that tells the names of a statement's columns and whether it is read-only, or
/// an error.
pub open spec fn prepared_view(r: Result<(Vec<String>, bool), String>) -> Result<
    (Seq<Seq<char>>, bool),
    Seq<char>,
> {
    match r {
        Ok(p) => Ok((text::texts(p.0@), p.1)),
        Err(e) => Err(e@),
    }
}

/// A field of a row: how it reads as text and as an integer, and whether it is NULL.
#[derive(Debug)]
pub struct Field {
    pub text: Result<String, String>,
    pub int: Option<i64>,
    pub null: bool,
}

pub struct FieldView {
    pub text: Result<Seq<char>, Seq<char>>,
    pub int: Option<i64>,
    pub null: bool,
}

/// The text of a read that gave a text or an error message.
pub open spec fn text_result(r: Result<String, String>) -> Result<Seq<char>, Seq<char>> {
    match r {
        Ok(s) => Ok(s@),
        Err(e) => Err(e@),
    }
}

impl View for Field {
    type V = FieldView;

    open spec fn view(&self) -> FieldView {
        FieldView { text: text_result(self.text), int: self.int, null: self.null }
    }
}

/// The views of the fields of a row.
pub open spec fn row_view(v: Seq<Field>) -> Seq<FieldView> {
    v.map_values(|f: Field| f@)
}

/// The views of a list of rows.
pub open spec fn rows_view(v: Seq<Vec<Field>>) -> Seq<Seq<FieldView>> {
    v.map_values(|r: Vec<Field>| row_view(r@))
}

/// The rows of a query, up to the end or up to the error that ended the reading.
#[derive(Debug)]
pub struct Rows {
    pub rows: Vec<Vec<Field>>,
    pub error: Option<String>,
}

pub struct RowsView {
    pub rows: Seq<Seq<FieldView>>,
    pub error: Option<Seq<char>>,
}

impl View for Rows {
    type V = RowsView;

    open spec fn view(&self) -> RowsView {
        RowsView { rows: rows_view(self.rows@), error: text::opt_text(self.error) }
    }
}

} // verus!
