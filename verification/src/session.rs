//! Sessions: opening, probing, creating, re-keying and closing databases, and what the
//! service tells of itself.
use vstd::prelude::*;
use vstd::string::*;

use crate::audit;
use crate::json::{Json, Number};
use crate::json;
use crate::order;
use crate::outcome::{ErrCode, Outcome};
use crate::outcome;
use crate::service::DbStudioService;
use crate::service;
use crate::step::{AfterOpen, AfterReadText, AfterRun, Command, Purpose, Step};
use crate::step;
use crate::text;

verus! {

/// The query that touches a page of the database, so that a wrong or missing key shows.
pub open spec fn probe_sql() -> Seq<char> {
    "SELECT count(*) FROM sqlite_master"@
}

/// The query for the version of the database library.
pub open spec fn version_sql() -> Seq<char> {
    "SELECT sqlite_version()"@
}

/// The write that brings the header of a new database onto disk.
pub open spec fn create_sql() -> Seq<char> {
    "PRAGMA user_version = 1;"@
}

/// The file that a request names: a database in memory where it names none.
pub open spec fn file_of(params: json::JsonView) -> Seq<char> {
    match params.text_at("file"@) {
        Some(f) => f,
        None => ":memory:"@,
    }
}

/// Sets the key of a database that was just opened.
pub open spec fn set_key(conn: u64, key: Seq<char>, then: step::AfterRunView) -> step::StepView {
    step::StepView::Run {
        conn,
        command: step::CommandView::Pragma { name: "key"@, value: key },
        then,
    }
}

/// Probes a database that was just opened.
pub open spec fn probe(
    purpose: step::PurposeView,
    conn: u64,
    encrypted: bool,
) -> step::StepView {
    step::StepView::Run {
        conn,
        command: step::CommandView::ReadInt { sql: probe_sql() },
        then: step::AfterRunView::Probed { purpose, conn, encrypted },
    }
}

/// Writes a new database.
pub open spec fn write_new(file: Seq<char>, conn: u64, encrypted: bool) -> step::StepView {
    step::StepView::Run {
        conn,
        command: step::CommandView::Batch { sql: create_sql() },
        then: step::AfterRunView::Created { file, conn, encrypted },
    }
}

/// The first step of `db-connect`.
pub open spec fn connect_start(params: json::JsonView) -> step::StepView {
    match params.text_at("profile"@) {
        None => step::failed(ErrCode::InvalidParams, "profile required"@),
        Some(profile) => step::StepView::Open {
            file: file_of(params),
            then: step::AfterOpenView::Session {
                purpose: step::PurposeView::Connect(profile),
                key: params.text_at("key"@),
            },
        },
    }
}

/// The first step of `db-test`.
pub open spec fn test_start(params: json::JsonView) -> step::StepView {
    step::StepView::Open {
        file: file_of(params),
        then: step::AfterOpenView::Session {
            purpose: step::PurposeView::Test(file_of(params)),
            key: params.text_at("key"@),
        },
    }
}

/// The first step of `ping`.
pub open spec fn ping_start() -> step::StepView {
    step::StepView::Open {
        file: ":memory:"@,
        then: step::AfterOpenView::Session { purpose: step::PurposeView::Ping, key: None },
    }
}

/// The first step of `db-create`.
pub open spec fn create_start(params: json::JsonView) -> step::StepView {
    match params.text_at("file"@) {
        None => step::failed(ErrCode::InvalidParams, "file required"@),
        Some(file) => step::StepView::Open {
            file,
            then: step::AfterOpenView::Create { file, key: params.text_at("key"@) },
        },
    }
}

/// The first step of `db-rekey`.
pub open spec fn rekey_start(s: service::ServiceView, params: json::JsonView) -> step::StepView {
    match (params.text_at("profile"@), params.text_at("newKey"@)) {
        (None, _) => step::failed(ErrCode::InvalidParams, "profile required"@),
        (Some(_), None) => step::failed(ErrCode::InvalidParams, "newKey required"@),
        (Some(profile), Some(key)) => match s.conn_of(profile) {
            None => step::failed(ErrCode::Unavailable, service::not_connected(profile)),
            Some(conn) => step::StepView::Run {
                conn,
                command: step::CommandView::Pragma { name: "rekey"@, value: key },
                then: step::AfterRunView::Rekeyed { profile },
            },
        },
    }
}

/// The operation and the profile that a session is recorded under. One that is not held
/// belongs to no profile.
pub open spec fn session_of(purpose: step::PurposeView) -> (Seq<char>, Seq<char>) {
    match purpose {
        step::PurposeView::Connect(profile) => ("db-connect"@, profile),
        step::PurposeView::Test(_) => ("db-test"@, ""@),
        step::PurposeView::Ping => ("ping"@, ""@),
    }
}

/// A session that could not be set up.
pub open spec fn session_failed(
    s: service::ServiceView,
    purpose: step::PurposeView,
    message: Seq<char>,
    close: Option<u64>,
) -> (service::ServiceView, step::StepView) {
    let end = step::StepView::Done {
        outcome: outcome::failure(ErrCode::Unavailable, message),
        close,
    };
    let (op, profile) = session_of(purpose);
    (s.audited(profile, op, false, 0), end)
}

/// A database that could not be created.
pub open spec fn create_failed(
    s: service::ServiceView,
    code: ErrCode,
    message: Seq<char>,
    close: Option<u64>,
) -> (service::ServiceView, step::StepView) {
    (
        s.audited(""@, "db-create"@, false, 0),
        step::StepView::Done { outcome: outcome::failure(code, message), close },
    )
}

/// What follows the opening of a file.
pub open spec fn after_open(
    s: service::ServiceView,
    then: step::AfterOpenView,
    reply: Result<u64, Seq<char>>,
) -> (service::ServiceView, step::StepView) {
    match (then, reply) {
        (step::AfterOpenView::Session { purpose, key }, Err(e)) => session_failed(
            s,
            purpose,
            "open failed: "@ + e,
            None,
        ),
        (step::AfterOpenView::Session { purpose, key: Some(key) }, Ok(conn)) => (
            s,
            set_key(conn, key, step::AfterRunView::Keyed { purpose, conn }),
        ),
        (step::AfterOpenView::Session { purpose, key: None }, Ok(conn)) => (
            s,
            probe(purpose, conn, false),
        ),
        (step::AfterOpenView::Create { file, key }, Err(e)) => create_failed(
            s,
            ErrCode::Unavailable,
            "open failed: "@ + e,
            None,
        ),
        (step::AfterOpenView::Create { file, key: Some(key) }, Ok(conn)) => (
            s,
            set_key(conn, key, step::AfterRunView::CreateKeyed { file, conn }),
        ),
        (step::AfterOpenView::Create { file, key: None }, Ok(conn)) => (
            s,
            write_new(file, conn, false),
        ),
    }
}

/// What follows the setting of a session's key.
pub open spec fn after_key(
    s: service::ServiceView,
    purpose: step::PurposeView,
    conn: u64,
    reply: Result<(), Seq<char>>,
) -> (service::ServiceView, step::StepView) {
    match reply {
        Err(e) => session_failed(s, purpose, "set key failed: "@ + e, Some(conn)),
        Ok(_) => (s, probe(purpose, conn, true)),
    }
}

/// What follows the probe of a session.
pub open spec fn after_probe(
    s: service::ServiceView,
    purpose: step::PurposeView,
    conn: u64,
    encrypted: bool,
    reply: Result<(), Seq<char>>,
) -> (service::ServiceView, step::StepView) {
    match reply {
        Err(e) => session_failed(
            s,
            purpose,
            "cannot read database (wrong key or not a database): "@ + e,
            Some(conn),
        ),
        Ok(_) => (
            s,
            step::StepView::ReadText {
                conn,
                sql: version_sql(),
                bind: Seq::empty(),
                then: step::AfterReadTextView::Version { purpose, conn, encrypted },
            },
        ),
    }
}

/// The version that is told: `unknown` where none could be read.
pub open spec fn version_of(reply: Result<Option<Seq<char>>, Seq<char>>) -> Seq<char> {
    match reply {
        Ok(Some(v)) => v,
        _ => "unknown"@,
    }
}

/// What `db-connect` tells of a connection.
pub open spec fn connected_json(
    profile: Seq<char>,
    version: Seq<char>,
    encrypted: bool,
) -> json::JsonView {
    json::JsonView::Object(
        seq![
            ("profile"@, json::JsonView::Text(profile)),
            ("dialect"@, json::JsonView::Text("sqlite"@)),
            ("version"@, json::JsonView::Text(version)),
            ("encrypted"@, json::JsonView::Bool(encrypted)),
        ],
    )
}

/// What `db-test` tells of a file.
pub open spec fn tested_json(
    file: Seq<char>,
    version: Seq<char>,
    encrypted: bool,
) -> json::JsonView {
    json::JsonView::Object(
        seq![
            ("dialect"@, json::JsonView::Text("sqlite"@)),
            ("version"@, json::JsonView::Text(version)),
            ("file"@, json::JsonView::Text(file)),
            ("encrypted"@, json::JsonView::Bool(encrypted)),
        ],
    )
}

/// What `ping` tells of the driver.
pub open spec fn driver_json(version: Seq<char>) -> json::JsonView {
    json::JsonView::Object(
        seq![
            ("dialect"@, json::JsonView::Text("sqlite"@)),
            ("version"@, json::JsonView::Text(version)),
        ],
    )
}

/// What `db-create` tells of a new database.
pub open spec fn created_json(file: Seq<char>, encrypted: bool) -> json::JsonView {
    json::JsonView::Object(
        seq![
            ("file"@, json::JsonView::Text(file)),
            ("dialect"@, json::JsonView::Text("sqlite"@)),
            ("encrypted"@, json::JsonView::Bool(encrypted)),
        ],
    )
}

/// What follows the reading of the version: a connection is held from here on, and the
/// database that it takes the place of is closed; a probed file is closed again.
pub open spec fn after_version(
    s: service::ServiceView,
    purpose: step::PurposeView,
    conn: u64,
    encrypted: bool,
    reply: Result<Option<Seq<char>>, Seq<char>>,
) -> (service::ServiceView, step::StepView) {
    match purpose {
        step::PurposeView::Connect(profile) => (
            s.holding(profile, conn).audited(profile, "db-connect"@, true, 0),
            step::StepView::Done {
                outcome: outcome::success_with(
                    connected_json(profile, version_of(reply), encrypted),
                    "connected: "@ + profile,
                ),
                close: s.conn_of(profile),
            },
        ),
        step::PurposeView::Test(file) => (
            s.audited(""@, "db-test"@, true, 0),
            step::StepView::Done {
                outcome: outcome::success_with(
                    tested_json(file, version_of(reply), encrypted),
                    "connection ok"@,
                ),
                close: Some(conn),
            },
        ),
        step::PurposeView::Ping => (
            s.audited(""@, "ping"@, true, 0),
            step::StepView::Done {
                outcome: outcome::success(driver_json(version_of(reply))),
                close: Some(conn),
            },
        ),
    }
}

/// What follows the setting of a new database's key.
pub open spec fn after_create_key(
    s: service::ServiceView,
    file: Seq<char>,
    conn: u64,
    reply: Result<(), Seq<char>>,
) -> (service::ServiceView, step::StepView) {
    match reply {
        Err(e) => create_failed(
            s,
            ErrCode::Unavailable,
            "set key failed: "@ + e,
            Some(conn),
        ),
        Ok(_) => (s, write_new(file, conn, true)),
    }
}

/// What follows the first write to a new database.
pub open spec fn after_create(
    s: service::ServiceView,
    file: Seq<char>,
    conn: u64,
    encrypted: bool,
    reply: Result<(), Seq<char>>,
) -> (service::ServiceView, step::StepView) {
    match reply {
        Err(e) => create_failed(s, ErrCode::Internal, "create failed: "@ + e, Some(conn)),
        Ok(_) => (
            s.audited(""@, "db-create"@, true, 0),
            step::StepView::Done {
                outcome: outcome::success_with(
                    created_json(file, encrypted),
                    "database created"@,
                ),
                close: Some(conn),
            },
        ),
    }
}

/// What follows the change of a key.
pub open spec fn after_rekey(
    s: service::ServiceView,
    profile: Seq<char>,
    reply: Result<(), Seq<char>>,
) -> (service::ServiceView, step::StepView) {
    match reply {
        Err(e) => (
            s.audited(profile, "db-rekey"@, false, 0),
            step::failed(ErrCode::Internal, "rekey failed: "@ + e),
        ),
        Ok(_) => (
            s.audited(profile, "db-rekey"@, true, 0),
            step::StepView::Done {
                outcome: outcome::success_with(
                    json::JsonView::Object(
                        seq![
                            ("profile"@, json::JsonView::Text(profile)),
                            ("rekeyed"@, json::JsonView::Bool(true)),
                        ],
                    ),
                    "key rotated"@,
                ),
                close: None,
            },
        ),
    }
}

/// What `db-disconnect` does.
pub open spec fn disconnect(
    s: service::ServiceView,
    params: json::JsonView,
) -> (service::ServiceView, step::StepView) {
    match params.text_at("profile"@) {
        None => (s, step::failed(ErrCode::InvalidParams, "profile required"@)),
        Some(profile) => (
            s.without(profile).audited(profile, "db-disconnect"@, true, 0),
            step::StepView::Done {
                outcome: outcome::success(
                    json::JsonView::Object(
                        seq![
                            ("profile"@, json::JsonView::Text(profile)),
                            ("closed"@, json::JsonView::Bool(s.conns.contains_key(profile))),
                        ],
                    ),
                ),
                close: s.conn_of(profile),
            },
        ),
    }
}

/// A list of texts as JSON.
pub open spec fn text_list(names: Seq<Seq<char>>) -> json::JsonView {
    json::JsonView::Array(names.map_values(|n: Seq<char>| json::JsonView::Text(n)))
}

/// What `db-status` answers: the profiles that hold a database, in order.
pub open spec fn status(s: service::ServiceView) -> (service::ServiceView, step::StepView) {
    let names = order::listing(s.conns.dom());
    let end = step::StepView::Done {
        outcome: outcome::success(
            json::JsonView::Object(
                seq![
                    ("connections"@, text_list(names)),
                    (
                        "count"@,
                        json::JsonView::Number(json::NumberView::Unsigned(names.len() as u64)),
                    ),
                ],
            ),
        ),
        close: None,
    };
    (s.audited(""@, "db-status"@, true, 0), end)
}

/// What `db-audit` answers: the newest records, newest first.
pub open spec fn read_audit(s: service::ServiceView, params: json::JsonView) -> step::StepView {
    let records = audit::at_most(
        audit::newest_first(s.audit, params.text_at("profile"@)),
        params.unsigned_at("limit"@),
    );
    step::StepView::Done {
        outcome: outcome::success(
            json::JsonView::Object(
                seq![
                    (
                        "entries"@,
                        json::JsonView::Array(
                            records.map_values(|e: audit::AuditView| audit::record_json(e)),
                        ),
                    ),
                    (
                        "count"@,
                        json::JsonView::Number(json::NumberView::Unsigned(records.len() as u64)),
                    ),
                ],
            ),
        ),
        close: None,
    }
}

fn file_param(params: &Json) -> (r: String)
    ensures
        r@ == file_of(params@),
{
    match params.text_at("file") {
        Some(f) => f,
        None => ":memory:".to_owned(),
    }
}

fn send_key(conn: u64, key: String, then: AfterRun) -> (r: Step)
    ensures
        r@ == set_key(conn, key@, then@),
{
    Step::Run { conn, command: Command::Pragma { name: "key".to_owned(), value: key }, then }
}

fn send_probe(purpose: Purpose, conn: u64, encrypted: bool) -> (r: Step)
    ensures
        r@ == probe(purpose@, conn, encrypted),
{
    Step::Run {
        conn,
        command: Command::ReadInt { sql: "SELECT count(*) FROM sqlite_master".to_owned() },
        then: AfterRun::Probed { purpose, conn, encrypted },
    }
}

fn send_write(file: String, conn: u64, encrypted: bool) -> (r: Step)
    ensures
        r@ == write_new(file@, conn, encrypted),
{
    Step::Run {
        conn,
        command: Command::Batch { sql: "PRAGMA user_version = 1;".to_owned() },
        then: AfterRun::Created { file, conn, encrypted },
    }
}

/// `db-test`: opens a file, applies the key, probes it, reads the version of the
/// database library, and closes it again. Nothing is held.
pub fn op_db_test(params: &Json) -> (r: Step)
    ensures
        r@ == test_start(params@),
{
    let file = file_param(params);
    Step::Open {
        file: file.clone(),
        then: AfterOpen::Session { purpose: Purpose::Test(file), key: params.text_at("key") },
    }
}

/// `ping`: sees that the driver answers, and which it is.
pub fn op_ping() -> (r: Step)
    ensures
        r@ == ping_start(),
{
    Step::Open {
        file: ":memory:".to_owned(),
        then: AfterOpen::Session { purpose: Purpose::Ping, key: None },
    }
}

/// A list of strings as JSON.
pub fn string_list(names: Vec<String>) -> (r: Json)
    ensures
        r@ == text_list(text::texts(names@)),
{
    broadcast use json::lemma_array_view;

    let mut out: Vec<Json> = Vec::new();
    let mut i: usize = 0;
    while i < names.len()
        invariant
            i <= names.len(),
            out@.len() == i,
            forall|k: int|
                0 <= k < i ==> (#[trigger] out@[k])@ == json::JsonView::Text(names@[k]@),
        decreases names.len() - i,
    {
        out.push(Json::Text(names[i].clone()));
        i += 1;
    }
    assert(json::items_view(out@) =~= text_list(text::texts(names@))->Array_0);
    Json::Array(out)
}

/// A count as JSON.
pub fn count(n: usize) -> (r: Json)
    ensures
        r@ == json::JsonView::Number(json::NumberView::Unsigned(n as u64)),
{
    Json::Number(Number::Unsigned(n as u64))
}

impl DbStudioService {
    /// `db-connect`: opens a database and holds it under a profile. A key, where one is
    /// given, is set before anything else; a wrong or missing key fails here.
    pub fn db_connect(&self, params: &Json) -> (r: Step)
        ensures
            r@ == connect_start(params@),
    {
        let profile = match params.text_at("profile") {
            Some(p) => p,
            None => return step::fail_with(ErrCode::InvalidParams, "profile required"),
        };
        Step::Open {
            file: file_param(params),
            then: AfterOpen::Session {
                purpose: Purpose::Connect(profile),
                key: params.text_at("key"),
            },
        }
    }

    /// `db-create`: creates a database, encrypted where a key is given.
    pub fn db_create(&self, params: &Json) -> (r: Step)
        ensures
            r@ == create_start(params@),
    {
        let file = match params.text_at("file") {
            Some(f) => f,
            None => return step::fail_with(ErrCode::InvalidParams, "file required"),
        };
        Step::Open {
            file: file.clone(),
            then: AfterOpen::Create { file, key: params.text_at("key") },
        }
    }

    /// `db-rekey`: changes the key of a held database.
    pub fn db_rekey(&self, params: &Json) -> (r: Step)
        requires
            self.wf(),
        ensures
            r@ == rekey_start(self@, params@),
    {
        let profile = match params.text_at("profile") {
            Some(p) => p,
            None => return step::fail_with(ErrCode::InvalidParams, "profile required"),
        };
        let key = match params.text_at("newKey") {
            Some(k) => k,
            None => return step::fail_with(ErrCode::InvalidParams, "newKey required"),
        };
        match self.conn_of(profile.as_str()) {
            None => step::fail(
                ErrCode::Unavailable,
                text::joined("profile not connected: ", profile.as_str()),
            ),
            Some(conn) => Step::Run {
                conn,
                command: Command::Pragma { name: "rekey".to_owned(), value: key },
                then: AfterRun::Rekeyed { profile },
            },
        }
    }

    /// `db-disconnect`: lets go of the database of a profile.
    pub fn db_disconnect(&mut self, params: &Json) -> (r: Step)
        requires
            old(self).wf(),
        ensures
            final(self).wf(),
            (final(self)@, r@) == disconnect(old(self)@, params@),
    {
        broadcast use json::lemma_object_view;

        let profile = match params.text_at("profile") {
            Some(p) => p,
            None => return step::fail_with(ErrCode::InvalidParams, "profile required"),
        };
        let close = self.release(profile.as_str());
        self.audit_append(profile.as_str(), "db-disconnect", true, 0);
        let mut o: Vec<(String, Json)> = Vec::new();
        json::put(&mut o, "profile", Json::Text(profile.clone()));
        json::put(&mut o, "closed", Json::Bool(close.is_some()));
        assert(json::entries_view(o@) =~= seq![
            ("profile"@, json::JsonView::Text(profile@)),
            ("closed"@, json::JsonView::Bool(close is Some)),
        ]);
        Step::Done { outcome: Outcome::ok(Json::Object(o)), close }
    }

    /// `db-status`: lists the profiles that hold a database.
    pub fn db_status(&mut self) -> (r: Step)
        requires
            old(self).wf(),
        ensures
            final(self).wf(),
            (final(self)@, r@) == status(old(self)@),
    {
        broadcast use json::lemma_object_view;

        let names = self.connected();
        let n = names.len();
        let mut o: Vec<(String, Json)> = Vec::new();
        json::put(&mut o, "connections", string_list(names));
        json::put(&mut o, "count", count(n));
        let ghost listed = order::listing(old(self)@.conns.dom());
        self.audit_append("", "db-status", true, 0);
        assert(json::entries_view(o@) =~= seq![
            ("connections"@, text_list(listed)),
            (
                "count"@,
                json::JsonView::Number(json::NumberView::Unsigned(listed.len() as u64)),
            ),
        ]);
        Step::Done { outcome: Outcome::ok(Json::Object(o)), close: None }
    }

    /// `db-audit`: the newest records of the audit, of one profile or of all. The audit
    /// is only read.
    pub fn db_audit(&self, params: &Json) -> (r: Step)
        ensures
            r@ == read_audit(self@, params@),
    {
        broadcast use {json::lemma_object_view, json::lemma_array_view};

        let profile = params.text_at("profile");
        assert(text::opt_text(profile) == params@.text_at("profile"@));
        let entries = self.records(&profile, params.unsigned_at("limit"));
        let n = entries.len();
        let ghost records = audit::at_most(
            audit::newest_first(self@.audit, params@.text_at("profile"@)),
            params@.unsigned_at("limit"@),
        );
        assert(n == records.len()) by {
            assert(json::items_view(entries@).len() == n);
        }
        let mut o: Vec<(String, Json)> = Vec::new();
        json::put(&mut o, "entries", Json::Array(entries));
        json::put(&mut o, "count", count(n));
        assert(json::entries_view(o@) =~= seq![
            (
                "entries"@,
                json::JsonView::Array(
                    records.map_values(|e: audit::AuditView| audit::record_json(e)),
                ),
            ),
            (
                "count"@,
                json::JsonView::Number(json::NumberView::Unsigned(records.len() as u64)),
            ),
        ]);
        Step::Done { outcome: Outcome::ok(Json::Object(o)), close: None }
    }

    fn fail_session(&mut self, purpose: Purpose, message: String, close: Option<u64>) -> (r: Step)
        requires
            old(self).wf(),
        ensures
            final(self).wf(),
            (final(self)@, r@) == session_failed(old(self)@, purpose@, message@, close),
    {
        match purpose {
            Purpose::Connect(profile) => {
                self.audit_append(profile.as_str(), "db-connect", false, 0);
            },
            Purpose::Test(_) => {
                self.audit_append("", "db-test", false, 0);
            },
            Purpose::Ping => {
                self.audit_append("", "ping", false, 0);
            },
        }
        Step::Done { outcome: Outcome::err(ErrCode::Unavailable, message), close }
    }

    fn fail_create(&mut self, code: ErrCode, message: String, close: Option<u64>) -> (r: Step)
        requires
            old(self).wf(),
        ensures
            final(self).wf(),
            (final(self)@, r@) == create_failed(old(self)@, code, message@, close),
    {
        self.audit_append("", "db-create", false, 0);
        Step::Done { outcome: Outcome::err(code, message), close }
    }

    /// Goes on once a file was opened, or could not be.
    pub fn after_open(&mut self, then: AfterOpen, reply: Result<u64, String>) -> (r: Step)
        requires
            old(self).wf(),
        ensures
            final(self).wf(),
            (final(self)@, r@) == after_open(old(self)@, then@, step::reply_view(reply)),
    {
        match then {
            AfterOpen::Session { purpose, key } => match reply {
                Err(e) => self.fail_session(
                    purpose,
                    text::joined("open failed: ", e.as_str()),
                    None,
                ),
                Ok(conn) => match key {
                    Some(key) => send_key(conn, key, AfterRun::Keyed { purpose, conn }),
                    None => send_probe(purpose, conn, false),
                },
            },
            AfterOpen::Create { file, key } => match reply {
                Err(e) => self.fail_create(
                    ErrCode::Unavailable,
                    text::joined("open failed: ", e.as_str()),
                    None,
                ),
                Ok(conn) => match key {
                    Some(key) => send_key(conn, key, AfterRun::CreateKeyed { file, conn }),
                    None => send_write(file, conn, false),
                },
            },
        }
    }

    /// Goes on once the key of a session was set.
    pub fn after_key(&mut self, purpose: Purpose, conn: u64, reply: Result<(), String>) -> (r: Step)
        requires
            old(self).wf(),
        ensures
            final(self).wf(),
            (final(self)@, r@) == after_key(old(self)@, purpose@, conn, step::reply_view(reply)),
    {
        match reply {
            Err(e) => self.fail_session(
                purpose,
                text::joined("set key failed: ", e.as_str()),
                Some(conn),
            ),
            Ok(_) => send_probe(purpose, conn, true),
        }
    }

    /// Goes on once a session was probed.
    pub fn after_probe(
        &mut self,
        purpose: Purpose,
        conn: u64,
        encrypted: bool,
        reply: Result<(), String>,
    ) -> (r: Step)
        requires
            old(self).wf(),
        ensures
            final(self).wf(),
            (final(self)@, r@) == after_probe(
                old(self)@,
                purpose@,
                conn,
                encrypted,
                step::reply_view(reply),
            ),
    {
        match reply {
            Err(e) => self.fail_session(
                purpose,
                text::joined("cannot read database (wrong key or not a database): ", e.as_str()),
                Some(conn),
            ),
            Ok(_) => {
                let bind: Vec<crate::value::SqlValue> = Vec::new();
                assert(crate::value::bind_view(bind@) =~= Seq::empty());
                Step::ReadText {
                    conn,
                    sql: "SELECT sqlite_version()".to_owned(),
                    bind,
                    then: AfterReadText::Version { purpose, conn, encrypted },
                }
            },
        }
    }

    /// Goes on once the version was read: holds the connection, or ends the probe.
    pub fn after_version(
        &mut self,
        purpose: Purpose,
        conn: u64,
        encrypted: bool,
        reply: Result<Option<String>, String>,
    ) -> (r: Step)
        requires
            old(self).wf(),
        ensures
            final(self).wf(),
            (final(self)@, r@) == after_version(
                old(self)@,
                purpose@,
                conn,
                encrypted,
                step::text_reply_view(reply),
            ),
    {
        broadcast use json::lemma_object_view;

        let version: String = match reply {
            Ok(Some(v)) => v,
            _ => "unknown".to_owned(),
        };
        let ghost told = version@;
        let mut o: Vec<(String, Json)> = Vec::new();
        match purpose {
            Purpose::Connect(profile) => {
                json::put(&mut o, "profile", Json::Text(profile.clone()));
                json::put(&mut o, "dialect", Json::Text("sqlite".to_owned()));
                json::put(&mut o, "version", Json::Text(version));
                json::put(&mut o, "encrypted", Json::Bool(encrypted));
                assert(json::entries_view(o@) =~= connected_json(
                    profile@,
                    told,
                    encrypted,
                )->Object_0);
                let message = text::joined("connected: ", profile.as_str());
                let close = self.hold(profile.clone(), conn);
                self.audit_append(profile.as_str(), "db-connect", true, 0);
                Step::Done { outcome: Outcome::ok_msg(Json::Object(o), message), close }
            },
            Purpose::Test(file) => {
                json::put(&mut o, "dialect", Json::Text("sqlite".to_owned()));
                json::put(&mut o, "version", Json::Text(version));
                json::put(&mut o, "file", Json::Text(file.clone()));
                json::put(&mut o, "encrypted", Json::Bool(encrypted));
                assert(json::entries_view(o@) =~= tested_json(file@, told, encrypted)->Object_0);
                self.audit_append("", "db-test", true, 0);
                Step::Done {
                    outcome: Outcome::ok_msg(Json::Object(o), "connection ok".to_owned()),
                    close: Some(conn),
                }
            },
            Purpose::Ping => {
                json::put(&mut o, "dialect", Json::Text("sqlite".to_owned()));
                json::put(&mut o, "version", Json::Text(version));
                assert(json::entries_view(o@) =~= driver_json(told)->Object_0);
                self.audit_append("", "ping", true, 0);
                Step::Done { outcome: Outcome::ok(Json::Object(o)), close: Some(conn) }
            },
        }
    }

    /// Goes on once the key of a new database was set.
    pub fn after_create_key(
        &mut self,
        file: String,
        conn: u64,
        reply: Result<(), String>,
    ) -> (r: Step)
        requires
            old(self).wf(),
        ensures
            final(self).wf(),
            (final(self)@, r@) == after_create_key(
                old(self)@,
                file@,
                conn,
                step::reply_view(reply),
            ),
    {
        match reply {
            Err(e) => self.fail_create(
                ErrCode::Unavailable,
                text::joined("set key failed: ", e.as_str()),
                Some(conn),
            ),
            Ok(_) => send_write(file, conn, true),
        }
    }

    /// Goes on once a new database was written.
    pub fn after_create(
        &mut self,
        file: String,
        conn: u64,
        encrypted: bool,
        reply: Result<(), String>,
    ) -> (r: Step)
        requires
            old(self).wf(),
        ensures
            final(self).wf(),
            (final(self)@, r@) == after_create(
                old(self)@,
                file@,
                conn,
                encrypted,
                step::reply_view(reply),
            ),
    {
        broadcast use json::lemma_object_view;

        match reply {
            Err(e) => self.fail_create(
                ErrCode::Internal,
                text::joined("create failed: ", e.as_str()),
                Some(conn),
            ),
            Ok(_) => {
                self.audit_append("", "db-create", true, 0);
                let mut o: Vec<(String, Json)> = Vec::new();
                json::put(&mut o, "file", Json::Text(file.clone()));
                json::put(&mut o, "dialect", Json::Text("sqlite".to_owned()));
                json::put(&mut o, "encrypted", Json::Bool(encrypted));
                assert(json::entries_view(o@) =~= created_json(file@, encrypted)->Object_0);
                Step::Done {
                    outcome: Outcome::ok_msg(Json::Object(o), "database created".to_owned()),
                    close: Some(conn),
                }
            },
        }
    }

    /// Goes on once a key was changed.
    pub fn after_rekey(&mut self, profile: String, reply: Result<(), String>) -> (r: Step)
        requires
            old(self).wf(),
        ensures
            final(self).wf(),
            (final(self)@, r@) == after_rekey(old(self)@, profile@, step::reply_view(reply)),
    {
        broadcast use json::lemma_object_view;

        match reply {
            Err(e) => {
                self.audit_append(profile.as_str(), "db-rekey", false, 0);
                step::fail(ErrCode::Internal, text::joined("rekey failed: ", e.as_str()))
            },
            Ok(_) => {
                self.audit_append(profile.as_str(), "db-rekey", true, 0);
                let mut o: Vec<(String, Json)> = Vec::new();
                json::put(&mut o, "profile", Json::Text(profile.clone()));
                json::put(&mut o, "rekeyed", Json::Bool(true));
                assert(json::entries_view(o@) =~= seq![
                    ("profile"@, json::JsonView::Text(profile@)),
                    ("rekeyed"@, json::JsonView::Bool(true)),
                ]);
                Step::Done {
                    outcome: Outcome::ok_msg(Json::Object(o), "key rotated".to_owned()),
                    close: None,
                }
            },
        }
    }
}

} // verus!
