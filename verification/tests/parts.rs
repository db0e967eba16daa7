//! The parts of the library on plain values.
use soksak_sidecar_db_studio::audit::{select, AuditEntry};
use soksak_sidecar_db_studio::clock::{civil_from_days, rfc3339, rfc3339_now};
use soksak_sidecar_db_studio::gate::{
    classify_gate, rule_applies, Environment, GateAction, GateInput, GateProfile, OpClass, Rule,
    RuleMatch, RuleProfileMatch, RulesTable,
};
use soksak_sidecar_db_studio::json::{write_compact, Double, Json, Number};
use soksak_sidecar_db_studio::mask::{is_sensitive, mask_row, sensitive_columns};
use soksak_sidecar_db_studio::order::is_before;
use soksak_sidecar_db_studio::outcome::{ErrCode, Outcome};
use soksak_sidecar_db_studio::sql::{
    contains_keyword, has_multiple_statements, is_ident_char, is_select, is_where_less_mutation,
    leading_keyword, quote_ident,
};
use soksak_sidecar_db_studio::text::{decimal_text, pad_zeros, signed_decimal_text};
use soksak_sidecar_db_studio::value::{json_to_sql_value, value_ref_to_json, Cell, SqlValue};

#[test]
fn statements_are_counted_outside_quotes() {
    assert!(!has_multiple_statements(""));
    assert!(!has_multiple_statements(" ;; \n;"));
    assert!(!has_multiple_statements("SELECT 1;"));
    assert!(!has_multiple_statements("SELECT 1 ; ;\t"));
    assert!(has_multiple_statements("SELECT 1; SELECT 2"));
    assert!(has_multiple_statements("; SELECT 1"));
    assert!(!has_multiple_statements("SELECT ';' || \";\""));
    assert!(!has_multiple_statements("SELECT '\";' "));
    assert!(!has_multiple_statements("SELECT 'it''s; fine'"));
    assert!(has_multiple_statements("SELECT 'a'; 'b;'"));
    // a no-break space is whitespace
    assert!(!has_multiple_statements("SELECT 1;\u{a0}"));
    assert!(has_multiple_statements("SELECT 1;\u{200b}"));
}

#[test]
fn comments_hold_no_statement() {
    assert!(has_multiple_statements("SELECT 1 -- it's\n; DROP TABLE users"));
    assert!(has_multiple_statements("SELECT 1 /* it's */; DROP TABLE users"));
    assert!(!has_multiple_statements("SELECT 1 -- ; DROP TABLE users"));
    assert!(!has_multiple_statements("SELECT 1; -- done"));
    assert!(!has_multiple_statements("SELECT 1; /* ; done */ ;"));
    assert!(!has_multiple_statements("SELECT 1 /*/ ; still */"));
    assert!(has_multiple_statements("SELECT 1 /**/ ; x"));
    assert!(has_multiple_statements("SELECT 1; - 1"));
    assert!(has_multiple_statements("SELECT '--'; x"));
    assert!(has_multiple_statements("SELECT 1; /"));
    assert!(!has_multiple_statements("SELECT `;` AS [;]"));
    assert!(has_multiple_statements("SELECT [a'b]; x"));
}

#[test]
fn keywords_stand_alone_and_outside_quotes() {
    assert_eq!(leading_keyword("  \n DeLeTe FROM t"), "delete");
    assert_eq!(leading_keyword("/* x */ DELETE"), "");
    assert_eq!(leading_keyword("\u{a0}update_x y"), "update_x");
    assert!(contains_keyword("a WHERE b", "where"));
    assert!(contains_keyword("where", "where"));
    assert!(contains_keyword("(WhErE)", "where"));
    assert!(!contains_keyword("nowhere", "where"));
    assert!(!contains_keyword("where_x", "where"));
    assert!(!contains_keyword("whereé", "where"));
    assert!(!contains_keyword("'where'", "where"));
    assert!(!contains_keyword("\"where\"", "where"));
    assert!(contains_keyword("'x' where", "where"));
    assert!(!contains_keyword("`where` [where]", "where"));
    assert!(!contains_keyword("-- where", "where"));
    assert!(contains_keyword("-- x\nwhere", "where"));
    assert!(!contains_keyword("/* where */", "where"));
    assert!(contains_keyword("/* */where/* */", "where"));
    assert!(!contains_keyword(":where @where $where #where where$", "where"));
    assert!(contains_keyword("a=1 where:x", "where"));
    assert!(is_ident_char('_') && is_ident_char('é') && is_ident_char('9'));
    assert!(!is_ident_char('-') && !is_ident_char(' '));
}

#[test]
fn whole_table_changes_are_seen() {
    assert!(is_where_less_mutation("DELETE FROM t"));
    assert!(is_where_less_mutation("UPDATE t SET x = 'where'"));
    assert!(is_where_less_mutation("UPDATE t SET \"where\" = 1"));
    assert!(!is_where_less_mutation("UPDATE t SET x = 1 WHERE y = 2"));
    assert!(!is_where_less_mutation("INSERT INTO t VALUES(1)"));
    assert!(!is_where_less_mutation("deleted"));
    assert!(is_where_less_mutation("DELETE FROM users -- where"));
    assert!(is_where_less_mutation("/* x */ DELETE FROM users"));
    assert!(is_where_less_mutation("\u{feff} DELETE FROM users"));
    assert!(is_where_less_mutation(" -- a\n /* b */ -- c\nupdate t set x = 1"));
    assert!(is_where_less_mutation("DELETE FROM `where`"));
    assert!(is_where_less_mutation("DELETE FROM [where]"));
    assert!(is_where_less_mutation("UPDATE t SET a = (SELECT 1 WHERE 0)"));
    assert!(is_where_less_mutation("WITH x AS (SELECT 1 WHERE 1) DELETE FROM t"));
    assert!(is_where_less_mutation("with recursive \"delete\"(a) as (select 1) update t set a = 1"));
    assert!(!is_where_less_mutation("WITH x AS (SELECT 1) DELETE FROM t WHERE id = 1"));
    assert!(!is_where_less_mutation("WITH x AS (DELETE) SELECT * FROM x"));
    assert!(!is_where_less_mutation("WITH x AS (SELECT 1) INSERT INTO t SELECT * FROM x ON CONFLICT DO UPDATE SET a = 1"));
    assert!(!is_where_less_mutation("UPDATE t SET a = (1) WHERE (b = 2)"));
    assert!(!is_where_less_mutation("-- DELETE FROM t"));
    assert!(!is_where_less_mutation(""));
}

#[test]
fn comments_count_as_spaces() {
    for (with, without) in [
        ("DELETE/* ( */FROM t -- where\n", "DELETE       FROM t         "),
        ("SELECT 1;/* ; ' */", "SELECT 1;         "),
        ("UPDATE t SET a=1/**/WHERE b=2", "UPDATE t SET a=1    WHERE b=2"),
        ("/* delete */ SELECT '--'", "             SELECT '--'"),
    ] {
        assert_eq!(has_multiple_statements(with), has_multiple_statements(without), "{with}");
        assert_eq!(is_where_less_mutation(with), is_where_less_mutation(without), "{with}");
        assert_eq!(is_select(with), is_select(without), "{with}");
    }
}

#[test]
fn values_read_back_as_they_were_bound() {
    let kept = |v: SqlValue| match v {
        SqlValue::Null => Cell::Null,
        SqlValue::Integer(n) => Cell::Integer(n),
        SqlValue::Real(bits) => Cell::Real(Double { bits, literal: "2.5".to_string() }),
        SqlValue::NearestReal(n) => panic!("{n}"),
        SqlValue::Text(s) => Cell::Text(s.into_bytes()),
    };
    for v in [
        Json::Null,
        Json::Number(Number::Unsigned(i64::MAX as u64)),
        Json::Number(Number::Negative(i64::MIN)),
        Json::Number(Number::Float(Double { bits: 2.5f64.to_bits(), literal: "2.5".to_string() })),
        text("a\u{e9}\u{1f600}\0"),
    ] {
        let back = value_ref_to_json(&kept(json_to_sql_value(&v)));
        assert_eq!(write_compact(&back), write_compact(&v));
    }
    let truth = value_ref_to_json(&kept(json_to_sql_value(&Json::Bool(true))));
    assert_eq!(write_compact(&truth), "1");
}

#[test]
fn selects_are_told_from_the_rest() {
    assert!(is_select("SELECT 1"));
    assert!(is_select("-- x\n  select 1"));
    assert!(is_select("VALUES (1)"));
    assert!(is_select("WITH x AS (SELECT 1) SELECT * FROM x"));
    assert!(!is_select("WITH x AS (SELECT 1) DELETE FROM t"));
    assert!(!is_select("DELETE FROM t"));
    assert!(!is_select("BEGIN"));
    assert!(!is_select("selection"));
    assert!(!is_select(""));
}

#[test]
fn identifiers_are_quoted() {
    assert_eq!(quote_ident("users"), "\"users\"");
    assert_eq!(quote_ident("a\"b"), "\"a\"\"b\"");
    assert_eq!(quote_ident(""), "\"\"");
}

#[test]
fn sensitive_names_are_found_in_any_case() {
    for name in [
        "password", "PASSWD", "Pwd", "hash", "salt", "ssn", "token", "secret", "cvv", "iban",
        "auth", "apikey", "API_KEY", "accessKey", "access_key", "privatekey", "private_key",
        "creditcard", "credit_card", "cardnumber", "card_number", "user_password_old",
    ] {
        assert!(is_sensitive(name), "{name}");
    }
    for name in ["", "email", "pass", "api-key", "api__key", "card", "key"] {
        assert!(!is_sensitive(name), "{name}");
    }
}

fn texts(names: &[&str]) -> Vec<String> {
    names.iter().map(|s| s.to_string()).collect()
}

#[test]
fn sensitive_cells_are_masked() {
    let names = texts(&["id", "token", "note"]);
    let masked = sensitive_columns(&names);
    assert_eq!(masked, vec![false, true, false]);
    let row = mask_row(&names, &masked, &vec![Some(Cell::Integer(4)), Some(Cell::Integer(5)), None]);
    assert_eq!(write_compact(&row), "[4,\"<redacted:token>\",null]");
    let other = mask_row(&names, &masked, &vec![Some(Cell::Integer(4)), None, None]);
    assert_eq!(write_compact(&row), write_compact(&other));
}

#[test]
fn days_become_dates() {
    assert_eq!(civil_from_days(0), (1970, 1, 1));
    assert_eq!(civil_from_days(-1), (1969, 12, 31));
    assert_eq!(civil_from_days(59), (1970, 3, 1));
    assert_eq!(civil_from_days(11_016), (2000, 2, 29));
    assert_eq!(civil_from_days(-719_468), (0, 3, 1));
    assert_eq!(civil_from_days(-719_469), (0, 2, 29));
    assert_eq!(civil_from_days(19_782), (2024, 2, 29));
    assert_eq!(civil_from_days(-141_427), (1582, 10, 15));
}

#[test]
fn instants_become_stamps() {
    assert_eq!(rfc3339(0), "1970-01-01T00:00:00Z");
    assert_eq!(rfc3339(951_827_696), "2000-02-29T12:34:56Z");
    assert_eq!(rfc3339(253_402_300_799), "9999-12-31T23:59:59Z");
    assert_eq!(rfc3339(253_402_300_800), "10000-01-01T00:00:00Z");
    assert!(is_before(&rfc3339(951_827_695), &rfc3339(951_827_696)));
    assert!(is_before(&rfc3339(951_868_799), &rfc3339(951_868_800)));
    // the texts of later years are longer and no longer in order
    assert!(!is_before(&rfc3339(253_402_300_799), &rfc3339(253_402_300_800)));
}

#[test]
fn the_clock_stands_in_this_century() {
    let now = rfc3339_now();
    assert_eq!(now.len(), 20);
    assert!(now.starts_with("20") && now.ends_with('Z'));
    assert!(is_before("2024-01-01T00:00:00Z", &now));
}

#[test]
fn numbers_are_written_in_decimal() {
    assert_eq!(decimal_text(0), "0");
    assert_eq!(decimal_text(u64::MAX), "18446744073709551615");
    assert_eq!(signed_decimal_text(i64::MIN), "-9223372036854775808");
    assert_eq!(signed_decimal_text(-7), "-7");
    assert_eq!(signed_decimal_text(7), "7");
    assert_eq!(pad_zeros("7".to_string(), 4), "0007");
    assert_eq!(pad_zeros("12345".to_string(), 4), "12345");
}

#[test]
fn texts_are_ordered_character_by_character() {
    assert!(is_before("", "a"));
    assert!(is_before("a", "ab"));
    assert!(is_before("Z", "a"));
    assert!(is_before("z", "é"));
    assert!(!is_before("a", "a"));
    assert!(!is_before("b", "ab"));
}

fn text(s: &str) -> Json {
    Json::Text(s.to_string())
}

#[test]
fn json_is_written_without_whitespace() {
    let v = Json::Object(vec![
        ("a".to_string(), Json::Array(vec![Json::Null, Json::Bool(true), Json::Bool(false)])),
        ("b\n".to_string(), text("\"\\\u{8}\t\n\u{c}\r\u{1}\u{1f}/é\u{7f}")),
        ("c".to_string(), Json::Number(Number::Negative(-1))),
        ("d".to_string(), Json::Array(vec![])),
        ("e".to_string(), Json::Object(vec![])),
    ]);
    assert_eq!(
        write_compact(&v),
        "{\"a\":[null,true,false],\"b\\n\":\"\\\"\\\\\\b\\t\\n\\f\\r\\u0001\\u001f/é\u{7f}\",\"c\":-1,\"d\":[],\"e\":{}}"
    );
    let parsed: serde_json::Value = serde_json::from_str(&write_compact(&v)).unwrap();
    assert_eq!(parsed["a"][1], true);
    assert_eq!(parsed["b\n"], "\"\\\u{8}\t\n\u{c}\r\u{1}\u{1f}/é\u{7f}");
}

fn same_value(j: &Json) -> serde_json::Value {
    match j {
        Json::Null => serde_json::Value::Null,
        Json::Bool(b) => serde_json::Value::Bool(*b),
        Json::Number(Number::Unsigned(u)) => serde_json::Value::from(*u),
        Json::Number(Number::Negative(i)) => serde_json::Value::from(*i),
        Json::Number(Number::Float(d)) => serde_json::Value::from(f64::from_bits(d.bits)),
        Json::Text(s) => serde_json::Value::from(s.as_str()),
        Json::Array(items) => serde_json::Value::Array(items.iter().map(same_value).collect()),
        Json::Object(entries) => serde_json::Value::Object(
            entries.iter().map(|(k, v)| (k.clone(), same_value(v))).collect(),
        ),
    }
}

#[test]
fn json_is_written_as_serde_json_writes_it() {
    let float = |f: f64| {
        let literal = serde_json::Value::from(f).to_string();
        Json::Number(Number::Float(Double { bits: f.to_bits(), literal }))
    };
    let every: String = (0u32..0x300).filter_map(char::from_u32).collect();
    let samples = vec![
        Json::Array(vec![]),
        Json::Object(vec![]),
        Json::Array(vec![Json::Array(vec![Json::Null]), Json::Object(vec![])]),
        Json::Array(vec![float(0.1), float(-2.0), float(1e300), float(5e-324)]),
        Json::Array(vec![
            Json::Number(Number::Unsigned(u64::MAX)),
            Json::Number(Number::Negative(i64::MIN)),
        ]),
        Json::Object(vec![
            ("a".to_string(), text(&every)),
            ("b \u{1f600}\u{2028}".to_string(), Json::Bool(true)),
            (
                "c".to_string(),
                Json::Object(vec![("x\"".to_string(), Json::Array(vec![text(""), Json::Null]))]),
            ),
        ]),
    ];
    for j in &samples {
        assert_eq!(write_compact(j), same_value(j).to_string());
    }
}

#[test]
fn objects_are_read_by_key() {
    let v = Json::Object(vec![
        ("s".to_string(), text("x")),
        ("n".to_string(), Json::Number(Number::Unsigned(4))),
        ("b".to_string(), Json::Bool(true)),
        ("s".to_string(), text("y")),
    ]);
    assert_eq!(v.text_at("s").as_deref(), Some("x"));
    assert_eq!(v.text_at("n"), None);
    assert_eq!(v.unsigned_at("n"), Some(4));
    assert_eq!(v.bool_at("b"), Some(true));
    assert!(v.get("z").is_none());
    assert!(text("s").get("s").is_none());
}

#[test]
fn bind_values_keep_their_kind() {
    assert!(matches!(json_to_sql_value(&Json::Null), SqlValue::Null));
    assert!(matches!(json_to_sql_value(&Json::Bool(false)), SqlValue::Integer(0)));
    let n = |n: Number| json_to_sql_value(&Json::Number(n));
    assert!(matches!(n(Number::Unsigned(5)), SqlValue::Integer(5)));
    assert!(matches!(n(Number::Unsigned(i64::MAX as u64)), SqlValue::Integer(i64::MAX)));
    let past = i64::MAX as u64 + 1;
    assert!(matches!(n(Number::Unsigned(past)), SqlValue::NearestReal(x) if x == past));
    assert!(matches!(n(Number::Negative(-2)), SqlValue::Integer(-2)));
    let double = Double { bits: 9, literal: "4.4e-323".to_string() };
    assert!(matches!(n(Number::Float(double)), SqlValue::Real(9)));
    assert!(matches!(json_to_sql_value(&text("t")), SqlValue::Text(s) if s == "t"));
    let list = Json::Array(vec![Json::Null]);
    assert!(matches!(json_to_sql_value(&list), SqlValue::Text(s) if s == "[null]"));
}

#[test]
fn cells_become_json() {
    assert!(matches!(value_ref_to_json(&Cell::Null), Json::Null));
    assert_eq!(write_compact(&value_ref_to_json(&Cell::Integer(i64::MIN))), "-9223372036854775808");
    assert_eq!(write_compact(&value_ref_to_json(&Cell::Integer(0))), "0");
    let real = |f: f64, literal: &str| {
        write_compact(&value_ref_to_json(&Cell::Real(Double {
            bits: f.to_bits(),
            literal: literal.to_string(),
        })))
    };
    assert_eq!(real(0.5, "0.5"), "0.5");
    assert_eq!(real(f64::INFINITY, "null"), "null");
    assert_eq!(real(f64::NAN, "null"), "null");
    assert_eq!(write_compact(&value_ref_to_json(&Cell::Text(b"ab".to_vec()))), "\"ab\"");
    assert_eq!(
        write_compact(&value_ref_to_json(&Cell::Text(vec![0x61, 0xff, 0x62]))),
        "\"a\u{fffd}b\""
    );
    assert_eq!(write_compact(&value_ref_to_json(&Cell::Blob(vec![0; 12]))), "\"<blob:12 bytes>\"");
}

#[test]
fn answers_carry_a_code_or_data() {
    let e = Outcome::err(ErrCode::Conflict, "no".to_string());
    assert!(!e.ok && e.data.is_none());
    assert_eq!(e.code.as_deref(), Some("CONFLICT"));
    assert_eq!(e.message.as_deref(), Some("no"));
    let o = Outcome::ok(Json::Null);
    assert!(o.ok && o.code.is_none() && o.message.is_none());
    let m = Outcome::ok_msg(Json::Null, "yes".to_string());
    assert_eq!(m.message.as_deref(), Some("yes"));
    assert_eq!(ErrCode::Internal.as_text(), "INTERNAL");
}

#[test]
fn the_newest_records_come_first() {
    let entry = |ts_seq: u64, profile: &str| AuditEntry {
        ts_seq,
        profile: profile.to_string(),
        op: "query-run".to_string(),
        ok: true,
        row_count: ts_seq * 10,
    };
    let log = vec![entry(0, "a"), entry(1, "b"), entry(2, "a")];
    let all = select(&log, &None, None);
    assert_eq!(
        write_compact(&all[0]),
        "{\"tsSeq\":2,\"profile\":\"a\",\"op\":\"query-run\",\"ok\":true,\"rowCount\":20}"
    );
    assert_eq!(all.len(), 3);
    let a = select(&log, &Some("a".to_string()), None);
    assert_eq!(a.iter().map(|e| e.unsigned_at("tsSeq").unwrap()).collect::<Vec<_>>(), vec![2, 0]);
    assert_eq!(select(&log, &None, Some(1)).len(), 1);
    assert_eq!(select(&log, &None, Some(0)).len(), 0);
    assert_eq!(select(&log, &Some("z".to_string()), Some(9)).len(), 0);
}

fn rule(id: &str, conditions: Option<RuleMatch>, grade: u8, action: GateAction) -> Rule {
    Rule { id: id.to_string(), conditions, grade, action }
}

fn asks(
    op_class: Option<OpClass>,
    command_id: Option<&str>,
    profile: Option<RuleProfileMatch>,
) -> Option<RuleMatch> {
    Some(RuleMatch { op_class, command_id: command_id.map(|s| s.to_string()), profile })
}

fn input(command_id: Option<&str>, op_class: OpClass, profile: GateProfile) -> GateInput {
    GateInput { command_id: command_id.map(|s| s.to_string()), op_class, profile }
}

#[test]
fn the_first_rule_that_applies_decides() {
    let prod = RuleProfileMatch { environment: Some(Environment::Prod), read_only: None };
    let locked = RuleProfileMatch { environment: None, read_only: Some(true) };
    let table = RulesTable {
        version: 1,
        rules: vec![
            rule("drop", asks(None, Some("db.drop"), None), 3, GateAction::Deny),
            rule("locked", asks(Some(OpClass::Write), None, Some(locked)), 3, GateAction::Deny),
            rule("prod-write", asks(Some(OpClass::Write), None, Some(prod)), 2, GateAction::Confirm),
            rule("read", asks(Some(OpClass::Read), None, None), 0, GateAction::Allow),
            rule("default-deny", None, 3, GateAction::Deny),
        ],
    };
    let none = GateProfile::default();
    let at = |environment, read_only| GateProfile { environment, read_only };
    let verdict = |i: GateInput| classify_gate(&table, &i);

    assert_eq!(verdict(input(None, OpClass::Read, none)).rule, "read");
    assert_eq!(verdict(input(Some("db.drop"), OpClass::Read, none)).rule, "drop");
    assert_eq!(verdict(input(Some("db.list"), OpClass::Read, none)).rule, "read");
    let both = at(Some(Environment::Prod), Some(true));
    assert_eq!(verdict(input(None, OpClass::Write, both)).rule, "locked");
    let v = verdict(input(None, OpClass::Write, at(Some(Environment::Prod), Some(false))));
    assert_eq!((v.grade, v.action, v.rule.as_str()), (2, GateAction::Confirm, "prod-write"));
    let dev = at(Some(Environment::Dev), None);
    assert_eq!(verdict(input(None, OpClass::Write, dev)).rule, "default-deny");
    assert_eq!(verdict(input(None, OpClass::Ddl, none)).rule, "default-deny");
    assert_eq!(verdict(input(None, OpClass::ProfileMutation, none)).action, GateAction::Deny);
}

#[test]
fn a_table_without_a_rule_denies() {
    let table = RulesTable { version: 1, rules: vec![] };
    let v = classify_gate(&table, &input(None, OpClass::Read, GateProfile::default()));
    assert_eq!((v.grade, v.action, v.rule.as_str()), (3, GateAction::Deny, "no-match"));
}

#[test]
fn a_rule_that_declares_nothing_applies_to_everything() {
    let empty = rule("all", asks(None, None, None), 1, GateAction::Allow);
    assert!(rule_applies(&empty, &input(None, OpClass::Ddl, GateProfile::default())));
    let hollow = RuleProfileMatch { environment: None, read_only: None };
    let hollow = rule("all", asks(None, None, Some(hollow)), 1, GateAction::Allow);
    assert!(rule_applies(&hollow, &input(Some("x"), OpClass::Read, GateProfile::default())));
    let named = rule("x", asks(None, Some("x"), None), 1, GateAction::Allow);
    assert!(!rule_applies(&named, &input(None, OpClass::Read, GateProfile::default())));
}
