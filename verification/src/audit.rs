//! The audit: one record for each operation that was carried out, in order, with no
//! text of any statement. To read the audit leaves no record.
use vstd::prelude::*;

use crate::json::{Json, Number};
use crate::json;
use crate::text;

verus! {

/// A record of the audit. `ts_seq` counts the records, so their order is total.
#[derive(Debug)]
pub struct AuditEntry {
    pub ts_seq: u64,
    pub profile: String,
    pub op: String,
    pub ok: bool,
    pub row_count: u64,
}

/// What an `AuditEntry` is: see there.
pub struct AuditView {
    pub ts_seq: u64,
    pub profile: Seq<char>,
    pub op: Seq<char>,
    pub ok: bool,
    pub row_count: u64,
}

impl View for AuditEntry {
    type V = AuditView;

    open spec fn view(&self) -> AuditView {
        AuditView {
            ts_seq: self.ts_seq,
            profile: self.profile@,
            op: self.op@,
            ok: self.ok,
            row_count: self.row_count,
        }
    }
}

/// The views of a list of records.
pub open spec fn log_view(log: Seq<AuditEntry>) -> Seq<AuditView> {
    log.map_values(|e: AuditEntry| e@)
}

/// Each record is numbered by its place in the log.
pub open spec fn numbered(log: Seq<AuditView>) -> bool {
    forall|i: int| 0 <= i < log.len() ==> (#[trigger] log[i]).ts_seq == i
}

/// A record as it stands in an answer.
pub open spec fn record_json(e: AuditView) -> json::JsonView {
    json::JsonView::Object(
        seq![
            ("tsSeq"@, json::JsonView::Number(json::NumberView::Unsigned(e.ts_seq))),
            ("profile"@, json::JsonView::Text(e.profile)),
            ("op"@, json::JsonView::Text(e.op)),
            ("ok"@, json::JsonView::Bool(e.ok)),
            ("rowCount"@, json::JsonView::Number(json::NumberView::Unsigned(e.row_count))),
        ],
    )
}

/// A record is one of those asked for: of the profile, or any where none is named.
pub open spec fn asked_for(e: AuditView, profile: Option<Seq<char>>) -> bool {
    profile matches Some(p) ==> e.profile == p
}

/// The records of a profile (of all, where none is named), the newest first.
pub open spec fn newest_first(log: Seq<AuditView>, profile: Option<Seq<char>>) -> Seq<AuditView>
    decreases log.len(),
{
    if log.len() == 0 {
        Seq::empty()
    } else if asked_for(log.last(), profile) {
        seq![log.last()] + newest_first(log.drop_last(), profile)
    } else {
        newest_first(log.drop_last(), profile)
    }
}

/// At most `limit` of the records, from the front.
pub open spec fn at_most(records: Seq<AuditView>, limit: Option<u64>) -> Seq<AuditView> {
    match limit {
        Some(n) => if n < records.len() {
            records.take(n as int)
        } else {
            records
        },
        None => records,
    }
}

fn record(e: &AuditEntry) -> (r: Json)
    ensures
        r@ == record_json(e@),
{
    broadcast use json::lemma_object_view;

    let mut o: Vec<(String, Json)> = Vec::new();
    json::put(&mut o, "tsSeq", Json::Number(Number::Unsigned(e.ts_seq)));
    json::put(&mut o, "profile", Json::Text(e.profile.clone()));
    json::put(&mut o, "op", Json::Text(e.op.clone()));
    json::put(&mut o, "ok", Json::Bool(e.ok));
    json::put(&mut o, "rowCount", Json::Number(Number::Unsigned(e.row_count)));
    assert(json::entries_view(o@) =~= record_json(e@)->Object_0);
    Json::Object(o)
}

/// The newest records of a profile (of all, where none is named), newest first, at most
/// `limit` of them.
pub fn select(log: &Vec<AuditEntry>, profile: &Option<String>, limit: Option<u64>) -> (r: Vec<Json>)
    ensures
        json::items_view(r@) == at_most(
            newest_first(log_view(log@), text::opt_text(*profile)),
            limit,
        ).map_values(|e: AuditView| record_json(e)),
{
    let ghost all = newest_first(log_view(log@), text::opt_text(*profile));
    let ghost mut picked: Seq<AuditView> = Seq::empty();
    let mut out: Vec<Json> = Vec::new();
    let mut i: usize = log.len();
    assert(log_view(log@).take(i as int) =~= log_view(log@));
    assert(all =~= picked + newest_first(log_view(log@).take(i as int), text::opt_text(*profile)));
    while i > 0
        invariant
            i <= log.len(),
            all == newest_first(log_view(log@), text::opt_text(*profile)),
            all == picked + newest_first(
                log_view(log@).take(i as int),
                text::opt_text(*profile),
            ),
            json::items_view(out@) == picked.map_values(|e: AuditView| record_json(e)),
            out@.len() == picked.len(),
            limit matches Some(n) ==> picked.len() <= n,
        decreases i,
    {
        let ghost rest = log_view(log@).take(i as int);
        if let Some(n) = limit {
            if out.len() as u64 >= n {
                assert(all.take(n as int) =~= picked);
                assert(at_most(all, limit) =~= picked);
                return out;
            }
        }
        i -= 1;
        assert(rest.drop_last() =~= log_view(log@).take(i as int));
        assert(rest.last() == log@[i as int]@);
        let wanted = match profile {
            Some(p) => text::same(log[i].profile.as_str(), p.as_str()),
            None => true,
        };
        if wanted {
            let entry = record(&log[i]);
            let ghost before = out@;
            out.push(entry);
            proof {
                let tail = newest_first(rest.drop_last(), text::opt_text(*profile));
                assert(picked + (seq![rest.last()] + tail) =~= picked.push(rest.last()) + tail);
                assert(json::items_view(out@) =~= json::items_view(before).push(entry@));
                assert(picked.push(rest.last()).map_values(|e: AuditView| record_json(e))
                    =~= picked.map_values(|e: AuditView| record_json(e)).push(
                    record_json(rest.last()),
                ));
                picked = picked.push(rest.last());
            }
        }
    }
    assert(all =~= picked);
    assert(at_most(all, limit) =~= picked);
    out
}

proof fn lemma_newest_first(log: Seq<AuditView>, profile: Option<Seq<char>>)
    requires
        numbered(log),
    ensures
        ({
            let r = newest_first(log, profile);
            &&& forall|i: int|
                0 <= i < r.len() ==> (#[trigger] r[i]).ts_seq < log.len() && log[r[i].ts_seq as int]
                    == r[i] && asked_for(r[i], profile)
            &&& forall|i: int, j: int| 0 <= i < j < r.len() ==> r[i].ts_seq > r[j].ts_seq
            &&& forall|k: int|
                0 <= k < log.len() && asked_for(log[k], profile) ==> r.contains(#[trigger] log[k])
        }),
    decreases log.len(),
{
    let r = newest_first(log, profile);
    if log.len() > 0 {
        let rest = log.drop_last();
        let tail = newest_first(rest, profile);
        lemma_newest_first(rest, profile);
        if asked_for(log.last(), profile) {
            assert forall|i: int| 0 <= i < r.len() implies (#[trigger] r[i]).ts_seq < log.len()
                && log[r[i].ts_seq as int] == r[i] && asked_for(r[i], profile) by {
                if i > 0 {
                    assert(r[i] == tail[i - 1]);
                }
            }
            assert forall|i: int, j: int| 0 <= i < j < r.len() implies r[i].ts_seq
                > r[j].ts_seq by {
                assert(r[j] == tail[j - 1]);
                if i > 0 {
                    assert(r[i] == tail[i - 1]);
                }
            }
            assert forall|k: int|
                0 <= k < log.len() && asked_for(log[k], profile) implies r.contains(
                #[trigger] log[k],
            ) by {
                if k == log.len() - 1 {
                    assert(r[0] == log[k]);
                } else {
                    assert(tail.contains(rest[k]));
                    let m = choose|m: int| 0 <= m < tail.len() && tail[m] == rest[k];
                    assert(r[m + 1] == log[k]);
                }
            }
        } else {
            assert forall|k: int|
                0 <= k < log.len() && asked_for(log[k], profile) implies r.contains(
                #[trigger] log[k],
            ) by {
                assert(tail.contains(rest[k]));
            }
        }
    }
}

/// Reading the audit gives exactly the records asked for, in falling order of their
/// numbers.
pub proof fn law_audit_reads_newest_first(log: Seq<AuditView>, profile: Option<Seq<char>>)
    requires
        numbered(log),
    ensures
        forall|i: int|
            0 <= i < newest_first(log, profile).len() ==> log.contains(
                #[trigger] newest_first(log, profile)[i],
            ) && asked_for(newest_first(log, profile)[i], profile),
        forall|k: int|
            0 <= k < log.len() && asked_for(log[k], profile) ==> newest_first(
                log,
                profile,
            ).contains(#[trigger] log[k]),
        forall|i: int, j: int|
            0 <= i < j < newest_first(log, profile).len() ==> newest_first(log, profile)[i].ts_seq
                > newest_first(log, profile)[j].ts_seq,
{
    lemma_newest_first(log, profile);
    let r = newest_first(log, profile);
    assert forall|i: int| 0 <= i < r.len() implies log.contains(#[trigger] r[i]) by {
        assert(log[r[i].ts_seq as int] == r[i]);
    }
}

} // verus!
