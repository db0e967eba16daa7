//! The service: the databases that are held open, each under a profile, and the audit.
use vstd::prelude::*;
use vstd::string::*;

use crate::audit::AuditEntry;
use crate::audit;
use crate::json::Json;
use crate::json;
use crate::order;
use crate::outcome::ErrCode;
use crate::step::Step;
use crate::step;
use crate::text;

verus! {

/// The DB Studio service. Each profile holds at most one open database, by its number.
#[derive(Debug)]
pub struct DbStudioService {
    conns: Vec<(String, u64)>,
    audit: Vec<AuditEntry>,
    audit_seq: u64,
}

/// What a service is: the database that each connected profile holds, and the audit
/// from its beginning.
pub struct ServiceView {
    pub conns: Map<Seq<char>, u64>,
    pub audit: Seq<audit::AuditView>,
}

impl ServiceView {
    /// The service with one more record in its audit.
    pub open spec fn audited(
        self,
        profile: Seq<char>,
        op: Seq<char>,
        ok: bool,
        row_count: u64,
    ) -> ServiceView {
        ServiceView {
            audit: self.audit.push(
                audit::AuditView {
                    ts_seq: self.audit.len() as u64,
                    profile,
                    op,
                    ok,
                    row_count,
                },
            ),
            ..self
        }
    }

    /// The service with a database held under a profile.
    pub open spec fn holding(self, profile: Seq<char>, conn: u64) -> ServiceView {
        ServiceView { conns: self.conns.insert(profile, conn), ..self }
    }

    /// The service with nothing held under a profile.
    pub open spec fn without(self, profile: Seq<char>) -> ServiceView {
        ServiceView { conns: self.conns.remove(profile), ..self }
    }

    /// The database that a profile holds.
    pub open spec fn conn_of(self, profile: Seq<char>) -> Option<u64> {
        if self.conns.contains_key(profile) {
            Some(self.conns[profile])
        } else {
            None
        }
    }
}

/// The message for a profile that holds no database.
pub open spec fn not_connected(profile: Seq<char>) -> Seq<char> {
    "profile not connected: "@ + profile
}

/// The end of an operation on a profile that failed: it leaves a record.
pub open spec fn failed_on(
    s: ServiceView,
    profile: Seq<char>,
    op: Seq<char>,
    code: ErrCode,
    message: Seq<char>,
) -> (ServiceView, step::StepView) {
    (s.audited(profile, op, false, 0), step::failed(code, message))
}

/// The profiles of a list of connections.
pub open spec fn profiles(conns: Seq<(String, u64)>) -> Seq<Seq<char>> {
    conns.map_values(|c: (String, u64)| c.0@)
}

/// Where a profile stands in a list of connections.
spec fn place_of(conns: Seq<(String, u64)>, p: Seq<char>) -> int {
    choose|i: int| 0 <= i < conns.len() && profiles(conns)[i] == p
}

/// The connections of a list as a map.
spec fn conns_map(conns: Seq<(String, u64)>) -> Map<Seq<char>, u64> {
    Map::new(
        |p: Seq<char>| profiles(conns).contains(p),
        |p: Seq<char>| conns[place_of(conns, p)].1,
    )
}

impl View for DbStudioService {
    type V = ServiceView;

    closed spec fn view(&self) -> ServiceView {
        ServiceView { conns: conns_map(self.conns@), audit: audit::log_view(self.audit@) }
    }
}

proof fn lemma_conn_at(conns: Seq<(String, u64)>, i: int)
    requires
        order::ascending(profiles(conns)),
        0 <= i < conns.len(),
    ensures
        conns_map(conns).contains_key(conns[i].0@),
        conns_map(conns)[conns[i].0@] == conns[i].1,
{
    let p = conns[i].0@;
    assert(profiles(conns)[i] == p);
    assert(profiles(conns).contains(p));
    let k = place_of(conns, p);
    if k != i {
        order::lemma_irreflexive(p);
        assert(order::before(profiles(conns)[k], profiles(conns)[i]) || order::before(
            profiles(conns)[i],
            profiles(conns)[k],
        ));
    }
}

proof fn lemma_conn_absent(conns: Seq<(String, u64)>, p: Seq<char>)
    requires
        forall|i: int| 0 <= i < conns.len() ==> (#[trigger] conns[i]).0@ != p,
    ensures
        !conns_map(conns).contains_key(p),
{
    if profiles(conns).contains(p) {
        let i = choose|i: int| 0 <= i < conns.len() && profiles(conns)[i] == p;
        assert(conns[i].0@ == p);
    }
}

/// Two lists in order that hold the same connections are the same map.
proof fn lemma_same_map(conns: Seq<(String, u64)>, m: Map<Seq<char>, u64>)
    requires
        order::ascending(profiles(conns)),
        forall|i: int|
            0 <= i < conns.len() ==> m.contains_key((#[trigger] conns[i]).0@) && m[conns[i].0@]
                == conns[i].1,
        forall|p: Seq<char>| #[trigger]
            m.contains_key(p) ==> exists|i: int|
                0 <= i < conns.len() && (#[trigger] conns[i]).0@ == p,
    ensures
        conns_map(conns) == m,
{
    let n = conns_map(conns);
    assert forall|p: Seq<char>| #[trigger] n.contains_key(p) <==> m.contains_key(p) by {
        if n.contains_key(p) {
            let i = choose|i: int| 0 <= i < conns.len() && profiles(conns)[i] == p;
            assert(conns[i].0@ == p);
        }
        if m.contains_key(p) {
            let i = choose|i: int| 0 <= i < conns.len() && (#[trigger] conns[i]).0@ == p;
            lemma_conn_at(conns, i);
        }
    }
    assert forall|p: Seq<char>| n.contains_key(p) implies #[trigger] n[p] == m[p] by {
        let i = choose|i: int| 0 <= i < conns.len() && profiles(conns)[i] == p;
        assert(conns[i].0@ == p);
        lemma_conn_at(conns, i);
    }
    assert(n =~= m);
}

impl DbStudioService {
    /// The connections are listed in order of their profiles, so none stands twice, and
    /// the records of the audit are numbered by their place.
    pub closed spec fn wf(&self) -> bool {
        &&& order::ascending(profiles(self.conns@))
        &&& audit::numbered(audit::log_view(self.audit@))
        &&& self.audit_seq == self.audit@.len()
    }

    /// A service that holds nothing and has done nothing.
    pub fn new() -> (r: Self)
        ensures
            r.wf(),
            r@ == (ServiceView { conns: Map::empty(), audit: Seq::empty() }),
    {
        let r = DbStudioService { conns: Vec::new(), audit: Vec::new(), audit_seq: 0 };
        assert(conns_map(r.conns@) =~= Map::empty());
        assert(audit::log_view(r.audit@) =~= Seq::empty());
        r
    }

    /// Of a well-formed service: each record is numbered by its place in the audit, and
    /// the profiles that hold a database can be counted.
    pub proof fn law_well_formed(&self)
        requires
            self.wf(),
        ensures
            audit::numbered(self@.audit),
            self@.audit.len() <= u64::MAX,
            self@.conns.dom().finite(),
    {
        assert(self@.conns.dom() =~= profiles(self.conns@).to_set());
        vstd::seq_lib::seq_to_set_is_finite(profiles(self.conns@));
    }

    /// Appends a record to the audit. Records are never changed nor taken out.
    pub fn audit_append(&mut self, profile: &str, op: &str, ok: bool, row_count: u64)
        requires
            old(self).wf(),
        ensures
            final(self).wf(),
            final(self)@ == old(self)@.audited(profile@, op@, ok, row_count),
    {
        let ghost before = self.audit@;
        let ts_seq: u64 = self.audit_seq;
        let entry = AuditEntry {
            ts_seq,
            profile: profile.to_owned(),
            op: op.to_owned(),
            ok,
            row_count,
        };
        self.audit.push(entry);
        self.audit_seq = self.audit.len() as u64;
        assert(audit::log_view(self.audit@) =~= audit::log_view(before).push(entry@));
        assert(self@ == old(self)@.audited(profile@, op@, ok, row_count));
    }

    /// Ends an operation on a profile that failed.
    pub fn fail_on(&mut self, profile: &str, op: &str, code: ErrCode, message: String) -> (r: Step)
        requires
            old(self).wf(),
        ensures
            final(self).wf(),
            (final(self)@, r@) == failed_on(old(self)@, profile@, op@, code, message@),
    {
        self.audit_append(profile, op, false, 0);
        step::fail(code, message)
    }

    /// The place at which a profile stands in the list of connections, or belongs.
    fn place(&self, profile: &str) -> (r: (usize, bool))
        requires
            self.wf(),
        ensures
            r.0 <= self.conns@.len(),
            r.1 ==> r.0 < self.conns@.len() && self.conns@[r.0 as int].0@ == profile@,
            forall|k: int|
                0 <= k < r.0 ==> order::before((#[trigger] self.conns@[k]).0@, profile@),
            !r.1 ==> forall|k: int|
                r.0 <= k < self.conns@.len() ==> order::before(
                    profile@,
                    (#[trigger] self.conns@[k]).0@,
                ),
            r.1 == self@.conns.contains_key(profile@),
            r.1 ==> self@.conns[profile@] == self.conns@[r.0 as int].1,
    {
        let mut i: usize = 0;
        while i < self.conns.len() && order::is_before(self.conns[i].0.as_str(), profile)
            invariant
                i <= self.conns@.len(),
                forall|k: int|
                    0 <= k < i ==> order::before((#[trigger] self.conns@[k]).0@, profile@),
            decreases self.conns@.len() - i,
        {
            i += 1;
        }
        if i < self.conns.len() && text::same(self.conns[i].0.as_str(), profile) {
            proof {
                lemma_conn_at(self.conns@, i as int);
            }
            (i, true)
        } else {
            proof {
                order::lemma_irreflexive(profile@);
                assert forall|k: int| i <= k < self.conns@.len() implies order::before(
                    profile@,
                    (#[trigger] self.conns@[k]).0@,
                ) by {
                    order::lemma_total(profile@, self.conns@[i as int].0@);
                    if k > i {
                        assert(order::before(
                            profiles(self.conns@)[i as int],
                            profiles(self.conns@)[k],
                        ));
                        order::lemma_transitive(
                            profile@,
                            self.conns@[i as int].0@,
                            self.conns@[k].0@,
                        );
                    }
                }
                assert forall|k: int| 0 <= k < self.conns@.len() implies (
                #[trigger] self.conns@[k]).0@ != profile@ by {}
                lemma_conn_absent(self.conns@, profile@);
            }
            (i, false)
        }
    }

    /// The database that a profile holds.
    pub fn conn_of(&self, profile: &str) -> (r: Option<u64>)
        requires
            self.wf(),
        ensures
            r == self@.conn_of(profile@),
    {
        let (i, found) = self.place(profile);
        if found {
            Some(self.conns[i].1)
        } else {
            None
        }
    }

    /// Holds a database under a profile, and gives the one that it takes the place of.
    pub fn hold(&mut self, profile: String, conn: u64) -> (r: Option<u64>)
        requires
            old(self).wf(),
        ensures
            final(self).wf(),
            final(self)@ == old(self)@.holding(profile@, conn),
            r == old(self)@.conn_of(profile@),
    {
        let (i, found) = self.place(profile.as_str());
        let ghost before = self.conns@;
        let ghost m = conns_map(before).insert(profile@, conn);
        let replaced: Option<u64> = if found {
            let removed = self.conns.remove(i);
            Some(removed.1)
        } else {
            None
        };
        let ghost middle = self.conns@;
        self.conns.insert(i, (profile, conn));
        proof {
            let after = self.conns@;
            assert forall|a: int, b: int| 0 <= a < b < after.len() implies order::before(
                profiles(after)[a],
                profiles(after)[b],
            ) by {
                let a0 = if found || a < i {
                    a
                } else {
                    a - 1
                };
                let b0 = if found || b < i {
                    b
                } else {
                    b - 1
                };
                if a != i {
                    assert(after[a] == before[a0]);
                }
                if b != i {
                    assert(after[b] == before[b0]);
                }
                if a != i && b != i {
                    assert(order::before(profiles(before)[a0], profiles(before)[b0]));
                } else if a == i {
                    if found {
                        assert(order::before(profiles(before)[i as int], profiles(before)[b0]));
                    }
                }
            }
            assert forall|k: int| 0 <= k < after.len() implies m.contains_key(
                (#[trigger] after[k]).0@,
            ) && m[after[k].0@] == after[k].1 by {
                if k != i {
                    let k0 = if found || k < i {
                        k
                    } else {
                        k - 1
                    };
                    assert(after[k] == before[k0]);
                    lemma_conn_at(before, k0);
                    order::lemma_irreflexive(profile@);
                    if found && k > i {
                        assert(order::before(profiles(before)[i as int], profiles(before)[k0]));
                    }
                }
            }
            assert forall|p: Seq<char>| #[trigger] m.contains_key(p) implies exists|k: int|
                0 <= k < after.len() && (#[trigger] after[k]).0@ == p by {
                if p == profile@ {
                    assert(after[i as int].0@ == p);
                } else {
                    assert(conns_map(before).contains_key(p));
                    let k0 = choose|k: int| 0 <= k < before.len() && profiles(before)[k] == p;
                    assert(before[k0].0@ == p);
                    let k = if found || k0 < i {
                        k0
                    } else {
                        k0 + 1
                    };
                    assert(after[k] == before[k0]);
                }
            }
            lemma_same_map(after, m);
        }
        replaced
    }

    /// Takes the database of a profile out of the service.
    pub fn release(&mut self, profile: &str) -> (r: Option<u64>)
        requires
            old(self).wf(),
        ensures
            final(self).wf(),
            final(self)@ == old(self)@.without(profile@),
            r == old(self)@.conn_of(profile@),
    {
        let (i, found) = self.place(profile);
        let ghost before = self.conns@;
        let ghost m = conns_map(before).remove(profile@);
        if !found {
            assert(m =~= conns_map(before));
            return None;
        }
        let removed = self.conns.remove(i);
        proof {
            let after = self.conns@;
            assert forall|a: int, b: int| 0 <= a < b < after.len() implies order::before(
                profiles(after)[a],
                profiles(after)[b],
            ) by {
                let a0 = if a < i {
                    a
                } else {
                    a + 1
                };
                let b0 = if b < i {
                    b
                } else {
                    b + 1
                };
                assert(after[a] == before[a0]);
                assert(after[b] == before[b0]);
                assert(order::before(profiles(before)[a0], profiles(before)[b0]));
            }
            assert forall|k: int| 0 <= k < after.len() implies m.contains_key(
                (#[trigger] after[k]).0@,
            ) && m[after[k].0@] == after[k].1 by {
                let k0 = if k < i {
                    k
                } else {
                    k + 1
                };
                assert(after[k] == before[k0]);
                lemma_conn_at(before, k0);
                order::lemma_irreflexive(profile@);
                assert(order::before(profiles(before)[i as int], profiles(before)[k0])
                    || order::before(profiles(before)[k0], profiles(before)[i as int]));
            }
            assert forall|p: Seq<char>| #[trigger] m.contains_key(p) implies exists|k: int|
                0 <= k < after.len() && (#[trigger] after[k]).0@ == p by {
                assert(conns_map(before).contains_key(p));
                let k0 = choose|k: int| 0 <= k < before.len() && profiles(before)[k] == p;
                assert(before[k0].0@ == p);
                let k = if k0 < i {
                    k0
                } else {
                    k0 - 1
                };
                assert(after[k] == before[k0]);
            }
            lemma_same_map(after, m);
        }
        Some(removed.1)
    }

    /// The profiles that hold a database, in order.
    pub fn connected(&self) -> (r: Vec<String>)
        requires
            self.wf(),
        ensures
            text::texts(r@) == order::listing(self@.conns.dom()),
            order::lists(text::texts(r@), self@.conns.dom()),
    {
        let mut out: Vec<String> = Vec::new();
        let mut i: usize = 0;
        while i < self.conns.len()
            invariant
                i <= self.conns@.len(),
                out@.len() == i,
                forall|k: int| 0 <= k < i ==> (#[trigger] out@[k])@ == self.conns@[k].0@,
            decreases self.conns@.len() - i,
        {
            out.push(self.conns[i].0.clone());
            i += 1;
        }
        proof {
            assert(text::texts(out@) =~= profiles(self.conns@));
            order::lemma_listing(text::texts(out@), self@.conns.dom());
        }
        out
    }

    /// The newest records of the audit, as an answer holds them.
    pub fn records(&self, profile: &Option<String>, limit: Option<u64>) -> (r: Vec<Json>)
        ensures
            json::items_view(r@) == audit::at_most(
                audit::newest_first(self@.audit, text::opt_text(*profile)),
                limit,
            ).map_values(|e: audit::AuditView| audit::record_json(e)),
    {
        audit::select(&self.audit, profile, limit)
    }
}

impl Default for DbStudioService {
    fn default() -> (r: Self)
        ensures
            r.wf(),
            r@ == (ServiceView { conns: Map::empty(), audit: Seq::empty() }),
    {
        Self::new()
    }
}

} // verus!
