//! The order of texts, and lists of texts in that order.
use vstd::prelude::*;

use crate::text;

verus! {

/// `a` comes before `b`: character by character, the shorter first where one begins
/// the other.
pub open spec fn before(a: Seq<char>, b: Seq<char>) -> bool
    decreases a.len(),
{
    if b.len() == 0 {
        false
    } else if a.len() == 0 {
        true
    } else if a[0] != b[0] {
        a[0] < b[0]
    } else {
        before(a.drop_first(), b.drop_first())
    }
}

pub proof fn lemma_irreflexive(a: Seq<char>)
    ensures
        !before(a, a),
    decreases a.len(),
{
    if a.len() > 0 {
        lemma_irreflexive(a.drop_first());
    }
}

pub proof fn lemma_transitive(a: Seq<char>, b: Seq<char>, c: Seq<char>)
    requires
        before(a, b),
        before(b, c),
    ensures
        before(a, c),
    decreases a.len(),
{
    if a.len() > 0 && a[0] == b[0] && b[0] == c[0] {
        lemma_transitive(a.drop_first(), b.drop_first(), c.drop_first());
    }
}

pub proof fn lemma_total(a: Seq<char>, b: Seq<char>)
    ensures
        before(a, b) || before(b, a) || a == b,
    decreases a.len(),
{
    if a.len() > 0 && b.len() > 0 {
        if a[0] == b[0] {
            lemma_total(a.drop_first(), b.drop_first());
            if a.drop_first() == b.drop_first() {
                assert(a =~= seq![a[0]] + a.drop_first());
                assert(b =~= seq![b[0]] + b.drop_first());
            }
        }
    } else if a.len() == 0 && b.len() == 0 {
        assert(a =~= b);
    }
}

/// Whether `a` comes before `b`.
pub fn is_before(a: &str, b: &str) -> (r: bool)
    ensures
        r == before(a@, b@),
{
    let x = text::chars_of(a);
    let y = text::chars_of(b);
    let mut i: usize = 0;
    assert(a@.skip(0) =~= a@);
    assert(b@.skip(0) =~= b@);
    while i < x.len() && i < y.len()
        invariant
            i <= x.len(),
            i <= y.len(),
            x@ == a@,
            y@ == b@,
            before(a@, b@) == before(a@.skip(i as int), b@.skip(i as int)),
        decreases x.len() - i,
    {
        if x[i] != y[i] {
            return x[i] < y[i];
        }
        assert(a@.skip(i as int).drop_first() =~= a@.skip(i + 1));
        assert(b@.skip(i as int).drop_first() =~= b@.skip(i + 1));
        i += 1;
    }
    i < y.len()
}

/// A list of texts is in order, without one of them twice.
pub open spec fn ascending(names: Seq<Seq<char>>) -> bool {
    forall|i: int, j: int| 0 <= i < j < names.len() ==> before(names[i], names[j])
}

/// `names` lists the texts of a set in order.
pub open spec fn lists(names: Seq<Seq<char>>, set: Set<Seq<char>>) -> bool {
    ascending(names) && forall|n: Seq<char>| #[trigger] set.contains(n) <==> names.contains(n)
}

/// The texts of a set in order.
pub open spec fn listing(set: Set<Seq<char>>) -> Seq<Seq<char>> {
    choose|names: Seq<Seq<char>>| lists(names, set)
}

proof fn lemma_first_is_least(names: Seq<Seq<char>>, other: Seq<Seq<char>>, set: Set<Seq<char>>)
    requires
        lists(names, set),
        lists(other, set),
        names.len() > 0,
    ensures
        other.len() > 0,
        names[0] == other[0],
{
    assert(names.contains(names[0]));
    assert(set.contains(names[0]));
    let k = choose|k: int| 0 <= k < other.len() && other[k] == names[0];
    assert(other.contains(other[0]));
    assert(set.contains(other[0]));
    let l = choose|l: int| 0 <= l < names.len() && names[l] == other[0];
    if k > 0 && l > 0 {
        lemma_transitive(other[0], other[k], names[l]);
        lemma_irreflexive(other[0]);
    }
}

/// There is one way only to list a set in order.
pub proof fn lemma_one_listing(
    names: Seq<Seq<char>>,
    other: Seq<Seq<char>>,
    set: Set<Seq<char>>,
)
    requires
        lists(names, set),
        lists(other, set),
    ensures
        names == other,
    decreases names.len(),
{
    if names.len() == 0 {
        if other.len() > 0 {
            lemma_first_is_least(other, names, set);
        }
        assert(names =~= other);
    } else {
        lemma_first_is_least(names, other, set);
        let rest = set.remove(names[0]);
        lemma_rest(names, set);
        lemma_rest(other, set);
        lemma_one_listing(names.drop_first(), other.drop_first(), rest);
        assert(names =~= seq![names[0]] + names.drop_first());
        assert(other =~= seq![other[0]] + other.drop_first());
    }
}

proof fn lemma_rest(names: Seq<Seq<char>>, set: Set<Seq<char>>)
    requires
        lists(names, set),
        names.len() > 0,
    ensures
        lists(names.drop_first(), set.remove(names[0])),
{
    let rest = names.drop_first();
    assert forall|n: Seq<char>| #[trigger]
        set.remove(names[0]).contains(n) <==> rest.contains(n) by {
        if set.remove(names[0]).contains(n) {
            assert(set.contains(n));
            let k = choose|k: int| 0 <= k < names.len() && names[k] == n;
            assert(rest[k - 1] == n);
        }
        if rest.contains(n) {
            let k = choose|k: int| 0 <= k < rest.len() && rest[k] == n;
            assert(names[k + 1] == n);
            assert(set.contains(n));
            lemma_irreflexive(n);
        }
    }
}

/// A list that lists a set is the listing of it.
pub proof fn lemma_listing(names: Seq<Seq<char>>, set: Set<Seq<char>>)
    requires
        lists(names, set),
    ensures
        listing(set) == names,
{
    lemma_one_listing(names, listing(set), set);
}

/// A list in order with one more text in its place.
proof fn lemma_insert(names: Seq<Seq<char>>, a: Seq<char>) -> (r: Seq<Seq<char>>)
    requires
        ascending(names),
        !names.contains(a),
    ensures
        ascending(r),
        forall|n: Seq<char>| #[trigger] r.contains(n) <==> names.contains(n) || n == a,
    decreases names.len(),
{
    if names.len() == 0 {
        let r = seq![a];
        assert(r[0] == a);
        r
    } else if before(names.last(), a) {
        let r = names.push(a);
        assert forall|i: int, j: int| 0 <= i < j < r.len() implies before(r[i], r[j]) by {
            if j == r.len() - 1 && i < names.len() - 1 {
                lemma_transitive(names[i], names.last(), a);
            }
        }
        assert forall|n: Seq<char>| #[trigger] r.contains(n) <==> names.contains(n) || n == a by {
            if names.contains(n) {
                let i = choose|i: int| 0 <= i < names.len() && names[i] == n;
                assert(r[i] == n);
            }
            assert(r.last() == a);
        }
        r
    } else {
        assert(names.contains(names.last()));
        lemma_total(a, names.last());
        let rest = names.drop_last();
        assert forall|n: Seq<char>| #[trigger] rest.contains(n) implies names.contains(n) by {
            let i = choose|i: int| 0 <= i < rest.len() && rest[i] == n;
            assert(names[i] == n);
        }
        let q = lemma_insert(rest, a);
        let r = q.push(names.last());
        assert forall|i: int, j: int| 0 <= i < j < r.len() implies before(r[i], r[j]) by {
            if j == r.len() - 1 {
                assert(q.contains(q[i]));
                if q[i] != a {
                    let k = choose|k: int| 0 <= k < rest.len() && rest[k] == q[i];
                    assert(before(names[k], names[names.len() - 1]));
                }
            }
        }
        assert forall|n: Seq<char>| #[trigger] r.contains(n) <==> names.contains(n) || n == a by {
            if r.contains(n) && n != names.last() {
                let i = choose|i: int| 0 <= i < r.len() && r[i] == n;
                assert(q[i] == n);
                assert(q.contains(n));
            }
            if names.contains(n) && n != names.last() {
                let i = choose|i: int| 0 <= i < names.len() && names[i] == n;
                assert(rest[i] == n);
                assert(rest.contains(n));
            }
            if q.contains(n) {
                let i = choose|i: int| 0 <= i < q.len() && q[i] == n;
                assert(r[i] == n);
            }
            if n == a {
                assert(q.contains(n));
            }
            assert(r.last() == names.last());
        }
        r
    }
}

proof fn lemma_listed(set: Set<Seq<char>>) -> (names: Seq<Seq<char>>)
    requires
        set.finite(),
    ensures
        lists(names, set),
    decreases set.len(),
{
    if set.len() == 0 {
        let names: Seq<Seq<char>> = Seq::empty();
        assert forall|n: Seq<char>| #[trigger] set.contains(n) <==> names.contains(n) by {
            if set.contains(n) {
                assert(set =~= Set::empty());
            }
        }
        names
    } else {
        let a = set.choose();
        let rest = set.remove(a);
        let names = lemma_listed(rest);
        assert(!names.contains(a)) by {
            assert(!rest.contains(a));
        }
        let r = lemma_insert(names, a);
        assert forall|n: Seq<char>| #[trigger] set.contains(n) <==> r.contains(n) by {
            assert(set.contains(n) <==> rest.contains(n) || n == a);
        }
        r
    }
}

/// Every finite set is listed in order, each of its texts once.
pub proof fn law_listing(set: Set<Seq<char>>)
    requires
        set.finite(),
    ensures
        lists(listing(set), set),
        listing(set).no_duplicates(),
        listing(set).len() == set.len(),
{
    let names = lemma_listed(set);
    let l = listing(set);
    assert(lists(l, set));
    assert forall|i: int, j: int| 0 <= i < l.len() && 0 <= j < l.len() && i != j implies l[i]
        != l[j] by {
        lemma_irreflexive(l[i]);
        if i < j {
            assert(before(l[i], l[j]));
        } else {
            assert(before(l[j], l[i]));
        }
    }
    l.unique_seq_to_set();
    assert(l.to_set() =~= set);
}

} // verus!
