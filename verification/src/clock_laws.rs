//! The order of time stamps as texts.
use vstd::prelude::*;

use crate::clock;
use crate::order;
use crate::text;

verus! {

/// The last `w` decimal digits of a number.
pub open spec fn digits(n: nat, w: nat) -> Seq<char>
    decreases w,
{
    if w == 0 {
        Seq::empty()
    } else {
        digits(n / 10, (w - 1) as nat).push(text::digit((n % 10) as int))
    }
}

proof fn lemma_two_digits(n: nat)
    requires
        n < 100,
    ensures
        text::zero_padded(text::decimal(n), 2) == digits(n, 2),
{
    reveal_with_fuel(text::decimal, 3);
    reveal_with_fuel(text::zero_padded, 3);
    reveal_with_fuel(digits, 3);
    assert(text::zero_padded(text::decimal(n), 2) =~= digits(n, 2));
}

proof fn lemma_four_digits(n: nat)
    requires
        1000 <= n < 10_000,
    ensures
        text::zero_padded(text::decimal(n), 4) == digits(n, 4),
{
    reveal_with_fuel(text::decimal, 5);
    reveal_with_fuel(text::zero_padded, 2);
    reveal_with_fuel(digits, 5);
    assert(text::decimal(n) =~= digits(n, 4));
}

/// Appending to two texts of one length keeps their order; where they are the same, what
/// is appended decides.
proof fn lemma_append(p: Seq<char>, q: Seq<char>, x: Seq<char>, y: Seq<char>)
    requires
        p.len() == q.len(),
        order::before(p, q) || (p == q && order::before(x, y)),
    ensures
        order::before(p + x, q + y),
    decreases p.len(),
{
    if p.len() == 0 {
        assert(p + x =~= x);
        assert(q + y =~= y);
    } else {
        assert((p + x).drop_first() =~= p.drop_first() + x);
        assert((q + y).drop_first() =~= q.drop_first() + y);
        if p[0] == q[0] {
            lemma_append(p.drop_first(), q.drop_first(), x, y);
        }
    }
}

proof fn lemma_digits_length(n: nat, w: nat)
    ensures
        digits(n, w).len() == w,
    decreases w,
{
    if w > 0 {
        lemma_digits_length(n / 10, (w - 1) as nat);
    }
}

spec fn power_of_ten(w: nat) -> nat
    decreases w,
{
    if w == 0 {
        1
    } else {
        10 * power_of_ten((w - 1) as nat)
    }
}

/// Numbers of one width are ordered as their digits are.
proof fn lemma_digits_in_order(m: nat, n: nat, w: nat)
    requires
        m < n < power_of_ten(w),
    ensures
        order::before(digits(m, w), digits(n, w)),
    decreases w,
{
    if w > 0 {
        let v = (w - 1) as nat;
        lemma_digits_length(m / 10, v);
        lemma_digits_length(n / 10, v);
        let a = seq![text::digit((m % 10) as int)];
        let b = seq![text::digit((n % 10) as int)];
        if m / 10 < n / 10 {
            lemma_digits_in_order(m / 10, n / 10, v);
        } else {
            assert(order::before(a, b)) by {
                assert(a[0] != b[0]);
            }
        }
        lemma_append(digits(m / 10, v), digits(n / 10, v), a, b);
        assert(digits(m, w) =~= digits(m / 10, v) + a);
        assert(digits(n, w) =~= digits(n / 10, v) + b);
    }
}

spec fn date_text(y: nat, m: nat, d: nat) -> Seq<char> {
    digits(y, 4) + "-"@ + digits(m, 2) + "-"@ + digits(d, 2)
}

spec fn time_text(hh: nat, mm: nat, ss: nat) -> Seq<char> {
    "T"@ + digits(hh, 2) + ":"@ + digits(mm, 2) + ":"@ + digits(ss, 2) + "Z"@
}

proof fn lemma_stamp_text(y: nat, m: nat, d: nat, hh: nat, mm: nat, ss: nat)
    requires
        1000 <= y < 10_000,
        m < 100,
        d < 100,
        hh < 100,
        mm < 100,
        ss < 100,
    ensures
        clock::stamp(y, m, d, hh, mm, ss) == date_text(y, m, d) + time_text(hh, mm, ss),
{
    lemma_four_digits(y);
    lemma_two_digits(m);
    lemma_two_digits(d);
    lemma_two_digits(hh);
    lemma_two_digits(mm);
    lemma_two_digits(ss);
    assert(clock::stamp(y, m, d, hh, mm, ss) =~= date_text(y, m, d) + time_text(hh, mm, ss));
}

proof fn lemma_dates_in_order(y1: nat, m1: nat, d1: nat, y2: nat, m2: nat, d2: nat)
    requires
        y1 < 10_000,
        y2 < 10_000,
        m1 < 100,
        m2 < 100,
        d1 < 100,
        d2 < 100,
        clock::date_before(
            y1 as int,
            m1 as int,
            d1 as int,
            y2 as int,
            m2 as int,
            d2 as int,
        ),
    ensures
        order::before(date_text(y1, m1, d1), date_text(y2, m2, d2)),
{
    reveal_with_fuel(power_of_ten, 5);
    lemma_digits_length(y1, 4);
    lemma_digits_length(y2, 4);
    lemma_digits_length(m1, 2);
    lemma_digits_length(m2, 2);
    let p1 = digits(y1, 4) + "-"@;
    let p2 = digits(y2, 4) + "-"@;
    let q1 = p1 + digits(m1, 2);
    let q2 = p2 + digits(m2, 2);
    if y1 < y2 {
        lemma_digits_in_order(y1, y2, 4);
        lemma_append(digits(y1, 4), digits(y2, 4), "-"@, "-"@);
        lemma_append(p1, p2, digits(m1, 2), digits(m2, 2));
        lemma_append(q1, q2, "-"@, "-"@);
        lemma_append(q1 + "-"@, q2 + "-"@, digits(d1, 2), digits(d2, 2));
    } else if m1 < m2 {
        lemma_digits_in_order(m1, m2, 2);
        lemma_append(p1, p2, digits(m1, 2), digits(m2, 2));
        lemma_append(q1, q2, "-"@, "-"@);
        lemma_append(q1 + "-"@, q2 + "-"@, digits(d1, 2), digits(d2, 2));
    } else {
        lemma_digits_in_order(d1, d2, 2);
        lemma_append(q1 + "-"@, q2 + "-"@, digits(d1, 2), digits(d2, 2));
    }
}

proof fn lemma_times_in_order(h1: nat, m1: nat, s1: nat, h2: nat, m2: nat, s2: nat)
    requires
        h1 < 100,
        h2 < 100,
        m1 < 100,
        m2 < 100,
        s1 < 100,
        s2 < 100,
        h1 < h2 || (h1 == h2 && (m1 < m2 || (m1 == m2 && s1 < s2))),
    ensures
        order::before(time_text(h1, m1, s1), time_text(h2, m2, s2)),
{
    reveal_with_fuel(power_of_ten, 5);
    lemma_digits_length(h1, 2);
    lemma_digits_length(h2, 2);
    lemma_digits_length(m1, 2);
    lemma_digits_length(m2, 2);
    lemma_digits_length(s1, 2);
    lemma_digits_length(s2, 2);
    let a1 = "T"@ + digits(h1, 2);
    let a2 = "T"@ + digits(h2, 2);
    let b1 = a1 + ":"@;
    let b2 = a2 + ":"@;
    let c1 = b1 + digits(m1, 2);
    let c2 = b2 + digits(m2, 2);
    let e1 = c1 + ":"@;
    let e2 = c2 + ":"@;
    if h1 < h2 {
        lemma_digits_in_order(h1, h2, 2);
        lemma_append("T"@, "T"@, digits(h1, 2), digits(h2, 2));
        lemma_append(a1, a2, ":"@, ":"@);
        lemma_append(b1, b2, digits(m1, 2), digits(m2, 2));
        lemma_append(c1, c2, ":"@, ":"@);
    } else if m1 < m2 {
        lemma_digits_in_order(m1, m2, 2);
        lemma_append(b1, b2, digits(m1, 2), digits(m2, 2));
        lemma_append(c1, c2, ":"@, ":"@);
    } else {
        lemma_digits_in_order(s1, s2, 2);
    }
    lemma_append(e1, e2, digits(s1, 2), digits(s2, 2));
    lemma_append(e1 + digits(s1, 2), e2 + digits(s2, 2), "Z"@, "Z"@);
}

/// A date before the year 10000 has a year of four digits.
proof fn lemma_four_digit_year(y: nat, m: nat, d: nat)
    requires
        clock::valid_date(y as int, m as int, d as int),
        0 <= clock::day_number(y as int, m as int, d as int) < clock::day_number(10_000, 1, 1),
    ensures
        1970 <= y < 10_000,
{
    reveal(clock::year_start);
    assert(clock::valid_date(10_000, 1, 1) && clock::valid_date(1970, 1, 1));
    assert(clock::day_number(1970, 1, 1) == 0);
    clock::law_day_numbers_follow_the_calendar(
        y as int,
        m as int,
        d as int,
        10_000,
        1,
        1,
    );
    clock::law_day_numbers_follow_the_calendar(y as int, m as int, d as int, 1970, 1, 1);
}

/// Up to the end of the year 9999, stamps are ordered as texts just as their instants
/// are in time: to sort by the stamp is to sort by time.
pub proof fn law_stamps_sort_by_time(a: Seq<char>, b: Seq<char>, t1: int, t2: int)
    requires
        clock::is_stamp_of(a, t1),
        clock::is_stamp_of(b, t2),
        0 <= t1 < t2,
        t2 / 86_400 < clock::day_number(10_000, 1, 1),
    ensures
        order::before(a, b),
{
    let (y1, m1, d1) = choose|y: nat, m: nat, d: nat|
        {
            &&& clock::valid_date(y as int, m as int, d as int)
            &&& clock::day_number(y as int, m as int, d as int) == t1 / 86_400
            &&& a == #[trigger] clock::stamp(
                y,
                m,
                d,
                ((t1 % 86_400) / 3600) as nat,
                ((t1 % 3600) / 60) as nat,
                (t1 % 60) as nat,
            )
        };
    let (y2, m2, d2) = choose|y: nat, m: nat, d: nat|
        {
            &&& clock::valid_date(y as int, m as int, d as int)
            &&& clock::day_number(y as int, m as int, d as int) == t2 / 86_400
            &&& b == #[trigger] clock::stamp(
                y,
                m,
                d,
                ((t2 % 86_400) / 3600) as nat,
                ((t2 % 3600) / 60) as nat,
                (t2 % 60) as nat,
            )
        };
    let (h1, n1, s1) = (
        ((t1 % 86_400) / 3600) as nat,
        ((t1 % 3600) / 60) as nat,
        (t1 % 60) as nat,
    );
    let (h2, n2, s2) = (
        ((t2 % 86_400) / 3600) as nat,
        ((t2 % 3600) / 60) as nat,
        (t2 % 60) as nat,
    );
    lemma_four_digit_year(y1, m1, d1);
    lemma_four_digit_year(y2, m2, d2);
    lemma_stamp_text(y1, m1, d1, h1, n1, s1);
    lemma_stamp_text(y2, m2, d2, h2, n2, s2);
    lemma_date_length(y1, m1, d1);
    lemma_date_length(y2, m2, d2);
    clock::law_day_numbers_follow_the_calendar(
        y1 as int,
        m1 as int,
        d1 as int,
        y2 as int,
        m2 as int,
        d2 as int,
    );
    if t1 / 86_400 < t2 / 86_400 {
        lemma_dates_in_order(y1, m1, d1, y2, m2, d2);
    } else {
        lemma_clock_order(t1, t2);
        lemma_times_in_order(h1, n1, s1, h2, n2, s2);
    }
    lemma_append(
        date_text(y1, m1, d1),
        date_text(y2, m2, d2),
        time_text(h1, n1, s1),
        time_text(h2, n2, s2),
    );
}

proof fn lemma_date_length(y: nat, m: nat, d: nat)
    ensures
        date_text(y, m, d).len() == 8 + 2 * "-"@.len(),
{
    lemma_digits_length(y, 4);
    lemma_digits_length(m, 2);
    lemma_digits_length(d, 2);
}

/// Of two instants of one day the earlier has the smaller hour, minute or second, in
/// this order.
proof fn lemma_clock_order(t1: int, t2: int)
    requires
        0 <= t1 < t2,
        t1 / 86_400 == t2 / 86_400,
    ensures
        ({
            let (h1, n1, s1) = ((t1 % 86_400) / 3600, (t1 % 3600) / 60, t1 % 60);
            let (h2, n2, s2) = ((t2 % 86_400) / 3600, (t2 % 3600) / 60, t2 % 60);
            h1 < h2 || (h1 == h2 && (n1 < n2 || (n1 == n2 && s1 < s2)))
        }),
{
    lemma_time_of_day(t1);
    lemma_time_of_day(t2);
}

/// The hour, the minute and the second of an instant make up its time of day.
proof fn lemma_time_of_day(t: int)
    requires
        0 <= t,
    ensures
        t % 86_400 == 3600 * ((t % 86_400) / 3600) + 60 * ((t % 3600) / 60) + t % 60,
        t == 86_400 * (t / 86_400) + t % 86_400,
        0 <= t % 60 < 60,
        0 <= (t % 3600) / 60 < 60,
{
    let r = t % 86_400;
    let q = t % 3600;
    assert(r % 3600 == q) by (nonlinear_arith)
        requires
            r == t % 86_400,
            q == t % 3600,
    ;
    assert(q % 60 == t % 60) by (nonlinear_arith)
        requires
            q == t % 3600,
    ;
}

} // verus!
