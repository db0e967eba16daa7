//! What holds of the calendar and of how an instant is written.
use vstd::prelude::*;

use crate::clock;
use crate::text;
use crate::text_laws;

verus! {

/// Seven months have 31 days and four have 30. February has 28, and 29 in every fourth year;
/// of the years that end a century only every fourth is such a year.
pub proof fn law_the_lengths_of_the_months(y: int)
    ensures
        clock::month_length(y, 1) == 31,
        y % 400 == 0 ==> clock::month_length(y, 2) == 29,
        y % 100 == 0 && y % 400 != 0 ==> clock::month_length(y, 2) == 28,
        y % 4 == 0 && y % 100 != 0 ==> clock::month_length(y, 2) == 29,
        y % 4 != 0 ==> clock::month_length(y, 2) == 28,
        clock::month_length(y, 3) == 31,
        clock::month_length(y, 4) == 30,
        clock::month_length(y, 5) == 31,
        clock::month_length(y, 6) == 30,
        clock::month_length(y, 7) == 31,
        clock::month_length(y, 8) == 31,
        clock::month_length(y, 9) == 30,
        clock::month_length(y, 10) == 31,
        clock::month_length(y, 11) == 30,
        clock::month_length(y, 12) == 31,
{
}

/// The days are numbered from 1 January 1970 on: that day has the number zero, and the day
/// after a day, be it in the same month, the first of the next or the first of the next
/// year, has the next number.
pub proof fn law_days_are_counted(y: int, m: int, d: int)
    requires
        1 <= m <= 12,
        1 <= d <= clock::month_length(y, m),
    ensures
        clock::valid_date(y, m, d),
        clock::day_number(1970, 1, 1) == 0,
        d < clock::month_length(y, m) ==> clock::day_number(y, m, d + 1) == clock::day_number(
            y,
            m,
            d,
        ) + 1,
        d == clock::month_length(y, m) && m < 12 ==> clock::day_number(y, m + 1, 1)
            == clock::day_number(y, m, d) + 1,
        d == clock::month_length(y, m) && m == 12 ==> clock::day_number(y + 1, 1, 1)
            == clock::day_number(y, m, d) + 1,
{
    reveal(clock::year_start);
    clock::law_year_length(y);
}

proof fn lemma_leading_zero(s: Seq<char>)
    ensures
        text_laws::number_of(seq!['0'] + s) == text_laws::number_of(s),
    decreases s.len(),
{
    let t = seq!['0'] + s;
    if s.len() == 0 {
        assert(t.drop_last() =~= Seq::empty());
        reveal_with_fuel(text_laws::number_of, 2);
    } else {
        lemma_leading_zero(s.drop_last());
        assert(t.drop_last() =~= seq!['0'] + s.drop_last());
    }
}

proof fn lemma_padded_number(s: Seq<char>, width: nat)
    ensures
        text_laws::number_of(text::zero_padded(s, width)) == text_laws::number_of(s),
    decreases width - s.len(),
{
    if s.len() < width {
        lemma_leading_zero(s);
        lemma_padded_number(seq!['0'] + s, width);
    }
}

proof fn lemma_padded(n: nat, width: nat)
    ensures
        text::zero_padded(text::decimal(n), width).len() >= width,
        width == 2 && n < 100 || width == 4 && n < 10_000 ==> text::zero_padded(
            text::decimal(n),
            width,
        ).len() == width,
        text_laws::number_of(text::zero_padded(text::decimal(n), width)) == n,
{
    text_laws::law_decimal(n);
    lemma_padded_number(text::decimal(n), width);
    text_laws::law_zero_padding(text::decimal(n), width);
    reveal_with_fuel(text::decimal, 4);
}

/// How an instant is written: the year in four digits, or in as many as it takes from the
/// year 10000 on; then the month, the day, the hour, the minute and the second in two digits
/// each, with dashes, a `T`, colons and a `Z` between and behind them. The date is that of the
/// day that the seconds fall on, and the time of day what is left of them.
pub proof fn law_how_an_instant_is_written(s: Seq<char>, secs: int)
    requires
        clock::is_stamp_of(s, secs),
        0 <= secs,
    ensures
        s.len() >= 20,
        ({
            let k = s.len() - 16;
            let y = text_laws::number_of(s.take(k));
            let m = text_laws::number_of(s.subrange(k + 1, k + 3));
            let d = text_laws::number_of(s.subrange(k + 4, k + 6));
            let hour = text_laws::number_of(s.subrange(k + 7, k + 9));
            let minute = text_laws::number_of(s.subrange(k + 10, k + 12));
            let second = text_laws::number_of(s.subrange(k + 13, k + 15));
            &&& s[k] == '-' && s[k + 3] == '-' && s[k + 6] == 'T'
            &&& s[k + 9] == ':' && s[k + 12] == ':' && s[k + 15] == 'Z'
            &&& y < 10_000 ==> k == 4
            &&& 1 <= m <= 12
            &&& 1 <= d <= clock::month_length(y, m)
            &&& 0 <= hour < 24
            &&& 0 <= minute < 60
            &&& 0 <= second < 60
            &&& secs == 86_400 * clock::day_number(y, m, d) + 3600 * hour + 60 * minute + second
        }),
{
    let hh = ((secs % 86_400) / 3600) as nat;
    let mm = ((secs % 3600) / 60) as nat;
    let ss = (secs % 60) as nat;
    let (y, m, d) = choose|y: nat, m: nat, d: nat|
        {
            &&& clock::valid_date(y as int, m as int, d as int)
            &&& clock::day_number(y as int, m as int, d as int) == secs / 86_400
            &&& s == #[trigger] clock::stamp(y, m, d, hh, mm, ss)
        };
    lemma_padded(y, 4);
    lemma_padded(m, 2);
    lemma_padded(d, 2);
    lemma_padded(hh, 2);
    lemma_padded(mm, 2);
    lemma_padded(ss, 2);
    reveal_strlit("-");
    reveal_strlit("T");
    reveal_strlit(":");
    reveal_strlit("Z");
    let k = s.len() - 16;
    assert(s.take(k) =~= text::zero_padded(text::decimal(y), 4));
    assert(s.subrange(k + 1, k + 3) =~= text::zero_padded(text::decimal(m), 2));
    assert(s.subrange(k + 4, k + 6) =~= text::zero_padded(text::decimal(d), 2));
    assert(s.subrange(k + 7, k + 9) =~= text::zero_padded(text::decimal(hh), 2));
    assert(s.subrange(k + 10, k + 12) =~= text::zero_padded(text::decimal(mm), 2));
    assert(s.subrange(k + 13, k + 15) =~= text::zero_padded(text::decimal(ss), 2));
    assert(secs % 86_400 == 3600 * hh + 60 * mm + ss);
}

/// What counts as a stamp is how some instant from the epoch on is written.
pub proof fn law_a_stamp_tells_an_instant(s: Seq<char>)
    requires
        clock::is_stamp(s),
    ensures
        exists|secs: int| 0 <= secs <= u64::MAX && #[trigger] clock::is_stamp_of(s, secs),
{
    let secs = choose|secs: u64| #[trigger] clock::is_stamp_of(s, secs as int);
    assert(clock::is_stamp_of(s, secs as int));
}

} // verus!
