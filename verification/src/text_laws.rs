//! What holds of texts: their case, what stands in them, numbers written out, and their
//! order.
use vstd::prelude::*;

use crate::order;
use crate::sql;
use crate::text;

verus! {

/// The lower case of a capital letter is the small letter at the same place of the
/// alphabet; every other character is its own.
pub proof fn law_lower_case(c: char)
    ensures
        'A' <= c <= 'Z' ==> {
            &&& 'a' <= text::ascii_lower(c) <= 'z'
            &&& text::ascii_lower(c) as int - 'a' as int == c as int - 'A' as int
        },
        !('A' <= c <= 'Z') ==> text::ascii_lower(c) == c,
        text::ascii_lower(text::ascii_lower(c)) == text::ascii_lower(c),
{
}

/// A text in lower case has as many characters as before, each in lower case.
pub proof fn law_texts_in_lower_case(a: Seq<char>, b: Seq<char>)
    ensures
        text::lowered(a).len() == a.len(),
        forall|i: int| 0 <= i < a.len() ==> #[trigger] text::lowered(a)[i] == text::ascii_lower(a[i]),
        text::lowered(a + b) == text::lowered(a) + text::lowered(b),
{
    assert(text::lowered(a + b) =~= text::lowered(a) + text::lowered(b));
}

/// One text stands in another exactly where the other is something, it, and something.
pub proof fn law_what_stands_in_a_text(hay: Seq<char>, needle: Seq<char>)
    ensures
        text::occurs(hay, needle) == exists|a: Seq<char>, b: Seq<char>|
            hay == #[trigger] (a + needle + b),
{
    if text::occurs(hay, needle) {
        let i = choose|i: int| text::occurs_at(hay, needle, i);
        let a = hay.take(i);
        let b = hay.skip(i + needle.len());
        assert(hay =~= a + needle + b);
    }
    if exists|a: Seq<char>, b: Seq<char>| hay == #[trigger] (a + needle + b) {
        let (a, b) = choose|a: Seq<char>, b: Seq<char>| hay == #[trigger] (a + needle + b);
        assert(hay.subrange(a.len() as int, (a.len() + needle.len()) as int) =~= needle);
        assert(text::occurs_at(hay, needle, a.len() as int));
    }
}

/// Within ASCII the letters and the digits are alphanumeric, and nothing else is; elsewhere
/// what Unicode takes for alphanumeric is. A word is made of these and of underscores.
pub proof fn law_letters_and_digits(c: char)
    ensures
        (c as u32) < 128 ==> text::is_alnum(c) == ('a' <= c <= 'z' || 'A' <= c <= 'Z' || '0' <= c
            <= '9'),
        c as u32 >= 128 ==> text::is_alnum(c) == text::unicode_alphanumeric(c),
        sql::ident_char(c) == (text::is_alnum(c) || c == '_'),
{
}

/// The number that a text of digits stands for.
pub open spec fn number_of(digits: Seq<char>) -> int
    decreases digits.len(),
{
    if digits.len() == 0 {
        0
    } else {
        10 * number_of(digits.drop_last()) + (digits.last() as int - '0' as int)
    }
}

/// A number in decimal is a text of digits that stands for it, and begins with a zero only
/// where it is zero. A negative number has a minus sign before it.
pub proof fn law_decimal(n: nat)
    ensures
        text::decimal(n).len() > 0,
        forall|i: int|
            0 <= i < text::decimal(n).len() ==> '0' <= #[trigger] text::decimal(n)[i] <= '9',
        number_of(text::decimal(n)) == n,
        n > 0 ==> text::decimal(n)[0] != '0',
        n == 0 ==> text::decimal(n) == seq!['0'],
        text::signed_decimal(n as int) == text::decimal(n),
        n > 0 ==> text::signed_decimal(-(n as int)) == seq!['-'] + text::decimal(n),
    decreases n,
{
    let digits = text::decimal(n);
    if n < 10 {
        assert(digits.drop_last() =~= Seq::empty());
        reveal_with_fuel(number_of, 2);
        assert(digits[0] as int == 48 + n);
    } else {
        law_decimal(n / 10);
        let front = text::decimal(n / 10);
        assert(digits.drop_last() =~= front);
        assert(digits.last() as int == 48 + n % 10);
        assert(digits[0] == front[0]);
        assert forall|i: int| 0 <= i < digits.len() implies '0' <= #[trigger] digits[i] <= '9' by {
            if i < front.len() {
                assert(digits[i] == front[i]);
            }
        }
    }
}

/// A text that is padded with zeros is as wide as asked or as it was, ends with what it
/// was, and has zeros before that.
pub proof fn law_zero_padding(s: Seq<char>, width: nat)
    ensures
        ({
            let padded = text::zero_padded(s, width);
            &&& padded.len() == if s.len() < width {
                width
            } else {
                s.len()
            }
            &&& padded.skip(padded.len() - s.len()) == s
            &&& forall|i: int| 0 <= i < padded.len() - s.len() ==> #[trigger] padded[i] == '0'
        }),
    decreases width - s.len(),
{
    if s.len() < width {
        let longer = seq!['0'] + s;
        law_zero_padding(longer, width);
        let padded = text::zero_padded(s, width);
        assert(padded.skip(padded.len() - longer.len())[0] == '0');
        assert(padded.skip(padded.len() - s.len()) =~= longer.skip(1)) by {
            assert(padded.skip(padded.len() - s.len()) =~= padded.skip(
                padded.len() - longer.len(),
            ).skip(1));
        }
        assert(longer.skip(1) =~= s);
    } else {
        assert(s.skip(0) =~= s);
    }
}

/// One text comes before another exactly where it is the beginning of it and shorter, or
/// where the first character in which they differ is the smaller one.
pub proof fn law_which_text_comes_first(a: Seq<char>, b: Seq<char>)
    ensures
        order::before(a, b) == exists|k: int|
            0 <= k <= a.len() && k < b.len() && #[trigger] a.take(k) == b.take(k) && (k == a.len()
                || a[k] < b[k]),
    decreases a.len(),
{
    if a.len() > 0 && b.len() > 0 && a[0] == b[0] {
        let (c, d) = (a.drop_first(), b.drop_first());
        law_which_text_comes_first(c, d);
        if order::before(a, b) {
            let k = choose|k: int|
                0 <= k <= c.len() && k < d.len() && #[trigger] c.take(k) == d.take(k) && (k
                    == c.len() || c[k] < d[k]);
            assert(a.take(k + 1) =~= seq![a[0]] + c.take(k));
            assert(b.take(k + 1) =~= seq![b[0]] + d.take(k));
            assert(a.take(k + 1) == b.take(k + 1));
        }
        if exists|k: int|
            0 <= k <= a.len() && k < b.len() && #[trigger] a.take(k) == b.take(k) && (k == a.len()
                || a[k] < b[k]) {
            let k = choose|k: int|
                0 <= k <= a.len() && k < b.len() && #[trigger] a.take(k) == b.take(k) && (k
                    == a.len() || a[k] < b[k]);
            assert(k > 0);
            assert(c.take(k - 1) =~= a.take(k).drop_first());
            assert(d.take(k - 1) =~= b.take(k).drop_first());
            assert(c.take(k - 1) == d.take(k - 1));
        }
    } else if b.len() > 0 {
        if order::before(a, b) {
            assert(a.take(0) =~= b.take(0));
        }
        if exists|k: int|
            0 <= k <= a.len() && k < b.len() && #[trigger] a.take(k) == b.take(k) && (k == a.len()
                || a[k] < b[k]) {
            let k = choose|k: int|
                0 <= k <= a.len() && k < b.len() && #[trigger] a.take(k) == b.take(k) && (k
                    == a.len() || a[k] < b[k]);
            if k > 0 {
                assert(a.take(k)[0] == b.take(k)[0]);
            }
        }
    }
}

/// A name without quotes is quoted by a quote before it and one behind it; each quote in a
/// name is written twice.
pub proof fn law_quoted_names(name: Seq<char>, a: Seq<char>, b: Seq<char>)
    ensures
        !name.contains('"') ==> sql::quoted_ident(name) == seq!['"'] + name + seq!['"'],
        sql::doubled(a + seq!['"'] + b) == sql::doubled(a) + seq!['"', '"'] + sql::doubled(b),
{
    lemma_doubled_plain(name);
    lemma_doubled_parts(a + seq!['"'], b);
    lemma_doubled_parts(a, seq!['"']);
    lemma_doubled_quote();
    if !name.contains('"') {
        assert(sql::quoted_ident(name) =~= seq!['"'] + name + seq!['"']);
    }
    assert(sql::doubled(a + seq!['"'] + b) =~= sql::doubled(a) + seq!['"', '"'] + sql::doubled(b));
}

proof fn lemma_doubled_quote()
    ensures
        sql::doubled(seq!['"']) == seq!['"', '"'],
{
    reveal_with_fuel(sql::doubled, 2);
    assert(sql::doubled(seq!['"']) =~= seq!['"', '"']);
}

proof fn lemma_doubled_plain(name: Seq<char>)
    ensures
        !name.contains('"') ==> sql::doubled(name) == name,
    decreases name.len(),
{
    if name.len() > 0 && !name.contains('"') {
        lemma_doubled_plain(name.drop_last());
        assert(name.last() != '"');
        assert(sql::doubled(name) =~= name);
    }
}

proof fn lemma_doubled_parts(a: Seq<char>, b: Seq<char>)
    ensures
        sql::doubled(a + b) == sql::doubled(a) + sql::doubled(b),
    decreases a.len() + b.len(),
{
    if b.len() == 0 {
        assert(a + b =~= a);
        assert(sql::doubled(a + b) =~= sql::doubled(a) + sql::doubled(b));
    } else {
        lemma_doubled_parts(a, b.drop_last());
        assert((a + b).drop_last() =~= a + b.drop_last());
        assert(sql::doubled(a + b) =~= sql::doubled(a) + sql::doubled(b));
    }
}

} // verus!
