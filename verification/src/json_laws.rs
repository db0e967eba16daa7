//! What holds of JSON values: what is found under a key, and how a value is written.
use vstd::prelude::*;

use crate::json;
use crate::text;

verus! {

/// The value of an entry is found under its key where no entry before it has that key.
pub proof fn lemma_entry(entries: Seq<(Seq<char>, json::JsonView)>, i: int)
    requires
        0 <= i < entries.len(),
        forall|j: int| 0 <= j < i ==> (#[trigger] entries[j]).0 != entries[i].0,
    ensures
        json::lookup(entries, entries[i].0) == Some(entries[i].1),
    decreases entries.len(),
{
    if i > 0 {
        assert(entries[0].0 != entries[i].0);
        let rest = entries.drop_first();
        assert(rest[i - 1] == entries[i]);
        assert forall|j: int| 0 <= j < i - 1 implies (#[trigger] rest[j]).0 != rest[i - 1].0 by {
            assert(rest[j] == entries[j + 1]);
        }
        lemma_entry(rest, i - 1);
    }
}

/// What is found under a key of an object is the value of the first entry that has the
/// key; nothing is found where no entry has it.
pub proof fn law_what_stands_under_a_key(
    entries: Seq<(Seq<char>, json::JsonView)>,
    key: Seq<char>,
    i: int,
)
    ensures
        0 <= i < entries.len() && entries[i].0 == key && (forall|j: int|
            0 <= j < i ==> (#[trigger] entries[j]).0 != key) ==> json::JsonView::Object(
            entries,
        ).get(key) == Some(entries[i].1),
        (forall|j: int| 0 <= j < entries.len() ==> (#[trigger] entries[j]).0 != key)
            ==> json::JsonView::Object(entries).get(key) is None,
{
    if 0 <= i < entries.len() && entries[i].0 == key && (forall|j: int|
        0 <= j < i ==> (#[trigger] entries[j]).0 != key) {
        lemma_entry(entries, i);
    }
    lemma_no_entry(entries, key);
}

proof fn lemma_no_entry(entries: Seq<(Seq<char>, json::JsonView)>, key: Seq<char>)
    ensures
        (forall|j: int| 0 <= j < entries.len() ==> (#[trigger] entries[j]).0 != key)
            ==> json::lookup(entries, key) is None,
    decreases entries.len(),
{
    if entries.len() > 0 && (forall|j: int|
        0 <= j < entries.len() ==> (#[trigger] entries[j]).0 != key) {
        let rest = entries.drop_first();
        assert forall|j: int| 0 <= j < rest.len() implies (#[trigger] rest[j]).0 != key by {
            assert(rest[j] == entries[j + 1]);
        }
        lemma_no_entry(rest, key);
        assert(entries[0].0 != key);
    }
}

/// A value is read under a key only as what it is: a text as a text, a truth value as a
/// truth value, an integer that is not negative as such, a list as a list. What is no
/// object has nothing under any key.
pub proof fn law_values_are_read_as_what_they_are(v: json::JsonView, key: Seq<char>)
    ensures
        !(v is Object) ==> v.get(key) is None,
        v.get(key) is None ==> v.text_at(key) is None && v.bool_at(key) is None && v.unsigned_at(
            key,
        ) is None && v.array_at(key) is None,
        v.get(key) is Some ==> {
            let under = v.get(key)->0;
            &&& v.text_at(key) == if under is Text {
                Some(under->Text_0)
            } else {
                None
            }
            &&& v.bool_at(key) == if under is Bool {
                Some(under->Bool_0)
            } else {
                None
            }
            &&& v.unsigned_at(key) == if under is Number && under->Number_0 is Unsigned {
                Some(under->Number_0->Unsigned_0)
            } else {
                None
            }
            &&& v.array_at(key) == if under is Array {
                Some(under->Array_0)
            } else {
                None
            }
        },
        forall|t: Option<Seq<char>>| #[trigger]
            json::optional_text(t) == if t is Some {
                json::JsonView::Text(t->0)
            } else {
                json::JsonView::Null
            },
{
}

/// How a value is written: `null`, the truth values and the numbers by their literals, a
/// list as its items between square brackets and an object as its entries between curly
/// ones, each key before its value and a colon between them, with commas between items and
/// between entries, and no whitespace.
#[verifier::rlimit(40)]
pub proof fn law_how_values_are_written(
    items: Seq<json::JsonView>,
    entries: Seq<(Seq<char>, json::JsonView)>,
    v: json::JsonView,
    key: Seq<char>,
    n: u64,
    m: i64,
    bits: u64,
    literal: Seq<char>,
)
    ensures
        json::compact(json::JsonView::Null) == seq!['n', 'u', 'l', 'l'],
        json::compact(json::JsonView::Bool(true)) == seq!['t', 'r', 'u', 'e'],
        json::compact(json::JsonView::Bool(false)) == seq!['f', 'a', 'l', 's', 'e'],
        json::compact(json::JsonView::Number(json::NumberView::Unsigned(n))) == text::decimal(
            n as nat,
        ),
        m < 0 ==> json::compact(json::JsonView::Number(json::NumberView::Negative(m))) == seq!['-']
            + text::decimal(-(m as int) as nat),
        m >= 0 ==> json::compact(json::JsonView::Number(json::NumberView::Negative(m)))
            == text::decimal(m as nat),
        json::compact(json::JsonView::Number(json::NumberView::Float { bits, literal }))
            == literal,
        json::compact(json::JsonView::Text(key)) == json::quoted(key),
        json::compact(json::JsonView::Array(Seq::empty())) == seq!['[', ']'],
        json::compact(json::JsonView::Array(seq![v])) == seq!['['] + json::compact(v) + seq![']'],
        items.len() > 0 ==> json::compact(json::JsonView::Array(items.push(v))) == json::compact(
            json::JsonView::Array(items),
        ).drop_last() + seq![','] + json::compact(v) + seq![']'],
        json::compact(json::JsonView::Object(Seq::empty())) == seq!['{', '}'],
        json::compact(json::JsonView::Object(seq![(key, v)])) == seq!['{'] + json::quoted(key)
            + seq![':'] + json::compact(v) + seq!['}'],
        entries.len() > 0 ==> json::compact(json::JsonView::Object(entries.push((key, v))))
            == json::compact(json::JsonView::Object(entries)).drop_last() + seq![',']
            + json::quoted(key) + seq![':'] + json::compact(v) + seq!['}'],
{
    reveal_strlit("null");
    reveal_strlit("true");
    reveal_strlit("false");
    assert("null"@ =~= seq!['n', 'u', 'l', 'l']);
    assert("true"@ =~= seq!['t', 'r', 'u', 'e']);
    assert("false"@ =~= seq!['f', 'a', 'l', 's', 'e']);
    let no_items = Seq::<json::JsonView>::empty();
    assert(json::compact_items(no_items, 0) =~= Seq::empty());
    assert(json::compact(json::JsonView::Array(no_items)) =~= seq!['[', ']']);
    assert(json::compact_items(seq![v], 1) == json::compact(v));
    let no_entries = Seq::<(Seq<char>, json::JsonView)>::empty();
    assert(json::compact_entries(no_entries, 0) =~= Seq::empty());
    assert(json::compact(json::JsonView::Object(no_entries)) =~= seq!['{', '}']);
    let one = seq![(key, v)];
    assert(json::compact_entries(one, 1) == json::quoted(key) + seq![':'] + json::compact(v));
    assert(json::compact(json::JsonView::Object(one)) =~= seq!['{'] + json::quoted(key) + seq![':']
        + json::compact(v) + seq!['}']);
    if items.len() > 0 {
        let k = items.len() as int;
        lemma_first_items(items, v, k);
        let more = items.push(v);
        assert(json::compact_items(more, k + 1) == json::compact_items(more, k) + seq![',']
            + json::compact(v));
        assert(json::compact(json::JsonView::Array(more)) =~= json::compact(
            json::JsonView::Array(items),
        ).drop_last() + seq![','] + json::compact(v) + seq![']']);
    }
    if entries.len() > 0 {
        let k = entries.len() as int;
        lemma_first_entries(entries, (key, v), k);
        let more = entries.push((key, v));
        assert(json::compact_entries(more, k + 1) == json::compact_entries(more, k) + seq![',']
            + json::quoted(key) + seq![':'] + json::compact(v));
        assert(json::compact(json::JsonView::Object(more)) =~= json::compact(
            json::JsonView::Object(entries),
        ).drop_last() + seq![','] + json::quoted(key) + seq![':'] + json::compact(v) + seq!['}']);
    }
}

proof fn lemma_first_items(items: Seq<json::JsonView>, v: json::JsonView, k: int)
    requires
        0 <= k <= items.len(),
    ensures
        json::compact_items(items.push(v), k) == json::compact_items(items, k),
    decreases k,
{
    if k > 1 {
        lemma_first_items(items, v, k - 1);
    }
}

proof fn lemma_first_entries(
    entries: Seq<(Seq<char>, json::JsonView)>,
    e: (Seq<char>, json::JsonView),
    k: int,
)
    requires
        0 <= k <= entries.len(),
    ensures
        json::compact_entries(entries.push(e), k) == json::compact_entries(entries, k),
    decreases k,
{
    if k > 1 {
        lemma_first_entries(entries, e, k - 1);
    }
}

/// What a hexadecimal digit stands for.
pub open spec fn hex_value(c: char) -> int {
    if '0' <= c <= '9' {
        c as int - '0' as int
    } else if 'a' <= c <= 'f' {
        c as int - 'a' as int + 10
    } else {
        -1
    }
}

/// The character that an escape stands for, and how many characters it takes. A character
/// that is not escaped stands for itself; a control character and a quote cannot.
#[verifier::opaque]
pub open spec fn read_escape(s: Seq<char>, i: int) -> Option<(char, int)> {
    if i >= s.len() || (s[i] as u32) < 32 || s[i] == '"' {
        None
    } else if s[i] != '\\' {
        Some((s[i], 1))
    } else if i + 1 >= s.len() {
        None
    } else if s[i + 1] == '"' || s[i + 1] == '\\' || s[i + 1] == '/' {
        Some((s[i + 1], 2))
    } else if s[i + 1] == 'b' {
        Some(('\u{8}', 2))
    } else if s[i + 1] == 't' {
        Some(('\t', 2))
    } else if s[i + 1] == 'n' {
        Some(('\n', 2))
    } else if s[i + 1] == 'f' {
        Some(('\u{c}', 2))
    } else if s[i + 1] == 'r' {
        Some(('\r', 2))
    } else if s[i + 1] == 'u' && i + 5 < s.len() && s[i + 2] == '0' && s[i + 3] == '0' {
        Some(((16 * hex_value(s[i + 4]) + hex_value(s[i + 5])) as char, 6))
    } else {
        None
    }
}

/// The text that a JSON string holds from position `i` up to its closing quote, and where it
/// ends.
pub open spec fn read_string(s: Seq<char>, i: int) -> Option<(Seq<char>, int)>
    decreases s.len() - i,
{
    if i < 0 || i >= s.len() {
        None
    } else if s[i] == '"' {
        Some((Seq::empty(), i + 1))
    } else {
        match read_escape(s, i) {
            Some((c, n)) => if n > 0 && i + n <= s.len() {
                match read_string(s, i + n) {
                    Some((rest, end)) => Some((seq![c] + rest, end)),
                    None => None,
                }
            } else {
                None
            },
            None => None,
        }
    }
}

proof fn lemma_escape_reads_back(before: Seq<char>, c: char, after: Seq<char>)
    ensures
        read_escape(before + json::escaped(c) + after, before.len() as int) == Some(
            (c, json::escaped(c).len() as int),
        ),
        json::escaped(c).len() > 0,
        json::escaped(c)[0] != '"',
{
    reveal(read_escape);
    let s = before + json::escaped(c) + after;
    let i = before.len() as int;
    let e = json::escaped(c);
    assert(forall|k: int| 0 <= k < e.len() ==> #[trigger] s[i + k] == e[k]);
    assert(s[i + 0] == e[0]);
    if e.len() > 1 {
        assert(s[i + 1] == e[1]);
    }
    if e.len() == 6 {
        assert(s[i + 2] == e[2] && s[i + 3] == e[3] && s[i + 4] == e[4] && s[i + 5] == e[5]);
        let d = c as int;
        assert(hex_value(json::hex_digit(d / 16)) == d / 16);
        assert(hex_value(json::hex_digit(d % 16)) == d % 16);
        assert(16 * (d / 16) + d % 16 == d);
    }
}

proof fn lemma_escaped_parts(a: Seq<char>, b: Seq<char>)
    ensures
        json::escaped_all(a + b) == json::escaped_all(a) + json::escaped_all(b),
    decreases b.len(),
{
    if b.len() == 0 {
        assert(a + b =~= a);
        assert(json::escaped_all(a + b) =~= json::escaped_all(a) + json::escaped_all(b));
    } else {
        lemma_escaped_parts(a, b.drop_last());
        assert((a + b).drop_last() =~= a + b.drop_last());
        assert(json::escaped_all(a + b) =~= json::escaped_all(a) + json::escaped_all(b));
    }
}

proof fn lemma_first_escaped(t: Seq<char>)
    requires
        t.len() > 0,
    ensures
        json::escaped_all(t) == json::escaped(t[0]) + json::escaped_all(t.drop_first()),
{
    let first = seq![t[0]];
    assert(t =~= first + t.drop_first());
    lemma_escaped_parts(first, t.drop_first());
    assert(first.drop_last() =~= Seq::empty());
    assert(json::escaped_all(Seq::empty()) =~= Seq::empty());
    assert(json::escaped_all(first) =~= json::escaped(t[0]));
}

#[verifier::rlimit(40)]
proof fn lemma_rest_reads_back(before: Seq<char>, t: Seq<char>, after: Seq<char>)
    ensures
        read_string(before + json::escaped_all(t) + seq!['"'] + after, before.len() as int) == Some(
            (t, (before.len() + json::escaped_all(t).len() + 1) as int),
        ),
    decreases t.len(),
{
    let s = before + json::escaped_all(t) + seq!['"'] + after;
    let i = before.len() as int;
    if t.len() == 0 {
        assert(s[i] == '"');
        assert(t =~= Seq::empty());
    } else {
        let first = json::escaped(t[0]);
        let rest = t.drop_first();
        lemma_first_escaped(t);
        lemma_escape_reads_back(before, t[0], json::escaped_all(rest) + seq!['"'] + after);
        assert(s =~= before + first + (json::escaped_all(rest) + seq!['"'] + after));
        assert(s =~= (before + first) + json::escaped_all(rest) + seq!['"'] + after);
        lemma_rest_reads_back(before + first, rest, after);
        assert(s[i] == first[0]);
        assert(seq![t[0]] + rest =~= t);
    }
}

/// A text that is written as a JSON string, wherever it stands, reads back as the text:
/// nothing in it ends the string, and every escape stands for the character it was written
/// for.
pub proof fn law_written_texts_read_back(before: Seq<char>, t: Seq<char>, after: Seq<char>)
    ensures
        json::quoted(t).len() > 0 && json::quoted(t)[0] == '"',
        read_string(before + json::quoted(t) + after, before.len() as int + 1) == Some(
            (t, before.len() + json::quoted(t).len() as int),
        ),
{
    lemma_rest_reads_back(before.push('"'), t, after);
    assert(before.push('"') + json::escaped_all(t) + seq!['"'] + after =~= before + json::quoted(t)
        + after);
}

/// A value shows what it holds: a truth value, a number and a text as they are, a list item
/// by item and an object entry by entry, in their order.
pub proof fn law_values_show_what_they_hold(v: json::Json)
    ensures
        v is Null ==> v@ is Null,
        v matches json::Json::Bool(b) ==> v@ == json::JsonView::Bool(b),
        v matches json::Json::Number(json::Number::Unsigned(n)) ==> v@ == json::JsonView::Number(
            json::NumberView::Unsigned(n),
        ),
        v matches json::Json::Number(json::Number::Negative(n)) ==> v@ == json::JsonView::Number(
            json::NumberView::Negative(n),
        ),
        v matches json::Json::Number(json::Number::Float(d)) ==> v@ == json::JsonView::Number(
            json::NumberView::Float { bits: d.bits, literal: d.literal@ },
        ),
        v matches json::Json::Text(s) ==> v@ == json::JsonView::Text(s@),
        v matches json::Json::Array(items) ==> {
            &&& v@ is Array && v@->Array_0.len() == items@.len()
            &&& forall|i: int|
                0 <= i < items@.len() ==> #[trigger] v@->Array_0[i] == items@[i]@
        },
        v matches json::Json::Object(entries) ==> {
            &&& v@ is Object && v@->Object_0.len() == entries@.len()
            &&& forall|i: int|
                0 <= i < entries@.len() ==> #[trigger] v@->Object_0[i] == (
                    entries@[i].0@,
                    entries@[i].1@,
                )
        },
{
    broadcast use {json::lemma_array_view, json::lemma_object_view};

}

} // verus!
