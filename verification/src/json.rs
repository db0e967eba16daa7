//! JSON values: what a request carries and what an answer is made of.
use vstd::prelude::*;
use vstd::string::*;

use crate::text;

verus! {

/// A double, by its bit pattern and by the literal that JSON writes for it. A double
/// that is not finite has the literal `null`.
#[derive(Debug)]
pub struct Double {
    pub bits: u64,
    pub literal: String,
}

/// A JSON number. An integer is held apart from a double; one that is not negative is
/// held as `Unsigned`.
#[derive(Debug)]
pub enum Number {
    Unsigned(u64),
    Negative(i64),
    Float(Double),
}

/// A JSON value. The entries of an object keep their order; where a key occurs twice,
/// the first entry counts.
#[derive(Debug)]
pub enum Json {
    Null,
    Bool(bool),
    Number(Number),
    Text(String),
    Array(Vec<Json>),
    Object(Vec<(String, Json)>),
}

/// What a `Number` is: see there.
pub enum NumberView {
    Unsigned(u64),
    Negative(i64),
    Float { bits: u64, literal: Seq<char> },
}

/// What a `Json` is: see there.
pub enum JsonView {
    Null,
    Bool(bool),
    Number(NumberView),
    Text(Seq<char>),
    Array(Seq<JsonView>),
    Object(Seq<(Seq<char>, JsonView)>),
}

impl View for Number {
    type V = NumberView;

    open spec fn view(&self) -> NumberView {
        match self {
            Number::Unsigned(n) => NumberView::Unsigned(*n),
            Number::Negative(n) => NumberView::Negative(*n),
            Number::Float(d) => NumberView::Float { bits: d.bits, literal: d.literal@ },
        }
    }
}

impl View for Json {
    type V = JsonView;

    open spec fn view(&self) -> JsonView
        decreases self,
    {
        match self {
            Json::Null => JsonView::Null,
            Json::Bool(b) => JsonView::Bool(*b),
            Json::Number(n) => JsonView::Number(n@),
            Json::Text(s) => JsonView::Text(s@),
            Json::Array(v) => JsonView::Array(
                Seq::new(
                    v@.len(),
                    |i: int|
                        if 0 <= i < v@.len() {
                            v@[i].view()
                        } else {
                            JsonView::Null
                        },
                ),
            ),
            Json::Object(v) => JsonView::Object(
                Seq::new(
                    v@.len(),
                    |i: int|
                        if 0 <= i < v@.len() {
                            (v@[i].0@, v@[i].1.view())
                        } else {
                            (Seq::empty(), JsonView::Null)
                        },
                ),
            ),
        }
    }
}

/// The views of a list of values.
pub open spec fn items_view(v: Seq<Json>) -> Seq<JsonView> {
    v.map_values(|j: Json| j@)
}

/// The views of the entries of an object.
pub open spec fn entries_view(v: Seq<(String, Json)>) -> Seq<(Seq<char>, JsonView)> {
    v.map_values(|e: (String, Json)| (e.0@, e.1@))
}

pub broadcast proof fn lemma_array_view(v: Vec<Json>)
    ensures
        #[trigger] Json::Array(v)@ == JsonView::Array(items_view(v@)),
{
    reveal_with_fuel(<Json as View>::view, 2);
    assert(Json::Array(v)@->Array_0 =~= items_view(v@));
}

pub broadcast proof fn lemma_object_view(v: Vec<(String, Json)>)
    ensures
        #[trigger] Json::Object(v)@ == JsonView::Object(entries_view(v@)),
{
    reveal_with_fuel(<Json as View>::view, 2);
    assert(Json::Object(v)@->Object_0 =~= entries_view(v@));
}

/// The value of the first entry under `key`.
pub open spec fn lookup(entries: Seq<(Seq<char>, JsonView)>, key: Seq<char>) -> Option<JsonView>
    decreases entries.len(),
{
    if entries.len() == 0 {
        None
    } else if entries[0].0 == key {
        Some(entries[0].1)
    } else {
        lookup(entries.drop_first(), key)
    }
}

impl JsonView {
    /// The value under `key`; nothing where this is no object or has no such key.
    pub open spec fn get(self, key: Seq<char>) -> Option<JsonView> {
        match self {
            JsonView::Object(entries) => lookup(entries, key),
            _ => None,
        }
    }

    /// The text under `key`.
    pub open spec fn text_at(self, key: Seq<char>) -> Option<Seq<char>> {
        match self.get(key) {
            Some(JsonView::Text(s)) => Some(s),
            _ => None,
        }
    }

    /// The integer under `key`, where it is not negative.
    pub open spec fn unsigned_at(self, key: Seq<char>) -> Option<u64> {
        match self.get(key) {
            Some(JsonView::Number(NumberView::Unsigned(n))) => Some(n),
            _ => None,
        }
    }

    /// The truth value under `key`.
    pub open spec fn bool_at(self, key: Seq<char>) -> Option<bool> {
        match self.get(key) {
            Some(JsonView::Bool(b)) => Some(b),
            _ => None,
        }
    }

    /// The items of the list under `key`.
    pub open spec fn array_at(self, key: Seq<char>) -> Option<Seq<JsonView>> {
        match self.get(key) {
            Some(JsonView::Array(items)) => Some(items),
            _ => None,
        }
    }
}

impl Json {
    /// The value under `key`; nothing where this is no object or has no such key.
    pub fn get(&self, key: &str) -> (r: Option<&Json>)
        ensures
            r is Some == self@.get(key@) is Some,
            r is Some ==> r->0@ == self@.get(key@)->0,
    {
        broadcast use lemma_object_view;

        match self {
            Json::Object(entries) => {
                let mut i: usize = 0;
                assert(entries_view(entries@).skip(0) =~= entries_view(entries@));
                while i < entries.len()
                    invariant
                        i <= entries.len(),
                        lookup(entries_view(entries@), key@) == lookup(
                            entries_view(entries@).skip(i as int),
                            key@,
                        ),
                        self@ == JsonView::Object(entries_view(entries@)),
                    decreases entries.len() - i,
                {
                    let ghost rest = entries_view(entries@).skip(i as int);
                    assert(rest[0] == (entries@[i as int].0@, entries@[i as int].1@));
                    assert(rest.drop_first() =~= entries_view(entries@).skip(i + 1));
                    if text::same(entries[i].0.as_str(), key) {
                        return Some(&entries[i].1);
                    }
                    i += 1;
                }
                None
            },
            _ => None,
        }
    }

    /// The text under `key`.
    pub fn text_at(&self, key: &str) -> (r: Option<String>)
        ensures
            r is Some == self@.text_at(key@) is Some,
            r is Some ==> r->0@ == self@.text_at(key@)->0,
    {
        match self.get(key) {
            Some(Json::Text(s)) => Some(s.clone()),
            _ => None,
        }
    }

    /// The integer under `key`, where it is not negative.
    pub fn unsigned_at(&self, key: &str) -> (r: Option<u64>)
        ensures
            r == self@.unsigned_at(key@),
    {
        match self.get(key) {
            Some(Json::Number(Number::Unsigned(n))) => Some(*n),
            _ => None,
        }
    }

    /// The truth value under `key`.
    pub fn bool_at(&self, key: &str) -> (r: Option<bool>)
        ensures
            r == self@.bool_at(key@),
    {
        match self.get(key) {
            Some(Json::Bool(b)) => Some(*b),
            _ => None,
        }
    }
}

/// Adds an entry to an object under construction.
pub fn put(entries: &mut Vec<(String, Json)>, key: &str, value: Json)
    ensures
        entries_view(final(entries)@) == entries_view(old(entries)@).push((key@, value@)),
{
    let ghost before = entries@;
    entries.push((key.to_owned(), value));
    assert(entries_view(entries@) =~= entries_view(before).push((key@, value@)));
}

/// The value of an optional text: `null` where there is none.
pub open spec fn optional_text(s: Option<Seq<char>>) -> JsonView {
    match s {
        Some(s) => JsonView::Text(s),
        None => JsonView::Null,
    }
}

/// The hexadecimal digit of a number below sixteen, in lower case.
pub open spec fn hex_digit(d: int) -> char {
    if d < 10 {
        (48 + d) as char
    } else {
        (87 + d) as char
    }
}

/// What a character is written as inside a JSON string.
pub open spec fn escaped(c: char) -> Seq<char> {
    if c == '"' {
        seq!['\\', '"']
    } else if c == '\\' {
        seq!['\\', '\\']
    } else if c == '\u{8}' {
        seq!['\\', 'b']
    } else if c == '\t' {
        seq!['\\', 't']
    } else if c == '\n' {
        seq!['\\', 'n']
    } else if c == '\u{c}' {
        seq!['\\', 'f']
    } else if c == '\r' {
        seq!['\\', 'r']
    } else if (c as u32) < 32 {
        seq!['\\', 'u', '0', '0', hex_digit(c as int / 16), hex_digit(c as int % 16)]
    } else {
        seq![c]
    }
}

/// The characters of a text, each as it is written inside a JSON string.
pub open spec fn escaped_all(s: Seq<char>) -> Seq<char>
    decreases s.len(),
{
    if s.len() == 0 {
        s
    } else {
        escaped_all(s.drop_last()) + escaped(s.last())
    }
}

/// A text as a JSON string.
pub open spec fn quoted(s: Seq<char>) -> Seq<char> {
    seq!['"'] + escaped_all(s) + seq!['"']
}

/// A number as JSON writes it.
pub open spec fn number_text(n: NumberView) -> Seq<char> {
    match n {
        NumberView::Unsigned(n) => text::decimal(n as nat),
        NumberView::Negative(n) => text::signed_decimal(n as int),
        NumberView::Float { bits, literal } => literal,
    }
}

/// A value as JSON writes it without whitespace.
pub open spec fn compact(v: JsonView) -> Seq<char>
    decreases v, 0int,
{
    match v {
        JsonView::Null => "null"@,
        JsonView::Bool(b) => if b {
            "true"@
        } else {
            "false"@
        },
        JsonView::Number(n) => number_text(n),
        JsonView::Text(s) => quoted(s),
        JsonView::Array(items) => seq!['['] + compact_items(items, items.len() as int) + seq![']'],
        JsonView::Object(entries) => seq!['{'] + compact_entries(entries, entries.len() as int)
            + seq!['}'],
    }
}

/// The first `n` items of a list with commas between them.
pub open spec fn compact_items(items: Seq<JsonView>, n: int) -> Seq<char>
    decreases items, n,
{
    if n <= 0 || n > items.len() {
        Seq::empty()
    } else if n == 1 {
        compact(items[0])
    } else {
        compact_items(items, n - 1) + seq![','] + compact(items[n - 1])
    }
}

/// The first `n` entries of an object with commas between them.
pub open spec fn compact_entries(entries: Seq<(Seq<char>, JsonView)>, n: int) -> Seq<char>
    decreases entries, n,
{
    if n <= 0 || n > entries.len() {
        Seq::empty()
    } else if n == 1 {
        quoted(entries[0].0) + seq![':'] + compact(entries[0].1)
    } else {
        compact_entries(entries, n - 1) + seq![','] + quoted(entries[n - 1].0) + seq![':'] + compact(
            entries[n - 1].1,
        )
    }
}

/// `serde_json::Value::to_string` on a string: the text between double quotes, with
/// the quote, the backslash and the control characters escaped.
#[verifier::external_body]
fn quote(s: &str) -> (r: String)
    ensures
        r@ == quoted(s@),
{
    serde_json::Value::String(s.to_owned()).to_string()
}

/// A number as JSON writes it.
pub fn write_number(n: &Number) -> (r: String)
    ensures
        r@ == number_text(n@),
{
    match n {
        Number::Unsigned(n) => text::decimal_text(*n),
        Number::Negative(n) => text::signed_decimal_text(*n),
        Number::Float(d) => d.literal.clone(),
    }
}

/// A value as JSON writes it without whitespace.
pub fn write_compact(v: &Json) -> (r: String)
    ensures
        r@ == compact(v@),
    decreases v,
{
    broadcast use {lemma_array_view, lemma_object_view};

    match v {
        Json::Null => "null".to_owned(),
        Json::Bool(b) => if *b {
            "true".to_owned()
        } else {
            "false".to_owned()
        },
        Json::Number(n) => write_number(n),
        Json::Text(s) => quote(s.as_str()),
        Json::Array(items) => {
            let ghost views = items_view(items@);
            let mut out = String::new();
            out.push('[');
            let mut i: usize = 0;
            while i < items.len()
                invariant
                    i <= items.len(),
                    v == Json::Array(*items),
                    views == items_view(items@),
                    out@ == seq!['['] + compact_items(views, i as int),
                decreases items.len() - i,
            {
                let ghost before = out@;
                if i > 0 {
                    out.push(',');
                }
                assert(decreases_to!(v => v->Array_0));
                assert(decreases_to!(v->Array_0 => items@));
                assert(decreases_to!(items@ => items@[i as int]));
                let item = write_compact(&items[i]);
                out.append(item.as_str());
                i += 1;
                assert(out@ =~= seq!['['] + compact_items(views, i as int));
            }
            out.push(']');
            assert(out@ =~= compact(v@));
            out
        },
        Json::Object(entries) => {
            let ghost views = entries_view(entries@);
            let mut out = String::new();
            out.push('{');
            let mut i: usize = 0;
            while i < entries.len()
                invariant
                    i <= entries.len(),
                    v == Json::Object(*entries),
                    views == entries_view(entries@),
                    out@ == seq!['{'] + compact_entries(views, i as int),
                decreases entries.len() - i,
            {
                if i > 0 {
                    out.push(',');
                }
                let key = quote(entries[i].0.as_str());
                out.append(key.as_str());
                out.push(':');
                assert(decreases_to!(v => v->Object_0));
                assert(decreases_to!(v->Object_0 => entries@));
                assert(decreases_to!(entries@ => entries@[i as int]));
                assert(decreases_to!(entries@[i as int] => entries@[i as int].1));
                let value = write_compact(&entries[i].1);
                out.append(value.as_str());
                i += 1;
                assert(out@ =~= seq!['{'] + compact_entries(views, i as int));
            }
            out.push('}');
            assert(out@ =~= compact(v@));
            out
        },
    }
}

} // verus!
