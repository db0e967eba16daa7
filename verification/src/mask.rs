//! Masking: which columns of a result hold what must not leave, and what stands in
//! their place.
use vstd::prelude::*;
use vstd::string::*;

use crate::json::Json;
use crate::json;
use crate::text;
use crate::value::Cell;
use crate::value;

verus! {

/// A column name is sensitive when one of these stands in it, in any case. A pair of
/// words counts both joined and with an underscore between them.
pub open spec fn sensitive(name: Seq<char>) -> bool {
    let c = text::lowered(name);
    ||| text::occurs(c, "password"@)
    ||| text::occurs(c, "passwd"@)
    ||| text::occurs(c, "pwd"@)
    ||| text::occurs(c, "hash"@)
    ||| text::occurs(c, "salt"@)
    ||| text::occurs(c, "ssn"@)
    ||| text::occurs(c, "token"@)
    ||| text::occurs(c, "secret"@)
    ||| text::occurs(c, "cvv"@)
    ||| text::occurs(c, "iban"@)
    ||| text::occurs(c, "auth"@)
    ||| text::occurs(c, "apikey"@)
    ||| text::occurs(c, "api_key"@)
    ||| text::occurs(c, "accesskey"@)
    ||| text::occurs(c, "access_key"@)
    ||| text::occurs(c, "privatekey"@)
    ||| text::occurs(c, "private_key"@)
    ||| text::occurs(c, "creditcard"@)
    ||| text::occurs(c, "credit_card"@)
    ||| text::occurs(c, "cardnumber"@)
    ||| text::occurs(c, "card_number"@)
}

/// True if a column name tells of sensitive data.
pub fn is_sensitive(col: &str) -> (r: bool)
    ensures
        r == sensitive(col@),
{
    let c = text::lower_chars(&text::chars_of(col));
    text::contains(&c, "password") || text::contains(&c, "passwd") || text::contains(&c, "pwd")
        || text::contains(&c, "hash") || text::contains(&c, "salt") || text::contains(&c, "ssn")
        || text::contains(&c, "token") || text::contains(&c, "secret") || text::contains(&c, "cvv")
        || text::contains(&c, "iban") || text::contains(&c, "auth") || text::contains(&c, "apikey")
        || text::contains(&c, "api_key") || text::contains(&c, "accesskey") || text::contains(
        &c,
        "access_key",
    ) || text::contains(&c, "privatekey") || text::contains(&c, "private_key") || text::contains(
        &c,
        "creditcard",
    ) || text::contains(&c, "credit_card") || text::contains(&c, "cardnumber") || text::contains(
        &c,
        "card_number",
    )
}

/// What stands in the place of a cell of a sensitive column.
pub open spec fn redaction(name: Seq<char>) -> Seq<char> {
    "<redacted:"@ + name + ">"@
}

/// The cells of a row that came out of the database; nothing stands where a cell was
/// not read, because its column is sensitive or because reading it failed.
pub open spec fn cells_view(cells: Seq<Option<Cell>>) -> Seq<Option<value::CellView>> {
    cells.map_values(
        |c: Option<Cell>|
            match c {
                Some(c) => Some(c@),
                None => None,
            },
    )
}

/// What leaves of column `i` of a row.
pub open spec fn masked_cell(
    names: Seq<Seq<char>>,
    cells: Seq<Option<value::CellView>>,
    i: int,
) -> json::JsonView {
    if sensitive(names[i]) {
        json::JsonView::Text(redaction(names[i]))
    } else if i < cells.len() {
        match cells[i] {
            Some(c) => value::json_of_cell(c),
            None => json::JsonView::Null,
        }
    } else {
        json::JsonView::Null
    }
}

/// What leaves of a row.
pub open spec fn masked_row(
    names: Seq<Seq<char>>,
    cells: Seq<Option<value::CellView>>,
) -> json::JsonView {
    json::JsonView::Array(Seq::new(names.len(), |i: int| masked_cell(names, cells, i)))
}

/// Which of the columns are sensitive.
pub fn sensitive_columns(names: &Vec<String>) -> (r: Vec<bool>)
    ensures
        r@.len() == names@.len(),
        forall|i: int| 0 <= i < r@.len() ==> #[trigger] r@[i] == sensitive(names@[i]@),
{
    let mut out: Vec<bool> = Vec::new();
    let mut i: usize = 0;
    while i < names.len()
        invariant
            i <= names.len(),
            out@.len() == i,
            forall|k: int| 0 <= k < i ==> #[trigger] out@[k] == sensitive(names@[k]@),
        decreases names.len() - i,
    {
        out.push(is_sensitive(names[i].as_str()));
        i += 1;
    }
    out
}

/// Masks a row: the cells of sensitive columns give way to a redaction, the others
/// become JSON.
pub fn mask_row(names: &Vec<String>, masked: &Vec<bool>, cells: &Vec<Option<Cell>>) -> (r: Json)
    requires
        masked@.len() == names@.len(),
        forall|i: int| 0 <= i < masked@.len() ==> #[trigger] masked@[i] == sensitive(names@[i]@),
    ensures
        r@ == masked_row(text::texts(names@), cells_view(cells@)),
{
    broadcast use json::lemma_array_view;

    let mut out: Vec<Json> = Vec::new();
    let mut i: usize = 0;
    while i < names.len()
        invariant
            i <= names.len(),
            out@.len() == i,
            masked@.len() == names@.len(),
            forall|k: int|
                0 <= k < masked@.len() ==> #[trigger] masked@[k] == sensitive(names@[k]@),
            forall|k: int|
                0 <= k < i ==> (#[trigger] out@[k])@ == masked_cell(
                    text::texts(names@),
                    cells_view(cells@),
                    k,
                ),
        decreases names.len() - i,
    {
        assert(text::texts(names@)[i as int] == names@[i as int]@);
        let leaving = if masked[i] {
            let mut note = text::joined("<redacted:", names[i].as_str());
            note.append(">");
            Json::Text(note)
        } else if i < cells.len() {
            match &cells[i] {
                Some(c) => value::value_ref_to_json(c),
                None => Json::Null,
            }
        } else {
            Json::Null
        };
        out.push(leaving);
        i += 1;
    }
    let ghost items = json::items_view(out@);
    assert(items =~= masked_row(text::texts(names@), cells_view(cells@))->Array_0);
    Json::Array(out)
}

/// What a sensitive column holds has no part in what leaves: two rows that differ in
/// sensitive columns only leave as the same row.
pub proof fn law_sensitive_cells_do_not_leave(
    names: Seq<Seq<char>>,
    a: Seq<Option<value::CellView>>,
    b: Seq<Option<value::CellView>>,
)
    requires
        a.len() == b.len(),
        forall|i: int|
            0 <= i < a.len() && i < names.len() && !sensitive(names[i]) ==> #[trigger] a[i] == b[i],
    ensures
        masked_row(names, a) == masked_row(names, b),
{
    assert(masked_row(names, a)->Array_0 =~= masked_row(names, b)->Array_0);
}

/// Whether a column is sensitive does not depend on the case of its name.
pub proof fn law_sensitivity_ignores_case(name: Seq<char>)
    ensures
        sensitive(text::lowered(name)) == sensitive(name),
{
    assert(text::lowered(text::lowered(name)) =~= text::lowered(name));
}

/// The words that make a name sensitive.
pub open spec fn sensitive_words() -> Seq<Seq<char>> {
    seq![
        "password"@,
        "passwd"@,
        "pwd"@,
        "hash"@,
        "salt"@,
        "ssn"@,
        "token"@,
        "secret"@,
        "cvv"@,
        "iban"@,
        "auth"@,
        "apikey"@,
        "api_key"@,
        "accesskey"@,
        "access_key"@,
        "privatekey"@,
        "private_key"@,
        "creditcard"@,
        "credit_card"@,
        "cardnumber"@,
        "card_number"@,
    ]
}

/// A name that holds one of the words, in any case and whatever stands around it, is
/// sensitive, and its cell leaves as `<redacted:name>` whatever it holds.
pub proof fn law_a_word_anywhere_makes_a_name_sensitive(
    names: Seq<Seq<char>>,
    cells: Seq<Option<value::CellView>>,
    i: int,
    a: Seq<char>,
    word: Seq<char>,
    b: Seq<char>,
)
    requires
        0 <= i < names.len(),
        sensitive_words().contains(word),
        text::lowered(names[i]) == a + word + b,
    ensures
        sensitive(names[i]),
        masked_row(names, cells) is Array,
        masked_row(names, cells)->Array_0[i] == json::JsonView::Text(
            "<redacted:"@ + names[i] + ">"@,
        ),
{
    let c = text::lowered(names[i]);
    assert(c.subrange(a.len() as int, (a.len() + word.len()) as int) =~= word);
    assert(text::occurs_at(c, word, a.len() as int));
    assert(text::occurs(c, word));
    law_the_sensitive_words(word);
}

/// The words that make a name sensitive are these and no others: eleven words, and five
/// pairs of words, each joined and with an underscore between them.
pub proof fn law_the_sensitive_words(word: Seq<char>)
    ensures
        sensitive_words().contains(word) == {
            ||| word == "password"@
            ||| word == "passwd"@
            ||| word == "pwd"@
            ||| word == "hash"@
            ||| word == "salt"@
            ||| word == "ssn"@
            ||| word == "token"@
            ||| word == "secret"@
            ||| word == "cvv"@
            ||| word == "iban"@
            ||| word == "auth"@
            ||| word == "apikey"@
            ||| word == "api_key"@
            ||| word == "accesskey"@
            ||| word == "access_key"@
            ||| word == "privatekey"@
            ||| word == "private_key"@
            ||| word == "creditcard"@
            ||| word == "credit_card"@
            ||| word == "cardnumber"@
            ||| word == "card_number"@
        },
{
    let words = sensitive_words();
    assert(words.len() == 21);
    assert(words[0] == "password"@);
    assert(words[1] == "passwd"@);
    assert(words[2] == "pwd"@);
    assert(words[3] == "hash"@);
    assert(words[4] == "salt"@);
    assert(words[5] == "ssn"@);
    assert(words[6] == "token"@);
    assert(words[7] == "secret"@);
    assert(words[8] == "cvv"@);
    assert(words[9] == "iban"@);
    assert(words[10] == "auth"@);
    assert(words[11] == "apikey"@);
    assert(words[12] == "api_key"@);
    assert(words[13] == "accesskey"@);
    assert(words[14] == "access_key"@);
    assert(words[15] == "privatekey"@);
    assert(words[16] == "private_key"@);
    assert(words[17] == "creditcard"@);
    assert(words[18] == "credit_card"@);
    assert(words[19] == "cardnumber"@);
    assert(words[20] == "card_number"@);
    if words.contains(word) {
        let i = choose|i: int| 0 <= i < words.len() && words[i] == word;
        assert(i == 0 || i == 1 || i == 2 || i == 3 || i == 4 || i == 5 || i == 6 || i == 7 || i == 8 || i == 9 || i == 10 || i == 11 || i == 12 || i == 13 || i == 14 || i == 15 || i == 16 || i == 17 || i == 18 || i == 19 || i == 20);
    }
}

/// A name that holds none of the words is not sensitive: its cell leaves as the value
/// that was read, or as `null` where none was.
pub proof fn law_other_names_are_not_sensitive(
    names: Seq<Seq<char>>,
    cells: Seq<Option<value::CellView>>,
    i: int,
)
    requires
        0 <= i < names.len(),
        forall|a: Seq<char>, word: Seq<char>, b: Seq<char>|
            sensitive_words().contains(word) ==> text::lowered(names[i]) != #[trigger] (a + word
                + b),
    ensures
        !sensitive(names[i]),
        masked_row(names, cells)->Array_0[i] == if i < cells.len() && cells[i] is Some {
            value::json_of_cell(cells[i]->0)
        } else {
            json::JsonView::Null
        },
{
    let c = text::lowered(names[i]);
    assert forall|word: Seq<char>| sensitive_words().contains(word) implies !(
    #[trigger] text::occurs(c, word)) by {
        if text::occurs(c, word) {
            let k = choose|k: int| text::occurs_at(c, word, k);
            let a = c.take(k);
            let b = c.skip(k + word.len());
            assert(c =~= a + word + b);
        }
    }
    law_the_sensitive_words("password"@);
    law_the_sensitive_words("passwd"@);
    law_the_sensitive_words("pwd"@);
    law_the_sensitive_words("hash"@);
    law_the_sensitive_words("salt"@);
    law_the_sensitive_words("ssn"@);
    law_the_sensitive_words("token"@);
    law_the_sensitive_words("secret"@);
    law_the_sensitive_words("cvv"@);
    law_the_sensitive_words("iban"@);
    law_the_sensitive_words("auth"@);
    law_the_sensitive_words("apikey"@);
    law_the_sensitive_words("api_key"@);
    law_the_sensitive_words("accesskey"@);
    law_the_sensitive_words("access_key"@);
    law_the_sensitive_words("privatekey"@);
    law_the_sensitive_words("private_key"@);
    law_the_sensitive_words("creditcard"@);
    law_the_sensitive_words("credit_card"@);
    law_the_sensitive_words("cardnumber"@);
    law_the_sensitive_words("card_number"@);
}

/// A row leaves with one item for each column, in the order of the columns.
pub proof fn law_a_row_has_an_item_for_each_column(
    names: Seq<Seq<char>>,
    cells: Seq<Option<value::CellView>>,
)
    ensures
        masked_row(names, cells) is Array,
        masked_row(names, cells)->Array_0.len() == names.len(),
{
}

} // verus!
