//! How the guards read a statement: what a quotation and a comment are, what separates
//! statements, where a keyword stands, and which statements count as what.
use vstd::prelude::*;

use crate::sql;
use crate::sql::Quote;
use crate::text;

verus! {

/// Position `i` stands outside every quotation and comment.
pub open spec fn outside(sql: Seq<char>, i: int) -> bool {
    sql::quote_at(sql, i) == Quote::Open
}

/// A mark that opens a quotation, and the one that closes it.
pub open spec fn marks(open: char, close: char) -> bool {
    ||| open == '\'' && close == '\''
    ||| open == '"' && close == '"'
    ||| open == '`' && close == '`'
    ||| open == '[' && close == ']'
}

/// Two characters stand at position `i`.
pub open spec fn pair_at(sql: Seq<char>, i: int, a: char, b: char) -> bool {
    0 <= i && i + 1 < sql.len() && sql[i] == a && sql[i + 1] == b
}

/// A statement begins outside every quotation and comment, and a character that opens none
/// leaves it there.
pub proof fn law_other_characters_open_nothing(sql: Seq<char>, i: int)
    requires
        0 <= i < sql.len(),
        outside(sql, i),
        sql[i] != '\'' && sql[i] != '"' && sql[i] != '`' && sql[i] != '[',
        !pair_at(sql, i, '-', '-'),
        !pair_at(sql, i, '/', '*'),
    ensures
        outside(sql, 0),
        outside(sql, i + 1),
        !sql::comment_at(sql, i),
{
}

proof fn lemma_inside(sql: Seq<char>, i: int, k: int, q: Quote, close: char)
    requires
        0 <= i < k <= sql.len(),
        sql::quote_at(sql, i + 1) == q,
        ({
            ||| q == Quote::Single && close == '\''
            ||| q == Quote::Double && close == '"'
            ||| q == Quote::Backtick && close == '`'
            ||| q == Quote::Bracket && close == ']'
            ||| q == Quote::Line && close == '\n'
        }),
        forall|n: int| i < n < k ==> #[trigger] sql[n] != close,
    ensures
        sql::quote_at(sql, k) == q,
    decreases k - i,
{
    if k > i + 1 {
        lemma_inside(sql, i, k - 1, q, close);
        assert(sql[k - 1] != close);
    }
}

/// A quotation goes from the mark that opens it to the next mark that closes it, or to the
/// end of the statement where there is none. Within it nothing is outside, and no part of
/// it is a comment; behind it one is outside again.
pub proof fn law_quotations(sql: Seq<char>, i: int, j: int, open: char, close: char)
    requires
        marks(open, close),
        0 <= i < j <= sql.len(),
        outside(sql, i),
        sql[i] == open,
        forall|n: int| i < n < j ==> #[trigger] sql[n] != close,
        j < sql.len() ==> sql[j] == close,
    ensures
        forall|k: int| i < k <= j ==> !(#[trigger] outside(sql, k)),
        forall|k: int| i <= k < j ==> !(#[trigger] sql::comment_at(sql, k)),
        j < sql.len() ==> outside(sql, j + 1) && !sql::comment_at(sql, j),
{
    let q = sql::quote_at(sql, i + 1);
    assert forall|k: int| i < k <= j implies #[trigger] sql::quote_at(sql, k) == q by {
        lemma_inside(sql, i, k, q, close);
    }
    assert forall|k: int| i <= k < j implies !(#[trigger] sql::comment_at(sql, k)) by {
        assert(sql::quote_at(sql, k + 1) == q);
        if k > i {
            assert(sql::quote_at(sql, k) == q);
        }
    }
    assert(sql::quote_at(sql, j) == q);
}

/// Two dashes begin a comment that goes to the end of the line, or of the statement.
pub proof fn law_line_comments(sql: Seq<char>, i: int, j: int)
    requires
        0 <= i,
        i + 2 <= j <= sql.len(),
        outside(sql, i),
        pair_at(sql, i, '-', '-'),
        forall|n: int| i < n < j ==> #[trigger] sql[n] != '\n',
        j < sql.len() ==> sql[j] == '\n',
    ensures
        forall|k: int| i <= k < j ==> #[trigger] sql::comment_at(sql, k),
        forall|k: int| i < k <= j ==> !(#[trigger] outside(sql, k)),
        j < sql.len() ==> sql::comment_at(sql, j) && outside(sql, j + 1),
{
    assert(sql::char_at(sql, i + 1) == Some('-'));
    assert(sql::quote_at(sql, i + 1) == Quote::Line);
    assert forall|k: int| i < k <= j implies #[trigger] sql::quote_at(sql, k) == Quote::Line by {
        lemma_inside(sql, i, k, Quote::Line, '\n');
    }
    assert forall|k: int| i <= k < j implies #[trigger] sql::comment_at(sql, k) by {
        assert(sql::quote_at(sql, k + 1) == Quote::Line);
    }
    assert(sql::quote_at(sql, j) == Quote::Line);
}

proof fn lemma_in_block(sql: Seq<char>, i: int, k: int)
    requires
        0 <= i,
        i + 2 <= k <= sql.len(),
        sql::quote_at(sql, i + 1) == Quote::BlockEnter,
        forall|n: int| i + 2 <= n < k ==> !(#[trigger] pair_at(sql, n, '*', '/')),
    ensures
        sql::quote_at(sql, k) == Quote::Block,
    decreases k - i,
{
    if k > i + 2 {
        lemma_in_block(sql, i, k - 1);
        assert(!pair_at(sql, k - 1, '*', '/'));
    }
}

/// A slash and a star begin a comment that goes to the next star and slash behind them, or
/// to the end of the statement.
pub proof fn law_block_comments(sql: Seq<char>, i: int, j: int)
    requires
        0 <= i,
        i + 2 <= j <= sql.len(),
        outside(sql, i),
        pair_at(sql, i, '/', '*'),
        forall|n: int| i + 2 <= n < j ==> !(#[trigger] pair_at(sql, n, '*', '/')),
        j < sql.len() ==> pair_at(sql, j, '*', '/'),
    ensures
        forall|k: int| i <= k < j ==> #[trigger] sql::comment_at(sql, k),
        forall|k: int| i < k <= j ==> !(#[trigger] outside(sql, k)),
        j < sql.len() ==> sql::comment_at(sql, j) && sql::comment_at(sql, j + 1) && outside(
            sql,
            j + 2,
        ),
{
    assert(sql::char_at(sql, i + 1) == Some('*'));
    assert(sql::quote_at(sql, i + 1) == Quote::BlockEnter);
    assert forall|k: int| i + 2 <= k <= j implies #[trigger] sql::quote_at(sql, k)
        == Quote::Block by {
        lemma_in_block(sql, i, k);
    }
    assert forall|k: int| i <= k < j implies #[trigger] sql::comment_at(sql, k) by {
        if k + 1 >= i + 2 {
            assert(sql::quote_at(sql, k + 1) == Quote::Block);
        }
    }
    assert forall|k: int| i < k <= j implies !(#[trigger] outside(sql, k)) by {
        if k >= i + 2 {
            assert(sql::quote_at(sql, k) == Quote::Block);
        }
    }
    if j < sql.len() {
        assert(sql::quote_at(sql, j) == Quote::Block);
        assert(sql::char_at(sql, j + 1) == Some('/'));
        assert(sql::quote_at(sql, j + 1) == Quote::BlockLeave);
    }
}

/// A text holds more than one statement exactly where a semicolon outside every quotation
/// and comment has something behind it that is neither whitespace, nor part of a comment,
/// nor another such semicolon.
pub proof fn law_what_makes_several_statements(sql: Seq<char>)
    ensures
        sql::multiple_statements(sql) == exists|i: int, j: int|
            0 <= i < j < sql.len() && #[trigger] sql[i] == ';' && outside(sql, i)
                && !text::is_space(#[trigger] sql[j]) && !sql::comment_at(sql, j) && !(sql[j] == ';'
                && outside(sql, j)),
{
    if sql::multiple_statements(sql) {
        let (i, j) = choose|i: int, j: int|
            i < j && #[trigger] sql::separator_at(sql, i) && #[trigger] sql::content_at(sql, j);
        assert(sql[i] == ';' && !text::is_space(sql[j]));
    }
    if exists|i: int, j: int|
        0 <= i < j < sql.len() && #[trigger] sql[i] == ';' && outside(sql, i) && !text::is_space(
            #[trigger] sql[j],
        ) && !sql::comment_at(sql, j) && !(sql[j] == ';' && outside(sql, j)) {
        let (i, j) = choose|i: int, j: int|
            0 <= i < j < sql.len() && #[trigger] sql[i] == ';' && outside(sql, i)
                && !text::is_space(#[trigger] sql[j]) && !sql::comment_at(sql, j) && !(sql[j] == ';'
                && outside(sql, j));
        assert(sql::separator_at(sql, i) && sql::content_at(sql, j));
    }
}

/// A text without quotations and comments.
pub open spec fn is_plain(sql: Seq<char>) -> bool {
    forall|i: int|
        0 <= i < sql.len() ==> (#[trigger] sql[i]) != '\'' && sql[i] != '"' && sql[i] != '`'
            && sql[i] != '[' && sql[i] != '-' && sql[i] != '/'
}

proof fn lemma_plain(sql: Seq<char>, i: int)
    requires
        is_plain(sql),
        0 <= i <= sql.len(),
    ensures
        outside(sql, i),
    decreases i,
{
    if i > 0 {
        lemma_plain(sql, i - 1);
        assert(sql[i - 1] != '\'');
    }
}

/// In a text without quotations and comments, two statements are there exactly where
/// something other than whitespace and semicolons stands behind a semicolon.
pub proof fn law_several_plain_statements(sql: Seq<char>)
    requires
        is_plain(sql),
    ensures
        sql::multiple_statements(sql) == exists|i: int, j: int|
            0 <= i < j < sql.len() && #[trigger] sql[i] == ';' && (#[trigger] sql[j]) != ';'
                && !text::is_space(sql[j]),
{
    law_what_makes_several_statements(sql);
    assert forall|i: int| 0 <= i < sql.len() implies #[trigger] outside(sql, i)
        && !sql::comment_at(sql, i) by {
        lemma_plain(sql, i);
        lemma_plain(sql, i + 1);
    }
    if sql::multiple_statements(sql) {
        let (i, j) = choose|i: int, j: int|
            0 <= i < j < sql.len() && #[trigger] sql[i] == ';' && outside(sql, i)
                && !text::is_space(#[trigger] sql[j]) && !sql::comment_at(sql, j) && !(sql[j] == ';'
                && outside(sql, j));
        assert(outside(sql, j));
        assert(sql[i] == ';' && sql[j] != ';');
    }
    if exists|i: int, j: int|
        0 <= i < j < sql.len() && #[trigger] sql[i] == ';' && (#[trigger] sql[j]) != ';'
            && !text::is_space(sql[j]) {
        let (i, j) = choose|i: int, j: int|
            0 <= i < j < sql.len() && #[trigger] sql[i] == ';' && (#[trigger] sql[j]) != ';'
                && !text::is_space(sql[j]);
        assert(outside(sql, i) && outside(sql, j));
        assert(sql[i] == ';' && !text::is_space(sql[j]));
    }
}

/// A letter or a digit or an underscore, a dollar sign, or whatever is not ASCII.
pub open spec fn of_a_word(c: char) -> bool {
    ||| 'a' <= c <= 'z'
    ||| 'A' <= c <= 'Z'
    ||| '0' <= c <= '9'
    ||| c == '_'
    ||| c == '$'
    ||| c as u32 >= 128
}

/// `keyword` stands between `a` and `b` as a word of its own.
pub open spec fn stands_between(
    sql: Seq<char>,
    keyword: Seq<char>,
    a: Seq<char>,
    word: Seq<char>,
    b: Seq<char>,
) -> bool {
    &&& sql == a + word + b
    &&& text::lowered(word) == keyword
    &&& a.len() > 0 ==> !of_a_word(a.last()) && a.last() != ':' && a.last() != '@' && a.last()
        != '#'
    &&& b.len() > 0 ==> !of_a_word(b[0])
    &&& outside(sql, a.len() as int)
    &&& outside(sql, a.len() as int + 1)
}

/// A keyword stands at a position exactly where the text reads as it there, in any case,
/// outside every quotation and comment, and neither what stands before it nor what stands
/// behind it belongs to the same word or names a parameter.
pub proof fn law_where_a_keyword_stands(
    sql: Seq<char>,
    keyword: Seq<char>,
    a: Seq<char>,
    word: Seq<char>,
    b: Seq<char>,
)
    requires
        sql == a + word + b,
        word.len() == keyword.len(),
        keyword.len() > 0,
    ensures
        sql::keyword_at(sql, keyword, a.len() as int) == stands_between(sql, keyword, a, word, b),
{
    let i = a.len() as int;
    assert(text::lowered(sql).subrange(i, i + keyword.len()) =~= text::lowered(word));
    if a.len() > 0 {
        assert(sql[i - 1] == a.last());
    }
    if b.len() > 0 {
        assert(sql[i + keyword.len()] == b[0]);
    }
}

/// A statement has a keyword exactly where it reads as something, that keyword and
/// something, in that order.
pub proof fn law_which_keywords_a_statement_has(sql: Seq<char>, keyword: Seq<char>)
    requires
        keyword.len() > 0,
    ensures
        sql::has_keyword(sql, keyword) == exists|
            a: Seq<char>,
            word: Seq<char>,
            b: Seq<char>,
        | #[trigger]
            stands_between(sql, keyword, a, word, b),
        sql::has_clause(sql, keyword) == exists|a: Seq<char>, word: Seq<char>, b: Seq<char>|
            #[trigger] stands_between(sql, keyword, a, word, b) && sql::depth_at(
                sql,
                a.len() as int,
            ) == 0,
{
    assert forall|i: int| #[trigger] sql::keyword_at(sql, keyword, i) implies stands_between(
        sql,
        keyword,
        sql.take(i),
        sql.subrange(i, i + keyword.len()),
        sql.skip(i + keyword.len()),
    ) && sql.take(i).len() == i by {
        let a = sql.take(i);
        let word = sql.subrange(i, i + keyword.len());
        let b = sql.skip(i + keyword.len());
        assert(sql =~= a + word + b);
        law_where_a_keyword_stands(sql, keyword, a, word, b);
    }
    assert forall|a: Seq<char>, word: Seq<char>, b: Seq<char>| #[trigger]
        stands_between(sql, keyword, a, word, b) implies sql::keyword_at(
        sql,
        keyword,
        a.len() as int,
    ) by {
        assert(text::lowered(word).len() == word.len());
        law_where_a_keyword_stands(sql, keyword, a, word, b);
    }
    if sql::has_clause(sql, keyword) {
        let i = choose|i: int| sql::clause_at(sql, keyword, i);
        assert(sql::keyword_at(sql, keyword, i));
    }
    if exists|a: Seq<char>, word: Seq<char>, b: Seq<char>|
        #[trigger] stands_between(sql, keyword, a, word, b) && sql::depth_at(sql, a.len() as int)
            == 0 {
        let (a, word, b) = choose|a: Seq<char>, word: Seq<char>, b: Seq<char>|
            #[trigger] stands_between(sql, keyword, a, word, b) && sql::depth_at(
                sql,
                a.len() as int,
            ) == 0;
        assert(sql::clause_at(sql, keyword, a.len() as int));
    }
}

/// A keyword stands at a position of the statement, and ends within it.
pub proof fn law_a_keyword_stands_within_the_statement(
    sql: Seq<char>,
    keyword: Seq<char>,
    i: int,
)
    requires
        sql::keyword_at(sql, keyword, i),
    ensures
        0 <= i < sql.len(),
        i + keyword.len() <= sql.len(),
        outside(sql, i),
{
}

/// Brackets outside every quotation and comment are counted: an opening one adds one, a
/// closing one takes one away where one is open, and nothing else counts.
pub proof fn law_brackets_are_counted(sql: Seq<char>, i: int)
    requires
        0 <= i < sql.len(),
    ensures
        sql::depth_at(sql, 0) == 0,
        outside(sql, i) && sql[i] == '(' ==> sql::depth_at(sql, i + 1) == sql::depth_at(sql, i) + 1,
        outside(sql, i) && sql[i] == ')' && sql::depth_at(sql, i) > 0 ==> sql::depth_at(sql, i + 1)
            == sql::depth_at(sql, i) - 1,
        outside(sql, i) && sql[i] == ')' && sql::depth_at(sql, i) == 0 ==> sql::depth_at(sql, i + 1)
            == 0,
        !outside(sql, i) || (sql[i] != '(' && sql[i] != ')') ==> sql::depth_at(sql, i + 1)
            == sql::depth_at(sql, i),
{
}

proof fn lemma_space_run(s: Seq<char>, n: int, i: int)
    requires
        0 <= i <= n <= s.len(),
        forall|k: int| i <= k < n ==> text::is_space(#[trigger] s[k]),
        n < s.len() ==> !text::is_space(s[n]),
    ensures
        sql::space_run(s, i) == n - i,
    decreases n - i,
{
    if i < n {
        lemma_space_run(s, n, i + 1);
    }
}

proof fn lemma_ident_run(s: Seq<char>, n: int, i: int)
    requires
        0 <= i <= n <= s.len(),
        forall|k: int| i <= k < n ==> sql::ident_char(#[trigger] s[k]),
        n < s.len() ==> !sql::ident_char(s[n]),
    ensures
        sql::ident_run(s, i) == n - i,
    decreases n - i,
{
    if i < n {
        lemma_ident_run(s, n, i + 1);
    }
}

/// The first word of a text is what stands behind its leading whitespace, up to the first
/// character that belongs to no word, in lower case.
pub proof fn law_the_first_word(blank: Seq<char>, word: Seq<char>, rest: Seq<char>)
    requires
        forall|i: int| 0 <= i < blank.len() ==> text::is_space(#[trigger] blank[i]),
        forall|i: int| 0 <= i < word.len() ==> sql::ident_char(#[trigger] word[i]),
        rest.len() > 0 ==> !sql::ident_char(rest[0]),
        word.len() > 0 ==> !text::is_space(word[0]),
        word.len() == 0 && rest.len() > 0 ==> !text::is_space(rest[0]),
    ensures
        sql::first_word(blank + word + rest) == text::lowered(word),
{
    let s = blank + word + rest;
    let n = blank.len() as int;
    let m = n + word.len();
    assert forall|k: int| 0 <= k < n implies text::is_space(#[trigger] s[k]) by {
        assert(s[k] == blank[k]);
    }
    if n < s.len() {
        if word.len() > 0 {
            assert(s[n] == word[0]);
        } else {
            assert(s[n] == rest[0]);
        }
    }
    lemma_space_run(s, n, 0);
    assert forall|k: int| n <= k < m implies sql::ident_char(#[trigger] s[k]) by {
        assert(s[k] == word[k - n]);
    }
    if m < s.len() {
        assert(s[m] == rest[0]);
    }
    lemma_ident_run(s, m, n);
    assert(s.subrange(n, m) =~= word);
}

/// Behind a part of a text that ends outside every quotation and comment, the rest reads as
/// it does alone.
proof fn lemma_shifted(a: Seq<char>, b: Seq<char>, k: int)
    requires
        outside(a + b, a.len() as int),
        0 <= k <= b.len(),
    ensures
        sql::quote_at(a + b, a.len() + k) == sql::quote_at(b, k),
    decreases k,
{
    if k > 0 {
        lemma_shifted(a, b, k - 1);
        assert((a + b)[a.len() + k - 1] == b[k - 1]);
        if k < b.len() {
            assert((a + b)[a.len() + k] == b[k]);
        }
    }
}

proof fn lemma_lead_end_shifted(a: Seq<char>, b: Seq<char>, i: int)
    requires
        outside(a + b, a.len() as int),
        0 <= i <= b.len(),
    ensures
        sql::lead_end(a + b, a.len() + i) == a.len() + sql::lead_end(b, i),
        i <= sql::lead_end(b, i) <= b.len(),
    decreases b.len() - i,
{
    if i < b.len() {
        assert((a + b)[a.len() + i] == b[i]);
        lemma_shifted(a, b, i);
        lemma_shifted(a, b, i + 1);
        lemma_lead_end_shifted(a, b, i + 1);
    }
}

proof fn lemma_lead_end_over(a: Seq<char>, b: Seq<char>, i: int)
    requires
        0 <= i <= a.len(),
        forall|k: int|
            i <= k < a.len() ==> sql::skipped(#[trigger] (a + b)[k]) || sql::comment_at(a + b, k),
    ensures
        sql::lead_end(a + b, i) == sql::lead_end(a + b, a.len() as int),
    decreases a.len() - i,
{
    if i < a.len() {
        assert(sql::skipped((a + b)[i]) || sql::comment_at(a + b, i));
        lemma_lead_end_over(a, b, i + 1);
    }
}

proof fn lemma_lead_word_behind(a: Seq<char>, b: Seq<char>)
    requires
        outside(a + b, a.len() as int),
        forall|k: int|
            0 <= k < a.len() ==> sql::skipped(#[trigger] (a + b)[k]) || sql::comment_at(a + b, k),
    ensures
        sql::lead_word(a + b) == sql::lead_word(b),
{
    lemma_lead_end_over(a, b, 0);
    lemma_lead_end_shifted(a, b, 0);
    let n = sql::lead_end(b, 0);
    assert((a + b).skip(a.len() + n) =~= b.skip(n));
}

/// Whitespace, a comment to the end of a line and a comment in brackets before a statement
/// have no part in the word that leads it.
pub proof fn law_the_leading_word_stands_behind_comments(
    blank: Seq<char>,
    comment: Seq<char>,
    rest: Seq<char>,
)
    requires
        forall|i: int|
            0 <= i < blank.len() ==> text::is_space(#[trigger] blank[i]) || blank[i] == '\u{feff}',
    ensures
        sql::lead_word(blank + rest) == sql::lead_word(rest),
        (forall|i: int| 0 <= i < comment.len() ==> #[trigger] comment[i] != '\n')
            ==> sql::lead_word(seq!['-', '-'] + comment + seq!['\n'] + rest) == sql::lead_word(rest),
        (forall|i: int|
            0 <= i < comment.len() ==> !(#[trigger] comment[i] == '*' && i + 1 < comment.len()
                && comment[i + 1] == '/')) ==> sql::lead_word(
            seq!['/', '*'] + comment + seq!['*', '/'] + rest,
        ) == sql::lead_word(rest),
{
    lemma_blank(blank, rest, blank.len() as int);
    assert forall|k: int| 0 <= k < blank.len() implies sql::skipped(#[trigger] (blank + rest)[k]) by {
        assert((blank + rest)[k] == blank[k]);
    }
    lemma_lead_word_behind(blank, rest);
    if forall|i: int| 0 <= i < comment.len() ==> #[trigger] comment[i] != '\n' {
        let a = seq!['-', '-'] + comment + seq!['\n'];
        let s = a + rest;
        assert(s =~= seq!['-', '-'] + comment + seq!['\n'] + rest);
        let j = comment.len() as int + 2;
        assert forall|n: int| 0 < n < j implies #[trigger] s[n] != '\n' by {
            if n >= 2 {
                assert(s[n] == comment[n - 2]);
            }
        }
        assert(s[j] == '\n');
        assert(s[0] == '-' && s[1] == '-');
        law_line_comments(s, 0, j);
        lemma_lead_word_behind(a, rest);
    }
    if forall|i: int|
        0 <= i < comment.len() ==> !(#[trigger] comment[i] == '*' && i + 1 < comment.len()
            && comment[i + 1] == '/') {
        let a = seq!['/', '*'] + comment + seq!['*', '/'];
        let s = a + rest;
        assert(s =~= seq!['/', '*'] + comment + seq!['*', '/'] + rest);
        let j = comment.len() as int + 2;
        assert(s[0] == '/' && s[1] == '*' && s[j] == '*' && s[j + 1] == '/');
        assert forall|n: int| 2 <= n < j implies !(#[trigger] pair_at(s, n, '*', '/')) by {
            assert(s[n] == comment[n - 2]);
            if n + 1 < j {
                assert(s[n + 1] == comment[n - 1]);
            }
        }
        law_block_comments(s, 0, j);
        assert forall|k: int| 0 <= k < a.len() implies sql::skipped(#[trigger] s[k])
            || sql::comment_at(s, k) by {
            assert(k < j || k == j || k == j + 1);
        }
        lemma_lead_word_behind(a, rest);
    }
}

/// A statement that is one comment without an end is led by no word.
pub proof fn law_a_comment_leads_nothing(comment: Seq<char>)
    ensures
        (forall|i: int| 0 <= i < comment.len() ==> #[trigger] comment[i] != '\n')
            ==> sql::lead_word(seq!['-', '-'] + comment).len() == 0,
        (forall|i: int|
            0 <= i < comment.len() ==> !(#[trigger] comment[i] == '*' && i + 1 < comment.len()
                && comment[i + 1] == '/')) ==> sql::lead_word(seq!['/', '*'] + comment).len() == 0,
{
    let j = comment.len() as int + 2;
    if forall|i: int| 0 <= i < comment.len() ==> #[trigger] comment[i] != '\n' {
        let s = seq!['-', '-'] + comment;
        assert forall|n: int| 0 < n < j implies #[trigger] s[n] != '\n' by {
            if n >= 2 {
                assert(s[n] == comment[n - 2]);
            }
        }
        law_line_comments(s, 0, j);
        lemma_all_skipped(s, 0);
    }
    if forall|i: int|
        0 <= i < comment.len() ==> !(#[trigger] comment[i] == '*' && i + 1 < comment.len()
            && comment[i + 1] == '/') {
        let s = seq!['/', '*'] + comment;
        assert forall|n: int| 2 <= n < j implies !(#[trigger] pair_at(s, n, '*', '/')) by {
            assert(s[n] == comment[n - 2]);
            if n + 1 < j {
                assert(s[n + 1] == comment[n - 1]);
            }
        }
        law_block_comments(s, 0, j);
        lemma_all_skipped(s, 0);
    }
}

proof fn lemma_all_skipped(s: Seq<char>, i: int)
    requires
        0 <= i <= s.len(),
        forall|k: int| 0 <= k < s.len() ==> #[trigger] sql::comment_at(s, k),
    ensures
        sql::lead_end(s, i) == s.len(),
        i == 0 ==> sql::lead_word(s).len() == 0,
    decreases s.len() - i,
{
    if i < s.len() {
        assert(sql::comment_at(s, i));
        lemma_all_skipped(s, i + 1);
    }
    assert(s.skip(s.len() as int) =~= Seq::empty());
}

proof fn lemma_blank(blank: Seq<char>, rest: Seq<char>, i: int)
    requires
        forall|i: int|
            0 <= i < blank.len() ==> text::is_space(#[trigger] blank[i]) || blank[i] == '\u{feff}',
        0 <= i <= blank.len(),
    ensures
        outside(blank + rest, i),
    decreases i,
{
    if i > 0 {
        lemma_blank(blank, rest, i - 1);
        assert((blank + rest)[i - 1] == blank[i - 1]);
        assert(text::is_space(blank[i - 1]) || blank[i - 1] == '\u{feff}');
    }
}

/// A statement that begins with a word is led by it, and one that begins with anything else
/// that is not to be skipped is led by none.
pub proof fn law_a_leading_word(word: Seq<char>, rest: Seq<char>)
    requires
        (word + rest).len() > 0,
        forall|i: int| 0 <= i < word.len() ==> sql::ident_char(#[trigger] word[i]),
        rest.len() > 0 ==> !sql::ident_char(rest[0]),
        !text::is_space((word + rest)[0]) && (word + rest)[0] != '\u{feff}',
        !pair_at(word + rest, 0, '-', '-'),
        !pair_at(word + rest, 0, '/', '*'),
    ensures
        sql::lead_word(word + rest) == text::lowered(word),
{
    let s = word + rest;
    assert(outside(s, 0) && !sql::quote_at(s, 1).comments());
    assert(sql::lead_end(s, 0) == 0);
    assert(s.skip(0) =~= Seq::empty() + word + rest);
    if word.len() > 0 {
        assert(s[0] == word[0]);
    } else {
        assert(s[0] == rest[0]);
    }
    law_the_first_word(Seq::empty(), word, rest);
}

/// Position `i` holds one of the verbs that a statement can have, as a word of the
/// statement itself.
pub open spec fn holds_a_verb(sql: Seq<char>, i: int) -> bool {
    ||| sql::clause_at(sql, "select"@, i)
    ||| sql::clause_at(sql, "values"@, i)
    ||| sql::clause_at(sql, "insert"@, i)
    ||| sql::clause_at(sql, "update"@, i)
    ||| sql::clause_at(sql, "delete"@, i)
}

proof fn lemma_verbs_differ()
    ensures
        "with"@ != "update"@,
        "with"@ != "delete"@,
        "with"@ != "select"@,
        "with"@ != "values"@,
        "update"@ != "select"@,
        "update"@ != "values"@,
        "delete"@ != "select"@,
        "delete"@ != "values"@,
{
    reveal_strlit("with");
    reveal_strlit("update");
    reveal_strlit("delete");
    reveal_strlit("select");
    reveal_strlit("values");
    assert("with"@.len() == 4 && "update"@.len() == 6 && "delete"@.len() == 6 && "select"@.len()
        == 6 && "values"@.len() == 6);
    assert("update"@[0] == 'u' && "delete"@[0] == 'd' && "select"@[0] == 's' && "values"@[0]
        == 'v');
}

/// Which statements change every row and which are reads. One that is led by UPDATE or
/// DELETE changes every row unless it has a WHERE clause of its own; one that is led by
/// SELECT or VALUES is a read; one that is led by WITH is what its first verb outside all
/// brackets says; any other is neither.
pub proof fn law_what_a_statement_is(sql: Seq<char>, verb: int)
    ensures
        ({
            let lead = sql::lead_word(sql);
            let conditional = sql::has_clause(sql, "where"@);
            &&& lead == "update"@ || lead == "delete"@ ==> {
                &&& sql::where_less_mutation(sql) == !conditional
                &&& !sql::selects(sql)
            }
            &&& lead == "select"@ || lead == "values"@ ==> {
                &&& !sql::where_less_mutation(sql)
                &&& sql::selects(sql)
            }
            &&& lead != "update"@ && lead != "delete"@ && lead != "select"@ && lead != "values"@
                && lead != "with"@ ==> !sql::where_less_mutation(sql) && !sql::selects(sql)
            &&& lead == "with"@ && holds_a_verb(sql, verb) && (forall|j: int|
                j < verb ==> !(#[trigger] holds_a_verb(sql, j))) ==> {
                &&& sql::where_less_mutation(sql) == (!conditional && (sql::clause_at(
                    sql,
                    "update"@,
                    verb,
                ) || sql::clause_at(sql, "delete"@, verb)))
                &&& sql::selects(sql) == (sql::clause_at(sql, "select"@, verb) || sql::clause_at(
                    sql,
                    "values"@,
                    verb,
                ))
            }
            &&& lead == "with"@ && (forall|j: int| !(#[trigger] holds_a_verb(sql, j)))
                ==> !sql::where_less_mutation(sql) && !sql::selects(sql)
        }),
{
    lemma_verbs_differ();
    let lead = sql::lead_word(sql);
    assert forall|j: int| #[trigger] holds_a_verb(sql, j) == sql::verb_at(sql, j) by {
    }
    if lead == "with"@ {
        assert forall|i: int| #[trigger] sql::verb_after_with(sql, i) implies holds_a_verb(sql, i)
            && (holds_a_verb(sql, verb) && (forall|j: int|
            j < verb ==> !(#[trigger] holds_a_verb(sql, j))) ==> i == verb) by {
            assert(holds_a_verb(sql, i));
            if i > verb {
                assert(!sql::verb_at(sql, verb));
            }
        }
        if holds_a_verb(sql, verb) && (forall|j: int|
            j < verb ==> !(#[trigger] holds_a_verb(sql, j))) {
            assert forall|j: int| j < verb implies !sql::verb_at(sql, j) by {
                assert(!holds_a_verb(sql, j));
            }
            assert(sql::verb_after_with(sql, verb));
        }
    }
}

} // verus!
