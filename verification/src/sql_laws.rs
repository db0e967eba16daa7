//! Comments: to the guards they are whitespace.
use vstd::prelude::*;

use crate::sql;
use crate::text;

verus! {

/// A statement with a space in place of each character of its comments.
pub open spec fn blanked(sql: Seq<char>) -> Seq<char> {
    Seq::new(
        sql.len(),
        |i: int|
            if sql::comment_at(sql, i) {
                ' '
            } else {
                sql[i]
            },
    )
}

spec fn outside(q: sql::Quote) -> sql::Quote {
    if q.comments() {
        sql::Quote::Open
    } else {
        q
    }
}

proof fn lemma_blanked_quote(sql: Seq<char>, i: int)
    requires
        i <= sql.len(),
    ensures
        sql::quote_at(blanked(sql), i) == outside(sql::quote_at(sql, i)),
        sql::depth_at(blanked(sql), i) == sql::depth_at(sql, i),
    decreases i,
{
    if i > 0 {
        lemma_blanked_quote(sql, i - 1);
    }
}

/// Where a comment has just ended, its last character is a line feed or a slash.
proof fn lemma_comment_end(sql: Seq<char>, i: int)
    requires
        0 < i <= sql.len(),
        sql::comment_at(sql, i - 1),
        sql::quote_at(sql, i) == sql::Quote::Open,
    ensures
        sql[i - 1] == '\n' || sql[i - 1] == '/',
{
    if sql::quote_at(sql, i - 1) == sql::Quote::BlockLeave {
        assert(i - 1 > 0);
        assert(sql::quote_at(sql, i - 1) == sql::quote_step(
            sql::quote_at(sql, i - 2),
            sql[i - 2],
            sql::char_at(sql, i - 1),
        ));
    }
}

/// A word of small letters.
pub open spec fn small_letters(word: Seq<char>) -> bool {
    word.len() > 0 && forall|k: int| 0 <= k < word.len() ==> 'a' <= #[trigger] word[k] <= 'z'
}

/// Letters outside a quotation open nothing.
proof fn lemma_letters_stay_open(sql: Seq<char>, word: Seq<char>, i: int, n: int)
    requires
        small_letters(word),
        0 <= i,
        0 <= n <= word.len(),
        sql::quote_at(sql, i) == sql::Quote::Open,
        text::occurs_at(text::lowered(sql), word, i),
    ensures
        sql::quote_at(sql, i + n) == sql::Quote::Open,
        forall|k: int| i <= k < i + n ==> !sql::comment_at(sql, k),
    decreases n,
{
    if n > 0 {
        lemma_letters_stay_open(sql, word, i, n - 1);
        let low = text::lowered(sql);
        assert(low.subrange(i, i + word.len())[n - 1] == low[i + n - 1]);
        assert('a' <= word[n - 1] <= 'z');
    }
}

proof fn lemma_blanked_keyword(sql: Seq<char>, word: Seq<char>, i: int)
    requires
        small_letters(word),
    ensures
        sql::keyword_at(blanked(sql), word, i) == sql::keyword_at(sql, word, i),
        sql::clause_at(blanked(sql), word, i) == sql::clause_at(sql, word, i),
{
    let b = blanked(sql);
    let n = word.len() as int;
    if 0 <= i < sql.len() {
        lemma_blanked_quote(sql, i);
        lemma_blanked_quote(sql, i + 1);
        let low = text::lowered(sql);
        let blow = text::lowered(b);
        if sql::keyword_at(sql, word, i) {
            lemma_letters_stay_open(sql, word, i, n);
            assert(blow.subrange(i, i + n) =~= low.subrange(i, i + n));
        }
        if sql::keyword_at(b, word, i) {
            assert forall|k: int| i <= k < i + n implies blow[k] == low[k] && !sql::comment_at(
                sql,
                k,
            ) by {
                assert(blow.subrange(i, i + n)[k - i] == blow[k]);
                assert('a' <= word[k - i] <= 'z');
            }
            assert(low.subrange(i, i + n) =~= blow.subrange(i, i + n));
            assert(sql::plain_at(sql, i));
        }
        if sql::plain_at(sql, i) && text::occurs_at(low, word, i) {
            lemma_letters_stay_open(sql, word, i, n);
            if i > 0 && sql::comment_at(sql, i - 1) {
                lemma_comment_end(sql, i);
            }
            if i + n < sql.len() && sql::comment_at(sql, i + n) {
                assert(sql::quote_at(sql, i + n) == sql::Quote::Open);
                assert(sql[i + n] == '-' || sql[i + n] == '/');
            }
        }
    }
}

proof fn lemma_blanked_lead(sql: Seq<char>, i: int)
    requires
        0 <= i <= sql.len(),
    ensures
        sql::lead_end(blanked(sql), i) == sql::lead_end(sql, i),
        i <= sql::lead_end(sql, i) <= sql.len(),
        sql::lead_end(sql, i) < sql.len() ==> !sql::skipped(sql[sql::lead_end(sql, i)])
            && !sql::comment_at(sql, sql::lead_end(sql, i)),
    decreases sql.len() - i,
{
    if i < sql.len() {
        lemma_blanked_quote(sql, i);
        lemma_blanked_quote(sql, i + 1);
        lemma_blanked_lead(sql, i + 1);
    }
}

/// From a position outside every quotation and comment, a word is read alike with its
/// comments and without.
proof fn lemma_blanked_word(sql: Seq<char>, start: int, i: int)
    requires
        0 <= start <= start + i <= sql.len(),
        sql::quote_at(sql, start + i) == sql::Quote::Open,
    ensures
        sql::ident_run(blanked(sql).skip(start), i) == sql::ident_run(sql.skip(start), i),
        0 <= sql::ident_run(sql.skip(start), i) <= sql.len() - start - i,
        forall|k: int|
            start + i <= k < start + i + sql::ident_run(sql.skip(start), i) ==> #[trigger] blanked(
                sql,
            )[k] == sql[k],
    decreases sql.len() - i,
{
    let b = blanked(sql);
    if start + i < sql.len() {
        assert(b.skip(start)[i] == b[start + i]);
        assert(sql.skip(start)[i] == sql[start + i]);
        if sql::ident_char(sql[start + i]) {
            assert(!sql::comment_at(sql, start + i));
            lemma_blanked_word(sql, start, i + 1);
        }
    }
}

proof fn lemma_lead_is_open(sql: Seq<char>, i: int)
    requires
        0 <= i <= sql.len(),
        sql::quote_at(sql, i) == sql::Quote::Open || sql::quote_at(sql, i).comments(),
    ensures
        sql::lead_end(sql, i) < sql.len() ==> sql::quote_at(sql, sql::lead_end(sql, i))
            == sql::Quote::Open,
    decreases sql.len() - i,
{
    if i < sql.len() && (sql::skipped(sql[i]) || sql::comment_at(sql, i)) {
        lemma_lead_is_open(sql, i + 1);
    }
}

proof fn lemma_blanked_lead_word(sql: Seq<char>)
    ensures
        sql::lead_word(blanked(sql)) == sql::lead_word(sql),
{
    let b = blanked(sql);
    lemma_blanked_lead(sql, 0);
    lemma_lead_is_open(sql, 0);
    let lead = sql::lead_end(sql, 0);
    let (x, y) = (sql.skip(lead), b.skip(lead));
    if lead < sql.len() {
        assert(x[0] == sql[lead] && y[0] == sql[lead]);
        assert(sql::space_run(x, 0) == 0 && sql::space_run(y, 0) == 0);
        lemma_blanked_word(sql, lead, 0);
        let n = sql::ident_run(x, 0);
        assert forall|k: int| 0 <= k < n implies x[k] == y[k] by {
            assert(b[lead + k] == sql[lead + k]);
        }
        assert(x.subrange(0, n) =~= y.subrange(0, n));
    } else {
        assert(x =~= y);
    }
}

/// What stands in a comment, and that it stands there, makes no difference to a guard: a
/// statement counts as it would with spaces in place of its comments.
pub proof fn law_comments_are_whitespace(sql: Seq<char>)
    ensures
        sql::multiple_statements(blanked(sql)) == sql::multiple_statements(sql),
        sql::where_less_mutation(blanked(sql)) == sql::where_less_mutation(sql),
        sql::selects(blanked(sql)) == sql::selects(sql),
{
    let b = blanked(sql);
    assert forall|i: int|
        sql::separator_at(b, i) == sql::separator_at(sql, i) && sql::content_at(b, i)
            == sql::content_at(sql, i) by {
        if 0 <= i < sql.len() {
            lemma_blanked_quote(sql, i);
            lemma_blanked_quote(sql, i + 1);
        }
    }
    if sql::multiple_statements(sql) {
        let (i, j) = choose|i: int, j: int|
            i < j && #[trigger] sql::separator_at(sql, i) && #[trigger] sql::content_at(sql, j);
        assert(sql::separator_at(b, i) && sql::content_at(b, j));
    }
    if sql::multiple_statements(b) {
        let (i, j) = choose|i: int, j: int|
            i < j && #[trigger] sql::separator_at(b, i) && #[trigger] sql::content_at(b, j);
        assert(sql::separator_at(sql, i) && sql::content_at(sql, j));
    }
    lemma_blanked_lead_word(sql);
    lemma_verbs_are_words();
    assert forall|i: int|
        #![trigger sql::verb_at(b, i)]
        #![trigger sql::verb_at(sql, i)]
        sql::verb_at(b, i) == sql::verb_at(sql, i) && sql::clause_at(b, "select"@, i)
            == sql::clause_at(sql, "select"@, i) && sql::clause_at(b, "values"@, i)
            == sql::clause_at(sql, "values"@, i) && sql::clause_at(b, "update"@, i)
            == sql::clause_at(sql, "update"@, i) && sql::clause_at(b, "delete"@, i)
            == sql::clause_at(sql, "delete"@, i) by {
        lemma_blanked_keyword(sql, "select"@, i);
        lemma_blanked_keyword(sql, "values"@, i);
        lemma_blanked_keyword(sql, "insert"@, i);
        lemma_blanked_keyword(sql, "update"@, i);
        lemma_blanked_keyword(sql, "delete"@, i);
    }
    assert forall|i: int|
        #![trigger sql::verb_after_with(b, i)]
        #![trigger sql::verb_after_with(sql, i)]
        sql::verb_after_with(b, i) == sql::verb_after_with(sql, i) by {
        assert(sql::verb_at(b, i) == sql::verb_at(sql, i));
        assert(forall|j: int| j < i ==> sql::verb_at(b, j) == sql::verb_at(sql, j));
    }
    assert(sql::mutates(b) == sql::mutates(sql));
    assert forall|i: int| #[trigger]
        sql::clause_at(b, "where"@, i) == sql::clause_at(sql, "where"@, i) by {
        lemma_blanked_keyword(sql, "where"@, i);
    }
    if sql::has_clause(sql, "where"@) {
        let i = choose|i: int| sql::clause_at(sql, "where"@, i);
        assert(sql::clause_at(b, "where"@, i));
    }
}

proof fn lemma_verbs_are_words()
    ensures
        small_letters("select"@),
        small_letters("values"@),
        small_letters("insert"@),
        small_letters("update"@),
        small_letters("delete"@),
        small_letters("where"@),
{
    reveal_strlit("select");
    reveal_strlit("values");
    reveal_strlit("insert");
    reveal_strlit("update");
    reveal_strlit("delete");
    reveal_strlit("where");
}

} // verus!
