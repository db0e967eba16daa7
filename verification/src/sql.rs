//! The guards that read a statement before it reaches a database: how many
//! statements a body holds, what it does, and whether a keyword stands in it outside
//! every quotation and comment.
use vstd::prelude::*;
use vstd::string::*;

use crate::text;

verus! {

/// What a scanner is inside of: nothing, a quotation of one of the four kinds, or a
/// comment. A block comment is entered and left by two characters, so it has a state
/// between them at either end.
#[derive(Clone, Copy, PartialEq, Eq, Structural)]
pub enum Quote {
    Open,
    Single,
    Double,
    Backtick,
    Bracket,
    Line,
    BlockEnter,
    Block,
    BlockLeave,
}

impl Quote {
    /// Inside a comment.
    pub open spec fn comments(self) -> bool {
        self == Quote::Line || self == Quote::BlockEnter || self == Quote::Block || self
            == Quote::BlockLeave
    }

    /// Inside a string or identifier literal.
    pub open spec fn quotes(self) -> bool {
        self == Quote::Single || self == Quote::Double || self == Quote::Backtick || self
            == Quote::Bracket
    }

    fn is_comment(self) -> (r: bool)
        ensures
            r == self.comments(),
    {
        self == Quote::Line || self == Quote::BlockEnter || self == Quote::Block || self
            == Quote::BlockLeave
    }
}

/// What a scanner is inside of after one more character, with the character that
/// follows it. No mark but the closing one has a meaning inside a quotation or a
/// comment.
pub open spec fn quote_step(q: Quote, c: char, next: Option<char>) -> Quote {
    match q {
        Quote::Open => if c == '\'' {
            Quote::Single
        } else if c == '"' {
            Quote::Double
        } else if c == '`' {
            Quote::Backtick
        } else if c == '[' {
            Quote::Bracket
        } else if c == '-' && next == Some('-') {
            Quote::Line
        } else if c == '/' && next == Some('*') {
            Quote::BlockEnter
        } else {
            Quote::Open
        },
        Quote::Single => if c == '\'' {
            Quote::Open
        } else {
            q
        },
        Quote::Double => if c == '"' {
            Quote::Open
        } else {
            q
        },
        Quote::Backtick => if c == '`' {
            Quote::Open
        } else {
            q
        },
        Quote::Bracket => if c == ']' {
            Quote::Open
        } else {
            q
        },
        Quote::Line => if c == '\n' {
            Quote::Open
        } else {
            q
        },
        Quote::BlockEnter => Quote::Block,
        Quote::Block => if c == '*' && next == Some('/') {
            Quote::BlockLeave
        } else {
            q
        },
        Quote::BlockLeave => Quote::Open,
    }
}

/// The character at position `i`, if there is one.
pub open spec fn char_at(sql: Seq<char>, i: int) -> Option<char> {
    if 0 <= i < sql.len() {
        Some(sql[i])
    } else {
        None
    }
}

/// The quotation or comment that position `i` of `sql` stands in.
pub open spec fn quote_at(sql: Seq<char>, i: int) -> Quote
    decreases i,
{
    if i <= 0 {
        Quote::Open
    } else {
        quote_step(quote_at(sql, i - 1), sql[i - 1], char_at(sql, i))
    }
}

/// Position `i` belongs to a comment, its opening and closing marks included.
pub open spec fn comment_at(sql: Seq<char>, i: int) -> bool {
    quote_at(sql, i).comments() || quote_at(sql, i + 1).comments()
}

/// Position `i` holds a semicolon outside every quotation and comment.
pub open spec fn separator_at(sql: Seq<char>, i: int) -> bool {
    0 <= i < sql.len() && sql[i] == ';' && quote_at(sql, i) == Quote::Open
}

/// Position `i` holds content: neither whitespace nor a separator nor a comment.
pub open spec fn content_at(sql: Seq<char>, i: int) -> bool {
    0 <= i < sql.len() && !separator_at(sql, i) && !text::is_space(sql[i]) && !comment_at(sql, i)
}

/// A separator has content somewhere after it, so the body holds more than one
/// statement.
pub open spec fn multiple_statements(sql: Seq<char>) -> bool {
    exists|i: int, j: int| i < j && #[trigger] separator_at(sql, i) && #[trigger] content_at(sql, j)
}

/// A character of a SQL word.
pub open spec fn ident_char(c: char) -> bool {
    text::is_alnum(c) || c == '_'
}

/// How many characters from position `i` on are whitespace.
pub open spec fn space_run(s: Seq<char>, i: int) -> int
    decreases s.len() - i,
{
    if 0 <= i < s.len() && text::is_space(s[i]) {
        1 + space_run(s, i + 1)
    } else {
        0
    }
}

/// How many characters from position `i` on are characters of a word.
pub open spec fn ident_run(s: Seq<char>, i: int) -> int
    decreases s.len() - i,
{
    if 0 <= i < s.len() && ident_char(s[i]) {
        1 + ident_run(s, i + 1)
    } else {
        0
    }
}

/// The first word after the leading whitespace, in lower case; empty where none
/// stands there.
pub open spec fn first_word(sql: Seq<char>) -> Seq<char> {
    let start = space_run(sql, 0);
    text::lowered(sql.subrange(start, start + ident_run(sql, start)))
}

/// A character that is read into one word with the characters before it. Beside the
/// characters of a word these are the dollar sign and whatever is not ASCII.
pub open spec fn joins_word(c: char) -> bool {
    ident_char(c) || c == '$' || c as u32 >= 128
}

/// A character that is read into one word with the characters after it. The marks of
/// named parameters are among these.
pub open spec fn begins_word(c: char) -> bool {
    joins_word(c) || c == ':' || c == '@' || c == '#'
}

/// Position `i` stands outside every quotation and comment, and opens none.
pub open spec fn plain_at(sql: Seq<char>, i: int) -> bool {
    0 <= i < sql.len() && quote_at(sql, i) == Quote::Open && quote_at(sql, i + 1) == Quote::Open
}

/// `keyword` stands at position `i` of `sql` as a word of its own, in any case, and
/// outside every quotation and comment.
pub open spec fn keyword_at(sql: Seq<char>, keyword: Seq<char>, i: int) -> bool {
    &&& plain_at(sql, i)
    &&& text::occurs_at(text::lowered(sql), keyword, i)
    &&& i == 0 || !begins_word(sql[i - 1])
    &&& i + keyword.len() >= sql.len() || !joins_word(sql[i + keyword.len()])
}

/// `keyword` stands somewhere in `sql` as a word of its own, neither quoted nor in a
/// comment.
pub open spec fn has_keyword(sql: Seq<char>, keyword: Seq<char>) -> bool {
    exists|i: int| keyword_at(sql, keyword, i)
}

/// How many round brackets are open at position `i`.
pub open spec fn depth_at(sql: Seq<char>, i: int) -> nat
    decreases i,
{
    if i <= 0 {
        0
    } else {
        let d = depth_at(sql, i - 1);
        if quote_at(sql, i - 1) == Quote::Open && sql[i - 1] == '(' {
            d + 1
        } else if quote_at(sql, i - 1) == Quote::Open && sql[i - 1] == ')' && d > 0 {
            (d - 1) as nat
        } else {
            d
        }
    }
}

/// `keyword` stands at position `i` as a word of the statement itself, not of anything
/// in brackets.
pub open spec fn clause_at(sql: Seq<char>, keyword: Seq<char>, i: int) -> bool {
    keyword_at(sql, keyword, i) && depth_at(sql, i) == 0
}

/// The statement itself has the clause that `keyword` begins.
pub open spec fn has_clause(sql: Seq<char>, keyword: Seq<char>) -> bool {
    exists|i: int| clause_at(sql, keyword, i)
}

/// A character that stands for nothing before a statement: whitespace, or a byte order
/// mark, which SQLite skips.
pub open spec fn skipped(c: char) -> bool {
    text::is_space(c) || c == '\u{feff}'
}

/// The first position from `i` on that is neither to be skipped nor in a comment.
pub open spec fn lead_end(sql: Seq<char>, i: int) -> int
    decreases sql.len() - i,
{
    if 0 <= i < sql.len() && (skipped(sql[i]) || comment_at(sql, i)) {
        lead_end(sql, i + 1)
    } else {
        i
    }
}

/// The word that leads a statement, in lower case, past leading whitespace and
/// comments.
pub open spec fn lead_word(sql: Seq<char>) -> Seq<char> {
    first_word(sql.skip(lead_end(sql, 0)))
}

/// Position `i` holds a word that a statement can have as its verb after a WITH list.
/// None of these words can be a name without being quoted.
pub open spec fn verb_at(sql: Seq<char>, i: int) -> bool {
    ||| clause_at(sql, "select"@, i)
    ||| clause_at(sql, "values"@, i)
    ||| clause_at(sql, "insert"@, i)
    ||| clause_at(sql, "update"@, i)
    ||| clause_at(sql, "delete"@, i)
}

/// Position `i` holds the verb of a statement that is led by a WITH list.
pub open spec fn verb_after_with(sql: Seq<char>, i: int) -> bool {
    &&& lead_word(sql) == "with"@
    &&& verb_at(sql, i)
    &&& forall|j: int| j < i ==> !verb_at(sql, j)
}

/// An UPDATE or a DELETE.
pub open spec fn mutates(sql: Seq<char>) -> bool {
    ||| lead_word(sql) == "update"@
    ||| lead_word(sql) == "delete"@
    ||| exists|i: int| #[trigger]
        verb_after_with(sql, i) && (clause_at(sql, "update"@, i) || clause_at(sql, "delete"@, i))
}

/// A SELECT, or a list of VALUES, which is one.
pub open spec fn selects(sql: Seq<char>) -> bool {
    ||| lead_word(sql) == "select"@
    ||| lead_word(sql) == "values"@
    ||| exists|i: int| #[trigger]
        verb_after_with(sql, i) && (clause_at(sql, "select"@, i) || clause_at(sql, "values"@, i))
}

/// An UPDATE or a DELETE without a WHERE clause.
pub open spec fn where_less_mutation(sql: Seq<char>) -> bool {
    mutates(sql) && !has_clause(sql, "where"@)
}

fn next_quote(q: Quote, c: char, next: Option<char>) -> (r: Quote)
    ensures
        r == quote_step(q, c, next),
{
    let dash = match next {
        Some(n) => n == '-',
        None => false,
    };
    let star = match next {
        Some(n) => n == '*',
        None => false,
    };
    let slash = match next {
        Some(n) => n == '/',
        None => false,
    };
    let closes = match q {
        Quote::Open => false,
        Quote::Single => c == '\'',
        Quote::Double => c == '"',
        Quote::Backtick => c == '`',
        Quote::Bracket => c == ']',
        Quote::Line => c == '\n',
        Quote::BlockEnter => false,
        Quote::Block => false,
        Quote::BlockLeave => true,
    };
    if closes {
        Quote::Open
    } else if q == Quote::BlockEnter {
        Quote::Block
    } else if q == Quote::Block && c == '*' && slash {
        Quote::BlockLeave
    } else if q != Quote::Open {
        q
    } else if c == '\'' {
        Quote::Single
    } else if c == '"' {
        Quote::Double
    } else if c == '`' {
        Quote::Backtick
    } else if c == '[' {
        Quote::Bracket
    } else if c == '-' && dash {
        Quote::Line
    } else if c == '/' && star {
        Quote::BlockEnter
    } else {
        Quote::Open
    }
}

fn char_after(chars: &Vec<char>, i: usize) -> (r: Option<char>)
    requires
        i < chars.len(),
    ensures
        r == char_at(chars@, i + 1),
{
    if i < chars.len() - 1 {
        Some(chars[i + 1])
    } else {
        None
    }
}

/// True if `sql` holds more than one statement: an unquoted `;` that is not merely
/// a trailing terminator. A `;` inside a string or identifier literal or in a comment
/// does not count.
pub fn has_multiple_statements(sql: &str) -> (r: bool)
    ensures
        r == multiple_statements(sql@),
{
    let chars = text::chars_of(sql);
    let mut quote = Quote::Open;
    let mut separated = false;
    let mut i: usize = 0;
    while i < chars.len()
        invariant
            i <= chars.len(),
            chars@ == sql@,
            quote == quote_at(sql@, i as int),
            separated == exists|k: int| k < i && #[trigger] separator_at(sql@, k),
            forall|k: int, l: int|
                k < l < i ==> !(#[trigger] separator_at(sql@, k) && #[trigger] content_at(
                    sql@,
                    l,
                )),
        decreases chars.len() - i,
    {
        let c = chars[i];
        let after = next_quote(quote, c, char_after(&chars, i));
        assert(after == quote_at(sql@, i + 1));
        if c == ';' && quote == Quote::Open {
            assert(separator_at(sql@, i as int));
            separated = true;
        } else if !c.is_whitespace() && !quote.is_comment() && !after.is_comment() {
            assert(content_at(sql@, i as int));
            if separated {
                return true;
            }
        }
        quote = after;
        i += 1;
    }
    false
}

/// True for a character of a SQL word.
pub fn is_ident_char(c: char) -> (r: bool)
    ensures
        r == ident_char(c),
{
    c.is_alphanumeric() || c == '_'
}

proof fn lemma_space_run_step(s: Seq<char>, i: int)
    requires
        0 <= i <= s.len(),
        forall|k: int| 0 <= k < i ==> text::is_space(#[trigger] s[k]),
    ensures
        space_run(s, 0) == i + space_run(s, i),
    decreases i,
{
    if i > 0 {
        lemma_space_run_step(s, i - 1);
    }
}

proof fn lemma_ident_run_step(s: Seq<char>, start: int, i: int)
    requires
        0 <= start <= i <= s.len(),
        forall|k: int| start <= k < i ==> ident_char(#[trigger] s[k]),
    ensures
        ident_run(s, start) == i - start + ident_run(s, i),
    decreases i - start,
{
    if i > start {
        lemma_ident_run_step(s, start, i - 1);
    }
}

/// The leading SQL keyword in lower case: the first word after any leading
/// whitespace. Empty when the body does not start with a word.
pub fn leading_keyword(sql: &str) -> (r: String)
    ensures
        r@ == first_word(sql@),
{
    let chars = text::chars_of(sql);
    let mut start: usize = 0;
    while start < chars.len() && chars[start].is_whitespace()
        invariant
            start <= chars.len(),
            forall|k: int| 0 <= k < start ==> text::is_space(chars@[k]),
        decreases chars.len() - start,
    {
        start += 1;
    }
    proof {
        lemma_space_run_step(chars@, start as int);
    }
    let mut end: usize = start;
    let mut word: Vec<char> = Vec::new();
    while end < chars.len() && is_ident_char(chars[end])
        invariant
            start <= end <= chars.len(),
            forall|k: int| start <= k < end ==> ident_char(chars@[k]),
            word@ == text::lowered(chars@.subrange(start as int, end as int)),
        decreases chars.len() - end,
    {
        word.push(text::lower_char(chars[end]));
        end += 1;
        assert(text::lowered(chars@.subrange(start as int, end as int)) =~= text::lowered(
            chars@.subrange(start as int, end - 1),
        ).push(text::ascii_lower(chars@[end - 1])));
    }
    proof {
        lemma_ident_run_step(chars@, start as int, end as int);
    }
    text::string_of(&word)
}

fn glues_after(c: char) -> (r: bool)
    ensures
        r == joins_word(c),
{
    is_ident_char(c) || c == '$' || c as u32 >= 128
}

fn glues_before(c: char) -> (r: bool)
    ensures
        r == begins_word(c),
{
    glues_after(c) || c == ':' || c == '@' || c == '#'
}

/// A statement as the scanners read it: its characters, and the same in lower case.
struct Body {
    chars: Vec<char>,
    lower: Vec<char>,
}

impl Body {
    spec fn is_of(self, sql: Seq<char>) -> bool {
        self.chars@ == sql && self.lower@ == text::lowered(sql)
    }

    fn of(sql: &str) -> (r: Body)
        ensures
            r.is_of(sql@),
    {
        let chars = text::chars_of(sql);
        let lower = text::lower_chars(&chars);
        Body { chars, lower }
    }

    /// Whether a word stands at position `i`, given what stands around the position.
    fn word_at(&self, keyword: &str, i: usize, quote: Quote, after: Quote) -> (r: bool)
        requires
            self.lower@ == text::lowered(self.chars@),
            i < self.chars@.len(),
            quote == quote_at(self.chars@, i as int),
            after == quote_at(self.chars@, i + 1),
        ensures
            r == keyword_at(self.chars@, keyword@, i as int),
    {
        let kw = text::chars_of(keyword);
        if quote != Quote::Open || after != Quote::Open || !text::matches_at(&self.lower, &kw, i) {
            return false;
        }
        assert(i + kw@.len() <= self.lower.len());
        let next: usize = i + kw.len();
        let starts = i == 0 || !glues_before(self.chars[i - 1]);
        let ends = next >= self.chars.len() || !glues_after(self.chars[next]);
        starts && ends
    }

    /// The word that leads the statement.
    fn lead(&self) -> (r: String)
        ensures
            r@ == lead_word(self.chars@),
    {
        let ghost sql = self.chars@;
        let mut quote = Quote::Open;
        let mut i: usize = 0;
        let mut leading = true;
        while leading && i < self.chars.len()
            invariant
                i <= self.chars.len(),
                sql == self.chars@,
                leading ==> quote == quote_at(sql, i as int),
                lead_end(sql, 0) == lead_end(sql, i as int),
                !leading ==> lead_end(sql, i as int) == i,
            decreases self.chars.len() - i, leading as int,
        {
            let c = self.chars[i];
            let after = next_quote(quote, c, char_after(&self.chars, i));
            if c.is_whitespace() || c == '\u{feff}' || quote.is_comment() || after.is_comment() {
                quote = after;
                i += 1;
            } else {
                leading = false;
            }
        }
        assert(lead_end(sql, 0) == i);
        let mut rest: Vec<char> = Vec::new();
        let mut k: usize = i;
        while k < self.chars.len()
            invariant
                i <= k <= self.chars.len(),
                sql == self.chars@,
                rest@ == sql.subrange(i as int, k as int),
            decreases self.chars.len() - k,
        {
            rest.push(self.chars[k]);
            k += 1;
            assert(sql.subrange(i as int, k as int) =~= sql.subrange(i as int, k - 1).push(
                sql[k - 1],
            ));
        }
        assert(rest@ =~= sql.skip(i as int));
        leading_keyword(text::string_of(&rest).as_str())
    }

    /// Whether the statement itself has the clause that a word begins.
    fn has_clause(&self, keyword: &str) -> (r: bool)
        requires
            self.lower@ == text::lowered(self.chars@),
        ensures
            r == has_clause(self.chars@, keyword@),
    {
        let ghost sql = self.chars@;
        let mut quote = Quote::Open;
        let mut depth: usize = 0;
        let mut i: usize = 0;
        while i < self.chars.len()
            invariant
                i <= self.chars.len(),
                sql == self.chars@,
                self.lower@ == text::lowered(sql),
                quote == quote_at(sql, i as int),
                depth == depth_at(sql, i as int),
                depth <= i,
                forall|k: int| k < i ==> !clause_at(sql, keyword@, k),
            decreases self.chars.len() - i,
        {
            let c = self.chars[i];
            let after = next_quote(quote, c, char_after(&self.chars, i));
            if depth == 0 && self.word_at(keyword, i, quote, after) {
                assert(clause_at(sql, keyword@, i as int));
                return true;
            }
            depth = next_depth(depth, quote, c);
            quote = after;
            i += 1;
        }
        false
    }

    /// Whether, after a WITH list, the verb of the statement is one of two words. The
    /// words are among those that can be its verb.
    fn verb_is(&self, one: &str, other: &str) -> (r: bool)
        requires
            self.lower@ == text::lowered(self.chars@),
            lead_word(self.chars@) == "with"@,
        ensures
            r == exists|i: int| #[trigger]
                verb_after_with(self.chars@, i) && (clause_at(self.chars@, one@, i) || clause_at(
                    self.chars@,
                    other@,
                    i,
                )),
    {
        let ghost sql = self.chars@;
        let mut quote = Quote::Open;
        let mut depth: usize = 0;
        let mut i: usize = 0;
        while i < self.chars.len()
            invariant
                i <= self.chars.len(),
                sql == self.chars@,
                lead_word(sql) == "with"@,
                self.lower@ == text::lowered(sql),
                quote == quote_at(sql, i as int),
                depth == depth_at(sql, i as int),
                depth <= i,
                forall|k: int| k < i ==> !verb_at(sql, k),
            decreases self.chars.len() - i,
        {
            let c = self.chars[i];
            let after = next_quote(quote, c, char_after(&self.chars, i));
            if depth == 0 && (self.word_at("select", i, quote, after) || self.word_at(
                "values",
                i,
                quote,
                after,
            ) || self.word_at("insert", i, quote, after) || self.word_at("update", i, quote, after)
                || self.word_at("delete", i, quote, after)) {
                assert(verb_at(sql, i as int));
                let r = self.word_at(one, i, quote, after) || self.word_at(other, i, quote, after);
                assert(verb_after_with(sql, i as int));
                assert(forall|k: int| #[trigger] verb_after_with(sql, k) ==> k == i);
                return r;
            }
            assert(!verb_at(sql, i as int));
            depth = next_depth(depth, quote, c);
            quote = after;
            i += 1;
        }
        false
    }
}

fn next_depth(depth: usize, quote: Quote, c: char) -> (r: usize)
    requires
        depth < usize::MAX,
    ensures
        r == (if quote == Quote::Open && c == '(' {
            depth + 1
        } else if quote == Quote::Open && c == ')' && depth > 0 {
            depth - 1
        } else {
            depth as int
        }),
{
    if quote == Quote::Open && c == '(' {
        depth + 1
    } else if quote == Quote::Open && c == ')' && depth > 0 {
        depth - 1
    } else {
        depth
    }
}

/// Quote-aware, case-insensitive test for a word of its own (given in lower case).
/// One inside a string or identifier literal or a comment, or one glued to other
/// characters of a word, does not count.
pub fn contains_keyword(sql: &str, keyword: &str) -> (r: bool)
    ensures
        r == has_keyword(sql@, keyword@),
{
    let body = Body::of(sql);
    let mut quote = Quote::Open;
    let mut i: usize = 0;
    while i < body.chars.len()
        invariant
            i <= body.chars.len(),
            body.is_of(sql@),
            quote == quote_at(sql@, i as int),
            forall|k: int| k < i ==> !keyword_at(sql@, keyword@, k),
        decreases body.chars.len() - i,
    {
        let after = next_quote(quote, body.chars[i], char_after(&body.chars, i));
        if body.word_at(keyword, i, quote, after) {
            assert(keyword_at(sql@, keyword@, i as int));
            return true;
        }
        quote = after;
        i += 1;
    }
    false
}

/// True when `sql` is an UPDATE or a DELETE that carries no WHERE clause: a mutation of
/// a whole table. A WHERE in a comment, in a literal or in brackets is not the
/// statement's own.
pub fn is_where_less_mutation(sql: &str) -> (r: bool)
    ensures
        r == where_less_mutation(sql@),
{
    let body = Body::of(sql);
    let word = body.lead();
    let changes = text::same(word.as_str(), "update") || text::same(word.as_str(), "delete") || (
    text::same(word.as_str(), "with") && body.verb_is("update", "delete"));
    changes && !body.has_clause("where")
}

/// True when `sql` is a SELECT, or a list of VALUES, which is one.
pub fn is_select(sql: &str) -> (r: bool)
    ensures
        r == selects(sql@),
{
    let body = Body::of(sql);
    let word = body.lead();
    text::same(word.as_str(), "select") || text::same(word.as_str(), "values") || (text::same(
        word.as_str(),
        "with",
    ) && body.verb_is("select", "values"))
}

/// A name with every double quote in it written twice.
pub open spec fn doubled(name: Seq<char>) -> Seq<char>
    decreases name.len(),
{
    if name.len() == 0 {
        name
    } else if name.last() == '"' {
        doubled(name.drop_last()).push('"').push('"')
    } else {
        doubled(name.drop_last()).push(name.last())
    }
}

/// A name as a quoted SQL identifier.
pub open spec fn quoted_ident(name: Seq<char>) -> Seq<char> {
    seq!['"'] + doubled(name) + seq!['"']
}

/// Quotes a SQL identifier for embedding in a PRAGMA call, whose arguments take no
/// bind parameters: double quotes around the name, every inner one doubled.
pub fn quote_ident(name: &str) -> (r: String)
    ensures
        r@ == quoted_ident(name@),
{
    let chars = text::chars_of(name);
    let mut out = String::new();
    out.push('"');
    let mut i: usize = 0;
    while i < chars.len()
        invariant
            i <= chars.len(),
            chars@ == name@,
            out@ == seq!['"'] + doubled(name@.take(i as int)),
        decreases chars.len() - i,
    {
        let c = chars[i];
        assert(name@.take(i + 1).drop_last() =~= name@.take(i as int));
        if c == '"' {
            out.push('"');
        }
        out.push(c);
        i += 1;
        assert(out@ =~= seq!['"'] + doubled(name@.take(i as int)));
    }
    out.push('"');
    assert(name@.take(name@.len() as int) =~= name@);
    assert(out@ =~= quoted_ident(name@));
    out
}

/// Reads the inside of a quoted identifier from position `i` on, as SQL does: two
/// double quotes stand for one, and a single one ends the identifier. Gives the name
/// and the position after the closing quote, or nothing where the text ends first.
pub open spec fn read_ident(s: Seq<char>, i: int) -> Option<(Seq<char>, int)>
    decreases s.len() - i,
{
    if i < 0 || i >= s.len() {
        None
    } else if s[i] != '"' {
        match read_ident(s, i + 1) {
            Some(rest) => Some((seq![s[i]] + rest.0, rest.1)),
            None => None,
        }
    } else if i + 1 < s.len() && s[i + 1] == '"' {
        match read_ident(s, i + 2) {
            Some(rest) => Some((seq!['"'] + rest.0, rest.1)),
            None => None,
        }
    } else {
        Some((Seq::empty(), i + 1))
    }
}

proof fn lemma_doubled_front(name: Seq<char>)
    requires
        name.len() > 0,
    ensures
        doubled(name) == (if name[0] == '"' {
            seq!['"', '"']
        } else {
            seq![name[0]]
        }) + doubled(name.drop_first()),
    decreases name.len(),
{
    let front = if name[0] == '"' {
        seq!['"', '"']
    } else {
        seq![name[0]]
    };
    if name.len() == 1 {
        assert(name.drop_last() =~= Seq::<char>::empty());
        assert(name.drop_first() =~= Seq::<char>::empty());
        assert(doubled(name) =~= front + doubled(name.drop_first()));
    } else {
        lemma_doubled_front(name.drop_last());
        assert(name.drop_last().drop_first() =~= name.drop_first().drop_last());
        assert(doubled(name) =~= front + doubled(name.drop_first()));
    }
}

proof fn lemma_read_back(before: Seq<char>, name: Seq<char>, after: Seq<char>)
    requires
        after.len() == 0 || after[0] != '"',
    ensures
        read_ident(before + doubled(name) + seq!['"'] + after, before.len() as int) == Some(
            (name, before.len() + doubled(name).len() as int + 1),
        ),
    decreases name.len(),
{
    let s = before + doubled(name) + seq!['"'] + after;
    if name.len() == 0 {
        assert(s[before.len() as int] == '"');
        if after.len() > 0 {
            assert(s[before.len() as int + 1] == after[0]);
        }
        assert(name =~= Seq::<char>::empty());
    } else {
        let front = if name[0] == '"' {
            seq!['"', '"']
        } else {
            seq![name[0]]
        };
        lemma_doubled_front(name);
        lemma_read_back(before + front, name.drop_first(), after);
        assert((before + front) + doubled(name.drop_first()) + seq!['"'] + after =~= s);
        assert(seq![name[0]] + name.drop_first() =~= name);
        assert(s[before.len() as int] == name[0]);
        if name[0] == '"' {
            assert(s[before.len() as int + 1] == '"');
        }
    }
}

/// Whatever the name, a quoted identifier reads back as that name and ends at its
/// own closing quote: nothing in the name reaches the text around it.
pub proof fn law_quoted_identifier_reads_back(before: Seq<char>, name: Seq<char>, after: Seq<char>)
    requires
        after.len() == 0 || after[0] != '"',
    ensures
        read_ident(before + quoted_ident(name) + after, before.len() as int + 1) == Some(
            (name, before.len() + quoted_ident(name).len() as int),
        ),
{
    lemma_read_back(before.push('"'), name, after);
    assert(before.push('"') + doubled(name) + seq!['"'] + after =~= before + quoted_ident(name)
        + after);
}

/// A tail that begins with neither half of a comment's mark.
spec fn closes_marks(b: Seq<char>) -> bool {
    b.len() > 0 ==> b[0] != '-' && b[0] != '*' && b[0] != '/'
}

proof fn lemma_quote_prefix(a: Seq<char>, b: Seq<char>, i: int)
    requires
        i <= a.len(),
        i < a.len() || closes_marks(b),
    ensures
        quote_at(a + b, i) == quote_at(a, i),
    decreases i,
{
    if i > 0 {
        lemma_quote_prefix(a, b, i - 1);
    }
}

/// Inside a quotation, the mark that opened it is content, and no separator has come
/// after it.
proof fn lemma_open_quotation(sql: Seq<char>, n: int) -> (p: int)
    requires
        0 <= n <= sql.len(),
        quote_at(sql, n).quotes(),
    ensures
        0 <= p < n,
        content_at(sql, p),
        quote_at(sql, p) == Quote::Open,
        quote_at(sql, p + 1).quotes(),
        forall|k: int| p < k <= n ==> #[trigger] quote_at(sql, k) != Quote::Open,
    decreases n,
{
    if quote_at(sql, n - 1) == Quote::Open {
        n - 1
    } else {
        lemma_open_quotation(sql, n - 1)
    }
}

/// Terminators and whitespace at the end of a body never make it hold more
/// statements.
pub proof fn law_trailing_terminators(sql: Seq<char>, tail: Seq<char>)
    requires
        forall|k: int| 0 <= k < tail.len() ==> tail[k] == ';' || text::is_space(#[trigger] tail[k]),
    ensures
        multiple_statements(sql + tail) == multiple_statements(sql),
{
    let all = sql + tail;
    assert(closes_marks(tail)) by {
        if tail.len() > 0 {
            assert(tail[0] == ';' || text::is_space(tail[0]));
        }
    }
    assert forall|k: int| k < sql.len() implies separator_at(all, k) == separator_at(sql, k) by {
        lemma_quote_prefix(sql, tail, k);
    }
    assert forall|k: int| k < sql.len() implies content_at(all, k) == content_at(sql, k) by {
        assert(separator_at(all, k) == separator_at(sql, k));
        lemma_quote_prefix(sql, tail, k);
        lemma_quote_prefix(sql, tail, k + 1);
    }
    if multiple_statements(sql) {
        let (i, j) = choose|i: int, j: int|
            i < j && #[trigger] separator_at(sql, i) && #[trigger] content_at(sql, j);
        assert(separator_at(all, i) && content_at(all, j));
    }
    if multiple_statements(all) {
        let (i, j) = choose|i: int, j: int|
            i < j && #[trigger] separator_at(all, i) && #[trigger] content_at(all, j);
        if j < sql.len() {
            assert(separator_at(sql, i) && content_at(sql, j));
        } else {
            assert(all[j] == tail[j - sql.len()]);
            assert(quote_at(all, j).quotes());
            let p = lemma_open_quotation(all, j);
            if p >= sql.len() {
                assert(all[p] == tail[p - sql.len()]);
            }
            assert(separator_at(all, i) ==> i <= p);
            assert(i != p);
            assert(separator_at(sql, i) && content_at(sql, p));
        }
    }
}

proof fn lemma_lowered_quote(sql: Seq<char>, i: int)
    requires
        i <= sql.len(),
    ensures
        quote_at(text::lowered(sql), i) == quote_at(sql, i),
        depth_at(text::lowered(sql), i) == depth_at(sql, i),
    decreases i,
{
    if i > 0 {
        lemma_lowered_quote(sql, i - 1);
    }
}

proof fn lemma_lowered_runs(sql: Seq<char>, i: int)
    requires
        0 <= i,
    ensures
        space_run(text::lowered(sql), i) == space_run(sql, i),
        ident_run(text::lowered(sql), i) == ident_run(sql, i),
        lead_end(text::lowered(sql), i) == lead_end(sql, i),
    decreases sql.len() - i,
{
    if i < sql.len() {
        lemma_lowered_quote(sql, i);
        lemma_lowered_quote(sql, i + 1);
        lemma_lowered_runs(sql, i + 1);
    }
}

proof fn lemma_runs_fit(sql: Seq<char>, i: int)
    requires
        0 <= i <= sql.len(),
    ensures
        0 <= space_run(sql, i) <= sql.len() - i,
        0 <= ident_run(sql, i) <= sql.len() - i,
        i <= lead_end(sql, i) <= sql.len(),
    decreases sql.len() - i,
{
    if i < sql.len() {
        lemma_runs_fit(sql, i + 1);
    }
}

proof fn lemma_first_word_ignores_case(sql: Seq<char>)
    ensures
        first_word(text::lowered(sql)) == first_word(sql),
{
    let low = text::lowered(sql);
    lemma_lowered_runs(sql, 0);
    lemma_runs_fit(sql, 0);
    let start = space_run(sql, 0);
    lemma_lowered_runs(sql, start);
    lemma_runs_fit(sql, start);
    let end = start + ident_run(sql, start);
    assert(text::lowered(low.subrange(start, end)) =~= text::lowered(sql.subrange(start, end)));
}

proof fn lemma_clauses_ignore_case(sql: Seq<char>, keyword: Seq<char>)
    ensures
        forall|i: int| #[trigger]
            clause_at(text::lowered(sql), keyword, i) == clause_at(sql, keyword, i),
{
    let low = text::lowered(sql);
    assert(text::lowered(low) =~= low);
    assert forall|i: int| #[trigger] clause_at(low, keyword, i) == clause_at(sql, keyword, i) by {
        if 0 <= i < sql.len() {
            lemma_lowered_quote(sql, i);
            lemma_lowered_quote(sql, i + 1);
        }
    }
}

/// The guards do not depend on the case in which a statement is written.
pub proof fn law_guard_ignores_case(sql: Seq<char>)
    ensures
        where_less_mutation(text::lowered(sql)) == where_less_mutation(sql),
        selects(text::lowered(sql)) == selects(sql),
{
    let low = text::lowered(sql);
    lemma_lowered_runs(sql, 0);
    lemma_runs_fit(sql, 0);
    let lead = lead_end(sql, 0);
    assert(low.skip(lead) =~= text::lowered(sql.skip(lead)));
    lemma_first_word_ignores_case(sql.skip(lead));
    assert(lead_word(low) == lead_word(sql));
    lemma_clauses_ignore_case(sql, "select"@);
    lemma_clauses_ignore_case(sql, "values"@);
    lemma_clauses_ignore_case(sql, "insert"@);
    lemma_clauses_ignore_case(sql, "update"@);
    lemma_clauses_ignore_case(sql, "delete"@);
    lemma_clauses_ignore_case(sql, "where"@);
    assert forall|i: int| #[trigger] verb_at(low, i) == verb_at(sql, i) by {}
    assert forall|i: int| #[trigger] verb_after_with(low, i) == verb_after_with(sql, i) by {
        assert(verb_at(low, i) == verb_at(sql, i));
        if verb_after_with(low, i) {
            assert forall|j: int| j < i implies !verb_at(sql, j) by {
                assert(verb_at(low, j) == verb_at(sql, j));
            }
        }
    }
    if has_clause(sql, "where"@) {
        let i = choose|i: int| clause_at(sql, "where"@, i);
        assert(clause_at(low, "where"@, i));
    }
    if has_clause(low, "where"@) {
        let i = choose|i: int| clause_at(low, "where"@, i);
        assert(clause_at(sql, "where"@, i));
    }
    if exists|i: int| #[trigger] verb_after_with(sql, i) {
        let i = choose|i: int| #[trigger] verb_after_with(sql, i);
        assert(verb_after_with(low, i));
    }
}

} // verus!
