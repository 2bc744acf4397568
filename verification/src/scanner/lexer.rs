//! The lexer: source text in, spanned tokens out.
//!
//! White space and `//` comments separate lexemes. At each place the
//! longest lexeme wins, and a keyword wins over an identifier of the same
//! length: `integer` is an identifier, `too hotter` is `too hot` and
//! `ter`. Spans are byte offsets into the text.

use vstd::prelude::*;
use vstd::string::*;
use crate::scanner::tokens::{LexingError, LexingFault, Token, TokenType};
use crate::span::{byte_len, char_bytes, clip, saturating_sum};
use crate::text::{digits_value, is_digit, parse_i32_digits, slice_to_string, str_is, to_chars};

verus! {

/// A token between the byte offsets of its first character and of the
/// character after its last, or the error that its lexeme raised.
pub type Spanned = Result<(usize, TokenType, usize), LexingError>;

/// A lexeme: the byte offsets of its first character and of the character
/// after its last, and its token or its error.
#[derive(Debug, PartialEq)]
pub struct Lexeme {
    pub start: usize,
    pub end: usize,
    pub token: Result<TokenType, LexingError>,
}

/// The tokens of one source text, handed out one at a time.
pub struct Lexer {
    items: Vec<Lexeme>,
    cursor: usize,
}

/// Whether `c` is white space.
pub open spec fn is_space(c: char) -> bool {
    let u = c as u32;
    (0x09 <= u <= 0x0d) || u == 0x20 || u == 0x85 || u == 0xa0 || u == 0x1680 || (0x2000 <= u
        <= 0x200a) || u == 0x2028 || u == 0x2029 || u == 0x202f || u == 0x205f || u == 0x3000
}

/// Whether `c` is white space.
pub fn space(c: char) -> (b: bool)
    ensures
        b == is_space(c),
{
    let u = c as u32;
    (0x09 <= u && u <= 0x0d) || u == 0x20 || u == 0x85 || u == 0xa0 || u == 0x1680 || (0x2000 <= u
        && u <= 0x200a) || u == 0x2028 || u == 0x2029 || u == 0x202f || u == 0x205f || u == 0x3000
}

/// Whether `c` can start an identifier.
pub open spec fn is_ident_start(c: char) -> bool {
    ('a' <= c <= 'z') || ('A' <= c <= 'Z') || c == '_'
}

/// Whether `c` can continue an identifier.
pub open spec fn is_ident_char(c: char) -> bool {
    is_ident_start(c) || is_digit(c)
}

/// Whether `c` can start an identifier.
pub fn ident_start(c: char) -> (b: bool)
    ensures
        b == is_ident_start(c),
{
    ('a' <= c && c <= 'z') || ('A' <= c && c <= 'Z') || c == '_'
}

/// Whether `c` can continue an identifier.
pub fn ident_char(c: char) -> (b: bool)
    ensures
        b == is_ident_char(c),
{
    ident_start(c) || ('0' <= c && c <= '9')
}

/// Whether the text `lit` stands in `s` at index `p`.
pub open spec fn has(s: Seq<char>, p: int, lit: Seq<char>) -> bool {
    0 <= p && p + lit.len() <= s.len() && s.subrange(p, p + lit.len()) == lit
}

/// Whether the text of `lit` stands in `v` at index `p`.
pub fn matches_at(v: &Vec<char>, p: usize, lit: &str) -> (b: bool)
    requires
        p <= v@.len(),
    ensures
        b == (p + lit@.len() <= v@.len() && v@.subrange(p as int, p + lit@.len()) == lit@),
        b == has(v@, p as int, lit@),
{
    let l = to_chars(lit);
    if l.len() > v.len() - p {
        return false;
    }
    let mut i: usize = 0;
    while i < l.len()
        invariant
            i <= l@.len(),
            l@ == lit@,
            p + l@.len() <= v@.len() <= usize::MAX,
            forall|j: int| 0 <= j < i ==> v@[p + j] == l@[j],
        decreases l@.len() - i,
    {
        if v[p + i] != l[i] {
            proof {
                assert(v@.subrange(p as int, p + lit@.len())[i as int] == v@[p + i]);
            }
            return false;
        }
        i += 1;
    }
    proof {
        assert(v@.subrange(p as int, p + lit@.len()) =~= lit@);
    }
    true
}

/// The end of the longest run of identifier characters that starts at `p`.
pub open spec fn ident_run(s: Seq<char>, p: int) -> int
    decreases s.len() - p,
{
    if p < 0 || p >= s.len() || !is_ident_char(s[p]) {
        p
    } else {
        ident_run(s, p + 1)
    }
}

/// The end of the longest run of decimal digits that starts at `p`.
pub open spec fn digit_run(s: Seq<char>, p: int) -> int
    decreases s.len() - p,
{
    if p < 0 || p >= s.len() || !is_digit(s[p]) {
        p
    } else {
        digit_run(s, p + 1)
    }
}

/// The index of the first line feed at or after `p`, or the length of the
/// text.
pub open spec fn line_feed(s: Seq<char>, p: int) -> int
    decreases s.len() - p,
{
    if p < 0 || p >= s.len() {
        s.len() as int
    } else if s[p] == '\n' {
        p
    } else {
        line_feed(s, p + 1)
    }
}

/// The index of the first character at or after `p` that belongs to
/// neither white space nor a comment, or the length of the text. A comment
/// runs from `//` to the end of its line.
pub open spec fn blank_end(s: Seq<char>, p: int) -> int
    decreases s.len() - p,
{
    if p < 0 || p >= s.len() {
        s.len() as int
    } else if is_space(s[p]) {
        blank_end(s, p + 1)
    } else if s[p] == '/' && p + 1 < s.len() && s[p + 1] == '/' {
        let e = line_feed(s, p + 2);
        if p + 2 <= e < s.len() {
            blank_end(s, e + 1)
        } else {
            s.len() as int
        }
    } else {
        p
    }
}

/// A run does not end before it starts.
pub proof fn lemma_runs_forward(s: Seq<char>, p: int)
    requires
        0 <= p <= s.len(),
    ensures
        p <= ident_run(s, p) <= s.len(),
        p <= digit_run(s, p) <= s.len(),
    decreases s.len() - p,
{
    if p < s.len() {
        lemma_runs_forward(s, p + 1);
    }
}

/// The end of the longest run of identifier characters that starts at `p`.
pub fn ident_end(v: &Vec<char>, p: usize) -> (e: usize)
    requires
        p <= v@.len(),
    ensures
        e == ident_run(v@, p as int),
        p <= e <= v@.len(),
{
    let mut e: usize = p;
    while e < v.len() && ident_char(v[e])
        invariant
            p <= e <= v@.len(),
            ident_run(v@, p as int) == ident_run(v@, e as int),
        decreases v@.len() - e,
    {
        e += 1;
    }
    e
}

/// The end of the longest run of decimal digits that starts at `p`.
pub fn digits_end(v: &Vec<char>, p: usize) -> (e: usize)
    requires
        p <= v@.len(),
    ensures
        e == digit_run(v@, p as int),
        p <= e <= v@.len(),
        forall|j: int| p <= j < e ==> is_digit(#[trigger] v@[j]),
{
    let mut e: usize = p;
    while e < v.len() && '0' <= v[e] && v[e] <= '9'
        invariant
            p <= e <= v@.len(),
            digit_run(v@, p as int) == digit_run(v@, e as int),
            forall|j: int| p <= j < e ==> is_digit(#[trigger] v@[j]),
        decreases v@.len() - e,
    {
        e += 1;
    }
    e
}

/// The index of the first line feed at or after `p`, or the length of `v`.
pub fn to_line_feed(v: &Vec<char>, p: usize) -> (e: usize)
    requires
        p <= v@.len(),
    ensures
        e == line_feed(v@, p as int),
        p <= e <= v@.len(),
{
    let mut e: usize = p;
    while e < v.len() && v[e] != '\n'
        invariant
            p <= e <= v@.len(),
            line_feed(v@, p as int) == line_feed(v@, e as int),
        decreases v@.len() - e,
    {
        e += 1;
    }
    e
}

/// The index of the first character at or after `p` that belongs to
/// neither white space nor a comment.
pub fn skip_blank(v: &Vec<char>, p: usize) -> (e: usize)
    requires
        p <= v@.len(),
    ensures
        e == blank_end(v@, p as int),
        p <= e <= v@.len(),
{
    let mut e: usize = p;
    loop
        invariant
            p <= e <= v@.len(),
            blank_end(v@, p as int) == blank_end(v@, e as int),
        ensures
            p <= e <= v@.len(),
            e == blank_end(v@, p as int),
        decreases v@.len() - e,
    {
        if e >= v.len() {
            break ;
        }
        if space(v[e]) {
            e += 1;
        } else if v[e] == '/' && e + 1 < v.len() && v[e + 1] == '/' {
            let stop = to_line_feed(v, e + 2);
            if stop < v.len() {
                e = stop + 1;
            } else {
                e = stop;
            }
        } else {
            break ;
        }
    }
    e
}

/// How a string literal runs: where it stops, whether a closing quote
/// ended it, and whether it holds an escape other than `\n`, `\t`, `\"`
/// and `\\`.
pub struct StringRun {
    pub end: int,
    pub terminated: bool,
    pub bad: bool,
}

/// How the inside of a string literal runs from index `i` on, given
/// whether it held a bad escape before. A quote ends it; a line feed, the
/// end of the text, or a backslash at the end of the text stops it; a
/// backslash takes the character after it along.
pub open spec fn string_run(s: Seq<char>, i: int, bad: bool) -> StringRun
    decreases s.len() - i,
{
    if i < 0 || i >= s.len() {
        StringRun { end: i, terminated: false, bad }
    } else if s[i] == '"' {
        StringRun { end: i + 1, terminated: true, bad }
    } else if s[i] == '\n' {
        StringRun { end: i, terminated: false, bad }
    } else if s[i] == '\\' {
        if i + 1 >= s.len() {
            StringRun { end: i, terminated: false, bad }
        } else {
            let d = s[i + 1];
            string_run(s, i + 2, bad || !(d == 'n' || d == 't' || d == '"' || d == '\\'))
        }
    } else {
        string_run(s, i + 1, bad)
    }
}

/// How a string literal that opens at `p` runs.
pub fn scan_string(v: &Vec<char>, p: usize) -> (r: (usize, bool, bool))
    requires
        p < v@.len(),
    ensures
        r.0 == string_run(v@, p + 1, false).end,
        r.1 == string_run(v@, p + 1, false).terminated,
        r.2 == string_run(v@, p + 1, false).bad,
        p < r.0 <= v@.len(),
{
    let n = v.len();
    let mut i: usize = p + 1;
    let mut bad = false;
    while i < v.len()
        invariant
            p < i <= v@.len(),
            n == v@.len(),
            string_run(v@, p + 1, false) == string_run(v@, i as int, bad),
        decreases v@.len() - i,
    {
        let c = v[i];
        if c == '"' {
            return (i + 1, true, bad);
        } else if c == '\n' {
            return (i, false, bad);
        } else if c == '\\' {
            if i + 1 >= v.len() {
                return (i, false, bad);
            }
            let d = v[i + 1];
            if !(d == 'n' || d == 't' || d == '"' || d == '\\') {
                bad = true;
            }
            i += 2;
        } else {
            i += 1;
        }
    }
    (i, false, bad)
}

/// The keyword that `word` spells, if it spells one.
pub open spec fn keyword_of(w: Seq<char>) -> Option<Token> {
    if w == "and"@ {
        Some(Token::AND)
    } else if w == "bool"@ {
        Some(Token::BOOL)
    } else if w == "else"@ {
        Some(Token::ELSE)
    } else if w == "false"@ {
        Some(Token::FALSE)
    } else if w == "if"@ {
        Some(Token::IF)
    } else if w == "int"@ {
        Some(Token::INT)
    } else if w == "give"@ {
        Some(Token::GIVE)
    } else if w == "take"@ {
        Some(Token::TAKE)
    } else if w == "or"@ {
        Some(Token::OR)
    } else if w == "perfect"@ {
        Some(Token::PERFECT)
    } else if w == "return"@ {
        Some(Token::RETURN)
    } else if w == "class"@ {
        Some(Token::CLASS)
    } else if w == "true"@ {
        Some(Token::TRUE)
    } else if w == "void"@ {
        Some(Token::VOID)
    } else if w == "while"@ {
        Some(Token::WHILE)
    } else {
        None
    }
}

/// The view of a token that may not be there.
pub open spec fn opt_token_view(t: Option<TokenType>) -> Option<Token> {
    match t {
        Some(x) => Some(x@),
        None => None,
    }
}

/// The keyword that `word` spells, if it spells one.
pub fn keyword(word: &String) -> (r: Option<TokenType>)
    ensures
        opt_token_view(r) == keyword_of(word@),
{
    if str_is(word, "and") {
        Some(TokenType::AND)
    } else if str_is(word, "bool") {
        Some(TokenType::BOOL)
    } else if str_is(word, "else") {
        Some(TokenType::ELSE)
    } else if str_is(word, "false") {
        Some(TokenType::FALSE)
    } else if str_is(word, "if") {
        Some(TokenType::IF)
    } else if str_is(word, "int") {
        Some(TokenType::INT)
    } else if str_is(word, "give") {
        Some(TokenType::GIVE)
    } else if str_is(word, "take") {
        Some(TokenType::TAKE)
    } else if str_is(word, "or") {
        Some(TokenType::OR)
    } else if str_is(word, "perfect") {
        Some(TokenType::PERFECT)
    } else if str_is(word, "return") {
        Some(TokenType::RETURN)
    } else if str_is(word, "class") {
        Some(TokenType::CLASS)
    } else if str_is(word, "true") {
        Some(TokenType::TRUE)
    } else if str_is(word, "void") {
        Some(TokenType::VOID)
    } else if str_is(word, "while") {
        Some(TokenType::WHILE)
    } else {
        None
    }
}

/// The operator or punctuation mark that starts with `c`, given whether
/// the next character is `=`, `-` or `+`; with it, its length.
pub open spec fn symbol_of(c: char, d: Option<char>) -> Option<(Token, int)> {
    if c == '=' {
        if d == Some('=') {
            Some((Token::EQUALS, 2))
        } else {
            Some((Token::ASSIGN, 1))
        }
    } else if c == '>' {
        if d == Some('=') {
            Some((Token::GREATEREQ, 2))
        } else {
            Some((Token::GREATER, 1))
        }
    } else if c == '<' {
        if d == Some('=') {
            Some((Token::LESSEQ, 2))
        } else {
            Some((Token::LESS, 1))
        }
    } else if c == '!' {
        if d == Some('=') {
            Some((Token::NOTEQUALS, 2))
        } else {
            Some((Token::NOT, 1))
        }
    } else if c == '-' {
        if d == Some('-') {
            Some((Token::POSTDEC, 2))
        } else {
            Some((Token::DASH, 1))
        }
    } else if c == '+' {
        if d == Some('+') {
            Some((Token::POSTINC, 2))
        } else {
            Some((Token::CROSS, 1))
        }
    } else if c == ':' {
        Some((Token::COLON, 1))
    } else if c == ',' {
        Some((Token::COMMA, 1))
    } else if c == '{' {
        Some((Token::LCURLY, 1))
    } else if c == '}' {
        Some((Token::RCURLY, 1))
    } else if c == '(' {
        Some((Token::LPAREN, 1))
    } else if c == ')' {
        Some((Token::RPAREN, 1))
    } else if c == ';' {
        Some((Token::SEMICOL, 1))
    } else if c == '/' {
        Some((Token::SLASH, 1))
    } else if c == '*' {
        Some((Token::STAR, 1))
    } else {
        None
    }
}

/// The character at index `i`, if there is one.
pub open spec fn char_at(s: Seq<char>, i: int) -> Option<char> {
    if 0 <= i < s.len() {
        Some(s[i])
    } else {
        None
    }
}

/// The operator or punctuation mark that starts at `p`, with its length.
pub fn symbol(v: &Vec<char>, p: usize) -> (r: Option<(TokenType, usize)>)
    requires
        p < v@.len(),
    ensures
        match symbol_of(v@[p as int], char_at(v@, p + 1)) {
            Some(x) => r is Some && (r->0).0@ == x.0 && (r->0).1 == x.1,
            None => r is None,
        },
        r is Some ==> 1 <= (r->0).1 <= 2 && p + (r->0).1 <= v@.len(),
{
    let n = v.len();
    let c = v[p];
    let d = if p + 1 < n {
        Some(v[p + 1])
    } else {
        None
    };
    if c == '=' {
        if d == Some('=') {
            Some((TokenType::EQUALS, 2))
        } else {
            Some((TokenType::ASSIGN, 1))
        }
    } else if c == '>' {
        if d == Some('=') {
            Some((TokenType::GREATEREQ, 2))
        } else {
            Some((TokenType::GREATER, 1))
        }
    } else if c == '<' {
        if d == Some('=') {
            Some((TokenType::LESSEQ, 2))
        } else {
            Some((TokenType::LESS, 1))
        }
    } else if c == '!' {
        if d == Some('=') {
            Some((TokenType::NOTEQUALS, 2))
        } else {
            Some((TokenType::NOT, 1))
        }
    } else if c == '-' {
        if d == Some('-') {
            Some((TokenType::POSTDEC, 2))
        } else {
            Some((TokenType::DASH, 1))
        }
    } else if c == '+' {
        if d == Some('+') {
            Some((TokenType::POSTINC, 2))
        } else {
            Some((TokenType::CROSS, 1))
        }
    } else if c == ':' {
        Some((TokenType::COLON, 1))
    } else if c == ',' {
        Some((TokenType::COMMA, 1))
    } else if c == '{' {
        Some((TokenType::LCURLY, 1))
    } else if c == '}' {
        Some((TokenType::RCURLY, 1))
    } else if c == '(' {
        Some((TokenType::LPAREN, 1))
    } else if c == ')' {
        Some((TokenType::RPAREN, 1))
    } else if c == ';' {
        Some((TokenType::SEMICOL, 1))
    } else if c == '/' {
        Some((TokenType::SLASH, 1))
    } else if c == '*' {
        Some((TokenType::STAR, 1))
    } else {
        None
    }
}

/// A lexeme found in a text: the index after it, and its token or its
/// error.
pub struct Lexed {
    pub end: int,
    pub token: Result<Token, LexingFault>,
}

/// The lexeme that starts with a letter or an underscore at `p`: a
/// keyword, `too hot`, the exit statement, or an identifier.
pub open spec fn word_at(s: Seq<char>, p: int) -> Lexed {
    let e = ident_run(s, p);
    let w = s.subrange(p, e);
    if w == "too"@ && has(s, e, " hot"@) {
        Lexed { end: e + " hot"@.len(), token: Ok(Token::FALSE) }
    } else if w == "today"@ && has(s, e, " I don't feel like doing any work"@) {
        Lexed { end: e + " I don't feel like doing any work"@.len(), token: Ok(Token::EXIT) }
    } else {
        match keyword_of(w) {
            Some(t) => Lexed { end: e, token: Ok(t) },
            None => Lexed { end: e, token: Ok(Token::ID(w)) },
        }
    }
}

/// The lexeme that starts with a digit at `p`: `24Kmagic`, or a number,
/// which is an error when it is larger than `i32::MAX`.
pub open spec fn number_at(s: Seq<char>, p: int) -> Lexed {
    if has(s, p, "24Kmagic"@) {
        Lexed { end: p + "24Kmagic"@.len(), token: Ok(Token::MAGIC) }
    } else {
        let e = digit_run(s, p);
        let value = digits_value(s.subrange(p, e));
        if value <= i32::MAX {
            Lexed { end: e, token: Ok(Token::INTLITERAL(value as i32)) }
        } else {
            Lexed { end: e, token: Err(LexingFault::IntliteralOverflow) }
        }
    }
}

/// The lexeme that starts with a quote at `p`: a string literal, quotes
/// included, or the error of a literal that is not closed, holds a bad
/// escape, or both.
pub open spec fn quoted_at(s: Seq<char>, p: int) -> Lexed {
    let r = string_run(s, p + 1, false);
    Lexed {
        end: r.end,
        token: if r.terminated {
            if r.bad {
                Err(LexingFault::StringliteralBadEscape)
            } else {
                Ok(Token::STRINGLITERAL(s.subrange(p, r.end)))
            }
        } else {
            if r.bad {
                Err(LexingFault::StringliteralUnterminatedBadEscape)
            } else {
                Err(LexingFault::StringliteralUnterminated)
            }
        },
    }
}

/// The lexeme that starts at `p`, where `p` is at neither white space nor
/// a comment.
pub open spec fn lexeme_at(s: Seq<char>, p: int) -> Lexed {
    let c = s[p];
    if is_ident_start(c) {
        word_at(s, p)
    } else if is_digit(c) {
        number_at(s, p)
    } else if c == '"' {
        quoted_at(s, p)
    } else {
        match symbol_of(c, char_at(s, p + 1)) {
            Some(x) => Lexed { end: p + x.1, token: Ok(x.0) },
            None => Lexed { end: p + 1, token: Err(LexingFault::Illegal(s.subrange(p, p + 1))) },
        }
    }
}

/// The view of a token or error.
pub open spec fn outcome_view(t: Result<TokenType, LexingError>) -> Result<Token, LexingFault> {
    match t {
        Ok(x) => Ok(x@),
        Err(e) => Err(e@),
    }
}

/// The lexeme that starts at `p`, where `p` is at neither white space nor
/// a comment: the index after it, and its token or its error.
pub fn scan_token(v: &Vec<char>, p: usize) -> (r: (usize, Result<TokenType, LexingError>))
    requires
        p < v@.len(),
    ensures
        r.0 == lexeme_at(v@, p as int).end,
        outcome_view(r.1) == lexeme_at(v@, p as int).token,
        p < r.0 <= v@.len(),
{
    let n = v.len();
    let c = v[p];
    if ident_start(c) {
        let e = ident_end(v, p);
        proof {
            assert(is_ident_char(v@[p as int]));
            lemma_runs_forward(v@, p + 1);
        }
        let word = slice_to_string(v, p, e);
        if str_is(&word, "too") && matches_at(v, e, " hot") {
            proof {
                reveal_strlit(" hot");
            }
            return (e + 4, Ok(TokenType::FALSE));
        }
        if str_is(&word, "today") && matches_at(v, e, " I don't feel like doing any work") {
            proof {
                reveal_strlit(" I don't feel like doing any work");
            }
            return (e + 33, Ok(TokenType::EXIT));
        }
        match keyword(&word) {
            Some(t) => (e, Ok(t)),
            None => (e, Ok(TokenType::ID(word))),
        }
    } else if '0' <= c && c <= '9' {
        if matches_at(v, p, "24Kmagic") {
            proof {
                reveal_strlit("24Kmagic");
            }
            return (p + 8, Ok(TokenType::MAGIC));
        }
        let e = digits_end(v, p);
        proof {
            assert(is_digit(v@[p as int]));
            lemma_runs_forward(v@, p + 1);
            assert forall|i: int| 0 <= i < v@.subrange(p as int, e as int).len() implies is_digit(
                #[trigger] v@.subrange(p as int, e as int)[i],
            ) by {
                assert(is_digit(v@[p + i]));
            }
        }
        match parse_i32_digits(v, p, e) {
            Some(n) => (e, Ok(TokenType::INTLITERAL(n))),
            None => (e, Err(LexingError::IntliteralOverflow)),
        }
    } else if c == '"' {
        let (e, terminated, bad) = scan_string(v, p);
        if terminated {
            if bad {
                (e, Err(LexingError::StringliteralBadEscape))
            } else {
                (e, Ok(TokenType::STRINGLITERAL(slice_to_string(v, p, e))))
            }
        } else {
            if bad {
                (e, Err(LexingError::StringliteralUnterminatedBadEscape))
            } else {
                (e, Err(LexingError::StringliteralUnterminated))
            }
        }
    } else {
        match symbol(v, p) {
            Some((t, n)) => (p + n, Ok(t)),
            None => (p + 1, Err(LexingError::Illegal(slice_to_string(v, p, p + 1)))),
        }
    }
}

/// The byte offset of the character at index `i`: the number of bytes
/// that the characters before it take, or the largest `usize` when that
/// is less.
pub open spec fn offset_of(s: Seq<char>, i: int) -> usize {
    if 0 <= i <= s.len() {
        clip(byte_len(s.take(i)))
    } else {
        0
    }
}

/// The byte offset of index `q`, given the byte offset `off` of index `p`.
pub fn offset_after(v: &Vec<char>, p: usize, q: usize, off: usize) -> (r: usize)
    requires
        p <= q <= v@.len(),
        off == offset_of(v@, p as int),
    ensures
        r == offset_of(v@, q as int),
{
    let mut r = off;
    let mut i = p;
    while i < q
        invariant
            p <= i <= q <= v@.len(),
            r == offset_of(v@, i as int),
        decreases q - i,
    {
        proof {
            assert(v@.take(i + 1).drop_last() =~= v@.take(i as int));
            assert(v@.take(i + 1).last() == v@[i as int]);
        }
        r = saturating_sum(r, char_bytes(v[i]));
        i += 1;
    }
    r
}

/// A lexeme over plain text, between byte offsets.
pub struct LexemeView {
    pub start: usize,
    pub end: usize,
    pub token: Result<Token, LexingFault>,
}

impl View for Lexeme {
    type V = LexemeView;

    open spec fn view(&self) -> LexemeView {
        LexemeView { start: self.start, end: self.end, token: outcome_view(self.token) }
    }
}

/// The views of a list of lexemes.
pub open spec fn lexemes_view(v: Seq<Lexeme>) -> Seq<LexemeView> {
    Seq::new(v.len(), |i: int| v[i]@)
}

/// The lexemes of the text from index `p` on, in order.
pub open spec fn lexemes_from(s: Seq<char>, p: int) -> Seq<LexemeView>
    decreases s.len() - p,
{
    let q = blank_end(s, p);
    if p < 0 || q < p || q >= s.len() {
        Seq::empty()
    } else {
        let l = lexeme_at(s, q);
        let first = LexemeView { start: offset_of(s, q), end: offset_of(s, l.end), token: l.token };
        if q < l.end <= s.len() {
            seq![first] + lexemes_from(s, l.end)
        } else {
            seq![first]
        }
    }
}

/// The lexemes of a text, in order.
pub open spec fn lexemes_of(s: Seq<char>) -> Seq<LexemeView> {
    lexemes_from(s, 0)
}

/// The lexemes of a text, in order.
pub fn scan(input: &str) -> (items: Vec<Lexeme>)
    ensures
        lexemes_view(items@) == lexemes_of(input@),
{
    let v = to_chars(input);
    let mut items: Vec<Lexeme> = Vec::new();
    let mut p: usize = 0;
    let mut off: usize = 0;
    proof {
        assert(v@.take(0) =~= Seq::<char>::empty());
        assert(lexemes_view(items@) + lexemes_from(v@, 0) =~= lexemes_of(v@));
    }
    loop
        invariant_except_break
            off == offset_of(v@, p as int),
        invariant
            p <= v@.len(),
            v@ == input@,
            lexemes_view(items@) + lexemes_from(v@, p as int) == lexemes_of(v@),
        ensures
            lexemes_view(items@) == lexemes_of(v@),
        decreases v@.len() - p,
    {
        let q = skip_blank(&v, p);
        off = offset_after(&v, p, q, off);
        if q >= v.len() {
            proof {
                assert(lexemes_from(v@, p as int) =~= Seq::<LexemeView>::empty());
                assert(lexemes_view(items@) + Seq::<LexemeView>::empty() =~= lexemes_view(items@));
            }
            break ;
        }
        let (e, token) = scan_token(&v, q);
        let end = offset_after(&v, q, e, off);
        let ghost before = lexemes_view(items@);
        let item = Lexeme { start: off, end, token };
        proof {
            assert(lexemes_from(v@, p as int) =~= seq![item@] + lexemes_from(v@, e as int));
        }
        items.push(item);
        proof {
            assert(lexemes_view(items@) =~= before.push(item@));
            assert(lexemes_view(items@) + lexemes_from(v@, e as int) =~= before + lexemes_from(
                v@,
                p as int,
            ));
        }
        off = end;
        p = e;
    }
    items
}

/// What a lexer hands out for a lexeme: the token with its span, or the
/// error.
pub open spec fn handed_out(l: Lexeme) -> Spanned {
    match l.token {
        Ok(t) => Ok((l.start, t, l.end)),
        Err(e) => Err(e),
    }
}

/// What a lexer hands out for a lexeme.
pub fn hand_out(l: &Lexeme) -> (r: Spanned)
    ensures
        r == handed_out(*l),
{
    match &l.token {
        Ok(t) => Ok((l.start, t.copy(), l.end)),
        Err(e) => Err(e.copy()),
    }
}

/// The view of what a lexer hands out.
pub open spec fn spanned_view(x: Spanned) -> Result<(usize, Token, usize), LexingFault> {
    match x {
        Ok(t) => Ok((t.0, t.1@, t.2)),
        Err(e) => Err(e@),
    }
}

/// What a lexer hands out for the lexemes of a text, over plain text.
pub open spec fn spanned_of(s: Seq<char>) -> Seq<Result<(usize, Token, usize), LexingFault>> {
    Seq::new(
        lexemes_of(s).len(),
        |i: int|
            match lexemes_of(s)[i].token {
                Ok(t) => Ok((lexemes_of(s)[i].start, t, lexemes_of(s)[i].end)),
                Err(e) => Err(e),
            },
    )
}

impl Lexer {
    /// The lexemes not handed out yet.
    pub closed spec fn pending(&self) -> Seq<Lexeme> {
        if self.cursor <= self.items@.len() {
            self.items@.subrange(self.cursor as int, self.items@.len() as int)
        } else {
            Seq::empty()
        }
    }

    /// What is still to be handed out, in order.
    pub open spec fn remaining(&self) -> Seq<Spanned> {
        Seq::new(self.pending().len(), |i: int| handed_out(self.pending()[i]))
    }

    /// A lexer over the whole of `input`.
    pub fn new(input: &str) -> (lexer: Lexer)
        ensures
            lexemes_view(lexer.pending()) == lexemes_of(input@),
            lexer.remaining().len() == lexemes_of(input@).len(),
            forall|i: int|
                0 <= i < lexer.remaining().len() ==> spanned_view(#[trigger] lexer.remaining()[i])
                    == spanned_of(input@)[i],
    {
        let items = scan(input);
        let lexer = Lexer { items, cursor: 0 };
        proof {
            assert(lexer.pending() =~= lexer.items@);
            assert forall|i: int| 0 <= i < lexer.remaining().len() implies spanned_view(
                #[trigger] lexer.remaining()[i],
            ) == spanned_of(input@)[i] by {
                assert(lexemes_view(lexer.items@)[i] == lexer.items@[i]@);
            }
        }
        lexer
    }

    /// The next token, or `None` when all have been handed out.
    pub fn next(&mut self) -> (r: Option<Spanned>)
        ensures
            old(self).remaining().len() == 0 ==> r is None && final(self).remaining().len() == 0,
            old(self).remaining().len() > 0 ==> r == Some(old(self).remaining()[0])
                && final(self).remaining() == old(self).remaining().drop_first(),
    {
        if self.cursor < self.items.len() {
            let r = hand_out(&self.items[self.cursor]);
            self.cursor = self.cursor + 1;
            proof {
                assert(final(self).pending() =~= old(self).pending().drop_first());
                assert(final(self).remaining() =~= old(self).remaining().drop_first());
            }
            Some(r)
        } else {
            None
        }
    }

    /// All that is still to be handed out.
    pub fn into_rest(self) -> (v: Vec<Spanned>)
        ensures
            v@ == self.remaining(),
    {
        let mut v: Vec<Spanned> = Vec::new();
        if self.cursor > self.items.len() {
            proof {
                assert(v@ =~= self.remaining());
            }
            return v;
        }
        let mut i = self.cursor;
        while i < self.items.len()
            invariant
                self.cursor <= i <= self.items@.len(),
                v@.len() == i - self.cursor,
                forall|j: int| 0 <= j < v@.len() ==> v@[j] == handed_out(#[trigger] self.pending()[j]),
            decreases self.items@.len() - i,
        {
            let r = hand_out(&self.items[i]);
            proof {
                assert(self.pending()[i - self.cursor] == self.items@[i as int]);
            }
            v.push(r);
            i += 1;
        }
        proof {
            assert(v@ =~= self.remaining());
        }
        v
    }
}

} // verus!
