//! The lexer: source text to tokens, with error recovery.

use vstd::prelude::*;
use vstd::string::*;
use crate::token::{Token, TokenKind, TokenView, token_views, lemma_token_views_push};

verus! {

/// What went wrong while scanning.
#[derive(Clone, Copy, Debug, PartialEq, Eq, Structural)]
pub enum LexErrorKind {
    UnterminatedString,
    MalformedNumber,
    UnexpectedCharacter,
}

/// A lexical error and the line on which the offending text starts.
#[derive(Clone, Copy, Debug, PartialEq, Eq, Structural)]
pub struct LexError {
    pub kind: LexErrorKind,
    pub line: usize,
}

impl LexErrorKind {
    pub open spec fn description(self) -> Seq<char> {
        match self {
            LexErrorKind::UnterminatedString => "Unterminated string."@,
            LexErrorKind::MalformedNumber => "Malformed number."@,
            LexErrorKind::UnexpectedCharacter => "Unexpected character."@,
        }
    }
}

impl LexError {
    /// The text of the diagnostic, without the line.
    pub fn message(&self) -> (text: String)
        ensures
            text@ == self.kind.description(),
    {
        match self.kind {
            LexErrorKind::UnterminatedString => String::from_str("Unterminated string."),
            LexErrorKind::MalformedNumber => String::from_str("Malformed number."),
            LexErrorKind::UnexpectedCharacter => String::from_str("Unexpected character."),
        }
    }
}

/// A set of characters that a run is made of.
#[derive(Clone, Copy, Debug, PartialEq, Eq, Structural)]
pub enum CharClass {
    Digit,
    Word,
    NotNewline,
    NotQuote,
}

pub open spec fn is_digit(c: char) -> bool {
    '0' <= c && c <= '9'
}

pub open spec fn is_alpha(c: char) -> bool {
    ('a' <= c && c <= 'z') || ('A' <= c && c <= 'Z') || c == '_'
}

pub open spec fn in_class(c: char, class: CharClass) -> bool {
    match class {
        CharClass::Digit => is_digit(c),
        CharClass::Word => is_digit(c) || is_alpha(c),
        CharClass::NotNewline => c != '\n',
        CharClass::NotQuote => c != '"',
    }
}

/// The character at `i`, or NUL past either end.
pub open spec fn char_at(s: Seq<char>, i: int) -> char {
    if 0 <= i < s.len() {
        s[i]
    } else {
        '\0'
    }
}

/// Where the longest run of `class` characters that starts at `from` ends.
pub open spec fn run_end(s: Seq<char>, from: int, class: CharClass) -> int
    decreases s.len() - from,
{
    if 0 <= from < s.len() && in_class(s[from], class) {
        run_end(s, from + 1, class)
    } else {
        from
    }
}

/// Where a block comment whose body starts at `from` ends: just behind the
/// first `*/`, or at the end of the text when it is never closed.
pub open spec fn comment_end(s: Seq<char>, from: int) -> int
    decreases s.len() - from,
{
    if from < 0 || from >= s.len() {
        from
    } else if s[from] == '*' && char_at(s, from + 1) == '/' {
        from + 2
    } else {
        comment_end(s, from + 1)
    }
}

/// The number of line breaks in `s[from..to]`.
pub open spec fn newlines(s: Seq<char>, from: int, to: int) -> nat
    decreases to - from,
{
    if 0 <= from < to && from < s.len() {
        (if s[from] == '\n' { 1nat } else { 0nat }) + newlines(s, from + 1, to)
    } else {
        0
    }
}

/// The line reached from `line` after `breaks` line breaks; it stops at the
/// largest line number that fits.
pub open spec fn advance_line(line: usize, breaks: nat) -> usize {
    if line + breaks <= usize::MAX {
        (line + breaks) as usize
    } else {
        usize::MAX
    }
}

/// The reserved word that `lexeme` spells, or `Identifier`.
pub open spec fn word_kind(lexeme: Seq<char>) -> TokenKind {
    if lexeme == "and"@ {
        TokenKind::And
    } else if lexeme == "class"@ {
        TokenKind::Class
    } else if lexeme == "else"@ {
        TokenKind::Else
    } else if lexeme == "false"@ {
        TokenKind::False
    } else if lexeme == "for"@ {
        TokenKind::For
    } else if lexeme == "fun"@ {
        TokenKind::Fun
    } else if lexeme == "if"@ {
        TokenKind::If
    } else if lexeme == "nil"@ {
        TokenKind::Nil
    } else if lexeme == "or"@ {
        TokenKind::Or
    } else if lexeme == "print"@ {
        TokenKind::Print
    } else if lexeme == "return"@ {
        TokenKind::Return
    } else if lexeme == "super"@ {
        TokenKind::Super
    } else if lexeme == "this"@ {
        TokenKind::This
    } else if lexeme == "true"@ {
        TokenKind::True
    } else if lexeme == "var"@ {
        TokenKind::Var
    } else if lexeme == "while"@ {
        TokenKind::While
    } else {
        TokenKind::Identifier
    }
}

/// What one scanning step found.
#[derive(Clone, Copy, Debug, PartialEq, Eq, Structural)]
pub enum ScanKind {
    Token(TokenKind),
    Error(LexErrorKind),
    Skip,
}

/// The outcome of one scanning step: what was found and where it ends.
pub struct Scan {
    pub kind: ScanKind,
    pub end: int,
}

pub open spec fn one_or_two(s: Seq<char>, pos: int, single: TokenKind, double: TokenKind) -> Scan {
    if char_at(s, pos + 1) == '=' {
        Scan { kind: ScanKind::Token(double), end: pos + 2 }
    } else {
        Scan { kind: ScanKind::Token(single), end: pos + 1 }
    }
}

/// Where the number that starts at `pos` ends: digits, then optionally a dot
/// and more digits.
pub open spec fn number_end(s: Seq<char>, pos: int) -> int {
    let whole = run_end(s, pos, CharClass::Digit);
    if char_at(s, whole) == '.' && is_digit(char_at(s, whole + 1)) {
        run_end(s, whole + 1, CharClass::Digit)
    } else {
        whole
    }
}

/// One scanning step at `pos`, by longest match.
pub open spec fn scan(s: Seq<char>, pos: int) -> Scan
    recommends
        0 <= pos < s.len(),
{
    let c = s[pos];
    let single = |kind: TokenKind| Scan { kind: ScanKind::Token(kind), end: pos + 1 };
    if c == '(' {
        single(TokenKind::LeftParen)
    } else if c == ')' {
        single(TokenKind::RightParen)
    } else if c == '{' {
        single(TokenKind::LeftBrace)
    } else if c == '}' {
        single(TokenKind::RightBrace)
    } else if c == ',' {
        single(TokenKind::Comma)
    } else if c == '.' {
        single(TokenKind::Dot)
    } else if c == '-' {
        single(TokenKind::Minus)
    } else if c == '+' {
        single(TokenKind::Plus)
    } else if c == ';' {
        single(TokenKind::Semicolon)
    } else if c == '*' {
        single(TokenKind::Star)
    } else if c == '!' {
        one_or_two(s, pos, TokenKind::Bang, TokenKind::BangEqual)
    } else if c == '=' {
        one_or_two(s, pos, TokenKind::Equal, TokenKind::EqualEqual)
    } else if c == '<' {
        one_or_two(s, pos, TokenKind::Less, TokenKind::LessEqual)
    } else if c == '>' {
        one_or_two(s, pos, TokenKind::Greater, TokenKind::GreaterEqual)
    } else if c == '/' {
        if char_at(s, pos + 1) == '/' {
            Scan { kind: ScanKind::Skip, end: run_end(s, pos + 2, CharClass::NotNewline) }
        } else if char_at(s, pos + 1) == '*' {
            Scan { kind: ScanKind::Skip, end: comment_end(s, pos + 2) }
        } else {
            single(TokenKind::Slash)
        }
    } else if c == ' ' || c == '\r' || c == '\t' || c == '\n' {
        Scan { kind: ScanKind::Skip, end: pos + 1 }
    } else if c == '"' {
        let quote = run_end(s, pos + 1, CharClass::NotQuote);
        if quote < s.len() {
            Scan { kind: ScanKind::Token(TokenKind::Str), end: quote + 1 }
        } else {
            Scan { kind: ScanKind::Error(LexErrorKind::UnterminatedString), end: quote }
        }
    } else if is_digit(c) {
        let end = number_end(s, pos);
        if is_alpha(char_at(s, end)) {
            Scan {
                kind: ScanKind::Error(LexErrorKind::MalformedNumber),
                end: run_end(s, end, CharClass::Word),
            }
        } else {
            Scan { kind: ScanKind::Token(TokenKind::Number), end }
        }
    } else if is_alpha(c) {
        let end = run_end(s, pos, CharClass::Word);
        Scan { kind: ScanKind::Token(word_kind(s.subrange(pos, end))), end }
    } else {
        Scan { kind: ScanKind::Error(LexErrorKind::UnexpectedCharacter), end: pos + 1 }
    }
}

/// The token of kind `kind` that spans `s[pos..end]` and starts on `line`.
pub open spec fn token_at(s: Seq<char>, pos: int, end: int, kind: TokenKind, line: usize) -> TokenView {
    TokenView {
        kind,
        lexeme: s.subrange(pos, end),
        literal: match kind {
            TokenKind::Str => Some(s.subrange(pos + 1, end - 1)),
            TokenKind::Number => Some(s.subrange(pos, end)),
            _ => None,
        },
        line,
    }
}

/// The token that closes every token sequence.
pub open spec fn eof_token(line: usize) -> TokenView {
    TokenView { kind: TokenKind::Eof, lexeme: Seq::empty(), literal: None, line }
}

pub proof fn lemma_run_end_bounds(s: Seq<char>, from: int, class: CharClass)
    requires
        0 <= from <= s.len(),
    ensures
        from <= run_end(s, from, class) <= s.len(),
    decreases s.len() - from,
{
    if from < s.len() && in_class(s[from], class) {
        lemma_run_end_bounds(s, from + 1, class);
    }
}

pub proof fn lemma_comment_end_bounds(s: Seq<char>, from: int)
    requires
        0 <= from <= s.len(),
    ensures
        from <= comment_end(s, from) <= s.len(),
    decreases s.len() - from,
{
    if from < s.len() && !(s[from] == '*' && char_at(s, from + 1) == '/') {
        lemma_comment_end_bounds(s, from + 1);
    }
}

/// Every scanning step consumes at least one character and stays inside the
/// text.
pub proof fn lemma_scan_advances(s: Seq<char>, pos: int)
    requires
        0 <= pos < s.len(),
    ensures
        pos < scan(s, pos).end <= s.len(),
{
    let c = s[pos];
    if c == '/' {
        if char_at(s, pos + 1) == '/' {
            lemma_run_end_bounds(s, pos + 2, CharClass::NotNewline);
        } else if char_at(s, pos + 1) == '*' {
            lemma_comment_end_bounds(s, pos + 2);
        }
    } else if c == '"' {
        lemma_run_end_bounds(s, pos + 1, CharClass::NotQuote);
    } else if is_digit(c) {
        lemma_run_end_bounds(s, pos + 1, CharClass::Digit);
        let whole = run_end(s, pos, CharClass::Digit);
        assert(whole == run_end(s, pos + 1, CharClass::Digit));
        if char_at(s, whole) == '.' && is_digit(char_at(s, whole + 1)) {
            lemma_run_end_bounds(s, whole + 1, CharClass::Digit);
        }
        lemma_run_end_bounds(s, number_end(s, pos), CharClass::Word);
    } else if is_alpha(c) {
        lemma_run_end_bounds(s, pos + 1, CharClass::Word);
        assert(run_end(s, pos, CharClass::Word) == run_end(s, pos + 1, CharClass::Word));
    }
}

/// The tokens and errors of `s[pos..]`, when scanning resumes at `pos` on
/// line `line`.
pub open spec fn lex_from(s: Seq<char>, pos: int, line: usize) -> (Seq<TokenView>, Seq<LexError>)
    decreases s.len() - pos,
{
    if pos < 0 || pos >= s.len() {
        (seq![eof_token(line)], Seq::empty())
    } else {
        let found = scan(s, pos);
        if !(pos < found.end <= s.len()) {
            (seq![eof_token(line)], Seq::empty())
        } else {
            let rest = lex_from(s, found.end, advance_line(line, newlines(s, pos, found.end)));
            match found.kind {
                ScanKind::Token(kind) => (
                    seq![token_at(s, pos, found.end, kind, line)] + rest.0,
                    rest.1,
                ),
                ScanKind::Error(kind) => (rest.0, seq![LexError { kind, line }] + rest.1),
                ScanKind::Skip => rest,
            }
        }
    }
}

/// The tokens and the lexical errors of a whole source text.
pub open spec fn spec_lex(s: Seq<char>) -> (Seq<TokenView>, Seq<LexError>) {
    lex_from(s, 0, 1)
}

/// The token sequence is never empty, ends with the end-of-file token, and
/// holds no other end-of-file token.
pub proof fn lemma_lex_ends_with_eof(s: Seq<char>, pos: int, line: usize)
    ensures
        lex_from(s, pos, line).0.len() >= 1,
        lex_from(s, pos, line).0[lex_from(s, pos, line).0.len() - 1].kind == TokenKind::Eof,
        forall|i: int|
            0 <= i < lex_from(s, pos, line).0.len() - 1 ==> (#[trigger] lex_from(s, pos, line).0[i]).kind
                != TokenKind::Eof,
    decreases s.len() - pos,
{
    if pos < 0 || pos >= s.len() {
    } else {
        let found = scan(s, pos);
        if pos < found.end <= s.len() {
            lemma_lex_ends_with_eof(s, found.end, advance_line(line, newlines(s, pos, found.end)));
        }
    }
}

pub fn to_chars(s: &str) -> (v: Vec<char>)
    ensures
        v@ == s@,
{
    let mut v: Vec<char> = Vec::new();
    for c in it: s.chars()
        invariant
            v@ == it.seq().take(it.index() as int),
            it.seq() == s@,
    {
        v.push(c);
    }
    v
}

fn get_char_at(chars: &Vec<char>, i: usize) -> (c: char)
    ensures
        c == char_at(chars@, i as int),
{
    if i < chars.len() {
        chars[i]
    } else {
        '\0'
    }
}

fn digit(c: char) -> (r: bool)
    ensures
        r == is_digit(c),
{
    '0' <= c && c <= '9'
}

fn alpha(c: char) -> (r: bool)
    ensures
        r == is_alpha(c),
{
    ('a' <= c && c <= 'z') || ('A' <= c && c <= 'Z') || c == '_'
}

fn member(c: char, class: CharClass) -> (r: bool)
    ensures
        r == in_class(c, class),
{
    match class {
        CharClass::Digit => digit(c),
        CharClass::Word => digit(c) || alpha(c),
        CharClass::NotNewline => c != '\n',
        CharClass::NotQuote => c != '"',
    }
}

fn find_run_end(chars: &Vec<char>, from: usize, class: CharClass) -> (end: usize)
    requires
        from <= chars.len(),
    ensures
        end == run_end(chars@, from as int, class),
        from <= end <= chars.len(),
{
    let mut i: usize = from;
    while i < chars.len() && member(chars[i], class)
        invariant
            from <= i <= chars.len(),
            run_end(chars@, i as int, class) == run_end(chars@, from as int, class),
        decreases chars.len() - i,
    {
        i = i + 1;
    }
    i
}

fn find_comment_end(chars: &Vec<char>, from: usize) -> (end: usize)
    requires
        from <= chars.len(),
    ensures
        end == comment_end(chars@, from as int),
        from <= end <= chars.len(),
{
    let mut i: usize = from;
    while i < chars.len()
        invariant
            from <= i <= chars.len(),
            comment_end(chars@, i as int) == comment_end(chars@, from as int),
        decreases chars.len() - i,
    {
        if chars[i] == '*' && get_char_at(chars, i + 1) == '/' {
            return i + 2;
        }
        i = i + 1;
    }
    i
}

fn count_newlines(chars: &Vec<char>, from: usize, to: usize) -> (count: usize)
    requires
        from <= to <= chars.len(),
    ensures
        count == newlines(chars@, from as int, to as int),
{
    let mut i: usize = from;
    let mut count: usize = 0;
    while i < to
        invariant
            from <= i <= to <= chars.len(),
            count <= i - from,
            count + newlines(chars@, i as int, to as int)
                == newlines(chars@, from as int, to as int),
        decreases to - i,
    {
        if chars[i] == '\n' {
            count = count + 1;
        }
        i = i + 1;
    }
    count
}

fn bump_line(line: usize, breaks: usize) -> (r: usize)
    ensures
        r == advance_line(line, breaks as nat),
{
    if breaks <= usize::MAX - line {
        line + breaks
    } else {
        usize::MAX
    }
}

/// Whether `chars[from..to]` spells `word`.
fn spells(chars: &Vec<char>, from: usize, to: usize, word: &str) -> (r: bool)
    requires
        from <= to <= chars.len(),
    ensures
        r == (chars@.subrange(from as int, to as int) == word@),
{
    let n = word.unicode_len();
    if to - from != n {
        return false;
    }
    let mut i: usize = 0;
    while i < n
        invariant
            from <= to <= chars.len(),
            to - from == n,
            n == word@.len(),
            i <= n,
            forall|j: int| 0 <= j < i ==> chars@[from + j] == word@[j],
        decreases n - i,
    {
        if chars[from + i] != word.get_char(i) {
            assert(chars@.subrange(from as int, to as int)[i as int] != word@[i as int]);
            return false;
        }
        i = i + 1;
    }
    assert(chars@.subrange(from as int, to as int) =~= word@);
    true
}

fn find_word_kind(chars: &Vec<char>, from: usize, to: usize) -> (kind: TokenKind)
    requires
        from <= to <= chars.len(),
    ensures
        kind == word_kind(chars@.subrange(from as int, to as int)),
{
    if spells(chars, from, to, "and") {
        TokenKind::And
    } else if spells(chars, from, to, "class") {
        TokenKind::Class
    } else if spells(chars, from, to, "else") {
        TokenKind::Else
    } else if spells(chars, from, to, "false") {
        TokenKind::False
    } else if spells(chars, from, to, "for") {
        TokenKind::For
    } else if spells(chars, from, to, "fun") {
        TokenKind::Fun
    } else if spells(chars, from, to, "if") {
        TokenKind::If
    } else if spells(chars, from, to, "nil") {
        TokenKind::Nil
    } else if spells(chars, from, to, "or") {
        TokenKind::Or
    } else if spells(chars, from, to, "print") {
        TokenKind::Print
    } else if spells(chars, from, to, "return") {
        TokenKind::Return
    } else if spells(chars, from, to, "super") {
        TokenKind::Super
    } else if spells(chars, from, to, "this") {
        TokenKind::This
    } else if spells(chars, from, to, "true") {
        TokenKind::True
    } else if spells(chars, from, to, "var") {
        TokenKind::Var
    } else if spells(chars, from, to, "while") {
        TokenKind::While
    } else {
        TokenKind::Identifier
    }
}

fn scan_pair(chars: &Vec<char>, pos: usize, single: TokenKind, double: TokenKind) -> (r: (
    ScanKind,
    usize,
))
    requires
        pos < chars.len(),
    ensures
        r.0 == one_or_two(chars@, pos as int, single, double).kind,
        r.1 == one_or_two(chars@, pos as int, single, double).end,
{
    if get_char_at(chars, pos + 1) == '=' {
        (ScanKind::Token(double), pos + 2)
    } else {
        (ScanKind::Token(single), pos + 1)
    }
}

fn find_number_end(chars: &Vec<char>, pos: usize) -> (end: usize)
    requires
        pos < chars.len(),
    ensures
        end == number_end(chars@, pos as int),
        pos <= end <= chars.len(),
{
    let whole = find_run_end(chars, pos, CharClass::Digit);
    if get_char_at(chars, whole) == '.' && digit(get_char_at(chars, whole + 1)) {
        find_run_end(chars, whole + 1, CharClass::Digit)
    } else {
        whole
    }
}

fn scan_one(chars: &Vec<char>, pos: usize) -> (r: (ScanKind, usize))
    requires
        pos < chars.len(),
    ensures
        r.0 == scan(chars@, pos as int).kind,
        r.1 == scan(chars@, pos as int).end,
        pos < r.1 <= chars.len(),
        r.0 == ScanKind::Token(TokenKind::Str) ==> pos + 2 <= r.1,
{
    proof {
        lemma_scan_advances(chars@, pos as int);
    }
    let c = chars[pos];
    if c == '(' {
        (ScanKind::Token(TokenKind::LeftParen), pos + 1)
    } else if c == ')' {
        (ScanKind::Token(TokenKind::RightParen), pos + 1)
    } else if c == '{' {
        (ScanKind::Token(TokenKind::LeftBrace), pos + 1)
    } else if c == '}' {
        (ScanKind::Token(TokenKind::RightBrace), pos + 1)
    } else if c == ',' {
        (ScanKind::Token(TokenKind::Comma), pos + 1)
    } else if c == '.' {
        (ScanKind::Token(TokenKind::Dot), pos + 1)
    } else if c == '-' {
        (ScanKind::Token(TokenKind::Minus), pos + 1)
    } else if c == '+' {
        (ScanKind::Token(TokenKind::Plus), pos + 1)
    } else if c == ';' {
        (ScanKind::Token(TokenKind::Semicolon), pos + 1)
    } else if c == '*' {
        (ScanKind::Token(TokenKind::Star), pos + 1)
    } else if c == '!' {
        scan_pair(chars, pos, TokenKind::Bang, TokenKind::BangEqual)
    } else if c == '=' {
        scan_pair(chars, pos, TokenKind::Equal, TokenKind::EqualEqual)
    } else if c == '<' {
        scan_pair(chars, pos, TokenKind::Less, TokenKind::LessEqual)
    } else if c == '>' {
        scan_pair(chars, pos, TokenKind::Greater, TokenKind::GreaterEqual)
    } else if c == '/' {
        let next = get_char_at(chars, pos + 1);
        if next == '/' {
            (ScanKind::Skip, find_run_end(chars, pos + 2, CharClass::NotNewline))
        } else if next == '*' {
            (ScanKind::Skip, find_comment_end(chars, pos + 2))
        } else {
            (ScanKind::Token(TokenKind::Slash), pos + 1)
        }
    } else if c == ' ' || c == '\r' || c == '\t' || c == '\n' {
        (ScanKind::Skip, pos + 1)
    } else if c == '"' {
        let quote = find_run_end(chars, pos + 1, CharClass::NotQuote);
        if quote < chars.len() {
            (ScanKind::Token(TokenKind::Str), quote + 1)
        } else {
            (ScanKind::Error(LexErrorKind::UnterminatedString), quote)
        }
    } else if digit(c) {
        let end = find_number_end(chars, pos);
        if alpha(get_char_at(chars, end)) {
            (ScanKind::Error(LexErrorKind::MalformedNumber), find_run_end(chars, end, CharClass::Word))
        } else {
            (ScanKind::Token(TokenKind::Number), end)
        }
    } else if alpha(c) {
        let end = find_run_end(chars, pos, CharClass::Word);
        (ScanKind::Token(find_word_kind(chars, pos, end)), end)
    } else {
        (ScanKind::Error(LexErrorKind::UnexpectedCharacter), pos + 1)
    }
}

/// The text `s[from..to]` as an owned string.
fn piece(s: &str, from: usize, to: usize) -> (r: String)
    requires
        from <= to <= s@.len(),
    ensures
        r@ == s@.subrange(from as int, to as int),
{
    String::from_str(s.substring_char(from, to))
}

fn make_token(source: &str, pos: usize, end: usize, kind: TokenKind, line: usize) -> (t: Token)
    requires
        pos < end <= source@.len(),
        kind == TokenKind::Str ==> pos + 2 <= end,
    ensures
        t@ == token_at(source@, pos as int, end as int, kind, line),
{
    let literal = match kind {
        TokenKind::Str => Some(piece(source, pos + 1, end - 1)),
        TokenKind::Number => Some(piece(source, pos, end)),
        _ => None,
    };
    Token { kind, lexeme: piece(source, pos, end), literal, line }
}

/// Scans `source` from left to right by longest match.
///
/// Whitespace and comments are skipped. An unterminated string, a number that
/// runs into a name, and an unknown character each give one error, after which
/// scanning goes on behind the offending text. The token sequence always ends
/// with the end-of-file token, which occurs nowhere else in it.
pub fn lex(source: &str) -> (r: (Vec<Token>, Vec<LexError>))
    ensures
        token_views(r.0@) == spec_lex(source@).0,
        r.1@ == spec_lex(source@).1,
        r.0@.len() >= 1,
        r.0@.last().kind == TokenKind::Eof,
        forall|i: int| 0 <= i < r.0@.len() - 1 ==> (#[trigger] r.0@[i]).kind != TokenKind::Eof,
        source@.len() == 0 ==> r.0@.len() == 1 && r.0@[0]@ == eof_token(1) && r.1@.len() == 0,
{
    let chars = to_chars(source);
    let n = chars.len();
    let mut tokens: Vec<Token> = Vec::new();
    let mut errors: Vec<LexError> = Vec::new();
    let mut pos: usize = 0;
    let mut line: usize = 1;
    while pos < n
        invariant
            pos <= n,
            n == chars@.len(),
            chars@ == source@,
            spec_lex(source@).0 == token_views(tokens@) + lex_from(chars@, pos as int, line).0,
            spec_lex(source@).1 == errors@ + lex_from(chars@, pos as int, line).1,
        decreases n - pos,
    {
        let (kind, end) = scan_one(&chars, pos);
        let breaks = count_newlines(&chars, pos, end);
        let ghost rest = lex_from(chars@, end as int, advance_line(line, breaks as nat));
        let ghost before = token_views(tokens@);
        let ghost errors_before = errors@;
        match kind {
            ScanKind::Token(kind) => {
                let token = make_token(source, pos, end, kind, line);
                proof {
                    lemma_token_views_push(tokens@, token);
                    assert(before.push(token@) + rest.0 =~= before + (seq![token@] + rest.0));
                }
                tokens.push(token);
            },
            ScanKind::Error(kind) => {
                let error = LexError { kind, line };
                proof {
                    assert(errors_before.push(error) + rest.1 =~= errors_before + (seq![error]
                        + rest.1));
                }
                errors.push(error);
            },
            ScanKind::Skip => {},
        }
        line = bump_line(line, breaks);
        pos = end;
    }
    let last = Token { kind: TokenKind::Eof, lexeme: String::new(), literal: None, line };
    proof {
        lemma_token_views_push(tokens@, last);
        lemma_lex_ends_with_eof(source@, 0, 1);
        assert(token_views(tokens@) + seq![eof_token(line)] =~= token_views(tokens@).push(last@));
        assert(errors@ + Seq::<LexError>::empty() =~= errors@);
    }
    tokens.push(last);
    proof {
        let views = token_views(tokens@);
        assert(views.len() == tokens@.len());
        assert(views.last() == tokens@.last()@);
        assert forall|i: int| 0 <= i < tokens@.len() - 1 implies (#[trigger] tokens@[i]).kind
            != TokenKind::Eof by {
            assert(views[i] == tokens@[i]@);
        }
    }
    (tokens, errors)
}

} // verus!
