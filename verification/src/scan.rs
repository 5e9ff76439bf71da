//! The lexical grammar as a mathematical model: which token starts at a
//! given position of a character sequence, and where it ends.
//!
//! Positions count characters, never bytes.
use crate::token::{keyword_kind, TokenType, TokenView};
use vstd::prelude::*;

verus! {

/// The three character classes that form runs of more than one character.
pub enum CharClass {
    Whitespace,
    Letter,
    Digit,
}

/// Space, tab, newline and carriage return separate tokens.
pub open spec fn is_whitespace_char(c: char) -> bool {
    c == ' ' || c == '\t' || c == '\n' || c == '\r'
}

/// ASCII letters and the underscore form identifiers and keywords.
pub open spec fn is_letter_char(c: char) -> bool {
    ('a' <= c && c <= 'z') || ('A' <= c && c <= 'Z') || c == '_'
}

/// ASCII digits form integer literals.
pub open spec fn is_digit_char(c: char) -> bool {
    '0' <= c && c <= '9'
}

/// Membership of a character in a class.
pub open spec fn in_class(c: char, class: CharClass) -> bool {
    match class {
        CharClass::Whitespace => is_whitespace_char(c),
        CharClass::Letter => is_letter_char(c),
        CharClass::Digit => is_digit_char(c),
    }
}

/// The end of the maximal run of `class` characters that starts at `pos`:
/// the first position at or after `pos` that holds no character of the
/// class, or the length of `s` if there is none.
pub open spec fn run_end(s: Seq<char>, pos: nat, class: CharClass) -> nat
    decreases s.len() - pos,
{
    if pos < s.len() && in_class(s[pos as int], class) {
        run_end(s, pos + 1, class)
    } else {
        pos
    }
}

/// `run_end` is the end of a run that cannot be extended: everything
/// before it belongs to the class, and what stands at it does not.
pub proof fn lemma_run_end_maximal(s: Seq<char>, pos: nat, class: CharClass)
    requires
        pos <= s.len(),
    ensures
        pos <= run_end(s, pos, class) <= s.len(),
        forall|i: int| pos <= i < run_end(s, pos, class) ==> in_class(#[trigger] s[i], class),
        run_end(s, pos, class) < s.len() ==> !in_class(
            s[run_end(s, pos, class) as int],
            class,
        ),
    decreases s.len() - pos,
{
    if pos < s.len() && in_class(s[pos as int], class) {
        lemma_run_end_maximal(s, pos + 1, class);
    }
}

/// A run that starts on a character of the class holds at least it.
pub proof fn lemma_run_end_advances(s: Seq<char>, pos: nat, class: CharClass)
    requires
        pos < s.len(),
        in_class(s[pos as int], class),
    ensures
        pos < run_end(s, pos, class) <= s.len(),
{
    lemma_run_end_maximal(s, pos + 1, class);
}

/// From inside a run, the run ends where it ends from its start.
pub proof fn lemma_run_end_from_inside(s: Seq<char>, pos: nat, mid: nat, class: CharClass)
    requires
        pos <= mid <= s.len(),
        forall|i: int| pos <= i < mid ==> in_class(#[trigger] s[i], class),
    ensures
        run_end(s, pos, class) == run_end(s, mid, class),
    decreases mid - pos,
{
    if pos < mid {
        lemma_run_end_from_inside(s, pos + 1, mid, class);
    }
}

/// The kind of a token that is a single punctuation character, if `c` is one.
/// `=` and `!` stand here for their one-character forms.
pub open spec fn symbol_kind(c: char) -> Option<TokenType> {
    if c == '=' {
        Some(TokenType::Assign)
    } else if c == ';' {
        Some(TokenType::Semicolon)
    } else if c == '(' {
        Some(TokenType::LParen)
    } else if c == ')' {
        Some(TokenType::RParen)
    } else if c == ',' {
        Some(TokenType::Comma)
    } else if c == '+' {
        Some(TokenType::Plus)
    } else if c == '{' {
        Some(TokenType::LBrace)
    } else if c == '}' {
        Some(TokenType::RBrace)
    } else if c == '-' {
        Some(TokenType::Minus)
    } else if c == '/' {
        Some(TokenType::Slash)
    } else if c == '!' {
        Some(TokenType::Bang)
    } else if c == '*' {
        Some(TokenType::Asterisk)
    } else if c == '<' {
        Some(TokenType::Lt)
    } else if c == '>' {
        Some(TokenType::Gt)
    } else {
        None
    }
}

/// Whether the two-character operator `==` or `!=` starts at `start`.
pub open spec fn is_double_operator(s: Seq<char>, start: nat) -> bool {
    &&& start + 1 < s.len()
    &&& (s[start as int] == '=' || s[start as int] == '!')
    &&& s[start as int + 1] == '='
}

/// Where the token that starts at `start` ends. `start` holds a character
/// that is not whitespace.
pub open spec fn token_end(s: Seq<char>, start: nat) -> nat
    recommends
        start < s.len(),
{
    let c = s[start as int];
    if is_double_operator(s, start) {
        start + 2
    } else if symbol_kind(c) is Some {
        start + 1
    } else if is_letter_char(c) {
        run_end(s, start, CharClass::Letter)
    } else if is_digit_char(c) {
        run_end(s, start, CharClass::Digit)
    } else {
        start + 1
    }
}

/// The kind of the token that starts at `start`.
pub open spec fn token_kind(s: Seq<char>, start: nat) -> TokenType
    recommends
        start < s.len(),
{
    let c = s[start as int];
    if is_double_operator(s, start) {
        if c == '=' {
            TokenType::Equals
        } else {
            TokenType::NotEquals
        }
    } else if symbol_kind(c) is Some {
        symbol_kind(c)->0
    } else if is_letter_char(c) {
        keyword_kind(s.subrange(start as int, token_end(s, start) as int))
    } else if is_digit_char(c) {
        TokenType::Int
    } else {
        TokenType::Illegal
    }
}

/// One step of scanning: the token found, where its text starts and where
/// it ends. The literal of the token is `s.subrange(start, end)`.
pub ghost struct Scan {
    pub token: TokenView,
    pub start: nat,
    pub end: nat,
}

/// The token that a scan from `pos` yields: whitespace is skipped, and the
/// token is read from the first character that is none. Where only
/// whitespace is left, the token is `Eof` with an empty literal, and the
/// scan ends at the end of `s`.
pub open spec fn scan(s: Seq<char>, pos: nat) -> Scan {
    let start = run_end(s, pos, CharClass::Whitespace);
    if start >= s.len() {
        Scan {
            token: TokenView { kind: TokenType::Eof, literal: Seq::empty() },
            start: s.len(),
            end: s.len(),
        }
    } else {
        let end = token_end(s, start);
        Scan {
            token: TokenView {
                kind: token_kind(s, start),
                literal: s.subrange(start as int, end as int),
            },
            start,
            end,
        }
    }
}

/// Every scan stays within the text and reads a stretch of it: only
/// whitespace lies between the position scanned from and the start of the
/// token, the literal is the text between `start` and `end`, and every
/// token but `Eof` holds at least one character, so that the scan moves on.
pub proof fn lemma_scan_reads_source(s: Seq<char>, pos: nat)
    ensures
        scan(s, pos).start <= scan(s, pos).end <= s.len(),
        pos <= s.len() ==> pos <= scan(s, pos).start,
        scan(s, pos).token.literal == s.subrange(
            scan(s, pos).start as int,
            scan(s, pos).end as int,
        ),
        forall|i: int| pos <= i < scan(s, pos).start ==> is_whitespace_char(#[trigger] s[i]),
        scan(s, pos).token.kind != TokenType::Eof ==> pos <= scan(s, pos).start < scan(
            s,
            pos,
        ).end && !is_whitespace_char(s[scan(s, pos).start as int]),
        scan(s, pos).token.kind == TokenType::Eof ==> scan(s, pos).token.literal.len() == 0,
{
    if pos <= s.len() {
        lemma_run_end_maximal(s, pos, CharClass::Whitespace);
    }
    let start = run_end(s, pos, CharClass::Whitespace);
    if start < s.len() {
        let c = s[start as int];
        if is_letter_char(c) {
            lemma_run_end_advances(s, start, CharClass::Letter);
            lemma_keyword_is_never_eof(s.subrange(start as int, token_end(s, start) as int));
        }
        if is_digit_char(c) {
            lemma_run_end_advances(s, start, CharClass::Digit);
        }
    }
}

/// No run of letters is the end of the input.
pub proof fn lemma_keyword_is_never_eof(word: Seq<char>)
    ensures
        keyword_kind(word) != TokenType::Eof,
{
}

/// Once a scan has met the end of the text, every later scan meets it too:
/// the same `Eof`, at the same place.
pub proof fn lemma_eof_is_stable(s: Seq<char>, pos: nat)
    requires
        scan(s, pos).token.kind == TokenType::Eof,
    ensures
        scan(s, scan(s, pos).end) == scan(s, pos),
{
    lemma_scan_reads_source(s, pos);
}

/// `=` directly followed by `=` is one `Equals` token with the literal
/// `==`, and `!` directly followed by `=` is one `NotEquals` token with the
/// literal `!=`: never two tokens.
pub proof fn lemma_double_operator_is_one_token(s: Seq<char>, start: nat)
    requires
        start + 1 < s.len(),
        s[start as int] == '=' || s[start as int] == '!',
        s[start as int + 1] == '=',
    ensures
        scan(s, start).start == start,
        scan(s, start).end == start + 2,
        scan(s, start).token.kind == if s[start as int] == '=' {
            TokenType::Equals
        } else {
            TokenType::NotEquals
        },
        scan(s, start).token.literal == seq![s[start as int], '='],
{
}

/// `=` and `!` that no `=` follows are the one-character tokens `Assign`
/// and `Bang`.
pub proof fn lemma_single_operator(s: Seq<char>, start: nat)
    requires
        start < s.len(),
        s[start as int] == '=' || s[start as int] == '!',
        start + 1 < s.len() ==> s[start as int + 1] != '=',
    ensures
        scan(s, start).start == start,
        scan(s, start).end == start + 1,
        scan(s, start).token.kind == if s[start as int] == '=' {
            TokenType::Assign
        } else {
            TokenType::Bang
        },
        scan(s, start).token.literal == seq![s[start as int]],
{
}

/// A word is read to its end before it is looked up: an identifier or
/// keyword token holds the maximal run of letters, so what follows it is no
/// letter.
pub proof fn lemma_word_is_longest_match(s: Seq<char>, pos: nat)
    requires
        pos < s.len(),
        is_letter_char(s[pos as int]),
    ensures
        scan(s, pos).start == pos,
        pos < scan(s, pos).end <= s.len(),
        forall|i: int| pos <= i < scan(s, pos).end ==> is_letter_char(#[trigger] s[i]),
        scan(s, pos).end < s.len() ==> !is_letter_char(s[scan(s, pos).end as int]),
        scan(s, pos).token.kind == keyword_kind(scan(s, pos).token.literal),
{
    lemma_run_end_maximal(s, pos, CharClass::Letter);
    lemma_run_end_advances(s, pos, CharClass::Letter);
}

/// The tokens of `s` from `pos` on, up to and with the first `Eof`.
pub open spec fn tokens_from(s: Seq<char>, pos: nat) -> Seq<TokenView>
    decreases s.len() - pos,
{
    let step = scan(s, pos);
    if step.token.kind == TokenType::Eof {
        seq![step.token]
    } else {
        proof {
            lemma_scan_reads_source(s, pos);
        }
        seq![step.token] + tokens_from(s, step.end)
    }
}

/// The token that closes every token sequence.
pub open spec fn eof_token() -> TokenView {
    TokenView { kind: TokenType::Eof, literal: Seq::empty() }
}

/// Scanning comes to an end: the tokens of a text are finitely many, at
/// most one more than it has characters left; the last of them is `Eof` with
/// an empty literal, and no other is `Eof`.
pub proof fn lemma_tokens_end_with_eof(s: Seq<char>, pos: nat)
    ensures
        tokens_from(s, pos).len() >= 1,
        pos <= s.len() ==> tokens_from(s, pos).len() <= s.len() - pos + 1,
        tokens_from(s, pos).last() == eof_token(),
        forall|i: int|
            0 <= i < tokens_from(s, pos).len() - 1 ==> (#[trigger] tokens_from(s, pos)[i]).kind
                != TokenType::Eof,
    decreases s.len() - pos,
{
    lemma_scan_reads_source(s, pos);
    let step = scan(s, pos);
    if step.token.kind != TokenType::Eof {
        lemma_tokens_end_with_eof(s, step.end);
    }
}

} // verus!
