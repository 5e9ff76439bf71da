//! The lexer: turns source text into tokens, one per call.
use crate::scan::{
    in_class, is_digit_char, is_letter_char, lemma_run_end_from_inside, lemma_scan_reads_source,
    run_end, scan, tokens_from, CharClass,
};
use crate::token::{keyword_kind, lookup_ident, Token, TokenType, TokenView};
use vstd::prelude::*;

verus! {

/// What `read_char` and `peek_char` report where no character is left.
pub const END_OF_INPUT: char = '\u{10FFFF}';

/// A cursor over source text. The cursor counts characters, so text with
/// characters of several bytes is scanned like any other.
#[derive(Debug)]
pub struct Lexer {
    /// The text, from which literals are cut.
    input: String,
    /// The characters of the text, for access by position.
    chars: Vec<char>,
    /// The position of the cursor, in characters.
    position: usize,
    /// The character under the cursor, or `END_OF_INPUT` behind the text.
    ch: char,
}

/// Whether `ch` can stand in an identifier: an ASCII letter or `_`.
pub fn is_letter(ch: char) -> (b: bool)
    ensures
        b == is_letter_char(ch),
{
    (ch >= 'a' && ch <= 'z') || (ch >= 'A' && ch <= 'Z') || ch == '_'
}

/// Whether `ch` is an ASCII digit.
pub fn is_digit(ch: char) -> (b: bool)
    ensures
        b == is_digit_char(ch),
{
    ch >= '0' && ch <= '9'
}

impl Lexer {
    /// The text being scanned, as characters.
    pub closed spec fn source(&self) -> Seq<char> {
        self.chars@
    }

    /// The position, in characters, from which the next scan starts.
    pub closed spec fn cursor(&self) -> nat {
        self.position as nat
    }

    /// The lexer's invariant: the cursor lies within the text, and the
    /// character under it is at hand.
    pub closed spec fn wf(&self) -> bool {
        &&& self.chars@ == self.input@
        &&& self.position <= self.chars.len()
        &&& self.ch == if self.position < self.chars.len() {
            self.chars@[self.position as int]
        } else {
            END_OF_INPUT
        }
    }

    /// A lexer at the start of `input`.
    pub fn new(input: &str) -> (lexer: Self)
        ensures
            lexer.wf(),
            lexer.source() == input@,
            lexer.cursor() == 0,
    {
        let mut chars: Vec<char> = Vec::new();
        for c in it: input.chars()
            invariant
                it.seq() == input@,
                chars@ == input@.subrange(0, it.index()),
        {
            chars.push(c);
        }
        assert(chars@ =~= input@);
        let ch: char = if 0 < chars.len() {
            chars[0]
        } else {
            END_OF_INPUT
        };
        Lexer { input: input.to_owned(), chars, position: 0, ch }
    }

    /// Scans one token: skips whitespace, reads the token that follows and
    /// leaves the cursor right behind it. The token's literal is the very
    /// stretch of the source that was read. At the end of the text the token
    /// is `Eof`, as often as it is asked for.
    pub fn next_token(&mut self) -> (token: Token)
        requires
            old(self).wf(),
        ensures
            final(self).wf(),
            final(self).source() == old(self).source(),
            token@ == scan(old(self).source(), old(self).cursor()).token,
            final(self).cursor() == scan(old(self).source(), old(self).cursor()).end,
    {
        self.skip_whitespaces();
        if self.position >= self.chars.len() {
            return Token { token_type: TokenType::Eof, literal: String::new() };
        }
        let start: usize = self.position;
        let token_char: char = self.ch;
        let token_type: TokenType = if token_char == '=' {
            if self.peek_char() == '=' {
                self.read_char();
                TokenType::Equals
            } else {
                TokenType::Assign
            }
        } else if token_char == ';' {
            TokenType::Semicolon
        } else if token_char == '(' {
            TokenType::LParen
        } else if token_char == ')' {
            TokenType::RParen
        } else if token_char == ',' {
            TokenType::Comma
        } else if token_char == '+' {
            TokenType::Plus
        } else if token_char == '{' {
            TokenType::LBrace
        } else if token_char == '}' {
            TokenType::RBrace
        } else if token_char == '-' {
            TokenType::Minus
        } else if token_char == '/' {
            TokenType::Slash
        } else if token_char == '!' {
            if self.peek_char() == '=' {
                self.read_char();
                TokenType::NotEquals
            } else {
                TokenType::Bang
            }
        } else if token_char == '*' {
            TokenType::Asterisk
        } else if token_char == '<' {
            TokenType::Lt
        } else if token_char == '>' {
            TokenType::Gt
        } else if is_letter(token_char) {
            return self.read_identifier();
        } else if is_digit(token_char) {
            return Token { token_type: TokenType::Int, literal: self.read_number() };
        } else {
            TokenType::Illegal
        };
        self.read_char();
        Token { token_type, literal: self.text(start, self.position) }
    }

    /// Moves the cursor one character on, unless it is at the end.
    fn read_char(&mut self)
        requires
            old(self).wf(),
        ensures
            final(self).wf(),
            final(self).source() == old(self).source(),
            final(self).cursor() == if old(self).cursor() < old(self).source().len() {
                old(self).cursor() + 1
            } else {
                old(self).cursor()
            },
    {
        if self.position < self.chars.len() {
            self.position += 1;
        }
        self.ch = if self.position < self.chars.len() {
            self.chars[self.position]
        } else {
            END_OF_INPUT
        };
    }

    /// Reads the maximal run of letters under the cursor and tells a keyword
    /// from an identifier by the whole run.
    fn read_identifier(&mut self) -> (token: Token)
        requires
            old(self).wf(),
        ensures
            final(self).wf(),
            final(self).source() == old(self).source(),
            final(self).cursor() == run_end(
                old(self).source(),
                old(self).cursor(),
                CharClass::Letter,
            ),
            token.literal@ == old(self).source().subrange(
                old(self).cursor() as int,
                final(self).cursor() as int,
            ),
            token.token_type == keyword_kind(token.literal@),
    {
        let position: usize = self.position;
        self.read_run(CharClass::Letter);
        let literal = self.text(position, self.position);
        let token_type: TokenType = lookup_ident(literal.as_str());
        Token { token_type, literal }
    }

    /// Reads the maximal run of digits under the cursor.
    fn read_number(&mut self) -> (literal: String)
        requires
            old(self).wf(),
        ensures
            final(self).wf(),
            final(self).source() == old(self).source(),
            final(self).cursor() == run_end(
                old(self).source(),
                old(self).cursor(),
                CharClass::Digit,
            ),
            literal@ == old(self).source().subrange(
                old(self).cursor() as int,
                final(self).cursor() as int,
            ),
    {
        let position: usize = self.position;
        self.read_run(CharClass::Digit);
        self.text(position, self.position)
    }

    /// The character behind the one under the cursor, or `END_OF_INPUT`.
    fn peek_char(&self) -> (c: char)
        requires
            self.wf(),
        ensures
            c == if self.cursor() + 1 < self.source().len() {
                self.source()[self.cursor() as int + 1]
            } else {
                END_OF_INPUT
            },
    {
        if self.position < self.chars.len() && self.position + 1 < self.chars.len() {
            self.chars[self.position + 1]
        } else {
            END_OF_INPUT
        }
    }

    /// Moves the cursor behind the whitespace under it.
    fn skip_whitespaces(&mut self)
        requires
            old(self).wf(),
        ensures
            final(self).wf(),
            final(self).source() == old(self).source(),
            final(self).cursor() == run_end(
                old(self).source(),
                old(self).cursor(),
                CharClass::Whitespace,
            ),
    {
        self.read_run(CharClass::Whitespace);
    }

    /// Moves the cursor to the end of the run of `class` characters under it.
    fn read_run(&mut self, class: CharClass)
        requires
            old(self).wf(),
        ensures
            final(self).wf(),
            final(self).source() == old(self).source(),
            final(self).cursor() == run_end(old(self).source(), old(self).cursor(), class),
            old(self).cursor() <= final(self).cursor() <= old(self).source().len(),
    {
        while self.position < self.chars.len() && Self::belongs(self.ch, &class)
            invariant
                self.wf(),
                self.source() == old(self).source(),
                old(self).cursor() <= self.cursor() <= self.source().len(),
                forall|i: int|
                    old(self).cursor() <= i < self.cursor() ==> in_class(
                        #[trigger] self.source()[i],
                        class,
                    ),
            decreases self.chars.len() - self.position,
        {
            self.read_char();
        }
        proof {
            lemma_run_end_from_inside(self.source(), old(self).cursor(), self.cursor(), class);
        }
    }

    /// Whether `c` is of `class`.
    fn belongs(c: char, class: &CharClass) -> (b: bool)
        ensures
            b == in_class(c, *class),
    {
        match class {
            CharClass::Whitespace => c == ' ' || c == '\t' || c == '\n' || c == '\r',
            CharClass::Letter => is_letter(c),
            CharClass::Digit => is_digit(c),
        }
    }

    /// The source text from `start` to `end`, as a string of its own.
    fn text(&self, start: usize, end: usize) -> (literal: String)
        requires
            self.wf(),
            start <= end <= self.source().len(),
        ensures
            literal@ == self.source().subrange(start as int, end as int),
    {
        self.input.as_str().substring_char(start, end).to_owned()
    }
}

/// The tokens of a sequence, each in contracts.
pub open spec fn token_views(tokens: Seq<Token>) -> Seq<TokenView> {
    Seq::new(tokens.len(), |i: int| tokens[i]@)
}

/// All tokens of `input` in source order, up to its end: the closing `Eof`
/// is left out.
pub fn tokenize(input: &str) -> (tokens: Vec<Token>)
    ensures
        token_views(tokens@) == tokens_from(input@, 0).drop_last(),
{
    let mut lexer = Lexer::new(input);
    let mut tokens: Vec<Token> = Vec::new();
    let ghost mut pos: nat = 0;
    let mut token = lexer.next_token();
    while token.token_type != TokenType::Eof
        invariant
            lexer.wf(),
            lexer.source() == input@,
            pos <= input@.len(),
            token@ == scan(input@, pos).token,
            lexer.cursor() == scan(input@, pos).end,
            token_views(tokens@) + tokens_from(input@, pos) == tokens_from(input@, 0),
        decreases input@.len() - pos,
    {
        proof {
            lemma_scan_reads_source(input@, pos);
        }
        let ghost before = token_views(tokens@);
        let ghost rest = tokens_from(input@, lexer.cursor());
        tokens.push(token);
        proof {
            assert(before + (seq![scan(input@, pos).token] + rest) =~= token_views(tokens@)
                + rest);
            pos = lexer.cursor();
        }
        token = lexer.next_token();
    }
    tokens
}

} // verus!
