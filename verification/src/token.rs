//! Lexical categories and the token value.
use vstd::prelude::*;

verus! {

/// The closed set of lexical categories.
#[derive(Debug, Clone, Copy, PartialEq, Eq, Structural)]
pub enum TokenType {
    Illegal,
    Eof,
    Ident,
    Int,
    Assign,
    Plus,
    Minus,
    Bang,
    Asterisk,
    Slash,
    Lt,
    Gt,
    Equals,
    NotEquals,
    Comma,
    Semicolon,
    LParen,
    RParen,
    LBrace,
    RBrace,
    Function,
    Let,
    True,
    False,
    If,
    Else,
    Return,
}

/// The name of a kind, as messages show it.
pub open spec fn kind_name(kind: TokenType) -> Seq<char> {
    match kind {
        TokenType::Illegal => "Illegal"@,
        TokenType::Eof => "Eof"@,
        TokenType::Ident => "Ident"@,
        TokenType::Int => "Int"@,
        TokenType::Assign => "Assign"@,
        TokenType::Plus => "Plus"@,
        TokenType::Minus => "Minus"@,
        TokenType::Bang => "Bang"@,
        TokenType::Asterisk => "Asterisk"@,
        TokenType::Slash => "Slash"@,
        TokenType::Lt => "Lt"@,
        TokenType::Gt => "Gt"@,
        TokenType::Equals => "Equals"@,
        TokenType::NotEquals => "NotEquals"@,
        TokenType::Comma => "Comma"@,
        TokenType::Semicolon => "Semicolon"@,
        TokenType::LParen => "LParen"@,
        TokenType::RParen => "RParen"@,
        TokenType::LBrace => "LBrace"@,
        TokenType::RBrace => "RBrace"@,
        TokenType::Function => "Function"@,
        TokenType::Let => "Let"@,
        TokenType::True => "True"@,
        TokenType::False => "False"@,
        TokenType::If => "If"@,
        TokenType::Else => "Else"@,
        TokenType::Return => "Return"@,
    }
}

impl TokenType {
    /// The name of the kind, as messages show it.
    pub fn name(self) -> (name: &'static str)
        ensures
            name@ == kind_name(self),
    {
        match self {
            TokenType::Illegal => "Illegal",
            TokenType::Eof => "Eof",
            TokenType::Ident => "Ident",
            TokenType::Int => "Int",
            TokenType::Assign => "Assign",
            TokenType::Plus => "Plus",
            TokenType::Minus => "Minus",
            TokenType::Bang => "Bang",
            TokenType::Asterisk => "Asterisk",
            TokenType::Slash => "Slash",
            TokenType::Lt => "Lt",
            TokenType::Gt => "Gt",
            TokenType::Equals => "Equals",
            TokenType::NotEquals => "NotEquals",
            TokenType::Comma => "Comma",
            TokenType::Semicolon => "Semicolon",
            TokenType::LParen => "LParen",
            TokenType::RParen => "RParen",
            TokenType::LBrace => "LBrace",
            TokenType::RBrace => "RBrace",
            TokenType::Function => "Function",
            TokenType::Let => "Let",
            TokenType::True => "True",
            TokenType::False => "False",
            TokenType::If => "If",
            TokenType::Else => "Else",
            TokenType::Return => "Return",
        }
    }
}

/// What a token is in contracts: its kind and the characters of its literal.
pub ghost struct TokenView {
    pub kind: TokenType,
    pub literal: Seq<char>,
}

/// A token: its kind and the exact source text that produced it.
#[derive(Debug, PartialEq)]
pub struct Token {
    pub token_type: TokenType,
    pub literal: String,
}

impl View for Token {
    type V = TokenView;

    open spec fn view(&self) -> TokenView {
        TokenView { kind: self.token_type, literal: self.literal@ }
    }
}

impl Clone for Token {
    fn clone(&self) -> (res: Self)
        ensures
            res == *self,
    {
        Token { token_type: self.token_type, literal: self.literal.clone() }
    }
}

/// The kind of a maximal run of letters: one of the seven keywords where
/// the run is exactly that keyword, an identifier otherwise.
pub open spec fn keyword_kind(word: Seq<char>) -> TokenType {
    if word == "fn"@ {
        TokenType::Function
    } else if word == "let"@ {
        TokenType::Let
    } else if word == "return"@ {
        TokenType::Return
    } else if word == "true"@ {
        TokenType::True
    } else if word == "false"@ {
        TokenType::False
    } else if word == "if"@ {
        TokenType::If
    } else if word == "else"@ {
        TokenType::Else
    } else {
        TokenType::Ident
    }
}

/// Whether `word` is one of the seven keywords.
pub open spec fn is_keyword(word: Seq<char>) -> bool {
    word == "fn"@ || word == "let"@ || word == "return"@ || word == "true"@ || word == "false"@
        || word == "if"@ || word == "else"@
}

/// Keywords are recognised by exact match only: each keyword kind stands
/// for its one spelling, letter for letter; every other word is an
/// identifier; and a keyword with anything behind it is an identifier again.
pub proof fn lemma_keywords_match_exactly(word: Seq<char>, more: Seq<char>)
    ensures
        keyword_kind(word) == TokenType::Function <==> word == "fn"@,
        keyword_kind(word) == TokenType::Let <==> word == "let"@,
        keyword_kind(word) == TokenType::Return <==> word == "return"@,
        keyword_kind(word) == TokenType::True <==> word == "true"@,
        keyword_kind(word) == TokenType::False <==> word == "false"@,
        keyword_kind(word) == TokenType::If <==> word == "if"@,
        keyword_kind(word) == TokenType::Else <==> word == "else"@,
        keyword_kind(word) == TokenType::Ident <==> !is_keyword(word),
        is_keyword(word) && more.len() > 0 ==> keyword_kind(word + more) == TokenType::Ident,
{
    reveal_strlit("fn");
    reveal_strlit("let");
    reveal_strlit("return");
    reveal_strlit("true");
    reveal_strlit("false");
    reveal_strlit("if");
    reveal_strlit("else");
    assert("fn"@[0] == 'f' && "if"@[0] == 'i');
    assert("true"@[0] == 't' && "else"@[0] == 'e');
    if is_keyword(word) && more.len() > 0 {
        let longer = word + more;
        assert(longer[0] == word[0]);
        assert(longer[1] == word[1]);
    }
}

/// Whether `word`, of `n` characters, is spelled as `keyword` is.
fn spells(word: &str, n: usize, keyword: &str) -> (b: bool)
    requires
        n == word@.len(),
    ensures
        b == (word@ == keyword@),
{
    let k: usize = keyword.unicode_len();
    if n != k {
        return false;
    }
    let mut i: usize = 0;
    while i < k
        invariant
            k == keyword@.len(),
            k == word@.len(),
            i <= k,
            forall|j: int| 0 <= j < i ==> word@[j] == keyword@[j],
        decreases k - i,
    {
        if word.get_char(i) != keyword.get_char(i) {
            return false;
        }
        i += 1;
    }
    assert(word@ =~= keyword@);
    true
}

/// The kind of a word: the keyword that it is, letter for letter and with
/// nothing before or behind, or `Ident` for every other word.
pub fn lookup_ident(word: &str) -> (kind: TokenType)
    ensures
        kind == keyword_kind(word@),
        kind == TokenType::Function <==> word@ == "fn"@,
        kind == TokenType::Let <==> word@ == "let"@,
        kind == TokenType::Return <==> word@ == "return"@,
        kind == TokenType::True <==> word@ == "true"@,
        kind == TokenType::False <==> word@ == "false"@,
        kind == TokenType::If <==> word@ == "if"@,
        kind == TokenType::Else <==> word@ == "else"@,
        kind == TokenType::Ident <==> !is_keyword(word@),
{
    proof {
        lemma_keywords_match_exactly(word@, Seq::empty());
    }
    let n: usize = word.unicode_len();
    if spells(word, n, "fn") {
        TokenType::Function
    } else if spells(word, n, "let") {
        TokenType::Let
    } else if spells(word, n, "return") {
        TokenType::Return
    } else if spells(word, n, "true") {
        TokenType::True
    } else if spells(word, n, "false") {
        TokenType::False
    } else if spells(word, n, "if") {
        TokenType::If
    } else if spells(word, n, "else") {
        TokenType::Else
    } else {
        TokenType::Ident
    }
}

} // verus!
