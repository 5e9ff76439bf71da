//! The grammar as a mathematical model: what the parser makes of a
//! sequence of tokens.
//!
//! A position in a token sequence is the index of the parser's current
//! token; the token behind it is the lookahead. Behind the end of the
//! sequence every token is `Eof`. Each production says what it yields and
//! how many tokens it moves the position on, also where it fails.
use crate::numeral::integer_value;
use crate::scan::eof_token;
use crate::statements::{ExprView, IdentifierView, StatementView};
use crate::token::{kind_name, TokenType, TokenView};
use vstd::prelude::*;

verus! {

/// The precedence of what binds least: the level a whole expression is
/// parsed at.
pub const LOWEST: u8 = 1;

/// The precedence of `==` and `!=`.
pub const EQUALS: u8 = 2;

/// The precedence of `<` and `>`.
pub const LESSGREATER: u8 = 3;

/// The precedence of `+` and `-` between two operands.
pub const SUM: u8 = 4;

/// The precedence of `*` and `/`.
pub const PRODUCT: u8 = 5;

/// The precedence of the unary operators `!` and `-`.
pub const PREFIX: u8 = 6;

/// The precedence kept for calls, which have no production yet.
pub const CALL: u8 = 7;

/// The binding power of a token as a binary operator. A token that is
/// none binds at `LOWEST`.
pub open spec fn precedence_of(kind: TokenType) -> u8 {
    match kind {
        TokenType::Equals => EQUALS,
        TokenType::NotEquals => EQUALS,
        TokenType::Lt => LESSGREATER,
        TokenType::Gt => LESSGREATER,
        TokenType::Plus => SUM,
        TokenType::Minus => SUM,
        TokenType::Slash => PRODUCT,
        TokenType::Asterisk => PRODUCT,
        _ => LOWEST,
    }
}

/// The tokens that have an infix production: the eight binary operators.
pub open spec fn has_infix(kind: TokenType) -> bool {
    match kind {
        TokenType::Plus => true,
        TokenType::Minus => true,
        TokenType::Slash => true,
        TokenType::Asterisk => true,
        TokenType::Equals => true,
        TokenType::NotEquals => true,
        TokenType::Lt => true,
        TokenType::Gt => true,
        _ => false,
    }
}

/// The token at position `i`; `Eof` behind the end.
pub open spec fn token_at(tokens: Seq<TokenView>, i: nat) -> TokenView {
    if i < tokens.len() {
        tokens[i as int]
    } else {
        eof_token()
    }
}

/// How many tokens stand at or behind position `i`.
pub open spec fn remaining(tokens: Seq<TokenView>, i: nat) -> nat {
    if i < tokens.len() {
        (tokens.len() - i) as nat
    } else {
        0
    }
}

/// The message for a token that was expected and not found.
pub open spec fn expected_message(kind: TokenType, found: Seq<char>) -> Seq<char> {
    "Expected "@ + kind_name(kind) + ", found "@ + found
}

/// The message for a token that starts no expression.
pub open spec fn no_prefix_message(token: TokenView) -> Seq<char> {
    "No prefix production for "@ + kind_name(token.kind) + ", found "@ + token.literal
}

/// The message for a token that is no binary operator.
pub open spec fn no_infix_message(token: TokenView) -> Seq<char> {
    "No infix production for "@ + kind_name(token.kind) + ", found "@ + token.literal
}

/// The message for an integer literal that has no value.
pub open spec fn integer_message(literal: Seq<char>) -> Seq<char> {
    "Could not parse "@ + literal + " as an integer"@
}

/// What a production of the expression grammar yields: the expression, or
/// the message of the defect where it fails, and the number of tokens it
/// moved on.
pub ghost struct Parsed {
    pub result: Result<ExprView, Seq<char>>,
    pub consumed: nat,
}

/// The prefix production for the token at `i`.
///
/// An integer literal and a boolean literal are leaves. `!` and `-` take
/// the expression behind them at `PREFIX` precedence as their operand. `(`
/// takes the expression behind it at `LOWEST` precedence, wants `)` behind
/// that and moves onto it; the parentheses leave no node. Every other
/// token has no prefix production.
///
/// Each failure has its message: an integer literal without a value, a
/// token without a prefix production, and a group that no `)` closes, which
/// names the `RParen` that was expected and the literal found in its place.
/// Where an operand or the inside of a group fails, its defect is handed on.
pub open spec fn prefix_spec(tokens: Seq<TokenView>, i: nat) -> Parsed
    decreases remaining(tokens, i), 0nat,
{
    let cur = token_at(tokens, i);
    match cur.kind {
        TokenType::Int => Parsed {
            result: match integer_value(cur.literal) {
                Some(value) => Ok(ExprView::Integer(cur, value)),
                None => Err(integer_message(cur.literal)),
            },
            consumed: 0,
        },
        TokenType::Bang | TokenType::Minus => {
            let operand = parse_expression_spec(tokens, i + 1, PREFIX);
            Parsed {
                result: match operand.result {
                    Ok(e) => Ok(ExprView::Prefix(cur, cur.literal, Box::new(e))),
                    Err(message) => Err(message),
                },
                consumed: 1 + operand.consumed,
            }
        },
        TokenType::True | TokenType::False => Parsed {
            result: Ok(ExprView::Boolean(cur, cur.kind == TokenType::True)),
            consumed: 0,
        },
        TokenType::LParen => {
            let inner = parse_expression_spec(tokens, i + 1, LOWEST);
            let closing = token_at(tokens, i + 1 + inner.consumed + 1);
            if closing.kind == TokenType::RParen {
                Parsed { result: inner.result, consumed: 1 + inner.consumed + 1 }
            } else {
                Parsed {
                    result: match inner.result {
                        Ok(_) => Err(expected_message(TokenType::RParen, closing.literal)),
                        Err(message) => Err(message),
                    },
                    consumed: 1 + inner.consumed,
                }
            }
        },
        _ => Parsed { result: Err(no_prefix_message(cur)), consumed: 0 },
    }
}

/// Precedence climbing from position `i`, where the last token of `left`
/// stands: as long as the lookahead is no semicolon, binds more tightly
/// than `precedence` and is a binary operator, the operator and the
/// expression behind it, parsed at the operator's own precedence, are folded
/// into `left`. Operators of equal precedence thus bind to the left. Where
/// a right operand fails, its defect is handed on.
pub open spec fn climb_spec(
    tokens: Seq<TokenView>,
    i: nat,
    left: ExprView,
    precedence: u8,
) -> Parsed
    decreases remaining(tokens, i), 1nat,
{
    let operator = token_at(tokens, i + 1);
    if operator.kind != TokenType::Semicolon && precedence < precedence_of(operator.kind)
        && has_infix(operator.kind) {
        let right = parse_expression_spec(tokens, i + 2, precedence_of(operator.kind));
        match right.result {
            Ok(r) => {
                let folded = ExprView::Infix(
                    operator,
                    Box::new(left),
                    operator.literal,
                    Box::new(r),
                );
                let rest = climb_spec(tokens, i + 2 + right.consumed, folded, precedence);
                Parsed { result: rest.result, consumed: 2 + right.consumed + rest.consumed }
            },
            Err(message) => Parsed { result: Err(message), consumed: 2 + right.consumed },
        }
    } else {
        Parsed { result: Ok(left), consumed: 0 }
    }
}

/// The expression that starts at `i` and binds more tightly than
/// `precedence`: the prefix production for the token at `i`, then
/// precedence climbing. It fails where a production in it fails, with the
/// message of that production.
pub open spec fn parse_expression_spec(tokens: Seq<TokenView>, i: nat, precedence: u8) -> Parsed
    decreases remaining(tokens, i), 2nat,
{
    let prefix = prefix_spec(tokens, i);
    match prefix.result {
        Ok(left) => {
            let rest = climb_spec(tokens, i + prefix.consumed, left, precedence);
            Parsed { result: rest.result, consumed: prefix.consumed + rest.consumed }
        },
        Err(_) => prefix,
    }
}

/// The infix production for the token in the lookahead of `i`: where it
/// is a binary operator, the operator and the expression behind it, parsed
/// at the operator's precedence, with `left` as the left operand. Every
/// other token has no infix production, and nothing is read.
pub open spec fn infix_spec(tokens: Seq<TokenView>, i: nat, left: ExprView) -> Parsed {
    let operator = token_at(tokens, i + 1);
    if has_infix(operator.kind) {
        let right = parse_expression_spec(tokens, i + 2, precedence_of(operator.kind));
        Parsed {
            result: match right.result {
                Ok(r) => Ok(
                    ExprView::Infix(operator, Box::new(left), operator.literal, Box::new(r)),
                ),
                Err(message) => Err(message),
            },
            consumed: 2 + right.consumed,
        }
    } else {
        Parsed { result: Err(no_infix_message(operator)), consumed: 0 }
    }
}

/// How many tokens lie between position `i` and the next semicolon at or
/// behind it, or the end of the tokens where no semicolon follows.
pub open spec fn distance_to_semicolon(tokens: Seq<TokenView>, i: nat) -> nat
    decreases remaining(tokens, i),
{
    let cur = token_at(tokens, i);
    if cur.kind == TokenType::Semicolon || cur.kind == TokenType::Eof {
        0
    } else {
        1 + distance_to_semicolon(tokens, i + 1)
    }
}

/// What a statement production yields: the statement or the message of
/// the defect, and the number of tokens it moved on.
pub ghost struct ParsedStatement {
    pub result: Result<StatementView, Seq<char>>,
    pub consumed: nat,
}

/// `let`, then an identifier, then `=`; what follows up to the next
/// semicolon is passed over, and the statement's value is the placeholder.
pub open spec fn let_statement_spec(tokens: Seq<TokenView>, i: nat) -> ParsedStatement {
    let name = token_at(tokens, i + 1);
    let assign = token_at(tokens, i + 2);
    if name.kind != TokenType::Ident {
        ParsedStatement {
            result: Err(expected_message(TokenType::Ident, name.literal)),
            consumed: 0,
        }
    } else if assign.kind != TokenType::Assign {
        ParsedStatement {
            result: Err(expected_message(TokenType::Assign, assign.literal)),
            consumed: 1,
        }
    } else {
        ParsedStatement {
            result: Ok(
                StatementView::Let(
                    token_at(tokens, i),
                    IdentifierView { token: name, value: name.literal },
                    ExprView::Placeholder,
                ),
            ),
            consumed: 2 + distance_to_semicolon(tokens, i + 2),
        }
    }
}

/// `return`; what follows up to the next semicolon is passed over, and the
/// statement's value is the placeholder.
pub open spec fn return_statement_spec(tokens: Seq<TokenView>, i: nat) -> ParsedStatement {
    ParsedStatement {
        result: Ok(StatementView::Return(token_at(tokens, i), ExprView::Placeholder)),
        consumed: 1 + distance_to_semicolon(tokens, i + 1),
    }
}

/// One expression at `LOWEST` precedence; a semicolon behind it belongs to
/// the statement, and need not be there. Where the expression fails, the
/// statement is a defect, with the message of the production that failed.
pub open spec fn expression_statement_spec(tokens: Seq<TokenView>, i: nat) -> ParsedStatement {
    let parsed = parse_expression_spec(tokens, i, LOWEST);
    let end = i + parsed.consumed;
    let semicolon: nat = if token_at(tokens, end + 1).kind == TokenType::Semicolon {
        1
    } else {
        0
    };
    ParsedStatement {
        result: match parsed.result {
            Ok(e) => Ok(StatementView::Expression(token_at(tokens, i), e)),
            Err(message) => Err(message),
        },
        consumed: parsed.consumed + semicolon,
    }
}

/// The statement that starts at `i`: `let` and `return` start statements
/// of their own, every other token starts an expression statement.
pub open spec fn statement_spec(tokens: Seq<TokenView>, i: nat) -> ParsedStatement {
    match token_at(tokens, i).kind {
        TokenType::Let => let_statement_spec(tokens, i),
        TokenType::Return => return_statement_spec(tokens, i),
        _ => expression_statement_spec(tokens, i),
    }
}

/// What parsing yields from a position on: the statements that parsed and
/// the messages of those that did not, each in source order, and the number
/// of tokens passed.
pub ghost struct ParsedProgram {
    pub statements: Seq<StatementView>,
    pub errors: Seq<Seq<char>>,
    pub consumed: nat,
}

/// Statement after statement up to `Eof`. A statement that fails leaves
/// its message in place of a statement; either way parsing goes on one
/// token behind where the statement's production stopped.
pub open spec fn program_spec(tokens: Seq<TokenView>, i: nat) -> ParsedProgram
    decreases remaining(tokens, i),
{
    if token_at(tokens, i).kind == TokenType::Eof {
        ParsedProgram { statements: Seq::empty(), errors: Seq::empty(), consumed: 0 }
    } else {
        let first = statement_spec(tokens, i);
        let rest = program_spec(tokens, i + first.consumed + 1);
        ParsedProgram {
            statements: match first.result {
                Ok(statement) => seq![statement] + rest.statements,
                Err(_) => rest.statements,
            },
            errors: match first.result {
                Ok(_) => rest.errors,
                Err(message) => seq![message] + rest.errors,
            },
            consumed: first.consumed + 1 + rest.consumed,
        }
    }
}

/// A statement carries the token that it starts with, and the name of a
/// `let` statement is an identifier whose value is the literal of its token.
pub proof fn lemma_statement_starts_with_its_token(tokens: Seq<TokenView>, i: nat)
    ensures
        statement_spec(tokens, i).result matches Ok(statement) ==> statement.token() == token_at(
            tokens,
            i,
        ),
        statement_spec(tokens, i).result matches Ok(StatementView::Let(_, name, _))
            ==> name.token.kind == TokenType::Ident && name.value == name.token.literal,
{
}

/// A `let` that no identifier and `=` follow is reported, whatever else
/// the text holds: the first defect from there on names the token that was
/// wanted and the literal that was found in its place.
pub proof fn lemma_malformed_let_is_reported(tokens: Seq<TokenView>, i: nat)
    requires
        token_at(tokens, i).kind == TokenType::Let,
        token_at(tokens, i + 1).kind != TokenType::Ident || token_at(tokens, i + 2).kind
            != TokenType::Assign,
    ensures
        program_spec(tokens, i).errors.len() > 0,
        program_spec(tokens, i).errors[0] == if token_at(tokens, i + 1).kind
            != TokenType::Ident {
            expected_message(TokenType::Ident, token_at(tokens, i + 1).literal)
        } else {
            expected_message(TokenType::Assign, token_at(tokens, i + 2).literal)
        },
{
}

/// A group that no `)` closes is reported, whatever stands inside it and
/// behind it: where the expression inside parses and the token behind it is
/// no `)`, the group fails with the message that `RParen` was expected and
/// which literal was found in its place. Where the group starts a statement,
/// that message is the first defect from there on.
pub proof fn lemma_unclosed_group_is_reported(tokens: Seq<TokenView>, i: nat)
    requires
        token_at(tokens, i).kind == TokenType::LParen,
        parse_expression_spec(tokens, i + 1, LOWEST).result is Ok,
        token_at(
            tokens,
            i + 1 + parse_expression_spec(tokens, i + 1, LOWEST).consumed + 1,
        ).kind != TokenType::RParen,
    ensures
        prefix_spec(tokens, i).result == Err::<ExprView, Seq<char>>(
            expected_message(
                TokenType::RParen,
                token_at(
                    tokens,
                    i + 1 + parse_expression_spec(tokens, i + 1, LOWEST).consumed + 1,
                ).literal,
            ),
        ),
        program_spec(tokens, i).errors.len() > 0,
        program_spec(tokens, i).errors[0] == expected_message(
            TokenType::RParen,
            token_at(
                tokens,
                i + 1 + parse_expression_spec(tokens, i + 1, LOWEST).consumed + 1,
            ).literal,
        ),
{
}

/// A statement that fails leaves exactly its message among the defects,
/// and a statement that parses leaves none: the first statement from `i` on
/// is the first of the program, or its message the first of the defects.
pub proof fn lemma_each_defect_is_recorded(tokens: Seq<TokenView>, i: nat)
    requires
        token_at(tokens, i).kind != TokenType::Eof,
    ensures
        statement_spec(tokens, i).result matches Err(message) ==> program_spec(
            tokens,
            i,
        ).errors.len() > 0 && program_spec(tokens, i).errors[0] == message,
        statement_spec(tokens, i).result matches Ok(statement) ==> program_spec(
            tokens,
            i,
        ).statements.len() > 0 && program_spec(tokens, i).statements[0] == statement,
{
}

/// Parsing is total and comes to the end of the tokens: whatever they
/// are, there is a program, and behind what was parsed stands `Eof`. Each
/// statement that was started is in the program or among the defects.
pub proof fn lemma_parsing_ends_at_eof(tokens: Seq<TokenView>, i: nat)
    ensures
        token_at(tokens, i + program_spec(tokens, i).consumed).kind == TokenType::Eof,
        program_spec(tokens, i).statements.len() + program_spec(tokens, i).errors.len()
            <= remaining(tokens, i),
    decreases remaining(tokens, i),
{
    if token_at(tokens, i).kind != TokenType::Eof {
        let first = statement_spec(tokens, i);
        lemma_parsing_ends_at_eof(tokens, i + first.consumed + 1);
    }
}

} // verus!
