//! The parser: builds statements top-down and expressions by precedence
//! climbing, and collects defects instead of stopping at the first.
use crate::ast::Programm;
use crate::error::ParsingError;
use crate::grammar::{
    climb_spec, distance_to_semicolon, expected_message, expression_statement_spec, has_infix,
    infix_spec, integer_message, let_statement_spec, parse_expression_spec, precedence_of,
    prefix_spec, program_spec, remaining, return_statement_spec, statement_spec, token_at,
    Parsed, ParsedStatement, EQUALS, LESSGREATER, LOWEST, PREFIX, PRODUCT, SUM,
};
use crate::lexer::Lexer;
use crate::numeral::{integer_value, parse_integer};
use crate::scan::{
    eof_token, lemma_eof_is_stable, lemma_scan_reads_source, lemma_tokens_end_with_eof, scan,
    tokens_from,
};
use crate::statements::{
    statements_of, ExprView, Expressions, Identifier, StatementView, Statements,
};
use crate::token::{Token, TokenType, TokenView};
use vstd::prelude::*;

verus! {

/// The binding power of a token as a binary operator.
pub fn get_precedences(token_type: TokenType) -> (precedence: u8)
    ensures
        precedence == precedence_of(token_type),
{
    match token_type {
        TokenType::Equals => EQUALS,
        TokenType::NotEquals => EQUALS,
        TokenType::Lt => LESSGREATER,
        TokenType::Gt => LESSGREATER,
        TokenType::Plus => SUM,
        TokenType::Minus => SUM,
        TokenType::Slash => PRODUCT,
        TokenType::Asterisk => PRODUCT,
        _ => LOWEST,
    }
}

/// Whether a token has an infix production.
fn has_infix_production(token_type: TokenType) -> (b: bool)
    ensures
        b == has_infix(token_type),
{
    match token_type {
        TokenType::Plus
        | TokenType::Minus
        | TokenType::Slash
        | TokenType::Asterisk
        | TokenType::Equals
        | TokenType::NotEquals
        | TokenType::Lt
        | TokenType::Gt => true,
        _ => false,
    }
}

/// An expression or a defect in contracts.
spec fn expr_view(res: Result<Expressions, ParsingError>) -> Result<ExprView, Seq<char>> {
    match res {
        Ok(e) => Ok(e@),
        Err(e) => Err(e@),
    }
}

/// What a production leaves behind: the parser `after` works on the
/// tokens of `before` and has recorded nothing, it has moved on by as many
/// tokens as `parsed` says, and `result`, the expression or the defect that
/// is handed to the caller, is what `parsed` yields.
spec fn yields(
    before: Parser,
    after: Parser,
    parsed: Parsed,
    result: Result<ExprView, Seq<char>>,
) -> bool {
    &&& after.wf()
    &&& after.tokens() == before.tokens()
    &&& after.messages() == before.messages()
    &&& after.index() == before.index() + parsed.consumed
    &&& result == parsed.result
}

/// A statement or a defect in contracts.
spec fn statement_view(res: Result<Statements, ParsingError>) -> Result<
    StatementView,
    Seq<char>,
> {
    match res {
        Ok(statement) => Ok(statement@),
        Err(e) => Err(e@),
    }
}

/// What a statement production leaves behind: the parser `after` works on
/// the tokens of `before` and has recorded nothing, it has moved on by as
/// many tokens as `parsed` says, and `result` is what `parsed` yields.
spec fn produces(
    before: Parser,
    after: Parser,
    parsed: ParsedStatement,
    result: Result<StatementView, Seq<char>>,
) -> bool {
    &&& after.wf()
    &&& after.tokens() == before.tokens()
    &&& after.messages() == before.messages()
    &&& after.index() == before.index() + parsed.consumed
    &&& result == parsed.result
}

/// The messages of a sequence of defects.
pub open spec fn messages_of(errors: Seq<ParsingError>) -> Seq<Seq<char>> {
    Seq::new(errors.len(), |i: int| errors[i]@)
}

/// The tokens from position `k` on, as a lexer that has handed out the
/// first `k` still has them before it.
spec fn upcoming(tokens: Seq<TokenView>, k: nat) -> Seq<TokenView> {
    if k < tokens.len() {
        tokens.skip(k as int)
    } else {
        seq![eof_token()]
    }
}

/// A lexer that still has the tokens from `k` on before it hands out the
/// token at `k` next, and then has those from `k + 1` on before it.
proof fn lemma_scan_step(s: Seq<char>, cursor: nat, tokens: Seq<TokenView>, k: nat)
    requires
        tokens_from(s, cursor) == upcoming(tokens, k),
    ensures
        scan(s, cursor).token == token_at(tokens, k),
        tokens_from(s, scan(s, cursor).end) == upcoming(tokens, k + 1),
{
    let step = scan(s, cursor);
    lemma_scan_reads_source(s, cursor);
    lemma_tokens_end_with_eof(s, step.end);
    if step.token.kind == TokenType::Eof {
        lemma_eof_is_stable(s, cursor);
    } else {
        assert(tokens_from(s, cursor)[0] == step.token);
        assert(tokens.skip(k as int).skip(1) =~= tokens.skip(k as int + 1));
    }
}

/// A parser over the tokens of one lexer, with one token of lookahead.
pub struct Parser {
    /// Where the tokens behind the lookahead come from.
    lexer: Lexer,
    /// The token that parsing stands on.
    cur_token: Token,
    /// The token behind it.
    peek_token: Token,
    /// The defects found so far.
    errors: Vec<ParsingError>,
    /// All tokens that the lexer had to give when the parser was made.
    tokens: Ghost<Seq<TokenView>>,
    /// The position of `cur_token` among them.
    index: Ghost<nat>,
}

impl Parser {
    /// The tokens that the parser works through: those of its lexer, from
    /// where the lexer stood when the parser was made, up to `Eof`.
    pub closed spec fn tokens(&self) -> Seq<TokenView> {
        self.tokens@
    }

    /// The position of the current token in `tokens()`.
    pub closed spec fn index(&self) -> nat {
        self.index@
    }

    /// The messages of the defects found so far, oldest first.
    pub closed spec fn messages(&self) -> Seq<Seq<char>> {
        messages_of(self.errors@)
    }

    /// The parser's invariant: the current token and the lookahead are the
    /// tokens at `index()` and behind it, and the lexer goes on from there.
    pub closed spec fn wf(&self) -> bool {
        &&& self.lexer.wf()
        &&& self.cur_token@ == token_at(self.tokens@, self.index@)
        &&& self.peek_token@ == token_at(self.tokens@, self.index@ + 1)
        &&& tokens_from(self.lexer.source(), self.lexer.cursor()) == upcoming(
            self.tokens@,
            self.index@ + 2,
        )
    }

    /// A parser at the first token that `lexer` has to give.
    pub fn new(lexer: Lexer) -> (parser: Self)
        requires
            lexer.wf(),
        ensures
            parser.wf(),
            parser.tokens() == tokens_from(lexer.source(), lexer.cursor()),
            parser.index() == 0,
            parser.messages() == Seq::<Seq<char>>::empty(),
    {
        let mut lexer = lexer;
        let ghost source = lexer.source();
        let ghost start = lexer.cursor();
        let ghost tokens = tokens_from(source, start);
        proof {
            lemma_tokens_end_with_eof(source, start);
            assert(upcoming(tokens, 0) =~= tokens);
            lemma_scan_step(source, start, tokens, 0);
        }
        let cur_token = lexer.next_token();
        proof {
            lemma_scan_step(source, lexer.cursor(), tokens, 1);
        }
        let peek_token = lexer.next_token();
        let errors: Vec<ParsingError> = Vec::new();
        Parser { lexer, cur_token, peek_token, errors, tokens: Ghost(tokens), index: Ghost(0) }
    }

    /// The defects found so far, oldest first.
    pub fn errors(&self) -> (errors: &Vec<ParsingError>)
        ensures
            messages_of(errors@) == self.messages(),
    {
        &self.errors
    }

    /// Makes the lookahead the current token and takes the next token from
    /// the lexer as the new lookahead.
    fn next_token(&mut self)
        requires
            old(self).wf(),
        ensures
            final(self).wf(),
            final(self).tokens() == old(self).tokens(),
            final(self).messages() == old(self).messages(),
            final(self).index() == old(self).index() + 1,
    {
        proof {
            lemma_scan_step(
                self.lexer.source(),
                self.lexer.cursor(),
                self.tokens@,
                self.index@ + 2,
            );
        }
        self.cur_token = self.peek_token.clone();
        self.peek_token = self.lexer.next_token();
        proof {
            self.index@ = self.index@ + 1;
        }
    }

    /// Whether the current token is of the kind given.
    fn cur_token_is(&self, token_type: TokenType) -> (b: bool)
        ensures
            b == (self.cur_token@.kind == token_type),
    {
        self.cur_token.token_type == token_type
    }

    /// Whether the lookahead is of the kind given.
    fn peek_token_is(&self, token_type: TokenType) -> (b: bool)
        ensures
            b == (self.peek_token@.kind == token_type),
    {
        self.peek_token.token_type == token_type
    }

    /// Moves onto the lookahead if it is of the kind wanted; reports what
    /// was wanted and what was found, and stays, if it is not.
    fn expect_peek(&mut self, token_type: TokenType) -> (res: Result<(), ParsingError>)
        requires
            old(self).wf(),
        ensures
            final(self).wf(),
            final(self).tokens() == old(self).tokens(),
            final(self).messages() == old(self).messages(),
            token_at(old(self).tokens(), old(self).index() + 1).kind == token_type ==> res is Ok
                && final(self).index() == old(self).index() + 1,
            token_at(old(self).tokens(), old(self).index() + 1).kind != token_type ==> res is Err
                && final(self).index() == old(self).index() && res->Err_0@ == expected_message(
                token_type,
                token_at(old(self).tokens(), old(self).index() + 1).literal,
            ),
    {
        if self.peek_token_is(token_type) {
            self.next_token();
            return Ok(());
        }
        let mut message = "Expected ".to_owned();
        message.append(token_type.name());
        message.append(", found ");
        message.append(self.peek_token.literal.as_str());
        Err(ParsingError(message))
    }

    /// The binding power of the lookahead.
    fn peek_precedence(&self) -> (precedence: u8)
        ensures
            precedence == precedence_of(self.peek_token@.kind),
    {
        get_precedences(self.peek_token.token_type)
    }

    /// The binding power of the current token.
    fn cur_precedence(&self) -> (precedence: u8)
        ensures
            precedence == precedence_of(self.cur_token@.kind),
    {
        get_precedences(self.cur_token.token_type)
    }

    /// Parses the expression that starts at the current token and binds
    /// more tightly than `precedence`, and stops on its last token. Where a
    /// production in it fails, the defect of that production is the result.
    fn parse_expression(&mut self, precedence: u8) -> (res: Result<Expressions, ParsingError>)
        requires
            old(self).wf(),
        ensures
            yields(
                *old(self),
                *final(self),
                parse_expression_spec(old(self).tokens(), old(self).index(), precedence),
                expr_view(res),
            ),
        decreases remaining(old(self).tokens(), old(self).index()), 2nat,
    {
        let ghost tokens = self.tokens();
        let ghost start = self.index();
        let prefix = self.prefix_parse();
        let mut left_exp: Expressions = match prefix {
            Ok(exp) => exp,
            Err(e) => {
                return Err(e);
            },
        };
        while !self.peek_token_is(TokenType::Semicolon) && precedence < self.peek_precedence()
            invariant
                self.wf(),
                self.tokens() == tokens,
                self.messages() == old(self).messages(),
                old(self).tokens() == tokens,
                old(self).index() == start,
                self.index() >= start,
                parse_expression_spec(tokens, start, precedence).result == climb_spec(
                    tokens,
                    self.index(),
                    left_exp@,
                    precedence,
                ).result,
                parse_expression_spec(tokens, start, precedence).consumed == self.index() - start
                    + climb_spec(tokens, self.index(), left_exp@, precedence).consumed,
            decreases remaining(tokens, self.index()),
        {
            if !has_infix_production(self.peek_token.token_type) {
                return Ok(left_exp);
            }
            match self.infix_parse(left_exp) {
                Ok(exp) => {
                    left_exp = exp;
                },
                Err(e) => {
                    return Err(e);
                },
            }
        }
        Ok(left_exp)
    }

    /// The current token as an integer literal. A literal that is no
    /// numeral, or whose value does not fit, is a defect.
    fn parse_integer_literal(&self) -> (res: Result<Expressions, ParsingError>)
        requires
            self.wf(),
        ensures
            expr_view(res) == match integer_value(self.cur_token@.literal) {
                Some(value) => Ok::<ExprView, Seq<char>>(
                    ExprView::Integer(self.cur_token@, value),
                ),
                None => Err(integer_message(self.cur_token@.literal)),
            },
    {
        let cur_token = self.cur_token.clone();
        match parse_integer(cur_token.literal.as_str()) {
            Some(value) => Ok(Expressions::IntegerLiteral(cur_token, value)),
            None => {
                let mut message = "Could not parse ".to_owned();
                message.append(cur_token.literal.as_str());
                message.append(" as an integer");
                Err(ParsingError(message))
            },
        }
    }

    /// The current token, `!` or `-`, with the expression behind it as its
    /// operand.
    fn parse_prefix_expression(&mut self) -> (res: Result<Expressions, ParsingError>)
        requires
            old(self).wf(),
            token_at(old(self).tokens(), old(self).index()).kind == TokenType::Bang || token_at(
                old(self).tokens(),
                old(self).index(),
            ).kind == TokenType::Minus,
        ensures
            yields(
                *old(self),
                *final(self),
                prefix_spec(old(self).tokens(), old(self).index()),
                expr_view(res),
            ),
        decreases remaining(old(self).tokens(), old(self).index()), 0nat,
    {
        let cur_token = self.cur_token.clone();
        let operator = cur_token.literal.clone();
        self.next_token();
        match self.parse_expression(PREFIX) {
            Ok(exp) => Ok(Expressions::PrefixExpression(cur_token, operator, Box::new(exp))),
            Err(e) => Err(e),
        }
    }

    /// The current token, `true` or `false`, as a boolean literal.
    fn parse_boolean(&self) -> (res: Result<Expressions, ParsingError>)
        requires
            self.wf(),
        ensures
            expr_view(res) == Ok::<ExprView, Seq<char>>(
                ExprView::Boolean(self.cur_token@, self.cur_token@.kind == TokenType::True),
            ),
    {
        Ok(
            Expressions::BooleanExpression(
                self.cur_token.clone(),
                self.cur_token_is(TokenType::True),
            ),
        )
    }

    /// The expression between the current token, `(`, and the `)` that
    /// has to follow it. Where no `)` follows, the defect that `expect_peek`
    /// reports is handed on, unless the expression inside has failed
    /// before: then its defect is.
    fn parse_grouped_expression(&mut self) -> (res: Result<Expressions, ParsingError>)
        requires
            old(self).wf(),
            token_at(old(self).tokens(), old(self).index()).kind == TokenType::LParen,
        ensures
            yields(
                *old(self),
                *final(self),
                prefix_spec(old(self).tokens(), old(self).index()),
                expr_view(res),
            ),
        decreases remaining(old(self).tokens(), old(self).index()), 0nat,
    {
        self.next_token();
        let exp = self.parse_expression(LOWEST);
        match self.expect_peek(TokenType::RParen) {
            Ok(_) => exp,
            Err(unclosed) => match exp {
                Ok(_) => Err(unclosed),
                Err(inner) => Err(inner),
            },
        }
    }

    /// The prefix production for the current token. A token that has none
    /// is a defect.
    fn prefix_parse(&mut self) -> (res: Result<Expressions, ParsingError>)
        requires
            old(self).wf(),
        ensures
            yields(
                *old(self),
                *final(self),
                prefix_spec(old(self).tokens(), old(self).index()),
                expr_view(res),
            ),
        decreases remaining(old(self).tokens(), old(self).index()), 1nat,
    {
        match self.cur_token.token_type {
            TokenType::Int => self.parse_integer_literal(),
            TokenType::Bang => self.parse_prefix_expression(),
            TokenType::Minus => self.parse_prefix_expression(),
            TokenType::True => self.parse_boolean(),
            TokenType::False => self.parse_boolean(),
            TokenType::LParen => self.parse_grouped_expression(),
            _ => {
                let mut message = "No prefix production for ".to_owned();
                message.append(self.cur_token.token_type.name());
                message.append(", found ");
                message.append(self.cur_token.literal.as_str());
                Err(ParsingError(message))
            },
        }
    }

    /// The operator in the lookahead with `left` as its left operand and
    /// the expression behind it as its right operand.
    fn parse_infix_expression(&mut self, left: Expressions) -> (res: Result<
        Expressions,
        ParsingError,
    >)
        requires
            old(self).wf(),
            has_infix(token_at(old(self).tokens(), old(self).index() + 1).kind),
        ensures
            yields(
                *old(self),
                *final(self),
                infix_spec(old(self).tokens(), old(self).index(), left@),
                expr_view(res),
            ),
        decreases remaining(old(self).tokens(), old(self).index()), 0nat,
    {
        self.next_token();
        let cur_token = self.cur_token.clone();
        let operator = cur_token.literal.clone();
        let cur_precedence = self.cur_precedence();
        self.next_token();
        match self.parse_expression(cur_precedence) {
            Ok(right) => Ok(
                Expressions::InfixExpression(cur_token, Box::new(left), operator, Box::new(right)),
            ),
            Err(e) => Err(e),
        }
    }

    /// The infix production for the lookahead. Where it has none, nothing
    /// is read, and that is a defect.
    fn infix_parse(&mut self, left: Expressions) -> (res: Result<Expressions, ParsingError>)
        requires
            old(self).wf(),
        ensures
            yields(
                *old(self),
                *final(self),
                infix_spec(old(self).tokens(), old(self).index(), left@),
                expr_view(res),
            ),
        decreases remaining(old(self).tokens(), old(self).index()), 1nat,
    {
        match self.peek_token.token_type {
            TokenType::Plus
            | TokenType::Minus
            | TokenType::Slash
            | TokenType::Asterisk
            | TokenType::Equals
            | TokenType::NotEquals
            | TokenType::Lt
            | TokenType::Gt => self.parse_infix_expression(left),
            _ => {
                let mut message = "No infix production for ".to_owned();
                message.append(self.peek_token.token_type.name());
                message.append(", found ");
                message.append(self.peek_token.literal.as_str());
                Err(ParsingError(message))
            },
        }
    }

    /// Parses every statement up to the end of the tokens. A statement
    /// that cannot be parsed leaves a defect in `errors()` and no statement;
    /// parsing goes on behind it. There is always a program.
    pub fn parse_programm(&mut self) -> (res: Option<Programm>)
        requires
            old(self).wf(),
        ensures
            final(self).wf(),
            final(self).tokens() == old(self).tokens(),
            res is Some,
            res->0@ == program_spec(old(self).tokens(), old(self).index()).statements,
            final(self).messages() == old(self).messages() + program_spec(
                old(self).tokens(),
                old(self).index(),
            ).errors,
            final(self).index() == old(self).index() + program_spec(
                old(self).tokens(),
                old(self).index(),
            ).consumed,
            token_at(final(self).tokens(), final(self).index()).kind == TokenType::Eof,
    {
        let ghost tokens = self.tokens();
        let ghost start = self.index();
        let ghost whole = program_spec(tokens, start);
        let mut statements: Vec<Statements> = Vec::new();
        while !self.cur_token_is(TokenType::Eof)
            invariant
                self.wf(),
                self.tokens() == tokens,
                self.index() >= start,
                whole == program_spec(tokens, start),
                whole.statements == statements_of(statements@) + program_spec(
                    tokens,
                    self.index(),
                ).statements,
                old(self).messages() + whole.errors == self.messages() + program_spec(
                    tokens,
                    self.index(),
                ).errors,
                whole.consumed == self.index() - start + program_spec(
                    tokens,
                    self.index(),
                ).consumed,
            decreases remaining(tokens, self.index()),
        {
            let ghost before = self.index();
            let ghost done = statements_of(statements@);
            let ghost found = self.messages();
            let ghost step = statement_spec(tokens, before);
            let ghost rest = program_spec(tokens, before + step.consumed + 1);
            let statement = self.parse_statement();
            match statement {
                Err(e) => {
                    self.errors.push(e);
                    assert(found + (seq![step.result->Err_0] + rest.errors) =~= self.messages()
                        + rest.errors);
                },
                Ok(statement) => {
                    statements.push(statement);
                    assert(done + (seq![step.result->Ok_0] + rest.statements) =~= statements_of(
                        statements@,
                    ) + rest.statements);
                },
            }
            self.next_token();
        }
        Some(Programm { statements })
    }

    /// The statement that starts at the current token.
    fn parse_statement(&mut self) -> (res: Result<Statements, ParsingError>)
        requires
            old(self).wf(),
        ensures
            produces(
                *old(self),
                *final(self),
                statement_spec(old(self).tokens(), old(self).index()),
                statement_view(res),
            ),
    {
        match self.cur_token.token_type {
            TokenType::Let => self.parse_let_statement(),
            TokenType::Return => self.parse_return_statement(),
            _ => self.parse_expression_statement(),
        }
    }

    /// `let`, an identifier and `=`; the rest of the statement is passed
    /// over.
    fn parse_let_statement(&mut self) -> (res: Result<Statements, ParsingError>)
        requires
            old(self).wf(),
        ensures
            produces(
                *old(self),
                *final(self),
                let_statement_spec(old(self).tokens(), old(self).index()),
                statement_view(res),
            ),
            res matches Ok(Statements::Let(_, name, _)) ==> name.wf(),
    {
        let let_token = self.cur_token.clone();
        match self.expect_peek(TokenType::Ident) {
            Err(e) => {
                return Err(e);
            },
            Ok(_) => {},
        }
        let identifier = Identifier {
            token: self.cur_token.clone(),
            value: self.cur_token.literal.clone(),
        };
        match self.expect_peek(TokenType::Assign) {
            Err(e) => {
                return Err(e);
            },
            Ok(_) => {},
        }
        self.skip_to_semicolon();
        Ok(Statements::Let(let_token, identifier, Expressions::Variant1))
    }

    /// `return`; the rest of the statement is passed over.
    fn parse_return_statement(&mut self) -> (res: Result<Statements, ParsingError>)
        requires
            old(self).wf(),
        ensures
            produces(
                *old(self),
                *final(self),
                return_statement_spec(old(self).tokens(), old(self).index()),
                statement_view(res),
            ),
    {
        let cur_token = self.cur_token.clone();
        self.next_token();
        self.skip_to_semicolon();
        Ok(Statements::Return(cur_token, Expressions::Variant1))
    }

    /// One expression, and the semicolon behind it if there is one. Where
    /// the expression fails, its defect is the statement's.
    fn parse_expression_statement(&mut self) -> (res: Result<Statements, ParsingError>)
        requires
            old(self).wf(),
        ensures
            produces(
                *old(self),
                *final(self),
                expression_statement_spec(old(self).tokens(), old(self).index()),
                statement_view(res),
            ),
    {
        let cur_token = self.cur_token.clone();
        let expression = self.parse_expression(LOWEST);
        if self.peek_token_is(TokenType::Semicolon) {
            self.next_token();
        }
        match expression {
            Ok(exp) => Ok(Statements::Expression(cur_token, exp)),
            Err(e) => Err(e),
        }
    }

    /// Moves on until the current token is a semicolon, or the end of the
    /// tokens where no semicolon follows.
    fn skip_to_semicolon(&mut self)
        requires
            old(self).wf(),
        ensures
            final(self).wf(),
            final(self).tokens() == old(self).tokens(),
            final(self).messages() == old(self).messages(),
            final(self).index() == old(self).index() + distance_to_semicolon(
                old(self).tokens(),
                old(self).index(),
            ),
    {
        while !self.cur_token_is(TokenType::Semicolon) && !self.cur_token_is(TokenType::Eof)
            invariant
                self.wf(),
                self.tokens() == old(self).tokens(),
                self.messages() == old(self).messages(),
                self.index() >= old(self).index(),
                distance_to_semicolon(old(self).tokens(), old(self).index()) == self.index() - old(
                    self,
                ).index() + distance_to_semicolon(self.tokens(), self.index()),
            decreases remaining(self.tokens(), self.index()),
        {
            self.next_token();
        }
    }
}

} // verus!
