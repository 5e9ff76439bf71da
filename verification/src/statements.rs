//! Statements and expressions: the nodes of the syntax tree.
use crate::token::{Token, TokenView};
use vstd::prelude::*;

verus! {

/// A statement, with the first token that was read for it.
#[derive(Debug, PartialEq)]
pub enum Statements {
    Let(Token, Identifier, Expressions),
    Return(Token, Expressions),
    Expression(Token, Expressions),
}

/// An expression. Each composite expression owns its operands.
/// `Variant1` stands where a production yields no expression yet.
#[derive(Debug, PartialEq)]
pub enum Expressions {
    Variant1,
    IntegerLiteral(Token, usize),
    PrefixExpression(Token, String, Box<Expressions>),
    InfixExpression(Token, Box<Expressions>, String, Box<Expressions>),
    BooleanExpression(Token, bool),
}

/// A name, with the token that spelled it.
#[derive(Debug, PartialEq)]
pub struct Identifier {
    pub token: Token,
    pub value: String,
}

impl Clone for Expressions {
    fn clone(&self) -> (res: Self)
        ensures
            res == *self,
        decreases self,
    {
        match self {
            Expressions::Variant1 => Expressions::Variant1,
            Expressions::IntegerLiteral(token, value) => Expressions::IntegerLiteral(
                token.clone(),
                *value,
            ),
            Expressions::PrefixExpression(token, operator, operand) => {
                Expressions::PrefixExpression(
                    token.clone(),
                    operator.clone(),
                    Box::new((**operand).clone()),
                )
            },
            Expressions::InfixExpression(token, left, operator, right) => {
                Expressions::InfixExpression(
                    token.clone(),
                    Box::new((**left).clone()),
                    operator.clone(),
                    Box::new((**right).clone()),
                )
            },
            Expressions::BooleanExpression(token, value) => Expressions::BooleanExpression(
                token.clone(),
                *value,
            ),
        }
    }
}

impl Clone for Identifier {
    fn clone(&self) -> (res: Self)
        ensures
            res == *self,
    {
        Identifier { token: self.token.clone(), value: self.value.clone() }
    }
}

impl Clone for Statements {
    fn clone(&self) -> (res: Self)
        ensures
            res == *self,
    {
        match self {
            Statements::Let(token, name, value) => Statements::Let(
                token.clone(),
                name.clone(),
                value.clone(),
            ),
            Statements::Return(token, value) => Statements::Return(token.clone(), value.clone()),
            Statements::Expression(token, value) => Statements::Expression(
                token.clone(),
                value.clone(),
            ),
        }
    }
}

/// An expression in contracts.
pub ghost enum ExprView {
    Placeholder,
    Integer(TokenView, nat),
    Prefix(TokenView, Seq<char>, Box<ExprView>),
    Infix(TokenView, Box<ExprView>, Seq<char>, Box<ExprView>),
    Boolean(TokenView, bool),
}

/// An identifier in contracts.
pub ghost struct IdentifierView {
    pub token: TokenView,
    pub value: Seq<char>,
}

/// A statement in contracts.
pub ghost enum StatementView {
    Let(TokenView, IdentifierView, ExprView),
    Return(TokenView, ExprView),
    Expression(TokenView, ExprView),
}

impl View for Expressions {
    type V = ExprView;

    open spec fn view(&self) -> ExprView
        decreases self,
    {
        match self {
            Expressions::Variant1 => ExprView::Placeholder,
            Expressions::IntegerLiteral(token, value) => ExprView::Integer(token@, *value as nat),
            Expressions::PrefixExpression(token, operator, operand) => ExprView::Prefix(
                token@,
                operator@,
                Box::new((**operand).view()),
            ),
            Expressions::InfixExpression(token, left, operator, right) => ExprView::Infix(
                token@,
                Box::new((**left).view()),
                operator@,
                Box::new((**right).view()),
            ),
            Expressions::BooleanExpression(token, value) => ExprView::Boolean(token@, *value),
        }
    }
}

impl View for Identifier {
    type V = IdentifierView;

    open spec fn view(&self) -> IdentifierView {
        IdentifierView { token: self.token@, value: self.value@ }
    }
}

impl View for Statements {
    type V = StatementView;

    open spec fn view(&self) -> StatementView {
        match self {
            Statements::Let(token, name, value) => StatementView::Let(token@, name@, value@),
            Statements::Return(token, value) => StatementView::Return(token@, value@),
            Statements::Expression(token, value) => StatementView::Expression(token@, value@),
        }
    }
}

/// The statements of a sequence, each in contracts.
pub open spec fn statements_of(statements: Seq<Statements>) -> Seq<StatementView> {
    Seq::new(statements.len(), |i: int| statements[i]@)
}

impl ExprView {
    /// The token that the expression was read from, where it has one.
    pub open spec fn token(self) -> Option<TokenView> {
        match self {
            ExprView::Placeholder => None,
            ExprView::Integer(token, _) => Some(token),
            ExprView::Prefix(token, _, _) => Some(token),
            ExprView::Infix(token, _, _, _) => Some(token),
            ExprView::Boolean(token, _) => Some(token),
        }
    }
}

impl StatementView {
    /// The first token of the statement.
    pub open spec fn token(self) -> TokenView {
        match self {
            StatementView::Let(token, _, _) => token,
            StatementView::Return(token, _) => token,
            StatementView::Expression(token, _) => token,
        }
    }
}

impl Identifier {
    /// An identifier's value is the literal of its token.
    pub open spec fn wf(&self) -> bool {
        self.value@ == self.token.literal@
    }
}

/// What every node of the tree offers: the literal of the token that
/// stands for it.
pub trait Node {
    /// Whether the node has a token. Only the placeholder expression has none.
    spec fn has_token(&self) -> bool;

    /// The literal of the node's token.
    spec fn literal(&self) -> Seq<char>;

    fn token_literal(&self) -> (literal: String)
        requires
            self.has_token(),
        ensures
            literal@ == self.literal(),
    ;
}

impl Node for Statements {
    open spec fn has_token(&self) -> bool {
        true
    }

    open spec fn literal(&self) -> Seq<char> {
        self@.token().literal
    }

    fn token_literal(&self) -> (literal: String) {
        match self {
            Statements::Let(token, _, _) => token.literal.clone(),
            Statements::Return(token, _) => token.literal.clone(),
            Statements::Expression(token, _) => token.literal.clone(),
        }
    }
}

impl Node for Expressions {
    open spec fn has_token(&self) -> bool {
        self@.token() is Some
    }

    open spec fn literal(&self) -> Seq<char> {
        self@.token()->0.literal
    }

    fn token_literal(&self) -> (literal: String) {
        match self {
            Expressions::Variant1 => String::new(),
            Expressions::IntegerLiteral(token, _) => token.literal.clone(),
            Expressions::PrefixExpression(token, _, _) => token.literal.clone(),
            Expressions::InfixExpression(token, _, _, _) => token.literal.clone(),
            Expressions::BooleanExpression(token, _) => token.literal.clone(),
        }
    }
}

impl Node for Identifier {
    open spec fn has_token(&self) -> bool {
        true
    }

    open spec fn literal(&self) -> Seq<char> {
        self.token.literal@
    }

    fn token_literal(&self) -> (literal: String) {
        self.token.literal.clone()
    }
}

} // verus!
