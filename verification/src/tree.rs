//! What holds of every tree that the expression grammar yields: it is
//! faithful to its tokens, and it keeps them all, in their order.
use crate::grammar::{
    climb_spec, expression_statement_spec, has_infix, parse_expression_spec, precedence_of,
    prefix_spec, remaining, token_at, LOWEST, PREFIX,
};
use crate::numeral::integer_value;
use crate::statements::{ExprView, StatementView};
use crate::token::{TokenType, TokenView};
use vstd::prelude::*;

verus! {

/// Every node is what its token says: an integer has the value of its
/// literal, a boolean is `true` exactly for the token `true`, and an
/// operator node carries the literal of its operator token. A faithful tree
/// holds no placeholder.
pub open spec fn faithful(expr: ExprView) -> bool
    decreases expr,
{
    match expr {
        ExprView::Placeholder => false,
        ExprView::Integer(token, value) => token.kind == TokenType::Int && integer_value(
            token.literal,
        ) == Some(value),
        ExprView::Boolean(token, value) => (token.kind == TokenType::True || token.kind
            == TokenType::False) && value == (token.kind == TokenType::True),
        ExprView::Prefix(token, operator, operand) => (token.kind == TokenType::Bang || token.kind
            == TokenType::Minus) && operator == token.literal && faithful(*operand),
        ExprView::Infix(token, left, operator, right) => has_infix(token.kind) && operator
            == token.literal && faithful(*left) && faithful(*right),
    }
}

/// The tokens of a tree, read from left to right.
pub open spec fn flatten(expr: ExprView) -> Seq<TokenView>
    decreases expr,
{
    match expr {
        ExprView::Placeholder => Seq::empty(),
        ExprView::Integer(token, _) => seq![token],
        ExprView::Boolean(token, _) => seq![token],
        ExprView::Prefix(token, _, operand) => seq![token] + flatten(*operand),
        ExprView::Infix(token, left, _, right) => flatten(*left) + seq![token] + flatten(*right),
    }
}

/// Whether a token is `(` or `)`.
pub open spec fn is_parenthesis(token: TokenView) -> bool {
    token.kind == TokenType::LParen || token.kind == TokenType::RParen
}

/// A sequence of tokens with its parentheses taken out.
pub open spec fn without_parentheses(tokens: Seq<TokenView>) -> Seq<TokenView>
    decreases tokens.len(),
{
    if tokens.len() == 0 {
        Seq::empty()
    } else if is_parenthesis(tokens.last()) {
        without_parentheses(tokens.drop_last())
    } else {
        without_parentheses(tokens.drop_last()).push(tokens.last())
    }
}

/// Taking the parentheses out of two sequences in a row is taking them
/// out of each.
pub proof fn lemma_without_parentheses_of_two(a: Seq<TokenView>, b: Seq<TokenView>)
    ensures
        without_parentheses(a + b) == without_parentheses(a) + without_parentheses(b),
    decreases b.len(),
{
    if b.len() > 0 {
        lemma_without_parentheses_of_two(a, b.drop_last());
        assert((a + b).drop_last() =~= a + b.drop_last());
        if !is_parenthesis(b.last()) {
            assert((without_parentheses(a) + without_parentheses(b.drop_last())).push(b.last())
                =~= without_parentheses(a) + without_parentheses(b.drop_last()).push(b.last()));
        }
    }
}

/// Taking the parentheses out of one token leaves it, or nothing.
pub proof fn lemma_without_parentheses_of_one(token: TokenView)
    ensures
        without_parentheses(seq![token]) == if is_parenthesis(token) {
            Seq::<TokenView>::empty()
        } else {
            seq![token]
        },
{
    assert(without_parentheses(seq![token].drop_last()) =~= Seq::<TokenView>::empty());
}

/// `expr` is faithful and is made of the tokens from `first` to `last`,
/// the parentheses among them aside.
pub open spec fn keeps(tokens: Seq<TokenView>, first: nat, last: nat, expr: ExprView) -> bool {
    &&& first <= last < tokens.len()
    &&& faithful(expr)
    &&& flatten(expr) == without_parentheses(tokens.subrange(first as int, last as int + 1))
}

/// The tokens from `first` to `last` are those up to `mid` and those
/// behind it.
proof fn lemma_split(tokens: Seq<TokenView>, first: nat, mid: nat, last: nat)
    requires
        first <= mid <= last + 1 <= tokens.len(),
    ensures
        without_parentheses(tokens.subrange(first as int, last as int + 1)) == without_parentheses(
            tokens.subrange(first as int, mid as int),
        ) + without_parentheses(tokens.subrange(mid as int, last as int + 1)),
{
    assert(tokens.subrange(first as int, last as int + 1) =~= tokens.subrange(first as int, mid as int)
        + tokens.subrange(mid as int, last as int + 1));
    lemma_without_parentheses_of_two(
        tokens.subrange(first as int, mid as int),
        tokens.subrange(mid as int, last as int + 1),
    );
}

/// The one token at `at`, with the parentheses taken out.
proof fn lemma_single(tokens: Seq<TokenView>, at: nat)
    requires
        at < tokens.len(),
    ensures
        without_parentheses(tokens.subrange(at as int, at as int + 1)) == if is_parenthesis(
            tokens[at as int],
        ) {
            Seq::<TokenView>::empty()
        } else {
            seq![tokens[at as int]]
        },
{
    assert(tokens.subrange(at as int, at as int + 1) =~= seq![tokens[at as int]]);
    lemma_without_parentheses_of_one(tokens[at as int]);
}

/// What a prefix production yields keeps the tokens that it read.
pub proof fn lemma_prefix_keeps_its_tokens(tokens: Seq<TokenView>, i: nat)
    ensures
        prefix_spec(tokens, i).result matches Ok(expr) ==> keeps(
            tokens,
            i,
            i + prefix_spec(tokens, i).consumed,
            expr,
        ),
    decreases remaining(tokens, i), 0nat,
{
    let cur = token_at(tokens, i);
    match cur.kind {
        TokenType::Int | TokenType::True | TokenType::False => {
            lemma_single(tokens, i);
        },
        TokenType::Bang | TokenType::Minus => {
            let operand = parse_expression_spec(tokens, i + 1, PREFIX);
            lemma_expression_keeps_its_tokens(tokens, i + 1, PREFIX);
            if operand.result is Ok {
                lemma_single(tokens, i);
                lemma_split(tokens, i, i + 1, i + 1 + operand.consumed);
            }
        },
        TokenType::LParen => {
            let inner = parse_expression_spec(tokens, i + 1, LOWEST);
            lemma_expression_keeps_its_tokens(tokens, i + 1, LOWEST);
            let close = i + 1 + inner.consumed + 1;
            if inner.result is Ok && token_at(tokens, close).kind == TokenType::RParen {
                lemma_single(tokens, i);
                lemma_single(tokens, close);
                lemma_split(tokens, i, i + 1, close);
                lemma_split(tokens, i + 1, close, close);
                assert(Seq::<TokenView>::empty() + flatten(inner.result->Ok_0) + Seq::<
                    TokenView,
                >::empty() =~= flatten(inner.result->Ok_0));
            }
        },
        _ => {},
    }
}

/// Precedence climbing keeps the tokens of the operand that it starts
/// with and those that it reads.
pub proof fn lemma_climb_keeps_its_tokens(
    tokens: Seq<TokenView>,
    first: nat,
    i: nat,
    left: ExprView,
    precedence: u8,
)
    requires
        keeps(tokens, first, i, left),
    ensures
        climb_spec(tokens, i, left, precedence).result matches Ok(expr) ==> keeps(
            tokens,
            first,
            i + climb_spec(tokens, i, left, precedence).consumed,
            expr,
        ),
    decreases remaining(tokens, i), 1nat,
{
    let operator = token_at(tokens, i + 1);
    if operator.kind != TokenType::Semicolon && precedence < precedence_of(operator.kind)
        && has_infix(operator.kind) {
        let right = parse_expression_spec(tokens, i + 2, precedence_of(operator.kind));
        lemma_expression_keeps_its_tokens(tokens, i + 2, precedence_of(operator.kind));
        if right.result is Ok {
            let last = i + 2 + right.consumed;
            let folded = ExprView::Infix(
                operator,
                Box::new(left),
                operator.literal,
                Box::new(right.result->Ok_0),
            );
            lemma_single(tokens, i + 1);
            lemma_split(tokens, first, i + 1, last);
            lemma_split(tokens, i + 1, i + 2, last);
            assert(flatten(folded) =~= flatten(left) + (seq![operator] + flatten(right.result->Ok_0)));
            lemma_climb_keeps_its_tokens(tokens, first, last, folded, precedence);
        }
    }
}

/// Every expression that is parsed is faithful to its tokens and keeps
/// them: read from left to right, the tree holds the tokens from its first
/// to its last, each once and in their order, without the parentheses.
/// Nothing is dropped, doubled or moved.
pub proof fn lemma_expression_keeps_its_tokens(tokens: Seq<TokenView>, i: nat, precedence: u8)
    ensures
        parse_expression_spec(tokens, i, precedence).result matches Ok(expr) ==> keeps(
            tokens,
            i,
            i + parse_expression_spec(tokens, i, precedence).consumed,
            expr,
        ),
    decreases remaining(tokens, i), 2nat,
{
    let prefix = prefix_spec(tokens, i);
    lemma_prefix_keeps_its_tokens(tokens, i);
    if prefix.result is Ok {
        lemma_climb_keeps_its_tokens(tokens, i, i + prefix.consumed, prefix.result->Ok_0, precedence);
    }
}

/// The expression of an expression statement is never the placeholder:
/// it is faithful to the tokens of the statement and keeps them, and the
/// statement carries the first of them.
pub proof fn lemma_expression_statement_keeps_its_tokens(tokens: Seq<TokenView>, i: nat)
    ensures
        expression_statement_spec(tokens, i).result matches Ok(
            StatementView::Expression(first, expr),
        ) ==> first == token_at(tokens, i) && keeps(
            tokens,
            i,
            i + parse_expression_spec(tokens, i, LOWEST).consumed,
            expr,
        ),
{
    lemma_expression_keeps_its_tokens(tokens, i, LOWEST);
}

} // verus!
