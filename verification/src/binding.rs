//! How operators bind: precedence, associativity, grouping and unary
//! operators, stated for every operator and every operand.
use crate::grammar::{
    climb_spec, has_infix, parse_expression_spec, precedence_of, prefix_spec, token_at, Parsed,
    LOWEST,
};
use crate::numeral::integer_value;
use crate::statements::ExprView;
use crate::token::{TokenType, TokenView};
use vstd::prelude::*;

verus! {

/// A token that is an expression by itself: a boolean literal, or an
/// integer literal that has a value.
pub open spec fn is_operand(token: TokenView) -> bool {
    token.kind == TokenType::True || token.kind == TokenType::False || (token.kind
        == TokenType::Int && integer_value(token.literal) is Some)
}

/// The expression that an operand token is.
pub open spec fn operand(token: TokenView) -> ExprView {
    if token.kind == TokenType::Int {
        ExprView::Integer(token, integer_value(token.literal)->0)
    } else {
        ExprView::Boolean(token, token.kind == TokenType::True)
    }
}

/// `left operator right` as a tree.
pub open spec fn binary(operator: TokenView, left: ExprView, right: ExprView) -> ExprView {
    ExprView::Infix(operator, Box::new(left), operator.literal, Box::new(right))
}

/// `operator operand` as a tree.
pub open spec fn unary(operator: TokenView, operand: ExprView) -> ExprView {
    ExprView::Prefix(operator, operator.literal, Box::new(operand))
}

/// An operand alone is the expression that it is.
pub proof fn lemma_operand_alone(tokens: Seq<TokenView>, i: nat, precedence: u8)
    requires
        is_operand(token_at(tokens, i)),
        !has_infix(token_at(tokens, i + 1).kind),
    ensures
        parse_expression_spec(tokens, i, precedence) == (Parsed {
            result: Ok(operand(token_at(tokens, i))),
            consumed: 0,
        }),
{
    reveal_with_fuel(parse_expression_spec, 2);
    reveal_with_fuel(prefix_spec, 2);
    reveal_with_fuel(climb_spec, 2);
}

/// In `a op1 b op2 c` the operator that binds more tightly takes `b`: where
/// `op2` has the higher precedence, the tree is `a op1 (b op2 c)`; where it
/// has not, also where both have the same, it is `(a op1 b) op2 c`. So a
/// product stands under a sum, and operators of one precedence lean to the
/// left.
pub proof fn lemma_tighter_operator_binds_first(tokens: Seq<TokenView>, i: nat)
    requires
        is_operand(token_at(tokens, i)),
        has_infix(token_at(tokens, i + 1).kind),
        is_operand(token_at(tokens, i + 2)),
        has_infix(token_at(tokens, i + 3).kind),
        is_operand(token_at(tokens, i + 4)),
        !has_infix(token_at(tokens, i + 5).kind),
    ensures
        parse_expression_spec(tokens, i, LOWEST) == (Parsed {
            result: Ok(
                if precedence_of(token_at(tokens, i + 1).kind) < precedence_of(
                    token_at(tokens, i + 3).kind,
                ) {
                    binary(
                        token_at(tokens, i + 1),
                        operand(token_at(tokens, i)),
                        binary(
                            token_at(tokens, i + 3),
                            operand(token_at(tokens, i + 2)),
                            operand(token_at(tokens, i + 4)),
                        ),
                    )
                } else {
                    binary(
                        token_at(tokens, i + 3),
                        binary(
                            token_at(tokens, i + 1),
                            operand(token_at(tokens, i)),
                            operand(token_at(tokens, i + 2)),
                        ),
                        operand(token_at(tokens, i + 4)),
                    )
                },
            ),
            consumed: 4,
        }),
{
    let first = token_at(tokens, i + 1);
    let second = token_at(tokens, i + 3);
    reveal_with_fuel(parse_expression_spec, 3);
    reveal_with_fuel(prefix_spec, 3);
    reveal_with_fuel(climb_spec, 3);
    lemma_operand_alone(tokens, i + 4, precedence_of(second.kind));
    if precedence_of(first.kind) < precedence_of(second.kind) {
        let inner = binary(second, operand(token_at(tokens, i + 2)), operand(token_at(tokens, i + 4)));
        assert(climb_spec(tokens, i + 4, inner, precedence_of(first.kind)) == (Parsed {
            result: Ok(inner),
            consumed: 0,
        }));
        assert(parse_expression_spec(tokens, i + 2, precedence_of(first.kind)) == (Parsed {
            result: Ok(inner),
            consumed: 2,
        }));
    } else {
        assert(parse_expression_spec(tokens, i + 2, precedence_of(first.kind)) == (Parsed {
            result: Ok(operand(token_at(tokens, i + 2))),
            consumed: 0,
        }));
    }
}

/// In `( a op1 b ) op2 c` the parentheses decide: the tree is
/// `(a op1 b) op2 c` whatever the two operators are, and the parentheses
/// themselves leave no node.
pub proof fn lemma_grouping_overrides_precedence(tokens: Seq<TokenView>, i: nat)
    requires
        token_at(tokens, i).kind == TokenType::LParen,
        is_operand(token_at(tokens, i + 1)),
        has_infix(token_at(tokens, i + 2).kind),
        is_operand(token_at(tokens, i + 3)),
        token_at(tokens, i + 4).kind == TokenType::RParen,
        has_infix(token_at(tokens, i + 5).kind),
        is_operand(token_at(tokens, i + 6)),
        !has_infix(token_at(tokens, i + 7).kind),
    ensures
        parse_expression_spec(tokens, i, LOWEST) == (Parsed {
            result: Ok(
                binary(
                    token_at(tokens, i + 5),
                    binary(
                        token_at(tokens, i + 2),
                        operand(token_at(tokens, i + 1)),
                        operand(token_at(tokens, i + 3)),
                    ),
                    operand(token_at(tokens, i + 6)),
                ),
            ),
            consumed: 6,
        }),
{
    let first = token_at(tokens, i + 2);
    let second = token_at(tokens, i + 5);
    reveal_with_fuel(parse_expression_spec, 3);
    reveal_with_fuel(prefix_spec, 3);
    reveal_with_fuel(climb_spec, 3);
    lemma_operand_alone(tokens, i + 3, precedence_of(first.kind));
    lemma_operand_alone(tokens, i + 6, precedence_of(second.kind));
    let group = binary(first, operand(token_at(tokens, i + 1)), operand(token_at(tokens, i + 3)));
    assert(parse_expression_spec(tokens, i + 1, LOWEST) == (Parsed {
        result: Ok(group),
        consumed: 2,
    }));
}

/// In `op a op2 b`, with `op` one of `!` and `-`, the unary operator takes
/// `a` alone: the tree is `(op a) op2 b` whatever the binary operator is.
pub proof fn lemma_prefix_binds_tighter_than_infix(tokens: Seq<TokenView>, i: nat)
    requires
        token_at(tokens, i).kind == TokenType::Bang || token_at(tokens, i).kind
            == TokenType::Minus,
        is_operand(token_at(tokens, i + 1)),
        has_infix(token_at(tokens, i + 2).kind),
        is_operand(token_at(tokens, i + 3)),
        !has_infix(token_at(tokens, i + 4).kind),
    ensures
        parse_expression_spec(tokens, i, LOWEST) == (Parsed {
            result: Ok(
                binary(
                    token_at(tokens, i + 2),
                    unary(token_at(tokens, i), operand(token_at(tokens, i + 1))),
                    operand(token_at(tokens, i + 3)),
                ),
            ),
            consumed: 3,
        }),
{
    let second = token_at(tokens, i + 2);
    reveal_with_fuel(parse_expression_spec, 3);
    reveal_with_fuel(prefix_spec, 3);
    reveal_with_fuel(climb_spec, 3);
    lemma_operand_alone(tokens, i + 3, precedence_of(second.kind));
    let negated = unary(token_at(tokens, i), operand(token_at(tokens, i + 1)));
    assert(parse_expression_spec(tokens, i + 1, crate::grammar::PREFIX) == (Parsed {
        result: Ok(operand(token_at(tokens, i + 1))),
        consumed: 0,
    }));
}

} // verus!
