//! Precedence and associativity, of every expression that the grammar yields.
//!
//! An operand never binds looser than its operator, and a right operand
//! always binds tighter: `1 + 2 * 3` is `1 + (2 * 3)`, and `1 - 2 - 3` is
//! `(1 - 2) - 3`. Only an expression in parentheses, an argument of a call
//! or the value of an assignment can be of any kind.

use crate::expression::SpecExpression;
use crate::grammar::{
    arguments, assignment, call, call_arguments, call_rest, expect, expression, grouping, infix,
    infix_rest,
    is_at, is_type, left, operand, primary, unary, Level, Step,
};
use crate::lexer::{Token, TokenType};
use crate::parser::Error;
use vstd::prelude::*;

verus! {

/// How loosely an operator binds: 0 binds tightest.
pub open spec fn operator_looseness(type_: TokenType) -> int {
    match type_ {
        TokenType::Or => 5,
        TokenType::And => 4,
        TokenType::BangEqual | TokenType::EqualEqual => 3,
        TokenType::Greater | TokenType::GreaterEqual | TokenType::Less | TokenType::LessEqual => 2,
        TokenType::Minus | TokenType::Plus => 1,
        _ => 0,
    }
}

/// How loosely an expression binds: an assignment loosest, then the binary
/// operators from `or` to `*`, then the unary operators, then calls, and
/// tightest what is one token or stands in parentheses.
pub open spec fn looseness(expression: SpecExpression) -> int {
    match expression {
        SpecExpression::Assignment { .. } => 6,
        SpecExpression::Logical { operator, .. } => operator_looseness(operator.type_),
        SpecExpression::Binary { operator, .. } => operator_looseness(operator.type_),
        SpecExpression::Unary { .. } => -1,
        SpecExpression::Call { .. } => -2,
        _ => -3,
    }
}

/// Whether every operator in the expression has operands that bind as its
/// place asks: the left operand of a binary operator no looser than the
/// operator, the right one tighter, the operand of a unary operator no
/// looser than a unary operator, and what is called no looser than a call.
pub open spec fn well_nested(expression: SpecExpression) -> bool
    decreases expression,
{
    match expression {
        SpecExpression::Assignment { value, .. } => well_nested(*value),
        SpecExpression::Logical { left, right, .. } => {
            &&& well_nested(*left)
            &&& well_nested(*right)
            &&& looseness(*left) <= looseness(expression)
            &&& looseness(*right) < looseness(expression)
        },
        SpecExpression::Binary { left, right, .. } => {
            &&& well_nested(*left)
            &&& well_nested(*right)
            &&& looseness(*left) <= looseness(expression)
            &&& looseness(*right) < looseness(expression)
        },
        SpecExpression::Unary { right, .. } => well_nested(*right) && looseness(*right) <= -1,
        SpecExpression::Call { callee, arguments, .. } => {
            &&& well_nested(*callee)
            &&& looseness(*callee) <= -2
            &&& forall|i: int| 0 <= i < arguments.len() ==> well_nested(#[trigger] arguments[i])
        },
        SpecExpression::Grouping { expression } => well_nested(*expression),
        _ => true,
    }
}

/// An expression that is well nested and binds no looser than `bound`.
pub open spec fn fits(value: Option<SpecExpression>, bound: int) -> bool {
    match value {
        Some(expression) => well_nested(expression) && looseness(expression) <= bound,
        None => true,
    }
}

/// The operators of a level bind as loosely as the level says.
pub proof fn lemma_operator_level(level: Level, type_: TokenType)
    requires
        level.operators().contains(type_),
    ensures
        operator_looseness(type_) == level.looseness(),
{
    let operators = level.operators();
    let i = choose|i: int| 0 <= i < operators.len() && operators[i] == type_;
    assert(operators[i] == type_);
}

pub proof fn lemma_primary(tokens: Seq<Token>, at: int, errors: Seq<Error>)
    ensures
        fits(primary(tokens, at, errors).value, -3),
    decreases left(tokens, at), 7nat,
{
    if is_type(tokens, at, TokenType::LeftParen) {
        lemma_grouping(tokens, at + 1, errors);
    }
}

pub proof fn lemma_grouping(tokens: Seq<Token>, at: int, errors: Seq<Error>)
    ensures
        fits(grouping(tokens, at, errors).value, -3),
    decreases left(tokens, at), 28nat,
{
    lemma_expression(tokens, at, errors);
}

pub proof fn lemma_call(tokens: Seq<Token>, at: int, errors: Seq<Error>)
    ensures
        fits(call(tokens, at, errors).value, -2),
    decreases left(tokens, at), 9nat,
{
    lemma_primary(tokens, at, errors);
    let callee = primary(tokens, at, errors);
    if callee.value is Some {
        lemma_call_rest(tokens, at + callee.used, callee.errors, callee.value->0);
    }
}

pub proof fn lemma_call_rest(
    tokens: Seq<Token>,
    at: int,
    errors: Seq<Error>,
    callee: SpecExpression,
)
    requires
        fits(Some(callee), -2),
    ensures
        fits(call_rest(tokens, at, errors, callee).value, -2),
    decreases left(tokens, at), 8nat,
{
    if is_type(tokens, at, TokenType::LeftParen) {
        lemma_call_arguments(tokens, at + 1, errors, callee);
        let called = call_arguments(tokens, at + 1, errors, callee);
        if called.value is Some {
            lemma_call_rest(tokens, at + 1 + called.used, called.errors, called.value->0);
        }
    }
}

pub proof fn lemma_call_arguments(
    tokens: Seq<Token>,
    at: int,
    errors: Seq<Error>,
    callee: SpecExpression,
)
    requires
        fits(Some(callee), -2),
    ensures
        fits(call_arguments(tokens, at, errors, callee).value, -2),
    decreases left(tokens, at), 34nat,
{
    let list = if is_type(tokens, at, TokenType::RightParen) {
        Step { value: Some(Seq::empty()), used: 0, errors }
    } else {
        lemma_arguments(tokens, at, errors, callee, Seq::empty());
        arguments(tokens, at, errors, callee, Seq::empty())
    };
    if list.value is Some {
        let closing = expect(tokens, at + list.used, list.errors, TokenType::RightParen);
        if closing.value is Some {
            let called = SpecExpression::Call {
                callee: Box::new(callee),
                closing_paren: closing.value->0,
                arguments: list.value->0,
            };
            assert(well_nested(called));
            assert(call_arguments(tokens, at, errors, callee).value == Some(called));
        } else {
            assert(call_arguments(tokens, at, errors, callee).value is None);
        }
    } else {
        assert(call_arguments(tokens, at, errors, callee).value is None);
    }
}

pub proof fn lemma_arguments(
    tokens: Seq<Token>,
    at: int,
    errors: Seq<Error>,
    callee: SpecExpression,
    found: Seq<SpecExpression>,
)
    requires
        forall|i: int| 0 <= i < found.len() ==> well_nested(#[trigger] found[i]),
    ensures
        arguments(tokens, at, errors, callee, found).value matches Some(list) ==> forall|i: int|
            0 <= i < list.len() ==> well_nested(#[trigger] list[i]),
    decreases left(tokens, at), 33nat,
{
    lemma_expression(tokens, at, errors);
    let argument = expression(tokens, at, errors);
    if argument.value is Some {
        let list = found.push(argument.value->0);
        if list.len() <= crate::grammar::MAX_ARGUMENTS && is_type(
            tokens,
            at + argument.used,
            TokenType::Comma,
        ) {
            lemma_arguments(tokens, at + argument.used + 1, argument.errors, callee, list);
        }
    }
}

pub proof fn lemma_unary(tokens: Seq<Token>, at: int, errors: Seq<Error>)
    ensures
        fits(unary(tokens, at, errors).value, -1),
    decreases left(tokens, at), 10nat,
{
    if is_at(tokens, at, seq![TokenType::Bang, TokenType::Minus]) {
        lemma_unary(tokens, at + 1, errors);
    } else {
        lemma_call(tokens, at, errors);
    }
}

pub proof fn lemma_operand(tokens: Seq<Token>, at: int, errors: Seq<Error>, level: Level)
    ensures
        fits(operand(tokens, at, errors, level).value, level.looseness() - 1),
    decreases left(tokens, at), 11 + 2 * level.looseness(),
{
    if level == Level::Factor {
        lemma_unary(tokens, at, errors);
    } else {
        lemma_infix(tokens, at, errors, level.tighter());
    }
}

pub proof fn lemma_infix(tokens: Seq<Token>, at: int, errors: Seq<Error>, level: Level)
    ensures
        fits(infix(tokens, at, errors, level).value, level.looseness() as int),
    decreases left(tokens, at), 12 + 2 * level.looseness(),
{
    lemma_operand(tokens, at, errors, level);
    let first = operand(tokens, at, errors, level);
    if first.value is Some {
        lemma_infix_rest(tokens, at + first.used, first.errors, level, first.value->0);
    }
}

pub proof fn lemma_infix_rest(
    tokens: Seq<Token>,
    at: int,
    errors: Seq<Error>,
    level: Level,
    first: SpecExpression,
)
    requires
        fits(Some(first), level.looseness() as int),
    ensures
        fits(infix_rest(tokens, at, errors, level, first).value, level.looseness() as int),
    decreases left(tokens, at), 11 + 2 * level.looseness(),
{
    if is_at(tokens, at, level.operators()) {
        lemma_operand(tokens, at + 1, errors, level);
        let right = operand(tokens, at + 1, errors, level);
        if right.value is Some {
            lemma_operator_level(level, tokens[at].type_);
            let joined = level.join(first, right.value->0, tokens[at]);
            assert(fits(Some(joined), level.looseness() as int));
            lemma_infix_rest(tokens, at + 1 + right.used, right.errors, level, joined);
        }
    }
}

pub proof fn lemma_assignment(tokens: Seq<Token>, at: int, errors: Seq<Error>)
    ensures
        fits(assignment(tokens, at, errors).value, 6),
    decreases left(tokens, at), 26nat,
{
    lemma_infix(tokens, at, errors, Level::Or);
    let target = infix(tokens, at, errors, Level::Or);
    if target.value is Some && is_type(tokens, at + target.used, TokenType::Equal) {
        lemma_assignment(tokens, at + target.used + 1, target.errors);
    }
}

/// Every expression that parses is well nested.
pub proof fn lemma_expression(tokens: Seq<Token>, at: int, errors: Seq<Error>)
    ensures
        fits(expression(tokens, at, errors).value, 6),
    decreases left(tokens, at), 27nat,
{
    lemma_assignment(tokens, at, errors);
}

} // verus!
