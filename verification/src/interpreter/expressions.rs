//! How the evaluation of an expression starts.

use super::error::Error;
use crate::text::{lexeme, lexeme_of, literal_text, literal_text_of};
use super::value::Value;
use super::{is_binary, Action, Context, Focus, Frame, Interpreter};
use crate::expression::{
    AssignmentExpression, BinaryExpression, CallExpression, Expression, GroupingExpression,
    LiteralExpression, LogicalExpression, UnaryExpression, VariableExpression,
};
use crate::lexer::TokenType;
use vstd::prelude::*;

verus! {

/// Whether an operator is one of those that a binary expression may have.
pub fn is_binary_operator(operator: TokenType) -> (binary: bool)
    ensures
        binary == is_binary(operator),
{
    match operator {
        TokenType::Plus
        | TokenType::Minus
        | TokenType::Slash
        | TokenType::Star
        | TokenType::BangEqual
        | TokenType::EqualEqual
        | TokenType::Greater
        | TokenType::GreaterEqual
        | TokenType::Less
        | TokenType::LessEqual => true,
        _ => false,
    }
}

/// The machine has stopped with the given error.
pub open spec fn failed<'a>(
    before: Interpreter<'a>,
    after: Interpreter<'a>,
    action: Action,
    error: Error,
) -> bool {
    action == Action::Failed(error) && after.halted(before)
}

/// How the machine evaluates a literal. The text of a string is what stands
/// between its quotes; the host reads the text of a number.
pub open spec fn evaluated_literal<'a>(
    before: Interpreter<'a>,
    literal: LiteralExpression,
    context: Context<'a>,
    after: Interpreter<'a>,
    action: Action,
) -> bool {
    match literal {
        LiteralExpression::String_(token) => {
            &&& action is Continue
            &&& after.environment == before.environment
            &&& after.frames@ == before.frames@
            &&& after.focus matches Focus::Deliver(Value::String(span, text))
            &&& span == token.span
            &&& text@ == literal_text(context.source, token.span)
        },
        LiteralExpression::Number(token) => {
            &&& action matches Action::ParseNumber(text)
            &&& text@ == lexeme(context.source, token.span)
            &&& after.moves(before, before.frames@, Focus::AwaitNumber(token.span))
        },
        LiteralExpression::Boolean(span, value) => {
            &&& action is Continue
            &&& after.moves(before, before.frames@, Focus::Deliver(Value::Boolean(span, value)))
        },
        LiteralExpression::Nil(span) => {
            &&& action is Continue
            &&& after.moves(before, before.frames@, Focus::Deliver(Value::Nil(span)))
        },
    }
}

/// How the machine starts on an expression.
///
/// A literal and a variable yield their value at once. Every other
/// expression first evaluates its first operand, and leaves a frame that
/// says what is to be done with the value. Expressions of the parts of the
/// language that cannot be evaluated fail.
pub open spec fn evaluated<'a>(
    before: Interpreter<'a>,
    expression: &'a Expression,
    context: Context<'a>,
    after: Interpreter<'a>,
    action: Action,
) -> bool {
    match *expression {
        Expression::Literal(literal) => evaluated_literal(before, literal, context, after, action),
        Expression::Grouping(grouping) => {
            &&& action is Continue
            &&& after.moves(before, before.frames@, Focus::Evaluate(&*grouping.expression, context))
        },
        Expression::Variable(variable) => match before.environment.lookup(
            context.scope as int,
            lexeme(context.source, variable.name.span),
        ) {
            Some(value) => {
                &&& action is Continue
                &&& after.moves(before, before.frames@, Focus::Deliver(value))
            },
            None => failed(before, after, action, Error::VariableDoesntExist(variable.name)),
        },
        Expression::Assignment(assignment) => {
            &&& action is Continue
            &&& after.moves(
                before,
                before.frames@.push(Frame::Assign { name: assignment.name, context }),
                Focus::Evaluate(&*assignment.value, context),
            )
        },
        Expression::Unary(unary) => {
            &&& action is Continue
            &&& after.moves(
                before,
                before.frames@.push(Frame::Unary { operator: unary.operator }),
                Focus::Evaluate(&*unary.right, context),
            )
        },
        Expression::Binary(binary) => if is_binary(binary.operator.type_) {
            &&& action is Continue
            &&& after.moves(
                before,
                before.frames@.push(
                    Frame::Right {
                        operator: binary.operator,
                        span: expression@.span(),
                        right: &*binary.right,
                        context,
                    },
                ),
                Focus::Evaluate(&*binary.left, context),
            )
        } else {
            failed(before, after, action, Error::NotImplemented(binary.operator.span))
        },
        Expression::Logical(logical) => {
            &&& action is Continue
            &&& after.moves(
                before,
                before.frames@.push(
                    Frame::Logical { operator: logical.operator, right: &*logical.right, context },
                ),
                Focus::Evaluate(&*logical.left, context),
            )
        },
        Expression::Call(call) => {
            &&& action is Continue
            &&& after.moves(
                before,
                before.frames@.push(
                    Frame::Callee {
                        callee_span: (*call.callee)@.span(),
                        closing_paren: call.closing_paren,
                        arguments: &call.arguments,
                        context,
                    },
                ),
                Focus::Evaluate(&*call.callee, context),
            )
        },
        _ => failed(before, after, action, Error::NotImplemented(expression@.span())),
    }
}

impl<'a> Interpreter<'a> {
    /// The value that `name` stands for in `scope`.
    pub(crate) fn get(&self, scope: usize, name: &String) -> (value: Option<Value<'a>>)
        requires
            self.wf(),
            scope < self.environment.count(),
        ensures
            value == self.environment.lookup(scope as int, name@),
            value matches Some(found) ==> found.within(self.environment.count()),
    {
        proof {
            self.environment.lemma_resolve_binds(scope as int, name@);
        }
        self.environment.get(scope, name)
    }

    pub(crate) fn evaluate_literal(&mut self, literal: &LiteralExpression, context: Context<'a>) -> (action:
        Action)
        ensures
            evaluated_literal(*old(self), *literal, context, *final(self), action),
            old(self).wf() ==> final(self).wf(),
    {
        match literal {
            LiteralExpression::String_(token) => self.go(
                Focus::Deliver(
                    Value::String(token.span, literal_text_of(context.source, token.span).to_owned()),
                ),
            ),
            LiteralExpression::Number(token) => {
                self.focus = Focus::AwaitNumber(token.span);
                Action::ParseNumber(lexeme_of(context.source, token.span).to_owned())
            },
            LiteralExpression::Boolean(span, value) => self.go(
                Focus::Deliver(Value::Boolean(*span, *value)),
            ),
            LiteralExpression::Nil(span) => self.go(Focus::Deliver(Value::Nil(*span))),
        }
    }

    pub(crate) fn evaluate_expression(&mut self, expression: &'a Expression, context: Context<'a>) -> (action:
        Action)
        requires
            old(self).wf(),
            context.within(old(self).environment.count()),
        ensures
            final(self).wf(),
            evaluated(*old(self), expression, context, *final(self), action),
    {
        match expression {
            Expression::Literal(literal) => self.evaluate_literal(literal, context),
            Expression::Grouping(GroupingExpression { expression }) => self.go(
                Focus::Evaluate(&**expression, context),
            ),
            Expression::Variable(VariableExpression { name }) => {
                let text = lexeme_of(context.source, name.span).to_owned();
                match self.get(context.scope, &text) {
                    Some(value) => self.go(Focus::Deliver(value)),
                    None => self.fail(Error::VariableDoesntExist(*name)),
                }
            },
            Expression::Assignment(AssignmentExpression { name, value }) => self.push(
                Frame::Assign { name: *name, context },
                Focus::Evaluate(&**value, context),
            ),
            Expression::Unary(UnaryExpression { operator, right }) => self.push(
                Frame::Unary { operator: *operator },
                Focus::Evaluate(&**right, context),
            ),
            Expression::Binary(BinaryExpression { left, right, operator }) => {
                if is_binary_operator(operator.type_) {
                    let span = expression.span();
                    self.push(
                        Frame::Right { operator: *operator, span, right: &**right, context },
                        Focus::Evaluate(&**left, context),
                    )
                } else {
                    self.fail(Error::NotImplemented(operator.span))
                }
            },
            Expression::Logical(LogicalExpression { left, right, operator }) => self.push(
                Frame::Logical { operator: *operator, right: &**right, context },
                Focus::Evaluate(&**left, context),
            ),
            Expression::Call(CallExpression { callee, closing_paren, arguments }) => {
                let callee_span = callee.span();
                self.push(
                    Frame::Callee {
                        callee_span,
                        closing_paren: *closing_paren,
                        arguments,
                        context,
                    },
                    Focus::Evaluate(&**callee, context),
                )
            },
            _ => self.fail(Error::NotImplemented(expression.span())),
        }
    }
}

} // verus!
