//! What the machine does with a value: the frame on top decides.

use super::environment::Environment;
use super::error::Error;
use super::expressions::failed;
use crate::text::{lexeme, lexeme_of};
use super::value::{Callable, Kind, Value};
use super::{
    is_comparison, nothing, values_within, Action, Context, Event, Focus, Frame, Interpreter,
};
use crate::expression::Expression;
use crate::lexer::{Token, TokenType};
use crate::span::Span;
use std::rc::Rc;
use vstd::prelude::*;
use vstd::string::StringExecFns;

verus! {

/// The machine has stopped with a type error: a value of the expected type
/// was needed where `value` was found.
pub open spec fn type_failure<'a>(
    before: Interpreter<'a>,
    after: Interpreter<'a>,
    action: Action,
    expected: Kind,
    value: Value<'a>,
) -> bool {
    &&& action matches Action::Failed(error)
    &&& error.is_type_error(
        expected.spec_name(),
        value.spec_kind().spec_name(),
        value.spec_span(),
    )
    &&& after.halted(before)
}

/// The value that a call binds `name` to: that of the last of the first
/// `below` parameters with that name.
pub open spec fn argument<'a>(
    source: &'a str,
    parameters: Seq<Token>,
    values: Seq<Value<'a>>,
    name: Seq<char>,
    below: int,
) -> Option<Value<'a>>
    decreases below,
{
    if below <= 0 {
        None
    } else if lexeme(source, parameters[below - 1].span) == name {
        Some(values[below - 1])
    } else {
        argument(source, parameters, values, name, below - 1)
    }
}

/// What a call binds a name to is one of its arguments.
pub proof fn lemma_argument_within<'a>(
    source: &'a str,
    parameters: Seq<Token>,
    values: Seq<Value<'a>>,
    name: Seq<char>,
    below: int,
    count: nat,
)
    requires
        below <= values.len(),
        values_within(values, count),
    ensures
        argument(source, parameters, values, name, below) matches Some(value) ==> value.within(
            count,
        ),
    decreases below,
{
    if below > 0 && lexeme(source, parameters[below - 1].span) != name {
        lemma_argument_within(source, parameters, values, name, below - 1, count);
    }
}

impl<'a> Environment<'a> {
    /// `self` is `before` with a new scope inside `parent`, which binds the
    /// first `bound` parameters to their values.
    pub open spec fn binds_arguments(
        self,
        before: Environment<'a>,
        parent: usize,
        source: &'a str,
        parameters: Seq<Token>,
        values: Seq<Value<'a>>,
        bound: int,
    ) -> bool {
        &&& self.wf()
        &&& self.count() == before.count() + 1
        &&& self.parent(before.count() as int) == Some(parent)
        &&& forall|name: Seq<char>| #[trigger]
            self.local(before.count() as int, name) == argument(
                source,
                parameters,
                values,
                name,
                bound,
            )
        &&& forall|other: int|
            0 <= other < before.count() ==> self.parent(other) == before.parent(other)
        &&& forall|other: int, any: Seq<char>|
            0 <= other < before.count() ==> #[trigger] self.local(other, any) == before.local(
                other,
                any,
            )
    }

    /// `self` is `before` with the scope of a call of `callee` with the
    /// given arguments: a new scope inside the one that the function closes
    /// over, not inside the caller's.
    pub open spec fn calls(self, before: Environment<'a>, callee: Callable<'a>, values: Seq<Value<'a>>) -> bool {
        self.binds_arguments(
            before,
            callee.environment,
            callee.source,
            callee.parameters@,
            values,
            if callee.parameters@.len() <= values.len() {
                callee.parameters@.len() as int
            } else {
                values.len() as int
            },
        )
    }
}

/// The machine has started on the body of `callee`, called with `values`.
/// Below the body a frame marks where the function returns to.
pub open spec fn invoked<'a>(
    before: Interpreter<'a>,
    rest: Seq<Frame<'a>>,
    callee: Callable<'a>,
    values: Seq<Value<'a>>,
    after: Interpreter<'a>,
    action: Action,
) -> bool {
    &&& action is Continue
    &&& after.environment.calls(before.environment, callee, values)
    &&& after.frames@ == rest.push(Frame::Boundary).push(
        Frame::Sequence {
            declarations: callee.body,
            next: 0,
            context: Context {
                source: callee.source,
                scope: before.environment.count() as usize,
            },
        },
    )
    &&& after.focus == Focus::Deliver(nothing())
}

/// The machine has printed a value: at once where the value has a text,
/// and after the host has written it out where it is a number.
pub open spec fn printed<'a>(
    before: Interpreter<'a>,
    rest: Seq<Frame<'a>>,
    value: Value<'a>,
    after: Interpreter<'a>,
    action: Action,
) -> bool {
    match value.spec_text() {
        Some(text) => {
            &&& action matches Action::Print(line)
            &&& line@ == text
            &&& after.moves(before, rest, Focus::Deliver(nothing()))
        },
        None => {
            &&& action == Action::Format(value->Number_1)
            &&& after.moves(before, rest.push(Frame::Print), Focus::AwaitText(value.spec_span()))
        },
    }
}

/// The machine has applied a unary operator: `-` negates a number, `!`
/// negates the truth of any value.
pub open spec fn negated<'a>(
    before: Interpreter<'a>,
    rest: Seq<Frame<'a>>,
    operator: Token,
    value: Value<'a>,
    after: Interpreter<'a>,
    action: Action,
) -> bool {
    if operator.type_ == TokenType::Minus {
        match value {
            Value::Number(span, bits) => {
                &&& action == Action::Negate(bits)
                &&& after.moves(before, rest, Focus::AwaitNumber(operator.span.cover(span)))
            },
            _ => type_failure(before, after, action, Kind::Number, value),
        }
    } else if operator.type_ == TokenType::Bang {
        &&& action is Continue
        &&& after.moves(
            before,
            rest,
            Focus::Deliver(
                Value::Boolean(operator.span.cover(value.spec_span()), !value.spec_is_truthy()),
            ),
        )
    } else {
        failed(before, after, action, Error::NotImplemented(operator.span))
    }
}

/// The machine has the left operand of a binary operator. Every operator
/// but `+` needs a number there, and fails on anything else before the
/// right operand is looked at.
pub open spec fn turned_right<'a>(
    before: Interpreter<'a>,
    rest: Seq<Frame<'a>>,
    operator: Token,
    span: Span,
    right: &'a Expression,
    context: Context<'a>,
    value: Value<'a>,
    after: Interpreter<'a>,
    action: Action,
) -> bool {
    if operator.type_ == TokenType::Plus || value is Number {
        &&& action is Continue
        &&& after.moves(
            before,
            rest.push(Frame::Apply { operator, span, left: value }),
            Focus::Evaluate(right, context),
        )
    } else {
        type_failure(before, after, action, Kind::Number, value)
    }
}

/// The machine has both operands of `+`. The left one decides: a string
/// takes the text of the right operand after it, a number takes a number
/// to add, and nothing else can be added to.
pub open spec fn added<'a>(
    before: Interpreter<'a>,
    rest: Seq<Frame<'a>>,
    operator: Token,
    span: Span,
    left: Value<'a>,
    value: Value<'a>,
    after: Interpreter<'a>,
    action: Action,
) -> bool {
    match left {
        Value::String(left_span, left_text) => match value.spec_text() {
            Some(text) => {
                &&& action is Continue
                &&& after.environment == before.environment
                &&& after.frames@ == rest
                &&& after.focus matches Focus::Deliver(Value::String(joined_span, joined))
                &&& joined_span == left_span.cover(value.spec_span())
                &&& joined@ == left_text@ + text
            },
            None => {
                &&& action == Action::Format(value->Number_1)
                &&& after.moves(
                    before,
                    rest.push(Frame::Apply { operator, span, left }),
                    Focus::AwaitText(value.spec_span()),
                )
            },
        },
        Value::Number(left_span, left_bits) => match value {
            Value::Number(right_span, right_bits) => {
                &&& action == (Action::Calculate {
                    operator: TokenType::Plus,
                    left: left_bits,
                    right: right_bits,
                })
                &&& after.moves(before, rest, Focus::AwaitNumber(left_span.cover(right_span)))
            },
            _ => type_failure(before, after, action, Kind::Number, value),
        },
        _ => type_failure(before, after, action, Kind::Number, left),
    }
}

/// The machine has both operands of an operator other than `+`. Both must
/// be numbers; the host computes, and answers with a truth value for a
/// comparison and with a number otherwise.
pub open spec fn calculated<'a>(
    before: Interpreter<'a>,
    rest: Seq<Frame<'a>>,
    operator: Token,
    span: Span,
    left: Value<'a>,
    value: Value<'a>,
    after: Interpreter<'a>,
    action: Action,
) -> bool {
    match left {
        Value::Number(_, left_bits) => match value {
            Value::Number(_, right_bits) => {
                &&& action == (Action::Calculate {
                    operator: operator.type_,
                    left: left_bits,
                    right: right_bits,
                })
                &&& after.moves(
                    before,
                    rest,
                    if is_comparison(operator.type_) {
                        Focus::AwaitBoolean(span)
                    } else {
                        Focus::AwaitNumber(span)
                    },
                )
            },
            _ => type_failure(before, after, action, Kind::Number, value),
        },
        _ => type_failure(before, after, action, Kind::Number, left),
    }
}

/// The machine has the value that is being called. It must be a function,
/// and the call must have as many arguments as the function has
/// parameters, or the call fails before any argument is evaluated.
pub open spec fn called<'a>(
    before: Interpreter<'a>,
    rest: Seq<Frame<'a>>,
    callee_span: Span,
    closing_paren: Token,
    arguments: &'a Vec<Rc<Expression>>,
    context: Context<'a>,
    value: Value<'a>,
    after: Interpreter<'a>,
    action: Action,
) -> bool {
    match value {
        Value::Callable(callee) => if callee.parameters@.len() != arguments@.len() {
            failed(
                before,
                after,
                action,
                Error::Arity {
                    got: arguments@.len() as usize,
                    expected: callee.parameters@.len() as usize,
                    call_span: callee_span.cover(closing_paren.span),
                },
            )
        } else if arguments@.len() == 0 {
            invoked(before, rest, callee, Seq::empty(), after, action)
        } else {
            gathering(before, rest, callee, arguments, Seq::empty(), context, after, action)
        },
        _ => failed(before, after, action, Error::NotCallable(callee_span)),
    }
}

/// The machine has gone on to the next argument of a call, with the values
/// of the arguments before it in the frame on top.
pub open spec fn gathering<'a>(
    before: Interpreter<'a>,
    rest: Seq<Frame<'a>>,
    callee: Callable<'a>,
    arguments: &'a Vec<Rc<Expression>>,
    values: Seq<Value<'a>>,
    context: Context<'a>,
    after: Interpreter<'a>,
    action: Action,
) -> bool {
    &&& action is Continue
    &&& after.environment == before.environment
    &&& after.frames@.len() == rest.len() + 1
    &&& after.frames@.drop_last() == rest
    &&& after.frames@.last() matches Frame::Arguments {
        callee: kept_callee,
        arguments: kept_arguments,
        values: kept_values,
        context: kept_context,
    }
    &&& kept_callee == callee
    &&& kept_arguments == arguments
    &&& kept_values@ == values
    &&& kept_context == context
    &&& after.focus == Focus::Evaluate(&*arguments@[values.len() as int], context)
}

/// The machine has one more argument of a call: it goes on to the next, in
/// the caller's scope, or starts on the body where this was the last.
pub open spec fn argued<'a>(
    before: Interpreter<'a>,
    rest: Seq<Frame<'a>>,
    callee: Callable<'a>,
    arguments: &'a Vec<Rc<Expression>>,
    values: Seq<Value<'a>>,
    context: Context<'a>,
    value: Value<'a>,
    after: Interpreter<'a>,
    action: Action,
) -> bool {
    if values.len() + 1 < arguments@.len() {
        gathering(before, rest, callee, arguments, values.push(value), context, after, action)
    } else {
        invoked(before, rest, callee, values.push(value), after, action)
    }
}

/// What the machine does with a value: the frame on top takes it. With no
/// frame left the program is done.
pub open spec fn delivered<'a>(
    before: Interpreter<'a>,
    value: Value<'a>,
    after: Interpreter<'a>,
    action: Action,
) -> bool {
    if before.frames@.len() == 0 {
        action is Done && after.halted(before)
    } else {
        let rest = before.frames@.drop_last();
        match before.frames@.last() {
            Frame::Sequence { declarations, next, context } => {
                &&& action is Continue
                &&& if next < declarations@.len() {
                    after.moves(
                        before,
                        rest.push(
                            Frame::Sequence { declarations, next: (next + 1) as usize, context },
                        ),
                        Focus::Declare(&declarations@[next as int], context),
                    )
                } else {
                    after.moves(before, rest, Focus::Deliver(nothing()))
                }
            },
            Frame::Define { name, context } => {
                &&& action is Continue
                &&& after.frames@ == rest
                &&& after.focus == Focus::Deliver(nothing())
                &&& after.environment.binds(
                    before.environment,
                    context.scope as int,
                    lexeme(context.source, name.span),
                    value,
                )
            },
            Frame::Print => printed(before, rest, value, after, action),
            Frame::Branch { then_branch, else_branch, context } => {
                &&& action is Continue
                &&& after.moves(
                    before,
                    rest,
                    if value.spec_is_truthy() {
                        Focus::Execute(then_branch, context)
                    } else {
                        match else_branch {
                            Some(statement) => Focus::Execute(statement, context),
                            None => Focus::Deliver(nothing()),
                        }
                    },
                )
            },
            Frame::Loop { condition, body, context } => {
                &&& action is Continue
                &&& if value.spec_is_truthy() {
                    after.moves(
                        before,
                        rest.push(Frame::Repeat { condition, body, context }),
                        Focus::Execute(body, context),
                    )
                } else {
                    after.moves(before, rest, Focus::Deliver(nothing()))
                }
            },
            Frame::Repeat { condition, body, context } => {
                &&& action is Continue
                &&& after.moves(
                    before,
                    rest.push(Frame::Loop { condition, body, context }),
                    Focus::Evaluate(condition, context),
                )
            },
            Frame::Return => {
                &&& action is Continue
                &&& after.moves(before, rest, Focus::Unwind(value))
            },
            Frame::Boundary => {
                &&& action is Continue
                &&& after.moves(before, rest, Focus::Deliver(value))
            },
            Frame::Assign { name, context } => match before.environment.resolve(
                context.scope as int,
                lexeme(context.source, name.span),
            ) {
                Some(binder) => {
                    &&& action is Continue
                    &&& after.frames@ == rest
                    &&& after.focus == Focus::Deliver(value)
                    &&& after.environment.binds(
                        before.environment,
                        binder,
                        lexeme(context.source, name.span),
                        value,
                    )
                },
                None => failed(before, after, action, Error::VariableDoesntExist(name)),
            },
            Frame::Unary { operator } => negated(before, rest, operator, value, after, action),
            Frame::Right { operator, span, right, context } => turned_right(
                before,
                rest,
                operator,
                span,
                right,
                context,
                value,
                after,
                action,
            ),
            Frame::Apply { operator, span, left } => if operator.type_ == TokenType::Plus {
                added(before, rest, operator, span, left, value, after, action)
            } else {
                calculated(before, rest, operator, span, left, value, after, action)
            },
            Frame::Logical { operator, right, context } => {
                &&& action is Continue
                &&& after.moves(
                    before,
                    rest,
                    if (operator.type_ == TokenType::Or && value.spec_is_truthy()) || (operator.type_
                        == TokenType::And && !value.spec_is_truthy()) {
                        Focus::Deliver(value)
                    } else {
                        Focus::Evaluate(right, context)
                    },
                )
            },
            Frame::Callee { callee_span, closing_paren, arguments, context } => called(
                before,
                rest,
                callee_span,
                closing_paren,
                arguments,
                context,
                value,
                after,
                action,
            ),
            Frame::Arguments { callee, arguments, values, context } => argued(
                before,
                rest,
                callee,
                arguments,
                values@,
                context,
                value,
                after,
                action,
            ),
        }
    }
}

/// What the machine does with a value that a function returns: it drops
/// the frame on top, and the value is the call's where that frame was the
/// end of the function's body. A return outside every function ends the
/// program.
pub open spec fn unwound<'a>(
    before: Interpreter<'a>,
    value: Value<'a>,
    after: Interpreter<'a>,
    action: Action,
) -> bool {
    if before.frames@.len() == 0 {
        action is Done && after.halted(before)
    } else {
        &&& action is Continue
        &&& after.moves(
            before,
            before.frames@.drop_last(),
            if before.frames@.last() is Boundary {
                Focus::Deliver(value)
            } else {
                Focus::Unwind(value)
            },
        )
    }
}

/// What the machine does with the host's answer: the answer is the value
/// that the machine waited for.
pub open spec fn answered<'a>(
    before: Interpreter<'a>,
    event: Event,
    after: Interpreter<'a>,
    action: Action,
) -> bool {
    &&& action is Continue
    &&& after.environment == before.environment
    &&& after.frames@ == before.frames@
    &&& match before.focus {
        Focus::AwaitNumber(span) => after.focus == Focus::Deliver(
            Value::Number(span, event->Number_0),
        ),
        Focus::AwaitBoolean(span) => after.focus == Focus::Deliver(
            Value::Boolean(span, event->Boolean_0),
        ),
        Focus::AwaitText(span) => {
            &&& after.focus matches Focus::Deliver(Value::String(text_span, text))
            &&& text_span == span
            &&& text@ == event->Text_0@
        },
        _ => false,
    }
}

impl<'a> Interpreter<'a> {
    /// Stops the machine with a type error.
    fn fail_type(&mut self, expected: Kind, value: &Value<'a>) -> (action: Action)
        ensures
            old(self).environment.sound() ==> final(self).wf(),
            type_failure(*old(self), *final(self), action, expected, *value),
    {
        let error = Error::type_error(expected.name(), value.kind().name(), value.span());
        self.fail(error)
    }

    /// Starts on the body of `callee`, called with `values`.
    fn invoke(&mut self, callee: Callable<'a>, values: Vec<Value<'a>>) -> (action: Action)
        requires
            old(self).wf(),
            callee.environment < old(self).environment.count(),
            values_within(values@, old(self).environment.count()),
        ensures
            final(self).wf(),
            invoked(*old(self), old(self).frames@, callee, values@, *final(self), action),
    {
        let ghost before = self.environment;
        let scope = self.enter(callee.environment);
        let count = if callee.parameters.len() <= values.len() {
            callee.parameters.len()
        } else {
            values.len()
        };
        let mut bound: usize = 0;
        while bound < count
            invariant
                bound <= count,
                count <= callee.parameters@.len(),
                count <= values@.len(),
                scope == before.count(),
                callee.environment < before.count(),
                values_within(values@, before.count()),
                self.wf(),
                self.frames == old(self).frames,
                self.focus == old(self).focus,
                self.environment.binds_arguments(
                    before,
                    callee.environment,
                    callee.source,
                    callee.parameters@,
                    values@,
                    bound as int,
                ),
            decreases count - bound,
        {
            let name = lexeme_of(callee.source, callee.parameters[bound].span).to_owned();
            assert(values@[bound as int].within(before.count()));
            self.bind(scope, name, values[bound].duplicate());
            bound += 1;
        }
        self.frames.push(Frame::Boundary);
        self.push(
            Frame::Sequence {
                declarations: callee.body,
                next: 0,
                context: Context { source: callee.source, scope },
            },
            Focus::Deliver(Value::Nil(Span { start: 0, end: 0 })),
        )
    }

    fn print(&mut self, value: Value<'a>) -> (action: Action)
        ensures
            old(self).wf() && value.within(old(self).environment.count()) ==> final(self).wf(),
            printed(*old(self), old(self).frames@, value, *final(self), action),
    {
        match value.text() {
            Some(line) => {
                self.focus = Focus::Deliver(Value::Nil(Span { start: 0, end: 0 }));
                Action::Print(line)
            },
            None => {
                match value {
                    Value::Number(span, bits) => {
                        self.frames.push(Frame::Print);
                        self.focus = Focus::AwaitText(span);
                        Action::Format(bits)
                    },
                    _ => Action::Continue,
                }
            },
        }
    }

    fn evaluate_unary_expression(&mut self, operator: Token, value: Value<'a>) -> (action: Action)
        ensures
            old(self).wf() && value.within(old(self).environment.count()) ==> final(self).wf(),
            negated(*old(self), old(self).frames@, operator, value, *final(self), action),
    {
        match operator.type_ {
            TokenType::Minus => match value {
                Value::Number(span, bits) => {
                    self.focus = Focus::AwaitNumber(operator.span.combine(span));
                    Action::Negate(bits)
                },
                _ => self.fail_type(Kind::Number, &value),
            },
            TokenType::Bang => self.go(
                Focus::Deliver(
                    Value::Boolean(operator.span.combine(value.span()), !value.is_truthy()),
                ),
            ),
            _ => self.fail(Error::NotImplemented(operator.span)),
        }
    }

    fn plus_or_concat(&mut self, operator: Token, span: Span, left: Value<'a>, value: Value<'a>) -> (action:
        Action)
        ensures
            old(self).wf() && left.within(old(self).environment.count()) && value.within(
                old(self).environment.count(),
            ) ==> final(self).wf(),
            added(*old(self), old(self).frames@, operator, span, left, value, *final(self), action),
    {
        match left {
            Value::String(left_span, left_text) => match value.text() {
                Some(text) => self.go(
                    Focus::Deliver(
                        Value::String(
                            left_span.combine(value.span()),
                            left_text.concat(text.as_str()),
                        ),
                    ),
                ),
                None => match value {
                    Value::Number(right_span, bits) => {
                        self.frames.push(
                            Frame::Apply {
                                operator,
                                span,
                                left: Value::String(left_span, left_text),
                            },
                        );
                        self.focus = Focus::AwaitText(right_span);
                        Action::Format(bits)
                    },
                    _ => Action::Continue,
                },
            },
            Value::Number(left_span, left_bits) => match value {
                Value::Number(right_span, right_bits) => {
                    self.focus = Focus::AwaitNumber(left_span.combine(right_span));
                    Action::Calculate { operator: TokenType::Plus, left: left_bits, right: right_bits }
                },
                _ => self.fail_type(Kind::Number, &value),
            },
            _ => self.fail_type(Kind::Number, &left),
        }
    }

    fn evaluate_binary_expression(&mut self, operator: Token, span: Span, left: Value<'a>, value: Value<'a>) -> (action:
        Action)
        ensures
            old(self).wf() && left.within(old(self).environment.count()) && value.within(
                old(self).environment.count(),
            ) ==> final(self).wf(),
            calculated(
                *old(self),
                old(self).frames@,
                operator,
                span,
                left,
                value,
                *final(self),
                action,
            ),
    {
        match left {
            Value::Number(_, left_bits) => match value {
                Value::Number(_, right_bits) => {
                    self.focus = match operator.type_ {
                        TokenType::BangEqual
                        | TokenType::EqualEqual
                        | TokenType::Greater
                        | TokenType::GreaterEqual
                        | TokenType::Less
                        | TokenType::LessEqual => Focus::AwaitBoolean(span),
                        _ => Focus::AwaitNumber(span),
                    };
                    Action::Calculate { operator: operator.type_, left: left_bits, right: right_bits }
                },
                _ => self.fail_type(Kind::Number, &value),
            },
            _ => self.fail_type(Kind::Number, &left),
        }
    }

    /// Goes on to the argument after those in `values`.
    fn gather(
        &mut self,
        callee: Callable<'a>,
        arguments: &'a Vec<Rc<Expression>>,
        values: Vec<Value<'a>>,
        context: Context<'a>,
    ) -> (action: Action)
        requires
            values@.len() < arguments@.len(),
        ensures
            old(self).wf() && callee.environment < old(self).environment.count() && context.within(
                old(self).environment.count(),
            ) && values_within(values@, old(self).environment.count()) ==> final(self).wf(),
            gathering(
                *old(self),
                old(self).frames@,
                callee,
                arguments,
                values@,
                context,
                *final(self),
                action,
            ),
    {
        let next = &*arguments[values.len()];
        self.frames.push(Frame::Arguments { callee, arguments, values, context });
        self.focus = Focus::Evaluate(next, context);
        assert(self.frames@.drop_last() =~= old(self).frames@);
        Action::Continue
    }

    fn evaluate_call(
        &mut self,
        callee_span: Span,
        closing_paren: Token,
        arguments: &'a Vec<Rc<Expression>>,
        context: Context<'a>,
        value: Value<'a>,
    ) -> (action: Action)
        requires
            old(self).wf(),
            context.within(old(self).environment.count()),
            value.within(old(self).environment.count()),
        ensures
            final(self).wf(),
            called(
                *old(self),
                old(self).frames@,
                callee_span,
                closing_paren,
                arguments,
                context,
                value,
                *final(self),
                action,
            ),
    {
        match value {
            Value::Callable(callee) => {
                if callee.parameters.len() != arguments.len() {
                    self.fail(
                        Error::Arity {
                            got: arguments.len(),
                            expected: callee.parameters.len(),
                            call_span: callee_span.combine(closing_paren.span),
                        },
                    )
                } else if arguments.len() == 0 {
                    self.invoke(callee, Vec::new())
                } else {
                    self.gather(callee, arguments, Vec::new(), context)
                }
            },
            _ => self.fail(Error::NotCallable(callee_span)),
        }
    }

    /// Gives `name` the value `value` in the innermost scope that binds it.
    fn assign(&mut self, name: Token, context: Context<'a>, value: Value<'a>) -> (action: Action)
        requires
            old(self).wf(),
            context.within(old(self).environment.count()),
            value.within(old(self).environment.count()),
        ensures
            final(self).wf(),
            match old(self).environment.resolve(
                context.scope as int,
                lexeme(context.source, name.span),
            ) {
                Some(binder) => {
                    &&& action is Continue
                    &&& final(self).frames@ == old(self).frames@
                    &&& final(self).focus == Focus::Deliver(value)
                    &&& final(self).environment.binds(
                        old(self).environment,
                        binder,
                        lexeme(context.source, name.span),
                        value,
                    )
                },
                None => failed(*old(self), *final(self), action, Error::VariableDoesntExist(name)),
            },
    {
        let text = lexeme_of(context.source, name.span).to_owned();
        proof {
            self.environment.lemma_resolve_binds(context.scope as int, text@);
        }
        let assigned = self.environment.assign(context.scope, &text, value.duplicate());
        match assigned {
            Ok(()) => self.go(Focus::Deliver(value)),
            Err(()) => self.fail(Error::VariableDoesntExist(name)),
        }
    }

    pub(crate) fn deliver(&mut self, value: Value<'a>) -> (action: Action)
        requires
            old(self).wf(),
            value.within(old(self).environment.count()),
        ensures
            final(self).wf(),
            delivered(*old(self), value, *final(self), action),
    {
        proof {
            if self.frames@.len() > 0 {
                assert(self.frames@[self.frames@.len() - 1].within(self.environment.count()));
            }
        }
        let frame = match self.frames.pop() {
            Some(frame) => frame,
            None => {
                assert(self.frames@ =~= Seq::empty());
                self.focus = Focus::Finished;
                return Action::Done;
            },
        };
        match frame {
            Frame::Sequence { declarations, next, context } => {
                if next < declarations.len() {
                    self.push(
                        Frame::Sequence { declarations, next: next + 1, context },
                        Focus::Declare(&declarations[next], context),
                    )
                } else {
                    self.go(Focus::Deliver(Value::Nil(Span { start: 0, end: 0 })))
                }
            },
            Frame::Define { name, context } => {
                self.bind(context.scope, lexeme_of(context.source, name.span).to_owned(), value);
                self.focus = Focus::Deliver(Value::Nil(Span { start: 0, end: 0 }));
                Action::Continue
            },
            Frame::Print => self.print(value),
            Frame::Branch { then_branch, else_branch, context } => {
                if value.is_truthy() {
                    self.go(Focus::Execute(then_branch, context))
                } else {
                    match else_branch {
                        Some(statement) => self.go(Focus::Execute(statement, context)),
                        None => self.go(Focus::Deliver(Value::Nil(Span { start: 0, end: 0 }))),
                    }
                }
            },
            Frame::Loop { condition, body, context } => {
                if value.is_truthy() {
                    self.push(
                        Frame::Repeat { condition, body, context },
                        Focus::Execute(body, context),
                    )
                } else {
                    self.go(Focus::Deliver(Value::Nil(Span { start: 0, end: 0 })))
                }
            },
            Frame::Repeat { condition, body, context } => self.push(
                Frame::Loop { condition, body, context },
                Focus::Evaluate(condition, context),
            ),
            Frame::Return => self.go(Focus::Unwind(value)),
            Frame::Boundary => self.go(Focus::Deliver(value)),
            Frame::Assign { name, context } => self.assign(name, context, value),
            Frame::Unary { operator } => self.evaluate_unary_expression(operator, value),
            Frame::Right { operator, span, right, context } => {
                let fits = match operator.type_ {
                    TokenType::Plus => true,
                    _ => match &value {
                        Value::Number(_, _) => true,
                        _ => false,
                    },
                };
                if fits {
                    self.push(
                        Frame::Apply { operator, span, left: value },
                        Focus::Evaluate(right, context),
                    )
                } else {
                    self.fail_type(Kind::Number, &value)
                }
            },
            Frame::Apply { operator, span, left } => match operator.type_ {
                TokenType::Plus => self.plus_or_concat(operator, span, left, value),
                _ => self.evaluate_binary_expression(operator, span, left, value),
            },
            Frame::Logical { operator, right, context } => {
                let truthy = value.is_truthy();
                let decided = match operator.type_ {
                    TokenType::Or => truthy,
                    TokenType::And => !truthy,
                    _ => false,
                };
                if decided {
                    self.go(Focus::Deliver(value))
                } else {
                    self.go(Focus::Evaluate(right, context))
                }
            },
            Frame::Callee { callee_span, closing_paren, arguments, context } => self.evaluate_call(
                callee_span,
                closing_paren,
                arguments,
                context,
                value,
            ),
            Frame::Arguments { callee, arguments, values, context } => {
                let mut values = values;
                values.push(value);
                if values.len() < arguments.len() {
                    self.gather(callee, arguments, values, context)
                } else {
                    self.invoke(callee, values)
                }
            },
        }
    }

    pub(crate) fn unwind(&mut self, value: Value<'a>) -> (action: Action)
        requires
            old(self).wf(),
            value.within(old(self).environment.count()),
        ensures
            final(self).wf(),
            unwound(*old(self), value, *final(self), action),
    {
        match self.frames.pop() {
            None => {
                assert(self.frames@ =~= Seq::empty());
                self.focus = Focus::Finished;
                Action::Done
            },
            Some(Frame::Boundary) => self.go(Focus::Deliver(value)),
            Some(_) => self.go(Focus::Unwind(value)),
        }
    }
}

} // verus!
