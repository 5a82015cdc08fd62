//! What holds of every run of the machine.

use super::environment::Environment;
use super::error::Error;
use super::frames::argument;
use super::value::{Callable, Kind, Value};
use super::{stepped, Action, Context, Event, Focus, Frame, Interpreter};
use crate::lexer::{Token, TokenType};
use crate::text::lexeme;
use vstd::prelude::*;

verus! {

/// The first error ends the run: nothing is left of the program, its
/// scopes are what they were, and every later step says that the run is
/// done and changes nothing.
pub proof fn lemma_failure_ends_the_run<'a>(
    before: Interpreter<'a>,
    event: Event,
    after: Interpreter<'a>,
    action: Action,
    later: Event,
    last: Interpreter<'a>,
    then: Action,
)
    requires
        before.spec_accepts(event),
        stepped(before, event, after, action),
        action is Failed,
        stepped(after, later, last, then),
    ensures
        after.frames@.len() == 0,
        after.focus is Finished,
        after.environment == before.environment,
        then is Done,
        last.frames@ == after.frames@,
        last.focus is Finished,
        last.environment == after.environment,
{
}

/// An assignment to a name that no scope around it binds fails, and makes
/// no binding: the scopes are after it what they were before.
pub proof fn lemma_assignment_makes_no_binding<'a>(
    before: Interpreter<'a>,
    event: Event,
    after: Interpreter<'a>,
    action: Action,
    value: Value<'a>,
    name: Token,
    context: Context<'a>,
)
    requires
        before.focus == Focus::Deliver(value),
        before.frames@.len() > 0,
        before.frames@.last() == (Frame::Assign { name, context }),
        before.environment.resolve(context.scope as int, lexeme(context.source, name.span)) is None,
        stepped(before, event, after, action),
    ensures
        action == Action::Failed(Error::VariableDoesntExist(name)),
        after.environment == before.environment,
        after.focus is Finished,
{
}

/// A call with more or fewer arguments than the function has parameters
/// fails, whatever the arguments are: none of them is evaluated, and the
/// body of the function does not run.
pub proof fn lemma_arity_is_checked_first<'a>(
    before: Interpreter<'a>,
    event: Event,
    after: Interpreter<'a>,
    action: Action,
    callee: Callable<'a>,
    frame: Frame<'a>,
)
    requires
        before.focus == Focus::Deliver(Value::Callable(callee)),
        before.frames@.len() > 0,
        before.frames@.last() == frame,
        frame is Callee,
        callee.parameters@.len() != frame->Callee_arguments@.len(),
        stepped(before, event, after, action),
    ensures
        action == Action::Failed(
            Error::Arity {
                got: frame->Callee_arguments@.len() as usize,
                expected: callee.parameters@.len() as usize,
                call_span: frame->Callee_callee_span.cover(frame->Callee_closing_paren.span),
            },
        ),
        after.frames@.len() == 0,
        after.focus is Finished,
        after.environment == before.environment,
{
}

/// `+` goes by its left operand: a string takes a number after it, for
/// which the host is asked to write the number out, and a number takes no
/// string.
pub proof fn lemma_plus_goes_by_the_left_operand<'a>(
    before: Interpreter<'a>,
    event: Event,
    after: Interpreter<'a>,
    action: Action,
    left: Value<'a>,
    right: Value<'a>,
    frame: Frame<'a>,
)
    requires
        before.focus == Focus::Deliver(right),
        before.frames@.len() > 0,
        before.frames@.last() == frame,
        frame is Apply,
        frame->Apply_operator.type_ == TokenType::Plus,
        frame->Apply_left == left,
        stepped(before, event, after, action),
    ensures
        left is String && right is Number ==> action == Action::Format(right->Number_1)
            && after.focus == Focus::AwaitText(right.spec_span()),
        left is String && right is String ==> action is Continue && (after.focus matches Focus::Deliver(
            Value::String(_, joined),
        ) && joined@ == left->String_1@ + right->String_1@),
        left is Number && !(right is Number) ==> (action matches Action::Failed(error)
            && error.is_type_error(
            Kind::Number.spec_name(),
            right.spec_kind().spec_name(),
            right.spec_span(),
        )),
{
}

/// The body of a function runs in a scope inside the one that the function
/// was declared in, wherever it is called from: a name that is no parameter
/// stands in the body for what it stood for where the function was
/// declared.
pub proof fn lemma_body_sees_the_scope_of_the_declaration<'a>(
    before: Environment<'a>,
    after: Environment<'a>,
    callee: Callable<'a>,
    values: Seq<Value<'a>>,
    name: Seq<char>,
)
    requires
        before.wf(),
        callee.environment < before.count(),
        after.calls(before, callee, values),
        argument(
            callee.source,
            callee.parameters@,
            values,
            name,
            if callee.parameters@.len() <= values.len() {
                callee.parameters@.len() as int
            } else {
                values.len() as int
            },
        ) is None,
    ensures
        after.parent(before.count() as int) == Some(callee.environment),
        after.lookup(before.count() as int, name) == before.lookup(callee.environment as int, name),
{
    after.lemma_resolve_agrees(before, callee.environment as int, name);
}

/// A variable declared in a block hides the variable of the same name
/// around the block while the block runs, and the scope around the block
/// never sees it.
pub proof fn lemma_inner_variable_does_not_leak<'a>(
    before: Environment<'a>,
    after: Environment<'a>,
    outer: usize,
    inner: usize,
    name: Seq<char>,
    value: Value<'a>,
)
    requires
        before.wf(),
        outer < inner < before.count(),
        after.binds(before, inner as int, name, value),
    ensures
        after.lookup(inner as int, name) == Some(value),
        after.lookup(outer as int, name) == before.lookup(outer as int, name),
{
    after.lemma_shadowing(before, inner as int, name, value, outer as int);
}

} // verus!
