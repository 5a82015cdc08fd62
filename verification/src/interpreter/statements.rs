//! How declarations and statements run.

use crate::text::{lexeme, lexeme_of};
use super::value::{Callable, Value};
use super::{nothing, Action, Context, Focus, Frame, Interpreter};
use crate::span::Span;
use crate::statement::{Declaration, Statement};
use vstd::prelude::*;

verus! {

/// The function that a declaration makes in a context.
pub open spec fn function_value<'a>(declaration: &'a Declaration, context: Context<'a>) -> Value<'a>
    recommends
        *declaration is Function,
{
    Value::Callable(
        Callable {
            environment: context.scope,
            source: context.source,
            name_span: declaration->Function_name.span,
            parameters: &declaration->Function_parameters,
            body: &*declaration->Function_body,
        },
    )
}

/// What the machine does with a declaration.
///
/// A function is bound to its name in the scope of the declaration, which
/// it closes over. A variable is bound to the value of its initialiser, or
/// to `nil` where it has none.
pub open spec fn declared<'a>(
    before: Interpreter<'a>,
    declaration: &'a Declaration,
    context: Context<'a>,
    after: Interpreter<'a>,
    action: Action,
) -> bool {
    &&& action is Continue
    &&& match *declaration {
        Declaration::Function { name, .. } => {
            &&& after.frames@ == before.frames@
            &&& after.focus == Focus::Deliver(nothing())
            &&& after.environment.binds(
                before.environment,
                context.scope as int,
                lexeme(context.source, name.span),
                function_value(declaration, context),
            )
        },
        Declaration::Variable { name, initialiser: Some(expression) } => after.moves(
            before,
            before.frames@.push(Frame::Define { name, context }),
            Focus::Evaluate(&*expression, context),
        ),
        Declaration::Variable { name, initialiser: None } => {
            &&& after.frames@ == before.frames@
            &&& after.focus == Focus::Deliver(nothing())
            &&& after.environment.binds(
                before.environment,
                context.scope as int,
                lexeme(context.source, name.span),
                Value::Nil(name.span),
            )
        },
        Declaration::Statement(statement) => after.moves(
            before,
            before.frames@,
            Focus::Execute(&statement, context),
        ),
    }
}

/// The branch that may be missing, as a reference.
pub open spec fn branch_of<'a>(branch: &'a Option<Box<Statement>>) -> Option<&'a Statement> {
    match *branch {
        Some(statement) => Some(&*statement),
        None => None,
    }
}

/// What the machine does with a statement.
///
/// A block runs in a new scope of its own. The other statements first
/// evaluate an expression, and leave a frame that says what is to be done
/// with its value.
pub open spec fn executed<'a>(
    before: Interpreter<'a>,
    statement: &'a Statement,
    context: Context<'a>,
    after: Interpreter<'a>,
    action: Action,
) -> bool {
    &&& action is Continue
    &&& match *statement {
        Statement::Print(expression) => after.moves(
            before,
            before.frames@.push(Frame::Print),
            Focus::Evaluate(&*expression, context),
        ),
        Statement::Expression(expression) => after.moves(
            before,
            before.frames@,
            Focus::Evaluate(&*expression, context),
        ),
        Statement::Block(declarations) => {
            &&& after.environment.opens(before.environment, context.scope)
            &&& after.frames@ == before.frames@.push(
                Frame::Sequence {
                    declarations: &*declarations,
                    next: 0,
                    context: Context {
                        source: context.source,
                        scope: before.environment.count() as usize,
                    },
                },
            )
            &&& after.focus == Focus::Deliver(nothing())
        },
        Statement::If { condition, then_branch, else_branch } => after.moves(
            before,
            before.frames@.push(
                Frame::Branch {
                    then_branch: &*then_branch,
                    else_branch: branch_of(&statement->If_else_branch),
                    context,
                },
            ),
            Focus::Evaluate(&*condition, context),
        ),
        Statement::While { condition, body } => after.moves(
            before,
            before.frames@.push(Frame::Loop { condition: &*condition, body: &*body, context }),
            Focus::Evaluate(&*condition, context),
        ),
        Statement::Return { value } => after.moves(
            before,
            before.frames@.push(Frame::Return),
            Focus::Evaluate(&*value, context),
        ),
    }
}

impl<'a> Interpreter<'a> {
    pub(crate) fn evaluate_declaration(
        &mut self,
        declaration: &'a Declaration,
        context: Context<'a>,
    ) -> (action: Action)
        requires
            old(self).wf(),
            context.within(old(self).environment.count()),
        ensures
            final(self).wf(),
            declared(*old(self), declaration, context, *final(self), action),
    {
        match declaration {
            Declaration::Function { name, parameters, body } => {
                let function = Value::Callable(
                    Callable {
                        environment: context.scope,
                        source: context.source,
                        name_span: name.span,
                        parameters,
                        body: &**body,
                    },
                );
                self.bind(context.scope, lexeme_of(context.source, name.span).to_owned(), function);
                self.focus = Focus::Deliver(Value::Nil(Span { start: 0, end: 0 }));
                Action::Continue
            },
            Declaration::Variable { name, initialiser } => {
                match initialiser {
                    Some(expression) => self.push(
                        Frame::Define { name: *name, context },
                        Focus::Evaluate(&**expression, context),
                    ),
                    None => {
                        self.bind(
                            context.scope,
                            lexeme_of(context.source, name.span).to_owned(),
                            Value::Nil(name.span),
                        );
                        self.focus = Focus::Deliver(Value::Nil(Span { start: 0, end: 0 }));
                        Action::Continue
                    },
                }
            },
            Declaration::Statement(statement) => self.go(Focus::Execute(statement, context)),
        }
    }

    pub(crate) fn evaluate_statement(&mut self, statement: &'a Statement, context: Context<'a>) -> (action:
        Action)
        requires
            old(self).wf(),
            context.within(old(self).environment.count()),
        ensures
            final(self).wf(),
            executed(*old(self), statement, context, *final(self), action),
    {
        match statement {
            Statement::Print(expression) => self.push(
                Frame::Print,
                Focus::Evaluate(&**expression, context),
            ),
            Statement::Expression(expression) => self.go(Focus::Evaluate(&**expression, context)),
            Statement::Block(declarations) => {
                let scope = self.enter(context.scope);
                self.push(
                    Frame::Sequence {
                        declarations: &**declarations,
                        next: 0,
                        context: Context { source: context.source, scope },
                    },
                    Focus::Deliver(Value::Nil(Span { start: 0, end: 0 })),
                )
            },
            Statement::If { condition, then_branch, else_branch } => {
                let else_branch: Option<&'a Statement> = match else_branch {
                    Some(statement) => Some(&**statement),
                    None => None,
                };
                self.push(
                    Frame::Branch { then_branch: &**then_branch, else_branch, context },
                    Focus::Evaluate(&**condition, context),
                )
            },
            Statement::While { condition, body } => self.push(
                Frame::Loop { condition: &**condition, body: &**body, context },
                Focus::Evaluate(&**condition, context),
            ),
            Statement::Return { value } => self.push(
                Frame::Return,
                Focus::Evaluate(&**value, context),
            ),
        }
    }
}

} // verus!
