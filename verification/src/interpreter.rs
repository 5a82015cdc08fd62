//! The evaluator.
//!
//! The evaluator is a machine that runs a program one step at a time. It
//! decides everything but two things, which it leaves to its host: it does
//! not print, and it does not compute on numbers. Where a step needs one of
//! them it returns an action that says what is to be done, and the host
//! answers with the next step's event. The host runs the loop; a program
//! that loops forever keeps the host stepping forever.

pub mod environment;
pub mod error;
pub mod expressions;
pub mod frames;
pub mod laws;
pub mod statements;
pub mod value;

use crate::expression::Expression;
use crate::lexer::{Token, TokenType};
use crate::span::Span;
use crate::statement::{Declaration, Statement};
use environment::Environment;
use error::Error;
use std::rc::Rc;
use value::{Callable, Value};
use vstd::prelude::*;

verus! {

/// Where a piece of a program runs: the source text that it was parsed
/// from, and its scope.
#[derive(Debug, Clone, Copy)]
pub struct Context<'a> {
    pub source: &'a str,
    pub scope: usize,
}

/// What is left to do once a value has been found: a stack of these is the
/// rest of the program.
#[derive(Debug)]
pub enum Frame<'a> {
    /// Run the declarations of a block or a body from `next` on.
    Sequence { declarations: &'a Vec<Declaration>, next: usize, context: Context<'a> },
    /// Bind the value to a name.
    Define { name: Token, context: Context<'a> },
    /// Print the value.
    Print,
    /// Take the branch that the value chooses.
    Branch {
        then_branch: &'a Statement,
        else_branch: Option<&'a Statement>,
        context: Context<'a>,
    },
    /// Run the body of the loop if the value says so.
    Loop { condition: &'a Expression, body: &'a Statement, context: Context<'a> },
    /// The body of the loop has run: look at the condition again.
    Repeat { condition: &'a Expression, body: &'a Statement, context: Context<'a> },
    /// Return the value from the function that is running.
    Return,
    /// The end of a function's body: the value is what the call yields.
    Boundary,
    /// Assign the value to a name.
    Assign { name: Token, context: Context<'a> },
    /// Apply a unary operator to the value.
    Unary { operator: Token },
    /// The value is the left operand of a binary operator: go on with the right one.
    Right { operator: Token, span: Span, right: &'a Expression, context: Context<'a> },
    /// The value is the right operand of a binary operator: apply it.
    Apply { operator: Token, span: Span, left: Value<'a> },
    /// The value is the left operand of `and` or `or`.
    Logical { operator: Token, right: &'a Expression, context: Context<'a> },
    /// The value is what is being called.
    Callee {
        callee_span: Span,
        closing_paren: Token,
        arguments: &'a Vec<Rc<Expression>>,
        context: Context<'a>,
    },
    /// The value is the next argument of a call.
    Arguments {
        callee: Callable<'a>,
        arguments: &'a Vec<Rc<Expression>>,
        values: Vec<Value<'a>>,
        context: Context<'a>,
    },
}

/// What the machine does next.
#[derive(Debug)]
pub enum Focus<'a> {
    Declare(&'a Declaration, Context<'a>),
    Execute(&'a Statement, Context<'a>),
    Evaluate(&'a Expression, Context<'a>),
    /// Hand a value to the frame on top. A statement that has run hands on `nil`.
    Deliver(Value<'a>),
    /// Return a value: drop frames up to the end of the function's body.
    Unwind(Value<'a>),
    /// Wait for the host to answer with a number.
    AwaitNumber(Span),
    /// Wait for the host to answer with a truth value.
    AwaitBoolean(Span),
    /// Wait for the host to answer with a text.
    AwaitText(Span),
    /// There is nothing more to do.
    Finished,
}

/// What the host hands to a step.
#[derive(Debug)]
pub enum Event {
    /// Nothing: the last action asked for no answer.
    Resume,
    /// The number that the last action asked for.
    Number(u64),
    /// The truth value that the last action asked for.
    Boolean(bool),
    /// The text that the last action asked for.
    Text(String),
}

/// What a step asks of the host.
#[derive(Debug)]
pub enum Action {
    /// Nothing: step again.
    Continue,
    /// Print the text on a line of its own, then step again.
    Print(String),
    /// Read the text as a number, and answer with the number.
    ParseNumber(String),
    /// Negate the number, and answer with the result.
    Negate(u64),
    /// Apply the operator to the numbers, and answer with the result: a
    /// number for `+`, `-`, `*` and `/`, a truth value for a comparison.
    Calculate { operator: TokenType, left: u64, right: u64 },
    /// Write the number as text, and answer with the text.
    Format(u64),
    /// The program has run to its end.
    Done,
    /// The program has failed.
    Failed(Error),
}

pub struct Interpreter<'a> {
    pub environment: Environment<'a>,
    pub frames: Vec<Frame<'a>>,
    pub focus: Focus<'a>,
}

/// Whether an action asks for nothing but the next step.
pub fn is_continue(action: &Action) -> (yes: bool)
    ensures
        yes == (*action is Continue),
{
    match action {
        Action::Continue => true,
        _ => false,
    }
}

/// The value that a statement hands on when it has run.
pub open spec fn nothing<'a>() -> Value<'a> {
    Value::Nil(Span { start: 0, end: 0 })
}

/// Whether an operator stands between two numbers and yields a number.
pub open spec fn is_arithmetic(operator: TokenType) -> bool {
    operator == TokenType::Minus || operator == TokenType::Slash || operator == TokenType::Star
}

/// Whether an operator compares two numbers.
pub open spec fn is_comparison(operator: TokenType) -> bool {
    operator == TokenType::BangEqual || operator == TokenType::EqualEqual || operator
        == TokenType::Greater || operator == TokenType::GreaterEqual || operator == TokenType::Less
        || operator == TokenType::LessEqual
}

/// Whether an operator is one of those that a binary expression may have.
pub open spec fn is_binary(operator: TokenType) -> bool {
    operator == TokenType::Plus || is_arithmetic(operator) || is_comparison(operator)
}

/// One step of the machine: what it does depends on its focus.
pub open spec fn stepped<'a>(
    before: Interpreter<'a>,
    event: Event,
    after: Interpreter<'a>,
    action: Action,
) -> bool {
    match before.focus {
        Focus::Declare(declaration, context) => statements::declared(
            before,
            declaration,
            context,
            after,
            action,
        ),
        Focus::Execute(statement, context) => statements::executed(
            before,
            statement,
            context,
            after,
            action,
        ),
        Focus::Evaluate(expression, context) => expressions::evaluated(
            before,
            expression,
            context,
            after,
            action,
        ),
        Focus::Deliver(value) => frames::delivered(before, value, after, action),
        Focus::Unwind(value) => frames::unwound(before, value, after, action),
        Focus::Finished => action is Done && after.moves(before, before.frames@, Focus::Finished),
        _ => frames::answered(before, event, after, action),
    }
}

/// A run of `steps` steps, of which all but the last ask nothing of the
/// host: the first takes `event`, the last yields `action`.
pub open spec fn runs<'a>(
    before: Interpreter<'a>,
    event: Event,
    after: Interpreter<'a>,
    action: Action,
    steps: nat,
) -> bool
    decreases steps,
{
    if steps == 0 {
        false
    } else if steps == 1 {
        stepped(before, event, after, action)
    } else {
        exists|middle: Interpreter<'a>| #[trigger]
            stepped(before, event, middle, Action::Continue) && runs(
                middle,
                Event::Resume,
                after,
                action,
                (steps - 1) as nat,
            )
    }
}

/// A run that has asked nothing of the host goes on by one step.
pub proof fn lemma_run_goes_on<'a>(
    before: Interpreter<'a>,
    event: Event,
    middle: Interpreter<'a>,
    after: Interpreter<'a>,
    action: Action,
    steps: nat,
)
    requires
        runs(before, event, middle, Action::Continue, steps),
        stepped(middle, Event::Resume, after, action),
    ensures
        runs(before, event, after, action, steps + 1),
    decreases steps,
{
    if steps == 1 {
        assert(stepped(before, event, middle, Action::Continue) && runs(
            middle,
            Event::Resume,
            after,
            action,
            1,
        ));
    } else {
        let first = choose|first: Interpreter<'a>| #[trigger]
            stepped(before, event, first, Action::Continue) && runs(
                first,
                Event::Resume,
                middle,
                Action::Continue,
                (steps - 1) as nat,
            );
        lemma_run_goes_on(first, Event::Resume, middle, after, action, (steps - 1) as nat);
        assert(stepped(before, event, first, Action::Continue) && runs(
            first,
            Event::Resume,
            after,
            action,
            steps,
        ));
    }
}

/// A step that asks for no answer leaves a machine that waits for none.
pub proof fn lemma_continue_waits_for_nothing<'a>(
    before: Interpreter<'a>,
    event: Event,
    after: Interpreter<'a>,
    action: Action,
)
    requires
        before.spec_accepts(event),
        stepped(before, event, after, action),
        action is Continue || action is Print || action is Done || action is Failed,
    ensures
        !(after.focus is AwaitNumber),
        !(after.focus is AwaitBoolean),
        !(after.focus is AwaitText),
{
}

impl<'a> Context<'a> {
    /// Whether the context makes sense among `count` scopes: its scope is
    /// one of them.
    pub open spec fn within(self, count: nat) -> bool {
        self.scope < count
    }
}

impl<'a> Frame<'a> {
    /// Whether the frame makes sense among `count` scopes: its scope is
    /// one of them, and so are the scopes of the functions that it holds.
    pub open spec fn within(self, count: nat) -> bool {
        match self {
            Frame::Sequence { context, .. } => context.within(count),
            Frame::Define { context, .. } => context.within(count),
            Frame::Branch { context, .. } => context.within(count),
            Frame::Loop { context, .. } => context.within(count),
            Frame::Repeat { context, .. } => context.within(count),
            Frame::Assign { context, .. } => context.within(count),
            Frame::Right { context, .. } => context.within(count),
            Frame::Logical { context, .. } => context.within(count),
            Frame::Callee { context, .. } => context.within(count),
            Frame::Apply { left, .. } => left.within(count),
            Frame::Arguments { callee, values, context, .. } => {
                &&& callee.environment < count
                &&& context.within(count)
                &&& values_within(values@, count)
            },
            Frame::Print | Frame::Return | Frame::Boundary | Frame::Unary { .. } => true,
        }
    }
}

impl<'a> Focus<'a> {
    /// Whether the focus makes sense among `count` scopes.
    pub open spec fn within(self, count: nat) -> bool {
        match self {
            Focus::Declare(_, context) => context.within(count),
            Focus::Execute(_, context) => context.within(count),
            Focus::Evaluate(_, context) => context.within(count),
            Focus::Deliver(value) => value.within(count),
            Focus::Unwind(value) => value.within(count),
            _ => true,
        }
    }
}

/// Whether all of the values make sense among `count` scopes.
pub open spec fn values_within<'a>(values: Seq<Value<'a>>, count: nat) -> bool {
    forall|i: int| 0 <= i < values.len() ==> (#[trigger] values[i]).within(count)
}

/// Whether all of the frames make sense among `count` scopes.
pub open spec fn frames_within<'a>(frames: Seq<Frame<'a>>, count: nat) -> bool {
    forall|i: int| 0 <= i < frames.len() ==> (#[trigger] frames[i]).within(count)
}

/// What makes sense among some scopes makes sense among more.
pub proof fn lemma_frames_within_more<'a>(frames: Seq<Frame<'a>>, count: nat, more: nat)
    requires
        frames_within(frames, count),
        count <= more,
    ensures
        frames_within(frames, more),
{
    assert forall|i: int| 0 <= i < frames.len() implies (#[trigger] frames[i]).within(more) by {
        assert(frames[i].within(count));
        match frames[i] {
            Frame::Arguments { values, .. } => {
                assert forall|k: int| 0 <= k < values@.len() implies (#[trigger] values@[k]).within(
                    more,
                ) by {
                    assert(values@[k].within(count));
                }
            },
            _ => {},
        }
    }
}

impl<'a> Environment<'a> {
    /// The scopes are well formed, and every function that a name is bound
    /// to closes over one of them.
    pub open spec fn sound(self) -> bool {
        &&& self.wf()
        &&& forall|scope: int, name: Seq<char>|
            0 <= scope < self.count() ==> (#[trigger] self.local(scope, name) matches Some(value)
                ==> value.within(self.count()))
    }
}

impl<'a> Interpreter<'a> {
    /// The scopes are well formed, and every scope that the machine
    /// speaks of is one of them: those that its frames and its focus run
    /// in, and those that the functions it holds close over.
    pub open spec fn wf(self) -> bool {
        &&& self.environment.sound()
        &&& frames_within(self.frames@, self.environment.count())
        &&& self.focus.within(self.environment.count())
    }

    /// Whether `event` answers what the machine waits for. A machine that
    /// waits for nothing takes any event, and ignores it.
    pub open spec fn spec_accepts(self, event: Event) -> bool {
        match self.focus {
            Focus::AwaitNumber(_) => event is Number,
            Focus::AwaitBoolean(_) => event is Boolean,
            Focus::AwaitText(_) => event is Text,
            _ => true,
        }
    }

    /// The machine has gone on, in the same scopes, with the given frames
    /// and focus.
    pub open spec fn moves(self, before: Interpreter<'a>, frames: Seq<Frame<'a>>, focus: Focus<'a>) -> bool {
        &&& self.environment == before.environment
        &&& self.frames@ == frames
        &&& self.focus == focus
    }

    /// The machine has stopped: nothing is left of the program but its scopes.
    pub open spec fn halted(self, before: Interpreter<'a>) -> bool {
        &&& self.environment == before.environment
        &&& self.frames@ == Seq::<Frame<'a>>::empty()
        &&& self.focus == Focus::<'a>::Finished
    }

    /// A machine with the global scope alone and nothing to do.
    pub fn new() -> (interpreter: Self)
        ensures
            interpreter.wf(),
            interpreter.environment.count() == 1,
            interpreter.environment.parent(0) is None,
            forall|name: Seq<char>| #[trigger] interpreter.environment.local(0, name) is None,
            interpreter.frames@ == Seq::<Frame<'a>>::empty(),
            interpreter.focus == Focus::<'a>::Finished,
    {
        Interpreter { environment: Environment::new(), frames: Vec::new(), focus: Focus::Finished }
    }

    /// Makes `declarations` the program to run, in the global scope and in
    /// place of what was left of an earlier one. The scopes stay as they are:
    /// what an earlier program has defined, this one sees.
    pub fn interpret(&mut self, source: &'a str, declarations: &'a Vec<Declaration>)
        requires
            old(self).wf(),
        ensures
            final(self).wf(),
            final(self).moves(
                *old(self),
                seq![
                    Frame::Sequence {
                        declarations,
                        next: 0,
                        context: Context { source, scope: 0 },
                    },
                ],
                Focus::Deliver(nothing()),
            ),
    {
        proof {
            self.environment.lemma_has_global();
        }
        self.frames.clear();
        self.frames.push(
            Frame::Sequence { declarations, next: 0, context: Context { source, scope: 0 } },
        );
        self.focus = Focus::Deliver(Value::Nil(Span { start: 0, end: 0 }));
    }

    /// Whether `event` answers what the machine waits for.
    pub fn accepts(&self, event: &Event) -> (accepted: bool)
        ensures
            accepted == self.spec_accepts(*event),
    {
        match &self.focus {
            Focus::AwaitNumber(_) => match event {
                Event::Number(_) => true,
                _ => false,
            },
            Focus::AwaitBoolean(_) => match event {
                Event::Boolean(_) => true,
                _ => false,
            },
            Focus::AwaitText(_) => match event {
                Event::Text(_) => true,
                _ => false,
            },
            _ => true,
        }
    }

    /// The value that a statement of the program itself, not one of a
    /// block or of a function, has just yielded. A statement that yields
    /// nothing hands on `nil` from nowhere, which is no value to show.
    pub open spec fn spec_yielded(self) -> Option<Value<'a>> {
        match self.focus {
            Focus::Deliver(value) => if self.frames@.len() == 1 && value != nothing() {
                Some(value)
            } else {
                None
            },
            _ => None,
        }
    }

    /// The value that a statement of the program itself has just yielded,
    /// for a prompt to show.
    pub fn yielded(&self) -> (value: Option<&Value<'a>>)
        ensures
            match value {
                Some(value) => self.spec_yielded() == Some(*value),
                None => self.spec_yielded() is None,
            },
    {
        match &self.focus {
            Focus::Deliver(value) => {
                if self.frames.len() != 1 {
                    return None;
                }
                match value {
                    Value::Nil(span) => {
                        if span.start == 0 && span.end == 0 {
                            None
                        } else {
                            Some(value)
                        }
                    },
                    _ => Some(value),
                }
            },
            _ => None,
        }
    }

    /// Whether the program has come to its end, or none was given.
    pub fn is_finished(&self) -> (finished: bool)
        ensures
            finished == (self.focus is Finished),
    {
        match &self.focus {
            Focus::Finished => true,
            _ => false,
        }
    }

    /// Runs one step of the program.
    ///
    /// The event is the host's answer to the action of the step before,
    /// where that action asked for one. The step says what the host is to
    /// do next: `Continue` and `Print` ask for no answer, `Done` and
    /// `Failed` end the run.
    pub fn step(&mut self, event: Event) -> (action: Action)
        requires
            old(self).wf(),
            old(self).spec_accepts(event),
        ensures
            final(self).wf(),
            stepped(*old(self), event, *final(self), action),
    {
        let mut focus = Focus::Finished;
        std::mem::swap(&mut self.focus, &mut focus);
        match focus {
            Focus::Declare(declaration, context) => self.evaluate_declaration(declaration, context),
            Focus::Execute(statement, context) => self.evaluate_statement(statement, context),
            Focus::Evaluate(expression, context) => self.evaluate_expression(expression, context),
            Focus::Deliver(value) => self.deliver(value),
            Focus::Unwind(value) => self.unwind(value),
            Focus::AwaitNumber(span) => match event {
                Event::Number(bits) => self.go(Focus::Deliver(Value::Number(span, bits))),
                _ => Action::Continue,
            },
            Focus::AwaitBoolean(span) => match event {
                Event::Boolean(value) => self.go(Focus::Deliver(Value::Boolean(span, value))),
                _ => Action::Continue,
            },
            Focus::AwaitText(span) => match event {
                Event::Text(text) => self.go(Focus::Deliver(Value::String(span, text))),
                _ => Action::Continue,
            },
            Focus::Finished => Action::Done,
        }
    }

    /// Runs the program until a step asks something of the host, prints,
    /// ends the run, or `budget` steps are done. Returns the action of the
    /// last step and the number of steps. A program may loop for ever: the
    /// budget is what ends every call.
    pub fn run(&mut self, event: Event, budget: usize) -> (result: (Action, usize))
        requires
            old(self).wf(),
            old(self).spec_accepts(event),
            budget >= 1,
        ensures
            final(self).wf(),
            1 <= result.1 <= budget,
            runs(*old(self), event, *final(self), result.0, result.1 as nat),
            result.0 is Continue ==> result.1 == budget,
    {
        let mut action = self.step(event);
        let mut steps: usize = 1;
        proof {
            if action is Continue {
                lemma_continue_waits_for_nothing(*old(self), event, *self, action);
            }
        }
        while steps < budget && is_continue(&action)
            invariant
                self.wf(),
                1 <= steps <= budget,
                runs(*old(self), event, *self, action, steps as nat),
                action is Continue ==> self.spec_accepts(Event::Resume),
            decreases budget - steps,
        {
            let ghost middle = *self;
            action = self.step(Event::Resume);
            proof {
                lemma_run_goes_on(*old(self), event, middle, *self, action, steps as nat);
                if action is Continue {
                    lemma_continue_waits_for_nothing(middle, Event::Resume, *self, action);
                }
            }
            steps += 1;
        }
        (action, steps)
    }

    /// Stops the machine with an error.
    pub(crate) fn fail(&mut self, error: Error) -> (action: Action)
        ensures
            final(self).halted(*old(self)),
            old(self).environment.sound() ==> final(self).wf(),
            action == Action::Failed(error),
    {
        self.frames.clear();
        self.focus = Focus::Finished;
        Action::Failed(error)
    }

    /// Binds `name` to `value` in `scope`.
    pub(crate) fn bind(&mut self, scope: usize, name: String, value: Value<'a>)
        requires
            old(self).wf(),
            scope < old(self).environment.count(),
            value.within(old(self).environment.count()),
        ensures
            final(self).wf(),
            final(self).environment.binds(old(self).environment, scope as int, name@, value),
            final(self).frames == old(self).frames,
            final(self).focus == old(self).focus,
    {
        self.environment.define(scope, name, value);
    }

    /// Opens a new scope inside `parent`.
    pub(crate) fn enter(&mut self, parent: usize) -> (scope: usize)
        requires
            old(self).wf(),
            parent < old(self).environment.count(),
        ensures
            final(self).wf(),
            scope == old(self).environment.count(),
            final(self).environment.opens(old(self).environment, parent),
            final(self).frames == old(self).frames,
            final(self).focus == old(self).focus,
    {
        let scope = self.environment.close_over(parent);
        proof {
            lemma_frames_within_more(
                self.frames@,
                old(self).environment.count(),
                self.environment.count(),
            );
        }
        scope
    }

    /// Goes on with the given focus.
    pub(crate) fn go(&mut self, focus: Focus<'a>) -> (action: Action)
        ensures
            final(self).moves(*old(self), old(self).frames@, focus),
            old(self).wf() && focus.within(old(self).environment.count()) ==> final(self).wf(),
            action is Continue,
    {
        self.focus = focus;
        Action::Continue
    }

    /// Goes on with the given focus, a frame more on the stack.
    pub(crate) fn push(&mut self, frame: Frame<'a>, focus: Focus<'a>) -> (action: Action)
        ensures
            final(self).moves(*old(self), old(self).frames@.push(frame), focus),
            old(self).wf() && frame.within(old(self).environment.count()) && focus.within(
                old(self).environment.count(),
            ) ==> final(self).wf(),
            action is Continue,
    {
        self.frames.push(frame);
        self.focus = focus;
        Action::Continue
    }
}

} // verus!
