use rusty_lox::expression::{
    binary_expression, number_literal_expression, Expression, ThisExpression,
};
use rusty_lox::interpreter::environment::Environment;
use rusty_lox::interpreter::error::{Error, TypeError};
use rusty_lox::interpreter::value::{Kind, Value};
use rusty_lox::interpreter::{Action, Event, Interpreter};
use rusty_lox::lexer::{Lexer, Token, TokenType};
use rusty_lox::parser::Parser;
use rusty_lox::span::Span;
use rusty_lox::statement::{Declaration, Statement};
use rusty_lox::text::{lexeme_of, literal_text_of};
use std::rc::Rc;

fn parse(source: &str) -> Vec<Declaration> {
    let lexed = Lexer::lex(source);
    assert_eq!(lexed.errors.len(), 0);
    let parsed = Parser::parse(&lexed.tokens);
    assert_eq!(parsed.errors, vec![]);
    parsed.declarations
}

fn calculate(operator: TokenType, left: f64, right: f64) -> Event {
    match operator {
        TokenType::Plus => Event::Number((left + right).to_bits()),
        TokenType::Minus => Event::Number((left - right).to_bits()),
        TokenType::Star => Event::Number((left * right).to_bits()),
        TokenType::Slash => Event::Number((left / right).to_bits()),
        TokenType::Greater => Event::Boolean(left > right),
        TokenType::GreaterEqual => Event::Boolean(left >= right),
        TokenType::Less => Event::Boolean(left < right),
        TokenType::LessEqual => Event::Boolean(left <= right),
        TokenType::EqualEqual => Event::Boolean(left == right),
        TokenType::BangEqual => Event::Boolean(left != right),
        other => panic!("no operator on numbers: {:?}", other),
    }
}

/// Runs the machine to its end, doing what it asks for, and returns the
/// lines it printed and the error it failed with.
fn drive(interpreter: &mut Interpreter) -> (Vec<String>, Option<Error>) {
    let mut printed = Vec::new();
    let mut event = Event::Resume;
    loop {
        assert!(interpreter.accepts(&event));
        event = match interpreter.step(event) {
            Action::Continue => Event::Resume,
            Action::Print(line) => {
                printed.push(line);
                Event::Resume
            }
            Action::ParseNumber(text) => Event::Number(text.parse::<f64>().unwrap().to_bits()),
            Action::Negate(bits) => Event::Number((-f64::from_bits(bits)).to_bits()),
            Action::Calculate { operator, left, right } => {
                calculate(operator, f64::from_bits(left), f64::from_bits(right))
            }
            Action::Format(bits) => Event::Text(format!("{}", f64::from_bits(bits))),
            Action::Done => return (printed, None),
            Action::Failed(error) => return (printed, Some(error)),
        };
    }
}

fn run(source: &str) -> (Vec<String>, Option<Error>) {
    let declarations = parse(source);
    let mut interpreter = Interpreter::new();
    interpreter.interpret(source, &declarations);
    let outcome = drive(&mut interpreter);
    assert!(interpreter.is_finished());
    assert_eq!(interpreter.frames.len(), 0);
    outcome
}

fn prints(source: &str) -> Vec<String> {
    let (printed, error) = run(source);
    assert_eq!(error, None);
    printed
}

fn fails(source: &str) -> Error {
    let (_, error) = run(source);
    error.expect("the program should fail")
}

fn type_error(expected: &str, got: &str, start: usize, end: usize) -> Error {
    Error::Type(TypeError {
        expected: expected.to_string(),
        got: got.to_string(),
        source_token_span: Span { start, end },
    })
}

#[test]
fn arithmetic_follows_precedence() {
    assert_eq!(prints("print 1 + 2 * 3;"), vec!["7"]);
    assert_eq!(prints("print (1 + 2) * 3;"), vec!["9"]);
    assert_eq!(prints("print 7 / 2;"), vec!["3.5"]);
    assert_eq!(prints("print 2.5 * 4 - 1;"), vec!["9"]);
}

#[test]
fn subtraction_associates_to_the_left() {
    assert_eq!(prints("print 1 - 2 - 3;"), vec!["-4"]);
    assert_eq!(prints("print 8 / 4 / 2;"), vec!["1"]);
}

#[test]
fn plus_goes_by_its_left_operand() {
    assert_eq!(prints("print \"a\" + 1;"), vec!["a1"]);
    assert_eq!(prints("print \"a\" + \"b\" + \"c\";"), vec!["abc"]);
    assert_eq!(prints("print \"is \" + true;"), vec!["is true"]);
    assert_eq!(prints("print \"is \" + nil;"), vec!["is nil"]);
    assert_eq!(prints("print \"\" + 1.5 + 2;"), vec!["1.52"]);
    assert_eq!(fails("print 1 + \"a\";"), type_error("Number", "String", 10, 13));
    assert_eq!(fails("print nil + 1;"), type_error("Number", "Nil", 6, 9));
    assert_eq!(fails("print true + \"a\";"), type_error("Number", "Boolean", 6, 10));
}

#[test]
fn arithmetic_needs_numbers() {
    assert_eq!(fails("print \"a\" - 1;"), type_error("Number", "String", 6, 9));
    assert_eq!(fails("print 1 * nil;"), type_error("Number", "Nil", 10, 13));
    assert_eq!(fails("print 1 / true;"), type_error("Number", "Boolean", 10, 14));
    assert_eq!(fails("print -\"a\";"), type_error("Number", "String", 7, 10));
    assert_eq!(fails("print 1 < \"a\";"), type_error("Number", "String", 10, 13));
    assert_eq!(fails("print \"a\" == \"a\";"), type_error("Number", "String", 6, 9));
}

#[test]
fn the_left_operand_fails_before_the_right_one_is_looked_at() {
    assert_eq!(fails("print nil - missing;"), type_error("Number", "Nil", 6, 9));
    let error = fails("print nil + missing;");
    assert!(matches!(error, Error::VariableDoesntExist(token) if token.span == Span { start: 12, end: 19 }));
}

#[test]
fn comparisons_yield_truth_values() {
    assert_eq!(
        prints("print 1 < 2; print 2 <= 2; print 1 > 2; print 2 >= 3; print 1 == 1; print 1 != 1;"),
        vec!["true", "true", "false", "false", "true", "false"]
    );
}

#[test]
fn unary_operators() {
    assert_eq!(prints("print -3; print --3; print -(1 + 2);"), vec!["-3", "3", "-3"]);
    assert_eq!(
        prints("print !true; print !false; print !nil; print !0; print !\"\"; print !!nil;"),
        vec!["false", "true", "true", "false", "false", "false"]
    );
}

#[test]
fn only_nil_and_false_are_falsy() {
    assert_eq!(
        prints(
            "if (0) print \"zero\"; if (\"\") print \"empty\"; if (nil) print \"nil\"; else print \"not nil\"; if (false) print \"false\"; fun f() {} if (f) print \"function\";"
        ),
        vec!["zero", "empty", "not nil", "function"]
    );
}

#[test]
fn logical_operators_yield_an_operand() {
    assert_eq!(
        prints("print 1 or 2; print nil or 2; print false or nil; print 1 and 2; print nil and 2; print false and missing; print true or missing;"),
        vec!["1", "2", "nil", "2", "nil", "false", "true"]
    );
}

#[test]
fn literals_print_as_they_are() {
    assert_eq!(
        prints("print \"hello world\"; print 12.50; print true; print false; print nil; print \"\";"),
        vec!["hello world", "12.5", "true", "false", "nil", ""]
    );
}

#[test]
fn an_inner_variable_hides_the_outer_one() {
    assert_eq!(prints("{ var x = 1; { var x = 2; print x; } print x; }"), vec!["2", "1"]);
}

#[test]
fn a_block_sees_and_changes_the_scopes_around_it() {
    assert_eq!(
        prints("var x = 1; { x = x + 1; { x = x + 1; var y = x; print y; } } print x;"),
        vec!["3", "3"]
    );
    let error = fails("{ var inner = 1; } print inner;");
    assert!(matches!(error, Error::VariableDoesntExist(token) if token.span == Span { start: 25, end: 30 }));
}

#[test]
fn a_variable_may_be_declared_again() {
    assert_eq!(prints("var x = 1; var x = 2; print x; var y; print y;"), vec!["2", "nil"]);
}

#[test]
fn a_closure_keeps_its_variable() {
    let source = "fun make() { var count = 0; fun next() { count = count + 1; return count; } return next; } var counter = make(); print counter(); print counter(); var other = make(); print other(); print counter();";
    assert_eq!(prints(source), vec!["1", "2", "1", "3"]);
}

#[test]
fn a_function_runs_in_the_scope_it_was_declared_in() {
    let source = "var x = \"global\"; fun show() { print x; } { var x = \"local\"; show(); }";
    assert_eq!(prints(source), vec!["global"]);
}

#[test]
fn assignment_needs_a_declared_variable() {
    let source = "x = 1;";
    let declarations = parse(source);
    let mut interpreter = Interpreter::new();
    interpreter.interpret(source, &declarations);
    let (printed, error) = drive(&mut interpreter);
    assert_eq!(printed.len(), 0);
    assert!(matches!(error, Some(Error::VariableDoesntExist(token)) if token.span == Span { start: 0, end: 1 }));
    assert!(interpreter.environment.get(0, &"x".to_string()).is_none());
    assert_eq!(interpreter.environment.len(), 1);
}

#[test]
fn assignment_yields_the_value() {
    assert_eq!(
        prints("var a; var b; print a = b = 2; print a; print b;"),
        vec!["2", "2", "2"]
    );
}

#[test]
fn a_call_needs_as_many_arguments_as_parameters() {
    let declaration = "fun f(a, b) { print \"ran\"; } ";
    let (printed, error) = run(&format!("{}f(1);", declaration));
    assert_eq!(printed.len(), 0);
    assert_eq!(
        error,
        Some(Error::Arity { got: 1, expected: 2, call_span: Span { start: 29, end: 33 } })
    );
    let (printed, error) = run(&format!("{}f(1, 2, 3);", declaration));
    assert_eq!(printed.len(), 0);
    assert_eq!(
        error,
        Some(Error::Arity { got: 3, expected: 2, call_span: Span { start: 29, end: 39 } })
    );
    assert_eq!(prints(&format!("{}f(1, 2);", declaration)), vec!["ran"]);
}

#[test]
fn the_arguments_of_a_failed_call_are_not_evaluated() {
    let (printed, error) = run("fun f(a) {} fun g() { print \"g\"; return 1; } f(g(), g());");
    assert_eq!(printed.len(), 0);
    assert!(matches!(error, Some(Error::Arity { got: 2, expected: 1, .. })));
}

#[test]
fn only_functions_can_be_called() {
    assert_eq!(fails("var x = 1; x();"), Error::NotCallable(Span { start: 11, end: 12 }));
    assert_eq!(fails("\"text\"(1);"), Error::NotCallable(Span { start: 0, end: 6 }));
    assert_eq!(fails("nil();"), Error::NotCallable(Span { start: 0, end: 3 }));
}

#[test]
fn arguments_are_evaluated_from_left_to_right_in_the_callers_scope() {
    let source = "fun show(a, b, c) { print a; print b; print c; } var n = 0; fun next() { n = n + 1; return n; } { var n = 10; show(next(), n, next()); }";
    assert_eq!(prints(source), vec!["1", "10", "2"]);
}

#[test]
fn a_function_without_a_return_yields_nil() {
    assert_eq!(prints("fun f() { 1 + 1; } print f(); fun g() {} print g();"), vec!["nil", "nil"]);
}

#[test]
fn a_return_leaves_loops_and_blocks() {
    let source = "fun find(limit) { var i = 0; while (true) { if (i >= limit) { return i; } i = i + 1; } print \"never\"; } print find(3);";
    assert_eq!(prints(source), vec!["3"]);
}

#[test]
fn a_return_outside_a_function_ends_the_program() {
    assert_eq!(prints("print 1; return 2; print 3;"), vec!["1"]);
    assert_eq!(prints("print 1; { if (true) return 2; } print 3;"), vec!["1"]);
}

#[test]
fn functions_may_call_themselves() {
    let source = "fun fib(n) { if (n < 2) return n; return fib(n - 1) + fib(n - 2); } print fib(10);";
    assert_eq!(prints(source), vec!["55"]);
}

#[test]
fn a_function_prints_with_its_name() {
    assert_eq!(prints("fun shout() {} print shout; print \"it is \" + shout;"), vec!["<fn shout>", "it is <fn shout>"]);
}

#[test]
fn a_for_loop_counts() {
    assert_eq!(prints("for (var i = 0; i < 3; i = i + 1) print i;"), vec!["0", "1", "2"]);
    assert_eq!(
        prints("{ var i = 0; while (i < 3) { print i; i = i + 1; } }"),
        vec!["0", "1", "2"]
    );
    let error = fails("for (var i = 0; i < 1; i = i + 1) {} print i;");
    assert!(matches!(error, Error::VariableDoesntExist(_)));
}

#[test]
fn a_for_loop_without_a_condition_goes_on_until_a_return() {
    let source = "fun count() { for (var i = 0;; i = i + 1) { print i; if (i >= 2) return i; } } print count();";
    assert_eq!(prints(source), vec!["0", "1", "2", "2"]);
    let declarations = parse("for (;;) {}");
    let mut interpreter = Interpreter::new();
    interpreter.interpret("for (;;) {}", &declarations);
    let (action, steps) = interpreter.run(Event::Resume, 500);
    assert!(matches!(action, Action::Continue));
    assert_eq!(steps, 500);
}

#[test]
fn the_prompt_is_shown_what_a_statement_of_the_program_yields() {
    let source = "var x = 1; x = 2; { x = 3; } print x; nil;";
    let declarations = parse(source);
    let mut interpreter = Interpreter::new();
    interpreter.interpret(source, &declarations);
    let mut shown = Vec::new();
    let mut event = Event::Resume;
    assert!(interpreter.yielded().is_none());
    loop {
        let action = interpreter.step(event);
        match interpreter.yielded() {
            Some(Value::Number(_, bits)) => shown.push(format!("{}", f64::from_bits(*bits))),
            Some(Value::Nil(span)) => shown.push(format!("nil at {}", span.start)),
            Some(other) => panic!("not expected: {:?}", other),
            None => {}
        }
        match answer(action) {
            Some(next) => event = next,
            None => break,
        }
    }
    assert_eq!(shown, vec!["2", "nil at 38"]);
}

#[test]
fn a_while_loop_may_never_run() {
    assert_eq!(prints("while (false) print 1; print 2;"), vec!["2"]);
}

#[test]
fn if_takes_one_branch() {
    assert_eq!(
        prints("if (1 < 2) print \"then\"; else print \"else\"; if (1 > 2) print \"then\"; else print \"else\"; if (nil) print \"then\"; print \"after\";"),
        vec!["then", "else", "after"]
    );
}

#[test]
fn an_unknown_variable_fails() {
    let error = fails("print 1; print missing; print 2;");
    assert!(matches!(error, Error::VariableDoesntExist(token) if token.span == Span { start: 15, end: 22 }));
    assert_eq!(run("print 1; print missing; print 2;").0, vec!["1"]);
}

#[test]
fn what_one_program_defines_the_next_one_sees() {
    let first = "var x = 1; fun twice(n) { return n * 2; }";
    let second = "x = x + 1; print twice(x);";
    let first_declarations = parse(first);
    let second_declarations = parse(second);
    let mut interpreter = Interpreter::new();
    interpreter.interpret(first, &first_declarations);
    assert_eq!(drive(&mut interpreter), (vec![], None));
    interpreter.interpret(second, &second_declarations);
    assert_eq!(drive(&mut interpreter), (vec!["4".to_string()], None));
}

#[test]
fn a_finished_machine_stays_finished() {
    let mut interpreter = Interpreter::new();
    assert!(interpreter.is_finished());
    assert!(matches!(interpreter.step(Event::Resume), Action::Done));
    assert!(interpreter.is_finished());
}

#[test]
fn the_machine_takes_only_the_answer_it_waits_for() {
    let source = "print 1;";
    let declarations = parse(source);
    let mut interpreter = Interpreter::new();
    interpreter.interpret(source, &declarations);
    let mut action = interpreter.step(Event::Resume);
    while matches!(action, Action::Continue) {
        action = interpreter.step(Event::Resume);
    }
    assert!(matches!(action, Action::ParseNumber(text) if text == "1"));
    assert!(!interpreter.accepts(&Event::Resume));
    assert!(!interpreter.accepts(&Event::Boolean(true)));
    assert!(!interpreter.accepts(&Event::Text("1".to_string())));
    assert!(interpreter.accepts(&Event::Number(7)));
}

#[test]
fn an_environment_finds_the_innermost_binding() {
    let mut environment = Environment::new();
    let inner = environment.close_over(0);
    let innermost = environment.close_over(inner);
    assert_eq!((inner, innermost, environment.len()), (1, 2, 3));
    let span = Span { start: 0, end: 0 };
    environment.define(0, "x".to_string(), Value::Number(span, 1));
    environment.define(0, "y".to_string(), Value::Number(span, 2));
    environment.define(inner, "x".to_string(), Value::Number(span, 3));
    assert!(matches!(environment.get(innermost, &"x".to_string()), Some(Value::Number(_, 3))));
    assert!(matches!(environment.get(inner, &"x".to_string()), Some(Value::Number(_, 3))));
    assert!(matches!(environment.get(0, &"x".to_string()), Some(Value::Number(_, 1))));
    assert!(matches!(environment.get(innermost, &"y".to_string()), Some(Value::Number(_, 2))));
    assert!(environment.get(innermost, &"z".to_string()).is_none());

    assert_eq!(environment.assign(innermost, &"x".to_string(), Value::Boolean(span, true)), Ok(()));
    assert!(matches!(environment.get(inner, &"x".to_string()), Some(Value::Boolean(_, true))));
    assert!(matches!(environment.get(0, &"x".to_string()), Some(Value::Number(_, 1))));
    assert_eq!(environment.assign(innermost, &"y".to_string(), Value::Nil(span)), Ok(()));
    assert!(matches!(environment.get(0, &"y".to_string()), Some(Value::Nil(_))));
    assert_eq!(environment.assign(innermost, &"z".to_string(), Value::Nil(span)), Err(()));
    assert!(environment.get(0, &"z".to_string()).is_none());

    environment.define(0, "x".to_string(), Value::Nil(span));
    assert!(matches!(environment.get(0, &"x".to_string()), Some(Value::Nil(_))));
    assert!(matches!(environment.get(inner, &"x".to_string()), Some(Value::Boolean(_, true))));
}

#[test]
fn values_know_their_kind_and_truth() {
    let span = Span { start: 1, end: 2 };
    let text = Value::String(span, "a".to_string());
    assert_eq!(text.kind(), Kind::String);
    assert_eq!(text.span(), span);
    assert!(text.is_truthy());
    assert_eq!(text.text(), Some("a".to_string()));
    assert!(matches!(text.duplicate(), Value::String(s, t) if s == span && t == "a"));
    assert_eq!(Value::Number(span, 0).kind(), Kind::Number);
    assert!(Value::Number(span, 0).is_truthy());
    assert_eq!(Value::Number(span, 0).text(), None);
    assert!(!Value::Boolean(span, false).is_truthy());
    assert!(Value::Boolean(span, true).is_truthy());
    assert_eq!(Value::Boolean(span, true).text(), Some("true".to_string()));
    assert!(!Value::Nil(span).is_truthy());
    assert_eq!(Value::Nil(span).text(), Some("nil".to_string()));
    assert_eq!(Kind::Number.name(), "Number");
    assert_eq!(Kind::String.name(), "String");
    assert_eq!(Kind::Boolean.name(), "Boolean");
    assert_eq!(Kind::Nil.name(), "Nil");
    assert_eq!(Kind::Callable.name(), "Callable");
}

#[test]
fn a_type_error_names_both_types() {
    let error = Error::type_error("Number".to_string(), "Nil".to_string(), Span { start: 3, end: 6 });
    assert_eq!(error, type_error("Number", "Nil", 3, 6));
    assert_eq!(error.span(), Span { start: 3, end: 6 });
    assert_eq!(Error::NotCallable(Span { start: 1, end: 2 }).span(), Span { start: 1, end: 2 });
}

#[test]
fn what_cannot_be_evaluated_fails() {
    let source = "this;";
    let this = Rc::new(Expression::This(ThisExpression {
        keyword: Token::new(0, 4, TokenType::This),
    }));
    let declarations = vec![Declaration::Statement(Statement::Print(this))];
    let mut interpreter = Interpreter::new();
    interpreter.interpret(source, &declarations);
    assert_eq!(
        drive(&mut interpreter),
        (vec![], Some(Error::NotImplemented(Span { start: 0, end: 4 })))
    );

    let source = "1 , 2;";
    let comma = binary_expression(
        number_literal_expression(Token::new(0, 1, TokenType::Number)),
        number_literal_expression(Token::new(4, 5, TokenType::Number)),
        Token::new(2, 3, TokenType::Comma),
    );
    let declarations = vec![Declaration::Statement(Statement::Expression(comma))];
    let mut interpreter = Interpreter::new();
    interpreter.interpret(source, &declarations);
    assert_eq!(
        drive(&mut interpreter),
        (vec![], Some(Error::NotImplemented(Span { start: 2, end: 3 })))
    );
}

#[test]
fn a_name_that_does_not_fit_the_source_has_no_text() {
    assert_eq!(lexeme_of("print x;", Span { start: 6, end: 7 }), "x");
    assert_eq!(lexeme_of("print x;", Span { start: 6, end: 70 }), "");
    assert_eq!(lexeme_of("print x;", Span { start: 7, end: 6 }), "");
    assert_eq!(literal_text_of("\"text\"", Span { start: 0, end: 6 }), "text");
    assert_eq!(literal_text_of("\"\"", Span { start: 0, end: 2 }), "");
    assert_eq!(literal_text_of("\"", Span { start: 0, end: 1 }), "");
}

fn answer(action: Action) -> Option<Event> {
    match action {
        Action::ParseNumber(text) => Some(Event::Number(text.parse::<f64>().unwrap().to_bits())),
        Action::Negate(bits) => Some(Event::Number((-f64::from_bits(bits)).to_bits())),
        Action::Calculate { operator, left, right } => {
            Some(calculate(operator, f64::from_bits(left), f64::from_bits(right)))
        }
        Action::Format(bits) => Some(Event::Text(format!("{}", f64::from_bits(bits)))),
        Action::Continue | Action::Print(_) => Some(Event::Resume),
        Action::Done | Action::Failed(_) => None,
    }
}

#[test]
fn a_run_stops_where_the_host_is_needed() {
    let source = "print 1;";
    let declarations = parse(source);
    let mut interpreter = Interpreter::new();
    interpreter.interpret(source, &declarations);
    let (action, steps) = interpreter.run(Event::Resume, 2);
    assert!(matches!(action, Action::Continue));
    assert_eq!(steps, 2);
    let (action, steps) = interpreter.run(Event::Resume, 1000);
    assert!(matches!(&action, Action::ParseNumber(text) if text == "1"));
    assert_eq!(steps, 2);
    let (action, steps) = interpreter.run(answer(action).unwrap(), 1000);
    assert!(matches!(&action, Action::Format(bits) if f64::from_bits(*bits) == 1.0));
    assert_eq!(steps, 2);
    let (action, steps) = interpreter.run(answer(action).unwrap(), 1000);
    assert!(matches!(&action, Action::Print(line) if line == "1"));
    assert_eq!(steps, 2);
    let (action, steps) = interpreter.run(Event::Resume, 1000);
    assert!(matches!(action, Action::Done));
    assert_eq!(steps, 2);
    assert!(interpreter.is_finished());
}

#[test]
fn a_run_gives_what_single_steps_give() {
    let source = "fun fib(n) { if (n < 2) return n; return fib(n - 1) + fib(n - 2); } for (var i = 0; i < 8; i = i + 1) print \"fib \" + fib(i);";
    let by_steps = prints(source);
    let declarations = parse(source);
    let mut interpreter = Interpreter::new();
    interpreter.interpret(source, &declarations);
    let mut printed = Vec::new();
    let mut event = Event::Resume;
    loop {
        let (action, steps) = interpreter.run(event, 7);
        assert!(1 <= steps && steps <= 7);
        if let Action::Print(line) = &action {
            printed.push(line.clone());
        }
        match answer(action) {
            Some(next) => event = next,
            None => break,
        }
    }
    assert_eq!(printed, by_steps);
    assert_eq!(
        printed,
        vec!["fib 0", "fib 1", "fib 1", "fib 2", "fib 3", "fib 5", "fib 8", "fib 13"]
    );
}

#[test]
fn a_loop_that_never_ends_uses_up_every_budget() {
    let source = "while (true) {}";
    let declarations = parse(source);
    let mut interpreter = Interpreter::new();
    interpreter.interpret(source, &declarations);
    for _ in 0..10 {
        let (action, steps) = interpreter.run(Event::Resume, 1000);
        assert!(matches!(action, Action::Continue));
        assert_eq!(steps, 1000);
    }
    assert!(!interpreter.is_finished());
}
