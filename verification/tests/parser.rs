use rusty_lox::expression::{Expression, LiteralExpression};
use rusty_lox::lexer::{Lexer, Token, TokenType};
use rusty_lox::parser::{Error, Parser, ParserResult};
use rusty_lox::span::Span;
use rusty_lox::statement::{Declaration, Statement};

fn parse(source: &str) -> ParserResult {
    let lexed = Lexer::lex(source);
    assert_eq!(lexed.errors.len(), 0);
    Parser::parse(&lexed.tokens)
}

fn parse_expression(source: &str) -> String {
    let text = format!("{};", source);
    let parsed = parse(&text);
    assert_eq!(parsed.errors, vec![]);
    assert_eq!(parsed.declarations.len(), 1);
    match &parsed.declarations[0] {
        Declaration::Statement(Statement::Expression(expression)) => expression.prettify(&text),
        other => panic!("not an expression statement: {:?}", other),
    }
}

fn lexeme_of<'a>(source: &'a str, token: &Token) -> &'a str {
    token.span.slice(source)
}

#[test]
fn multiplication_binds_tighter_than_addition() {
    assert_eq!(parse_expression("1 + 2 * 3"), "(+ 1 (* 2 3))");
    assert_eq!(parse_expression("1 * 2 + 3"), "(+ (* 1 2) 3)");
    assert_eq!(parse_expression("1 + 2 / 3 - 4"), "(- (+ 1 (/ 2 3)) 4)");
}

#[test]
fn binary_operators_associate_to_the_left() {
    assert_eq!(parse_expression("1 - 2 - 3"), "(- (- 1 2) 3)");
    assert_eq!(parse_expression("8 / 4 / 2"), "(/ (/ 8 4) 2)");
    assert_eq!(parse_expression("1 < 2 < 3"), "(< (< 1 2) 3)");
    assert_eq!(parse_expression("1 == 2 != 3"), "(!= (== 1 2) 3)");
}

#[test]
fn every_level_of_precedence_has_its_place() {
    assert_eq!(parse_expression("1 == 2 < 3 + 4 * -5"), "(== 1 (< 2 (+ 3 (* 4 (- 5)))))");
    assert_eq!(parse_expression("!true == false"), "(== (! true) false)");
    assert_eq!(parse_expression("--1"), "(- (- 1))");
    assert_eq!(parse_expression("(1 + 2) * 3"), "(* (group (+ 1 2)) 3)");
    assert_eq!(parse_expression("nil"), "nil");
    assert_eq!(parse_expression("\"text\""), "\"text\"");
}

#[test]
fn logical_operators_bind_loosest() {
    let source = "a or b and c == d;";
    let parsed = parse(source);
    assert_eq!(parsed.errors, vec![]);
    let Declaration::Statement(Statement::Expression(expression)) = &parsed.declarations[0] else {
        panic!("not an expression statement");
    };
    let Expression::Logical(or) = &**expression else {
        panic!("not a logical expression");
    };
    assert_eq!(or.operator.type_, TokenType::Or);
    assert!(matches!(&*or.left, Expression::Variable(_)));
    let Expression::Logical(and) = &*or.right else {
        panic!("not a logical expression");
    };
    assert_eq!(and.operator.type_, TokenType::And);
    assert!(matches!(&*and.left, Expression::Variable(_)));
    let Expression::Binary(equality) = &*and.right else {
        panic!("not a binary expression");
    };
    assert_eq!(equality.operator.type_, TokenType::EqualEqual);
}

#[test]
fn assignment_associates_to_the_right() {
    let source = "a = b = 1;";
    let parsed = parse(source);
    assert_eq!(parsed.errors, vec![]);
    let Declaration::Statement(Statement::Expression(expression)) = &parsed.declarations[0] else {
        panic!("not an expression statement");
    };
    let Expression::Assignment(outer) = &**expression else {
        panic!("not an assignment");
    };
    assert_eq!(lexeme_of(source, &outer.name), "a");
    let Expression::Assignment(inner) = &*outer.value else {
        panic!("not an assignment");
    };
    assert_eq!(lexeme_of(source, &inner.name), "b");
    assert!(matches!(&*inner.value, Expression::Literal(LiteralExpression::Number(_))));
    assert_eq!(expression.span(), Span { start: 0, end: 9 });
}

#[test]
fn an_assignment_to_anything_but_a_variable_is_an_error() {
    let source = "1 + 2 = 3;";
    let parsed = parse(source);
    assert_eq!(
        parsed.errors,
        vec![Error::InvalidAssignmentTarget { target_span: Span { start: 0, end: 5 } }]
    );
    assert_eq!(parsed.declarations.len(), 1);
    let Declaration::Statement(Statement::Expression(expression)) = &parsed.declarations[0] else {
        panic!("not an expression statement");
    };
    assert_eq!(expression.prettify(source), "(+ 1 2)");
}

#[test]
fn calls_take_their_arguments_in_order() {
    let source = "f(1, g(2), 3)(4);";
    let parsed = parse(source);
    assert_eq!(parsed.errors, vec![]);
    let Declaration::Statement(Statement::Expression(expression)) = &parsed.declarations[0] else {
        panic!("not an expression statement");
    };
    let Expression::Call(outer) = &**expression else {
        panic!("not a call");
    };
    assert_eq!(outer.arguments.len(), 1);
    assert_eq!(outer.closing_paren.span, Span { start: 15, end: 16 });
    let Expression::Call(inner) = &*outer.callee else {
        panic!("not a call");
    };
    assert_eq!(inner.arguments.len(), 3);
    assert!(matches!(&*inner.callee, Expression::Variable(_)));
    assert!(matches!(&*inner.arguments[1], Expression::Call(_)));
    assert_eq!(expression.span(), Span { start: 0, end: 16 });
}

#[test]
fn a_call_may_have_255_arguments_and_no_more() {
    let arguments = vec!["1"; 255].join(", ");
    let parsed = parse(&format!("f({});", arguments));
    assert_eq!(parsed.errors, vec![]);

    let arguments = vec!["1"; 257].join(", ");
    let parsed = parse(&format!("f({}); print 1;", arguments));
    assert_eq!(
        parsed.errors,
        vec![Error::TooManyArguments { callee_span: Span { start: 0, end: 1 } }]
    );
    assert_eq!(parsed.declarations.len(), 1);
    assert!(matches!(&parsed.declarations[0], Declaration::Statement(Statement::Print(_))));
}

#[test]
fn a_function_may_have_255_parameters_and_no_more() {
    let parameters: Vec<String> = (0..255).map(|index| format!("p{}", index)).collect();
    let parsed = parse(&format!("fun f({}) {{}}", parameters.join(", ")));
    assert_eq!(parsed.errors, vec![]);
    let Declaration::Function { parameters, .. } = &parsed.declarations[0] else {
        panic!("not a function");
    };
    assert_eq!(parameters.len(), 255);

    let parameters: Vec<String> = (0..256).map(|index| format!("p{}", index)).collect();
    let parsed = parse(&format!("fun f({}) {{}}", parameters.join(", ")));
    assert_eq!(parsed.errors[0], Error::TooManyArguments { callee_span: Span { start: 4, end: 5 } });
}

#[test]
fn declarations_and_statements() {
    let source = "var a; var b = 1; fun f(x, y) { print x; return y; } { a = b; } if (a) b; else f(a, b); while (a) a = nil;";
    let parsed = parse(source);
    assert_eq!(parsed.errors, vec![]);
    assert_eq!(parsed.declarations.len(), 6);
    let Declaration::Variable { name, initialiser: None } = &parsed.declarations[0] else {
        panic!("not a variable without initialiser");
    };
    assert_eq!(lexeme_of(source, name), "a");
    assert!(matches!(&parsed.declarations[1], Declaration::Variable { initialiser: Some(_), .. }));
    let Declaration::Function { name, parameters, body } = &parsed.declarations[2] else {
        panic!("not a function");
    };
    assert_eq!(lexeme_of(source, name), "f");
    assert_eq!(parameters.len(), 2);
    assert_eq!(lexeme_of(source, &parameters[1]), "y");
    assert_eq!(body.len(), 2);
    assert!(matches!(&body[0], Declaration::Statement(Statement::Print(_))));
    assert!(matches!(&body[1], Declaration::Statement(Statement::Return { .. })));
    assert!(matches!(&parsed.declarations[3], Declaration::Statement(Statement::Block(_))));
    let Declaration::Statement(Statement::If { else_branch, .. }) = &parsed.declarations[4] else {
        panic!("not an if statement");
    };
    assert!(else_branch.is_some());
    assert!(matches!(&parsed.declarations[5], Declaration::Statement(Statement::While { .. })));
}

#[test]
fn an_else_belongs_to_the_nearest_if() {
    let parsed = parse("if (a) if (b) 1; else 2;");
    assert_eq!(parsed.errors, vec![]);
    let Declaration::Statement(Statement::If { then_branch, else_branch, .. }) =
        &parsed.declarations[0]
    else {
        panic!("not an if statement");
    };
    assert!(else_branch.is_none());
    assert!(matches!(&**then_branch, Statement::If { else_branch: Some(_), .. }));
}

#[test]
fn a_for_statement_becomes_a_while_in_a_block() {
    let source = "for (var i = 0; i < 3; i = i + 1) print i;";
    let parsed = parse(source);
    assert_eq!(parsed.errors, vec![]);
    assert_eq!(parsed.declarations.len(), 1);
    let Declaration::Statement(Statement::Block(outer)) = &parsed.declarations[0] else {
        panic!("not a block");
    };
    assert_eq!(outer.len(), 2);
    assert!(matches!(&outer[0], Declaration::Variable { initialiser: Some(_), .. }));
    let Declaration::Statement(Statement::While { condition, body }) = &outer[1] else {
        panic!("not a while statement");
    };
    assert_eq!(condition.span(), Span { start: 16, end: 21 });
    let Statement::Block(inner) = &**body else {
        panic!("not a block");
    };
    assert_eq!(inner.len(), 2);
    assert!(matches!(&inner[0], Declaration::Statement(Statement::Print(_))));
    let Declaration::Statement(Statement::Expression(increment)) = &inner[1] else {
        panic!("not an expression statement");
    };
    assert!(matches!(&**increment, Expression::Assignment(_)));
}

#[test]
fn the_clauses_of_a_for_statement_may_be_empty() {
    let parsed = parse("for (; a < 3;) print a;");
    assert_eq!(parsed.errors, vec![]);
    let Declaration::Statement(Statement::While { body, .. }) = &parsed.declarations[0] else {
        panic!("not a while statement");
    };
    assert!(matches!(&**body, Statement::Print(_)));

    let parsed = parse("for (a = 0;;) print a;");
    assert_eq!(parsed.errors, vec![]);
    let Declaration::Statement(Statement::Block(block)) = &parsed.declarations[0] else {
        panic!("not a block");
    };
    assert!(matches!(&block[0], Declaration::Statement(Statement::Expression(_))));
    let Declaration::Statement(Statement::While { condition, body }) = &block[1] else {
        panic!("not a while statement");
    };
    assert!(matches!(
        &**condition,
        Expression::Literal(LiteralExpression::Boolean(Span { start: 11, end: 12 }, true))
    ));
    assert!(matches!(&**body, Statement::Print(_)));

    let parsed = parse("for (;;) print a;");
    assert_eq!(parsed.errors, vec![]);
    assert!(matches!(&parsed.declarations[0], Declaration::Statement(Statement::While { .. })));
}

#[test]
fn a_statement_that_fails_gives_one_error_and_nothing_else() {
    let parsed = parse("var x = +; print 1;");
    assert_eq!(
        parsed.errors,
        vec![Error::UnexpectedToken {
            expected_token_type: None,
            unexpected_token_type: TokenType::Plus,
            span: Span { start: 8, end: 9 },
        }]
    );
    assert_eq!(parsed.declarations.len(), 1);
    assert!(matches!(&parsed.declarations[0], Declaration::Statement(Statement::Print(_))));

    let parsed = parse("if (a) b; else +; print 1;");
    assert_eq!(
        parsed.errors,
        vec![Error::UnexpectedToken {
            expected_token_type: None,
            unexpected_token_type: TokenType::Plus,
            span: Span { start: 15, end: 16 },
        }]
    );
    assert_eq!(parsed.declarations.len(), 1);
    assert!(matches!(&parsed.declarations[0], Declaration::Statement(Statement::Print(_))));

    let parsed = parse("for (var i = 0; i < 3 i = i + 1) print i; print 1;");
    assert_eq!(
        parsed.errors,
        vec![Error::UnexpectedToken {
            expected_token_type: Some(TokenType::Semicolon),
            unexpected_token_type: TokenType::Identifier,
            span: Span { start: 22, end: 23 },
        }]
    );
    // Parsing goes on at the next statement, which is the body of the loop.
    assert_eq!(parsed.declarations.len(), 2);
    assert!(matches!(&parsed.declarations[0], Declaration::Statement(Statement::Print(_))));
    assert!(matches!(&parsed.declarations[1], Declaration::Statement(Statement::Print(_))));

    let parsed = parse("for (var i = +) print i;");
    assert_eq!(
        parsed.errors,
        vec![Error::UnexpectedToken {
            expected_token_type: None,
            unexpected_token_type: TokenType::Plus,
            span: Span { start: 13, end: 14 },
        }]
    );
    assert_eq!(parsed.declarations.len(), 1);
    assert!(matches!(&parsed.declarations[0], Declaration::Statement(Statement::Print(_))));
}

#[test]
fn two_bad_statements_give_two_errors() {
    let source = "var = 1; print 2; print +; print 3;";
    let parsed = parse(source);
    assert_eq!(
        parsed.errors,
        vec![
            Error::UnexpectedToken {
                expected_token_type: Some(TokenType::Identifier),
                unexpected_token_type: TokenType::Equal,
                span: Span { start: 4, end: 5 },
            },
            Error::UnexpectedToken {
                expected_token_type: None,
                unexpected_token_type: TokenType::Plus,
                span: Span { start: 24, end: 25 },
            },
        ]
    );
    assert_eq!(parsed.declarations.len(), 2);
    assert!(matches!(&parsed.declarations[0], Declaration::Statement(Statement::Print(_))));
    assert!(matches!(&parsed.declarations[1], Declaration::Statement(Statement::Print(_))));
}

#[test]
fn recovery_stops_at_a_statement_keyword() {
    let parsed = parse("print 1 + 2 3 print 4;");
    assert_eq!(parsed.errors.len(), 1);
    assert_eq!(parsed.declarations.len(), 1);
    assert!(matches!(&parsed.declarations[0], Declaration::Statement(Statement::Print(_))));
}

#[test]
fn a_missing_parenthesis_is_an_error() {
    let parsed = parse("(1 + 2;");
    assert_eq!(
        parsed.errors,
        vec![Error::UnexpectedToken {
            expected_token_type: Some(TokenType::RightParen),
            unexpected_token_type: TokenType::Semicolon,
            span: Span { start: 6, end: 7 },
        }]
    );
    assert_eq!(parsed.declarations.len(), 0);
}

#[test]
fn a_missing_semicolon_at_the_end_is_an_error() {
    let parsed = parse("print 1");
    assert_eq!(
        parsed.errors,
        vec![Error::UnexpectedToken {
            expected_token_type: Some(TokenType::Semicolon),
            unexpected_token_type: TokenType::Eof,
            span: Span { start: 7, end: 8 },
        }]
    );
    assert_eq!(parsed.declarations.len(), 0);
}

#[test]
fn tokens_that_end_early_give_an_unexpected_end() {
    let tokens = vec![Token::new(0, 5, TokenType::Print), Token::new(6, 7, TokenType::Number)];
    let parsed = Parser::parse(&tokens);
    assert_eq!(parsed.errors, vec![Error::UnexpectedEof]);
    assert_eq!(parsed.declarations.len(), 0);

    let tokens = vec![Token::new(0, 5, TokenType::Print)];
    let parsed = Parser::parse(&tokens);
    assert_eq!(parsed.errors, vec![Error::UnexpectedEof]);

    let parsed = Parser::parse(&[]);
    assert_eq!(parsed.errors, vec![]);
    assert_eq!(parsed.declarations.len(), 0);
}

#[test]
fn parsing_stops_at_the_end_of_file_token() {
    let parsed = parse("");
    assert_eq!(parsed.errors, vec![]);
    assert_eq!(parsed.declarations.len(), 0);
}

#[test]
fn a_block_that_is_not_closed_is_an_error() {
    let parsed = parse("{ print 1;");
    assert_eq!(
        parsed.errors,
        vec![Error::UnexpectedToken {
            expected_token_type: None,
            unexpected_token_type: TokenType::Eof,
            span: Span { start: 10, end: 11 },
        }]
    );
}
