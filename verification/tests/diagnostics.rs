use rusty_lox::diagnostics::{
    decimal_text, display_error, index_of_first_new_line_after, lines_for_error_display,
};
use rusty_lox::error::Error as StartError;
use rusty_lox::interpreter::error::Error as RuntimeError;
use rusty_lox::lexer::{Error as LexError, Token, TokenType};
use rusty_lox::parser::Error as ParseError;
use rusty_lox::span::Span;

#[test]
fn the_first_line_has_no_line_before_it() {
    let source = "print 1;\nprint 2;\nprint 3;\n";
    let lines = lines_for_error_display(source, 6);
    assert_eq!(lines.line_before, None);
    assert_eq!(lines.line, Span { start: 0, end: 8 });
    assert_eq!(lines.line_number_of_error, 1);
}

#[test]
fn a_later_line_is_shown_with_the_line_before_it() {
    let source = "print 1;\nprint 2;\nprint 3;\n";
    let lines = lines_for_error_display(source, 15);
    assert_eq!(lines.line_before, Some(Span { start: 0, end: 9 }));
    assert_eq!(lines.line, Span { start: 9, end: 17 });
    assert_eq!(lines.line_number_of_error, 2);

    let lines = lines_for_error_display(source, 18);
    assert_eq!(lines.line_before, Some(Span { start: 9, end: 18 }));
    assert_eq!(lines.line, Span { start: 18, end: 26 });
    assert_eq!(lines.line_number_of_error, 3);
}

#[test]
fn the_newline_that_ends_the_source_starts_no_line() {
    let source = "print 1;\nprint 2;\n";
    let lines = lines_for_error_display(source, 18);
    assert_eq!(lines.line_before, Some(Span { start: 0, end: 9 }));
    assert_eq!(lines.line, Span { start: 9, end: 18 });
    assert_eq!(lines.line_number_of_error, 2);

    let lines = lines_for_error_display("", 0);
    assert_eq!(lines.line_before, None);
    assert_eq!(lines.line, Span { start: 0, end: 0 });
    assert_eq!(lines.line_number_of_error, 1);
}

#[test]
fn the_next_newline_is_found() {
    let source = "one\ntwo\n";
    assert_eq!(index_of_first_new_line_after(source, 0), 3);
    assert_eq!(index_of_first_new_line_after(source, 3), 3);
    assert_eq!(index_of_first_new_line_after(source, 4), 7);
    assert_eq!(index_of_first_new_line_after("last", 1), 4);
    assert_eq!(index_of_first_new_line_after("last", 9), 9);
}

#[test]
fn numbers_are_written_in_decimal() {
    assert_eq!(decimal_text(0), "0");
    assert_eq!(decimal_text(7), "7");
    assert_eq!(decimal_text(10), "10");
    assert_eq!(decimal_text(1234567890), "1234567890");
    assert_eq!(decimal_text(usize::MAX), usize::MAX.to_string());
}

#[test]
fn an_error_is_shown_under_its_line() {
    let source = "var a = 1;\nprint a + b;\n";
    let text = display_error(source, &Span { start: 21, end: 22 }, "Variable doesn't exist");
    assert_eq!(
        text,
        "\n  \x1b[31mError:\x1b[0m Variable doesn't exist\n\n \x1b[34m1\x1b[0m |  var a = 1;\n \x1b[34m2\x1b[0m |  print a + b;\n      \x1b[31m          ^=== Variable doesn't exist\x1b[0m\n\n"
    );
}

#[test]
fn an_error_on_the_first_line_is_shown_with_that_line_alone() {
    let text = display_error("1 + nil;", &Span { start: 4, end: 7 }, "Type Error");
    assert_eq!(
        text,
        "\n  \x1b[31mError:\x1b[0m Type Error\n\n \x1b[34m1\x1b[0m |  1 + nil;\n      \x1b[31m    ^^^=== Type Error\x1b[0m\n\n"
    );
}

#[test]
fn a_lexical_error_shows_its_place() {
    let source = "print \"abc\nprint 1;";
    let error = LexError::UnterminatedStringLiteral { starting_at: 6 };
    assert_eq!(error.span(source), Span { start: 6, end: 10 });
    assert_eq!(error.message(), "Unterminated String Literal");
    assert_eq!(
        error.display(source),
        display_error(source, &Span { start: 6, end: 10 }, "Unterminated String Literal")
    );

    let error = LexError::UnexpectedToken { at: 2 };
    assert_eq!(error.span("1 @ 2"), Span { start: 2, end: 3 });
    assert_eq!(
        error.display("1 @ 2"),
        "\n  \x1b[31mError:\x1b[0m Unexpected token\n\n \x1b[34m1\x1b[0m |  1 @ 2\n      \x1b[31m  ^=== Unexpected token\x1b[0m\n\n"
    );
}

#[test]
fn a_parse_error_names_the_tokens() {
    let source = "print 1";
    let error = ParseError::UnexpectedToken {
        expected_token_type: Some(TokenType::Semicolon),
        unexpected_token_type: TokenType::Eof,
        span: Span { start: 7, end: 8 },
    };
    assert_eq!(error.message(), "Unexpected token Eof");
    assert_eq!(
        error.display(source),
        format!(
            "{}  Info: \x1b[34mExpected token of type: Semicolon\x1b[0m\n",
            display_error(source, &Span { start: 7, end: 8 }, "Unexpected token Eof")
        )
    );

    let error = ParseError::UnexpectedToken {
        expected_token_type: None,
        unexpected_token_type: TokenType::String_,
        span: Span { start: 0, end: 5 },
    };
    assert_eq!(
        error.display(source),
        display_error(source, &Span { start: 0, end: 5 }, "Unexpected token String_")
    );

    let error = ParseError::InvalidAssignmentTarget { target_span: Span { start: 0, end: 5 } };
    assert_eq!(
        error.display(source),
        display_error(source, &Span { start: 0, end: 5 }, "Invalid assignment target")
    );
    let error = ParseError::TooManyArguments { callee_span: Span { start: 0, end: 5 } };
    assert_eq!(
        error.display(source),
        display_error(source, &Span { start: 0, end: 5 }, "Too many arguments to call")
    );
    assert_eq!(ParseError::UnexpectedEof.span(source), Span { start: 7, end: 7 });
    assert_eq!(
        ParseError::UnexpectedEof.display(source),
        display_error(source, &Span { start: 7, end: 7 }, "Unexpected end of file")
    );
}

#[test]
fn every_token_type_has_its_name() {
    assert_eq!(TokenType::LeftParen.name(), "LeftParen");
    assert_eq!(TokenType::BangEqual.name(), "BangEqual");
    assert_eq!(TokenType::Identifier.name(), "Identifier");
    assert_eq!(TokenType::While.name(), "While");
    assert_eq!(TokenType::Eof.name(), format!("{:?}", TokenType::Eof));
    assert_eq!(TokenType::String_.name(), format!("{:?}", TokenType::String_));
}

#[test]
fn a_runtime_error_says_what_went_wrong() {
    let source = "f(1);";
    let span = Span { start: 0, end: 4 };
    let error = RuntimeError::Arity { got: 1, expected: 12, call_span: span };
    assert_eq!(error.message(), "Wrong number of call arguments. Expected 12, but got 1");
    assert_eq!(
        error.display(source),
        display_error(
            source,
            &span,
            "Wrong number of call arguments. Expected 12, but got 1"
        )
    );
    let error = RuntimeError::type_error("Number".to_string(), "Nil".to_string(), span);
    assert_eq!(error.message(), "Type Error: expected Number, got Nil");
    assert_eq!(
        error.display(source),
        display_error(source, &span, "Type Error: expected Number, got Nil")
    );
    let error = RuntimeError::VariableDoesntExist(Token::new(0, 1, TokenType::Identifier));
    assert_eq!(error.span(), Span { start: 0, end: 1 });
    assert_eq!(error.message(), "Variable doesn't exist");
    assert_eq!(RuntimeError::NotCallable(span).message(), "Value is not callable");
    assert_eq!(RuntimeError::NotImplemented(span).message(), "Not implemented");
    assert_eq!(RuntimeError::NotImplemented(span).span(), span);
}

#[test]
fn errors_on_the_way_to_a_run_are_kept() {
    let error: StartError = LexError::UnexpectedToken { at: 3 }.into();
    assert!(matches!(error, StartError::Lexer(LexError::UnexpectedToken { at: 3 })));
    let error: StartError = std::io::Error::other("no such file").into();
    assert!(matches!(error, StartError::Io(inner) if inner.to_string() == "no such file"));
}
