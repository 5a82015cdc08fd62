use rusty_lox::lexer::{Error, Lexer, Token, TokenType};
use rusty_lox::span::Span;

fn types(tokens: &[Token]) -> Vec<TokenType> {
    tokens.iter().map(|token| token.type_).collect()
}

fn lexemes<'a>(source: &'a str, tokens: &[Token]) -> Vec<&'a str> {
    tokens[..tokens.len() - 1].iter().map(|token| token.span.slice(source)).collect()
}

#[test]
fn number() {
    let lex_result = Lexer::lex("2.34");
    assert_eq!(lex_result.errors.len(), 0);
    assert_eq!(lex_result.tokens.len(), 2);
    assert_eq!(lex_result.tokens[0].type_, TokenType::Number);
    assert_eq!(lex_result.tokens[0].span.start, 0);
    assert_eq!(lex_result.tokens[0].span.end, 4);
    assert_eq!(lex_result.tokens[1].type_, TokenType::Eof);
    assert_eq!(lex_result.tokens[1].span.start, 4);
    assert_eq!(lex_result.tokens[1].span.end, 5);
}

#[test]
fn bad_number() {
    let lex_result = Lexer::lex("2.");
    assert_eq!(lex_result.errors.len(), 0);
    assert_eq!(lex_result.tokens.len(), 3);
    assert_eq!(lex_result.tokens[0].type_, TokenType::Number);
    assert_eq!(lex_result.tokens[1].type_, TokenType::Dot);
    assert_eq!(lex_result.tokens[2].type_, TokenType::Eof);

    let lex_result = Lexer::lex(".2");
    assert_eq!(lex_result.errors.len(), 0);
    assert_eq!(lex_result.tokens.len(), 3);
    assert_eq!(lex_result.tokens[0].type_, TokenType::Dot);
    assert_eq!(lex_result.tokens[1].type_, TokenType::Number);
    assert_eq!(lex_result.tokens[2].type_, TokenType::Eof);
}

#[test]
fn string() {
    let lex_result = Lexer::lex(r#" "hello" "#);
    assert_eq!(lex_result.errors.len(), 0);
    assert_eq!(lex_result.tokens.len(), 2);
    assert_eq!(lex_result.tokens[0].type_, TokenType::String_);
    assert_eq!(lex_result.tokens[1].type_, TokenType::Eof);
    assert_eq!(lex_result.tokens[0].span.start, 1);
    assert_eq!(lex_result.tokens[0].span.end, 8);
}

#[test]
fn number_lexemes_keep_the_quirk() {
    let source = "2. .2 2.34";
    let lex_result = Lexer::lex(source);
    assert_eq!(
        types(&lex_result.tokens),
        vec![
            TokenType::Number,
            TokenType::Dot,
            TokenType::Dot,
            TokenType::Number,
            TokenType::Number,
            TokenType::Eof
        ]
    );
    assert_eq!(lexemes(source, &lex_result.tokens), vec!["2", ".", ".", "2", "2.34"]);
}

#[test]
fn two_character_operators_are_taken_whole() {
    let lex_result = Lexer::lex("!=");
    assert_eq!(types(&lex_result.tokens), vec![TokenType::BangEqual, TokenType::Eof]);
    assert_eq!(lex_result.tokens[0].span, Span { start: 0, end: 2 });

    let lex_result = Lexer::lex("!");
    assert_eq!(types(&lex_result.tokens), vec![TokenType::Bang, TokenType::Eof]);
    assert_eq!(lex_result.tokens[0].span, Span { start: 0, end: 1 });

    let lex_result = Lexer::lex("== = <= < >= > ! =");
    assert_eq!(
        types(&lex_result.tokens),
        vec![
            TokenType::EqualEqual,
            TokenType::Equal,
            TokenType::LessEqual,
            TokenType::Less,
            TokenType::GreaterEqual,
            TokenType::Greater,
            TokenType::Bang,
            TokenType::Equal,
            TokenType::Eof
        ]
    );
}

#[test]
fn unterminated_string_is_an_error_and_no_token() {
    let lex_result = Lexer::lex("\"abc");
    assert_eq!(lex_result.errors, vec![Error::UnterminatedStringLiteral { starting_at: 0 }]);
    assert_eq!(types(&lex_result.tokens), vec![TokenType::Eof]);
    assert_eq!(lex_result.tokens[0].span, Span { start: 4, end: 5 });
}

#[test]
fn tokens_before_an_unterminated_string_are_kept() {
    let lex_result = Lexer::lex("print \"abc\nmore");
    assert_eq!(lex_result.errors, vec![Error::UnterminatedStringLiteral { starting_at: 6 }]);
    assert_eq!(types(&lex_result.tokens), vec![TokenType::Print, TokenType::Eof]);
}

#[test]
fn punctuation() {
    let lex_result = Lexer::lex("(){},.-+;*/");
    assert_eq!(lex_result.errors.len(), 0);
    assert_eq!(
        types(&lex_result.tokens),
        vec![
            TokenType::LeftParen,
            TokenType::RightParen,
            TokenType::LeftBrace,
            TokenType::RightBrace,
            TokenType::Comma,
            TokenType::Dot,
            TokenType::Minus,
            TokenType::Plus,
            TokenType::Semicolon,
            TokenType::Star,
            TokenType::Slash,
            TokenType::Eof
        ]
    );
    for (index, token) in lex_result.tokens.iter().enumerate() {
        assert_eq!(token.span, Span { start: index, end: index + 1 });
    }
}

#[test]
fn from_character_knows_the_punctuation() {
    assert_eq!(TokenType::from_character('('), Some(TokenType::LeftParen));
    assert_eq!(TokenType::from_character(')'), Some(TokenType::RightParen));
    assert_eq!(TokenType::from_character('{'), Some(TokenType::LeftBrace));
    assert_eq!(TokenType::from_character('}'), Some(TokenType::RightBrace));
    assert_eq!(TokenType::from_character(','), Some(TokenType::Comma));
    assert_eq!(TokenType::from_character('.'), Some(TokenType::Dot));
    assert_eq!(TokenType::from_character('-'), Some(TokenType::Minus));
    assert_eq!(TokenType::from_character('+'), Some(TokenType::Plus));
    assert_eq!(TokenType::from_character(';'), Some(TokenType::Semicolon));
    assert_eq!(TokenType::from_character('*'), Some(TokenType::Star));
    assert_eq!(TokenType::from_character('/'), None);
    assert_eq!(TokenType::from_character('a'), None);
}

#[test]
fn keywords_and_identifiers() {
    let source = "and class else false for fun if nil or print return super this true var while";
    let lex_result = Lexer::lex(source);
    assert_eq!(lex_result.errors.len(), 0);
    assert_eq!(
        types(&lex_result.tokens),
        vec![
            TokenType::And,
            TokenType::Class,
            TokenType::Else,
            TokenType::False,
            TokenType::For,
            TokenType::Fun,
            TokenType::If,
            TokenType::Nil,
            TokenType::Or,
            TokenType::Print,
            TokenType::Return,
            TokenType::Super,
            TokenType::This,
            TokenType::True,
            TokenType::Var,
            TokenType::While,
            TokenType::Eof
        ]
    );

    let source = "andy fortune x1 While nil2";
    let lex_result = Lexer::lex(source);
    assert_eq!(
        types(&lex_result.tokens),
        vec![
            TokenType::Identifier,
            TokenType::Identifier,
            TokenType::Identifier,
            TokenType::Identifier,
            TokenType::Identifier,
            TokenType::Eof
        ]
    );
    assert_eq!(lexemes(source, &lex_result.tokens), vec!["andy", "fortune", "x1", "While", "nil2"]);
}

#[test]
fn an_underscore_is_no_part_of_a_word() {
    let lex_result = Lexer::lex("a_b");
    assert_eq!(lex_result.errors, vec![Error::UnexpectedToken { at: 1 }]);
    assert_eq!(
        types(&lex_result.tokens),
        vec![TokenType::Identifier, TokenType::Identifier, TokenType::Eof]
    );
}

#[test]
fn comments_and_blanks_give_no_tokens() {
    let source = "1 // one\n\t2 / 3 // the rest\r\n";
    let lex_result = Lexer::lex(source);
    assert_eq!(lex_result.errors.len(), 0);
    assert_eq!(
        types(&lex_result.tokens),
        vec![
            TokenType::Number,
            TokenType::Number,
            TokenType::Slash,
            TokenType::Number,
            TokenType::Eof
        ]
    );
    assert_eq!(lexemes(source, &lex_result.tokens), vec!["1", "2", "/", "3"]);
}

#[test]
fn lexing_goes_on_after_an_error() {
    let lex_result = Lexer::lex("1 @ 2 # 3");
    assert_eq!(
        lex_result.errors,
        vec![Error::UnexpectedToken { at: 2 }, Error::UnexpectedToken { at: 6 }]
    );
    assert_eq!(
        types(&lex_result.tokens),
        vec![TokenType::Number, TokenType::Number, TokenType::Number, TokenType::Eof]
    );
}

#[test]
fn a_character_of_several_bytes_is_one_error() {
    let source = "1 \u{e9} 2 \u{1f600}3";
    let lex_result = Lexer::lex(source);
    assert_eq!(
        lex_result.errors,
        vec![Error::UnexpectedToken { at: 2 }, Error::UnexpectedToken { at: 7 }]
    );
    assert_eq!(lexemes(source, &lex_result.tokens), vec!["1", "2", "3"]);
}

#[test]
fn a_string_may_hold_any_characters() {
    let source = "\"h\u{e9}llo // no comment\nnext line\" x";
    let lex_result = Lexer::lex(source);
    assert_eq!(lex_result.errors.len(), 0);
    assert_eq!(
        types(&lex_result.tokens),
        vec![TokenType::String_, TokenType::Identifier, TokenType::Eof]
    );
    assert_eq!(
        lex_result.tokens[0].span.slice(source),
        "\"h\u{e9}llo // no comment\nnext line\""
    );
}

#[test]
fn every_token_spans_its_lexeme() {
    let source = "var answer = (40 + 2.5) >= limit; print \"done\";";
    let lex_result = Lexer::lex(source);
    assert_eq!(lex_result.errors.len(), 0);
    assert_eq!(
        lexemes(source, &lex_result.tokens),
        vec![
            "var", "answer", "=", "(", "40", "+", "2.5", ")", ">=", "limit", ";", "print",
            "\"done\"", ";"
        ]
    );
    let last = lex_result.tokens[lex_result.tokens.len() - 1];
    assert_eq!(last.type_, TokenType::Eof);
    assert_eq!(last.span, Span { start: source.len(), end: source.len() + 1 });
    assert!(!last.span.fits_in(source));
    for pair in lex_result.tokens.windows(2) {
        assert!(pair[0].span.end <= pair[1].span.start);
    }
}

#[test]
fn the_empty_source_has_the_end_of_file_token_alone() {
    let lex_result = Lexer::lex("");
    assert_eq!(lex_result.errors.len(), 0);
    assert_eq!(
        lex_result.tokens,
        vec![Token { span: Span { start: 0, end: 1 }, type_: TokenType::Eof }]
    );
}

#[test]
fn token_new_fills_the_span() {
    let token = Token::new(3, 7, TokenType::Identifier);
    assert_eq!(token.span, Span { start: 3, end: 7 });
    assert_eq!(token.type_, TokenType::Identifier);
}
