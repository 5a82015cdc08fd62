//! The lexer: source text to tokens.
//!
//! Positions are byte offsets into the UTF-8 source. Every rule looks at
//! ASCII characters only, so the lexer reads the source byte by byte.

use crate::diagnostics::{display_error, index_of_first_new_line_after, line_end, rendering};
use crate::span::Span;
use vstd::prelude::*;
use vstd::string::StringSliceAdditionalSpecFns;

verus! {

#[derive(Debug, PartialEq, Eq, Clone, Copy, Structural)]
pub enum TokenType {
    // Single-character tokens.
    LeftParen,
    RightParen,
    LeftBrace,
    RightBrace,
    Comma,
    Dot,
    Minus,
    Plus,
    Semicolon,
    Slash,
    Star,
    // One or two character tokens.
    Bang,
    BangEqual,
    Equal,
    EqualEqual,
    Greater,
    GreaterEqual,
    Less,
    LessEqual,
    // Literals.
    Identifier,
    String_,
    Number,
    // Keywords.
    And,
    Class,
    Else,
    False,
    Fun,
    For,
    If,
    Nil,
    Or,
    Print,
    Return,
    Super,
    This,
    True,
    Var,
    While,
    Eof,
}

#[derive(Debug, Clone, Copy, PartialEq, Eq, Structural)]
pub struct Token {
    pub span: Span,
    pub type_: TokenType,
}

#[derive(Debug, Clone, Copy, PartialEq, Eq, Structural)]
pub enum Error {
    UnterminatedStringLiteral { starting_at: usize },
    UnexpectedToken { at: usize },
}

#[derive(Debug)]
pub struct Result {
    pub errors: Vec<Error>,
    pub tokens: Vec<Token>,
}

/// The character at offset `at`, if the source is that long.
pub open spec fn peek(source: Seq<u8>, at: int) -> Option<char> {
    if 0 <= at < source.len() {
        Some(source[at] as char)
    } else {
        None
    }
}

pub open spec fn digit(character: char) -> bool {
    '0' <= character <= '9'
}

pub open spec fn letter(character: char) -> bool {
    ('a' <= character <= 'z') || ('A' <= character <= 'Z')
}

pub open spec fn blank(character: char) -> bool {
    character == ' ' || character == '\n' || character == '\r' || character == '\t'
}

/// The token that a punctuation character stands for.
pub open spec fn punctuation(character: char) -> Option<TokenType> {
    if character == '(' {
        Some(TokenType::LeftParen)
    } else if character == ')' {
        Some(TokenType::RightParen)
    } else if character == '{' {
        Some(TokenType::LeftBrace)
    } else if character == '}' {
        Some(TokenType::RightBrace)
    } else if character == ',' {
        Some(TokenType::Comma)
    } else if character == '.' {
        Some(TokenType::Dot)
    } else if character == '-' {
        Some(TokenType::Minus)
    } else if character == '+' {
        Some(TokenType::Plus)
    } else if character == ';' {
        Some(TokenType::Semicolon)
    } else if character == '*' {
        Some(TokenType::Star)
    } else {
        None
    }
}

/// The reserved word that `lexeme` spells, if it spells one.
pub open spec fn keyword(lexeme: Seq<u8>) -> Option<TokenType> {
    if lexeme == "and".spec_bytes() {
        Some(TokenType::And)
    } else if lexeme == "class".spec_bytes() {
        Some(TokenType::Class)
    } else if lexeme == "else".spec_bytes() {
        Some(TokenType::Else)
    } else if lexeme == "false".spec_bytes() {
        Some(TokenType::False)
    } else if lexeme == "for".spec_bytes() {
        Some(TokenType::For)
    } else if lexeme == "fun".spec_bytes() {
        Some(TokenType::Fun)
    } else if lexeme == "if".spec_bytes() {
        Some(TokenType::If)
    } else if lexeme == "nil".spec_bytes() {
        Some(TokenType::Nil)
    } else if lexeme == "or".spec_bytes() {
        Some(TokenType::Or)
    } else if lexeme == "print".spec_bytes() {
        Some(TokenType::Print)
    } else if lexeme == "return".spec_bytes() {
        Some(TokenType::Return)
    } else if lexeme == "super".spec_bytes() {
        Some(TokenType::Super)
    } else if lexeme == "this".spec_bytes() {
        Some(TokenType::This)
    } else if lexeme == "true".spec_bytes() {
        Some(TokenType::True)
    } else if lexeme == "var".spec_bytes() {
        Some(TokenType::Var)
    } else if lexeme == "while".spec_bytes() {
        Some(TokenType::While)
    } else {
        None
    }
}

/// The type of a word: its keyword, or `Identifier`.
pub open spec fn word_type(lexeme: Seq<u8>) -> TokenType {
    match keyword(lexeme) {
        Some(type_) => type_,
        None => TokenType::Identifier,
    }
}

/// The kinds of character runs that the lexer consumes whole.
#[derive(Debug, Clone, Copy, PartialEq, Eq, Structural)]
pub enum Run {
    /// Decimal digits.
    Digits,
    /// ASCII letters and digits.
    Word,
    /// Everything up to the end of the line.
    Comment,
    /// Everything up to the next double quote.
    Text,
    /// The bytes that continue a multi-byte character.
    Trail,
}

/// Whether `character` continues a run of the given kind.
pub open spec fn continues(run: Run, character: char) -> bool {
    match run {
        Run::Digits => digit(character),
        Run::Word => letter(character) || digit(character),
        Run::Comment => character != '\n',
        Run::Text => character != '"',
        Run::Trail => '\u{80}' <= character <= '\u{bf}',
    }
}

/// The first offset at or after `from` whose character does not continue
/// the run, or the end of the source.
pub open spec fn run_end(source: Seq<u8>, from: int, run: Run) -> int
    decreases source.len() - from,
{
    if 0 <= from < source.len() && continues(run, source[from] as char) {
        run_end(source, from + 1, run)
    } else {
        from
    }
}

/// Where the number that starts at `at` ends. A dot belongs to the number
/// only when a digit follows it.
pub open spec fn number_end(source: Seq<u8>, at: int) -> int {
    let whole = run_end(source, at, Run::Digits);
    if peek(source, whole) == Some('.') && peek(source, whole + 1) is Some && digit(
        peek(source, whole + 1)->0,
    ) {
        run_end(source, whole + 1, Run::Digits)
    } else {
        whole
    }
}

/// What the lexer finds at one offset.
pub enum Scan {
    /// A token of the given type that ends at `end`.
    Token { type_: TokenType, end: int },
    /// Blank space or a comment that ends at `end`.
    Skip { end: int },
    /// A lexical error; lexing goes on at `end`.
    Fault { error: Error, end: int },
    /// The end of the source.
    End,
}

/// `!`, `=`, `<` and `>` take a following `=` with them.
pub open spec fn with_equal(source: Seq<u8>, at: int, pair: TokenType, single: TokenType) -> Scan {
    if peek(source, at + 1) == Some('=') {
        Scan::Token { type_: pair, end: at + 2 }
    } else {
        Scan::Token { type_: single, end: at + 1 }
    }
}

/// The lexical rules: what stands at offset `at` of `source`.
pub open spec fn scan(source: Seq<u8>, at: int) -> Scan {
    match peek(source, at) {
        None => Scan::End,
        Some(character) => if character == '!' {
            with_equal(source, at, TokenType::BangEqual, TokenType::Bang)
        } else if character == '=' {
            with_equal(source, at, TokenType::EqualEqual, TokenType::Equal)
        } else if character == '>' {
            with_equal(source, at, TokenType::GreaterEqual, TokenType::Greater)
        } else if character == '<' {
            with_equal(source, at, TokenType::LessEqual, TokenType::Less)
        } else if character == '/' {
            if peek(source, at + 1) == Some('/') {
                Scan::Skip { end: run_end(source, at + 2, Run::Comment) }
            } else {
                Scan::Token { type_: TokenType::Slash, end: at + 1 }
            }
        } else if punctuation(character) is Some {
            Scan::Token { type_: punctuation(character)->0, end: at + 1 }
        } else if blank(character) {
            Scan::Skip { end: at + 1 }
        } else if character == '"' {
            let close = run_end(source, at + 1, Run::Text);
            if close < source.len() {
                Scan::Token { type_: TokenType::String_, end: close + 1 }
            } else {
                Scan::Fault {
                    error: Error::UnterminatedStringLiteral { starting_at: at as usize },
                    end: close,
                }
            }
        } else if digit(character) {
            Scan::Token { type_: TokenType::Number, end: number_end(source, at) }
        } else if letter(character) {
            let end = run_end(source, at, Run::Word);
            Scan::Token { type_: word_type(source.subrange(at, end)), end }
        } else {
            Scan::Fault {
                error: Error::UnexpectedToken { at: at as usize },
                end: run_end(source, at + 1, Run::Trail),
            }
        },
    }
}

/// Where lexing goes on after the offset `at`.
pub open spec fn scan_end(source: Seq<u8>, at: int) -> int {
    match scan(source, at) {
        Scan::Token { end, .. } => end,
        Scan::Skip { end } => end,
        Scan::Fault { end, .. } => end,
        Scan::End => at,
    }
}

/// The end-of-file token of a source: one past its last byte.
pub open spec fn eof_token(source: Seq<u8>) -> Token {
    Token {
        span: Span { start: source.len() as usize, end: (source.len() + 1) as usize },
        type_: TokenType::Eof,
    }
}

/// The tokens of `source` from offset `at` on, the end-of-file token last.
pub open spec fn tokens_from(source: Seq<u8>, at: int) -> Seq<Token>
    decreases source.len() - at,
{
    proof {
        lemma_scan_advances(source, at);
    }
    match scan(source, at) {
        Scan::Token { type_, end } => seq![
            Token { span: Span { start: at as usize, end: end as usize }, type_ },
        ] + tokens_from(source, end),
        Scan::Skip { end } => tokens_from(source, end),
        Scan::Fault { end, .. } => tokens_from(source, end),
        Scan::End => seq![eof_token(source)],
    }
}

/// The lexical errors of `source` from offset `at` on.
pub open spec fn errors_from(source: Seq<u8>, at: int) -> Seq<Error>
    decreases source.len() - at,
{
    proof {
        lemma_scan_advances(source, at);
    }
    match scan(source, at) {
        Scan::Token { end, .. } => errors_from(source, end),
        Scan::Skip { end } => errors_from(source, end),
        Scan::Fault { error, end } => seq![error] + errors_from(source, end),
        Scan::End => Seq::empty(),
    }
}

/// The tokens of a whole source.
pub open spec fn lex_tokens(source: Seq<u8>) -> Seq<Token> {
    tokens_from(source, 0)
}

/// The lexical errors of a whole source.
pub open spec fn lex_errors(source: Seq<u8>) -> Seq<Error> {
    errors_from(source, 0)
}

/// A run ends at or after its start, and inside the source.
pub proof fn lemma_run_end_bounds(source: Seq<u8>, from: int, run: Run)
    requires
        0 <= from <= source.len(),
    ensures
        from <= run_end(source, from, run) <= source.len(),
        forall|i: int| from <= i < run_end(source, from, run) ==> continues(run, #[trigger] source[i] as char),
        run_end(source, from, run) < source.len() ==> !continues(
            run,
            source[run_end(source, from, run)] as char,
        ),
    decreases source.len() - from,
{
    if from < source.len() && continues(run, source[from] as char) {
        lemma_run_end_bounds(source, from + 1, run);
    }
}

/// Inside the source every step of the lexer moves forward and stays inside.
pub proof fn lemma_scan_advances(source: Seq<u8>, at: int)
    ensures
        0 <= at < source.len() ==> at < scan_end(source, at) <= source.len(),
        !(scan(source, at) is End) ==> 0 <= at < source.len(),
{
    if 0 <= at < source.len() {
        lemma_run_end_bounds(source, at, Run::Word);
        lemma_run_end_bounds(source, at, Run::Digits);
        lemma_run_end_bounds(source, at + 1, Run::Text);
        lemma_run_end_bounds(source, at + 1, Run::Trail);
        let whole = run_end(source, at, Run::Digits);
        if whole + 1 < source.len() {
            lemma_run_end_bounds(source, whole + 1, Run::Digits);
        }
        if at + 2 <= source.len() {
            lemma_run_end_bounds(source, at + 2, Run::Comment);
        }
    }
}


/// The token that the lexer finds at offset `at`, if it finds one there.
pub open spec fn scanned_tokens(source: Seq<u8>, at: int) -> Seq<Token> {
    match scan(source, at) {
        Scan::Token { type_, end } => seq![
            Token { span: Span { start: at as usize, end: end as usize }, type_ },
        ],
        _ => Seq::empty(),
    }
}

/// The error that the lexer finds at offset `at`, if it finds one there.
pub open spec fn scanned_errors(source: Seq<u8>, at: int) -> Seq<Error> {
    match scan(source, at) {
        Scan::Fault { error, .. } => seq![error],
        _ => Seq::empty(),
    }
}

/// Whether one call of the lexer's step goes on past offset `at`: past a
/// newline, and past a character that starts nothing, which it records.
pub open spec fn passes(source: Seq<u8>, at: int) -> bool {
    ||| peek(source, at) == Some('\n')
    ||| scan(source, at) matches Scan::Fault { error: Error::UnexpectedToken { .. }, .. }
}

/// The first offset from `at` on that one call of the lexer's step does
/// not go past.
pub open spec fn settle(source: Seq<u8>, at: int) -> int
    decreases source.len() - at,
{
    proof {
        lemma_scan_advances(source, at);
    }
    if passes(source, at) {
        settle(source, scan_end(source, at))
    } else {
        at
    }
}

/// The errors that one call of the lexer's step records on its way from
/// `at` to where it settles.
pub open spec fn passed_errors(source: Seq<u8>, at: int) -> Seq<Error>
    decreases source.len() - at,
{
    proof {
        lemma_scan_advances(source, at);
    }
    if passes(source, at) {
        scanned_errors(source, at) + passed_errors(source, scan_end(source, at))
    } else {
        Seq::empty()
    }
}

/// What stands at an offset inside the source is followed by what stands
/// after it.
proof fn lemma_scan_splits(source: Seq<u8>, at: int)
    requires
        0 <= at < source.len(),
    ensures
        tokens_from(source, at) == scanned_tokens(source, at) + tokens_from(
            source,
            scan_end(source, at),
        ),
        errors_from(source, at) == scanned_errors(source, at) + errors_from(
            source,
            scan_end(source, at),
        ),
{
    let end = scan_end(source, at);
    assert(Seq::<Token>::empty() + tokens_from(source, end) =~= tokens_from(source, end));
    assert(Seq::<Error>::empty() + errors_from(source, end) =~= errors_from(source, end));
}

impl TokenType {
    /// The name of the token type, as error messages give it.
    pub open spec fn spec_name(self) -> Seq<char> {
        match self {
            TokenType::LeftParen => "LeftParen"@,
            TokenType::RightParen => "RightParen"@,
            TokenType::LeftBrace => "LeftBrace"@,
            TokenType::RightBrace => "RightBrace"@,
            TokenType::Comma => "Comma"@,
            TokenType::Dot => "Dot"@,
            TokenType::Minus => "Minus"@,
            TokenType::Plus => "Plus"@,
            TokenType::Semicolon => "Semicolon"@,
            TokenType::Slash => "Slash"@,
            TokenType::Star => "Star"@,
            TokenType::Bang => "Bang"@,
            TokenType::BangEqual => "BangEqual"@,
            TokenType::Equal => "Equal"@,
            TokenType::EqualEqual => "EqualEqual"@,
            TokenType::Greater => "Greater"@,
            TokenType::GreaterEqual => "GreaterEqual"@,
            TokenType::Less => "Less"@,
            TokenType::LessEqual => "LessEqual"@,
            TokenType::Identifier => "Identifier"@,
            TokenType::String_ => "String_"@,
            TokenType::Number => "Number"@,
            TokenType::And => "And"@,
            TokenType::Class => "Class"@,
            TokenType::Else => "Else"@,
            TokenType::False => "False"@,
            TokenType::Fun => "Fun"@,
            TokenType::For => "For"@,
            TokenType::If => "If"@,
            TokenType::Nil => "Nil"@,
            TokenType::Or => "Or"@,
            TokenType::Print => "Print"@,
            TokenType::Return => "Return"@,
            TokenType::Super => "Super"@,
            TokenType::This => "This"@,
            TokenType::True => "True"@,
            TokenType::Var => "Var"@,
            TokenType::While => "While"@,
            TokenType::Eof => "Eof"@,
        }
    }

    pub fn name(self) -> (name: &'static str)
        ensures
            name@ == self.spec_name(),
    {
        match self {
            TokenType::LeftParen => "LeftParen",
            TokenType::RightParen => "RightParen",
            TokenType::LeftBrace => "LeftBrace",
            TokenType::RightBrace => "RightBrace",
            TokenType::Comma => "Comma",
            TokenType::Dot => "Dot",
            TokenType::Minus => "Minus",
            TokenType::Plus => "Plus",
            TokenType::Semicolon => "Semicolon",
            TokenType::Slash => "Slash",
            TokenType::Star => "Star",
            TokenType::Bang => "Bang",
            TokenType::BangEqual => "BangEqual",
            TokenType::Equal => "Equal",
            TokenType::EqualEqual => "EqualEqual",
            TokenType::Greater => "Greater",
            TokenType::GreaterEqual => "GreaterEqual",
            TokenType::Less => "Less",
            TokenType::LessEqual => "LessEqual",
            TokenType::Identifier => "Identifier",
            TokenType::String_ => "String_",
            TokenType::Number => "Number",
            TokenType::And => "And",
            TokenType::Class => "Class",
            TokenType::Else => "Else",
            TokenType::False => "False",
            TokenType::Fun => "Fun",
            TokenType::For => "For",
            TokenType::If => "If",
            TokenType::Nil => "Nil",
            TokenType::Or => "Or",
            TokenType::Print => "Print",
            TokenType::Return => "Return",
            TokenType::Super => "Super",
            TokenType::This => "This",
            TokenType::True => "True",
            TokenType::Var => "Var",
            TokenType::While => "While",
            TokenType::Eof => "Eof",
        }
    }

    pub fn from_character(character: char) -> (type_: Option<Self>)
        ensures
            type_ == punctuation(character),
    {
        match character {
            '(' => Some(TokenType::LeftParen),
            ')' => Some(TokenType::RightParen),
            '{' => Some(TokenType::LeftBrace),
            '}' => Some(TokenType::RightBrace),
            ',' => Some(TokenType::Comma),
            '.' => Some(TokenType::Dot),
            '-' => Some(TokenType::Minus),
            '+' => Some(TokenType::Plus),
            ';' => Some(TokenType::Semicolon),
            '*' => Some(TokenType::Star),
            _ => None,
        }
    }
}

impl Error {
    /// The part of the source that the error is about: an unterminated
    /// string up to the end of its line, an unexpected character alone.
    pub open spec fn spec_span(self, source: Seq<u8>) -> Span {
        match self {
            Error::UnterminatedStringLiteral { starting_at } => Span {
                start: starting_at,
                end: line_end(source, starting_at as int) as usize,
            },
            Error::UnexpectedToken { at } => Span {
                start: at,
                end: if at < usize::MAX {
                    (at + 1) as usize
                } else {
                    at
                },
            },
        }
    }

    pub open spec fn spec_message(self) -> Seq<char> {
        match self {
            Error::UnterminatedStringLiteral { .. } => "Unterminated String Literal"@,
            Error::UnexpectedToken { .. } => "Unexpected token"@,
        }
    }

    pub fn span(&self, source: &str) -> (span: Span)
        ensures
            span == self.spec_span(source.spec_bytes()),
    {
        match self {
            Error::UnterminatedStringLiteral { starting_at } => Span {
                start: *starting_at,
                end: index_of_first_new_line_after(source, *starting_at),
            },
            Error::UnexpectedToken { at } => Span {
                start: *at,
                end: if *at < usize::MAX {
                    *at + 1
                } else {
                    *at
                },
            },
        }
    }

    pub fn message(&self) -> (message: &'static str)
        ensures
            message@ == self.spec_message(),
    {
        match self {
            Error::UnterminatedStringLiteral { .. } => "Unterminated String Literal",
            Error::UnexpectedToken { .. } => "Unexpected token",
        }
    }

    /// The error as it is shown to the user, with the line of the source
    /// that it is about.
    pub fn display(&self, source: &str) -> (text: String)
        ensures
            text@ == rendering(source, self.spec_span(source.spec_bytes()), self.spec_message()),
    {
        let span = self.span(source);
        display_error(source, &span, self.message())
    }
}

impl Token {
    pub fn new(span_start: usize, span_end: usize, type_: TokenType) -> (token: Self)
        requires
            span_start <= span_end,
        ensures
            token == (Token { span: Span { start: span_start, end: span_end }, type_ }),
    {
        Self { type_, span: Span::new(span_start, span_end) }
    }
}

fn is_digit(character: char) -> (yes: bool)
    ensures
        yes == digit(character),
{
    character >= '0' && character <= '9'
}

fn is_letter(character: char) -> (yes: bool)
    ensures
        yes == letter(character),
{
    (character >= 'a' && character <= 'z') || (character >= 'A' && character <= 'Z')
}

fn is_in_run(run: Run, character: char) -> (yes: bool)
    ensures
        yes == continues(run, character),
{
    match run {
        Run::Digits => is_digit(character),
        Run::Word => is_letter(character) || is_digit(character),
        Run::Comment => character != '\n',
        Run::Text => character != '"',
        Run::Trail => character >= '\u{80}' && character <= '\u{bf}',
    }
}

enum NextResult {
    Done,
    NotDone,
}

pub struct Lexer<'a> {
    source: &'a str,
    current_position: usize,
    errors: Vec<Error>,
    tokens: Vec<Token>,
}

impl<'a> Lexer<'a> {
    /// The bytes of the source.
    pub closed spec fn bytes(self) -> Seq<u8> {
        self.source.spec_bytes()
    }

    /// The cursor is inside the source, and one past its end is still an offset.
    pub closed spec fn inv(self) -> bool {
        self.current_position <= self.bytes().len() < usize::MAX
    }

    /// The tokens found so far followed by those still to come.
    pub closed spec fn all_tokens(self) -> Seq<Token> {
        self.tokens@ + tokens_from(self.bytes(), self.current_position as int)
    }

    /// The errors found so far followed by those still to come.
    pub closed spec fn all_errors(self) -> Seq<Error> {
        self.errors@ + errors_from(self.bytes(), self.current_position as int)
    }

    /// Lexes a whole source. Lexing never stops early: every error is
    /// recorded and the tokens around it are still produced.
    pub fn lex(input: &'a str) -> (result: Result)
        requires
            input.spec_bytes().len() < usize::MAX,
        ensures
            result.tokens@ == lex_tokens(input.spec_bytes()),
            result.errors@ == lex_errors(input.spec_bytes()),
    {
        let mut lexer = Lexer { source: input, current_position: 0, errors: vec![], tokens: vec![] };
        assert(lexer.all_tokens() =~= lex_tokens(input.spec_bytes()));
        assert(lexer.all_errors() =~= lex_errors(input.spec_bytes()));
        loop
            invariant
                lexer.inv(),
                lexer.source == input,
                lexer.all_tokens() == lex_tokens(input.spec_bytes()),
                lexer.all_errors() == lex_errors(input.spec_bytes()),
            decreases lexer.bytes().len() - lexer.current_position,
        {
            match lexer.next() {
                NextResult::Done => {
                    return Result { tokens: lexer.tokens, errors: lexer.errors };
                },
                NextResult::NotDone => {},
            }
        }
    }

    fn current_character(&self) -> (character: Option<char>)
        ensures
            character == peek(self.bytes(), self.current_position as int),
    {
        self.character_at(self.current_position)
    }

    fn character_at(&self, at: usize) -> (character: Option<char>)
        ensures
            character == peek(self.bytes(), at as int),
    {
        let bytes = self.source.as_bytes();
        if at < bytes.len() {
            Some(bytes[at] as char)
        } else {
            None
        }
    }

    /// The lexer has got here from `before` by taking what stands under
    /// the cursor of `before`: the cursor is behind it, and its token or its
    /// error is recorded.
    pub closed spec fn took(self, before: Lexer<'a>) -> bool {
        let at = before.current_position as int;
        &&& self.source == before.source
        &&& self.current_position == scan_end(before.bytes(), at)
        &&& self.tokens@ == before.tokens@ + scanned_tokens(before.bytes(), at)
        &&& self.errors@ == before.errors@ + scanned_errors(before.bytes(), at)
    }

    /// Taking what stands under the cursor changes neither the tokens nor
    /// the errors of the whole source.
    proof fn lemma_took(self, before: Lexer<'a>)
        requires
            before.inv(),
            before.current_position < before.bytes().len(),
            self.took(before),
        ensures
            self.inv(),
            self.all_tokens() == before.all_tokens(),
            self.all_errors() == before.all_errors(),
    {
        let at = before.current_position as int;
        let end = scan_end(before.bytes(), at);
        lemma_scan_advances(before.bytes(), at);
        lemma_scan_splits(before.bytes(), at);
        assert(before.tokens@ + (scanned_tokens(before.bytes(), at) + tokens_from(
            before.bytes(),
            end,
        )) =~= (before.tokens@ + scanned_tokens(before.bytes(), at)) + tokens_from(
            before.bytes(),
            end,
        ));
        assert(before.errors@ + (scanned_errors(before.bytes(), at) + errors_from(
            before.bytes(),
            end,
        )) =~= (before.errors@ + scanned_errors(before.bytes(), at)) + errors_from(
            before.bytes(),
            end,
        ));
    }

    /// Emits the token that spans from `start` to the cursor.
    fn push_token(&mut self, start: usize, type_: TokenType)
        requires
            start <= old(self).current_position,
        ensures
            final(self).source == old(self).source,
            final(self).current_position == old(self).current_position,
            final(self).errors == old(self).errors,
            final(self).tokens@ == old(self).tokens@.push(
                Token { span: Span { start, end: old(self).current_position }, type_ },
            ),
    {
        self.tokens.push(Token::new(start, self.current_position, type_));
    }

    fn absorb_single_character_token(&mut self, token_type: TokenType)
        requires
            old(self).inv(),
            old(self).current_position < old(self).bytes().len(),
        ensures
            final(self).source == old(self).source,
            final(self).current_position == old(self).current_position + 1,
            final(self).errors == old(self).errors,
            final(self).tokens@ == old(self).tokens@.push(
                Token {
                    span: Span {
                        start: old(self).current_position,
                        end: (old(self).current_position + 1) as usize,
                    },
                    type_: token_type,
                },
            ),
    {
        let start = self.current_position;
        self.current_position += 1;
        self.push_token(start, token_type);
    }

    /// If the current character is `character_to_match`, absorbs it and
    /// returns true. Else returns false without absorbing.
    fn absorb_if_match(&mut self, character_to_match: char) -> (matched: bool)
        requires
            old(self).inv(),
        ensures
            matched == (peek(old(self).bytes(), old(self).current_position as int) == Some(
                character_to_match,
            )),
            final(self).current_position == old(self).current_position + if matched {
                1int
            } else {
                0int
            },
            final(self).inv(),
            final(self).source == old(self).source,
            final(self).tokens == old(self).tokens,
            final(self).errors == old(self).errors,
    {
        let current_character = self.current_character();
        if current_character == Some(character_to_match) {
            self.current_position += 1;
            true
        } else {
            false
        }
    }

    /// Lexes `!`, `=`, `<` or `>` with the `=` that may follow it: the
    /// token is `pair` and two characters long where an `=` follows, and
    /// `single` and one character long where none does.
    fn lex_operator(&mut self, pair: TokenType, single: TokenType)
        requires
            old(self).inv(),
            old(self).current_position < old(self).bytes().len(),
        ensures
            final(self).source == old(self).source,
            final(self).errors == old(self).errors,
            ({
                let at = old(self).current_position;
                if peek(old(self).bytes(), at + 1) == Some('=') {
                    &&& final(self).current_position == at + 2
                    &&& final(self).tokens@ == old(self).tokens@.push(
                        Token { span: Span { start: at, end: (at + 2) as usize }, type_: pair },
                    )
                } else {
                    &&& final(self).current_position == at + 1
                    &&& final(self).tokens@ == old(self).tokens@.push(
                        Token { span: Span { start: at, end: (at + 1) as usize }, type_: single },
                    )
                }
            }),
    {
        let start = self.current_position;
        self.current_position += 1;
        let is_pair = self.absorb_if_match('=');
        self.push_token(start, if is_pair { pair } else { single });
    }

    /// Moves the cursor to the end of the run that starts under it.
    fn absorb_run(&mut self, run: Run)
        requires
            old(self).inv(),
        ensures
            final(self).inv(),
            final(self).source == old(self).source,
            final(self).tokens == old(self).tokens,
            final(self).errors == old(self).errors,
            final(self).current_position == run_end(
                old(self).bytes(),
                old(self).current_position as int,
                run,
            ),
    {
        let bytes = self.source.as_bytes();
        while self.current_position < bytes.len() && is_in_run(
            run,
            bytes[self.current_position] as char,
        )
            invariant
                self.inv(),
                bytes@ == self.bytes(),
                self.source == old(self).source,
                self.tokens == old(self).tokens,
                self.errors == old(self).errors,
                run_end(self.bytes(), self.current_position as int, run) == run_end(
                    old(self).bytes(),
                    old(self).current_position as int,
                    run,
                ),
            decreases bytes.len() - self.current_position,
        {
            self.current_position += 1;
        }
    }

    /// Whether the bytes from `start` to `end` spell `word`.
    fn spells(&self, start: usize, end: usize, word: &str) -> (same: bool)
        requires
            start <= end <= self.bytes().len(),
        ensures
            same == (self.bytes().subrange(start as int, end as int) == word.spec_bytes()),
    {
        let bytes = self.source.as_bytes();
        let letters = word.as_bytes();
        if end - start != letters.len() {
            return false;
        }
        let ghost lexeme = self.bytes().subrange(start as int, end as int);
        let mut i: usize = 0;
        while i < letters.len()
            invariant
                i <= letters.len(),
                letters.len() == end - start,
                end <= bytes.len(),
                bytes@ == self.bytes(),
                letters@ == word.spec_bytes(),
                lexeme == self.bytes().subrange(start as int, end as int),
                forall|k: int| 0 <= k < i ==> lexeme[k] == letters@[k],
            decreases letters.len() - i,
        {
            if bytes[start + i] != letters[i] {
                assert(lexeme[i as int] != letters@[i as int]);
                return false;
            }
            i += 1;
        }
        assert(lexeme =~= letters@);
        true
    }

    /// The type of the word that the bytes from `start` to `end` spell.
    fn word_type_of(&self, start: usize, end: usize) -> (type_: TokenType)
        requires
            start <= end <= self.bytes().len(),
        ensures
            type_ == word_type(self.bytes().subrange(start as int, end as int)),
    {
        if self.spells(start, end, "and") {
            TokenType::And
        } else if self.spells(start, end, "class") {
            TokenType::Class
        } else if self.spells(start, end, "else") {
            TokenType::Else
        } else if self.spells(start, end, "false") {
            TokenType::False
        } else if self.spells(start, end, "for") {
            TokenType::For
        } else if self.spells(start, end, "fun") {
            TokenType::Fun
        } else if self.spells(start, end, "if") {
            TokenType::If
        } else if self.spells(start, end, "nil") {
            TokenType::Nil
        } else if self.spells(start, end, "or") {
            TokenType::Or
        } else if self.spells(start, end, "print") {
            TokenType::Print
        } else if self.spells(start, end, "return") {
            TokenType::Return
        } else if self.spells(start, end, "super") {
            TokenType::Super
        } else if self.spells(start, end, "this") {
            TokenType::This
        } else if self.spells(start, end, "true") {
            TokenType::True
        } else if self.spells(start, end, "var") {
            TokenType::Var
        } else if self.spells(start, end, "while") {
            TokenType::While
        } else {
            TokenType::Identifier
        }
    }

    /// Lexes the word under the cursor: the longest run of letters and
    /// digits, as its keyword where it spells one and as an identifier
    /// where it does not.
    fn lex_identifier_or_keyword(&mut self)
        requires
            old(self).inv(),
        ensures
            final(self).source == old(self).source,
            final(self).current_position == run_end(
                old(self).bytes(),
                old(self).current_position as int,
                Run::Word,
            ),
            final(self).tokens@ == old(self).tokens@.push(
                Token {
                    span: Span {
                        start: old(self).current_position,
                        end: run_end(
                            old(self).bytes(),
                            old(self).current_position as int,
                            Run::Word,
                        ) as usize,
                    },
                    type_: word_type(
                        old(self).bytes().subrange(
                            old(self).current_position as int,
                            run_end(old(self).bytes(), old(self).current_position as int, Run::Word),
                        ),
                    ),
                },
            ),
            final(self).errors == old(self).errors,
    {
        proof {
            lemma_run_end_bounds(self.bytes(), self.current_position as int, Run::Word);
        }
        let identifier_start = self.current_position;
        self.absorb_run(Run::Word);
        let type_ = self.word_type_of(identifier_start, self.current_position);
        self.push_token(identifier_start, type_);
    }

    /// Lexes the number under the cursor: digits, and a dot with more
    /// digits where a digit follows the dot.
    fn lex_number(&mut self)
        requires
            old(self).inv(),
        ensures
            final(self).source == old(self).source,
            final(self).current_position == number_end(
                old(self).bytes(),
                old(self).current_position as int,
            ),
            final(self).tokens@ == old(self).tokens@.push(
                Token {
                    span: Span {
                        start: old(self).current_position,
                        end: number_end(old(self).bytes(), old(self).current_position as int) as usize,
                    },
                    type_: TokenType::Number,
                },
            ),
            final(self).errors == old(self).errors,
    {
        proof {
            lemma_run_end_bounds(self.bytes(), self.current_position as int, Run::Digits);
        }
        let number_start = self.current_position;
        self.absorb_run(Run::Digits);
        let current_character = self.current_character();
        let next_character = self.character_at(self.current_position + 1);
        if current_character == Some('.') && next_character.is_some() && is_digit(
            next_character.unwrap(),
        ) {
            self.current_position += 1;
            proof {
                lemma_run_end_bounds(self.bytes(), self.current_position as int, Run::Digits);
            }
            self.absorb_run(Run::Digits);
        }
        self.push_token(number_start, TokenType::Number);
    }

    /// Lexes the string that starts under the cursor. Where the string is
    /// closed, the token spans both quotes and the cursor stands behind the
    /// closing one. Where it is not, the error is recorded at the opening
    /// quote, there is no token, and the cursor stands at the end of the
    /// source.
    fn lex_string(&mut self)
        requires
            old(self).inv(),
            peek(old(self).bytes(), old(self).current_position as int) == Some('"'),
        ensures
            final(self).source == old(self).source,
            ({
                let at = old(self).current_position;
                let close = run_end(old(self).bytes(), at + 1, Run::Text);
                if close < old(self).bytes().len() {
                    &&& final(self).current_position == close + 1
                    &&& final(self).tokens@ == old(self).tokens@.push(
                        Token {
                            span: Span { start: at, end: (close + 1) as usize },
                            type_: TokenType::String_,
                        },
                    )
                    &&& final(self).errors == old(self).errors
                } else {
                    &&& final(self).current_position == old(self).bytes().len()
                    &&& final(self).tokens == old(self).tokens
                    &&& final(self).errors@ == old(self).errors@.push(
                        Error::UnterminatedStringLiteral { starting_at: at },
                    )
                }
            }),
    {
        proof {
            lemma_run_end_bounds(self.bytes(), self.current_position + 1, Run::Text);
        }
        let string_start = self.current_position;
        self.current_position += 1;
        self.absorb_run(Run::Text);
        if self.current_character().is_none() {
            self.errors.push(Error::UnterminatedStringLiteral { starting_at: string_start });
            return ;
        }
        self.current_position += 1;
        self.push_token(string_start, TokenType::String_);
    }

    /// Ignores the rest of the line.
    fn absorb_until_newline(&mut self)
        requires
            old(self).inv(),
        ensures
            final(self).inv(),
            final(self).source == old(self).source,
            final(self).tokens == old(self).tokens,
            final(self).errors == old(self).errors,
            final(self).current_position == run_end(
                old(self).bytes(),
                old(self).current_position as int,
                Run::Comment,
            ),
    {
        self.absorb_run(Run::Comment);
    }

    /// Lexes up to and with the next token, comment or blank, or to the end
    /// of the source. Newlines and characters that start nothing do not end
    /// the call: the lexer goes past them, recording the characters, until
    /// it settles on something else.
    ///
    /// At the end of the source the call emits the end-of-file token and
    /// returns `Done`, and only there. Anywhere else it takes what it has
    /// settled on, which moves the cursor behind it and records its token,
    /// if it is one, or its error, if it is a string that is not closed.
    fn next(&mut self) -> (result: NextResult)
        requires
            old(self).inv(),
        ensures
            final(self).inv(),
            final(self).source == old(self).source,
            ({
                let source = old(self).bytes();
                let settled = settle(source, old(self).current_position as int);
                &&& result is Done <==> settled == source.len()
                &&& final(self).errors@ == old(self).errors@ + passed_errors(
                    source,
                    old(self).current_position as int,
                ) + scanned_errors(source, settled)
                &&& match result {
                    NextResult::Done => {
                        &&& final(self).current_position == source.len()
                        &&& final(self).tokens@ == old(self).tokens@.push(eof_token(source))
                    },
                    NextResult::NotDone => {
                        &&& final(self).current_position == scan_end(source, settled)
                        &&& final(self).current_position > old(self).current_position
                        &&& final(self).tokens@ == old(self).tokens@ + scanned_tokens(
                            source,
                            settled,
                        )
                    },
                }
            }),
            match result {
                NextResult::NotDone => {
                    &&& final(self).all_tokens() == old(self).all_tokens()
                    &&& final(self).all_errors() == old(self).all_errors()
                },
                NextResult::Done => {
                    &&& final(self).tokens@ == old(self).all_tokens()
                    &&& final(self).errors@ == old(self).all_errors()
                },
            },
    {
        loop
            invariant
                self.inv(),
                self.source == old(self).source,
                self.current_position >= old(self).current_position,
                self.tokens == old(self).tokens,
                settle(self.bytes(), self.current_position as int) == settle(
                    old(self).bytes(),
                    old(self).current_position as int,
                ),
                self.errors@ + passed_errors(self.bytes(), self.current_position as int)
                    == old(self).errors@ + passed_errors(
                    old(self).bytes(),
                    old(self).current_position as int,
                ),
                self.all_tokens() == old(self).all_tokens(),
                self.all_errors() == old(self).all_errors(),
            decreases self.bytes().len() - self.current_position,
        {
            let ghost before = *self;
            let ghost at = self.current_position as int;
            proof {
                lemma_scan_advances(self.bytes(), at);
                lemma_run_end_bounds(self.bytes(), at, Run::Word);
                lemma_run_end_bounds(self.bytes(), at, Run::Digits);
                assert(self.errors@ + Seq::<Error>::empty() =~= self.errors@);
                assert(self.tokens@ + Seq::<Token>::empty() =~= self.tokens@);
            }
            match self.current_character() {
                Some('\n') => {
                    self.current_position += 1;
                    proof {
                        assert(self.took(before));
                        self.lemma_took(before);
                        assert(Seq::<Error>::empty() + passed_errors(
                            self.bytes(),
                            self.current_position as int,
                        ) =~= passed_errors(self.bytes(), self.current_position as int));
                    }
                },
                Some('!') => {
                    self.lex_operator(TokenType::BangEqual, TokenType::Bang);
                    proof {
                        self.settled(before);
                    }
                    return NextResult::NotDone;
                },
                Some('=') => {
                    self.lex_operator(TokenType::EqualEqual, TokenType::Equal);
                    proof {
                        self.settled(before);
                    }
                    return NextResult::NotDone;
                },
                Some('>') => {
                    self.lex_operator(TokenType::GreaterEqual, TokenType::Greater);
                    proof {
                        self.settled(before);
                    }
                    return NextResult::NotDone;
                },
                Some('<') => {
                    self.lex_operator(TokenType::LessEqual, TokenType::Less);
                    proof {
                        self.settled(before);
                    }
                    return NextResult::NotDone;
                },
                Some('/') => {
                    let start = self.current_position;
                    self.current_position += 1;
                    let is_comment = self.absorb_if_match('/');
                    if is_comment {
                        self.absorb_until_newline();
                        proof {
                            self.settled(before);
                        }
                        return NextResult::NotDone;
                    }
                    self.push_token(start, TokenType::Slash);
                    proof {
                        self.settled(before);
                    }
                    return NextResult::NotDone;
                },
                Some(character) => {
                    let token_type = TokenType::from_character(character);
                    if let Some(token_type) = token_type {
                        self.absorb_single_character_token(token_type);
                        proof {
                            self.settled(before);
                        }
                        return NextResult::NotDone;
                    }
                    if character == ' ' || character == '\n' || character == '\r' || character
                        == '\t' {
                        self.current_position += 1;
                        proof {
                            self.settled(before);
                        }
                        return NextResult::NotDone;
                    }
                    if character == '"' {
                        self.lex_string();
                        proof {
                            lemma_run_end_bounds(self.bytes(), at + 1, Run::Text);
                            self.settled(before);
                        }
                        return NextResult::NotDone;
                    }
                    if is_digit(character) {
                        self.lex_number();
                        proof {
                            self.settled(before);
                        }
                        return NextResult::NotDone;
                    }
                    if is_letter(character) {
                        self.lex_identifier_or_keyword();
                        proof {
                            self.settled(before);
                        }
                        return NextResult::NotDone;
                    }
                    self.errors.push(Error::UnexpectedToken { at: self.current_position });
                    self.current_position += 1;
                    proof {
                        lemma_run_end_bounds(self.bytes(), at + 1, Run::Trail);
                    }
                    self.absorb_run(Run::Trail);
                    proof {
                        assert(self.took(before));
                        self.lemma_took(before);
                        let error = Error::UnexpectedToken { at: before.current_position };
                        let rest = passed_errors(self.bytes(), self.current_position as int);
                        assert(before.errors@ + (seq![error] + rest) =~= before.errors@.push(error)
                            + rest);
                    }
                },
                None => {
                    self.tokens.push(
                        Token::new(self.current_position, self.current_position + 1, TokenType::Eof),
                    );
                    proof {
                        assert(before.errors@ + Seq::<Error>::empty() =~= before.errors@);
                        assert((old(self).errors@ + passed_errors(
                            old(self).bytes(),
                            old(self).current_position as int,
                        )) + Seq::<Error>::empty() =~= before.errors@);
                        assert(before.tokens@ + seq![eof_token(before.bytes())]
                            =~= before.tokens@.push(eof_token(before.bytes())));
                    }
                    return NextResult::Done;
                },
            }
        }
    }

    /// The lexer has taken what `before` had settled on.
    proof fn settled(self, before: Lexer<'a>)
        requires
            before.inv(),
            before.current_position < before.bytes().len(),
            !passes(before.bytes(), before.current_position as int),
            self.took(before),
        ensures
            self.inv(),
            self.all_tokens() == before.all_tokens(),
            self.all_errors() == before.all_errors(),
            settle(before.bytes(), before.current_position as int) == before.current_position,
            self.errors@ == (before.errors@ + passed_errors(
                before.bytes(),
                before.current_position as int,
            )) + scanned_errors(before.bytes(), before.current_position as int),
    {
        self.lemma_took(before);
        assert(before.errors@ + Seq::<Error>::empty() =~= before.errors@);
    }
}

} // verus!
