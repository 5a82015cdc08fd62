//! The recursive-descent parser.
//!
//! Each method parses one production of the grammar and is proved to yield
//! what the production of the same name in `grammar` says.

mod expressions;
mod statements;

use crate::diagnostics::{display_error, rendering};
use crate::expression::{Expression, SpecExpression};
use crate::grammar;
use crate::grammar::Step;
use crate::lexer::{Token, TokenType};
use crate::span::Span;
use crate::statement::{
    lemma_trees_push, trees, Declaration, SpecDeclaration, SpecStatement, Statement,
};
use std::rc::Rc;
use vstd::prelude::*;
use vstd::string::{StringExecFns, StringSliceAdditionalSpecFns};

verus! {

#[derive(Debug, Clone, Copy, PartialEq, Eq, Structural)]
pub enum Error {
    UnexpectedToken {
        expected_token_type: Option<TokenType>,
        unexpected_token_type: TokenType,
        span: Span,
    },
    UnexpectedEof,
    InvalidAssignmentTarget { target_span: Span },
    TooManyArguments { callee_span: Span },
}

impl Error {
    /// The part of the source that the error is about. The end of the
    /// tokens has no place in the source: it is shown at the end of it.
    pub open spec fn spec_span(self, source: Seq<u8>) -> Span {
        match self {
            Error::UnexpectedToken { span, .. } => span,
            Error::UnexpectedEof => Span { start: source.len() as usize, end: source.len() as usize },
            Error::InvalidAssignmentTarget { target_span } => target_span,
            Error::TooManyArguments { callee_span } => callee_span,
        }
    }

    pub open spec fn spec_message(self) -> Seq<char> {
        match self {
            Error::UnexpectedToken { unexpected_token_type, .. } => "Unexpected token "@
                + unexpected_token_type.spec_name(),
            Error::UnexpectedEof => "Unexpected end of file"@,
            Error::InvalidAssignmentTarget { .. } => "Invalid assignment target"@,
            Error::TooManyArguments { .. } => "Too many arguments to call"@,
        }
    }

    /// What is shown after the message: the token that was expected, where
    /// one was.
    pub open spec fn spec_hint(self) -> Seq<char> {
        match self {
            Error::UnexpectedToken { expected_token_type: Some(expected), .. } => {
                "  Info: \x1b[34mExpected token of type: "@ + expected.spec_name() + "\x1b[0m\n"@
            },
            _ => Seq::empty(),
        }
    }

    pub fn span(&self, source: &str) -> (span: Span)
        ensures
            span == self.spec_span(source.spec_bytes()),
    {
        match self {
            Error::UnexpectedToken { span, .. } => *span,
            Error::UnexpectedEof => {
                let end = source.as_bytes().len();
                Span { start: end, end }
            },
            Error::InvalidAssignmentTarget { target_span } => *target_span,
            Error::TooManyArguments { callee_span } => *callee_span,
        }
    }

    pub fn message(&self) -> (message: String)
        ensures
            message@ == self.spec_message(),
    {
        match self {
            Error::UnexpectedToken { unexpected_token_type, .. } => {
                "Unexpected token ".to_owned().concat(unexpected_token_type.name())
            },
            Error::UnexpectedEof => "Unexpected end of file".to_owned(),
            Error::InvalidAssignmentTarget { .. } => "Invalid assignment target".to_owned(),
            Error::TooManyArguments { .. } => "Too many arguments to call".to_owned(),
        }
    }

    /// The error as it is shown to the user, with the line of the source
    /// that it is about.
    pub fn display(&self, source: &str) -> (text: String)
        ensures
            text@ == rendering(source, self.spec_span(source.spec_bytes()), self.spec_message())
                + self.spec_hint(),
    {
        let span = self.span(source);
        let message = self.message();
        let text = display_error(source, &span, message.as_str());
        match self {
            Error::UnexpectedToken { expected_token_type: Some(expected), .. } => {
                text.concat(
                    "  Info: \x1b[34mExpected token of type: ".to_owned().concat(
                        expected.name(),
                    ).concat("\x1b[0m\n").as_str(),
                )
            },
            _ => {
                assert(text@ + Seq::<char>::empty() =~= text@);
                text
            },
        }
    }
}

pub struct Parser {
    pub(crate) current_index: usize,
    pub(crate) errors: Vec<Error>,
}

pub struct ParserResult {
    pub errors: Vec<Error>,
    pub declarations: Vec<Declaration>,
}

/// What an expression that may be missing stands for.
pub open spec fn expression_view(parsed: Option<Rc<Expression>>) -> Option<SpecExpression> {
    match parsed {
        Some(expression) => Some(expression@),
        None => None,
    }
}

/// What a statement that may be missing stands for.
pub open spec fn statement_view(parsed: Option<Statement>) -> Option<SpecStatement> {
    match parsed {
        Some(statement) => Some(statement@),
        None => None,
    }
}

/// What a declaration that may be missing stands for.
pub open spec fn declaration_view(parsed: Option<Declaration>) -> Option<SpecDeclaration> {
    match parsed {
        Some(declaration) => Some(declaration@),
        None => None,
    }
}

/// The expression parsed is the one that the grammar yields.
pub open spec fn is_expression(parsed: Option<Rc<Expression>>, value: Option<SpecExpression>) -> bool {
    value == expression_view(parsed)
}

/// The statement parsed is the one that the grammar yields.
pub open spec fn is_statement(parsed: Option<Statement>, value: Option<SpecStatement>) -> bool {
    value == statement_view(parsed)
}

/// The declaration parsed is the one that the grammar yields.
pub open spec fn is_declaration(parsed: Option<Declaration>, value: Option<SpecDeclaration>) -> bool {
    value == declaration_view(parsed)
}

impl Parser {
    /// The offset of the token under the cursor.
    pub(crate) open spec fn at(self) -> int {
        self.current_index as int
    }

    /// The errors recorded so far.
    pub(crate) open spec fn recorded(self) -> Seq<Error> {
        self.errors@
    }

    /// The cursor is at a token or at the end of the tokens.
    pub(crate) open spec fn inside(self, tokens: Seq<Token>) -> bool {
        self.current_index <= tokens.len()
    }

    /// The parser has got here from `before` by the given step.
    pub(crate) open spec fn stepped<T>(self, before: Parser, tokens: Seq<Token>, step: Step<T>) -> bool {
        &&& self.current_index == before.current_index + step.used
        &&& self.current_index <= tokens.len()
        &&& self.errors@ == step.errors
    }

    /// Parses a whole token stream. The parser always reaches the end: where
    /// a declaration fails it records the error and goes on at the next
    /// statement.
    #[verifier::rlimit(80)]
    pub fn parse(tokens: &[Token]) -> (result: ParserResult)
        ensures
            trees(result.declarations@) == grammar::parse(tokens@).declarations,
            result.errors@ == grammar::parse(tokens@).errors,
    {
        let mut parser = Parser { current_index: 0, errors: vec![] };
        let mut declarations: Vec<Declaration> = vec![];
        assert(trees(declarations@) =~= Seq::empty());
        loop
            invariant
                parser.at() <= tokens@.len() + 1,
                grammar::parse(tokens@) == grammar::program(
                    tokens@,
                    parser.at(),
                    parser.errors@,
                    trees(declarations@),
                ),
            decreases grammar::left(tokens@, parser.at()),
        {
            let more = match parser.current_token(tokens) {
                None => false,
                Some(token) => token.type_ != TokenType::Eof,
            };
            if !more {
                return ParserResult { errors: parser.errors, declarations };
            }
            let ghost found = declarations@;
            let declaration = parser.parse_declaration(tokens);
            match declaration {
                None => {
                    proof {
                        grammar::lemma_synchronise_advances(tokens@, parser.at());
                    }
                    parser.synchronise(tokens);
                },
                Some(declaration) => {
                    proof {
                        lemma_trees_push(found, declaration);
                    }
                    declarations.push(declaration);
                },
            }
        }
    }

    pub(crate) fn consume_token_of_type(&mut self, tokens: &[Token], token_type: TokenType) -> (token: Option<
        Token,
    >)
        requires
            old(self).inside(tokens@),
        ensures
            final(self).stepped(
                *old(self),
                tokens@,
                grammar::expect(tokens@, old(self).at(), old(self).recorded(), token_type),
            ),
            token == grammar::expect(
                tokens@,
                old(self).at(),
                old(self).recorded(),
                token_type,
            ).value,
    {
        let current_token = match self.current_token(tokens) {
            Some(current_token) => current_token,
            None => {
                self.errors.push(Error::UnexpectedEof);
                return None;
            },
        };
        if current_token.type_ != token_type {
            self.errors.push(
                Error::UnexpectedToken {
                    expected_token_type: Some(token_type),
                    unexpected_token_type: current_token.type_,
                    span: current_token.span,
                },
            );
            return None;
        }
        self.current_index += 1;
        Some(current_token)
    }

    /// Whether the current token has the given type.
    pub(crate) fn is_at(&self, tokens: &[Token], token_type: TokenType) -> (yes: bool)
        ensures
            yes == grammar::is_type(tokens@, self.at(), token_type),
    {
        match self.current_token(tokens) {
            Some(token) => token.type_ == token_type,
            None => false,
        }
    }

    /// If the current token has the given type, consumes it and returns
    /// true. Else does nothing and returns false.
    pub(crate) fn consume_token_if(&mut self, tokens: &[Token], token_type: TokenType) -> (consumed: bool)
        requires
            old(self).inside(tokens@),
        ensures
            consumed == grammar::is_type(tokens@, old(self).at(), token_type),
            final(self).at() == old(self).at() + if consumed {
                1int
            } else {
                0int
            },
            final(self).inside(tokens@),
            final(self).recorded() == old(self).recorded(),
    {
        let types = vec![token_type];
        assert(types@ =~= seq![token_type]);
        assert(types@[0] == token_type);
        self.consume_token_if_in_vec(tokens, &types)
    }

    /// If the current token's type is in the given list, consumes it and
    /// returns true. Else does nothing and returns false.
    pub(crate) fn consume_token_if_in_vec(&mut self, tokens: &[Token], token_types: &Vec<TokenType>) -> (consumed:
        bool)
        requires
            old(self).inside(tokens@),
        ensures
            consumed == grammar::is_at(tokens@, old(self).at(), token_types@),
            final(self).at() == old(self).at() + if consumed {
                1int
            } else {
                0int
            },
            final(self).inside(tokens@),
            final(self).recorded() == old(self).recorded(),
    {
        let current_token = match self.current_token(tokens) {
            Some(current_token) => current_token,
            None => {
                return false;
            },
        };
        let mut i: usize = 0;
        while i < token_types.len()
            invariant
                i <= token_types.len(),
                self.current_index < tokens.len(),
                *self == *old(self),
                current_token == tokens@[self.at()],
                forall|k: int| 0 <= k < i ==> token_types@[k] != current_token.type_,
            decreases token_types.len() - i,
        {
            if token_types[i] == current_token.type_ {
                assert(token_types@[i as int] == tokens@[self.at()].type_);
                self.current_index += 1;
                return true;
            }
            i += 1;
        }
        false
    }

    pub(crate) fn current_token(&self, tokens: &[Token]) -> (token: Option<Token>)
        ensures
            token == grammar::token_at(tokens@, self.at()),
            tokens@.len() <= usize::MAX,
    {
        if self.current_index < tokens.len() {
            Some(tokens[self.current_index])
        } else {
            None
        }
    }

    /// Gives up the current token and all that follow up to the start of
    /// the next statement.
    #[verifier::rlimit(80)]
    pub(crate) fn synchronise(&mut self, tokens: &[Token])
        requires
            old(self).inside(tokens@),
        ensures
            final(self).at() == grammar::synchronise(tokens@, old(self).at()),
            final(self).at() <= tokens@.len() + 1,
            final(self).recorded() == old(self).recorded(),
    {
        if self.current_index >= tokens.len() {
            if self.current_index < usize::MAX {
                self.current_index += 1;
            }
            return ;
        }
        self.current_index += 1;
        while self.current_index < tokens.len()
            invariant
                1 <= self.current_index <= tokens.len(),
                self.errors == old(self).errors,
                grammar::resume(tokens@, self.at()) == grammar::synchronise(tokens@, old(self).at()),
            decreases tokens.len() - self.current_index,
        {
            let token = tokens[self.current_index];
            let previous = tokens[self.current_index - 1];
            if previous.type_ == TokenType::Semicolon {
                return ;
            }
            match token.type_ {
                TokenType::Class
                | TokenType::Fun
                | TokenType::Var
                | TokenType::For
                | TokenType::If
                | TokenType::While
                | TokenType::Print
                | TokenType::Return => {
                    return ;
                },
                _ => {},
            }
            self.current_index += 1;
        }
    }
}

} // verus!
