//! Runtime errors.

use crate::diagnostics::{decimal, decimal_text, display_error, rendering};
use crate::lexer::Token;
use crate::span::Span;
use vstd::prelude::*;
use vstd::string::StringExecFns;

verus! {

#[derive(Debug, PartialEq, Eq)]
pub struct TypeError {
    pub expected: String,
    pub got: String,
    pub source_token_span: Span,
}

#[derive(Debug, PartialEq, Eq)]
pub enum Error {
    Type(TypeError),
    VariableDoesntExist(Token),
    NotCallable(Span),
    Arity { got: usize, expected: usize, call_span: Span },
    /// The expression belongs to a part of the language that cannot be
    /// evaluated.
    NotImplemented(Span),
}

impl Error {
    /// Whether this is the type error with the given names and span.
    pub open spec fn is_type_error(self, expected: Seq<char>, got: Seq<char>, span: Span) -> bool {
        &&& self is Type
        &&& self->Type_0.expected@ == expected
        &&& self->Type_0.got@ == got
        &&& self->Type_0.source_token_span == span
    }

    /// The place in the source that the error points at.
    pub open spec fn spec_span(self) -> Span {
        match self {
            Error::Type(error) => error.source_token_span,
            Error::VariableDoesntExist(token) => token.span,
            Error::NotCallable(span) => span,
            Error::Arity { call_span, .. } => call_span,
            Error::NotImplemented(span) => span,
        }
    }

    pub open spec fn spec_message(self) -> Seq<char> {
        match self {
            Error::Type(error) => "Type Error: expected "@ + error.expected@ + ", got "@
                + error.got@,
            Error::VariableDoesntExist(_) => "Variable doesn't exist"@,
            Error::NotCallable(_) => "Value is not callable"@,
            Error::Arity { got, expected, .. } => "Wrong number of call arguments. Expected "@
                + decimal(expected as nat) + ", but got "@ + decimal(got as nat),
            Error::NotImplemented(_) => "Not implemented"@,
        }
    }

    pub fn message(&self) -> (message: String)
        ensures
            message@ == self.spec_message(),
    {
        match self {
            Error::Type(error) => "Type Error: expected ".to_owned().concat(
                error.expected.as_str(),
            ).concat(", got ").concat(error.got.as_str()),
            Error::VariableDoesntExist(_) => "Variable doesn't exist".to_owned(),
            Error::NotCallable(_) => "Value is not callable".to_owned(),
            Error::Arity { got, expected, .. } => "Wrong number of call arguments. Expected ".to_owned().concat(
                decimal_text(*expected).as_str(),
            ).concat(", but got ").concat(decimal_text(*got).as_str()),
            Error::NotImplemented(_) => "Not implemented".to_owned(),
        }
    }

    /// The error as it is shown to the user, with the line of the source
    /// that it is about.
    pub fn display(&self, source: &str) -> (text: String)
        ensures
            text@ == rendering(source, self.spec_span(), self.spec_message()),
    {
        let span = self.span();
        let message = self.message();
        display_error(source, &span, message.as_str())
    }

    pub fn type_error(expected: String, got: String, source_token_span: Span) -> (error: Self)
        ensures
            error.is_type_error(expected@, got@, source_token_span),
    {
        Error::Type(TypeError { expected, got, source_token_span })
    }

    pub fn span(&self) -> (span: Span)
        ensures
            span == self.spec_span(),
    {
        match self {
            Error::Type(error) => error.source_token_span,
            Error::VariableDoesntExist(token) => token.span,
            Error::NotCallable(span) => *span,
            Error::Arity { call_span, .. } => *call_span,
            Error::NotImplemented(span) => *span,
        }
    }
}

} // verus!
