//! Runtime values.

use crate::text::{lexeme, lexeme_of};
use crate::lexer::Token;
use crate::span::Span;
use crate::statement::Declaration;
use vstd::prelude::*;
use vstd::string::StringExecFns;

verus! {

/// A function together with the scope that it was declared in.
#[derive(Debug, Clone, Copy)]
pub struct Callable<'a> {
    /// The scope that the function closes over.
    pub environment: usize,
    /// The source text that the function was declared in.
    pub source: &'a str,
    pub name_span: Span,
    /// The tokens that name the parameters.
    pub parameters: &'a Vec<Token>,
    pub body: &'a Vec<Declaration>,
}

/// A value, with the span of the expression that produced it.
///
/// A number is held as the 64 bits of its binary representation. The
/// library never computes on numbers: it hands them to the host and takes
/// the host's answer.
#[derive(Debug)]
pub enum Value<'a> {
    String(Span, String),
    Number(Span, u64),
    Boolean(Span, bool),
    Nil(Span),
    Callable(Callable<'a>),
}

/// The types that a value can have.
#[derive(Debug, Clone, Copy, PartialEq, Eq, Structural)]
pub enum Kind {
    String,
    Number,
    Boolean,
    Nil,
    Callable,
}

impl Kind {
    /// The name of the type, as error messages give it.
    pub open spec fn spec_name(self) -> Seq<char> {
        match self {
            Kind::String => "String"@,
            Kind::Number => "Number"@,
            Kind::Boolean => "Boolean"@,
            Kind::Nil => "Nil"@,
            Kind::Callable => "Callable"@,
        }
    }

    pub fn name(self) -> (name: String)
        ensures
            name@ == self.spec_name(),
    {
        match self {
            Kind::String => "String".to_owned(),
            Kind::Number => "Number".to_owned(),
            Kind::Boolean => "Boolean".to_owned(),
            Kind::Nil => "Nil".to_owned(),
            Kind::Callable => "Callable".to_owned(),
        }
    }
}

impl<'a> Value<'a> {
    /// The span of the expression that produced the value; for a function,
    /// the span of its name.
    pub open spec fn spec_span(self) -> Span {
        match self {
            Value::String(span, _) => span,
            Value::Number(span, _) => span,
            Value::Boolean(span, _) => span,
            Value::Nil(span) => span,
            Value::Callable(callable) => callable.name_span,
        }
    }

    pub open spec fn spec_kind(self) -> Kind {
        match self {
            Value::String(_, _) => Kind::String,
            Value::Number(_, _) => Kind::Number,
            Value::Boolean(_, _) => Kind::Boolean,
            Value::Nil(_) => Kind::Nil,
            Value::Callable(_) => Kind::Callable,
        }
    }

    /// Whether the value makes sense among `count` scopes: a function
    /// closes over one of them.
    pub open spec fn within(self, count: nat) -> bool {
        match self {
            Value::Callable(callable) => callable.environment < count,
            _ => true,
        }
    }

    /// Everything is truthy except `nil` and `false`.
    pub open spec fn spec_is_truthy(self) -> bool {
        match self {
            Value::Boolean(_, value) => value,
            Value::Nil(_) => false,
            _ => true,
        }
    }

    /// The text that stands for the value where it is printed or joined to
    /// a string. A number has none here: the host writes numbers out.
    pub open spec fn spec_text(self) -> Option<Seq<char>> {
        match self {
            Value::String(_, text) => Some(text@),
            Value::Number(_, _) => None,
            Value::Boolean(_, value) => Some(
                if value {
                    "true"@
                } else {
                    "false"@
                },
            ),
            Value::Nil(_) => Some("nil"@),
            Value::Callable(callable) => Some(
                "<fn "@ + lexeme(callable.source, callable.name_span) + ">"@,
            ),
        }
    }

    pub fn text(&self) -> (text: Option<String>)
        ensures
            match text {
                Some(text) => self.spec_text() == Some(text@),
                None => self.spec_text() is None,
            },
    {
        match self {
            Value::String(_, text) => Some(text.clone()),
            Value::Number(_, _) => None,
            Value::Boolean(_, value) => Some(
                if *value {
                    "true".to_owned()
                } else {
                    "false".to_owned()
                },
            ),
            Value::Nil(_) => Some("nil".to_owned()),
            Value::Callable(callable) => Some(
                "<fn ".to_owned().concat(lexeme_of(callable.source, callable.name_span)).concat(
                    ">",
                ),
            ),
        }
    }

    pub fn span(&self) -> (span: Span)
        ensures
            span == self.spec_span(),
    {
        match self {
            Value::String(span, _) => *span,
            Value::Number(span, _) => *span,
            Value::Boolean(span, _) => *span,
            Value::Nil(span) => *span,
            Value::Callable(callable) => callable.name_span,
        }
    }

    pub fn kind(&self) -> (kind: Kind)
        ensures
            kind == self.spec_kind(),
    {
        match self {
            Value::String(_, _) => Kind::String,
            Value::Number(_, _) => Kind::Number,
            Value::Boolean(_, _) => Kind::Boolean,
            Value::Nil(_) => Kind::Nil,
            Value::Callable(_) => Kind::Callable,
        }
    }

    pub fn is_truthy(&self) -> (truthy: bool)
        ensures
            truthy == self.spec_is_truthy(),
    {
        match self {
            Value::String(_, _) => true,
            Value::Number(_, _) => true,
            Value::Boolean(_, value) => *value,
            Value::Nil(_) => false,
            Value::Callable(_) => true,
        }
    }

    /// A copy of the value.
    pub fn duplicate(&self) -> (copy: Value<'a>)
        ensures
            copy == *self,
    {
        match self {
            Value::String(span, text) => Value::String(*span, text.clone()),
            Value::Number(span, bits) => Value::Number(*span, *bits),
            Value::Boolean(span, value) => Value::Boolean(*span, *value),
            Value::Nil(span) => Value::Nil(*span),
            Value::Callable(callable) => Value::Callable(*callable),
        }
    }
}

} // verus!
