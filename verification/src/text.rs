//! The text of tokens.

use crate::span::Span;
use vstd::prelude::*;
use vstd::string::StringSliceAdditionalSpecFns;

verus! {

/// The text that a span covers in a source; nothing where the span does not
/// fit the source.
pub open spec fn lexeme(source: &str, span: Span) -> Seq<char> {
    if span.fits(source.spec_bytes()) {
        span.text_of(source.spec_bytes())
    } else {
        Seq::empty()
    }
}

/// The span of a string literal without its quotes.
pub open spec fn unquoted(span: Span) -> Span {
    if span.end - span.start >= 2 {
        Span { start: (span.start + 1) as usize, end: (span.end - 1) as usize }
    } else {
        Span { start: span.start, end: span.start }
    }
}

/// The text of a string literal: what stands between its quotes.
pub open spec fn literal_text(source: &str, span: Span) -> Seq<char> {
    lexeme(source, unquoted(span))
}

/// The text that `span` covers in `source`.
pub fn lexeme_of<'a>(source: &'a str, span: Span) -> (text: &'a str)
    ensures
        text@ == lexeme(source, span),
{
    if span.fits_in(source) {
        span.slice(source)
    } else {
        let text = "";
        proof {
            reveal_strlit("");
            assert(text@ =~= Seq::empty());
        }
        text
    }
}

/// The text of the string literal that `span` covers in `source`.
pub fn literal_text_of<'a>(source: &'a str, span: Span) -> (text: &'a str)
    ensures
        text@ == literal_text(source, span),
{
    if span.start <= span.end && span.end - span.start >= 2 {
        lexeme_of(source, Span { start: span.start + 1, end: span.end - 1 })
    } else {
        lexeme_of(source, Span { start: span.start, end: span.start })
    }
}

} // verus!
