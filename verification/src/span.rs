//! Source positions.

use vstd::prelude::*;
use vstd::string::StringSliceAdditionalSpecFns;
use vstd::utf8::*;

verus! {

broadcast use vstd::utf8::group_utf8_lib;

/// A half-open range `start..end` of byte offsets into a source text.
#[derive(Debug, Clone, Copy, PartialEq, Eq, Structural)]
pub struct Span {
    pub start: usize,
    pub end: usize,
}

impl Span {
    /// A span never ends before it starts.
    pub open spec fn well_formed(self) -> bool {
        self.start <= self.end
    }

    /// The bytes of `source` that the span covers.
    pub open spec fn bytes_of(self, source: Seq<u8>) -> Seq<u8> {
        source.subrange(self.start as int, self.end as int)
    }

    /// The span lies inside `source` and cuts no character of it in two.
    pub open spec fn fits(self, source: Seq<u8>) -> bool {
        &&& self.start <= self.end <= source.len()
        &&& is_char_boundary(source, self.start as int)
        &&& is_char_boundary(source, self.end as int)
    }

    /// The text of `source` that the span covers.
    pub open spec fn text_of(self, source: Seq<u8>) -> Seq<char> {
        decode_utf8(self.bytes_of(source))
    }

    /// The smallest span that covers both `self` and `other`.
    pub open spec fn cover(self, other: Span) -> Span {
        Span {
            start: if self.start <= other.start { self.start } else { other.start },
            end: if self.end >= other.end { self.end } else { other.end },
        }
    }

    /// Every offset of `inner` is an offset of `self`.
    pub open spec fn contains(self, inner: Span) -> bool {
        self.start <= inner.start && inner.end <= self.end
    }

    pub fn new(start: usize, end: usize) -> (span: Span)
        requires
            start <= end,
        ensures
            span == (Span { start, end }),
            span.well_formed(),
    {
        Span { start, end }
    }

    /// Whether `slice` may be called with this span on `source`.
    pub fn fits_in(&self, source: &str) -> (fits: bool)
        ensures
            fits == self.fits(source.spec_bytes()),
    {
        self.start <= self.end && self.end <= source.as_bytes().len() && source.is_char_boundary(
            self.start,
        ) && source.is_char_boundary(self.end)
    }

    pub fn slice<'a>(&self, source: &'a str) -> (lexeme: &'a str)
        requires
            self.fits(source.spec_bytes()),
        ensures
            lexeme.spec_bytes() == self.bytes_of(source.spec_bytes()),
            lexeme@ == self.text_of(source.spec_bytes()),
    {
        let (head, _) = source.split_at(self.end);
        proof {
            let bytes = source.spec_bytes();
            let cut = bytes.subrange(0, self.end as int);
            assert(head.spec_bytes() == cut);
            if self.start < self.end {
                assert(cut[self.start as int] == bytes[self.start as int]);
                is_char_boundary_iff_not_is_continuation_byte(bytes, self.start as int);
                is_char_boundary_iff_not_is_continuation_byte(cut, self.start as int);
            }
        }
        let (_, lexeme) = head.split_at(self.start);
        proof {
            let bytes = source.spec_bytes();
            let cut = bytes.subrange(0, self.end as int);
            assert(cut.subrange(self.start as int, cut.len() as int) == self.bytes_of(bytes));
        }
        lexeme
    }

    pub fn combine(self, other: Span) -> (span: Span)
        ensures
            span == self.cover(other),
    {
        let start = if self.start <= other.start { self.start } else { other.start };
        let end = if self.end >= other.end { self.end } else { other.end };
        Span { start, end }
    }

    /// Combining covers both spans, and nothing smaller does.
    pub proof fn lemma_cover_is_least(self, other: Span, any: Span)
        ensures
            self.cover(other).contains(self),
            self.cover(other).contains(other),
            any.contains(self) && any.contains(other) ==> any.contains(self.cover(other)),
            self.well_formed() || other.well_formed() ==> self.cover(other).well_formed(),
    {
    }

    /// Combining is commutative, associative and idempotent.
    pub proof fn lemma_cover_is_a_join(self, other: Span, third: Span)
        ensures
            self.cover(other) == other.cover(self),
            self.cover(other).cover(third) == self.cover(other.cover(third)),
            self.cover(self) == self,
    {
    }
}

} // verus!
