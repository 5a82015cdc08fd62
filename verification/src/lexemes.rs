//! What the lexer's output looks like.
//!
//! The lexeme of every token justifies the token's type, every token is as
//! long as it can be, and every error is an error of the source.

use crate::lexer::{
    blank, continues, digit, eof_token, errors_from, letter, lex_errors, lex_tokens,
    lemma_run_end_bounds, lemma_scan_advances, peek, punctuation, run_end, scan, scan_end,
    tokens_from, word_type, Error, Run, Scan, TokenType,
};
use vstd::prelude::*;
use vstd::utf8::*;

verus! {

/// `lexeme` is the given characters, one byte each.
pub open spec fn spelled(lexeme: Seq<u8>, text: Seq<char>) -> bool {
    &&& lexeme.len() == text.len()
    &&& forall|i: int| 0 <= i < lexeme.len() ==> #[trigger] lexeme[i] as char == text[i]
}

/// The text of the operators of one or two characters.
pub open spec fn operator_text(type_: TokenType) -> Option<Seq<char>> {
    match type_ {
        TokenType::Slash => Some(seq!['/']),
        TokenType::Bang => Some(seq!['!']),
        TokenType::BangEqual => Some(seq!['!', '=']),
        TokenType::Equal => Some(seq!['=']),
        TokenType::EqualEqual => Some(seq!['=', '=']),
        TokenType::Greater => Some(seq!['>']),
        TokenType::GreaterEqual => Some(seq!['>', '=']),
        TokenType::Less => Some(seq!['<']),
        TokenType::LessEqual => Some(seq!['<', '=']),
        _ => None,
    }
}

/// Digits, with at most one dot among them, which is neither first nor last.
pub open spec fn is_number(lexeme: Seq<u8>) -> bool {
    &&& lexeme.len() >= 1
    &&& digit(lexeme.first() as char)
    &&& digit(lexeme.last() as char)
    &&& forall|i: int|
        0 <= i < lexeme.len() ==> digit(#[trigger] lexeme[i] as char) || lexeme[i] as char == '.'
    &&& forall|i: int, j: int|
        0 <= i < j < lexeme.len() ==> !(#[trigger] lexeme[i] as char == '.' && #[trigger] lexeme[j] as char
            == '.')
}

/// A double quote, then anything but double quotes, then a double quote.
pub open spec fn is_string(lexeme: Seq<u8>) -> bool {
    &&& lexeme.len() >= 2
    &&& lexeme.first() as char == '"'
    &&& lexeme.last() as char == '"'
    &&& forall|i: int| 1 <= i < lexeme.len() - 1 ==> #[trigger] lexeme[i] as char != '"'
}

/// A letter, then letters and digits.
pub open spec fn is_word(lexeme: Seq<u8>) -> bool {
    &&& lexeme.len() >= 1
    &&& letter(lexeme.first() as char)
    &&& forall|i: int| 0 <= i < lexeme.len() ==> continues(Run::Word, #[trigger] lexeme[i] as char)
}

/// Whether `lexeme` is a piece of source text that a token of type `type_`
/// may stand for. No text justifies the end-of-file token.
pub open spec fn justifies(lexeme: Seq<u8>, type_: TokenType) -> bool {
    match type_ {
        TokenType::Number => is_number(lexeme),
        TokenType::String_ => is_string(lexeme),
        TokenType::Eof => false,
        _ => if operator_text(type_) is Some {
            spelled(lexeme, operator_text(type_)->0)
        } else {
            ||| lexeme.len() == 1 && punctuation(lexeme[0] as char) == Some(type_)
            ||| is_word(lexeme) && word_type(lexeme) == type_
        },
    }
}

/// In well-formed UTF-8 a character starts right after every ASCII byte.
pub proof fn lemma_boundary_after_ascii(source: Seq<u8>, at: int)
    requires
        valid_utf8(source),
        0 <= at < source.len(),
        source[at] <= 0x7f,
    ensures
        is_char_boundary(source, at),
        is_char_boundary(source, at + 1),
    decreases source.len(),
{
    broadcast use vstd::utf8::group_utf8_lib;

    let first = length_of_first_scalar(source);
    if at < first {
        reveal_with_fuel(is_char_boundary, 2);
    } else {
        let rest = pop_first_scalar(source);
        assert(rest[at - first] == source[at]);
        lemma_boundary_after_ascii(rest, at - first);
    }
}

/// The token that the lexer makes of what it finds at `at` is justified by
/// the text that it spans, and starts and ends with an ASCII character.
pub proof fn lemma_scanned_token_justified(source: Seq<u8>, at: int)
    requires
        scan(source, at) is Token,
    ensures
        0 <= at < scan_end(source, at) <= source.len(),
        justifies(source.subrange(at, scan_end(source, at)), scan(source, at)->type_),
        source[at] <= 0x7f,
        source[scan_end(source, at) - 1] <= 0x7f,
{
    lemma_scan_advances(source, at);
    let end = scan_end(source, at);
    let lexeme = source.subrange(at, end);
    let character = source[at] as char;
    let type_ = scan(source, at)->type_;
    assert(lexeme.first() == source[at]);
    assert(lexeme.last() == source[end - 1]);
    if character == '!' || character == '=' || character == '>' || character == '<' || character
        == '/' {
        if end == at + 2 {
            assert(lexeme[1] == source[at + 1]);
        }
        assert(spelled(lexeme, operator_text(type_)->0));
    } else if punctuation(character) is Some {
    } else if character == '"' {
        lemma_run_end_bounds(source, at + 1, Run::Text);
        assert forall|i: int| 1 <= i < lexeme.len() - 1 implies #[trigger] lexeme[i] as char
            != '"' by {
            assert(lexeme[i] == source[at + i]);
        }
    } else if digit(character) {
        lemma_run_end_bounds(source, at, Run::Digits);
        let whole = run_end(source, at, Run::Digits);
        if end != whole {
            lemma_run_end_bounds(source, whole + 1, Run::Digits);
        }
        assert forall|i: int| 0 <= i < lexeme.len() implies digit(#[trigger] lexeme[i] as char)
            || lexeme[i] as char == '.' by {
            assert(lexeme[i] == source[at + i]);
        }
        assert forall|i: int, j: int| 0 <= i < j < lexeme.len() implies !(#[trigger] lexeme[i] as char
            == '.' && #[trigger] lexeme[j] as char == '.') by {
            assert(lexeme[i] == source[at + i]);
            assert(lexeme[j] == source[at + j]);
        }
        assert(digit(source[end - 1] as char));
    } else {
        lemma_run_end_bounds(source, at, Run::Word);
        assert forall|i: int| 0 <= i < lexeme.len() implies continues(
            Run::Word,
            #[trigger] lexeme[i] as char,
        ) by {
            assert(lexeme[i] == source[at + i]);
        }
        assert(continues(Run::Word, source[end - 1] as char));
        assert(is_word(lexeme));
    }
}

/// The tokens from an offset on are never empty, and the last one is the
/// end-of-file token.
pub proof fn lemma_tokens_end_with_eof(source: Seq<u8>, at: int)
    ensures
        tokens_from(source, at).len() >= 1,
        tokens_from(source, at).last() == eof_token(source),
    decreases source.len() - at,
{
    lemma_scan_advances(source, at);
    if !(scan(source, at) is End) {
        lemma_tokens_end_with_eof(source, scan_end(source, at));
    }
}

/// Every token from an offset on but the last lies at or after that offset,
/// inside the source, and is justified by the text that it spans.
pub proof fn lemma_tokens_from_justified(source: Seq<u8>, at: int, i: int)
    requires
        0 <= at,
        source.len() < usize::MAX,
        0 <= i < tokens_from(source, at).len() - 1,
    ensures
        ({
            let token = tokens_from(source, at)[i];
            &&& at <= token.span.start < token.span.end <= source.len()
            &&& justifies(token.span.bytes_of(source), token.type_)
            &&& source[token.span.start as int] <= 0x7f
            &&& source[token.span.end - 1] <= 0x7f
            &&& i + 1 < tokens_from(source, at).len() - 1 ==> token.span.end <= tokens_from(
                source,
                at,
            )[i + 1].span.start
        }),
    decreases source.len() - at,
{
    lemma_scan_advances(source, at);
    let end = scan_end(source, at);
    match scan(source, at) {
        Scan::Token { type_, end } => {
            lemma_tokens_end_with_eof(source, end);
            if i == 0 {
                lemma_scanned_token_justified(source, at);
                if 1 < tokens_from(source, at).len() - 1 {
                    lemma_tokens_from_justified(source, end, 0);
                }
            } else {
                lemma_tokens_from_justified(source, end, i - 1);
            }
        },
        Scan::Skip { end } => {
            lemma_tokens_from_justified(source, end, i);
        },
        Scan::Fault { end, .. } => {
            lemma_tokens_from_justified(source, end, i);
        },
        Scan::End => {},
    }
}

/// Whether the token of type `type_` that spans from `start` to `end` is as
/// long as it can be: an operator that `=` would make another takes no `=`
/// after it, a `/` no `/`, a word no letter or digit, and a number no
/// digit, nor, where it has no dot yet, a dot with a digit.
pub open spec fn maximal(source: Seq<u8>, start: int, end: int, type_: TokenType) -> bool {
    let next = peek(source, end);
    match type_ {
        TokenType::Bang | TokenType::Equal | TokenType::Greater | TokenType::Less => next != Some(
            '=',
        ),
        TokenType::Slash => next != Some('/'),
        TokenType::Number => {
            &&& !(next is Some && digit(next->0))
            &&& (forall|i: int| start <= i < end ==> #[trigger] source[i] as char != '.') ==> !(next
                == Some('.') && peek(source, end + 1) is Some && digit(peek(source, end + 1)->0))
        },
        TokenType::LeftParen
        | TokenType::RightParen
        | TokenType::LeftBrace
        | TokenType::RightBrace
        | TokenType::Comma
        | TokenType::Dot
        | TokenType::Minus
        | TokenType::Plus
        | TokenType::Semicolon
        | TokenType::Star
        | TokenType::BangEqual
        | TokenType::EqualEqual
        | TokenType::GreaterEqual
        | TokenType::LessEqual
        | TokenType::String_
        | TokenType::Eof => true,
        _ => !(next is Some && continues(Run::Word, next->0)),
    }
}

/// The token that the lexer makes of what it finds at `at` is as long as it
/// can be.
pub proof fn lemma_scanned_token_maximal(source: Seq<u8>, at: int)
    requires
        scan(source, at) is Token,
    ensures
        maximal(source, at, scan_end(source, at), scan(source, at)->type_),
{
    lemma_scan_advances(source, at);
    let end = scan_end(source, at);
    let character = source[at] as char;
    let type_ = scan(source, at)->type_;
    if character == '!' || character == '=' || character == '>' || character == '<' || character
        == '/' {
    } else if punctuation(character) is Some {
    } else if character == '"' {
    } else if digit(character) {
        lemma_run_end_bounds(source, at, Run::Digits);
        let whole = run_end(source, at, Run::Digits);
        if peek(source, whole) == Some('.') && peek(source, whole + 1) is Some && digit(
            peek(source, whole + 1)->0,
        ) {
            lemma_run_end_bounds(source, whole + 1, Run::Digits);
            assert(source[whole] as char == '.');
        }
    } else {
        lemma_run_end_bounds(source, at, Run::Word);
    }
}

/// Every token from an offset on is as long as it can be.
pub proof fn lemma_tokens_from_maximal(source: Seq<u8>, at: int, i: int)
    requires
        0 <= at,
        source.len() < usize::MAX,
        0 <= i < tokens_from(source, at).len() - 1,
    ensures
        ({
            let token = tokens_from(source, at)[i];
            maximal(source, token.span.start as int, token.span.end as int, token.type_)
        }),
    decreases source.len() - at,
{
    lemma_scan_advances(source, at);
    match scan(source, at) {
        Scan::Token { type_, end } => {
            lemma_tokens_end_with_eof(source, end);
            if i == 0 {
                lemma_scanned_token_maximal(source, at);
            } else {
                lemma_tokens_from_maximal(source, end, i - 1);
            }
        },
        Scan::Skip { end } => {
            lemma_tokens_from_maximal(source, end, i);
        },
        Scan::Fault { end, .. } => {
            lemma_tokens_from_maximal(source, end, i);
        },
        Scan::End => {},
    }
}

/// Maximal munch: every token of a source is as long as it can be. `!=` is
/// one token, never `!` and `=`; `2.` is a number and a dot, and so is `.2`
/// a dot and a number, since a dot belongs to a number only between digits.
pub proof fn lemma_maximal_munch(source: Seq<u8>, i: int)
    requires
        source.len() < usize::MAX,
        0 <= i < lex_tokens(source).len() - 1,
    ensures
        ({
            let token = lex_tokens(source)[i];
            maximal(source, token.span.start as int, token.span.end as int, token.type_)
        }),
{
    lemma_tokens_from_maximal(source, 0, i);
}

/// Whether `error` is an error of `source`: a string that starts where the
/// error says and is never closed, or a character that starts no token,
/// blank or comment.
pub open spec fn mistaken(source: Seq<u8>, error: Error) -> bool {
    match error {
        Error::UnterminatedStringLiteral { starting_at } => {
            &&& peek(source, starting_at as int) == Some('"')
            &&& forall|i: int| starting_at < i < source.len() ==> #[trigger] source[i] as char != '"'
        },
        Error::UnexpectedToken { at } => {
            &&& peek(source, at as int) matches Some(character)
            &&& character != '!' && character != '=' && character != '<' && character != '>'
                && character != '/' && character != '"'
            &&& punctuation(character) is None
            &&& !blank(character)
            &&& !digit(character)
            &&& !letter(character)
        },
    }
}

/// Every error from an offset on is an error of the source, at or after
/// that offset.
pub proof fn lemma_errors_from_mistaken(source: Seq<u8>, at: int, i: int)
    requires
        0 <= at,
        source.len() < usize::MAX,
        0 <= i < errors_from(source, at).len(),
    ensures
        mistaken(source, errors_from(source, at)[i]),
    decreases source.len() - at,
{
    lemma_scan_advances(source, at);
    match scan(source, at) {
        Scan::Token { end, .. } => {
            lemma_errors_from_mistaken(source, end, i);
        },
        Scan::Skip { end } => {
            lemma_errors_from_mistaken(source, end, i);
        },
        Scan::Fault { error, end } => {
            if i == 0 {
                if source[at] as char == '"' {
                    lemma_run_end_bounds(source, at + 1, Run::Text);
                }
            } else {
                lemma_errors_from_mistaken(source, end, i - 1);
            }
        },
        Scan::End => {},
    }
}

/// Every error that the lexer records is an error of the source: a string
/// without its closing quote gives an error and, as every string token has
/// both its quotes, no token.
pub proof fn lemma_errors_are_mistakes(source: Seq<u8>, i: int)
    requires
        source.len() < usize::MAX,
        0 <= i < lex_errors(source).len(),
    ensures
        mistaken(source, lex_errors(source)[i]),
{
    lemma_errors_from_mistaken(source, 0, i);
}

/// The lexer's round trip: the tokens of a source end with the one
/// end-of-file token, which stands one past the end; every other token spans
/// a piece of the source that justifies its type, and the tokens follow each
/// other without overlap. In a source that is well-formed UTF-8 no token cuts
/// a character in two, so its span can be sliced out of the source.
pub proof fn lemma_round_trip(source: Seq<u8>, i: int)
    requires
        source.len() < usize::MAX,
        0 <= i < lex_tokens(source).len(),
    ensures
        i == lex_tokens(source).len() - 1 ==> lex_tokens(source)[i] == eof_token(source),
        i < lex_tokens(source).len() - 1 ==> ({
            let token = lex_tokens(source)[i];
            &&& token.type_ != TokenType::Eof
            &&& token.span.start < token.span.end <= source.len()
            &&& justifies(token.span.bytes_of(source), token.type_)
            &&& valid_utf8(source) ==> token.span.fits(source)
            &&& token.span.end <= lex_tokens(source)[i + 1].span.start
        }),
{
    lemma_tokens_end_with_eof(source, 0);
    if i < lex_tokens(source).len() - 1 {
        lemma_tokens_from_justified(source, 0, i);
        let token = lex_tokens(source)[i];
        if valid_utf8(source) {
            lemma_boundary_after_ascii(source, token.span.start as int);
            lemma_boundary_after_ascii(source, token.span.end - 1);
        }
    }
}

} // verus!
