//! Error messages with the source line that they point at.

use crate::lexer::{run_end, Run};
use crate::span::Span;
use crate::text::{lexeme, lexeme_of};
use vstd::prelude::*;
use vstd::string::{StringExecFns, StringSliceAdditionalSpecFns};

verus! {

/// Whether the byte at `at` ends a line. A newline that ends the whole
/// source does not: an error at the very end is shown on the last line that
/// has text.
pub open spec fn breaks(source: Seq<u8>, at: int) -> bool {
    0 <= at < source.len() - 1 && source[at] == 0x0a
}

/// Where the line that holds the offset `at` starts.
pub open spec fn line_start(source: Seq<u8>, at: int) -> int
    decreases at,
{
    if at <= 0 {
        0
    } else if breaks(source, at - 1) {
        at
    } else {
        line_start(source, at - 1)
    }
}

/// The number of the line that holds the offset `at`, counted from 1.
pub open spec fn line_number(source: Seq<u8>, at: int) -> int
    decreases at,
{
    if at <= 0 {
        1
    } else if breaks(source, at - 1) {
        line_number(source, at - 1) + 1
    } else {
        line_number(source, at - 1)
    }
}

/// Where the line that holds the offset `at` ends: at the next newline, or
/// at the end of the source.
pub open spec fn line_end(source: Seq<u8>, at: int) -> int {
    run_end(source, at, Run::Comment)
}

/// The lines to show for an error.
pub struct LinesForErrorDisplay {
    /// The line before the error's, with its newline, unless the error is
    /// on the first line.
    pub line_before: Option<Span>,
    /// The line of the error, from its start to the next newline after the
    /// error.
    pub line: Span,
    pub line_number_of_error: usize,
}

/// The lines to show for an error that starts at `at`.
pub open spec fn lines_for(source: Seq<u8>, at: int) -> LinesForErrorDisplay {
    let start = line_start(source, at);
    LinesForErrorDisplay {
        line_before: if line_number(source, at) == 1 {
            None
        } else {
            Some(Span { start: line_start(source, start - 1) as usize, end: start as usize })
        },
        line: Span { start: start as usize, end: line_end(source, at) as usize },
        line_number_of_error: line_number(source, at) as usize,
    }
}

/// A line starts at or before every offset in it, and there are no more
/// lines than bytes.
pub proof fn lemma_line_bounds(source: Seq<u8>, at: int)
    requires
        0 <= at,
    ensures
        0 <= line_start(source, at) <= at,
        1 <= line_number(source, at) <= at + 1,
        line_number(source, at) == 1 ==> line_start(source, at) == 0,
        line_number(source, at) > 1 ==> line_start(source, at) >= 1,
        line_number(source, at) <= source.len() || line_number(source, at) == 1,
        at > source.len() ==> line_start(source, at) == line_start(source, source.len() as int)
            && line_number(source, at) == line_number(source, source.len() as int),
    decreases at,
{
    if at > 0 {
        lemma_line_bounds(source, at - 1);
    }
}

/// Finds the lines to show for an error that starts at `error_starts_at`.
pub fn lines_for_error_display(source: &str, error_starts_at: usize) -> (lines: LinesForErrorDisplay)
    ensures
        lines == lines_for(source.spec_bytes(), error_starts_at as int),
        lines.line_number_of_error == line_number(source.spec_bytes(), error_starts_at as int),
        lines.line.start == line_start(source.spec_bytes(), error_starts_at as int),
        lines.line.start <= error_starts_at,
        lines.line_before is Some <==> lines.line_number_of_error > 1,
{
    let bytes = source.as_bytes();
    // The start of the line before the current one, and of the current one.
    let mut previous_line_start: usize = 0;
    let mut current_line_start: usize = 0;
    let mut line_number: usize = 1;
    let mut index: usize = 0;
    while index < bytes.len() && index < error_starts_at
        invariant
            index <= bytes.len(),
            index <= error_starts_at,
            bytes@ == source.spec_bytes(),
            current_line_start == line_start(bytes@, index as int),
            line_number == self::line_number(bytes@, index as int),
            line_number > 1 ==> previous_line_start == line_start(bytes@, current_line_start - 1),
        decreases bytes.len() - index,
    {
        proof {
            lemma_line_bounds(bytes@, index as int);
        }
        if bytes[index] == 0x0a && index < bytes.len() - 1 {
            previous_line_start = current_line_start;
            current_line_start = index + 1;
            line_number += 1;
        }
        index += 1;
    }
    proof {
        lemma_line_bounds(bytes@, error_starts_at as int);
        lemma_line_bounds(bytes@, index as int);
        crate::lexer::lemma_run_end_bounds(bytes@, index as int, Run::Comment);
    }
    let next_new_line = index_of_first_new_line_after(source, error_starts_at);
    let line_before = if line_number == 1 {
        None
    } else {
        Some(Span { start: previous_line_start, end: current_line_start })
    };
    LinesForErrorDisplay {
        line_before,
        line: Span { start: current_line_start, end: next_new_line },
        line_number_of_error: line_number,
    }
}

/// Given a source and an offset, returns the offset of the next newline at
/// or after it, or the offset itself where it lies past the end.
pub fn index_of_first_new_line_after(source: &str, index: usize) -> (end: usize)
    ensures
        end == line_end(source.spec_bytes(), index as int),
{
    let bytes = source.as_bytes();
    let mut i = index;
    while i < bytes.len() && bytes[i] != 0x0a
        invariant
            bytes@ == source.spec_bytes(),
            index <= i,
            line_end(bytes@, i as int) == line_end(bytes@, index as int),
        decreases bytes.len() - i,
    {
        i += 1;
    }
    i
}

/// The text of one decimal digit.
pub open spec fn digit(value: int) -> Seq<char> {
    if value == 0 {
        "0"@
    } else if value == 1 {
        "1"@
    } else if value == 2 {
        "2"@
    } else if value == 3 {
        "3"@
    } else if value == 4 {
        "4"@
    } else if value == 5 {
        "5"@
    } else if value == 6 {
        "6"@
    } else if value == 7 {
        "7"@
    } else if value == 8 {
        "8"@
    } else {
        "9"@
    }
}

/// A number in decimal digits.
pub open spec fn decimal(value: nat) -> Seq<char>
    decreases value,
{
    if value < 10 {
        digit(value as int)
    } else {
        decimal(value / 10) + digit((value % 10) as int)
    }
}

/// A piece of text, a number of times over.
pub open spec fn repeated(piece: Seq<char>, times: nat) -> Seq<char>
    decreases times,
{
    if times == 0 {
        Seq::empty()
    } else {
        repeated(piece, (times - 1) as nat) + piece
    }
}

fn digit_text(value: usize) -> (text: &'static str)
    requires
        value < 10,
    ensures
        text@ == digit(value as int),
{
    match value {
        0 => "0",
        1 => "1",
        2 => "2",
        3 => "3",
        4 => "4",
        5 => "5",
        6 => "6",
        7 => "7",
        8 => "8",
        _ => "9",
    }
}

/// Writes a number in decimal digits.
pub fn decimal_text(value: usize) -> (text: String)
    ensures
        text@ == decimal(value as nat),
    decreases value,
{
    if value < 10 {
        digit_text(value).to_owned()
    } else {
        decimal_text(value / 10).concat(digit_text(value % 10))
    }
}

fn repeated_text(piece: &str, times: usize) -> (text: String)
    ensures
        text@ == repeated(piece@, times as nat),
{
    let mut text = String::new();
    let mut done: usize = 0;
    while done < times
        invariant
            done <= times,
            text@ == repeated(piece@, done as nat),
        decreases times - done,
    {
        text = text.concat(piece);
        done += 1;
    }
    text
}

/// The line of the source with its number in front.
pub open spec fn numbered_line(source: &str, number: int, line: Span) -> Seq<char> {
    " \x1b[34m"@ + decimal(number as nat) + "\x1b[0m |  "@ + lexeme(source, line)
}

/// An error message as it is shown: the message, the line before the
/// error's, the line of the error, and under it a caret for every byte of
/// the span, with the message again.
pub open spec fn rendering(source: &str, span: Span, message: Seq<char>) -> Seq<char> {
    let lines = lines_for(source.spec_bytes(), span.start as int);
    let number = lines.line_number_of_error as int;
    "\n  \x1b[31mError:\x1b[0m "@ + message + "\n\n"@ + (match lines.line_before {
        Some(line_before) => numbered_line(source, number - 1, line_before),
        None => Seq::empty(),
    }) + numbered_line(source, number, lines.line) + "\n"@ + "      \x1b[31m"@ + repeated(
        " "@,
        (span.start - lines.line.start) as nat,
    ) + repeated(
        "^"@,
        if span.start <= span.end {
            (span.end - span.start) as nat
        } else {
            0
        },
    ) + "=== "@ + message + "\x1b[0m\n\n"@
}

fn numbered_line_text(source: &str, number: usize, line: Span) -> (text: String)
    ensures
        text@ == numbered_line(source, number as int, line),
{
    " \x1b[34m".to_owned().concat(decimal_text(number).as_str()).concat("\x1b[0m |  ").concat(
        lexeme_of(source, line),
    )
}

/// Shows an error message under the line of the source that it is about.
pub fn display_error(source: &str, span: &Span, error: &str) -> (text: String)
    ensures
        text@ == rendering(source, *span, error@),
{
    let lines = lines_for_error_display(source, span.start);
    proof {
        lemma_line_bounds(source.spec_bytes(), span.start as int);
    }
    let mut text = "\n  \x1b[31mError:\x1b[0m ".to_owned().concat(error).concat("\n\n");
    match lines.line_before {
        Some(line_before) => {
            text =
            text.concat(
                numbered_line_text(source, lines.line_number_of_error - 1, line_before).as_str(),
            );
        },
        None => {
            assert(text@ + Seq::<char>::empty() =~= text@);
        },
    }
    let spaces = repeated_text(" ", span.start - lines.line.start);
    let carets = repeated_text("^", if span.start <= span.end {
        span.end - span.start
    } else {
        0
    });
    text.concat(numbered_line_text(source, lines.line_number_of_error, lines.line).as_str()).concat(
        "\n",
    ).concat("      \x1b[31m").concat(spaces.as_str()).concat(carets.as_str()).concat(
        "=== ",
    ).concat(error).concat("\x1b[0m\n\n")
}

} // verus!
