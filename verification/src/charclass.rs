//! Character classes of the language and maximal runs of one class.

use vstd::prelude::*;

verus! {

/// The classes of characters that the scanner consumes in runs.
#[derive(Clone, Copy, PartialEq, Eq, Structural, Debug)]
pub enum CharClass {
    /// An ASCII decimal digit.
    Digit,
    /// An ASCII letter, an underscore or an ASCII decimal digit.
    Word,
    /// Anything but a line feed: the body of a line comment.
    NotNewline,
    /// Anything but a double quote: the body of a string literal.
    NotQuote,
}

pub open spec fn is_digit(c: char) -> bool {
    '0' <= c <= '9'
}

pub open spec fn is_alpha(c: char) -> bool {
    ('a' <= c <= 'z') || ('A' <= c <= 'Z') || c == '_'
}

pub open spec fn is_alphanumeric(c: char) -> bool {
    is_alpha(c) || is_digit(c)
}

/// Space, carriage return, tab and line feed.
pub open spec fn is_whitespace(c: char) -> bool {
    c == ' ' || c == '\r' || c == '\t' || c == '\n'
}

pub open spec fn in_class(c: char, class: CharClass) -> bool {
    match class {
        CharClass::Digit => is_digit(c),
        CharClass::Word => is_alphanumeric(c),
        CharClass::NotNewline => c != '\n',
        CharClass::NotQuote => c != '"',
    }
}

/// Where the maximal run of `class` characters that starts at `pos`
/// ends: the first offset at or after `pos` that holds a character
/// outside the class, or the length of `src` where there is none.
pub open spec fn run_end(src: Seq<char>, pos: int, class: CharClass) -> int
    decreases src.len() - pos,
{
    if 0 <= pos < src.len() && in_class(src[pos], class) {
        run_end(src, pos + 1, class)
    } else {
        pos
    }
}

/// The number of line feeds in `s`.
pub open spec fn newlines(s: Seq<char>) -> nat
    decreases s.len(),
{
    if s.len() == 0 {
        0
    } else {
        newlines(s.drop_last()) + if s.last() == '\n' {
            1nat
        } else {
            0nat
        }
    }
}

/// The 0-based line of offset `pos`: the number of line feeds before it.
pub open spec fn line_at(src: Seq<char>, pos: int) -> nat {
    newlines(src.take(pos))
}

/// A maximal run stays inside the text, holds only characters of its
/// class, and stops at the end of the text or at the first character
/// outside the class.
pub proof fn lemma_run_end(src: Seq<char>, pos: int, class: CharClass)
    requires
        0 <= pos <= src.len(),
    ensures
        pos <= run_end(src, pos, class) <= src.len(),
        forall|k: int| pos <= k < run_end(src, pos, class) ==> in_class(#[trigger] src[k], class),
        run_end(src, pos, class) < src.len() ==> !in_class(
            src[run_end(src, pos, class)],
            class,
        ),
    decreases src.len() - pos,
{
    if pos < src.len() && in_class(src[pos], class) {
        lemma_run_end(src, pos + 1, class);
    }
}

/// The end of a maximal run is the only offset with the properties of
/// `lemma_run_end`.
pub proof fn lemma_run_end_is(src: Seq<char>, pos: int, end: int, class: CharClass)
    requires
        0 <= pos <= end <= src.len(),
        forall|k: int| pos <= k < end ==> in_class(#[trigger] src[k], class),
        end < src.len() ==> !in_class(src[end], class),
    ensures
        run_end(src, pos, class) == end,
    decreases end - pos,
{
    if pos < end {
        lemma_run_end_is(src, pos + 1, end, class);
    }
}

/// Moving one character forward adds one line exactly when that
/// character is a line feed.
pub proof fn lemma_line_at_next(src: Seq<char>, pos: int)
    requires
        0 <= pos < src.len(),
    ensures
        line_at(src, pos + 1) == line_at(src, pos) + if src[pos] == '\n' {
            1nat
        } else {
            0nat
        },
{
    assert(src.take(pos + 1).drop_last() == src.take(pos));
}

/// Lines never decrease along the text, and no offset lies on a line
/// beyond its own position.
pub proof fn lemma_line_at_monotone(src: Seq<char>, from: int, to: int)
    requires
        0 <= from <= to <= src.len(),
    ensures
        line_at(src, from) <= line_at(src, to) <= line_at(src, from) + (to - from),
        line_at(src, 0) == 0,
    decreases to - from,
{
    if from < to {
        lemma_line_at_monotone(src, from, to - 1);
        lemma_line_at_next(src, to - 1);
    }
}

} // verus!
