//! Terminal presentation styles and their ANSI escape-sequence pairs.

use vstd::prelude::*;

verus! {

/// One of a fixed closed set of terminal presentation styles.
/// Each maps to a begin/end ANSI escape-sequence pair.
#[derive(Copy, Clone, Debug, PartialEq, Eq, Structural)]
pub enum Style {
    Plain,
    Bold,
    Inverse,
    White,
    Cyan,
    Magenta,
    Red,
    Yellow,
}

/// The escape sequence that switches a style on.
pub open spec fn begin_code(s: Style) -> Seq<char> {
    match s {
        Style::Plain => ""@,
        Style::Bold => "\x1b[1m"@,
        Style::Inverse => "\x1b[7m"@,
        Style::White => "\x1b[37m"@,
        Style::Cyan => "\x1b[36m"@,
        Style::Magenta => "\x1b[35m"@,
        Style::Red => "\x1b[31m"@,
        Style::Yellow => "\x1b[33m"@,
    }
}

/// The escape sequence that switches a style off again.
pub open spec fn end_code(s: Style) -> Seq<char> {
    match s {
        Style::Plain => ""@,
        Style::Bold => "\x1b[22m"@,
        Style::Inverse => "\x1b[27m"@,
        Style::White => "\x1b[39m"@,
        Style::Cyan => "\x1b[39m"@,
        Style::Magenta => "\x1b[39m"@,
        Style::Red => "\x1b[39m"@,
        Style::Yellow => "\x1b[39m"@,
    }
}

impl Style {
    /// The begin/end escape-sequence pair of this style.
    pub fn codes(&self) -> (r: (&'static str, &'static str))
        ensures
            r.0@ == begin_code(*self),
            r.1@ == end_code(*self),
    {
        match self {
            Style::Plain => ("", ""),
            Style::Bold => ("\x1b[1m", "\x1b[22m"),
            Style::Inverse => ("\x1b[7m", "\x1b[27m"),
            Style::White => ("\x1b[37m", "\x1b[39m"),
            Style::Cyan => ("\x1b[36m", "\x1b[39m"),
            Style::Magenta => ("\x1b[35m", "\x1b[39m"),
            Style::Red => ("\x1b[31m", "\x1b[39m"),
            Style::Yellow => ("\x1b[33m", "\x1b[39m"),
        }
    }
}

} // verus!

