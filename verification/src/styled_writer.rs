//! The styled output sink: collects one rendered line, wrapping text in a
//! style's escape sequences only while styling is enabled.

use crate::style::{begin_code, end_code, Style};
use vstd::prelude::*;
use vstd::string::StringExecFns;

verus! {

/// What writing `s` with style `st` appends to the sink: the text wrapped in
/// the style's escape pair while styling is on, the bare text otherwise.
pub open spec fn styled_text(s: Seq<char>, st: Style, on: bool) -> Seq<char> {
    if on {
        begin_code(st) + s + end_code(st)
    } else {
        s
    }
}

/// A sink that buffers one rendered line. All writes append in call order;
/// the caller drains the buffered text and hands it to the real destination.
pub struct StyledWriter {
    out: String,
    stylize: bool,
}

impl StyledWriter {
    /// The text written so far.
    pub closed spec fn text(self) -> Seq<char> {
        self.out@
    }

    /// Whether styling was enabled at construction.
    pub closed spec fn stylize_on(self) -> bool {
        self.stylize
    }

    /// A fresh sink; the styling decision is fixed here, once.
    pub fn new(stylize: bool) -> (r: Self)
        ensures
            r.text() == Seq::<char>::empty(),
            r.stylize_on() == stylize,
    {
        StyledWriter { out: String::new(), stylize }
    }

    /// Appends raw text, unconditionally.
    pub fn write(&mut self, text: &str)
        ensures
            final(self).text() == old(self).text() + text@,
            final(self).stylize_on() == old(self).stylize_on(),
    {
        self.out.append(text);
    }

    /// Appends text wrapped in the style's escape pair when styling is
    /// enabled, and the bare text when it is not.
    pub fn write_styled(&mut self, text: &str, style: Style)
        ensures
            final(self).text() == old(self).text() + styled_text(
                text@,
                style,
                old(self).stylize_on(),
            ),
            final(self).stylize_on() == old(self).stylize_on(),
    {
        if self.stylize {
            let codes = style.codes();
            self.write(codes.0);
            self.write(text);
            self.write(codes.1);
            proof {
                assert(self.text() =~= old(self).text() + (begin_code(style) + text@ + end_code(
                    style,
                )));
            }
        } else {
            self.write(text);
        }
    }

    /// Hands the buffered text to the caller and leaves the sink empty.
    pub fn flush(&mut self) -> (r: String)
        ensures
            r@ == old(self).text(),
            final(self).text() == Seq::<char>::empty(),
            final(self).stylize_on() == old(self).stylize_on(),
    {
        let mut drained = String::new();
        core::mem::swap(&mut self.out, &mut drained);
        drained
    }
}

} // verus!
