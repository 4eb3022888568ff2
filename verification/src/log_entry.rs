//! The record model: one decoded structured log entry, with the
//! classification rules for its leftover fields.

use crate::digits::{pad2, pad3, pad4, push_char, push_pad2, push_pad3, push_pad4};
use crate::log_level::LogLevel;
use vstd::prelude::*;

verus! {

/// Maximum rendered length of a single leftover entry shown inline.
/// Anything longer is printed in the details section.
pub const MAX_EXTRAS_LEN: usize = 50;

/// Whether `c` occurs in `s`.
pub open spec fn has_char(s: Seq<char>, c: char) -> bool {
    exists|i: int| 0 <= i < s.len() && s[i] == c
}

/// `serde_json::Value` carries the non-string leftover values through the
/// record; the crate reads it only through `render_composite`.
#[verifier::external_type_specification]
#[verifier::external_body]
pub struct ExValue(serde_json::Value);

/// The pretty-printed text of a JSON value. `serde_json::to_string_pretty`
/// computes it from the value alone, so it has a name here and nothing more.
pub uninterp spec fn pretty_of(v: serde_json::Value) -> Seq<char>;

/// Relies on `serde_json::to_string_pretty`: renders a JSON value as stable,
/// human-readable multi-line text, a deterministic function of the value
/// alone. Serializing a `serde_json::Value` cannot fail, so the error arm is
/// never taken.
#[verifier::external_body]
pub(crate) fn render_composite(v: &serde_json::Value) -> (r: String)
    ensures
        r@ == pretty_of(*v),
{
    match serde_json::to_string_pretty(v) {
        Ok(s) => s,
        Err(_) => String::new(),
    }
}

/// One leftover value: either a JSON string, kept as it is, or any other
/// JSON value, rendered in its pretty-printed form.
pub enum FieldValue {
    /// A JSON string value.
    Text(String),
    /// A non-string JSON value: number, bool, null, array or object.
    Composite(serde_json::Value),
}

/// The text a leftover value renders to: a string renders as itself, with
/// no escaping; anything else renders pretty-printed.
pub open spec fn rendered_of(v: FieldValue) -> Seq<char> {
    match v {
        FieldValue::Text(s) => s@,
        FieldValue::Composite(j) => pretty_of(j),
    }
}

/// Whether an inline value is wrapped in double quotes: only a string that
/// either contains a space and no newline, or is empty.
pub open spec fn needs_quotes_of(v: FieldValue) -> bool {
    match v {
        FieldValue::Text(s) => (has_char(s@, ' ') && !has_char(s@, '\n')) || s@.len() == 0,
        FieldValue::Composite(_) => false,
    }
}

/// Whether a leftover value is rendered as an indented detail block rather
/// than inline: its rendered text is longer than `MAX_EXTRAS_LEN`
/// characters or contains a newline.
pub open spec fn is_detail_of(v: FieldValue) -> bool {
    rendered_of(v).len() > MAX_EXTRAS_LEN || has_char(rendered_of(v), '\n')
}

/// Classification boundary: a string value stays inline exactly while it
/// has at most `MAX_EXTRAS_LEN` characters and no newline; a longer string,
/// or one containing a newline, is a detail whatever its length.
pub proof fn lemma_classification_boundary(s: String)
    ensures
        !is_detail_of(FieldValue::Text(s)) <==> (s@.len() <= MAX_EXTRAS_LEN && !has_char(
            s@,
            '\n',
        )),
{
}

/// Quoting rule: an inline string is double-quoted exactly when it contains
/// a space and no newline, or is empty; a non-string value never is.
pub proof fn lemma_quoting_rule(s: String, v: serde_json::Value)
    ensures
        needs_quotes_of(FieldValue::Text(s)) <==> ((has_char(s@, ' ') && !has_char(s@, '\n'))
            || s@.len() == 0),
        !needs_quotes_of(FieldValue::Composite(v)),
{
}

/// A timestamp with UTC offset, fixed-point to the millisecond, held as
/// plain components.
#[derive(Copy, Clone, Debug, PartialEq, Eq, Structural)]
pub struct Timestamp {
    pub year: u16,
    pub month: u8,
    pub day: u8,
    pub hour: u8,
    pub minute: u8,
    pub second: u8,
    pub millisecond: u16,
    /// True when the UTC offset is negative.
    pub offset_negative: bool,
    pub offset_hours: u8,
    pub offset_minutes: u8,
}

/// The display form of a timestamp:
/// `YYYY-MM-DDTHH:MM:SS.mmm±HH:MM`, the offset sign always present.
pub open spec fn timestamp_text(t: Timestamp) -> Seq<char> {
    pad4(t.year as int) + "-"@ + pad2(t.month as int) + "-"@ + pad2(t.day as int) + "T"@ + pad2(
        t.hour as int,
    ) + ":"@ + pad2(t.minute as int) + ":"@ + pad2(t.second as int) + "."@ + pad3(
        t.millisecond as int,
    ) + (if t.offset_negative {
        "-"@
    } else {
        "+"@
    }) + pad2(t.offset_hours as int) + ":"@ + pad2(t.offset_minutes as int)
}

impl Timestamp {
    /// The display form of this timestamp.
    pub fn render(&self) -> (r: String)
        ensures
            r@ == timestamp_text(*self),
    {
        let mut s = String::new();
        push_pad4(&mut s, self.year);
        push_char(&mut s, '-');
        push_pad2(&mut s, self.month);
        push_char(&mut s, '-');
        push_pad2(&mut s, self.day);
        push_char(&mut s, 'T');
        push_pad2(&mut s, self.hour);
        push_char(&mut s, ':');
        push_pad2(&mut s, self.minute);
        push_char(&mut s, ':');
        push_pad2(&mut s, self.second);
        push_char(&mut s, '.');
        push_pad3(&mut s, self.millisecond);
        if self.offset_negative {
            push_char(&mut s, '-');
        } else {
            push_char(&mut s, '+');
        }
        push_pad2(&mut s, self.offset_hours);
        push_char(&mut s, ':');
        push_pad2(&mut s, self.offset_minutes);
        proof {
            reveal_strlit("-");
            reveal_strlit("+");
            reveal_strlit("T");
            reveal_strlit(":");
            reveal_strlit(".");
            assert(s@ =~= timestamp_text(*self));
        }
        s
    }
}

/// One leftover field of a record: a key and its JSON value.
pub struct LeftoverField {
    pub key: String,
    pub value: FieldValue,
}

/// One decoded log entry: the required header fields plus the leftover
/// mapping, in its original iteration order, with the header fields
/// already removed.
pub struct LogEntry {
    /// Log format version.
    pub version: u8,
    /// Severity of the entry.
    pub level: LogLevel,
    /// Name of the logger emitting the entry.
    pub name: String,
    /// Host name; empty means unknown and displays as a placeholder.
    pub hostname: String,
    /// Process id.
    pub pid: u32,
    /// When the entry was logged.
    pub time: Timestamp,
    /// Log message.
    pub message: String,
    /// All other fields, in the order the record's mapping yields them.
    pub leftover: Vec<LeftoverField>,
}

} // verus!
