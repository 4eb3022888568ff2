//! The entry formatter: renders one record into the styled sink, a header
//! followed by inline extras and indented detail blocks.

use crate::digits::{decimal, push_char, push_decimal};
use crate::log_entry::{
    has_char, is_detail_of, needs_quotes_of, rendered_of, render_composite, timestamp_text,
    FieldValue, LeftoverField, LogEntry, MAX_EXTRAS_LEN,
};
use crate::log_level::LogLevel;
use crate::style::Style;
use crate::styled_writer::{styled_text, StyledWriter};
use vstd::prelude::*;
use vstd::string::StrSliceExecFns;
use vstd::string::StringExecFns;

verus! {

/// The sequences of `xs` joined with `sep` between consecutive elements.
pub open spec fn join_seqs(xs: Seq<Seq<char>>, sep: Seq<char>) -> Seq<char>
    decreases xs.len(),
{
    if xs.len() == 0 {
        Seq::empty()
    } else if xs.len() == 1 {
        xs[0]
    } else {
        xs[0] + sep + join_seqs(xs.drop_first(), sep)
    }
}

/// Joining one more sequence appends a separator and the newcomer, except
/// onto an empty join.
proof fn lemma_join_push(xs: Seq<Seq<char>>, x: Seq<char>, sep: Seq<char>)
    ensures
        xs.len() == 0 ==> join_seqs(xs.push(x), sep) == x,
        xs.len() > 0 ==> join_seqs(xs.push(x), sep) == join_seqs(xs, sep) + sep + x,
    decreases xs.len(),
{
    if xs.len() == 0 {
        assert(xs.push(x)[0] == x);
    } else if xs.len() == 1 {
        assert(xs.push(x).drop_first() =~= seq![x]);
        assert(xs.push(x)[0] == xs[0]);
        assert(join_seqs(seq![x], sep) == x);
        assert(join_seqs(xs.push(x), sep) == xs[0] + sep + x);
    } else {
        lemma_join_push(xs.drop_first(), x, sep);
        assert(xs.push(x).drop_first() =~= xs.drop_first().push(x));
        assert(join_seqs(xs, sep) + sep + x =~= xs[0] + sep + (join_seqs(xs.drop_first(), sep)
            + sep + x));
    }
}

/// The index of the first newline in `s`, or `s.len()` when there is none.
pub open spec fn first_nl(s: Seq<char>) -> int
    decreases s.len(),
{
    if s.len() == 0 {
        0
    } else if s[0] == '\n' {
        0
    } else {
        1 + first_nl(s.drop_first())
    }
}

proof fn lemma_first_nl(s: Seq<char>)
    ensures
        0 <= first_nl(s) <= s.len(),
        forall|j: int| 0 <= j < first_nl(s) ==> s[j] != '\n',
        first_nl(s) < s.len() ==> s[first_nl(s)] == '\n',
    decreases s.len(),
{
    if s.len() == 0 {
    } else if s[0] == '\n' {
    } else {
        lemma_first_nl(s.drop_first());
        assert forall|j: int| 0 <= j < first_nl(s) implies s[j] != '\n' by {
            if j >= 1 {
                assert(s.drop_first()[j - 1] == s[j]);
            }
        };
        if first_nl(s) < s.len() {
            assert(s.drop_first()[first_nl(s) - 1] == s[first_nl(s)]);
        }
    }
}

/// `first_nl` is pinned down by its characterization: no newline before
/// `p`, and a newline (or the end) at `p`.
proof fn lemma_first_nl_at(s: Seq<char>, p: int)
    requires
        0 <= p <= s.len(),
        forall|j: int| 0 <= j < p ==> s[j] != '\n',
        p < s.len() ==> s[p] == '\n',
    ensures
        first_nl(s) == p,
    decreases p,
{
    if p == 0 {
    } else {
        assert(s[0] != '\n');
        assert forall|j: int| 0 <= j < p - 1 implies s.drop_first()[j] != '\n' by {
            assert(s.drop_first()[j] == s[j + 1]);
        };
        if p - 1 < s.drop_first().len() {
            assert(s.drop_first()[p - 1] == s[p]);
        }
        lemma_first_nl_at(s.drop_first(), p - 1);
    }
}

/// One trailing carriage return stripped, as a line terminator's remnant.
pub open spec fn strip_cr(s: Seq<char>) -> Seq<char> {
    if s.len() > 0 && s.last() == '\r' {
        s.drop_last()
    } else {
        s
    }
}

/// The lines of `s`: split at each newline, a carriage return just before a
/// newline stripped, and no empty line after a trailing newline.
pub open spec fn lines_of(s: Seq<char>) -> Seq<Seq<char>>
    decreases s.len(),
    via lines_of_dec
{
    if s.len() == 0 {
        Seq::empty()
    } else {
        let p = first_nl(s);
        if p >= s.len() {
            seq![s]
        } else {
            seq![strip_cr(s.take(p))] + lines_of(s.skip(p + 1))
        }
    }
}

#[via_fn]
proof fn lines_of_dec(s: Seq<char>) {
    lemma_first_nl(s);
}

/// The views of a sequence of strings.
pub open spec fn views_of(v: Seq<String>) -> Seq<Seq<char>> {
    v.map_values(|x: String| x@)
}

/// Whether `c` occurs in `s`, decided by one pass.
fn contains_ch(s: &str, c: char) -> (r: bool)
    ensures
        r == has_char(s@, c),
{
    let n = s.unicode_len();
    let mut i: usize = 0;
    while i < n
        invariant
            n == s@.len(),
            i <= n,
            forall|j: int| 0 <= j < i ==> s@[j] != c,
        decreases n - i,
    {
        if s.get_char(i) == c {
            return true;
        }
        i += 1;
    }
    false
}

/// A `String` holding exactly the given characters.
fn string_of_chars(v: &Vec<char>) -> (r: String)
    ensures
        r@ == v@,
{
    let mut r = String::new();
    let mut i: usize = 0;
    while i < v.len()
        invariant
            i <= v@.len(),
            r@ == v@.take(i as int),
        decreases v@.len() - i,
    {
        push_char(&mut r, v[i]);
        proof {
            assert(v@.take(i + 1) =~= v@.take(i as int).push(v@[i as int]));
        }
        i += 1;
    }
    proof {
        assert(v@.take(v@.len() as int) =~= v@);
    }
    r
}

/// Splits a rendered value into its lines, as `lines_of` describes them.
fn split_lines(s: &str) -> (r: Vec<String>)
    ensures
        views_of(r@) == lines_of(s@),
{
    let n = s.unicode_len();
    let mut result: Vec<String> = Vec::new();
    let mut cur: Vec<char> = Vec::new();
    let mut start: usize = 0;
    let mut i: usize = 0;
    proof {
        assert(s@.skip(0) =~= s@);
        assert(views_of(result@) + lines_of(s@) =~= lines_of(s@));
    }
    while i < n
        invariant
            n == s@.len(),
            start <= i <= n,
            cur@ == s@.subrange(start as int, i as int),
            forall|j: int| start <= j < i ==> s@[j] != '\n',
            lines_of(s@) == views_of(result@) + lines_of(s@.skip(start as int)),
        decreases n - i,
    {
        let c = s.get_char(i);
        if c == '\n' {
            let ghost u = s@.skip(start as int);
            let ghost raw = cur@;
            if cur.len() > 0 && cur[cur.len() - 1] == '\r' {
                cur.pop();
            }
            proof {
                assert(cur@ =~= strip_cr(raw));
            }
            let line = string_of_chars(&cur);
            result.push(line);
            proof {
                assert forall|j: int| 0 <= j < i - start implies u[j] != '\n' by {
                    assert(u[j] == s@[start + j]);
                }
                assert(u[i - start] == s@[i as int]);
                lemma_first_nl_at(u, i - start);
                assert(u.take(i - start) =~= raw);
                assert(u.skip(i - start + 1) =~= s@.skip(i + 1));
                assert(lines_of(u) == seq![strip_cr(raw)] + lines_of(s@.skip(i + 1)));
                assert(views_of(result@) =~= views_of(result@.drop_last()).push(strip_cr(raw)));
                assert(views_of(result@) + lines_of(s@.skip(i + 1)) =~= (views_of(
                    result@.drop_last(),
                ) + lines_of(u)));
            }
            cur = Vec::new();
            start = i + 1;
            proof {
                assert(cur@ =~= s@.subrange(start as int, i + 1));
            }
        } else {
            cur.push(c);
            proof {
                assert(cur@ =~= s@.subrange(start as int, i + 1));
            }
        }
        i += 1;
    }
    let ghost u = s@.skip(start as int);
    proof {
        assert forall|j: int| 0 <= j < u.len() implies u[j] != '\n' by {
            assert(u[j] == s@[start + j]);
        }
        lemma_first_nl_at(u, u.len() as int);
    }
    if cur.len() > 0 {
        let line = string_of_chars(&cur);
        result.push(line);
        proof {
            assert(u =~= cur@);
            assert(lines_of(u) == seq![u]);
            assert(views_of(result@) =~= views_of(result@.drop_last()).push(cur@));
            assert(views_of(result@) =~= views_of(result@.drop_last()) + lines_of(u));
        }
    } else {
        proof {
            assert(u =~= Seq::<char>::empty());
            assert(lines_of(u) == Seq::<Seq<char>>::empty());
            assert(views_of(result@) + lines_of(u) =~= views_of(result@));
        }
    }
    result
}

/// Writes a detail value: its lines joined by a newline and a four-space
/// indent, so each continues on its own indented output line.
fn write_detail_value(w: &mut StyledWriter, val: &str)
    ensures
        final(w).text() == old(w).text() + join_seqs(lines_of(val@), "\n    "@),
        final(w).stylize_on() == old(w).stylize_on(),
{
    let lines = split_lines(val);
    let ghost ls = lines_of(val@);
    proof {
        assert(old(w).text() + join_seqs(ls.take(0), "\n    "@) =~= old(w).text());
    }
    let mut k: usize = 0;
    while k < lines.len()
        invariant
            views_of(lines@) == ls,
            k <= lines@.len(),
            w.text() == old(w).text() + join_seqs(ls.take(k as int), "\n    "@),
            w.stylize_on() == old(w).stylize_on(),
        decreases lines@.len() - k,
    {
        if k > 0 {
            w.write("\n    ");
        }
        w.write(lines[k].as_str());
        proof {
            assert(lines@[k as int]@ == ls[k as int]);
            lemma_join_push(ls.take(k as int), ls[k as int], "\n    "@);
            assert(ls.take(k + 1) =~= ls.take(k as int).push(ls[k as int]));
            assert(w.text() =~= old(w).text() + join_seqs(ls.take(k + 1), "\n    "@));
        }
        k += 1;
    }
    proof {
        assert(ls.take(lines@.len() as int) =~= ls);
    }
}

/// The leftover fields that render inline, in their source order.
pub open spec fn extras_of(fs: Seq<LeftoverField>) -> Seq<LeftoverField>
    decreases fs.len(),
{
    if fs.len() == 0 {
        Seq::empty()
    } else {
        extras_of(fs.drop_last()) + (if is_detail_of(fs.last().value) {
            Seq::<LeftoverField>::empty()
        } else {
            seq![fs.last()]
        })
    }
}

/// The leftover fields that render as detail blocks, in their source order.
pub open spec fn details_of(fs: Seq<LeftoverField>) -> Seq<LeftoverField>
    decreases fs.len(),
{
    if fs.len() == 0 {
        Seq::empty()
    } else {
        details_of(fs.drop_last()) + (if is_detail_of(fs.last().value) {
            seq![fs.last()]
        } else {
            Seq::<LeftoverField>::empty()
        })
    }
}

/// One inline extra: `key=value`, the key bold, the value double-quoted
/// only when the quoting rule asks for it.
pub open spec fn extra_text(key: Seq<char>, val: Seq<char>, quotes: bool, z: bool) -> Seq<char> {
    styled_text(key, Style::Bold, z) + "="@ + (if quotes {
        "\""@ + val + "\""@
    } else {
        val
    })
}

/// The inline text of one extra field.
pub open spec fn extra_field_text(f: LeftoverField, z: bool) -> Seq<char> {
    extra_text(f.key@, rendered_of(f.value), needs_quotes_of(f.value), z)
}

/// One detail block: a newline, four spaces, the bold key, `: `, and the
/// value with each further line indented the same way.
pub open spec fn detail_text(key: Seq<char>, val: Seq<char>, z: bool) -> Seq<char> {
    "\n    "@ + styled_text(key, Style::Bold, z) + ": "@ + join_seqs(lines_of(val), "\n    "@)
}

/// The text of one detail field.
pub open spec fn detail_field_text(f: LeftoverField, z: bool) -> Seq<char> {
    detail_text(f.key@, rendered_of(f.value), z)
}

/// The inline extras group: nothing without extras, else the extras in
/// reverse source order, joined by `, ` and wrapped in ` (` and `)`.
pub open spec fn extras_group_text(fs: Seq<LeftoverField>, z: bool) -> Seq<char> {
    let ex = extras_of(fs).reverse();
    if ex.len() == 0 {
        Seq::empty()
    } else {
        " ("@ + join_seqs(ex.map_values(|f: LeftoverField| extra_field_text(f, z)), ", "@) + ")"@
    }
}

/// The detail blocks in source order, separated by `\n    --`.
pub open spec fn details_group_text(fs: Seq<LeftoverField>, z: bool) -> Seq<char> {
    join_seqs(
        details_of(fs).map_values(|f: LeftoverField| detail_field_text(f, z)),
        "\n    --"@,
    )
}

/// Everything after the header: the extras group, then the detail blocks.
pub open spec fn leftover_text(fs: Seq<LeftoverField>, z: bool) -> Seq<char> {
    extras_group_text(fs, z) + details_group_text(fs, z)
}

/// The fixed five-character display token of a level, or `LVL{n}`.
pub open spec fn level_token(l: LogLevel) -> Seq<char> {
    match l {
        LogLevel::Trace => "TRACE"@,
        LogLevel::Debug => "DEBUG"@,
        LogLevel::Info => " INFO"@,
        LogLevel::Warn => " WARN"@,
        LogLevel::Error => "ERROR"@,
        LogLevel::Fatal => "FATAL"@,
        LogLevel::Custom(n) => "LVL"@ + decimal(n as int),
    }
}

/// The display style paired with a level.
pub open spec fn level_style(l: LogLevel) -> Style {
    match l {
        LogLevel::Trace => Style::White,
        LogLevel::Debug => Style::Yellow,
        LogLevel::Info => Style::Cyan,
        LogLevel::Warn => Style::Magenta,
        LogLevel::Error => Style::Red,
        LogLevel::Fatal => Style::Inverse,
        LogLevel::Custom(_) => Style::Plain,
    }
}

/// The displayed host name: a placeholder stands in for an empty one.
pub open spec fn hostname_text(h: Seq<char>) -> Seq<char> {
    if h.len() == 0 {
        "<no-hostname>"@
    } else {
        h
    }
}

/// The rendered header:
/// `[<timestamp>] <LEVEL>: <name>/<pid> on <hostname>: <message>`.
pub open spec fn header_text(e: LogEntry, z: bool) -> Seq<char> {
    "["@ + styled_text(timestamp_text(e.time), Style::White, z) + "] "@ + styled_text(
        level_token(e.level),
        level_style(e.level),
        z,
    ) + ": "@ + e.name@ + "/"@ + decimal(e.pid as int) + " on "@ + hostname_text(e.hostname@)
        + ": "@ + styled_text(e.message@, Style::Cyan, z)
}

/// The full rendered line of one record, without a line terminator.
pub open spec fn formatted_text(e: LogEntry, z: bool) -> Seq<char> {
    header_text(e, z) + leftover_text(e.leftover@, z)
}

/// Formatting is deterministic: the rendered text is a function of the
/// record and the styling flag alone, so formatting the same record twice
/// produces identical output.
pub proof fn lemma_format_deterministic(e1: LogEntry, e2: LogEntry, z1: bool, z2: bool)
    requires
        e1 == e2,
        z1 == z2,
    ensures
        formatted_text(e1, z1) == formatted_text(e2, z2),
{
}

/// When every leftover field qualifies as an extra, the extras are exactly
/// the fields, so the rendered group lists them in reverse insertion order,
/// and there are no detail blocks.
pub proof fn lemma_extras_reversed(fs: Seq<LeftoverField>)
    requires
        forall|i: int| 0 <= i < fs.len() ==> !is_detail_of(fs[i].value),
    ensures
        extras_of(fs) == fs,
        extras_of(fs).reverse() == fs.reverse(),
        details_of(fs) == Seq::<LeftoverField>::empty(),
    decreases fs.len(),
{
    if fs.len() == 0 {
        assert(extras_of(fs) =~= fs);
        assert(details_of(fs) =~= Seq::<LeftoverField>::empty());
    } else {
        assert forall|i: int| 0 <= i < fs.drop_last().len() implies !is_detail_of(
            fs.drop_last()[i].value,
        ) by {
            assert(fs.drop_last()[i] == fs[i]);
        };
        lemma_extras_reversed(fs.drop_last());
        assert(!is_detail_of(fs.last().value));
        assert(extras_of(fs) =~= fs);
        assert(details_of(fs) =~= Seq::<LeftoverField>::empty());
    }
}

/// The rendered text of one leftover value and whether an inline rendering
/// would be quoted.
fn render_value(v: &FieldValue) -> (r: (String, bool))
    ensures
        r.0@ == rendered_of(*v),
        r.1 == needs_quotes_of(*v),
{
    match v {
        FieldValue::Text(s) => {
            let quotes = (contains_ch(s.as_str(), ' ') && !contains_ch(s.as_str(), '\n'))
                || s.as_str().is_empty();
            (s.clone(), quotes)
        },
        FieldValue::Composite(j) => (render_composite(j), false),
    }
}

/// Whether an extras-vector entry records key, rendered text and quoting of
/// a field.
spec fn extra_matches(t: (String, String, bool), f: LeftoverField) -> bool {
    t.0@ == f.key@ && t.1@ == rendered_of(f.value) && t.2 == needs_quotes_of(f.value)
}

/// Whether a details-vector entry records key and rendered text of a field.
spec fn detail_matches(t: (String, String), f: LeftoverField) -> bool {
    t.0@ == f.key@ && t.1@ == rendered_of(f.value)
}

/// The formatter: renders one record into the styled sink.
pub struct EntryWriter {}

impl EntryWriter {
    /// A formatter; it carries no state.
    pub fn new() -> (r: Self) {
        EntryWriter {  }
    }

    /// The display token of a level and the style it is shown in.
    fn format_level(level: LogLevel) -> (r: (String, Style))
        ensures
            r.0@ == level_token(level),
            r.1 == level_style(level),
    {
        match level {
            LogLevel::Trace => (String::from_str("TRACE"), Style::White),
            LogLevel::Debug => (String::from_str("DEBUG"), Style::Yellow),
            LogLevel::Info => (String::from_str(" INFO"), Style::Cyan),
            LogLevel::Warn => (String::from_str(" WARN"), Style::Magenta),
            LogLevel::Error => (String::from_str("ERROR"), Style::Red),
            LogLevel::Fatal => (String::from_str("FATAL"), Style::Inverse),
            LogLevel::Custom(n) => {
                let mut s = String::from_str("LVL");
                push_decimal(&mut s, n as u32);
                (s, Style::Plain)
            },
        }
    }

    /// Writes the leftover fields: one pass classifies and renders each
    /// field, then the extras go out inline in reverse source order and the
    /// details as indented blocks in source order.
    #[verifier::rlimit(100)]
    fn write_leftover(w: &mut StyledWriter, fields: &Vec<LeftoverField>)
        ensures
            final(w).text() == old(w).text() + leftover_text(
                fields@,
                old(w).stylize_on(),
            ),
            final(w).stylize_on() == old(w).stylize_on(),
    {
        let ghost z = w.stylize_on();
        let ghost fsq = fields@;
        let mut extras: Vec<(String, String, bool)> = Vec::new();
        let mut details: Vec<(String, String)> = Vec::new();
        let mut i: usize = 0;
        proof {
            assert(extras_of(fsq.take(0)) =~= Seq::<LeftoverField>::empty());
            assert(details_of(fsq.take(0)) =~= Seq::<LeftoverField>::empty());
        }
        while i < fields.len()
            invariant
                fsq == fields@,
                i <= fsq.len(),
                extras@.len() == extras_of(fsq.take(i as int)).len(),
                forall|j: int|
                    0 <= j < extras@.len() ==> extra_matches(
                        extras@[j],
                        extras_of(fsq.take(i as int))[j],
                    ),
                details@.len() == details_of(fsq.take(i as int)).len(),
                forall|j: int|
                    0 <= j < details@.len() ==> detail_matches(
                        details@[j],
                        details_of(fsq.take(i as int))[j],
                    ),
            decreases fsq.len() - i,
        {
            let f = &fields[i];
            let rendered = render_value(&f.value);
            let det = rendered.0.as_str().unicode_len() > MAX_EXTRAS_LEN || contains_ch(
                rendered.0.as_str(),
                '\n',
            );
            proof {
                assert(det == is_detail_of(f.value));
                assert(fsq.take(i + 1).drop_last() =~= fsq.take(i as int));
                assert(fsq.take(i + 1).last() == fsq[i as int]);
            }
            let key = f.key.clone();
            if det {
                details.push((key, rendered.0));
                proof {
                    assert(details_of(fsq.take(i + 1)) =~= details_of(fsq.take(i as int)).push(
                        fsq[i as int],
                    ));
                    assert(extras_of(fsq.take(i + 1)) =~= extras_of(fsq.take(i as int)));
                }
            } else {
                extras.push((key, rendered.0, rendered.1));
                proof {
                    assert(extras_of(fsq.take(i + 1)) =~= extras_of(fsq.take(i as int)).push(
                        fsq[i as int],
                    ));
                    assert(details_of(fsq.take(i + 1)) =~= details_of(fsq.take(i as int)));
                }
            }
            i += 1;
        }
        proof {
            assert(fsq.take(fsq.len() as int) =~= fsq);
        }
        // the extras group, reversed from source order
        let ghost disp = extras_of(fsq).reverse();
        let ghost ex_texts = disp.map_values(|f: LeftoverField| extra_field_text(f, z));
        let ghost before_extras = w.text();
        let m = extras.len();
        if m > 0 {
            w.write(" (");
            proof {
                assert(w.text() =~= before_extras + " ("@ + join_seqs(ex_texts.take(0), ", "@));
            }
            let mut k: usize = 0;
            while k < m
                invariant
                    m == extras@.len(),
                    m == extras_of(fsq).len(),
                    disp == extras_of(fsq).reverse(),
                    ex_texts == disp.map_values(|f: LeftoverField| extra_field_text(f, z)),
                    forall|j: int|
                        0 <= j < m ==> extra_matches(extras@[j], extras_of(fsq)[j]),
                    k <= m,
                    w.text() == before_extras + " ("@ + join_seqs(ex_texts.take(k as int), ", "@),
                    w.stylize_on() == z,
                decreases m - k,
            {
                if k > 0 {
                    w.write(", ");
                }
                let idx = m - 1 - k;
                let item = &extras[idx];
                w.write_styled(item.0.as_str(), Style::Bold);
                w.write("=");
                if item.2 {
                    w.write("\"");
                    w.write(item.1.as_str());
                    w.write("\"");
                } else {
                    w.write(item.1.as_str());
                }
                proof {
                    assert(disp[k as int] == extras_of(fsq)[idx as int]);
                    assert(extra_matches(extras@[idx as int], extras_of(fsq)[idx as int]));
                    assert(ex_texts[k as int] == extra_field_text(disp[k as int], z));
                    lemma_join_push(ex_texts.take(k as int), ex_texts[k as int], ", "@);
                    assert(ex_texts.take(k + 1) =~= ex_texts.take(k as int).push(
                        ex_texts[k as int],
                    ));
                    assert(w.text() =~= before_extras + " ("@ + join_seqs(
                        ex_texts.take(k + 1),
                        ", "@,
                    ));
                }
                k += 1;
            }
            w.write(")");
            proof {
                assert(ex_texts.take(m as int) =~= ex_texts);
                assert(w.text() =~= before_extras + extras_group_text(fsq, z));
            }
        } else {
            proof {
                assert(w.text() =~= before_extras + extras_group_text(fsq, z));
            }
        }
        // the detail blocks, in source order
        let ghost dseq = details_of(fsq);
        let ghost d_texts = dseq.map_values(|f: LeftoverField| detail_field_text(f, z));
        let ghost before_details = w.text();
        proof {
            assert(w.text() =~= before_details + join_seqs(d_texts.take(0), "\n    --"@));
        }
        let mut d: usize = 0;
        while d < details.len()
            invariant
                details@.len() == dseq.len(),
                dseq == details_of(fsq),
                d_texts == dseq.map_values(|f: LeftoverField| detail_field_text(f, z)),
                forall|j: int| 0 <= j < dseq.len() ==> detail_matches(details@[j], dseq[j]),
                d <= dseq.len(),
                w.text() == before_details + join_seqs(d_texts.take(d as int), "\n    --"@),
                w.stylize_on() == z,
            decreases details@.len() - d,
        {
            if d > 0 {
                w.write("\n    --");
            }
            let item = &details[d];
            w.write("\n    ");
            w.write_styled(item.0.as_str(), Style::Bold);
            w.write(": ");
            write_detail_value(w, item.1.as_str());
            proof {
                assert(detail_matches(details@[d as int], dseq[d as int]));
                assert(d_texts[d as int] == detail_field_text(dseq[d as int], z));
                lemma_join_push(d_texts.take(d as int), d_texts[d as int], "\n    --"@);
                assert(d_texts.take(d + 1) =~= d_texts.take(d as int).push(d_texts[d as int]));
                assert(w.text() =~= before_details + join_seqs(d_texts.take(d + 1), "\n    --"@));
            }
            d += 1;
        }
        proof {
            assert(d_texts.take(details@.len() as int) =~= d_texts);
            assert(w.text() =~= old(w).text() + leftover_text(fields@, z));
        }
    }

    /// Renders one record: the header in strict left-to-right order, then
    /// the leftover fields, each fragment written to the sink as it is
    /// produced.
    #[verifier::rlimit(100)]
    pub fn write_formatted(&self, writer: &mut StyledWriter, entry: &LogEntry)
        ensures
            final(writer).text() == old(writer).text() + formatted_text(
                *entry,
                old(writer).stylize_on(),
            ),
            final(writer).stylize_on() == old(writer).stylize_on(),
    {
        let ghost z = writer.stylize_on();
        writer.write("[");
        let ts = entry.time.render();
        writer.write_styled(ts.as_str(), Style::White);
        writer.write("] ");
        let lv = Self::format_level(entry.level);
        writer.write_styled(lv.0.as_str(), lv.1);
        writer.write(": ");
        writer.write(entry.name.as_str());
        writer.write("/");
        let mut pid = String::new();
        push_decimal(&mut pid, entry.pid);
        writer.write(pid.as_str());
        writer.write(" on ");
        if entry.hostname.as_str().is_empty() {
            writer.write("<no-hostname>");
        } else {
            writer.write(entry.hostname.as_str());
        }
        writer.write(": ");
        writer.write_styled(entry.message.as_str(), Style::Cyan);
        proof {
            assert(writer.text() =~= old(writer).text() + header_text(*entry, z));
        }
        Self::write_leftover(writer, &entry.leftover);
        proof {
            assert(writer.text() =~= old(writer).text() + formatted_text(*entry, z));
        }
    }
}

} // verus!
