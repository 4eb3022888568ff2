//! Decimal text for the numeric fragments of a rendered line: plain
//! decimals for pids and custom level codes, zero-padded fields for
//! timestamps.

use vstd::prelude::*;

verus! {

/// The character of one decimal digit.
pub open spec fn digit_char(d: int) -> char {
    if d == 0 {
        '0'
    } else if d == 1 {
        '1'
    } else if d == 2 {
        '2'
    } else if d == 3 {
        '3'
    } else if d == 4 {
        '4'
    } else if d == 5 {
        '5'
    } else if d == 6 {
        '6'
    } else if d == 7 {
        '7'
    } else if d == 8 {
        '8'
    } else {
        '9'
    }
}

/// The decimal text of a non-negative integer, without padding.
pub open spec fn decimal(n: int) -> Seq<char>
    decreases n,
{
    if n < 10 {
        seq![digit_char(n % 10)]
    } else {
        decimal(n / 10).push(digit_char(n % 10))
    }
}

/// The last two decimal digits of `n`, zero-padded.
pub open spec fn pad2(n: int) -> Seq<char> {
    seq![digit_char((n / 10) % 10), digit_char(n % 10)]
}

/// The last three decimal digits of `n`, zero-padded.
pub open spec fn pad3(n: int) -> Seq<char> {
    seq![digit_char((n / 100) % 10), digit_char((n / 10) % 10), digit_char(n % 10)]
}

/// The last four decimal digits of `n`, zero-padded.
pub open spec fn pad4(n: int) -> Seq<char> {
    seq![
        digit_char((n / 1000) % 10),
        digit_char((n / 100) % 10),
        digit_char((n / 10) % 10),
        digit_char(n % 10),
    ]
}

/// Relies on `String::push`: appends exactly one character at the end.
#[verifier::external_body]
pub(crate) fn push_char(s: &mut String, c: char)
    ensures
        final(s)@ == old(s)@ + seq![c],
{
    s.push(c);
}

/// Appends the character of one digit.
fn push_digit(s: &mut String, d: u32)
    requires
        d < 10,
    ensures
        final(s)@ == old(s)@ + seq![digit_char(d as int)],
{
    let c = match d {
        0 => '0',
        1 => '1',
        2 => '2',
        3 => '3',
        4 => '4',
        5 => '5',
        6 => '6',
        7 => '7',
        8 => '8',
        _ => '9',
    };
    push_char(s, c);
}

/// Appends the decimal text of `n`.
pub(crate) fn push_decimal(s: &mut String, n: u32)
    ensures
        final(s)@ == old(s)@ + decimal(n as int),
    decreases n,
{
    if n >= 10 {
        push_decimal(s, n / 10);
    }
    push_digit(s, n % 10);
    proof {
        if n >= 10 {
            assert(old(s)@ + decimal(n as int) =~= old(s)@ + decimal(n as int / 10) + seq![
                digit_char(n as int % 10),
            ]);
        }
    }
}

/// Appends the last two digits of `n`, zero-padded.
pub(crate) fn push_pad2(s: &mut String, n: u8)
    ensures
        final(s)@ == old(s)@ + pad2(n as int),
{
    let w: u32 = n as u32;
    push_digit(s, (w / 10) % 10);
    push_digit(s, w % 10);
    proof {
        assert(old(s)@ + pad2(n as int) =~= old(s)@ + seq![digit_char((n as int / 10) % 10)]
            + seq![digit_char(n as int % 10)]);
    }
}

/// Appends the last three digits of `n`, zero-padded.
pub(crate) fn push_pad3(s: &mut String, n: u16)
    ensures
        final(s)@ == old(s)@ + pad3(n as int),
{
    let w: u32 = n as u32;
    push_digit(s, (w / 100) % 10);
    push_digit(s, (w / 10) % 10);
    push_digit(s, w % 10);
    proof {
        assert(old(s)@ + pad3(n as int) =~= old(s)@ + seq![digit_char((n as int / 100) % 10)]
            + seq![digit_char((n as int / 10) % 10)] + seq![digit_char(n as int % 10)]);
    }
}

/// Appends the last four digits of `n`, zero-padded.
pub(crate) fn push_pad4(s: &mut String, n: u16)
    ensures
        final(s)@ == old(s)@ + pad4(n as int),
{
    let w: u32 = n as u32;
    push_digit(s, (w / 1000) % 10);
    push_digit(s, (w / 100) % 10);
    push_digit(s, (w / 10) % 10);
    push_digit(s, w % 10);
    proof {
        assert(old(s)@ + pad4(n as int) =~= old(s)@ + seq![digit_char((n as int / 1000) % 10)]
            + seq![digit_char((n as int / 100) % 10)] + seq![digit_char((n as int / 10) % 10)]
            + seq![digit_char(n as int % 10)]);
    }
}

} // verus!
