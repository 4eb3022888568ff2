//! The level model: an ordered set of severities with a textual round-trip.

use core::cmp::Ordering;
use vstd::prelude::*;
use vstd::std_specs::cmp::PartialOrdSpec;

verus! {

/// A log severity. The six named levels carry the fixed numeric codes
/// 10, 20, 30, 40, 50 and 60; any other code in a record becomes `Custom`.
#[derive(Copy, Clone, Debug, PartialEq, Eq, Structural)]
pub enum LogLevel {
    /// The service/app is going to stop or become unusable now.
    Fatal,
    /// Fatal for a particular request, but the service/app continues.
    Error,
    /// Something an operator should look at eventually.
    Warn,
    /// Detail on regular operation.
    Info,
    /// Too verbose to be included in "info" level.
    Debug,
    /// Very detailed application logging.
    Trace,
    /// Custom level, displayed as `LVL{n}`.
    Custom(u8),
}

/// Why a level could not be decoded.
#[derive(Copy, Clone, Debug, PartialEq, Eq, Structural)]
pub enum LevelError {
    /// The name is not one of the six level names.
    InvalidLevelName,
    /// The numeric code lies outside `[0, 255]`.
    InvalidLevelCode,
}

/// The numeric rank of a level: the fixed code of a named level,
/// the payload of a custom one.
pub open spec fn code_of(l: LogLevel) -> int {
    match l {
        LogLevel::Trace => 10,
        LogLevel::Debug => 20,
        LogLevel::Info => 30,
        LogLevel::Warn => 40,
        LogLevel::Error => 50,
        LogLevel::Fatal => 60,
        LogLevel::Custom(n) => n as int,
    }
}

/// The level that a numeric code in a record denotes.
pub open spec fn level_of_code(code: u8) -> LogLevel {
    if code == 10 {
        LogLevel::Trace
    } else if code == 20 {
        LogLevel::Debug
    } else if code == 30 {
        LogLevel::Info
    } else if code == 40 {
        LogLevel::Warn
    } else if code == 50 {
        LogLevel::Error
    } else if code == 60 {
        LogLevel::Fatal
    } else {
        LogLevel::Custom(code)
    }
}

/// True of the six named levels, false of `Custom`.
pub open spec fn is_named(l: LogLevel) -> bool {
    !(l is Custom)
}

/// ASCII lowercase of one character; everything but `A`..`Z` is unchanged.
pub open spec fn lower_char(c: char) -> char {
    match c {
        'A' => 'a',
        'B' => 'b',
        'C' => 'c',
        'D' => 'd',
        'E' => 'e',
        'F' => 'f',
        'G' => 'g',
        'H' => 'h',
        'I' => 'i',
        'J' => 'j',
        'K' => 'k',
        'L' => 'l',
        'M' => 'm',
        'N' => 'n',
        'O' => 'o',
        'P' => 'p',
        'Q' => 'q',
        'R' => 'r',
        'S' => 's',
        'T' => 't',
        'U' => 'u',
        'V' => 'v',
        'W' => 'w',
        'X' => 'x',
        'Y' => 'y',
        'Z' => 'z',
        _ => c,
    }
}

/// ASCII lowercase of a character sequence.
pub open spec fn lower_seq(s: Seq<char>) -> Seq<char> {
    s.map_values(|c: char| lower_char(c))
}

/// The canonical lowercase name of a named level.
pub open spec fn name_of(l: LogLevel) -> Seq<char> {
    match l {
        LogLevel::Trace => "trace"@,
        LogLevel::Debug => "debug"@,
        LogLevel::Info => "info"@,
        LogLevel::Warn => "warn"@,
        LogLevel::Error => "error"@,
        LogLevel::Fatal => "fatal"@,
        LogLevel::Custom(_) => ""@,
    }
}

/// What parsing a level name yields: the named level whose canonical name
/// equals the ASCII-lowercased input, if there is one.
pub open spec fn parse_name_spec(s: Seq<char>) -> Option<LogLevel> {
    if lower_seq(s) == "trace"@ {
        Some(LogLevel::Trace)
    } else if lower_seq(s) == "debug"@ {
        Some(LogLevel::Debug)
    } else if lower_seq(s) == "info"@ {
        Some(LogLevel::Info)
    } else if lower_seq(s) == "warn"@ {
        Some(LogLevel::Warn)
    } else if lower_seq(s) == "error"@ {
        Some(LogLevel::Error)
    } else if lower_seq(s) == "fatal"@ {
        Some(LogLevel::Fatal)
    } else {
        None
    }
}

/// ASCII lowercase of one character, as executable code.
fn lower_char_exec(c: char) -> (r: char)
    ensures
        r == lower_char(c),
{
    match c {
        'A' => 'a',
        'B' => 'b',
        'C' => 'c',
        'D' => 'd',
        'E' => 'e',
        'F' => 'f',
        'G' => 'g',
        'H' => 'h',
        'I' => 'i',
        'J' => 'j',
        'K' => 'k',
        'L' => 'l',
        'M' => 'm',
        'N' => 'n',
        'O' => 'o',
        'P' => 'p',
        'Q' => 'q',
        'R' => 'r',
        'S' => 's',
        'T' => 't',
        'U' => 'u',
        'V' => 'v',
        'W' => 'w',
        'X' => 'x',
        'Y' => 'y',
        'Z' => 'z',
        _ => c,
    }
}

/// Whether two strings are equal once both are ASCII-lowercased.
fn eq_lowered(s: &str, t: &str) -> (r: bool)
    ensures
        r == (lower_seq(s@) == lower_seq(t@)),
{
    let n = s.unicode_len();
    let m = t.unicode_len();
    if n != m {
        proof {
            assert(lower_seq(s@).len() != lower_seq(t@).len());
        }
        return false;
    }
    let mut i: usize = 0;
    while i < n
        invariant
            n == s@.len(),
            n == t@.len(),
            i <= n,
            forall|j: int| 0 <= j < i ==> lower_char(s@[j]) == lower_char(t@[j]),
        decreases n - i,
    {
        if lower_char_exec(s.get_char(i)) != lower_char_exec(t.get_char(i)) {
            proof {
                assert(lower_seq(s@)[i as int] != lower_seq(t@)[i as int]);
            }
            return false;
        }
        i += 1;
    }
    proof {
        assert(lower_seq(s@) =~= lower_seq(t@));
    }
    true
}

/// The six canonical level names are already lowercase.
proof fn lemma_names_lowercase()
    ensures
        lower_seq("trace"@) == "trace"@,
        lower_seq("debug"@) == "debug"@,
        lower_seq("info"@) == "info"@,
        lower_seq("warn"@) == "warn"@,
        lower_seq("error"@) == "error"@,
        lower_seq("fatal"@) == "fatal"@,
{
    reveal_strlit("trace");
    reveal_strlit("debug");
    reveal_strlit("info");
    reveal_strlit("warn");
    reveal_strlit("error");
    reveal_strlit("fatal");
    assert(lower_seq("trace"@) =~= "trace"@);
    assert(lower_seq("debug"@) =~= "debug"@);
    assert(lower_seq("info"@) =~= "info"@);
    assert(lower_seq("warn"@) =~= "warn"@);
    assert(lower_seq("error"@) =~= "error"@);
    assert(lower_seq("fatal"@) =~= "fatal"@);
}

impl LogLevel {
    /// The numeric code of this level.
    pub fn code(&self) -> (r: u8)
        ensures
            r as int == code_of(*self),
    {
        match self {
            LogLevel::Trace => 10,
            LogLevel::Debug => 20,
            LogLevel::Info => 30,
            LogLevel::Warn => 40,
            LogLevel::Error => 50,
            LogLevel::Fatal => 60,
            LogLevel::Custom(n) => *n,
        }
    }

    /// Decodes a level from the numeric code found in a record:
    /// 10/20/30/40/50/60 are the named levels, any other code in `[0, 255]`
    /// is custom, and a code outside that range is an error.
    pub fn from_code(code: i64) -> (r: Result<LogLevel, LevelError>)
        ensures
            match r {
                Ok(l) => 0 <= code <= 255 && l == level_of_code(code as u8),
                Err(e) => (code < 0 || code > 255) && e == LevelError::InvalidLevelCode,
            },
    {
        if code < 0 || code > 255 {
            return Err(LevelError::InvalidLevelCode);
        }
        let c = code as u8;
        if c == 10 {
            Ok(LogLevel::Trace)
        } else if c == 20 {
            Ok(LogLevel::Debug)
        } else if c == 30 {
            Ok(LogLevel::Info)
        } else if c == 40 {
            Ok(LogLevel::Warn)
        } else if c == 50 {
            Ok(LogLevel::Error)
        } else if c == 60 {
            Ok(LogLevel::Fatal)
        } else {
            Ok(LogLevel::Custom(c))
        }
    }

    /// Parses a level from its name, case-insensitively; text that is not
    /// one of the six level names is an error.
    pub fn from_name(s: &str) -> (r: Result<LogLevel, LevelError>)
        ensures
            match r {
                Ok(l) => parse_name_spec(s@) == Some(l),
                Err(e) => parse_name_spec(s@) is None && e == LevelError::InvalidLevelName,
            },
    {
        proof {
            lemma_names_lowercase();
        }
        if eq_lowered(s, "trace") {
            Ok(LogLevel::Trace)
        } else if eq_lowered(s, "debug") {
            Ok(LogLevel::Debug)
        } else if eq_lowered(s, "info") {
            Ok(LogLevel::Info)
        } else if eq_lowered(s, "warn") {
            Ok(LogLevel::Warn)
        } else if eq_lowered(s, "error") {
            Ok(LogLevel::Error)
        } else if eq_lowered(s, "fatal") {
            Ok(LogLevel::Fatal)
        } else {
            Err(LevelError::InvalidLevelName)
        }
    }
}

impl PartialOrd for LogLevel {
    /// Levels order by numeric rank alone, so a custom level interleaves
    /// with the named ones by its code.
    fn partial_cmp(&self, other: &Self) -> (r: Option<Ordering>) {
        let a = self.code();
        let b = other.code();
        if a < b {
            Some(Ordering::Less)
        } else if a == b {
            Some(Ordering::Equal)
        } else {
            Some(Ordering::Greater)
        }
    }
}

impl vstd::std_specs::cmp::PartialOrdSpecImpl for LogLevel {
    open spec fn obeys_partial_cmp_spec() -> bool {
        true
    }

    open spec fn partial_cmp_spec(&self, other: &Self) -> Option<Ordering> {
        if code_of(*self) < code_of(*other) {
            Some(Ordering::Less)
        } else if code_of(*self) == code_of(*other) {
            Some(Ordering::Equal)
        } else {
            Some(Ordering::Greater)
        }
    }
}

/// Levels compare exactly as their numeric codes do: `l1` orders below `l2`
/// if and only if `code_of(l1) < code_of(l2)`, named or custom alike.
pub proof fn lemma_level_order_is_code_order(l1: LogLevel, l2: LogLevel)
    ensures
        l1.partial_cmp_spec(&l2) == Some(Ordering::Less) <==> code_of(l1) < code_of(l2),
        l1.partial_cmp_spec(&l2) == Some(Ordering::Equal) <==> code_of(l1) == code_of(l2),
        l1.partial_cmp_spec(&l2) == Some(Ordering::Greater) <==> code_of(l1) > code_of(l2),
{
}

/// Parsing a level name is the left inverse of rendering a named level's
/// canonical lowercase name.
pub proof fn lemma_parse_inverts_name(l: LogLevel)
    requires
        is_named(l),
    ensures
        parse_name_spec(name_of(l)) == Some(l),
{
    lemma_names_lowercase();
    reveal_strlit("trace");
    reveal_strlit("debug");
    reveal_strlit("info");
    reveal_strlit("warn");
    reveal_strlit("error");
    reveal_strlit("fatal");
    assert("trace"@[0] == 't' && "debug"@[0] == 'd' && "info"@[0] == 'i' && "warn"@[0] == 'w'
        && "error"@[0] == 'e' && "fatal"@[0] == 'f');
    assert(!("debug"@ =~= "trace"@));
    assert(!("info"@ =~= "trace"@));
    assert(!("info"@ =~= "debug"@));
    assert(!("warn"@ =~= "trace"@));
    assert(!("warn"@ =~= "debug"@));
    assert(!("warn"@ =~= "info"@));
    assert(!("error"@ =~= "trace"@));
    assert(!("error"@ =~= "debug"@));
    assert(!("error"@ =~= "info"@));
    assert(!("error"@ =~= "warn"@));
    assert(!("fatal"@ =~= "trace"@));
    assert(!("fatal"@ =~= "debug"@));
    assert(!("fatal"@ =~= "info"@));
    assert(!("fatal"@ =~= "warn"@));
    assert(!("fatal"@ =~= "error"@));
}

/// Parsing a level name is case-insensitive: two spellings with the same
/// ASCII-lowercased characters parse to the same outcome.
pub proof fn lemma_parse_case_insensitive(s1: Seq<char>, s2: Seq<char>)
    requires
        lower_seq(s1) == lower_seq(s2),
    ensures
        parse_name_spec(s1) == parse_name_spec(s2),
{
}

} // verus!
