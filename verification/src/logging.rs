//! Which log records are let through. By default only the application's own
//! errors are; the environment can raise the thresholds.

use vstd::prelude::*;
use crate::export;
use crate::text;

verus! {

/// A threshold, from letting nothing through to letting everything through.
#[derive(Clone, Copy, Debug, PartialEq, Eq, Structural)]
pub enum LevelFilter {
    Off,
    Error,
    Warn,
    Info,
    Debug,
    Trace,
}

impl LevelFilter {
    /// How much a threshold lets through.
    pub open spec fn rank(self) -> int {
        match self {
            LevelFilter::Off => 0,
            LevelFilter::Error => 1,
            LevelFilter::Warn => 2,
            LevelFilter::Info => 3,
            LevelFilter::Debug => 4,
            LevelFilter::Trace => 5,
        }
    }

    fn number(self) -> (r: u8)
        ensures
            r == self.rank(),
    {
        match self {
            LevelFilter::Off => 0,
            LevelFilter::Error => 1,
            LevelFilter::Warn => 2,
            LevelFilter::Info => 3,
            LevelFilter::Debug => 4,
            LevelFilter::Trace => 5,
        }
    }
}

/// The level that a name stands for, in any mix of small and capital letters.
pub open spec fn level_named(name: Seq<char>) -> Option<LevelFilter> {
    let small = name.map_values(|c: char| export::lower(c));
    if small == "trace"@ {
        Some(LevelFilter::Trace)
    } else if small == "debug"@ {
        Some(LevelFilter::Debug)
    } else if small == "info"@ {
        Some(LevelFilter::Info)
    } else if small == "warn"@ {
        Some(LevelFilter::Warn)
    } else if small == "error"@ {
        Some(LevelFilter::Error)
    } else {
        None
    }
}

/// Parses a level name (`trace`/`debug`/`info`/`warn`/`error`),
/// case-insensitive.
pub fn parse_level(name: &str) -> (r: Option<LevelFilter>)
    ensures
        r == level_named(name@),
{
    let small: String = export::ascii_lowercase(name);
    let small: &str = small.as_str();
    if text::same_text(small, "trace") {
        Some(LevelFilter::Trace)
    } else if text::same_text(small, "debug") {
        Some(LevelFilter::Debug)
    } else if text::same_text(small, "info") {
        Some(LevelFilter::Info)
    } else if text::same_text(small, "warn") {
        Some(LevelFilter::Warn)
    } else if text::same_text(small, "error") {
        Some(LevelFilter::Error)
    } else {
        None
    }
}

/// Where the first equals sign of a text stands, from position `i` on.
pub open spec fn first_equals(s: Seq<char>, i: int) -> Option<int>
    decreases s.len() - i,
{
    if i < 0 || i >= s.len() {
        None
    } else if s[i] == '=' {
        Some(i)
    } else {
        first_equals(s, i + 1)
    }
}

/// The value of an option, or a fallback.
pub open spec fn or_else(o: Option<LevelFilter>, fallback: LevelFilter) -> LevelFilter {
    match o {
        Some(level) => level,
        None => fallback,
    }
}

/// The thresholds for the application's own records and for all others: a
/// tracing switch raises the own one to everything, and a log specification
/// then sets both (a bare level) or the own one alone (a level behind the
/// application's name, or behind nothing, and an equals sign).
pub open spec fn scopes(traced: bool, spec_text: Option<Seq<char>>) -> (LevelFilter, LevelFilter) {
    let own = if traced {
        LevelFilter::Trace
    } else {
        LevelFilter::Error
    };
    match spec_text {
        None => (own, LevelFilter::Off),
        Some(s) => match first_equals(s, 0) {
            Some(i) => {
                if s.take(i) == "curvectrl"@ || i == 0 {
                    (or_else(level_named(s.skip(i + 1)), own), LevelFilter::Off)
                } else {
                    (own, LevelFilter::Off)
                }
            },
            None => (or_else(level_named(s), own), or_else(level_named(s), own)),
        },
    }
}

/// The per-scope thresholds that the environment asks for: `trace_detail` and
/// `trace_rebake` say whether the tracing variables are set, `rust_log` is the
/// log specification where there is one.
pub fn scopes_from_env(trace_detail: bool, trace_rebake: bool, rust_log: Option<&str>) -> (r: (
    LevelFilter,
    LevelFilter,
))
    ensures
        r == scopes(trace_detail || trace_rebake, text::slice_of(rust_log)),
{
    let own: LevelFilter = if trace_detail || trace_rebake {
        LevelFilter::Trace
    } else {
        LevelFilter::Error
    };
    let s: &str = match rust_log {
        None => {
            return (own, LevelFilter::Off);
        },
        Some(s) => s,
    };
    let chars: Vec<char> = text::chars_of(s);
    let mut i: usize = 0;
    while i < chars.len() && chars[i] != '='
        invariant
            chars@ == s@,
            i <= chars@.len(),
            first_equals(s@, i as int) == first_equals(s@, 0),
        decreases chars@.len() - i,
    {
        i += 1;
    }
    if i == chars.len() {
        let level: LevelFilter = match parse_level(s) {
            Some(level) => level,
            None => own,
        };
        return (level, level);
    }
    let target: String = text::text_from(chars.as_slice(), 0, i);
    let level: String = text::text_from(chars.as_slice(), i + 1, chars.len());
    assert(target@ =~= s@.take(i as int));
    assert(level@ =~= s@.skip(i + 1));
    if i == 0 || text::same_text(target.as_str(), "curvectrl") {
        match parse_level(level.as_str()) {
            Some(l) => (l, LevelFilter::Off),
            None => (own, LevelFilter::Off),
        }
    } else {
        (own, LevelFilter::Off)
    }
}

/// Whether a text begins with another.
fn begins_with(s: &str, head: &str) -> (r: bool)
    ensures
        r == head@.is_prefix_of(s@),
{
    let chars: Vec<char> = text::chars_of(s);
    let want: Vec<char> = text::chars_of(head);
    if want.len() > chars.len() {
        return false;
    }
    let mut i: usize = 0;
    while i < want.len()
        invariant
            i <= want@.len() <= chars@.len(),
            chars@ == s@,
            want@ == head@,
            forall|j: int| 0 <= j < i ==> want@[j] == chars@[j],
        decreases want@.len() - i,
    {
        if want[i] != chars[i] {
            return false;
        }
        i += 1;
    }
    assert(head@ =~= s@.take(head@.len() as int));
    true
}

/// Whether a record is let through: one of the application's own targets is
/// held to the own threshold, any other to the threshold for dependencies.
pub fn enabled(thresholds: (LevelFilter, LevelFilter), target: &str, level: LevelFilter) -> (r:
    bool)
    ensures
        r == (level.rank() <= (if "curvectrl"@.is_prefix_of(target@) {
            thresholds.0.rank()
        } else {
            thresholds.1.rank()
        })),
{
    let threshold: LevelFilter = if begins_with(target, "curvectrl") {
        thresholds.0
    } else {
        thresholds.1
    };
    level.number() <= threshold.number()
}

/// Without any word from the environment, the application's own errors are let
/// through and nothing else is.
pub proof fn only_own_errors_by_default(level: LevelFilter)
    requires
        level != LevelFilter::Off,
    ensures
        level.rank() <= scopes(false, None).0.rank() <==> level == LevelFilter::Error,
        !(level.rank() <= scopes(false, None).1.rank()),
{
}

/// A specification for the application alone never lets a dependency's record
/// through.
pub proof fn own_specification_leaves_dependencies_off(traced: bool, s: Seq<char>)
    requires
        first_equals(s, 0) is Some,
    ensures
        scopes(traced, Some(s)).1 == LevelFilter::Off,
{
}

} // verus!
