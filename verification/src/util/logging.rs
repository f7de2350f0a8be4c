//! The file logger's lines: timestamps, levels, truncation.

use crate::number::decimal;
use crate::number::decimal_padded;
use crate::number::decimal_u64;
use crate::number::push_padded;
use crate::text::chars_of;
use crate::text::eq_ignore_case;
use crate::text::owned;
use crate::text::push_range;
use crate::text::push_str;
use crate::text::same_ignoring_case;
use crate::text::string_of_all;
use crate::util::paths::join;
use crate::util::paths::joined;
use vstd::arithmetic::div_mod::lemma_hoist_over_denominator;
use vstd::arithmetic::div_mod::lemma_mod_multiples_vanish;
use vstd::prelude::*;
use vstd::string::StringSliceAdditionalSpecFns;
use vstd::utf8::encode_scalar;
use vstd::utf8::encode_utf8;

verus! {

/// Name of the log file under `~/.zedxcode/logs`.
pub const LOG_FILE_NAME: &'static str = "xcode-dap.log";

/// A log file over this size is rotated before it is opened.
pub const MAX_LOG_BYTES: u64 = 5_242_880;

// ---------------------------------------------------------------------------
// dates
// ---------------------------------------------------------------------------

/// Whether `y` is a leap year of the Gregorian calendar.
pub open spec fn is_leap(y: int) -> bool {
    y % 4 == 0 && (y % 100 != 0 || y % 400 == 0)
}

/// Leap years in the years 1 to `y`.
pub open spec fn leap_count(y: int) -> int {
    y / 4 - y / 100 + y / 400
}

/// Days in month `m` of year `y`.
pub open spec fn month_days(y: int, m: int) -> int {
    if m == 2 {
        if is_leap(y) {
            29
        } else {
            28
        }
    } else if m == 4 || m == 6 || m == 9 || m == 11 {
        30
    } else {
        31
    }
}

/// Days of year `y` before month `m`.
pub open spec fn days_before_month(y: int, m: int) -> int
    decreases m,
{
    if m <= 1 {
        0
    } else {
        days_before_month(y, m - 1) + month_days(y, m - 1)
    }
}

/// Whether the month and the day exist in the year.
pub open spec fn valid_date(y: int, m: int, d: int) -> bool {
    1 <= m <= 12 && 1 <= d <= month_days(y, m)
}

/// Days from 1970-01-01 to a date.
pub open spec fn days_from_epoch(y: int, m: int, d: int) -> int {
    365 * (y - 1970) + leap_count(y - 1) - leap_count(1969) + days_before_month(y, m) + d - 1
}

/// Two dates with the same day number are the same date.
pub proof fn lemma_date_unique(y1: int, m1: int, d1: int, y2: int, m2: int, d2: int)
    requires
        valid_date(y1, m1, d1),
        valid_date(y2, m2, d2),
        days_from_epoch(y1, m1, d1) == days_from_epoch(y2, m2, d2),
    ensures
        y1 == y2,
        m1 == m2,
        d1 == d2,
{
    if y1 < y2 {
        lemma_year_order(y1, m1, d1, y2, m2, d2);
    } else if y2 < y1 {
        lemma_year_order(y2, m2, d2, y1, m1, d1);
    } else if m1 < m2 {
        lemma_month_order(y1, m1, m2);
    } else if m2 < m1 {
        lemma_month_order(y1, m2, m1);
    }
}

/// The days before a later month include the earlier one.
proof fn lemma_month_order(y: int, m1: int, m2: int)
    requires
        1 <= m1 < m2,
    ensures
        days_before_month(y, m1) + month_days(y, m1) <= days_before_month(y, m2),
    decreases m2,
{
    if m1 + 1 < m2 {
        lemma_month_order(y, m1, m2 - 1);
    }
}

/// A date of an earlier year has a smaller day number.
proof fn lemma_year_order(y1: int, m1: int, d1: int, y2: int, m2: int, d2: int)
    requires
        valid_date(y1, m1, d1),
        valid_date(y2, m2, d2),
        y1 < y2,
    ensures
        days_from_epoch(y1, m1, d1) < days_from_epoch(y2, m2, d2),
{
    if m1 < 12 {
        lemma_month_order(y1, m1, 12);
    }
    if m2 > 1 {
        lemma_month_order(y2, 1, m2);
    }
    lemma_days_before(y1);
    lemma_days_before(y2);
    lemma_leap_step(y1);
    lemma_leap_monotone(y1, y2 - 1);
    assert(march_before(9) == 275);
}

/// A year adds its leap day.
pub proof fn lemma_leap_step(y: int)
    ensures
        leap_count(y) == leap_count(y - 1) + if is_leap(y) {
            1int
        } else {
            0
        },
{
}

/// Later years have seen at least as many leap days.
proof fn lemma_leap_monotone(a: int, b: int)
    requires
        a <= b,
    ensures
        leap_count(a) <= leap_count(b),
    decreases b - a,
{
    if a < b {
        lemma_leap_step(b);
        lemma_leap_monotone(a, b - 1);
    }
}

/// The year that starts in March, and the day in it, of a count of days from
/// March 1 of year 0.
fn march_date(days: i64) -> (r: (i64, u32))
    requires
        days >= i64::MIN + 146_097,
    ensures
        days == 365 * r.0 + leap_count(r.0 as int) + r.1,
        r.1 <= 365,
        r.1 == 365 ==> is_leap(r.0 + 1),
        -63_200_000_000_000_000 < r.0 < 63_200_000_000_000_000,
{
    let cycle: i64 = if days >= 0 {
        days / 146_097
    } else {
        -((-(days + 1)) / 146_097) - 1
    };
    let in_cycle: i64 = days - cycle * 146_097;
    assert(0 <= in_cycle < 146_097);
    let (year, day) = date_in_cycle(in_cycle as u32);
    proof {
        lemma_cycles(cycle as int, year as int);
    }
    (cycle * 400 + year as i64, day)
}

/// The year and the day in it of a day of a 400-year cycle.
fn date_in_cycle(days: u32) -> (r: (u32, u32))
    requires
        days < 146_097,
    ensures
        r.0 < 400,
        days == 365 * r.0 + leap_count(r.0 as int) + r.1,
        r.1 <= 365,
        r.1 == 365 ==> is_leap(r.0 + 1),
{
    let century: u32 = if days / 36_524 < 4 {
        days / 36_524
    } else {
        3
    };
    let in_century: u32 = days - century * 36_524;
    let olympiad: u32 = in_century / 1_461;
    let in_olympiad: u32 = in_century - olympiad * 1_461;
    let year: u32 = if in_olympiad / 365 < 4 {
        in_olympiad / 365
    } else {
        3
    };
    let day: u32 = in_olympiad - year * 365;
    proof {
        lemma_march_year(0, century as int, olympiad as int, year as int);
    }
    (century * 100 + olympiad * 4 + year, day)
}

/// Whole cycles add their leap days, and do not change which years are leap
/// years.
proof fn lemma_cycles(a: int, y: int)
    ensures
        leap_count(a * 400 + y) == 97 * a + leap_count(y),
        is_leap(a * 400 + y + 1) == is_leap(y + 1),
{
    let n = a * 400 + y;
    lemma_hoist_over_denominator(y, 100 * a, 4);
    lemma_hoist_over_denominator(y, 4 * a, 100);
    lemma_hoist_over_denominator(y, a, 400);
    assert(n == y + (100 * a) * 4);
    assert(n == y + (4 * a) * 100);
    lemma_mod_multiples_vanish(100 * a, y + 1, 4);
    lemma_mod_multiples_vanish(4 * a, y + 1, 100);
    lemma_mod_multiples_vanish(a, y + 1, 400);
}

/// The days before each month.
proof fn lemma_days_before(y: int)
    ensures
        days_before_month(y, 1) == 0,
        days_before_month(y, 2) == 31,
        forall|m: int|
            3 <= m <= 12 ==> #[trigger] days_before_month(y, m) == march_before(m - 3) + 59 + if is_leap(
                y,
            ) {
                1int
            } else {
                0
            },
{
    reveal_with_fuel(days_before_month, 13);
    assert forall|m: int| 3 <= m <= 12 implies #[trigger] days_before_month(y, m) == march_before(m - 3)
        + 59 + if is_leap(y) {
        1int
    } else {
        0
    } by {
        if m == 3 {
        } else if m == 4 {
        } else if m == 5 {
        } else if m == 6 {
        } else if m == 7 {
        } else if m == 8 {
        } else if m == 9 {
        } else if m == 10 {
        } else if m == 11 {
        } else {
        }
    }
}

/// A day of a year that starts in March, as a date.
proof fn lemma_march_date(my: int, day: int, y: int, m: int, d: int)
    requires
        0 <= day <= 365,
        day == 365 ==> is_leap(my + 1),
        1 <= m <= 12,
        d >= 1,
        y == if m <= 2 {
            my + 1
        } else {
            my
        },
        ({
            let k = if m >= 3 {
                m - 3
            } else {
                m + 9
            };
            day == march_before(k) + d - 1 && (k < 11 ==> day < march_before(k + 1))
        }),
    ensures
        valid_date(y, m, d),
        days_from_epoch(y, m, d) == 365 * my + leap_count(my) + day - 719_468,
{
    lemma_days_before(y);
    assert(leap_count(1969) == 477);
    lemma_leap_step(my);
}

/// Days since 1970-01-01 to (year, month, day) in the proleptic Gregorian
/// calendar.
pub fn civil_from_days(z: i64) -> (r: (i64, u32, u32))
    requires
        z <= i64::MAX - 719_468,
    ensures
        valid_date(r.0 as int, r.1 as int, r.2 as int),
        days_from_epoch(r.0 as int, r.1 as int, r.2 as int) == z,
{
    let (march_year, day) = march_date(z + 719_468);
    let (m, d) = month_and_day(day);
    let y: i64 = if m <= 2 {
        march_year + 1
    } else {
        march_year
    };
    proof {
        lemma_march_date(march_year as int, day as int, y as int, m as int, d as int);
    }
    (y, m, d)
}

/// Leap days up to a year written in cycles, centuries, olympiads and years.
proof fn lemma_march_year(a: int, b: int, c: int, d: int)
    requires
        0 <= b <= 3,
        0 <= c <= 24,
        0 <= d <= 3,
    ensures
        leap_count(a * 400 + b * 100 + c * 4 + d) == 97 * a + 24 * b + c,
{
}

/// Days of a year that starts in March before its month `k`.
pub open spec fn march_before(k: int) -> int {
    if k <= 0 {
        0
    } else if k == 1 {
        31
    } else if k == 2 {
        61
    } else if k == 3 {
        92
    } else if k == 4 {
        122
    } else if k == 5 {
        153
    } else if k == 6 {
        184
    } else if k == 7 {
        214
    } else if k == 8 {
        245
    } else if k == 9 {
        275
    } else if k == 10 {
        306
    } else {
        337
    }
}

/// Month and day of a day of a year that starts in March.
fn month_and_day(day: u32) -> (r: (u32, u32))
    requires
        day < 366,
    ensures
        1 <= r.0 <= 12,
        r.1 >= 1,
        ({
            let k = if r.0 >= 3 {
                r.0 - 3
            } else {
                r.0 + 9
            };
            day == march_before(k) + r.1 - 1 && (k < 11 ==> day < march_before(k + 1))
        }),
{
    let k: u32 = (5 * day + 2) / 153;
    let before: u32 = (153 * k + 2) / 5;
    let d: u32 = day - before + 1;
    let m: u32 = if k < 10 {
        k + 3
    } else {
        k - 9
    };
    (m, d)
}

// ---------------------------------------------------------------------------
// timestamps
// ---------------------------------------------------------------------------

/// A date and a time of day as `YYYY-MM-DDTHH:MM:SS`.
pub open spec fn date_time_text(y: nat, m: nat, d: nat, sec: nat) -> Seq<char> {
    decimal_padded(y, 4) + "-"@ + decimal_padded(m, 2) + "-"@ + decimal_padded(d, 2) + "T"@
        + decimal_padded(sec / 3600, 2) + ":"@ + decimal_padded(sec % 3600 / 60, 2) + ":"@
        + decimal_padded(sec % 60, 2)
}

/// Whether `t` is the UTC date and time `secs` seconds after the epoch.
pub open spec fn is_epoch_text(secs: nat, t: Seq<char>) -> bool {
    exists|y: nat, m: nat, d: nat|
        valid_date(y as int, m as int, d as int) && days_from_epoch(y as int, m as int, d as int)
            == secs / 86_400 && t == #[trigger] date_time_text(y, m, d, secs % 86_400)
}

/// A moment has one text.
pub proof fn lemma_epoch_text_unique(secs: nat, t1: Seq<char>, t2: Seq<char>)
    requires
        is_epoch_text(secs, t1),
        is_epoch_text(secs, t2),
    ensures
        t1 == t2,
{
    let (y1, m1, d1) = choose|y: nat, m: nat, d: nat|
        valid_date(y as int, m as int, d as int) && days_from_epoch(y as int, m as int, d as int)
            == secs / 86_400 && t1 == #[trigger] date_time_text(y, m, d, secs % 86_400);
    let (y2, m2, d2) = choose|y: nat, m: nat, d: nat|
        valid_date(y as int, m as int, d as int) && days_from_epoch(y as int, m as int, d as int)
            == secs / 86_400 && t2 == #[trigger] date_time_text(y, m, d, secs % 86_400);
    lemma_date_unique(y1 as int, m1 as int, d1 as int, y2 as int, m2 as int, d2 as int);
}

/// A date on or after the epoch is in 1970 or later.
proof fn lemma_year_from_epoch(y: int, m: int, d: int)
    requires
        valid_date(y, m, d),
        days_from_epoch(y, m, d) >= 0,
    ensures
        y >= 1970,
{
    if y < 1970 {
        lemma_year_order(y, m, d, 1970, 1, 1);
        assert(days_from_epoch(1970, 1, 1) == 0) by {
            lemma_days_before(1970);
        }
    }
}

/// Epoch seconds to `YYYY-MM-DDTHH:MM:SS` (no zone suffix).
pub fn format_epoch_secs(secs: u64) -> (r: String)
    ensures
        is_epoch_text(secs as nat, r@),
{
    let (y, m, d) = civil_from_days((secs / 86_400) as i64);
    let rem: u64 = secs % 86_400;
    proof {
        lemma_year_from_epoch(y as int, m as int, d as int);
    }
    let mut out: Vec<char> = Vec::new();
    push_padded(&mut out, y as u64, 4);
    push_str(&mut out, "-");
    push_padded(&mut out, m as u64, 2);
    push_str(&mut out, "-");
    push_padded(&mut out, d as u64, 2);
    push_str(&mut out, "T");
    push_padded(&mut out, rem / 3_600, 2);
    push_str(&mut out, ":");
    push_padded(&mut out, rem % 3_600 / 60, 2);
    push_str(&mut out, ":");
    push_padded(&mut out, rem % 60, 2);
    assert(out@ =~= date_time_text(y as nat, m as nat, d as nat, rem as nat));
    string_of_all(out.as_slice())
}

/// A moment, in nanoseconds since the epoch, as `YYYY-MM-DDTHH:MM:SSZ`. The
/// system clock counts whole seconds in an `i64`.
pub fn format_system_time(nanos: i128) -> (r: String)
    requires
        nanos / 1_000_000_000 <= i64::MAX,
    ensures
        if nanos < 0 {
            r@ == "before-epoch"@
        } else {
            exists|t: Seq<char>|
                is_epoch_text((nanos / 1_000_000_000) as nat, t) && r@ == #[trigger] (t + "Z"@)
        },
{
    if nanos < 0 {
        owned("before-epoch")
    } else {
        let t = format_epoch_secs((nanos / 1_000_000_000) as u64);
        let mut r = owned(t.as_str());
        r.append("Z");
        assert(r@ == t@ + "Z"@);
        r
    }
}

/// A moment with milliseconds, e.g. `2026-07-13T12:34:56.789Z`.
pub fn utc_timestamp(secs: u64, millis: u32) -> (r: String)
    ensures
        exists|t: Seq<char>|
            is_epoch_text(secs as nat, t) && r@ == #[trigger] (t + "."@) + decimal_padded(
                millis as nat,
                3,
            ) + "Z"@,
{
    let t = format_epoch_secs(secs);
    let mut out: Vec<char> = Vec::new();
    push_str(&mut out, t.as_str());
    push_str(&mut out, ".");
    push_padded(&mut out, millis as u64, 3);
    push_str(&mut out, "Z");
    assert(out@ =~= (t@ + "."@) + decimal_padded(millis as nat, 3) + "Z"@);
    string_of_all(out.as_slice())
}

// ---------------------------------------------------------------------------
// lines
// ---------------------------------------------------------------------------

/// One log record: timestamp, level, process, mode and message.
pub fn log_line(timestamp: &str, level: &str, pid: u32, mode: &str, message: &str) -> (r: String)
    ensures
        r@ == timestamp@ + " "@ + level@ + " [pid "@ + decimal(pid as nat) + " "@ + mode@ + "] "@
            + message@ + "\n"@,
{
    let mut r = owned(timestamp);
    r.append(" ");
    r.append(level);
    r.append(" [pid ");
    r.append(decimal_u64(pid as u64).as_str());
    r.append(" ");
    r.append(mode);
    r.append("] ");
    r.append(message);
    r.append("\n");
    r
}

/// How much is logged.
#[derive(Clone, Copy, Debug, PartialEq, Eq, Structural)]
pub enum Verbosity {
    Error,
    Warn,
    Info,
    Debug,
    Trace,
}

/// The verbosity that a value of `XCODE_DAP_LOG` asks for.
pub open spec fn verbosity_of(v: Seq<char>) -> Verbosity {
    if same_ignoring_case(v, "error"@) {
        Verbosity::Error
    } else if same_ignoring_case(v, "warn"@) {
        Verbosity::Warn
    } else if same_ignoring_case(v, "debug"@) {
        Verbosity::Debug
    } else if same_ignoring_case(v, "trace"@) {
        Verbosity::Trace
    } else {
        Verbosity::Info
    }
}

/// The place of a verbosity among all: the more is logged, the higher.
pub open spec fn amount(v: Verbosity) -> int {
    match v {
        Verbosity::Error => 0,
        Verbosity::Warn => 1,
        Verbosity::Info => 2,
        Verbosity::Debug => 3,
        Verbosity::Trace => 4,
    }
}

/// The verbosity that a session raises the log to: everything, where the session
/// asks for it, a log is written and not everything is in it yet. The verbosity is
/// never lowered.
pub fn raised_level(asked: bool, active: bool, current: Verbosity) -> (r: Option<Verbosity>)
    ensures
        r == if asked && active && current != Verbosity::Trace {
            Some(Verbosity::Trace)
        } else {
            None
        },
        r matches Some(v) ==> amount(v) > amount(current),
{
    if asked && active && current != Verbosity::Trace {
        Some(Verbosity::Trace)
    } else {
        None
    }
}

/// `XCODE_DAP_LOG` to a level (`error|warn|info|debug|trace`,
/// case-insensitive); unset or unrecognized gives `info`.
pub fn level_from_env(value: Option<&str>) -> (r: Verbosity)
    ensures
        r == match value {
            Some(v) => verbosity_of(v@),
            None => Verbosity::Info,
        },
{
    let v = match value {
        Some(v) => chars_of(v),
        None => return Verbosity::Info,
    };
    let s = v.as_slice();
    let n = v.len();
    assert(v@.subrange(0, v@.len() as int) == v@);
    if eq_ignore_case(s, 0, n, "error") {
        Verbosity::Error
    } else if eq_ignore_case(s, 0, n, "warn") {
        Verbosity::Warn
    } else if eq_ignore_case(s, 0, n, "debug") {
        Verbosity::Debug
    } else if eq_ignore_case(s, 0, n, "trace") {
        Verbosity::Trace
    } else {
        Verbosity::Info
    }
}

/// Words with a space in front of each.
pub open spec fn spaced(words: Seq<String>) -> Seq<char>
    decreases words.len(),
{
    if words.len() == 0 {
        Seq::empty()
    } else {
        spaced(words.drop_last()) + seq![' '] + words.last()@
    }
}

/// Render a command and its arguments for a log line.
pub fn describe_command(program: &str, args: &Vec<String>) -> (r: String)
    ensures
        r@ == program@ + spaced(args@),
{
    let mut r = owned(program);
    let mut i: usize = 0;
    assert(r@ =~= program@ + spaced(args@.take(0)));
    while i < args.len()
        invariant
            i <= args.len(),
            r@ == program@ + spaced(args@.take(i as int)),
        decreases args.len() - i,
    {
        assert(args@.take(i + 1).drop_last() =~= args@.take(i as int));
        r.push(' ');
        r.append(args[i].as_str());
        assert(r@ =~= program@ + spaced(args@.take(i + 1)));
        i = i + 1;
    }
    assert(args@.take(args@.len() as int) == args@);
    r
}

// ---------------------------------------------------------------------------
// truncation
// ---------------------------------------------------------------------------

/// Whether `k` characters are the longest prefix of `s` that takes at most
/// `max` bytes.
pub open spec fn fits_exactly(s: Seq<char>, k: int, max: int) -> bool {
    &&& 0 <= k <= s.len()
    &&& encode_utf8(s.take(k)).len() <= max
    &&& k < s.len() ==> encode_utf8(s.take(k + 1)).len() > max
}

/// Encoding a text with one more character adds that character's bytes.
proof fn lemma_encode_push(s: Seq<char>, c: char)
    ensures
        encode_utf8(s.push(c)) == encode_utf8(s) + encode_scalar(c as u32),
    decreases s.len(),
{
    reveal_with_fuel(encode_utf8, 2);
    let t = s.push(c);
    if s.len() == 0 {
        assert(t.drop_first() =~= Seq::<char>::empty());
        assert(encode_utf8(t) =~= encode_utf8(s) + encode_scalar(c as u32));
    } else {
        assert(t.drop_first() =~= s.drop_first().push(c));
        lemma_encode_push(s.drop_first(), c);
        assert(encode_utf8(t) =~= encode_utf8(s) + encode_scalar(c as u32));
    }
}

/// Number of bytes of a character in UTF-8.
fn byte_width(c: char) -> (r: usize)
    ensures
        r == encode_scalar(c as u32).len(),
{
    let v: u32 = c as u32;
    if v <= 0x7f {
        1
    } else if v <= 0x7ff {
        2
    } else if v <= 0xffff {
        3
    } else {
        4
    }
}

/// Truncate to at most `max` bytes on a character boundary, appending a
/// byte-count marker when cut.
pub fn truncate(s: &str, max: usize) -> (r: String)
    ensures
        if s.spec_bytes().len() <= max {
            r@ == s@
        } else {
            exists|k: int|
                fits_exactly(s@, k, max as int) && r@ == #[trigger] s@.take(k)
                    + "\u{2026} [truncated, "@ + decimal(s.spec_bytes().len()) + " bytes total]"@
        },
{
    let total: usize = s.as_bytes().len();
    if total <= max {
        return owned(s);
    }
    let cs = chars_of(s);
    let mut used: usize = 0;
    let mut k: usize = 0;
    assert(cs@.take(0) =~= Seq::<char>::empty());
    while k < cs.len()
        invariant_except_break
            k <= cs.len(),
            used <= max,
            used == encode_utf8(cs@.take(k as int)).len(),
            k == cs.len() ==> cs@.take(k as int) == cs@,
        invariant
            cs@ == s@,
            total == encode_utf8(s@).len(),
            total > max,
        ensures
            k < cs.len(),
            fits_exactly(s@, k as int, max as int),
        decreases cs.len() - k,
    {
        let w = byte_width(cs[k]);
        proof {
            lemma_encode_push(cs@.take(k as int), cs@[k as int]);
            assert(cs@.take(k as int).push(cs@[k as int]) =~= cs@.take(k + 1));
            if k + 1 == cs@.len() {
                assert(cs@.take(k + 1) =~= cs@);
            }
        }
        if w > max - used {
            break;
        }
        used = used + w;
        k = k + 1;
    }
    let mut out: Vec<char> = Vec::new();
    push_range(&mut out, cs.as_slice(), 0, k);
    push_str(&mut out, "\u{2026} [truncated, ");
    push_str(&mut out, decimal_u64(total as u64).as_str());
    push_str(&mut out, " bytes total]");
    assert(out@ =~= s@.take(k as int) + "\u{2026} [truncated, "@ + decimal(s.spec_bytes().len())
        + " bytes total]"@);
    string_of_all(out.as_slice())
}

// ---------------------------------------------------------------------------
// the log file
// ---------------------------------------------------------------------------

/// `<home>/logs/xcode-dap.log`, for the tool's home directory.
pub fn log_file_path(home: &str) -> (r: String)
    ensures
        r@ == joined(joined(home@, "logs"@), LOG_FILE_NAME@),
{
    let logs = join(home, "logs");
    join(logs.as_str(), LOG_FILE_NAME)
}

/// Whether a log file of this length is rotated to `.old` before it is opened.
pub fn oversized(len: u64) -> (r: bool)
    ensures
        r == (len > MAX_LOG_BYTES),
{
    len > MAX_LOG_BYTES
}

/// Log-file state captured before the file was opened or rotated.
#[derive(Clone, Copy, Debug)]
pub struct PreInitLogFile {
    pub existed: bool,
    pub len: u64,
    /// Modification time, in nanoseconds since the epoch.
    pub modified: Option<i128>,
}

/// The state of a log file from its metadata (length and modification time),
/// `None` where there is no file.
pub fn snapshot(meta: Option<(u64, Option<i128>)>) -> (r: PreInitLogFile)
    ensures
        match meta {
            Some((len, modified)) => r.existed && r.len == len && r.modified == modified,
            None => !r.existed && r.len == 0 && r.modified is None,
        },
{
    match meta {
        Some((len, modified)) => PreInitLogFile { existed: true, len, modified },
        None => PreInitLogFile { existed: false, len: 0, modified: None },
    }
}

/// What the logger has come to.
#[derive(Clone, Copy, Debug)]
pub struct LogState {
    /// Whether the file logger was installed.
    pub installed: bool,
    /// The log file as it was before this process touched it.
    pub before: Option<PreInitLogFile>,
}

/// Whether the file logger was installed: without it, raising the level only
/// makes work.
pub fn is_active(state: &LogState) -> (r: bool)
    ensures
        r == state.installed,
{
    state.installed
}

/// The log file as it was before this process touched it; `None` when it was
/// never looked at.
pub fn pre_init_log_file(state: &LogState) -> (r: Option<PreInitLogFile>)
    ensures
        r == state.before,
{
    state.before
}

} // verus!
