//! The calendar of the log's times and the levels of what is logged.

use crate::text::ascii_lower;
use crate::text::same_ignoring_case;
use crate::util::logging::amount;
use crate::util::logging::days_before_month;
use crate::util::logging::days_from_epoch;
use crate::util::logging::lemma_leap_step;
use crate::util::logging::month_days;
use crate::util::logging::spaced;
use crate::util::logging::valid_date;
use crate::util::logging::verbosity_of;
use crate::util::logging::Verbosity;
use vstd::prelude::*;

verus! {

/// The days of a month follow each other, the first of a month follows the last of the month
/// before, and the first of January the last of December.
pub proof fn lemma_days_follow(y: int, m: int, d: int)
    requires
        valid_date(y, m, d),
    ensures
        d < month_days(y, m) ==> days_from_epoch(y, m, d + 1) == days_from_epoch(y, m, d) + 1,
        d == month_days(y, m) && m < 12 ==> days_from_epoch(y, m + 1, 1) == days_from_epoch(y, m, d)
            + 1,
        d == month_days(y, m) && m == 12 ==> days_from_epoch(y + 1, 1, 1) == days_from_epoch(
            y,
            m,
            d,
        ) + 1,
        days_from_epoch(1970, 1, 1) == 0,
{
    reveal_with_fuel(days_before_month, 13);
    lemma_leap_step(y);
}

/// A month has the days that the calendar gives it; every fourth year has one day more, but
/// for three centuries in four.
pub proof fn lemma_month_lengths(y: int)
    ensures
        month_days(y, 1) == 31 && month_days(y, 3) == 31 && month_days(y, 4) == 30 && month_days(
            y,
            5,
        ) == 31 && month_days(y, 6) == 30 && month_days(y, 7) == 31 && month_days(y, 8) == 31
            && month_days(y, 9) == 30 && month_days(y, 10) == 31 && month_days(y, 11) == 30
            && month_days(y, 12) == 31,
        y % 400 == 0 ==> month_days(y, 2) == 29,
        y % 100 == 0 && y % 400 != 0 ==> month_days(y, 2) == 28,
        y % 4 == 0 && y % 100 != 0 ==> month_days(y, 2) == 29,
        y % 4 != 0 ==> month_days(y, 2) == 28,
{
    if y % 400 == 0 {
        assert(y % 4 == 0);
    }
}

/// A level is named in any case of its letters, and what names none is the usual one.
pub proof fn lemma_level_names(v: Seq<char>)
    ensures
        same_ignoring_case(v, "error"@) ==> verbosity_of(v) == Verbosity::Error,
        same_ignoring_case(v, "warn"@) ==> verbosity_of(v) == Verbosity::Warn,
        same_ignoring_case(v, "info"@) ==> verbosity_of(v) == Verbosity::Info,
        same_ignoring_case(v, "debug"@) ==> verbosity_of(v) == Verbosity::Debug,
        same_ignoring_case(v, "trace"@) ==> verbosity_of(v) == Verbosity::Trace,
        !same_ignoring_case(v, "error"@) && !same_ignoring_case(v, "warn"@) && !same_ignoring_case(
            v,
            "debug"@,
        ) && !same_ignoring_case(v, "trace"@) ==> verbosity_of(v) == Verbosity::Info,
{
    reveal_strlit("error");
    reveal_strlit("warn");
    reveal_strlit("info");
    reveal_strlit("debug");
    reveal_strlit("trace");
    if v.len() > 0 {
        let c = ascii_lower(v[0]);
        assert(same_ignoring_case(v, "error"@) ==> c == 'e');
        assert(same_ignoring_case(v, "warn"@) ==> c == 'w');
        assert(same_ignoring_case(v, "info"@) ==> c == 'i');
        assert(same_ignoring_case(v, "debug"@) ==> c == 'd');
        assert(same_ignoring_case(v, "trace"@) ==> c == 't');
    }
}

/// Each level logs more than the one before it.
pub proof fn lemma_levels_rise()
    ensures
        amount(Verbosity::Error) < amount(Verbosity::Warn) < amount(Verbosity::Info) < amount(
            Verbosity::Debug,
        ) < amount(Verbosity::Trace),
{
}

/// The words of a command are told in their order, each behind a space.
pub proof fn lemma_words_spaced(words: Seq<String>, word: String)
    ensures
        spaced(words.push(word)) == spaced(words) + seq![' '] + word@,
        spaced(Seq::<String>::empty()) == Seq::<char>::empty(),
{
    assert(words.push(word).drop_last() =~= words);
    assert(words.push(word).last() == word);
}

} // verus!
