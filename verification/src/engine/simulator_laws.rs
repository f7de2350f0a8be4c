//! Which simulator is taken, how an app is started on it and found again, and what is
//! shown of its output.

use crate::engine::consoles::complete_lines;
use crate::engine::consoles::console_text;
use crate::engine::consoles::newline_from;
use crate::engine::consoles::oslog_arguments;
use crate::engine::consoles::own_logging;
use crate::engine::consoles::unfinished;
use crate::engine::simctl::answers;
use crate::engine::simctl::app_pid;
use crate::engine::simctl::boot_step;
use crate::engine::simctl::device_in;
use crate::engine::simctl::device_line;
use crate::engine::simctl::device_lines;
use crate::engine::simctl::devices_in;
use crate::engine::simctl::first_pid;
use crate::engine::simctl::first_two;
use crate::engine::simctl::is_app_pid;
use crate::engine::simctl::is_device_choice;
use crate::engine::simctl::is_new_pid;
use crate::engine::simctl::is_pick;
use crate::engine::simctl::is_refusal;
use crate::engine::simctl::launch_words;
use crate::engine::simctl::listed;
use crate::engine::simctl::no_new_pid;
use crate::engine::simctl::none_text;
use crate::engine::simctl::others_text;
use crate::engine::simctl::pid_in_line;
use crate::engine::simctl::runtime_wanted;
use crate::engine::simctl::version_of;
use crate::engine::simctl::BootStep;
use crate::engine::simctl::DeviceView;
use crate::json::JsonView;
use crate::message_laws::lemma_inside_stays;
use crate::message_laws::lemma_listed_inside;
use crate::number::decimal;
use crate::number::is_digit;
use crate::number::lemma_decimal_round_trip;
use crate::number::parsed_signed;
use crate::order::in_order;
use crate::order::text_rank;
use crate::text::char_from;
use crate::text::has_infix;
use crate::text::has_prefix;
use crate::text::has_suffix;
use crate::text::is_space;
use crate::text::joined_with;
use crate::text::lemma_char_from;
use crate::text::lemma_trim_end_bound;
use crate::text::lemma_trim_end_exact;
use crate::text::lemma_trim_padded;
use crate::text::lossy_text;
use crate::text::same_ignoring_case;
use crate::text::trim_start_by;
use crate::text::trimmed;
use crate::text::with_char;
use vstd::prelude::*;

verus! {

// ---------------------------------------------------------------------------
// devices
// ---------------------------------------------------------------------------

/// A text is the same as itself in any case.
proof fn lemma_same_as_itself(s: Seq<char>)
    ensures
        same_ignoring_case(s, s),
{
}

/// A device is found under its udid, under its name and, once booted, under `booted`;
/// without a query every iPhone is, and nothing else.
pub proof fn lemma_queries(d: DeviceView, q: Seq<char>)
    ensures
        answers(d, Some(d.udid)),
        answers(d, Some(d.name)),
        d.state == "Booted"@ ==> answers(d, Some("booted"@)),
        answers(d, None) <==> has_prefix(d.name, "iPhone"@),
        answers(d, Some(q)) <==> same_ignoring_case(q, d.udid) || same_ignoring_case(q, d.name) || (
        same_ignoring_case(q, "booted"@) && d.state == "Booted"@),
{
    lemma_same_as_itself(d.udid);
    lemma_same_as_itself(d.name);
    lemma_same_as_itself("booted"@);
}

/// Of the devices that answer a query, a booted one is taken before any that is not; among
/// those that are alike in this the newest runtime is taken; and among those of one runtime
/// the name decides: the first in order where one was asked for, else the last, which is
/// the newest model. Nothing else is taken.
pub proof fn lemma_pick_prefers(
    ds: Seq<DeviceView>,
    query: Option<Seq<char>>,
    k: int,
    j: int,
)
    requires
        is_pick(ds, query, k),
        0 <= j < ds.len(),
        answers(ds[j], query),
    ensures
        0 <= k < ds.len(),
        answers(ds[k], query),
        ds[j].state == "Booted"@ ==> ds[k].state == "Booted"@,
        (ds[j].state == "Booted"@) == (ds[k].state == "Booted"@) ==> ds[k].os.0 > ds[j].os.0 || (
        ds[k].os.0 == ds[j].os.0 && ds[k].os.1 >= ds[j].os.1),
        (ds[j].state == "Booted"@) == (ds[k].state == "Booted"@) && ds[j].os == ds[k].os && query
            is Some ==> !(text_rank(ds[j].name, ds[k].name) is Before),
        (ds[j].state == "Booted"@) == (ds[k].state == "Booted"@) && ds[j].os == ds[k].os && query
            is None ==> !(text_rank(ds[k].name, ds[j].name) is Before),
{
}

/// A device is listed where it is available and has a udid, a name and a state, and then
/// with these.
pub proof fn lemma_device_reads(d: JsonView, os: (u32, u32))
    ensures
        device_in(d, os) is Some <==> d.get("isAvailable"@) == Some(JsonView::Bool(true))
            && d.str_at("udid"@) is Some && d.str_at("name"@) is Some && d.str_at("state"@) is Some,
        device_in(d, os) matches Some(v) ==> Some(v.udid) == d.str_at("udid"@) && Some(v.name)
            == d.str_at("name"@) && Some(v.state) == d.str_at("state"@) && v.os == os,
{
}

/// Only iOS runtimes are looked at, and where a version is asked for only those that end in
/// it.
pub proof fn lemma_runtimes_wanted(runtime: Seq<char>, os: Option<Seq<char>>)
    ensures
        runtime_wanted(runtime, os) ==> has_infix(runtime, "SimRuntime.iOS"@),
        os is None ==> (runtime_wanted(runtime, os) <==> has_infix(runtime, "SimRuntime.iOS"@)),
        os matches Some(v) ==> (runtime_wanted(runtime, os) <==> has_infix(
            runtime,
            "SimRuntime.iOS"@,
        ) && has_suffix(runtime, "iOS-"@ + with_char(v, '.', '-'))),
{
}

/// The devices of one runtime, in order: each available entry, once.
proof fn lemma_devices_in(entries: Seq<JsonView>, os: (u32, u32), n: int)
    requires
        0 <= n <= entries.len(),
    ensures
        forall|i: int|
            0 <= i < n && device_in(#[trigger] entries[i], os) is Some ==> devices_in(
                entries,
                os,
                n,
            ).contains(device_in(entries[i], os)->0),
        forall|k: int|
            0 <= k < devices_in(entries, os, n).len() ==> exists|i: int|
                0 <= i < n && device_in(#[trigger] entries[i], os) == Some(
                    #[trigger] devices_in(entries, os, n)[k],
                ),
    decreases n,
{
    if n > 0 {
        lemma_devices_in(entries, os, n - 1);
        let before = devices_in(entries, os, n - 1);
        let now = devices_in(entries, os, n);
        assert forall|i: int| 0 <= i < n && device_in(#[trigger] entries[i], os) is Some implies now.contains(
            device_in(entries[i], os)->0,
        ) by {
            let d = device_in(entries[i], os)->0;
            if i == n - 1 {
                assert(now[before.len() as int] == d);
            } else {
                assert(before.contains(d));
                let at = choose|at: int| 0 <= at < before.len() && before[at] == d;
                assert(now[at] == d);
            }
        }
        assert forall|k: int| 0 <= k < now.len() implies exists|i: int|
            0 <= i < n && device_in(#[trigger] entries[i], os) == Some(#[trigger] now[k]) by {
            if k < before.len() {
                assert(now[k] == before[k]);
                let i = choose|i: int|
                    0 <= i < n - 1 && device_in(#[trigger] entries[i], os) == Some(before[k]);
                assert(device_in(entries[i], os) == Some(now[k]));
            } else {
                assert(device_in(entries[n - 1], os) == Some(now[k]));
            }
        }
    }
}

/// Whether an entry of the list is a device of a runtime that is wanted.
pub open spec fn offers(
    runtimes: Seq<(Seq<char>, JsonView)>,
    os: Option<Seq<char>>,
    r: int,
    i: int,
    d: DeviceView,
) -> bool {
    &&& 0 <= r < runtimes.len()
    &&& runtime_wanted(runtimes[r].0, os)
    &&& runtimes[r].1 matches JsonView::Array(a) && 0 <= i < a.len() && device_in(
        a[i],
        version_of(runtimes[r].0),
    ) == Some(d)
}

/// Whether one of the first `n` runtimes offers a device.
pub open spec fn offered(
    runtimes: Seq<(Seq<char>, JsonView)>,
    os: Option<Seq<char>>,
    n: int,
    d: DeviceView,
) -> bool {
    exists|r: int, i: int| r < n && #[trigger] offers(runtimes, os, r, i, d)
}

/// Every device that a wanted runtime offers is listed, and nothing else is.
pub proof fn lemma_listed(
    runtimes: Seq<(Seq<char>, JsonView)>,
    os: Option<Seq<char>>,
    n: int,
)
    requires
        0 <= n <= runtimes.len(),
    ensures
        forall|r: int, i: int, d: DeviceView|
            #[trigger] offers(runtimes, os, r, i, d) && r < n ==> listed(runtimes, os, n).contains(
                d,
            ),
        forall|k: int|
            0 <= k < listed(runtimes, os, n).len() ==> offered(
                runtimes,
                os,
                n,
                #[trigger] listed(runtimes, os, n)[k],
            ),
    decreases n,
{
    if n > 0 {
        lemma_listed(runtimes, os, n - 1);
        let before = listed(runtimes, os, n - 1);
        let now = listed(runtimes, os, n);
        let (runtime, entries) = runtimes[n - 1];
        let v = version_of(runtime);
        if let JsonView::Array(a) = entries {
            lemma_devices_in(a, v, a.len() as int);
        }
        assert forall|r: int, i: int, d: DeviceView|
            #[trigger] offers(runtimes, os, r, i, d) && r < n implies now.contains(d) by {
            if r < n - 1 {
                assert(before.contains(d));
                let at = choose|at: int| 0 <= at < before.len() && before[at] == d;
                assert(now[at] == d);
            } else {
                let a = entries->Array_0;
                let more = devices_in(a, v, a.len() as int);
                assert(device_in(a[i], v) is Some);
                assert(more.contains(d));
                let at = choose|at: int| 0 <= at < more.len() && more[at] == d;
                assert(now[before.len() + at] == d);
            }
        }
        assert forall|k: int| 0 <= k < now.len() implies offered(
            runtimes,
            os,
            n,
            #[trigger] now[k],
        ) by {
            if k < before.len() {
                assert(now[k] == before[k]);
                assert(offered(runtimes, os, n - 1, before[k]));
                let (r, i) = choose|r: int, i: int|
                    r < n - 1 && offers(runtimes, os, r, i, before[k]);
                assert(offers(runtimes, os, r, i, now[k]));
            } else {
                let a = entries->Array_0;
                let more = devices_in(a, v, a.len() as int);
                assert(now[k] == more[k - before.len()]);
                let i = choose|i: int|
                    0 <= i < a.len() && device_in(#[trigger] a[i], v) == Some(
                        more[k - before.len()],
                    );
                assert(offers(runtimes, os, n - 1, i, now[k]));
            }
        }
    }
}

/// The version of a runtime is its first two numbers, the first of them the major one.
pub proof fn lemma_version_numbers(ns: Seq<u32>)
    ensures
        ns.len() >= 2 ==> first_two(ns) == (ns[0], ns[1]),
        ns.len() == 1 ==> first_two(ns) == (ns[0], 0u32),
        ns.len() == 0 ==> first_two(ns) == (0u32, 0u32),
{
}

/// A boot that succeeded, or that was not needed, is gone on from; one that came while the
/// simulator was shutting down is tried again for half a minute; any other has failed.
pub proof fn lemma_boots(stderr: Seq<char>, elapsed_ms: u64)
    ensures
        boot_step(true, stderr, elapsed_ms) == BootStep::Proceed,
        has_infix(stderr, "Unable to boot device in current state: Booted"@) ==> boot_step(
            false,
            stderr,
            elapsed_ms,
        ) == BootStep::Proceed,
        has_infix(stderr, "Unable to boot device in current state: Booting"@) ==> boot_step(
            false,
            stderr,
            elapsed_ms,
        ) == BootStep::Proceed,
        boot_step(false, stderr, elapsed_ms) == BootStep::Retry ==> has_infix(
            stderr,
            "Unable to boot device in current state: Shutting Down"@,
        ) && elapsed_ms < 30_000,
        has_infix(stderr, "Unable to boot device in current state: Shutting Down"@) && elapsed_ms
            < 30_000 ==> boot_step(false, stderr, elapsed_ms) != BootStep::Fail,
        boot_step(false, stderr, elapsed_ms) == BootStep::Proceed ==> has_infix(
            stderr,
            "Unable to boot device in current state: Booted"@,
        ) || has_infix(stderr, "Unable to boot device in current state: Booting"@),
{
}

// ---------------------------------------------------------------------------
// launching
// ---------------------------------------------------------------------------

/// An app is launched on a simulator by its bundle id, in this order and at the end, with
/// its two streams going to their files; a running one is ended first; and it waits for the
/// debugger exactly where that is asked for.
pub proof fn lemma_launch_command(
    udid: Seq<char>,
    bundle_id: Seq<char>,
    wait: bool,
    stdout_file: Seq<char>,
    stderr_file: Seq<char>,
)
    ensures
        ({
            let a = launch_words(udid, bundle_id, wait, stdout_file, stderr_file);
            let n = a.len() as int;
            &&& n == if wait {
                8int
            } else {
                7
            }
            &&& a[0] == "simctl"@
            &&& a[1] == "launch"@
            &&& a[2] == "--terminate-running-process"@
            &&& wait <==> a[3] == "--wait-for-debugger"@
            &&& a[n - 4] == "--stdout="@ + stdout_file
            &&& a[n - 3] == "--stderr="@ + stderr_file
            &&& a[n - 2] == udid
            &&& a[n - 1] == bundle_id
        }),
{
    reveal_strlit("--stdout=");
    reveal_strlit("--wait-for-debugger");
    let a = launch_words(udid, bundle_id, wait, stdout_file, stderr_file);
    if !wait {
        assert(a[3] == "--stdout="@ + stdout_file);
        assert(a[3][2] == 's');
        assert("--wait-for-debugger"@[2] == 'w');
    }
}

/// A number without a sign reads as itself.
proof fn lemma_reads_number(n: nat, max: int)
    requires
        n <= max,
    ensures
        trimmed(decimal(n)) == decimal(n),
        parsed_signed(decimal(n), max) == Some(n as int),
        forall|i: int| 0 <= i < decimal(n).len() ==> #[trigger] decimal(n)[i] != ' ',
{
    lemma_decimal_round_trip(n);
    let d = decimal(n);
    assert(is_digit(d[0]) && is_digit(d[d.len() - 1]));
    let none = Seq::<char>::empty();
    lemma_trim_padded(none, d, none);
    assert(none + d + none =~= d);
    assert forall|i: int| 0 <= i < d.len() implies #[trigger] d[i] != ' ' by {
        assert(is_digit(d[i]));
    }
}

/// The pid that a launch prints behind the bundle id is the pid of the app; a line that
/// does not start with the bundle id and a colon gives none.
pub proof fn lemma_launch_pid(bundle_id: Seq<char>, pid: nat, line: Seq<char>)
    requires
        pid <= i64::MAX,
        bundle_id.len() > 0,
        !is_space(bundle_id[0]),
    ensures
        pid_in_line(bundle_id + ": "@ + decimal(pid), bundle_id) == Some(pid as int),
        pid_in_line(line, bundle_id) is Some ==> has_prefix(trimmed(line), bundle_id.push(':')),
{
    reveal_strlit(": ");
    lemma_reads_number(pid, i64::MAX as int);
    lemma_decimal_round_trip(pid);
    let d = decimal(pid);
    let l = bundle_id + ": "@ + d;
    let none = Seq::<char>::empty();
    assert(is_digit(d[d.len() - 1]));
    assert(l[0] == bundle_id[0]);
    assert(l.last() == d[d.len() - 1]);
    lemma_trim_padded(none, l, none);
    assert(none + l + none =~= l);
    let head = bundle_id.push(':');
    let n = head.len() as int;
    assert(l.subrange(0, n) =~= head);
    let rest = l.skip(n);
    assert(rest =~= seq![' '] + d + none);
    assert(is_digit(d[0]));
    lemma_trim_padded(seq![' '], d, none);
}

/// The pid of a launch is in the first line that gives one.
pub proof fn lemma_first_pid(ls: Seq<Seq<char>>, bundle_id: Seq<char>, from: int)
    requires
        0 <= from,
    ensures
        match first_pid(ls, bundle_id, from) {
            Some(p) => exists|i: int|
                from <= i < ls.len() && #[trigger] pid_in_line(ls[i], bundle_id) == Some(p)
                    && forall|j: int|
                    from <= j < i ==> pid_in_line(#[trigger] ls[j], bundle_id) is None,
            None => forall|j: int|
                from <= j < ls.len() ==> pid_in_line(#[trigger] ls[j], bundle_id) is None,
        },
    decreases ls.len() - from,
{
    if from < ls.len() && pid_in_line(ls[from], bundle_id) is None {
        lemma_first_pid(ls, bundle_id, from + 1);
        if let Some(p) = first_pid(ls, bundle_id, from + 1) {
            let i = choose|i: int|
                from + 1 <= i < ls.len() && #[trigger] pid_in_line(ls[i], bundle_id) == Some(p)
                    && forall|j: int|
                    from + 1 <= j < i ==> pid_in_line(#[trigger] ls[j], bundle_id) is None;
            assert(pid_in_line(ls[i], bundle_id) == Some(p));
        }
    }
}

/// A process is the app's exactly where its executable lies in the app's bundle on that
/// simulator; its pid is what stands in front of the path.
pub proof fn lemma_app_process(
    pid: nat,
    path: Seq<char>,
    udid: Seq<char>,
    app_name: Seq<char>,
)
    requires
        pid <= i64::MAX,
    ensures
        app_pid(decimal(pid) + " "@ + path, udid, app_name) == if has_infix(
            path,
            "CoreSimulator/Devices/"@ + udid + "/"@,
        ) && has_infix(path, "/"@ + app_name + ".app/"@) {
            Some(pid as int)
        } else {
            None
        },
{
    reveal_strlit(" ");
    lemma_reads_number(pid, i64::MAX as int);
    lemma_decimal_round_trip(pid);
    let d = decimal(pid);
    let l = d + " "@ + path;
    assert(is_digit(d[0]));
    assert(l[0] == d[0]);
    assert(trim_start_by(l, |c: char| is_space(c)) == l);
    lemma_char_from(l, ' ', 0);
    let n = d.len() as int;
    assert(l[n] == ' ');
    let i = char_from(l, ' ', 0)->0;
    if i < n {
        assert(l[i] == d[i]);
    }
    assert(i == n);
    assert(l.skip(n + 1) =~= path);
    assert(l.take(n) =~= d);
}

/// The process of a launch is one that was not there before, and the newest of these.
pub proof fn lemma_new_process(now: Seq<i64>, before: Seq<i64>, p: i64, q: i64)
    ensures
        is_new_pid(now, before, p) ==> now.contains(p) && !before.contains(p),
        is_new_pid(now, before, p) && now.contains(q) && !before.contains(q) ==> q <= p,
        no_new_pid(now, before) && now.contains(q) ==> before.contains(q),
{
}

// ---------------------------------------------------------------------------
// consoles
// ---------------------------------------------------------------------------

/// Lines, each with its line break behind it.
pub open spec fn ended_lines(lines: Seq<Seq<u8>>) -> Seq<u8>
    decreases lines.len(),
{
    if lines.len() == 0 {
        Seq::empty()
    } else {
        lines[0].push(0x0a) + ended_lines(lines.drop_first())
    }
}

/// Where a line break is found there is one.
proof fn lemma_break_found(b: Seq<u8>, i: int)
    requires
        0 <= i,
    ensures
        match newline_from(b, i) {
            Some(k) => i <= k < b.len() && b[k] == 0x0a && forall|j: int|
                i <= j < k ==> #[trigger] b[j] != 0x0a,
            None => forall|j: int| i <= j < b.len() ==> #[trigger] b[j] != 0x0a,
        },
    decreases b.len() - i,
{
    if i < b.len() && b[i] != 0x0a {
        lemma_break_found(b, i + 1);
    }
}

/// Nothing of the output is lost or doubled: the lines that are complete, each with its
/// line break, and what is left over are what came; and no line holds a line break.
pub proof fn lemma_output_in_lines(b: Seq<u8>, i: int)
    requires
        0 <= i <= b.len(),
    ensures
        ended_lines(complete_lines(b, i)) + unfinished(b, i) == b.skip(i),
        forall|k: int| 0 <= k < unfinished(b, i).len() ==> #[trigger] unfinished(b, i)[k] != 0x0a,
        forall|n: int, k: int|
            0 <= n < complete_lines(b, i).len() && 0 <= k < complete_lines(b, i)[n].len()
                ==> #[trigger] complete_lines(b, i)[n][k] != 0x0a,
    decreases b.len() - i,
{
    lemma_break_found(b, i);
    match newline_from(b, i) {
        Some(k) => {
            lemma_output_in_lines(b, k + 1);
            let rest = complete_lines(b, k + 1);
            let all = complete_lines(b, i);
            assert(all =~= seq![b.subrange(i, k)] + rest);
            assert(all.drop_first() =~= rest);
            assert(all[0] == b.subrange(i, k));
            assert(b.subrange(i, k).push(0x0a) + b.skip(k + 1) =~= b.skip(i));
            assert(ended_lines(all) + unfinished(b, i) =~= b.subrange(i, k).push(0x0a) + (
            ended_lines(rest) + unfinished(b, k + 1)));
            assert forall|n: int, j: int|
                0 <= n < all.len() && 0 <= j < all[n].len() implies #[trigger] all[n][j]
                != 0x0a by {
                if n > 0 {
                    assert(all[n] == rest[n - 1]);
                    assert(rest[n - 1][j] != 0x0a);
                } else {
                    assert(all[0][j] == b[i + j]);
                }
            }
        },
        None => {
            let u = unfinished(b, i);
            assert(complete_lines(b, i) =~= Seq::<Seq<u8>>::empty());
            assert(ended_lines(complete_lines(b, i)) + u =~= b.skip(i));
            assert forall|k: int| 0 <= k < u.len() implies #[trigger] u[k] != 0x0a by {
                assert(u[k] == b[i + k]);
            }
        },
    }
}

/// A line is shown as it came, without the carriage returns at its end.
pub proof fn lemma_console_text(line: Seq<u8>)
    ensures
        ({
            let all = lossy_text(line);
            let t = console_text(line);
            &&& t.len() <= all.len()
            &&& t == all.take(t.len() as int)
            &&& t.len() > 0 ==> t.last() != '\r'
            &&& forall|k: int| t.len() <= k < all.len() ==> #[trigger] all[k] == '\r'
        }),
{
    let all = lossy_text(line);
    let p = |c: char| c == '\r';
    let n = lemma_trim_end_bound(all, p);
    lemma_trim_end_exact(all, n, p);
    assert forall|k: int| n <= k < all.len() implies #[trigger] all[k] == '\r' by {
        assert(p(all[k]));
    }
    if n > 0 {
        assert(!p(all[n - 1]));
    }
}

/// The system log is streamed from the simulator that the app runs on, by its predicate.
pub proof fn lemma_oslog_command(udid: Seq<char>, predicate: Seq<char>)
    ensures
        ({
            let a = oslog_arguments(udid, predicate);
            &&& a.len() == 13
            &&& a.take(2) == seq!["simctl"@, "spawn"@]
            &&& a[2] == udid
            &&& a.subrange(3, 12) == seq![
                "log"@,
                "stream"@,
                "--style"@,
                "compact"@,
                "--color"@,
                "none"@,
                "--level"@,
                "debug"@,
                "--predicate"@,
            ]
            &&& a[12] == predicate
        }),
{
    let a = oslog_arguments(udid, predicate);
    assert(a.take(2) =~= seq!["simctl"@, "spawn"@]);
    assert(a.subrange(3, 12) =~= seq![
        "log"@,
        "stream"@,
        "--style"@,
        "compact"@,
        "--color"@,
        "none"@,
        "--level"@,
        "debug"@,
        "--predicate"@,
    ]);
}

/// By default the log is that of the app: what it logs under its bundle id, and what its
/// own bundle logs.
pub proof fn lemma_own_logging(bundle_id: Seq<char>, app_name: Seq<char>)
    ensures
        own_logging(bundle_id, app_name) == "subsystem == \""@ + bundle_id
            + "\" OR senderImagePath CONTAINS \"/"@ + app_name + ".app/\""@,
{
}

/// The simulator that is taken is one of the listing that answers what was asked for; none is
/// taken only where none answers, or where the listing cannot be read.
pub proof fn lemma_device_taken(
    r: Result<String, String>,
    v: JsonView,
    ms: Seq<(Seq<char>, JsonView)>,
    query: Option<Seq<char>>,
    os: Option<Seq<char>>,
    j: int,
)
    requires
        is_device_choice(r, v, query, os),
        v.get("devices"@) == Some(JsonView::Object(ms)),
    ensures
        ({
            let ds = listed(ms, os, ms.len() as int);
            &&& r matches Ok(udid) ==> exists|k: int|
                0 <= k < ds.len() && #[trigger] ds[k].udid == udid@ && answers(ds[k], query)
            &&& 0 <= j < ds.len() && answers(ds[j], query) ==> r is Ok
        }),
{
    let ds = listed(ms, os, ms.len() as int);
    if let Ok(udid) = r {
        let k = choose|k: int| #[trigger] is_pick(ds, query, k) && udid@ == ds[k].udid;
        assert(ds[k].udid == udid@);
    }
}

/// A listing without devices is refused.
pub proof fn lemma_listing_refused(
    r: Result<String, String>,
    v: JsonView,
    query: Option<Seq<char>>,
    os: Option<Seq<char>>,
)
    requires
        is_device_choice(r, v, query, os),
        v.get("devices"@) is None,
    ensures
        r is Err,
{
}

/// A device answers to its udid and to its name in any case of their letters, a booted one
/// also to `booted`, and an iPhone where nothing is asked for.
pub proof fn lemma_device_answers(d: DeviceView, q: Seq<char>)
    ensures
        same_ignoring_case(q, d.udid) || same_ignoring_case(q, d.name) ==> answers(d, Some(q)),
        same_ignoring_case(q, "booted"@) && d.state == "Booted"@ ==> answers(d, Some(q)),
        !same_ignoring_case(q, d.udid) && !same_ignoring_case(q, d.name) && (d.state != "Booted"@
            || !same_ignoring_case(q, "booted"@)) ==> !answers(d, Some(q)),
        answers(d, None) <==> has_prefix(d.name, "iPhone"@),
{
}

/// A pid is one of the app where the line of a process says so.
pub proof fn lemma_app_pids(ls: Seq<Seq<char>>, udid: Seq<char>, app_name: Seq<char>, i: int, p: int)
    requires
        0 <= i < ls.len(),
    ensures
        app_pid(ls[i], udid, app_name) == Some(p) ==> is_app_pid(ls, udid, app_name, p),
        (forall|k: int| 0 <= k < ls.len() ==> app_pid(#[trigger] ls[k], udid, app_name) != Some(p))
            ==> !is_app_pid(ls, udid, app_name, p),
{
}

proof fn lemma_same_lines(a: Seq<Seq<char>>, b: Seq<Seq<char>>, x: Seq<char>)
    requires
        a.to_multiset() == b.to_multiset(),
        b.contains(x),
    ensures
        a.contains(x),
{
    a.to_multiset_ensures();
    b.to_multiset_ensures();
    assert(b.to_multiset().count(x) > 0);
    assert(a.to_multiset().count(x) > 0);
}

proof fn lemma_lines_told(
    query: Option<Seq<char>>,
    os: Option<Seq<char>>,
    lines: Seq<Seq<char>>,
    at: int,
)
    requires
        0 <= at < lines.len(),
    ensures
        has_infix(others_text(query, os, lines), lines[at]),
{
    lemma_listed_inside(lines, "\n  "@, at);
    lemma_inside_stays(
        joined_with(lines, "\n  "@),
        lines[at],
        none_text(query, os) + "; available devices:\n  "@,
        "\nhint: pass --device \"<name or udid>\" (or set \"device\" in .zed/debug.json)"@,
    );
}

/// Where no simulator answers, every simulator there is is listed.
pub proof fn lemma_refusal_lists(
    t: Seq<char>,
    ds: Seq<DeviceView>,
    query: Option<Seq<char>>,
    os: Option<Seq<char>>,
    k: int,
)
    requires
        is_refusal(t, ds, query, os),
        0 <= k < ds.len(),
    ensures
        has_infix(t, device_line(ds[k])),
{
    let lines = choose|lines: Seq<Seq<char>>|
        in_order(lines) && lines.to_multiset() == device_lines(ds).to_multiset() && t
            == #[trigger] others_text(query, os, lines);
    let line = device_line(ds[k]);
    assert(device_lines(ds)[k] == line);
    lemma_same_lines(lines, device_lines(ds), line);
    let at = choose|at: int| 0 <= at < lines.len() && lines[at] == line;
    lemma_lines_told(query, os, lines, at);
}

} // verus!
