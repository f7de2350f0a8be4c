//! Per-simulator pidfile (`<home>/run/sim-<udid>.pid`): whom a new proxy
//! instance asks to stop, and who may remove the file.

use crate::number::decimal;
use crate::number::decimal_u64;
use crate::number::digits_upto;
use crate::number::is_digit;
use crate::number::lemma_decimal_round_trip;
use crate::number::parse_signed;
use crate::number::parse_unsigned;
use crate::number::parsed_signed;
use crate::number::parsed_unsigned;
use crate::text::chars_of;
use crate::text::lemma_trim_padded;
use crate::text::opt_str_view;
use crate::text::owned;
use crate::text::str_eq;
use crate::text::trim_range;
use crate::text::trimmed;
use crate::util::paths::file_name;
use crate::util::paths::file_name_of;
use crate::util::paths::join;
use crate::util::paths::joined;
use vstd::prelude::*;

verus! {

/// Path of the pidfile for a simulator, under the tool's home directory.
pub open spec fn pidfile_of(home: Seq<char>, udid: Seq<char>) -> Seq<char> {
    joined(joined(home, "run"@), "sim-"@ + udid + ".pid"@)
}

/// Path of the pidfile for a simulator, under the tool's home directory.
pub fn pidfile_path(home: &str, udid: &str) -> (r: String)
    ensures
        r@ == pidfile_of(home@, udid@),
{
    let mut name = owned("sim-");
    name.append(udid);
    name.append(".pid");
    let run = join(home, "run");
    join(run.as_str(), name.as_str())
}

/// The pid that a pidfile's text denotes.
pub open spec fn pid_in(text: Seq<char>) -> Option<int> {
    parsed_signed(trimmed(text), i32::MAX as int)
}

/// A pid as the system calls take it: the 32 bits read as signed.
pub open spec fn as_signed(pid: u32) -> int {
    if pid <= i32::MAX {
        pid as int
    } else {
        pid as int - 0x1_0000_0000
    }
}

/// The pid that a pidfile's text denotes.
pub fn read_pid(text: &str) -> (r: Option<i32>)
    ensures
        match r {
            Some(p) => pid_in(text@) == Some(p as int),
            None => pid_in(text@) is None,
        },
{
    let cs = chars_of(text);
    let (a, b) = trim_range(cs.as_slice(), 0, cs.len());
    assert(cs@.subrange(0, cs@.len() as int) == text@);
    match parse_signed(cs.as_slice(), a, b, i32::MAX as i64) {
        Some(n) => Some(n as i32),
        None => None,
    }
}

/// A pid as the system calls take it.
fn signed(pid: u32) -> (r: i32)
    ensures
        r == as_signed(pid),
{
    if pid <= i32::MAX as u32 {
        pid as i32
    } else {
        (pid as i64 - 0x1_0000_0000) as i32
    }
}

/// The text that claims a pidfile for `my_pid`.
pub open spec fn claim_text(my_pid: u32) -> Seq<char> {
    decimal(my_pid as nat) + "\n"@
}

/// The text that claims a pidfile for `my_pid`.
pub fn pidfile_text(my_pid: u32) -> (r: String)
    ensures
        r@ == claim_text(my_pid),
{
    let mut r = decimal_u64(my_pid as u64);
    r.append("\n");
    r
}

/// Whether the executable is the proxy binary, whatever directory it is
/// installed in.
pub fn exe_is_xcode_dap(path: &str) -> (r: bool)
    ensures
        r == (file_name_of(path@) == Some("xcode-dap"@)),
{
    match file_name(path) {
        Some(n) => str_eq(n.as_str(), "xcode-dap"),
        None => false,
    }
}

/// Whether a process, by the path of its executable, is a proxy. One that
/// cannot be resolved (gone, or not ours) is not.
pub fn pid_is_xcode_dap(exe: Option<&str>) -> (r: bool)
    ensures
        r == match exe {
            Some(p) => file_name_of(p@) == Some("xcode-dap"@),
            None => false,
        },
{
    match exe {
        Some(p) => exe_is_xcode_dap(p),
        None => false,
    }
}

/// The pid to send SIGTERM: the pidfile's owner, if that is a proxy other than
/// this one. A missing, stale, foreign or own pid is left alone.
pub open spec fn signalled(text: Option<Seq<char>>, my_pid: u32, exe: Option<Seq<char>>) -> Option<
    int,
> {
    match text {
        Some(t) => match pid_in(t) {
            Some(old) => if old > 1 && old != as_signed(my_pid) && exe is Some && file_name_of(
                exe->0,
            ) == Some("xcode-dap"@) {
                Some(old)
            } else {
                None
            },
            None => None,
        },
        None => None,
    }
}

/// The pid to send SIGTERM. `text` is what the pidfile holds, `exe` the path of
/// its owner's executable.
pub fn signal_old(text: Option<&str>, my_pid: u32, exe: Option<&str>) -> (r: Option<i32>)
    ensures
        match r {
            Some(p) => signalled(opt_str_view(text), my_pid, opt_str_view(exe)) == Some(p as int),
            None => signalled(opt_str_view(text), my_pid, opt_str_view(exe)) is None,
        },
{
    let old = match text {
        Some(t) => read_pid(t),
        None => None,
    };
    match old {
        Some(old) => if old > 1 && old != signed(my_pid) && pid_is_xcode_dap(exe) {
            Some(old)
        } else {
            None
        },
        None => None,
    }
}

/// Whether a pidfile with this text is that of this instance.
pub open spec fn is_ours(text: Option<Seq<char>>, my_pid: u32) -> bool {
    match text {
        Some(t) => pid_in(t) == Some(as_signed(my_pid)),
        None => false,
    }
}

/// Whether a pidfile with this text may be removed on teardown: only if it is
/// still ours.
pub fn remove_at(text: Option<&str>, my_pid: u32) -> (r: bool)
    ensures
        r == is_ours(opt_str_view(text), my_pid),
{
    match text {
        Some(t) => match read_pid(t) {
            Some(p) => p == signed(my_pid),
            None => false,
        },
        None => false,
    }
}

/// Whether the pidfile that this instance had claimed is no longer its own.
pub open spec fn is_superseded(claimed: bool, text: Option<Seq<char>>, my_pid: u32) -> bool {
    claimed && match text {
        Some(t) => parsed_unsigned(trimmed(t), u32::MAX as int) != Some(my_pid as nat),
        None => true,
    }
}

/// Whether the pidfile that this instance had claimed is no longer its own, as
/// after a newer instance has claimed it. Without a claim (`claimed` false) that
/// cannot have happened.
pub fn superseded(claimed: bool, text: Option<&str>, my_pid: u32) -> (r: bool)
    ensures
        r == is_superseded(claimed, opt_str_view(text), my_pid),
{
    if !claimed {
        return false;
    }
    match text {
        Some(t) => {
            let cs = chars_of(t);
            let (a, b) = trim_range(cs.as_slice(), 0, cs.len());
            assert(cs@.subrange(0, cs@.len() as int) == t@);
            match parse_unsigned(cs.as_slice(), a, b, u32::MAX as u64) {
                Some(n) => n != my_pid as u64,
                None => true,
            }
        },
        None => true,
    }
}

/// The text of a claim denotes the claiming process.
proof fn lemma_claim_text(my_pid: u32)
    ensures
        trimmed(decimal(my_pid as nat) + "\n"@) == decimal(my_pid as nat),
        parsed_unsigned(decimal(my_pid as nat), u32::MAX as int) == Some(my_pid as nat),
        my_pid <= i32::MAX ==> pid_in(decimal(my_pid as nat) + "\n"@) == Some(my_pid as int),
{
    reveal_strlit("\n");
    let d = decimal(my_pid as nat);
    lemma_decimal_round_trip(my_pid as nat);
    assert(is_digit(d[0]) && is_digit(d.last()));
    let empty = Seq::<char>::empty();
    lemma_trim_padded(empty, d, "\n"@);
    assert(empty + d + "\n"@ =~= d + "\n"@);
    assert(digits_upto(d, u32::MAX as int) == Some(my_pid as nat));
}

/// A claim is recognised as one's own and by nobody else: the claimant may
/// remove it and is not superseded; any other process is, and may not.
pub proof fn lemma_claim_is_own(my_pid: u32, other: u32)
    requires
        0 < my_pid <= i32::MAX,
        0 < other <= i32::MAX,
    ensures
        ({
            let text = decimal(my_pid as nat) + "\n"@;
            &&& pid_in(text) == Some(as_signed(my_pid))
            &&& parsed_unsigned(trimmed(text), u32::MAX as int) == Some(my_pid as nat)
            &&& other != my_pid ==> pid_in(text) != Some(as_signed(other)) && parsed_unsigned(
                trimmed(text),
                u32::MAX as int,
            ) != Some(other as nat)
        }),
{
    lemma_claim_text(my_pid);
}

/// A process is never asked to stop by its own pidfile, and neither is init.
pub proof fn lemma_never_signals_self(text: Option<Seq<char>>, my_pid: u32, exe: Option<Seq<char>>)
    ensures
        match signalled(text, my_pid, exe) {
            Some(p) => p > 1 && p != as_signed(my_pid),
            None => true,
        },
{
}

/// Who claimed a simulator last keeps it: the claimant's file is its own, and it is not
/// superseded; every other instance that had claimed it is, and leaves the file alone.
/// Whoever never claimed it is never superseded, and a file that is gone is nobody's.
pub proof fn lemma_last_claim_holds(my_pid: u32, other: u32)
    requires
        0 < my_pid <= i32::MAX,
        0 < other <= i32::MAX,
        other != my_pid,
    ensures
        is_ours(Some(claim_text(my_pid)), my_pid),
        !is_superseded(true, Some(claim_text(my_pid)), my_pid),
        !is_ours(Some(claim_text(my_pid)), other),
        is_superseded(true, Some(claim_text(my_pid)), other),
        !is_superseded(false, Some(claim_text(my_pid)), other),
        !is_ours(None, my_pid),
        is_superseded(true, None, my_pid),
        !is_superseded(false, None, my_pid),
{
    lemma_claim_is_own(my_pid, other);
    lemma_claim_text(my_pid);
}

/// The instance that had claimed a simulator is asked to stop: the process that its file
/// names, if that is another one, and still one of this program.
pub proof fn lemma_previous_stopped(my_pid: u32, other: u32, exe: Seq<char>)
    requires
        0 < my_pid <= i32::MAX,
        1 < other <= i32::MAX,
        other != my_pid,
    ensures
        file_name_of(exe) == Some("xcode-dap"@) ==> signalled(
            Some(claim_text(other)),
            my_pid,
            Some(exe),
        ) == Some(other as int),
        file_name_of(exe) != Some("xcode-dap"@) ==> signalled(
            Some(claim_text(other)),
            my_pid,
            Some(exe),
        ) is None,
        signalled(Some(claim_text(other)), my_pid, None) is None,
        signalled(Some(claim_text(my_pid)), my_pid, Some(exe)) is None,
        signalled(None, my_pid, Some(exe)) is None,
{
    lemma_claim_text(other);
    lemma_claim_text(my_pid);
}

/// Each simulator has a file of its own.
pub proof fn lemma_file_of_its_own(home: Seq<char>, a: Seq<char>, b: Seq<char>)
    ensures
        pidfile_of(home, a) == pidfile_of(home, b) ==> a == b,
{
    reveal_strlit("sim-");
    reveal_strlit(".pid");
    let run = joined(home, "run"@);
    let x = "sim-"@ + a + ".pid"@;
    let y = "sim-"@ + b + ".pid"@;
    assert(x[0] == 's' && y[0] == 's');
    if pidfile_of(home, a) == pidfile_of(home, b) {
        let p = if run.len() == 0 || run.last() == '/' {
            run
        } else {
            run.push('/')
        };
        assert(pidfile_of(home, a) =~= p + x);
        assert(pidfile_of(home, b) =~= p + y);
        assert((p + x).skip(p.len() as int) =~= x);
        assert((p + y).skip(p.len() as int) =~= y);
        assert(x.subrange(4, 4 + a.len() as int) =~= a);
        assert(y.subrange(4, 4 + b.len() as int) =~= b);
    }
}

} // verus!
