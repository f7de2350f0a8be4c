//! App console capture: whole lines out of appended bytes, and the predicate
//! of the log pump.

use crate::text::chars_of;
use crate::text::lossy_text;
use crate::text::opt_str_view;
use crate::text::opt_view;
use crate::text::owned;
use crate::text::push_bytes;
use crate::text::push_text;
use crate::text::string_of;
use crate::text::texts;
use crate::text::trim;
use crate::text::trim_end_by;
use crate::text::trimmed;
use crate::text::utf8_lossy;
use vstd::prelude::*;

verus! {

/// The predicate for the app's own logging.
pub open spec fn own_logging(bundle_id: Seq<char>, app_name: Seq<char>) -> Seq<char> {
    "subsystem == \""@ + bundle_id + "\" OR senderImagePath CONTAINS \"/"@ + app_name + ".app/\""@
}

/// Default log predicate: the app's own logging only. Matches the app's
/// logging subsystem plus anything emitted by a binary image inside the `.app`
/// bundle.
pub fn default_oslog_predicate(bundle_id: &str, app_name: &str) -> (r: String)
    ensures
        r@ == own_logging(bundle_id@, app_name@),
{
    let mut r = owned("subsystem == \"");
    r.append(bundle_id);
    r.append("\" OR senderImagePath CONTAINS \"/");
    r.append(app_name);
    r.append(".app/\"");
    r
}

// ---------------------------------------------------------------------------
// tailing a capture file
// ---------------------------------------------------------------------------

/// How long between two reads of a capture file, in milliseconds.
pub const TAIL_INTERVAL_MS: u64 = 75;

/// The first newline at or behind `i`.
pub open spec fn newline_from(b: Seq<u8>, i: int) -> Option<int>
    decreases b.len() - i,
{
    if i < 0 || i >= b.len() {
        None
    } else if b[i] == 0x0a {
        Some(i)
    } else {
        newline_from(b, i + 1)
    }
}

/// The complete lines from `i` on, without their newlines.
pub open spec fn complete_lines(b: Seq<u8>, i: int) -> Seq<Seq<u8>>
    decreases b.len() - i,
{
    match newline_from(b, i) {
        Some(k) => if i <= k < b.len() {
            seq![b.subrange(i, k)] + complete_lines(b, k + 1)
        } else {
            Seq::empty()
        },
        None => Seq::empty(),
    }
}

/// What follows the last newline from `i` on.
pub open spec fn unfinished(b: Seq<u8>, i: int) -> Seq<u8>
    decreases b.len() - i,
{
    match newline_from(b, i) {
        Some(k) => if i <= k < b.len() {
            unfinished(b, k + 1)
        } else {
            Seq::empty()
        },
        None => b.skip(i),
    }
}

/// The text of a line: without the carriage returns at its end.
pub open spec fn console_text(line: Seq<u8>) -> Seq<char> {
    trim_end_by(lossy_text(line), |c: char| c == '\r')
}

/// The texts of some lines.
pub open spec fn console_texts(lines: Seq<Seq<u8>>) -> Seq<Seq<char>> {
    Seq::new(lines.len(), |i: int| console_text(lines[i]))
}

/// The text of a line.
fn decode_console(line: &[u8]) -> (r: String)
    ensures
        r@ == console_text(line@),
{
    let text = utf8_lossy(line);
    let cs = chars_of(text.as_str());
    let ghost p = |c: char| c == '\r';
    let mut n: usize = cs.len();
    assert(cs@.take(n as int) =~= text@);
    while n > 0 && cs[n - 1] == '\r'
        invariant
            n <= cs.len(),
            p == (|c: char| c == '\r'),
            trim_end_by(text@, p) == trim_end_by(cs@.take(n as int), p),
        decreases n,
    {
        assert(cs@.take(n as int).drop_last() =~= cs@.take(n - 1));
        n = n - 1;
    }
    assert(cs@.subrange(0, n as int) =~= cs@.take(n as int));
    string_of(cs.as_slice(), 0, n)
}

/// A newline is found where the definition says.
proof fn lemma_newline_from(b: Seq<u8>, i: int)
    requires
        0 <= i,
    ensures
        match newline_from(b, i) {
            Some(k) => i <= k < b.len() && b[k] == 0x0a && forall|j: int|
                i <= j < k ==> #[trigger] b[j] != 0x0a,
            None => forall|j: int| i <= j < b.len() ==> #[trigger] b[j] != 0x0a,
        },
    decreases b.len() - i,
{
    if i < b.len() && b[i] != 0x0a {
        lemma_newline_from(b, i + 1);
    }
}

/// How far a capture file has been read, and the unfinished line at its end.
#[derive(Debug)]
pub struct Tail {
    pub offset: u64,
    pub partial: Vec<u8>,
}

impl Tail {
    /// At the start of the file.
    pub fn new() -> (r: Tail)
        ensures
            r.offset == 0,
            r.partial@ == Seq::<u8>::empty(),
    {
        Tail { offset: 0, partial: Vec::new() }
    }

    /// How many bytes to read from the offset on, where the file has this length
    /// now. A file that has become shorter is read from its start again.
    pub fn wanted(&mut self, len: u64) -> (r: u64)
        ensures
            if len < old(self).offset {
                final(self).offset == 0 && final(self).partial@ == Seq::<u8>::empty()
            } else {
                final(self).offset == old(self).offset && final(self).partial@ == old(self).partial@
            },
            r == len - final(self).offset,
    {
        if len < self.offset {
            self.offset = 0;
            self.partial = Vec::new();
        }
        len - self.offset
    }

    /// Take in what was read behind the offset, and give out the lines that are
    /// complete now.
    pub fn take_in(&mut self, bytes: &[u8]) -> (r: Vec<String>)
        requires
            old(self).offset + bytes@.len() <= u64::MAX,
        ensures
            final(self).offset == old(self).offset + bytes@.len(),
            texts(r@) == console_texts(complete_lines(old(self).partial@ + bytes@, 0)),
            final(self).partial@ == unfinished(old(self).partial@ + bytes@, 0),
    {
        self.offset = self.offset + bytes.len() as u64;
        let ghost all = self.partial@ + bytes@;
        push_bytes(&mut self.partial, bytes);
        let buf = self.partial.as_slice();
        let mut r: Vec<String> = Vec::new();
        let mut from: usize = 0;
        let mut i: usize = 0;
        assert(texts(r@) + console_texts(complete_lines(all, 0)) =~= console_texts(
            complete_lines(all, 0),
        ));
        while i < buf.len()
            invariant
                buf@ == all,
                from <= i <= buf.len(),
                newline_from(all, from as int) == newline_from(all, i as int),
                texts(r@) + console_texts(complete_lines(all, from as int)) == console_texts(
                    complete_lines(all, 0),
                ),
                unfinished(all, from as int) == unfinished(all, 0),
            decreases buf.len() - i,
        {
            if buf[i] == 0x0a {
                let ghost before = texts(r@);
                let line = bytes_range(buf, from, i);
                push_text(&mut r, decode_console(line.as_slice()).as_str());
                proof {
                    let rest = complete_lines(all, i + 1);
                    let here = complete_lines(all, from as int);
                    assert(here == seq![all.subrange(from as int, i as int)] + rest);
                    assert(texts(r@) + console_texts(rest) =~= before + console_texts(here));
                }
                from = i + 1;
            }
            i = i + 1;
        }
        assert(newline_from(all, from as int) is None);
        let rest = bytes_range(buf, from, buf.len());
        assert(rest@ =~= all.skip(from as int));
        assert(console_texts(complete_lines(all, from as int)) =~= Seq::empty());
        assert(texts(r@) =~= console_texts(complete_lines(all, 0)));
        self.partial = rest;
        r
    }

    /// The unfinished line, to be given out when tailing stops.
    pub fn finish(&self) -> (r: Option<String>)
        ensures
            opt_view(r) == if self.partial@.len() == 0 {
                None
            } else {
                Some(console_text(self.partial@))
            },
    {
        if self.partial.len() == 0 {
            None
        } else {
            Some(decode_console(self.partial.as_slice()))
        }
    }
}

/// The bytes from `from` up to `to`.
fn bytes_range(b: &[u8], from: usize, to: usize) -> (r: Vec<u8>)
    requires
        from <= to <= b.len(),
    ensures
        r@ == b@.subrange(from as int, to as int),
{
    let mut r: Vec<u8> = Vec::new();
    let mut i: usize = from;
    while i < to
        invariant
            from <= i <= to <= b.len(),
            r@ == b@.subrange(from as int, i as int),
        decreases to - i,
    {
        r.push(b[i]);
        assert(b@.subrange(from as int, i + 1) =~= b@.subrange(from as int, i as int).push(
            b@[i as int],
        ));
        i = i + 1;
    }
    r
}

/// The lines of what follows a prefix do not depend on it.
proof fn lemma_lines_behind_prefix(a: Seq<u8>, b: Seq<u8>, i: int)
    requires
        0 <= i <= b.len(),
    ensures
        newline_from(a + b, a.len() + i) == (match newline_from(b, i) {
            Some(k) => Some(a.len() + k),
            None => None,
        }),
        complete_lines(a + b, a.len() + i) == complete_lines(b, i),
        unfinished(a + b, a.len() + i) == unfinished(b, i),
    decreases b.len() - i,
{
    let s = a + b;
    lemma_newline_behind(a, b, i);
    lemma_newline_from(b, i);
    match newline_from(b, i) {
        Some(k) => {
            lemma_lines_behind_prefix(a, b, k + 1);
            assert(s.subrange(a.len() + i, a.len() + k) =~= b.subrange(i, k));
            assert(a.len() + k + 1 == a.len() + (k + 1));
        },
        None => {
            assert(s.skip(a.len() + i) =~= b.skip(i));
        },
    }
}

/// A newline is found behind a prefix where it is found without it.
proof fn lemma_newline_behind(a: Seq<u8>, b: Seq<u8>, i: int)
    requires
        0 <= i <= b.len(),
    ensures
        newline_from(a + b, a.len() + i) == (match newline_from(b, i) {
            Some(k) => Some(a.len() + k),
            None => None,
        }),
    decreases b.len() - i,
{
    if i < b.len() {
        assert((a + b)[a.len() + i] == b[i]);
        if b[i] != 0x0a {
            lemma_newline_behind(a, b, i + 1);
            assert(a.len() + i + 1 == a.len() + (i + 1));
        }
    }
}

/// A newline is found in a prefix whatever follows it.
proof fn lemma_newline_before(a: Seq<u8>, b: Seq<u8>, i: int)
    requires
        0 <= i <= a.len(),
        newline_from(a, i) is Some,
    ensures
        newline_from(a + b, i) == newline_from(a, i),
    decreases a.len() - i,
{
    if i < a.len() && a[i] != 0x0a {
        assert((a + b)[i] == a[i]);
        lemma_newline_before(a, b, i + 1);
    }
}

/// Taking in a chunk and then the next gives the same lines, and leaves the same
/// unfinished line, as taking in both at once, from `i` on.
proof fn lemma_chunks_from(a: Seq<u8>, b: Seq<u8>, i: int)
    requires
        0 <= i <= a.len(),
    ensures
        complete_lines(a + b, i) == complete_lines(a, i) + complete_lines(unfinished(a, i) + b, 0),
        unfinished(a + b, i) == unfinished(unfinished(a, i) + b, 0),
    decreases a.len() - i,
{
    lemma_newline_from(a, i);
    match newline_from(a, i) {
        Some(k) => {
            lemma_newline_before(a, b, i);
            lemma_chunks_from(a, b, k + 1);
            assert((a + b).subrange(i, k) =~= a.subrange(i, k));
            assert(complete_lines(a + b, i) =~= complete_lines(a, i) + complete_lines(
                unfinished(a, i) + b,
                0,
            ));
        },
        None => {
            let head = a.take(i);
            let tail = a.skip(i) + b;
            assert(a + b =~= head + tail);
            lemma_lines_behind_prefix(head, tail, 0);
            assert(complete_lines(a, i) + complete_lines(tail, 0) =~= complete_lines(tail, 0));
        },
    }
}

/// However the bytes of a capture file arrive, the same lines come out: taking in
/// two chunks one after the other gives the lines of both at once.
pub proof fn lemma_chunks(partial: Seq<u8>, first: Seq<u8>, second: Seq<u8>)
    ensures
        complete_lines(partial + (first + second), 0) == complete_lines(partial + first, 0)
            + complete_lines(unfinished(partial + first, 0) + second, 0),
        unfinished(partial + (first + second), 0) == unfinished(
            unfinished(partial + first, 0) + second,
            0,
        ),
{
    assert(partial + (first + second) =~= (partial + first) + second);
    lemma_chunks_from(partial + first, second, 0);
}

// ---------------------------------------------------------------------------
// the log pump
// ---------------------------------------------------------------------------

/// The arguments of `xcrun` that stream the logs of a simulator.
pub open spec fn oslog_arguments(udid: Seq<char>, predicate: Seq<char>) -> Seq<Seq<char>> {
    seq![
        "simctl"@,
        "spawn"@,
        udid,
        "log"@,
        "stream"@,
        "--style"@,
        "compact"@,
        "--color"@,
        "none"@,
        "--level"@,
        "debug"@,
        "--predicate"@,
        predicate,
    ]
}

/// The arguments of `xcrun` that stream the logs of a simulator.
pub fn oslog_args(udid: &str, predicate: &str) -> (r: Vec<String>)
    ensures
        texts(r@) == oslog_arguments(udid@, predicate@),
{
    let mut r: Vec<String> = Vec::new();
    assert(texts(r@) =~= Seq::<Seq<char>>::empty());
    push_text(&mut r, "simctl");
    push_text(&mut r, "spawn");
    push_text(&mut r, udid);
    push_text(&mut r, "log");
    push_text(&mut r, "stream");
    push_text(&mut r, "--style");
    push_text(&mut r, "compact");
    push_text(&mut r, "--color");
    push_text(&mut r, "none");
    push_text(&mut r, "--level");
    push_text(&mut r, "debug");
    push_text(&mut r, "--predicate");
    push_text(&mut r, predicate);
    assert(texts(r@) =~= oslog_arguments(udid@, predicate@));
    r
}

/// What is said where the log stream ended while the session goes on.
pub open spec fn oslog_end_text(status: Option<Seq<char>>, stderr: Seq<char>) -> Seq<char> {
    let head = "oslog: log stream exited ("@ + match status {
        Some(s) => s,
        None => "unknown status"@,
    } + ")"@;
    if trimmed(stderr).len() == 0 {
        head
    } else {
        head + ": "@ + trimmed(stderr)
    }
}

/// What is said where the log stream ended while the session goes on.
pub fn oslog_ended(status: Option<&str>, stderr: &str) -> (r: String)
    ensures
        r@ == oslog_end_text(opt_str_view(status), stderr@),
{
    let mut r = owned("oslog: log stream exited (");
    match status {
        Some(s) => r.append(s),
        None => r.append("unknown status"),
    }
    r.append(")");
    let t = trim(stderr);
    if chars_of(t.as_str()).len() > 0 {
        r.append(": ");
        r.append(t.as_str());
    }
    r
}

} // verus!
