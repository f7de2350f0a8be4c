//! Content-Length codec: frames are written as
//! `Content-Length: <n>\r\n\r\n<body>` and read back from a byte buffer that
//! may hold several of them, or only part of one.

use crate::json::compact;
use crate::json::serde_compact;
use crate::json::Json;
use crate::json::JsonView;
use crate::number::decimal;
use crate::number::digits_upto;
use crate::number::is_digit;
use crate::number::lemma_decimal_round_trip;
use crate::number::parse_unsigned;
use crate::number::parsed_unsigned;
use crate::number::push_decimal;
use crate::text::ascii_lower;
use crate::text::chars_of;
use crate::text::eq_ignore_case;
use crate::text::find_from;
use crate::text::first_at;
use crate::text::lemma_first_at;
use crate::text::lemma_trim_padded;
use crate::text::occurs_at;
use crate::text::push_bytes;
use crate::text::push_range;
use crate::text::push_str;
use crate::text::same_ignoring_case;
use crate::text::string_of_all;
use crate::text::trim_range;
use crate::text::trimmed;
use crate::text::utf8_text;
use vstd::prelude::*;
use vstd::utf8::decode_utf8;
use vstd::utf8::encode_utf8;
use vstd::utf8::encode_utf8_decode_utf8;
use vstd::utf8::encode_utf8_valid_utf8;
use vstd::utf8::is_ascii_chars;
use vstd::utf8::is_ascii_chars_encode_utf8;
use vstd::utf8::valid_utf8;

verus! {

// ---------------------------------------------------------------------------
// the header block
// ---------------------------------------------------------------------------

/// Whether a blank line, `\r\n\r\n`, stands at `i`.
pub open spec fn blank_line_at(buf: Seq<u8>, i: int) -> bool {
    &&& 0 <= i
    &&& i + 4 <= buf.len()
    &&& buf[i] == 0x0d
    &&& buf[i + 1] == 0x0a
    &&& buf[i + 2] == 0x0d
    &&& buf[i + 3] == 0x0a
}

/// The first blank line at or behind `from`.
pub open spec fn header_end(buf: Seq<u8>, from: int) -> Option<int>
    decreases buf.len() - from,
{
    if from < 0 || from >= buf.len() {
        None
    } else if blank_line_at(buf, from) {
        Some(from)
    } else {
        header_end(buf, from + 1)
    }
}

/// The value of a `Content-Length` header line; `None` for any other line.
pub open spec fn length_field(line: Seq<char>) -> Option<Seq<char>> {
    match first_at(line, seq![':'], 0) {
        Some(i) => if same_ignoring_case(trimmed(line.take(i)), "content-length"@) {
            Some(line.skip(i + 1))
        } else {
            None
        },
        None => None,
    }
}

/// What is wrong with a stream of frames.
#[derive(Clone, Copy, Debug, PartialEq, Eq, Structural)]
pub enum FrameError {
    /// The header block is not UTF-8.
    NonUtf8Header,
    /// A `Content-Length` is not a number.
    InvalidLength,
    /// The header block has no `Content-Length`.
    MissingLength,
    /// The frame would end beyond what memory can hold.
    TooLarge,
    /// The stream ended inside a frame.
    ClosedMidFrame,
}

/// The `Content-Length` of a header block: the last one counts, but each has
/// to be a number. `seen` is what the lines in front of `h` gave.
pub open spec fn block_length(h: Seq<char>, seen: Option<nat>) -> Result<nat, FrameError>
    decreases h.len(),
{
    let cut = first_at(h, seq!['\r', '\n'], 0);
    let line = match cut {
        Some(i) => h.take(i),
        None => h,
    };
    let now = match length_field(line) {
        Some(v) => match parsed_unsigned(trimmed(v), usize::MAX as int) {
            Some(n) => Ok(Some(n)),
            None => Err(FrameError::InvalidLength),
        },
        None => Ok(seen),
    };
    match now {
        Err(e) => Err(e),
        Ok(len) => match cut {
            Some(i) => if 0 <= i && i + 2 <= h.len() {
                block_length(h.skip(i + 2), len)
            } else {
                Err(FrameError::MissingLength)
            },
            None => match len {
                Some(n) => Ok(n),
                None => Err(FrameError::MissingLength),
            },
        },
    }
}

/// What the bytes at the start of a stream say of its first frame: nothing
/// yet, where its body starts and how long it is, or that they are malformed.
pub open spec fn header_of(buf: Seq<u8>) -> Result<Option<(int, nat)>, FrameError> {
    match header_end(buf, 0) {
        None => Ok(None),
        Some(e) => if !valid_utf8(buf.take(e)) {
            Err(FrameError::NonUtf8Header)
        } else {
            match block_length(decode_utf8(buf.take(e)), None) {
                Ok(n) => Ok(Some((e + 4, n))),
                Err(x) => Err(x),
            }
        },
    }
}

/// The first frame of a stream: its body and what follows it; `None` while it
/// is incomplete.
pub open spec fn first_frame(buf: Seq<u8>) -> Result<Option<(Seq<u8>, Seq<u8>)>, FrameError> {
    match header_of(buf) {
        Err(x) => Err(x),
        Ok(None) => Ok(None),
        Ok(Some((start, n))) => if start + n > usize::MAX {
            Err(FrameError::TooLarge)
        } else if start + n <= buf.len() {
            Ok(Some((buf.subrange(start, start + n), buf.skip(start + n))))
        } else {
            Ok(None)
        },
    }
}

/// Find the first blank line.
fn find_blank_line(buf: &[u8]) -> (r: Option<usize>)
    ensures
        match r {
            Some(i) => header_end(buf@, 0) == Some(i as int) && i + 4 <= buf.len(),
            None => header_end(buf@, 0) is None,
        },
{
    let mut i: usize = 0;
    while i < buf.len()
        invariant
            i <= buf.len(),
            header_end(buf@, 0) == header_end(buf@, i as int),
        decreases buf.len() - i,
    {
        if buf.len() - i >= 4 && buf[i] == 0x0d && buf[i + 1] == 0x0a && buf[i + 2] == 0x0d && buf[i
            + 3] == 0x0a {
            return Some(i);
        }
        i = i + 1;
    }
    None
}

/// The `Content-Length` of a header block.
fn header_length(h: &[char]) -> (r: Result<usize, FrameError>)
    ensures
        match r {
            Ok(n) => block_length(h@, None) == Ok::<nat, FrameError>(n as nat),
            Err(x) => block_length(h@, None) == Err::<nat, FrameError>(x),
        },
{
    let crlf: Vec<char> = vec!['\r', '\n'];
    let colon: Vec<char> = vec![':'];
    assert(crlf@ == seq!['\r', '\n']);
    assert(colon@ == seq![':']);
    let mut len: Option<usize> = None;
    let mut at: usize = 0;
    assert(h@.skip(0) == h@);
    loop
        invariant
            at <= h.len(),
            crlf@ == seq!['\r', '\n'],
            colon@ == seq![':'],
            block_length(h@, None) == block_length(
                h@.skip(at as int),
                match len {
                    Some(n) => Some(n as nat),
                    None => None,
                },
            ),
        decreases h.len() - at,
    {
        let ghost rest = h@.skip(at as int);
        let cut = find_from(h, crlf.as_slice(), at);
        let end: usize = match cut {
            Some(i) => i,
            None => h.len(),
        };
        proof {
            lemma_first_at_skip(h@, crlf@, at as int);
            lemma_first_at(h@, crlf@, at as int);
        }
        let line = slice_of(h, at, end);
        let ghost line_view = match first_at(rest, crlf@, 0) {
            Some(i) => rest.take(i),
            None => rest,
        };
        assert(line@ =~= line_view);
        proof {
            lemma_first_at(line@, colon@, 0);
        }
        if let Some(i) = find_from(line.as_slice(), colon.as_slice(), 0) {
            let (a, b) = trim_range(line.as_slice(), 0, i);
            assert(line@.subrange(0, i as int) =~= line@.take(i as int));
            if eq_ignore_case(line.as_slice(), a, b, "content-length") {
                let (c, d) = trim_range(line.as_slice(), i + 1, line.len());
                assert(line@.subrange(i + 1, line@.len() as int) =~= line@.skip(i + 1));
                match parse_unsigned(line.as_slice(), c, d, usize::MAX as u64) {
                    Some(n) => {
                        len = Some(n as usize);
                    },
                    None => {
                        return Err(FrameError::InvalidLength);
                    },
                }
            }
        }
        match cut {
            Some(i) => {
                assert(rest.skip(i - at + 2) =~= h@.skip(i + 2));
                at = i + 2;
            },
            None => {
                return match len {
                    Some(n) => Ok(n),
                    None => Err(FrameError::MissingLength),
                };
            },
        }
    }
}

/// `cs[from..to]` as a vector.
fn slice_of(cs: &[char], from: usize, to: usize) -> (r: Vec<char>)
    requires
        from <= to <= cs.len(),
    ensures
        r@ == cs@.subrange(from as int, to as int),
{
    let mut r: Vec<char> = Vec::new();
    push_range(&mut r, cs, from, to);
    r
}

/// Searching behind `at` is searching the rest.
proof fn lemma_first_at_skip(s: Seq<char>, p: Seq<char>, at: int)
    requires
        0 <= at <= s.len(),
    ensures
        first_at(s, p, at) == match first_at(s.skip(at), p, 0) {
            Some(i) => Some(at + i),
            None => None,
        },
{
    lemma_first_at(s, p, at);
    lemma_first_at(s.skip(at), p, 0);
    let t = s.skip(at);
    assert forall|i: int| 0 <= i implies occurs_at(t, p, i) == #[trigger] occurs_at(s, p, at + i) by {
        if i + p.len() <= t.len() {
            assert(t.subrange(i, i + p.len()) =~= s.subrange(at + i, at + i + p.len()));
        }
    }
    if let Some(i) = first_at(s, p, at) {
        assert(occurs_at(s, p, at + (i - at)));
    }
    if let Some(j) = first_at(t, p, 0) {
        assert(occurs_at(s, p, at + j));
    }
}

/// If `buf` starts with a complete header block: where its body starts and how
/// long that is.
pub fn parse_header(buf: &[u8]) -> (r: Result<Option<(usize, usize)>, FrameError>)
    ensures
        match r {
            Ok(Some((s, n))) => header_of(buf@) == Ok::<Option<(int, nat)>, FrameError>(
                Some((s as int, n as nat)),
            ) && s <= buf.len(),
            Ok(None) => header_of(buf@) == Ok::<Option<(int, nat)>, FrameError>(None),
            Err(x) => header_of(buf@) == Err::<Option<(int, nat)>, FrameError>(x),
        },
{
    let end = match find_blank_line(buf) {
        Some(e) => e,
        None => return Ok(None),
    };
    let head = vstd::slice::slice_subrange(buf, 0, end);
    assert(head@ =~= buf@.take(end as int));
    let text = match utf8_text(head) {
        Some(t) => t,
        None => return Err(FrameError::NonUtf8Header),
    };
    let h = chars_of(text.as_str());
    match header_length(h.as_slice()) {
        Ok(n) => Ok(Some((end + 4, n))),
        Err(x) => Err(x),
    }
}

// ---------------------------------------------------------------------------
// reading and writing
// ---------------------------------------------------------------------------

/// Incremental frame reader: the bytes of a stream that were read but not yet
/// handed out.
#[derive(Debug)]
pub struct DapReader {
    buf: Vec<u8>,
}

impl View for DapReader {
    type V = Seq<u8>;

    closed spec fn view(&self) -> Seq<u8> {
        self.buf@
    }
}

impl DapReader {
    /// A reader at the start of its stream.
    pub fn new() -> (r: DapReader)
        ensures
            r@ == Seq::<u8>::empty(),
    {
        DapReader { buf: Vec::new() }
    }

    /// Bytes that arrived on the stream.
    pub fn push(&mut self, chunk: &[u8])
        ensures
            final(self)@ == old(self)@ + chunk@,
    {
        push_bytes(&mut self.buf, chunk);
    }

    /// The next message body, taken off the buffered bytes; `None` when more
    /// bytes are needed.
    pub fn next_message(&mut self) -> (r: Result<Option<Vec<u8>>, FrameError>)
        ensures
            match r {
                Ok(Some(body)) => first_frame(old(self)@) == Ok::<
                    Option<(Seq<u8>, Seq<u8>)>,
                    FrameError,
                >(Some((body@, final(self)@))),
                Ok(None) => first_frame(old(self)@) == Ok::<Option<(Seq<u8>, Seq<u8>)>, FrameError>(
                    None,
                ) && final(self)@ == old(self)@,
                Err(x) => first_frame(old(self)@) == Err::<Option<(Seq<u8>, Seq<u8>)>, FrameError>(
                    x,
                ) && final(self)@ == old(self)@,
            },
    {
        let (start, n) = match parse_header(self.buf.as_slice()) {
            Ok(Some(p)) => p,
            Ok(None) => return Ok(None),
            Err(x) => return Err(x),
        };
        let total = match start.checked_add(n) {
            Some(t) => t,
            None => return Err(FrameError::TooLarge),
        };
        if self.buf.len() < total {
            return Ok(None);
        }
        let ghost all = self.buf@;
        let rest = self.buf.split_off(total);
        let body = self.buf.split_off(start);
        self.buf = rest;
        assert(body@ =~= all.subrange(start as int, total as int));
        assert(self.buf@ =~= all.skip(total as int));
        Ok(Some(body))
    }

    /// What the end of the stream means: clean between frames, an error inside
    /// one.
    pub fn end_of_stream(&self) -> (r: Result<(), FrameError>)
        ensures
            r == if self@.len() == 0 {
                Ok::<(), FrameError>(())
            } else {
                Err(FrameError::ClosedMidFrame)
            },
    {
        if self.buf.len() == 0 {
            Ok(())
        } else {
            Err(FrameError::ClosedMidFrame)
        }
    }
}

/// The header of a frame with a body of `n` bytes.
pub open spec fn header_text(n: nat) -> Seq<char> {
    "Content-Length: "@ + decimal(n) + "\r\n\r\n"@
}

/// The bytes of a frame.
pub open spec fn frame_of(body: Seq<u8>) -> Seq<u8> {
    encode_utf8(header_text(body.len())) + body
}

/// Frames a message body: `"Content-Length: {n}\r\n\r\n"` + body.
pub fn frame(body: &[u8]) -> (r: Vec<u8>)
    ensures
        r@ == frame_of(body@),
{
    let mut head: Vec<char> = Vec::new();
    push_str(&mut head, "Content-Length: ");
    push_decimal(&mut head, body.len() as u64);
    push_str(&mut head, "\r\n\r\n");
    assert(head@ =~= header_text(body@.len()));
    let text = string_of_all(head.as_slice());
    let mut out: Vec<u8> = Vec::new();
    push_bytes(&mut out, text.as_str().as_bytes());
    push_bytes(&mut out, body);
    assert(out@ =~= frame_of(body@));
    out
}

/// The body that carries a document: its compact text.
pub open spec fn body_of(v: JsonView) -> Seq<u8> {
    encode_utf8(serde_compact(v))
}

/// Frames a document.
pub fn frame_value(v: &Json) -> (r: Vec<u8>)
    ensures
        r@ == frame_of(body_of(v@)),
{
    let body = compact(v);
    frame(body.as_str().as_bytes())
}

// ---------------------------------------------------------------------------
// reading back what was written
// ---------------------------------------------------------------------------

/// The header of a frame without its blank line.
pub open spec fn header_line(n: nat) -> Seq<char> {
    "Content-Length: "@ + decimal(n)
}

/// A blank line behind bytes without carriage returns ends the header block.
proof fn lemma_header_end(buf: Seq<u8>, from: int, e: int)
    requires
        0 <= from <= e,
        blank_line_at(buf, e),
        forall|i: int| from <= i < e ==> #[trigger] buf[i] != 0x0d,
    ensures
        header_end(buf, from) == Some(e),
    decreases e - from,
{
    if from < e {
        assert(buf[from] != 0x0d);
        lemma_header_end(buf, from + 1, e);
    }
}

/// Bytes without a blank line hold no header block.
proof fn lemma_no_header(buf: Seq<u8>, from: int)
    requires
        0 <= from,
        forall|i: int| from <= i < buf.len() ==> !#[trigger] blank_line_at(buf, i),
    ensures
        header_end(buf, from) is None,
    decreases buf.len() - from,
{
    if from < buf.len() {
        lemma_no_header(buf, from + 1);
    }
}

/// The header of a frame is ASCII, one byte per character, and holds no
/// carriage return before its blank line.
proof fn lemma_header_bytes(n: nat)
    ensures
        is_ascii_chars(header_text(n)),
        is_ascii_chars(header_line(n)),
        encode_utf8(header_text(n)).len() == header_line(n).len() + 4,
        encode_utf8(header_text(n)).take(header_line(n).len() as int) == encode_utf8(header_line(n)),
        blank_line_at(encode_utf8(header_text(n)), header_line(n).len() as int),
        forall|i: int|
            0 <= i < header_line(n).len() ==> #[trigger] encode_utf8(header_text(n))[i] != 0x0d,
        forall|i: int| 0 <= i < header_line(n).len() ==> #[trigger] header_line(n)[i] != '\r',
{
    reveal_strlit("Content-Length: ");
    reveal_strlit("\r\n\r\n");
    lemma_decimal_round_trip(n);
    let h = header_text(n);
    let l = header_line(n);
    let d = decimal(n);
    assert forall|i: int| 0 <= i < l.len() implies #[trigger] l[i] != '\r' && (l[i] as nat) < 128 by {
        if i >= 16 {
            assert(l[i] == d[i - 16]);
        } else {
            assert(l[i] == "Content-Length: "@[i]);
        }
    }
    assert forall|i: int| 0 <= i < h.len() implies (#[trigger] h[i] as nat) < 128 by {
        if i < l.len() {
            assert(h[i] == l[i]);
        } else {
            assert(h[i] == "\r\n\r\n"@[i - l.len()]);
        }
    }
    is_ascii_chars_encode_utf8(h);
    is_ascii_chars_encode_utf8(l);
    let b = encode_utf8(h);
    let e = l.len() as int;
    assert(h[e] == '\r' && h[e + 1] == '\n' && h[e + 2] == '\r' && h[e + 3] == '\n');
    assert forall|i: int| 0 <= i < l.len() implies #[trigger] b[i] != 0x0d by {
        assert(h[i] == l[i]);
    }
    assert(b.take(e) =~= encode_utf8(l));
}

/// The header line of a frame denotes the length it was written for.
proof fn lemma_header_length(n: nat)
    requires
        n <= usize::MAX,
    ensures
        block_length(header_line(n), None) == Ok::<nat, FrameError>(n),
{
    reveal_strlit("Content-Length: ");
    reveal_strlit("content-length");
    let l = header_line(n);
    let d = decimal(n);
    lemma_header_bytes(n);
    lemma_decimal_round_trip(n);
    let crlf = seq!['\r', '\n'];
    lemma_first_at(l, crlf, 0);
    if let Some(i) = first_at(l, crlf, 0) {
        assert(l.subrange(i, i + 2)[0] == '\r');
        assert(l[i] == '\r');
    }
    // The name.
    let colon = seq![':'];
    lemma_first_at(l, colon, 0);
    assert(l.subrange(14, 15) =~= colon);
    assert(occurs_at(l, colon, 14));
    assert forall|j: int| 0 <= j < 14 implies !occurs_at(l, colon, j) by {
        assert(l.subrange(j, j + 1)[0] == l[j]);
        assert(l[j] == "Content-Length: "@[j]);
    }
    assert(first_at(l, colon, 0) == Some(14int));
    let name = l.take(14);
    let empty = Seq::<char>::empty();
    lemma_trim_padded(empty, name, empty);
    assert(empty + name + empty =~= name);
    assert forall|i: int| 0 <= i < 14 implies ascii_lower(#[trigger] name[i]) == ascii_lower(
        "content-length"@[i],
    ) by {
        assert(name[i] == "Content-Length: "@[i]);
    }
    // The value.
    let value = l.skip(15);
    assert(value =~= seq![' '] + d + empty);
    assert(is_digit(d[0]) && is_digit(d.last()));
    lemma_trim_padded(seq![' '], d, empty);
    assert(digits_upto(d, usize::MAX as int) == Some(n));
}

/// A frame is read back whole: its body comes out, and what followed it stays.
pub proof fn lemma_frame_read_back(body: Seq<u8>, rest: Seq<u8>)
    requires
        frame_of(body).len() <= usize::MAX,
    ensures
        first_frame(frame_of(body) + rest) == Ok::<Option<(Seq<u8>, Seq<u8>)>, FrameError>(
            Some((body, rest)),
        ),
{
    let n = body.len();
    let hb = encode_utf8(header_text(n));
    let e = header_line(n).len() as int;
    let buf = frame_of(body) + rest;
    lemma_header_bytes(n);
    assert forall|i: int| 0 <= i < e implies #[trigger] buf[i] != 0x0d by {
        assert(buf[i] == hb[i]);
    }
    assert(blank_line_at(buf, e)) by {
        assert(buf[e] == hb[e] && buf[e + 1] == hb[e + 1] && buf[e + 2] == hb[e + 2] && buf[e + 3]
            == hb[e + 3]);
    }
    lemma_header_end(buf, 0, e);
    assert(buf.take(e) =~= encode_utf8(header_line(n)));
    encode_utf8_valid_utf8(header_line(n));
    encode_utf8_decode_utf8(header_line(n));
    lemma_header_length(n);
    assert(buf.subrange(e + 4, e + 4 + n) =~= body);
    assert(buf.skip(e + 4 + n) =~= rest);
}

/// While part of a frame is missing the reader asks for more: any proper
/// prefix of a frame is neither a message nor an error.
pub proof fn lemma_partial_frame_waits(body: Seq<u8>, k: int)
    requires
        frame_of(body).len() <= usize::MAX,
        0 <= k < frame_of(body).len(),
    ensures
        first_frame(frame_of(body).take(k)) == Ok::<Option<(Seq<u8>, Seq<u8>)>, FrameError>(None),
{
    let n = body.len();
    let hb = encode_utf8(header_text(n));
    let e = header_line(n).len() as int;
    let buf = frame_of(body).take(k);
    lemma_header_bytes(n);
    if k < e + 4 {
        assert forall|i: int| 0 <= i < buf.len() implies !#[trigger] blank_line_at(buf, i) by {
            if i < e {
                assert(buf[i] == hb[i]);
            }
        }
        lemma_no_header(buf, 0);
    } else {
        assert forall|i: int| 0 <= i < e implies #[trigger] buf[i] != 0x0d by {
            assert(buf[i] == hb[i]);
        }
        assert(blank_line_at(buf, e)) by {
            assert(buf[e] == hb[e] && buf[e + 1] == hb[e + 1] && buf[e + 2] == hb[e + 2] && buf[e
                + 3] == hb[e + 3]);
        }
        lemma_header_end(buf, 0, e);
        assert(buf.take(e) =~= encode_utf8(header_line(n)));
        encode_utf8_valid_utf8(header_line(n));
        encode_utf8_decode_utf8(header_line(n));
        lemma_header_length(n);
    }
}

} // verus!
