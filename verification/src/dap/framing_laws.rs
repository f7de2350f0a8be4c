//! How frames are laid out and found in a stream.

use crate::dap::framing::blank_line_at;
use crate::dap::framing::block_length;
use crate::dap::framing::first_frame;
use crate::dap::framing::frame_of;
use crate::dap::framing::header_end;
use crate::dap::framing::header_of;
use crate::dap::framing::length_field;
use crate::dap::framing::FrameError;
use crate::number::decimal;
use crate::number::parsed_unsigned;
use crate::text::ascii_lower;
use crate::text::first_at;
use crate::text::lemma_first_at;
use crate::text::occurs_at;
use crate::text::same_ignoring_case;
use crate::text::trimmed;
use vstd::prelude::*;
use vstd::utf8::encode_utf8;

verus! {

/// A frame is the length of its body in decimal behind `Content-Length: `, two line ends, and
/// the body as it is.
pub proof fn lemma_frame_layout(body: Seq<u8>)
    ensures
        frame_of(body) == encode_utf8(
            "Content-Length: "@ + decimal(body.len()) + "\r\n\r\n"@,
        ) + body,
        frame_of(body).len() >= body.len(),
        frame_of(body).skip(frame_of(body).len() - body.len()) == body,
{
    assert(frame_of(body).skip(frame_of(body).len() - body.len()) =~= body);
}

/// The header ends at the first two line ends behind each other.
pub proof fn lemma_header_ends(buf: Seq<u8>, from: int)
    requires
        0 <= from,
    ensures
        header_end(buf, from) matches Some(e) ==> from <= e && e + 4 <= buf.len() && buf.subrange(
            e,
            e + 4,
        ) == seq![13u8, 10u8, 13u8, 10u8],
        forall|i: int|
            from <= i && i + 4 <= buf.len() && #[trigger] buf.subrange(i, i + 4) == seq![
                13u8,
                10u8,
                13u8,
                10u8,
            ] ==> (header_end(buf, from) matches Some(e) && e <= i),
    decreases buf.len() - from,
{
    let mark = seq![13u8, 10u8, 13u8, 10u8];
    if from < buf.len() {
        if blank_line_at(buf, from) {
            assert(buf.subrange(from, from + 4) =~= mark);
        } else {
            lemma_header_ends(buf, from + 1);
            assert forall|i: int|
                from <= i && i + 4 <= buf.len() && #[trigger] buf.subrange(i, i + 4)
                    == mark implies (header_end(buf, from) matches Some(e) && e <= i) by {
                assert(buf[i] == buf.subrange(i, i + 4)[0]);
                assert(buf[i + 1] == buf.subrange(i, i + 4)[1]);
                assert(buf[i + 2] == buf.subrange(i, i + 4)[2]);
                assert(buf[i + 3] == buf.subrange(i, i + 4)[3]);
                assert(blank_line_at(buf, i));
            }
        }
    }
}

/// A header line gives the length where its name is `Content-Length`, in any case of its
/// letters and with white space round it.
pub proof fn lemma_length_line(name: Seq<char>, value: Seq<char>)
    requires
        !name.contains(':'),
    ensures
        length_field(name + seq![':'] + value) == if same_ignoring_case(
            trimmed(name),
            "Content-Length"@,
        ) {
            Some(value)
        } else {
            None
        },
        length_field(name) is None,
{
    let line = name + seq![':'] + value;
    let k = name.len() as int;
    lemma_first_at(line, seq![':'], 0);
    lemma_first_at(name, seq![':'], 0);
    assert(line.subrange(k, k + 1) =~= seq![':']);
    assert(occurs_at(line, seq![':'], k));
    assert forall|j: int| 0 <= j < k implies !occurs_at(line, seq![':'], j) by {
        if occurs_at(line, seq![':'], j) {
            assert(line.subrange(j, j + 1)[0] == ':');
            assert(name[j] == ':');
        }
    }
    assert forall|j: int| 0 <= j implies !occurs_at(name, seq![':'], j) by {
        if occurs_at(name, seq![':'], j) {
            assert(name.subrange(j, j + 1)[0] == ':');
            assert(name[j] == ':');
        }
    }
    assert(first_at(line, seq![':'], 0) == Some(k));
    assert(line.take(k) =~= name);
    assert(line.skip(k + 1) =~= value);
    reveal_strlit("content-length");
    reveal_strlit("Content-Length");
    let t = trimmed(name);
    let small = "content-length"@;
    let capital = "Content-Length"@;
    assert forall|i: int| 0 <= i < 14 implies ascii_lower(#[trigger] small[i]) == ascii_lower(
        capital[i],
    ) by {
        assert(i == 0 || i == 8 ==> small[i] == ascii_lower(capital[i]));
        assert(i != 0 && i != 8 ==> small[i] == capital[i]);
    }
    if same_ignoring_case(t, capital) {
        assert forall|i: int| 0 <= i < t.len() implies ascii_lower(#[trigger] t[i]) == ascii_lower(
            small[i],
        ) by {
            assert(ascii_lower(small[i]) == ascii_lower(capital[i]));
        }
        assert(same_ignoring_case(t, small));
    }
    if same_ignoring_case(t, small) {
        assert forall|i: int| 0 <= i < t.len() implies ascii_lower(#[trigger] t[i]) == ascii_lower(
            capital[i],
        ) by {
            assert(ascii_lower(small[i]) == ascii_lower(capital[i]));
        }
    }
}

/// A header block of a single line is read by that line alone: it is refused where the line
/// gives no length, or one that is no number.
pub proof fn lemma_single_line_header(line: Seq<char>)
    requires
        forall|i: int| 0 <= i < line.len() ==> #[trigger] line[i] != '\r',
    ensures
        block_length(line, None) == match length_field(line) {
            None => Err::<nat, FrameError>(FrameError::MissingLength),
            Some(v) => match parsed_unsigned(trimmed(v), usize::MAX as int) {
                Some(n) => Ok(n),
                None => Err(FrameError::InvalidLength),
            },
        },
{
    let p = seq!['\r', '\n'];
    lemma_first_at(line, p, 0);
    assert forall|j: int| 0 <= j implies !occurs_at(line, p, j) by {
        if occurs_at(line, p, j) {
            assert(line.subrange(j, j + 2)[0] == '\r');
            assert(line[j] == '\r');
        }
    }
    if let Some(i) = first_at(line, p, 0) {
        assert(occurs_at(line, p, i));
    }
}

/// What is read of a stream and what stays are parts of it: the body lies right in front of
/// the rest.
pub proof fn lemma_nothing_lost(buf: Seq<u8>)
    ensures
        first_frame(buf) matches Ok(Some((body, rest))) ==> body.len() + rest.len() + 4
            <= buf.len() && buf.skip(buf.len() - rest.len()) == rest && buf.subrange(
            buf.len() - rest.len() - body.len(),
            buf.len() - rest.len(),
        ) == body,
{
    if let Ok(Some((body, rest))) = first_frame(buf) {
        lemma_header_ends(buf, 0);
        let (start, n) = header_of(buf)->Ok_0->0;
        assert(buf.skip(buf.len() - rest.len()) =~= rest);
        assert(buf.subrange(buf.len() - rest.len() - body.len(), buf.len() - rest.len()) =~= body);
    }
}

} // verus!
