//! File URIs and paths.

use crate::text::char_from;
use crate::text::chars_of;
use crate::text::find_char;
use crate::text::has_prefix;
use crate::text::lossy_text;
use crate::text::push_str;
use crate::text::starts_with;
use crate::text::string_of;
use crate::text::string_of_all;
use crate::text::utf8_lossy;
use crate::util::paths::is_absolute_path;
use vstd::prelude::*;
use vstd::utf8::decode_utf8;
use vstd::utf8::encode_utf8;
use vstd::utf8::encode_utf8_decode_utf8;
use vstd::utf8::encode_utf8_valid_utf8;
use vstd::utf8::is_ascii_chars;
use vstd::utf8::is_ascii_chars_encode_utf8;
use vstd::utf8::valid_utf8;

verus! {

// ---------------------------------------------------------------------------
// from a URI to a path
// ---------------------------------------------------------------------------

/// The value of a hexadecimal digit.
pub open spec fn hex_digit(b: u8) -> Option<u8> {
    if 0x30 <= b <= 0x39 {
        Some((b - 0x30) as u8)
    } else if 0x61 <= b <= 0x66 {
        Some((b - 0x61 + 10) as u8)
    } else if 0x41 <= b <= 0x46 {
        Some((b - 0x41 + 10) as u8)
    } else {
        None
    }
}

/// The value of a hexadecimal digit.
pub fn hex_val(b: u8) -> (r: Option<u8>)
    ensures
        r == hex_digit(b),
        r matches Some(v) ==> v < 16,
{
    if 0x30 <= b && b <= 0x39 {
        Some(b - 0x30)
    } else if 0x61 <= b && b <= 0x66 {
        Some(b - 0x61 + 10)
    } else if 0x41 <= b && b <= 0x46 {
        Some(b - 0x41 + 10)
    } else {
        None
    }
}

/// Whether an escape `%XX` stands at `i`.
pub open spec fn escape_at(b: Seq<u8>, i: int) -> bool {
    b[i] == 0x25 && i + 2 < b.len() && hex_digit(b[i + 1]) is Some && hex_digit(b[i + 2]) is Some
}

/// The bytes from `i` on with each escape replaced by its byte. A stray or cut
/// off `%` stands for itself.
pub open spec fn decoded(b: Seq<u8>, i: int) -> Seq<u8>
    decreases b.len() - i,
{
    if i < 0 || i >= b.len() {
        Seq::empty()
    } else if escape_at(b, i) {
        seq![(hex_digit(b[i + 1])->0 * 16 + hex_digit(b[i + 2])->0) as u8] + decoded(b, i + 3)
    } else {
        seq![b[i]] + decoded(b, i + 1)
    }
}

/// Percent-decode byte by byte, then read the bytes as UTF-8.
pub fn percent_decode(s: &str) -> (r: String)
    ensures
        r@ == lossy_text(decoded(encode_utf8(s@), 0)),
        valid_utf8(decoded(encode_utf8(s@), 0)) ==> r@ == decode_utf8(
            decoded(encode_utf8(s@), 0),
        ),
{
    let bytes = s.as_bytes();
    let ghost bv = bytes@;
    let mut out: Vec<u8> = Vec::new();
    let mut i: usize = 0;
    assert(out@ + decoded(bv, 0) =~= decoded(bv, 0));
    while i < bytes.len()
        invariant
            i <= bytes.len(),
            bv == bytes@,
            out@ + decoded(bv, i as int) == decoded(bv, 0),
        decreases bytes.len() - i,
    {
        let ghost before = out@;
        if bytes[i] == 0x25 && bytes.len() - i > 2 {
            if let (Some(h), Some(l)) = (hex_val(bytes[i + 1]), hex_val(bytes[i + 2])) {
                let v: u8 = h * 16 + l;
                out.push(v);
                assert(before.push(v) + decoded(bv, i + 3) =~= before + decoded(bv, i as int));
                i = i + 3;
                continue;
            }
        }
        out.push(bytes[i]);
        assert(before.push(bv[i as int]) + decoded(bv, i + 1) =~= before + decoded(bv, i as int));
        i = i + 1;
    }
    assert(out@ =~= decoded(bv, 0));
    utf8_lossy(out.as_slice())
}

/// What stands behind the scheme and the host of a file URI.
pub open spec fn uri_rest(uri: Seq<char>) -> Seq<char> {
    if has_prefix(uri, "file://"@) {
        let r = uri.skip(7);
        match char_from(r, '/', 0) {
            Some(i) => r.skip(i),
            None => r,
        }
    } else {
        uri
    }
}

/// The bytes of the path that a URI stands for.
pub open spec fn uri_bytes(uri: Seq<char>) -> Seq<u8> {
    decoded(encode_utf8(uri_rest(uri)), 0)
}

/// The path that a file URI stands for. A host is dropped; a text that is no
/// file URI is taken for a path.
pub fn uri_to_path(uri: &str) -> (r: String)
    ensures
        r@ == lossy_text(uri_bytes(uri@)),
        valid_utf8(uri_bytes(uri@)) ==> r@ == decode_utf8(uri_bytes(uri@)),
{
    let cs = chars_of(uri);
    if starts_with(cs.as_slice(), "file://") {
        proof {
            reveal_strlit("file://");
        }
        let rest = string_of(cs.as_slice(), 7, cs.len());
        assert(rest@ =~= uri@.skip(7));
        let rc = chars_of(rest.as_str());
        match find_char(rc.as_slice(), '/', 0) {
            Some(i) => {
                let path = string_of(rc.as_slice(), i, rc.len());
                assert(path@ =~= rest@.skip(i as int));
                percent_decode(path.as_str())
            },
            None => percent_decode(rest.as_str()),
        }
    } else {
        percent_decode(uri)
    }
}

// ---------------------------------------------------------------------------
// from a path to a URI
// ---------------------------------------------------------------------------

/// Whether a byte of a path stands for itself in a URI.
pub open spec fn unreserved(b: u8) -> bool {
    0x41 <= b <= 0x5a || 0x61 <= b <= 0x7a || 0x30 <= b <= 0x39 || b == 0x2f || b == 0x2d || b
        == 0x2e || b == 0x5f || b == 0x7e
}

/// The upper-case hexadecimal digit of a value.
pub open spec fn upper_hex(v: int) -> char {
    if v < 10 {
        (0x30 + v) as char
    } else {
        (0x41 + v - 10) as char
    }
}

/// How a byte of a path is written in a URI.
pub open spec fn escaped_byte(b: u8) -> Seq<char> {
    if unreserved(b) {
        seq![b as char]
    } else {
        seq!['%', upper_hex(b as int / 16), upper_hex(b as int % 16)]
    }
}

/// How the bytes of a path, from `i` on, are written in a URI.
pub open spec fn escaped(b: Seq<u8>, i: int) -> Seq<char>
    decreases b.len() - i,
{
    if i < 0 || i >= b.len() {
        Seq::empty()
    } else {
        escaped_byte(b[i]) + escaped(b, i + 1)
    }
}

/// The file URI of a path.
pub open spec fn file_uri(path: Seq<char>) -> Seq<char> {
    "file://"@ + escaped(encode_utf8(path), 0)
}

/// The upper-case hexadecimal digit of a value.
fn hex_upper(v: u8) -> (r: char)
    requires
        v < 16,
    ensures
        r == upper_hex(v as int),
{
    if v < 10 {
        (0x30u8 + v) as char
    } else {
        (0x41u8 + (v - 10)) as char
    }
}

/// The file URI of a path: everything but the unreserved characters and the
/// slash is percent-encoded.
pub fn path_to_file_uri(path: &str) -> (r: String)
    ensures
        r@ == file_uri(path@),
{
    let bytes = path.as_bytes();
    let ghost bv = bytes@;
    let mut out: Vec<char> = Vec::new();
    push_str(&mut out, "file://");
    let mut i: usize = 0;
    assert(out@ + escaped(bv, 0) =~= file_uri(path@));
    while i < bytes.len()
        invariant
            i <= bytes.len(),
            bv == bytes@,
            out@ + escaped(bv, i as int) == file_uri(path@),
        decreases bytes.len() - i,
    {
        let b = bytes[i];
        let ghost before = out@;
        let plain = (0x41 <= b && b <= 0x5a) || (0x61 <= b && b <= 0x7a) || (0x30 <= b && b <= 0x39)
            || b == 0x2f || b == 0x2d || b == 0x2e || b == 0x5f || b == 0x7e;
        if plain {
            out.push(b as char);
        } else {
            out.push('%');
            out.push(hex_upper(b / 16));
            out.push(hex_upper(b % 16));
        }
        assert(out@ =~= before + escaped_byte(b));
        assert(out@ + escaped(bv, i + 1) =~= before + escaped(bv, i as int));
        i = i + 1;
    }
    assert(out@ =~= file_uri(path@));
    string_of_all(out.as_slice())
}

// ---------------------------------------------------------------------------
// laws
// ---------------------------------------------------------------------------

/// What an escaped byte is made of: ASCII characters, of which the first is no
/// percent sign where it stands alone.
proof fn lemma_escaped_byte(b: u8)
    ensures
        is_ascii_chars(escaped_byte(b)),
        unreserved(b) ==> escaped_byte(b)[0] as u8 == b && b != 0x25,
        !unreserved(b) ==> {
            &&& escaped_byte(b)[0] as u8 == 0x25
            &&& hex_digit(escaped_byte(b)[1] as u8) == Some((b / 16) as u8)
            &&& hex_digit(escaped_byte(b)[2] as u8) == Some((b % 16) as u8)
        },
{
}

/// The escaped bytes are ASCII characters.
proof fn lemma_escaped_ascii(b: Seq<u8>, i: int)
    requires
        0 <= i <= b.len(),
    ensures
        is_ascii_chars(escaped(b, i)),
    decreases b.len() - i,
{
    if i < b.len() {
        lemma_escaped_byte(b[i]);
        lemma_escaped_ascii(b, i + 1);
    }
}

/// Decoding behind a prefix does not depend on it.
pub proof fn lemma_decoded_behind(a: Seq<u8>, b: Seq<u8>, i: int)
    requires
        0 <= i <= b.len(),
    ensures
        decoded(a + b, a.len() + i) == decoded(b, i),
    decreases b.len() - i,
{
    let s = a + b;
    if i < b.len() {
        assert(s[a.len() + i] == b[i]);
        if i + 2 < b.len() {
            assert(s[a.len() + i + 1] == b[i + 1]);
            assert(s[a.len() + i + 2] == b[i + 2]);
        }
        if escape_at(b, i) {
            lemma_decoded_behind(a, b, i + 3);
            assert(a.len() + i + 3 == a.len() + (i + 3));
        } else {
            lemma_decoded_behind(a, b, i + 1);
            assert(a.len() + i + 1 == a.len() + (i + 1));
        }
    }
}

/// Decoding what was escaped gives the bytes back.
proof fn lemma_decode_escaped(b: Seq<u8>, i: int)
    requires
        0 <= i <= b.len(),
    ensures
        decoded(encode_utf8(escaped(b, i)), 0) == b.skip(i),
    decreases b.len() - i,
{
    let e = escaped(b, i);
    lemma_escaped_ascii(b, i);
    is_ascii_chars_encode_utf8(e);
    let eb = encode_utf8(e);
    if i < b.len() {
        let head = escaped_byte(b[i]);
        let tail = escaped(b, i + 1);
        lemma_escaped_byte(b[i]);
        lemma_escaped_ascii(b, i + 1);
        is_ascii_chars_encode_utf8(head);
        is_ascii_chars_encode_utf8(tail);
        let hb = encode_utf8(head);
        let tb = encode_utf8(tail);
        assert(eb =~= hb + tb) by {
            assert forall|k: int| 0 <= k < eb.len() implies eb[k] == (hb + tb)[k] by {
                assert(eb[k] == e[k] as u8);
                if k < head.len() {
                    assert(e[k] == head[k]);
                } else {
                    assert(e[k] == tail[k - head.len()]);
                }
            }
        }
        lemma_decode_escaped(b, i + 1);
        lemma_decoded_behind(hb, tb, 0);
        assert(hb[0] == head[0] as u8);
        if unreserved(b[i]) {
            assert(eb[0] == b[i]);
            assert(decoded(eb, 0) == seq![eb[0]] + decoded(eb, 1));
        } else {
            assert(hb[1] == head[1] as u8);
            assert(hb[2] == head[2] as u8);
            assert(eb[0] == 0x25 && eb[1] == hb[1] && eb[2] == hb[2]);
            assert(escape_at(eb, 0));
            assert(b[i] / 16 * 16 + b[i] % 16 == b[i]);
            assert(decoded(eb, 0) == seq![b[i]] + decoded(eb, 3));
        }
        assert(b.skip(i) =~= seq![b[i]] + b.skip(i + 1));
    } else {
        assert(eb =~= Seq::empty());
        assert(b.skip(i) =~= Seq::empty());
    }
}

/// The path of the file URI of an absolute path is that path.
pub proof fn lemma_uri_round_trip(path: Seq<char>)
    requires
        is_absolute_path(path),
    ensures
        valid_utf8(uri_bytes(file_uri(path))),
        decode_utf8(uri_bytes(file_uri(path))) == path,
{
    reveal_strlit("file://");
    let b = encode_utf8(path);
    let e = escaped(b, 0);
    let uri = file_uri(path);
    assert(uri.skip(7) =~= e);
    assert(uri.take(7) =~= "file://"@);
    assert(path[0] == '/');
    let first = seq!['/'];
    assert(path =~= first + path.drop_first());
    assert(b[0] == 0x2f) by {
        let c = '/' as u32;
        assert(is_ascii_chars(first));
        is_ascii_chars_encode_utf8(first);
        assert(encode_utf8(first.drop_first()) =~= Seq::<u8>::empty());
        assert(encode_utf8(first)[0] == 0x2f);
    }
    assert(e[0] == '/');
    assert(char_from(e, '/', 0) == Some(0int));
    assert(e.skip(0) =~= e);
    lemma_decode_escaped(b, 0);
    assert(b.skip(0) =~= b);
    encode_utf8_valid_utf8(path);
    encode_utf8_decode_utf8(path);
}

} // verus!
