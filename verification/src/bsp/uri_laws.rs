//! What file addresses look like and what is read out of them.

use crate::bsp::uri::decoded;
use crate::bsp::uri::escape_at;
use crate::bsp::uri::escaped_byte;
use crate::bsp::uri::hex_digit;
use crate::bsp::uri::lemma_decoded_behind;
use crate::bsp::uri::unreserved;
use crate::bsp::uri::upper_hex;
use crate::bsp::uri::uri_rest;
use crate::text::char_from;
use crate::text::has_prefix;
use crate::text::lemma_char_from;
use vstd::prelude::*;

verus! {

/// The digits of an escape are read alike in both cases of their letters.
pub proof fn lemma_hex_digits(k: u8)
    ensures
        k < 10 ==> hex_digit((0x30 + k) as u8) == Some(k),
        k < 6 ==> hex_digit((0x61 + k) as u8) == Some((10 + k) as u8) && hex_digit((0x41 + k) as u8)
            == Some((10 + k) as u8),
        hex_digit(0x67) is None && hex_digit(0x47) is None && hex_digit(0x2f) is None && hex_digit(
            0x3a,
        ) is None && hex_digit(0x40) is None && hex_digit(0x60) is None,
{
}

/// A percent sign in front of two digits stands for the byte of that number; any other byte
/// stands for itself.
pub proof fn lemma_escape_decoded(hi: u8, lo: u8, rest: Seq<u8>, plain: u8)
    requires
        hi < 16,
        lo < 16,
        plain != 0x25,
    ensures
        decoded(
            seq![0x25u8, upper_hex(hi as int) as u8, upper_hex(lo as int) as u8] + rest,
            0,
        ) == seq![(hi * 16 + lo) as u8] + decoded(rest, 0),
        decoded(seq![plain] + rest, 0) == seq![plain] + decoded(rest, 0),
{
    let e = seq![0x25u8, upper_hex(hi as int) as u8, upper_hex(lo as int) as u8];
    lemma_decoded_behind(e, rest, 0);
    lemma_decoded_behind(seq![plain], rest, 0);
    let s = e + rest;
    assert(s[0] == 0x25u8 && s[1] == e[1] && s[2] == e[2]);
    assert(hex_digit(e[1]) == Some(hi));
    assert(hex_digit(e[2]) == Some(lo));
    assert(escape_at(s, 0));
    assert((seq![plain] + rest)[0] == plain);
}

/// Letters, digits and the characters `/ - . _ ~` stand in an address as they are; every other
/// byte is escaped.
pub proof fn lemma_escaping(b: u8)
    ensures
        escaped_byte(b) == seq![b as char] <==> ('a' <= b as char <= 'z' || 'A' <= b as char <= 'Z'
            || '0' <= b as char <= '9' || b as char == '/' || b as char == '-' || b as char == '.'
            || b as char == '_' || b as char == '~'),
        escaped_byte(b).len() == 1 || (escaped_byte(b).len() == 3 && escaped_byte(b)[0] == '%'),
        escaped_byte(0x20) == seq!['%', '2', '0'],
{
    assert(escaped_byte(0x20) =~= seq!['%', '2', '0']);
    if !unreserved(b) {
        assert(escaped_byte(b).len() == 3);
        assert(seq![b as char].len() == 1);
    }
}

/// Without escapes the path of an address is what follows `file://` from the first slash on,
/// so that a host in front of it is dropped, and a text that is no such address is taken as
/// it is.
pub proof fn lemma_host_dropped(host: Seq<char>, path: Seq<char>, other: Seq<char>)
    requires
        !host.contains('/'),
        path.len() > 0,
        path[0] == '/',
        !has_prefix(other, "file://"@),
    ensures
        uri_rest("file://"@ + host + path) == path,
        uri_rest(other) == other,
{
    reveal_strlit("file://");
    let uri = "file://"@ + host + path;
    assert(uri.subrange(0, 7) =~= "file://"@);
    let r = uri.skip(7);
    assert(r =~= host + path);
    lemma_char_from(r, '/', 0);
    let k = host.len() as int;
    assert(r[k] == '/');
    assert forall|j: int| 0 <= j < k implies r[j] != '/' by {
        assert(host[j] == r[j]);
    }
    if let Some(i) = char_from(r, '/', 0) {
        assert(i == k);
        assert(r.skip(k) =~= path);
    }
}

} // verus!
