//! The SLF0 token streams inside `.xcactivitylog` files.
//!
//! The file is a token stream, not a document: after an ASCII payload the next
//! byte is a *delimiter* that names the token's type. String tokens are
//! length-prefixed (`NNN"` then exactly `NNN` bytes), so a string may itself
//! contain delimiter bytes or newlines. The tokenizer consumes every token
//! (even the ones it discards) to stay framed.

use crate::number::decimal;
use crate::number::is_digit;
use crate::number::lemma_decimal_round_trip;
use crate::number::parse_unsigned;
use crate::number::parsed_unsigned;
use crate::text::chars_of;
use crate::text::lossy_text;
use crate::text::push_text;
use crate::text::texts;
use crate::text::utf8_lossy;
use crate::text::utf8_text;
use vstd::prelude::*;
use vstd::utf8::decode_utf8;
use vstd::utf8::encode_utf8;
use vstd::utf8::encode_utf8_decode_utf8;
use vstd::utf8::encode_utf8_valid_utf8;
use vstd::utf8::is_ascii_chars;
use vstd::utf8::is_ascii_chars_encode_utf8;
use vstd::utf8::valid_utf8;

verus! {

// ---------------------------------------------------------------------------
// gzip
// ---------------------------------------------------------------------------

/// What the gzip members that make up some bytes hold, one after the other;
/// `None` where the bytes are not a run of whole gzip members.
pub uninterp spec fn gunzipped(bytes: Seq<u8>) -> Option<Seq<u8>>;

/// Whether bytes are long enough for a gzip header and start as one does.
pub open spec fn has_gzip_header(bytes: Seq<u8>) -> bool {
    bytes.len() >= 10 && bytes[0] == 0x1f && bytes[1] == 0x8b
}

/// `flate2::read::MultiGzDecoder`, read to its end or its first error: on whole
/// gzip members it gives what they hold, and without a gzip header it gives
/// nothing. Of members that were cut short it gives the front part of what the
/// whole ones hold. How much comes out in front of an error is left open.
#[verifier::external_body]
pub(crate) fn gunzip_partial(bytes: &[u8]) -> (r: Vec<u8>)
    ensures
        gunzipped(bytes@) matches Some(data) ==> r@ == data,
        !has_gzip_header(bytes@) ==> r@.len() == 0,
        forall|whole: Seq<u8>|
            bytes@.is_prefix_of(whole) ==> (#[trigger] gunzipped(whole) matches Some(data)
                ==> r@.is_prefix_of(data)),
{
    let mut out = Vec::new();
    let _ = std::io::Read::read_to_end(&mut flate2::read::MultiGzDecoder::new(bytes), &mut out);
    out
}

/// What may come out of a log's bytes: all that they hold where they are whole,
/// the front part of it where they were cut short, nothing where they are no
/// gzip stream.
pub open spec fn inflates_to(bytes: Seq<u8>, data: Seq<u8>) -> bool {
    &&& gunzipped(bytes) matches Some(all) ==> data == all
    &&& !has_gzip_header(bytes) ==> data.len() == 0
    &&& forall|whole: Seq<u8>|
        bytes.is_prefix_of(whole) ==> (#[trigger] gunzipped(whole) matches Some(all)
            ==> data.is_prefix_of(all))
}

// ---------------------------------------------------------------------------
// SLF0 tokenizer
// ---------------------------------------------------------------------------

/// Whether a byte ends the ASCII part of a token.
pub open spec fn is_delim(b: u8) -> bool {
    b == 0x22 || b == 0x23 || b == 0x5e || b == 0x28 || b == 0x25 || b == 0x40 || b == 0x2d || b
        == 0x2a
}

/// Whether a delimiter (`"`, `%` or `*`) announces a payload.
pub open spec fn has_payload(b: u8) -> bool {
    b == 0x22 || b == 0x25 || b == 0x2a
}

/// Where the first delimiter at or behind `i` stands; the end if there is none.
pub open spec fn delim_from(data: Seq<u8>, i: int) -> int
    decreases data.len() - i,
{
    if i < 0 || i >= data.len() || is_delim(data[i]) {
        i
    } else {
        delim_from(data, i + 1)
    }
}

/// The length that a token's ASCII part gives.
pub open spec fn token_length(prefix: Seq<u8>) -> Option<nat> {
    if valid_utf8(prefix) {
        parsed_unsigned(decode_utf8(prefix), usize::MAX as int)
    } else {
        None
    }
}

/// The texts of the string tokens from `i` on, up to the first token that is
/// malformed or cut short.
pub open spec fn strings_from(data: Seq<u8>, i: int) -> Seq<Seq<char>>
    decreases data.len() - i,
{
    if i < 0 || i >= data.len() {
        Seq::empty()
    } else {
        proof {
            lemma_delim_from(data, i);
        }
        let d = delim_from(data, i);
        if d >= data.len() {
            Seq::empty()
        } else if !has_payload(data[d]) {
            strings_from(data, d + 1)
        } else {
            match token_length(data.subrange(i, d)) {
                Some(n) => if d + 1 + n <= data.len() {
                    let rest = strings_from(data, d + 1 + n);
                    if data[d] == 0x22 {
                        seq![lossy_text(data.subrange(d + 1, d + 1 + n))] + rest
                    } else {
                        rest
                    }
                } else {
                    Seq::empty()
                },
                None => Seq::empty(),
            }
        }
    }
}

/// The texts of the string tokens of an SLF0 stream.
pub open spec fn slf_texts(data: Seq<u8>) -> Seq<Seq<char>> {
    if data.len() >= 4 && data.take(4) == seq![0x53u8, 0x4cu8, 0x46u8, 0x30u8] {
        strings_from(data, 4)
    } else {
        Seq::empty()
    }
}

/// A delimiter is searched forwards.
pub proof fn lemma_delim_from(data: Seq<u8>, i: int)
    requires
        0 <= i <= data.len(),
    ensures
        i <= delim_from(data, i) <= data.len(),
        delim_from(data, i) < data.len() ==> is_delim(data[delim_from(data, i)]),
        forall|k: int| i <= k < delim_from(data, i) ==> !is_delim(#[trigger] data[k]),
    decreases data.len() - i,
{
    if i < data.len() && !is_delim(data[i]) {
        lemma_delim_from(data, i + 1);
    }
}

/// Whether a byte ends the ASCII part of a token.
fn delimiter(b: u8) -> (r: bool)
    ensures
        r == is_delim(b),
{
    b == 0x22 || b == 0x23 || b == 0x5e || b == 0x28 || b == 0x25 || b == 0x40 || b == 0x2d || b
        == 0x2a
}

/// The length that a token's ASCII part gives.
fn parse_len(prefix: &[u8]) -> (r: Option<usize>)
    ensures
        match r {
            Some(n) => token_length(prefix@) == Some(n as nat),
            None => token_length(prefix@) is None,
        },
{
    match utf8_text(prefix) {
        Some(text) => {
            let cs = chars_of(text.as_str());
            let n = parse_unsigned(cs.as_slice(), 0, cs.len(), usize::MAX as u64);
            assert(cs@.subrange(0, cs@.len() as int) =~= decode_utf8(prefix@));
            match n {
                Some(n) => Some(n as usize),
                None => None,
            }
        },
        None => None,
    }
}

/// Every string token of a decompressed SLF0 stream. Class and JSON tokens are
/// length-prefixed too: consumed to stay framed, but not returned. Integer,
/// double, array, instance and null tokens carry no payload. Stops at the first
/// truncated token.
pub fn slf_strings(data: &[u8]) -> (r: Vec<String>)
    ensures
        texts(r@) == slf_texts(data@),
{
    let mut out: Vec<String> = Vec::new();
    assert(texts(out@) =~= Seq::<Seq<char>>::empty());
    if data.len() < 4 || data[0] != 0x53 || data[1] != 0x4c || data[2] != 0x46 || data[3] != 0x30 {
        proof {
            if data@.len() >= 4 && data@.take(4) == seq![0x53u8, 0x4cu8, 0x46u8, 0x30u8] {
                assert(data@.take(4)[0] == 0x53 && data@.take(4)[1] == 0x4c && data@.take(4)[2]
                    == 0x46 && data@.take(4)[3] == 0x30);
            }
        }
        return out;
    }
    proof {
        assert(data@.take(4) =~= seq![0x53u8, 0x4cu8, 0x46u8, 0x30u8]);
        assert(texts(out@) + strings_from(data@, 4) =~= slf_texts(data@));
    }
    let n: usize = data.len();
    let mut i: usize = 4;
    while i < n
        invariant_except_break
            texts(out@) + strings_from(data@, i as int) == slf_texts(data@),
        invariant
            i <= n,
            n == data.len(),
        ensures
            texts(out@) =~= slf_texts(data@),
        decreases n - i,
    {
        let start: usize = i;
        let mut d: usize = i;
        while d < n && !delimiter(data[d])
            invariant
                start <= d <= n,
                n == data.len(),
                delim_from(data@, start as int) == delim_from(data@, d as int),
            decreases n - d,
        {
            d = d + 1;
        }
        assert(d == delim_from(data@, start as int));
        if d >= n {
            break;
        }
        let delim = data[d];
        i = d + 1;
        if delim == 0x22 || delim == 0x25 || delim == 0x2a {
            let prefix = vstd::slice::slice_subrange(data, start, d);
            match parse_len(prefix) {
                Some(len) => {
                    if len > n - i {
                        break;
                    }
                    let end: usize = i + len;
                    if delim == 0x22 {
                        let ghost done = texts(out@);
                        let text = utf8_lossy(vstd::slice::slice_subrange(data, i, end));
                        push_text(&mut out, text.as_str());
                        assert(texts(out@) + strings_from(data@, end as int) =~= done
                            + strings_from(data@, start as int));
                    }
                    i = end;
                },
                None => {
                    break;
                },
            }
        }
    }
    out
}

/// A token as a stream's writer means it.
pub enum Token {
    /// A string.
    Text(Seq<u8>),
    /// A class name.
    Class(Seq<u8>),
    /// A JSON document.
    Document(Seq<u8>),
    /// A value written in front of a delimiter that announces no payload.
    Value(Seq<u8>, u8),
}

impl Token {
    /// What the format can hold: a payload whose length a `usize` counts, a
    /// value without delimiters.
    pub open spec fn wf(self) -> bool {
        match self {
            Token::Text(p) => p.len() <= usize::MAX,
            Token::Class(p) => p.len() <= usize::MAX,
            Token::Document(p) => p.len() <= usize::MAX,
            Token::Value(p, d) => {
                &&& forall|k: int| 0 <= k < p.len() ==> !is_delim(#[trigger] p[k])
                &&& is_delim(d)
                &&& !has_payload(d)
            },
        }
    }

    /// The bytes in front of the delimiter.
    pub open spec fn head(self) -> Seq<u8> {
        match self {
            Token::Text(p) => encode_utf8(decimal(p.len())),
            Token::Class(p) => encode_utf8(decimal(p.len())),
            Token::Document(p) => encode_utf8(decimal(p.len())),
            Token::Value(p, _) => p,
        }
    }

    /// The delimiter.
    pub open spec fn delim(self) -> u8 {
        match self {
            Token::Text(_) => 0x22,
            Token::Class(_) => 0x25,
            Token::Document(_) => 0x2a,
            Token::Value(_, d) => d,
        }
    }

    /// The bytes behind the delimiter.
    pub open spec fn payload(self) -> Seq<u8> {
        match self {
            Token::Text(p) => p,
            Token::Class(p) => p,
            Token::Document(p) => p,
            Token::Value(_, _) => Seq::empty(),
        }
    }
}

/// The bytes of some tokens.
pub open spec fn tokens_bytes(toks: Seq<Token>) -> Seq<u8>
    decreases toks.len(),
{
    if toks.len() == 0 {
        Seq::empty()
    } else {
        toks[0].head() + seq![toks[0].delim()] + toks[0].payload() + tokens_bytes(toks.drop_first())
    }
}

/// The texts of the strings among some tokens.
pub open spec fn token_texts(toks: Seq<Token>) -> Seq<Seq<char>>
    decreases toks.len(),
{
    if toks.len() == 0 {
        Seq::empty()
    } else {
        let rest = token_texts(toks.drop_first());
        match toks[0] {
            Token::Text(p) => seq![lossy_text(p)] + rest,
            _ => rest,
        }
    }
}

/// A token's head holds no delimiter, and gives the payload's length.
proof fn lemma_token_head(t: Token)
    requires
        t.wf(),
    ensures
        forall|k: int| 0 <= k < t.head().len() ==> !is_delim(#[trigger] t.head()[k]),
        is_delim(t.delim()),
        has_payload(t.delim()) <==> !(t is Value),
        has_payload(t.delim()) ==> token_length(t.head()) == Some(t.payload().len()),
{
    if !(t is Value) {
        let n = t.payload().len();
        let digits = decimal(n);
        lemma_decimal_round_trip(n);
        assert forall|i: int| 0 <= i < digits.len() implies '\0' <= #[trigger] digits[i]
            <= '\u{7f}' by {
            assert(is_digit(digits[i]));
        }
        assert(is_ascii_chars(digits));
        is_ascii_chars_encode_utf8(digits);
        encode_utf8_valid_utf8(digits);
        encode_utf8_decode_utf8(digits);
        assert forall|k: int| 0 <= k < t.head().len() implies !is_delim(#[trigger] t.head()[k]) by {
            assert(is_digit(digits[k]));
            assert(digits[k] as u8 == t.head()[k]);
        }
        assert(is_digit(digits[0]));
    }
}

/// A delimiter behind bytes that are none is the first.
proof fn lemma_delim_found(data: Seq<u8>, i: int, d: int)
    requires
        0 <= i <= d < data.len(),
        is_delim(data[d]),
        forall|k: int| i <= k < d ==> !is_delim(#[trigger] data[k]),
    ensures
        delim_from(data, i) == d,
    decreases d - i,
{
    if i < d {
        lemma_delim_found(data, i + 1, d);
    }
}

/// Tokens are read back behind any bytes.
proof fn lemma_tokens_from(pre: Seq<u8>, toks: Seq<Token>)
    requires
        forall|i: int| 0 <= i < toks.len() ==> (#[trigger] toks[i]).wf(),
    ensures
        strings_from(pre + tokens_bytes(toks), pre.len() as int) == token_texts(toks),
    decreases toks.len(),
{
    let data = pre + tokens_bytes(toks);
    let i = pre.len() as int;
    if toks.len() > 0 {
        let t = toks[0];
        let head = t.head();
        let rest = toks.drop_first();
        let next = pre + (head + seq![t.delim()] + t.payload());
        let d = i + head.len();
        lemma_token_head(t);
        assert(data =~= next + tokens_bytes(rest));
        assert(data[d] == t.delim());
        assert forall|k: int| i <= k < d implies !is_delim(#[trigger] data[k]) by {
            assert(data[k] == head[k - i]);
        }
        lemma_delim_found(data, i, d);
        assert(data.subrange(i, d) =~= head);
        let end = d + 1 + t.payload().len();
        assert(data.subrange(d + 1, end) =~= t.payload());
        assert(next.len() == end);
        assert forall|k: int| 0 <= k < rest.len() implies (#[trigger] rest[k]).wf() by {
            assert(rest[k] == toks[k + 1]);
        }
        lemma_tokens_from(next, rest);
    }
}

/// The tokenizer stays framed: whatever bytes the payloads hold, the strings
/// that were written are the strings that are read, in order.
pub proof fn lemma_slf_read_back(toks: Seq<Token>)
    requires
        forall|i: int| 0 <= i < toks.len() ==> (#[trigger] toks[i]).wf(),
    ensures
        slf_texts(seq![0x53u8, 0x4cu8, 0x46u8, 0x30u8] + tokens_bytes(toks)) == token_texts(toks),
{
    let magic = seq![0x53u8, 0x4cu8, 0x46u8, 0x30u8];
    assert((magic + tokens_bytes(toks)).take(4) =~= magic);
    lemma_tokens_from(magic, toks);
}

/// The strings from `i` on of the first `n` bytes.
proof fn lemma_cut_from(data: Seq<u8>, n: int, i: int)
    requires
        0 <= i <= n <= data.len(),
    ensures
        strings_from(data.take(n), i).is_prefix_of(strings_from(data, i)),
    decreases n - i,
{
    let cut = data.take(n);
    if i < n {
        lemma_delim_from(cut, i);
        let d = delim_from(cut, i);
        if d < n {
            assert forall|k: int| i <= k < d implies !is_delim(#[trigger] data[k]) by {
                assert(cut[k] == data[k]);
            }
            lemma_delim_found(data, i, d);
            assert(cut.subrange(i, d) =~= data.subrange(i, d));
            if !has_payload(data[d]) {
                lemma_cut_from(data, n, d + 1);
            } else if let Some(len) = token_length(data.subrange(i, d)) {
                let end = d + 1 + len;
                if end <= n {
                    lemma_cut_from(data, n, end);
                    assert(cut.subrange(d + 1, end) =~= data.subrange(d + 1, end));
                }
            }
        }
    }
}

/// A stream that was cut short gives the strings in front of the cut: none is
/// made up, changed or left out between them.
pub proof fn lemma_cut_stream(data: Seq<u8>, cut: Seq<u8>)
    requires
        cut.is_prefix_of(data),
    ensures
        slf_texts(cut).is_prefix_of(slf_texts(data)),
{
    let n = cut.len() as int;
    assert(cut =~= data.take(n));
    if n >= 4 {
        assert(cut.take(4) =~= data.take(4));
        lemma_cut_from(data, n, 4);
    }
}

} // verus!
