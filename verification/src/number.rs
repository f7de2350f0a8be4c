//! Numbers as text: decimal and hexadecimal, written and read.

use crate::text::string_of_all;
use vstd::prelude::*;

verus! {

/// The character of a decimal digit.
pub open spec fn digit_char(d: nat) -> char {
    (0x30 + d) as char
}

/// Whether `c` is one of `0` to `9`.
pub open spec fn is_digit(c: char) -> bool {
    '0' <= c <= '9'
}

/// The value of a decimal digit character.
pub open spec fn digit_value(c: char) -> nat {
    (c as u32 - 0x30) as nat
}

/// `n` in decimal, without leading zeros.
pub open spec fn decimal(n: nat) -> Seq<char>
    decreases n,
{
    if n < 10 {
        seq![digit_char(n)]
    } else {
        decimal(n / 10).push(digit_char(n % 10))
    }
}

/// `n` in decimal, with a leading `-` when negative.
pub open spec fn decimal_int(n: int) -> Seq<char> {
    if n < 0 {
        seq!['-'] + decimal((-n) as nat)
    } else {
        decimal(n as nat)
    }
}

/// The value that a run of decimal digits denotes.
pub open spec fn decimal_value(s: Seq<char>) -> nat
    decreases s.len(),
{
    if s.len() == 0 {
        0
    } else {
        decimal_value(s.drop_last()) * 10 + digit_value(s.last())
    }
}

/// Whether every character of `s` is a decimal digit.
pub open spec fn all_digits(s: Seq<char>) -> bool {
    forall|i: int| 0 <= i < s.len() ==> is_digit(#[trigger] s[i])
}

/// What a run of digits denotes, if it is one and fits under `max`.
pub open spec fn digits_upto(s: Seq<char>, max: int) -> Option<nat> {
    if s.len() > 0 && all_digits(s) && decimal_value(s) <= max {
        Some(decimal_value(s))
    } else {
        None
    }
}

/// `str::parse` for an unsigned type with largest value `max`: digits, after
/// an optional `+`.
pub open spec fn parsed_unsigned(s: Seq<char>, max: int) -> Option<nat> {
    if s.len() > 0 && s[0] == '+' {
        digits_upto(s.skip(1), max)
    } else {
        digits_upto(s, max)
    }
}

/// `str::parse` for a signed type that reaches from `-max - 1` to `max`.
pub open spec fn parsed_signed(s: Seq<char>, max: int) -> Option<int> {
    if s.len() > 0 && s[0] == '-' {
        match digits_upto(s.skip(1), max + 1) {
            Some(n) => Some(-(n as int)),
            None => None,
        }
    } else {
        match parsed_unsigned(s, max) {
            Some(n) => Some(n as int),
            None => None,
        }
    }
}

/// Writing a number and reading it back gives the number.
pub proof fn lemma_decimal_round_trip(n: nat)
    ensures
        decimal(n).len() > 0,
        all_digits(decimal(n)),
        decimal_value(decimal(n)) == n,
    decreases n,
{
    if n < 10 {
        assert(decimal(n).drop_last() == Seq::<char>::empty());
        assert(decimal_value(Seq::<char>::empty()) == 0);
    } else {
        lemma_decimal_round_trip(n / 10);
        assert(decimal(n).drop_last() == decimal(n / 10));
    }
}

/// A prefix of a run of digits denotes no more than the whole run.
proof fn lemma_decimal_value_prefix(s: Seq<char>, i: int)
    requires
        0 <= i <= s.len(),
    ensures
        decimal_value(s.take(i)) <= decimal_value(s),
    decreases s.len(),
{
    if i == s.len() {
        assert(s.take(i) == s);
    } else {
        assert(s.drop_last().take(i) == s.take(i));
        lemma_decimal_value_prefix(s.drop_last(), i);
    }
}

/// The character of a decimal digit.
fn digit(d: u64) -> (c: char)
    requires
        d < 10,
    ensures
        c == digit_char(d as nat),
{
    let b: u8 = 0x30 + (d as u8);
    b as char
}

/// Append `n` in decimal.
pub fn push_decimal(out: &mut Vec<char>, n: u64)
    ensures
        final(out)@ == old(out)@ + decimal(n as nat),
    decreases n,
{
    if n < 10 {
        out.push(digit(n));
    } else {
        let ghost before = out@;
        push_decimal(out, n / 10);
        out.push(digit(n % 10));
        assert(out@ == before + decimal(n as nat));
    }
}

/// `n` in decimal.
pub fn decimal_u64(n: u64) -> (r: String)
    ensures
        r@ == decimal(n as nat),
{
    let mut out: Vec<char> = Vec::new();
    push_decimal(&mut out, n);
    string_of_all(out.as_slice())
}

/// `n` in decimal.
pub fn decimal_i64(n: i64) -> (r: String)
    ensures
        r@ == decimal_int(n as int),
{
    let mut out: Vec<char> = Vec::new();
    if n < 0 {
        out.push('-');
        // The magnitude of `i64::MIN` does not fit in an `i64`.
        let m: u64 = ((-(n + 1)) as u64) + 1;
        push_decimal(&mut out, m);
    } else {
        push_decimal(&mut out, n as u64);
    }
    string_of_all(out.as_slice())
}

/// Read `cs[from..to]` as a run of digits that denotes at most `max`.
pub fn parse_digits(cs: &[char], from: usize, to: usize, max: u64) -> (r: Option<u64>)
    requires
        from <= to <= cs.len(),
    ensures
        match r {
            Some(n) => digits_upto(cs@.subrange(from as int, to as int), max as int) == Some(
                n as nat,
            ),
            None => digits_upto(cs@.subrange(from as int, to as int), max as int) is None,
        },
{
    let ghost s = cs@.subrange(from as int, to as int);
    if from == to {
        return None;
    }
    let mut n: u64 = 0;
    let mut i: usize = from;
    while i < to
        invariant
            from <= i <= to <= cs.len(),
            s == cs@.subrange(from as int, to as int),
            n <= max,
            n == decimal_value(s.take(i - from)),
            forall|k: int| 0 <= k < i - from ==> is_digit(#[trigger] s[k]),
        decreases to - i,
    {
        let c = cs[i];
        assert(s[i - from] == c);
        if c < '0' || c > '9' {
            return None;
        }
        let d: u64 = (c as u32 - 0x30) as u64;
        proof {
            assert(s.take(i - from + 1).drop_last() == s.take(i - from));
            lemma_decimal_value_prefix(s, i - from + 1);
        }
        if n > max / 10 {
            return None;
        }
        let m: u64 = n * 10;
        if d > max - m {
            return None;
        }
        n = m + d;
        i = i + 1;
    }
    assert(s.take(to - from) == s);
    Some(n)
}

/// `str::parse` of `cs[from..to]` for an unsigned type with largest value `max`.
pub fn parse_unsigned(cs: &[char], from: usize, to: usize, max: u64) -> (r: Option<u64>)
    requires
        from <= to <= cs.len(),
    ensures
        match r {
            Some(n) => parsed_unsigned(cs@.subrange(from as int, to as int), max as int) == Some(
                n as nat,
            ),
            None => parsed_unsigned(cs@.subrange(from as int, to as int), max as int) is None,
        },
{
    let ghost s = cs@.subrange(from as int, to as int);
    if from < to && cs[from] == '+' {
        assert(s.skip(1) == cs@.subrange(from + 1, to as int));
        parse_digits(cs, from + 1, to, max)
    } else {
        parse_digits(cs, from, to, max)
    }
}

/// `str::parse` of `cs[from..to]` for a signed type with largest value `max`.
pub fn parse_signed(cs: &[char], from: usize, to: usize, max: i64) -> (r: Option<i64>)
    requires
        from <= to <= cs.len(),
        max >= 0,
    ensures
        match r {
            Some(n) => parsed_signed(cs@.subrange(from as int, to as int), max as int) == Some(
                n as int,
            ),
            None => parsed_signed(cs@.subrange(from as int, to as int), max as int) is None,
        },
{
    let ghost s = cs@.subrange(from as int, to as int);
    if from < to && cs[from] == '-' {
        assert(s.skip(1) == cs@.subrange(from + 1, to as int));
        match parse_digits(cs, from + 1, to, max as u64 + 1) {
            Some(n) => if n == 0 {
                Some(0)
            } else {
                Some(-((n - 1) as i64) - 1)
            },
            None => None,
        }
    } else {
        match parse_unsigned(cs, from, to, max as u64) {
            Some(n) => Some(n as i64),
            None => None,
        }
    }
}

// ---------------------------------------------------------------------------
// fixed width
// ---------------------------------------------------------------------------

/// The character of a lower-case hexadecimal digit.
pub open spec fn hex_char(d: nat) -> char {
    if d < 10 {
        (0x30 + d) as char
    } else {
        (0x61 + (d - 10)) as char
    }
}

/// The last `width` hexadecimal digits of `n`, lower case.
pub open spec fn hex_padded(n: nat, width: nat) -> Seq<char>
    decreases width,
{
    if width == 0 {
        Seq::empty()
    } else {
        hex_padded(n / 16, (width - 1) as nat).push(hex_char(n % 16))
    }
}

/// `n` in decimal, with zeros in front up to `width` digits.
pub open spec fn decimal_padded(n: nat, width: nat) -> Seq<char> {
    let d = decimal(n);
    if d.len() < width {
        Seq::new((width - d.len()) as nat, |i: int| '0') + d
    } else {
        d
    }
}

/// How many numbers `width` hexadecimal digits tell apart.
pub open spec fn hex_count(width: nat) -> nat
    decreases width,
{
    if width == 0 {
        1
    } else {
        16 * hex_count((width - 1) as nat)
    }
}

/// A number that fits is known from its hexadecimal digits.
pub proof fn lemma_hex_padded_injective(n: nat, m: nat, width: nat)
    requires
        n < hex_count(width),
        m < hex_count(width),
        hex_padded(n, width) == hex_padded(m, width),
    ensures
        n == m,
    decreases width,
{
    if width > 0 {
        let w = (width - 1) as nat;
        let a = hex_padded(n / 16, w);
        let b = hex_padded(m / 16, w);
        assert(hex_padded(n, width).drop_last() =~= a);
        assert(hex_padded(m, width).drop_last() =~= b);
        assert(hex_padded(n, width).last() == hex_char(n % 16));
        assert(hex_padded(m, width).last() == hex_char(m % 16));
        lemma_hex_padded_injective(n / 16, m / 16, w);
    }
}

/// Padded hexadecimal text has the width that was asked for.
pub proof fn lemma_hex_padded_len(n: nat, width: nat)
    ensures
        hex_padded(n, width).len() == width,
    decreases width,
{
    if width > 0 {
        lemma_hex_padded_len(n / 16, (width - 1) as nat);
    }
}

/// Append the last `width` hexadecimal digits of `n`.
pub fn push_hex(out: &mut Vec<char>, n: u64, width: usize)
    ensures
        final(out)@ == old(out)@ + hex_padded(n as nat, width as nat),
    decreases width,
{
    if width > 0 {
        let ghost before = out@;
        push_hex(out, n / 16, width - 1);
        let d: u8 = (n % 16) as u8;
        let b: u8 = if d < 10 {
            0x30 + d
        } else {
            0x61 + (d - 10)
        };
        out.push(b as char);
        assert(out@ == before + hex_padded(n as nat, width as nat));
    }
}

/// Append `n` in decimal, with zeros in front up to `width` digits.
pub fn push_padded(out: &mut Vec<char>, n: u64, width: usize)
    ensures
        final(out)@ == old(out)@ + decimal_padded(n as nat, width as nat),
{
    let ghost before = out@;
    let mut digits: Vec<char> = Vec::new();
    push_decimal(&mut digits, n);
    let mut k: usize = digits.len();
    while k < width
        invariant
            digits@ == decimal(n as nat),
            digits@.len() <= k,
            k <= width || k == digits@.len(),
            out@ == before + Seq::new((k - digits@.len()) as nat, |i: int| '0'),
        decreases width - k,
    {
        out.push('0');
        k = k + 1;
    }
    crate::text::push_range(out, digits.as_slice(), 0, digits.len());
    assert(digits@.subrange(0, digits@.len() as int) == digits@);
    assert(out@ == before + decimal_padded(n as nat, width as nat));
}

} // verus!
