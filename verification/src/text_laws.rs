//! What the notions of texts and numbers come to on characters.

use crate::commands::select::is_sorted_of;
use crate::json::JsonView;
use crate::json::NumberView;
use crate::number::decimal;
use crate::number::decimal_int;
use crate::number::decimal_padded;
use crate::number::decimal_value;
use crate::number::digits_upto;
use crate::number::parsed_unsigned;
use crate::order::in_order;
use crate::text::ascii_lower;
use crate::text::has_infix;
use crate::text::has_prefix;
use crate::text::has_suffix;
use crate::text::in_context;
use crate::text::is_ascii_space;
use crate::text::is_space;
use crate::text::joined_with;
use crate::text::occurs_at;
use crate::text::same_ignoring_case;
use crate::text::without_cr;
use vstd::prelude::*;

verus! {

/// Only the capital letters of ASCII are made small, each into its own small letter.
pub proof fn lemma_small_letters(c: char)
    ensures
        !('A' <= c <= 'Z') ==> ascii_lower(c) == c,
        'A' <= c <= 'Z' ==> 'a' <= ascii_lower(c) <= 'z' && ascii_lower(c) as u32 - 'a' as u32
            == c as u32 - 'A' as u32,
{
}

/// Texts that are the same but for the case of their letters have the same length, and
/// letters alone make the difference.
pub proof fn lemma_same_but_for_case(a: Seq<char>, b: Seq<char>, i: int)
    ensures
        same_ignoring_case(a, a),
        same_ignoring_case(a, b) ==> same_ignoring_case(b, a) && a.len() == b.len(),
        same_ignoring_case(a, b) && 0 <= i < a.len() && a[i] != b[i] ==> ('a' <= a[i] <= 'z' && 'A'
            <= b[i] <= 'Z') || ('A' <= a[i] <= 'Z' && 'a' <= b[i] <= 'z'),
{
    if same_ignoring_case(a, b) && 0 <= i < a.len() && a[i] != b[i] {
        assert(ascii_lower(a[i]) == ascii_lower(b[i]));
    }
}

/// Spaces, tabs and line ends are white space; letters, digits and signs are not.
pub proof fn lemma_white_space(c: char)
    ensures
        is_space(' ') && is_space('\t') && is_space('\n') && is_space('\r'),
        '!' <= c <= '~' ==> !is_space(c),
        is_ascii_space(c) ==> is_space(c),
        c == ' ' || c == '\t' || c == '\n' || c == '\r' ==> is_ascii_space(c),
        '!' <= c <= '~' ==> !is_ascii_space(c),
{
}

/// A text begins, ends and is held where it stands.
pub proof fn lemma_parts(a: Seq<char>, b: Seq<char>, c: Seq<char>)
    ensures
        has_prefix(a + b, a),
        has_suffix(a + b, b),
        has_infix(a + b + c, b),
        has_prefix(a, b) ==> b.len() <= a.len() && a.take(b.len() as int) == b,
        has_suffix(a, b) ==> b.len() <= a.len() && a.skip(a.len() - b.len()) == b,
{
    assert((a + b).subrange(0, a.len() as int) =~= a);
    assert((a + b).subrange((a + b).len() - b.len(), (a + b).len() as int) =~= b);
    let k = a.len() as int;
    assert((a + b + c).subrange(k, k + b.len()) =~= b);
    assert(occurs_at(a + b + c, b, k));
    if has_prefix(a, b) {
        assert(a.take(b.len() as int) =~= a.subrange(0, b.len() as int));
    }
    if has_suffix(a, b) {
        assert(a.skip(a.len() - b.len()) =~= a.subrange(a.len() - b.len(), a.len() as int));
    }
}

/// An error is told behind what was being done.
pub proof fn lemma_context_told(what: Seq<char>, e: Seq<char>)
    ensures
        in_context(what, e) == what + ": "@ + e,
{
}

/// A list is put together with its separator between every two of its texts.
pub proof fn lemma_joining(parts: Seq<Seq<char>>, sep: Seq<char>, last: Seq<char>)
    ensures
        joined_with(Seq::<Seq<char>>::empty(), sep) == Seq::<char>::empty(),
        joined_with(seq![last], sep) == last,
        parts.len() > 0 ==> joined_with(parts.push(last), sep) == joined_with(parts, sep) + sep
            + last,
{
    assert(parts.push(last).drop_last() =~= parts);
}

/// A number is written in decimal: the last digit is its remainder by ten, and a negative one
/// has a sign in front.
pub proof fn lemma_decimal_digits(n: nat, d: nat)
    requires
        d < 10,
    ensures
        decimal(d).len() == 1 && decimal(d)[0] as u32 == '0' as u32 + d,
        n > 0 ==> decimal(n * 10 + d) == decimal(n) + decimal(d),
        n > 0 ==> decimal_int(-(n as int)) == seq!['-'] + decimal(n),
        decimal_int(n as int) == decimal(n),
{
    if n > 0 {
        assert((n * 10 + d) / 10 == n);
        assert((n * 10 + d) % 10 == d);
        assert(decimal(n * 10 + d) =~= decimal(n) + decimal(d));
    }
}

/// A number of fewer digits is filled up with zeros in front.
pub proof fn lemma_decimal_filled(n: nat, width: nat, i: int)
    ensures
        decimal_padded(n, width).len() >= width,
        decimal_padded(n, width).len() >= decimal(n).len(),
        decimal(n).len() >= width ==> decimal_padded(n, width) == decimal(n),
        has_suffix(decimal_padded(n, width), decimal(n)),
        0 <= i < width - decimal(n).len() ==> decimal_padded(n, width)[i] == '0',
{
    let p = decimal_padded(n, width);
    let d = decimal(n);
    assert(p.subrange(p.len() - d.len(), p.len() as int) =~= d);
}

/// The line end of a line loses its carriage return, and nothing else.
pub proof fn lemma_carriage_return(l: Seq<char>)
    ensures
        without_cr(l.push('\r')) == l,
        l.len() > 0 && l.last() != '\r' ==> without_cr(l) == l,
{
    assert(l.push('\r').drop_last() =~= l);
}

/// A number of JSON is read by the reading that is asked for, and what is no number by none.
pub proof fn lemma_numbers_read(n: NumberView, v: JsonView)
    ensures
        JsonView::Number(n).as_i64() == n.int,
        JsonView::Number(n).as_bits() == n.bits,
        v !is Number ==> v.as_i64() is None && v.as_bits() is None,
        v !is Str ==> v.as_str() is None,
        v !is Bool ==> v.as_bool() is None,
        v !is Array ==> v.as_array() is None,
        v !is Object ==> v.as_object() is None && v.get("name"@) is None,
{
}

/// A list is put in order without anything being lost.
pub proof fn lemma_sorted_lists(sorted: Seq<Seq<char>>, of: Seq<Seq<char>>)
    requires
        is_sorted_of(sorted, of),
    ensures
        sorted.len() == of.len(),
        in_order(sorted),
        sorted.to_multiset() == of.to_multiset(),
{
    sorted.to_multiset_ensures();
    of.to_multiset_ensures();
}

/// A number is read of digits alone, and only up to the largest that there is room for.
pub proof fn lemma_digits_read(s: Seq<char>, max: int, i: int)
    ensures
        digits_upto(s, max) matches Some(n) ==> s.len() > 0 && n <= max && n == decimal_value(s),
        digits_upto(s, max) is Some && 0 <= i < s.len() ==> '0' <= s[i] <= '9',
        s.len() == 0 ==> digits_upto(s, max) is None,
        decimal_value(s) > max ==> digits_upto(s, max) is None,
        0 <= i < s.len() && !('0' <= s[i] <= '9') ==> digits_upto(s, max) is None
            && (s[0] != '+' ==> parsed_unsigned(s, max) is None),
{
}

} // verus!
