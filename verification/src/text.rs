//! Strings as sequences of characters.
//!
//! The rest of the library works on `&str` at its surface and on slices of
//! characters inside; the functions here carry text between the two and hold
//! the few string operations that everything else is built from.

use vstd::prelude::*;
use vstd::utf8::decode_utf8;
use vstd::utf8::is_ascii_chars;
use vstd::utf8::valid_utf8;

verus! {

/// `String::push` appends the character to the string.
pub assume_specification[ String::push ](s: &mut String, c: char)
    ensures
        final(s)@ == old(s)@.push(c),
;

// ---------------------------------------------------------------------------
// characters and strings
// ---------------------------------------------------------------------------

/// The characters of `s`, in order.
pub fn chars_of(s: &str) -> (r: Vec<char>)
    ensures
        r@ == s@,
{
    let mut r: Vec<char> = Vec::new();
    for c in it: s.chars()
        invariant
            r@ == s@.take(it.index() as int),
            it.seq() == s@,
    {
        r.push(c);
    }
    proof {
        assert(s@.take(s@.len() as int) == s@);
    }
    r
}

/// The string made of `cs[from..to]`.
pub fn string_of(cs: &[char], from: usize, to: usize) -> (r: String)
    requires
        from <= to <= cs.len(),
    ensures
        r@ == cs@.subrange(from as int, to as int),
{
    let mut r = String::new();
    let mut i: usize = from;
    while i < to
        invariant
            from <= i <= to <= cs.len(),
            r@ == cs@.subrange(from as int, i as int),
        decreases to - i,
    {
        r.push(cs[i]);
        i = i + 1;
    }
    r
}

/// The string made of all of `cs`.
pub fn string_of_all(cs: &[char]) -> (r: String)
    ensures
        r@ == cs@,
{
    let r = string_of(cs, 0, cs.len());
    assert(cs@.subrange(0, cs@.len() as int) == cs@);
    r
}

/// A fresh `String` holding the characters of `s`.
pub fn owned(s: &str) -> (r: String)
    ensures
        r@ == s@,
{
    let mut r = String::new();
    r.append(s);
    assert(r@ == s@);
    r
}

/// The characters of a string that may be absent.
pub open spec fn opt_view(o: Option<String>) -> Option<Seq<char>> {
    match o {
        Some(s) => Some(s@),
        None => None,
    }
}

/// The characters of a borrowed string that may be absent.
pub open spec fn opt_str_view(o: Option<&str>) -> Option<Seq<char>> {
    match o {
        Some(s) => Some(s@),
        None => None,
    }
}

/// A copy of a string that may be absent.
pub fn copy_opt(o: &Option<String>) -> (r: Option<String>)
    ensures
        opt_view(r) == opt_view(*o),
{
    match o {
        Some(s) => Some(owned(s.as_str())),
        None => None,
    }
}

/// The mathematical value of a text or a message.
pub open spec fn text_result(r: Result<String, String>) -> Result<Seq<char>, Seq<char>> {
    match r {
        Ok(s) => Ok(s@),
        Err(e) => Err(e@),
    }
}

/// The text of an error met while doing something: `<what>: <error>`.
pub open spec fn in_context(what: Seq<char>, e: Seq<char>) -> Seq<char> {
    what + ": "@ + e
}

/// The text of an error met while doing something.
pub fn with_context(what: &str, e: &str) -> (r: String)
    ensures
        r@ == in_context(what@, e@),
{
    let mut m = owned(what);
    m.append(": ");
    m.append(e);
    m
}

/// Append `cs[from..to]` to `out`.
pub fn push_range(out: &mut Vec<char>, cs: &[char], from: usize, to: usize)
    requires
        from <= to <= cs.len(),
    ensures
        final(out)@ == old(out)@ + cs@.subrange(from as int, to as int),
{
    let ghost start = out@;
    let mut i: usize = from;
    while i < to
        invariant
            from <= i <= to <= cs.len(),
            out@ == start + cs@.subrange(from as int, i as int),
        decreases to - i,
    {
        out.push(cs[i]);
        i = i + 1;
    }
}

/// Append the characters of `s` to `out`.
pub fn push_str(out: &mut Vec<char>, s: &str)
    ensures
        final(out)@ == old(out)@ + s@,
{
    let cs = chars_of(s);
    push_range(out, cs.as_slice(), 0, cs.len());
    assert(cs@.subrange(0, cs@.len() as int) == s@);
}

/// Whether two strings hold the same characters.
pub fn str_eq(a: &str, b: &str) -> (r: bool)
    ensures
        r == (a@ == b@),
{
    let x = chars_of(a);
    let y = chars_of(b);
    assert(x@.subrange(0, x@.len() as int) == a@);
    range_eq(x.as_slice(), 0, x.len(), y.as_slice())
}

/// Whether `cs[from..to]` is exactly `other`.
pub fn range_eq(cs: &[char], from: usize, to: usize, other: &[char]) -> (r: bool)
    requires
        from <= to <= cs.len(),
    ensures
        r == (cs@.subrange(from as int, to as int) == other@),
{
    let ghost piece = cs@.subrange(from as int, to as int);
    if to - from != other.len() {
        assert(piece.len() != other@.len());
        return false;
    }
    let mut i: usize = 0;
    while i < other.len()
        invariant
            from <= to <= cs.len(),
            to - from == other.len(),
            i <= other.len(),
            piece == cs@.subrange(from as int, to as int),
            forall|k: int| 0 <= k < i ==> piece[k] == other@[k],
        decreases other.len() - i,
    {
        if cs[from + i] != other[i] {
            assert(piece[i as int] != other@[i as int]);
            return false;
        }
        i = i + 1;
    }
    assert(piece =~= other@);
    true
}

// ---------------------------------------------------------------------------
// prefixes, suffixes, searching
// ---------------------------------------------------------------------------

/// Whether `p` occurs in `s` at index `i`.
pub open spec fn occurs_at(s: Seq<char>, p: Seq<char>, i: int) -> bool {
    0 <= i && i + p.len() <= s.len() && s.subrange(i, i + p.len()) == p
}

/// Whether `s` begins with `p`.
pub open spec fn has_prefix(s: Seq<char>, p: Seq<char>) -> bool {
    occurs_at(s, p, 0)
}

/// Whether `s` ends with `p`.
pub open spec fn has_suffix(s: Seq<char>, p: Seq<char>) -> bool {
    occurs_at(s, p, s.len() - p.len())
}

/// Whether `p` occurs somewhere in `s`.
pub open spec fn has_infix(s: Seq<char>, p: Seq<char>) -> bool {
    exists|i: int| occurs_at(s, p, i)
}

/// Whether `p` occurs in `s` at index `i`.
pub fn matches_at(s: &[char], p: &[char], i: usize) -> (r: bool)
    ensures
        r == occurs_at(s@, p@, i as int),
{
    if i > s.len() || p.len() > s.len() - i {
        return false;
    }
    range_eq(s, i, i + p.len(), p)
}

/// `str::starts_with` on characters.
pub fn starts_with(s: &[char], p: &str) -> (r: bool)
    ensures
        r == has_prefix(s@, p@),
{
    let pc = chars_of(p);
    matches_at(s, pc.as_slice(), 0)
}

/// `str::ends_with` on characters.
pub fn ends_with(s: &[char], p: &str) -> (r: bool)
    ensures
        r == has_suffix(s@, p@),
{
    let pc = chars_of(p);
    if pc.len() > s.len() {
        return false;
    }
    matches_at(s, pc.as_slice(), s.len() - pc.len())
}

/// The first index at which `p` occurs in `s`, searching from `from`.
pub open spec fn first_at(s: Seq<char>, p: Seq<char>, from: int) -> Option<int>
    decreases s.len() - from,
{
    if from < 0 || from > s.len() {
        None
    } else if occurs_at(s, p, from) {
        Some(from)
    } else if from == s.len() {
        None
    } else {
        first_at(s, p, from + 1)
    }
}

/// What `first_at` finds is the least occurrence at or after `from`.
pub proof fn lemma_first_at(s: Seq<char>, p: Seq<char>, from: int)
    requires
        0 <= from <= s.len(),
    ensures
        match first_at(s, p, from) {
            Some(i) => from <= i && occurs_at(s, p, i) && forall|j: int|
                from <= j < i ==> !occurs_at(s, p, j),
            None => forall|j: int| from <= j ==> !occurs_at(s, p, j),
        },
    decreases s.len() - from,
{
    if !occurs_at(s, p, from) && from < s.len() {
        lemma_first_at(s, p, from + 1);
        assert forall|j: int| from <= j && (from + 1 <= j ==> !occurs_at(s, p, j)) implies !occurs_at(
            s,
            p,
            j,
        ) by {}
    }
}

/// Find `p` in `s` at or after `from`.
pub fn find_from(s: &[char], p: &[char], from: usize) -> (r: Option<usize>)
    requires
        from <= s.len(),
    ensures
        match r {
            Some(i) => first_at(s@, p@, from as int) == Some(i as int) && i + p.len() <= s.len(),
            None => first_at(s@, p@, from as int) is None,
        },
{
    let mut i: usize = from;
    loop
        invariant
            from <= i <= s.len(),
            first_at(s@, p@, from as int) == first_at(s@, p@, i as int),
        decreases s.len() - i,
    {
        if matches_at(s, p, i) {
            return Some(i);
        }
        if i == s.len() {
            return None;
        }
        i = i + 1;
    }
}

/// `str::contains` on characters.
pub fn contains(s: &[char], p: &str) -> (r: bool)
    ensures
        r == has_infix(s@, p@),
{
    let pc = chars_of(p);
    proof {
        lemma_first_at(s@, p@, 0);
    }
    match find_from(s, pc.as_slice(), 0) {
        Some(_) => true,
        None => false,
    }
}

// ---------------------------------------------------------------------------
// whitespace and trimming
// ---------------------------------------------------------------------------

/// The characters with Unicode's `White_Space` property.
pub open spec fn is_space(c: char) -> bool {
    let v = c as u32;
    ||| 0x09 <= v <= 0x0d
    ||| v == 0x20
    ||| v == 0x85
    ||| v == 0xa0
    ||| v == 0x1680
    ||| 0x2000 <= v <= 0x200a
    ||| v == 0x2028
    ||| v == 0x2029
    ||| v == 0x202f
    ||| v == 0x205f
    ||| v == 0x3000
}

/// Whether `c` has Unicode's `White_Space` property.
pub fn whitespace(c: char) -> (r: bool)
    ensures
        r == is_space(c),
{
    let v: u32 = c as u32;
    (0x09 <= v && v <= 0x0d) || v == 0x20 || v == 0x85 || v == 0xa0 || v == 0x1680 || (0x2000 <= v
        && v <= 0x200a) || v == 0x2028 || v == 0x2029 || v == 0x202f || v == 0x205f || v == 0x3000
}

/// Space, tab, line feed, form feed, carriage return.
pub open spec fn is_ascii_space(c: char) -> bool {
    c == ' ' || c == '\t' || c == '\n' || c == '\x0c' || c == '\r'
}

/// Whether `c` is ASCII whitespace.
pub fn ascii_whitespace(c: char) -> (r: bool)
    ensures
        r == is_ascii_space(c),
{
    c == ' ' || c == '\t' || c == '\n' || c == '\x0c' || c == '\r'
}

/// `s` without its longest suffix of characters that satisfy `p`.
pub open spec fn trim_end_by(s: Seq<char>, p: spec_fn(char) -> bool) -> Seq<char>
    decreases s.len(),
{
    if s.len() > 0 && p(s.last()) {
        trim_end_by(s.drop_last(), p)
    } else {
        s
    }
}

/// `s` without its longest prefix of characters that satisfy `p`.
pub open spec fn trim_start_by(s: Seq<char>, p: spec_fn(char) -> bool) -> Seq<char>
    decreases s.len(),
{
    if s.len() > 0 && p(s[0]) {
        trim_start_by(s.drop_first(), p)
    } else {
        s
    }
}

/// `s` without surrounding whitespace.
pub open spec fn trimmed(s: Seq<char>) -> Seq<char> {
    trim_start_by(trim_end_by(s, |c: char| is_space(c)), |c: char| is_space(c))
}

/// The bounds of `cs[from..to]` without surrounding whitespace.
pub fn trim_range(cs: &[char], from: usize, to: usize) -> (r: (usize, usize))
    requires
        from <= to <= cs.len(),
    ensures
        from <= r.0 <= r.1 <= to,
        cs@.subrange(r.0 as int, r.1 as int) == trimmed(cs@.subrange(from as int, to as int)),
{
    let ghost sp = |c: char| is_space(c);
    let ghost whole = cs@.subrange(from as int, to as int);
    let mut b: usize = to;
    while b > from && whitespace(cs[b - 1])
        invariant
            from <= b <= to <= cs.len(),
            sp == (|c: char| is_space(c)),
            trim_end_by(whole, sp) == trim_end_by(cs@.subrange(from as int, b as int), sp),
        decreases b,
    {
        proof {
            let cur = cs@.subrange(from as int, b as int);
            assert(cur.drop_last() == cs@.subrange(from as int, b - 1));
        }
        b = b - 1;
    }
    let ghost mid = cs@.subrange(from as int, b as int);
    assert(trim_end_by(whole, sp) == mid);
    let mut a: usize = from;
    while a < b && whitespace(cs[a])
        invariant
            from <= a <= b <= to <= cs.len(),
            sp == (|c: char| is_space(c)),
            trim_start_by(mid, sp) == trim_start_by(cs@.subrange(a as int, b as int), sp),
        decreases b - a,
    {
        proof {
            let cur = cs@.subrange(a as int, b as int);
            assert(cur.drop_first() == cs@.subrange(a + 1, b as int));
        }
        a = a + 1;
    }
    (a, b)
}

/// `str::trim`.
pub fn trim(s: &str) -> (r: String)
    ensures
        r@ == trimmed(s@),
{
    let cs = chars_of(s);
    let (a, b) = trim_range(cs.as_slice(), 0, cs.len());
    assert(cs@.subrange(0, cs@.len() as int) == s@);
    string_of(cs.as_slice(), a, b)
}

// ---------------------------------------------------------------------------
// splitting
// ---------------------------------------------------------------------------

/// The first position of `c` at or behind `from`.
pub open spec fn char_from(s: Seq<char>, c: char, from: int) -> Option<int>
    decreases s.len() - from,
{
    if from < 0 || from >= s.len() {
        None
    } else if s[from] == c {
        Some(from)
    } else {
        char_from(s, c, from + 1)
    }
}

/// What `char_from` finds is the first position.
pub proof fn lemma_char_from(s: Seq<char>, c: char, from: int)
    requires
        0 <= from,
    ensures
        match char_from(s, c, from) {
            Some(i) => from <= i < s.len() && s[i] == c && forall|j: int|
                from <= j < i ==> #[trigger] s[j] != c,
            None => forall|j: int| from <= j < s.len() ==> #[trigger] s[j] != c,
        },
    decreases s.len() - from,
{
    if from < s.len() && s[from] != c {
        lemma_char_from(s, c, from + 1);
    }
}

/// The first position of `c` in `cs` at or behind `from`.
pub fn find_char(cs: &[char], c: char, from: usize) -> (r: Option<usize>)
    requires
        from <= cs.len(),
    ensures
        match r {
            Some(i) => char_from(cs@, c, from as int) == Some(i as int) && from <= i < cs.len(),
            None => char_from(cs@, c, from as int) is None,
        },
{
    let mut i: usize = from;
    while i < cs.len()
        invariant
            from <= i <= cs.len(),
            char_from(cs@, c, from as int) == char_from(cs@, c, i as int),
        decreases cs.len() - i,
    {
        if cs[i] == c {
            return Some(i);
        }
        i = i + 1;
    }
    None
}

/// The pieces of `s` between occurrences of `c`, from `from` on.
pub open spec fn split_from(s: Seq<char>, c: char, from: int) -> Seq<Seq<char>>
    decreases s.len() - from,
{
    match char_from(s, c, from) {
        Some(i) => if from <= i < s.len() {
            seq![s.subrange(from, i)] + split_from(s, c, i + 1)
        } else {
            Seq::empty()
        },
        None => seq![s.subrange(from, s.len() as int)],
    }
}

/// `str::split` at a character.
pub open spec fn split_on(s: Seq<char>, c: char) -> Seq<Seq<char>> {
    split_from(s, c, 0)
}

/// The views of a list of strings.
pub open spec fn texts(v: Seq<String>) -> Seq<Seq<char>> {
    Seq::new(v.len(), |i: int| v[i]@)
}

/// Splitting leaves at least one part.
pub proof fn lemma_split_nonempty(s: Seq<char>, c: char, from: int)
    requires
        0 <= from <= s.len(),
    ensures
        split_from(s, c, from).len() > 0,
{
    lemma_char_from(s, c, from);
}

/// The texts of a list from `from` up to `to`.
pub fn texts_range(list: &Vec<String>, from: usize, to: usize) -> (r: Vec<String>)
    requires
        from <= to <= list.len(),
    ensures
        texts(r@) == texts(list@).subrange(from as int, to as int),
{
    let ghost all = texts(list@);
    let mut r: Vec<String> = Vec::new();
    let mut i: usize = from;
    assert(texts(r@) =~= all.subrange(from as int, from as int));
    while i < to
        invariant
            from <= i <= to <= list.len(),
            all == texts(list@),
            texts(r@) == all.subrange(from as int, i as int),
        decreases to - i,
    {
        push_text(&mut r, list[i].as_str());
        assert(all.subrange(from as int, i as int).push(all[i as int]) =~= all.subrange(
            from as int,
            i + 1,
        ));
        i = i + 1;
    }
    r
}

/// The texts of a list from `from` on.
pub fn texts_from(list: &Vec<String>, from: usize) -> (r: Vec<String>)
    requires
        from <= list.len(),
    ensures
        texts(r@) == texts(list@).skip(from as int),
{
    let r = texts_range(list, from, list.len());
    assert(texts(r@) =~= texts(list@).skip(from as int));
    r
}

/// Append the texts of a list to another.
pub fn push_texts(out: &mut Vec<String>, list: &Vec<String>)
    ensures
        texts(final(out)@) == texts(old(out)@) + texts(list@),
{
    let ghost before = texts(out@);
    let ghost all = texts(list@);
    let mut i: usize = 0;
    assert(texts(out@) =~= before + all.take(0));
    while i < list.len()
        invariant
            i <= list.len(),
            before == texts(old(out)@),
            all == texts(list@),
            texts(out@) == before + all.take(i as int),
        decreases list.len() - i,
    {
        push_text(out, list[i].as_str());
        assert(before + all.take(i as int).push(all[i as int]) =~= before + all.take(i + 1));
        i = i + 1;
    }
    assert(all.take(all.len() as int) =~= all);
}

/// A copy of a list of texts.
pub fn copy_texts(list: &Vec<String>) -> (r: Vec<String>)
    ensures
        texts(r@) == texts(list@),
{
    let r = texts_range(list, 0, list.len());
    assert(texts(r@) =~= texts(list@));
    r
}

/// Append a text to a list of texts.
pub fn push_text(list: &mut Vec<String>, s: &str)
    ensures
        texts(final(list)@) == texts(old(list)@).push(s@),
{
    let ghost before = texts(list@);
    list.push(owned(s));
    assert(texts(list@) =~= before.push(s@));
}

/// Whether two lists of texts are the same.
pub fn texts_eq(a: &Vec<String>, b: &Vec<String>) -> (r: bool)
    ensures
        r == (texts(a@) == texts(b@)),
{
    let ghost av = texts(a@);
    let ghost bv = texts(b@);
    if a.len() != b.len() {
        assert(av.len() != bv.len());
        return false;
    }
    let mut i: usize = 0;
    while i < a.len()
        invariant
            i <= a.len(),
            a.len() == b.len(),
            av == texts(a@),
            bv == texts(b@),
            forall|k: int| 0 <= k < i ==> #[trigger] av[k] == bv[k],
        decreases a.len() - i,
    {
        assert(av[i as int] == a@[i as int]@);
        assert(bv[i as int] == b@[i as int]@);
        if !str_eq(a[i].as_str(), b[i].as_str()) {
            return false;
        }
        i = i + 1;
    }
    assert(av =~= bv);
    true
}

/// `str::split` at a character.
pub fn split_char(s: &str, c: char) -> (r: Vec<String>)
    ensures
        texts(r@) == split_on(s@, c),
{
    let cs = chars_of(s);
    let mut out: Vec<String> = Vec::new();
    let mut at: usize = 0;
    assert(texts(out@) + split_from(s@, c, 0) =~= split_on(s@, c));
    loop
        invariant
            at <= cs.len(),
            cs@ == s@,
            texts(out@) + split_from(s@, c, at as int) == split_on(s@, c),
        decreases cs.len() - at,
    {
        let ghost before = texts(out@);
        match find_char(cs.as_slice(), c, at) {
            Some(i) => {
                out.push(string_of(cs.as_slice(), at, i));
                proof {
                    assert(texts(out@) =~= before.push(s@.subrange(at as int, i as int)));
                    assert(texts(out@) + split_from(s@, c, i + 1) =~= before + split_from(
                        s@,
                        c,
                        at as int,
                    ));
                }
                at = i + 1;
            },
            None => {
                out.push(string_of(cs.as_slice(), at, cs.len()));
                assert(texts(out@) =~= before + split_from(s@, c, at as int));
                return out;
            },
        }
    }
}

/// A line without the carriage return of its terminator.
pub open spec fn without_cr(l: Seq<char>) -> Seq<char> {
    if l.len() > 0 && l.last() == '\r' {
        l.drop_last()
    } else {
        l
    }
}

/// The lines of `s` from `from` on.
pub open spec fn lines_from(s: Seq<char>, from: int) -> Seq<Seq<char>>
    decreases s.len() - from,
{
    if from >= s.len() {
        Seq::empty()
    } else {
        match char_from(s, '\n', from) {
            Some(i) => if from <= i < s.len() {
                seq![without_cr(s.subrange(from, i))] + lines_from(s, i + 1)
            } else {
                Seq::empty()
            },
            None => seq![s.subrange(from, s.len() as int)],
        }
    }
}

/// `str::lines`.
pub open spec fn lines_of(s: Seq<char>) -> Seq<Seq<char>> {
    lines_from(s, 0)
}

/// A character is found in a prefix whatever follows it.
pub proof fn lemma_char_front(a: Seq<char>, b: Seq<char>, c: char, i: int)
    requires
        0 <= i <= a.len(),
        char_from(a, c, i) is Some,
    ensures
        char_from(a + b, c, i) == char_from(a, c, i),
    decreases a.len() - i,
{
    if i < a.len() && a[i] != c {
        assert((a + b)[i] == a[i]);
        lemma_char_front(a, b, c, i + 1);
    }
}

/// A character is found behind a prefix where it is found without it.
pub proof fn lemma_char_behind(a: Seq<char>, b: Seq<char>, c: char, i: int)
    requires
        0 <= i <= b.len(),
    ensures
        char_from(a + b, c, a.len() + i) == (match char_from(b, c, i) {
            Some(k) => Some(a.len() + k),
            None => None,
        }),
    decreases b.len() - i,
{
    if i < b.len() {
        assert((a + b)[a.len() + i] == b[i]);
        if b[i] != c {
            lemma_char_behind(a, b, c, i + 1);
        }
    }
}

/// The lines of the second part stay when something is put in front.
pub proof fn lemma_lines_behind(a: Seq<char>, b: Seq<char>, i: int)
    requires
        0 <= i <= b.len(),
    ensures
        lines_from(a + b, a.len() + i) == lines_from(b, i),
    decreases b.len() - i,
{
    let s = a + b;
    if i < b.len() {
        lemma_char_behind(a, b, '\n', i);
        lemma_char_from(b, '\n', i);
        match char_from(b, '\n', i) {
            Some(k) => {
                lemma_lines_behind(a, b, k + 1);
                assert(s.subrange(a.len() + i, a.len() + k) =~= b.subrange(i, k));
            },
            None => {
                assert(s.subrange(a.len() + i, s.len() as int) =~= b.subrange(i, b.len() as int));
            },
        }
    }
}

/// Behind a text of whole lines new lines start.
pub proof fn lemma_lines_concat(a: Seq<char>, b: Seq<char>, i: int)
    requires
        0 <= i <= a.len(),
        i == a.len() || a.last() == '\n',
    ensures
        lines_from(a + b, i) == lines_from(a, i) + lines_from(b, 0),
    decreases a.len() - i,
{
    let s = a + b;
    if i == a.len() {
        lemma_lines_behind(a, b, 0);
        assert(lines_from(a, i) + lines_from(b, 0) =~= lines_from(b, 0));
    } else {
        lemma_char_from(a, '\n', i);
        assert(a[a.len() - 1] == '\n');
        lemma_char_front(a, b, '\n', i);
        let k = char_from(a, '\n', i)->0;
        lemma_lines_concat(a, b, k + 1);
        assert(s.subrange(i, k) =~= a.subrange(i, k));
        assert(lines_from(s, i) =~= lines_from(a, i) + lines_from(b, 0));
    }
}

/// `str::lines`.
pub fn lines(s: &str) -> (r: Vec<String>)
    ensures
        texts(r@) == lines_of(s@),
{
    let cs = chars_of(s);
    let mut out: Vec<String> = Vec::new();
    let mut at: usize = 0;
    assert(texts(out@) + lines_from(s@, 0) =~= lines_of(s@));
    while at < cs.len()
        invariant
            at <= cs.len(),
            cs@ == s@,
            texts(out@) + lines_from(s@, at as int) == lines_of(s@),
        decreases cs.len() - at,
    {
        let ghost before = texts(out@);
        match find_char(cs.as_slice(), '\n', at) {
            Some(i) => {
                let end: usize = if i > at && cs[i - 1] == '\r' {
                    i - 1
                } else {
                    i
                };
                out.push(string_of(cs.as_slice(), at, end));
                proof {
                    let whole = s@.subrange(at as int, i as int);
                    assert(s@.subrange(at as int, end as int) =~= without_cr(whole));
                    assert(texts(out@) =~= before.push(without_cr(whole)));
                    assert(texts(out@) + lines_from(s@, i + 1) =~= before + lines_from(
                        s@,
                        at as int,
                    ));
                }
                at = i + 1;
            },
            None => {
                out.push(string_of(cs.as_slice(), at, cs.len()));
                assert(texts(out@) =~= before + lines_from(s@, at as int));
                return out;
            },
        }
    }
    assert(texts(out@) + lines_from(s@, at as int) =~= texts(out@));
    out
}

/// `s` with every `a` replaced by `b`.
pub open spec fn with_char(s: Seq<char>, a: char, b: char) -> Seq<char> {
    Seq::new(
        s.len(),
        |i: int|
            if s[i] == a {
                b
            } else {
                s[i]
            },
    )
}

/// `str::replace` of one character by another.
pub fn replace_char(s: &str, a: char, b: char) -> (r: String)
    ensures
        r@ == with_char(s@, a, b),
{
    let cs = chars_of(s);
    let mut r = String::new();
    let mut i: usize = 0;
    while i < cs.len()
        invariant
            i <= cs.len(),
            cs@ == s@,
            r@ == with_char(s@, a, b).take(i as int),
        decreases cs.len() - i,
    {
        r.push(
            if cs[i] == a {
                b
            } else {
                cs[i]
            },
        );
        i = i + 1;
    }
    assert(with_char(s@, a, b).take(s@.len() as int) == with_char(s@, a, b));
    r
}

/// A text with every occurrence of `p` replaced by `q`, from the front.
pub open spec fn replaced(s: Seq<char>, p: Seq<char>, q: Seq<char>) -> Seq<char>
    decreases s.len(),
{
    if s.len() == 0 || p.len() == 0 {
        s
    } else if has_prefix(s, p) {
        q + replaced(s.skip(p.len() as int), p, q)
    } else {
        seq![s[0]] + replaced(s.skip(1), p, q)
    }
}

/// Replace every occurrence of `p`, which is not empty, by `q`.
pub fn replace_text(s: &str, p: &str, q: &str) -> (r: String)
    requires
        p@.len() > 0,
    ensures
        r@ == replaced(s@, p@, q@),
{
    let cs = chars_of(s);
    let pc = chars_of(p);
    let mut out: Vec<char> = Vec::new();
    let mut i: usize = 0;
    assert(cs@.skip(0) =~= s@);
    assert(out@ + replaced(s@, p@, q@) =~= replaced(s@, p@, q@));
    while i < cs.len()
        invariant
            i <= cs.len(),
            pc@ == p@,
            p@.len() > 0,
            out@ + replaced(cs@.skip(i as int), p@, q@) == replaced(s@, p@, q@),
        decreases cs.len() - i,
    {
        let ghost rest = cs@.skip(i as int);
        let ghost done = out@;
        if matches_at(cs.as_slice(), pc.as_slice(), i) {
            assert(has_prefix(rest, p@)) by {
                assert(rest.subrange(0, p@.len() as int) =~= cs@.subrange(i as int, i + p@.len()));
            }
            push_str(&mut out, q);
            assert(rest.skip(p@.len() as int) =~= cs@.skip(i + p@.len()));
            i = i + pc.len();
        } else {
            assert(!has_prefix(rest, p@)) by {
                if has_prefix(rest, p@) {
                    assert(rest.subrange(0, p@.len() as int) =~= cs@.subrange(
                        i as int,
                        i + p@.len(),
                    ));
                }
            }
            out.push(cs[i]);
            assert(rest.skip(1) =~= cs@.skip(i + 1));
            i = i + 1;
        }
        assert(out@ + replaced(cs@.skip(i as int), p@, q@) =~= done + replaced(rest, p@, q@));
    }
    assert(out@ =~= replaced(s@, p@, q@));
    string_of_all(out.as_slice())
}

/// Texts with a separator between them.
pub open spec fn joined_with(parts: Seq<Seq<char>>, sep: Seq<char>) -> Seq<char>
    decreases parts.len(),
{
    if parts.len() == 0 {
        Seq::empty()
    } else if parts.len() == 1 {
        parts[0]
    } else {
        joined_with(parts.drop_last(), sep) + sep + parts.last()
    }
}

/// `[String]::join`.
pub fn join_with(parts: &Vec<String>, sep: &str) -> (r: String)
    ensures
        r@ == joined_with(texts(parts@), sep@),
{
    let mut r = String::new();
    let mut i: usize = 0;
    assert(texts(parts@).take(0) =~= Seq::<Seq<char>>::empty());
    while i < parts.len()
        invariant
            i <= parts.len(),
            r@ == joined_with(texts(parts@).take(i as int), sep@),
        decreases parts.len() - i,
    {
        let ghost now = texts(parts@).take(i + 1);
        assert(now.drop_last() =~= texts(parts@).take(i as int));
        let ghost before = r@;
        if i > 0 {
            r.append(sep);
        }
        r.append(parts[i].as_str());
        proof {
            if i == 0 {
                assert(r@ =~= now[0]);
            }
        }
        i = i + 1;
    }
    assert(texts(parts@).take(parts@.len() as int) =~= texts(parts@));
    r
}

// ---------------------------------------------------------------------------
// facts about trimming
// ---------------------------------------------------------------------------

/// Trimming at the end takes off exactly a suffix whose characters all satisfy
/// the predicate, if the character in front of it does not.
pub proof fn lemma_trim_end_exact(s: Seq<char>, n: int, p: spec_fn(char) -> bool)
    requires
        0 <= n <= s.len(),
        forall|k: int| n <= k < s.len() ==> p(#[trigger] s[k]),
        n > 0 ==> !p(s[n - 1]),
    ensures
        trim_end_by(s, p) == s.take(n),
    decreases s.len(),
{
    if n < s.len() {
        lemma_trim_end_exact(s.drop_last(), n, p);
        assert(s.drop_last().take(n) == s.take(n));
    } else {
        assert(s.take(n) == s);
    }
}

/// Trimming at the start takes off exactly a prefix whose characters all
/// satisfy the predicate, if the character behind it does not.
pub proof fn lemma_trim_start_exact(s: Seq<char>, n: int, p: spec_fn(char) -> bool)
    requires
        0 <= n <= s.len(),
        forall|k: int| 0 <= k < n ==> p(#[trigger] s[k]),
        n < s.len() ==> !p(s[n]),
    ensures
        trim_start_by(s, p) == s.skip(n),
    decreases s.len(),
{
    if n > 0 {
        let t = s.drop_first();
        assert forall|k: int| 0 <= k < n - 1 implies p(#[trigger] t[k]) by {
            assert(t[k] == s[k + 1]);
        }
        lemma_trim_start_exact(t, n - 1, p);
        assert(t.skip(n - 1) == s.skip(n));
    } else {
        assert(s.skip(0) == s);
    }
}

/// What trimming leaves is a piece of the text with only whitespace around it.
pub proof fn lemma_trim_piece(s: Seq<char>) -> (r: (int, int))
    ensures
        0 <= r.0 <= r.1 <= s.len(),
        trimmed(s) == s.subrange(r.0, r.1),
        forall|k: int| 0 <= k < r.0 ==> is_space(#[trigger] s[k]),
        forall|k: int| r.1 <= k < s.len() ==> is_space(#[trigger] s[k]),
{
    let p = |c: char| is_space(c);
    let b = lemma_trim_end_bound(s, p);
    lemma_trim_end_exact(s, b, p);
    let t = s.take(b);
    let a = lemma_trim_start_bound(t, p);
    lemma_trim_start_exact(t, a, p);
    assert(t.skip(a) == s.subrange(a, b));
    assert forall|k: int| 0 <= k < a implies is_space(#[trigger] s[k]) by {
        assert(p(t[k]));
    }
    assert forall|k: int| b <= k < s.len() implies is_space(#[trigger] s[k]) by {
        assert(p(s[k]));
    }
    (a, b)
}

/// The end of the text in front of the longest suffix that satisfies `p`.
pub proof fn lemma_trim_end_bound(s: Seq<char>, p: spec_fn(char) -> bool) -> (n: int)
    ensures
        0 <= n <= s.len(),
        forall|k: int| n <= k < s.len() ==> p(#[trigger] s[k]),
        n > 0 ==> !p(s[n - 1]),
    decreases s.len(),
{
    if s.len() > 0 && p(s.last()) {
        let t = s.drop_last();
        let n = lemma_trim_end_bound(t, p);
        assert forall|k: int| n <= k < s.len() implies p(#[trigger] s[k]) by {
            if k < t.len() {
                assert(p(t[k]));
            }
        }
        n
    } else {
        s.len() as int
    }
}

/// The start of the text behind the longest prefix that satisfies `p`.
pub proof fn lemma_trim_start_bound(s: Seq<char>, p: spec_fn(char) -> bool) -> (n: int)
    ensures
        0 <= n <= s.len(),
        forall|k: int| 0 <= k < n ==> p(#[trigger] s[k]),
        n < s.len() ==> !p(s[n]),
    decreases s.len(),
{
    if s.len() > 0 && p(s[0]) {
        let t = s.drop_first();
        let n = lemma_trim_start_bound(t, p);
        assert forall|k: int| 0 <= k < n + 1 implies p(#[trigger] s[k]) by {
            if k > 0 {
                assert(p(t[k - 1]));
            }
        }
        n + 1
    } else {
        0
    }
}

/// Padding with whitespace does not change what is left after trimming.
pub proof fn lemma_trim_padded(pre: Seq<char>, m: Seq<char>, post: Seq<char>)
    requires
        forall|k: int| 0 <= k < pre.len() ==> is_space(#[trigger] pre[k]),
        forall|k: int| 0 <= k < post.len() ==> is_space(#[trigger] post[k]),
        m.len() > 0,
        !is_space(m[0]),
        !is_space(m.last()),
    ensures
        trimmed(pre + m + post) == m,
{
    let p = |c: char| is_space(c);
    let s = pre + m + post;
    let n = pre.len() + m.len();
    assert forall|k: int| n <= k < s.len() implies p(#[trigger] s[k]) by {
        assert(s[k] == post[k - n]);
    }
    assert(s[n - 1] == m.last());
    lemma_trim_end_exact(s, n as int, p);
    let t = s.take(n as int);
    assert(t == pre + m);
    assert forall|k: int| 0 <= k < pre.len() implies p(#[trigger] t[k]) by {
        assert(t[k] == pre[k]);
    }
    assert(t[pre.len() as int] == m[0]);
    lemma_trim_start_exact(t, pre.len() as int, p);
    assert(t.skip(pre.len() as int) == m);
}

// ---------------------------------------------------------------------------
// ASCII case, bytes
// ---------------------------------------------------------------------------

/// `c` with an ASCII capital letter made small.
pub open spec fn ascii_lower(c: char) -> char {
    if 'A' <= c <= 'Z' {
        (c as u32 + 0x20) as char
    } else {
        c
    }
}

/// Whether two texts differ at most in the case of ASCII letters.
pub open spec fn same_ignoring_case(a: Seq<char>, b: Seq<char>) -> bool {
    a.len() == b.len() && forall|i: int|
        0 <= i < a.len() ==> ascii_lower(#[trigger] a[i]) == ascii_lower(b[i])
}

/// `c` with an ASCII capital letter made small.
pub fn lower(c: char) -> (r: char)
    ensures
        r == ascii_lower(c),
{
    if c >= 'A' && c <= 'Z' {
        let b: u8 = c as u8 + 0x20;
        b as char
    } else {
        c
    }
}

/// `str::eq_ignore_ascii_case` on `cs[from..to]`.
pub fn eq_ignore_case(cs: &[char], from: usize, to: usize, other: &str) -> (r: bool)
    requires
        from <= to <= cs.len(),
    ensures
        r == same_ignoring_case(cs@.subrange(from as int, to as int), other@),
{
    let o = chars_of(other);
    let ghost piece = cs@.subrange(from as int, to as int);
    if to - from != o.len() {
        return false;
    }
    let mut i: usize = 0;
    while i < o.len()
        invariant
            from <= to <= cs.len(),
            to - from == o.len(),
            o@ == other@,
            piece == cs@.subrange(from as int, to as int),
            i <= o.len(),
            forall|k: int| 0 <= k < i ==> ascii_lower(#[trigger] piece[k]) == ascii_lower(o@[k]),
        decreases o.len() - i,
    {
        assert(piece[i as int] == cs@[from + i]);
        if lower(cs[from + i]) != lower(o[i]) {
            return false;
        }
        i = i + 1;
    }
    true
}

/// `core::str::from_utf8`: the text, if the bytes are valid UTF-8.
#[verifier::external_body]
pub(crate) fn utf8_text(bytes: &[u8]) -> (r: Option<String>)
    ensures
        match r {
            Some(s) => valid_utf8(bytes@) && s@ == decode_utf8(bytes@),
            None => !valid_utf8(bytes@),
        },
{
    core::str::from_utf8(bytes).ok().map(String::from)
}

/// Append `bytes` to `out`.
pub fn push_bytes(out: &mut Vec<u8>, bytes: &[u8])
    ensures
        final(out)@ == old(out)@ + bytes@,
{
    let ghost before = out@;
    let mut i: usize = 0;
    while i < bytes.len()
        invariant
            i <= bytes.len(),
            out@ == before + bytes@.take(i as int),
        decreases bytes.len() - i,
    {
        out.push(bytes[i]);
        i = i + 1;
    }
    assert(bytes@.take(bytes@.len() as int) == bytes@);
}

/// What `String::from_utf8_lossy` makes of some bytes.
pub uninterp spec fn lossy_text(bytes: Seq<u8>) -> Seq<char>;

/// `String::from_utf8_lossy`: the text depends on the bytes alone, and is their
/// decoding where they are valid UTF-8.
#[verifier::external_body]
pub(crate) fn utf8_lossy(bytes: &[u8]) -> (r: String)
    ensures
        r@ == lossy_text(bytes@),
        valid_utf8(bytes@) ==> r@ == decode_utf8(bytes@),
{
    String::from_utf8_lossy(bytes).into_owned()
}

/// `s` with its ASCII capital letters made small.
pub open spec fn ascii_lowered(s: Seq<char>) -> Seq<char> {
    Seq::new(s.len(), |i: int| ascii_lower(s[i]))
}

/// What `str::to_lowercase` makes of a text.
pub uninterp spec fn lowercase_text(s: Seq<char>) -> Seq<char>;

/// `str::to_lowercase`: the text depends on the argument alone; in an ASCII text
/// the capital letters are made small and nothing else changes.
#[verifier::external_body]
pub(crate) fn lowercase(s: &str) -> (r: String)
    ensures
        r@ == lowercase_text(s@),
        is_ascii_chars(s@) ==> r@ == ascii_lowered(s@),
{
    s.to_lowercase()
}

} // verus!
