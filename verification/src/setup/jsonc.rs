//! Marker blocks in JSONC files (`keymap.json`, `settings.json`).
//!
//! Text surgery, never re-serialization: comments, formatting and trailing
//! commas of the user's file survive.

use crate::json::parse;
use crate::json::serde_parse;
use crate::json::Json;
use crate::json::JsonView;
use crate::number::decimal;
use crate::number::decimal_u64;
use crate::number::lemma_decimal_round_trip;
use crate::setup::strip_laws::lemma_strip_settles;
use crate::setup::strip_laws::plain_json;
use crate::text::ascii_whitespace;
use crate::text::chars_of;
use crate::text::in_context;
use crate::text::is_ascii_space;
use crate::text::owned;
use crate::text::push_range;
use crate::text::push_str;
use crate::text::range_eq;
use crate::text::string_of_all;
use crate::text::trim_end_by;
use crate::text::trim_range;
use crate::text::trimmed;
use crate::text::with_context;
use vstd::prelude::*;
use vstd::utf8::encode_utf8;

verus! {

// ---------------------------------------------------------------------------
// lexing
// ---------------------------------------------------------------------------

/// Where a reader of JSONC stands between two characters.
#[derive(Clone, Copy, Debug, PartialEq, Eq, Structural)]
pub enum Lex {
    /// Outside strings and comments.
    Code,
    /// Inside a string.
    Str,
    /// Inside a string, behind a backslash.
    Esc,
    /// Inside a `//` comment.
    Line,
    /// Between the two characters that open a block comment.
    BlockOpen,
    /// Inside a block comment.
    Block,
    /// Between the two characters that close a block comment.
    BlockClose,
}

/// What a character of a JSONC text belongs to.
#[derive(Clone, Copy, Debug, PartialEq, Eq, Structural)]
pub enum Class {
    Code,
    Str,
    Comment,
}

/// Whether the characters `a`, `b` stand at `i` and `i + 1`.
pub open spec fn pair_at(s: Seq<char>, i: int, a: char, b: char) -> bool {
    i + 1 < s.len() && s[i] == a && s[i + 1] == b
}

/// The state behind character `i`, from the state in front of it. Where
/// `comments` is false a comment is ordinary code.
pub open spec fn lex_step(st: Lex, s: Seq<char>, i: int, comments: bool) -> Lex {
    match st {
        Lex::Code => if s[i] == '"' {
            Lex::Str
        } else if comments && pair_at(s, i, '/', '/') {
            Lex::Line
        } else if comments && pair_at(s, i, '/', '*') {
            Lex::BlockOpen
        } else {
            Lex::Code
        },
        Lex::Str => if s[i] == '\\' {
            Lex::Esc
        } else if s[i] == '"' {
            Lex::Code
        } else {
            Lex::Str
        },
        Lex::Esc => Lex::Str,
        Lex::Line => if s[i] == '\n' {
            Lex::Code
        } else {
            Lex::Line
        },
        Lex::BlockOpen => Lex::Block,
        Lex::Block => if pair_at(s, i, '*', '/') {
            Lex::BlockClose
        } else {
            Lex::Block
        },
        Lex::BlockClose => Lex::Code,
    }
}

/// The state in front of character `i`.
pub open spec fn lex_at(s: Seq<char>, i: int, comments: bool) -> Lex
    decreases i,
{
    if i <= 0 {
        Lex::Code
    } else {
        lex_step(lex_at(s, i - 1, comments), s, i - 1, comments)
    }
}

/// What character `i` belongs to, given the state in front of it.
pub open spec fn class_in(st: Lex, s: Seq<char>, i: int) -> Class {
    match st {
        Lex::Code => if s[i] == '"' {
            Class::Str
        } else if pair_at(s, i, '/', '/') || pair_at(s, i, '/', '*') {
            Class::Comment
        } else {
            Class::Code
        },
        Lex::Str | Lex::Esc => Class::Str,
        Lex::Line => if s[i] == '\n' {
            Class::Code
        } else {
            Class::Comment
        },
        _ => Class::Comment,
    }
}

/// What character `i` of `s` belongs to.
pub open spec fn class_at(s: Seq<char>, i: int) -> Class {
    class_in(lex_at(s, i, true), s, i)
}

/// Whether the characters `a`, `b` stand at `i` and `i + 1`.
fn is_pair(s: &[char], i: usize, a: char, b: char) -> (r: bool)
    requires
        i < s.len(),
    ensures
        r == pair_at(s@, i as int, a, b),
{
    i + 1 < s.len() && s[i] == a && s[i + 1] == b
}

/// The state behind character `i`, from the state in front of it.
fn step(st: Lex, s: &[char], i: usize, comments: bool) -> (r: Lex)
    requires
        i < s.len(),
    ensures
        r == lex_step(st, s@, i as int, comments),
{
    match st {
        Lex::Code => if s[i] == '"' {
            Lex::Str
        } else if comments && is_pair(s, i, '/', '/') {
            Lex::Line
        } else if comments && is_pair(s, i, '/', '*') {
            Lex::BlockOpen
        } else {
            Lex::Code
        },
        Lex::Str => if s[i] == '\\' {
            Lex::Esc
        } else if s[i] == '"' {
            Lex::Code
        } else {
            Lex::Str
        },
        Lex::Esc => Lex::Str,
        Lex::Line => if s[i] == '\n' {
            Lex::Code
        } else {
            Lex::Line
        },
        Lex::BlockOpen => Lex::Block,
        Lex::Block => if is_pair(s, i, '*', '/') {
            Lex::BlockClose
        } else {
            Lex::Block
        },
        Lex::BlockClose => Lex::Code,
    }
}

/// What character `i` belongs to, given the state in front of it.
fn class_of(st: Lex, s: &[char], i: usize) -> (r: Class)
    requires
        i < s.len(),
    ensures
        r == class_in(st, s@, i as int),
{
    match st {
        Lex::Code => if s[i] == '"' {
            Class::Str
        } else if is_pair(s, i, '/', '/') || is_pair(s, i, '/', '*') {
            Class::Comment
        } else {
            Class::Code
        },
        Lex::Str => Class::Str,
        Lex::Esc => Class::Str,
        Lex::Line => if s[i] == '\n' {
            Class::Code
        } else {
            Class::Comment
        },
        _ => Class::Comment,
    }
}

// ---------------------------------------------------------------------------
// stripping
// ---------------------------------------------------------------------------

/// The characters among the first `n` that belong to no comment.
pub open spec fn kept(s: Seq<char>, n: int) -> Seq<char>
    decreases n,
{
    if n <= 0 {
        Seq::empty()
    } else if class_at(s, n - 1) is Comment {
        kept(s, n - 1)
    } else {
        kept(s, n - 1).push(s[n - 1])
    }
}

/// `s` without its comments.
pub open spec fn without_comments(s: Seq<char>) -> Seq<char> {
    kept(s, s.len() as int)
}

/// Whether the first character at or behind `i` that is no whitespace closes
/// an array or object.
pub open spec fn closes_next(s: Seq<char>, i: int) -> bool {
    exists|j: int|
        i <= j < s.len() && (#[trigger] s[j] == ']' || s[j] == '}') && forall|k: int|
            i <= k < j ==> is_ascii_space(#[trigger] s[k])
}

/// Whether character `i` is a comma outside strings with only whitespace
/// between it and a closing bracket.
pub open spec fn trailing_comma(s: Seq<char>, i: int) -> bool {
    lex_at(s, i, false) is Code && s[i] == ',' && closes_next(s, i + 1)
}

/// The first `n` characters without the trailing commas among them.
pub open spec fn uncommaed(s: Seq<char>, n: int) -> Seq<char>
    decreases n,
{
    if n <= 0 {
        Seq::empty()
    } else if trailing_comma(s, n - 1) {
        uncommaed(s, n - 1)
    } else {
        uncommaed(s, n - 1).push(s[n - 1])
    }
}

/// `s` without trailing commas.
pub open spec fn without_trailing_commas(s: Seq<char>) -> Seq<char> {
    uncommaed(s, s.len() as int)
}

/// `s` without comments and trailing commas: plain JSON where `s` is JSONC.
pub open spec fn stripped(s: Seq<char>) -> Seq<char> {
    without_trailing_commas(without_comments(s))
}

/// Whether the first non-whitespace character at or behind `i` is a closing
/// bracket.
fn is_closed_next(s: &[char], i: usize) -> (r: bool)
    requires
        i <= s.len(),
    ensures
        r == closes_next(s@, i as int),
{
    let mut j: usize = i;
    while j < s.len() && ascii_whitespace(s[j])
        invariant
            i <= j <= s.len(),
            forall|k: int| i <= k < j ==> is_ascii_space(#[trigger] s@[k]),
        decreases s.len() - j,
    {
        j = j + 1;
    }
    let r = j < s.len() && (s[j] == ']' || s[j] == '}');
    proof {
        if closes_next(s@, i as int) {
            let w = choose|w: int|
                i <= w < s@.len() && (#[trigger] s@[w] == ']' || s@[w] == '}') && forall|k: int|
                    i <= k < w ==> is_ascii_space(#[trigger] s@[k]);
            if w < j {
                assert(is_ascii_space(s@[w]));
            }
            if w > j {
                assert(is_ascii_space(s@[j as int]));
            }
        }
    }
    r
}

/// Strip `//` and `/* */` comments and trailing commas, string-aware.
pub fn strip_jsonc(text: &str) -> (r: String)
    ensures
        r@ == stripped(text@),
{
    let s = chars_of(text);
    let mut plain: Vec<char> = Vec::new();
    let mut st = Lex::Code;
    let mut i: usize = 0;
    while i < s.len()
        invariant
            i <= s.len(),
            st == lex_at(s@, i as int, true),
            plain@ == kept(s@, i as int),
        decreases s.len() - i,
    {
        if class_of(st, s.as_slice(), i) != Class::Comment {
            plain.push(s[i]);
        }
        st = step(st, s.as_slice(), i, true);
        i = i + 1;
    }
    let mut out: Vec<char> = Vec::new();
    st = Lex::Code;
    i = 0;
    while i < plain.len()
        invariant
            i <= plain.len(),
            st == lex_at(plain@, i as int, false),
            out@ == uncommaed(plain@, i as int),
        decreases plain.len() - i,
    {
        let drop = st == Lex::Code && plain[i] == ',' && is_closed_next(plain.as_slice(), i + 1);
        if !drop {
            out.push(plain[i]);
        }
        st = step(st, plain.as_slice(), i, false);
        i = i + 1;
    }
    string_of_all(out.as_slice())
}

/// Where no character belongs to a comment, all are kept.
pub proof fn lemma_all_kept(s: Seq<char>, n: int)
    requires
        0 <= n <= s.len(),
        forall|i: int| 0 <= i < s.len() ==> !(#[trigger] class_at(s, i) is Comment),
    ensures
        kept(s, n) == s.take(n),
    decreases n,
{
    if n > 0 {
        lemma_all_kept(s, n - 1);
        assert(!(class_at(s, n - 1) is Comment));
        assert(s.take(n - 1).push(s[n - 1]) =~= s.take(n));
    } else {
        assert(s.take(0) =~= Seq::<char>::empty());
    }
}

/// Where no comma is trailing, all are kept.
pub proof fn lemma_all_commas_kept(s: Seq<char>, n: int)
    requires
        0 <= n <= s.len(),
        forall|i: int| 0 <= i < s.len() ==> !#[trigger] trailing_comma(s, i),
    ensures
        uncommaed(s, n) == s.take(n),
    decreases n,
{
    if n > 0 {
        lemma_all_commas_kept(s, n - 1);
        assert(!trailing_comma(s, n - 1));
        assert(s.take(n - 1).push(s[n - 1]) =~= s.take(n));
    } else {
        assert(s.take(0) =~= Seq::<char>::empty());
    }
}

/// A text without comments and trailing commas, as plain JSON is, stays as it is,
/// whatever its strings hold.
pub proof fn lemma_plain_json_untouched(s: Seq<char>)
    requires
        forall|i: int| 0 <= i < s.len() ==> !(#[trigger] class_at(s, i) is Comment),
        forall|i: int| 0 <= i < s.len() ==> !#[trigger] trailing_comma(s, i),
    ensures
        stripped(s) == s,
{
    lemma_all_kept(s, s.len() as int);
    assert(s.take(s.len() as int) =~= s);
    lemma_all_commas_kept(s, s.len() as int);
}

/// What a JSONC text holds, or the message that it is not valid.
pub open spec fn jsonc_parsed(text: Seq<char>) -> Result<JsonView, Seq<char>> {
    match serde_parse(encode_utf8(stripped(text))) {
        Ok(v) => Ok(v),
        Err(e) => Err("invalid JSON(C): "@ + e),
    }
}

/// Read a JSONC text: strip comments and trailing commas, then parse the rest
/// as JSON. Of a text that parses nothing is left to strip.
pub fn parse_jsonc(text: &str) -> (r: Result<Json, String>)
    ensures
        r is Ok ==> plain_json(stripped(text@)) && stripped(stripped(text@)) == stripped(text@),
        match r {
            Ok(v) => jsonc_parsed(text@) == Ok::<JsonView, Seq<char>>(v@),
            Err(m) => jsonc_parsed(text@) == Err::<JsonView, Seq<char>>(m@),
        },
{
    let plain = strip_jsonc(text);
    proof {
        lemma_strip_settles(text@);
    }
    match parse(plain.as_str().as_bytes()) {
        Ok(v) => Ok(v),
        Err(e) => {
            let mut m = owned("invalid JSON(C): ");
            m.append(e.as_str());
            assert(m@ == "invalid JSON(C): "@ + e@);
            Err(m)
        },
    }
}

/// Read a text as strict JSON. Every JSON text is a JSONC text that holds the
/// same: stripping leaves it as it is.
pub fn parse_strict(text: &str) -> (r: Result<Json, String>)
    ensures
        match r {
            Ok(v) => serde_parse(encode_utf8(text@)) == Ok::<JsonView, Seq<char>>(v@),
            Err(m) => serde_parse(encode_utf8(text@)) == Err::<JsonView, Seq<char>>(m@),
        },
        r is Ok ==> stripped(text@) == text@,
        r matches Ok(v) ==> jsonc_parsed(text@) == Ok::<JsonView, Seq<char>>(v@),
{
    let r = parse(text.as_bytes());
    proof {
        if r is Ok {
            assert(plain_json(text@));
            lemma_plain_json_untouched(text@);
        }
    }
    r
}

// ---------------------------------------------------------------------------
// structure
// ---------------------------------------------------------------------------

/// Whether character `i` closes an array or object (outside strings and
/// comments).
pub open spec fn is_closer(s: Seq<char>, i: int) -> bool {
    lex_at(s, i, true) is Code && (s[i] == ']' || s[i] == '}')
}

/// Whether character `i` is neither whitespace nor part of a comment.
pub open spec fn significant(s: Seq<char>, i: int) -> bool {
    match class_at(s, i) {
        Class::Comment => false,
        Class::Str => true,
        Class::Code => !is_ascii_space(s[i]),
    }
}

/// The last of the first `n` characters that closes an array or object.
pub open spec fn last_closer(s: Seq<char>, n: int) -> Option<int>
    decreases n,
{
    if n <= 0 {
        None
    } else if is_closer(s, n - 1) {
        Some(n - 1)
    } else {
        last_closer(s, n - 1)
    }
}

/// The last of the first `n` characters that is significant.
pub open spec fn last_significant(s: Seq<char>, n: int) -> Option<int>
    decreases n,
{
    if n <= 0 {
        None
    } else if significant(s, n - 1) {
        Some(n - 1)
    } else {
        last_significant(s, n - 1)
    }
}

/// Where the top-level value of a JSONC text ends.
#[derive(Clone, Copy, Debug)]
pub struct Scan {
    /// Index of the last structural `]` / `}` outside strings and comments.
    pub last_closer: Option<usize>,
    /// Last significant character before that closer, with its index.
    pub sig_before_closer: Option<(usize, char)>,
}

impl Scan {
    /// Whether this describes the structure of `s`.
    pub open spec fn describes(self, s: Seq<char>) -> bool {
        match self.last_closer {
            None => last_closer(s, s.len() as int) is None && self.sig_before_closer is None,
            Some(c) => {
                &&& last_closer(s, s.len() as int) == Some(c as int)
                &&& match self.sig_before_closer {
                    None => last_significant(s, c as int) is None,
                    Some((k, ch)) => last_significant(s, c as int) == Some(k as int) && k < c < s.len()
                        && ch == s[k as int],
                }
                &&& c < s.len()
            },
        }
    }
}

/// Locate the final closing bracket of the top-level JSONC value and the
/// significant character in front of it.
pub fn scan_structure(s: &[char]) -> (r: Scan)
    ensures
        r.describes(s@),
{
    let mut st = Lex::Code;
    let mut closer: Option<usize> = None;
    let mut before: Option<(usize, char)> = None;
    let mut sig: Option<(usize, char)> = None;
    let mut i: usize = 0;
    while i < s.len()
        invariant
            i <= s.len(),
            st == lex_at(s@, i as int, true),
            match closer {
                None => last_closer(s@, i as int) is None && before is None,
                Some(c) => {
                    &&& last_closer(s@, i as int) == Some(c as int)
                    &&& c < i
                    &&& match before {
                        None => last_significant(s@, c as int) is None,
                        Some((k, ch)) => last_significant(s@, c as int) == Some(k as int) && k < c
                            && ch == s@[k as int],
                    }
                },
            },
            match sig {
                None => last_significant(s@, i as int) is None,
                Some((k, ch)) => last_significant(s@, i as int) == Some(k as int) && k < i && ch
                    == s@[k as int],
            },
        decreases s.len() - i,
    {
        let c = s[i];
        if st == Lex::Code && (c == ']' || c == '}') {
            closer = Some(i);
            before = sig;
        }
        let class = class_of(st, s, i);
        if class == Class::Str || (class == Class::Code && !ascii_whitespace(c)) {
            sig = Some((i, c));
        }
        st = step(st, s, i, true);
        i = i + 1;
    }
    Scan { last_closer: closer, sig_before_closer: before }
}

// ---------------------------------------------------------------------------
// lines
// ---------------------------------------------------------------------------

/// The start of the line that position `i` is on.
pub open spec fn line_start(s: Seq<char>, i: int) -> int
    decreases i,
{
    if i <= 0 {
        0
    } else if s[i - 1] == '\n' {
        i
    } else {
        line_start(s, i - 1)
    }
}

/// The end of the line that position `i` is on, its newline included.
pub open spec fn line_end(s: Seq<char>, i: int) -> int
    decreases s.len() - i,
{
    if i >= s.len() {
        s.len() as int
    } else if s[i] == '\n' {
        i + 1
    } else {
        line_end(s, i + 1)
    }
}

/// The line that starts at `i`, its newline included.
pub open spec fn line_at(s: Seq<char>, i: int) -> Seq<char> {
    s.subrange(i, line_end(s, i))
}

/// A line end lies behind the position and inside the text.
pub proof fn lemma_line_end(s: Seq<char>, i: int)
    requires
        0 <= i < s.len(),
    ensures
        i < line_end(s, i) <= s.len(),
        forall|k: int| i <= k < line_end(s, i) - 1 ==> s[k] != '\n',
        line_end(s, i) < s.len() ==> s[line_end(s, i) - 1] == '\n',
    decreases s.len() - i,
{
    reveal_with_fuel(line_end, 2);
    if s[i] != '\n' && i + 1 < s.len() {
        lemma_line_end(s, i + 1);
    }
}

/// The start of the first line, from the line start `from` on, that reads `m`
/// once surrounding whitespace is taken off.
pub open spec fn first_line(s: Seq<char>, m: Seq<char>, from: int) -> Option<int>
    decreases s.len() - from,
{
    if from < 0 || from >= s.len() {
        None
    } else if trimmed(line_at(s, from)) == m {
        Some(from)
    } else if from < line_end(s, from) <= s.len() {
        first_line(s, m, line_end(s, from))
    } else {
        None
    }
}

/// The end of the line that position `i` is on.
fn end_of_line(s: &[char], i: usize) -> (r: usize)
    requires
        i <= s.len(),
    ensures
        r == line_end(s@, i as int),
        i <= r <= s.len(),
{
    let mut j: usize = i;
    while j < s.len() && s[j] != '\n'
        invariant
            i <= j <= s.len(),
            line_end(s@, i as int) == line_end(s@, j as int),
        decreases s.len() - j,
    {
        j = j + 1;
    }
    if j < s.len() {
        j + 1
    } else {
        j
    }
}

/// The start of the first line of `s` that reads `m`.
fn find_line(s: &[char], m: &[char]) -> (r: Option<usize>)
    ensures
        match r {
            Some(i) => first_line(s@, m@, 0) == Some(i as int) && i < s.len(),
            None => first_line(s@, m@, 0) is None,
        },
{
    let mut i: usize = 0;
    while i < s.len()
        invariant
            i <= s.len(),
            first_line(s@, m@, 0) == first_line(s@, m@, i as int),
        decreases s.len() - i,
    {
        let e = end_of_line(s, i);
        let (a, b) = trim_range(s, i, e);
        if range_eq(s, a, b, m) {
            return Some(i);
        }
        proof {
            lemma_line_end(s@, i as int);
        }
        i = e;
    }
    None
}

// ---------------------------------------------------------------------------
// marker regions
// ---------------------------------------------------------------------------

/// The text of the opening marker line.
pub open spec fn start_text(id: Seq<char>) -> Seq<char> {
    "// >>> zedxcode:"@ + id + " >>>"@
}

/// The text of the closing marker line.
pub open spec fn end_text(id: Seq<char>) -> Seq<char> {
    "// <<< zedxcode:"@ + id + " <<<"@
}

/// Opening marker line (matched with surrounding whitespace trimmed).
pub fn start_marker(marker_id: &str) -> (r: String)
    ensures
        r@ == start_text(marker_id@),
{
    let mut r = owned("// >>> zedxcode:");
    r.append(marker_id);
    r.append(" >>>");
    r
}

/// Closing marker line (matched with surrounding whitespace trimmed).
pub fn end_marker(marker_id: &str) -> (r: String)
    ensures
        r@ == end_text(marker_id@),
{
    let mut r = owned("// <<< zedxcode:");
    r.append(marker_id);
    r.append(" <<<");
    r
}

/// The marker region around `block`, at the file's two-space indent.
pub open spec fn region_text(id: Seq<char>, block: Seq<char>) -> Seq<char> {
    "  "@ + start_text(id) + seq!['\n'] + trim_end_by(block, |c: char| c == '\n') + "\n  "@
        + end_text(id)
}

/// The end of the line at `i` without its line terminators.
pub open spec fn content_end(s: Seq<char>, i: int) -> int {
    i + trim_end_by(line_at(s, i), |c: char| c == '\n' || c == '\r').len()
}

/// The region from the opening marker line to the end of the closing one:
/// `None` without markers, an error where one is missing or they are out of
/// order.
pub open spec fn marker_region(s: Seq<char>, id: Seq<char>) -> Result<Option<(int, int)>, ()> {
    match (first_line(s, start_text(id), 0), first_line(s, end_text(id), 0)) {
        (None, None) => Ok(None),
        (Some(a), Some(q)) => if content_end(s, q) > a {
            Ok(Some((a, content_end(s, q))))
        } else {
            Err(())
        },
        _ => Err(()),
    }
}

/// The end of `s[from..to]` without trailing newlines.
fn trim_newlines(s: &[char], from: usize, to: usize) -> (r: usize)
    requires
        from <= to <= s.len(),
    ensures
        from <= r <= to,
        s@.subrange(from as int, r as int) == trim_end_by(
            s@.subrange(from as int, to as int),
            |c: char| c == '\n',
        ),
{
    let ghost p = |c: char| c == '\n';
    let ghost whole = s@.subrange(from as int, to as int);
    let mut b: usize = to;
    while b > from && s[b - 1] == '\n'
        invariant
            from <= b <= to <= s.len(),
            p == (|c: char| c == '\n'),
            trim_end_by(whole, p) == trim_end_by(s@.subrange(from as int, b as int), p),
        decreases b,
    {
        assert(s@.subrange(from as int, b as int).drop_last() == s@.subrange(from as int, b - 1));
        b = b - 1;
    }
    b
}

/// The end of `s[from..to]` without trailing newlines and carriage returns.
fn trim_terminators(s: &[char], from: usize, to: usize) -> (r: usize)
    requires
        from <= to <= s.len(),
    ensures
        from <= r <= to,
        s@.subrange(from as int, r as int) == trim_end_by(
            s@.subrange(from as int, to as int),
            |c: char| c == '\n' || c == '\r',
        ),
{
    let ghost p = |c: char| c == '\n' || c == '\r';
    let ghost whole = s@.subrange(from as int, to as int);
    let mut b: usize = to;
    while b > from && (s[b - 1] == '\n' || s[b - 1] == '\r')
        invariant
            from <= b <= to <= s.len(),
            p == (|c: char| c == '\n' || c == '\r'),
            trim_end_by(whole, p) == trim_end_by(s@.subrange(from as int, b as int), p),
        decreases b,
    {
        assert(s@.subrange(from as int, b as int).drop_last() == s@.subrange(from as int, b - 1));
        b = b - 1;
    }
    b
}

/// What stands in the way of editing a marker block.
#[derive(Clone, Copy, Debug, PartialEq, Eq, Structural)]
pub enum MarkerError {
    /// One marker is missing, or they are out of order.
    Corrupt,
    /// No closing bracket to insert in front of.
    NoCloser,
}

impl MarkerError {
    /// The message shown to the user.
    pub open spec fn text(self, id: Seq<char>) -> Seq<char> {
        match self {
            MarkerError::Corrupt => "corrupt zedxcode:"@ + id
                + " marker block (one marker missing or out of order); fix the file manually"@,
            MarkerError::NoCloser =>
                "no top-level ']' or '}' found \u{2014} is this a JSON(C) file?"@,
        }
    }

    /// The message shown to the user.
    pub fn message(&self, marker_id: &str) -> (r: String)
        ensures
            r@ == self.text(marker_id@),
    {
        match self {
            MarkerError::Corrupt => {
                let mut r = owned("corrupt zedxcode:");
                r.append(marker_id);
                r.append(
                    " marker block (one marker missing or out of order); fix the file manually",
                );
                r
            },
            MarkerError::NoCloser => owned(
                "no top-level ']' or '}' found \u{2014} is this a JSON(C) file?",
            ),
        }
    }
}

/// The range from the start of the opening marker line to the end of the
/// closing one, its newline not included.
pub fn find_marker_region(s: &[char], marker_id: &str) -> (r: Result<
    Option<(usize, usize)>,
    MarkerError,
>)
    ensures
        match r {
            Ok(None) => marker_region(s@, marker_id@) == Ok::<Option<(int, int)>, ()>(None),
            Ok(Some((a, b))) => marker_region(s@, marker_id@) == Ok::<Option<(int, int)>, ()>(
                Some((a as int, b as int)),
            ) && a < b <= s.len(),
            Err(e) => marker_region(s@, marker_id@) is Err && e == MarkerError::Corrupt,
        },
{
    let sm = start_marker(marker_id);
    let em = end_marker(marker_id);
    let sc = chars_of(sm.as_str());
    let ec = chars_of(em.as_str());
    let start = find_line(s, sc.as_slice());
    let end = find_line(s, ec.as_slice());
    match (start, end) {
        (None, None) => Ok(None),
        (Some(a), Some(q)) => {
            let e = end_of_line(s, q);
            let b = trim_terminators(s, q, e);
            if b > a {
                Ok(Some((a, b)))
            } else {
                Err(MarkerError::Corrupt)
            }
        },
        _ => Err(MarkerError::Corrupt),
    }
}

/// The marker region around `block`.
pub fn render_region(marker_id: &str, block: &str) -> (r: String)
    ensures
        r@ == region_text(marker_id@, block@),
{
    let bc = chars_of(block);
    let n = trim_newlines(bc.as_slice(), 0, bc.len());
    assert(bc@.subrange(0, bc@.len() as int) == block@);
    let mut out: Vec<char> = Vec::new();
    push_str(&mut out, "  ");
    push_str(&mut out, start_marker(marker_id).as_str());
    out.push('\n');
    push_range(&mut out, bc.as_slice(), 0, n);
    push_str(&mut out, "\n  ");
    push_str(&mut out, end_marker(marker_id).as_str());
    assert(out@ == region_text(marker_id@, block@));
    string_of_all(out.as_slice())
}

// ---------------------------------------------------------------------------
// merging and removing
// ---------------------------------------------------------------------------

/// `t` with `p` put in at `at`.
pub open spec fn splice(t: Seq<char>, at: int, p: Seq<char>) -> Seq<char> {
    t.take(at) + p + t.skip(at)
}

/// Where a comma has to go so that a new last element can follow: behind the
/// last significant character before the closer, unless that is a comma or an
/// opening bracket already.
pub open spec fn wanted_comma(s: Seq<char>, closer: int) -> Option<int> {
    match last_significant(s, closer) {
        Some(k) => if s[k] == ',' || s[k] == '[' || s[k] == '{' {
            None
        } else {
            Some(k + 1)
        },
        None => None,
    }
}

/// Whether nothing but whitespace stands in front of `i` on its line.
pub open spec fn alone_on_line(s: Seq<char>, i: int) -> bool {
    trimmed(s.subrange(line_start(s, i), i)).len() == 0
}

/// Whether the comma goes onto the otherwise blank line of the closer: there
/// is whitespace in front of the closer that is no ASCII whitespace.
pub open spec fn comma_on_blank_line(s: Seq<char>) -> bool {
    match last_closer(s, s.len() as int) {
        Some(c) => alone_on_line(s, c) && (match wanted_comma(s, c) {
            Some(k) => k > line_start(s, c),
            None => false,
        }),
        None => false,
    }
}

/// Whether the place for the block, one byte behind the start of the closer's
/// line where the comma goes onto that line, lies between two characters.
pub open spec fn insertion_defined(s: Seq<char>) -> bool {
    match last_closer(s, s.len() as int) {
        Some(c) => comma_on_blank_line(s) ==> (s[line_start(s, c)] as u32) < 0x80,
        None => true,
    }
}

/// `text` with `region` inserted on lines of its own before the final closer
/// of the top-level value, and a comma behind the previous element where it
/// lacks one.
pub open spec fn inserted(text: Seq<char>, region: Seq<char>) -> Option<Seq<char>> {
    match last_closer(text, text.len() as int) {
        None => None,
        Some(c) => {
            let alone = alone_on_line(text, c);
            let at = if alone {
                line_start(text, c)
            } else {
                c
            };
            let piece = if alone {
                region.push('\n')
            } else {
                seq!['\n'] + region.push('\n')
            };
            Some(
                match wanted_comma(text, c) {
                    Some(k) => splice(splice(text, k, seq![',']), at + 1, piece),
                    None => splice(text, at, piece),
                },
            )
        },
    }
}

/// Outcome of a marker-block merge.
#[derive(Clone, Copy, Debug, PartialEq, Eq, Structural)]
pub enum MergeOutcome {
    /// No markers existed; block inserted before the final `]` / `}`.
    Inserted,
    /// Both markers existed; inner text replaced.
    Replaced,
    /// Existing region already equals the block.
    Unchanged,
}

/// The text after `block` is merged between the markers of `id`.
pub open spec fn merged(t: Seq<char>, id: Seq<char>, block: Seq<char>) -> Result<
    (Seq<char>, MergeOutcome),
    MarkerError,
> {
    let region = region_text(id, block);
    match marker_region(t, id) {
        Err(_) => Err(MarkerError::Corrupt),
        Ok(Some((a, b))) => if t.subrange(a, b) == region {
            Ok((t, MergeOutcome::Unchanged))
        } else {
            Ok((t.take(a) + region + t.skip(b), MergeOutcome::Replaced))
        },
        Ok(None) => match inserted(t, region) {
            None => Err(MarkerError::NoCloser),
            Some(n) => Ok((n, MergeOutcome::Inserted)),
        },
    }
}

/// The text without the marker block of `id`; `None` when there is none.
pub open spec fn removed(t: Seq<char>, id: Seq<char>) -> Result<Option<Seq<char>>, MarkerError> {
    match marker_region(t, id) {
        Err(_) => Err(MarkerError::Corrupt),
        Ok(None) => Ok(None),
        Ok(Some((a, b))) => Ok(
            Some(
                t.take(a) + t.skip(
                    if b < t.len() && t[b] == '\n' {
                        b + 1
                    } else {
                        b
                    },
                ),
            ),
        ),
    }
}

/// A line starts at or before its positions.
pub proof fn lemma_line_start(s: Seq<char>, i: int)
    requires
        0 <= i <= s.len(),
    ensures
        0 <= line_start(s, i) <= i,
        line_start(s, i) > 0 ==> s[line_start(s, i) - 1] == '\n',
        forall|k: int| line_start(s, i) <= k < i ==> s[k] != '\n',
    decreases i,
{
    if i > 0 && s[i - 1] != '\n' {
        lemma_line_start(s, i - 1);
    }
}

/// The start of the line that position `i` is on.
fn start_of_line(s: &[char], i: usize) -> (r: usize)
    requires
        i <= s.len(),
    ensures
        r == line_start(s@, i as int),
        r <= i,
{
    let mut j: usize = i;
    while j > 0 && s[j - 1] != '\n'
        invariant
            j <= i <= s.len(),
            line_start(s@, i as int) == line_start(s@, j as int),
        decreases j,
    {
        j = j - 1;
    }
    j
}

/// Whether the block's place in `text` lies between two characters; see
/// [`insertion_defined`].
pub fn insertion_is_defined(text: &str) -> (r: bool)
    ensures
        r == insertion_defined(text@),
{
    let s = chars_of(text);
    let scan = scan_structure(s.as_slice());
    match (scan.last_closer, scan.sig_before_closer) {
        (Some(c), Some((k, ch))) => {
            let start = start_of_line(s.as_slice(), c);
            let (a, b) = trim_range(s.as_slice(), start, c);
            let comma = !(ch == ',' || ch == '[' || ch == '{');
            !(a == b && comma && k + 1 > start) || (s[start] as u32) < 0x80
        },
        _ => true,
    }
}

/// `text` with `rendered` inserted before the final `]` / `}` of the top-level
/// value; see [`inserted`].
pub fn insert_before_final_closer(text: &str, rendered: &str) -> (r: Result<String, MarkerError>)
    requires
        insertion_defined(text@),
    ensures
        match r {
            Ok(n) => inserted(text@, rendered@) == Some(n@),
            Err(e) => inserted(text@, rendered@) is None && e == MarkerError::NoCloser,
        },
{
    let s = chars_of(text);
    let region = chars_of(rendered);
    let scan = scan_structure(s.as_slice());
    let closer = match scan.last_closer {
        Some(c) => c,
        None => return Err(MarkerError::NoCloser),
    };
    let start = start_of_line(s.as_slice(), closer);
    let (a, b) = trim_range(s.as_slice(), start, closer);
    let alone = a == b;
    let at: usize = if alone {
        start
    } else {
        closer
    };
    let mut piece: Vec<char> = Vec::new();
    if !alone {
        piece.push('\n');
    }
    push_range(&mut piece, region.as_slice(), 0, region.len());
    piece.push('\n');
    proof {
        assert(region@.subrange(0, region@.len() as int) == rendered@);
        if alone {
            assert(piece@ == rendered@.push('\n'));
        } else {
            assert(piece@ == seq!['\n'] + rendered@.push('\n'));
        }
    }
    let comma: Option<usize> = match scan.sig_before_closer {
        Some((k, ch)) => if ch == ',' || ch == '[' || ch == '{' {
            None
        } else {
            Some(k + 1)
        },
        None => None,
    };
    let n = match comma {
        Some(k) => {
            let with_comma = spliced(s.as_slice(), k, vec![','].as_slice());
            assert(at < s.len());
            spliced(with_comma.as_slice(), at + 1, piece.as_slice())
        },
        None => spliced(s.as_slice(), at, piece.as_slice()),
    };
    Ok(string_of_all(n.as_slice()))
}

/// `t` with `p` put in at `at`.
fn spliced(t: &[char], at: usize, p: &[char]) -> (r: Vec<char>)
    requires
        at <= t.len(),
    ensures
        r@ == splice(t@, at as int, p@),
{
    let mut r: Vec<char> = Vec::new();
    push_range(&mut r, t, 0, at);
    push_range(&mut r, p, 0, p.len());
    push_range(&mut r, t, at, t.len());
    assert(r@ == splice(t@, at as int, p@));
    r
}

/// Merge `block` into the JSONC text `original` between
/// `// >>> zedxcode:<marker_id> >>>` and `// <<< zedxcode:<marker_id> <<<`:
/// replace the inner text where the markers exist, else insert the region
/// before the final closer.
pub fn merge_marker_block(original: &str, marker_id: &str, block: &str) -> (r: Result<
    (String, MergeOutcome),
    MarkerError,
>)
    requires
        marker_region(original@, marker_id@) == Ok::<Option<(int, int)>, ()>(None)
            ==> insertion_defined(original@),
    ensures
        match r {
            Ok((n, o)) => merged(original@, marker_id@, block@) == Ok::<
                (Seq<char>, MergeOutcome),
                MarkerError,
            >((n@, o)),
            Err(e) => merged(original@, marker_id@, block@) == Err::<
                (Seq<char>, MergeOutcome),
                MarkerError,
            >(e),
        },
{
    let s = chars_of(original);
    let rendered = render_region(marker_id, block);
    match find_marker_region(s.as_slice(), marker_id) {
        Err(e) => Err(e),
        Ok(Some((a, b))) => {
            let region = chars_of(rendered.as_str());
            if range_eq(s.as_slice(), a, b, region.as_slice()) {
                return Ok((owned(original), MergeOutcome::Unchanged));
            }
            let mut n: Vec<char> = Vec::new();
            push_range(&mut n, s.as_slice(), 0, a);
            push_range(&mut n, region.as_slice(), 0, region.len());
            push_range(&mut n, s.as_slice(), b, s.len());
            assert(n@ == s@.take(a as int) + rendered@ + s@.skip(b as int));
            Ok((string_of_all(n.as_slice()), MergeOutcome::Replaced))
        },
        Ok(None) => match insert_before_final_closer(original, rendered.as_str()) {
            Ok(n) => Ok((n, MergeOutcome::Inserted)),
            Err(e) => Err(e),
        },
    }
}

/// Remove a previously merged marker block, with the newline of its last line.
/// `None` when no markers are present.
pub fn remove_marker_block(original: &str, marker_id: &str) -> (r: Result<
    Option<String>,
    MarkerError,
>)
    ensures
        match r {
            Ok(Some(n)) => removed(original@, marker_id@) == Ok::<Option<Seq<char>>, MarkerError>(
                Some(n@),
            ),
            Ok(None) => removed(original@, marker_id@) == Ok::<Option<Seq<char>>, MarkerError>(
                None,
            ),
            Err(e) => removed(original@, marker_id@) == Err::<Option<Seq<char>>, MarkerError>(e),
        },
{
    let s = chars_of(original);
    match find_marker_region(s.as_slice(), marker_id) {
        Err(e) => Err(e),
        Ok(None) => Ok(None),
        Ok(Some((a, b))) => {
            let e: usize = if b < s.len() && s[b] == '\n' {
                b + 1
            } else {
                b
            };
            let mut n: Vec<char> = Vec::new();
            push_range(&mut n, s.as_slice(), 0, a);
            push_range(&mut n, s.as_slice(), e, s.len());
            assert(n@ == s@.take(a as int) + s@.skip(e as int));
            Ok(Some(string_of_all(n.as_slice())))
        },
    }
}

// ---------------------------------------------------------------------------
// writing
// ---------------------------------------------------------------------------

/// The message for an edit that failed, of the file at `path`.
pub open spec fn edit_error(e: MarkerError, path: Seq<char>, id: Seq<char>) -> Seq<char> {
    match e {
        MarkerError::Corrupt => e.text(id),
        MarkerError::NoCloser => in_context("cannot find insertion point in "@ + path, e.text(id)),
    }
}

/// The message for an edit that failed, of the file at `path`.
pub fn edit_failed(e: MarkerError, path: &str, marker_id: &str) -> (r: String)
    ensures
        r@ == edit_error(e, path@, marker_id@),
{
    let m = e.message(marker_id);
    match e {
        MarkerError::Corrupt => m,
        MarkerError::NoCloser => {
            let mut what = owned("cannot find insertion point in ");
            what.append(path);
            with_context(what.as_str(), m.as_str())
        },
    }
}

/// The name of a backup: the file's name, the time in seconds and, from the
/// second of that time on, a number.
pub open spec fn backup_text(path: Seq<char>, secs: nat, n: nat) -> Seq<char> {
    if n == 0 {
        path + ".zedxcode-backup-"@ + decimal(secs)
    } else {
        path + ".zedxcode-backup-"@ + decimal(secs) + "-"@ + decimal(n)
    }
}

/// The name to try for a backup of the file at `path`, after `n` names that
/// were taken.
pub fn backup_path(path: &str, secs: u64, n: u32) -> (r: String)
    ensures
        r@ == backup_text(path@, secs as nat, n as nat),
{
    let mut r = owned(path);
    r.append(".zedxcode-backup-");
    r.append(decimal_u64(secs).as_str());
    if n > 0 {
        r.append("-");
        r.append(decimal_u64(n as u64).as_str());
    }
    r
}

/// The name of the file that is written before it takes the place of the file at
/// `path`; each process has its own.
pub fn tmp_path(path: &str, pid: u32) -> (r: String)
    ensures
        r@ == path@ + ".zedxcode-tmp-"@ + decimal(pid as nat),
{
    let mut r = owned(path);
    r.append(".zedxcode-tmp-");
    r.append(decimal_u64(pid as u64).as_str());
    r
}

/// What is said of a file that does not parse after the edit.
pub open spec fn invalid_text(path: Seq<char>, e: Seq<char>, backup: Seq<char>) -> Seq<char> {
    "post-merge validation of "@ + path + " failed ("@ + e
        + "); original restored, backup kept at "@ + backup
}

/// Whether the text that was written still parses as JSONC. If it does not, the
/// original goes back into place, and the message says where the backup is.
pub fn check_written(path: &str, written: &str, backup: &str) -> (r: Result<(), String>)
    ensures
        r is Ok <==> jsonc_parsed(written@) is Ok,
        r matches Err(m) ==> m@ == invalid_text(path@, jsonc_parsed(written@)->Err_0, backup@),
{
    match parse_jsonc(written) {
        Ok(_) => Ok(()),
        Err(e) => {
            let mut m = owned("post-merge validation of ");
            m.append(path);
            m.append(" failed (");
            m.append(e.as_str());
            m.append("); original restored, backup kept at ");
            m.append(backup);
            Err(m)
        },
    }
}

/// Backups of one second have different names.
pub proof fn lemma_backups_distinct(path: Seq<char>, secs: nat, n: nat, m: nat)
    requires
        backup_text(path, secs, n) == backup_text(path, secs, m),
    ensures
        n == m,
{
    reveal_strlit("-");
    let head = path + ".zedxcode-backup-"@ + decimal(secs);
    let a = backup_text(path, secs, n);
    let b = backup_text(path, secs, m);
    if n != 0 && m != 0 {
        assert(a.skip(head.len() as int + 1) =~= decimal(n));
        assert(b.skip(head.len() as int + 1) =~= decimal(m));
        lemma_decimal_round_trip(n);
        lemma_decimal_round_trip(m);
    } else if n != 0 {
        assert(a.len() > head.len());
    } else if m != 0 {
        assert(b.len() > head.len());
    }
}

} // verus!
