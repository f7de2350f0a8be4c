//! What stripping a JSONC text twice gives.

use crate::setup::jsonc::class_at;
use crate::setup::jsonc::closes_next;
use crate::setup::jsonc::comma_on_blank_line;
use crate::setup::jsonc::insertion_defined;
use crate::setup::jsonc::kept;
use crate::setup::jsonc::last_closer;
use crate::setup::jsonc::last_significant;
use crate::setup::jsonc::lemma_all_commas_kept;
use crate::setup::jsonc::lemma_all_kept;
use crate::setup::jsonc::lemma_line_start;
use crate::setup::jsonc::lex_at;
use crate::setup::jsonc::line_start;
use crate::setup::jsonc::significant;
use crate::setup::jsonc::stripped;
use crate::setup::jsonc::trailing_comma;
use crate::setup::jsonc::uncommaed;
use crate::setup::jsonc::without_comments;
use crate::setup::jsonc::without_trailing_commas;
use crate::setup::jsonc::Lex;
use crate::setup::merge_laws::lemma_last_closer;
use crate::setup::merge_laws::lemma_last_significant;
use crate::text::is_ascii_space;
use crate::text::is_space;
use crate::text::lemma_trim_piece;
use vstd::prelude::*;

verus! {

/// Whether no character of a text belongs to a comment.
pub open spec fn comment_free(s: Seq<char>) -> bool {
    forall|i: int| 0 <= i < s.len() ==> !(#[trigger] class_at(s, i) is Comment)
}

/// Whether a text holds no trailing comma.
pub open spec fn no_trailing_comma(s: Seq<char>) -> bool {
    forall|i: int| 0 <= i < s.len() ==> !#[trigger] trailing_comma(s, i)
}

/// Whether the whitespace outside strings is JSON's: spaces, tabs, newlines and
/// carriage returns.
pub open spec fn json_blanks(s: Seq<char>) -> bool {
    forall|i: int|
        0 <= i < s.len() && lex_at(s, i, false) is Code && is_space(#[trigger] s[i]) ==> s[i] == ' '
            || s[i] == '\t' || s[i] == '\n' || s[i] == '\r'
}

/// What sets a JSON text apart from a JSONC text.
pub open spec fn plain_json(s: Seq<char>) -> bool {
    comment_free(s) && no_trailing_comma(s) && json_blanks(s)
}

/// A reader's state with comments taken for nothing.
spec fn outside(st: Lex) -> Lex {
    match st {
        Lex::Str => Lex::Str,
        Lex::Esc => Lex::Esc,
        _ => Lex::Code,
    }
}

/// What is kept of the front stands at the front of what is kept.
proof fn lemma_kept_prefix(s: Seq<char>, n: int, m: int)
    requires
        0 <= n <= m <= s.len(),
    ensures
        kept(s, n).len() <= kept(s, m).len(),
        kept(s, m).take(kept(s, n).len() as int) == kept(s, n),
    decreases m - n,
{
    if n < m {
        lemma_kept_prefix(s, n, m - 1);
        assert(kept(s, m).take(kept(s, n).len() as int) =~= kept(s, m - 1).take(
            kept(s, n).len() as int,
        ));
    } else {
        assert(kept(s, m).take(kept(s, m).len() as int) =~= kept(s, m));
    }
}

/// A kept character stands behind all that was kept in front of it.
proof fn lemma_kept_at(s: Seq<char>, n: int)
    requires
        0 <= n < s.len(),
        !(class_at(s, n) is Comment),
    ensures
        kept(s, n).len() < without_comments(s).len(),
        without_comments(s)[kept(s, n).len() as int] == s[n],
{
    lemma_kept_prefix(s, n + 1, s.len() as int);
    let p = kept(s, n).len() as int;
    assert(kept(s, n + 1)[p] == s[n]);
    assert(without_comments(s).take(kept(s, n + 1).len() as int)[p] == s[n]);
}

/// A reader of what is kept stands where a reader of the text does, but for the
/// comments, and meets none.
proof fn lemma_kept_reads(s: Seq<char>, n: int)
    requires
        0 <= n <= s.len(),
    ensures
        lex_at(without_comments(s), kept(s, n).len() as int, true) == outside(lex_at(s, n, true)),
        forall|j: int|
            0 <= j < kept(s, n).len() ==> !(#[trigger] class_at(without_comments(s), j) is Comment),
    decreases n,
{
    let k = without_comments(s);
    if n > 0 {
        let i = n - 1;
        lemma_kept_reads(s, i);
        let p = kept(s, i).len() as int;
        let st = lex_at(s, i, true);
        if !(class_at(s, i) is Comment) {
            lemma_kept_at(s, i);
            assert(kept(s, n).len() == p + 1);
            if st is Code && s[i] == '/' {
                if n < s.len() {
                    assert(lex_at(s, n, true) is Code);
                    assert(!(class_at(s, n) is Comment));
                    lemma_kept_at(s, n);
                } else {
                    assert(k.len() == p + 1);
                }
            }
            assert(!(class_at(k, p) is Comment));
        }
    }
}

/// A text without its comments has none.
proof fn lemma_comments_gone(s: Seq<char>)
    ensures
        comment_free(without_comments(s)),
{
    lemma_kept_reads(s, s.len() as int);
}

/// Where there is no comment, it makes no difference whether comments are read.
proof fn lemma_same_reading(s: Seq<char>, n: int)
    requires
        0 <= n <= s.len(),
        comment_free(s),
    ensures
        lex_at(s, n, true) == lex_at(s, n, false),
        lex_at(s, n, true) == outside(lex_at(s, n, true)),
    decreases n,
{
    if n > 0 {
        lemma_same_reading(s, n - 1);
        assert(!(class_at(s, n - 1) is Comment));
    }
}

/// What is left of the front stands at the front of what is left.
proof fn lemma_uncommaed_prefix(s: Seq<char>, n: int, m: int)
    requires
        0 <= n <= m <= s.len(),
    ensures
        uncommaed(s, n).len() <= uncommaed(s, m).len(),
        uncommaed(s, m).take(uncommaed(s, n).len() as int) == uncommaed(s, n),
    decreases m - n,
{
    if n < m {
        lemma_uncommaed_prefix(s, n, m - 1);
        assert(uncommaed(s, m).take(uncommaed(s, n).len() as int) =~= uncommaed(s, m - 1).take(
            uncommaed(s, n).len() as int,
        ));
    } else {
        assert(uncommaed(s, m).take(uncommaed(s, m).len() as int) =~= uncommaed(s, m));
    }
}

/// A character that is left stands behind all that is left in front of it.
proof fn lemma_uncommaed_at(s: Seq<char>, n: int)
    requires
        0 <= n < s.len(),
        !trailing_comma(s, n),
    ensures
        uncommaed(s, n).len() < without_trailing_commas(s).len(),
        without_trailing_commas(s)[uncommaed(s, n).len() as int] == s[n],
{
    lemma_uncommaed_prefix(s, n + 1, s.len() as int);
    let p = uncommaed(s, n).len() as int;
    assert(uncommaed(s, n + 1)[p] == s[n]);
    assert(without_trailing_commas(s).take(uncommaed(s, n + 1).len() as int)[p] == s[n]);
}

/// The character behind a slash outside strings makes no comment of it, trailing
/// commas gone or not.
proof fn lemma_slash_stays(s: Seq<char>, i: int)
    requires
        0 <= i < s.len(),
        comment_free(s),
        lex_at(s, i, false) is Code,
        s[i] == '/',
    ensures
        ({
            let u = without_trailing_commas(s);
            let q = uncommaed(s, i).len() as int;
            q + 1 < u.len() ==> u[q + 1] != '/' && u[q + 1] != '*'
        }),
{
    let u = without_trailing_commas(s);
    let q = uncommaed(s, i).len() as int;
    let n = i + 1;
    lemma_same_reading(s, i);
    assert(!(class_at(s, i) is Comment));
    assert(uncommaed(s, n).len() == q + 1);
    if n < s.len() {
        if !trailing_comma(s, n) {
            lemma_uncommaed_at(s, n);
        } else {
            let c = choose|j: int|
                n + 1 <= j < s.len() && (#[trigger] s[j] == ']' || s[j] == '}') && forall|k: int|
                    n + 1 <= k < j ==> is_ascii_space(#[trigger] s[k]);
            assert(closes_next(s, n + 1));
            if c > n + 1 {
                assert(is_ascii_space(s[n + 1]));
            }
            assert(uncommaed(s, n + 1).len() == q + 1);
            assert(!trailing_comma(s, n + 1));
            lemma_uncommaed_at(s, n + 1);
        }
    }
}

/// A reader of what is left without trailing commas stands where a reader of the
/// text does, and meets no comment.
proof fn lemma_uncommaed_reads(s: Seq<char>, n: int)
    requires
        0 <= n <= s.len(),
        comment_free(s),
    ensures
        lex_at(without_trailing_commas(s), uncommaed(s, n).len() as int, true) == lex_at(
            s,
            n,
            false,
        ),
        forall|j: int|
            0 <= j < uncommaed(s, n).len() ==> !(#[trigger] class_at(without_trailing_commas(s), j)
                is Comment),
    decreases n,
{
    let u = without_trailing_commas(s);
    if n > 0 {
        let i = n - 1;
        lemma_uncommaed_reads(s, i);
        lemma_same_reading(s, i);
        let q = uncommaed(s, i).len() as int;
        if !trailing_comma(s, i) {
            lemma_uncommaed_at(s, i);
            assert(uncommaed(s, n).len() == q + 1);
            if lex_at(s, i, false) is Code && s[i] == '/' {
                lemma_slash_stays(s, i);
            }
            assert(!(class_at(u, q) is Comment));
        }
    }
}

/// A stripped text holds no comment.
pub proof fn lemma_stripped_comment_free(s: Seq<char>)
    ensures
        comment_free(stripped(s)),
{
    let k = without_comments(s);
    lemma_comments_gone(s);
    lemma_uncommaed_reads(k, k.len() as int);
}

/// A trailing comma makes a text shorter.
proof fn lemma_comma_drops(s: Seq<char>, n: int)
    requires
        0 <= n <= s.len(),
    ensures
        uncommaed(s, n).len() <= n,
        (exists|i: int| 0 <= i < n && #[trigger] trailing_comma(s, i)) ==> uncommaed(s, n).len() < n,
    decreases n,
{
    if n > 0 {
        lemma_comma_drops(s, n - 1);
        if exists|i: int| 0 <= i < n && #[trigger] trailing_comma(s, i) {
            let i = choose|i: int| 0 <= i < n && #[trigger] trailing_comma(s, i);
            if i < n - 1 {
                assert(trailing_comma(s, i));
            }
        }
    }
}

/// Stripping twice is stripping once, exactly where the first strip leaves no
/// trailing comma, as it does of every text that parses: of two commas in a row
/// only the second goes.
pub proof fn lemma_strip_settles(s: Seq<char>)
    ensures
        stripped(stripped(s)) == stripped(s) <==> no_trailing_comma(stripped(s)),
{
    let u = stripped(s);
    let n = u.len() as int;
    lemma_stripped_comment_free(s);
    lemma_all_kept(u, n);
    assert(u.take(n) =~= u);
    assert(without_comments(u) == u);
    lemma_comma_drops(u, n);
    if no_trailing_comma(u) {
        lemma_all_commas_kept(u, n);
    }
}

/// A character outside strings and comments that is no comma is still there, and
/// outside strings, in the stripped text.
proof fn lemma_code_stays(s: Seq<char>, i: int)
    requires
        0 <= i < s.len(),
        lex_at(s, i, true) is Code,
        class_at(s, i) is Code,
        s[i] != ',',
    ensures
        exists|q: int|
            0 <= q < stripped(s).len() && lex_at(stripped(s), q, false) is Code && #[trigger] stripped(
                s,
            )[q] == s[i],
{
    let k = without_comments(s);
    let u = stripped(s);
    let p = kept(s, i).len() as int;
    lemma_kept_at(s, i);
    lemma_kept_reads(s, i);
    lemma_comments_gone(s);
    lemma_same_reading(k, p);
    let q = uncommaed(k, p).len() as int;
    assert(!trailing_comma(k, p));
    lemma_uncommaed_at(k, p);
    lemma_uncommaed_reads(k, p);
    lemma_stripped_comment_free(s);
    lemma_same_reading(u, q);
    assert(u[q] == s[i]);
}

/// Of a text that parses, the whitespace in front of the final closer is JSON's, so
/// the place for a block is between two characters: a block can be inserted.
pub proof fn lemma_insertion_defined(s: Seq<char>)
    requires
        plain_json(stripped(s)),
    ensures
        !comma_on_blank_line(s),
        insertion_defined(s),
{
    if comma_on_blank_line(s) {
        lemma_last_closer(s, s.len() as int);
        let c = last_closer(s, s.len() as int)->0;
        lemma_line_start(s, c);
        lemma_last_significant(s, c);
        let l = line_start(s, c);
        let line = s.subrange(l, c);
        let k = last_significant(s, c)->0;
        let (a, b) = lemma_trim_piece(line);
        assert(line[k - l] == s[k]);
        assert(is_space(s[k]));
        if class_at(s, k) is Str {
            assert(lex_at(s, k + 1, true) is Str);
            if k + 1 < c {
                assert(significant(s, k + 1));
            }
        }
        assert(class_at(s, k) is Code);
        lemma_code_stays(s, k);
    }
}

/// A comma is dropped where it stands in front of a closing bracket, with nothing but white
/// space between, and outside of a text. No other comma is.
pub proof fn lemma_dropped_commas(s: Seq<char>, i: int, j: int)
    requires
        0 <= i < j < s.len(),
        forall|k: int| i < k < j ==> is_ascii_space(#[trigger] s[k]),
        !is_ascii_space(s[j]),
    ensures
        s[i] == ',' && lex_at(s, i, false) is Code ==> (trailing_comma(s, i) <==> s[j] == ']'
            || s[j] == '}'),
        s[i] != ',' ==> !trailing_comma(s, i),
        lex_at(s, i, false) is Str ==> !trailing_comma(s, i),
{
    if trailing_comma(s, i) {
        let k = choose|k: int|
            i + 1 <= k < s.len() && (#[trigger] s[k] == ']' || s[k] == '}') && forall|m: int|
                i + 1 <= m < k ==> is_ascii_space(#[trigger] s[m]);
        if k < j {
            assert(is_ascii_space(s[k]));
        } else if j < k {
            assert(is_ascii_space(s[j]));
        }
    }
    if s[j] == ']' || s[j] == '}' {
        assert(closes_next(s, i + 1));
    }
}

/// A text begins and ends at a quotation mark, but for one behind a backslash; a comment
/// begins only outside of a text, and one that two slashes begin ends with its line.
pub proof fn lemma_lexing(s: Seq<char>, i: int)
    requires
        0 <= i < s.len(),
    ensures
        lex_at(s, i, true) is Code && s[i] == '"' ==> lex_at(s, i + 1, true) is Str,
        lex_at(s, i, true) is Str && s[i] == '"' ==> lex_at(s, i + 1, true) is Code,
        lex_at(s, i, true) is Str && s[i] == '\\' ==> lex_at(s, i + 1, true) is Esc,
        lex_at(s, i, true) is Esc ==> lex_at(s, i + 1, true) is Str,
        lex_at(s, i, true) is Str && s[i] != '"' && s[i] != '\\' ==> lex_at(s, i + 1, true) is Str,
        lex_at(s, i, true) is Line && s[i] != '\n' ==> lex_at(s, i + 1, true) is Line,
        lex_at(s, i, true) is Line && s[i] == '\n' ==> lex_at(s, i + 1, true) is Code,
        lex_at(s, i, true) is Code && i + 1 < s.len() && s[i] == '/' && s[i + 1] == '/' ==> lex_at(
            s,
            i + 1,
            true,
        ) is Line,
        lex_at(s, 0, true) is Code,
{
}

/// Texts count as something, comments do not, and of the rest all but white space does.
pub proof fn lemma_significance(s: Seq<char>, i: int)
    ensures
        class_at(s, i) is Comment ==> !significant(s, i),
        class_at(s, i) is Str ==> significant(s, i),
        class_at(s, i) is Code && s[i] == ' ' ==> !significant(s, i),
        class_at(s, i) is Code && !is_ascii_space(s[i]) ==> significant(s, i),
{
}

} // verus!
