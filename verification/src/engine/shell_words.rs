//! Shell words, the way the build log encodes commands.

use crate::text::char_from;
use crate::text::chars_of;
use crate::text::find_char;
use crate::text::is_space;
use crate::text::lemma_char_from;
use crate::text::push_range;
use crate::text::push_text;
use crate::text::string_of_all;
use crate::text::texts;
use crate::text::whitespace;
use vstd::prelude::*;

verus! {

/// Where a single-quoted run that starts at `i` ends: at the next quote, or at
/// the end of the text.
pub open spec fn single_end(cs: Seq<char>, i: int) -> int {
    match char_from(cs, '\'', i) {
        Some(k) => k,
        None => cs.len() as int,
    }
}

/// What a double-quoted run that starts at `i` holds, and where the text goes
/// on. An escaped quote stays content, with its backslash.
pub open spec fn double_quoted(cs: Seq<char>, i: int) -> (Seq<char>, int)
    decreases cs.len() - i,
{
    if i >= cs.len() {
        (Seq::empty(), i)
    } else if cs[i] == '\\' && i + 1 < cs.len() && cs[i + 1] == '"' {
        let (rest, end) = double_quoted(cs, i + 2);
        (seq!['\\', '"'] + rest, end)
    } else if cs[i] == '"' {
        (Seq::empty(), i + 1)
    } else {
        let (rest, end) = double_quoted(cs, i + 1);
        (seq![cs[i]] + rest, end)
    }
}

/// A double-quoted run ends inside the text, at or behind its start.
pub proof fn lemma_double_quoted_end(cs: Seq<char>, i: int)
    requires
        0 <= i <= cs.len(),
    ensures
        i <= double_quoted(cs, i).1 <= cs.len(),
    decreases cs.len() - i,
{
    if i < cs.len() {
        if cs[i] == '\\' && i + 1 < cs.len() && cs[i + 1] == '"' {
            lemma_double_quoted_end(cs, i + 2);
        } else if cs[i] != '"' {
            lemma_double_quoted_end(cs, i + 1);
        }
    }
}

/// The word that goes on at `i`, and where it ends. A backslash before a space
/// becomes a literal space; every other backslash sequence is kept verbatim.
pub open spec fn word_at(cs: Seq<char>, i: int) -> (Seq<char>, int)
    decreases cs.len() - i,
{
    if i < 0 || i >= cs.len() || is_space(cs[i]) {
        (Seq::empty(), i)
    } else if cs[i] == '\\' {
        if i + 1 < cs.len() {
            let (rest, end) = word_at(cs, i + 2);
            if cs[i + 1] == ' ' {
                (seq![' '] + rest, end)
            } else {
                (seq!['\\', cs[i + 1]] + rest, end)
            }
        } else {
            (seq!['\\'], i + 1)
        }
    } else if cs[i] == '\'' {
        proof {
            lemma_char_from(cs, '\'', i + 1);
        }
        let k = single_end(cs, i + 1);
        let (rest, end) = word_at(
            cs,
            if k < cs.len() {
                k + 1
            } else {
                k
            },
        );
        (cs.subrange(i + 1, k) + rest, end)
    } else if cs[i] == '"' {
        proof {
            lemma_double_quoted_end(cs, i + 1);
        }
        let (inner, k) = double_quoted(cs, i + 1);
        let (rest, end) = word_at(cs, k);
        (inner + rest, end)
    } else {
        let (rest, end) = word_at(cs, i + 1);
        (seq![cs[i]] + rest, end)
    }
}

/// A word ends inside the text, and behind its start where it starts at all.
pub proof fn lemma_word_end(cs: Seq<char>, i: int)
    requires
        0 <= i <= cs.len(),
    ensures
        i <= word_at(cs, i).1 <= cs.len(),
        i < cs.len() && !is_space(cs[i]) ==> i < word_at(cs, i).1,
    decreases cs.len() - i,
{
    if i < cs.len() && !is_space(cs[i]) {
        if cs[i] == '\\' {
            if i + 1 < cs.len() {
                lemma_word_end(cs, i + 2);
            }
        } else if cs[i] == '\'' {
            lemma_char_from(cs, '\'', i + 1);
            let k = single_end(cs, i + 1);
            lemma_word_end(
                cs,
                if k < cs.len() {
                    k + 1
                } else {
                    k
                },
            );
        } else if cs[i] == '"' {
            lemma_double_quoted_end(cs, i + 1);
            lemma_word_end(cs, double_quoted(cs, i + 1).1);
        } else {
            lemma_word_end(cs, i + 1);
        }
    }
}

/// The words of a text, from `i` on.
pub open spec fn words_from(cs: Seq<char>, i: int) -> Seq<Seq<char>>
    decreases cs.len() - i,
{
    if i < 0 || i >= cs.len() {
        Seq::empty()
    } else if is_space(cs[i]) {
        words_from(cs, i + 1)
    } else {
        proof {
            lemma_word_end(cs, i);
        }
        let (word, end) = word_at(cs, i);
        seq![word] + words_from(cs, end)
    }
}

/// The words of a text.
pub open spec fn words_of(cs: Seq<char>) -> Seq<Seq<char>> {
    words_from(cs, 0)
}

/// Append what a double-quoted run holds; where the text goes on.
fn push_double_quoted(cs: &[char], from: usize, cur: &mut Vec<char>) -> (end: usize)
    requires
        from <= cs.len(),
    ensures
        final(cur)@ == old(cur)@ + double_quoted(cs@, from as int).0,
        end == double_quoted(cs@, from as int).1,
        from <= end <= cs.len(),
{
    let ghost whole = double_quoted(cs@, from as int);
    let ghost before = cur@;
    let mut i: usize = from;
    proof {
        lemma_double_quoted_end(cs@, from as int);
        assert(cur@ + whole.0 == before + whole.0);
    }
    while i < cs.len()
        invariant
            from <= i <= cs.len(),
            before == old(cur)@,
            whole == double_quoted(cs@, from as int),
            from <= whole.1 <= cs.len(),
            cur@ + double_quoted(cs@, i as int).0 == before + whole.0,
            double_quoted(cs@, i as int).1 == whole.1,
        decreases cs.len() - i,
    {
        let ghost now = cur@;
        if cs[i] == '\\' && i + 1 < cs.len() && cs[i + 1] == '"' {
            cur.push('\\');
            cur.push('"');
            assert(cur@ + double_quoted(cs@, i + 2).0 =~= now + double_quoted(cs@, i as int).0);
            i = i + 2;
        } else if cs[i] == '"' {
            assert(cur@ =~= before + whole.0);
            return i + 1;
        } else {
            cur.push(cs[i]);
            assert(cur@ + double_quoted(cs@, i + 1).0 =~= now + double_quoted(cs@, i as int).0);
            i = i + 1;
        }
    }
    assert(cur@ =~= before + whole.0);
    i
}

/// The word that starts at `from`, and where it ends.
fn read_word(cs: &[char], from: usize) -> (r: (Vec<char>, usize))
    requires
        from <= cs.len(),
    ensures
        (r.0@, r.1 as int) == word_at(cs@, from as int),
        r.1 <= cs.len(),
{
    let ghost whole = word_at(cs@, from as int);
    let mut cur: Vec<char> = Vec::new();
    let mut i: usize = from;
    assert(cur@ + whole.0 =~= whole.0);
    while i < cs.len() && !whitespace(cs[i])
        invariant
            from <= i <= cs.len(),
            whole == word_at(cs@, from as int),
            cur@ + word_at(cs@, i as int).0 == whole.0,
            word_at(cs@, i as int).1 == whole.1,
        decreases cs.len() - i,
    {
        let ghost now = cur@;
        let ghost at = word_at(cs@, i as int).0;
        let c = cs[i];
        if c == '\\' {
            if i + 1 < cs.len() {
                if cs[i + 1] == ' ' {
                    cur.push(' ');
                } else {
                    cur.push('\\');
                    cur.push(cs[i + 1]);
                }
                i = i + 2;
            } else {
                cur.push('\\');
                i = i + 1;
            }
        } else if c == '\'' {
            proof {
                lemma_char_from(cs@, '\'', i + 1);
            }
            let k: usize = match find_char(cs, '\'', i + 1) {
                Some(k) => k,
                None => cs.len(),
            };
            push_range(&mut cur, cs, i + 1, k);
            i = if k < cs.len() {
                k + 1
            } else {
                k
            };
        } else if c == '"' {
            i = push_double_quoted(cs, i + 1, &mut cur);
        } else {
            cur.push(c);
            i = i + 1;
        }
        assert(cur@ + word_at(cs@, i as int).0 =~= now + at);
    }
    assert(cur@ =~= whole.0);
    (cur, i)
}

/// Split a command or response-file text into arguments the way the build log
/// encodes them: whitespace-separated, single and double quotes, and
/// backslash-escaped spaces. Xcode's `\=` is kept verbatim.
pub fn shell_split(s: &str) -> (r: Vec<String>)
    ensures
        texts(r@) == words_of(s@),
{
    let chars = chars_of(s);
    let cs = chars.as_slice();
    let mut out: Vec<String> = Vec::new();
    let mut i: usize = 0;
    assert(texts(out@) + words_from(cs@, 0) =~= words_of(s@));
    while i < cs.len()
        invariant
            i <= cs.len(),
            cs@ == s@,
            texts(out@) + words_from(cs@, i as int) == words_of(s@),
        decreases cs.len() - i,
    {
        if whitespace(cs[i]) {
            i = i + 1;
        } else {
            let ghost done = texts(out@);
            proof {
                lemma_word_end(cs@, i as int);
            }
            let (word, end) = read_word(cs, i);
            let text = string_of_all(word.as_slice());
            push_text(&mut out, text.as_str());
            assert(texts(out@) + words_from(cs@, end as int) =~= done + words_from(cs@, i as int));
            i = end;
        }
    }
    assert(texts(out@) =~= words_of(s@));
    out
}

} // verus!
