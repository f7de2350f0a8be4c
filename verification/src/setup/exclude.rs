//! `.git/info/exclude`: keep the generated files out of `git status`.

use crate::text::char_from;
use crate::text::chars_of;
use crate::text::is_space;
use crate::text::lemma_char_from;
use crate::text::lemma_char_front;
use crate::text::lemma_lines_concat;
use crate::text::lemma_trim_end_exact;
use crate::text::lemma_trim_padded;
use crate::text::lemma_trim_start_exact;
use crate::text::lines;
use crate::text::lines_from;
use crate::text::lines_of;
use crate::text::lossy_text;
use crate::text::owned;
use crate::text::str_eq;
use crate::text::string_of;
use crate::text::texts;
use crate::text::trim;
use crate::text::trim_end_by;
use crate::text::trim_start_by;
use crate::text::trimmed;
use crate::text::utf8_lossy;
use crate::text::without_cr;
use crate::util::paths::join;
use crate::util::paths::joined;
use vstd::prelude::*;

verus! {

/// A path that setup writes, and the line that keeps it out of `git status`.
pub struct Target {
    pub name: &'static str,
    pub line: &'static str,
}

/// The directory of the generated editor files.
pub fn zed_target() -> (r: Target)
    ensures
        r.name@ == ".zed"@,
        r.line@ == ".zed/"@,
{
    Target { name: ".zed", line: ".zed/" }
}

/// The generated build server file.
pub fn build_server_target() -> (r: Target)
    ensures
        r.name@ == "buildServer.json"@,
        r.line@ == "buildServer.json"@,
{
    Target { name: "buildServer.json", line: "buildServer.json" }
}

/// `s` without leading and trailing slashes.
pub open spec fn without_slashes(s: Seq<char>) -> Seq<char> {
    trim_end_by(trim_start_by(s, |c: char| c == '/'), |c: char| c == '/')
}

/// Whether a line of an exclude file names `target`.
pub open spec fn names_target(line: Seq<char>, target: Seq<char>) -> bool {
    without_slashes(trimmed(line)) == target
}

/// Whether an exclude file lists `target`.
pub open spec fn lists_target(text: Seq<char>, target: Seq<char>) -> bool {
    one_names(lines_of(text), target)
}

/// Whether one of some lines names `target`.
pub open spec fn one_names(lines: Seq<Seq<char>>, target: Seq<char>) -> bool {
    exists|i: int| 0 <= i < lines.len() && names_target(#[trigger] lines[i], target)
}

/// An exclude file with one more line.
pub open spec fn with_line(text: Seq<char>, line: Seq<char>) -> Seq<char> {
    if text.len() > 0 && text.last() != '\n' {
        text + "\n"@ + line + "\n"@
    } else {
        text + ""@ + line + "\n"@
    }
}

/// Where git keeps the exclude file, from what `git rev-parse --git-path` prints:
/// relative to the project directory unless it is absolute.
pub fn exclude_path(dir: &str, printed: &[u8]) -> (r: String)
    ensures
        r@ == joined(dir@, trimmed(lossy_text(printed@))),
{
    let rel = trim(utf8_lossy(printed).as_str());
    join(dir, rel.as_str())
}

/// `s` without leading and trailing slashes.
fn strip_slashes(s: &str) -> (r: String)
    ensures
        r@ == without_slashes(s@),
{
    let cs = chars_of(s);
    let ghost p = |c: char| c == '/';
    let mut a: usize = 0;
    assert(cs@.skip(0) == s@);
    while a < cs.len() && cs[a] == '/'
        invariant
            a <= cs.len(),
            p == (|c: char| c == '/'),
            trim_start_by(s@, p) == trim_start_by(cs@.skip(a as int), p),
        decreases cs.len() - a,
    {
        assert(cs@.skip(a as int).drop_first() =~= cs@.skip(a + 1));
        a = a + 1;
    }
    let ghost mid = cs@.skip(a as int);
    assert(trim_start_by(s@, p) == mid);
    let mut b: usize = cs.len();
    assert(cs@.subrange(a as int, b as int) =~= mid);
    while b > a && cs[b - 1] == '/'
        invariant
            a <= b <= cs.len(),
            p == (|c: char| c == '/'),
            trim_end_by(mid, p) == trim_end_by(cs@.subrange(a as int, b as int), p),
        decreases b,
    {
        assert(cs@.subrange(a as int, b as int).drop_last() =~= cs@.subrange(a as int, b - 1));
        b = b - 1;
    }
    string_of(cs.as_slice(), a, b)
}

/// Whether an exclude file lists `target`, with or without slashes around it.
pub fn already_listed(text: &str, target: &str) -> (r: bool)
    ensures
        r == lists_target(text@, target@),
{
    let ls = lines(text);
    let ghost lv = lines_of(text@);
    let mut i: usize = 0;
    while i < ls.len()
        invariant
            i <= ls.len(),
            lv == texts(ls@),
            lv == lines_of(text@),
            forall|k: int| 0 <= k < i ==> !names_target(#[trigger] lv[k], target@),
        decreases ls.len() - i,
    {
        assert(lv[i as int] == ls@[i as int]@);
        let t = trim(ls[i].as_str());
        if str_eq(strip_slashes(t.as_str()).as_str(), target) {
            return true;
        }
        i = i + 1;
    }
    false
}

/// An exclude file with one more line, on a line of its own.
pub fn append_line(text: &str, line: &str) -> (r: String)
    ensures
        r@ == with_line(text@, line@),
{
    let cs = chars_of(text);
    let mut r = owned(text);
    if cs.len() > 0 && cs[cs.len() - 1] != '\n' {
        r.append("\n");
    } else {
        proof {
            reveal_strlit("");
            assert(r@ + ""@ =~= r@);
        }
    }
    r.append(line);
    r.append("\n");
    r
}

/// What to do about the exclude file.
pub enum ExcludeStep {
    /// Git ignores the target already.
    Ignored,
    /// The file lists the target already.
    Listed,
    /// Write this text.
    Write(String),
}

/// What to do so that git ignores `target`, given whether it does and what the
/// exclude file holds.
pub fn exclude_step(target: &Target, ignored: bool, existing: &str) -> (r: ExcludeStep)
    ensures
        r is Ignored <==> ignored,
        r is Listed <==> !ignored && lists_target(existing@, target.name@),
        r matches ExcludeStep::Write(t) ==> t@ == with_line(existing@, target.line@),
{
    if ignored {
        ExcludeStep::Ignored
    } else if already_listed(existing, target.name) {
        ExcludeStep::Listed
    } else {
        ExcludeStep::Write(append_line(existing, target.line))
    }
}

// ---------------------------------------------------------------------------
// laws
// ---------------------------------------------------------------------------

/// A line break at the end adds no line, and keeps what the lines name.
proof fn lemma_closed_line(a: Seq<char>, i: int, target: Seq<char>)
    requires
        0 <= i <= a.len(),
        one_names(lines_from(a, i), target),
    ensures
        one_names(lines_from(a + "\n"@, i), target),
    decreases a.len() - i,
{
    reveal_strlit("\n");
    let s = a + "\n"@;
    let la = lines_from(a, i);
    let ls = lines_from(s, i);
    let w = choose|w: int| 0 <= w < la.len() && names_target(#[trigger] la[w], target);
    lemma_char_from(a, '\n', i);
    match char_from(a, '\n', i) {
        Some(k) => {
            lemma_char_front(a, "\n"@, '\n', i);
            assert(s.subrange(i, k) =~= a.subrange(i, k));
            let first = without_cr(a.subrange(i, k));
            assert(la == seq![first] + lines_from(a, k + 1));
            assert(ls == seq![first] + lines_from(s, k + 1));
            if w == 0 {
                assert(names_target(ls[0], target));
            } else {
                let ra = lines_from(a, k + 1);
                assert(names_target(ra[w - 1], target));
                lemma_closed_line(a, k + 1, target);
                let rs = lines_from(s, k + 1);
                let v = choose|v: int| 0 <= v < rs.len() && names_target(#[trigger] rs[v], target);
                assert(ls[v + 1] == rs[v]);
            }
        },
        None => {
            lemma_char_last(a, i);
            let l = a.subrange(i, a.len() as int);
            assert(la == seq![l]);
            assert(s.subrange(i, a.len() as int) =~= l);
            assert(lines_from(s, a.len() as int + 1) =~= Seq::empty());
            assert(ls =~= seq![without_cr(l)]);
            lemma_trim_cr(l);
            assert(names_target(ls[0], target));
        },
    }
}

/// The line break at the end is the first where there is none in front of it.
proof fn lemma_char_last(a: Seq<char>, i: int)
    requires
        0 <= i <= a.len(),
        char_from(a, '\n', i) is None,
    ensures
        char_from(a + "\n"@, '\n', i) == Some(a.len() as int),
    decreases a.len() - i,
{
    reveal_strlit("\n");
    if i < a.len() {
        assert((a + "\n"@)[i] == a[i]);
        lemma_char_last(a, i + 1);
    } else {
        assert((a + "\n"@)[i] == '\n');
    }
}

/// A carriage return at the end is whitespace, which trimming takes off.
proof fn lemma_trim_cr(l: Seq<char>)
    ensures
        trimmed(without_cr(l)) == trimmed(l),
{
}

/// A line that names its target bare or with a slash behind it.
proof fn lemma_target_line(name: Seq<char>, line: Seq<char>)
    requires
        name.len() > 0,
        name[0] != '/' && !is_space(name[0]),
        name.last() != '/' && !is_space(name.last()),
        line == name || line == name.push('/'),
    ensures
        names_target(line, name),
{
    let p = |c: char| c == '/';
    lemma_trim_padded(Seq::empty(), line, Seq::empty());
    assert(Seq::<char>::empty() + line + Seq::<char>::empty() =~= line);
    lemma_trim_start_exact(line, 0, p);
    assert(line.skip(0) =~= line);
    lemma_trim_end_exact(line, name.len() as int, p);
    assert(line.take(name.len() as int) =~= name);
}

/// A target that was appended is listed, so that setting up again appends
/// nothing more, and what the file listed before it still lists.
pub proof fn lemma_appended_listed(text: Seq<char>, name: Seq<char>, line: Seq<char>, other: Seq<char>)
    requires
        name.len() > 0,
        name[0] != '/' && !is_space(name[0]),
        name.last() != '/' && !is_space(name.last()),
        !name.contains('\n'),
        line == name || line == name.push('/'),
    ensures
        lists_target(with_line(text, line), name),
        lists_target(text, other) ==> lists_target(with_line(text, line), other),
{
    reveal_strlit("\n");
    reveal_strlit("");
    let head = if text.len() > 0 && text.last() != '\n' {
        text + "\n"@
    } else {
        text + ""@
    };
    let tail = line + "\n"@;
    let whole = with_line(text, line);
    assert(whole =~= head + tail);
    assert(head.len() == 0 || head.last() == '\n');
    lemma_lines_concat(head, tail, 0);
    let lh = lines_from(head, 0);
    let lt = lines_from(tail, 0);
    let lw = lines_of(whole);
    assert(char_from(line, '\n', 0) is None) by {
        lemma_char_from(line, '\n', 0);
        if let Some(k) = char_from(line, '\n', 0) {
            assert(k < name.len());
            assert(name[k] == '\n');
        }
    }
    lemma_char_last(line, 0);
    assert(tail.subrange(0, line.len() as int) =~= line);
    assert(lines_from(tail, line.len() as int + 1) =~= Seq::empty());
    assert(lt =~= seq![without_cr(line)]);
    lemma_trim_cr(line);
    lemma_target_line(name, line);
    assert(names_target(lw[lh.len() as int], name));
    if lists_target(text, other) {
        if text.len() > 0 && text.last() != '\n' {
            lemma_closed_line(text, 0, other);
        } else {
            assert(head =~= text);
        }
        let w = choose|w: int| 0 <= w < lh.len() && names_target(#[trigger] lh[w], other);
        assert(lw[w] == lh[w]);
    }
}

} // verus!
