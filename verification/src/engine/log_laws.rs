//! What two pieces of captured build output give together.

use crate::engine::xcactivitylog::body_from;
use crate::engine::xcactivitylog::break_len;
use crate::engine::xcactivitylog::broken_lines;
use crate::engine::xcactivitylog::collected;
use crate::engine::xcactivitylog::lemma_section_end;
use crate::engine::xcactivitylog::section_end;
use crate::engine::xcactivitylog::section_module;
use crate::engine::xcactivitylog::section_start;
use crate::engine::xcactivitylog::section_title;
use crate::engine::xcactivitylog::sections_from;
use crate::engine::xcactivitylog::text_modules;
use crate::engine::xcactivitylog::ModuleView;
use crate::text::char_from;
use crate::text::has_prefix;
use crate::text::is_space;
use crate::text::joined_with;
use crate::text::lemma_char_from;
use crate::text::lemma_lines_concat;
use crate::text::lines_from;
use crate::text::lines_of;
use crate::text::trim_end_by;
use crate::text::trimmed;
use crate::text::without_cr;
use vstd::prelude::*;

verus! {

// ---------------------------------------------------------------------------
// lines
// ---------------------------------------------------------------------------

/// Whether a text is empty or ends with a newline.
spec fn whole(s: Seq<char>) -> bool {
    s.len() == 0 || s.last() == '\n'
}

/// The lines of a single newline.
proof fn lemma_lines_newline()
    ensures
        lines_of(seq!['\n']) == seq![Seq::<char>::empty()],
{
    let s = seq!['\n'];
    assert(char_from(s, '\n', 0) == Some(0int));
    assert(s.subrange(0, 0) =~= Seq::<char>::empty());
    assert(lines_from(s, 1) =~= Seq::<Seq<char>>::empty());
    assert(lines_of(s) =~= seq![Seq::<char>::empty()]);
}

/// Where the last line of a text starts.
spec fn last_start(s: Seq<char>) -> int
    decreases s.len(),
{
    if whole(s) {
        s.len() as int
    } else {
        last_start(s.drop_last())
    }
}

/// The last line of a text holds no newline, and whole lines stand in front.
proof fn lemma_last_start(s: Seq<char>)
    ensures
        0 <= last_start(s) <= s.len(),
        whole(s.take(last_start(s))),
        forall|k: int| last_start(s) <= k < s.len() ==> #[trigger] s[k] != '\n',
    decreases s.len(),
{
    if whole(s) {
        assert(s.take(s.len() as int) =~= s);
    } else {
        lemma_last_start(s.drop_last());
        let i = last_start(s);
        assert(s.take(i) =~= s.drop_last().take(i));
        assert forall|k: int| i <= k < s.len() implies #[trigger] s[k] != '\n' by {
            if k < s.len() - 1 {
                assert(s[k] == s.drop_last()[k]);
            }
        }
    }
}

/// A text that ends inside a line, with and without the newline behind it.
proof fn lemma_lines_ended(a: Seq<char>)
    requires
        !whole(a),
    ensures
        lines_of(a).len() > 0,
        lines_of(a + seq!['\n']) == lines_of(a).drop_last().push(without_cr(lines_of(a).last())),
{
    let i = last_start(a);
    lemma_last_start(a);
    let w = a.take(i);
    let x = a.skip(i);
    let nl = seq!['\n'];
    if x.len() == 0 {
        assert(w =~= a);
    }
    assert(a =~= w + x);
    assert(a + nl =~= w + (x + nl));
    lemma_lines_concat(w, x, 0);
    lemma_lines_concat(w, x + nl, 0);
    assert forall|k: int| 0 <= k < x.len() implies #[trigger] x[k] != '\n' by {
        assert(x[k] == a[i + k]);
    }
    lemma_char_from(x, '\n', 0);
    assert(char_from(x, '\n', 0) is None);
    assert(x.subrange(0, x.len() as int) =~= x);
    assert(lines_of(x) =~= seq![x]);
    let y = x + nl;
    lemma_char_from(y, '\n', 0);
    assert(y[x.len() as int] == '\n');
    assert(char_from(y, '\n', 0) == Some(x.len() as int)) by {
        match char_from(y, '\n', 0) {
            Some(k) => {
                if k < x.len() {
                    assert(y[k] == x[k]);
                }
            },
            None => {},
        }
    }
    assert(y.subrange(0, x.len() as int) =~= x);
    assert(lines_from(y, (x.len() + 1) as int) =~= Seq::<Seq<char>>::empty());
    assert(lines_of(y) =~= seq![without_cr(x)]);
    assert(lines_of(a).drop_last() =~= lines_of(w));
    assert(lines_of(a).last() == x);
    assert(lines_of(a + nl) =~= lines_of(w).push(without_cr(x)));
}

// ---------------------------------------------------------------------------
// sections
// ---------------------------------------------------------------------------

/// The line that separates two pieces.
spec fn blank() -> Seq<char> {
    Seq::empty()
}

/// A blank line is no title.
proof fn lemma_blank()
    ensures
        trimmed(blank()).len() == 0,
        !section_start(blank()),
{
    reveal_strlit("SwiftDriver ");
    reveal_strlit("SwiftDriver\\ Compilation ");
    reveal_strlit("CompileSwiftSources ");
}

/// A section ends in front of a blank line.
proof fn lemma_end_blank(a: Seq<Seq<char>>, b: Seq<Seq<char>>, i: int)
    requires
        0 <= i <= a.len(),
    ensures
        section_end(a + seq![blank()] + b, i) == section_end(a, i),
    decreases a.len() - i,
{
    let l = a + seq![blank()] + b;
    if i == a.len() {
        assert(l[i] == blank());
        lemma_blank();
    } else {
        assert(l[i] == a[i]);
        if trimmed(a[i]).len() > 0 && !section_start(a[i]) {
            lemma_end_blank(a, b, i + 1);
        }
    }
}

/// The end of a section behind a front part.
proof fn lemma_end_shift(a: Seq<Seq<char>>, b: Seq<Seq<char>>, j: int)
    requires
        0 <= j <= b.len(),
    ensures
        section_end(a + b, a.len() + j) == a.len() + section_end(b, j),
    decreases b.len() - j,
{
    if j < b.len() {
        assert((a + b)[a.len() + j] == b[j]);
        if trimmed(b[j]).len() > 0 && !section_start(b[j]) {
            lemma_end_shift(a, b, j + 1);
        }
    }
}

/// The sections behind a front part.
proof fn lemma_sections_shift(a: Seq<Seq<char>>, b: Seq<Seq<char>>, j: int)
    requires
        0 <= j <= b.len(),
    ensures
        sections_from(a + b, a.len() + j) == sections_from(b, j),
    decreases b.len() - j,
{
    if j < b.len() {
        assert((a + b)[a.len() + j] == b[j]);
        if section_start(b[j]) {
            lemma_end_shift(a, b, j + 1);
            lemma_section_end(b, j + 1);
            let e = section_end(b, j + 1);
            assert((a + b).subrange(a.len() + j, a.len() + e) =~= b.subrange(j, e));
            lemma_sections_shift(a, b, e);
        } else {
            lemma_sections_shift(a, b, j + 1);
        }
    }
}

/// No section reaches over a blank line.
proof fn lemma_sections_blank(a: Seq<Seq<char>>, b: Seq<Seq<char>>, i: int)
    requires
        0 <= i <= a.len(),
    ensures
        sections_from(a + seq![blank()] + b, i) == sections_from(a, i) + sections_from(b, 0),
    decreases a.len() - i,
{
    let l = a + seq![blank()] + b;
    if i == a.len() {
        assert(l[i] == blank());
        lemma_blank();
        lemma_sections_shift(a + seq![blank()], b, 0);
        assert(sections_from(a, i) =~= Seq::<Seq<char>>::empty());
        assert(sections_from(l, i) =~= sections_from(a, i) + sections_from(b, 0));
    } else {
        assert(l[i] == a[i]);
        if section_start(a[i]) {
            lemma_end_blank(a, b, i + 1);
            lemma_section_end(a, i + 1);
            let e = section_end(a, i + 1);
            assert(l.subrange(i, e) =~= a.subrange(i, e));
            lemma_sections_blank(a, b, e);
            assert(sections_from(l, i) =~= sections_from(a, i) + sections_from(b, 0));
        } else {
            lemma_sections_blank(a, b, i + 1);
        }
    }
}

// ---------------------------------------------------------------------------
// a carriage return at the end
// ---------------------------------------------------------------------------

/// A carriage return at the end of a text adds at most an empty line.
proof fn lemma_broken_cr(v: Seq<char>, start: int, i: int)
    requires
        0 <= start <= i <= v.len(),
    ensures
        broken_lines(v.push('\r'), start, i) == broken_lines(v, start, i) || broken_lines(
            v.push('\r'),
            start,
            i,
        ) == broken_lines(v, start, i).push(blank()),
    decreases v.len() - i,
{
    let w = v.push('\r');
    if i == v.len() {
        assert(w[i] == '\r');
        assert(break_len(w, i) == 1);
        assert(broken_lines(w, i + 1, i + 1) =~= Seq::<Seq<char>>::empty());
        assert(w.subrange(start, i) =~= v.subrange(start, i));
        if start < v.len() {
            assert(broken_lines(w, start, i) =~= broken_lines(v, start, i));
        } else {
            assert(w.subrange(start, i) =~= blank());
            assert(broken_lines(w, start, i) =~= broken_lines(v, start, i).push(blank()));
        }
    } else {
        assert(w[i] == v[i]);
        if i + 1 < v.len() {
            assert(w[i + 1] == v[i + 1]);
        } else {
            assert(w[i + 1] == '\r');
        }
        assert(break_len(w, i) == break_len(v, i));
        let n = break_len(v, i);
        if n == 0 {
            lemma_broken_cr(v, start, i + 1);
        } else {
            let head = seq![v.subrange(start, i)];
            assert(w.subrange(start, i) =~= v.subrange(start, i));
            lemma_broken_cr(v, i + n, i + n);
            assert(head + broken_lines(v, i + n, i + n).push(blank()) =~= (head + broken_lines(
                v,
                i + n,
                i + n,
            )).push(blank()));
        }
    }
}

/// An empty line at the end adds nothing to a body.
proof fn lemma_body_blank(lines: Seq<Seq<char>>, i: int)
    requires
        0 <= i,
    ensures
        body_from(lines.push(blank()), i) == body_from(lines, i),
    decreases lines.len() - i,
{
    let l = lines.push(blank());
    lemma_blank();
    if i < lines.len() {
        assert(l[i] == lines[i]);
        lemma_body_blank(lines, i + 1);
    } else if i == lines.len() {
        assert(l[i] == blank());
    }
}

/// A section with a carriage return behind it compiles the same module.
proof fn lemma_module_cr(v: Seq<char>)
    ensures
        section_module(v.push('\r')) == section_module(v),
{
    lemma_broken_cr(v, 0, 0);
    lemma_body_blank(broken_lines(v, 0, 0), 1);
}

/// A prefix without a carriage return is there with and without one at the end.
proof fn lemma_prefix_cr(y: Seq<char>, p: Seq<char>)
    requires
        p.len() > 0,
        p.last() != '\r',
    ensures
        has_prefix(y.push('\r'), p) == has_prefix(y, p),
{
    let x = y.push('\r');
    if has_prefix(y, p) {
        assert(x.subrange(0, p.len() as int) =~= y.subrange(0, p.len() as int));
    }
    if has_prefix(x, p) {
        let n = p.len() as int;
        assert(x.subrange(0, n)[n - 1] == x[n - 1]);
        assert(n <= y.len());
        assert(x.subrange(0, n) =~= y.subrange(0, n));
    }
}

/// A line with a carriage return behind it is read as the line.
proof fn lemma_line_cr(y: Seq<char>)
    ensures
        trimmed(y.push('\r')) == trimmed(y),
        section_start(y.push('\r')) == section_start(y),
{
    let x = y.push('\r');
    assert(x.drop_last() =~= y);
    assert(trim_end_by(x, |c: char| is_space(c)) == trim_end_by(y, |c: char| is_space(c)));
    reveal_strlit("SwiftDriver ");
    reveal_strlit("SwiftDriver\\ Compilation ");
    reveal_strlit("CompileSwiftSources ");
    lemma_prefix_cr(y, "SwiftDriver "@);
    lemma_prefix_cr(y, "SwiftDriver\\ Compilation "@);
    lemma_prefix_cr(y, "CompileSwiftSources "@);
    if y.len() > 0 {
        assert(x[0] == y[0]);
    } else {
        assert(!section_title(y));
    }
}

/// Whether two lists of sections compile the same modules, one by one.
spec fn same_modules(s: Seq<Seq<char>>, t: Seq<Seq<char>>) -> bool {
    &&& s.len() == t.len()
    &&& forall|k: int| 0 <= k < s.len() ==> section_module(#[trigger] s[k]) == section_module(t[k])
}

/// A section's end does not depend on a carriage return at the end.
proof fn lemma_end_cr(front: Seq<Seq<char>>, y: Seq<char>, i: int)
    requires
        0 <= i <= front.len() + 1,
    ensures
        section_end(front.push(y.push('\r')), i) == section_end(front.push(y), i),
    decreases front.len() + 1 - i,
{
    let l = front.push(y.push('\r'));
    let m = front.push(y);
    if i < l.len() {
        lemma_line_cr(y);
        if i < front.len() {
            assert(l[i] == front[i] && m[i] == front[i]);
        } else {
            assert(l[i] == y.push('\r') && m[i] == y);
        }
        if trimmed(m[i]).len() > 0 && !section_start(m[i]) {
            lemma_end_cr(front, y, i + 1);
        }
    }
}

/// The sections do not depend on a carriage return at the end, but for one in
/// the last of them.
proof fn lemma_sections_cr(front: Seq<Seq<char>>, y: Seq<char>, i: int)
    requires
        0 <= i <= front.len() + 1,
    ensures
        same_modules(
            sections_from(front.push(y.push('\r')), i),
            sections_from(front.push(y), i),
        ),
    decreases front.len() + 1 - i,
{
    let x = y.push('\r');
    let l = front.push(x);
    let m = front.push(y);
    if i < l.len() {
        lemma_line_cr(y);
        if i < front.len() {
            assert(l[i] == front[i] && m[i] == front[i]);
        } else {
            assert(l[i] == x && m[i] == y);
        }
        if section_start(m[i]) {
            lemma_end_cr(front, y, i + 1);
            lemma_section_end(m, i + 1);
            let e = section_end(m, i + 1);
            let nl = "\n"@;
            let p = l.subrange(i, e);
            let q = m.subrange(i, e);
            lemma_sections_cr(front, y, e);
            if e <= front.len() {
                assert(p =~= q);
            } else {
                assert(p.drop_last() =~= q.drop_last());
                assert(p.last() == x && q.last() == y);
                assert(joined_with(p, nl) =~= joined_with(q, nl).push('\r'));
                lemma_module_cr(joined_with(q, nl));
            }
            let ls = sections_from(l, e);
            let ms = sections_from(m, e);
            assert(sections_from(l, i) == seq![joined_with(p, nl)] + ls);
            assert(sections_from(m, i) == seq![joined_with(q, nl)] + ms);
            assert forall|k: int| 0 <= k < sections_from(l, i).len() implies section_module(
                #[trigger] sections_from(l, i)[k],
            ) == section_module(sections_from(m, i)[k]) by {
                if k > 0 {
                    assert(sections_from(l, i)[k] == ls[k - 1]);
                    assert(sections_from(m, i)[k] == ms[k - 1]);
                }
            }
        } else {
            lemma_sections_cr(front, y, i + 1);
        }
    }
}

// ---------------------------------------------------------------------------
// modules
// ---------------------------------------------------------------------------

/// Sections that compile the same modules give the same modules by name.
proof fn lemma_collected_same(s: Seq<Seq<char>>, t: Seq<Seq<char>>, n: int)
    requires
        same_modules(s, t),
        0 <= n <= s.len(),
    ensures
        collected(s, n) == collected(t, n),
    decreases n,
{
    if n > 0 {
        lemma_collected_same(s, t, n - 1);
        assert(section_module(s[n - 1]) == section_module(t[n - 1]));
    }
}

/// The modules of the first sections do not depend on those behind.
proof fn lemma_collected_front(s: Seq<Seq<char>>, t: Seq<Seq<char>>, n: int)
    requires
        0 <= n <= s.len(),
    ensures
        collected(s + t, n) == collected(s, n),
    decreases n,
{
    if n > 0 {
        lemma_collected_front(s, t, n - 1);
        assert((s + t)[n - 1] == s[n - 1]);
    }
}

/// The modules of sections behind others take the place of those.
proof fn lemma_collected_concat(s: Seq<Seq<char>>, t: Seq<Seq<char>>, n: int)
    requires
        0 <= n <= t.len(),
    ensures
        collected(s + t, s.len() + n) == collected(s, s.len() as int).union_prefer_right(
            collected(t, n),
        ),
    decreases n,
{
    let a = collected(s, s.len() as int);
    if n > 0 {
        lemma_collected_concat(s, t, n - 1);
        assert((s + t)[s.len() + n - 1] == t[n - 1]);
        if let Some(m) = section_module(t[n - 1]) {
            assert(a.union_prefer_right(collected(t, n - 1)).insert(m.name, m)
                =~= a.union_prefer_right(collected(t, n - 1).insert(m.name, m)));
        }
    } else {
        lemma_collected_front(s, t, s.len() as int);
        assert(a.union_prefer_right(Map::<Seq<char>, ModuleView>::empty()) =~= a);
    }
}

/// Behind a newline the sections compile the modules from before it.
proof fn lemma_newline_modules(a: Seq<char>)
    ensures
        same_modules(
            sections_from(lines_of(a + seq!['\n']), 0),
            sections_from(lines_of(a), 0),
        ),
{
    let nl = seq!['\n'];
    let la = lines_of(a);
    let none = Seq::<Seq<char>>::empty();
    if whole(a) {
        lemma_lines_concat(a, nl, 0);
        lemma_lines_newline();
        lemma_sections_blank(la, none, 0);
        assert(lines_of(a + nl) =~= la + seq![blank()] + none);
        assert(sections_from(none, 0) =~= none);
        assert(sections_from(la, 0) + none =~= sections_from(la, 0));
    } else {
        lemma_lines_ended(a);
        let front = la.drop_last();
        let x = la.last();
        let y = without_cr(x);
        assert(la =~= front.push(x));
        if x.len() > 0 && x.last() == '\r' {
            assert(x =~= y.push('\r'));
            lemma_sections_cr(front, y, 0);
        }
    }
}

/// Two pieces of captured output with a blank line between them give the modules
/// of both: of a name in both the later module wins, the rest stay.
pub proof fn lemma_text_modules_concat(a: Seq<char>, b: Seq<char>)
    ensures
        text_modules(a + "\n\n"@ + b) == text_modules(a).union_prefer_right(text_modules(b)),
{
    reveal_strlit("\n\n");
    let nl = seq!['\n'];
    let front = a + nl;
    let t = a + "\n\n"@ + b;
    assert("\n\n"@ =~= nl + nl);
    assert(t =~= (front + nl) + b);
    lemma_lines_concat(front + nl, b, 0);
    lemma_lines_concat(front, nl, 0);
    lemma_lines_newline();
    let la = lines_of(front);
    let lb = lines_of(b);
    assert(lines_of(t) == la + seq![blank()] + lb);
    lemma_sections_blank(la, lb, 0);
    lemma_newline_modules(a);
    let s = sections_from(la, 0);
    let sb = sections_from(lb, 0);
    lemma_collected_concat(s, sb, sb.len() as int);
    lemma_collected_same(s, sections_from(lines_of(a), 0), s.len() as int);
}

} // verus!
