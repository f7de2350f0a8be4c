//! What merging and removing marker blocks guarantee together.

use crate::setup::jsonc::alone_on_line;
use crate::setup::jsonc::class_at;
use crate::setup::jsonc::comma_on_blank_line;
use crate::setup::jsonc::content_end;
use crate::setup::jsonc::end_text;
use crate::setup::jsonc::first_line;
use crate::setup::jsonc::inserted;
use crate::setup::jsonc::is_closer;
use crate::setup::jsonc::last_closer;
use crate::setup::jsonc::last_significant;
use crate::setup::jsonc::lemma_line_end;
use crate::setup::jsonc::lemma_line_start;
use crate::setup::jsonc::lex_at;
use crate::setup::jsonc::line_at;
use crate::setup::jsonc::line_end;
use crate::setup::jsonc::line_start;
use crate::setup::jsonc::marker_region;
use crate::setup::jsonc::merged;
use crate::setup::jsonc::region_text;
use crate::setup::jsonc::removed;
use crate::setup::jsonc::significant;
use crate::setup::jsonc::splice;
use crate::setup::jsonc::start_text;
use crate::setup::jsonc::wanted_comma;
use crate::setup::jsonc::MarkerError;
use crate::setup::jsonc::MergeOutcome;
use crate::text::is_space;
use crate::text::lemma_trim_end_bound;
use crate::text::lemma_trim_end_exact;
use crate::text::lemma_trim_padded;
use crate::text::lemma_trim_piece;
use crate::text::trim_end_by;
use crate::text::trimmed;
use vstd::prelude::*;

verus! {

// ---------------------------------------------------------------------------
// lines of texts put together
// ---------------------------------------------------------------------------

/// Whether a text is empty or ends with a newline.
pub open spec fn whole_lines(s: Seq<char>) -> bool {
    s.len() == 0 || s.last() == '\n'
}

/// Lines of the second part keep their ends when something is put in front.
proof fn lemma_line_end_shift(a: Seq<char>, b: Seq<char>, j: int)
    requires
        0 <= j <= b.len(),
    ensures
        line_end(a + b, a.len() + j) == a.len() + line_end(b, j),
    decreases b.len() - j,
{
    if j < b.len() {
        assert((a + b)[a.len() + j] == b[j]);
        if b[j] != '\n' {
            lemma_line_end_shift(a, b, j + 1);
        }
    }
}

/// Lines of the first part keep their ends when it consists of whole lines.
proof fn lemma_line_end_prefix(a: Seq<char>, b: Seq<char>, i: int)
    requires
        whole_lines(a),
        0 <= i < a.len(),
    ensures
        line_end(a + b, i) == line_end(a, i),
    decreases a.len() - i,
{
    assert((a + b)[i] == a[i]);
    if a[i] != '\n' {
        assert(i + 1 < a.len());
        lemma_line_end_prefix(a, b, i + 1);
    }
}

/// Searching the second part alone finds the same line.
proof fn lemma_first_line_shift(a: Seq<char>, b: Seq<char>, m: Seq<char>, j: int)
    requires
        0 <= j <= b.len(),
    ensures
        first_line(a + b, m, a.len() + j) == match first_line(b, m, j) {
            Some(i) => Some(a.len() + i),
            None => None,
        },
    decreases b.len() - j,
{
    if j < b.len() {
        lemma_line_end_shift(a, b, j);
        lemma_line_end(b, j);
        assert(line_at(a + b, a.len() + j) == line_at(b, j));
        if trimmed(line_at(b, j)) != m {
            lemma_first_line_shift(a, b, m, line_end(b, j));
        }
    }
}

/// Searching two texts put together, the first of whole lines, is searching
/// the first and then the second.
proof fn lemma_first_line_concat(a: Seq<char>, b: Seq<char>, m: Seq<char>, from: int)
    requires
        whole_lines(a),
        0 <= from <= a.len(),
    ensures
        first_line(a + b, m, from) == match first_line(a, m, from) {
            Some(i) => Some(i),
            None => match first_line(b, m, 0) {
                Some(i) => Some(a.len() + i),
                None => None,
            },
        },
    decreases a.len() - from,
{
    if from < a.len() {
        lemma_line_end_prefix(a, b, from);
        lemma_line_end(a, from);
        assert(line_at(a + b, from) == line_at(a, from));
        if trimmed(line_at(a, from)) != m {
            lemma_first_line_concat(a, b, m, line_end(a, from));
        }
    } else {
        lemma_first_line_shift(a, b, m, 0);
    }
}

/// A found line starts the text or follows a newline, and reads `m`; no line
/// in front of it does.
proof fn lemma_first_line_found(s: Seq<char>, m: Seq<char>, from: int)
    requires
        0 <= from <= s.len(),
        from == 0 || s[from - 1] == '\n',
    ensures
        match first_line(s, m, from) {
            Some(i) => from <= i < s.len() && whole_lines(s.take(i)) && trimmed(line_at(s, i)) == m,
            None => true,
        },
    decreases s.len() - from,
{
    if from < s.len() {
        if trimmed(line_at(s, from)) != m {
            lemma_line_end(s, from);
            let e = line_end(s, from);
            if e < s.len() {
                lemma_first_line_found(s, m, e);
            }
        } else if from > 0 {
            assert(s.take(from).last() == s[from - 1]);
        }
    }
}

// ---------------------------------------------------------------------------
// markers
// ---------------------------------------------------------------------------

/// Whether a text is one line: a marker with such an id is one, too.
pub open spec fn one_line(s: Seq<char>) -> bool {
    forall|i: int| 0 <= i < s.len() ==> #[trigger] s[i] != '\n'
}

/// Whether a text holds no comma.
pub open spec fn comma_free(s: Seq<char>) -> bool {
    forall|i: int| 0 <= i < s.len() ==> #[trigger] s[i] != ','
}

/// The lines of a block as they stand in the file.
pub open spec fn block_lines(block: Seq<char>) -> Seq<char> {
    trim_end_by(block, |c: char| c == '\n').push('\n')
}

/// Whether no line of `s` is a marker of `id`.
pub open spec fn free_of_markers(s: Seq<char>, id: Seq<char>) -> bool {
    first_line(s, start_text(id), 0) is None && first_line(s, end_text(id), 0) is None
}

/// What both markers have in common.
pub open spec fn marker_like(m: Seq<char>) -> bool {
    &&& m.len() > 0
    &&& m[0] == '/'
    &&& (m.last() == '>' || m.last() == '<')
    &&& one_line(m)
}

/// The two markers of a one-line id are single lines, and they differ. They hold
/// no comma where the id holds none.
proof fn lemma_markers(id: Seq<char>)
    requires
        one_line(id),
    ensures
        marker_like(start_text(id)),
        marker_like(end_text(id)),
        start_text(id) != end_text(id),
        comma_free(id) ==> comma_free(start_text(id)) && comma_free(end_text(id)),
{
    reveal_strlit("// >>> zedxcode:");
    reveal_strlit("// <<< zedxcode:");
    reveal_strlit(" >>>");
    reveal_strlit(" <<<");
    let a = start_text(id);
    let b = end_text(id);
    assert(a[3] == '>');
    assert(b[3] == '<');
    assert(a.last() == '>');
    assert(b.last() == '<');
    let n = id.len();
    assert forall|i: int| 0 <= i < a.len() implies #[trigger] a[i] != '\n' && (comma_free(id)
        ==> a[i] != ',') by {
        if 16 <= i < 16 + n {
            assert(a[i] == id[i - 16]);
        } else if i < 16 {
            assert(a[i] == "// >>> zedxcode:"@[i]);
        } else {
            assert(a[i] == " >>>"@[i - 16 - n]);
        }
    }
    assert forall|i: int| 0 <= i < b.len() implies #[trigger] b[i] != '\n' && (comma_free(id)
        ==> b[i] != ',') by {
        if 16 <= i < 16 + n {
            assert(b[i] == id[i - 16]);
        } else if i < 16 {
            assert(b[i] == "// <<< zedxcode:"@[i]);
        } else {
            assert(b[i] == " <<<"@[i - 16 - n]);
        }
    }
}

/// A text whose first line is `l` (which ends with its only newline, or is
/// the whole text) has `l` as the line at its start.
proof fn lemma_line_at_start(l: Seq<char>, rest: Seq<char>)
    requires
        l.len() > 0,
        forall|k: int| 0 <= k < l.len() - 1 ==> l[k] != '\n',
        l.last() == '\n' || rest.len() == 0,
    ensures
        line_at(l + rest, 0) == l,
        line_end(l + rest, 0) == l.len(),
{
    let s = l + rest;
    lemma_line_end(s, 0);
    let e = line_end(s, 0);
    if e < l.len() {
        assert(s[e - 1] == l[e - 1]);
    } else if e > l.len() {
        assert(s[l.len() - 1] == l.last());
    }
    assert(s.subrange(0, l.len() as int) == l);
}

/// What may follow a region: nothing, or line terminators up to a newline.
pub open spec fn ends_line(c: Seq<char>) -> bool {
    c.len() > 0 ==> forall|k: int|
        0 <= k < line_end(c, 0) ==> #[trigger] c[k] == '\r' || c[k] == '\n'
}

/// The opening marker line of a region.
pub open spec fn opening_line(st: Seq<char>) -> Seq<char> {
    "  "@ + st + seq!['\n']
}

/// The opening marker line reads the marker, and no other.
proof fn lemma_opening_line(st: Seq<char>, rest: Seq<char>)
    requires
        marker_like(st),
    ensures
        whole_lines(opening_line(st)),
        first_line(opening_line(st) + rest, st, 0) == Some(0int),
        forall|m: Seq<char>| m != st ==> #[trigger] first_line(opening_line(st), m, 0) is None,
{
    reveal_strlit("  ");
    let l1 = opening_line(st);
    assert(l1.last() == '\n');
    assert forall|k: int| 0 <= k < l1.len() - 1 implies l1[k] != '\n' by {
        if k >= 2 {
            assert(l1[k] == st[k - 2]);
        }
    }
    lemma_trim_padded("  "@, st, seq!['\n']);
    lemma_line_at_start(l1, rest);
    lemma_line_at_start(l1, Seq::empty());
    assert(l1 + Seq::<char>::empty() == l1);
    reveal_with_fuel(first_line, 2);
}

/// A region is its opening line, its block and its closing line.
proof fn lemma_region_parts(a: Seq<char>, c: Seq<char>, id: Seq<char>, block: Seq<char>)
    ensures
        a + region_text(id, block) + c == a + (opening_line(start_text(id)) + (block_lines(block) + (
        "  "@ + end_text(id) + c))),
        region_text(id, block).len() == opening_line(start_text(id)).len() + block_lines(
            block,
        ).len() + 2 + end_text(id).len(),
{
    reveal_strlit("  ");
    reveal_strlit("\n  ");
    let region = region_text(id, block);
    let l1 = opening_line(start_text(id));
    let l2 = block_lines(block);
    let l3 = "  "@ + end_text(id);
    assert("\n  "@ =~= seq!['\n'] + "  "@);
    assert(region =~= l1 + (l2 + l3));
    assert(a + region + c =~= a + (l1 + (l2 + (l3 + c))));
}

/// In a text made of whole lines free of markers, a region, and the end of its
/// last line, the opening marker is found where the region starts.
proof fn lemma_start_found(a: Seq<char>, c: Seq<char>, id: Seq<char>, block: Seq<char>)
    requires
        one_line(id),
        whole_lines(a),
        free_of_markers(a, id),
    ensures
        first_line(a + region_text(id, block) + c, start_text(id), 0) == Some(a.len() as int),
{
    lemma_markers(id);
    let st = start_text(id);
    let rest = block_lines(block) + ("  "@ + end_text(id) + c);
    lemma_region_parts(a, c, id, block);
    lemma_opening_line(st, rest);
    lemma_first_line_concat(a, opening_line(st) + rest, st, 0);
}

/// In such a text the closing marker is found behind the block.
proof fn lemma_end_found(a: Seq<char>, c: Seq<char>, id: Seq<char>, block: Seq<char>)
    requires
        one_line(id),
        free_of_markers(block_lines(block), id),
        whole_lines(a),
        free_of_markers(a, id),
        ends_line(c),
    ensures
        ({
            let q = (a.len() + opening_line(start_text(id)).len() + block_lines(block).len()) as int;
            let t = a + region_text(id, block) + c;
            first_line(t, end_text(id), 0) == Some(q) && content_end(t, q) == a.len() + region_text(
                id,
                block,
            ).len()
        }),
{
    lemma_markers(id);
    let en = end_text(id);
    let l1 = opening_line(start_text(id));
    let l2 = block_lines(block);
    let l3 = "  "@ + en + c;
    let t = a + region_text(id, block) + c;
    lemma_region_parts(a, c, id, block);
    lemma_closing_line(en, c);
    lemma_opening_line(start_text(id), l2 + l3);
    assert(first_line(l1, en, 0) is None);
    lemma_first_line_concat(l2, l3, en, 0);
    lemma_first_line_concat(l1, l2 + l3, en, 0);
    lemma_first_line_concat(a, l1 + (l2 + l3), en, 0);
    let front = a + l1 + l2;
    assert(t =~= front + l3);
    lemma_line_end_shift(front, l3, 0);
    reveal_strlit("  ");
    lemma_line_end(l3, 0);
    assert(line_at(t, front.len() as int) =~= line_at(l3, 0));
}

/// In such a text the region is what the markers delimit.
proof fn lemma_region_found(a: Seq<char>, c: Seq<char>, id: Seq<char>, block: Seq<char>)
    requires
        one_line(id),
        free_of_markers(block_lines(block), id),
        whole_lines(a),
        free_of_markers(a, id),
        ends_line(c),
    ensures
        marker_region(a + region_text(id, block) + c, id) == Ok::<Option<(int, int)>, ()>(
            Some((a.len() as int, (a.len() + region_text(id, block).len()) as int)),
        ),
{
    lemma_start_found(a, c, id, block);
    lemma_end_found(a, c, id, block);
    lemma_region_parts(a, c, id, block);
}

/// The closing marker line reads the marker, and its content ends with it.
proof fn lemma_closing_line(en: Seq<char>, c: Seq<char>)
    requires
        marker_like(en),
        ends_line(c),
    ensures
        trimmed(line_at("  "@ + en + c, 0)) == en,
        first_line("  "@ + en + c, en, 0) == Some(0int),
        content_end("  "@ + en + c, 0) == 2 + en.len(),
{
    reveal_strlit("  ");
    let l3 = "  "@ + en + c;
    let head = "  "@ + en;
    let tail = if c.len() == 0 {
        c
    } else {
        line_at(c, 0)
    };
    assert(l3[2] == en[0]);
    if c.len() > 0 {
        lemma_line_end(c, 0);
        lemma_line_end_no_newline(head, c);
        assert(line_at(l3, 0) =~= head + tail);
    } else {
        assert forall|k: int| 0 <= k < head.len() - 1 implies head[k] != '\n' by {
            if k >= 2 {
                assert(head[k] == en[k - 2]);
            }
        }
        lemma_line_at_start(head, c);
        assert(line_at(l3, 0) =~= head + tail);
    }
    assert forall|k: int| 0 <= k < tail.len() implies is_space(#[trigger] tail[k]) by {
        assert(tail[k] == c[k]);
    }
    lemma_trim_padded("  "@, en, tail);
    let p = |x: char| x == '\n' || x == '\r';
    let l = line_at(l3, 0);
    assert forall|k: int| head.len() <= k < l.len() implies p(#[trigger] l[k]) by {
        assert(l[k] == tail[k - head.len()]);
        assert(tail[k - head.len()] == c[k - head.len()]);
    }
    assert(l[head.len() - 1] == en.last());
    lemma_trim_end_exact(l, head.len() as int, p);
}

/// A head without newlines does not end the first line.
proof fn lemma_line_end_no_newline(head: Seq<char>, c: Seq<char>)
    requires
        forall|k: int| 0 <= k < head.len() ==> #[trigger] head[k] != '\n',
    ensures
        line_end(head + c, 0) == head.len() + line_end(c, 0),
{
    lemma_line_end_shift(head, c, 0);
    lemma_line_end_over(head + c, 0, head.len() as int);
}

/// Positions without a newline between them are on the same line.
proof fn lemma_line_end_over(s: Seq<char>, i: int, j: int)
    requires
        0 <= i <= j <= s.len(),
        forall|k: int| i <= k < j ==> #[trigger] s[k] != '\n',
    ensures
        line_end(s, i) == line_end(s, j),
    decreases j - i,
{
    if i < j {
        assert(s[i] != '\n');
        lemma_line_end_over(s, i + 1, j);
    }
}

// ---------------------------------------------------------------------------
// inserting
// ---------------------------------------------------------------------------

/// A line with a comma on it does not read a text without one.
proof fn lemma_comma_line(l: Seq<char>, i: int, m: Seq<char>)
    requires
        comma_free(m),
        0 <= i < l.len(),
        l[i] == ',',
    ensures
        trimmed(l) != m,
{
    let (a, b) = lemma_trim_piece(l);
    if trimmed(l) == m {
        if i < a {
            assert(is_space(l[i]));
        } else if i >= b {
            assert(is_space(l[i]));
        } else {
            assert(m[i - a] == ',');
        }
    }
}

/// The whole lines at the start of a text free of `m` are free of it.
proof fn lemma_prefix_free(t: Seq<char>, n: int, m: Seq<char>)
    requires
        0 <= n <= t.len(),
        whole_lines(t.take(n)),
        first_line(t, m, 0) is None,
    ensures
        first_line(t.take(n), m, 0) is None,
        first_line(t.skip(n), m, 0) is None,
{
    assert(t =~= t.take(n) + t.skip(n));
    lemma_first_line_concat(t.take(n), t.skip(n), m, 0);
}

/// Adding a line that is no marker keeps a text of whole lines free of it.
proof fn lemma_add_line(a: Seq<char>, l: Seq<char>, m: Seq<char>)
    requires
        whole_lines(a),
        first_line(a, m, 0) is None,
        forall|k: int| 0 <= k < l.len() ==> #[trigger] l[k] != '\n',
        trimmed(l) != m,
    ensures
        first_line(a + l.push('\n'), m, 0) is None,
{
    let l1 = l.push('\n');
    lemma_line_at_start(l1, Seq::empty());
    assert(l1 + Seq::<char>::empty() == l1);
    assert(l1.drop_last() == l);
    reveal_with_fuel(first_line, 2);
    lemma_first_line_concat(a, l1, m, 0);
}

/// A comma put into a text free of `m` does not make a line of it read `m`.
proof fn lemma_comma_free(t: Seq<char>, k: int, m: Seq<char>)
    requires
        comma_free(m),
        0 <= k <= t.len(),
        first_line(t, m, 0) is None,
    ensures
        first_line(splice(t, k, seq![',']), m, 0) is None,
{
    let l = line_start(t, k);
    lemma_line_start(t, k);
    let a = t.take(l);
    assert(whole_lines(a));
    lemma_prefix_free(t, l, m);
    let r = t.skip(l);
    let r2 = splice(r, k - l, seq![',']);
    assert(splice(t, k, seq![',']) =~= a + r2);
    lemma_first_line_concat(a, r2, m, 0);
    // The line with the comma.
    let j = k - l;
    let e = line_end(r, j);
    assert forall|i: int| 0 <= i < j implies #[trigger] r[i] != '\n' by {
        assert(r[i] == t[l + i]);
    }
    lemma_line_end_over(r, 0, j);
    let head = r.take(j).push(',');
    assert(r2 =~= head + r.skip(j));
    assert forall|i: int| 0 <= i < head.len() implies #[trigger] head[i] != '\n' by {
        if i < j {
            assert(head[i] == r[i]);
        }
    }
    lemma_line_end_no_newline(head, r.skip(j));
    assert(r =~= r.take(j) + r.skip(j));
    lemma_line_end_shift(r.take(j), r.skip(j), 0);
    assert(line_end(r2, 0) == e + 1);
    if r.len() > 0 {
        lemma_line_end(r, 0);
    }
    lemma_line_end(r2, 0);
    assert(line_at(r2, 0)[j] == ',');
    lemma_comma_line(line_at(r2, 0), j, m);
    // The lines behind it.
    let front2 = r2.take(e + 1);
    let front = r.take(e);
    let rest = r.skip(e);
    assert(r2 =~= front2 + rest);
    assert(r =~= front + rest);
    lemma_first_line_shift(front2, rest, m, 0);
    lemma_first_line_shift(front, rest, m, 0);
}

/// The last significant character before a closer is no newline.
proof fn lemma_significant_no_newline(t: Seq<char>, c: int, k: int)
    requires
        0 <= k < c < t.len(),
        is_closer(t, c),
        last_significant(t, c) == Some(k),
    ensures
        t[k] != '\n',
{
    lemma_last_significant(t, c);
    if t[k] == '\n' {
        assert(significant(t, k));
        assert(lex_at(t, k + 1, true) is Str);
        if k + 1 < c {
            assert(significant(t, k + 1));
        }
    }
}

/// What `last_significant` finds.
pub proof fn lemma_last_significant(t: Seq<char>, n: int)
    requires
        0 <= n <= t.len(),
    ensures
        match last_significant(t, n) {
            Some(k) => 0 <= k < n && significant(t, k) && forall|j: int|
                k < j < n ==> !#[trigger] significant(t, j),
            None => forall|j: int| 0 <= j < n ==> !#[trigger] significant(t, j),
        },
    decreases n,
{
    if n > 0 && !significant(t, n - 1) {
        lemma_last_significant(t, n - 1);
    }
}

/// What `last_closer` finds.
pub proof fn lemma_last_closer(t: Seq<char>, n: int)
    requires
        0 <= n <= t.len(),
    ensures
        match last_closer(t, n) {
            Some(c) => 0 <= c < n && is_closer(t, c),
            None => true,
        },
    decreases n,
{
    if n > 0 && !is_closer(t, n - 1) {
        lemma_last_closer(t, n - 1);
    }
}

/// Inside a comment, characters that do not end it leave the reader inside.
proof fn lemma_stays_in_comment(t: Seq<char>, i: int, j: int)
    requires
        0 <= i <= j <= t.len(),
        lex_at(t, i, true) is Line || lex_at(t, i, true) is Block,
        forall|k: int| i <= k < j ==> #[trigger] t[k] != '\n' && t[k] != '*',
    ensures
        lex_at(t, j, true) is Line || lex_at(t, j, true) is Block,
    decreases j - i,
{
    if i < j {
        assert(t[i] != '\n' && t[i] != '*');
        lemma_stays_in_comment(t, i + 1, j);
    }
}

/// What stands in front of the final closer on its line is no marker, unless a
/// comma goes onto that line.
proof fn lemma_closer_line(t: Seq<char>, c: int, m: Seq<char>)
    requires
        marker_like(m),
        0 <= c < t.len(),
        is_closer(t, c),
        match wanted_comma(t, c) {
            Some(k) => k <= line_start(t, c),
            None => true,
        },
    ensures
        trimmed(t.subrange(line_start(t, c), c)) != m,
{
    let l = line_start(t, c);
    lemma_line_start(t, c);
    let line = t.subrange(l, c);
    let (a, b) = lemma_trim_piece(line);
    if trimmed(line) == m {
        let k = l + b - 1;
        assert(line[b - 1] == m.last());
        assert(t[k] == m.last());
        assert forall|j: int| k < j < c implies is_space(#[trigger] t[j]) && t[j] != '\n' by {
            assert(t[j] == line[j - l]);
        }
        lemma_last_significant(t, c);
        if significant(t, k) {
            // The last significant character stands on this line and is
            // neither a comma nor an opening bracket.
            let s = last_significant(t, c)->0;
            assert(s >= k);
            assert(s == k || is_space(t[s]));
        } else {
            assert(class_at(t, k) is Comment);
            if lex_at(t, k, true) is BlockOpen || lex_at(t, k, true) is BlockClose {
                assert(k > 0);
                assert(t[k] == '*' || t[k] == '/');
            }
            assert(lex_at(t, k + 1, true) is Line || lex_at(t, k + 1, true) is Block);
            lemma_stays_in_comment(t, k + 1, c);
        }
    }
}

/// The text in front of an inserted region.
pub open spec fn before_region(t: Seq<char>) -> Seq<char> {
    let c = last_closer(t, t.len() as int)->0;
    let front = if alone_on_line(t, c) {
        t.take(line_start(t, c))
    } else {
        t.take(c).push('\n')
    };
    match wanted_comma(t, c) {
        Some(k) => splice(front, k, seq![',']),
        None => front,
    }
}

/// The text behind an inserted region and its newline.
pub open spec fn after_region(t: Seq<char>) -> Seq<char> {
    let c = last_closer(t, t.len() as int)->0;
    if alone_on_line(t, c) {
        t.skip(line_start(t, c))
    } else {
        t.skip(c)
    }
}

/// An insertion puts the region on lines of its own.
proof fn lemma_inserted_shape(t: Seq<char>, region: Seq<char>)
    requires
        last_closer(t, t.len() as int) is Some,
        !comma_on_blank_line(t),
    ensures
        inserted(t, region) == Some(
            before_region(t) + region + (seq!['\n'] + after_region(t)),
        ),
{
    let c = last_closer(t, t.len() as int)->0;
    lemma_last_closer(t, t.len() as int);
    lemma_line_start(t, c);
    lemma_last_significant(t, c);
    let nl = seq!['\n'];
    let alone = alone_on_line(t, c);
    let at = if alone {
        line_start(t, c)
    } else {
        c
    };
    let front = t.take(at);
    let piece = if alone {
        region.push('\n')
    } else {
        nl + region.push('\n')
    };
    let lead = if alone {
        Seq::<char>::empty()
    } else {
        nl
    };
    assert(piece =~= lead + region + nl);
    match wanted_comma(t, c) {
        Some(k) => {
            let f = splice(front, k, seq![',']);
            lemma_splice_twice(t, k, at, piece);
            assert(before_region(t) =~= f + lead);
            assert(f + (lead + region + nl) + t.skip(at) =~= (f + lead) + region + (nl + t.skip(at)));
        },
        None => {
            assert(before_region(t) =~= front + lead);
            assert(front + (lead + region + nl) + t.skip(at) =~= (front + lead) + region + (nl
                + t.skip(at)));
        },
    }
}

/// A comma in front of an insertion moves it by one.
proof fn lemma_splice_twice(t: Seq<char>, k: int, at: int, piece: Seq<char>)
    requires
        0 <= k <= at <= t.len(),
    ensures
        splice(splice(t, k, seq![',']), at + 1, piece) == splice(t.take(at), k, seq![',']) + piece
            + t.skip(at),
{
    let c = splice(t, k, seq![',']);
    assert(c.take(at + 1) =~= splice(t.take(at), k, seq![',']));
    assert(c.skip(at + 1) =~= t.skip(at));
}

/// What stands in front of an inserted region is whole lines.
proof fn lemma_before_whole(t: Seq<char>)
    requires
        last_closer(t, t.len() as int) is Some,
        !comma_on_blank_line(t),
    ensures
        whole_lines(before_region(t)),
{
    let c = last_closer(t, t.len() as int)->0;
    lemma_last_closer(t, t.len() as int);
    lemma_line_start(t, c);
    lemma_last_significant(t, c);
    if alone_on_line(t, c) {
        let l = line_start(t, c);
        if let Some(k) = wanted_comma(t, c) {
            lemma_significant_no_newline(t, c, k - 1);
            assert(k < l);
            assert(before_region(t).last() == t[l - 1]);
        }
    } else {
        assert(before_region(t).last() == '\n');
    }
}

/// What stands in front of an inserted region does not read a marker, unless an
/// added comma makes it.
proof fn lemma_before_free(t: Seq<char>, m: Seq<char>)
    requires
        marker_like(m),
        last_closer(t, t.len() as int) is Some,
        comma_free(m) || wanted_comma(t, last_closer(t, t.len() as int)->0) is None,
        !comma_on_blank_line(t),
        first_line(t, m, 0) is None,
    ensures
        first_line(before_region(t), m, 0) is None,
{
    let c = last_closer(t, t.len() as int)->0;
    lemma_last_closer(t, t.len() as int);
    lemma_line_start(t, c);
    lemma_last_significant(t, c);
    let l = line_start(t, c);
    let a = t.take(l);
    assert(whole_lines(a));
    lemma_prefix_free(t, l, m);
    if alone_on_line(t, c) {
        if let Some(k) = wanted_comma(t, c) {
            lemma_comma_free(a, k, m);
        }
    } else {
        let line = t.subrange(l, c);
        assert(t.take(c).push('\n') =~= a + line.push('\n'));
        match wanted_comma(t, c) {
            Some(k) => {
                if k > l {
                    let line2 = splice(line, k - l, seq![',']);
                    assert(before_region(t) =~= a + line2.push('\n'));
                    assert(line2[k - l] == ',');
                    lemma_comma_line(line2, k - l, m);
                    assert forall|i: int| 0 <= i < line2.len() implies #[trigger] line2[i]
                        != '\n' by {
                        if i < k - l {
                            assert(line2[i] == t[l + i]);
                        } else if i > k - l {
                            assert(line2[i] == t[l + i - 1]);
                        }
                    }
                    lemma_add_line(a, line2, m);
                } else {
                    lemma_closer_line(t, c, m);
                    lemma_add_line(a, line, m);
                    lemma_comma_free(a + line.push('\n'), k, m);
                }
            },
            None => {
                lemma_closer_line(t, c, m);
                lemma_add_line(a, line, m);
            },
        }
    }
}

/// Whether the comma that an insertion adds behind the previous element makes a
/// line of the text read a marker.
pub open spec fn comma_makes_marker(t: Seq<char>, id: Seq<char>) -> bool {
    match last_closer(t, t.len() as int) {
        Some(c) => wanted_comma(t, c) is Some && !free_of_markers(before_region(t), id),
        None => false,
    }
}

/// An added comma makes no marker of an id without a comma.
pub proof fn lemma_comma_makes_none(t: Seq<char>, id: Seq<char>)
    requires
        one_line(id),
        comma_free(id),
        free_of_markers(t, id),
        !comma_on_blank_line(t),
    ensures
        !comma_makes_marker(t, id),
{
    if last_closer(t, t.len() as int) is Some {
        lemma_markers(id);
        lemma_before_free(t, start_text(id));
        lemma_before_free(t, end_text(id));
    }
}

/// What stands in front of an inserted region holds no marker.
proof fn lemma_before_unmarked(t: Seq<char>, id: Seq<char>)
    requires
        one_line(id),
        last_closer(t, t.len() as int) is Some,
        free_of_markers(t, id),
        !comma_on_blank_line(t),
        !comma_makes_marker(t, id),
    ensures
        free_of_markers(before_region(t), id),
{
    if wanted_comma(t, last_closer(t, t.len() as int)->0) is None {
        lemma_markers(id);
        lemma_before_free(t, start_text(id));
        lemma_before_free(t, end_text(id));
    }
}

// ---------------------------------------------------------------------------
// the laws
// ---------------------------------------------------------------------------

/// Merging the same block a second time changes nothing.
///
/// The id is one line, and no line of the block is itself a marker. Where the
/// block is inserted, the comma in front of it makes no line a marker, and the
/// line of the final closer is not blank up to whitespace other than ASCII.
pub proof fn lemma_merge_settles(t: Seq<char>, id: Seq<char>, block: Seq<char>)
    requires
        one_line(id),
        free_of_markers(block_lines(block), id),
        marker_region(t, id) == Ok::<Option<(int, int)>, ()>(None) ==> !comma_on_blank_line(t)
            && !comma_makes_marker(t, id),
    ensures
        match merged(t, id, block) {
            Ok((n, _)) => merged(n, id, block) == Ok::<(Seq<char>, MergeOutcome), MarkerError>(
                (n, MergeOutcome::Unchanged),
            ),
            Err(_) => true,
        },
{
    let region = region_text(id, block);
    match marker_region(t, id) {
        Err(_) => {},
        Ok(None) => {
            if last_closer(t, t.len() as int) is Some {
                lemma_inserted_shape(t, region);
                lemma_before_whole(t);
                lemma_before_unmarked(t, id);
                let a = before_region(t);
                let c = seq!['\n'] + after_region(t);
                lemma_newline_ends_line(after_region(t));
                lemma_region_found(a, c, id, block);
                assert((a + region + c).subrange(a.len() as int, (a.len() + region.len()) as int)
                    =~= region);
            }
        },
        Ok(Some((s, e))) => {
            if t.subrange(s, e) != region {
                lemma_replace_shape(t, id);
                let a = t.take(s);
                let c = t.skip(e);
                lemma_region_found(a, c, id, block);
                assert((a + region + c).subrange(a.len() as int, (a.len() + region.len()) as int)
                    =~= region);
            }
        },
    }
}

/// A text that starts with a newline ends the line in front of it.
proof fn lemma_newline_ends_line(rest: Seq<char>)
    ensures
        ends_line(seq!['\n'] + rest),
{
    let c = seq!['\n'] + rest;
    assert(c[0] == '\n');
    assert(line_end(c, 0) == 1);
}

/// Around a region that the markers delimit stand whole lines free of markers
/// and the end of the region's last line.
proof fn lemma_replace_shape(t: Seq<char>, id: Seq<char>)
    requires
        one_line(id),
        marker_region(t, id) matches Ok(Some(_)),
    ensures
        ({
            let (s, e) = marker_region(t, id)->Ok_0->0;
            0 <= s < e <= t.len() && whole_lines(t.take(s)) && free_of_markers(t.take(s), id)
                && ends_line(t.skip(e))
        }),
{
    let (s, e) = marker_region(t, id)->Ok_0->0;
    let st = start_text(id);
    let en = end_text(id);
    let q = first_line(t, en, 0)->0;
    lemma_first_line_found(t, st, 0);
    lemma_first_line_found(t, en, 0);
    // The closing line.
    lemma_line_end(t, q);
    let l = line_at(t, q);
    let p = |c: char| c == '\n' || c == '\r';
    let b = lemma_trim_end_bound(l, p);
    lemma_trim_end_exact(l, b, p);
    assert(e == q + b);
    let c = t.skip(e);
    if c.len() > 0 {
        assert(t =~= t.take(e) + c);
        lemma_line_end_shift(t.take(e), c, 0);
        assert forall|k: int| q <= k < e implies #[trigger] t[k] != '\n' by {
            if t[k] == '\n' {
                assert(k == line_end(t, q) - 1);
                assert(b == l.len());
                assert(p(l[b - 1]));
            }
        }
        lemma_line_end_over(t, q, e);
        assert forall|k: int| 0 <= k < line_end(c, 0) implies #[trigger] c[k] == '\r' || c[k]
            == '\n' by {
            assert(c[k] == l[b + k]);
            assert(p(l[b + k]));
        }
    }
    // The closing marker does not stand in front of the opening one.
    if q < s {
        assert(t.take(s).last() == '\n');
        if line_end(t, q) > s {
            assert(t[s - 1] != '\n');
        }
    }
    // Nothing in front of the opening line is a marker.
    assert(t =~= t.take(s) + t.skip(s));
    lemma_first_line_concat(t.take(s), t.skip(s), st, 0);
    lemma_first_line_concat(t.take(s), t.skip(s), en, 0);
    lemma_first_line_found(t.take(s), st, 0);
    lemma_first_line_found(t.take(s), en, 0);
}

/// Removing a block that was inserted leaves the text as it was, but for the
/// comma that the previous element lacked and for the line break where the
/// final closer did not stand on a line of its own. Where neither was added, the
/// text is the one from before, byte for byte, and a further removal finds nothing.
pub proof fn lemma_remove_undoes_insert(t: Seq<char>, id: Seq<char>, block: Seq<char>)
    requires
        one_line(id),
        free_of_markers(block_lines(block), id),
        !comma_on_blank_line(t),
        !comma_makes_marker(t, id),
        merged(t, id, block) matches Ok((_, o)) && o == MergeOutcome::Inserted,
    ensures
        removed(merged(t, id, block)->Ok_0.0, id) == Ok::<Option<Seq<char>>, MarkerError>(
            Some(before_region(t) + after_region(t)),
        ),
        ({
            let c = last_closer(t, t.len() as int)->0;
            alone_on_line(t, c) && wanted_comma(t, c) is None ==> before_region(t) + after_region(t)
                == t && removed(t, id) == Ok::<Option<Seq<char>>, MarkerError>(None)
        }),
{
    let region = region_text(id, block);
    lemma_inserted_shape(t, region);
    lemma_before_whole(t);
    lemma_before_unmarked(t, id);
    let a = before_region(t);
    let c = seq!['\n'] + after_region(t);
    lemma_newline_ends_line(after_region(t));
    lemma_region_found(a, c, id, block);
    let n = a + region + c;
    let e = (a.len() + region.len()) as int;
    assert(n[e] == c[0]);
    assert(n.take(a.len() as int) =~= a);
    assert(n.skip(e + 1) =~= after_region(t));
    lemma_last_closer(t, t.len() as int);
    let closer = last_closer(t, t.len() as int)->0;
    lemma_line_start(t, closer);
    if alone_on_line(t, closer) && wanted_comma(t, closer) is None {
        assert(a + after_region(t) =~= t);
    }
}

} // verus!
