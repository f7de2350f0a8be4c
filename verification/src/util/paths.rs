//! Paths as text, file ages, and what they decide.
//!
//! A path is taken apart the way `std::path` does on Unix: components are
//! separated by `/`, repeated separators and `.` components do not count
//! (but for a leading `.`), and a trailing separator is ignored.

use crate::text::chars_of;
use crate::text::eq_ignore_case;
use crate::text::owned;
use crate::text::push_text;
use crate::text::same_ignoring_case;
use crate::text::split_char;
use crate::text::split_on;
use crate::text::str_eq;
use crate::text::string_of;
use crate::text::texts;
use crate::text::texts_eq;
use vstd::prelude::*;

verus! {

/// Whether a path starts with `/`.
pub open spec fn is_absolute_path(p: Seq<char>) -> bool {
    p.len() > 0 && p[0] == '/'
}

/// Length of the part of a path that no component can be taken off from: the
/// root `/`, or a leading `.`.
pub open spec fn root_len(p: Seq<char>) -> int {
    if p.len() > 0 && p[0] == '/' {
        1
    } else if p.len() > 0 && p[0] == '.' && (p.len() == 1 || p[1] == '/') {
        1
    } else {
        0
    }
}

/// A path without trailing separators and trailing `.` components.
pub open spec fn trim_right(p: Seq<char>) -> Seq<char>
    decreases p.len(),
{
    if p.len() <= root_len(p) {
        p
    } else if p.last() == '/' {
        trim_right(p.drop_last())
    } else if p.len() >= 2 && p.last() == '.' && p[p.len() - 2] == '/' {
        trim_right(p.drop_last())
    } else {
        p
    }
}

/// The start of the last component.
pub open spec fn last_start(p: Seq<char>) -> int
    decreases p.len(),
{
    if p.len() == 0 || p.last() == '/' {
        p.len() as int
    } else {
        last_start(p.drop_last())
    }
}

/// The components among the first `n` pieces between separators: an empty piece is
/// none, and neither is a `.` but for one at the start.
pub open spec fn components_upto(pieces: Seq<Seq<char>>, n: int) -> Seq<Seq<char>>
    decreases n,
{
    if n <= 0 {
        Seq::empty()
    } else {
        let piece = pieces[n - 1];
        if piece.len() == 0 || (piece == "."@ && n > 1) {
            components_upto(pieces, n - 1)
        } else {
            components_upto(pieces, n - 1).push(piece)
        }
    }
}

/// The components of a path, but for its root.
pub open spec fn components_of(p: Seq<char>) -> Seq<Seq<char>> {
    components_upto(split_on(p, '/'), split_on(p, '/').len() as int)
}

/// Whether two paths are equal as `Path`s are: component by component.
pub open spec fn same_path(a: Seq<char>, b: Seq<char>) -> bool {
    is_absolute_path(a) == is_absolute_path(b) && components_of(a) == components_of(b)
}

/// `Path::file_name`: the last component, if it is a name.
pub open spec fn file_name_of(p: Seq<char>) -> Option<Seq<char>> {
    let t = trim_right(p);
    let name = t.skip(last_start(t));
    if t.len() <= root_len(t) || name == ".."@ {
        None
    } else {
        Some(name)
    }
}

/// `Path::parent`: the path without its last component.
pub open spec fn parent_of(p: Seq<char>) -> Option<Seq<char>> {
    let t = trim_right(p);
    if t.len() > root_len(t) {
        Some(trim_right(t.take(last_start(t))))
    } else if t.len() == 1 && t[0] == '.' {
        Some(Seq::empty())
    } else {
        None
    }
}

/// `Path::join`.
pub open spec fn joined(a: Seq<char>, b: Seq<char>) -> Seq<char> {
    if is_absolute_path(b) {
        b
    } else if a.len() == 0 || a.last() == '/' {
        a + b
    } else {
        a.push('/') + b
    }
}

/// The last dot of a file name, unless it is the first character.
pub open spec fn dot_of(name: Seq<char>) -> Option<int> {
    last_dot(name, name.len() as int)
}

/// The last dot among the characters 1 to `n` (not included).
pub open spec fn last_dot(name: Seq<char>, n: int) -> Option<int>
    decreases n,
{
    if n <= 1 {
        None
    } else if name[n - 1] == '.' {
        Some(n - 1)
    } else {
        last_dot(name, n - 1)
    }
}

/// `Path::extension`: what follows the last dot of the file name.
pub open spec fn extension_of(p: Seq<char>) -> Option<Seq<char>> {
    match file_name_of(p) {
        Some(name) => match dot_of(name) {
            Some(i) => Some(name.skip(i + 1)),
            None => None,
        },
        None => None,
    }
}

/// `Path::file_stem`: the file name up to its last dot.
pub open spec fn stem_of(p: Seq<char>) -> Option<Seq<char>> {
    match file_name_of(p) {
        Some(name) => match dot_of(name) {
            Some(i) => Some(name.take(i)),
            None => Some(name),
        },
        None => None,
    }
}

/// Whether a text is a single path component that names something.
pub open spec fn plain_name(w: Seq<char>) -> bool {
    w.len() > 0 && w != seq!['.'] && w != seq!['.', '.'] && forall|i: int|
        0 <= i < w.len() ==> #[trigger] w[i] != '/'
}

/// Trimming a path a second time changes nothing.
pub proof fn lemma_trim_right_idempotent(p: Seq<char>)
    ensures
        trim_right(trim_right(p)) == trim_right(p),
    decreases p.len(),
{
    if p.len() > root_len(p) && (p.last() == '/' || (p.len() >= 2 && p.last() == '.' && p[p.len()
        - 2] == '/')) {
        lemma_trim_right_idempotent(p.drop_last());
    }
}

/// A path and its trimmed form have the same parent.
pub proof fn lemma_parent_of_trimmed(p: Seq<char>)
    ensures
        parent_of(trim_right(p)) == parent_of(p),
{
    lemma_trim_right_idempotent(p);
}

/// The last component of a text behind a separator starts there.
pub proof fn lemma_last_start(head: Seq<char>, w: Seq<char>)
    requires
        head.len() == 0 || head.last() == '/',
        forall|i: int| 0 <= i < w.len() ==> #[trigger] w[i] != '/',
    ensures
        last_start(head + w) == head.len(),
    decreases w.len(),
{
    if w.len() == 0 {
        assert(head + w =~= head);
    } else {
        assert((head + w).last() == w.last());
        assert((head + w).drop_last() =~= head + w.drop_last());
        lemma_last_start(head, w.drop_last());
    }
}

/// Taking the name off again gives the (trimmed) directory that it was joined
/// to.
pub proof fn lemma_parent_of_joined(dir: Seq<char>, name: Seq<char>)
    requires
        dir.len() > 0,
        plain_name(name),
    ensures
        parent_of(joined(dir, name)) == Some(trim_right(dir)),
{
    assert(name[0] != '/');
    let head = if dir.last() == '/' {
        dir
    } else {
        dir.push('/')
    };
    let p = joined(dir, name);
    assert(p =~= head + name);
    assert(p.last() == name.last());
    if name.last() == '.' {
        if name.len() == 1 {
            assert(name =~= seq!['.']);
        } else {
            assert(p[p.len() - 2] == name[name.len() - 2]);
        }
    }
    assert(trim_right(p) == p);
    lemma_last_start(head, name);
    assert(p.take(head.len() as int) =~= head);
    if dir.last() != '/' {
        assert(head.drop_last() =~= dir);
        assert(root_len(head) <= 1);
    }
}

/// Trimming makes no path longer.
pub proof fn lemma_trim_right_len(p: Seq<char>)
    ensures
        trim_right(p).len() <= p.len(),
    decreases p.len(),
{
    if p.len() > root_len(p) && (p.last() == '/' || (p.len() >= 2 && p.last() == '.' && p[p.len()
        - 2] == '/')) {
        lemma_trim_right_len(p.drop_last());
    }
}

/// A path's last component starts inside the path, and behind its start only
/// after a separator.
proof fn lemma_last_start_bound(p: Seq<char>)
    ensures
        0 <= last_start(p) <= p.len(),
        p.len() > 0 && last_start(p) == p.len() ==> p.last() == '/',
    decreases p.len(),
{
    if p.len() > 0 && p.last() != '/' {
        lemma_last_start_bound(p.drop_last());
    }
}

/// A parent is shorter than the path.
pub proof fn lemma_parent_shorter(p: Seq<char>)
    ensures
        parent_of(p) matches Some(q) ==> q.len() < p.len(),
{
    let t = trim_right(p);
    lemma_trim_right_len(p);
    lemma_last_start_bound(t);
    lemma_trim_right_idempotent(p);
    lemma_trim_right_len(t.take(last_start(t)));
    if t.len() > root_len(t) && t.last() == '/' {
        lemma_trim_right_len(t.drop_last());
    }
}

/// Length of the part of `p[..n]` that no component can be taken off from.
fn root_length(p: &[char], n: usize) -> (r: usize)
    requires
        n <= p.len(),
    ensures
        r == root_len(p@.take(n as int)),
        r <= n,
{
    if n > 0 && p[0] == '/' {
        1
    } else if n > 0 && p[0] == '.' && (n == 1 || p[1] == '/') {
        1
    } else {
        0
    }
}

/// The end of `p[..to]` without trailing separators and `.` components.
fn trimmed_end(p: &[char], to: usize) -> (r: usize)
    requires
        to <= p.len(),
    ensures
        r <= to,
        p@.take(r as int) == trim_right(p@.take(to as int)),
{
    let mut n: usize = to;
    loop
        invariant
            n <= to <= p.len(),
            trim_right(p@.take(n as int)) == trim_right(p@.take(to as int)),
        decreases n,
    {
        let ghost cur = p@.take(n as int);
        let root = root_length(p, n);
        if n <= root {
            return n;
        }
        assert(cur.drop_last() =~= p@.take(n - 1));
        if p[n - 1] == '/' {
            n = n - 1;
        } else if n >= 2 && p[n - 1] == '.' && p[n - 2] == '/' {
            n = n - 1;
        } else {
            return n;
        }
    }
}

/// A path without trailing separators and trailing `.` components.
pub fn trim_path(path: &str) -> (r: String)
    ensures
        r@ == trim_right(path@),
{
    let cs = chars_of(path);
    assert(cs@.take(cs@.len() as int) =~= cs@);
    let n = trimmed_end(cs.as_slice(), cs.len());
    let r = string_of(cs.as_slice(), 0, n);
    assert(r@ =~= cs@.take(n as int));
    r
}

/// The start of the last component of `p[..to]`.
fn component_start(p: &[char], to: usize) -> (r: usize)
    requires
        to <= p.len(),
    ensures
        r == last_start(p@.take(to as int)),
        r <= to,
{
    let mut n: usize = to;
    while n > 0 && p[n - 1] != '/'
        invariant
            n <= to <= p.len(),
            last_start(p@.take(n as int)) == last_start(p@.take(to as int)),
        decreases n,
    {
        assert(p@.take(n as int).drop_last() =~= p@.take(n - 1));
        n = n - 1;
    }
    n
}

/// `Path::file_name`.
pub fn file_name(path: &str) -> (r: Option<String>)
    ensures
        match r {
            Some(n) => file_name_of(path@) == Some(n@),
            None => file_name_of(path@) is None,
        },
{
    let p = chars_of(path);
    let n = trimmed_end(p.as_slice(), p.len());
    assert(p@.take(p@.len() as int) == path@);
    if n <= root_length(p.as_slice(), n) {
        return None;
    }
    let s = component_start(p.as_slice(), n);
    proof {
        reveal_strlit("..");
        assert(p@.take(n as int).skip(s as int) =~= p@.subrange(s as int, n as int));
    }
    if n - s == 2 && p[s] == '.' && p[s + 1] == '.' {
        assert(p@.subrange(s as int, n as int) =~= ".."@);
        return None;
    }
    proof {
        if p@.subrange(s as int, n as int) == ".."@ {
            assert(p@.subrange(s as int, n as int)[0] == '.');
            assert(p@.subrange(s as int, n as int)[1] == '.');
        }
    }
    Some(string_of(p.as_slice(), s, n))
}

/// `Path::parent`.
pub fn parent(path: &str) -> (r: Option<String>)
    ensures
        match r {
            Some(n) => parent_of(path@) == Some(n@),
            None => parent_of(path@) is None,
        },
{
    let p = chars_of(path);
    let n = trimmed_end(p.as_slice(), p.len());
    assert(p@.take(p@.len() as int) == path@);
    if n > root_length(p.as_slice(), n) {
        let s = component_start(p.as_slice(), n);
        assert(p@.take(n as int).take(s as int) =~= p@.take(s as int));
        let e = trimmed_end(p.as_slice(), s);
        assert(p@.subrange(0, e as int) =~= p@.take(e as int));
        Some(string_of(p.as_slice(), 0, e))
    } else if n == 1 && p[0] == '.' {
        Some(String::new())
    } else {
        None
    }
}

/// `Path::is_absolute`.
pub fn is_absolute(path: &str) -> (r: bool)
    ensures
        r == is_absolute_path(path@),
{
    let p = chars_of(path);
    p.len() > 0 && p[0] == '/'
}

/// The components of a path, but for its root.
fn components(path: &str) -> (r: Vec<String>)
    ensures
        texts(r@) == components_of(path@),
{
    let pieces = split_char(path, '/');
    let ghost pv = split_on(path@, '/');
    let mut r: Vec<String> = Vec::new();
    let mut i: usize = 0;
    assert(texts(r@) =~= components_upto(pv, 0));
    while i < pieces.len()
        invariant
            i <= pieces.len(),
            pv == texts(pieces@),
            texts(r@) == components_upto(pv, i as int),
        decreases pieces.len() - i,
    {
        assert(pv[i as int] == pieces@[i as int]@);
        let piece = pieces[i].as_str();
        if !piece.is_empty() && !(i > 0 && str_eq(piece, ".")) {
            push_text(&mut r, piece);
        }
        i = i + 1;
    }
    r
}

/// Whether two paths are equal as `Path`s are: component by component.
pub fn paths_eq(a: &str, b: &str) -> (r: bool)
    ensures
        r == same_path(a@, b@),
{
    is_absolute(a) == is_absolute(b) && texts_eq(&components(a), &components(b))
}

/// `Path::join`.
pub fn join(a: &str, b: &str) -> (r: String)
    ensures
        r@ == joined(a@, b@),
{
    if is_absolute(b) {
        return owned(b);
    }
    let p = chars_of(a);
    let mut r = owned(a);
    if !(p.len() == 0 || p[p.len() - 1] == '/') {
        r.push('/');
    }
    r.append(b);
    assert(r@ =~= joined(a@, b@));
    r
}

/// The last dot of a file name, unless it is the first character.
fn find_dot(name: &[char]) -> (r: Option<usize>)
    ensures
        match r {
            Some(i) => dot_of(name@) == Some(i as int) && i < name.len(),
            None => dot_of(name@) is None,
        },
{
    let mut n: usize = name.len();
    while n > 1
        invariant
            n <= name.len(),
            dot_of(name@) == last_dot(name@, n as int),
        decreases n,
    {
        if name[n - 1] == '.' {
            return Some(n - 1);
        }
        n = n - 1;
    }
    None
}

/// `Path::extension`.
pub fn extension(path: &str) -> (r: Option<String>)
    ensures
        match r {
            Some(e) => extension_of(path@) == Some(e@),
            None => extension_of(path@) is None,
        },
{
    match file_name(path) {
        Some(name) => {
            let n = chars_of(name.as_str());
            match find_dot(n.as_slice()) {
                Some(i) => {
                    assert(n@.subrange(i + 1, n@.len() as int) =~= n@.skip(i + 1));
                    Some(string_of(n.as_slice(), i + 1, n.len()))
                },
                None => None,
            }
        },
        None => None,
    }
}

/// `Path::file_stem`.
pub fn file_stem(path: &str) -> (r: Option<String>)
    ensures
        match r {
            Some(e) => stem_of(path@) == Some(e@),
            None => stem_of(path@) is None,
        },
{
    match file_name(path) {
        Some(name) => {
            let n = chars_of(name.as_str());
            match find_dot(n.as_slice()) {
                Some(i) => {
                    assert(n@.subrange(0, i as int) =~= n@.take(i as int));
                    Some(string_of(n.as_slice(), 0, i))
                },
                None => Some(name),
            }
        },
        None => None,
    }
}

// ---------------------------------------------------------------------------
// containers and ages
// ---------------------------------------------------------------------------

/// Whether a path names an Xcode project rather than a workspace.
pub open spec fn is_project(p: Seq<char>) -> bool {
    match extension_of(p) {
        Some(e) => same_ignoring_case(e, "xcodeproj"@),
        None => false,
    }
}

/// The xcodebuild container flag for a workspace or project path: `-project`
/// for a bare `.xcodeproj`, else `-workspace`.
pub fn container_flag(path: &str) -> (r: &'static str)
    ensures
        r@ == if is_project(path@) {
            "-project"@
        } else {
            "-workspace"@
        },
{
    match extension(path) {
        Some(e) => {
            let c = chars_of(e.as_str());
            assert(c@.subrange(0, c@.len() as int) == e@);
            if eq_ignore_case(c.as_slice(), 0, c.len(), "xcodeproj") {
                "-project"
            } else {
                "-workspace"
            }
        },
        None => "-workspace",
    }
}

/// The age of a workspace: the newer of the container directory's
/// modification time and that of its contents file (generators rewrite
/// `contents.xcworkspacedata` in place). Times are nanoseconds since the epoch.
pub fn workspace_mtime(own: Option<i128>, contents: Option<i128>) -> (r: Option<i128>)
    ensures
        match (own, contents) {
            (Some(a), Some(b)) => r == Some(
                if a >= b {
                    a
                } else {
                    b
                },
            ),
            (Some(a), None) => r == Some(a),
            (None, b) => r == b,
        },
{
    match (own, contents) {
        (Some(a), Some(b)) => if a >= b {
            Some(a)
        } else {
            Some(b)
        },
        (Some(a), None) => Some(a),
        (None, b) => b,
    }
}

/// Whether a build server file is missing or older than the workspace.
pub open spec fn is_stale(build_server: Option<i128>, workspace: Option<i128>) -> bool {
    build_server is None || (workspace is Some && build_server->0 < workspace->0)
}

/// Freshness decision for `buildServer.json`: regenerate when the file is
/// missing or older than the workspace. An unknown workspace age never forces
/// it.
pub fn buildserver_stale(build_server: Option<i128>, workspace: Option<i128>) -> (r: bool)
    ensures
        r == is_stale(build_server, workspace),
{
    match (build_server, workspace) {
        (None, _) => true,
        (Some(bs), Some(ws)) => bs < ws,
        (Some(_), None) => false,
    }
}

} // verus!
