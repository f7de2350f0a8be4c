//! What paths are made of and taken apart into.

use crate::text::same_ignoring_case;
use crate::util::paths::components_of;
use crate::util::paths::components_upto;
use crate::util::paths::extension_of;
use crate::util::paths::file_name_of;
use crate::util::paths::is_project;
use crate::util::paths::is_stale;
use crate::util::paths::joined;
use crate::util::paths::last_dot;
use crate::util::paths::lemma_last_start;
use crate::util::paths::parent_of;
use crate::util::paths::plain_name;
use crate::util::paths::root_len;
use crate::util::paths::same_path;
use crate::util::paths::stem_of;
use crate::util::paths::trim_right;
use vstd::prelude::*;

verus! {

/// A path below a directory is the directory, one separator and the path; an absolute path
/// stands for itself.
pub proof fn lemma_joined(dir: Seq<char>, path: Seq<char>)
    ensures
        path.len() > 0 && path[0] == '/' ==> joined(dir, path) == path,
        !(path.len() > 0 && path[0] == '/') && dir.len() > 0 && dir.last() != '/' ==> joined(
            dir,
            path,
        ) == dir + seq!['/'] + path,
        !(path.len() > 0 && path[0] == '/') && dir.len() > 0 && dir.last() == '/' ==> joined(
            dir,
            path,
        ) == dir + path,
        !(path.len() > 0 && path[0] == '/') && dir.len() == 0 ==> joined(dir, path) == path,
{
    assert(dir.push('/') + path =~= dir + seq!['/'] + path);
    if dir.len() == 0 {
        assert(dir + path =~= path);
    }
}

/// The name of a file below a directory is that name.
pub proof fn lemma_name_below(dir: Seq<char>, name: Seq<char>)
    requires
        plain_name(name),
    ensures
        file_name_of(joined(dir, name)) == Some(name),
        file_name_of(name) == Some(name),
{
    reveal_strlit("..");
    assert(".."@ =~= seq!['.', '.']);
    let none = Seq::<char>::empty();
    assert(none + name =~= name);
    lemma_plain_behind(none, name);
    if dir.len() == 0 || dir.last() == '/' {
        lemma_plain_behind(dir, name);
    } else {
        lemma_plain_behind(dir.push('/'), name);
    }
    assert(name[0] != '/');
    if dir.len() == 0 {
        assert(dir + name =~= name);
    }
}

/// What [`lemma_name_below`] says of a path that ends in a separator, or is empty.
proof fn lemma_plain_behind(p: Seq<char>, name: Seq<char>)
    requires
        plain_name(name),
        p.len() == 0 || p.last() == '/',
    ensures
        file_name_of(p + name) == Some(name),
{
    reveal_strlit("..");
    assert(".."@ =~= seq!['.', '.']);
    let q = p + name;
    lemma_last_start(p, name);
    let n = name.len() as int;
    assert(q.last() == name[n - 1]);
    assert(name[n - 1] != '/');
    if q.len() >= 2 && q.last() == '.' && q[q.len() - 2] == '/' {
        if n >= 2 {
            assert(q[q.len() - 2] == name[n - 2]);
        } else {
            assert(name =~= seq!['.']);
        }
    }
    assert(trim_right(q) == q);
    assert(q.skip(p.len() as int) =~= name);
    if q.len() <= root_len(q) {
        assert(q.len() == 1);
        if p.len() > 0 {
            assert(false);
        }
        assert(q =~= name);
        assert(name =~= seq![q[0]]);
    }
}

/// The last dot of a name is where no dot follows.
proof fn lemma_last_dot(name: Seq<char>, k: int, n: int)
    requires
        0 < k < n <= name.len(),
        name[k] == '.',
        forall|i: int| k < i < n ==> #[trigger] name[i] != '.',
    ensures
        last_dot(name, n) == Some(k),
    decreases n,
{
    if n - 1 > k {
        assert(name[n - 1] != '.');
        lemma_last_dot(name, k, n - 1);
    }
}

/// A file named `<stem>.<extension>` has that stem and that extension.
pub proof fn lemma_stem_and_extension(dir: Seq<char>, stem: Seq<char>, ext: Seq<char>)
    requires
        stem.len() > 0,
        ext.len() > 0,
        plain_name(stem + seq!['.'] + ext),
        !ext.contains('.'),
    ensures
        stem_of(joined(dir, stem + seq!['.'] + ext)) == Some(stem),
        extension_of(joined(dir, stem + seq!['.'] + ext)) == Some(ext),
{
    let name = stem + seq!['.'] + ext;
    lemma_name_below(dir, name);
    let k = stem.len() as int;
    assert(name[k] == '.');
    assert forall|i: int| k < i < name.len() implies #[trigger] name[i] != '.' by {
        assert(name[i] == ext[i - k - 1]);
    }
    lemma_last_dot(name, k, name.len() as int);
    assert(name.take(k) =~= stem);
    assert(name.skip(k + 1) =~= ext);
}

/// A path names a project where its extension is `xcodeproj`, in any case of its letters,
/// and a workspace otherwise.
pub proof fn lemma_containers(p: Seq<char>)
    ensures
        is_project(p) <==> (extension_of(p) matches Some(e) && same_ignoring_case(
            e,
            "xcodeproj"@,
        )),
        extension_of(p) == Some("xcodeproj"@) ==> is_project(p),
        extension_of(p) == Some("xcworkspace"@) ==> !is_project(p),
{
    reveal_strlit("xcodeproj");
    reveal_strlit("xcworkspace");
    assert("xcodeproj"@.len() != "xcworkspace"@.len());
}

/// The build server file is stale where it is missing or older than the workspace; a
/// workspace of unknown age makes nothing stale.
pub proof fn lemma_staleness(build_server: Option<i128>, workspace: Option<i128>)
    ensures
        build_server is None ==> is_stale(build_server, workspace),
        build_server is Some && workspace is None ==> !is_stale(build_server, workspace),
        build_server is Some && workspace is Some ==> (is_stale(build_server, workspace)
            <==> build_server->0 < workspace->0),
{
}

/// The components of a path are the pieces between its slashes, but for empty ones and for
/// the dots behind the first.
pub proof fn lemma_components_kept(pieces: Seq<Seq<char>>, n: int, k: int)
    requires
        0 <= n <= pieces.len(),
    ensures
        0 <= k < n && pieces[k].len() > 0 && (k == 0 || pieces[k] != "."@) ==> components_upto(
            pieces,
            n,
        ).contains(pieces[k]),
        0 <= k < components_upto(pieces, n).len() ==> components_upto(pieces, n)[k].len() > 0
            && pieces.contains(components_upto(pieces, n)[k]),
        0 < k < components_upto(pieces, n).len() ==> components_upto(pieces, n)[k] != "."@,
        n > 0 && pieces[n - 1].len() == 0 ==> components_upto(pieces, n) == components_upto(
            pieces,
            n - 1,
        ),
        n > 1 && pieces[n - 1] == "."@ ==> components_upto(pieces, n) == components_upto(
            pieces,
            n - 1,
        ),
    decreases n,
{
    if n > 0 {
        lemma_components_kept(pieces, n - 1, k);
        let before = components_upto(pieces, n - 1);
        let now = components_upto(pieces, n);
        if 0 <= k < n && pieces[k].len() > 0 && (k == 0 || pieces[k] != "."@) {
            if k < n - 1 {
                let at = choose|at: int| 0 <= at < before.len() && before[at] == pieces[k];
                assert(now[at] == pieces[k]);
            } else {
                assert(now[before.len() as int] == pieces[k]);
            }
        }
        if 0 <= k < now.len() {
            if k < before.len() {
                assert(now[k] == before[k]);
            } else {
                assert(now[k] == pieces[n - 1]);
                if k > 0 && n == 1 {
                    assert(before.len() == 0);
                }
            }
        }
    }
}

/// Two paths are the same where both begin at the root or neither does, and their components
/// are the same; a slash at the end makes no difference.
pub proof fn lemma_same_paths(a: Seq<char>, b: Seq<char>)
    ensures
        same_path(a, a),
        same_path(a, b) ==> same_path(b, a) && components_of(a) == components_of(b),
        same_path(a, b) && a.len() > 0 && a[0] == '/' ==> b.len() > 0 && b[0] == '/',
{
}

/// The root has no directory above it, and neither has the empty path; the current directory
/// lies in the empty one.
pub proof fn lemma_topmost()
    ensures
        parent_of("/"@) is None,
        parent_of(Seq::<char>::empty()) is None,
        parent_of("."@) == Some(Seq::<char>::empty()),
{
    reveal_strlit("/");
    reveal_strlit(".");
    assert(trim_right("/"@) == "/"@);
    assert(trim_right("."@) == "."@);
    assert(trim_right(Seq::<char>::empty()) == Seq::<char>::empty());
}

} // verus!
