//! What the language server gets for a file out of the compile store: the arguments that
//! the build used, with nothing lost and nothing added but what it needs.

use crate::engine::compile_store::adopted;
use crate::engine::compile_store::all_listed;
use crate::engine::compile_store::entry_of;
use crate::engine::compile_store::files_of;
use crate::engine::compile_store::inherited;
use crate::engine::compile_store::is_hostile;
use crate::engine::compile_store::is_safe_char;
use crate::engine::compile_store::listed_upto;
use crate::engine::compile_store::merged;
use crate::engine::compile_store::options_of;
use crate::engine::compile_store::owns;
use crate::engine::compile_store::saved_of;
use crate::engine::compile_store::served;
use crate::engine::compile_store::served_from;
use crate::engine::compile_store::swift_in;
use crate::engine::compile_store::unescaped;
use crate::engine::compile_store::watermark_after;
use crate::engine::compile_store::EntryView;
use crate::engine::compile_store::PersistedView;
use crate::engine::compile_store::StoreView;
use crate::engine::compile_store::Watermark;
use crate::engine::disk::DiskView;
use crate::engine::shell_words::words_of;
use crate::engine::xcactivitylog::ModuleView;
use crate::text::has_prefix;
use crate::text::has_suffix;
use crate::text::lowercase_text;
use crate::text::occurs_at;
use crate::text::opt_view;
use crate::text::same_ignoring_case;
use crate::util::paths::extension_of;
use crate::util::paths::lemma_parent_shorter;
use crate::util::paths::parent_of;
use vstd::prelude::*;

verus! {

// ---------------------------------------------------------------------------
// the arguments that are served
// ---------------------------------------------------------------------------

/// An entry with other arguments.
pub open spec fn with_args(entry: EntryView, args: Seq<Seq<char>>) -> EntryView {
    EntryView { args, ..entry }
}

/// Two entries that agree behind two places are served alike from there.
proof fn lemma_served_shift(a: EntryView, b: EntryView, disk: DiskView, i: int, j: int)
    requires
        0 <= i <= a.args.len(),
        0 <= j <= b.args.len(),
        a.args.len() - i == b.args.len() - j,
        forall|k: int| 0 <= k < a.args.len() - i ==> a.args[i + k] == #[trigger] b.args[j + k],
        a.files == b.files,
    ensures
        served_from(a, disk, i) == served_from(b, disk, j),
    decreases a.args.len() - i,
{
    if i < a.args.len() {
        assert(b.args[j + 0] == a.args[i + 0]);
        assert forall|k: int| 0 <= k < a.args.len() - (i + 1) implies a.args[i + 1 + k]
            == #[trigger] b.args[j + 1 + k] by {
            assert(b.args[j + (1 + k)] == a.args[i + (1 + k)]);
        }
        lemma_served_shift(a, b, disk, i + 1, j + 1);
        if i + 2 <= a.args.len() {
            assert forall|k: int| 0 <= k < a.args.len() - (i + 2) implies a.args[i + 2 + k]
                == #[trigger] b.args[j + 2 + k] by {
                assert(b.args[j + (2 + k)] == a.args[i + (2 + k)]);
            }
            lemma_served_shift(a, b, disk, i + 2, j + 2);
        }
    }
}

/// What [`lemma_served_in_pieces`] says, from a place on.
proof fn lemma_served_in_pieces_from(
    entry: EntryView,
    disk: DiskView,
    x: Seq<Seq<char>>,
    y: Seq<Seq<char>>,
    i: int,
)
    requires
        0 <= i <= x.len(),
        forall|k: int| 0 <= k < x.len() ==> #[trigger] x[k] != "-emit-localized-strings-path"@,
    ensures
        served_from(with_args(entry, x + y), disk, i) == served_from(with_args(entry, x), disk, i)
            + served_from(with_args(entry, y), disk, 0),
    decreases x.len() - i,
{
    let whole = with_args(entry, x + y);
    if i < x.len() {
        lemma_served_in_pieces_from(entry, disk, x, y, i + 1);
        assert(whole.args[i] == x[i]);
        assert(x[i] != "-emit-localized-strings-path"@);
        assert(served_from(whole, disk, i) =~= served_from(with_args(entry, x), disk, i)
            + served_from(with_args(entry, y), disk, 0));
    } else {
        lemma_served_shift(whole, with_args(entry, y), disk, i, 0);
        assert(served_from(with_args(entry, x), disk, i) =~= Seq::<Seq<char>>::empty());
        assert(served_from(whole, disk, i) =~= served_from(with_args(entry, x), disk, i)
            + served_from(with_args(entry, y), disk, 0));
    }
}

/// Arguments are served one after another: those of a list in two pieces are those of the
/// first piece and then those of the second, unless the first ends in the flag whose value
/// starts the second.
pub proof fn lemma_served_in_pieces(
    entry: EntryView,
    disk: DiskView,
    x: Seq<Seq<char>>,
    y: Seq<Seq<char>>,
)
    requires
        forall|k: int| 0 <= k < x.len() ==> #[trigger] x[k] != "-emit-localized-strings-path"@,
    ensures
        served(with_args(entry, x + y), disk, None) == served(with_args(entry, x), disk, None)
            + served(with_args(entry, y), disk, None),
{
    lemma_served_in_pieces_from(entry, disk, x, y, 0);
}

/// An argument is served as it is, but for its escapes; only the two flags that
/// sourcekit-lsp cannot take are dropped, and a response file stands for what it lists, or
/// for the module's own files where it is gone.
pub proof fn lemma_served_one(entry: EntryView, disk: DiskView, arg: Seq<char>)
    requires
        arg != "-emit-localized-strings-path"@,
    ensures
        ({
            let got = served(with_args(entry, seq![arg]), disk, None);
            let hostile = arg == "-use-frontend-parseable-output"@ || arg
                == "-emit-localized-strings"@;
            let list = arg.len() > 0 && arg[0] == '@';
            &&& hostile ==> got.len() == 0
            &&& !hostile && !list ==> got == seq![unescaped(arg)]
            &&& list && disk.lists.dom().contains(arg.skip(1)) ==> got == words_of(
                disk.lists[arg.skip(1)],
            )
            &&& list && !disk.lists.dom().contains(arg.skip(1)) ==> got == entry.files
        }),
{
    reveal_strlit("-use-frontend-parseable-output");
    reveal_strlit("-emit-localized-strings");
    assert("-use-frontend-parseable-output"@[0] == '-' && "-emit-localized-strings"@[0] == '-');
    let e = with_args(entry, seq![arg]);
    reveal_with_fuel(served_from, 2);
    assert(e.args[0] == arg);
    assert(served_from(e, disk, 1) =~= Seq::<Seq<char>>::empty());
    assert(seq![unescaped(arg)] + Seq::<Seq<char>>::empty() =~= seq![unescaped(arg)]);
    assert(entry.files + Seq::<Seq<char>>::empty() =~= entry.files);
    if disk.lists.dom().contains(arg.skip(1)) {
        let w = words_of(disk.lists[arg.skip(1)]);
        assert(w + Seq::<Seq<char>>::empty() =~= w);
    }
}

/// The flag that names a directory for localized strings is dropped with its value, and
/// what stands behind is served as if neither were there.
pub proof fn lemma_path_flag_dropped(
    entry: EntryView,
    disk: DiskView,
    value: Seq<char>,
    y: Seq<Seq<char>>,
)
    ensures
        served(
            with_args(entry, seq!["-emit-localized-strings-path"@, value] + y),
            disk,
            None,
        ) == served(with_args(entry, y), disk, None),
        served(with_args(entry, seq!["-emit-localized-strings-path"@]), disk, None).len() == 0,
        served(with_args(entry, Seq::empty()), disk, None).len() == 0,
{
    let whole = with_args(entry, seq!["-emit-localized-strings-path"@, value] + y);
    assert(whole.args[0] == "-emit-localized-strings-path"@);
    lemma_served_shift(whole, with_args(entry, y), disk, 2, 0);
    let alone = with_args(entry, seq!["-emit-localized-strings-path"@]);
    assert(alone.args[0] == "-emit-localized-strings-path"@);
    assert(served_from(alone, disk, 2) =~= Seq::<Seq<char>>::empty());
}

/// What [`lemma_nothing_else_dropped`] says, from a place on.
proof fn lemma_all_served_from(entry: EntryView, disk: DiskView, i: int)
    requires
        0 <= i <= entry.args.len(),
        forall|j: int|
            0 <= j < entry.args.len() ==> (#[trigger] entry.args[j])
                != "-use-frontend-parseable-output"@ && entry.args[j] != "-emit-localized-strings"@
                && entry.args[j] != "-emit-localized-strings-path"@ && !(entry.args[j].len() > 0
                && entry.args[j][0] == '@'),
    ensures
        served_from(entry, disk, i).len() == entry.args.len() - i,
        forall|k: int|
            0 <= k < entry.args.len() - i ==> #[trigger] served_from(entry, disk, i)[k]
                == unescaped(entry.args[i + k]),
    decreases entry.args.len() - i,
{
    if i < entry.args.len() {
        lemma_all_served_from(entry, disk, i + 1);
        let rest = served_from(entry, disk, i + 1);
        let now = served_from(entry, disk, i);
        assert(now == seq![unescaped(entry.args[i])] + rest);
        assert forall|k: int| 0 <= k < entry.args.len() - i implies #[trigger] now[k]
            == unescaped(entry.args[i + k]) by {
            if k > 0 {
                assert(now[k] == rest[k - 1]);
            }
        }
    }
}

/// Nothing but what sourcekit-lsp cannot take is dropped: where none of the arguments is
/// one of the three hostile flags or a response file, every one of them is served, in
/// order, with `\=` unescaped.
pub proof fn lemma_nothing_else_dropped(entry: EntryView, disk: DiskView)
    requires
        forall|j: int|
            0 <= j < entry.args.len() ==> (#[trigger] entry.args[j])
                != "-use-frontend-parseable-output"@ && entry.args[j] != "-emit-localized-strings"@
                && entry.args[j] != "-emit-localized-strings-path"@ && !(entry.args[j].len() > 0
                && entry.args[j][0] == '@'),
    ensures
        served(entry, disk, None).len() == entry.args.len(),
        forall|k: int|
            0 <= k < entry.args.len() ==> #[trigger] served(entry, disk, None)[k] == unescaped(
                entry.args[k],
            ),
{
    lemma_all_served_from(entry, disk, 0);
}

/// A file that the module does not know yet is compiled with the module's arguments and
/// itself behind them.
pub proof fn lemma_extra_file_last(entry: EntryView, disk: DiskView, file: Seq<char>)
    ensures
        ({
            let known = served(entry, disk, None);
            let got = served(entry, disk, Some(file));
            &&& got.len() == known.len() + 1
            &&& got.last() == file
            &&& got.drop_last() == known
        }),
{
    assert(served(entry, disk, Some(file)).drop_last() =~= served(entry, disk, None));
}

/// An argument without an escaped `=` is served letter for letter; else the first escape
/// becomes a plain `=`, what stands in front of it stays, and what stands behind it is
/// unescaped in turn.
pub proof fn lemma_unescaped(s: Seq<char>, k: int)
    requires
        0 <= k <= s.len(),
        forall|i: int| 0 <= i < k ==> !(#[trigger] s[i] == '\\' && i + 1 < s.len() && s[i + 1]
            == '='),
    ensures
        k == s.len() ==> unescaped(s) == s,
        k + 1 < s.len() && s[k] == '\\' && s[k + 1] == '=' ==> unescaped(s) == s.take(k).push('=')
            + unescaped(s.skip(k + 2)),
    decreases k,
{
    reveal_strlit("\\=");
    reveal_strlit("=");
    let p = "\\="@;
    assert(p =~= seq!['\\', '=']);
    assert("="@ =~= seq!['=']);
    if k == 0 {
        if s.len() > 1 && s[0] == '\\' && s[1] == '=' {
            assert(s.subrange(0, 2) =~= p);
            assert(occurs_at(s, p, 0));
            assert(s.take(0).push('=') + unescaped(s.skip(2)) =~= "="@ + unescaped(s.skip(2)));
        }
    } else {
        assert(!(s[0] == '\\' && 1 < s.len() && s[1] == '='));
        if has_prefix(s, p) {
            assert(s.subrange(0, 2)[0] == p[0] && s.subrange(0, 2)[1] == p[1]);
        }
        let t = s.skip(1);
        assert forall|i: int| 0 <= i < k - 1 implies !(#[trigger] t[i] == '\\' && i + 1 < t.len()
            && t[i + 1] == '=') by {
            assert(t[i] == s[i + 1]);
        }
        lemma_unescaped(t, k - 1);
        if k == s.len() {
            assert(seq![s[0]] + t =~= s);
        } else if k + 1 < s.len() && s[k] == '\\' && s[k + 1] == '=' {
            assert(t.skip(k + 1) =~= s.skip(k + 2));
            assert(seq![s[0]] + (t.take(k - 1).push('=') + unescaped(s.skip(k + 2))) =~= s.take(
                k,
            ).push('=') + unescaped(s.skip(k + 2)));
        }
    }
}

// ---------------------------------------------------------------------------
// the module of a file
// ---------------------------------------------------------------------------

/// A file that a module lists is served with that module's arguments and in its working
/// directory.
pub proof fn lemma_known_file(
    s: StoreView,
    disk: DiskView,
    path: Seq<char>,
    root: Option<Seq<char>>,
)
    requires
        s.owners.dom().contains(disk.key(path)),
    ensures
        options_of(s, disk, path, root) == Some(
            (
                served(s.modules[s.owners[disk.key(path)]], disk, None),
                s.modules[s.owners[disk.key(path)]].working_dir,
            ),
        ),
{
}

/// What was merged is served: the files of a module that no other module of the store lists
/// get the arguments and the working directory that the build gave for it.
pub proof fn lemma_merged_file_served(
    s: StoreView,
    disk: DiskView,
    m: ModuleView,
    path: Seq<char>,
    root: Option<Seq<char>>,
)
    requires
        s.indexed(disk),
        s.modules.dom().contains(m.name),
        s.modules[m.name] == entry_of(m),
        owns(s.modules, disk, m.name, disk.key(path)),
        forall|other: Seq<char>| #[trigger]
            owns(s.modules, disk, other, disk.key(path)) ==> other == m.name,
    ensures
        options_of(s, disk, path, root) matches Some((args, dir)) && dir == m.working_dir && args
            == served(
            EntryView {
                args: m.args,
                working_dir: m.working_dir,
                files: m.files,
                file_lists: m.file_lists,
                index_store_path: m.index_store_path,
            },
            disk,
            None,
        ),
{
    let key = disk.key(path);
    assert(s.owners.dom().contains(key));
    assert(owns(s.modules, disk, s.owners[key], key));
}

/// A new Swift file next to known ones is compiled as they are, with itself behind; what is
/// no Swift file, or lies where no module is known, is not served.
pub proof fn lemma_new_file_beside(
    s: StoreView,
    disk: DiskView,
    path: Seq<char>,
    root: Option<Seq<char>>,
    dir: Seq<char>,
)
    requires
        !s.owners.dom().contains(disk.key(path)),
        parent_of(disk.key(path)) == Some(dir),
    ensures
        ({
            let swift = extension_of(path) matches Some(e) && same_ignoring_case(e, "swift"@);
            let answer = options_of(s, disk, path, root);
            &&& !swift ==> answer is None
            &&& swift && s.dirs.dom().contains(lowercase_text(dir)) ==> {
                let entry = s.modules[s.dirs[lowercase_text(dir)]];
                answer == Some((served(entry, disk, None).push(path), entry.working_dir))
            }
        }),
{
}

/// A file at the top, without a directory, is served only where a module lists it.
pub proof fn lemma_no_directory(
    s: StoreView,
    disk: DiskView,
    path: Seq<char>,
    root: Option<Seq<char>>,
)
    requires
        !s.owners.dom().contains(disk.key(path)),
        parent_of(disk.key(path)) is None,
    ensures
        options_of(s, disk, path, root) is None,
{
}

/// The search for a module goes up from a directory, one at a time: the directory itself
/// comes first, and it ends at the project root and at a directory that holds a `.git`.
pub proof fn lemma_search_upwards(
    dirs: Map<Seq<char>, Seq<char>>,
    disk: DiskView,
    root: Option<Seq<char>>,
    dir: Seq<char>,
)
    ensures
        ({
            let key = lowercase_text(dir);
            let found = inherited(dirs, disk, root, dir);
            &&& dirs.dom().contains(key) ==> found == Some(dirs[key])
            &&& !dirs.dom().contains(key) && (root == Some(key) || disk.repos.contains(key))
                ==> found is None
            &&& !dirs.dom().contains(key) && root != Some(key) && !disk.repos.contains(key) ==> {
                &&& parent_of(dir) is None ==> found is None
                &&& parent_of(dir) matches Some(p) ==> found == inherited(dirs, disk, root, p)
            }
        }),
{
    lemma_parent_shorter(dir);
}

/// The files of a module are those that its response files list, in order; where one is
/// gone, the files that the build log named are there as well.
pub proof fn lemma_files_of(entry: EntryView, disk: DiskView)
    ensures
        entry.file_lists.len() == 0 ==> files_of(entry, disk) == entry.files,
        entry.file_lists.len() == 1 && disk.lists.dom().contains(entry.file_lists[0]) ==> files_of(
            entry,
            disk,
        ) == words_of(disk.lists[entry.file_lists[0]]),
        entry.file_lists.len() > 0 && (forall|i: int|
            0 <= i < entry.file_lists.len() ==> !disk.lists.dom().contains(
                #[trigger] entry.file_lists[i],
            )) ==> files_of(entry, disk) == entry.files,
        forall|i: int, k: int|
            0 <= i < entry.file_lists.len() && disk.lists.dom().contains(
                #[trigger] entry.file_lists[i],
            ) && 0 <= k < words_of(disk.lists[entry.file_lists[i]]).len() ==> files_of(
                entry,
                disk,
            ).contains(#[trigger] words_of(disk.lists[entry.file_lists[i]])[k]),
{
    let lists = entry.file_lists;
    let n = lists.len() as int;
    if n == 1 && disk.lists.dom().contains(lists[0]) {
        reveal_with_fuel(listed_upto, 2);
        assert(listed_upto(lists, disk, 1) =~= words_of(disk.lists[lists[0]]));
        assert(all_listed(lists, disk));
    }
    if n > 0 && (forall|i: int| 0 <= i < n ==> !disk.lists.dom().contains(#[trigger] lists[i])) {
        lemma_none_listed(lists, disk, n);
        assert(!disk.lists.dom().contains(lists[0]));
        assert(Seq::<Seq<char>>::empty() + entry.files =~= entry.files);
    }
    assert forall|i: int, k: int|
        0 <= i < n && disk.lists.dom().contains(#[trigger] lists[i]) && 0 <= k < words_of(
            disk.lists[lists[i]],
        ).len() implies files_of(entry, disk).contains(
        #[trigger] words_of(disk.lists[lists[i]])[k],
    ) by {
        lemma_listed_there(lists, disk, n, i, k);
        let word = words_of(disk.lists[lists[i]])[k];
        let all = listed_upto(lists, disk, n);
        let at = choose|at: int| 0 <= at < all.len() && all[at] == word;
        assert(files_of(entry, disk)[at] == word);
    }
}

/// Response files that are gone list nothing.
proof fn lemma_none_listed(lists: Seq<Seq<char>>, disk: DiskView, n: int)
    requires
        0 <= n <= lists.len(),
        forall|i: int| 0 <= i < lists.len() ==> !disk.lists.dom().contains(#[trigger] lists[i]),
    ensures
        listed_upto(lists, disk, n) == Seq::<Seq<char>>::empty(),
    decreases n,
{
    if n > 0 {
        lemma_none_listed(lists, disk, n - 1);
        assert(!disk.lists.dom().contains(lists[n - 1]));
    }
}

/// What a response file lists is among what all of them list.
proof fn lemma_listed_there(lists: Seq<Seq<char>>, disk: DiskView, n: int, i: int, k: int)
    requires
        0 <= i < n <= lists.len(),
        disk.lists.dom().contains(lists[i]),
        0 <= k < words_of(disk.lists[lists[i]]).len(),
    ensures
        listed_upto(lists, disk, n).contains(words_of(disk.lists[lists[i]])[k]),
    decreases n,
{
    let word = words_of(disk.lists[lists[i]])[k];
    let front = listed_upto(lists, disk, n - 1);
    let all = listed_upto(lists, disk, n);
    if i == n - 1 {
        assert(all[front.len() + k] == word);
    } else {
        lemma_listed_there(lists, disk, n - 1, i, k);
        let at = choose|at: int| 0 <= at < front.len() && front[at] == word;
        assert(all[at] == word);
    }
}

// ---------------------------------------------------------------------------
// what is kept
// ---------------------------------------------------------------------------

/// What is stored for a module is all that the build said of it.
pub proof fn lemma_entry_whole(m: ModuleView)
    ensures
        entry_of(m).args == m.args,
        entry_of(m).working_dir == m.working_dir,
        entry_of(m).files == m.files,
        entry_of(m).file_lists == m.file_lists,
        entry_of(m).index_store_path == m.index_store_path,
{
}

/// Merging one module replaces its own entry and leaves all others; one without a name
/// changes nothing.
pub proof fn lemma_merge_one(
    modules: Map<Seq<char>, EntryView>,
    m: ModuleView,
    other: Seq<char>,
)
    ensures
        ({
            let after = merged(modules, seq![m], 1);
            &&& m.name.len() == 0 ==> after == modules
            &&& m.name.len() > 0 ==> after.dom().contains(m.name) && after[m.name].args == m.args
                && after[m.name].working_dir == m.working_dir && after[m.name].files == m.files
                && after[m.name].file_lists == m.file_lists
            &&& other != m.name ==> (after.dom().contains(other) <==> modules.dom().contains(
                other,
            )) && after[other] == modules[other]
        }),
{
    reveal_with_fuel(merged, 2);
    assert(seq![m][0] == m);
}

/// A saved store is taken over only for its own build root and scheme and in the layout of
/// this version; anything else starts empty, so that no file is served with the arguments
/// of another scheme or project.
pub proof fn lemma_saved_for_its_own(
    build_root: Seq<char>,
    scheme: Seq<char>,
    saved: Option<PersistedView>,
)
    ensures
        ({
            let (modules, last_log) = adopted(build_root, scheme, saved);
            let fits = saved matches Some(p) && p.version == 1 && p.build_root == build_root
                && p.scheme == scheme;
            &&& fits ==> modules == saved->0.modules && last_log == saved->0.last_log
            &&& !fits ==> modules == Map::<Seq<char>, EntryView>::empty() && last_log is None
        }),
{
}

/// What is saved is the whole store under its build root and scheme.
pub proof fn lemma_saved_whole(s: StoreView)
    ensures
        saved_of(s).version == 1,
        saved_of(s).build_root == s.build_root,
        saved_of(s).scheme == s.scheme,
        saved_of(s).modules == s.modules,
        saved_of(s).last_log == s.last_log,
{
}

/// The watermark moves only where the poll merged something, and then to the log that was
/// merged last.
pub proof fn lemma_watermark_moves(w: Watermark, before: Option<Seq<char>>, changed: bool)
    ensures
        w is Keep ==> watermark_after(w, before, changed) == before,
        !changed ==> watermark_after(w, before, changed) == before,
        w matches Watermark::Advance(to) ==> changed ==> watermark_after(w, before, changed)
            == opt_view(to),
{
}

/// A file is found under any case of its letters, and under any path that leads to it.
pub proof fn lemma_file_keys(disk: DiskView, a: Seq<char>, b: Seq<char>)
    ensures
        !disk.real.dom().contains(a) ==> disk.key(a) == lowercase_text(a),
        disk.real.dom().contains(a) ==> disk.key(a) == lowercase_text(disk.real[a]),
        disk.real.dom().contains(a) && disk.real.dom().contains(b) && disk.real[a] == disk.real[b]
            ==> disk.key(a) == disk.key(b),
{
}

/// Three flags are kept from the compiler's arguments that are served, and no other.
pub proof fn lemma_hostile_flags(arg: Seq<char>)
    ensures
        is_hostile("-use-frontend-parseable-output"@),
        is_hostile("-emit-localized-strings"@),
        is_hostile("-emit-localized-strings-path"@),
        arg != "-use-frontend-parseable-output"@ && arg != "-emit-localized-strings"@ && arg
            != "-emit-localized-strings-path"@ ==> !is_hostile(arg),
{
}

/// In the name of a store, letters, digits, dots, underscores and hyphens stay as they are.
pub proof fn lemma_safe_characters(c: char)
    ensures
        is_safe_char(c) <==> ('a' <= c <= 'z') || ('A' <= c <= 'Z') || ('0' <= c <= '9') || c == '.'
            || c == '_' || c == '-',
        !is_safe_char('/') && !is_safe_char(' ') && !is_safe_char(':'),
{
}

/// A module owns the files that it lists, and a directory holds the Swift files right below
/// it.
pub proof fn lemma_ownership(
    modules: Map<Seq<char>, EntryView>,
    disk: DiskView,
    name: Seq<char>,
    key: Seq<char>,
    dir: Seq<char>,
    i: int,
)
    ensures
        owns(modules, disk, name, key) ==> modules.dom().contains(name),
        modules.dom().contains(name) && 0 <= i < files_of(modules[name], disk).len() && disk.key(
            files_of(modules[name], disk)[i],
        ) == key ==> owns(modules, disk, name, key),
        modules.dom().contains(name) && (forall|k: int|
            0 <= k < files_of(modules[name], disk).len() ==> disk.key(
                #[trigger] files_of(modules[name], disk)[k],
            ) != key) ==> !owns(modules, disk, name, key),
        swift_in(key, dir) ==> has_suffix(key, ".swift"@) && (parent_of(key) matches Some(p)
            && lowercase_text(p) == dir),
        has_suffix(key, ".swift"@) && parent_of(key) == Some(dir) && lowercase_text(dir) == dir
            ==> swift_in(key, dir),
{
}

} // verus!
