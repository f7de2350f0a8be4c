//! Persistent per-`(build_root, scheme)` store of Swift compile arguments,
//! parsed out of build logs and served to sourcekit-lsp (a Build Server
//! answering "how do I compile this file?"). Merges incrementally so a rebuild
//! of one module does not drop the others, expands `@…SwiftFileList` response
//! files when arguments are served, and infers arguments for a brand-new file
//! from a sibling in the same module.

use crate::engine::disk::strings_view;
use crate::engine::disk::Disk;
use crate::engine::disk::DiskView;
use crate::engine::shell_words::shell_split;
use crate::engine::shell_words::words_of;
use crate::engine::xcactivitylog::modules_view;
use crate::engine::xcactivitylog::ModuleView;
use crate::engine::xcactivitylog::ParsedModule;
use crate::engine::xcodebuild::as_opt_str;
use crate::number::hex_count;
use crate::number::hex_padded;
use crate::number::lemma_hex_padded_injective;
use crate::number::lemma_hex_padded_len;
use crate::number::push_hex;
use crate::order::lemma_text_rank;
use crate::order::text_rank;
use crate::text::chars_of;
use crate::text::copy_opt;
use crate::text::copy_texts;
use crate::text::ends_with;
use crate::text::eq_ignore_case;
use crate::text::has_prefix;
use crate::text::has_suffix;
use crate::text::lowercase;
use crate::text::lowercase_text;
use crate::text::opt_str_view;
use crate::text::opt_view;
use crate::text::owned;
use crate::text::push_text;
use crate::text::push_texts;
use crate::text::replace_text;
use crate::text::replaced;
use crate::text::same_ignoring_case;
use crate::text::str_eq;
use crate::text::string_of;
use crate::text::string_of_all;
use crate::text::texts;
use crate::util::hash::fnv1a;
use crate::util::hash::fnv1a64;
use crate::util::name_map::rising;
use crate::util::name_map::NameMap;
use crate::util::paths::extension;
use crate::util::paths::extension_of;
use crate::util::paths::join;
use crate::util::paths::joined;
use crate::util::paths::lemma_parent_shorter;
use crate::util::paths::parent;
use crate::util::paths::parent_of;
use vstd::prelude::*;
use vstd::string::StringSliceAdditionalSpecFns;

verus! {

/// On-disk schema version. A stored file with a different version is ignored.
pub const STORE_VERSION: u32 = 1;

/// One module's stored compile arguments. `args` keeps `@…SwiftFileList`
/// entries verbatim (expanded when served) and has `argv[0]` already dropped.
#[derive(Debug, PartialEq, Eq)]
pub struct ModuleEntry {
    pub args: Vec<String>,
    pub working_dir: String,
    pub files: Vec<String>,
    pub file_lists: Vec<String>,
    pub index_store_path: Option<String>,
}

/// The mathematical value of a [`ModuleEntry`].
#[verifier::ext_equal]
pub struct EntryView {
    pub args: Seq<Seq<char>>,
    pub working_dir: Seq<char>,
    pub files: Seq<Seq<char>>,
    pub file_lists: Seq<Seq<char>>,
    pub index_store_path: Option<Seq<char>>,
}

impl View for ModuleEntry {
    type V = EntryView;

    open spec fn view(&self) -> EntryView {
        EntryView {
            args: texts(self.args@),
            working_dir: self.working_dir@,
            files: texts(self.files@),
            file_lists: texts(self.file_lists@),
            index_store_path: opt_view(self.index_store_path),
        }
    }
}

impl ModuleEntry {
    /// A copy of the entry.
    pub fn copy(&self) -> (r: ModuleEntry)
        ensures
            r@ == self@,
    {
        ModuleEntry {
            args: copy_texts(&self.args),
            working_dir: owned(self.working_dir.as_str()),
            files: copy_texts(&self.files),
            file_lists: copy_texts(&self.file_lists),
            index_store_path: copy_opt(&self.index_store_path),
        }
    }
}

/// The entry that is stored for a parsed module.
pub open spec fn entry_of(m: ModuleView) -> EntryView {
    EntryView {
        args: m.args,
        working_dir: m.working_dir,
        files: m.files,
        file_lists: m.file_lists,
        index_store_path: m.index_store_path,
    }
}

/// The entry that is stored for a parsed module.
fn stored_entry(m: &ParsedModule) -> (r: ModuleEntry)
    ensures
        r@ == entry_of(m@),
{
    ModuleEntry {
        args: copy_texts(&m.args),
        working_dir: owned(m.working_dir.as_str()),
        files: copy_texts(&m.files),
        file_lists: copy_texts(&m.file_lists),
        index_store_path: copy_opt(&m.index_store_path),
    }
}

// ---------------------------------------------------------------------------
// store files
// ---------------------------------------------------------------------------

/// Whether a character stands for itself in a file name.
pub open spec fn is_safe_char(c: char) -> bool {
    'a' <= c <= 'z' || 'A' <= c <= 'Z' || '0' <= c <= '9' || c == '.' || c == '_' || c == '-'
}

/// A scheme as the readable part of a file name.
pub open spec fn sanitized(scheme: Seq<char>) -> Seq<char> {
    if scheme.len() == 0 {
        "scheme"@
    } else {
        Seq::new(
            scheme.len(),
            |i: int|
                if is_safe_char(scheme[i]) {
                    scheme[i]
                } else {
                    '-'
                },
        )
    }
}

/// Keep a scheme readable in the file name while staying filesystem-safe.
/// Uniqueness across schemes comes from the hash beside it.
pub fn sanitize_scheme(scheme: &str) -> (r: String)
    ensures
        r@ == sanitized(scheme@),
{
    let cs = chars_of(scheme);
    if cs.len() == 0 {
        return owned("scheme");
    }
    let mut out: Vec<char> = Vec::new();
    let mut i: usize = 0;
    while i < cs.len()
        invariant
            i <= cs.len(),
            cs@ == scheme@,
            out@.len() == i,
            forall|k: int|
                0 <= k < i ==> #[trigger] out@[k] == if is_safe_char(scheme@[k]) {
                    scheme@[k]
                } else {
                    '-'
                },
        decreases cs.len() - i,
    {
        let c = cs[i];
        if ('a' <= c && c <= 'z') || ('A' <= c && c <= 'Z') || ('0' <= c && c <= '9') || c == '.'
            || c == '_' || c == '-' {
            out.push(c);
        } else {
            out.push('-');
        }
        i = i + 1;
    }
    assert(out@ =~= sanitized(scheme@));
    string_of_all(out.as_slice())
}

/// What the readable part of a file name is made of: never a path separator.
pub proof fn lemma_sanitized_safe(scheme: Seq<char>)
    ensures
        sanitized(scheme).len() > 0,
        forall|i: int|
            0 <= i < sanitized(scheme).len() ==> is_safe_char(#[trigger] sanitized(scheme)[i]),
{
    reveal_strlit("scheme");
}

/// The file name of a store: hashes of the build root and the scheme, and the
/// scheme in readable form.
pub open spec fn store_name(root_hash: u64, scheme_hash: u64, readable: Seq<char>) -> Seq<char> {
    "compile-store-"@ + hex_padded(root_hash as nat, 16) + "-"@ + hex_padded(scheme_hash as nat, 16)
        + "-"@ + readable + ".json"@
}

/// Two stores share a file name only if both hashes and the readable part are
/// the same: schemes that read alike are still kept apart.
pub proof fn lemma_store_name_distinct(
    root1: u64,
    scheme1: u64,
    readable1: Seq<char>,
    root2: u64,
    scheme2: u64,
    readable2: Seq<char>,
)
    requires
        store_name(root1, scheme1, readable1) == store_name(root2, scheme2, readable2),
    ensures
        root1 == root2,
        scheme1 == scheme2,
        readable1 == readable2,
{
    let a = store_name(root1, scheme1, readable1);
    let b = store_name(root2, scheme2, readable2);
    reveal_strlit("compile-store-");
    reveal_strlit("-");
    reveal_strlit(".json");
    lemma_hex_padded_len(root1 as nat, 16);
    lemma_hex_padded_len(root2 as nat, 16);
    lemma_hex_padded_len(scheme1 as nat, 16);
    lemma_hex_padded_len(scheme2 as nat, 16);
    assert(a.len() == 53 + readable1.len());
    assert(b.len() == 53 + readable2.len());
    assert(a.subrange(14, 30) =~= hex_padded(root1 as nat, 16));
    assert(b.subrange(14, 30) =~= hex_padded(root2 as nat, 16));
    assert(a.subrange(31, 47) =~= hex_padded(scheme1 as nat, 16));
    assert(b.subrange(31, 47) =~= hex_padded(scheme2 as nat, 16));
    assert(a.subrange(48, 48 + readable1.len() as int) =~= readable1);
    assert(b.subrange(48, 48 + readable2.len() as int) =~= readable2);
    reveal_with_fuel(hex_count, 17);
    lemma_hex_padded_injective(root1 as nat, root2 as nat, 16);
    lemma_hex_padded_injective(scheme1 as nat, scheme2 as nat, 16);
}

/// The file name of the store for an (absolute) build root and a scheme. The
/// build-root path is hashed: no raw path text stands in the name.
pub fn store_file_name(build_root: &str, scheme: &str) -> (r: String)
    ensures
        r@ == store_name(
            fnv1a(build_root.spec_bytes()),
            fnv1a(scheme.spec_bytes()),
            sanitized(scheme@),
        ),
{
    let root_hash = fnv1a64(build_root.as_bytes());
    let scheme_hash = fnv1a64(scheme.as_bytes());
    let mut digits: Vec<char> = Vec::new();
    push_hex(&mut digits, root_hash, 16);
    let mut more: Vec<char> = Vec::new();
    push_hex(&mut more, scheme_hash, 16);
    let mut r = owned("compile-store-");
    r.append(string_of_all(digits.as_slice()).as_str());
    r.append("-");
    r.append(string_of_all(more.as_slice()).as_str());
    r.append("-");
    r.append(sanitize_scheme(scheme).as_str());
    r.append(".json");
    assert(digits@ =~= hex_padded(root_hash as nat, 16));
    assert(more@ =~= hex_padded(scheme_hash as nat, 16));
    r
}

/// `<store-file>.lock`: the advisory-lock sidecar of a store file.
pub fn store_lock_path(store_path: &str) -> (r: String)
    ensures
        r@ == store_path@ + ".lock"@,
{
    let mut r = owned(store_path);
    r.append(".lock");
    r
}

// ---------------------------------------------------------------------------
// files of a module
// ---------------------------------------------------------------------------

/// The files that the first `n` response files list, as far as they are there.
pub open spec fn listed_upto(lists: Seq<Seq<char>>, disk: DiskView, n: int) -> Seq<Seq<char>>
    decreases n,
{
    if n <= 0 {
        Seq::empty()
    } else if disk.lists.dom().contains(lists[n - 1]) {
        listed_upto(lists, disk, n - 1) + words_of(disk.lists[lists[n - 1]])
    } else {
        listed_upto(lists, disk, n - 1)
    }
}

/// Whether every response file is there.
pub open spec fn all_listed(lists: Seq<Seq<char>>, disk: DiskView) -> bool {
    forall|i: int| 0 <= i < lists.len() ==> disk.lists.dom().contains(#[trigger] lists[i])
}

/// The files that a module owns: what its response files list, and its inline
/// files where it has no response file or one is gone.
pub open spec fn files_of(entry: EntryView, disk: DiskView) -> Seq<Seq<char>> {
    if entry.file_lists.len() == 0 {
        entry.files
    } else {
        let listed = listed_upto(entry.file_lists, disk, entry.file_lists.len() as int);
        if all_listed(entry.file_lists, disk) {
            listed
        } else {
            listed + entry.files
        }
    }
}

/// The files that a module owns.
pub fn module_files(entry: &ModuleEntry, disk: &Disk) -> (r: Vec<String>)
    requires
        disk.wf(),
    ensures
        texts(r@) == files_of(entry@, disk@),
{
    if entry.file_lists.len() == 0 {
        return copy_texts(&entry.files);
    }
    let ghost lv = entry@.file_lists;
    let mut r: Vec<String> = Vec::new();
    let mut missing = false;
    let mut i: usize = 0;
    assert(texts(r@) =~= listed_upto(lv, disk@, 0));
    while i < entry.file_lists.len()
        invariant
            disk.wf(),
            i <= entry.file_lists.len(),
            lv == texts(entry.file_lists@),
            texts(r@) == listed_upto(lv, disk@, i as int),
            missing == !(forall|k: int|
                0 <= k < i ==> disk@.lists.dom().contains(#[trigger] lv[k])),
        decreases entry.file_lists.len() - i,
    {
        assert(lv[i as int] == entry.file_lists@[i as int]@);
        match disk.file(entry.file_lists[i].as_str()) {
            Some(text) => {
                let words = shell_split(text);
                push_texts(&mut r, &words);
            },
            None => {
                missing = true;
            },
        }
        i = i + 1;
    }
    if missing {
        push_texts(&mut r, &entry.files);
    }
    r
}

// ---------------------------------------------------------------------------
// the store
// ---------------------------------------------------------------------------

/// The persisted portion of a store.
#[derive(Debug)]
pub struct Persisted {
    pub version: u32,
    pub build_root: String,
    pub scheme: String,
    pub modules: NameMap<ModuleEntry>,
    /// Newest build-log file name already ingested (the poll watermark).
    pub last_log: Option<String>,
}

/// A loaded compile-args store: the persisted module map plus in-memory indexes
/// (file to module, directory to module).
#[derive(Debug)]
pub struct CompileStore {
    build_root: String,
    scheme: String,
    modules: NameMap<ModuleEntry>,
    last_log: Option<String>,
    file_index: NameMap<String>,
    dir_index: NameMap<String>,
}

/// The entries of a map, as mathematical values.
pub open spec fn entries_view(m: Map<Seq<char>, ModuleEntry>) -> Map<Seq<char>, EntryView> {
    Map::new(|k: Seq<char>| m.dom().contains(k), |k: Seq<char>| m[k]@)
}

/// The mathematical value of a [`Persisted`].
pub struct PersistedView {
    pub version: u32,
    pub build_root: Seq<char>,
    pub scheme: Seq<char>,
    pub modules: Map<Seq<char>, EntryView>,
    pub last_log: Option<Seq<char>>,
}

impl View for Persisted {
    type V = PersistedView;

    open spec fn view(&self) -> PersistedView {
        PersistedView {
            version: self.version,
            build_root: self.build_root@,
            scheme: self.scheme@,
            modules: entries_view(self.modules@),
            last_log: opt_view(self.last_log),
        }
    }
}

/// The mathematical value of a [`CompileStore`].
pub struct StoreView {
    pub build_root: Seq<char>,
    pub scheme: Seq<char>,
    pub modules: Map<Seq<char>, EntryView>,
    pub last_log: Option<Seq<char>>,
    /// Which module owns a file, by file key.
    pub owners: Map<Seq<char>, Seq<char>>,
    /// Which module has a Swift file in a directory, by directory key.
    pub dirs: Map<Seq<char>, Seq<char>>,
}

impl View for CompileStore {
    type V = StoreView;

    closed spec fn view(&self) -> StoreView {
        StoreView {
            build_root: self.build_root@,
            scheme: self.scheme@,
            modules: entries_view(self.modules@),
            last_log: opt_view(self.last_log),
            owners: strings_view(self.file_index@),
            dirs: strings_view(self.dir_index@),
        }
    }
}

/// Whether a module owns a file key.
pub open spec fn owns(
    modules: Map<Seq<char>, EntryView>,
    disk: DiskView,
    name: Seq<char>,
    key: Seq<char>,
) -> bool {
    modules.dom().contains(name) && has_key(files_of(modules[name], disk), disk, key)
}

/// Whether one of some files has a key.
pub open spec fn has_key(files: Seq<Seq<char>>, disk: DiskView, key: Seq<char>) -> bool {
    exists|i: int| 0 <= i < files.len() && disk.key(#[trigger] files[i]) == key
}

/// Whether a map gives, for each file key that some module owns, the last owner
/// in the order of names.
pub open spec fn indexes_owners(
    owners: Map<Seq<char>, Seq<char>>,
    modules: Map<Seq<char>, EntryView>,
    disk: DiskView,
) -> bool {
    &&& forall|k: Seq<char>, m: Seq<char>| #[trigger]
        owns(modules, disk, m, k) ==> owners.dom().contains(k) && !(text_rank(owners[k], m) is Before)
    &&& forall|k: Seq<char>| #[trigger]
        owners.dom().contains(k) ==> owns(modules, disk, owners[k], k)
}

/// The key of the directory that holds a file.
pub open spec fn parent_key(key: Seq<char>) -> Option<Seq<char>> {
    match parent_of(key) {
        Some(p) => Some(lowercase_text(p)),
        None => None,
    }
}

/// Whether a file key is that of a Swift file in a directory.
pub open spec fn swift_in(key: Seq<char>, dir: Seq<char>) -> bool {
    has_suffix(key, ".swift"@) && parent_key(key) == Some(dir)
}

/// Whether a map gives, for each directory with a known Swift file, the owner of
/// one of its Swift files.
pub open spec fn indexes_dirs(
    dirs: Map<Seq<char>, Seq<char>>,
    owners: Map<Seq<char>, Seq<char>>,
) -> bool {
    &&& forall|k: Seq<char>, d: Seq<char>| #[trigger]
        owners.dom().contains(k) && #[trigger] swift_in(k, d) ==> dirs.dom().contains(d)
    &&& forall|d: Seq<char>| #[trigger]
        dirs.dom().contains(d) ==> exists|k: Seq<char>| #[trigger]
            owners.dom().contains(k) && swift_in(k, d) && dirs[d] == owners[k]
}

impl StoreView {
    /// The indexes lead to modules of the store.
    pub open spec fn wf(self) -> bool {
        &&& forall|k: Seq<char>| #[trigger]
            self.owners.dom().contains(k) ==> self.modules.dom().contains(self.owners[k])
        &&& forall|d: Seq<char>| #[trigger]
            self.dirs.dom().contains(d) ==> self.modules.dom().contains(self.dirs[d])
    }

    /// The indexes match the modules, as the file system stood.
    pub open spec fn indexed(self, disk: DiskView) -> bool {
        indexes_owners(self.owners, self.modules, disk) && indexes_dirs(self.dirs, self.owners)
    }
}

/// The modules of a store with the first `n` parsed modules merged in: each
/// replaces the entry of its name, and every other entry stays.
pub open spec fn merged(
    modules: Map<Seq<char>, EntryView>,
    parsed: Seq<ModuleView>,
    n: int,
) -> Map<Seq<char>, EntryView>
    decreases n,
{
    if n <= 0 {
        modules
    } else {
        let m = parsed[n - 1];
        let before = merged(modules, parsed, n - 1);
        if m.name.len() == 0 {
            before
        } else {
            before.insert(m.name, entry_of(m))
        }
    }
}

/// The modules of a store with the first `n` groups merged in.
pub open spec fn merged_groups(
    modules: Map<Seq<char>, EntryView>,
    groups: Seq<Seq<ModuleView>>,
    n: int,
) -> Map<Seq<char>, EntryView>
    decreases n,
{
    if n <= 0 {
        modules
    } else {
        merged(
            merged_groups(modules, groups, n - 1),
            groups[n - 1],
            groups[n - 1].len() as int,
        )
    }
}

/// A merge keeps the entry of every module that it does not name.
pub proof fn lemma_merge_keeps_others(
    modules: Map<Seq<char>, EntryView>,
    parsed: Seq<ModuleView>,
    n: int,
    name: Seq<char>,
)
    requires
        0 <= n <= parsed.len(),
        forall|i: int| 0 <= i < n ==> (#[trigger] parsed[i]).name != name,
    ensures
        merged(modules, parsed, n).dom().contains(name) == modules.dom().contains(name),
        modules.dom().contains(name) ==> merged(modules, parsed, n)[name] == modules[name],
    decreases n,
{
    if n > 0 {
        assert(parsed[n - 1].name != name);
        lemma_merge_keeps_others(modules, parsed, n - 1, name);
    }
}

/// Of the parsed modules of one name, the last one is stored.
pub proof fn lemma_merge_last_wins(
    modules: Map<Seq<char>, EntryView>,
    parsed: Seq<ModuleView>,
    n: int,
    last: int,
)
    requires
        0 <= last < n <= parsed.len(),
        parsed[last].name.len() > 0,
        forall|i: int| last < i < n ==> (#[trigger] parsed[i]).name != parsed[last].name,
    ensures
        merged(modules, parsed, n).dom().contains(parsed[last].name),
        merged(modules, parsed, n)[parsed[last].name] == entry_of(parsed[last]),
    decreases n,
{
    if n - 1 > last {
        assert(parsed[n - 1].name != parsed[last].name);
        lemma_merge_last_wins(modules, parsed, n - 1, last);
    }
}

/// A merge never loses a module.
pub proof fn lemma_merge_grows(
    modules: Map<Seq<char>, EntryView>,
    groups: Seq<Seq<ModuleView>>,
    n: int,
    name: Seq<char>,
)
    requires
        0 <= n <= groups.len(),
        modules.dom().contains(name),
    ensures
        merged_groups(modules, groups, n).dom().contains(name),
    decreases n,
{
    if n > 0 {
        lemma_merge_grows(modules, groups, n - 1, name);
        lemma_group_grows(
            merged_groups(modules, groups, n - 1),
            groups[n - 1],
            groups[n - 1].len() as int,
            name,
        );
    }
}

/// Merging one group never loses a module.
proof fn lemma_group_grows(
    modules: Map<Seq<char>, EntryView>,
    parsed: Seq<ModuleView>,
    n: int,
    name: Seq<char>,
)
    requires
        modules.dom().contains(name),
    ensures
        merged(modules, parsed, n).dom().contains(name),
    decreases n,
{
    if n > 0 {
        lemma_group_grows(modules, parsed, n - 1, name);
    }
}

// ---------------------------------------------------------------------------
// indexes
// ---------------------------------------------------------------------------

/// The owners after a module has claimed the keys of its first `n` files.
spec fn claimed(
    owners: Map<Seq<char>, Seq<char>>,
    files: Seq<Seq<char>>,
    disk: DiskView,
    name: Seq<char>,
    n: int,
) -> Map<Seq<char>, Seq<char>>
    decreases n,
{
    if n <= 0 {
        owners
    } else {
        claimed(owners, files, disk, name, n - 1).insert(disk.key(files[n - 1]), name)
    }
}

/// A claimed key leads to its claimant, every other key where it led before.
proof fn lemma_claimed(
    owners: Map<Seq<char>, Seq<char>>,
    files: Seq<Seq<char>>,
    disk: DiskView,
    name: Seq<char>,
    n: int,
    key: Seq<char>,
)
    requires
        0 <= n <= files.len(),
    ensures
        ({
            let now = claimed(owners, files, disk, name, n);
            if has_key(files.take(n), disk, key) {
                now.dom().contains(key) && now[key] == name
            } else {
                now.dom().contains(key) == owners.dom().contains(key) && now[key] == owners[key]
            }
        }),
    decreases n,
{
    if n > 0 {
        lemma_claimed(owners, files, disk, name, n - 1, key);
        let front = files.take(n - 1);
        let all = files.take(n);
        assert(all[n - 1] == files[n - 1]);
        if has_key(front, disk, key) {
            let i = choose|i: int| 0 <= i < front.len() && disk.key(#[trigger] front[i]) == key;
            assert(all[i] == front[i]);
        }
        if has_key(all, disk, key) && disk.key(files[n - 1]) != key {
            let i = choose|i: int| 0 <= i < all.len() && disk.key(#[trigger] all[i]) == key;
            assert(front[i] == all[i]);
        }
    }
}

/// Whether a name is among the first `i`.
spec fn among(names: Seq<Seq<char>>, i: int, m: Seq<char>) -> bool {
    exists|t: int| 0 <= t < i && #[trigger] names[t] == m
}

/// Whether a map gives the last owner among the first `i` modules.
spec fn owners_upto(
    owners: Map<Seq<char>, Seq<char>>,
    modules: Map<Seq<char>, EntryView>,
    names: Seq<Seq<char>>,
    disk: DiskView,
    i: int,
) -> bool {
    &&& forall|k: Seq<char>, m: Seq<char>| #[trigger]
        owns(modules, disk, m, k) && among(names, i, m) ==> owners.dom().contains(k) && !(text_rank(
            owners[k],
            m,
        ) is Before)
    &&& forall|k: Seq<char>| #[trigger]
        owners.dom().contains(k) ==> owns(modules, disk, owners[k], k) && among(
            names,
            i,
            owners[k],
        )
}

/// The next module claims its files.
proof fn lemma_owners_step(
    owners: Map<Seq<char>, Seq<char>>,
    modules: Map<Seq<char>, EntryView>,
    names: Seq<Seq<char>>,
    disk: DiskView,
    i: int,
)
    requires
        0 <= i < names.len(),
        rising(names),
        modules.dom().contains(names[i]),
        owners_upto(owners, modules, names, disk, i),
    ensures
        owners_upto(
            claimed(
                owners,
                files_of(modules[names[i]], disk),
                disk,
                names[i],
                files_of(modules[names[i]], disk).len() as int,
            ),
            modules,
            names,
            disk,
            i + 1,
        ),
{
    let files = files_of(modules[names[i]], disk);
    let n = files.len() as int;
    let now = claimed(owners, files, disk, names[i], n);
    assert(files.take(n) =~= files);
    assert forall|k: Seq<char>, m: Seq<char>| #[trigger]
        owns(modules, disk, m, k) && among(names, i + 1, m) implies now.dom().contains(k) && !(
    text_rank(now[k], m) is Before) by {
        lemma_claimed(owners, files, disk, names[i], n, k);
        lemma_text_rank(names[i], m);
        if m != names[i] {
            let t = choose|t: int| 0 <= t < i + 1 && #[trigger] names[t] == m;
            assert(t < i);
            assert(among(names, i, m));
            assert(text_rank(names[t], names[i]) is Before);
            lemma_text_rank(names[t], names[i]);
        }
    }
    assert forall|k: Seq<char>| #[trigger] now.dom().contains(k) implies owns(
        modules,
        disk,
        now[k],
        k,
    ) && among(names, i + 1, now[k]) by {
        lemma_claimed(owners, files, disk, names[i], n, k);
        if has_key(files, disk, k) {
            assert(names[i] == now[k]);
        } else {
            assert(owners.dom().contains(k));
            let t = choose|t: int| 0 <= t < i && #[trigger] names[t] == owners[k];
            assert(names[t] == now[k]);
        }
    }
}

/// Once every module has claimed its files, the owners are indexed.
proof fn lemma_owners_done(
    owners: Map<Seq<char>, Seq<char>>,
    modules: Map<Seq<char>, EntryView>,
    names: Seq<Seq<char>>,
    disk: DiskView,
)
    requires
        owners_upto(owners, modules, names, disk, names.len() as int),
        forall|k: Seq<char>| #[trigger] modules.dom().contains(k) <==> names.contains(k),
    ensures
        indexes_owners(owners, modules, disk),
{
    assert forall|k: Seq<char>, m: Seq<char>| #[trigger] owns(modules, disk, m, k) implies among(
        names,
        names.len() as int,
        m,
    ) by {
        assert(modules.dom().contains(m));
        let t = names.index_of(m);
        assert(names[t] == m);
    }
}

/// Whether a map gives an owner for the directories of the first `i` files.
spec fn dirs_upto(
    dirs: Map<Seq<char>, Seq<char>>,
    owners: Map<Seq<char>, Seq<char>>,
    files: Seq<Seq<char>>,
    i: int,
) -> bool {
    &&& forall|t: int, d: Seq<char>|
        0 <= t < i && #[trigger] swift_in(files[t], d) ==> dirs.dom().contains(d)
    &&& forall|d: Seq<char>| #[trigger]
        dirs.dom().contains(d) ==> exists|t: int|
            0 <= t < i && swift_in(#[trigger] files[t], d) && dirs[d] == owners[files[t]]
}

/// Strings put into a map.
proof fn lemma_strings_insert(m: Map<Seq<char>, String>, k: Seq<char>, s: String)
    ensures
        strings_view(m.insert(k, s)) == strings_view(m).insert(k, s@),
{
    assert(strings_view(m.insert(k, s)) =~= strings_view(m).insert(k, s@));
}

/// An entry put into a map.
proof fn lemma_entries_insert(m: Map<Seq<char>, ModuleEntry>, k: Seq<char>, e: ModuleEntry)
    ensures
        entries_view(m.insert(k, e)) == entries_view(m).insert(k, e@),
{
    assert(entries_view(m.insert(k, e)) =~= entries_view(m).insert(k, e@));
}

/// Which module owns each file.
fn index_owners(modules: &NameMap<ModuleEntry>, disk: &Disk) -> (r: NameMap<String>)
    requires
        modules.wf(),
        disk.wf(),
    ensures
        r.wf(),
        indexes_owners(strings_view(r@), entries_view(modules@), disk@),
{
    let ghost mods = entries_view(modules@);
    let ghost names = modules.names();
    let mut r: NameMap<String> = NameMap::new();
    let n: usize = modules.len();
    let mut i: usize = 0;
    proof {
        modules.lemma_names();
        assert(strings_view(r@) =~= Map::<Seq<char>, Seq<char>>::empty());
    }
    while i < n
        invariant
            i <= n,
            n == names.len(),
            modules.wf(),
            disk.wf(),
            names == modules.names(),
            mods == entries_view(modules@),
            rising(names),
            forall|k: Seq<char>| #[trigger] modules@.dom().contains(k) <==> names.contains(k),
            r.wf(),
            owners_upto(strings_view(r@), mods, names, disk@, i as int),
        decreases n - i,
    {
        let ghost before = strings_view(r@);
        assert(names.contains(names[i as int]));
        let files = module_files(modules.value(i), disk);
        let ghost fv = files_of(mods[names[i as int]], disk@);
        let mut j: usize = 0;
        while j < files.len()
            invariant
                j <= files.len(),
                i < n,
                n == names.len(),
                names == modules.names(),
                disk.wf(),
                texts(files@) == fv,
                r.wf(),
                strings_view(r@) == claimed(before, fv, disk@, names[i as int], j as int),
            decreases files.len() - j,
        {
            assert(fv[j as int] == files@[j as int]@);
            let key = disk.file_key(files[j].as_str());
            let name = owned(modules.name(i));
            proof {
                lemma_strings_insert(r@, key@, name);
            }
            r.insert(key.as_str(), name);
            j = j + 1;
        }
        proof {
            assert(fv.len() == files@.len());
            lemma_owners_step(before, mods, names, disk@, i as int);
        }
        i = i + 1;
    }
    proof {
        lemma_owners_done(strings_view(r@), mods, names, disk@);
    }
    r
}

/// Which module has a Swift file in each directory.
fn index_dirs(owners: &NameMap<String>) -> (r: NameMap<String>)
    requires
        owners.wf(),
    ensures
        r.wf(),
        indexes_dirs(strings_view(r@), strings_view(owners@)),
{
    let ghost ov = strings_view(owners@);
    let ghost files = owners.names();
    let mut r: NameMap<String> = NameMap::new();
    let n: usize = owners.len();
    let mut i: usize = 0;
    proof {
        owners.lemma_names();
        assert(strings_view(r@) =~= Map::<Seq<char>, Seq<char>>::empty());
    }
    while i < n
        invariant
            i <= n,
            n == files.len(),
            owners.wf(),
            files == owners.names(),
            ov == strings_view(owners@),
            forall|k: int| 0 <= k < files.len() ==> owners@.dom().contains(#[trigger] files[k]),
            r.wf(),
            dirs_upto(strings_view(r@), ov, files, i as int),
        decreases n - i,
    {
        let ghost before = strings_view(r@);
        let key = owners.name(i);
        if ends_with(chars_of(key).as_slice(), ".swift") {
            if let Some(p) = parent(key) {
                let dir = lowercase(p.as_str());
                if !r.contains(dir.as_str()) {
                    let module = owned(owners.value(i).as_str());
                    proof {
                        lemma_strings_insert(r@, dir@, module);
                    }
                    r.insert(dir.as_str(), module);
                    assert(strings_view(r@) == before.insert(dir@, ov[files[i as int]]));
                }
                assert(swift_in(files[i as int], dir@));
            }
        }
        proof {
            let now = strings_view(r@);
            assert forall|t: int, d: Seq<char>|
                0 <= t < i + 1 && #[trigger] swift_in(files[t], d) implies now.dom().contains(
                d,
            ) by {
                if t < i {
                    assert(before.dom().contains(d));
                }
            }
            assert forall|d: Seq<char>| #[trigger] now.dom().contains(d) implies exists|t: int|
                0 <= t < i + 1 && swift_in(#[trigger] files[t], d) && now[d] == ov[files[t]] by {
                if before.dom().contains(d) {
                    let t = choose|t: int|
                        0 <= t < i && swift_in(#[trigger] files[t], d) && before[d]
                            == ov[files[t]];
                    assert(swift_in(files[t], d) && now[d] == ov[files[t]]);
                } else {
                    assert(swift_in(files[i as int], d) && now[d] == ov[files[i as int]]);
                }
            }
        }
        i = i + 1;
    }
    proof {
        let now = strings_view(r@);
        assert forall|k: Seq<char>, d: Seq<char>| #[trigger]
            ov.dom().contains(k) && #[trigger] swift_in(k, d) implies now.dom().contains(d) by {
            assert(owners@.dom().contains(k));
            let t = files.index_of(k);
            assert(swift_in(files[t], d));
        }
        assert forall|d: Seq<char>| #[trigger] now.dom().contains(d) implies exists|k: Seq<char>|
            #[trigger] ov.dom().contains(k) && swift_in(k, d) && now[d] == ov[k] by {
            let t = choose|t: int|
                0 <= t < n && swift_in(#[trigger] files[t], d) && now[d] == ov[files[t]];
            assert(ov.dom().contains(files[t]));
        }
    }
    r
}

// ---------------------------------------------------------------------------
// serving
// ---------------------------------------------------------------------------

/// Xcode escapes `=` as `\=` in the logged command; sourcekit wants it plain.
pub open spec fn unescaped(arg: Seq<char>) -> Seq<char> {
    replaced(arg, "\\="@, "="@)
}

/// An argument without Xcode's escapes of `=`.
pub fn unescape_eq(arg: &str) -> (r: String)
    ensures
        r@ == unescaped(arg@),
{
    proof {
        reveal_strlit("\\=");
    }
    replace_text(arg, "\\=", "=")
}

/// What stored arguments become when they are served, from `i` on: hostile flags
/// dropped, response files expanded (the stored files where one is gone), `\=`
/// unescaped.
pub open spec fn served_from(entry: EntryView, disk: DiskView, i: int) -> Seq<Seq<char>>
    decreases entry.args.len() + 1 - i,
{
    if i < 0 || i >= entry.args.len() {
        Seq::empty()
    } else {
        let arg = entry.args[i];
        if arg == "-emit-localized-strings-path"@ {
            served_from(entry, disk, i + 2)
        } else if arg == "-use-frontend-parseable-output"@ || arg == "-emit-localized-strings"@ {
            served_from(entry, disk, i + 1)
        } else if arg.len() > 0 && arg[0] == '@' {
            (if disk.lists.dom().contains(arg.skip(1)) {
                words_of(disk.lists[arg.skip(1)])
            } else {
                entry.files
            }) + served_from(entry, disk, i + 1)
        } else {
            seq![unescaped(arg)] + served_from(entry, disk, i + 1)
        }
    }
}

/// The arguments to serve for a module, and for one more file that it does not
/// know yet.
pub open spec fn served(entry: EntryView, disk: DiskView, extra: Option<Seq<char>>) -> Seq<
    Seq<char>,
> {
    match extra {
        Some(f) => served_from(entry, disk, 0).push(f),
        None => served_from(entry, disk, 0),
    }
}

/// Turn a module's stored arguments into what sourcekit-lsp should receive.
fn serve_args(entry: &ModuleEntry, disk: &Disk, extra: Option<&str>) -> (r: Vec<String>)
    requires
        disk.wf(),
    ensures
        texts(r@) == served(entry@, disk@, opt_str_view(extra)),
{
    let ghost ev = entry@;
    let n: usize = entry.args.len();
    let mut out: Vec<String> = Vec::new();
    let mut i: usize = 0;
    assert(texts(out@) + served_from(ev, disk@, 0) =~= served_from(ev, disk@, 0));
    while i < n
        invariant
            disk.wf(),
            i <= n,
            n == entry.args.len(),
            ev == entry@,
            texts(out@) + served_from(ev, disk@, i as int) == served_from(ev, disk@, 0),
        decreases n - i,
    {
        let ghost done = texts(out@);
        assert(ev.args[i as int] == entry.args@[i as int]@);
        let arg = entry.args[i].as_str();
        if str_eq(arg, "-emit-localized-strings-path") {
            if i + 1 < n {
                i = i + 2;
            } else {
                assert(served_from(ev, disk@, i + 2) =~= served_from(ev, disk@, i + 1));
                i = i + 1;
            }
        } else if str_eq(arg, "-use-frontend-parseable-output") || str_eq(
            arg,
            "-emit-localized-strings",
        ) {
            i = i + 1;
        } else {
            let cs = chars_of(arg);
            if cs.len() > 0 && cs[0] == '@' {
                let list = string_of(cs.as_slice(), 1, cs.len());
                assert(list@ =~= arg@.skip(1));
                match disk.file(list.as_str()) {
                    Some(text) => {
                        let words = shell_split(text);
                        push_texts(&mut out, &words);
                    },
                    None => {
                        push_texts(&mut out, &entry.files);
                    },
                }
            } else {
                let plain = unescape_eq(arg);
                push_text(&mut out, plain.as_str());
            }
            assert(texts(out@) + served_from(ev, disk@, i + 1) =~= done + served_from(
                ev,
                disk@,
                i as int,
            ));
            i = i + 1;
        }
    }
    assert(texts(out@) =~= served_from(ev, disk@, 0));
    if let Some(f) = extra {
        push_text(&mut out, f);
    }
    out
}

/// Whether the search for a sibling ends at a directory: the project root, or one
/// that holds a `.git`.
pub open spec fn ends_search(disk: DiskView, root: Option<Seq<char>>, key: Seq<char>) -> bool {
    root == Some(key) || disk.repos.contains(key)
}

/// The module that a directory or the nearest of its ancestors knows, up to the
/// project root or a directory that holds a `.git`.
pub open spec fn inherited(
    dirs: Map<Seq<char>, Seq<char>>,
    disk: DiskView,
    root: Option<Seq<char>>,
    dir: Seq<char>,
) -> Option<Seq<char>>
    decreases dir.len(),
{
    let key = lowercase_text(dir);
    if dirs.dom().contains(key) {
        Some(dirs[key])
    } else if ends_search(disk, root, key) {
        None
    } else {
        match parent_of(dir) {
            Some(p) => {
                proof {
                    lemma_parent_shorter(dir);
                }
                inherited(dirs, disk, root, p)
            },
            None => None,
        }
    }
}

/// The module for a Swift file that no module lists: that of a sibling in the
/// same directory, else of the nearest ancestor directory that has one.
pub open spec fn sibling_module(
    dirs: Map<Seq<char>, Seq<char>>,
    disk: DiskView,
    root: Option<Seq<char>>,
    key: Seq<char>,
) -> Option<Seq<char>> {
    match parent_of(key) {
        Some(dir) => inherited(dirs, disk, root, dir),
        None => None,
    }
}

/// The keys of the directories that the search from a directory may look at,
/// nearest first.
pub open spec fn searched(disk: DiskView, root: Option<Seq<char>>, dir: Seq<char>) -> Seq<Seq<char>>
    decreases dir.len(),
{
    let key = lowercase_text(dir);
    if ends_search(disk, root, key) {
        seq![key]
    } else {
        match parent_of(dir) {
            Some(p) => {
                proof {
                    lemma_parent_shorter(dir);
                }
                seq![key] + searched(disk, root, p)
            },
            None => seq![key],
        }
    }
}

/// The search for a sibling never leaves the project: it looks at no directory
/// above the first one that is the project root or holds a `.git`, and takes the
/// first that knows a module.
pub proof fn lemma_search_bounded(
    dirs: Map<Seq<char>, Seq<char>>,
    disk: DiskView,
    root: Option<Seq<char>>,
    dir: Seq<char>,
)
    ensures
        forall|i: int|
            0 <= i < searched(disk, root, dir).len() - 1 ==> !ends_search(
                disk,
                root,
                #[trigger] searched(disk, root, dir)[i],
            ),
        match inherited(dirs, disk, root, dir) {
            Some(m) => exists|i: int|
                0 <= i < searched(disk, root, dir).len() && dirs.dom().contains(
                    #[trigger] searched(disk, root, dir)[i],
                ) && dirs[searched(disk, root, dir)[i]] == m && forall|j: int|
                    0 <= j < i ==> !dirs.dom().contains(#[trigger] searched(disk, root, dir)[j]),
            None => forall|i: int|
                0 <= i < searched(disk, root, dir).len() ==> !dirs.dom().contains(
                    #[trigger] searched(disk, root, dir)[i],
                ),
        },
    decreases dir.len(),
{
    let key = lowercase_text(dir);
    let all = searched(disk, root, dir);
    assert(all[0] == key);
    if !ends_search(disk, root, key) {
        if let Some(p) = parent_of(dir) {
            lemma_parent_shorter(dir);
            lemma_search_bounded(dirs, disk, root, p);
            let rest = searched(disk, root, p);
            assert(all == seq![key] + rest);
            assert forall|i: int| 1 <= i < all.len() implies #[trigger] all[i] == rest[i - 1] by {}
            if !dirs.dom().contains(key) {
                if let Some(m) = inherited(dirs, disk, root, p) {
                    let i = choose|i: int|
                        0 <= i < rest.len() && dirs.dom().contains(#[trigger] rest[i])
                            && dirs[rest[i]] == m && forall|j: int|
                            0 <= j < i ==> !dirs.dom().contains(#[trigger] rest[j]);
                    assert(all[i + 1] == rest[i]);
                }
            }
        }
    }
}

/// Whether a path names a Swift file.
pub open spec fn is_swift_path(path: Seq<char>) -> bool {
    match extension_of(path) {
        Some(e) => same_ignoring_case(e, "swift"@),
        None => false,
    }
}

/// Compile arguments and working directory for a file.
pub open spec fn options_of(
    s: StoreView,
    disk: DiskView,
    path: Seq<char>,
    root: Option<Seq<char>>,
) -> Option<(Seq<Seq<char>>, Seq<char>)> {
    let key = disk.key(path);
    if s.owners.dom().contains(key) {
        let e = s.modules[s.owners[key]];
        Some((served(e, disk, None), e.working_dir))
    } else if !is_swift_path(path) {
        None
    } else {
        let root_key = match root {
            Some(r) => Some(disk.key(r)),
            None => None,
        };
        match sibling_module(s.dirs, disk, root_key, key) {
            Some(m) => Some((served(s.modules[m], disk, Some(path)), s.modules[m].working_dir)),
            None => None,
        }
    }
}

/// A module that a directory inherits is one that some directory knows.
proof fn lemma_inherited_known(
    s: StoreView,
    disk: DiskView,
    root: Option<Seq<char>>,
    dir: Seq<char>,
)
    requires
        s.wf(),
    ensures
        inherited(s.dirs, disk, root, dir) matches Some(m) ==> s.modules.dom().contains(m),
    decreases dir.len(),
{
    let key = lowercase_text(dir);
    if s.dirs.dom().contains(key) {
        assert(s.modules.dom().contains(s.dirs[key]));
    } else if let Some(p) = parent_of(dir) {
        lemma_parent_shorter(dir);
        lemma_inherited_known(s, disk, root, p);
    }
}

/// Whether an answer for a file is a module's arguments with the file behind them.
pub open spec fn borrows(
    s: StoreView,
    disk: DiskView,
    path: Seq<char>,
    m: Seq<char>,
    answer: (Seq<Seq<char>>, Seq<char>),
) -> bool {
    s.modules.dom().contains(m) && answer == (
        served(s.modules[m], disk, None).push(path),
        s.modules[m].working_dir,
    )
}

/// A file that no module lists yet is served only if it is a Swift file, and then
/// with the arguments of a module of the store and itself behind them.
pub proof fn lemma_new_file_served(
    s: StoreView,
    disk: DiskView,
    path: Seq<char>,
    root: Option<Seq<char>>,
)
    requires
        s.wf(),
        !s.owners.dom().contains(disk.key(path)),
    ensures
        options_of(s, disk, path, root) matches Some(answer) ==> is_swift_path(path) && exists|
            m: Seq<char>,
        | #[trigger]
            borrows(s, disk, path, m, answer),
{
    let key = disk.key(path);
    let root_key = match root {
        Some(r) => Some(disk.key(r)),
        None => None,
    };
    if let Some(answer) = options_of(s, disk, path, root) {
        let m = sibling_module(s.dirs, disk, root_key, key)->0;
        let dir = parent_of(key)->0;
        lemma_inherited_known(s, disk, root_key, dir);
        assert(borrows(s, disk, path, m, answer));
    }
}

/// Whether an argument is one that sourcekit-lsp cannot take.
pub open spec fn is_hostile(arg: Seq<char>) -> bool {
    arg == "-use-frontend-parseable-output"@ || arg == "-emit-localized-strings"@ || arg
        == "-emit-localized-strings-path"@
}

/// Replacing keeps a text without the pattern, and puts the replacement into any
/// other.
proof fn lemma_replaced(s: Seq<char>, p: Seq<char>, c: char)
    requires
        p.len() > 0,
    ensures
        replaced(s, p, seq![c]) == s || replaced(s, p, seq![c]).contains(c),
    decreases s.len(),
{
    if s.len() > 0 {
        if has_prefix(s, p) {
            let rest = replaced(s.skip(p.len() as int), p, seq![c]);
            assert((seq![c] + rest)[0] == c);
        } else {
            lemma_replaced(s.skip(1), p, c);
            let rest = replaced(s.skip(1), p, seq![c]);
            if rest == s.skip(1) {
                assert(seq![s[0]] + rest =~= s);
            } else {
                let k = choose|k: int| 0 <= k < rest.len() && rest[k] == c;
                assert((seq![s[0]] + rest)[k + 1] == c);
            }
        }
    }
}

/// Without response files, none of the arguments that are served is hostile.
pub proof fn lemma_hostile_dropped(entry: EntryView, disk: DiskView, i: int, k: int)
    requires
        forall|j: int|
            0 <= j < entry.args.len() ==> !((#[trigger] entry.args[j]).len() > 0
                && entry.args[j][0] == '@'),
        0 <= i,
        0 <= k < served_from(entry, disk, i).len(),
    ensures
        !is_hostile(served_from(entry, disk, i)[k]),
    decreases entry.args.len() + 1 - i,
{
    let arg = entry.args[i];
    if arg == "-emit-localized-strings-path"@ {
        lemma_hostile_dropped(entry, disk, i + 2, k);
    } else if arg == "-use-frontend-parseable-output"@ || arg == "-emit-localized-strings"@ {
        lemma_hostile_dropped(entry, disk, i + 1, k);
    } else if k > 0 {
        lemma_hostile_dropped(entry, disk, i + 1, k - 1);
        assert(served_from(entry, disk, i)[k] == served_from(entry, disk, i + 1)[k - 1]);
    } else {
        reveal_strlit("\\=");
        reveal_strlit("=");
        reveal_strlit("-use-frontend-parseable-output");
        reveal_strlit("-emit-localized-strings");
        reveal_strlit("-emit-localized-strings-path");
        assert("="@ =~= seq!['=']);
        lemma_replaced(arg, "\\="@, '=');
    }
}

/// Whether a path names a Swift file.
fn is_swift(path: &str) -> (r: bool)
    ensures
        r == is_swift_path(path@),
{
    match extension(path) {
        Some(e) => {
            let cs = chars_of(e.as_str());
            assert(cs@.subrange(0, cs@.len() as int) =~= e@);
            eq_ignore_case(cs.as_slice(), 0, cs.len(), "swift")
        },
        None => false,
    }
}

/// The directories above a file key, nearest first: where a `.git` would end the
/// search for a module.
pub fn ancestor_keys(key: &str) -> (r: Vec<String>)
    ensures
        texts(r@) == ancestors_of(key@),
{
    let mut r: Vec<String> = Vec::new();
    let mut current = owned(key);
    assert(texts(r@) + ancestors_of(key@) =~= ancestors_of(key@));
    loop
        invariant
            texts(r@) + ancestors_of(current@) == ancestors_of(key@),
        decreases current@.len(),
    {
        proof {
            lemma_parent_shorter(current@);
        }
        match parent(current.as_str()) {
            Some(p) => {
                let ghost done = texts(r@);
                let k = lowercase(p.as_str());
                push_text(&mut r, k.as_str());
                assert(texts(r@) + ancestors_of(p@) =~= done + ancestors_of(current@));
                current = p;
            },
            None => {
                assert(texts(r@) =~= ancestors_of(key@));
                return r;
            },
        }
    }
}

/// The keys of the directories above a path, nearest first.
pub open spec fn ancestors_of(path: Seq<char>) -> Seq<Seq<char>>
    decreases path.len(),
{
    match parent_of(path) {
        Some(p) => {
            proof {
                lemma_parent_shorter(path);
            }
            seq![lowercase_text(p)] + ancestors_of(p)
        },
        None => Seq::empty(),
    }
}

// ---------------------------------------------------------------------------
// merging and saving
// ---------------------------------------------------------------------------

/// What a store takes over from a saved one: everything where the version, the
/// build root and the scheme match, nothing otherwise.
pub open spec fn adopted(
    build_root: Seq<char>,
    scheme: Seq<char>,
    saved: Option<PersistedView>,
) -> (Map<Seq<char>, EntryView>, Option<Seq<char>>) {
    match saved {
        Some(p) => if p.version == STORE_VERSION && p.build_root == build_root && p.scheme
            == scheme {
            (p.modules, p.last_log)
        } else {
            (Map::empty(), None)
        },
        None => (Map::empty(), None),
    }
}

/// What is saved of a store.
pub open spec fn saved_of(s: StoreView) -> PersistedView {
    PersistedView {
        version: STORE_VERSION,
        build_root: s.build_root,
        scheme: s.scheme,
        modules: s.modules,
        last_log: s.last_log,
    }
}

/// A saved store is taken over whole for the same build root and scheme.
pub proof fn lemma_save_load_round_trip(s: StoreView)
    ensures
        adopted(s.build_root, s.scheme, Some(saved_of(s))) == (s.modules, s.last_log),
{
}

/// The mathematical value of a saved store that may be absent.
pub open spec fn saved_view(p: Option<Persisted>) -> Option<PersistedView> {
    match p {
        Some(p) => Some(p@),
        None => None,
    }
}

/// How a merge treats the persisted poll watermark, the newest build log that
/// has been folded in.
#[derive(Debug)]
pub enum Watermark {
    /// The poll loop owns the watermark: advance it to this log file name (only
    /// when the merge actually changed the store).
    Advance(Option<String>),
    /// The build pipeline ingests a different source and does not own the
    /// watermark: leave whatever is there.
    Keep,
}

/// The watermark after a merge.
pub open spec fn watermark_after(
    w: Watermark,
    before: Option<Seq<char>>,
    changed: bool,
) -> Option<Seq<char>> {
    match w {
        Watermark::Advance(to) => if changed {
            opt_view(to)
        } else {
            before
        },
        Watermark::Keep => before,
    }
}

/// Result of [`CompileStore::merge_save_locked`].
#[derive(Debug)]
pub struct LockedMerge {
    /// The store as it is to sit on disk.
    pub store: CompileStore,
    /// The store file's mtime in nanoseconds, to be read right after the save.
    pub mtime: Option<i128>,
    /// Whether a non-empty merge actually changed the store: it is then saved.
    pub changed: bool,
}

/// The modules of some groups.
pub open spec fn groups_view(groups: Seq<Vec<ParsedModule>>) -> Seq<Seq<ModuleView>> {
    Seq::new(groups.len(), |i: int| modules_view(groups[i]@))
}

/// Whether one of the first `n` modules has a name; one without is not merged.
pub open spec fn any_named(parsed: Seq<ModuleView>, n: int) -> bool {
    exists|i: int| 0 <= i < n && (#[trigger] parsed[i]).name.len() > 0
}

/// Whether one of the first `n` groups holds a module that is merged.
pub open spec fn any_module(groups: Seq<Seq<ModuleView>>, n: int) -> bool {
    exists|i: int| 0 <= i < n && any_named(#[trigger] groups[i], groups[i].len() as int)
}

/// Modules without a name leave a store as it is.
proof fn lemma_unnamed_merged(
    modules: Map<Seq<char>, EntryView>,
    parsed: Seq<ModuleView>,
    n: int,
)
    requires
        0 <= n <= parsed.len(),
        !any_named(parsed, parsed.len() as int),
    ensures
        merged(modules, parsed, n) == modules,
    decreases n,
{
    if n > 0 {
        lemma_unnamed_merged(modules, parsed, n - 1);
        assert(!(parsed[n - 1].name.len() > 0));
    }
}

/// A merge that counts as no change leaves the modules of a store as they are.
pub proof fn lemma_no_change(
    modules: Map<Seq<char>, EntryView>,
    groups: Seq<Seq<ModuleView>>,
    n: int,
)
    requires
        0 <= n <= groups.len(),
        !any_module(groups, n),
    ensures
        merged_groups(modules, groups, n) == modules,
    decreases n,
{
    if n > 0 {
        assert forall|i: int| 0 <= i < n - 1 implies !any_named(
            #[trigger] groups[i],
            groups[i].len() as int,
        ) by {
            assert(0 <= i < n);
        }
        lemma_no_change(modules, groups, n - 1);
        let group = groups[n - 1];
        assert(!any_named(group, group.len() as int));
        lemma_unnamed_merged(modules, group, group.len() as int);
    }
}

/// Whether one of some modules has a name.
fn has_named(parsed: &Vec<ParsedModule>) -> (r: bool)
    ensures
        r == any_named(modules_view(parsed@), parsed@.len() as int),
{
    let ghost pv = modules_view(parsed@);
    let mut i: usize = 0;
    while i < parsed.len()
        invariant
            i <= parsed.len(),
            pv == modules_view(parsed@),
            forall|k: int| 0 <= k < i ==> (#[trigger] pv[k]).name.len() == 0,
        decreases parsed.len() - i,
    {
        assert(pv[i as int] == parsed@[i as int]@);
        if !parsed[i].module_name.as_str().is_empty() {
            assert(pv[i as int].name.len() > 0);
            return true;
        }
        i = i + 1;
    }
    false
}

/// Whether some groups hold a module to merge.
pub fn merges_anything(parsed: &Vec<Vec<ParsedModule>>) -> (r: bool)
    ensures
        r == any_module(groups_view(parsed@), parsed@.len() as int),
{
    let ghost gv = groups_view(parsed@);
    let mut i: usize = 0;
    while i < parsed.len()
        invariant
            i <= parsed.len(),
            gv == groups_view(parsed@),
            forall|k: int| 0 <= k < i ==> !any_named(#[trigger] gv[k], gv[k].len() as int),
        decreases parsed.len() - i,
    {
        assert(gv[i as int] == modules_view(parsed@[i as int]@));
        assert(gv[i as int].len() == parsed@[i as int]@.len());
        if has_named(&parsed[i]) {
            return true;
        }
        i = i + 1;
    }
    false
}

impl CompileStore {
    /// The parts are in order, and the indexes lead to modules.
    pub closed spec fn wf(&self) -> bool {
        self.modules.wf() && self.file_index.wf() && self.dir_index.wf() && self@.wf()
    }

    /// What well-formedness says of the mathematical value.
    pub proof fn lemma_wf(&self)
        requires
            self.wf(),
        ensures
            self@.wf(),
    {
    }

    /// An empty store for an (absolute) build root and a scheme.
    pub fn new(build_root: &str, scheme: &str) -> (r: CompileStore)
        ensures
            r.wf(),
            r@.build_root == build_root@,
            r@.scheme == scheme@,
            r@.modules == Map::<Seq<char>, EntryView>::empty(),
            r@.last_log is None,
            r@.owners == Map::<Seq<char>, Seq<char>>::empty(),
            r@.dirs == Map::<Seq<char>, Seq<char>>::empty(),
    {
        let r = CompileStore {
            build_root: owned(build_root),
            scheme: owned(scheme),
            modules: NameMap::new(),
            last_log: None,
            file_index: NameMap::new(),
            dir_index: NameMap::new(),
        };
        assert(r@.modules =~= Map::<Seq<char>, EntryView>::empty());
        assert(r@.owners =~= Map::<Seq<char>, Seq<char>>::empty());
        assert(r@.dirs =~= Map::<Seq<char>, Seq<char>>::empty());
        r
    }

    /// The cache file for an (absolute) build root and a scheme, under the
    /// tool's home directory.
    pub fn store_path(home: &str, build_root: &str, scheme: &str) -> (r: String)
        ensures
            r@ == joined(
                joined(home@, "cache"@),
                store_name(
                    fnv1a(build_root.spec_bytes()),
                    fnv1a(scheme.spec_bytes()),
                    sanitized(scheme@),
                ),
            ),
    {
        let cache = join(home, "cache");
        join(cache.as_str(), store_file_name(build_root, scheme).as_str())
    }

    /// Rebuild the indexes from the modules, as the file system stands.
    fn rebuild_indexes(&mut self, disk: &Disk)
        requires
            old(self).modules.wf(),
            disk.wf(),
        ensures
            final(self).wf(),
            final(self)@.indexed(disk@),
            final(self)@.build_root == old(self)@.build_root,
            final(self)@.scheme == old(self)@.scheme,
            final(self)@.modules == old(self)@.modules,
            final(self)@.last_log == old(self)@.last_log,
    {
        self.file_index = index_owners(&self.modules, disk);
        self.dir_index = index_dirs(&self.file_index);
        proof {
            let s = self@;
            assert forall|k: Seq<char>| #[trigger]
                s.owners.dom().contains(k) implies s.modules.dom().contains(s.owners[k]) by {
                assert(owns(s.modules, disk@, s.owners[k], k));
            }
            assert forall|d: Seq<char>| #[trigger]
                s.dirs.dom().contains(d) implies s.modules.dom().contains(s.dirs[d]) by {
                let k = choose|k: Seq<char>| #[trigger]
                    s.owners.dom().contains(k) && swift_in(k, d) && s.dirs[d] == s.owners[k];
                assert(owns(s.modules, disk@, s.owners[k], k));
            }
        }
    }

    /// The store for an (absolute) build root and a scheme, out of what was
    /// saved. A missing, corrupt or mismatched file yields an empty store: a
    /// broken cache must never break serving.
    pub fn load(build_root: &str, scheme: &str, saved: Option<Persisted>, disk: &Disk) -> (r:
        CompileStore)
        requires
            disk.wf(),
            saved matches Some(p) ==> p.modules.wf(),
        ensures
            r.wf(),
            r@.build_root == build_root@,
            r@.scheme == scheme@,
            (r@.modules, r@.last_log) == adopted(build_root@, scheme@, saved_view(saved)),
            r@.indexed(disk@),
    {
        let mut r = CompileStore::new(build_root, scheme);
        if let Some(p) = saved {
            if p.version == STORE_VERSION && str_eq(p.build_root.as_str(), build_root) && str_eq(
                p.scheme.as_str(),
                scheme,
            ) {
                r.modules = p.modules;
                r.last_log = p.last_log;
            }
        }
        r.rebuild_indexes(disk);
        r
    }

    /// What is to be saved of the store.
    pub fn persisted(&self) -> (r: Persisted)
        requires
            self.wf(),
        ensures
            r.modules.wf(),
            r@ == saved_of(self@),
    {
        let mut modules: NameMap<ModuleEntry> = NameMap::new();
        let n: usize = self.modules.len();
        let ghost names = self.modules.names();
        let mut i: usize = 0;
        proof {
            self.modules.lemma_names();
        }
        while i < n
            invariant
                i <= n,
                n == names.len(),
                self.modules.wf(),
                names == self.modules.names(),
                names.no_duplicates(),
                forall|k: int|
                    0 <= k < names.len() ==> self.modules@.dom().contains(#[trigger] names[k]),
                modules.wf(),
                forall|k: Seq<char>| #[trigger]
                    modules@.dom().contains(k) <==> among(names, i as int, k),
                forall|k: Seq<char>| #[trigger]
                    modules@.dom().contains(k) ==> modules@[k]@ == self.modules@[k]@,
            decreases n - i,
        {
            let ghost before = modules@;
            modules.insert(self.modules.name(i), self.modules.value(i).copy());
            proof {
                assert forall|k: Seq<char>| #[trigger]
                    modules@.dom().contains(k) <==> among(names, i + 1, k) by {
                    if before.dom().contains(k) {
                        let t = choose|t: int| 0 <= t < i && #[trigger] names[t] == k;
                        assert(names[t] == k);
                    }
                    assert(names[i as int] == names[i as int]);
                    if among(names, i + 1, k) && k != names[i as int] {
                        let t = choose|t: int| 0 <= t < i + 1 && #[trigger] names[t] == k;
                        assert(t < i);
                        assert(among(names, i as int, k));
                    }
                }
            }
            i = i + 1;
        }
        proof {
            assert forall|k: Seq<char>| #[trigger]
                modules@.dom().contains(k) <==> self.modules@.dom().contains(k) by {
                if self.modules@.dom().contains(k) {
                    let t = names.index_of(k);
                    assert(names[t] == k);
                    assert(among(names, n as int, k));
                }
            }
            assert(entries_view(modules@) =~= entries_view(self.modules@));
        }
        Persisted {
            version: STORE_VERSION,
            build_root: owned(self.build_root.as_str()),
            scheme: owned(self.scheme.as_str()),
            modules,
            last_log: copy_opt(&self.last_log),
        }
    }

    /// Merge parsed modules in, replacing the entries for the modules present
    /// and keeping every other module.
    fn merge_in(&mut self, parsed: &Vec<ParsedModule>, disk: &Disk)
        requires
            old(self).wf(),
            disk.wf(),
        ensures
            final(self).wf(),
            final(self)@.build_root == old(self)@.build_root,
            final(self)@.scheme == old(self)@.scheme,
            final(self)@.last_log == old(self)@.last_log,
            final(self)@.modules == merged(
                old(self)@.modules,
                modules_view(parsed@),
                parsed@.len() as int,
            ),
            if parsed@.len() == 0 {
                final(self)@ == old(self)@
            } else {
                final(self)@.indexed(disk@)
            },
    {
        if parsed.len() == 0 {
            return;
        }
        let ghost pv = modules_view(parsed@);
        let ghost before = self@.modules;
        let mut i: usize = 0;
        while i < parsed.len()
            invariant
                i <= parsed.len(),
                pv == modules_view(parsed@),
                self.modules.wf(),
                self@.build_root == old(self)@.build_root,
                self@.scheme == old(self)@.scheme,
                self@.last_log == old(self)@.last_log,
                self@.modules == merged(before, pv, i as int),
            decreases parsed.len() - i,
        {
            assert(pv[i as int] == parsed@[i as int]@);
            if !parsed[i].module_name.as_str().is_empty() {
                let entry = stored_entry(&parsed[i]);
                proof {
                    lemma_entries_insert(self.modules@, parsed@[i as int].module_name@, entry);
                }
                self.modules.insert(parsed[i].module_name.as_str(), entry);
            }
            i = i + 1;
        }
        self.rebuild_indexes(disk);
    }

    /// Merge parsed modules in, replacing the entries for the modules present
    /// and keeping every other module. A zero-module parse is a strict no-op: a
    /// clean rebuild whose log yielded nothing must not wipe the store.
    pub fn merge(&mut self, parsed: Vec<ParsedModule>, disk: &Disk)
        requires
            old(self).wf(),
            disk.wf(),
        ensures
            final(self).wf(),
            final(self)@.build_root == old(self)@.build_root,
            final(self)@.scheme == old(self)@.scheme,
            final(self)@.last_log == old(self)@.last_log,
            final(self)@.modules == merged(
                old(self)@.modules,
                modules_view(parsed@),
                parsed@.len() as int,
            ),
            if parsed@.len() == 0 {
                final(self)@ == old(self)@
            } else {
                final(self)@.indexed(disk@)
            },
    {
        self.merge_in(&parsed, disk);
    }

    /// Fold freshly parsed groups of modules into what is saved, the watermark
    /// included. The caller holds the store's lock from reading what is saved to
    /// writing the result, so that a concurrent writer's modules are read in,
    /// never lost. Where no group holds a module with a name nothing changes, the
    /// watermark does not move, and nothing is to be written.
    pub fn merge_save_locked(
        build_root: &str,
        scheme: &str,
        saved: Option<Persisted>,
        parsed: &Vec<Vec<ParsedModule>>,
        watermark: Watermark,
        disk: &Disk,
    ) -> (r: LockedMerge)
        requires
            disk.wf(),
            saved matches Some(p) ==> p.modules.wf(),
        ensures
            r.store.wf(),
            r.mtime is None,
            r.changed == any_module(groups_view(parsed@), parsed@.len() as int),
            r.store@.build_root == build_root@,
            r.store@.scheme == scheme@,
            r.store@.modules == merged_groups(
                adopted(build_root@, scheme@, saved_view(saved)).0,
                groups_view(parsed@),
                parsed@.len() as int,
            ),
            r.store@.last_log == watermark_after(
                watermark,
                adopted(build_root@, scheme@, saved_view(saved)).1,
                r.changed,
            ),
            !r.changed ==> r.store@.modules == adopted(build_root@, scheme@, saved_view(saved)).0,
            r.store@.indexed(disk@),
    {
        let ghost gv = groups_view(parsed@);
        let ghost start = adopted(build_root@, scheme@, saved_view(saved));
        let mut store = CompileStore::load(build_root, scheme, saved, disk);
        let changed = merges_anything(parsed);
        let mut i: usize = 0;
        while i < parsed.len()
            invariant
                i <= parsed.len(),
                gv == groups_view(parsed@),
                disk.wf(),
                store.wf(),
                store@.build_root == build_root@,
                store@.scheme == scheme@,
                store@.last_log == start.1,
                store@.modules == merged_groups(start.0, gv, i as int),
                store@.indexed(disk@),
            decreases parsed.len() - i,
        {
            assert(gv[i as int] == modules_view(parsed@[i as int]@));
            assert(gv[i as int].len() == parsed@[i as int]@.len());
            store.merge_in(&parsed[i], disk);
            i = i + 1;
        }
        proof {
            if !changed {
                lemma_no_change(start.0, gv, parsed@.len() as int);
            }
        }
        match watermark {
            Watermark::Advance(to) => {
                if changed {
                    store.set_last_ingested_log(to);
                }
            },
            Watermark::Keep => {},
        }
        LockedMerge { store, mtime: None, changed }
    }

    /// Compile arguments and working directory for a file, or `None` for a file
    /// that no module can be inferred for. A known file serves its module's
    /// arguments; an unknown `.swift` file borrows those of a sibling's module
    /// (same directory, else the nearest ancestor up to the project root or a
    /// `.git`).
    pub fn options_for_file(&self, path: &str, project_root: Option<&str>, disk: &Disk) -> (r: Option<
        (Vec<String>, String),
    >)
        requires
            self.wf(),
            disk.wf(),
        ensures
            match r {
                Some(o) => options_of(self@, disk@, path@, opt_str_view(project_root)) == Some(
                    (texts(o.0@), o.1@),
                ),
                None => options_of(self@, disk@, path@, opt_str_view(project_root)) is None,
            },
    {
        let key = disk.file_key(path);
        if let Some(name) = self.file_index.get(key.as_str()) {
            assert(self@.owners.dom().contains(key@));
            match self.modules.get(name.as_str()) {
                Some(e) => {
                    return Some((serve_args(e, disk, None), owned(e.working_dir.as_str())));
                },
                None => {
                    return None;
                },
            }
        }
        if !is_swift(path) {
            return None;
        }
        let root_key = match project_root {
            Some(r) => Some(disk.file_key(r)),
            None => None,
        };
        match self.new_file_module(key.as_str(), &root_key, disk) {
            Some(name) => match self.modules.get(name.as_str()) {
                Some(e) => Some(
                    (serve_args(e, disk, Some(path)), owned(e.working_dir.as_str())),
                ),
                None => None,
            },
            None => None,
        }
    }

    /// The module for a Swift file that no module lists.
    fn new_file_module(&self, key: &str, root_key: &Option<String>, disk: &Disk) -> (r: Option<
        String,
    >)
        requires
            self.wf(),
            disk.wf(),
        ensures
            opt_view(r) == sibling_module(self@.dirs, disk@, opt_view(*root_key), key@),
            r matches Some(m) ==> self@.modules.dom().contains(m@),
    {
        let mut current = match parent(key) {
            Some(d) => d,
            None => return None,
        };
        loop
            invariant
                self.wf(),
                disk.wf(),
                inherited(self@.dirs, disk@, opt_view(*root_key), current@) == sibling_module(
                    self@.dirs,
                    disk@,
                    opt_view(*root_key),
                    key@,
                ),
            decreases current@.len(),
        {
            proof {
                lemma_parent_shorter(current@);
            }
            let k = lowercase(current.as_str());
            if let Some(m) = self.dir_index.get(k.as_str()) {
                assert(self@.dirs.dom().contains(k@));
                return Some(owned(m.as_str()));
            }
            let at_root = match root_key {
                Some(r) => str_eq(r.as_str(), k.as_str()),
                None => false,
            };
            if at_root || disk.is_repo(k.as_str()) {
                return None;
            }
            current = match parent(current.as_str()) {
                Some(p) => p,
                None => return None,
            };
        }
    }

    /// How many modules the store holds.
    pub fn module_count(&self) -> (r: usize)
        requires
            self.wf(),
        ensures
            r == self@.modules.dom().len(),
    {
        proof {
            self.modules.lemma_names();
            let names = self.modules.names();
            assert(self@.modules.dom() =~= names.to_set());
            names.unique_seq_to_set();
        }
        self.modules.len()
    }

    /// Whether the store holds no module.
    pub fn is_empty(&self) -> (r: bool)
        requires
            self.wf(),
        ensures
            r == (self@.modules == Map::<Seq<char>, EntryView>::empty()),
    {
        proof {
            self.modules.lemma_names();
            let names = self.modules.names();
            if names.len() == 0 {
                assert(self@.modules =~= Map::<Seq<char>, EntryView>::empty());
            } else {
                assert(self@.modules.dom().contains(names[0]));
            }
        }
        self.modules.len() == 0
    }

    /// Newest build-log file name ingested into this store (the poll
    /// watermark), or `None` if never set.
    pub fn last_ingested_log(&self) -> (r: Option<&str>)
        ensures
            opt_str_view(r) == self@.last_log,
    {
        as_opt_str(&self.last_log)
    }

    /// Set the poll watermark.
    pub fn set_last_ingested_log(&mut self, name: Option<String>)
        requires
            old(self).wf(),
        ensures
            final(self).wf(),
            final(self)@ == (StoreView { last_log: opt_view(name), ..old(self)@ }),
    {
        self.last_log = name;
    }

    /// The entry of a module.
    pub fn module(&self, name: &str) -> (r: Option<&ModuleEntry>)
        requires
            self.wf(),
        ensures
            match r {
                Some(e) => self@.modules.dom().contains(name@) && e@ == self@.modules[name@],
                None => !self@.modules.dom().contains(name@),
            },
    {
        self.modules.get(name)
    }

    /// The entries, in the order of the module names.
    pub fn entry(&self, i: usize) -> (r: Option<&ModuleEntry>)
        requires
            self.wf(),
        ensures
            r is Some <==> i < self@.modules.dom().len(),
            r matches Some(e) ==> exists|k: Seq<char>| #[trigger]
                self@.modules.dom().contains(k) && self@.modules[k] == e@,
    {
        let n = self.module_count();
        proof {
            self.modules.lemma_names();
            let names = self.modules.names();
            assert(self@.modules.dom() =~= names.to_set());
            names.unique_seq_to_set();
        }
        if i < n {
            assert(self@.modules.dom().contains(self.modules.names()[i as int]));
            Some(self.modules.value(i))
        } else {
            None
        }
    }
}

} // verus!
