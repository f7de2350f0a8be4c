//! The session of the build server, and what keeps its compile store fresh: a
//! cold start that replays the retained build logs, then a poll that folds in
//! each new build and notices a rewritten `buildServer.json` or store.

use crate::bsp::server::options_view;
use crate::bsp::server::source_kit_options;
use crate::bsp::server::BsConfig;
use crate::bsp::server::BsConfigView;
use crate::bsp::uri::uri_bytes;
use crate::bsp::uri::uri_to_path;
use crate::commands::refresh::own_opt;
use crate::engine::compile_store::options_of;
use crate::engine::compile_store::CompileStore;
use crate::engine::compile_store::EntryView;
use crate::engine::compile_store::LockedMerge;
use crate::engine::compile_store::StoreView;
use crate::engine::disk::Disk;
use crate::engine::disk::DiskView;
use crate::json::Json;
use crate::json::JsonView;
use crate::setup::build_server::opt_text_eq;
use crate::text::copy_texts;
use crate::text::lossy_text;
use crate::text::opt_str_view;
use crate::text::opt_view;
use crate::text::owned;
use crate::text::str_eq;
use crate::text::texts;
use crate::text::texts_from;
use crate::util::paths::file_name;
use crate::util::paths::file_name_of;
use crate::util::paths::join;
use crate::util::paths::joined;
use crate::util::paths::paths_eq;
use crate::util::paths::same_path;
use vstd::prelude::*;

verus! {

/// How long between two polls, in milliseconds.
pub const POLL_INTERVAL_MS: u64 = 1000;

/// How long a request for options waits for the cold start, in milliseconds.
pub const BOOTSTRAP_WAIT_MS: u64 = 60_000;

// ---------------------------------------------------------------------------
// pending logs
// ---------------------------------------------------------------------------

/// The first log, from `i` on, of a file name.
pub open spec fn log_named(logs: Seq<Seq<char>>, name: Seq<char>, i: int) -> Option<int>
    decreases logs.len() - i,
{
    if i < 0 || i >= logs.len() {
        None
    } else if file_name_of(logs[i]) == Some(name) {
        Some(i)
    } else {
        log_named(logs, name, i + 1)
    }
}

/// The logs still to ingest, of all logs from the oldest to the newest: those
/// behind the watermark; all of them without one; the newest alone where the
/// watermark is gone.
pub open spec fn after_watermark(logs: Seq<Seq<char>>, watermark: Option<Seq<char>>) -> Seq<Seq<char>> {
    match watermark {
        None => logs,
        Some(w) => match log_named(logs, w, 0) {
            Some(i) => logs.skip(i + 1),
            None => if logs.len() == 0 {
                logs
            } else {
                logs.skip(logs.len() - 1)
            },
        },
    }
}

/// Whether the file name of a path is `name`.
fn is_named(path: &str, name: &str) -> (r: bool)
    ensures
        r == (file_name_of(path@) == Some(name@)),
{
    match file_name(path) {
        Some(n) => str_eq(n.as_str(), name),
        None => false,
    }
}

/// The logs still to ingest.
pub fn logs_after_watermark(logs: &Vec<String>, watermark: Option<&str>) -> (r: Vec<String>)
    ensures
        texts(r@) == after_watermark(texts(logs@), opt_str_view(watermark)),
{
    let ghost lv = texts(logs@);
    let w = match watermark {
        Some(w) => w,
        None => return copy_texts(logs),
    };
    let mut i: usize = 0;
    while i < logs.len()
        invariant
            i <= logs.len(),
            lv == texts(logs@),
            watermark == Some(w),
            log_named(lv, w@, 0) == log_named(lv, w@, i as int),
        decreases logs.len() - i,
    {
        assert(lv[i as int] == logs@[i as int]@);
        if is_named(logs[i].as_str(), w) {
            return texts_from(logs, i + 1);
        }
        i = i + 1;
    }
    if logs.len() == 0 {
        copy_texts(logs)
    } else {
        texts_from(logs, logs.len() - 1)
    }
}

/// What is found is the first log of that name.
pub proof fn lemma_log_named(logs: Seq<Seq<char>>, name: Seq<char>, i: int)
    requires
        0 <= i,
    ensures
        match log_named(logs, name, i) {
            Some(k) => i <= k < logs.len() && file_name_of(logs[k]) == Some(name) && forall|j: int|
                i <= j < k ==> file_name_of(#[trigger] logs[j]) != Some(name),
            None => forall|j: int|
                i <= j < logs.len() ==> file_name_of(#[trigger] logs[j]) != Some(name),
        },
    decreases logs.len() - i,
{
    if i < logs.len() && file_name_of(logs[i]) != Some(name) {
        lemma_log_named(logs, name, i + 1);
    }
}

/// What is pending is the end of the list, so that no log between is skipped, and
/// once it is ingested up to the newest log nothing is pending any more.
pub proof fn lemma_pending_drained(logs: Seq<Seq<char>>, watermark: Option<Seq<char>>, name: Seq<char>)
    requires
        logs.len() > 0,
        file_name_of(logs.last()) == Some(name),
        forall|i: int|
            0 <= i < logs.len() - 1 ==> file_name_of(#[trigger] logs[i]) != Some(name),
    ensures
        exists|k: int| 0 <= k <= logs.len() && after_watermark(logs, watermark) == #[trigger] logs.skip(k),
        after_watermark(logs, Some(name)).len() == 0,
{
    let n = logs.len() as int;
    lemma_log_named(logs, name, 0);
    assert(logs[n - 1] == logs.last());
    assert(logs.skip(0) =~= logs);
    if let Some(w) = watermark {
        lemma_log_named(logs, w, 0);
    }
}

// ---------------------------------------------------------------------------
// the session
// ---------------------------------------------------------------------------

/// What the build server keeps between messages.
#[derive(Debug)]
pub struct Session {
    /// Project root.
    pub root: String,
    /// The root URI as the client wrote it.
    pub root_uri: Option<String>,
    pub build_server_path: String,
    pub build_root: Option<String>,
    pub scheme: Option<String>,
    pub workspace: Option<String>,
    pub store: Option<CompileStore>,
    /// File name of the newest build log that was ingested.
    pub watermark: Option<String>,
    /// Modification time of `buildServer.json` when it was last read.
    pub bs_mtime: Option<i128>,
    /// Modification time of the store file when it was last written or read.
    pub store_mtime: Option<i128>,
}

/// The mathematical value of a [`Session`].
pub struct SessionView {
    pub root: Seq<char>,
    pub root_uri: Option<Seq<char>>,
    pub build_server_path: Seq<char>,
    pub build_root: Option<Seq<char>>,
    pub scheme: Option<Seq<char>>,
    pub workspace: Option<Seq<char>>,
    pub store: Option<StoreView>,
    pub watermark: Option<Seq<char>>,
    pub bs_mtime: Option<i128>,
    pub store_mtime: Option<i128>,
}

/// The mathematical value of a store that may be absent.
pub open spec fn opt_store(s: Option<CompileStore>) -> Option<StoreView> {
    match s {
        Some(s) => Some(s@),
        None => None,
    }
}

impl View for Session {
    type V = SessionView;

    open spec fn view(&self) -> SessionView {
        SessionView {
            root: self.root@,
            root_uri: opt_view(self.root_uri),
            build_server_path: self.build_server_path@,
            build_root: opt_view(self.build_root),
            scheme: opt_view(self.scheme),
            workspace: opt_view(self.workspace),
            store: opt_store(self.store),
            watermark: opt_view(self.watermark),
            bs_mtime: self.bs_mtime,
            store_mtime: self.store_mtime,
        }
    }
}

impl SessionView {
    /// Whether the session is for a build root and a scheme.
    pub open spec fn is_for(self, build_root: Seq<char>, scheme: Seq<char>) -> bool {
        same_root(self.build_root, Some(build_root)) && self.scheme == Some(scheme)
    }

    /// The store is that of the scheme, and there is one where the build root and
    /// the scheme are known.
    pub open spec fn in_step(self) -> bool {
        store_fits(self.build_root, self.scheme, self.store)
    }
}

/// Whether two build roots, where there are any, are the same path.
pub open spec fn same_root(a: Option<Seq<char>>, b: Option<Seq<char>>) -> bool {
    match (a, b) {
        (Some(x), Some(y)) => same_path(x, y),
        (None, None) => true,
        _ => false,
    }
}

/// Whether a configuration is for another build root or scheme than a session.
pub open spec fn goes_over(s: SessionView, cfg: BsConfigView) -> bool {
    !same_root(cfg.build_root, s.build_root) || cfg.scheme != s.scheme
}

/// Whether a store can be that of a build root and a scheme: there is one where
/// both are known, and only there. The build root is held as it was recorded; the
/// store holds it made absolute.
pub open spec fn store_fits(
    build_root: Option<Seq<char>>,
    scheme: Option<Seq<char>>,
    store: Option<StoreView>,
) -> bool {
    match store {
        Some(s) => build_root is Some && scheme == Some(s.scheme),
        None => build_root is None || scheme is None,
    }
}

/// The newest log that a store holds.
pub open spec fn last_log_of(store: Option<StoreView>) -> Option<Seq<char>> {
    match store {
        Some(s) => s.last_log,
        None => None,
    }
}

/// How the store is brought up at the start.
#[derive(Clone, Copy, Debug, PartialEq, Eq, Structural)]
pub enum Bootstrap {
    /// There is no build root or no scheme.
    Skip,
    /// The store holds modules already; the poll catches up.
    Warm,
    /// Replay all retained logs, from the oldest to the newest.
    Cold,
}

/// The project root: the path of the root URI, or else the current directory.
pub open spec fn root_of_project(root_uri: Option<Seq<char>>, cwd: Seq<char>) -> Seq<char> {
    match root_uri {
        Some(u) => lossy_text(uri_bytes(u)),
        None => cwd,
    }
}

/// A session anchored to a project root.
pub open spec fn anchored(
    s: SessionView,
    root_uri: Option<Seq<char>>,
    root: Seq<char>,
    cfg: BsConfigView,
    bs_mtime: Option<i128>,
    store: Option<StoreView>,
) -> SessionView {
    SessionView {
        root,
        root_uri,
        build_server_path: joined(root, "buildServer.json"@),
        build_root: cfg.build_root,
        scheme: cfg.scheme,
        workspace: cfg.workspace,
        store,
        watermark: last_log_of(store),
        bs_mtime,
        store_mtime: s.store_mtime,
    }
}

/// How a store is brought up at the start.
pub open spec fn bootstrap_of(store: Option<StoreView>) -> Bootstrap {
    match store {
        None => Bootstrap::Skip,
        Some(s) => if s.modules == Map::<Seq<char>, EntryView>::empty() {
            Bootstrap::Cold
        } else {
            Bootstrap::Warm
        },
    }
}

/// Whether the newest log is not the one that was ingested last.
pub open spec fn ingest_needed(watermark: Option<Seq<char>>, newest: Option<Seq<char>>) -> bool {
    match newest {
        Some(n) => file_name_of(n) != watermark,
        None => false,
    }
}

/// A session with a store for a build root and a scheme, where it is still for these.
pub open spec fn with_store(
    s: SessionView,
    build_root: Seq<char>,
    scheme: Seq<char>,
    store: StoreView,
    mtime: Option<i128>,
    watermark: Option<Seq<char>>,
) -> SessionView {
    if s.is_for(build_root, scheme) {
        SessionView { store: Some(store), store_mtime: mtime, watermark, ..s }
    } else {
        s
    }
}

/// A session with a changed configuration, and the store for it where it goes over to
/// another build root or scheme.
pub open spec fn with_config(
    s: SessionView,
    cfg: BsConfigView,
    mtime: Option<i128>,
    store: Option<StoreView>,
    store_mtime: Option<i128>,
) -> SessionView {
    let now = SessionView {
        bs_mtime: mtime,
        build_root: cfg.build_root,
        scheme: cfg.scheme,
        workspace: cfg.workspace,
        ..s
    };
    if goes_over(s, cfg) {
        SessionView { store, watermark: last_log_of(store), store_mtime, ..now }
    } else {
        now
    }
}

/// The answer to a request for the options of a document.
pub open spec fn options_answer(
    s: SessionView,
    disk: DiskView,
    uri: Option<Seq<char>>,
) -> JsonView {
    match (uri, s.store) {
        (Some(u), Some(store)) => options_view(
            options_of(store, disk, lossy_text(uri_bytes(u)), Some(s.root)),
        ),
        _ => JsonView::Null,
    }
}

/// The project root: the path of the root URI, or else the current directory.
pub fn project_root(root_uri: Option<&str>, cwd: &str) -> (r: String)
    ensures
        r@ == root_of_project(opt_str_view(root_uri), cwd@),
{
    match root_uri {
        Some(u) => uri_to_path(u),
        None => owned(cwd),
    }
}

/// The newest log that a store holds.
fn last_log(store: &Option<CompileStore>) -> (r: Option<String>)
    ensures
        opt_view(r) == last_log_of(opt_store(*store)),
{
    match store {
        Some(s) => own_opt(s.last_ingested_log()),
        None => None,
    }
}

/// Whether a text that may be absent is `s`.
fn is_text(o: &Option<String>, s: &str) -> (r: bool)
    ensures
        r == (opt_view(*o) == Some(s@)),
{
    match o {
        Some(t) => str_eq(t.as_str(), s),
        None => false,
    }
}

impl Session {
    /// The store, where there is one, is in order, and the session is in step
    /// with it.
    pub open spec fn wf(&self) -> bool {
        (self.store matches Some(s) ==> s.wf()) && self@.in_step()
    }

    /// The session before the client has said anything.
    pub fn new(cwd: &str) -> (r: Session)
        ensures
            r.wf(),
            r@ == (SessionView {
                root: cwd@,
                root_uri: None,
                build_server_path: joined(cwd@, "buildServer.json"@),
                build_root: None,
                scheme: None,
                workspace: None,
                store: None,
                watermark: None,
                bs_mtime: None,
                store_mtime: None,
            }),
    {
        Session {
            root: owned(cwd),
            root_uri: None,
            build_server_path: join(cwd, "buildServer.json"),
            build_root: None,
            scheme: None,
            workspace: None,
            store: None,
            watermark: None,
            bs_mtime: None,
            store_mtime: None,
        }
    }

    /// Anchor the session to a project root, with what its `buildServer.json`
    /// configures and the store that was loaded for it.
    pub fn initialize(
        &mut self,
        root_uri: Option<String>,
        root: String,
        cfg: BsConfig,
        bs_mtime: Option<i128>,
        store: Option<CompileStore>,
    )
        requires
            store matches Some(s) ==> s.wf(),
            store_fits(cfg@.build_root, cfg@.scheme, opt_store(store)),
        ensures
            final(self).wf(),
            final(self)@ == anchored(
                old(self)@,
                opt_view(root_uri),
                root@,
                cfg@,
                bs_mtime,
                opt_store(store),
            ),
    {
        self.watermark = last_log(&store);
        self.build_server_path = join(root.as_str(), "buildServer.json");
        self.root = root;
        self.root_uri = root_uri;
        self.build_root = cfg.build_root;
        self.scheme = cfg.scheme;
        self.workspace = cfg.workspace;
        self.bs_mtime = bs_mtime;
        self.store = store;
    }

    /// How the store is brought up at the start.
    pub fn bootstrap(&self) -> (r: Bootstrap)
        requires
            self.wf(),
        ensures
            r == bootstrap_of(self@.store),
    {
        match &self.store {
            None => Bootstrap::Skip,
            Some(s) => if s.is_empty() {
                Bootstrap::Cold
            } else {
                Bootstrap::Warm
            },
        }
    }

    /// Note the time of the store file.
    pub fn note_store_mtime(&mut self, mtime: Option<i128>)
        requires
            old(self).wf(),
        ensures
            final(self).wf(),
            final(self)@ == (SessionView { store_mtime: mtime, ..old(self)@ }),
    {
        self.store_mtime = mtime;
    }

    /// Whether a new build has appeared: the newest log is not the one that was
    /// ingested last.
    pub fn needs_ingest(&self, newest: Option<&str>) -> (r: bool)
        ensures
            r == ingest_needed(self@.watermark, opt_str_view(newest)),
    {
        match newest {
            Some(n) => !opt_text_eq(&file_name(n), &self.watermark),
            None => false,
        }
    }

    /// Whether the session is for a build root and a scheme.
    fn matches(&self, build_root: &str, scheme: &str) -> (r: bool)
        ensures
            r == self@.is_for(build_root@, scheme@),
    {
        let same = match &self.build_root {
            Some(r) => paths_eq(r.as_str(), build_root),
            None => false,
        };
        same && is_text(&self.scheme, scheme)
    }

    /// Adopt the store that a merge for a build root and a scheme left, up to the
    /// log `newest`, and say whether the client has to ask again. Where the
    /// session has gone over to another configuration meanwhile, nothing changes.
    pub fn adopt(
        &mut self,
        build_root: &str,
        scheme: &str,
        merged: LockedMerge,
        newest: Option<String>,
    ) -> (r: bool)
        requires
            old(self).wf(),
            merged.store.wf(),
            merged.store@.scheme == scheme@,
        ensures
            final(self).wf(),
            r == (old(self)@.is_for(build_root@, scheme@) && merged.changed),
            final(self)@ == with_store(
                old(self)@,
                build_root@,
                scheme@,
                merged.store@,
                merged.mtime,
                opt_view(newest),
            ),
    {
        if !self.matches(build_root, scheme) {
            return false;
        }
        let changed = merged.changed;
        self.store = Some(merged.store);
        self.store_mtime = merged.mtime;
        self.watermark = newest;
        changed
    }

    /// Whether the store file was written by another process.
    pub fn store_changed(&self, mtime: Option<i128>) -> (r: bool)
        ensures
            r == (self@.build_root is Some && self@.scheme is Some && mtime != self@.store_mtime),
    {
        self.build_root.is_some() && self.scheme.is_some() && !same_time(mtime, self.store_mtime)
    }

    /// Adopt a store that another process wrote, and say whether the client has to
    /// ask again.
    pub fn adopt_external(
        &mut self,
        build_root: &str,
        scheme: &str,
        store: CompileStore,
        mtime: Option<i128>,
    ) -> (r: bool)
        requires
            old(self).wf(),
            store.wf(),
            store@.scheme == scheme@,
        ensures
            final(self).wf(),
            r == old(self)@.is_for(build_root@, scheme@),
            final(self)@ == with_store(
                old(self)@,
                build_root@,
                scheme@,
                store@,
                mtime,
                store@.last_log,
            ),
    {
        if !self.matches(build_root, scheme) {
            return false;
        }
        self.watermark = own_opt(store.last_ingested_log());
        self.store = Some(store);
        self.store_mtime = mtime;
        true
    }

    /// Whether `buildServer.json` has been written since it was read.
    pub fn config_changed(&self, mtime: Option<i128>) -> (r: bool)
        ensures
            r == (mtime != self@.bs_mtime),
    {
        !same_time(mtime, self.bs_mtime)
    }

    /// Whether a configuration is for another build root or scheme.
    pub fn switches(&self, cfg: &BsConfig) -> (r: bool)
        ensures
            r == goes_over(self@, cfg@),
    {
        let same = match (&cfg.build_root, &self.build_root) {
            (Some(a), Some(b)) => paths_eq(a.as_str(), b.as_str()),
            (None, None) => true,
            _ => false,
        };
        !same || !opt_text_eq(&cfg.scheme, &self.scheme)
    }

    /// Take over a changed configuration, with the store of the build root and the
    /// scheme where these change, and say whether the client has to ask again.
    pub fn apply_config(
        &mut self,
        cfg: BsConfig,
        mtime: Option<i128>,
        store: Option<CompileStore>,
        store_mtime: Option<i128>,
    ) -> (r: bool)
        requires
            old(self).wf(),
            store matches Some(s) ==> s.wf(),
            goes_over(old(self)@, cfg@) ==> store_fits(
                cfg@.build_root,
                cfg@.scheme,
                opt_store(store),
            ),
        ensures
            final(self).wf(),
            r == goes_over(old(self)@, cfg@),
            final(self)@ == with_config(old(self)@, cfg@, mtime, opt_store(store), store_mtime),
    {
        let switched = self.switches(&cfg);
        self.bs_mtime = mtime;
        self.build_root = cfg.build_root;
        self.scheme = cfg.scheme;
        self.workspace = cfg.workspace;
        if switched {
            self.watermark = last_log(&store);
            self.store = store;
            self.store_mtime = store_mtime;
        }
        switched
    }

    /// The answer to a request for the options of a document: `null` where no
    /// document was named or nothing is known of it.
    pub fn options(&self, uri: Option<&str>, disk: &Disk) -> (r: Json)
        requires
            self.wf(),
            disk.wf(),
        ensures
            r@ == options_answer(self@, disk@, opt_str_view(uri)),
    {
        if let (Some(u), Some(s)) = (uri, &self.store) {
            let path = uri_to_path(u);
            source_kit_options(
                s.options_for_file(path.as_str(), Some(self.root.as_str()), disk),
            )
        } else {
            Json::Null
        }
    }
}

/// Whether two times are the same.
fn same_time(a: Option<i128>, b: Option<i128>) -> (r: bool)
    ensures
        r == (a == b),
{
    match a {
        Some(x) => match b {
            Some(y) => x == y,
            None => false,
        },
        None => b.is_none(),
    }
}

} // verus!
