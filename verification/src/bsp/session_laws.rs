//! What the build server answers in the course of a session, and what it takes in.

use crate::bsp::ingest::after_watermark;
use crate::bsp::ingest::anchored;
use crate::bsp::ingest::bootstrap_of;
use crate::bsp::ingest::ingest_needed;
use crate::bsp::ingest::last_log_of;
use crate::bsp::ingest::lemma_log_named;
use crate::bsp::ingest::options_answer;
use crate::bsp::ingest::root_of_project;
use crate::bsp::ingest::store_fits;
use crate::bsp::ingest::with_config;
use crate::bsp::ingest::with_store;
use crate::bsp::ingest::Bootstrap;
use crate::bsp::ingest::SessionView;
use crate::bsp::server::BsConfigView;
use crate::bsp::server_laws::lemma_options_read;
use crate::bsp::server_laws::lists_texts;
use crate::bsp::uri::uri_bytes;
use crate::engine::compile_store::options_of;
use crate::engine::compile_store::served;
use crate::engine::compile_store::EntryView;
use crate::engine::compile_store::StoreView;
use crate::engine::disk::DiskView;
use crate::engine::store_laws::lemma_known_file;
use crate::text::lossy_text;
use crate::util::paths::file_name_of;
use crate::util::paths::joined;
use crate::util::paths::same_path;
use vstd::prelude::*;

verus! {

/// The options of a document are those that the store has for its path, all of its arguments
/// in order and its working directory; where the store has none, where there is no store and
/// where no document was named, the answer is `null`.
pub proof fn lemma_options_answered(s: SessionView, disk: DiskView, uri: Seq<char>)
    ensures
        options_answer(s, disk, None) is Null,
        s.store is None ==> options_answer(s, disk, Some(uri)) is Null,
        s.store matches Some(store) ==> match options_of(
            store,
            disk,
            lossy_text(uri_bytes(uri)),
            Some(s.root),
        ) {
            Some((args, dir)) => lists_texts(
                options_answer(s, disk, Some(uri)).get("compilerArguments"@),
                args,
            ) && options_answer(s, disk, Some(uri)).str_at("workingDirectory"@) == Some(dir),
            None => options_answer(s, disk, Some(uri)) is Null,
        },
{
    if let Some(store) = s.store {
        if let Some((args, dir)) = options_of(
            store,
            disk,
            lossy_text(uri_bytes(uri)),
            Some(s.root),
        ) {
            lemma_options_read(args, dir);
        }
    }
}

/// A document that a module lists is answered with that module's arguments, in that module's
/// directory.
pub proof fn lemma_listed_document_answered(
    s: SessionView,
    store: StoreView,
    disk: DiskView,
    uri: Seq<char>,
)
    requires
        s.store == Some(store),
        store.owners.dom().contains(disk.key(lossy_text(uri_bytes(uri)))),
    ensures
        ({
            let e = store.modules[store.owners[disk.key(lossy_text(uri_bytes(uri)))]];
            let r = options_answer(s, disk, Some(uri));
            &&& lists_texts(r.get("compilerArguments"@), served(e, disk, None))
            &&& r.str_at("workingDirectory"@) == Some(e.working_dir)
        }),
{
    lemma_known_file(store, disk, lossy_text(uri_bytes(uri)), Some(s.root));
    lemma_options_answered(s, disk, uri);
}

/// A session is for the project that the client names, with what that project's
/// `buildServer.json` configures; what its store holds is what was ingested.
pub proof fn lemma_session_anchored(
    s: SessionView,
    root_uri: Option<Seq<char>>,
    root: Seq<char>,
    cfg: BsConfigView,
    bs_mtime: Option<i128>,
    store: Option<StoreView>,
)
    ensures
        ({
            let t = anchored(s, root_uri, root, cfg, bs_mtime, store);
            &&& t.root == root
            &&& t.root_uri == root_uri
            &&& t.build_server_path == joined(root, "buildServer.json"@)
            &&& t.build_root == cfg.build_root
            &&& t.scheme == cfg.scheme
            &&& t.workspace == cfg.workspace
            &&& t.store == store
            &&& t.bs_mtime == bs_mtime
            &&& store matches Some(x) ==> t.watermark == x.last_log
            &&& store is None ==> t.watermark is None
        }),
{
}

/// The project root is the path that the client's URI stands for.
pub proof fn lemma_project_root(root_uri: Option<Seq<char>>, cwd: Seq<char>)
    ensures
        root_uri matches Some(u) ==> root_of_project(root_uri, cwd) == lossy_text(uri_bytes(u)),
        root_uri is None ==> root_of_project(root_uri, cwd) == cwd,
{
}

/// An empty store is filled from the retained logs; one that holds modules is not; without a
/// store there is nothing to fill.
pub proof fn lemma_bootstrap(store: StoreView, name: Seq<char>)
    ensures
        bootstrap_of(None) == Bootstrap::Skip,
        store.modules.dom().contains(name) ==> bootstrap_of(Some(store)) == Bootstrap::Warm,
        store.modules == Map::<Seq<char>, EntryView>::empty() ==> bootstrap_of(Some(store))
            == Bootstrap::Cold,
{
    if store.modules.dom().contains(name) && store.modules == Map::<
        Seq<char>,
        EntryView,
    >::empty() {
        assert(!Map::<Seq<char>, EntryView>::empty().dom().contains(name));
    }
}

/// A build is ingested exactly where its log is newer than what was ingested: the newest log
/// has another name than the watermark. Without a log there is nothing to ingest.
pub proof fn lemma_new_log_ingested(watermark: Option<Seq<char>>, newest: Seq<char>)
    ensures
        !ingest_needed(watermark, None),
        file_name_of(newest) == watermark ==> !ingest_needed(watermark, Some(newest)),
        file_name_of(newest) != watermark ==> ingest_needed(watermark, Some(newest)),
{
}

/// The logs that are still to be ingested: all of them at first, those behind the watermark
/// then, and the newest alone where the watermark is gone.
pub proof fn lemma_pending_logs(logs: Seq<Seq<char>>, w: Seq<char>, i: int)
    ensures
        after_watermark(logs, None) == logs,
        0 <= i < logs.len() && file_name_of(logs[i]) == Some(w) && (forall|j: int|
            0 <= j < i ==> file_name_of(#[trigger] logs[j]) != Some(w)) ==> after_watermark(
            logs,
            Some(w),
        ) == logs.skip(i + 1),
        logs.len() > 0 && (forall|j: int|
            0 <= j < logs.len() ==> file_name_of(#[trigger] logs[j]) != Some(w))
            ==> after_watermark(logs, Some(w)) == seq![logs.last()],
{
    lemma_log_named(logs, w, 0);
    if logs.len() > 0 && forall|j: int|
        0 <= j < logs.len() ==> file_name_of(#[trigger] logs[j]) != Some(w) {
        assert(logs.skip(logs.len() - 1) =~= seq![logs.last()]);
    }
}

/// What a merge left is taken over only where the session is still for that build root and
/// scheme; all else of the session stays.
pub proof fn lemma_store_taken_over(
    s: SessionView,
    build_root: Seq<char>,
    scheme: Seq<char>,
    store: StoreView,
    mtime: Option<i128>,
    watermark: Option<Seq<char>>,
)
    ensures
        ({
            let t = with_store(s, build_root, scheme, store, mtime, watermark);
            let fits = (s.build_root matches Some(r) && same_path(r, build_root)) && s.scheme
                == Some(scheme);
            &&& fits ==> t.store == Some(store) && t.store_mtime == mtime && t.watermark
                == watermark
            &&& !fits ==> t == s
            &&& t.root == s.root && t.root_uri == s.root_uri && t.build_root == s.build_root
            &&& t.scheme == s.scheme && t.workspace == s.workspace && t.bs_mtime == s.bs_mtime
        }),
{
}

/// A changed configuration is followed: its build root, scheme and workspace are the
/// session's from then on. Where the build root or the scheme is another, so is the store,
/// and what was ingested is what that store holds; where neither is, the store stays.
pub proof fn lemma_config_followed(
    s: SessionView,
    cfg: BsConfigView,
    mtime: Option<i128>,
    store: Option<StoreView>,
    store_mtime: Option<i128>,
)
    ensures
        ({
            let t = with_config(s, cfg, mtime, store, store_mtime);
            &&& t.build_root == cfg.build_root
            &&& t.scheme == cfg.scheme
            &&& t.workspace == cfg.workspace
            &&& t.bs_mtime == mtime
            &&& t.root == s.root
            &&& t.root_uri == s.root_uri
            &&& cfg.scheme != s.scheme ==> t.store == store && t.store_mtime == store_mtime
                && t.watermark == last_log_of(store)
            &&& cfg.scheme == s.scheme && cfg.build_root == s.build_root ==> t.store == s.store
                && t.watermark == s.watermark && t.store_mtime == s.store_mtime
            &&& cfg.build_root is Some != s.build_root is Some ==> t.store == store && t.watermark
                == last_log_of(store)
            &&& cfg.build_root matches Some(a) ==> (s.build_root matches Some(b) ==> !same_path(
                a,
                b,
            ) ==> t.store == store && t.watermark == last_log_of(store))
        }),
{
}

/// A store serves a session only where the build root is known and the scheme is its own.
pub proof fn lemma_store_fits(root: Option<Seq<char>>, scheme: Option<Seq<char>>, store: StoreView)
    ensures
        store_fits(root, scheme, Some(store)) <==> root is Some && scheme == Some(store.scheme),
        store_fits(root, scheme, None) <==> !(root is Some && scheme is Some),
{
}

} // verus!
