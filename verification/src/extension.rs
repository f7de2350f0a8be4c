//! What the editor extension decides: where the adapter binary comes from, and
//! how the editor's requests become scenarios.

use crate::json::compact;
use crate::json::members_view;
use crate::json::object;
use crate::json::serde_compact;
use crate::json::Json;
use crate::json::JsonView;
use crate::json::Member;
use crate::order::lemma_text_rank;
use crate::order::lemma_text_rank_chain;
use crate::order::rank_texts;
use crate::order::text_rank;
use crate::order::Rank;
use crate::setup::build_server::push_member;
use crate::text::chars_of;
use crate::text::opt_str_view;
use crate::text::owned;
use crate::text::push_text;
use crate::text::str_eq;
use crate::text::text_result;
use crate::text::texts;
use crate::util::paths::join;
use crate::util::paths::joined;
use vstd::prelude::*;

verus! {

/// Repository that hosts the releases of the adapter.
pub const PROXY_REPO: &'static str = "Leonkh/ZedXcode";

/// Pinned release tag.
pub const PROXY_TAG: &'static str = "xcode-dap-v0.1.0";

/// Name of the adapter binary.
pub const PROXY_BIN: &'static str = "xcode-dap";

// ---------------------------------------------------------------------------
// the binary
// ---------------------------------------------------------------------------

/// A binary that was found without the releases: the user's setting always wins,
/// then the search path of the worktree.
pub open spec fn local_proxy(
    setting: Option<Seq<char>>,
    root: Seq<char>,
    on_path: Option<Seq<char>>,
) -> Option<(Seq<char>, Seq<char>)> {
    match setting {
        Some(p) => Some(
            (
                if p.len() > 0 && p[0] == '/' {
                    p
                } else {
                    root + "/"@ + p
                },
                "user-setting"@,
            ),
        ),
        None => match on_path {
            Some(p) => Some((p, "worktree-path"@)),
            None => None,
        },
    }
}

/// A binary that was found without the releases, and where it was found. A path
/// of the user's setting is made absolute from the worktree root.
pub fn resolve_proxy_command(setting: Option<&str>, root: &str, on_path: Option<&str>) -> (r: Option<
    (String, &'static str),
>)
    ensures
        match r {
            Some((p, from)) => local_proxy(opt_str_view(setting), root@, opt_str_view(on_path))
                == Some((p@, from@)),
            None => local_proxy(opt_str_view(setting), root@, opt_str_view(on_path)) is None,
        },
{
    match setting {
        Some(p) => {
            let cs = chars_of(p);
            if cs.len() > 0 && cs[0] == '/' {
                return Some((owned(p), "user-setting"));
            }
            let mut abs = owned(root);
            abs.append("/");
            abs.append(p);
            Some((abs, "user-setting"))
        },
        None => match on_path {
            Some(p) => Some((owned(p), "worktree-path")),
            None => None,
        },
    }
}

/// The platform that the extension runs on.
#[derive(Clone, Copy, Debug, PartialEq, Eq, Structural)]
pub enum Platform {
    MacAarch64,
    MacX8664,
    Unsupported,
}

/// The name of the release asset for a platform.
pub open spec fn asset_for(platform: Platform) -> Result<Seq<char>, Seq<char>> {
    match platform {
        Platform::MacAarch64 => Ok(PROXY_TAG@ + "-aarch64-apple-darwin.tar.gz"@),
        Platform::MacX8664 => Ok(PROXY_TAG@ + "-x86_64-apple-darwin.tar.gz"@),
        Platform::Unsupported => Err("the Xcode debug adapter is macOS-only"@),
    }
}

/// The name of the release asset for a platform.
pub fn asset_name(platform: Platform) -> (r: Result<String, String>)
    ensures
        text_result(r) == asset_for(platform),
{
    let mut r = owned(PROXY_TAG);
    match platform {
        Platform::MacAarch64 => {
            r.append("-aarch64-apple-darwin.tar.gz");
            Ok(r)
        },
        Platform::MacX8664 => {
            r.append("-x86_64-apple-darwin.tar.gz");
            Ok(r)
        },
        Platform::Unsupported => Err(owned("the Xcode debug adapter is macOS-only")),
    }
}

/// The directory of the pinned version, below the work directory.
pub fn version_dir() -> (r: String)
    ensures
        r@ == PROXY_BIN@ + "/"@ + PROXY_TAG@,
{
    let mut r = owned(PROXY_BIN);
    r.append("/");
    r.append(PROXY_TAG);
    r
}

/// The binary of the pinned version, below the work directory.
pub fn pinned_binary() -> (r: String)
    ensures
        r@ == pinned_text(),
{
    let mut r = version_dir();
    r.append("/");
    r.append(PROXY_BIN);
    r
}

/// The first asset, from `i` on, of a name.
pub open spec fn asset_from(names: Seq<Seq<char>>, name: Seq<char>, i: int) -> Option<int>
    decreases names.len() - i,
{
    if i < 0 || i >= names.len() {
        None
    } else if names[i] == name {
        Some(i)
    } else {
        asset_from(names, name, i + 1)
    }
}

/// What is said of a release without an asset.
pub open spec fn no_asset_text(name: Seq<char>) -> Seq<char> {
    "release "@ + PROXY_TAG@ + " of "@ + PROXY_REPO@ + " has no asset "@ + name
}

/// The asset of a release that has a name.
pub fn find_asset(names: &Vec<String>, name: &str) -> (r: Result<usize, String>)
    ensures
        match r {
            Ok(i) => asset_from(texts(names@), name@, 0) == Some(i as int) && i < names@.len(),
            Err(e) => asset_from(texts(names@), name@, 0) is None && e@ == no_asset_text(name@),
        },
{
    let ghost nv = texts(names@);
    let mut i: usize = 0;
    while i < names.len()
        invariant
            i <= names.len(),
            nv == texts(names@),
            asset_from(nv, name@, 0) == asset_from(nv, name@, i as int),
        decreases names.len() - i,
    {
        assert(nv[i as int] == names@[i as int]@);
        if str_eq(names[i].as_str(), name) {
            return Ok(i);
        }
        i = i + 1;
    }
    let mut m = owned("release ");
    m.append(PROXY_TAG);
    m.append(" of ");
    m.append(PROXY_REPO);
    m.append(" has no asset ");
    m.append(name);
    Err(m)
}

/// What is said of a release that could not be looked up, where there is no
/// cached binary either.
pub open spec fn release_text(e: Seq<char>) -> Seq<char> {
    "failed to fetch GitHub release "@ + PROXY_TAG@ + " from "@
        + PROXY_REPO@ + " ("@ + e + ") and no cached "@ + PROXY_BIN@
        + " found; install it manually (e.g. `cargo install --path crates/xcode-dap`) or point the `dap.Xcode.binary` setting at an existing binary"@
}

/// What is said of a failed download.
pub open spec fn download_text(asset: Seq<char>, e: Seq<char>) -> Seq<char> {
    "failed to download "@ + asset + ": "@ + e
}

/// What is said of a release that could not be looked up.
fn release_message(e: &str) -> (r: String)
    ensures
        r@ == release_text(e@),
{
    let mut m = owned("failed to fetch GitHub release ");
    m.append(PROXY_TAG);
    m.append(" from ");
    m.append(PROXY_REPO);
    m.append(" (");
    m.append(e);
    m.append(") and no cached ");
    m.append(PROXY_BIN);
    m.append(
        " found; install it manually (e.g. `cargo install --path crates/xcode-dap`) or point the `dap.Xcode.binary` setting at an existing binary",
    );
    m
}

/// What is said of a failed download.
fn download_message(asset: &str, e: &str) -> (r: String)
    ensures
        r@ == download_text(asset@, e@),
{
    let mut m = owned("failed to download ");
    m.append(asset);
    m.append(": ");
    m.append(e);
    m
}

/// Whether `n` is the last in order of some names.
pub open spec fn is_last_of(n: Seq<char>, names: Seq<Seq<char>>) -> bool {
    names.contains(n) && forall|i: int|
        0 <= i < names.len() ==> !(text_rank(#[trigger] names[i], n) is After)
}

/// The last in order of the cached binaries.
pub fn newest_cached_proxy(candidates: &Vec<String>) -> (r: Option<String>)
    ensures
        match r {
            Some(n) => is_last_of(n@, texts(candidates@)),
            None => candidates@.len() == 0,
        },
{
    let ghost cv = texts(candidates@);
    if candidates.len() == 0 {
        return None;
    }
    let mut best: usize = 0;
    let mut i: usize = 1;
    proof {
        lemma_text_rank(cv[0], cv[0]);
    }
    while i < candidates.len()
        invariant
            best < i <= candidates.len(),
            cv == texts(candidates@),
            forall|k: int| 0 <= k < i ==> !(text_rank(#[trigger] cv[k], cv[best as int]) is After),
        decreases candidates.len() - i,
    {
        assert(cv[i as int] == candidates@[i as int]@);
        assert(cv[best as int] == candidates@[best as int]@);
        let ghost was = best;
        let rank = rank_texts(candidates[i].as_str(), candidates[best].as_str());
        if rank == Rank::After {
            best = i;
        }
        proof {
            lemma_text_rank(cv[i as int], cv[was as int]);
            lemma_text_rank(cv[i as int], cv[i as int]);
            assert forall|k: int| 0 <= k < i + 1 implies !(text_rank(
                #[trigger] cv[k],
                cv[best as int],
            ) is After) by {
                if k < i && best == i {
                    lemma_text_rank_chain(cv[k], cv[was as int], cv[i as int]);
                }
            }
        }
        i = i + 1;
    }
    assert(cv[best as int] == candidates@[best as int]@);
    assert(cv.contains(cv[best as int]));
    Some(owned(candidates[best].as_str()))
}

// ---------------------------------------------------------------------------
// fetching
// ---------------------------------------------------------------------------

/// What has to be done next for a binary of the pinned release.
#[derive(Debug)]
pub enum FetchStep {
    /// See whether the pinned binary is in the cache.
    Probe { asset: String },
    /// Look the release up.
    LookUp { asset: String },
    /// Download an asset, given by its place in the release, into the directory of
    /// the pinned version.
    Download { asset: String, index: usize },
    /// Mark the pinned binary as executable.
    MarkExecutable,
    /// Remove the other versions from the cache.
    Purge,
    /// Look for a cached binary of any version; the message is for where there is
    /// none.
    ListCached { message: String },
    /// Use a binary, given below the work directory, and say where it is from.
    Use { command: String, source: &'static str },
    /// There is no binary.
    Refuse { message: String },
}

/// The mathematical value of a [`FetchStep`].
pub enum FetchStepView {
    Probe { asset: Seq<char> },
    LookUp { asset: Seq<char> },
    Download { asset: Seq<char>, index: int },
    MarkExecutable,
    Purge,
    ListCached { message: Seq<char> },
    Use { command: Seq<char>, source: Seq<char> },
    Refuse { message: Seq<char> },
}

impl View for FetchStep {
    type V = FetchStepView;

    open spec fn view(&self) -> FetchStepView {
        match *self {
            FetchStep::Probe { asset } => FetchStepView::Probe { asset: asset@ },
            FetchStep::LookUp { asset } => FetchStepView::LookUp { asset: asset@ },
            FetchStep::Download { asset, index } => FetchStepView::Download {
                asset: asset@,
                index: index as int,
            },
            FetchStep::MarkExecutable => FetchStepView::MarkExecutable,
            FetchStep::Purge => FetchStepView::Purge,
            FetchStep::ListCached { message } => FetchStepView::ListCached { message: message@ },
            FetchStep::Use { command, source } => FetchStepView::Use {
                command: command@,
                source: source@,
            },
            FetchStep::Refuse { message } => FetchStepView::Refuse { message: message@ },
        }
    }
}

/// What came of a [`FetchStep`].
#[derive(Debug)]
pub enum FetchEvent {
    /// Whether the pinned binary is in the cache.
    Present(bool),
    /// The names of the release's assets, or why there is none.
    Release(Result<Vec<String>, String>),
    /// A step was done, or why not.
    Done(Result<(), String>),
    /// The cached binaries of any version.
    Cached(Vec<String>),
}

/// The pinned binary, below the work directory.
pub open spec fn pinned_text() -> Seq<char> {
    PROXY_BIN@ + "/"@ + PROXY_TAG@ + "/"@ + PROXY_BIN@
}

/// Whether a step follows another when something came of that.
pub open spec fn fetch_follows(step: FetchStepView, event: FetchEvent, next: FetchStepView) -> bool {
    match (step, event) {
        (FetchStepView::Probe { asset }, FetchEvent::Present(there)) => next == if there {
            FetchStepView::Use { command: pinned_text(), source: "cached-release"@ }
        } else {
            FetchStepView::LookUp { asset }
        },
        (FetchStepView::LookUp { asset }, FetchEvent::Release(Ok(names))) => next
            == match asset_from(texts(names@), asset, 0) {
            Some(index) => FetchStepView::Download { asset, index },
            None => FetchStepView::Refuse { message: no_asset_text(asset) },
        },
        (FetchStepView::LookUp { asset }, FetchEvent::Release(Err(e))) => next
            == FetchStepView::ListCached { message: release_text(e@) },
        (FetchStepView::Download { asset, .. }, FetchEvent::Done(Ok(_))) => next
            == FetchStepView::MarkExecutable,
        (FetchStepView::Download { asset, .. }, FetchEvent::Done(Err(e))) => next
            == FetchStepView::ListCached { message: download_text(asset, e@) },
        (FetchStepView::MarkExecutable, FetchEvent::Done(Ok(_))) => next == FetchStepView::Purge,
        (FetchStepView::MarkExecutable, FetchEvent::Done(Err(e))) => next == FetchStepView::Refuse {
            message: "failed to mark "@ + pinned_text() + " executable: "@ + e@,
        },
        (FetchStepView::Purge, FetchEvent::Done(_)) => next == FetchStepView::Use {
            command: pinned_text(),
            source: "github-release"@,
        },
        (FetchStepView::ListCached { message }, FetchEvent::Cached(found)) => if found@.len() == 0 {
            next == FetchStepView::Refuse { message }
        } else {
            next matches FetchStepView::Use { command, source } && source == "cached-release"@
                && is_last_of(command, texts(found@))
        },
        _ => next == step,
    }
}

/// Where the search for a binary of the pinned release starts.
pub open spec fn first_fetch(platform: Platform) -> FetchStepView {
    match asset_for(platform) {
        Ok(asset) => FetchStepView::Probe { asset },
        Err(message) => FetchStepView::Refuse { message },
    }
}

/// Where the search for a binary of the pinned release starts.
pub fn start_fetch(platform: Platform) -> (r: FetchStep)
    ensures
        r@ == first_fetch(platform),
{
    match asset_name(platform) {
        Ok(asset) => FetchStep::Probe { asset },
        Err(message) => FetchStep::Refuse { message },
    }
}

/// The step that follows a step when something came of it: the cached binary of
/// the pinned version, else a download of it, else, where the release or the
/// download cannot be had, a cached binary of any version. An event that a step
/// does not wait for leaves it as it is.
pub fn cached_or_downloaded_proxy(step: FetchStep, event: FetchEvent) -> (r: FetchStep)
    ensures
        fetch_follows(step@, event, r@),
{
    match (step, event) {
        (FetchStep::Probe { asset }, FetchEvent::Present(there)) => if there {
            FetchStep::Use { command: pinned_binary(), source: "cached-release" }
        } else {
            FetchStep::LookUp { asset }
        },
        (FetchStep::LookUp { asset }, FetchEvent::Release(Ok(names))) => match find_asset(
            &names,
            asset.as_str(),
        ) {
            Ok(index) => FetchStep::Download { asset, index },
            Err(message) => FetchStep::Refuse { message },
        },
        (FetchStep::LookUp { asset: _ }, FetchEvent::Release(Err(e))) => FetchStep::ListCached {
            message: release_message(e.as_str()),
        },
        (FetchStep::Download { asset: _, index: _ }, FetchEvent::Done(Ok(_))) =>
            FetchStep::MarkExecutable,
        (FetchStep::Download { asset, index: _ }, FetchEvent::Done(Err(e))) =>
            FetchStep::ListCached {
            message: download_message(asset.as_str(), e.as_str()),
        },
        (FetchStep::MarkExecutable, FetchEvent::Done(Ok(_))) => FetchStep::Purge,
        (FetchStep::MarkExecutable, FetchEvent::Done(Err(e))) => {
            let mut message = owned("failed to mark ");
            message.append(pinned_binary().as_str());
            message.append(" executable: ");
            message.append(e.as_str());
            FetchStep::Refuse { message }
        },
        (FetchStep::Purge, FetchEvent::Done(_)) => FetchStep::Use {
            command: pinned_binary(),
            source: "github-release",
        },
        (FetchStep::ListCached { message }, FetchEvent::Cached(found)) => match newest_cached_proxy(
            &found,
        ) {
            Some(command) => FetchStep::Use { command, source: "cached-release" },
            None => FetchStep::Refuse { message },
        },
        (other, _) => other,
    }
}

/// A failed fetch never empties the cache: other versions are removed only once
/// the pinned one has landed and is executable, and then that one is used.
pub proof fn lemma_purge_last(step: FetchStepView, event: FetchEvent, next: FetchStepView)
    requires
        fetch_follows(step, event, next),
        next is Purge,
        !(step is Purge),
    ensures
        step is MarkExecutable,
        event matches FetchEvent::Done(Ok(_)),
        forall|outcome: Result<(), String>, last: FetchStepView|
            #[trigger] fetch_follows(next, FetchEvent::Done(outcome), last) ==> last
                == (FetchStepView::Use { command: pinned_text(), source: "github-release"@ }),
{
}

/// Without a network a cached binary still serves: where the release or the
/// download cannot be had, one is used if there is one.
pub proof fn lemma_offline_fallback(
    step: FetchStepView,
    failure: FetchEvent,
    next: FetchStepView,
    found: Vec<String>,
    last: FetchStepView,
)
    requires
        (step is LookUp && failure matches FetchEvent::Release(Err(_))) || (step is Download
            && failure matches FetchEvent::Done(Err(_))),
        fetch_follows(step, failure, next),
        fetch_follows(next, FetchEvent::Cached(found), last),
        found@.len() > 0,
    ensures
        last matches FetchStepView::Use { command, source } && texts(found@).contains(command),
{
}

/// The directories of the cached versions among the first `n` that are not the
/// pinned one.
pub open spec fn stale_upto(names: Seq<Seq<char>>, n: int) -> Seq<Seq<char>>
    decreases n,
{
    if n <= 0 {
        Seq::empty()
    } else {
        let dir = joined(PROXY_BIN@, names[n - 1]);
        if dir == PROXY_BIN@ + "/"@ + PROXY_TAG@ {
            stale_upto(names, n - 1)
        } else {
            stale_upto(names, n - 1).push(dir)
        }
    }
}

/// The directories of the cached versions that are not the pinned one.
pub fn purge_stale_versions(names: &Vec<String>) -> (r: Vec<String>)
    ensures
        texts(r@) == stale_upto(texts(names@), names@.len() as int),
{
    let ghost nv = texts(names@);
    let keep = version_dir();
    let mut r: Vec<String> = Vec::new();
    let mut i: usize = 0;
    assert(texts(r@) =~= stale_upto(nv, 0));
    while i < names.len()
        invariant
            i <= names.len(),
            nv == texts(names@),
            keep@ == PROXY_BIN@ + "/"@ + PROXY_TAG@,
            texts(r@) == stale_upto(nv, i as int),
        decreases names.len() - i,
    {
        assert(nv[i as int] == names@[i as int]@);
        let dir = join(PROXY_BIN, names[i].as_str());
        if !str_eq(dir.as_str(), keep.as_str()) {
            push_text(&mut r, dir.as_str());
        }
        i = i + 1;
    }
    r
}

/// What the adapter's log says of where it was found.
pub fn resolved_from(source: &str, command: &str, version: &str) -> (r: String)
    ensures
        r@ == source@ + ":"@ + command@ + " ext-v"@ + version@,
{
    let mut r = owned(source);
    r.append(":");
    r.append(command);
    r.append(" ext-v");
    r.append(version);
    r
}

// ---------------------------------------------------------------------------
// requests
// ---------------------------------------------------------------------------

/// Whether the extension serves an adapter.
pub fn check_adapter(name: &str) -> (r: Result<(), String>)
    ensures
        r is Ok <==> name@ == "Xcode"@,
        r matches Err(e) ==> e@ == "unexpected debug adapter name: "@ + name@,
{
    if str_eq(name, "Xcode") {
        return Ok(());
    }
    let mut m = owned("unexpected debug adapter name: ");
    m.append(name);
    Err(m)
}

/// Why a scenario's request is not served; it is where it is a launch, or not
/// said.
pub open spec fn request_refusal(config: JsonView) -> Option<Seq<char>> {
    match config.get("request"@) {
        None => None,
        Some(v) => if v == JsonView::Str("launch"@) {
            None
        } else if v == JsonView::Str("attach"@) {
            Some("the Xcode adapter does not support attaching to an existing process yet"@)
        } else {
            Some(
                "unsupported \"request\" value in Xcode scenario config: "@ + serde_compact(v),
            )
        },
    }
}

/// Whether a scenario is a launch; the adapter attaches to nothing.
pub fn dap_request_kind(config: &Json) -> (r: Result<(), String>)
    ensures
        match r {
            Ok(_) => request_refusal(config@) is None,
            Err(e) => request_refusal(config@) == Some(e@),
        },
{
    match config.get("request") {
        None => Ok(()),
        Some(v) => {
            if let Some(s) = v.as_str() {
                if str_eq(s, "launch") {
                    return Ok(());
                }
                if str_eq(s, "attach") {
                    return Err(
                        owned(
                            "the Xcode adapter does not support attaching to an existing process yet",
                        ),
                    );
                }
            }
            let mut m = owned("unsupported \"request\" value in Xcode scenario config: ");
            m.append(compact(v).as_str());
            Err(m)
        },
    }
}

/// The scenario of the editor's generic launch: the program stands for the scheme.
/// The workspace cannot be told from it; the user fills it in.
pub open spec fn launch_document(program: Seq<char>, stop_on_entry: Option<bool>) -> JsonView {
    match stop_on_entry {
        Some(b) => JsonView::Object(
            seq![("scheme"@, JsonView::Str(program)), ("stopOnEntry"@, JsonView::Bool(b))],
        ),
        None => JsonView::Object(seq![("scheme"@, JsonView::Str(program))]),
    }
}

/// What a new session asks for.
pub enum SessionRequest<'a> {
    Launch(&'a str),
    Attach,
}

/// The text of the scenario for a new session.
pub fn dap_config_to_scenario(request: SessionRequest, stop_on_entry: Option<bool>) -> (r: Result<
    String,
    String,
>)
    ensures
        text_result(r) == match request {
            SessionRequest::Launch(p) => Ok(serde_compact(launch_document(p@, stop_on_entry))),
            SessionRequest::Attach => Err(
                "the Xcode adapter does not support attaching to an existing process; use a launch scenario from .zed/debug.json"@,
            ),
        },
{
    match request {
        SessionRequest::Launch(p) => {
            let ghost want = launch_document(p@, stop_on_entry);
            let mut ms: Vec<Member> = Vec::new();
            assert(members_view(ms@) =~= Seq::empty());
            push_member(&mut ms, "scheme", Json::string(p));
            if let Some(b) = stop_on_entry {
                push_member(&mut ms, "stopOnEntry", Json::Bool(b));
            }
            assert(members_view(ms@) =~= want->Object_0);
            Ok(compact(&object(ms)))
        },
        SessionRequest::Attach => Err(
            owned(
                "the Xcode adapter does not support attaching to an existing process; use a launch scenario from .zed/debug.json",
            ),
        ),
    }
}

} // verus!
