//! Which binary the editor extension runs, and what it leaves on disk.

use crate::extension::asset_for;
use crate::extension::asset_from;
use crate::extension::fetch_follows;
use crate::extension::first_fetch;
use crate::extension::is_last_of;
use crate::extension::launch_document;
use crate::extension::local_proxy;
use crate::extension::pinned_text;
use crate::extension::request_refusal;
use crate::extension::stale_upto;
use crate::extension::FetchEvent;
use crate::extension::FetchStepView;
use crate::extension::PROXY_BIN;
use crate::extension::PROXY_REPO;
use crate::extension::PROXY_TAG;
use crate::extension::Platform;
use crate::json::lemma_member_absent;
use crate::json::lemma_member_at;
use crate::json::serde_compact;
use crate::json::JsonView;
use crate::order::text_rank;
use crate::text::has_suffix;
use crate::text::texts;
use crate::util::paths::joined;
use vstd::prelude::*;

verus! {

/// The binary that the user's settings name always wins, a relative one taken from the
/// project's root; else the one on the project's path is taken; else there is none at hand.
pub proof fn lemma_binary_order(
    setting: Option<Seq<char>>,
    root: Seq<char>,
    on_path: Option<Seq<char>>,
)
    ensures
        ({
            let r = local_proxy(setting, root, on_path);
            &&& setting matches Some(p) ==> p.len() > 0 && p[0] == '/' ==> r == Some(
                (p, "user-setting"@),
            )
            &&& setting matches Some(p) ==> !(p.len() > 0 && p[0] == '/') ==> r == Some(
                (root + "/"@ + p, "user-setting"@),
            )
            &&& on_path matches Some(p) ==> setting is None ==> r == Some((p, "worktree-path"@))
            &&& setting is None && on_path is None ==> r is None
        }),
{
}

/// Each kind of Mac gets the asset of the pinned release that is built for it; there is none
/// for anything else.
pub proof fn lemma_assets()
    ensures
        asset_for(Platform::MacAarch64) == Ok::<Seq<char>, Seq<char>>(
            PROXY_TAG@ + "-aarch64-apple-darwin.tar.gz"@,
        ),
        asset_for(Platform::MacX8664) == Ok::<Seq<char>, Seq<char>>(
            PROXY_TAG@ + "-x86_64-apple-darwin.tar.gz"@,
        ),
        asset_for(Platform::Unsupported) is Err,
{
}

/// The course of a first fetch: the pinned release is looked up where its binary is not
/// there yet, its asset for this platform is downloaded, made executable, and used once the
/// older versions are gone.
pub proof fn lemma_fetch_course(
    platform: Platform,
    names: Vec<String>,
    s1: FetchStepView,
    s2: FetchStepView,
    s3: FetchStepView,
    s4: FetchStepView,
    s5: FetchStepView,
)
    requires
        !(platform is Unsupported),
        fetch_follows(first_fetch(platform), FetchEvent::Present(false), s1),
        fetch_follows(s1, FetchEvent::Release(Ok(names)), s2),
        texts(names@).contains(asset_for(platform)->Ok_0),
        fetch_follows(s2, FetchEvent::Done(Ok(())), s3),
        fetch_follows(s3, FetchEvent::Done(Ok(())), s4),
        fetch_follows(s4, FetchEvent::Done(Ok(())), s5),
    ensures
        ({
            let asset = asset_for(platform)->Ok_0;
            &&& s1 == (FetchStepView::LookUp { asset })
            &&& s2 matches FetchStepView::Download { asset: a, index } && a == asset && 0 <= index
                < names@.len() && texts(names@)[index] == asset
            &&& s3 is MarkExecutable
            &&& s4 is Purge
            &&& s5 == (FetchStepView::Use {
                command: "xcode-dap/"@ + PROXY_TAG@ + "/xcode-dap"@,
                source: "github-release"@,
            })
        }),
{
    lemma_asset_found(texts(names@), asset_for(platform)->Ok_0, 0);
    lemma_pinned_path();
}

/// The asset that is taken is one of that name, where there is one.
proof fn lemma_asset_found(names: Seq<Seq<char>>, name: Seq<char>, i: int)
    requires
        0 <= i,
    ensures
        match asset_from(names, name, i) {
            Some(k) => i <= k < names.len() && names[k] == name,
            None => forall|j: int| i <= j < names.len() ==> #[trigger] names[j] != name,
        },
    decreases names.len() - i,
{
    if i < names.len() && names[i] != name {
        lemma_asset_found(names, name, i + 1);
    }
}

/// The binary of the pinned release lies in a directory of its own version.
pub proof fn lemma_pinned_path()
    ensures
        pinned_text() == "xcode-dap/"@ + PROXY_TAG@ + "/xcode-dap"@,
{
    reveal_strlit("xcode-dap/");
    reveal_strlit("/xcode-dap");
    reveal_strlit("/");
    reveal_strlit("xcode-dap");
    assert(PROXY_BIN@ + "/"@ =~= "xcode-dap/"@);
    assert("/"@ + PROXY_BIN@ =~= "/xcode-dap"@);
    assert(pinned_text() =~= "xcode-dap/"@ + PROXY_TAG@ + "/xcode-dap"@);
}

/// A binary that is there already is used without asking for anything.
pub proof fn lemma_cached_binary_used(platform: Platform, next: FetchStepView)
    requires
        !(platform is Unsupported),
        fetch_follows(first_fetch(platform), FetchEvent::Present(true), next),
    ensures
        next == (FetchStepView::Use {
            command: "xcode-dap/"@ + PROXY_TAG@ + "/xcode-dap"@,
            source: "cached-release"@,
        }),
{
    lemma_pinned_path();
}

/// A release that lacks the asset, a binary that cannot be made executable, and a failure
/// with nothing cached are refused, and say why.
pub proof fn lemma_fetch_refusals(
    asset: Seq<char>,
    names: Vec<String>,
    message: Seq<char>,
    e: String,
    next: FetchStepView,
)
    ensures
        !texts(names@).contains(asset) && fetch_follows(
            FetchStepView::LookUp { asset },
            FetchEvent::Release(Ok(names)),
            next,
        ) ==> (next matches FetchStepView::Refuse { message: m } && has_suffix(m, asset)),
        fetch_follows(
            FetchStepView::MarkExecutable,
            FetchEvent::Done(Err::<(), String>(e)),
            next,
        ) ==> (next matches FetchStepView::Refuse { message: m } && has_suffix(m, e@)),
        names@.len() == 0 && fetch_follows(
            FetchStepView::ListCached { message },
            FetchEvent::Cached(names),
            next,
        ) ==> next == (FetchStepView::Refuse { message }),
        fetch_follows(
            FetchStepView::Download { asset, index: 0 },
            FetchEvent::Done(Err::<(), String>(e)),
            next,
        ) ==> next == (FetchStepView::ListCached {
            message: "failed to download "@ + asset + ": "@ + e@,
        }),
{
    lemma_asset_found(texts(names@), asset, 0);
    let head = "release "@ + PROXY_TAG@ + " of "@ + PROXY_REPO@ + " has no asset "@;
    let m = head + asset;
    assert(m.subrange(m.len() - asset.len(), m.len() as int) =~= asset);
    let head2 = "failed to mark "@ + pinned_text() + " executable: "@;
    let m2 = head2 + e@;
    assert(m2.subrange(m2.len() - e@.len(), m2.len() as int) =~= e@);
    let texts_of = texts(names@);
    assert forall|j: int| 0 <= j < texts_of.len() implies texts_of.contains(
        #[trigger] texts_of[j],
    ) by {}
}

/// What is removed are the other versions: never the pinned one, and every other.
pub proof fn lemma_stale_versions(names: Seq<Seq<char>>, n: int, k: int)
    requires
        0 <= n <= names.len(),
    ensures
        !stale_upto(names, n).contains("xcode-dap/"@ + PROXY_TAG@),
        0 <= k < n && joined("xcode-dap"@, names[k]) != "xcode-dap/"@ + PROXY_TAG@ ==> stale_upto(
            names,
            n,
        ).contains(joined("xcode-dap"@, names[k])),
        stale_upto(names, n).len() <= n,
    decreases n,
{
    reveal_strlit("xcode-dap/");
    reveal_strlit("/");
    reveal_strlit("xcode-dap");
    assert(PROXY_BIN@ + "/"@ =~= "xcode-dap/"@);
    let kept = "xcode-dap/"@ + PROXY_TAG@;
    if n > 0 {
        lemma_stale_versions(names, n - 1, k);
        let before = stale_upto(names, n - 1);
        let now = stale_upto(names, n);
        let dir = joined(PROXY_BIN@, names[n - 1]);
        if now.contains(kept) {
            let at = choose|at: int| 0 <= at < now.len() && now[at] == kept;
            if at < before.len() {
                assert(before[at] == kept);
            }
        }
        if 0 <= k < n && joined("xcode-dap"@, names[k]) != kept {
            let d = joined("xcode-dap"@, names[k]);
            if k == n - 1 {
                assert(now[before.len() as int] == d);
            } else {
                let at = choose|at: int| 0 <= at < before.len() && before[at] == d;
                assert(now[at] == d);
            }
        }
    }
}

/// A scenario may ask for a launch, or for nothing; it cannot ask for anything else.
pub proof fn lemma_requests(config: JsonView)
    ensures
        request_refusal(config) is None <==> config.get("request"@) is None || config.get(
            "request"@,
        ) == Some(JsonView::Str("launch"@)),
{
}

/// A program to launch is the scheme of the scenario that is made of it.
pub proof fn lemma_scenario_made(program: Seq<char>, stop_on_entry: Option<bool>)
    ensures
        launch_document(program, stop_on_entry).str_at("scheme"@) == Some(program),
        stop_on_entry matches Some(b) ==> launch_document(program, stop_on_entry).get(
            "stopOnEntry"@,
        ) == Some(JsonView::Bool(b)),
        stop_on_entry is None ==> launch_document(program, stop_on_entry).get("stopOnEntry"@)
            is None,
{
    reveal_strlit("scheme");
    reveal_strlit("stopOnEntry");
    assert("scheme"@.len() != "stopOnEntry"@.len());
    let ms = launch_document(program, stop_on_entry)->Object_0;
    lemma_member_at(ms, 0, "scheme"@);
    if stop_on_entry is Some {
        lemma_member_at(ms, 1, "stopOnEntry"@);
    } else {
        lemma_member_absent(ms, "stopOnEntry"@);
    }
}

/// The last of several names is one of them, and none of them comes behind it.
pub proof fn lemma_last_name(n: Seq<char>, names: Seq<Seq<char>>, i: int)
    requires
        is_last_of(n, names),
    ensures
        names.contains(n),
        0 <= i < names.len() ==> !(text_rank(names[i], n) is After),
{
}

/// Attaching to a process is refused by name, and any other request that is not a launch with
/// its value.
pub proof fn lemma_requests_refused(config: JsonView, v: JsonView)
    requires
        config.get("request"@) == Some(v),
    ensures
        v == JsonView::Str("attach"@) ==> request_refusal(config) == Some(
            "the Xcode adapter does not support attaching to an existing process yet"@,
        ),
        v != JsonView::Str("attach"@) && v != JsonView::Str("launch"@) ==> request_refusal(config)
            == Some("unsupported \"request\" value in Xcode scenario config: "@ + serde_compact(v)),
{
    reveal_strlit("attach");
    reveal_strlit("launch");
    assert("attach"@[0] == 'a' && "launch"@[0] == 'l');
}

} // verus!
