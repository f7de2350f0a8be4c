//! What a run of the pipeline does with what it learns on its way: the simulator, the
//! app, its bundle id and its process.

use crate::engine::pipeline::bundle_id_of;
use crate::engine::pipeline::ingested_root;
use crate::engine::pipeline::server_step;
use crate::engine::pipeline::turned;
use crate::engine::pipeline::BootEnd;
use crate::engine::pipeline::ErrorView;
use crate::engine::pipeline::Event;
use crate::engine::pipeline::PipelineError;
use crate::engine::pipeline::PlanView;
use crate::engine::pipeline::ServerStep;
use crate::engine::pipeline::StageView;
use crate::engine::pipeline::StepView;
use crate::engine::xcodebuild::ancestor;
use crate::setup::project::opted_in;
use crate::text::trimmed;
use crate::util::paths::joined;
use crate::util::paths::parent_of;
use crate::util::paths::stem_of;
use vstd::prelude::*;

verus! {

/// The simulator that a stage knows.
pub open spec fn known_udid(stage: StageView) -> Option<Seq<char>> {
    match stage {
        StageView::Boot(u) => Some(u),
        StageView::BuildServer(u) => Some(u),
        StageView::Build(u) => Some(u),
        StageView::Locate(u) => Some(u),
        StageView::Bundle(u, _) => Some(u),
        StageView::Install(u, _, _) => Some(u),
        StageView::Files(u, _, _) => Some(u),
        StageView::Launch(u, _, _) => Some(u),
        _ => None,
    }
}

/// The app that a stage knows.
pub open spec fn known_app(stage: StageView) -> Option<Seq<char>> {
    match stage {
        StageView::Bundle(_, a) => Some(a),
        StageView::Install(_, a, _) => Some(a),
        StageView::Files(_, a, _) => Some(a),
        StageView::Launch(_, a, _) => Some(a),
        _ => None,
    }
}

/// The bundle id that a stage knows.
pub open spec fn known_id(stage: StageView) -> Option<Seq<char>> {
    match stage {
        StageView::Install(_, _, id) => Some(id),
        StageView::Files(_, _, id) => Some(id),
        StageView::Launch(_, _, id) => Some(id),
        _ => None,
    }
}

/// What a stage knows, every later stage knows unchanged: the simulator that was
/// resolved, the app that was located and the bundle id that was read.
pub proof fn lemma_known_stays(p: PlanView, stage: StageView, e: Event)
    ensures
        ({
            let t = turned(p, stage, e);
            &&& known_udid(stage) is Some && !(t.stage is Over) ==> known_udid(t.stage)
                == known_udid(stage)
            &&& known_app(stage) is Some && !(t.stage is Over) ==> known_app(t.stage) == known_app(
                stage,
            )
            &&& known_id(stage) is Some && !(t.stage is Over) ==> known_id(t.stage) == known_id(
                stage,
            )
        }),
{
}

/// The simulator that is booted is the one that was resolved, and the scheme is built
/// and its app located for that one.
pub proof fn lemma_built_where_resolved(p: PlanView, stage: StageView, e: Event)
    ensures
        ({
            let t = turned(p, stage, e);
            &&& t.step matches StepView::Boot(u) ==> (e matches Event::Device { result, .. }
                && result matches Ok(x) && u == x@) && known_udid(t.stage) == Some(u)
            &&& t.step matches StepView::Build(u) ==> known_udid(stage) == Some(u)
            &&& t.step matches StepView::LocateApp(u) ==> known_udid(stage) == Some(u)
            &&& t.step matches StepView::Finished(u, a) ==> known_udid(stage) == Some(u) && (
            e matches Event::App(result) && result matches Ok(x) && a == x@)
        }),
{
}

/// The bundle id is read from the app that was located, and that app is installed on
/// the simulator that was resolved; its output is captured under that simulator's name.
pub proof fn lemma_installed_where_resolved(p: PlanView, stage: StageView, e: Event)
    ensures
        ({
            let t = turned(p, stage, e);
            &&& t.step matches StepView::ReadBundleId(u, a, supersede) ==> {
                &&& known_udid(stage) == Some(u)
                &&& e matches Event::App(result) && result matches Ok(x) && a == x@
                &&& known_app(t.stage) == Some(a)
                &&& supersede == p.debug
            }
            &&& t.step matches StepView::Install(u, a) ==> {
                &&& known_udid(stage) == Some(u)
                &&& known_app(stage) == Some(a)
                &&& e matches Event::BundleId { result, .. } && result matches Ok(x) && known_id(
                    t.stage,
                ) == Some(x@)
            }
            &&& t.step matches StepView::PrepareFiles(dir, out, err) ==> {
                &&& known_udid(stage) matches Some(u) && dir == joined(joined(p.home, "run"@), u)
                &&& out == joined(dir, "out.log"@)
                &&& err == joined(dir, "err.log"@)
            }
        }),
{
}

/// What is launched is the bundle id that was read, on the simulator that was resolved,
/// waiting for the debugger exactly where the run is for debugging.
pub proof fn lemma_launched_as_installed(p: PlanView, stage: StageView, e: Event)
    ensures
        ({
            let t = turned(p, stage, e);
            &&& t.step matches StepView::Launch(u, id, name, debug, out, err) ==> {
                &&& known_udid(stage) == Some(u)
                &&& known_id(stage) == Some(id)
                &&& known_app(stage) matches Some(a) && stem_of(a) == Some(name)
                &&& debug == p.debug
                &&& out == joined(joined(joined(p.home, "run"@), u), "out.log"@)
                &&& err == joined(joined(joined(p.home, "run"@), u), "err.log"@)
            }
        }),
{
}

/// What runs in the end is the process that the launch gave, on the simulator that was
/// resolved, under the bundle id that was read and from the app that was located.
pub proof fn lemma_running_as_launched(p: PlanView, stage: StageView, e: Event)
    ensures
        ({
            let t = turned(p, stage, e);
            &&& t.step matches StepView::Running(app) ==> {
                &&& known_udid(stage) == Some(app.udid)
                &&& known_id(stage) == Some(app.bundle_id)
                &&& known_app(stage) == Some(app.app_path)
                &&& e matches Event::Launched(result) && result == Ok::<i64, String>(app.pid)
                &&& app.stdout_file == joined(
                    joined(joined(p.home, "run"@), app.udid),
                    "out.log"@,
                )
                &&& app.stderr_file == joined(
                    joined(joined(p.home, "run"@), app.udid),
                    "err.log"@,
                )
            }
        }),
{
}

/// The course of a run where nothing fails: preflight only where the workspace is
/// missing; then the simulator is resolved and booted, the build server file is seen
/// to, the scheme is built, the app is located, its bundle id read, and it is
/// installed and launched. What runs in the end is the process that the launch gave,
/// on the simulator that was resolved, under the app's bundle id.
pub proof fn lemma_run_course(
    p: PlanView,
    device: Result<String, String>,
    app: Result<String, String>,
    id: Result<String, String>,
    pid: i64,
)
    requires
        p.launch,
        device is Ok,
        app is Ok,
        id is Ok,
        stem_of(app->Ok_0@) is Some,
    ensures
        ({
            let u = device->Ok_0@;
            let a = app->Ok_0@;
            let i = id->Ok_0@;
            let dir = joined(joined(p.home, "run"@), u);
            let t1 = turned(p, StageView::Idle, Event::Start { workspace_exists: true });
            let t2 = turned(p, t1.stage, Event::Device { result: device, cancelled: false });
            let t3 = turned(p, t2.stage, Event::Booted { end: BootEnd::Done, cancelled: false });
            let t4 = turned(p, t3.stage, Event::BuildServerReady { cancelled: false });
            let t5 = turned(p, t4.stage, Event::Built(Ok(())));
            let t6 = turned(p, t5.stage, Event::App(app));
            let t7 = turned(p, t6.stage, Event::BundleId { result: id, cancelled: false });
            let t8 = turned(p, t7.stage, Event::Installed(Ok(())));
            let t9 = turned(p, t8.stage, Event::FilesReady(Ok(())));
            let t10 = turned(p, t9.stage, Event::Launched(Ok(pid)));
            &&& t1.step is ResolveDevice
            &&& t2.step == StepView::Boot(u)
            &&& t3.step is EnsureBuildServer
            &&& t4.step == StepView::Build(u)
            &&& t4.lines == seq!["Building scheme \""@ + p.scheme + "\"..."@]
            &&& t5.step == StepView::LocateApp(u)
            &&& t6.step == StepView::ReadBundleId(u, a, p.debug)
            &&& t6.lines == seq!["App: "@ + a]
            &&& t7.step == StepView::Install(u, a)
            &&& t7.lines == seq!["Installing "@ + i + "..."@]
            &&& t8.step == StepView::PrepareFiles(
                dir,
                joined(dir, "out.log"@),
                joined(dir, "err.log"@),
            )
            &&& t9.step == StepView::Launch(
                u,
                i,
                stem_of(a)->0,
                p.debug,
                joined(dir, "out.log"@),
                joined(dir, "err.log"@),
            )
            &&& t10.step matches StepView::Running(r) && r.pid == pid && r.udid == u && r.bundle_id
                == i && r.app_path == a && r.stdout_file == joined(dir, "out.log"@)
                && r.stderr_file == joined(dir, "err.log"@)
            &&& t10.stage is Over
        }),
{
}

/// The course of a build alone: no simulator is booted, nothing is installed or
/// launched, and the app that was built is what the run gives.
pub proof fn lemma_build_course(
    p: PlanView,
    device: Result<String, String>,
    app: Result<String, String>,
)
    requires
        !p.launch,
        device is Ok,
        app is Ok,
    ensures
        ({
            let u = device->Ok_0@;
            let t1 = turned(p, StageView::Idle, Event::Start { workspace_exists: true });
            let t2 = turned(p, t1.stage, Event::Device { result: device, cancelled: false });
            let t3 = turned(p, t2.stage, Event::BuildServerReady { cancelled: false });
            let t4 = turned(p, t3.stage, Event::Built(Ok(())));
            let t5 = turned(p, t4.stage, Event::App(app));
            &&& t1.step is ResolveDevice
            &&& t2.step is EnsureBuildServer
            &&& t2.lines == seq!["Simulator: "@ + u]
            &&& t3.step == StepView::Build(u)
            &&& t4.step == StepView::LocateApp(u)
            &&& t5.step == StepView::Finished(u, app->Ok_0@)
            &&& t5.stage is Over
        }),
{
}

/// The project is generated only where the workspace is missing, in its own directory
/// and with the command that was configured, and only a workspace that is there then is
/// built.
pub proof fn lemma_preflight_course(p: PlanView, outcome: Result<(), String>, there: bool)
    ensures
        ({
            let t0 = turned(p, StageView::Idle, Event::Start { workspace_exists: false });
            &&& turned(p, StageView::Idle, Event::Start { workspace_exists: true }).step
                is ResolveDevice
            &&& p.preflight is None ==> t0.step is Fail && t0.stage is Over
            &&& p.preflight matches Some(c) ==> {
                let t1 = turned(
                    p,
                    t0.stage,
                    Event::PreflightDone { outcome, workspace_exists: there },
                );
                &&& t0.step == StepView::Preflight(c, parent_of(p.workspace))
                &&& t1.step is ResolveDevice <==> outcome is Ok && there
                &&& t1.step is Fail <==> !(outcome is Ok && there)
                &&& outcome matches Err(m) ==> t1.step == StepView::Fail(
                    ErrorView::Other("preflight `"@ + c + "` failed"@ + ": "@ + m@),
                )
            }
        }),
{
}

/// Whatever fails ends the run at once, and says why: with the error that came, or, for
/// a build, with xcodebuild's own failure.
pub proof fn lemma_failures_end_the_run(p: PlanView, stage: StageView, m: String, b: PipelineError)
    ensures
        ({
            let no_text = Err::<String, String>(m);
            let no_unit = Err::<(), String>(m);
            let fails = StepView::Fail(ErrorView::Other(m@));
            &&& stage is Resolve ==> turned(
                p,
                stage,
                Event::Device { result: no_text, cancelled: false },
            ).step == fails
            &&& stage is Boot ==> turned(
                p,
                stage,
                Event::Booted { end: BootEnd::Failed(m), cancelled: false },
            ).step == fails
            &&& stage is Locate ==> turned(p, stage, Event::App(no_text)).step == fails
            &&& stage is Bundle ==> turned(
                p,
                stage,
                Event::BundleId { result: no_text, cancelled: false },
            ).step == fails
            &&& stage is Install ==> turned(p, stage, Event::Installed(no_unit)).step == fails
            &&& stage is Files ==> turned(p, stage, Event::FilesReady(no_unit)).step == fails
            &&& stage is Launch ==> turned(
                p,
                stage,
                Event::Launched(Err::<i64, String>(m)),
            ).step == fails
            &&& stage is Build ==> turned(p, stage, Event::Built(Err::<(), PipelineError>(b))).step
                == StepView::Fail(b@)
        }),
{
}

/// A step that ends the run leaves nothing to be done after it, and nothing else does
/// end it.
pub proof fn lemma_run_ends(p: PlanView, stage: StageView, e: Event)
    requires
        !(stage is Over),
    ensures
        turned(p, stage, e).stage is Over <==> (turned(p, stage, e).step is Fail || turned(
            p,
            stage,
            e,
        ).step is Running || turned(p, stage, e).step is Finished),
{
}

/// A stop that was asked for is heeded before the build, and again before anything is
/// put on the simulator.
pub proof fn lemma_stop_heeded(p: PlanView, stage: StageView, e: Event)
    ensures
        ({
            let t = turned(p, stage, e);
            &&& e matches Event::Booted { cancelled, .. } ==> cancelled && stage is Boot
                ==> t.step is Fail
            &&& e matches Event::BuildServerReady { cancelled } ==> cancelled
                && stage is BuildServer ==> t.step is Fail
            &&& e matches Event::BundleId { cancelled, .. } ==> cancelled && stage is Bundle
                ==> t.step is Fail
            &&& e matches Event::Device { cancelled, .. } ==> cancelled && stage is Resolve
                && !p.launch ==> t.step is Fail
            &&& e matches Event::Booted { end, .. } ==> stage is Boot && !(end is Done)
                ==> t.step is Fail
        }),
{
}

/// The bundle id of an app is what `plutil` printed, without the white space around it;
/// where it failed or printed nothing, there is none.
pub proof fn lemma_bundle_id_read(
    success: bool,
    printed: Seq<char>,
    stderr: Seq<char>,
    plist: Seq<char>,
)
    ensures
        ({
            let r = bundle_id_of(success, printed, stderr, plist);
            &&& r is Ok <==> success && trimmed(printed).len() > 0
            &&& r matches Ok(id) ==> id == trimmed(printed)
        }),
{
}

/// A build rewrites `buildServer.json` only where it is missing or older than the workspace,
/// and only in a project that uses the adapter.
pub proof fn lemma_server_file_refreshed(
    build_server: Option<i128>,
    workspace: Option<i128>,
    present: bool,
    debug_json: Option<Seq<char>>,
)
    ensures
        ({
            let r = server_step(build_server, workspace, present, debug_json);
            let old = build_server is None || (workspace is Some && build_server->0
                < workspace->0);
            &&& r == ServerStep::Fresh <==> !old
            &&& old && present ==> r == ServerStep::Regenerate
            &&& old && !present && debug_json is None ==> r == ServerStep::NotOptedIn
            &&& r == ServerStep::Regenerate ==> opted_in(present, debug_json)
        }),
{
}

/// The output of a build goes into the store of the build root that it wrote to: the given
/// DerivedData, else the directory four levels above the app. A project that does not use
/// the adapter keeps no store.
pub proof fn lemma_output_ingested(
    debug_json: Option<Seq<char>>,
    derived_data: Option<Seq<char>>,
    app: Seq<char>,
    a: Seq<char>,
    b: Seq<char>,
    c: Seq<char>,
)
    requires
        parent_of(app) == Some(a),
        parent_of(a) == Some(b),
        parent_of(b) == Some(c),
    ensures
        derived_data is Some ==> ingested_root(true, debug_json, derived_data, app) == derived_data,
        derived_data is None ==> ingested_root(true, debug_json, derived_data, app) == parent_of(c),
        ingested_root(false, None, derived_data, app) is None,
{
    reveal_with_fuel(ancestor, 6);
}

} // verus!
