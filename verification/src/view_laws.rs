//! The mathematical values hold what the values hold.

use crate::bsp::server::BsConfig;
use crate::dap::framing::frame_of;
use crate::dap::proxy::wire;
use crate::dap::proxy::Action;
use crate::dap::proxy::ActionView;
use crate::dap::proxy::Out;
use crate::dap::proxy::OutView;
use crate::dap::proxy::PipelineDone;
use crate::dap::proxy::TailPlan;
use crate::engine::compile_store::ModuleEntry;
use crate::engine::compile_store::Persisted;
use crate::engine::config::LaunchConfig;
use crate::engine::pipeline::LaunchedApp;
use crate::engine::pipeline::Plan;
use crate::engine::pipeline::Stage;
use crate::engine::pipeline::StageView;
use crate::engine::pipeline::Step;
use crate::engine::pipeline::StepView;
use crate::engine::selection::Selection;
use crate::engine::simctl::Device;
use crate::engine::xcactivitylog::ParsedModule;
use crate::json::serde_compact;
use crate::json::Json;
use crate::json::JsonView;
use crate::setup::project::ProjectConfig;
use crate::setup::project::ProjectFlags;
use crate::text::opt_view;
use crate::text::text_result;
use crate::text::texts;
use vstd::prelude::*;
use vstd::utf8::encode_utf8;

verus! {

/// A configuration is known by all of its settings.
pub proof fn lemma_config_held(c: LaunchConfig)
    ensures
        c@.workspace == c.workspace@,
        c@.scheme == c.scheme@,
        c@.device == opt_view(c.device),
        c@.os == opt_view(c.os),
        c@.configuration == opt_view(c.configuration),
        c@.preflight == opt_view(c.preflight),
        c@.oslog == c.oslog,
        c@.oslog_predicate == opt_view(c.oslog_predicate),
        c@.terminate_on_stop == c.terminate_on_stop,
        c@.build_output == c.build_output,
        c@.verbose_logging == c.verbose_logging,
        c@.derived_data == opt_view(c.derived_data),
{
}

/// A plan, a launched app and what came of a launch are known by all of their parts.
pub proof fn lemma_launch_held(p: Plan, a: LaunchedApp, d: PipelineDone, c: LaunchConfig)
    ensures
        p@.workspace == p.workspace@,
        p@.scheme == p.scheme@,
        p@.preflight == opt_view(p.preflight),
        p@.launch == p.launch,
        p@.debug == p.debug,
        p@.home == p.home@,
        a@.pid == a.pid,
        a@.udid == a.udid@,
        a@.bundle_id == a.bundle_id@,
        a@.app_path == a.app_path@,
        a@.stdout_file == a.stdout_file@,
        a@.stderr_file == a.stderr_file@,
        d@.app == d.app@,
        d@.mock == d.mock,
        d.config == Some(c) ==> d@.config == Some(c@),
        d.config is None ==> d@.config is None,
{
}

/// Every step of a run is known by what it is to be done with.
pub proof fn lemma_steps_held(u: String, a: String, i: String, f: String, g: String, b: bool)
    ensures
        (Step::Boot { udid: u })@ == StepView::Boot(u@),
        (Step::Build { udid: u })@ == StepView::Build(u@),
        (Step::LocateApp { udid: u })@ == StepView::LocateApp(u@),
        (Step::Finished { udid: u, app: a })@ == StepView::Finished(u@, a@),
        (Step::ReadBundleId { udid: u, app: a, supersede: b })@ == StepView::ReadBundleId(
            u@,
            a@,
            b,
        ),
        (Step::Install { udid: u, app: a })@ == StepView::Install(u@, a@),
        (Step::PrepareFiles { dir: u, stdout_file: f, stderr_file: g })@
            == StepView::PrepareFiles(u@, f@, g@),
        (Step::Launch {
            udid: u,
            bundle_id: i,
            app_name: a,
            debug: b,
            stdout_file: f,
            stderr_file: g,
        })@ == StepView::Launch(u@, i@, a@, b, f@, g@),
        (Step::Preflight { command: u, inside: Some(a) })@ == StepView::Preflight(
            u@,
            Some(a@),
        ),
        Step::ResolveDevice@ is ResolveDevice,
        Step::EnsureBuildServer@ is EnsureBuildServer,
        Step::Wait@ is Wait,
{
}

/// Every stage of a run is known by what has been found so far.
pub proof fn lemma_stages_held(u: String, a: String, i: String)
    ensures
        (Stage::Preflight { command: u })@ == StageView::Preflight(u@),
        (Stage::Boot { udid: u })@ == StageView::Boot(u@),
        (Stage::BuildServer { udid: u })@ == StageView::BuildServer(u@),
        (Stage::Build { udid: u })@ == StageView::Build(u@),
        (Stage::Locate { udid: u })@ == StageView::Locate(u@),
        (Stage::Bundle { udid: u, app: a })@ == StageView::Bundle(u@, a@),
        (Stage::Install { udid: u, app: a, id: i })@ == StageView::Install(u@, a@, i@),
        (Stage::Files { udid: u, app: a, id: i })@ == StageView::Files(u@, a@, i@),
        (Stage::Launch { udid: u, app: a, id: i })@ == StageView::Launch(u@, a@, i@),
        Stage::Idle@ is Idle,
        Stage::Resolve@ is Resolve,
        Stage::Over@ is Over,
{
}

/// Every action of a debug session is known by what it is to be done with.
pub proof fn lemma_actions_held(
    o: Out,
    j: Json,
    b: Vec<u8>,
    u: String,
    i: String,
    c: LaunchConfig,
    t: TailPlan,
    n: i32,
)
    ensures
        Action::ToClient(o)@ == ActionView::ToClient(o@),
        Action::ToChild(o)@ == ActionView::ToChild(o@),
        Out::Raw(b)@ == OutView::Raw(b@),
        Out::Msg(j)@ == OutView::Msg(j@),
        Action::ReadConfig(j)@ == ActionView::ReadConfig(j@),
        Action::StartPipeline(c)@ == ActionView::StartPipeline(c@),
        (Action::TerminateApp { udid: u, bundle_id: i })@ == (ActionView::TerminateApp {
            udid: u@,
            bundle_id: i@,
        }),
        Action::ClaimPidfile(u)@ == ActionView::ClaimPidfile(u@),
        Action::StartTailers(t)@ == ActionView::StartTailers(t@),
        Action::Exit(n)@ == ActionView::Exit(n),
        Action::CancelPipeline@ is CancelPipeline,
        Action::StartMock@ is StartMock,
        Action::KillMock@ is KillMock,
        t@.stdout_file == t.stdout_file@,
        t@.stderr_file == t.stderr_file@,
        t.oslog == Some((u, i)) ==> t@.oslog == Some((u@, i@)),
        t.oslog is None ==> t@.oslog is None,
{
}

/// What is sent goes out as a frame: bytes as they are, and a message as its JSON text.
pub proof fn lemma_sent_as_frames(body: Seq<u8>, v: JsonView)
    ensures
        wire(OutView::Raw(body)) == frame_of(body),
        wire(OutView::Msg(v)) == frame_of(encode_utf8(serde_compact(v))),
{
}

/// Entries of the compile store are known by all of their parts.
pub proof fn lemma_entries_held(e: ModuleEntry, m: ParsedModule, p: Persisted)
    ensures
        e@.args == texts(e.args@),
        e@.working_dir == e.working_dir@,
        e@.files == texts(e.files@),
        e@.file_lists == texts(e.file_lists@),
        e@.index_store_path == opt_view(e.index_store_path),
        m@.name == m.module_name@,
        m@.working_dir == m.working_dir@,
        m@.index_store_path == opt_view(m.index_store_path),
        m@.files == texts(m.files@),
        m@.file_lists == texts(m.file_lists@),
        m@.args == texts(m.args@),
        p@.version == p.version,
        p@.build_root == p.build_root@,
        p@.scheme == p.scheme@,
        p@.last_log == opt_view(p.last_log),
{
}

/// Choices, devices and the settings of a project are known by all of their parts.
pub proof fn lemma_choices_held(
    s: Selection,
    d: Device,
    p: ProjectConfig,
    f: ProjectFlags,
    b: BsConfig,
)
    ensures
        s@.scheme == opt_view(s.scheme),
        s@.device == opt_view(s.device),
        s@.os == opt_view(s.os),
        d@.udid == d.udid@,
        d@.name == d.name@,
        d@.state == d.state@,
        d@.os == d.os,
        p@.workspace == p.workspace@,
        p@.scheme == p.scheme@,
        p@.device == p.device@,
        p@.os == opt_view(p.os),
        p@.preflight == opt_view(p.preflight),
        p@.oslog == p.oslog,
        p@.derived_data == opt_view(p.derived_data),
        f@.workspace == opt_view(f.workspace),
        f@.scheme == opt_view(f.scheme),
        f@.device == opt_view(f.device),
        f@.os == opt_view(f.os),
        f@.preflight == opt_view(f.preflight),
        f@.oslog == f.oslog,
        f@.derived_data == opt_view(f.derived_data),
        b@.build_root == opt_view(b.build_root),
        b@.scheme == opt_view(b.scheme),
        b@.workspace == opt_view(b.workspace),
{
}

/// A text that may be absent is there where its value is, and holds the same characters.
pub proof fn lemma_optional_held(s: String, r: Result<String, String>)
    ensures
        opt_view(Some(s)) == Some(s@),
        opt_view(None) is None,
        r matches Ok(t) ==> text_result(r) == Ok::<Seq<char>, Seq<char>>(t@),
        r matches Err(t) ==> text_result(r) == Err::<Seq<char>, Seq<char>>(t@),
        r matches Ok(t) ==> texts(seq![t]) == seq![t@],
{
    if let Ok(t) = r {
        assert(texts(seq![t]) =~= seq![t@]);
    }
}

} // verus!
