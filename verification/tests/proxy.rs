//! The proxy between the client and the debugger.

use xcode_dap::dap::framing::DapReader;
use xcode_dap::dap::peek::SEQ_BASE;
use xcode_dap::dap::proxy::accept_initialize;
use xcode_dap::dap::proxy::output_line;
use xcode_dap::dap::proxy::start_session;
use xcode_dap::dap::proxy::Action;
use xcode_dap::dap::proxy::FirstFrame;
use xcode_dap::dap::proxy::Out;
use xcode_dap::dap::proxy::PipelineDone;
use xcode_dap::dap::proxy::Proxy;
use xcode_dap::dap::proxy::Startup;
use xcode_dap::engine::config::BuildOutput;
use xcode_dap::engine::config::LaunchConfig;
use xcode_dap::engine::pipeline::LaunchedApp;
use xcode_dap::json::Json;

fn config(terminate_on_stop: bool) -> LaunchConfig {
    LaunchConfig {
        workspace: "/p/App.xcworkspace".to_string(),
        scheme: "App".to_string(),
        device: None,
        os: None,
        configuration: None,
        preflight: None,
        oslog: true,
        oslog_predicate: None,
        terminate_on_stop,
        build_output: BuildOutput::Filtered,
        verbose_logging: false,
        derived_data: None,
    }
}

fn done(terminate_on_stop: bool) -> PipelineDone {
    PipelineDone {
        app: LaunchedApp {
            pid: 4711,
            udid: "U".to_string(),
            bundle_id: "com.x".to_string(),
            app_path: "/dd/App.app".to_string(),
            stdout_file: "/r/out.log".to_string(),
            stderr_file: "/r/err.log".to_string(),
        },
        config: Some(config(terminate_on_stop)),
        mock: false,
    }
}

const LAUNCH: &[u8] = br#"{"seq":5,"type":"request","command":"launch","arguments":{"scheme":"App"}}"#;
const DISCONNECT: &[u8] = br#"{"seq":8,"type":"request","command":"disconnect","arguments":{}}"#;

/// The message of an action that tells the client something.
fn told(a: &Action) -> &Json {
    match a {
        Action::ToClient(Out::Msg(v)) => v,
        _ => panic!("not a message for the client"),
    }
}

/// The message of an action that asks the debugger something.
fn asked(a: &Action) -> &Json {
    match a {
        Action::ToChild(Out::Msg(v)) => v,
        _ => panic!("not a request for the debugger"),
    }
}

/// A proxy that has attached to an app.
fn attached(terminate_on_stop: bool) -> Proxy {
    let mut p = Proxy::new(false);
    p.on_client_message(LAUNCH).unwrap();
    p.on_launch_config(Ok(config(terminate_on_stop)));
    p.on_pipeline_result(Ok(done(terminate_on_stop)));
    let reply = format!(
        r#"{{"seq":1,"type":"response","request_seq":{},"success":true,"command":"attach"}}"#,
        SEQ_BASE + 1
    );
    let actions = p.on_child_message(reply.as_bytes()).unwrap();
    assert_eq!(told(&actions[0]).str_at("command"), Some("launch"));
    assert_eq!(told(&actions[0]).i64_at("request_seq"), Some(5));
    assert_eq!(
        told(&actions[1]).get("body").unwrap().str_at("output"),
        Some("Debugger attached\n")
    );
    match &actions[2] {
        Action::StartTailers(plan) => {
            assert_eq!(plan.stdout_file, "/r/out.log");
            assert_eq!(plan.stderr_file, "/r/err.log");
            let (udid, predicate) = plan.oslog.as_ref().unwrap();
            assert_eq!(udid, "U");
            assert_eq!(
                predicate,
                "subsystem == \"com.x\" OR senderImagePath CONTAINS \"/App.app/\""
            );
        }
        _ => panic!("no tailers"),
    }
    p
}

#[test]
fn everything_else_passes_as_it_is() {
    let mut p = Proxy::new(false);
    let raw = br#"{ "seq": 2,  "type":"request", "command":"threads" }"#;
    match &p.on_client_message(raw).unwrap()[..] {
        [Action::ToChild(Out::Raw(b))] => assert_eq!(&b[..], raw),
        _ => panic!("not passed on"),
    }
    let event = br#"{"type":"event",  "event":"stopped"}"#;
    match &p.on_child_message(event).unwrap()[..] {
        [Action::ToClient(Out::Raw(b))] => assert_eq!(&b[..], event),
        _ => panic!("not passed on"),
    }
}

#[test]
fn broken_frames_are_reported() {
    let mut p = Proxy::new(false);
    assert!(p.on_client_message(b"{").unwrap_err().starts_with("client frame is not valid JSON: "));
    assert!(p.on_child_message(b"{").unwrap_err().starts_with("child frame is not valid JSON: "));
    assert!(accept_initialize(b"{").is_err());
}

#[test]
fn the_first_frame_is_initialize() {
    let init = br#"{"seq":1,"type":"request","command":"initialize","arguments":{"clientID":"zed"}}"#;
    assert_eq!(accept_initialize(init), Ok(Some("zed".to_string())));
    let nameless = br#"{"seq":1,"type":"request","command":"initialize"}"#;
    assert_eq!(accept_initialize(nameless), Ok(Some("unknown".to_string())));
    assert_eq!(accept_initialize(LAUNCH), Ok(None));
}

#[test]
fn a_launch_selects_the_platform_and_attaches() {
    let mut p = Proxy::new(false);
    match &p.on_client_message(LAUNCH).unwrap()[..] {
        [Action::ReadConfig(args)] => assert_eq!(args.str_at("scheme"), Some("App")),
        _ => panic!("the configuration is not asked for"),
    }
    assert!(!p.is_pipeline_running());
    assert!(matches!(p.on_launch_config(Ok(config(true)))[..], [Action::StartPipeline(_)]));
    assert!(p.is_pipeline_running());
    let actions = p.on_pipeline_result(Ok(done(true)));
    assert_eq!(actions.len(), 3);
    assert!(matches!(&actions[0], Action::ClaimPidfile(u) if u == "U"));
    let select = asked(&actions[1]);
    assert_eq!(select.i64_at("seq"), Some(SEQ_BASE));
    assert_eq!(
        select.get("arguments").unwrap().str_at("expression"),
        Some("platform select ios-simulator")
    );
    let attach = asked(&actions[2]);
    assert_eq!(attach.i64_at("seq"), Some(SEQ_BASE + 1));
    assert_eq!(attach.get("arguments").unwrap().i64_at("pid"), Some(4711));
    // The answer to the platform request is swallowed.
    let reply = format!(
        r#"{{"seq":1,"type":"response","request_seq":{SEQ_BASE},"success":true,"command":"evaluate"}}"#
    );
    assert!(p.on_child_message(reply.as_bytes()).unwrap().is_empty());
}

#[test]
fn a_second_launch_is_refused() {
    let mut p = attached(true);
    let actions = p.on_client_message(LAUNCH).unwrap();
    assert_eq!(actions.len(), 1);
    assert_eq!(
        told(&actions[0]).str_at("message"),
        Some("a launch is already in progress in this session")
    );
}

#[test]
fn failures_end_the_session() {
    let mut p = Proxy::new(false);
    p.on_client_message(LAUNCH).unwrap();
    let actions = p.on_launch_config(Err("missing field `scheme`".to_string()));
    assert_eq!(actions.len(), 4);
    assert_eq!(
        told(&actions[0]).str_at("message"),
        Some("invalid launch configuration: missing field `scheme`")
    );
    assert_eq!(told(&actions[2]).str_at("event"), Some("terminated"));
    assert!(matches!(actions[3], Action::Exit(1)));

    let mut p = Proxy::new(false);
    p.on_client_message(LAUNCH).unwrap();
    p.on_launch_config(Ok(config(true)));
    let actions = p.on_pipeline_result(Err("build failed".to_string()));
    assert_eq!(told(&actions[0]).i64_at("request_seq"), Some(5));
    assert_eq!(told(&actions[1]).get("body").unwrap().str_at("output"), Some("build failed\n"));
}

#[test]
fn a_disconnect_cancels_a_running_launch() {
    let mut p = Proxy::new(false);
    p.on_client_message(LAUNCH).unwrap();
    p.on_launch_config(Ok(config(true)));
    assert!(matches!(p.on_client_message(DISCONNECT).unwrap()[..], [Action::CancelPipeline]));
    let actions = p.on_pipeline_result(Ok(done(true)));
    assert!(matches!(&actions[0], Action::TerminateApp { udid, .. } if udid == "U"));
    assert_eq!(told(&actions[1]).str_at("command"), Some("disconnect"));
    assert_eq!(told(&actions[1]).i64_at("request_seq"), Some(8));
    assert_eq!(told(&actions[2]).str_at("event"), Some("terminated"));
    assert!(matches!(actions[3], Action::Exit(0)));
    assert!(p.teardown(None, false).is_empty());
}

#[test]
fn a_disconnect_after_the_end_is_answered_here() {
    let mut p = attached(true);
    match &p.on_client_message(DISCONNECT).unwrap()[..] {
        [Action::ToChild(Out::Raw(_))] => {}
        _ => panic!("not passed on"),
    }
    p.on_child_message(br#"{"type":"event","event":"terminated"}"#).unwrap();
    let actions = p.on_client_message(DISCONNECT).unwrap();
    assert_eq!(told(&actions[0]).str_at("command"), Some("disconnect"));
    assert!(matches!(actions[1], Action::Exit(0)));
}

#[test]
fn teardown_ends_what_should_end() {
    let ends = |actions: Vec<Action>| matches!(actions[..], [Action::TerminateApp { .. }]);
    // Terminate-on-stop.
    assert!(ends(attached(true).teardown(None, false)));
    assert!(!ends(attached(false).teardown(None, false)));
    // A newer session owns the app.
    assert!(!ends(attached(true).teardown(None, true)));
    // The process is gone.
    let mut p = attached(true);
    p.on_child_message(br#"{"type":"event","event":"exited","body":{"exitCode":0}}"#).unwrap();
    assert!(!ends(p.teardown(None, false)));
    // Launched suspended, never attached: always terminated.
    let mut p = Proxy::new(false);
    p.on_client_message(LAUNCH).unwrap();
    p.on_launch_config(Ok(config(false)));
    assert!(ends(p.teardown(Some(done(false)), false)));
}

#[test]
fn the_mock_is_attached_to_without_a_platform() {
    let mut p = Proxy::new(true);
    assert!(matches!(p.on_client_message(LAUNCH).unwrap()[..], [Action::StartMock]));
    let mut mock = done(true);
    mock.mock = true;
    mock.config = None;
    let actions = p.on_pipeline_result(Ok(mock));
    assert_eq!(actions.len(), 2);
    assert_eq!(asked(&actions[1]).i64_at("seq"), Some(SEQ_BASE));
    assert!(matches!(p.teardown(None, false)[..], [Action::KillMock]));
}

#[test]
fn a_failed_attach_is_told() {
    let mut p = Proxy::new(true);
    p.on_client_message(LAUNCH).unwrap();
    p.on_pipeline_result(Ok(done(true)));
    let reply = format!(
        r#"{{"seq":1,"type":"response","request_seq":{SEQ_BASE},"success":false,"command":"attach","message":"no"}}"#
    );
    let actions = p.on_child_message(reply.as_bytes()).unwrap();
    assert_eq!(actions.len(), 2);
    assert_eq!(told(&actions[0]).str_at("command"), Some("launch"));
    assert_eq!(
        told(&actions[1]).get("body").unwrap().str_at("output"),
        Some("Debugger attach failed\n")
    );
}

#[test]
fn output_categories() {
    for (given, shown) in [("build", "console"), ("oslog", "console"), ("preflight", "console"), ("stderr", "stderr")] {
        let event = output_line(given, "hi");
        let body = event.get("body").unwrap();
        assert_eq!(body.str_at("category"), Some(shown));
        assert_eq!(body.str_at("output"), Some("hi\n"));
    }
}

#[test]
fn what_is_written_is_read_back() {
    let mut r = DapReader::new();
    r.push(&Out::Raw(b"{}".to_vec()).bytes());
    r.push(&Out::Msg(Json::Str("x\n".to_string())).bytes());
    assert_eq!(r.next_message().unwrap().unwrap(), b"{}");
    assert_eq!(r.next_message().unwrap().unwrap(), br#""x\n""#);
    assert_eq!(r.next_message().unwrap(), None);
}

#[test]
fn a_session_starts_with_initialize_alone() {
    let init = br#"{"seq":1,"type":"request","command":"initialize","arguments":{"clientID":"zed"}}"#;
    assert!(matches!(start_session(FirstFrame::Frame(init)), Ok(Startup::Begin(id)) if id == "zed"));
    match start_session(FirstFrame::Frame(LAUNCH)) {
        Ok(Startup::Refuse(m)) => assert!(m.contains("first DAP message was not `initialize`")),
        _ => panic!("started"),
    }
    for first in [FirstFrame::Silence(2), FirstFrame::Closed(2)] {
        match start_session(first) {
            Ok(Startup::Refuse(m)) => assert!(m.contains("arrived within 2s. This binary")),
            _ => panic!("started"),
        }
    }
    assert!(start_session(FirstFrame::Frame(b"{")).is_err());
}

#[test]
fn tailers_start_once() {
    let mut p = attached(true);
    let again = format!(
        r#"{{"seq":9,"type":"response","request_seq":{},"success":true,"command":"attach"}}"#,
        SEQ_BASE + 1
    );
    let actions = p.on_child_message(again.as_bytes()).unwrap();
    assert!(!actions.iter().any(|a| matches!(a, Action::StartTailers(_))));
}
