//! The build-and-launch pipeline, the console pumps and the settings cache.

use xcode_dap::engine::consoles::oslog_args;
use xcode_dap::engine::consoles::oslog_ended;
use xcode_dap::engine::consoles::Tail;
use xcode_dap::engine::disk::Disk;
use xcode_dap::engine::pipeline::bundle_id;
use xcode_dap::engine::pipeline::ensure_build_server;
use xcode_dap::engine::pipeline::ingest_build_log;
use xcode_dap::engine::pipeline::ingest_target;
use xcode_dap::engine::pipeline::run_dir;
use xcode_dap::engine::pipeline::turn;
use xcode_dap::engine::pipeline::BootEnd;
use xcode_dap::engine::pipeline::Event;
use xcode_dap::engine::pipeline::PipelineError;
use xcode_dap::engine::pipeline::Plan;
use xcode_dap::engine::pipeline::ServerStep;
use xcode_dap::engine::pipeline::Stage;
use xcode_dap::engine::pipeline::Step;
use xcode_dap::engine::pipeline::Turn;
use xcode_dap::engine::xcodebuild::app_path;
use xcode_dap::engine::xcodebuild::known_app_path;
use xcode_dap::engine::xcodebuild::known_build_root;
use xcode_dap::engine::xcodebuild::resolve_build_root;
use xcode_dap::engine::xcodebuild::BuildFailed;
use xcode_dap::engine::xcodebuild::SettingsCache;

fn plan(launch: bool, preflight: Option<&str>) -> Plan {
    Plan {
        workspace: "/p/App.xcworkspace".to_string(),
        scheme: "App".to_string(),
        preflight: preflight.map(String::from),
        launch,
        debug: true,
        home: "/h".to_string(),
    }
}

fn failure(t: &Turn) -> String {
    match &t.step {
        Step::Fail(PipelineError::Other(m)) => m.clone(),
        _ => panic!("no failure"),
    }
}

#[test]
fn a_launch_runs_from_workspace_to_pid() {
    let p = plan(true, None);
    let t = turn(&p, Stage::Idle, Event::Start { workspace_exists: true });
    assert!(matches!(t.step, Step::ResolveDevice));
    let t = turn(&p, t.stage, Event::Device { result: Ok("U".to_string()), cancelled: false });
    assert_eq!(t.lines, vec!["Simulator: U", "Booting simulator (visible)..."]);
    assert!(matches!(&t.step, Step::Boot { udid } if udid == "U"));
    let t = turn(&p, t.stage, Event::Booted { end: BootEnd::Done, cancelled: false });
    assert!(matches!(t.step, Step::EnsureBuildServer));
    let t = turn(&p, t.stage, Event::BuildServerReady { cancelled: false });
    assert_eq!(t.lines, vec!["Building scheme \"App\"..."]);
    let t = turn(&p, t.stage, Event::Built(Ok(())));
    assert!(matches!(t.step, Step::LocateApp { .. }));
    let t = turn(&p, t.stage, Event::App(Ok("/dd/App.app".to_string())));
    assert_eq!(t.lines, vec!["App: /dd/App.app"]);
    assert!(matches!(t.step, Step::ReadBundleId { supersede: true, .. }));
    let t = turn(&p, t.stage, Event::BundleId { result: Ok("com.x".to_string()), cancelled: false });
    assert_eq!(t.lines, vec!["Installing com.x..."]);
    let t = turn(&p, t.stage, Event::Installed(Ok(())));
    match &t.step {
        Step::PrepareFiles { dir, stdout_file, .. } => {
            assert_eq!(dir, "/h/run/U");
            assert_eq!(stdout_file, "/h/run/U/out.log");
        }
        _ => panic!("no files"),
    }
    let t = turn(&p, t.stage, Event::FilesReady(Ok(())));
    assert_eq!(t.lines, vec!["Launching com.x (waiting for debugger)..."]);
    assert!(matches!(&t.step, Step::Launch { app_name, debug: true, .. } if app_name == "App"));
    let t = turn(&p, t.stage, Event::Launched(Ok(4711)));
    assert_eq!(t.lines, vec!["Launched com.x (pid 4711)"]);
    match &t.step {
        Step::Running(app) => {
            assert_eq!(app.pid, 4711);
            assert_eq!(app.stderr_file, "/h/run/U/err.log");
        }
        _ => panic!("not running"),
    }
    // Nothing follows.
    let t = turn(&p, t.stage, Event::Launched(Ok(1)));
    assert!(matches!(t.step, Step::Wait));
}

#[test]
fn a_build_alone_boots_nothing() {
    let p = plan(false, None);
    let t = turn(&p, Stage::Resolve, Event::Device { result: Ok("U".to_string()), cancelled: false });
    assert!(matches!(t.step, Step::EnsureBuildServer));
    let t = turn(
        &p,
        Stage::Locate { udid: "U".to_string() },
        Event::App(Ok("/dd/App.app".to_string())),
    );
    assert!(matches!(&t.step, Step::Finished { app, .. } if app == "/dd/App.app"));
}

#[test]
fn a_missing_workspace_needs_a_preflight() {
    let t = turn(&plan(true, None), Stage::Idle, Event::Start { workspace_exists: false });
    assert!(failure(&t).starts_with("workspace /p/App.xcworkspace not found and no \"preflight\""));
    let p = plan(true, Some("make project"));
    let t = turn(&p, Stage::Idle, Event::Start { workspace_exists: false });
    assert_eq!(
        t.lines,
        vec!["Workspace /p/App.xcworkspace missing \u{2014} running preflight: make project"]
    );
    match &t.step {
        Step::Preflight { command, inside } => {
            assert_eq!(command, "make project");
            assert_eq!(inside.as_deref(), Some("/p"));
        }
        _ => panic!("no preflight"),
    }
    let gone = turn(&p, t.stage, Event::PreflightDone { outcome: Ok(()), workspace_exists: false });
    assert_eq!(
        failure(&gone),
        "preflight `make project` completed but workspace /p/App.xcworkspace still does not exist"
    );
    let stage = Stage::Preflight { command: "make project".to_string() };
    let broke = turn(
        &p,
        stage,
        Event::PreflightDone { outcome: Err("exit 2".to_string()), workspace_exists: true },
    );
    assert_eq!(failure(&broke), "preflight `make project` failed: exit 2");
}

#[test]
fn every_failure_ends_the_run() {
    let p = plan(true, None);
    let boot = || Stage::Boot { udid: "U".to_string() };
    let t = turn(&p, boot(), Event::Booted { end: BootEnd::TimedOut, cancelled: false });
    assert!(failure(&t).starts_with("simulator did not finish booting in 240s"));
    assert!(matches!(t.stage, Stage::Over));
    let t = turn(&p, boot(), Event::Booted { end: BootEnd::Cancelled, cancelled: true });
    assert_eq!(failure(&t), "cancelled while booting simulator");
    let t = turn(&p, boot(), Event::Booted { end: BootEnd::Failed("no".to_string()), cancelled: false });
    assert_eq!(failure(&t), "no");
    let t = turn(&p, boot(), Event::Booted { end: BootEnd::Done, cancelled: true });
    assert_eq!(failure(&t), "cancelled");
    let failed = BuildFailed { code: 65, errors: vec![], log_path: None };
    let t = turn(
        &p,
        Stage::Build { udid: "U".to_string() },
        Event::Built(Err(PipelineError::Build(failed))),
    );
    assert!(matches!(t.step, Step::Fail(PipelineError::Build(b)) if b.code == 65));
}

#[test]
fn the_build_server_file_is_renewed_only_where_wanted() {
    assert_eq!(ensure_build_server(Some(2), Some(1), true, None), ServerStep::Fresh);
    assert_eq!(ensure_build_server(Some(1), Some(2), true, None), ServerStep::Regenerate);
    assert_eq!(ensure_build_server(None, Some(2), false, None), ServerStep::NotOptedIn);
    let debug = r#"[{ "adapter": "Xcode" }]"#;
    assert_eq!(ensure_build_server(None, Some(2), false, Some(debug)), ServerStep::Regenerate);
    assert_eq!(ingest_target(false, None, Some("/dd"), "/x"), None);
    assert_eq!(ingest_target(true, None, Some("/dd"), "/x").as_deref(), Some("/dd"));
    assert_eq!(
        ingest_target(true, None, None, "/dd/Build/Products/Debug/App.app").as_deref(),
        Some("/dd")
    );
}

#[test]
fn a_build_log_without_modules_changes_nothing() {
    assert!(ingest_build_log("/dd", "S", "nothing here\n", None, &Disk::new()).is_none());
}

#[test]
fn bundle_ids() {
    assert_eq!(bundle_id(true, b"com.x\n", b"", "/Info.plist").unwrap(), "com.x");
    assert_eq!(
        bundle_id(true, b" \n", b"", "/Info.plist").unwrap_err(),
        "empty CFBundleIdentifier in /Info.plist"
    );
    assert_eq!(
        bundle_id(false, b"", b"no key\n", "/Info.plist").unwrap_err(),
        "reading CFBundleIdentifier from /Info.plist failed: no key"
    );
    assert_eq!(run_dir("/h", "U"), "/h/run/U");
}

#[test]
fn a_tail_gives_whole_lines() {
    let mut t = Tail::new();
    assert_eq!(t.wanted(10), 10);
    assert_eq!(t.take_in(b"one\r\ntwo\nth"), vec!["one", "two"]);
    assert_eq!(t.wanted(15), 15 - 11);
    assert_eq!(t.take_in(b"ree\n"), vec!["three"]);
    assert_eq!(t.finish(), None);
    t.take_in(b"\xff");
    assert_eq!(t.finish().as_deref(), Some("\u{FFFD}"));
    // A file that was cut is read from its start.
    assert_eq!(t.wanted(3), 3);
    assert_eq!(t.offset, 0);
    assert_eq!(t.finish(), None);
}

#[test]
fn the_log_stream() {
    assert_eq!(
        oslog_args("U", "p").join(" "),
        "simctl spawn U log stream --style compact --color none --level debug --predicate p"
    );
    assert_eq!(oslog_ended(None, " \n"), "oslog: log stream exited (unknown status)");
    assert_eq!(
        oslog_ended(Some("exit status: 1"), "bad\n"),
        "oslog: log stream exited (exit status: 1): bad"
    );
}

const SETTINGS: &[u8] = br#"[{"buildSettings": {
    "TARGET_BUILD_DIR": "/dd/Build/Products/Debug-iphonesimulator",
    "WRAPPER_NAME": "App.app",
    "BUILD_DIR": "/dd/Build/Products"
}}]"#;

#[test]
fn settings_are_cached_by_workspace_time() {
    let mut cache = SettingsCache::new();
    assert_eq!(known_app_path(&cache, "k", 1, true), None);
    let app = app_path(&mut cache, "k", 1, true, SETTINGS, b"").unwrap();
    assert_eq!(app, "/dd/Build/Products/Debug-iphonesimulator/App.app");
    assert_eq!(known_app_path(&cache, "k", 1, true), Some(app));
    // Another time, or an app that is gone, is no hit.
    assert_eq!(known_app_path(&cache, "k", 2, true), None);
    assert_eq!(known_app_path(&cache, "k", 1, false), None);
    assert!(app_path(&mut cache, "j", 1, false, b"", b"boom\n").unwrap_err().contains("boom"));
    assert_eq!(known_app_path(&cache, "j", 1, true), None);

    let root = resolve_build_root(&mut cache, "r", 1, true, SETTINGS, b"").unwrap();
    assert_eq!(root, "/dd");
    assert_eq!(known_build_root(None, &cache, "r", 1).as_deref(), Some("/dd"));
    assert_eq!(known_build_root(Some("/given"), &cache, "r", 1).as_deref(), Some("/given"));
    assert!(resolve_build_root(&mut cache, "q", 1, false, b"", b"no\n").is_err());
}
