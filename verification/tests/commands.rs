//! The commands: console, run, build, clean, setup, refresh.

use xcode_dap::commands::build_args::exit_with_build_code;
use xcode_dap::commands::build_args::BuildArgs;
use xcode_dap::commands::clean::clean_config;
use xcode_dap::commands::clean::clean_result;
use xcode_dap::commands::clean::CleanArgs;
use xcode_dap::commands::console::dump;
use xcode_dap::commands::console::newest_run_dir;
use xcode_dap::commands::console::prefix;
use xcode_dap::commands::console::run_dir_for;
use xcode_dap::commands::console::RunDir;
use xcode_dap::commands::refresh::refreshed;
use xcode_dap::commands::run::oslog_predicate;
use xcode_dap::commands::run::run_note;
use xcode_dap::commands::run::RunNote;
use xcode_dap::commands::setup::check_args;
use xcode_dap::commands::setup::confirm;
use xcode_dap::commands::setup::project_flags;
use xcode_dap::commands::setup::SetupArgs;
use xcode_dap::engine::config::BuildOutput;
use xcode_dap::engine::pipeline::PipelineError;
use xcode_dap::engine::xcodebuild::BuildFailed;
use xcode_dap::setup::build_server::Regen;

fn run(path: &str, stdout_mtime: Option<i128>, stderr_mtime: Option<i128>) -> RunDir {
    RunDir { path: path.to_string(), stdout_mtime, stderr_mtime }
}

#[test]
fn newest_run_dir_picks_most_recent_logs() {
    let now: i128 = 1_700_000_000_000_000_000;
    let hour: i128 = 3_600_000_000_000;
    let dirs = vec![
        run("/r/UDID-OLD", Some(now - hour), None),
        run("/r/UDID-NEW", Some(now), None),
        run("/r/UDID-EMPTY", None, None), // no capture files: ignored
    ];
    assert_eq!(newest_run_dir(&dirs).unwrap(), "/r/UDID-NEW");
    // The later of the two capture files counts.
    let dirs = vec![run("/a", Some(1), Some(9)), run("/b", Some(5), Some(2))];
    assert_eq!(newest_run_dir(&dirs).unwrap(), "/a");
}

#[test]
fn newest_run_dir_errors_when_empty() {
    let err = newest_run_dir(&vec![]).unwrap_err();
    assert!(err.contains("no run logs found"));
    let err = newest_run_dir(&vec![run("/r/E", None, None)]).unwrap_err();
    assert!(err.contains("no run logs found"));
}

#[test]
fn captured_lines_are_marked() {
    assert_eq!(prefix("stderr"), "[err]");
    assert_eq!(prefix("stdout"), "[out]");
    assert_eq!(dump(b"a\r\nb\xff\n", "[out]"), vec!["[out] a", "[out] b\u{FFFD}"]);
    assert_eq!(run_dir_for("/r", "U", true).unwrap(), "/r/U");
    assert!(run_dir_for("/r", "U", false)
        .unwrap_err()
        .starts_with("no run logs for simulator U (/r/U does not exist)"));
}

fn build_args() -> BuildArgs {
    BuildArgs {
        workspace: "/w".to_string(),
        scheme: "S".to_string(),
        device: Some("iPhone 16".to_string()),
        os: None,
        configuration: None,
        derived_data: None,
        full_output: true,
        oslog: true,
        oslog_predicate: None,
    }
}

#[test]
fn build_arguments_become_a_configuration() {
    let c = build_args().to_config();
    assert_eq!(c.workspace, "/w");
    assert_eq!(c.device.as_deref(), Some("iPhone 16"));
    assert_eq!(c.build_output, BuildOutput::Full);
    assert!(c.terminate_on_stop);
    assert_eq!(c.preflight, None);
    assert_eq!(
        oslog_predicate(&c, "com.x", "/dd/App.app").as_deref(),
        Some("subsystem == \"com.x\" OR senderImagePath CONTAINS \"/App.app/\"")
    );
    let mut quiet = build_args();
    quiet.oslog = false;
    assert_eq!(oslog_predicate(&quiet.to_config(), "com.x", "/dd/App.app"), None);
    let mut own = build_args();
    own.oslog_predicate = Some("p".to_string());
    assert_eq!(oslog_predicate(&own.to_config(), "com.x", "/dd/App.app").as_deref(), Some("p"));
}

#[test]
fn the_exit_code_is_that_of_the_build() {
    let failed = BuildFailed {
        code: 65,
        errors: vec!["a.swift:1: error: x".to_string()],
        log_path: Some("/l".to_string()),
    };
    let err = PipelineError::Build(failed);
    assert_eq!(exit_with_build_code(&err), 65);
    assert_eq!(
        err.message(),
        "xcodebuild failed with exit code 65\n  a.swift:1: error: x\n  full build log: /l"
    );
    assert_eq!(exit_with_build_code(&PipelineError::Other("x".to_string())), 1);
}

#[test]
fn cleaning() {
    let args = CleanArgs {
        workspace: "/w".to_string(),
        scheme: "S".to_string(),
        configuration: Some("Debug".to_string()),
        derived_data: None,
    };
    let c = clean_config(&args, true).unwrap();
    assert_eq!(c.configuration.as_deref(), Some("Debug"));
    assert!(clean_config(&args, false).err().unwrap().starts_with("workspace /w not found"));
    assert!(clean_result(true, Some(0)).is_ok());
    assert_eq!(clean_result(false, Some(65)).unwrap_err().code, 65);
    assert_eq!(clean_result(false, None).unwrap_err().code, 1);
}

#[test]
fn what_a_run_says() {
    assert_eq!(
        run_note(RunNote::Streaming, "com.x", 7),
        "Streaming console of com.x (pid 7) \u{2014} Ctrl-C to detach (app keeps running)"
    );
    assert_eq!(run_note(RunNote::Exited, "com.x", 7), "App com.x (pid 7) exited");
    assert_eq!(run_note(RunNote::Detached, "com.x", 7), "Detached from com.x");
}

fn setup_args() -> SetupArgs {
    SetupArgs {
        project: None,
        user: false,
        yes: false,
        remove: false,
        workspace: None,
        scheme: None,
        device: None,
        os: None,
        preflight: None,
        oslog: false,
        derived_data: None,
    }
}

#[test]
fn setup_arguments_are_checked() {
    assert!(check_args(&setup_args()).unwrap_err().starts_with("nothing to do"));
    let mut both = setup_args();
    both.project = Some("/p".to_string());
    both.remove = true;
    assert!(check_args(&both).unwrap_err().starts_with("--remove only applies to --user"));
    let mut stray = setup_args();
    stray.user = true;
    assert_eq!(check_args(&stray), Ok(None));
    stray.scheme = Some("S".to_string());
    assert!(check_args(&stray).unwrap().unwrap().starts_with("warning: --workspace"));
    assert_eq!(project_flags(&stray).scheme.as_deref(), Some("S"));
    stray.project = Some("/p".to_string());
    assert_eq!(check_args(&stray), Ok(None));
}

#[test]
fn an_answer_agrees_or_not() {
    assert!(confirm(true, ""));
    assert!(confirm(false, " yes\n"));
    assert!(confirm(false, "Y"));
    assert!(!confirm(false, "\n"));
    assert!(!confirm(false, "Yes"));
}

#[test]
fn what_a_refresh_says() {
    assert_eq!(
        refreshed(&Regen::Failed("x".to_string()), "/w"),
        "\u{2717} buildServer.json refresh failed: x"
    );
    assert!(refreshed(&Regen::MissingWorkspace, "/w").starts_with("! workspace /w does not exist yet"));
}
