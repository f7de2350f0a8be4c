use xcode_dap::commands::doctor::build_root_has_activity_log;
use xcode_dap::commands::doctor::build_server_scheme_mismatch;
use xcode_dap::commands::doctor::check_binary_override;
use xcode_dap::commands::doctor::check_build_root;
use xcode_dap::commands::doctor::check_build_server_argv;
use xcode_dap::commands::doctor::check_freshness;
use xcode_dap::commands::doctor::check_in_project;
use xcode_dap::commands::doctor::check_log_file;
use xcode_dap::commands::doctor::check_macos;
use xcode_dap::commands::doctor::check_missing_build_server;
use xcode_dap::commands::doctor::check_on_path;
use xcode_dap::commands::doctor::check_pidfiles;
use xcode_dap::commands::doctor::check_scheme;
use xcode_dap::commands::doctor::check_simctl;
use xcode_dap::commands::doctor::check_tasks_command;
use xcode_dap::commands::doctor::check_tool;
use xcode_dap::commands::doctor::check_zed;
use xcode_dap::commands::doctor::classify_binary_override;
use xcode_dap::commands::doctor::classify_build_server_argv;
use xcode_dap::commands::doctor::cmd_first_line;
use xcode_dap::commands::doctor::compile_store_missing;
use xcode_dap::commands::doctor::conclusion;
use xcode_dap::commands::doctor::count_ios_simulators;
use xcode_dap::commands::doctor::find_container;
use xcode_dap::commands::doctor::missing_build_server_is_failure;
use xcode_dap::commands::doctor::read_override;
use xcode_dap::commands::doctor::read_server;
use xcode_dap::commands::doctor::read_tasks;
use xcode_dap::commands::doctor::xcrun_missing;
use xcode_dap::commands::doctor::zed_apps;
use xcode_dap::commands::doctor::zed_dap_binary_override;
use xcode_dap::commands::doctor::ArgvState;
use xcode_dap::commands::doctor::BinaryOverride;
use xcode_dap::commands::doctor::Finding;
use xcode_dap::commands::doctor::Grade;
use xcode_dap::commands::doctor::LogFacts;
use xcode_dap::commands::doctor::LogSeen;
use xcode_dap::commands::doctor::RunFile;
use xcode_dap::commands::doctor::SimctlOutput;
use xcode_dap::json::Json;
use xcode_dap::setup::jsonc::parse_jsonc;
use xcode_dap::setup::project::shell_quote;
use xcode_dap::setup::project::unquote_command;

fn names(list: &[&str]) -> Vec<String> {
    list.iter().map(|n| n.to_string()).collect()
}

fn json(text: &str) -> Json {
    parse_jsonc(text).unwrap()
}

#[test]
fn missing_build_server_escalates_with_root_package_swift() {
    let xcode = Some(r#"[{ "adapter": "Xcode" }]"#);
    // No Package.swift -> stays a warning.
    assert!(!missing_build_server_is_failure(true, false, None));
    // Root Package.swift next to a container but no Xcode scenario in
    // .zed/debug.json -> stays a warning.
    assert!(!missing_build_server_is_failure(true, true, None));
    // The project opted into the build server -> failure.
    assert!(missing_build_server_is_failure(true, true, xcode));
    // Pure SPM repo (no .xcworkspace/.xcodeproj) -> stays a warning.
    assert!(!missing_build_server_is_failure(false, true, xcode));
    // A Package.swift directory (pathological) does not count.
    assert!(!missing_build_server_is_failure(true, false, xcode));
    assert_eq!(check_missing_build_server(true).grade, Grade::Fail);
    assert_eq!(check_missing_build_server(false).grade, Grade::Warn);
}

#[test]
fn scheme_mismatch_detection() {
    let bs = json(r#"{ "scheme": "MyApp (staging)", "build_root": "/dd" }"#);
    assert_eq!(
        build_server_scheme_mismatch(&bs, Some("MyApp (production)")),
        Some(("MyApp (staging)".into(), "MyApp (production)".into()))
    );
    // Matching scheme, unknown selection, or no recorded scheme -> None.
    assert_eq!(build_server_scheme_mismatch(&bs, Some("MyApp (staging)")), None);
    assert_eq!(build_server_scheme_mismatch(&bs, None), None);
    assert_eq!(build_server_scheme_mismatch(&json("{}"), Some("X")), None);
    assert_eq!(build_server_scheme_mismatch(&json(r#"{ "scheme": 1 }"#), Some("X")), None);
    assert!(check_scheme(Some("A"), Some("B")).unwrap().detail.starts_with("records \"A\" but"));
    assert!(check_scheme(Some("A"), Some("A")).is_none());
}

#[test]
fn build_root_activity_log_detection() {
    // Empty Logs/Build -> wiped.
    assert!(!build_root_has_activity_log(&names(&[])));
    // Unrelated files don't count; an .xcactivitylog does.
    assert!(!build_root_has_activity_log(&names(&["LogStoreManifest.plist"])));
    assert!(build_root_has_activity_log(&names(&["LogStoreManifest.plist", "0-abc.xcactivitylog"])));
}

#[test]
fn binary_override_classification() {
    // Relative override: unverifiable from the cwd — never FAIL, even when the
    // stat (against cwd) says it does not exist.
    assert_eq!(
        classify_binary_override("target/debug/xcode-dap", false),
        BinaryOverride::Relative { dev_build: true }
    );
    assert_eq!(
        classify_binary_override("bin/xcode-dap", false),
        BinaryOverride::Relative { dev_build: false }
    );
    // Absolute paths: missing -> FAIL, dev build -> warn, else ok.
    assert_eq!(classify_binary_override("/nope/xcode-dap", false), BinaryOverride::Missing);
    assert_eq!(
        classify_binary_override("/repo/target/debug/xcode-dap", true),
        BinaryOverride::DevBuild
    );
    assert_eq!(classify_binary_override("/opt/homebrew/bin/xcode-dap", true), BinaryOverride::Fine);
}

#[test]
fn build_server_argv_classification() {
    // Missing / non-executable argv[0] -> fatal.
    assert_eq!(classify_build_server_argv(&names(&[]), false), ArgvState::Missing);
    assert_eq!(
        classify_build_server_argv(&names(&["/opt/xcode-dap", "bsp"]), false),
        ArgvState::NotExecutable
    );
    // Executable but wrong subcommand -> fatal.
    assert_eq!(
        classify_build_server_argv(&names(&["/opt/xcode-dap", "doctor"]), true),
        ArgvState::WrongSubcommand
    );
    assert_eq!(
        classify_build_server_argv(&names(&["/opt/xcode-dap"]), true),
        ArgvState::WrongSubcommand
    );
    // Executable target/debug build with bsp -> warn.
    assert_eq!(
        classify_build_server_argv(&names(&["/repo/target/debug/xcode-dap", "bsp"]), true),
        ArgvState::DevBuild
    );
    // Stable install with bsp -> ok.
    assert_eq!(
        classify_build_server_argv(&names(&["/opt/homebrew/bin/xcode-dap", "bsp"]), true),
        ArgvState::Fine
    );
}

#[test]
fn compile_store_missing_signal() {
    // Unknown scheme -> treated as missing.
    assert!(compile_store_missing(None, true));
    // A build_root/scheme ("/nonexistent-build-root-xyz", "MyApp") with no store
    // file on disk -> missing.
    assert!(compile_store_missing(Some("MyApp"), false));
    assert!(!compile_store_missing(Some("MyApp"), true));
}

#[test]
fn ios_simulator_count_ignores_non_ios_and_non_iphone_ipad() {
    let v = json(
        r#"{
            "devices": {
                "com.apple.CoreSimulator.SimRuntime.iOS-26-3": [
                    { "name": "iPhone 16 Pro", "state": "Booted", "isAvailable": true },
                    { "name": "iPad Pro 13-inch (M4)", "state": "Shutdown", "isAvailable": true },
                    { "name": "iPhone 17", "state": "Shutdown", "isAvailable": false }
                ],
                "com.apple.CoreSimulator.SimRuntime.watchOS-11-0": [
                    { "name": "Apple Watch Ultra 2 (49mm)", "state": "Booted", "isAvailable": true }
                ]
            }
        }"#,
    );
    // One iPhone + one iPad available, one booted; the unavailable iPhone and the
    // (booted) watchOS device are excluded.
    assert_eq!(count_ios_simulators(&v), (2, 1));

    // A machine with only a watchOS runtime reads as zero usable simulators.
    let watch_only = json(
        r#"{
            "devices": {
                "com.apple.CoreSimulator.SimRuntime.watchOS-11-0": [
                    { "name": "Apple Watch Ultra 2 (49mm)", "state": "Shutdown", "isAvailable": true }
                ]
            }
        }"#,
    );
    assert_eq!(count_ios_simulators(&watch_only), (0, 0));
}

#[test]
fn unquote_command_reverses_shell_quote() {
    // Round-trips the writer side, including a path with an embedded apostrophe.
    for s in [
        "/opt/homebrew/bin/xcode-dap",
        "/a b/target/release/xcode-dap",
        "/Users/x/O'Brien dev/xcode-dap",
    ] {
        assert_eq!(unquote_command(&shell_quote(s)), s);
    }
    // A bare (unquoted) command is returned unchanged.
    assert_eq!(unquote_command("xcode-dap"), "xcode-dap");
}

#[test]
fn binary_override_extracted_when_set() {
    let v = json(r#"{ "dap": { "Xcode": { "binary": "/opt/homebrew/bin/xcode-dap" } } }"#);
    assert_eq!(zed_dap_binary_override(&v), Some("/opt/homebrew/bin/xcode-dap"));
}

#[test]
fn binary_override_none_when_unset_or_wrong_shape() {
    assert_eq!(zed_dap_binary_override(&json("{}")), None);
    assert_eq!(zed_dap_binary_override(&json(r#"{ "dap": {} }"#)), None);
    assert_eq!(zed_dap_binary_override(&json(r#"{ "dap": { "Xcode": {} } }"#)), None);
    // Non-string binary is treated as unset.
    assert_eq!(zed_dap_binary_override(&json(r#"{ "dap": { "Xcode": { "binary": 1 } } }"#)), None);
    // A different adapter's override must not match.
    assert_eq!(
        zed_dap_binary_override(&json(r#"{ "dap": { "CodeLLDB": { "binary": "/x" } } }"#)),
        None
    );
}

#[test]
fn lines_and_conclusion() {
    assert_eq!(check_macos(true).line(), "✓ macOS");
    assert_eq!(check_macos(false).line(), "✗ macOS: xcode-dap is macOS-only");
    let none: Vec<Finding> = vec![];
    let (line, end) = conclusion(&none);
    assert_eq!((line.as_str(), end), ("0 failure(s), 0 warning(s)", Ok(())));
    let some = vec![check_macos(false), check_on_path(None), check_on_path(Some("/b")), check_macos(false)];
    let (line, end) = conclusion(&some);
    assert_eq!(line, "2 failure(s), 1 warning(s)");
    assert_eq!(end.unwrap_err(), "doctor found 2 failure(s)");
}

#[test]
fn tools_and_their_first_line() {
    assert_eq!(cmd_first_line(true, b"  Xcode 26.3 \nBuild 17\n").as_deref(), Some("Xcode 26.3"));
    assert_eq!(cmd_first_line(false, b"Xcode\n"), None);
    assert_eq!(cmd_first_line(true, b"\nXcode\n"), None);
    assert_eq!(check_tool("lldb-dap", Some("/x"), "").line(), "✓ lldb-dap: /x");
    assert_eq!(
        check_tool("lldb-dap", None, &xcrun_missing("lldb-dap")).line(),
        "✗ lldb-dap: `xcrun -f lldb-dap` failed; ships with Xcode 16+ — update Xcode"
    );
    assert_eq!(zed_apps("/h")[1], "/h/Applications/Zed.app");
    assert_eq!(zed_apps("/h").len(), 8);
    assert_eq!(check_zed(None, Some("/b/zed")).line(), "✓ Zed: cli at /b/zed");
    assert_eq!(check_zed(None, None).grade, Grade::Fail);
}

#[test]
fn simulators_listed_or_not() {
    assert_eq!(check_simctl(SimctlOutput::NotRunnable).line(), "✗ simctl: xcrun not runnable");
    assert_eq!(
        check_simctl(SimctlOutput::Failed(b" boom\n")).line(),
        "✗ simctl: simctl list failed: boom"
    );
    assert_eq!(check_simctl(SimctlOutput::Printed(b"x")).detail, "simctl list output is not JSON");
    assert_eq!(check_simctl(SimctlOutput::Printed(b"{}")).grade, Grade::Fail);
    let one = br#"{"devices": {"x.iOS-18-2": [{"name": "iPad", "isAvailable": true}]}}"#;
    assert_eq!(check_simctl(SimctlOutput::Printed(one)).line(), "✓ simulators: 1 available, 0 booted");
}

#[test]
fn findings_on_the_override() {
    assert_eq!(read_override(None, None).unwrap_err().grade, Grade::Note);
    assert_eq!(read_override(Some("/s"), None).unwrap_err().grade, Grade::Note);
    assert_eq!(read_override(Some("/s"), Some("{")).unwrap_err().grade, Grade::Warn);
    assert_eq!(read_override(Some("/s"), Some("{}")).unwrap_err().grade, Grade::Note);
    let set = r#"{"dap": {"Xcode": {"binary": "/b"}}}"#;
    assert_eq!(read_override(Some("/s"), Some(set)).unwrap(), "/b");
    let grades = |b: &str, exists: bool| -> Vec<Grade> {
        check_binary_override(b, exists, "then", "/s").iter().map(|f| f.grade).collect()
    };
    assert_eq!(grades("target/debug/x", false), vec![Grade::Note, Grade::Warn]);
    assert_eq!(grades("bin/x", false), vec![Grade::Note]);
    assert_eq!(grades("/bin/x", false), vec![Grade::Fail]);
    assert_eq!(grades("/r/target/debug/x", true), vec![Grade::Warn]);
    assert_eq!(grades("/bin/x", true), vec![Grade::Pass]);
}

#[test]
fn findings_on_the_build_server_file() {
    assert_eq!(check_freshness(Some(1), Some(2)).grade, Grade::Warn);
    assert_eq!(check_freshness(Some(2), Some(2)).line(), "✓ buildServer.json: present");
    assert_eq!(check_freshness(Some(2), None).grade, Grade::Pass);
    assert_eq!(read_server(None).err().unwrap().grade, Grade::Warn);
    assert_eq!(read_server(Some("x")).err().unwrap().grade, Grade::Warn);
    let facts = read_server(Some(r#"{"argv": ["/b", "bsp", 1], "scheme": "S"}"#)).ok().unwrap();
    assert_eq!(facts.argv, vec!["/b", "bsp"]);
    assert_eq!(facts.scheme.as_deref(), Some("S"));
    assert_eq!(facts.build_root, None);
    assert_eq!(
        check_build_server_argv(&facts.argv, true, Some("/b")).line(),
        "✓ buildServer.json argv[0]: /b"
    );
    assert_eq!(check_build_server_argv(&facts.argv, true, Some("/c")).grade, Grade::Note);
    assert_eq!(check_build_server_argv(&facts.argv, false, None).grade, Grade::Fail);
    assert_eq!(check_build_server_argv(&names(&[]), true, None).grade, Grade::Fail);
    assert!(check_build_root("/dd", true, true, true).is_none());
    assert!(check_build_root("/dd", true, false, false).is_none());
    assert!(check_build_root("/dd", true, false, true).is_some());
    assert!(check_build_root("/dd", false, true, false).unwrap().detail.contains("DerivedData wiped"));
}

#[test]
fn findings_on_task_commands() {
    let text = r#"[{"command": "xcode-dap"}, {"command": "'/a b/x'"}, {"command": "xcode-dap"}, {}]"#;
    assert_eq!(read_tasks(text).unwrap(), vec!["/a b/x", "xcode-dap"]);
    assert_eq!(read_tasks("[").unwrap_err().grade, Grade::Warn);
    assert_eq!(check_tasks_command("/a", true, None).grade, Grade::Pass);
    assert_eq!(check_tasks_command("/a", false, Some("/b")).grade, Grade::Fail);
    assert_eq!(
        check_tasks_command("x", false, Some("/b/x")).line(),
        "✓ .zed/tasks.json command: x (on PATH: /b/x)"
    );
    assert_eq!(check_tasks_command("x", true, None).grade, Grade::Fail);
}

#[test]
fn the_container_is_the_first_workspace() {
    let all = names(&["b.xcworkspace", "a.xcodeproj", "a.xcworkspace", "README.md"]);
    assert_eq!(find_container(&all).as_deref(), Some("a.xcworkspace"));
    assert_eq!(find_container(&names(&["z.xcodeproj", "b.xcodeproj"])).as_deref(), Some("b.xcodeproj"));
    assert_eq!(find_container(&names(&["README.md"])), None);
}

#[test]
fn outside_of_a_project_nothing_else_is_looked_at() {
    assert_eq!(check_in_project(false, false).unwrap().grade, Grade::Note);
    assert!(check_in_project(true, false).is_none());
    assert!(check_in_project(false, true).is_none());
}

#[test]
fn stale_pidfiles_and_the_log() {
    let files = vec![
        RunFile { name: "a.dappid".into(), alive: false },
        RunFile { name: "b.pid".into(), alive: true },
        RunFile { name: "c.pid".into(), alive: false },
        RunFile { name: "d.log".into(), alive: false },
    ];
    assert_eq!(
        check_pidfiles("/r", Some(&files)).line(),
        "! pidfiles: stale: a.dappid, c.pid (in /r) — safe to delete"
    );
    assert_eq!(check_pidfiles("/r", None).grade, Grade::Pass);
    assert_eq!(check_pidfiles("/r", Some(&vec![])).detail, "no stale pidfiles");
    let facts = LogFacts { len: 4096, modified: None };
    assert_eq!(
        check_log_file(Some("/l"), &LogSeen::Before(Some(facts))).line(),
        "✓ xcode-dap.log: /l (4 KB, modified unknown, before this run)"
    );
    assert_eq!(check_log_file(None, &LogSeen::Now(None)).detail, "HOME not set");
    assert_eq!(check_log_file(Some("/l"), &LogSeen::Now(None)).detail, "not created yet (/l)");
}
