//! xcodebuild command lines, settings and output.

use xcode_dap::engine::config::BuildOutput;
use xcode_dap::engine::config::LaunchConfig;
use xcode_dap::engine::xcodebuild::base_cmd;
use xcode_dap::engine::xcodebuild::build;
use xcode_dap::engine::xcodebuild::build_root_cache_key;
use xcode_dap::engine::xcodebuild::build_root_from_app;
use xcode_dap::engine::xcodebuild::clean;
use xcode_dap::engine::xcodebuild::decode_line;
use xcode_dap::engine::xcodebuild::parse_app_path;
use xcode_dap::engine::xcodebuild::parse_build_root;
use xcode_dap::engine::xcodebuild::settings_cache_key;
use xcode_dap::engine::xcodebuild::BuildFailed;
use xcode_dap::engine::xcodebuild::BuildStream;
use xcode_dap::engine::xcodebuild::LineFilter;

fn filtered() -> LineFilter {
    LineFilter::new(BuildOutput::Filtered)
}

#[test]
fn line_reader_is_lossy_and_survives_invalid_utf8() {
    // A middle line carries a raw non-UTF-8 byte (0xFF): it is decoded lossily.
    let lines: Vec<String> = vec![
        decode_line(b"first line\n"),
        decode_line(b"bad \xFF byte\n"),
        decode_line(b"last line\n"),
    ];
    assert_eq!(lines.len(), 3, "every line survives an invalid-UTF-8 line");
    assert_eq!(lines[0], "first line");
    assert_eq!(lines[2], "last line");
    assert!(lines[1].contains('\u{FFFD}'), "bad byte decoded lossily");
    assert_eq!(decode_line(b"crlf\r\n"), "crlf");
    assert_eq!(decode_line(b"bare cr\r"), "bare cr\r");
}

#[test]
fn passes_result_banners_and_phase_headers() {
    let mut f = filtered();
    assert!(f.passes("** BUILD SUCCEEDED **"));
    assert!(f.passes("** BUILD FAILED **"));
    assert!(f.passes("=== BUILD TARGET MyApp OF PROJECT MyApp ==="));
    assert!(f.passes("SwiftDriver MyApp normal arm64 (in target 'MyApp' from project 'MyApp')"));
    assert!(f.passes("Ld /path/MyApp.app/MyApp normal arm64"));
    assert!(f.passes("CodeSign /path/MyApp.app"));
    assert!(f.passes("PhaseScriptExecution [CP]\\ Check\\ Pods /path.sh"));
}

#[test]
fn drops_noise() {
    let mut f = filtered();
    assert!(!f.passes("    cd /Users/x/my-app-ios"));
    assert!(!f.passes("export PATH=/usr/bin"));
    assert!(!f.passes("CompileSwift normal arm64 /path/SomeFile.swift (in target 'MyApp')"));
    assert!(!f.passes(""));
}

#[test]
fn passes_diagnostics_with_context() {
    let mut f = filtered();
    assert!(f.passes("/path/File.swift:10:5: error: cannot find 'foo' in scope"));
    // Two context lines (source excerpt + caret) ride along...
    assert!(f.passes("        foo()"));
    assert!(f.passes("        ^~~"));
    // ...then filtering resumes.
    assert!(!f.passes("        bar()"));
    assert!(f.passes("/path/File.swift:12:1: warning: unused variable"));
    assert!(f.passes("note: Using codesigning identity"));
}

#[test]
fn full_mode_passes_everything() {
    let mut f = LineFilter::new(BuildOutput::Full);
    assert!(f.passes("    cd /anywhere"));
    assert!(f.passes(""));
}

#[test]
fn parses_app_path_from_settings_json() {
    let json = br#"[
        { "action": "build", "target": "SomeLib",
          "buildSettings": { "WRAPPER_NAME": "SomeLib.framework",
                              "TARGET_BUILD_DIR": "/dd/Build/Products/Debug-iphonesimulator" } },
        { "action": "build", "target": "MyApp",
          "buildSettings": { "WRAPPER_NAME": "MyApp.app",
                              "TARGET_BUILD_DIR": "/dd/Build/Products/Debug-iphonesimulator" } }
    ]"#;
    assert_eq!(
        parse_app_path(json).unwrap(),
        "/dd/Build/Products/Debug-iphonesimulator/MyApp.app"
    );
}

#[test]
fn build_failed_display_is_human_readable() {
    let plain = BuildFailed { code: 65, ..Default::default() };
    assert_eq!(plain.to_string(), "xcodebuild failed with exit code 65");

    let rich = BuildFailed {
        code: 65,
        errors: vec!["/x/File.swift:10:5: error: cannot find 'foo' in scope".into()],
        log_path: Some("/home/.zedxcode/logs/build-latest.log".into()),
    };
    assert_eq!(
        rich.to_string(),
        "xcodebuild failed with exit code 65\n  \
         /x/File.swift:10:5: error: cannot find 'foo' in scope\n  \
         full build log: /home/.zedxcode/logs/build-latest.log"
    );
}

fn cfg_for(workspace: &str, derived_data: Option<&str>) -> LaunchConfig {
    LaunchConfig {
        workspace: workspace.to_string(),
        scheme: "MyApp".into(),
        device: None,
        os: None,
        configuration: None,
        preflight: None,
        oslog: false,
        oslog_predicate: None,
        terminate_on_stop: true,
        build_output: BuildOutput::Filtered,
        verbose_logging: false,
        derived_data: derived_data.map(String::from),
    }
}

#[test]
fn base_cmd_picks_container_flag_by_extension() {
    let args = |workspace: &str| -> Vec<String> { base_cmd(&cfg_for(workspace, None)) };
    assert_eq!(
        args("MyApp.xcworkspace")[..2],
        ["-workspace", "MyApp.xcworkspace"]
    );
    // A bare .xcodeproj must go through -project (xcodebuild exits 66 when it
    // is passed via -workspace).
    assert_eq!(
        args("MyApp.xcodeproj")[..2],
        ["-project", "MyApp.xcodeproj"]
    );
    // The project's inner workspace is still a workspace.
    assert_eq!(
        args("MyApp.xcodeproj/project.xcworkspace")[..2],
        ["-workspace", "MyApp.xcodeproj/project.xcworkspace"]
    );
}

#[test]
fn app_path_missing_is_an_error() {
    let json =
        br#"[{ "buildSettings": { "WRAPPER_NAME": "Lib.framework", "TARGET_BUILD_DIR": "/dd" } }]"#;
    assert!(parse_app_path(json).is_err());
    assert!(parse_app_path(b"not json").is_err());
}

#[test]
fn parse_build_root_takes_build_dir_up_two_levels() {
    // BUILD_DIR = <build_root>/Build/Products -> build_root two up.
    let json = br#"[{ "buildSettings": { "BUILD_DIR":
        "/Users/x/Library/Developer/Xcode/DerivedData/MyApp-abc/Build/Products" } }]"#;
    assert_eq!(
        parse_build_root(json).unwrap(),
        "/Users/x/Library/Developer/Xcode/DerivedData/MyApp-abc"
    );
    // No BUILD_DIR anywhere -> error.
    assert!(parse_build_root(br#"[{ "buildSettings": { "OTHER": "x" } }]"#).is_err());
}

#[test]
fn build_root_from_app_matches_showbuildsettings_derivation() {
    // .app up four levels == the -showBuildSettings BUILD_DIR/../.. root.
    let app = "/Users/x/Library/Developer/Xcode/DerivedData/MyApp-abc/Build/Products/\
               Debug-iphonesimulator/MyApp.app";
    assert_eq!(
        build_root_from_app(None, app).unwrap(),
        "/Users/x/Library/Developer/Xcode/DerivedData/MyApp-abc"
    );
    // Explicit derivedData short-circuits, ignoring the .app path.
    assert_eq!(
        build_root_from_app(Some("/Users/x/dd"), app).unwrap(),
        "/Users/x/dd"
    );
}

#[test]
fn base_cmd_appends_derived_data_path_when_set() {
    // Absent -> no -derivedDataPath flag at all.
    assert!(!base_cmd(&cfg_for("MyApp.xcworkspace", None))
        .iter()
        .any(|a| a == "-derivedDataPath"));
    // Present -> the flag followed by the path.
    let with = base_cmd(&cfg_for("MyApp.xcworkspace", Some("/Users/x/dd")));
    let i = with
        .iter()
        .position(|a| a == "-derivedDataPath")
        .expect("-derivedDataPath present");
    assert_eq!(with[i + 1], "/Users/x/dd");
}

#[test]
fn cache_key_varies_with_derived_data() {
    let ws = "/Users/x/MyApp.xcworkspace";
    let none = settings_cache_key(ws, &cfg_for("MyApp.xcworkspace", None), "UDID");
    let dd = cfg_for("MyApp.xcworkspace", Some("/Users/x/dd"));
    let some = settings_cache_key(ws, &dd, "UDID");
    assert_ne!(none, some);
    // Same derivedData -> same key (cache hit).
    assert_eq!(some, settings_cache_key(ws, &dd, "UDID"));
    assert_eq!(build_root_cache_key("/w", "S", None), "/w|S|");
    // A bar inside a part is no bar between parts.
    assert_eq!(build_root_cache_key("/w|A", "B", None), "/w\\|A|B|");
    assert_eq!(build_root_cache_key("/w", "A|B", None), "/w|A\\|B|");
    assert_ne!(build_root_cache_key("/w\\", "A", None), build_root_cache_key("/w", "\\A", None));
    let mut left = cfg_for("MyApp.xcworkspace", None);
    left.scheme = "B".to_string();
    let mut right = cfg_for("MyApp.xcworkspace", None);
    right.scheme = "A|B".to_string();
    assert_ne!(settings_cache_key("/w|A", &left, "U"), settings_cache_key("/w", &right, "U"));
}

#[test]
fn build_and_clean_commands() {
    let cfg = cfg_for("MyApp.xcworkspace", None);
    assert_eq!(
        build(&cfg, "UDID"),
        [
            "-workspace",
            "MyApp.xcworkspace",
            "-scheme",
            "MyApp",
            "-destination",
            "platform=iOS Simulator,id=UDID",
            "build"
        ]
    );
    assert_eq!(clean(&cfg).last().map(|s| s.as_str()), Some("clean"));
}

#[test]
fn a_failed_build_keeps_its_last_errors() {
    let mut s = BuildStream::new(BuildOutput::Filtered);
    for n in 0..7 {
        assert!(s.on_line(&format!("  f.swift: error: number {n}"), 100).is_none());
    }
    assert_eq!(s.deadline(), Some(150));
    let text = s.flush().unwrap();
    assert!(text.starts_with("  f.swift: error: number 0\n"));
    assert!(s.flush().is_none());
    let failed = s.finish(false, Some(65), "/logs/build-latest.log").unwrap_err();
    assert_eq!(failed.code, 65);
    assert_eq!(failed.errors.len(), 5);
    assert_eq!(failed.errors[0], "f.swift: error: number 2");
    // Killed by a signal: no exit code.
    let killed = BuildStream::new(BuildOutput::Full);
    assert_eq!(killed.finish(false, None, "/l").unwrap_err().code, 1);
    assert!(BuildStream::new(BuildOutput::Full).finish(true, Some(0), "/l").is_ok());
}

#[test]
fn a_big_batch_is_emitted_at_once() {
    let mut s = BuildStream::new(BuildOutput::Full);
    let long = "x".repeat(9_000);
    assert_eq!(s.on_line(&long, 0).as_deref(), Some(long.as_str()));
    assert_eq!(s.deadline(), None);
}

#[test]
fn batches_joined_are_the_lines_that_passed() {
    let lines = ["=== BUILD", "noise", "a.swift:1:1: error: no", "", "  ^", "noise", "** BUILD FAILED **"];
    let kept = ["=== BUILD", "a.swift:1:1: error: no", "", "  ^"];
    for cut in 0..lines.len() {
        let mut s = BuildStream::new(BuildOutput::Filtered);
        let mut out: Vec<String> = Vec::new();
        for (i, line) in lines[..6].iter().enumerate() {
            if i == cut {
                out.extend(s.flush());
            }
            out.extend(s.on_line(line, i as u64));
        }
        out.extend(s.flush());
        assert_eq!(out.join("\n"), kept.join("\n"));
    }
    // an empty line is a line, at the head of a batch too
    let mut s = BuildStream::new(BuildOutput::Full);
    assert_eq!(s.on_line("", 0), None);
    assert_eq!(s.deadline(), Some(50));
    assert_eq!(s.on_line("x", 1), None);
    assert_eq!(s.flush().as_deref(), Some("\nx"));
    assert_eq!(s.on_line("", 2), None);
    assert_eq!(s.flush().as_deref(), Some(""));
    assert_eq!(s.flush(), None);
}
