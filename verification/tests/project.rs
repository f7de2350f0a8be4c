use xcode_dap::json::Json;
use xcode_dap::setup::exclude::already_listed;
use xcode_dap::setup::exclude::build_server_target;
use xcode_dap::setup::exclude::exclude_path;
use xcode_dap::setup::exclude::exclude_step;
use xcode_dap::setup::exclude::zed_target;
use xcode_dap::setup::exclude::ExcludeStep;
use xcode_dap::setup::exclude::Target;
use xcode_dap::setup::jsonc::parse_jsonc;
use xcode_dap::setup::project::build_server_opted_in;
use xcode_dap::setup::project::detect_device;
use xcode_dap::setup::project::detect_scheme;
use xcode_dap::setup::project::derived_data_in;
use xcode_dap::setup::project::existing_derived_data;
use xcode_dap::setup::project::existing_oslog;
use xcode_dap::setup::project::oslog_in;
use xcode_dap::setup::project::find_workspace;
use xcode_dap::setup::project::makefile_preflight;
use xcode_dap::setup::project::normalize_workspace_flag;
use xcode_dap::setup::project::path_candidates;
use xcode_dap::setup::project::render_debug_json;
use xcode_dap::setup::project::render_tasks_json;
use xcode_dap::setup::project::resolve_config;
use xcode_dap::setup::project::shell_quote;
use xcode_dap::setup::project::summary;
use xcode_dap::setup::project::write_generated;
use xcode_dap::setup::project::ProjectConfig;
use xcode_dap::setup::project::ProjectFlags;
use xcode_dap::setup::project::WriteStep;

const SAMPLE_DEBUG_JSON: &str = r#"// Generated by `xcode-dap setup --project`. Edit freely; re-running setup
// backs this file up and rewrites it.
[
  {
    "adapter": "Xcode",
    "label": "Run on simulator",
    "request": "launch",
    "workspace": "$ZED_WORKTREE_ROOT/myapp.xcworkspace",
    "scheme": "MyApp (staging)",
    "device": "iPhone 15 Pro Max",
    "os": "26.3",
    "preflight": "make project CI=true"
  }
]
"#;

/// Task command used by the byte-expected fixtures.
const XCODE_DAP_BIN: &str = "/opt/zedxcode/bin/xcode-dap";

const SAMPLE_TASKS_JSON: &str = r#"// Generated by `xcode-dap setup --project`. Edit freely; re-running setup
// backs this file up and rewrites it.
[
  {
    "label": "Xcode: Build",
    "command": "/opt/zedxcode/bin/xcode-dap",
    "args": ["build", "--workspace", "myapp.xcworkspace", "--scheme", "'MyApp (staging)'", "--device", "'iPhone 15 Pro Max'", "--os", "26.3"],
    "cwd": "$ZED_WORKTREE_ROOT"
  },
  {
    "label": "Xcode: Clean",
    "command": "/opt/zedxcode/bin/xcode-dap",
    "args": ["clean", "--workspace", "myapp.xcworkspace", "--scheme", "'MyApp (staging)'"],
    "cwd": "$ZED_WORKTREE_ROOT"
  },
  {
    "label": "Xcode: Refresh",
    "command": "/opt/zedxcode/bin/xcode-dap",
    "args": ["refresh"],
    "cwd": "$ZED_WORKTREE_ROOT"
  },
  {
    "label": "Xcode: Console",
    "command": "/opt/zedxcode/bin/xcode-dap",
    "args": ["console", "--follow"],
    "cwd": "$ZED_WORKTREE_ROOT"
  },
  {
    "label": "Xcode: Choose Scheme",
    "command": "/opt/zedxcode/bin/xcode-dap",
    "args": ["select-scheme", "--workspace", "myapp.xcworkspace"],
    "cwd": "$ZED_WORKTREE_ROOT"
  },
  {
    "label": "Xcode: Choose Destination",
    "command": "/opt/zedxcode/bin/xcode-dap",
    "args": ["select-device"],
    "cwd": "$ZED_WORKTREE_ROOT"
  }
]
"#;

fn sample_config() -> ProjectConfig {
    ProjectConfig {
        workspace: "myapp.xcworkspace".into(),
        scheme: "MyApp (staging)".into(),
        device: "iPhone 15 Pro Max".into(),
        os: Some("26.3".into()),
        preflight: Some("make project CI=true".into()),
        oslog: false,
        derived_data: None,
    }
}

fn names(list: &[&str]) -> Vec<String> {
    list.iter().map(|n| n.to_string()).collect()
}

fn text<'a>(v: &'a Json, key: &str) -> Option<&'a str> {
    v.get(key).and_then(|x| x.as_str())
}

#[test]
fn debug_json_is_byte_expected_for_sample_config() {
    assert_eq!(render_debug_json(&sample_config()), SAMPLE_DEBUG_JSON);
    // valid JSONC; flat scenario keys; LaunchConfig-compatible names
    let v = parse_jsonc(SAMPLE_DEBUG_JSON).unwrap();
    let scenario = &v.as_array().unwrap()[0];
    assert_eq!(text(scenario, "adapter"), Some("Xcode"));
    assert_eq!(text(scenario, "label"), Some("Run on simulator"));
    assert_eq!(text(scenario, "workspace"), Some("$ZED_WORKTREE_ROOT/myapp.xcworkspace"));
    assert_eq!(text(scenario, "preflight"), Some("make project CI=true"));
    assert!(scenario.get("config").is_none(), "keys must be flat");
}

#[test]
fn debug_json_omits_optional_fields() {
    let cfg = ProjectConfig {
        workspace: "App.xcodeproj".into(),
        scheme: "App".into(),
        device: "iPhone 17".into(),
        os: None,
        preflight: None,
        oslog: false,
        derived_data: None,
    };
    let text = render_debug_json(&cfg);
    assert!(!text.contains("\"os\""));
    assert!(!text.contains("\"preflight\""));
    assert!(!text.contains("\"oslog\""));
    assert!(!text.contains("\"derivedData\""));
    parse_jsonc(&text).unwrap();
}

#[test]
fn debug_json_includes_oslog_when_enabled() {
    let mut cfg = sample_config();
    cfg.oslog = true;
    let v = parse_jsonc(&render_debug_json(&cfg)).unwrap();
    assert_eq!(v.as_array().unwrap()[0].get("oslog").unwrap().as_bool(), Some(true));
}

#[test]
fn derived_data_flows_into_debug_and_task_json() {
    let mut cfg = sample_config();
    cfg.derived_data = Some("/Users/x/dd".into());

    // debug.json scenario carries "derivedData".
    let v = parse_jsonc(&render_debug_json(&cfg)).unwrap();
    assert_eq!(text(&v.as_array().unwrap()[0], "derivedData"), Some("/Users/x/dd"));

    // Build + Clean tasks pass --derived-data through.
    let v = parse_jsonc(&render_tasks_json(&cfg, XCODE_DAP_BIN)).unwrap();
    let tasks = v.as_array().unwrap();
    for label in ["Xcode: Build", "Xcode: Clean"] {
        let task = tasks
            .iter()
            .find(|t| text(t, "label") == Some(label))
            .unwrap_or_else(|| panic!("{label} task present"));
        let args: Vec<&str> = task
            .get("args")
            .unwrap()
            .as_array()
            .unwrap()
            .iter()
            .map(|a| a.as_str().unwrap())
            .collect();
        let i = args
            .iter()
            .position(|a| *a == "--derived-data")
            .unwrap_or_else(|| panic!("{label} has --derived-data"));
        assert_eq!(args[i + 1], "/Users/x/dd");
    }
}

#[test]
fn normalize_workspace_flag_relative_stays_verbatim() {
    assert_eq!(
        normalize_workspace_flag("/proj", "app.xcworkspace", "/proj/app.xcworkspace"),
        "app.xcworkspace"
    );
    assert_eq!(
        normalize_workspace_flag("/proj", "sub/app.xcodeproj", "/proj/sub/app.xcodeproj"),
        "sub/app.xcodeproj"
    );
}

#[test]
fn normalize_workspace_flag_strips_project_dir_prefix() {
    assert_eq!(
        normalize_workspace_flag(
            "/private/var/proj",
            "/var/proj/sub/app.xcworkspace",
            "/private/var/proj/sub/app.xcworkspace"
        ),
        "sub/app.xcworkspace"
    );
}

#[test]
fn normalize_workspace_flag_keeps_outside_paths_absolute() {
    let norm = normalize_workspace_flag(
        "/proj",
        "/elsewhere/other.xcworkspace",
        "/elsewhere/other.xcworkspace",
    );
    assert!(norm.starts_with('/'), "{norm}");
    assert!(norm.ends_with("other.xcworkspace"), "{norm}");
    // A directory of a similar name is not the project's.
    assert_eq!(
        normalize_workspace_flag("/proj", "/project/a.xcodeproj", "/project/a.xcodeproj"),
        "/project/a.xcodeproj"
    );
}

#[test]
fn debug_json_renders_absolute_workspace_verbatim() {
    let mut cfg = sample_config();
    cfg.workspace = "/elsewhere/other.xcworkspace".into();
    let rendered = render_debug_json(&cfg);
    assert!(!rendered.contains("$ZED_WORKTREE_ROOT"), "{rendered}");
    let v = parse_jsonc(&rendered).unwrap();
    assert_eq!(text(&v.as_array().unwrap()[0], "workspace"), Some("/elsewhere/other.xcworkspace"));
}

#[test]
fn existing_oslog_is_preserved_on_rerun() {
    // No .zed/debug.json yet -> default off.
    assert!(!existing_oslog(None));
    // Generated file with oslog enabled -> preserved.
    let mut cfg = sample_config();
    cfg.oslog = true;
    assert!(existing_oslog(Some(&render_debug_json(&cfg))));
    // Hand-edited back to false -> preserved as false.
    cfg.oslog = false;
    assert!(!existing_oslog(Some(&render_debug_json(&cfg))));
    // The first scenario that has the switch decides.
    assert!(existing_oslog(Some(r#"[{"oslog": true}, {"oslog": false}]"#)));
    assert!(!existing_oslog(Some(r#"[{"oslog": false}, {"oslog": true}]"#)));
    assert!(existing_oslog(Some(r#"[{"adapter": "Xcode"}, {"oslog": true}]"#)));
    assert!(!oslog_in(&parse_jsonc(r#"[{"oslog": "yes"}]"#).unwrap()));
    assert!(oslog_in(&parse_jsonc(r#"[{"oslog": true}]"#).unwrap()));
}

#[test]
fn existing_derived_data_is_preserved_on_rerun() {
    let mut cfg = sample_config();
    assert_eq!(existing_derived_data(None), None);
    assert_eq!(existing_derived_data(Some(&render_debug_json(&cfg))), None);
    cfg.derived_data = Some("/dd".into());
    assert_eq!(existing_derived_data(Some(&render_debug_json(&cfg))).as_deref(), Some("/dd"));
    // The first scenario that names one decides.
    let later = r#"[{"adapter": "Xcode"}, {"derivedData": "/dd"}]"#;
    assert_eq!(existing_derived_data(Some(later)).as_deref(), Some("/dd"));
    let v = parse_jsonc(r#"[{"derivedData": "/a"}, {"derivedData": "/b"}]"#).unwrap();
    assert_eq!(derived_data_in(&v).as_deref(), Some("/a"));
    assert_eq!(derived_data_in(&parse_jsonc("[]").unwrap()), None);
}

#[test]
fn tasks_json_is_byte_expected_for_sample_config() {
    assert_eq!(render_tasks_json(&sample_config(), XCODE_DAP_BIN), SAMPLE_TASKS_JSON);
    let v = parse_jsonc(SAMPLE_TASKS_JSON).unwrap();
    let tasks = v.as_array().unwrap();
    assert_eq!(tasks.len(), 6);
    // labels must match the task::Spawn bindings of the keymap block
    assert_eq!(text(&tasks[0], "label"), Some("Xcode: Build"));
    assert_eq!(text(&tasks[1], "label"), Some("Xcode: Clean"));
    assert_eq!(text(&tasks[2], "label"), Some("Xcode: Refresh"));
    assert_eq!(text(&tasks[3], "label"), Some("Xcode: Console"));
    assert_eq!(text(&tasks[4], "label"), Some("Xcode: Choose Scheme"));
    assert_eq!(text(&tasks[5], "label"), Some("Xcode: Choose Destination"));
    for t in tasks {
        // absolute path, never a bare `xcode-dap` (exit-127 prevention)
        assert_eq!(text(t, "command"), Some(XCODE_DAP_BIN));
        assert_eq!(text(t, "cwd"), Some("$ZED_WORKTREE_ROOT"));
    }
}

#[test]
fn tasks_json_shell_quotes_command_with_spaces() {
    let v = parse_jsonc(&render_tasks_json(&sample_config(), "/Users/Jane Doe/bin/xcode-dap")).unwrap();
    for t in v.as_array().unwrap() {
        assert_eq!(text(t, "command"), Some("'/Users/Jane Doe/bin/xcode-dap'"));
    }
}

#[test]
fn write_zed_files_writes_then_noops_then_backs_up_on_change() {
    let cfg = sample_config();
    let debug = render_debug_json(&cfg);
    let tasks = render_tasks_json(&cfg, XCODE_DAP_BIN);
    assert_eq!(debug, SAMPLE_DEBUG_JSON);
    assert_eq!(tasks, SAMPLE_TASKS_JSON);
    assert_eq!(write_generated(None, &debug), WriteStep::Write);

    // idempotent second run: bytes unchanged, no backups
    assert_eq!(write_generated(Some(SAMPLE_DEBUG_JSON), &debug), WriteStep::Unchanged);
    assert_eq!(write_generated(Some(SAMPLE_TASKS_JSON), &tasks), WriteStep::Unchanged);

    // changed config: rewrite + backup of the old file
    let mut changed = sample_config();
    changed.scheme = "MyApp (production)".into();
    let debug = render_debug_json(&changed);
    assert_eq!(write_generated(Some(SAMPLE_DEBUG_JSON), &debug), WriteStep::Rewrite);
    assert_eq!(
        write_generated(Some(SAMPLE_TASKS_JSON), &render_tasks_json(&changed, XCODE_DAP_BIN)),
        WriteStep::Rewrite
    );
    assert!(debug.contains("MyApp (production)"));
}

/// The exclude file after setup has seen to a target.
fn excluded(target: &Target, file: String) -> (String, bool) {
    match exclude_step(target, false, &file) {
        ExcludeStep::Write(text) => (text, true),
        _ => (file, false),
    }
}

#[test]
fn git_exclude_appended_once() {
    let mut exclude = String::from("# git ls-files --others\n");
    for _ in 0..2 {
        exclude = excluded(&zed_target(), exclude).0;
        exclude = excluded(&build_server_target(), exclude).0;
        assert_eq!(exclude.matches(".zed/").count(), 1);
        assert_eq!(exclude.matches("buildServer.json").count(), 1);
    }
    assert_eq!(exclude, "# git ls-files --others\n.zed/\nbuildServer.json\n");
    assert!(matches!(exclude_step(&zed_target(), true, ""), ExcludeStep::Ignored));
}

#[test]
fn git_exclude_build_server_appends_once() {
    // First-create path: appends the exclude line.
    let (exclude, written) = excluded(&build_server_target(), String::from("*.log"));
    assert!(written);
    assert_eq!(exclude, "*.log\nbuildServer.json\n");
    assert_eq!(exclude.matches("buildServer.json").count(), 1);
    // A second call is a no-op (no duplicate line).
    let (exclude, written) = excluded(&build_server_target(), exclude);
    assert!(!written);
    assert_eq!(exclude.matches("buildServer.json").count(), 1);
}

#[test]
fn listed_with_or_without_slashes() {
    assert!(already_listed("  /.zed/  \r\n", ".zed"));
    assert!(already_listed("a\n.zed", ".zed"));
    assert!(!already_listed("a/.zed\n#.zed\n", ".zed"));
    assert_eq!(exclude_path("/p", b".git/info/exclude\n"), "/p/.git/info/exclude");
    assert_eq!(exclude_path("/p", b"/q/.git/info/exclude\n"), "/q/.git/info/exclude");
}

#[test]
fn build_server_regen_is_opt_in() {
    // Never ran setup, no buildServer.json -> never create one.
    assert!(!build_server_opted_in(false, None));
    // A debug.json without an "Xcode" scenario (empty, or another adapter's) does
    // not opt the project into buildServer.json writes.
    assert!(!build_server_opted_in(false, Some("[]")));
    assert!(!build_server_opted_in(
        false,
        Some(r#"[{ "adapter": "CodeLLDB", "request": "launch" }]"#)
    ));
    // An "Xcode" scenario opts in.
    assert!(build_server_opted_in(
        false,
        Some("// generated\n[\n  { \"adapter\": \"Xcode\", \"request\": \"launch\" }\n]\n")
    ));
    // An existing (stale) buildServer.json alone also counts.
    assert!(build_server_opted_in(true, None));
}

#[test]
fn makefile_preflight_detection() {
    assert_eq!(makefile_preflight(None), None);
    assert_eq!(makefile_preflight(Some("build:\n\techo hi\n")), None);
    assert_eq!(
        makefile_preflight(Some("project:\n\ttuist generate\n\nbuild:\n\techo hi\n")).as_deref(),
        Some("make project CI=true")
    );
    // `project:=` / `project::=` are variable assignments, not targets.
    assert_eq!(makefile_preflight(Some("project:=MyApp\n\nbuild:\n\techo hi\n")), None);
    assert_eq!(makefile_preflight(Some("project::=MyApp\n")), None);
}

#[test]
fn shell_quote_quotes_only_when_needed() {
    assert_eq!(shell_quote("myapp.xcworkspace"), "myapp.xcworkspace");
    assert_eq!(shell_quote("26.3"), "26.3");
    assert_eq!(shell_quote("MyApp (staging)"), "'MyApp (staging)'");
    assert_eq!(shell_quote("a'b"), r"'a'\''b'");
    assert_eq!(shell_quote(""), "''");
}

#[test]
fn find_workspace_prefers_xcworkspace_and_detects_ambiguity() {
    assert_eq!(find_workspace("/p", &names(&["app.xcodeproj"])).unwrap(), "app.xcodeproj");
    assert_eq!(
        find_workspace("/p", &names(&["app.xcodeproj", "app.xcworkspace"])).unwrap(),
        "app.xcworkspace"
    );
    assert!(find_workspace("/p", &names(&["app.xcworkspace", "other.xcworkspace"])).is_err());
    assert!(find_workspace("/p", &names(&["README.md"])).is_err());
}

#[test]
fn detection_of_the_scheme() {
    let one = br#"{"workspace": {"schemes": ["App"]}}"#;
    assert_eq!(detect_scheme(one, "a.xcworkspace").unwrap(), "App");
    let two = br#"{"workspace": {"schemes": ["App", "Dev"]}}"#;
    let err = detect_scheme(two, "a.xcworkspace").unwrap_err();
    assert!(err.contains("App") && err.contains("Dev"), "{err}");
    assert!(detect_scheme(br#"{"workspace": {"schemes": []}}"#, "a").is_err());
    assert!(detect_scheme(b"nope", "a").unwrap_err().starts_with("xcodebuild -list output is not JSON"));
}

#[test]
fn detection_of_the_device() {
    let listing = br#"{"devices": {
        "com.apple.CoreSimulator.SimRuntime.iOS-18-2": [
            {"udid": "A", "name": "iPhone 15", "state": "Shutdown", "isAvailable": true}],
        "com.apple.CoreSimulator.SimRuntime.iOS-26-3": [
            {"udid": "B", "name": "iPhone 16", "state": "Shutdown", "isAvailable": true}]}}"#;
    let (device, os) = detect_device(listing).unwrap();
    assert_eq!((device.as_str(), os.as_deref()), ("iPhone 16", Some("26.3")));
    assert!(detect_device(br#"{"devices": {}}"#).is_err());
    assert!(detect_device(b"nope").unwrap_err().starts_with("simctl list output is not JSON"));
}

#[test]
fn flags_win_over_detection() {
    let flags = ProjectFlags {
        workspace: None,
        scheme: None,
        device: Some("iPhone X".into()),
        os: None,
        preflight: Some("  ".into()),
        oslog: true,
        derived_data: Some("/dd".into()),
    };
    let detected = ("iPhone 17".to_string(), Some("26.3".to_string()));
    let cfg = resolve_config(&flags, "a.xcworkspace", "App", &detected, Some("project:\n"), None);
    assert_eq!(cfg.device, "iPhone X");
    assert_eq!(cfg.os, None);
    assert_eq!(cfg.preflight, None);
    assert!(cfg.oslog);
    assert_eq!(cfg.derived_data.as_deref(), Some("/dd"));
    let none = ProjectFlags {
        workspace: None,
        scheme: None,
        device: None,
        os: Some("18.2".into()),
        preflight: None,
        oslog: false,
        derived_data: None,
    };
    let cfg = resolve_config(&none, "a.xcworkspace", "App", &detected, Some("project:\n"), None);
    assert_eq!((cfg.device.as_str(), cfg.os.as_deref()), ("iPhone 17", Some("18.2")));
    assert_eq!(cfg.preflight.as_deref(), Some("make project CI=true"));
    assert_eq!(
        summary(&cfg),
        "  workspace: a.xcworkspace  scheme: App  device: iPhone 17  os: 18.2  preflight: make project CI=true"
    );
}

#[test]
fn candidates_on_the_search_path() {
    assert_eq!(path_candidates("/usr/bin:/bin", "git"), vec!["/usr/bin/git", "/bin/git"]);
}
