//! Hashing, log lines, paths and pidfiles.

use xcode_dap::util::hash::fnv1a64;
use xcode_dap::util::logging::describe_command;
use xcode_dap::util::logging::format_epoch_secs;
use xcode_dap::util::logging::format_system_time;
use xcode_dap::util::logging::is_active;
use xcode_dap::util::logging::level_from_env;
use xcode_dap::util::logging::log_file_path;
use xcode_dap::util::logging::log_line;
use xcode_dap::util::logging::pre_init_log_file;
use xcode_dap::util::logging::raised_level;
use xcode_dap::util::logging::snapshot;
use xcode_dap::util::logging::truncate;
use xcode_dap::util::logging::utc_timestamp;
use xcode_dap::util::logging::LogState;
use xcode_dap::util::logging::Verbosity;
use xcode_dap::util::name_map::NameMap;
use xcode_dap::util::paths::buildserver_stale;
use xcode_dap::util::paths::container_flag;
use xcode_dap::util::paths::extension;
use xcode_dap::util::paths::file_name;
use xcode_dap::util::paths::file_stem;
use xcode_dap::util::paths::join;
use xcode_dap::util::paths::parent;
use xcode_dap::util::paths::paths_eq;
use xcode_dap::util::paths::workspace_mtime;
use xcode_dap::util::pidfile::exe_is_xcode_dap;
use xcode_dap::util::pidfile::pid_is_xcode_dap;
use xcode_dap::util::pidfile::pidfile_path;
use xcode_dap::util::pidfile::pidfile_text;
use xcode_dap::util::pidfile::read_pid;
use xcode_dap::util::pidfile::remove_at;
use xcode_dap::util::pidfile::signal_old;
use xcode_dap::util::pidfile::superseded;

#[test]
fn fnv_is_stable() {
    // Lock the hash so cache file names stay stable across releases.
    assert_eq!(fnv1a64(b""), 0xcbf29ce484222325);
    assert_eq!(
        fnv1a64(b"/x/myapp.xcworkspace"),
        fnv1a64(b"/x/myapp.xcworkspace")
    );
    assert_ne!(fnv1a64(b"a"), fnv1a64(b"b"));
}

#[test]
fn fnv_of_a_single_byte() {
    assert_eq!(fnv1a64(b"a"), 0xaf63dc4c8601ec8c);
}

#[test]
fn epoch_formatting() {
    assert_eq!(format_epoch_secs(0), "1970-01-01T00:00:00");
    assert_eq!(format_epoch_secs(86_399), "1970-01-01T23:59:59");
    // Leap day.
    assert_eq!(format_epoch_secs(951_782_400), "2000-02-29T00:00:00");
    assert_eq!(format_epoch_secs(1_700_000_000), "2023-11-14T22:13:20");
}

#[test]
fn timestamps_and_log_lines() {
    assert_eq!(utc_timestamp(0, 7), "1970-01-01T00:00:00.007Z");
    assert_eq!(format_system_time(1_700_000_000_000_000_000), "2023-11-14T22:13:20Z");
    assert_eq!(
        log_line("1970-01-01T00:00:00.007Z", "INFO", 42, "dap", "hello"),
        "1970-01-01T00:00:00.007Z INFO [pid 42 dap] hello\n"
    );
    assert_eq!(
        describe_command("xcrun", &vec!["simctl".to_string(), "list".to_string()]),
        "xcrun simctl list"
    );
    assert_eq!(log_file_path("/h/.zedxcode"), "/h/.zedxcode/logs/xcode-dap.log");
}

#[test]
fn level_parsing_defaults_to_info() {
    assert_eq!(level_from_env(None), Verbosity::Info);
    assert_eq!(level_from_env(Some("nonsense")), Verbosity::Info);
    assert_eq!(level_from_env(Some("debug")), Verbosity::Debug);
}

#[test]
fn a_session_never_lowers_the_level() {
    assert_eq!(raised_level(true, true, Verbosity::Info), Some(Verbosity::Trace));
    assert_eq!(raised_level(true, true, Verbosity::Trace), None);
    assert_eq!(raised_level(true, false, Verbosity::Info), None);
    assert_eq!(raised_level(false, true, Verbosity::Error), None);
}

#[test]
fn truncate_keeps_short_and_cuts_long() {
    assert_eq!(truncate("short", 10), "short");
    let cut = truncate("0123456789abcdef", 8);
    assert!(cut.starts_with("01234567"));
    assert!(cut.contains("16 bytes total"));
    // Never splits a multi-byte char.
    let s = "aé"; // 'é' is 2 bytes starting at index 1
    let cut = truncate(s, 2);
    assert!(cut.starts_with('a'));
    assert!(!cut.contains('\u{FFFD}'));
}

#[test]
fn log_state_is_reported() {
    let before = snapshot(Some((12, Some(5))));
    assert!(before.existed);
    assert_eq!(before.len, 12);
    assert_eq!(before.modified, Some(5));
    assert!(!snapshot(None).existed);
    let off = LogState { installed: false, before: None };
    assert!(!is_active(&off));
    assert!(pre_init_log_file(&off).is_none());
    let on = LogState { installed: true, before: Some(before) };
    assert!(is_active(&on));
    assert_eq!(pre_init_log_file(&on).unwrap().len, 12);
}

#[test]
fn container_flag_dispatches_on_extension() {
    assert_eq!(container_flag("MyApp.xcworkspace"), "-workspace");
    assert_eq!(container_flag("MyApp.xcodeproj"), "-project");
    assert_eq!(container_flag("/abs/My App.xcodeproj"), "-project");
    // The inner workspace of a project container is still a workspace.
    assert_eq!(
        container_flag("MyApp.xcodeproj/project.xcworkspace"),
        "-workspace"
    );
}

#[test]
fn container_flag_extension_is_case_insensitive() {
    // Non-canonical extension case still resolves to the real bundle on a
    // case-insensitive volume, so it must map to -project, not exit 66.
    assert_eq!(container_flag("MyApp.XcodeProj"), "-project");
    assert_eq!(container_flag("MyApp.XCODEPROJ"), "-project");
    assert_eq!(container_flag("MyApp.XcWorkspace"), "-workspace");
}

#[test]
fn container_flag_ignores_trailing_slash() {
    // Shell tab-completion appends a slash (.xcodeproj is a directory); the
    // extension ignores it.
    assert_eq!(container_flag("MyApp.xcodeproj/"), "-project");
}

#[test]
fn buildserver_stale_decision() {
    let now: i128 = 1_700_000_000_000_000_000;
    let older = now - 60_000_000_000;
    // Missing buildServer.json is always stale.
    assert!(buildserver_stale(None, Some(now)));
    assert!(buildserver_stale(None, None));
    // Older than the workspace -> stale; same age or newer -> fresh.
    assert!(buildserver_stale(Some(older), Some(now)));
    assert!(!buildserver_stale(Some(now), Some(now)));
    assert!(!buildserver_stale(Some(now), Some(older)));
    // Unknown workspace mtime never forces a regen.
    assert!(!buildserver_stale(Some(now), None));
}

#[test]
fn paths_workspace_mtime_tracks_in_place_contents_rewrite() {
    let dir_only = workspace_mtime(Some(1_000), None).unwrap();
    // Tuist regenerates contents.xcworkspacedata in place without bumping the
    // directory mtime — the newer contents mtime must win.
    assert!(workspace_mtime(Some(1_000), Some(1_120)).unwrap() > dir_only);
    // Missing container -> None.
    assert_eq!(workspace_mtime(None, None), None);
}

#[test]
fn path_pieces() {
    assert_eq!(file_name("/a/b.swift").as_deref(), Some("b.swift"));
    assert_eq!(file_name("/a/b/").as_deref(), Some("b"));
    assert_eq!(file_name("/"), None);
    assert_eq!(file_name("a/.."), None);
    assert_eq!(parent("/a/b").as_deref(), Some("/a"));
    assert_eq!(parent("/a").as_deref(), Some("/"));
    assert_eq!(parent("/"), None);
    assert_eq!(parent("a").as_deref(), Some(""));
    assert_eq!(extension("x/.hidden"), None);
    assert_eq!(extension("x/a.tar.gz").as_deref(), Some("gz"));
    assert_eq!(file_stem("x/a.tar.gz").as_deref(), Some("a.tar"));
    assert_eq!(join("/a", "b"), "/a/b");
    assert_eq!(join("/a/", "b"), "/a/b");
    assert_eq!(join("/a", "/b"), "/b");
}

#[test]
fn exe_basename_identifies_the_proxy() {
    assert!(exe_is_xcode_dap("/opt/homebrew/bin/xcode-dap"));
    assert!(exe_is_xcode_dap("xcode-dap"));
    assert!(!exe_is_xcode_dap("/usr/bin/login"));
    assert!(!exe_is_xcode_dap("/Applications/Foo.app/Contents/MacOS/Foo"));
}

#[test]
fn dead_pid_is_not_the_proxy() {
    // A pid that resolves to no executable is never ours.
    assert!(!pid_is_xcode_dap(None));
}

#[test]
fn unrelated_live_pid_is_not_the_proxy() {
    assert!(!pid_is_xcode_dap(Some("/usr/bin/cargo-test")));
}

#[test]
fn claim_writes_our_pid() {
    assert_eq!(read_pid(&pidfile_text(4242)), Some(4242));
}

#[test]
fn claim_overwrites_garbage() {
    assert_eq!(signal_old(Some("not a pid\n"), 4242, None), None);
    assert_eq!(read_pid(&pidfile_text(4242)), Some(4242));
}

#[test]
fn claim_with_own_pid_does_not_signal_self() {
    // Old owner == our pid (e.g. re-claim after Rerun) must not SIGTERM us.
    assert_eq!(signal_old(Some("77\n"), 77, Some("/x/xcode-dap")), None);
}

#[test]
fn claim_overwrites_unrelated_live_owner_without_signaling() {
    assert_eq!(signal_old(Some("77\n"), 4242, Some("/usr/bin/login")), None);
    // A live older proxy is told to stop.
    assert_eq!(signal_old(Some("77\n"), 4242, Some("/x/xcode-dap")), Some(77));
}

#[test]
fn signal_old_never_takes_ownership() {
    // The owner is live but no proxy: nothing is signalled, and what the file
    // holds is left as it is.
    let owner: u32 = 31337;
    let text = pidfile_text(owner);
    assert_eq!(signal_old(Some(&text), 4242, Some("/usr/bin/test-runner")), None);
    assert_eq!(read_pid(&text), Some(owner as i32));
    // A live proxy is signalled; our own pid never is.
    assert_eq!(signal_old(Some(&text), 4242, Some("/opt/bin/xcode-dap")), Some(31337));
    assert_eq!(signal_old(Some(&text), owner, Some("/opt/bin/xcode-dap")), None);
}

#[test]
fn remove_only_removes_own_pidfile() {
    // Someone else's pid: left in place.
    assert!(!remove_at(Some("4242\n"), 9999));
    // Ours: removed.
    assert!(remove_at(Some("4242\n"), 4242));
    // Removing a nonexistent pidfile is fine.
    assert!(!remove_at(None, 4242));
}

#[test]
fn a_newer_owner_supersedes() {
    assert!(superseded(true, Some("9999\n"), 4242));
    assert!(!superseded(true, Some("4242\n"), 4242));
    assert!(!superseded(false, Some("9999\n"), 4242));
    assert_eq!(pidfile_path("/h/.zedxcode", "UDID"), "/h/.zedxcode/run/sim-UDID.pid");
}

#[test]
fn names_are_walked_in_order() {
    let mut m: NameMap<u32> = NameMap::new();
    m.insert("b", 2);
    m.insert("a", 1);
    m.insert("c", 3);
    m.insert("b", 20);
    assert_eq!(m.len(), 3);
    assert_eq!(m.name(0), "a");
    assert_eq!(m.name(1), "b");
    assert_eq!(*m.value(1), 20);
    assert_eq!(m.get("c"), Some(&3));
    assert_eq!(m.get("d"), None);
    assert!(m.contains("a"));
}

#[test]
fn paths_are_the_same_by_their_components() {
    for (a, b) in [
        ("/x/DD", "/x/DD/"),
        ("/x/DD", "/x//DD"),
        ("/x/DD", "/x/./DD/."),
        ("a/b", "a/b/"),
        ("/", "//"),
        ("", ""),
    ] {
        assert!(paths_eq(a, b), "{a} {b}");
        assert_eq!(std::path::Path::new(a), std::path::Path::new(b));
    }
    for (a, b) in [
        ("/x/DD", "x/DD"),
        ("/x/DD", "/x/D"),
        ("/x/DD", "/x/DD/.."),
        ("/x/y/../DD", "/x/DD"),
        ("./a", "a"),
        ("/x/DD", "/x/dd"),
        ("", "."),
        ("", "/"),
    ] {
        assert!(!paths_eq(a, b), "{a} {b}");
        assert_ne!(std::path::Path::new(a), std::path::Path::new(b));
    }
}
