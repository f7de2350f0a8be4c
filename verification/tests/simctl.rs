//! Simulator choice, boot and launch.

use xcode_dap::engine::simctl::boot;
use xcode_dap::engine::simctl::boot_error_is_benign;
use xcode_dap::engine::simctl::boot_error_is_retryable;
use xcode_dap::engine::simctl::launch;
use xcode_dap::engine::simctl::new_pid;
use xcode_dap::engine::simctl::parse_launch_pid;
use xcode_dap::engine::simctl::poll_pid;
use xcode_dap::engine::simctl::ps_app_pids;
use xcode_dap::engine::simctl::resolve_device;
use xcode_dap::engine::simctl::runtime_version;
use xcode_dap::engine::simctl::BootStep;
use xcode_dap::engine::simctl::PidStep;

const IOS_18: &str = "com.apple.CoreSimulator.SimRuntime.iOS-18-2";
const IOS_26: &str = "com.apple.CoreSimulator.SimRuntime.iOS-26-3";

fn device(udid: &str, name: &str, state: &str, available: bool) -> String {
    format!(
        "{{ \"udid\": \"{udid}\", \"name\": \"{name}\", \"state\": \"{state}\", \"isAvailable\": {available} }}"
    )
}

fn listing(se_state: &str, max_18_state: &str, extra_26: Option<String>) -> Vec<u8> {
    let mut on_26 = vec![
        device("CCCC-26", "iPhone 15 Pro Max", "Shutdown", true),
        device("DDDD-26", "iPhone 16 Pro", "Shutdown", false),
        device("EEEE-26", "iPhone 16 Pro", "Shutdown", true),
    ];
    on_26.extend(extra_26);
    let on_18 = vec![
        device("AAAA-18", "iPhone 15 Pro Max", max_18_state, true),
        device("BBBB-18", "iPhone SE (3rd generation)", se_state, true),
    ];
    let watch = device("WWWW", "Apple Watch Ultra 2 (49mm)", "Shutdown", true);
    format!(
        "{{\"devices\": {{ \"{IOS_18}\": [{}], \"{IOS_26}\": [{}], \
         \"com.apple.CoreSimulator.SimRuntime.watchOS-11-0\": [{watch}] }}}}",
        on_18.join(","),
        on_26.join(",")
    )
    .into_bytes()
}

fn fixture() -> Vec<u8> {
    listing("Booted", "Shutdown", None)
}

#[test]
fn name_match_prefers_newest_os() {
    // Same name in iOS 18.2 and 26.3, none booted -> newest OS wins.
    let udid = resolve_device(&fixture(), Some("iPhone 15 Pro Max"), None).unwrap();
    assert_eq!(udid, "CCCC-26");
}

#[test]
fn os_narrowing_selects_runtime() {
    let udid = resolve_device(&fixture(), Some("iPhone 15 Pro Max"), Some("18.2")).unwrap();
    assert_eq!(udid, "AAAA-18");
}

#[test]
fn udid_match_and_case_insensitive_name() {
    assert_eq!(
        resolve_device(&fixture(), Some("aaaa-18"), None).unwrap(),
        "AAAA-18"
    );
    assert_eq!(
        resolve_device(&fixture(), Some("iphone 16 pro"), None).unwrap(),
        "EEEE-26" // DDDD-26 is unavailable
    );
}

#[test]
fn booted_query_matches_booted_device() {
    assert_eq!(
        resolve_device(&fixture(), Some("booted"), None).unwrap(),
        "BBBB-18"
    );
}

#[test]
fn booted_preferred_over_newer_os() {
    // Boot the iOS 18.2 iPhone 15 Pro Max; it must win over the 26.3 one.
    let v = listing("Booted", "Booted", None);
    assert_eq!(
        resolve_device(&v, Some("iPhone 15 Pro Max"), None).unwrap(),
        "AAAA-18"
    );
}

#[test]
fn boot_error_benign_for_already_booted_and_booting() {
    let msg = "An error was encountered processing the command \
               (domain=com.apple.CoreSimulator.SimError, code=405):\n\
               Unable to boot device in current state: Booted";
    assert!(boot_error_is_benign(msg));
    assert!(boot_error_is_benign(
        "Unable to boot device in current state: Booting"
    ));
}

#[test]
fn boot_error_not_benign_otherwise() {
    assert!(!boot_error_is_benign("Invalid device: 1234"));
    // Shutting Down is retryable, not benign.
    assert!(!boot_error_is_benign(
        "Unable to boot device in current state: Shutting Down"
    ));
    assert!(!boot_error_is_benign(""));
}

#[test]
fn boot_error_retryable_only_for_shutting_down() {
    let msg = "An error was encountered processing the command \
               (domain=com.apple.CoreSimulator.SimError, code=405):\n\
               Unable to boot device in current state: Shutting Down";
    assert!(boot_error_is_retryable(msg));
    assert!(!boot_error_is_retryable(
        "Unable to boot device in current state: Booted"
    ));
    assert!(!boot_error_is_retryable("Invalid device: 1234"));
    assert!(!boot_error_is_retryable(""));
}

#[test]
fn boot_steps() {
    assert!(matches!(boot(true, "", 0), BootStep::Proceed));
    assert!(matches!(
        boot(false, "Unable to boot device in current state: Booted", 0),
        BootStep::Proceed
    ));
    assert!(matches!(
        boot(false, "Unable to boot device in current state: Shutting Down", 0),
        BootStep::Retry
    ));
    assert!(matches!(boot(false, "Invalid device: 1234", 0), BootStep::Fail));
}

#[test]
fn no_match_lists_devices() {
    let msg = resolve_device(&fixture(), Some("iPhone 99"), None).unwrap_err();
    assert!(msg.contains("no available simulator"));
    assert!(msg.contains("iPhone 15 Pro Max"));
}

#[test]
fn missing_os_runtime_is_called_out() {
    // The os filter excludes every runtime: instead of an empty "available
    // devices" list, name the missing runtime.
    let msg = resolve_device(&fixture(), Some("iPhone 15 Pro Max"), Some("99.0")).unwrap_err();
    assert!(msg.contains("no iOS 99.0 simulator runtime is installed"));
    assert!(!msg.contains("available devices"));
}

#[test]
fn default_prefers_booted_iphone() {
    // No query: the booted iPhone SE (iOS 18.2) wins over every shutdown
    // iPhone on a newer OS.
    assert_eq!(resolve_device(&fixture(), None, None).unwrap(), "BBBB-18");
}

#[test]
fn default_none_booted_picks_newest_iphone() {
    let v = listing("Shutdown", "Shutdown", None);
    // Nothing booted -> newest OS (26.3); within it the name-descending
    // tie-break picks "iPhone 16 Pro" over "iPhone 15 Pro Max" (DDDD-26 is
    // unavailable, so EEEE-26).
    assert_eq!(resolve_device(&v, None, None).unwrap(), "EEEE-26");
}

#[test]
fn default_ignores_booted_non_iphone() {
    // A booted iPad must not be picked by the iPhone default.
    let v = listing(
        "Shutdown",
        "Shutdown",
        Some(device("IPAD-26", "iPad Pro 13-inch (M4)", "Booted", true)),
    );
    assert_eq!(resolve_device(&v, None, None).unwrap(), "EEEE-26");
}

#[test]
fn default_no_iphone_lists_devices() {
    let ipad = device("IPAD-26", "iPad Pro 13-inch (M4)", "Shutdown", true);
    let v = format!("{{\"devices\": {{ \"{IOS_26}\": [{ipad}] }}}}").into_bytes();
    let msg = resolve_device(&v, None, None).unwrap_err();
    assert!(msg.contains("no \"device\" configured"));
    assert!(msg.contains("iPad Pro 13-inch (M4)"));
}

#[test]
fn unreadable_listing_is_an_error() {
    assert!(resolve_device(b"not json", None, None).is_err());
    assert!(resolve_device(b"{}", None, None).is_err());
}

#[test]
fn launch_pid_parsing() {
    assert_eq!(
        parse_launch_pid("com.example.myapp: 12345\n", "com.example.myapp"),
        Some(12345)
    );
    assert_eq!(
        parse_launch_pid("something else\n", "com.example.myapp"),
        None
    );
    // A different bundle's line must not match.
    assert_eq!(
        parse_launch_pid("com.example.myapp.widgets: 7\n", "com.example.myapp"),
        None
    );
}

#[test]
fn runtime_version_parsing() {
    assert_eq!(
        runtime_version("com.apple.CoreSimulator.SimRuntime.iOS-26-3"),
        (26, 3)
    );
    assert_eq!(
        runtime_version("com.apple.CoreSimulator.SimRuntime.iOS-9-0"),
        (9, 0)
    );
}

#[test]
fn launch_arguments_and_process_listing() {
    let args = launch("UDID", "com.example.myapp", true, "/r/stdout.log", "/r/stderr.log");
    assert!(args.iter().any(|a| a == "--wait-for-debugger"));
    assert_eq!(args.last().map(|s| s.as_str()), Some("com.example.myapp"));
    let ps = "  101 /x/CoreSimulator/Devices/UDID/data/MyApp.app/MyApp\n  202 /usr/bin/login\n";
    assert_eq!(ps_app_pids(ps, "UDID", "MyApp"), vec![101]);
    assert_eq!(new_pid(&vec![101, 103], &vec![101]), Some(103));
    assert_eq!(new_pid(&vec![101], &vec![101]), None);
    assert_eq!(poll_pid(1, &vec![101, 103], &vec![101]), PidStep::Found(103));
    assert_eq!(poll_pid(4, &vec![101], &vec![101]), PidStep::Wait);
    assert_eq!(poll_pid(5, &vec![101], &vec![101]), PidStep::GiveUp);
    assert_eq!(poll_pid(5, &vec![7], &vec![]), PidStep::Found(7));
}
