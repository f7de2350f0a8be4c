use xcode_dap::commands::refresh::read_refresh;
use xcode_dap::commands::refresh::refreshed;
use xcode_dap::commands::scenario::debug_json_str;
use xcode_dap::commands::scenario::expand_worktree_root;
use xcode_dap::commands::select::choose_scheme;
use xcode_dap::commands::select::current_destination;
use xcode_dap::commands::select::current_scheme;
use xcode_dap::commands::select::device_items;
use xcode_dap::commands::select::device_list_line;
use xcode_dap::commands::select::device_matches;
use xcode_dap::commands::select::filter_indices;
use xcode_dap::commands::select::find_device;
use xcode_dap::commands::select::find_workspace;
use xcode_dap::commands::select::list_devices;
use xcode_dap::commands::select::parse_input;
use xcode_dap::commands::select::parse_schemes;
use xcode_dap::commands::select::schemes_cache_name;
use xcode_dap::commands::select::schemes_cache_usable;
use xcode_dap::commands::select::scheme_items;
use xcode_dap::commands::select::select_device;
use xcode_dap::commands::select::select_scheme;
use xcode_dap::commands::select::workspace_age;
use xcode_dap::commands::select::Input;
use xcode_dap::commands::select::Item;
use xcode_dap::commands::select::PickStep;
use xcode_dap::commands::select::Picker;
use xcode_dap::commands::select::SimDevice;
use xcode_dap::engine::selection::Selection;
use xcode_dap::setup::build_server::Regen;

fn items(labels: &[&str]) -> Vec<Item> {
    labels
        .iter()
        .map(|l| Item { label: l.to_string(), marked: false, current: false })
        .collect()
}

fn names(list: &[&str]) -> Vec<String> {
    list.iter().map(|n| n.to_string()).collect()
}

fn no_selection() -> Selection {
    Selection { scheme: None, device: None, os: None }
}

#[test]
fn filter_is_case_insensitive_substring() {
    let it = items(&["MyApp (staging)", "MyApp (production)", "NotificationService"]);
    assert_eq!(filter_indices(&it, "myapp"), vec![0, 1]);
    assert_eq!(filter_indices(&it, "STAG"), vec![0]);
    assert_eq!(filter_indices(&it, "service"), vec![2]);
    assert_eq!(filter_indices(&it, "nope"), Vec::<usize>::new());
    // Empty query shows everything.
    assert_eq!(filter_indices(&it, ""), vec![0, 1, 2]);
}

#[test]
fn input_parsing() {
    assert_eq!(parse_input("2", 3), Input::Select(2));
    assert_eq!(parse_input("  3 ", 3), Input::Select(3));
    assert_eq!(parse_input("q", 3), Input::Quit);
    assert_eq!(parse_input("Quit", 3), Input::Quit);
    // Out-of-range numbers are filters, not selections.
    assert_eq!(parse_input("4", 3), Input::Filter("4".into()));
    assert_eq!(parse_input("0", 3), Input::Filter("0".into()));
    assert_eq!(parse_input("pro max", 3), Input::Filter("pro max".into()));
    assert_eq!(parse_input("", 3), Input::Filter(String::new()));
}

#[test]
fn schemes_parse_workspace_and_project_shapes() {
    let ws = br#"{ "workspace": { "name": "myapp", "schemes": ["A", "B"] } }"#;
    assert_eq!(parse_schemes(ws).unwrap(), vec!["A", "B"]);
    let proj = br#"{ "project": { "name": "app", "schemes": ["Only"] } }"#;
    assert_eq!(parse_schemes(proj).unwrap(), vec!["Only"]);
    assert!(parse_schemes(b"not json").is_err());
    let empty = br#"{ "workspace": { "schemes": [] } }"#;
    assert!(parse_schemes(empty).is_err());
}

fn devices() -> Vec<SimDevice> {
    list_devices(
        br#"{
            "devices": {
                "com.apple.CoreSimulator.SimRuntime.iOS-18-2": [
                    { "udid": "AAAA", "name": "iPhone 15 Pro Max",
                      "state": "Shutdown", "isAvailable": true },
                    { "udid": "BBBB", "name": "iPhone SE (3rd generation)",
                      "state": "Booted", "isAvailable": true }
                ],
                "com.apple.CoreSimulator.SimRuntime.iOS-26-3": [
                    { "udid": "CCCC", "name": "iPhone 16 Pro",
                      "state": "Shutdown", "isAvailable": true },
                    { "udid": "DDDD", "name": "iPad Pro 13-inch (M4)",
                      "state": "Shutdown", "isAvailable": true },
                    { "udid": "EEEE", "name": "iPhone 17",
                      "state": "Shutdown", "isAvailable": false }
                ],
                "com.apple.CoreSimulator.SimRuntime.watchOS-11-0": [
                    { "udid": "WWWW", "name": "Apple Watch Ultra 2 (49mm)",
                      "state": "Shutdown", "isAvailable": true }
                ]
            }
        }"#,
    )
    .unwrap()
}

#[test]
fn devices_filtered_and_sorted_booted_then_newest_then_iphone_first() {
    let devs = devices();
    let order: Vec<(&str, &str, bool)> =
        devs.iter().map(|d| (d.name.as_str(), d.os.as_str(), d.booted)).collect();
    assert_eq!(
        order,
        vec![
            ("iPhone SE (3rd generation)", "18.2", true), // booted first
            ("iPhone 16 Pro", "26.3", false),             // newest OS
            ("iPad Pro 13-inch (M4)", "26.3", false),     // iPads after iPhones
            ("iPhone 15 Pro Max", "18.2", false),
        ]
    );
    // Unavailable device and watchOS runtime are excluded.
    assert!(!devs.iter().any(|d| d.udid == "EEEE" || d.udid == "WWWW"));
    assert!(list_devices(b"nope").unwrap_err().starts_with("simctl device list is not JSON"));
}

#[test]
fn find_device_by_udid_name_and_booted() {
    let devs = devices();
    let found = |q: &str| find_device(&devs, q).map(|i| &devs[i]);
    assert_eq!(found("cccc").unwrap().name, "iPhone 16 Pro");
    assert_eq!(found("iphone 15 pro max").unwrap().udid, "AAAA");
    assert_eq!(found("booted").unwrap().name, "iPhone SE (3rd generation)");
    assert!(found("iPhone 99").is_none());
}

#[test]
fn device_matching_for_current_marker() {
    let devs = devices();
    let pro16 = devs.iter().find(|d| d.udid == "CCCC").unwrap();
    assert!(device_matches(pro16, "iPhone 16 Pro", Some("26.3")));
    assert!(device_matches(pro16, "iPhone 16 Pro", None));
    assert!(device_matches(pro16, "CCCC", Some("26.3")));
    assert!(!device_matches(pro16, "iPhone 16 Pro", Some("18.2")));
    assert!(!device_matches(pro16, "iPhone 15 Pro Max", None));
}

#[test]
fn find_workspace_reports_ambiguous_projects_when_no_workspace() {
    // No workspace + several projects: the error must list the actual ambiguous
    // .xcodeproj candidates, not an empty workspace list.
    let err = find_workspace("/p", &names(&["b.xcodeproj", "a.xcodeproj"])).unwrap_err();
    assert!(err.contains(".xcodeproj"), "{err}");
    assert!(err.contains("a.xcodeproj, b.xcodeproj"), "{err}");
    // A single workspace still wins over any number of projects.
    let all = names(&["a.xcodeproj", "b.xcodeproj", "c.xcworkspace"]);
    assert_eq!(find_workspace("/p", &all).unwrap(), "/p/c.xcworkspace");
}

#[test]
fn select_workspace_mtime_tracks_in_place_contents_rewrite() {
    let dir_only = workspace_age(Some(100), None).unwrap();
    // A newer contents mtime must bump the cache key even when the directory
    // mtime is unchanged.
    assert!(workspace_age(Some(100), Some(220)).unwrap() > dir_only);
    // A missing container has no age.
    assert_eq!(workspace_age(None, Some(220)), None);
}

#[test]
fn expand_worktree_root_anchors_to_project_not_cwd() {
    let project = "/proj";
    // Leading token is stripped and the remainder anchored to project.
    assert_eq!(expand_worktree_root("$ZED_WORKTREE_ROOT/dd", project), "/proj/dd");
    // Embedded token is substituted.
    assert_eq!(expand_worktree_root("$ZED_WORKTREE_ROOT/build/dd", project), "/proj/build/dd");
    // A plain relative value anchors to project (not the cwd).
    assert_eq!(expand_worktree_root("dd", project), "/proj/dd");
    // An absolute value is used verbatim.
    assert_eq!(expand_worktree_root("/abs/dd", project), "/abs/dd");
}

#[test]
fn a_named_scheme_or_a_hint() {
    let all = names(&["App", "app dev", "Widget"]);
    assert_eq!(choose_scheme(&all, "App", "/w").unwrap(), "App");
    assert_eq!(choose_scheme(&all, "WIDGET", "/w").unwrap(), "Widget");
    let near = choose_scheme(&all, "DEV", "/w").unwrap_err();
    assert_eq!(near, "no scheme named \"DEV\" in /w — did you mean:\n  app dev");
    let none = choose_scheme(&all, "zzz", "/w").unwrap_err();
    assert!(none.ends_with("run `xcode-dap select-scheme --list` to see all 3 schemes"), "{none}");
}

#[test]
fn schemes_are_cached_by_workspace_and_age() {
    let name = schemes_cache_name("/w/App.xcworkspace");
    assert!(name.starts_with("schemes-") && name.ends_with(".json") && name.len() == 29);
    assert_ne!(name, schemes_cache_name("/w/Other.xcworkspace"));
    assert!(schemes_cache_usable(7, 7, &names(&["A"])));
    assert!(!schemes_cache_usable(6, 7, &names(&["A"])));
    assert!(!schemes_cache_usable(7, 7, &vec![]));
}

#[test]
fn the_selection_wins_over_the_scenario() {
    let debug = r#"[{"adapter": "Other", "scheme": "X"},
        {"adapter": "Xcode", "scheme": "S", "device": "iPhone 15", "os": "18.2"}]"#;
    assert_eq!(current_scheme(&no_selection(), Some(debug)).as_deref(), Some("S"));
    assert_eq!(current_scheme(&select_scheme(&no_selection(), "T"), Some(debug)).as_deref(), Some("T"));
    assert_eq!(current_scheme(&no_selection(), None), None);
    assert_eq!(
        current_destination(&no_selection(), Some(debug)),
        Some(("iPhone 15".to_string(), Some("18.2".to_string())))
    );
    assert_eq!(debug_json_str(Some(debug), "device").as_deref(), Some("iPhone 15"));
    assert_eq!(debug_json_str(Some("nope"), "device"), None);
    // a field is read from the first Xcode scenario only
    let two = r#"[{"adapter": "Xcode", "scheme": "A"},
        {"adapter": "Xcode", "scheme": "B", "device": "D"}]"#;
    assert_eq!(debug_json_str(Some(two), "scheme").as_deref(), Some("A"));
    assert_eq!(debug_json_str(Some(two), "device"), None);
    assert_eq!(current_destination(&no_selection(), Some(two)), None);
}

#[test]
fn a_chosen_device_is_saved_by_name_unless_that_is_shared() {
    let mut devs = devices();
    let sel = select_device(&no_selection(), &devs, 1);
    assert_eq!((sel.device.as_deref(), sel.os.as_deref()), (Some("iPhone 16 Pro"), Some("26.3")));
    devs[2].name = "iPhone 16 Pro".to_string();
    let sel = select_device(&no_selection(), &devs, 1);
    assert_eq!(sel.device.as_deref(), Some("CCCC"));
    assert_eq!(
        device_list_line(&devs[0]),
        "iPhone SE (3rd generation) — iOS 18.2 — BBBB (booted)"
    );
    let rows = device_items(&devs, &Some(("CCCC".to_string(), None)));
    assert!(rows[0].marked && !rows[1].marked && rows[1].current && !rows[0].current);
}

#[test]
fn the_picker_filters_and_chooses() {
    let all = names(&["App", "Widget", "AppTests"]);
    let mut p = Picker::new(scheme_items(&all, Some("Widget")));
    assert_eq!(p.lines().len(), 3);
    match p.step("app") {
        PickStep::Show(lines) => assert!(lines.iter().any(|l| l.contains("AppTests"))),
        other => panic!("expected rows, got {other:?}"),
    }
    match p.step("2") {
        PickStep::Chosen(i) => assert_eq!(all[i], "AppTests"),
        other => panic!("expected a choice, got {other:?}"),
    }
    assert!(matches!(Picker::new(items(&["A"])).step("q"), PickStep::Quit));
}

#[test]
fn a_refresh_follows_the_first_xcode_scenario() {
    let text = r#"// c
        [{"adapter": "Xcode", "workspace": "$ZED_WORKTREE_ROOT/a.xcworkspace", "scheme": "S",
          "derivedData": "dd", "preflight": "make project"}]"#;
    let plan = read_refresh(text, "/p", Some("Chosen")).unwrap();
    assert_eq!(plan.workspace.as_deref(), Some("a.xcworkspace"));
    assert_eq!(plan.scheme.as_deref(), Some("Chosen"));
    assert_eq!(plan.derived_data.as_deref(), Some("/p/dd"));
    assert_eq!(plan.preflight.as_deref(), Some("make project"));
    assert_eq!(read_refresh(text, "/p", None).unwrap().scheme.as_deref(), Some("S"));
    assert_eq!(
        read_refresh("[]", "/p", None).unwrap_err(),
        "no \"Xcode\" scenario found in .zed/debug.json"
    );
    assert!(read_refresh("[", "/p", None).unwrap_err().starts_with(".zed/debug.json is not valid JSONC"));
    assert_eq!(refreshed(&Regen::Failed("e".into()), "w"), "✗ buildServer.json refresh failed: e");
    assert!(refreshed(&Regen::MissingWorkspace, "w").starts_with("! workspace w does not exist yet"));
}
