use xcode_dap::engine::compile_store::merges_anything;
use xcode_dap::engine::compile_store::sanitize_scheme;
use xcode_dap::engine::compile_store::store_file_name;
use xcode_dap::engine::compile_store::store_lock_path;
use xcode_dap::engine::compile_store::CompileStore;
use xcode_dap::engine::compile_store::LockedMerge;
use xcode_dap::engine::compile_store::Persisted;
use xcode_dap::engine::compile_store::Watermark;
use xcode_dap::engine::disk::Disk;
use xcode_dap::engine::xcactivitylog::ParsedModule;
use xcode_dap::util::name_map::NameMap;

fn module(name: &str, args: Vec<&str>, files: Vec<&str>, file_lists: Vec<&str>) -> ParsedModule {
    ParsedModule {
        module_name: name.to_string(),
        working_dir: format!("/Users/x/MyApp/Modules/{name}"),
        index_store_path: Some("/Users/x/DD/Index.noindex/DataStore".to_string()),
        files: files.into_iter().map(String::from).collect(),
        file_lists: file_lists.into_iter().map(String::from).collect(),
        args: args.into_iter().map(String::from).collect(),
    }
}

#[test]
fn zero_module_merge_is_a_strict_no_op() {
    let disk = Disk::new();
    let mut store = CompileStore::new("/Users/x/DD", "MyApp");
    store.merge(vec![module("AlphaKit", vec!["-module-name", "AlphaKit"], vec![], vec![])], &disk);
    assert_eq!(store.module_count(), 1);
    let before = store.module("AlphaKit").map(|m| m.copy());

    store.merge(vec![], &disk); // zero-module parse
    assert_eq!(store.module_count(), 1, "zero-module merge must not wipe");
    assert_eq!(store.module("AlphaKit").map(|m| m.copy()), before);
}

#[test]
fn merge_is_last_wins_per_module_and_keeps_others() {
    let disk = Disk::new();
    let mut store = CompileStore::new("/Users/x/DD", "MyApp");
    store.merge(
        vec![
            module("AlphaKit", vec!["-module-name", "AlphaKit", "-Onone"], vec![], vec![]),
            module("GammaKit", vec!["-module-name", "GammaKit"], vec![], vec![]),
        ],
        &disk,
    );
    // Re-parse of AlphaKit only: replaces AlphaKit, keeps GammaKit.
    store.merge(
        vec![module("AlphaKit", vec!["-module-name", "AlphaKit", "-O"], vec![], vec![])],
        &disk,
    );
    assert_eq!(store.module_count(), 2);
    assert!(store.module("AlphaKit").unwrap().args.contains(&"-O".to_string()));
    assert!(!store.module("AlphaKit").unwrap().args.contains(&"-Onone".to_string()));
    assert!(store.module("GammaKit").is_some());
}

#[test]
fn serves_expanded_filelist_dropped_args_and_unescaped_eq() {
    let filelist = "/tmp/AlphaKit.SwiftFileList";
    let mut disk = Disk::new();
    disk.add_file(
        filelist,
        "/Users/x/MyApp/Sources/A.swift\n/Users/x/MyApp/Sources/B.swift\n",
    );
    let list_arg = format!("@{filelist}");

    let mut store = CompileStore::new("/Users/x/DD", "MyApp");
    store.merge(
        vec![module(
            "AlphaKit",
            vec![
                "-module-name",
                "AlphaKit",
                r"-enforce-exclusivity\=checked",
                "-use-frontend-parseable-output",
                "-emit-localized-strings",
                "-emit-localized-strings-path",
                "/Users/x/DD/loc",
                &list_arg,
                "-DDEBUG",
            ],
            vec!["/Users/x/MyApp/Sources/Fallback.swift"],
            vec![filelist],
        )],
        &disk,
    );

    let (args, wd) = store
        .options_for_file("/Users/x/MyApp/Sources/A.swift", None, &disk)
        .expect("A.swift resolves to AlphaKit");
    assert_eq!(wd, "/Users/x/MyApp/Modules/AlphaKit");
    // filelist expanded inline
    assert!(args.contains(&"/Users/x/MyApp/Sources/A.swift".to_string()));
    assert!(args.contains(&"/Users/x/MyApp/Sources/B.swift".to_string()));
    assert!(!args.iter().any(|a| a.starts_with('@')));
    // \= unescaped
    assert!(args.contains(&"-enforce-exclusivity=checked".to_string()));
    assert!(!args.iter().any(|a| a.contains(r"\=")));
    // sourcekit-hostile flags (and the localized-strings value) dropped
    assert!(!args.contains(&"-use-frontend-parseable-output".to_string()));
    assert!(!args.contains(&"-emit-localized-strings".to_string()));
    assert!(!args.contains(&"-emit-localized-strings-path".to_string()));
    assert!(!args.contains(&"/Users/x/DD/loc".to_string()));
    assert!(args.contains(&"-DDEBUG".to_string()));

    // filelist gone -> serve falls back to the stored files
    let gone = Disk::new();
    let (args, _) = store
        .options_for_file("/Users/x/MyApp/Sources/A.swift", None, &gone)
        .expect("still resolves via the pre-built index");
    assert!(args.contains(&"/Users/x/MyApp/Sources/Fallback.swift".to_string()));
    assert!(!args.contains(&"/Users/x/MyApp/Sources/B.swift".to_string()));
}

#[test]
fn new_file_inference_same_dir_and_parent_walk() {
    let filelist = "/tmp/AlphaKit.SwiftFileList";
    let mut disk = Disk::new();
    disk.add_file(filelist, "/Users/x/MyApp/Sources/A.swift\n");
    let list_arg = format!("@{filelist}");

    let mut store = CompileStore::new("/Users/x/DD", "MyApp");
    store.merge(
        vec![module(
            "AlphaKit",
            vec!["-module-name", "AlphaKit", &list_arg],
            vec![],
            vec![filelist],
        )],
        &disk,
    );

    // same directory as A.swift
    let (args, _) = store
        .options_for_file("/Users/x/MyApp/Sources/New.swift", None, &disk)
        .expect("same-dir sibling");
    assert!(args.contains(&"/Users/x/MyApp/Sources/New.swift".to_string()));

    // nested directory: walk up to Sources, bounded by project_root
    let (args, _) = store
        .options_for_file("/Users/x/MyApp/Sources/Sub/Deep.swift", Some("/Users/x/MyApp"), &disk)
        .expect("parent-walk sibling");
    assert!(args.contains(&"/Users/x/MyApp/Sources/Sub/Deep.swift".to_string()));

    // outside any known module -> None
    assert!(store
        .options_for_file("/Users/x/Elsewhere/Foo.swift", Some("/Users/x/MyApp"), &disk)
        .is_none());

    // non-.swift -> None
    assert!(store
        .options_for_file("/Users/x/MyApp/Sources/README.md", None, &disk)
        .is_none());

    // a directory that holds a `.git` ends the walk
    let mut repo = Disk::new();
    repo.add_repo("/users/x/myapp/sources/sub");
    assert!(store
        .options_for_file("/Users/x/MyApp/Sources/Sub/More/Deep.swift", None, &repo)
        .is_none());
    assert!(store
        .options_for_file("/Users/x/MyApp/Sources/Sub/More/Deep.swift", None, &disk)
        .is_some());
}

#[test]
fn save_load_round_trip_and_mismatch_is_ignored() {
    let disk = Disk::new();
    let mut store = CompileStore::new("/Users/x/DD", "MyApp");
    store.merge(
        vec![module(
            "AlphaKit",
            vec!["-module-name", "AlphaKit", "-DDEBUG"],
            vec!["/Users/x/MyApp/Sources/A.swift"],
            vec![],
        )],
        &disk,
    );

    let loaded = CompileStore::load("/Users/x/DD", "MyApp", Some(store.persisted()), &disk);
    assert_eq!(loaded.module_count(), 1);
    assert_eq!(
        loaded.module("AlphaKit").unwrap().args,
        store.module("AlphaKit").unwrap().args
    );
    // index rebuilt on load: A.swift resolves
    assert!(loaded
        .options_for_file("/Users/x/MyApp/Sources/A.swift", None, &disk)
        .is_some());

    // A store written for a different build_root must be ignored.
    let mismatched = CompileStore::load("/Users/x/Other", "MyApp", Some(store.persisted()), &disk);
    assert!(mismatched.is_empty());
}

#[test]
fn last_ingested_log_watermark_round_trips() {
    let disk = Disk::new();
    let mut store = CompileStore::new("/Users/x/DD", "MyApp");
    store.merge(vec![module("AlphaKit", vec!["-module-name", "AlphaKit"], vec![], vec![])], &disk);
    assert_eq!(store.last_ingested_log(), None);
    store.set_last_ingested_log(Some("42-abc.xcactivitylog".to_string()));

    let loaded = CompileStore::load("/Users/x/DD", "MyApp", Some(store.persisted()), &disk);
    assert_eq!(loaded.last_ingested_log(), Some("42-abc.xcactivitylog"));

    // A store without a watermark still loads.
    let legacy = Persisted {
        version: 1,
        build_root: "/Users/x/DD".to_string(),
        scheme: "MyApp".to_string(),
        modules: NameMap::new(),
        last_log: None,
    };
    let loaded_legacy = CompileStore::load("/Users/x/DD", "MyApp", Some(legacy), &disk);
    assert_eq!(loaded_legacy.last_ingested_log(), None);
}

#[test]
fn another_version_is_ignored() {
    let disk = Disk::new();
    let mut store = CompileStore::new("/dd", "S");
    store.merge(vec![module("M", vec![], vec![], vec![])], &disk);
    let mut saved = store.persisted();
    saved.version = 2;
    assert!(CompileStore::load("/dd", "S", Some(saved), &disk).is_empty());
}

#[test]
fn store_file_name_is_unique_and_path_free() {
    let a = store_file_name("/Users/x/DD-one", "MyApp");
    let b = store_file_name("/Users/x/DD-two", "MyApp");
    let c = store_file_name("/Users/x/DD-one", "MyApp (staging)");
    assert_ne!(a, b, "different build roots -> different files");
    assert_ne!(a, c, "different schemes -> different files");
    assert!(a.starts_with("compile-store-") && a.ends_with(".json"));
    // scheme sanitised (no spaces or parens leaking into the filename)
    assert!(!c.contains(' ') && !c.contains('(') && !c.contains(')'));
    // no raw path text on disk
    assert!(!a.contains("Users") && !a.contains("DD-one"));
    assert_eq!(
        CompileStore::store_path("/h", "/Users/x/DD-one", "MyApp"),
        format!("/h/cache/{a}")
    );
    assert_eq!(store_lock_path("/h/a.json"), "/h/a.json.lock");
}

#[test]
fn store_file_name_distinguishes_schemes_that_sanitize_alike() {
    // Two schemes that sanitize_scheme maps to the same readable segment must
    // still get distinct files.
    let root = "/Users/x/DD";
    assert_eq!(sanitize_scheme("App/Dev"), sanitize_scheme("App:Dev"));
    assert_ne!(
        store_file_name(root, "App/Dev"),
        store_file_name(root, "App:Dev"),
        "colliding sanitized schemes -> still distinct files"
    );
}

fn merge(saved: Option<Persisted>, groups: Vec<Vec<ParsedModule>>, w: Watermark) -> LockedMerge {
    CompileStore::merge_save_locked("/Users/x/DD", "MyApp", saved, &groups, w, &Disk::new())
}

#[test]
fn merge_save_locked_preserves_concurrent_writers_modules() {
    // Writer 1 (e.g. the poll loop) ingests AlphaKit and advances the watermark.
    let r1 = merge(
        None,
        vec![vec![module("AlphaKit", vec!["-module-name", "AlphaKit"], vec![], vec![])]],
        Watermark::Advance(Some("1.xcactivitylog".to_string())),
    );
    assert!(r1.changed);
    assert_eq!(r1.store.module_count(), 1);

    // Writer 2 (e.g. the build pipeline) ingests GammaKit: what was saved is
    // folded in. `Watermark::Keep` leaves writer 1's watermark alone.
    let r2 = merge(
        Some(r1.store.persisted()),
        vec![vec![module("GammaKit", vec!["-module-name", "GammaKit"], vec![], vec![])]],
        Watermark::Keep,
    );
    assert!(r2.changed);
    assert_eq!(r2.store.module_count(), 2, "both writers' modules survive");
    assert!(r2.store.module("AlphaKit").is_some());
    assert!(r2.store.module("GammaKit").is_some());
    assert_eq!(
        r2.store.last_ingested_log(),
        Some("1.xcactivitylog"),
        "Watermark::Keep preserved the poll watermark"
    );

    // The same is true of what is saved.
    let reloaded =
        CompileStore::load("/Users/x/DD", "MyApp", Some(r2.store.persisted()), &Disk::new());
    assert_eq!(reloaded.module_count(), 2);
    assert_eq!(reloaded.last_ingested_log(), Some("1.xcactivitylog"));
}

#[test]
fn merge_save_locked_empty_parse_is_no_change() {
    let r1 = merge(
        None,
        vec![vec![module("AlphaKit", vec!["-module-name", "AlphaKit"], vec![], vec![])]],
        Watermark::Advance(Some("1.xcactivitylog".to_string())),
    );
    // An all-empty parse changes nothing: the store is preserved and the
    // watermark is not advanced.
    let r = merge(
        Some(r1.store.persisted()),
        vec![vec![], vec![]],
        Watermark::Advance(Some("2.xcactivitylog".to_string())),
    );
    assert!(!r.changed);
    assert_eq!(r.store.module_count(), 1);
    assert_eq!(
        r.store.last_ingested_log(),
        Some("1.xcactivitylog"),
        "no-op parse must not advance the persisted watermark"
    );
}

#[test]
fn the_sibling_search_stays_inside_the_project() {
    let disk = Disk::new();
    let mut store = CompileStore::new("/d", "S");
    store.merge(vec![module("K", vec!["-module-name", "K"], vec!["/n/A.swift"], vec![])], &disk);
    // A.swift is above the project root
    assert!(store.options_for_file("/n/proj/New.swift", Some("/n/proj"), &disk).is_none());
    assert!(store.options_for_file("/n/proj/sub/New.swift", Some("/n/proj"), &disk).is_none());
    assert!(store.options_for_file("/n/proj/New.swift", Some("/n"), &disk).is_some());
    assert!(store.options_for_file("/n/proj/New.swift", None, &disk).is_some());
    // the root itself is looked at
    assert!(store.options_for_file("/n/New.swift", Some("/n"), &disk).is_some());
    // and so is a repository, but nothing above it
    let mut repo = Disk::new();
    repo.add_repo("/n/proj");
    assert!(store.options_for_file("/n/proj/New.swift", None, &repo).is_none());
    let mut above = Disk::new();
    above.add_repo("/n");
    assert!(store.options_for_file("/n/proj/New.swift", None, &above).is_some());
}

#[test]
fn unnamed_modules_are_no_change() {
    let unnamed = || vec![vec![module("", vec!["-O"], vec![], vec![])]];
    assert!(!merges_anything(&unnamed()));
    let r = merge(None, unnamed(), Watermark::Advance(Some("1.xcactivitylog".to_string())));
    assert!(!r.changed);
    assert!(r.store.is_empty());
    assert_eq!(r.store.last_ingested_log(), None);
    let mut groups = unnamed();
    groups.push(vec![module("", vec![], vec![], vec![]), module("K", vec![], vec![], vec![])]);
    let r = merge(None, groups, Watermark::Advance(Some("1.xcactivitylog".to_string())));
    assert!(r.changed);
    assert_eq!(r.store.module_count(), 1);
    assert_eq!(r.store.last_ingested_log(), Some("1.xcactivitylog"));
}
