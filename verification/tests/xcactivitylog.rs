//! Build logs: tokens, sections, words, and the manifest.

use std::io::Write;
use xcode_dap::engine::log_manifest::logs_for_scheme;
use xcode_dap::engine::log_manifest::newest_log;
use xcode_dap::engine::shell_words::shell_split;
use xcode_dap::engine::slf::slf_strings;
use xcode_dap::engine::xcactivitylog::parse_decompressed;
use xcode_dap::engine::xcactivitylog::parse_log;
use xcode_dap::engine::xcactivitylog::parse_text_lines;

/// SLF0 token, for building synthetic streams (never captured bytes).
enum Tok {
    Str(String),
    Int(i64),
    Double(f64),
    Array(usize),
    Instance(usize),
    Null,
    Class(String),
    Json(String),
}

fn encode_stream(toks: &[Tok]) -> Vec<u8> {
    let mut out = b"SLF0".to_vec();
    for t in toks {
        match t {
            Tok::Str(s) => {
                out.extend(s.len().to_string().bytes());
                out.push(b'"');
                out.extend(s.bytes());
            }
            Tok::Class(s) => {
                out.extend(s.len().to_string().bytes());
                out.push(b'%');
                out.extend(s.bytes());
            }
            Tok::Json(s) => {
                out.extend(s.len().to_string().bytes());
                out.push(b'*');
                out.extend(s.bytes());
            }
            Tok::Int(v) => {
                out.extend(v.to_string().bytes());
                out.push(b'#');
            }
            Tok::Array(v) => {
                out.extend(v.to_string().bytes());
                out.push(b'(');
            }
            Tok::Instance(v) => {
                out.extend(v.to_string().bytes());
                out.push(b'@');
            }
            Tok::Double(v) => {
                let hex: String = v.to_le_bytes().iter().map(|b| format!("{b:02x}")).collect();
                out.extend(hex.bytes());
                out.push(b'^');
            }
            Tok::Null => out.push(b'-'),
        }
    }
    out
}

fn gzip(data: &[u8]) -> Vec<u8> {
    let mut e = flate2::write::GzEncoder::new(Vec::new(), flate2::Compression::default());
    e.write_all(data).unwrap();
    e.finish().unwrap()
}

// A realistic SwiftDriver section (synthetic paths only).
fn driver_section(
    title: &str,
    module: &str,
    wrapper: &str,
    with_index_store: bool,
    filelist: &str,
) -> String {
    let dd = "/Users/x/DD";
    let index = if with_index_store {
        format!(" -index-store-path {dd}/Index.noindex/DataStore")
    } else {
        String::new()
    };
    format!(
        "{title} {module} normal arm64 com.apple.xcode.tools.swift.compiler (in target '{module}' from project '{module}')\n    \
         cd /Users/x/MyApp/Modules/{module}\n    \
         {wrapper} -- /Applications/Xcode.app/Contents/Developer/Toolchains/XcodeDefault.xctoolchain/usr/bin/swiftc \
         -module-name {module} -Onone -enforce-exclusivity\\=checked \
         @{filelist} -DDEBUG{index} \
         -target arm64-apple-ios16.0-simulator \
         {dd}/Build/Intermediates.noindex/MyApp.build/x/{module}.build/Objects-normal/arm64/{module}.o \
         -working-directory /Users/x/MyApp/Modules/{module}"
    )
}

#[test]
fn tokenizer_stays_framed_across_lookalikes_and_newlines() {
    // A string whose content contains a `123"`-style token lookalike and a
    // newline must not desync the scanner.
    let tricky = "prefix 123\" and more\nsecond line".to_string();
    let toks = vec![
        Tok::Int(42),
        Tok::Str("first".into()),
        Tok::Class("SomeClass".into()),
        Tok::Str(tricky.clone()),
        Tok::Double(3.5),
        Tok::Array(2),
        Tok::Null,
        Tok::Instance(7),
        Tok::Json("{\"k\":1}".into()),
        Tok::Str("last".into()),
    ];
    let stream = encode_stream(&toks);
    let strings = slf_strings(&stream);
    // Class/Json/int/double/array/null are consumed but not emitted.
    assert_eq!(
        strings,
        vec!["first".to_string(), tricky, "last".to_string()]
    );
}

#[test]
fn truncated_tokens_end_the_stream() {
    assert_eq!(slf_strings(b"SLF03\"abc10\"short"), vec!["abc".to_string()]);
    assert_eq!(slf_strings(b"SLF03\"abcx\"y"), vec!["abc".to_string()]);
    assert!(slf_strings(b"SLF1").is_empty());
    assert_eq!(slf_strings(b"SLF02\"a\xff"), vec!["a\u{FFFD}".to_string()]);
}

#[test]
fn parses_two_modules_with_both_section_forms() {
    let dd = "/Users/x/DD";
    let s1 = driver_section(
        "SwiftDriver",
        "AlphaKit",
        "builtin-SwiftDriver",
        true,
        &format!("{dd}/Build/Intermediates.noindex/MyApp.build/x/AlphaKit.build/AlphaKit.SwiftFileList"),
    );
    let s2 = driver_section(
        "SwiftDriver\\ Compilation",
        "BetaKit",
        "builtin-Swift-Compilation",
        false, // no -index-store-path -> must be inferred
        &format!("{dd}/Build/Intermediates.noindex/MyApp.build/x/BetaKit.build/BetaKit.SwiftFileList"),
    );
    let stream = encode_stream(&[Tok::Str(s1), Tok::Str(s2)]);
    let mods = parse_decompressed(&stream);
    assert_eq!(mods.len(), 2);

    let alpha = mods.iter().find(|m| m.module_name == "AlphaKit").unwrap();
    assert_eq!(alpha.working_dir, "/Users/x/MyApp/Modules/AlphaKit");
    assert_eq!(
        alpha.index_store_path.as_deref(),
        Some("/Users/x/DD/Index.noindex/DataStore")
    );
    assert_eq!(alpha.file_lists.len(), 1);
    assert!(alpha.file_lists[0].ends_with("AlphaKit.SwiftFileList"));
    assert!(alpha.files.is_empty()); // SwiftDriver form lists no inline files
                                     // argv[0] (swiftc) dropped, @filelist kept verbatim
    assert!(alpha.args.iter().any(|a| a.starts_with('@')));
    assert!(!alpha.args.iter().any(|a| a.ends_with("bin/swiftc")));
    assert!(alpha.args.contains(&"-module-name".to_string()));

    let beta = mods.iter().find(|m| m.module_name == "BetaKit").unwrap();
    // inferred from the Intermediates.noindex object path
    assert_eq!(
        beta.index_store_path.as_deref(),
        Some("/Users/x/DD/Index.noindex/DataStore")
    );
}

#[test]
fn parses_legacy_compileswiftsources_bare_swiftc() {
    // Pre-SwiftDriver (Xcode <= 13) form: a `CompileSwiftSources` title whose
    // command is a bare `swiftc` invocation with no `builtin-… -- ` wrapper.
    // Files are listed inline (no `.SwiftFileList`).
    let section = "CompileSwiftSources normal arm64 com.apple.xcode.tools.swift.compiler (in target 'LegacyKit' from project 'LegacyKit')\n    \
         cd /Users/x/MyApp/Modules/LegacyKit\n    \
         /Applications/Xcode.app/Contents/Developer/Toolchains/XcodeDefault.xctoolchain/usr/bin/swiftc -incremental -module-name LegacyKit -Onone /Users/x/MyApp/Modules/LegacyKit/A.swift -index-store-path /Users/x/DD/Index.noindex/DataStore -working-directory /Users/x/MyApp/Modules/LegacyKit";
    let stream = encode_stream(&[Tok::Str(section.into())]);
    let mods = parse_decompressed(&stream);
    assert_eq!(mods.len(), 1, "legacy CompileSwiftSources must parse");
    let m = &mods[0];
    assert_eq!(m.module_name, "LegacyKit");
    assert_eq!(m.working_dir, "/Users/x/MyApp/Modules/LegacyKit");
    assert_eq!(
        m.index_store_path.as_deref(),
        Some("/Users/x/DD/Index.noindex/DataStore")
    );
    // legacy form lists inline .swift files, no .SwiftFileList
    assert!(m.files.iter().any(|f| f.ends_with("A.swift")));
    assert!(m.file_lists.is_empty());
}

#[test]
fn ignores_requirements_and_noise_sections() {
    // A Compilation Requirements section: title matches, but the command is
    // `builtin-Swift-Compilation-Requirements` — must be rejected.
    let requirements = "SwiftDriver\\ Compilation\\ Requirements GammaKit normal arm64 (in target 'GammaKit')\n    \
         cd /Users/x/MyApp/Modules/GammaKit\n    \
         builtin-Swift-Compilation-Requirements -- /Applications/Xcode.app/usr/bin/swiftc -module-name GammaKit";
    // A SwiftCompile per-file section: title is not a candidate at all.
    let swiftcompile = "SwiftCompile normal arm64 /Users/x/MyApp/Modules/GammaKit/Foo.swift (in target 'GammaKit')\n    \
         cd /Users/x/MyApp/Modules/GammaKit\n    \
         builtin-Swift-Compilation -- /Applications/Xcode.app/usr/bin/swiftc -module-name GammaKit";
    let stream = encode_stream(&[Tok::Str(requirements.into()), Tok::Str(swiftcompile.into())]);
    assert!(parse_decompressed(&stream).is_empty());
}

#[test]
fn empty_truncated_and_non_slf_never_panic() {
    // empty gzip
    assert!(parse_log(&gzip(b"")).is_empty());
    // valid gzip, but not an SLF0 stream
    assert!(parse_log(&gzip(b"not a slf file at all")).is_empty());
    // truncated gzip (chop the tail)
    let full = gzip(&encode_stream(&[Tok::Str("SwiftDriver Foo\n".into())]));
    assert!(parse_log(&full[..full.len() / 2]).is_empty()); // no panic
    // not gzip at all
    assert!(parse_log(b"plain bytes").is_empty());
    // nothing at all
    assert!(parse_log(b"").is_empty());
}

#[test]
fn parse_log_round_trips_through_gzip() {
    let s = driver_section(
        "SwiftDriver",
        "AlphaKit",
        "builtin-SwiftDriver",
        true,
        "/Users/x/DD/Build/Intermediates.noindex/MyApp.build/x/AlphaKit.build/AlphaKit.SwiftFileList",
    );
    let bytes = gzip(&encode_stream(&[Tok::Str(s)]));
    let mods = parse_log(&bytes);
    assert_eq!(mods.len(), 1);
    assert_eq!(mods[0].module_name, "AlphaKit");
}

#[test]
fn several_gzip_members_are_read_as_one() {
    let s = driver_section("SwiftDriver", "AlphaKit", "builtin-SwiftDriver", true, "/x.SwiftFileList");
    let stream = encode_stream(&[Tok::Str(s)]);
    let mut bytes = gzip(&stream[..20]);
    bytes.extend(gzip(&stream[20..]));
    assert_eq!(parse_log(&bytes).len(), 1);
}

#[test]
fn a_cut_log_gives_its_front() {
    let a = driver_section("SwiftDriver", "AlphaKit", "builtin-SwiftDriver", true, "/a.SwiftFileList");
    let b = driver_section("SwiftDriver", "BetaKit", "builtin-SwiftDriver", true, "/b.SwiftFileList");
    let first = encode_stream(&[Tok::Str(a.clone())]);
    let both = encode_stream(&[Tok::Str(a.clone()), Tok::Str(b.clone())]);
    // the tokenizer: whatever the cut, the strings in front of it
    for n in 0..=both.len() {
        let strings = slf_strings(&both[..n]);
        let want: Vec<String> = [a.clone(), b.clone()][..strings.len()].to_vec();
        assert_eq!(strings, want);
        assert_eq!(strings.len() >= 1, n >= first.len());
    }
    // the whole reader, cut anywhere in the second gzip member
    let head = gzip(&both[..first.len()]);
    let mut bytes = head.clone();
    bytes.extend(gzip(&both[first.len()..]));
    for n in head.len()..=bytes.len() {
        let names: Vec<String> = parse_log(&bytes[..n]).into_iter().map(|m| m.module_name).collect();
        assert!(names == vec!["AlphaKit"] || names == vec!["AlphaKit", "BetaKit"]);
    }
    assert_eq!(parse_log(&bytes[..head.len() + 5]).len(), 1);
    assert_eq!(parse_log(&bytes).len(), 2);
}

#[test]
fn parse_text_lines_parses_stdout_sections() {
    // Captured xcodebuild stdout: two real Swift modules (both title forms)
    // interleaved with CompileC/Ld noise and a Requirements section that must
    // be rejected. `\` for the escaped title space.
    let dd = "/Users/x/DD";
    let stdout = format!(
        "note: Building targets in dependency order\n\
         SwiftDriver AlphaKit normal arm64 com.apple.xcode.tools.swift.compiler (in target 'AlphaKit' from project 'AlphaKit')\n    \
         cd /Users/x/MyApp/Modules/AlphaKit\n    \
         builtin-SwiftDriver -- /Applications/Xcode.app/Contents/Developer/Toolchains/XcodeDefault.xctoolchain/usr/bin/swiftc -module-name AlphaKit -Onone @{dd}/Build/Intermediates.noindex/AlphaKit.SwiftFileList -index-store-path {dd}/Index.noindex/DataStore\n\
         \n\
         CompileC {dd}/Build/foo.o /Users/x/MyApp/foo.m normal arm64\n    \
         cd /Users/x/MyApp\n    \
         /Applications/Xcode.app/usr/bin/clang -x objective-c foo.m\n\
         \n\
         SwiftDriver\\ Compilation\\ Requirements AlphaKit normal arm64 (in target 'AlphaKit' from project 'AlphaKit')\n    \
         cd /Users/x/MyApp/Modules/AlphaKit\n    \
         builtin-Swift-Compilation-Requirements -- /Applications/Xcode.app/usr/bin/swiftc -module-name AlphaKit\n\
         \n\
         SwiftDriver\\ Compilation BetaKit normal arm64 com.apple.xcode.tools.swift.compiler (in target 'BetaKit' from project 'BetaKit')\n    \
         cd /Users/x/MyApp/Modules/BetaKit\n    \
         builtin-Swift-Compilation -- /Applications/Xcode.app/Contents/Developer/Toolchains/XcodeDefault.xctoolchain/usr/bin/swiftc -module-name BetaKit @{dd}/Build/Intermediates.noindex/BetaKit.SwiftFileList\n\
         \n\
         Ld {dd}/Build/Products/BetaKit.framework/BetaKit normal\n    \
         cd /Users/x/MyApp\n"
    );

    let mods = parse_text_lines(&stdout);
    assert_eq!(
        mods.len(),
        2,
        "AlphaKit + BetaKit; CompileC/Ld noise + Requirements excluded"
    );

    let alpha = mods.iter().find(|m| m.module_name == "AlphaKit").unwrap();
    assert_eq!(alpha.working_dir, "/Users/x/MyApp/Modules/AlphaKit");
    assert_eq!(
        alpha.index_store_path.as_deref(),
        Some("/Users/x/DD/Index.noindex/DataStore")
    );
    assert_eq!(alpha.file_lists.len(), 1);
    assert!(alpha.file_lists[0].ends_with("AlphaKit.SwiftFileList"));
    // argv[0] (swiftc) dropped, @filelist kept verbatim
    assert!(alpha.args.iter().any(|a| a.starts_with('@')));
    assert!(!alpha.args.iter().any(|a| a.ends_with("bin/swiftc")));
    assert!(alpha.args.contains(&"-module-name".to_string()));

    assert!(mods.iter().any(|m| m.module_name == "BetaKit"));
}

#[test]
fn parse_text_lines_empty_and_noise_only_yield_nothing() {
    assert!(parse_text_lines("").is_empty());
    assert!(parse_text_lines("note: foo\n** BUILD SUCCEEDED **\n").is_empty());
}

#[test]
fn a_module_listed_twice_is_kept_as_it_came_last() {
    let section = |flag: &str| {
        format!("SwiftDriver A\n    /x/usr/bin/swiftc -module-name A {flag}\n\n")
    };
    let mods = parse_text_lines(&format!("{}{}", section("-Onone"), section("-O")));
    assert_eq!(mods.len(), 1);
    assert_eq!(mods[0].args, vec!["-module-name", "A", "-O"]);
}

#[test]
fn shell_split_edge_cases() {
    assert_eq!(shell_split("'a b'"), vec!["a b"]);
    assert_eq!(shell_split("\"a b\""), vec!["a b"]);
    assert_eq!(shell_split(r"a\ b"), vec!["a b"]); // escaped space -> real space
                                                   // `\=` is kept verbatim (unescaped later at serve time)
    assert_eq!(
        shell_split(r"-enforce-exclusivity\=checked"),
        vec![r"-enforce-exclusivity\=checked"]
    );
    assert_eq!(
        shell_split("-module-name  Foo   -Onone"),
        vec!["-module-name", "Foo", "-Onone"]
    );
    assert_eq!(shell_split(""), Vec::<String>::new());
    // a filelist path with an escaped space stays one token
    assert_eq!(
        shell_split(r"/Users/x/My\ App/A.swift"),
        vec!["/Users/x/My App/A.swift"]
    );
}

#[test]
fn newest_log_filename_picks_max_time_for_scheme() {
    let manifest = br#"{
        "logs": {
            "AAAAAAAA-0000": {
                "fileName": "old.xcactivitylog",
                "schemeIdentifier-schemeName": "MyApp",
                "timeStoppedRecording": 100.0
            },
            "BBBBBBBB-1111": {
                "fileName": "new.xcactivitylog",
                "schemeIdentifier-schemeName": "MyApp",
                "timeStoppedRecording": 200.5
            },
            "CCCCCCCC-2222": {
                "fileName": "other-scheme.xcactivitylog",
                "schemeIdentifier-schemeName": "OtherApp",
                "timeStoppedRecording": 999.0
            },
            "DDDDDDDD-3333": {
                "schemeIdentifier-schemeName": "MyApp"
            }
        }
    }"#;
    assert_eq!(
        newest_log("/r", manifest, "MyApp").as_deref(),
        Some("/r/Logs/Build/new.xcactivitylog")
    );
    assert_eq!(newest_log("/r", manifest, "Nonexistent"), None);
    // no `logs` key -> None, no panic
    assert_eq!(newest_log("/r", b"{}", "MyApp"), None);
    assert_eq!(newest_log("/r", b"not json", "MyApp"), None);
}

#[test]
fn logs_for_scheme_sorted_is_ascending_and_scheme_scoped() {
    let manifest = br#"{
        "logs": {
            "BBBB": {
                "fileName": "new.xcactivitylog",
                "schemeIdentifier-schemeName": "MyApp",
                "timeStoppedRecording": 200.5
            },
            "AAAA": {
                "fileName": "old.xcactivitylog",
                "schemeIdentifier-schemeName": "MyApp",
                "timeStoppedRecording": 100.0
            },
            "CCCC": {
                "fileName": "mid.xcactivitylog",
                "schemeIdentifier-schemeName": "MyApp",
                "timeStoppedRecording": 150.0
            },
            "DDDD": {
                "fileName": "other.xcactivitylog",
                "schemeIdentifier-schemeName": "OtherApp",
                "timeStoppedRecording": 999.0
            },
            "EEEE": {
                "schemeIdentifier-schemeName": "MyApp"
            }
        }
    }"#;
    // Ascending by timeStoppedRecording, only this scheme, missing skipped.
    assert_eq!(
        logs_for_scheme("/r", manifest, "MyApp"),
        vec![
            "/r/Logs/Build/old.xcactivitylog".to_string(),
            "/r/Logs/Build/mid.xcactivitylog".to_string(),
            "/r/Logs/Build/new.xcactivitylog".to_string()
        ]
    );
    assert!(logs_for_scheme("/r", manifest, "Nonexistent").is_empty());
    assert!(logs_for_scheme("/r", b"{}", "MyApp").is_empty());
}

#[test]
fn negative_times_are_older() {
    let manifest = br#"{ "logs": {
        "A": { "fileName": "b", "schemeIdentifier-schemeName": "S", "timeStoppedRecording": -1.5 },
        "B": { "fileName": "a", "schemeIdentifier-schemeName": "S", "timeStoppedRecording": -2.5 },
        "C": { "fileName": "c", "schemeIdentifier-schemeName": "S", "timeStoppedRecording": 0 }
    } }"#;
    assert_eq!(
        logs_for_scheme("r", manifest, "S"),
        ["r/Logs/Build/a", "r/Logs/Build/b", "r/Logs/Build/c"]
    );
}

#[test]
fn two_outputs_with_a_blank_line_give_both() {
    let section = |name: &str, flag: &str| {
        format!(
            "SwiftDriver {name} normal arm64 (in target '{name}')\n    cd /m/{name}\n    \
             builtin-SwiftDriver -- /x/usr/bin/swiftc -module-name {name} {flag}"
        )
    };
    let a = format!("{}\n\n{}", section("AlphaKit", "-Onone"), section("BetaKit", "-Onone"));
    let b = section("BetaKit", "-O");
    for (a, b) in [(a.clone(), b.clone()), (a.clone() + "\r", b.clone()), (a.clone() + "\n", b)] {
        let both = parse_text_lines(&format!("{a}\n\n{b}"));
        let names: Vec<&str> = both.iter().map(|m| m.module_name.as_str()).collect();
        assert_eq!(names, ["AlphaKit", "BetaKit"]);
        assert_eq!(both[0], parse_text_lines(&a)[0].copy());
        assert_eq!(both[1], parse_text_lines(&b)[0].copy());
        assert!(both[1].args.contains(&"-O".to_string()));
    }
}
