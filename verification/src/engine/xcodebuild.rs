//! xcodebuild: command lines, build settings, output filter and throttle.

use crate::commands::refresh::own_opt;
use crate::engine::config::BuildOutput;
use crate::engine::config::ConfigView;
use crate::engine::config::LaunchConfig;
use crate::json::parse;
use crate::json::serde_parse;
use crate::json::views_of;
use crate::json::Json;
use crate::json::JsonView;
use crate::number::decimal_i64;
use crate::number::decimal_int;
use crate::text::chars_of;
use crate::text::contains;
use crate::text::ends_with;
use crate::text::has_infix;
use crate::text::has_prefix;
use crate::text::has_suffix;
use crate::text::in_context;
use crate::text::joined_with;
use crate::text::lossy_text;
use crate::text::opt_str_view;
use crate::text::opt_view;
use crate::text::owned;
use crate::text::push_text;
use crate::text::starts_with;
use crate::text::text_result;
use crate::text::texts;
use crate::text::trim;
use crate::text::trimmed;
use crate::text::utf8_lossy;
use crate::text::with_context;
use crate::util::name_map::NameMap;
use crate::util::paths::container_flag;
use crate::util::paths::is_project;
use crate::util::paths::join;
use crate::util::paths::joined;
use crate::util::paths::lemma_parent_of_joined;
use crate::util::paths::lemma_parent_of_trimmed;
use crate::util::paths::parent;
use crate::util::paths::parent_of;
use crate::util::paths::plain_name;
use vstd::prelude::*;
use vstd::utf8::encode_utf8;

verus! {

// ---------------------------------------------------------------------------
// command lines
// ---------------------------------------------------------------------------

/// A flag with its value, where there is one.
pub open spec fn flag_words(flag: Seq<char>, value: Option<Seq<char>>) -> Seq<Seq<char>> {
    match value {
        Some(v) => seq![flag, v],
        None => Seq::empty(),
    }
}

/// The arguments that xcodebuild is given for a workspace and a scheme.
pub open spec fn settings_words(
    workspace: Seq<char>,
    scheme: Seq<char>,
    configuration: Option<Seq<char>>,
    derived_data: Option<Seq<char>>,
) -> Seq<Seq<char>> {
    seq![
        if is_project(workspace) {
            "-project"@
        } else {
            "-workspace"@
        },
        workspace,
        "-scheme"@,
        scheme,
    ] + flag_words("-configuration"@, configuration) + flag_words(
        "-derivedDataPath"@,
        derived_data,
    )
}

/// The arguments that xcodebuild is given for a configuration.
pub open spec fn base_words(cfg: ConfigView) -> Seq<Seq<char>> {
    settings_words(cfg.workspace, cfg.scheme, cfg.configuration, cfg.derived_data)
}

/// `<container-flag> <workspace> -scheme <scheme> [-configuration <c>]
/// [-derivedDataPath <dd>]`: the shared prefix for build, clean and
/// showBuildSettings.
pub fn settings_cmd(
    workspace: &str,
    scheme: &str,
    configuration: Option<&str>,
    derived_data: Option<&str>,
) -> (r: Vec<String>)
    ensures
        texts(r@) == settings_words(
            workspace@,
            scheme@,
            opt_str_view(configuration),
            opt_str_view(derived_data),
        ),
{
    let mut r: Vec<String> = Vec::new();
    r.push(owned(container_flag(workspace)));
    r.push(owned(workspace));
    r.push(owned("-scheme"));
    r.push(owned(scheme));
    if let Some(c) = configuration {
        r.push(owned("-configuration"));
        r.push(owned(c));
    }
    if let Some(d) = derived_data {
        r.push(owned("-derivedDataPath"));
        r.push(owned(d));
    }
    assert(texts(r@) =~= settings_words(
        workspace@,
        scheme@,
        opt_str_view(configuration),
        opt_str_view(derived_data),
    ));
    r
}

/// A string that may be absent, borrowed.
pub fn as_opt_str(o: &Option<String>) -> (r: Option<&str>)
    ensures
        opt_str_view(r) == opt_view(*o),
{
    match o {
        Some(s) => Some(s.as_str()),
        None => None,
    }
}

/// The arguments that xcodebuild is given for a configuration.
pub fn base_cmd(cfg: &LaunchConfig) -> (r: Vec<String>)
    ensures
        texts(r@) == base_words(cfg@),
{
    settings_cmd(
        cfg.workspace.as_str(),
        cfg.scheme.as_str(),
        as_opt_str(&cfg.configuration),
        as_opt_str(&cfg.derived_data),
    )
}

/// The destination argument of a simulator.
pub open spec fn destination_word(udid: Seq<char>) -> Seq<char> {
    "platform=iOS Simulator,id="@ + udid
}

/// The destination argument of a simulator.
fn destination(udid: &str) -> (r: String)
    ensures
        r@ == destination_word(udid@),
{
    let mut r = owned("platform=iOS Simulator,id=");
    r.append(udid);
    r
}

/// The arguments of a build for a simulator.
pub open spec fn build_words(cfg: ConfigView, udid: Seq<char>) -> Seq<Seq<char>> {
    base_words(cfg) + seq!["-destination"@, destination_word(udid), "build"@]
}

/// The arguments of a build for a simulator.
pub fn build(cfg: &LaunchConfig, udid: &str) -> (r: Vec<String>)
    ensures
        texts(r@) == build_words(cfg@, udid@),
{
    let mut r = base_cmd(cfg);
    push_text(&mut r, "-destination");
    push_text(&mut r, destination(udid).as_str());
    push_text(&mut r, "build");
    assert(texts(r@) =~= build_words(cfg@, udid@));
    r
}

/// The arguments of a clean.
pub open spec fn clean_words(cfg: ConfigView) -> Seq<Seq<char>> {
    base_words(cfg) + seq!["clean"@]
}

/// The arguments of a clean.
pub fn clean(cfg: &LaunchConfig) -> (r: Vec<String>)
    ensures
        texts(r@) == clean_words(cfg@),
{
    let mut r = base_cmd(cfg);
    push_text(&mut r, "clean");
    assert(texts(r@) =~= clean_words(cfg@));
    r
}

/// The arguments that show the settings of a build for a simulator.
pub open spec fn show_words(cfg: ConfigView, udid: Seq<char>) -> Seq<Seq<char>> {
    base_words(cfg) + seq![
        "-destination"@,
        destination_word(udid),
        "-showBuildSettings"@,
        "-json"@,
        "build"@,
    ]
}

/// The arguments that show the settings of a build for a simulator.
pub fn show_settings(cfg: &LaunchConfig, udid: &str) -> (r: Vec<String>)
    ensures
        texts(r@) == show_words(cfg@, udid@),
{
    let mut r = base_cmd(cfg);
    push_text(&mut r, "-destination");
    push_text(&mut r, destination(udid).as_str());
    push_text(&mut r, "-showBuildSettings");
    push_text(&mut r, "-json");
    push_text(&mut r, "build");
    assert(texts(r@) =~= show_words(cfg@, udid@));
    r
}

/// The arguments that show the settings for any simulator.
pub open spec fn show_root_words(
    workspace: Seq<char>,
    scheme: Seq<char>,
    configuration: Option<Seq<char>>,
) -> Seq<Seq<char>> {
    settings_words(workspace, scheme, configuration, None) + seq![
        "-destination"@,
        "generic/platform=iOS Simulator"@,
        "-showBuildSettings"@,
        "-json"@,
        "build"@,
    ]
}

/// The arguments that show the settings for any simulator: enough to find the
/// build root, without a booted device.
pub fn show_root_settings(workspace: &str, scheme: &str, configuration: Option<&str>) -> (r: Vec<
    String,
>)
    ensures
        texts(r@) == show_root_words(workspace@, scheme@, opt_str_view(configuration)),
{
    let mut r = settings_cmd(workspace, scheme, configuration, None);
    push_text(&mut r, "-destination");
    push_text(&mut r, "generic/platform=iOS Simulator");
    push_text(&mut r, "-showBuildSettings");
    push_text(&mut r, "-json");
    push_text(&mut r, "build");
    assert(texts(r@) =~= show_root_words(workspace@, scheme@, opt_str_view(configuration)));
    r
}

// ---------------------------------------------------------------------------
// settings caches
// ---------------------------------------------------------------------------

/// A text that may be absent, as the empty text where it is.
pub open spec fn or_empty(o: Option<Seq<char>>) -> Seq<char> {
    match o {
        Some(s) => s,
        None => ""@,
    }
}

/// Whether a character is written behind a backslash in a cache key: the bar that
/// stands between the parts, and the backslash itself.
pub open spec fn is_escaped(c: char) -> bool {
    c == '|' || c == '\\'
}

/// A part of a cache key.
pub open spec fn key_part(s: Seq<char>) -> Seq<char>
    decreases s.len(),
{
    if s.len() == 0 {
        Seq::empty()
    } else if is_escaped(s[0]) {
        seq!['\\', s[0]] + key_part(s.drop_first())
    } else {
        seq![s[0]] + key_part(s.drop_first())
    }
}

/// Key of the app-path cache.
pub open spec fn settings_key(ws: Seq<char>, cfg: ConfigView, udid: Seq<char>) -> Seq<char> {
    key_part(ws) + "|"@ + key_part(cfg.scheme) + "|"@ + key_part(udid) + "|"@ + key_part(
        or_empty(cfg.configuration),
    ) + "|"@ + key_part(or_empty(cfg.derived_data))
}

/// Key of the build-root cache.
pub open spec fn root_key(
    ws: Seq<char>,
    scheme: Seq<char>,
    derived_data: Option<Seq<char>>,
) -> Seq<char> {
    key_part(ws) + "|"@ + key_part(scheme) + "|"@ + key_part(or_empty(derived_data))
}

/// Append a part of a cache key.
fn append_part(key: &mut String, part: &str)
    ensures
        final(key)@ == old(key)@ + key_part(part@),
{
    let ghost before = key@;
    let cs = chars_of(part);
    let mut i: usize = 0;
    assert(cs@.skip(0) =~= part@);
    while i < cs.len()
        invariant
            i <= cs.len(),
            cs@ == part@,
            key@ + key_part(cs@.skip(i as int)) == before + key_part(part@),
        decreases cs.len() - i,
    {
        let ghost done = key@;
        let ghost rest = cs@.skip(i as int);
        assert(rest[0] == cs@[i as int]);
        assert(rest.drop_first() =~= cs@.skip(i + 1));
        if cs[i] == '|' || cs[i] == '\\' {
            key.push('\\');
            key.push(cs[i]);
            assert(key@ =~= done + seq!['\\', cs@[i as int]]);
        } else {
            key.push(cs[i]);
            assert(key@ =~= done + seq![cs@[i as int]]);
        }
        assert(key@ + key_part(cs@.skip(i + 1)) =~= done + key_part(rest));
        i = i + 1;
    }
    assert(cs@.skip(i as int) =~= Seq::<char>::empty());
    assert(key@ + key_part(cs@.skip(i as int)) =~= key@);
}

/// Append a part of a cache key that may be absent.
fn append_opt_part(key: &mut String, part: Option<&str>)
    ensures
        final(key)@ == old(key)@ + key_part(or_empty(opt_str_view(part))),
{
    match part {
        Some(p) => append_part(key, p),
        None => {
            proof {
                reveal_strlit("");
                assert(key@ + key_part(""@) =~= key@);
            }
        },
    }
}

/// Key of the app-path cache: `(workspace, scheme, udid, configuration,
/// derivedData)`, with bars between the parts.
pub fn settings_cache_key(ws: &str, cfg: &LaunchConfig, udid: &str) -> (r: String)
    ensures
        r@ == settings_key(ws@, cfg@, udid@),
{
    let mut r = String::new();
    append_part(&mut r, ws);
    assert(r@ =~= key_part(ws@));
    r.append("|");
    append_part(&mut r, cfg.scheme.as_str());
    r.append("|");
    append_part(&mut r, udid);
    r.append("|");
    append_opt_part(&mut r, as_opt_str(&cfg.configuration));
    r.append("|");
    append_opt_part(&mut r, as_opt_str(&cfg.derived_data));
    r
}

/// Key of the build-root cache: `(workspace, scheme, derivedData)`, with bars
/// between the parts.
pub fn build_root_cache_key(ws: &str, scheme: &str, derived_data: Option<&str>) -> (r: String)
    ensures
        r@ == root_key(ws@, scheme@, opt_str_view(derived_data)),
{
    let mut r = String::new();
    append_part(&mut r, ws);
    assert(r@ =~= key_part(ws@));
    r.append("|");
    append_part(&mut r, scheme);
    r.append("|");
    append_opt_part(&mut r, derived_data);
    r
}

/// A part in front of a bar can be read back.
proof fn lemma_part_split(a: Seq<char>, x: Seq<char>, b: Seq<char>, y: Seq<char>)
    requires
        key_part(a) + seq!['|'] + x == key_part(b) + seq!['|'] + y,
    ensures
        a == b,
        x == y,
    decreases a.len(),
{
    let bar = seq!['|'];
    let l = key_part(a) + bar + x;
    let r = key_part(b) + bar + y;
    if a.len() == 0 {
        assert(l[0] == '|');
        if b.len() > 0 {
            assert(r[0] == key_part(b)[0]);
        }
        assert(a =~= b);
        assert(x =~= l.skip(1));
        assert(y =~= r.skip(1));
    } else if b.len() == 0 {
        assert(r[0] == '|');
        assert(l[0] == key_part(a)[0]);
    } else {
        assert(l[0] == key_part(a)[0] && r[0] == key_part(b)[0]);
        let n: int = if is_escaped(a[0]) {
            2
        } else {
            1
        };
        assert(is_escaped(a[0]) == is_escaped(b[0]));
        if is_escaped(a[0]) {
            assert(l[1] == key_part(a)[1] && r[1] == key_part(b)[1]);
        }
        let a2 = a.drop_first();
        let b2 = b.drop_first();
        assert(l.skip(n) =~= key_part(a2) + bar + x);
        assert(r.skip(n) =~= key_part(b2) + bar + y);
        lemma_part_split(a2, x, b2, y);
        assert(a =~= seq![a[0]] + a2);
        assert(b =~= seq![b[0]] + b2);
    }
}

/// A part at the end can be read back.
proof fn lemma_part_read_back(a: Seq<char>, b: Seq<char>)
    requires
        key_part(a) == key_part(b),
    ensures
        a == b,
{
    lemma_part_split(a, Seq::empty(), b, Seq::empty());
}

/// Five texts between bars, read from the front.
proof fn lemma_bars_nest(
    a: Seq<char>,
    b: Seq<char>,
    c: Seq<char>,
    d: Seq<char>,
    e: Seq<char>,
    bar: Seq<char>,
)
    ensures
        a + bar + b + bar + c + bar + d + bar + e == a + bar + (b + bar + (c + bar + (d + bar + e))),
{
    assert(a + bar + b + bar + c + bar + d + bar + e =~= a + bar + b + bar + c + bar + (d + bar
        + e));
    let x = d + bar + e;
    assert(a + bar + b + bar + c + bar + x =~= a + bar + b + bar + (c + bar + x));
    let y = c + bar + x;
    assert(a + bar + b + bar + y =~= a + bar + (b + bar + y));
}

/// Configurations that may resolve to different products never share an entry of
/// the app-path cache.
pub proof fn lemma_settings_key_distinct(
    ws1: Seq<char>,
    c1: ConfigView,
    u1: Seq<char>,
    ws2: Seq<char>,
    c2: ConfigView,
    u2: Seq<char>,
)
    requires
        settings_key(ws1, c1, u1) == settings_key(ws2, c2, u2),
    ensures
        ws1 == ws2,
        c1.scheme == c2.scheme,
        u1 == u2,
        or_empty(c1.configuration) == or_empty(c2.configuration),
        or_empty(c1.derived_data) == or_empty(c2.derived_data),
{
    reveal_strlit("|");
    let bar = seq!['|'];
    assert("|"@ =~= bar);
    let (f1, d1) = (or_empty(c1.configuration), or_empty(c1.derived_data));
    let (f2, d2) = (or_empty(c2.configuration), or_empty(c2.derived_data));
    let t1 = key_part(f1) + bar + key_part(d1);
    let t2 = key_part(f2) + bar + key_part(d2);
    let s1 = key_part(u1) + bar + t1;
    let s2 = key_part(u2) + bar + t2;
    let r1 = key_part(c1.scheme) + bar + s1;
    let r2 = key_part(c2.scheme) + bar + s2;
    lemma_bars_nest(
        key_part(ws1),
        key_part(c1.scheme),
        key_part(u1),
        key_part(f1),
        key_part(d1),
        bar,
    );
    lemma_bars_nest(
        key_part(ws2),
        key_part(c2.scheme),
        key_part(u2),
        key_part(f2),
        key_part(d2),
        bar,
    );
    lemma_part_split(ws1, r1, ws2, r2);
    lemma_part_split(c1.scheme, s1, c2.scheme, s2);
    lemma_part_split(u1, t1, u2, t2);
    lemma_part_split(f1, key_part(d1), f2, key_part(d2));
    lemma_part_read_back(d1, d2);
}

/// Workspaces, schemes and DerivedData directories that differ never share an
/// entry of the build-root cache.
pub proof fn lemma_root_key_distinct(
    ws1: Seq<char>,
    scheme1: Seq<char>,
    dd1: Option<Seq<char>>,
    ws2: Seq<char>,
    scheme2: Seq<char>,
    dd2: Option<Seq<char>>,
)
    requires
        root_key(ws1, scheme1, dd1) == root_key(ws2, scheme2, dd2),
    ensures
        ws1 == ws2,
        scheme1 == scheme2,
        or_empty(dd1) == or_empty(dd2),
{
    reveal_strlit("|");
    let bar = seq!['|'];
    assert("|"@ =~= bar);
    let (d1, d2) = (or_empty(dd1), or_empty(dd2));
    let r1 = key_part(scheme1) + bar + key_part(d1);
    let r2 = key_part(scheme2) + bar + key_part(d2);
    assert(root_key(ws1, scheme1, dd1) =~= key_part(ws1) + bar + r1);
    assert(root_key(ws2, scheme2, dd2) =~= key_part(ws2) + bar + r2);
    lemma_part_split(ws1, r1, ws2, r2);
    lemma_part_split(scheme1, key_part(d1), scheme2, key_part(d2));
    lemma_part_read_back(d1, d2);
}

// ---------------------------------------------------------------------------
// settings output
// ---------------------------------------------------------------------------

/// The app that one settings entry builds.
pub open spec fn app_in(entry: JsonView) -> Option<Seq<char>> {
    match entry.get("buildSettings"@) {
        Some(s) => match (s.str_at("WRAPPER_NAME"@), s.str_at("TARGET_BUILD_DIR"@)) {
            (Some(w), Some(d)) => if has_suffix(w, ".app"@) {
                Some(joined(d, w))
            } else {
                None
            },
            _ => None,
        },
        None => None,
    }
}

/// The first app among the settings entries from `from` on.
pub open spec fn first_app(entries: Seq<JsonView>, from: int) -> Option<Seq<char>>
    decreases entries.len() - from,
{
    if from < 0 || from >= entries.len() {
        None
    } else {
        match app_in(entries[from]) {
            Some(a) => Some(a),
            None => first_app(entries, from + 1),
        }
    }
}

/// What the settings say of the app.
pub open spec fn app_of(v: JsonView) -> Result<Seq<char>, Seq<char>> {
    match v.as_array() {
        Some(a) => match first_app(a, 0) {
            Some(p) => Ok(p),
            None => Err("no .app product found in -showBuildSettings output"@),
        },
        None => Err("-showBuildSettings JSON is not an array"@),
    }
}

/// The ancestor `k` levels up, the path itself being level 0.
pub open spec fn ancestor(p: Seq<char>, k: nat) -> Option<Seq<char>>
    decreases k,
{
    if k == 0 {
        Some(p)
    } else {
        match parent_of(p) {
            Some(q) => ancestor(q, (k - 1) as nat),
            None => None,
        }
    }
}

/// The build root that one settings entry names: two levels above its
/// `BUILD_DIR`.
pub open spec fn root_in(entry: JsonView) -> Option<Seq<char>> {
    match entry.get("buildSettings"@) {
        Some(s) => match s.str_at("BUILD_DIR"@) {
            Some(d) => ancestor(d, 2),
            None => None,
        },
        None => None,
    }
}

/// The first build root among the settings entries from `from` on.
pub open spec fn first_root(entries: Seq<JsonView>, from: int) -> Option<Seq<char>>
    decreases entries.len() - from,
{
    if from < 0 || from >= entries.len() {
        None
    } else {
        match root_in(entries[from]) {
            Some(a) => Some(a),
            None => first_root(entries, from + 1),
        }
    }
}

/// What the settings say of the build root.
pub open spec fn root_of(v: JsonView) -> Result<Seq<char>, Seq<char>> {
    match v.as_array() {
        Some(a) => match first_root(a, 0) {
            Some(p) => Ok(p),
            None => Err("no BUILD_DIR in -showBuildSettings output"@),
        },
        None => Err("-showBuildSettings JSON is not an array"@),
    }
}

/// The app that one settings entry builds.
fn entry_app(entry: &Json) -> (r: Option<String>)
    ensures
        opt_view(r) == app_in(entry@),
{
    let settings = match entry.get("buildSettings") {
        Some(s) => s,
        None => return None,
    };
    match (settings.str_at("WRAPPER_NAME"), settings.str_at("TARGET_BUILD_DIR")) {
        (Some(w), Some(d)) => if ends_with(chars_of(w).as_slice(), ".app") {
            Some(join(d, w))
        } else {
            None
        },
        _ => None,
    }
}

/// The ancestor `k` levels up.
pub fn nth_ancestor(path: &str, k: u32) -> (r: Option<String>)
    ensures
        opt_view(r) == ancestor(path@, k as nat),
    decreases k,
{
    if k == 0 {
        Some(owned(path))
    } else {
        match parent(path) {
            Some(q) => nth_ancestor(q.as_str(), k - 1),
            None => None,
        }
    }
}

/// The build root that one settings entry names.
fn entry_root(entry: &Json) -> (r: Option<String>)
    ensures
        opt_view(r) == root_in(entry@),
{
    match entry.get("buildSettings") {
        Some(s) => match s.str_at("BUILD_DIR") {
            Some(d) => nth_ancestor(d, 2),
            None => None,
        },
        None => None,
    }
}

/// The `.app` product in parsed `-showBuildSettings -json` output: the first
/// entry whose `WRAPPER_NAME` ends in `.app`.
pub fn app_in_settings(v: &Json) -> (r: Result<String, String>)
    ensures
        text_result(r) == app_of(v@),
{
    let entries = match v.as_array() {
        Some(a) => a,
        None => return Err(owned("-showBuildSettings JSON is not an array")),
    };
    let ghost ev = views_of(entries@);
    let mut i: usize = 0;
    while i < entries.len()
        invariant
            i <= entries.len(),
            ev == views_of(entries@),
            v@.as_array() == Some(ev),
            first_app(ev, 0) == first_app(ev, i as int),
        decreases entries.len() - i,
    {
        assert(ev[i as int] == entries@[i as int]@);
        if let Some(a) = entry_app(&entries[i]) {
            return Ok(a);
        }
        i = i + 1;
    }
    Err(owned("no .app product found in -showBuildSettings output"))
}

/// The build root in parsed `-showBuildSettings -json` output.
pub fn root_in_settings(v: &Json) -> (r: Result<String, String>)
    ensures
        text_result(r) == root_of(v@),
{
    let entries = match v.as_array() {
        Some(a) => a,
        None => return Err(owned("-showBuildSettings JSON is not an array")),
    };
    let ghost ev = views_of(entries@);
    let mut i: usize = 0;
    while i < entries.len()
        invariant
            i <= entries.len(),
            ev == views_of(entries@),
            v@.as_array() == Some(ev),
            first_root(ev, 0) == first_root(ev, i as int),
        decreases entries.len() - i,
    {
        assert(ev[i as int] == entries@[i as int]@);
        if let Some(a) = entry_root(&entries[i]) {
            return Ok(a);
        }
        i = i + 1;
    }
    Err(owned("no BUILD_DIR in -showBuildSettings output"))
}

/// The `.app` product in the bytes of `-showBuildSettings -json`.
pub open spec fn parsed_app_path(bytes: Seq<u8>) -> Result<Seq<char>, Seq<char>> {
    match serde_parse(bytes) {
        Ok(v) => app_of(v),
        Err(e) => Err(in_context("parsing -showBuildSettings JSON"@, e)),
    }
}

/// The build root in the bytes of `-showBuildSettings -json`.
pub open spec fn parsed_build_root(bytes: Seq<u8>) -> Result<Seq<char>, Seq<char>> {
    match serde_parse(bytes) {
        Ok(v) => root_of(v),
        Err(e) => Err(in_context("parsing -showBuildSettings JSON"@, e)),
    }
}

/// The `.app` product in the bytes of `-showBuildSettings -json`.
pub fn parse_app_path(json_bytes: &[u8]) -> (r: Result<String, String>)
    ensures
        text_result(r) == parsed_app_path(json_bytes@),
{
    match parse(json_bytes) {
        Ok(v) => app_in_settings(&v),
        Err(e) => Err(with_context("parsing -showBuildSettings JSON", e.as_str())),
    }
}

/// The build root in the bytes of `-showBuildSettings -json`.
pub fn parse_build_root(json_bytes: &[u8]) -> (r: Result<String, String>)
    ensures
        text_result(r) == parsed_build_root(json_bytes@),
{
    match parse(json_bytes) {
        Ok(v) => root_in_settings(&v),
        Err(e) => Err(with_context("parsing -showBuildSettings JSON", e.as_str())),
    }
}

/// The build root a completed build wrote into: an explicit DerivedData
/// directory (made absolute by the caller), else four levels above the `.app`
/// product.
pub fn build_root_from_app(derived_data: Option<&str>, app: &str) -> (r: Option<String>)
    ensures
        opt_view(r) == match derived_data {
            Some(d) => Some(d@),
            None => ancestor(app@, 4),
        },
{
    match derived_data {
        Some(d) => Some(owned(d)),
        None => nth_ancestor(app, 4),
    }
}

/// The build root found from the settings is the one found from the product:
/// the `.app` lies two levels below `BUILD_DIR`.
pub proof fn lemma_build_roots_agree(build_dir: Seq<char>, variant: Seq<char>, wrapper: Seq<char>)
    requires
        build_dir.len() > 0,
        plain_name(variant),
        plain_name(wrapper),
    ensures
        ancestor(joined(joined(build_dir, variant), wrapper), 4) == ancestor(build_dir, 2),
{
    let dir = joined(build_dir, variant);
    let app = joined(dir, wrapper);
    lemma_parent_of_joined(build_dir, variant);
    lemma_parent_of_joined(dir, wrapper);
    lemma_parent_of_trimmed(build_dir);
    lemma_parent_of_trimmed(dir);
    reveal_with_fuel(ancestor, 5);
}

// ---------------------------------------------------------------------------
// failures
// ---------------------------------------------------------------------------

/// xcodebuild exited non-zero: the exit code, the last `error:` lines and the
/// path of the full log, so that the message is actionable on its own.
#[derive(Debug)]
pub struct BuildFailed {
    pub code: i32,
    /// Last few `error:` lines seen in the output.
    pub errors: Vec<String>,
    /// Path of the full build log, when one was written.
    pub log_path: Option<String>,
}

impl Default for BuildFailed {
    fn default() -> (r: BuildFailed)
        ensures
            r.code == 0,
            r.errors@.len() == 0,
            r.log_path is None,
    {
        BuildFailed { code: 0, errors: Vec::new(), log_path: None }
    }
}

/// The error lines, each on an indented line of its own.
pub open spec fn indented(lines: Seq<Seq<char>>) -> Seq<char>
    decreases lines.len(),
{
    if lines.len() == 0 {
        Seq::empty()
    } else {
        indented(lines.drop_last()) + "\n  "@ + lines.last()
    }
}

/// The message of a failed build: its exit code, the last error lines, and where the
/// whole log is.
pub open spec fn failed_text(b: BuildFailed) -> Seq<char> {
    "xcodebuild failed with exit code "@ + decimal_int(b.code as int) + indented(texts(b.errors@))
        + match b.log_path {
        Some(p) => "\n  full build log: "@ + p@,
        None => Seq::empty(),
    }
}

impl BuildFailed {
    /// The message shown to the user.
    pub fn to_string(&self) -> (r: String)
        ensures
            r@ == failed_text(*self),
    {
        let mut r = owned("xcodebuild failed with exit code ");
        r.append(decimal_i64(self.code as i64).as_str());
        let ghost head = r@;
        let ghost lv = texts(self.errors@);
        let mut i: usize = 0;
        assert(r@ =~= head + indented(lv.take(0)));
        while i < self.errors.len()
            invariant
                i <= self.errors.len(),
                lv == texts(self.errors@),
                r@ == head + indented(lv.take(i as int)),
            decreases self.errors.len() - i,
        {
            assert(lv.take(i + 1).drop_last() =~= lv.take(i as int));
            r.append("\n  ");
            r.append(self.errors[i].as_str());
            assert(r@ =~= head + indented(lv.take(i + 1)));
            i = i + 1;
        }
        assert(lv.take(lv.len() as int) =~= lv);
        let ghost body = r@;
        match &self.log_path {
            Some(p) => {
                r.append("\n  full build log: ");
                r.append(p.as_str());
                assert(r@ =~= body + ("\n  full build log: "@ + p@));
            },
            None => {
                assert(r@ =~= body + Seq::empty());
            },
        }
        r
    }
}

/// How many trailing `error:` lines are kept.
pub const MAX_ERROR_LINES: usize = 5;

// ---------------------------------------------------------------------------
// filter
// ---------------------------------------------------------------------------

/// Whether a line is an error, a warning or a note.
pub open spec fn diagnostic(line: Seq<char>) -> bool {
    has_infix(line, "error:"@) || has_infix(line, "warning:"@) || has_infix(line, "note:"@)
}

/// Whether a line starts a build phase or gives the result.
pub open spec fn phase_header(line: Seq<char>) -> bool {
    ||| has_prefix(line, "=== "@)
    ||| has_prefix(line, "** "@)
    ||| has_prefix(line, "Build description"@)
    ||| has_prefix(line, "CreateBuildDescription"@)
    ||| has_prefix(line, "SwiftDriver"@)
    ||| has_prefix(line, "CompileSwiftSources "@)
    ||| has_prefix(line, "CompileC "@)
    ||| has_prefix(line, "Ld "@)
    ||| has_prefix(line, "Libtool "@)
    ||| has_prefix(line, "CodeSign "@)
    ||| has_prefix(line, "PhaseScriptExecution "@)
    ||| has_prefix(line, "ProcessInfoPlistFile "@)
}

/// Whether a line is an error, a warning or a note.
pub fn is_diagnostic(line: &str) -> (r: bool)
    ensures
        r == diagnostic(line@),
{
    let cs = chars_of(line);
    contains(cs.as_slice(), "error:") || contains(cs.as_slice(), "warning:") || contains(
        cs.as_slice(),
        "note:",
    )
}

/// Whether a line starts a build phase or gives the result.
pub fn is_phase_header(line: &str) -> (r: bool)
    ensures
        r == phase_header(line@),
{
    let cs = chars_of(line);
    let s = cs.as_slice();
    starts_with(s, "=== ") || starts_with(s, "** ") || starts_with(s, "Build description")
        || starts_with(s, "CreateBuildDescription") || starts_with(s, "SwiftDriver")
        || starts_with(s, "CompileSwiftSources ") || starts_with(s, "CompileC ") || starts_with(
        s,
        "Ld ",
    ) || starts_with(s, "Libtool ") || starts_with(s, "CodeSign ") || starts_with(
        s,
        "PhaseScriptExecution ",
    ) || starts_with(s, "ProcessInfoPlistFile ")
}

/// Filtered mode passes phase headers, diagnostics (and two context lines) and
/// the final result. Full mode passes everything.
#[derive(Clone, Copy, Debug)]
pub struct LineFilter {
    pub mode: BuildOutput,
    /// Context lines still to pass.
    pub context_left: u8,
}

impl LineFilter {
    /// The filter behind a line, and whether the line passed.
    pub open spec fn step(self, line: Seq<char>) -> (LineFilter, bool) {
        if self.mode == BuildOutput::Full {
            (self, true)
        } else if diagnostic(line) {
            (LineFilter { context_left: 2, ..self }, true)
        } else if self.context_left > 0 {
            (LineFilter { context_left: (self.context_left - 1) as u8, ..self }, true)
        } else {
            (self, phase_header(line))
        }
    }

    /// A filter in front of the first line.
    pub fn new(mode: BuildOutput) -> (r: LineFilter)
        ensures
            r == (LineFilter { mode, context_left: 0 }),
    {
        LineFilter { mode, context_left: 0 }
    }

    /// Whether the line passes.
    pub fn passes(&mut self, line: &str) -> (r: bool)
        ensures
            (*final(self), r) == old(self).step(line@),
    {
        if self.mode == BuildOutput::Full {
            return true;
        }
        if is_diagnostic(line) {
            self.context_left = 2;
            return true;
        }
        if self.context_left > 0 {
            self.context_left = self.context_left - 1;
            return true;
        }
        is_phase_header(line)
    }
}

/// A diagnostic passes with the two lines behind it; what comes after them is
/// judged on its own again.
pub proof fn lemma_diagnostic_context(
    f: LineFilter,
    d: Seq<char>,
    x: Seq<char>,
    y: Seq<char>,
    z: Seq<char>,
)
    requires
        f.mode == BuildOutput::Filtered,
        diagnostic(d),
        !diagnostic(x),
        !diagnostic(y),
        !diagnostic(z),
    ensures
        ({
            let (f1, p1) = f.step(d);
            let (f2, p2) = f1.step(x);
            let (f3, p3) = f2.step(y);
            let (f4, p4) = f3.step(z);
            p1 && p2 && p3 && p4 == phase_header(z)
        }),
{
}

// ---------------------------------------------------------------------------
// throttle
// ---------------------------------------------------------------------------

/// How long a buffered line may wait, in milliseconds.
pub const BATCH_INTERVAL_MS: u64 = 50;

/// A batch of this many bytes is flushed at once.
pub const BATCH_MAX_BYTES: usize = 8_192;

/// Batches filtered lines into one newline-joined emission.
#[derive(Debug)]
pub struct Batcher {
    buf: String,
    pending: bool,
    deadline: Option<u64>,
}

/// The mathematical value of a [`Batcher`].
pub struct BatchView {
    /// The buffered lines, joined by newlines.
    pub text: Seq<char>,
    /// Whether a line is buffered, an empty one included.
    pub pending: bool,
    pub deadline: Option<u64>,
}

impl BatchView {
    /// The batch without a line.
    pub open spec fn nothing() -> BatchView {
        BatchView { text: Seq::empty(), pending: false, deadline: None }
    }
}

impl View for Batcher {
    type V = BatchView;

    closed spec fn view(&self) -> BatchView {
        BatchView { text: self.buf@, pending: self.pending, deadline: self.deadline }
    }
}

/// The batch with one more line.
pub open spec fn batched(b: BatchView, line: Seq<char>, now_ms: u64) -> BatchView {
    if !b.pending {
        BatchView {
            text: line,
            pending: true,
            deadline: Some((now_ms + BATCH_INTERVAL_MS) as u64),
        }
    } else {
        BatchView { text: b.text + seq!['\n'] + line, ..b }
    }
}

impl Batcher {
    /// Without a line there is no text.
    pub closed spec fn wf(&self) -> bool {
        !self.pending ==> self.buf@.len() == 0
    }

    /// An empty batch.
    pub fn new() -> (r: Batcher)
        ensures
            r.wf(),
            r@ == BatchView::nothing(),
    {
        Batcher { buf: String::new(), pending: false, deadline: None }
    }

    /// Buffer a line, at a moment in milliseconds.
    pub fn push(&mut self, line: &str, now_ms: u64)
        requires
            old(self).wf(),
            now_ms <= u64::MAX - BATCH_INTERVAL_MS,
        ensures
            final(self).wf(),
            final(self)@ == batched(old(self)@, line@, now_ms),
    {
        let ghost before = self.buf@;
        let ghost was = self.pending;
        if self.pending {
            self.buf.push('\n');
        } else {
            self.pending = true;
            self.deadline = Some(now_ms + BATCH_INTERVAL_MS);
        }
        self.buf.append(line);
        proof {
            if was {
                assert(self.buf@ =~= before + seq!['\n'] + line@);
            } else {
                assert(self.buf@ =~= line@);
            }
        }
    }

    /// Whether the batch has reached its size.
    pub fn full(&self) -> (r: bool)
        ensures
            r == (encode_utf8(self@.text).len() >= BATCH_MAX_BYTES),
    {
        self.buf.as_str().as_bytes().len() >= BATCH_MAX_BYTES
    }

    /// When the oldest buffered line has waited long enough.
    pub fn deadline(&self) -> (r: Option<u64>)
        ensures
            r == self@.deadline,
    {
        self.deadline
    }

    /// Take the buffered text, if a line is buffered.
    pub fn flush(&mut self) -> (r: Option<String>)
        ensures
            final(self).wf(),
            final(self)@ == BatchView::nothing(),
            opt_view(r) == if old(self)@.pending {
                Some(old(self)@.text)
            } else {
                None
            },
    {
        let out = if self.pending {
            Some(owned(self.buf.as_str()))
        } else {
            None
        };
        self.buf = String::new();
        self.pending = false;
        self.deadline = None;
        out
    }
}

// ---------------------------------------------------------------------------
// a build's output
// ---------------------------------------------------------------------------

/// What is kept of a running build's output.
#[derive(Debug)]
pub struct BuildStream {
    filter: LineFilter,
    batch: Batcher,
    errors: Vec<String>,
}

/// The mathematical value of a [`BuildStream`].
pub struct StreamView {
    pub filter: LineFilter,
    pub batch: BatchView,
    pub errors: Seq<Seq<char>>,
}

impl View for BuildStream {
    type V = StreamView;

    closed spec fn view(&self) -> StreamView {
        StreamView { filter: self.filter, batch: self.batch@, errors: texts(self.errors@) }
    }
}

/// The last error lines behind one more line.
pub open spec fn kept_errors(errors: Seq<Seq<char>>, line: Seq<char>) -> Seq<Seq<char>> {
    if !has_infix(line, "error:"@) {
        errors
    } else if errors.len() == MAX_ERROR_LINES {
        errors.drop_first().push(trimmed(line))
    } else {
        errors.push(trimmed(line))
    }
}

/// All error lines among the first `n` lines.
pub open spec fn all_errors(lines: Seq<Seq<char>>, n: int) -> Seq<Seq<char>>
    decreases n,
{
    if n <= 0 {
        Seq::empty()
    } else if has_infix(lines[n - 1], "error:"@) {
        all_errors(lines, n - 1).push(trimmed(lines[n - 1]))
    } else {
        all_errors(lines, n - 1)
    }
}

/// The error lines kept after the first `n` lines.
pub open spec fn errors_after(lines: Seq<Seq<char>>, n: int) -> Seq<Seq<char>>
    decreases n,
{
    if n <= 0 {
        Seq::empty()
    } else {
        kept_errors(errors_after(lines, n - 1), lines[n - 1])
    }
}

/// The last elements of a sequence, [`MAX_ERROR_LINES`] at most.
pub open spec fn last_few(s: Seq<Seq<char>>) -> Seq<Seq<char>> {
    if s.len() <= MAX_ERROR_LINES {
        s
    } else {
        s.skip(s.len() - MAX_ERROR_LINES)
    }
}

/// What is kept are the last few error lines of the whole output.
pub proof fn lemma_last_errors_kept(lines: Seq<Seq<char>>, n: int)
    requires
        0 <= n <= lines.len(),
    ensures
        errors_after(lines, n) == last_few(all_errors(lines, n)),
    decreases n,
{
    if n > 0 {
        lemma_last_errors_kept(lines, n - 1);
        let before = all_errors(lines, n - 1);
        if has_infix(lines[n - 1], "error:"@) {
            let e = trimmed(lines[n - 1]);
            if before.len() >= MAX_ERROR_LINES {
                assert(last_few(before).drop_first().push(e) =~= last_few(before.push(e)));
            } else {
                assert(last_few(before).push(e) =~= last_few(before.push(e)));
            }
        }
    } else {
        assert(errors_after(lines, n) =~= last_few(all_errors(lines, n)));
    }
}

/// A build's output behind one more line, and what is emitted for it.
pub open spec fn stream_step(s: StreamView, line: Seq<char>, now_ms: u64) -> (
    StreamView,
    Option<Seq<char>>,
) {
    let errors = kept_errors(s.errors, line);
    let (filter, passed) = s.filter.step(line);
    let batch = batched(s.batch, line, now_ms);
    if !passed {
        (StreamView { filter, errors, ..s }, None)
    } else if encode_utf8(batch.text).len() >= BATCH_MAX_BYTES {
        (
            StreamView {
                filter,
                errors,
                batch: BatchView::nothing(),
            },
            Some(batch.text),
        )
    } else {
        (StreamView { filter, errors, batch }, None)
    }
}

/// A build's output behind a flush, and all that was emitted.
pub open spec fn flushed(s: StreamView, out: Seq<Seq<char>>) -> (StreamView, Seq<Seq<char>>) {
    (
        StreamView { batch: BatchView::nothing(), ..s },
        if s.batch.pending {
            out.push(s.batch.text)
        } else {
            out
        },
    )
}

/// A build's output behind its first `n` lines, and all that was emitted, where
/// each line comes at its own time and `cuts` tells in front of which lines the
/// batch was flushed.
pub open spec fn played(
    start: StreamView,
    lines: Seq<Seq<char>>,
    times: Seq<u64>,
    cuts: Seq<bool>,
    n: int,
) -> (StreamView, Seq<Seq<char>>)
    decreases n,
{
    if n <= 0 {
        (start, Seq::empty())
    } else {
        let (s, out) = played(start, lines, times, cuts, n - 1);
        let (s, out) = if cuts[n - 1] {
            flushed(s, out)
        } else {
            (s, out)
        };
        let (s, text) = stream_step(s, lines[n - 1], times[n - 1]);
        (
            s,
            match text {
                Some(t) => out.push(t),
                None => out,
            },
        )
    }
}

/// A filter behind the first `n` lines, and those that passed it.
pub open spec fn passing(start: LineFilter, lines: Seq<Seq<char>>, n: int) -> (
    LineFilter,
    Seq<Seq<char>>,
)
    decreases n,
{
    if n <= 0 {
        (start, Seq::empty())
    } else {
        let (f, out) = passing(start, lines, n - 1);
        let (f, passed) = f.step(lines[n - 1]);
        (
            f,
            if passed {
                out.push(lines[n - 1])
            } else {
                out
            },
        )
    }
}

/// A text behind others, joined.
proof fn lemma_joined_push(parts: Seq<Seq<char>>, part: Seq<char>, sep: Seq<char>)
    ensures
        joined_with(parts.push(part), sep) == if parts.len() == 0 {
            part
        } else {
            joined_with(parts, sep) + sep + part
        },
{
    assert(parts.push(part).drop_last() =~= parts);
}

/// What [`lemma_output_kept`] says, line by line.
proof fn lemma_output_kept_upto(
    start: StreamView,
    lines: Seq<Seq<char>>,
    times: Seq<u64>,
    cuts: Seq<bool>,
    n: int,
)
    requires
        start.batch == BatchView::nothing(),
        0 <= n <= lines.len(),
    ensures
        ({
            let (s, out) = played(start, lines, times, cuts, n);
            let (f, kept) = passing(start.filter, lines, n);
            let all = flushed(s, out).1;
            &&& s.filter == f
            &&& all.len() == 0 <==> kept.len() == 0
            &&& joined_with(all, seq!['\n']) == joined_with(kept, seq!['\n'])
        }),
    decreases n,
{
    if n > 0 {
        lemma_output_kept_upto(start, lines, times, cuts, n - 1);
        let nl = seq!['\n'];
        let line = lines[n - 1];
        let (s0, out0) = played(start, lines, times, cuts, n - 1);
        let (f, kept) = passing(start.filter, lines, n - 1);
        let before = flushed(s0, out0).1;
        let (s, out) = if cuts[n - 1] {
            flushed(s0, out0)
        } else {
            (s0, out0)
        };
        assert(flushed(s, out).1 == before);
        let batch = batched(s.batch, line, times[n - 1]);
        if f.step(line).1 {
            lemma_joined_push(kept, line, nl);
            lemma_joined_push(out, s.batch.text, nl);
            lemma_joined_push(out, batch.text, nl);
            if s.batch.pending {
                assert(joined_with(out.push(batch.text), nl) =~= joined_with(before, nl) + nl
                    + line);
            }
        }
    }
}

/// However a build's output is batched, the emissions joined by newlines are the
/// lines that passed the filter joined by newlines: none is lost, doubled or
/// moved.
pub proof fn lemma_output_kept(
    start: StreamView,
    lines: Seq<Seq<char>>,
    times: Seq<u64>,
    cuts: Seq<bool>,
)
    requires
        start.batch == BatchView::nothing(),
    ensures
        ({
            let (s, out) = played(start, lines, times, cuts, lines.len() as int);
            joined_with(flushed(s, out).1, seq!['\n']) == joined_with(
                passing(start.filter, lines, lines.len() as int).1,
                seq!['\n'],
            )
        }),
{
    lemma_output_kept_upto(start, lines, times, cuts, lines.len() as int);
}

impl BuildStream {
    /// The batch is in order.
    pub closed spec fn wf(&self) -> bool {
        self.batch.wf()
    }

    /// The start of a build.
    pub fn new(mode: BuildOutput) -> (r: BuildStream)
        ensures
            r.wf(),
            r@ == (StreamView {
                filter: LineFilter { mode, context_left: 0 },
                batch: BatchView::nothing(),
                errors: Seq::empty(),
            }),
    {
        let r = BuildStream {
            filter: LineFilter::new(mode),
            batch: Batcher::new(),
            errors: Vec::new(),
        };
        assert(texts(r.errors@) =~= Seq::<Seq<char>>::empty());
        r
    }

    /// One line of output, at a moment in milliseconds: what to emit now.
    pub fn on_line(&mut self, line: &str, now_ms: u64) -> (r: Option<String>)
        requires
            old(self).wf(),
            now_ms <= u64::MAX - BATCH_INTERVAL_MS,
        ensures
            final(self).wf(),
            (final(self)@, opt_view(r)) == stream_step(old(self)@, line@, now_ms),
    {
        let ghost had = texts(self.errors@);
        if contains(chars_of(line).as_slice(), "error:") {
            if self.errors.len() == MAX_ERROR_LINES {
                let gone = self.errors.remove(0);
                assert(texts(self.errors@) =~= had.drop_first());
            }
            let ghost kept = texts(self.errors@);
            let t = trim(line);
            let ghost tv = t@;
            self.errors.push(t);
            assert(texts(self.errors@) =~= kept.push(tv));
        }
        assert(texts(self.errors@) =~= kept_errors(had, line@));
        if self.filter.passes(line) {
            self.batch.push(line, now_ms);
            if self.batch.full() {
                proof {
                    reveal_with_fuel(encode_utf8, 1);
                }
                return self.batch.flush();
            }
        }
        None
    }

    /// When the oldest buffered line has waited long enough.
    pub fn deadline(&self) -> (r: Option<u64>)
        ensures
            r == self@.batch.deadline,
    {
        self.batch.deadline()
    }

    /// What to emit when the deadline has passed or the output has ended.
    pub fn flush(&mut self) -> (r: Option<String>)
        ensures
            final(self).wf(),
            final(self)@ == (StreamView {
                batch: BatchView::nothing(),
                ..old(self)@
            }),
            opt_view(r) == if old(self)@.batch.pending {
                Some(old(self)@.batch.text)
            } else {
                None
            },
    {
        self.batch.flush()
    }

    /// The outcome: success, or the failure with the exit code (1 where the
    /// process was killed) and the last error lines.
    pub fn finish(self, success: bool, code: Option<i32>, log_path: &str) -> (r: Result<
        (),
        BuildFailed,
    >)
        ensures
            match r {
                Ok(_) => success,
                Err(f) => {
                    &&& !success
                    &&& f.code == match code {
                        Some(c) => c,
                        None => 1,
                    }
                    &&& texts(f.errors@) == self@.errors
                    &&& opt_view(f.log_path) == Some(log_path@)
                },
            },
    {
        if success {
            Ok(())
        } else {
            let code: i32 = match code {
                Some(c) => c,
                None => 1,
            };
            Err(BuildFailed { code, errors: self.errors, log_path: Some(owned(log_path)) })
        }
    }
}

/// The bytes of an output line without its terminator: a newline, and a
/// carriage return in front of it.
pub open spec fn chomped(line: Seq<u8>) -> Seq<u8> {
    if line.len() > 0 && line.last() == 0x0a {
        let l = line.drop_last();
        if l.len() > 0 && l.last() == 0x0d {
            l.drop_last()
        } else {
            l
        }
    } else {
        line
    }
}

/// One line of output as text. Bytes that are no UTF-8 do not end the stream.
pub fn decode_line(line: &[u8]) -> (r: String)
    ensures
        r@ == lossy_text(chomped(line@)),
{
    let mut n: usize = line.len();
    if n > 0 && line[n - 1] == 0x0a {
        n = n - 1;
        if n > 0 && line[n - 1] == 0x0d {
            n = n - 1;
        }
    }
    let head = vstd::slice::slice_subrange(line, 0, n);
    assert(head@ =~= chomped(line@));
    utf8_lossy(head)
}

// ---------------------------------------------------------------------------
// cached settings
// ---------------------------------------------------------------------------

/// A path that was resolved for a workspace of some age.
#[derive(Debug)]
pub struct CacheEntry {
    /// Modification time of the workspace, in seconds.
    pub workspace_mtime: u64,
    pub path: String,
}

/// The mathematical value of a [`CacheEntry`].
pub struct CacheEntryView {
    pub workspace_mtime: u64,
    pub path: Seq<char>,
}

impl View for CacheEntry {
    type V = CacheEntryView;

    open spec fn view(&self) -> CacheEntryView {
        CacheEntryView { workspace_mtime: self.workspace_mtime, path: self.path@ }
    }
}

/// Resolved paths by key: the app paths or the build roots of workspaces.
#[derive(Debug)]
pub struct SettingsCache {
    pub entries: NameMap<CacheEntry>,
}

impl View for SettingsCache {
    type V = Map<Seq<char>, CacheEntryView>;

    open spec fn view(&self) -> Map<Seq<char>, CacheEntryView> {
        self.entries@.map_values(|e: CacheEntry| e@)
    }
}

/// The path that a cache holds for a key, of a workspace of this age.
pub open spec fn cached_path(
    cache: Map<Seq<char>, CacheEntryView>,
    key: Seq<char>,
    mtime: u64,
) -> Option<Seq<char>> {
    if cache.dom().contains(key) && cache[key].workspace_mtime == mtime {
        Some(cache[key].path)
    } else {
        None
    }
}

/// What was resolved for a workspace of some age is found again for that age and for
/// no other, and other keys are not touched.
pub proof fn lemma_cached_by_age(
    cache: Map<Seq<char>, CacheEntryView>,
    key: Seq<char>,
    mtime: u64,
    path: Seq<char>,
    other_key: Seq<char>,
    other_mtime: u64,
)
    ensures
        ({
            let after = cache.insert(key, CacheEntryView { workspace_mtime: mtime, path });
            &&& cached_path(after, key, mtime) == Some(path)
            &&& other_mtime != mtime ==> cached_path(after, key, other_mtime) is None
            &&& other_key != key ==> cached_path(after, other_key, other_mtime) == cached_path(
                cache,
                other_key,
                other_mtime,
            )
        }),
{
}

impl SettingsCache {
    /// The map is in order.
    pub open spec fn wf(&self) -> bool {
        self.entries.wf()
    }

    /// Nothing is cached.
    pub fn new() -> (r: SettingsCache)
        ensures
            r.wf(),
            r@ == Map::<Seq<char>, CacheEntryView>::empty(),
    {
        let r = SettingsCache { entries: NameMap::new() };
        assert(r@ =~= Map::<Seq<char>, CacheEntryView>::empty());
        r
    }

    /// The path that was resolved for a key while the workspace had this age.
    pub fn lookup(&self, key: &str, mtime: u64) -> (r: Option<&str>)
        requires
            self.wf(),
        ensures
            opt_str_view(r) == cached_path(self@, key@, mtime),
    {
        match self.entries.get(key) {
            Some(e) => if e.workspace_mtime == mtime {
                Some(e.path.as_str())
            } else {
                None
            },
            None => None,
        }
    }

    /// Keep the path that was resolved for a key.
    pub fn insert(&mut self, key: &str, mtime: u64, path: &str)
        requires
            old(self).wf(),
        ensures
            final(self).wf(),
            final(self)@ == old(self)@.insert(
                key@,
                CacheEntryView { workspace_mtime: mtime, path: path@ },
            ),
    {
        let ghost before = self@;
        let e = CacheEntry { workspace_mtime: mtime, path: owned(path) };
        let ghost ev = e@;
        self.entries.insert(key, e);
        assert(self@ =~= before.insert(key@, ev));
    }
}

/// What is said where the build settings cannot be shown.
pub open spec fn settings_error(stderr: Seq<char>) -> Seq<char> {
    "xcodebuild -showBuildSettings failed: "@ + trimmed(stderr)
        + "\nhint: check \"scheme\" / \"configuration\" in .zed/debug.json (or the --scheme flag)"@
}

/// What is said where the build settings cannot be shown.
fn settings_failed(stderr: &[u8]) -> (r: String)
    ensures
        r@ == settings_error(lossy_text(stderr@)),
{
    let mut r = owned("xcodebuild -showBuildSettings failed: ");
    r.append(trim(utf8_lossy(stderr).as_str()).as_str());
    r.append(
        "\nhint: check \"scheme\" / \"configuration\" in .zed/debug.json (or the --scheme flag)",
    );
    r
}

/// The app path that `-showBuildSettings` gives; the cache keeps it.
pub fn app_path(
    cache: &mut SettingsCache,
    key: &str,
    mtime: u64,
    success: bool,
    stdout: &[u8],
    stderr: &[u8],
) -> (r: Result<String, String>)
    requires
        old(cache).wf(),
    ensures
        final(cache).wf(),
        text_result(r) == if success {
            parsed_app_path(stdout@)
        } else {
            Err(settings_error(lossy_text(stderr@)))
        },
        final(cache)@ == match r {
            Ok(p) => old(cache)@.insert(key@, CacheEntryView { workspace_mtime: mtime, path: p@ }),
            Err(_) => old(cache)@,
        },
{
    if !success {
        return Err(settings_failed(stderr));
    }
    let r = parse_app_path(stdout);
    if let Ok(p) = &r {
        cache.insert(key, mtime, p.as_str());
    }
    r
}

/// The build root that `-showBuildSettings` gives; the cache keeps it.
pub fn resolve_build_root(
    cache: &mut SettingsCache,
    key: &str,
    mtime: u64,
    success: bool,
    stdout: &[u8],
    stderr: &[u8],
) -> (r: Result<String, String>)
    requires
        old(cache).wf(),
    ensures
        final(cache).wf(),
        text_result(r) == if success {
            parsed_build_root(stdout@)
        } else {
            Err(settings_error(lossy_text(stderr@)))
        },
        final(cache)@ == match r {
            Ok(p) => old(cache)@.insert(key@, CacheEntryView { workspace_mtime: mtime, path: p@ }),
            Err(_) => old(cache)@,
        },
{
    if !success {
        return Err(settings_failed(stderr));
    }
    let r = parse_build_root(stdout);
    if let Ok(p) = &r {
        cache.insert(key, mtime, p.as_str());
    }
    r
}

/// The build root that needs no `xcodebuild`: the given DerivedData, or what was
/// cached for a workspace of this age.
pub fn known_build_root(
    derived_data: Option<&str>,
    cache: &SettingsCache,
    key: &str,
    mtime: u64,
) -> (r: Option<String>)
    requires
        cache.wf(),
    ensures
        opt_view(r) == match opt_str_view(derived_data) {
            Some(d) => Some(d),
            None => cached_path(cache@, key@, mtime),
        },
{
    match derived_data {
        Some(d) => Some(owned(d)),
        None => own_opt(cache.lookup(key, mtime)),
    }
}

/// The app path that was cached for a workspace of this age, if it still exists.
pub fn known_app_path(cache: &SettingsCache, key: &str, mtime: u64, exists_now: bool) -> (r: Option<
    String,
>)
    requires
        cache.wf(),
    ensures
        opt_view(r) == if exists_now {
            cached_path(cache@, key@, mtime)
        } else {
            None
        },
{
    if exists_now {
        own_opt(cache.lookup(key, mtime))
    } else {
        None
    }
}

} // verus!
