//! Per-project setup: `.zed/debug.json`, `.zed/tasks.json` and the lines of
//! `.git/info/exclude`.

use crate::commands::scenario::find_scenario;
use crate::commands::scenario::jsonc_value;
use crate::commands::scenario::xcode_scenario;
use crate::commands::select::containers;
use crate::commands::select::ios_version;
use crate::commands::select::is_sorted_of;
use crate::commands::select::listed_schemes;
use crate::commands::select::pick_containers;
use crate::commands::select::runtime_os;
use crate::commands::select::schemes_of;
use crate::engine::simctl::first_decided;
use crate::json::compact;
use crate::json::members_view;
use crate::json::parse;
use crate::json::serde_compact;
use crate::json::serde_parse;
use crate::json::views_of;
use crate::json::Json;
use crate::json::JsonView;
use crate::number::parse_unsigned;
use crate::number::parsed_unsigned;
use crate::order::lemma_numbers_rank;
use crate::order::lemma_numbers_rank_chain;
use crate::order::lemma_text_rank;
use crate::order::lemma_text_rank_chain;
use crate::order::numbers_rank;
use crate::order::rank_numbers;
use crate::order::rank_texts;
use crate::order::sort_texts;
use crate::order::text_rank;
use crate::order::Rank;
use crate::setup::build_server::Regen;
use crate::setup::jsonc::jsonc_parsed;
use crate::setup::jsonc::parse_jsonc;
use crate::text::char_from;
use crate::text::chars_of;
use crate::text::copy_opt;
use crate::text::find_char;
use crate::text::has_prefix;
use crate::text::in_context;
use crate::text::join_with;
use crate::text::joined_with;
use crate::text::lemma_char_from;
use crate::text::lines;
use crate::text::lines_of;
use crate::text::opt_str_view;
use crate::text::opt_view;
use crate::text::owned;
use crate::text::push_text;
use crate::text::replace_text;
use crate::text::replaced;
use crate::text::split_char;
use crate::text::split_on;
use crate::text::starts_with;
use crate::text::str_eq;
use crate::text::string_of;
use crate::text::text_result;
use crate::text::texts;
use crate::text::trim;
use crate::text::trimmed;
use crate::text::with_context;
use crate::util::paths::is_absolute;
use crate::util::paths::is_absolute_path;
use crate::util::paths::join;
use crate::util::paths::joined;
use crate::util::paths::trim_path;
use crate::util::paths::trim_right;
use vstd::prelude::*;

verus! {

/// Command-line overrides of a project's setup; what is `None` is detected.
#[derive(Debug)]
pub struct ProjectFlags {
    pub workspace: Option<String>,
    pub scheme: Option<String>,
    pub device: Option<String>,
    pub os: Option<String>,
    pub preflight: Option<String>,
    /// Force `"oslog": true`. When absent the value of an existing
    /// `.zed/debug.json` is preserved.
    pub oslog: bool,
    /// Explicit DerivedData directory.
    pub derived_data: Option<String>,
}

/// Resolved per-project configuration written into `.zed/`.
#[derive(Debug)]
pub struct ProjectConfig {
    /// Workspace or project file name, relative to the project directory;
    /// absolute only when it lies outside.
    pub workspace: String,
    pub scheme: String,
    pub device: String,
    pub os: Option<String>,
    /// Project-generation command run when the workspace is missing.
    pub preflight: Option<String>,
    /// Pump OSLog into the Debug Console.
    pub oslog: bool,
    /// Explicit DerivedData directory; `None` omits it.
    pub derived_data: Option<String>,
}

/// The mathematical value of a [`ProjectConfig`].
pub struct ProjectView {
    pub workspace: Seq<char>,
    pub scheme: Seq<char>,
    pub device: Seq<char>,
    pub os: Option<Seq<char>>,
    pub preflight: Option<Seq<char>>,
    pub oslog: bool,
    pub derived_data: Option<Seq<char>>,
}

impl View for ProjectConfig {
    type V = ProjectView;

    open spec fn view(&self) -> ProjectView {
        ProjectView {
            workspace: self.workspace@,
            scheme: self.scheme@,
            device: self.device@,
            os: opt_view(self.os),
            preflight: opt_view(self.preflight),
            oslog: self.oslog,
            derived_data: opt_view(self.derived_data),
        }
    }
}

// ---------------------------------------------------------------------------
// detection
// ---------------------------------------------------------------------------

/// Where the next component of an absolute path starts, from `i` on: behind
/// separators and `.` components.
pub open spec fn component_from(p: Seq<char>, i: int) -> int
    decreases p.len() - i,
{
    if i < 0 || i >= p.len() {
        i
    } else if p[i] == '/' || (p[i] == '.' && (i + 1 == p.len() || p[i + 1] == '/')) {
        component_from(p, i + 1)
    } else {
        i
    }
}

/// Where the component that starts at `i` ends.
pub open spec fn component_end(p: Seq<char>, i: int) -> int {
    match char_from(p, '/', i) {
        Some(k) => k,
        None => p.len() as int,
    }
}

/// A component is searched forwards.
pub proof fn lemma_component_from(p: Seq<char>, i: int)
    requires
        0 <= i <= p.len(),
    ensures
        i <= component_from(p, i) <= p.len(),
        component_from(p, i) < p.len() ==> p[component_from(p, i)] != '/',
    decreases p.len() - i,
{
    if i < p.len() && (p[i] == '/' || (p[i] == '.' && (i + 1 == p.len() || p[i + 1] == '/'))) {
        lemma_component_from(p, i + 1);
    }
}

/// What is left of `p`, from `i` on, when the components of `dir`, from `j` on,
/// are taken off its front; `None` where they are not its front.
pub open spec fn below_from(p: Seq<char>, i: int, dir: Seq<char>, j: int) -> Option<Seq<char>>
    decreases dir.len() - j,
    when 0 <= i <= p.len() && 0 <= j <= dir.len()
{
    proof {
        lemma_component_from(p, i);
        lemma_component_from(dir, j);
        lemma_char_from(p, '/', component_from(p, i));
        lemma_char_from(dir, '/', component_from(dir, j));
    }
    let a = component_from(p, i);
    let b = component_from(dir, j);
    if b >= dir.len() {
        Some(trim_right(p.skip(a)))
    } else if a >= p.len() || p.subrange(a, component_end(p, a)) != dir.subrange(
        b,
        component_end(dir, b),
    ) {
        None
    } else {
        below_from(p, component_end(p, a), dir, component_end(dir, b))
    }
}

/// `Path::strip_prefix` of absolute paths.
pub open spec fn below(p: Seq<char>, dir: Seq<char>) -> Option<Seq<char>> {
    below_from(p, 0, dir, 0)
}

/// Where the next component of an absolute path starts.
fn skip_to_component(p: &[char], i: usize) -> (r: usize)
    requires
        i <= p.len(),
    ensures
        r == component_from(p@, i as int),
        i <= r <= p.len(),
{
    let mut k: usize = i;
    while k < p.len() && (p[k] == '/' || (p[k] == '.' && (k + 1 == p.len() || p[k + 1] == '/')))
        invariant
            i <= k <= p.len(),
            component_from(p@, i as int) == component_from(p@, k as int),
        decreases p.len() - k,
    {
        k = k + 1;
    }
    k
}

/// Where the component that starts at `i` ends.
fn end_of_component(p: &[char], i: usize) -> (r: usize)
    requires
        i <= p.len(),
    ensures
        r == component_end(p@, i as int),
        i <= r <= p.len(),
{
    proof {
        lemma_char_from(p@, '/', i as int);
    }
    match find_char(p, '/', i) {
        Some(k) => k,
        None => p.len(),
    }
}

/// `Path::strip_prefix` of absolute paths.
fn strip_dir(p: &str, dir: &str) -> (r: Option<String>)
    ensures
        opt_view(r) == below(p@, dir@),
{
    let pc = chars_of(p);
    let dc = chars_of(dir);
    let mut i: usize = 0;
    let mut j: usize = 0;
    loop
        invariant
            pc@ == p@,
            dc@ == dir@,
            i <= pc.len(),
            j <= dc.len(),
            below(p@, dir@) == below_from(p@, i as int, dir@, j as int),
        decreases dc.len() - j,
    {
        let a = skip_to_component(pc.as_slice(), i);
        let b = skip_to_component(dc.as_slice(), j);
        if b >= dc.len() {
            let rest = string_of(pc.as_slice(), a, pc.len());
            assert(rest@ =~= p@.skip(a as int));
            return Some(trim_path(rest.as_str()));
        }
        if a >= pc.len() {
            return None;
        }
        let ea = end_of_component(pc.as_slice(), a);
        let eb = end_of_component(dc.as_slice(), b);
        let x = string_of(pc.as_slice(), a, ea);
        let y = string_of(dc.as_slice(), b, eb);
        if !str_eq(x.as_str(), y.as_str()) {
            return None;
        }
        proof {
            lemma_component_from(dir@, j as int);
            lemma_char_from(dir@, '/', b as int);
            assert(eb > b);
        }
        i = ea;
        j = eb;
    }
}

/// Normalize a given workspace: a relative one is kept as it is, an absolute one
/// under the (resolved) project directory becomes the relative remainder, and one
/// outside stays absolute.
pub fn normalize_workspace_flag(dir: &str, workspace: &str, resolved: &str) -> (r: String)
    ensures
        r@ == if !is_absolute_path(workspace@) {
            workspace@
        } else {
            match below(resolved@, dir@) {
                Some(rel) => rel,
                None => resolved@,
            }
        },
{
    if !is_absolute(workspace) {
        return owned(workspace);
    }
    match strip_dir(resolved, dir) {
        Some(rel) => rel,
        None => owned(resolved),
    }
}

/// The message for several containers of one kind.
pub open spec fn several_text(kind: Seq<char>, sorted: Seq<Seq<char>>) -> Seq<char> {
    "multiple "@ + kind + " files found ("@ + joined_with(sorted, ", "@)
        + ") \u{2014} pass --workspace"@
}

/// The containers to choose from: the workspaces, or without any the projects.
pub open spec fn choosable(names: Seq<Seq<char>>) -> Seq<Seq<char>> {
    let ws = containers(names, true, names.len() as int);
    if ws.len() > 0 {
        ws
    } else {
        containers(names, false, names.len() as int)
    }
}

/// The kind of the containers to choose from.
pub open spec fn choosable_kind(names: Seq<Seq<char>>) -> Seq<char> {
    if containers(names, true, names.len() as int).len() > 0 {
        ".xcworkspace"@
    } else {
        ".xcodeproj"@
    }
}

/// Whether a result is the choice of a container out of the names in a
/// directory: the one workspace; without any, the one project.
pub open spec fn is_container_choice(
    dir: Seq<char>,
    names: Seq<Seq<char>>,
    r: Result<Seq<char>, Seq<char>>,
) -> bool {
    let all = choosable(names);
    if all.len() == 1 {
        r == Ok::<Seq<char>, Seq<char>>(all[0])
    } else if all.len() == 0 {
        r == Err::<Seq<char>, Seq<char>>(
            "no .xcworkspace/.xcodeproj found in "@ + dir
                + " \u{2014} pass --workspace (it may not be generated yet)"@,
        )
    } else {
        exists|s: Seq<Seq<char>>| #[trigger]
            is_sorted_of(s, choosable(names)) && r == Err::<Seq<char>, Seq<char>>(
                several_text(choosable_kind(names), s),
            )
    }
}

/// The single top-level `*.xcworkspace` (else `*.xcodeproj`) among the names in a
/// directory.
pub fn find_workspace(dir: &str, names: &Vec<String>) -> (r: Result<String, String>)
    ensures
        is_container_choice(dir@, texts(names@), text_result(r)),
{
    let ws = pick_containers(names, true);
    let ps = pick_containers(names, false);
    assert(texts(ws@).len() == ws@.len());
    assert(texts(ps@).len() == ps@.len());
    let (all, kind) = if ws.len() > 0 {
        (ws, ".xcworkspace")
    } else {
        (ps, ".xcodeproj")
    };
    let ghost av = texts(all@);
    assert(av == choosable(texts(names@)));
    if all.len() == 1 {
        assert(av[0] == all@[0]@);
        return Ok(owned(all[0].as_str()));
    }
    if all.len() == 0 {
        let mut m = owned("no .xcworkspace/.xcodeproj found in ");
        m.append(dir);
        m.append(" \u{2014} pass --workspace (it may not be generated yet)");
        return Err(m);
    }
    let sorted = sort_texts(all);
    let mut m = owned("multiple ");
    m.append(kind);
    m.append(" files found (");
    m.append(join_with(&sorted, ", ").as_str());
    m.append(") \u{2014} pass --workspace");
    assert(is_sorted_of(texts(sorted@), av));
    Err(m)
}

/// The schemes of a listing; none where it has none.
pub open spec fn all_schemes(v: JsonView) -> Seq<Seq<char>> {
    match listed_schemes(v) {
        Ok(s) => s,
        Err(_) => Seq::empty(),
    }
}

/// The one scheme of a listing, or the message that it does not have one.
pub open spec fn only_scheme(v: JsonView, workspace: Seq<char>) -> Result<Seq<char>, Seq<char>> {
    let schemes = all_schemes(v);
    if schemes.len() == 0 {
        Err("xcodebuild -list reported no schemes for "@ + workspace)
    } else if schemes.len() == 1 {
        Ok(schemes[0])
    } else {
        Err("multiple schemes \u{2014} pass --scheme \"<name>\":\n  "@ + joined_with(schemes, "\n  "@))
    }
}

/// The one scheme of a listing.
pub fn pick_scheme(v: &Json, workspace: &str) -> (r: Result<String, String>)
    ensures
        text_result(r) == only_scheme(v@, workspace@),
{
    match schemes_of(v) {
        Ok(schemes) => {
            assert(texts(schemes@).len() == schemes@.len());
            if schemes.len() == 0 {
                let mut m = owned("xcodebuild -list reported no schemes for ");
                m.append(workspace);
                return Err(m);
            }
            if schemes.len() == 1 {
                assert(texts(schemes@)[0] == schemes@[0]@);
                return Ok(owned(schemes[0].as_str()));
            }
            let mut m = owned("multiple schemes \u{2014} pass --scheme \"<name>\":\n  ");
            m.append(join_with(&schemes, "\n  ").as_str());
            Err(m)
        },
        Err(_) => {
            let mut m = owned("xcodebuild -list reported no schemes for ");
            m.append(workspace);
            Err(m)
        },
    }
}

/// The one scheme of `xcodebuild -list -json` output.
pub fn detect_scheme(bytes: &[u8], workspace: &str) -> (r: Result<String, String>)
    ensures
        match serde_parse(bytes@) {
            Ok(v) => text_result(r) == only_scheme(v, workspace@),
            Err(e) => r matches Err(m) && m@ == in_context(
                "xcodebuild -list output is not JSON"@,
                e,
            ),
        },
{
    match parse(bytes) {
        Ok(v) => pick_scheme(&v, workspace),
        Err(e) => Err(with_context("xcodebuild -list output is not JSON", e.as_str())),
    }
}

/// A simulator that can be used.
#[derive(Debug)]
struct Usable {
    name: String,
    os: String,
    booted: bool,
}

/// The mathematical value of a simulator that can be used.
pub struct UsableView {
    pub name: Seq<char>,
    pub os: Seq<char>,
    pub booted: bool,
}

impl View for Usable {
    type V = UsableView;

    closed spec fn view(&self) -> UsableView {
        UsableView { name: self.name@, os: self.os@, booted: self.booted }
    }
}

/// The mathematical values of some simulators.
spec fn usables_view(ds: Seq<Usable>) -> Seq<UsableView> {
    Seq::new(ds.len(), |i: int| ds[i]@)
}

/// A text, or the empty one.
pub open spec fn text_or_empty(o: Option<Seq<char>>) -> Seq<char> {
    match o {
        Some(s) => s,
        None => Seq::empty(),
    }
}

/// The simulator that a device entry describes, if it is available and named.
pub open spec fn usable_of(d: JsonView, os: Seq<char>) -> Option<UsableView> {
    let available = match d.get("isAvailable"@) {
        Some(a) => a.as_bool() == Some(true),
        None => false,
    };
    let name = text_or_empty(d.str_at("name"@));
    if available && name.len() > 0 {
        Some(UsableView { name, os, booted: d.str_at("state"@) == Some("Booted"@) })
    } else {
        None
    }
}

/// The usable simulators among the first `n` entries of a runtime.
pub open spec fn usables_of(entries: Seq<JsonView>, os: Seq<char>, n: int) -> Seq<UsableView>
    decreases n,
{
    if n <= 0 {
        Seq::empty()
    } else {
        match usable_of(entries[n - 1], os) {
            Some(d) => usables_of(entries, os, n - 1).push(d),
            None => usables_of(entries, os, n - 1),
        }
    }
}

/// The usable simulators among the first `n` runtimes.
pub open spec fn usables_upto(runtimes: Seq<(Seq<char>, JsonView)>, n: int) -> Seq<UsableView>
    decreases n,
{
    if n <= 0 {
        Seq::empty()
    } else {
        let front = usables_upto(runtimes, n - 1);
        match (ios_version(runtimes[n - 1].0), runtimes[n - 1].1.as_array()) {
            (Some(os), Some(entries)) => front + usables_of(entries, os, entries.len() as int),
            _ => front,
        }
    }
}

/// The first booted simulator, from `i` on.
pub open spec fn booted_from(ds: Seq<UsableView>, i: int) -> Option<UsableView>
    decreases ds.len() - i,
{
    if i < 0 || i >= ds.len() {
        None
    } else if ds[i].booted {
        Some(ds[i])
    } else {
        booted_from(ds, i + 1)
    }
}

/// Whether a simulator is an iPhone.
pub open spec fn is_iphone(d: UsableView) -> bool {
    has_prefix(d.name, "iPhone"@)
}

/// The parts of an OS version as numbers; what is none counts as zero.
pub open spec fn version_numbers(parts: Seq<Seq<char>>) -> Seq<u32> {
    Seq::new(
        parts.len(),
        |i: int|
            match parsed_unsigned(parts[i], u32::MAX as int) {
                Some(n) => n as u32,
                None => 0,
            },
    )
}

/// The order of two iPhones: by OS version, then by name and by OS text.
pub open spec fn phone_rank(a: UsableView, b: UsableView) -> Rank {
    numbers_rank(
        version_numbers(split_on(a.os, '.')),
        version_numbers(split_on(b.os, '.')),
    ).or(text_rank(a.name, b.name).or(text_rank(a.os, b.os)))
}

/// Whether the simulator at `k` is the newest iPhone.
pub open spec fn is_newest_phone(ds: Seq<UsableView>, k: int) -> bool {
    &&& 0 <= k < ds.len()
    &&& is_iphone(ds[k])
    &&& forall|j: int|
        0 <= j < ds.len() && is_iphone(#[trigger] ds[j]) ==> !(phone_rank(ds[j], ds[k]) is After)
}

/// Whether a result is the choice of a simulator: the first booted one, else the
/// newest iPhone.
pub open spec fn is_sim_choice(
    ds: Seq<UsableView>,
    r: Result<(Seq<char>, Seq<char>), Seq<char>>,
) -> bool {
    match booted_from(ds, 0) {
        Some(d) => r == Ok::<(Seq<char>, Seq<char>), Seq<char>>((d.name, d.os)),
        None => {
            ||| exists|k: int|
                #![trigger ds[k]]
                is_newest_phone(ds, k) && r == Ok::<(Seq<char>, Seq<char>), Seq<char>>(
                    (ds[k].name, ds[k].os),
                )
            ||| (forall|j: int| 0 <= j < ds.len() ==> !is_iphone(#[trigger] ds[j])) && r == Err::<
                (Seq<char>, Seq<char>),
                Seq<char>,
            >("no available iPhone simulator found \u{2014} pass --device \"<name or udid>\""@)
        },
    }
}

/// iPhones of which each does not come after the next.
proof fn lemma_phone_rank_chain(a: UsableView, b: UsableView, c: UsableView)
    requires
        !(phone_rank(a, b) is After),
        !(phone_rank(b, c) is After),
    ensures
        !(phone_rank(a, c) is After),
{
    let x = version_numbers(split_on(a.os, '.'));
    let y = version_numbers(split_on(b.os, '.'));
    let z = version_numbers(split_on(c.os, '.'));
    lemma_numbers_rank_chain(x, y, z);
    if numbers_rank(x, z) is Same {
        lemma_text_rank_chain(a.name, b.name, c.name);
        if text_rank(a.name, c.name) is Same {
            lemma_text_rank_chain(a.os, b.os, c.os);
        }
    }
}

/// The newest iPhone is one name on one OS.
pub proof fn lemma_newest_phone_unique(ds: Seq<UsableView>, j: int, k: int)
    requires
        is_newest_phone(ds, j),
        is_newest_phone(ds, k),
    ensures
        ds[j].name == ds[k].name,
        ds[j].os == ds[k].os,
{
    let x = version_numbers(split_on(ds[j].os, '.'));
    let y = version_numbers(split_on(ds[k].os, '.'));
    assert(!(phone_rank(ds[j], ds[k]) is After));
    assert(!(phone_rank(ds[k], ds[j]) is After));
    lemma_numbers_rank(x, y);
    lemma_text_rank(ds[j].name, ds[k].name);
    lemma_text_rank(ds[j].os, ds[k].os);
}

/// The parts of an OS version as numbers.
fn read_version(os: &str) -> (r: Vec<u32>)
    ensures
        r@ == version_numbers(split_on(os@, '.')),
{
    let parts = split_char(os, '.');
    let ghost pv = texts(parts@);
    let mut r: Vec<u32> = Vec::new();
    let mut i: usize = 0;
    while i < parts.len()
        invariant
            i <= parts.len(),
            pv == texts(parts@),
            r@.len() == i,
            forall|k: int|
                0 <= k < i ==> #[trigger] r@[k] == match parsed_unsigned(pv[k], u32::MAX as int) {
                    Some(n) => n as u32,
                    None => 0,
                },
        decreases parts.len() - i,
    {
        assert(pv[i as int] == parts@[i as int]@);
        let cs = chars_of(parts[i].as_str());
        assert(cs@.subrange(0, cs@.len() as int) =~= pv[i as int]);
        match parse_unsigned(cs.as_slice(), 0, cs.len(), u32::MAX as u64) {
            Some(n) => {
                r.push(n as u32);
            },
            None => {
                r.push(0);
            },
        }
        i = i + 1;
    }
    assert(r@ =~= version_numbers(pv));
    r
}

/// The order of two iPhones.
fn rank_phones(a: &Usable, b: &Usable) -> (r: Rank)
    ensures
        r == phone_rank(a@, b@),
{
    let x = read_version(a.os.as_str());
    let y = read_version(b.os.as_str());
    first_decided(
        rank_numbers(&x, &y),
        first_decided(
            rank_texts(a.name.as_str(), b.name.as_str()),
            rank_texts(a.os.as_str(), b.os.as_str()),
        ),
    )
}

/// The simulator that a device entry describes.
fn read_usable(d: &Json, os: &str) -> (r: Option<Usable>)
    ensures
        match r {
            Some(u) => usable_of(d@, os@) == Some(u@),
            None => usable_of(d@, os@) is None,
        },
{
    let available = match d.get("isAvailable") {
        Some(a) => match a.as_bool() {
            Some(b) => b,
            None => false,
        },
        None => false,
    };
    let booted = match d.str_at("state") {
        Some(s) => str_eq(s, "Booted"),
        None => false,
    };
    match d.str_at("name") {
        Some(name) => {
            if available && !name.is_empty() {
                Some(Usable { name: owned(name), os: owned(os), booted })
            } else {
                None
            }
        },
        None => None,
    }
}

/// Append the usable simulators of a runtime.
fn read_usables(out: &mut Vec<Usable>, entries: &Vec<Json>, os: &str)
    ensures
        usables_view(final(out)@) == usables_view(old(out)@) + usables_of(
            views_of(entries@),
            os@,
            entries@.len() as int,
        ),
{
    let ghost ev = views_of(entries@);
    let ghost before = usables_view(out@);
    let mut i: usize = 0;
    assert(usables_view(out@) =~= before + usables_of(ev, os@, 0));
    while i < entries.len()
        invariant
            i <= entries.len(),
            ev == views_of(entries@),
            before == usables_view(old(out)@),
            usables_view(out@) == before + usables_of(ev, os@, i as int),
        decreases entries.len() - i,
    {
        assert(ev[i as int] == entries@[i as int]@);
        let ghost now = usables_view(out@);
        if let Some(d) = read_usable(&entries[i], os) {
            let ghost dv = d@;
            out.push(d);
            assert(usables_view(out@) =~= now.push(dv));
            assert(now.push(dv) =~= before + usables_of(ev, os@, i as int).push(dv));
        }
        i = i + 1;
    }
}

/// The mathematical value of a chosen simulator or a message.
pub open spec fn sim_result(r: Result<(String, Option<String>), String>) -> Result<
    (Seq<char>, Option<Seq<char>>),
    Seq<char>,
> {
    match r {
        Ok(d) => Ok((d.0@, opt_view(d.1))),
        Err(e) => Err(e@),
    }
}

/// Whether a result is the choice of a simulator out of a listing.
pub open spec fn is_listing_choice(
    v: JsonView,
    r: Result<(Seq<char>, Option<Seq<char>>), Seq<char>>,
) -> bool {
    let runtimes = match v.get("devices"@) {
        Some(d) => d.as_object(),
        None => None,
    };
    match runtimes {
        Some(ms) => is_sim_choice(
            usables_upto(ms, ms.len() as int),
            match r {
                Ok(d) => Ok((d.0, text_or_empty(d.1))),
                Err(e) => Err(e),
            },
        ) && (r matches Ok(d) ==> d.1 is Some),
        None => r == Err::<(Seq<char>, Option<Seq<char>>), Seq<char>>(
            "simctl list output has no devices"@,
        ),
    }
}

/// Pick a simulator out of a listing: the booted iOS device if there is one, else
/// the newest available iPhone. Its name and its OS version.
pub fn pick_simulator(v: &Json) -> (r: Result<(String, Option<String>), String>)
    ensures
        is_listing_choice(v@, sim_result(r)),
{
    let devices = match v.get("devices") {
        Some(d) => d,
        None => return Err(owned("simctl list output has no devices")),
    };
    let runtimes = match devices.as_object() {
        Some(ms) => ms,
        None => return Err(owned("simctl list output has no devices")),
    };
    let ghost rv = members_view(runtimes@);
    let mut found: Vec<Usable> = Vec::new();
    let mut i: usize = 0;
    assert(usables_view(found@) =~= usables_upto(rv, 0));
    while i < runtimes.len()
        invariant
            i <= runtimes.len(),
            rv == members_view(runtimes@),
            usables_view(found@) == usables_upto(rv, i as int),
        decreases runtimes.len() - i,
    {
        assert(rv[i as int] == (runtimes@[i as int].key@, runtimes@[i as int].value@));
        if let Some(os) = runtime_os(runtimes[i].key.as_str()) {
            if let Some(entries) = runtimes[i].value.as_array() {
                assert(views_of(entries@).len() == entries@.len());
                read_usables(&mut found, entries, os.as_str());
            }
        }
        i = i + 1;
    }
    choose_simulator(&found)
}

/// Pick a simulator.
fn choose_simulator(found: &Vec<Usable>) -> (r: Result<(String, Option<String>), String>)
    ensures
        is_sim_choice(
            usables_view(found@),
            match sim_result(r) {
                Ok(d) => Ok((d.0, text_or_empty(d.1))),
                Err(e) => Err(e),
            },
        ),
        sim_result(r) matches Ok(d) ==> d.1 is Some,
{
    let ghost fv = usables_view(found@);
    let mut i: usize = 0;
    while i < found.len()
        invariant
            i <= found.len(),
            fv == usables_view(found@),
            booted_from(fv, 0) == booted_from(fv, i as int),
        decreases found.len() - i,
    {
        assert(fv[i as int] == found@[i as int]@);
        if found[i].booted {
            return Ok((owned(found[i].name.as_str()), Some(owned(found[i].os.as_str()))));
        }
        i = i + 1;
    }
    assert(booted_from(fv, 0) is None);
    let mut best: Option<usize> = None;
    let mut j: usize = 0;
    while j < found.len()
        invariant
            j <= found.len(),
            fv == usables_view(found@),
            match best {
                Some(b) => b < j && is_newest_phone(fv.take(j as int), b as int),
                None => forall|k: int| 0 <= k < j ==> !is_iphone(#[trigger] fv[k]),
            },
        decreases found.len() - j,
    {
        let ghost seen = fv.take(j as int);
        let ghost next = fv.take(j + 1);
        assert(forall|k: int| 0 <= k < j ==> #[trigger] next[k] == seen[k]);
        assert(next[j as int] == found@[j as int]@);
        assert(fv[j as int] == found@[j as int]@);
        if starts_with(chars_of(found[j].name.as_str()).as_slice(), "iPhone") {
            match best {
                Some(b) => {
                    assert(fv[b as int] == found@[b as int]@);
                    let rank = rank_phones(&found[b], &found[j]);
                    if rank == Rank::Before {
                        proof {
                            assert forall|k: int|
                                0 <= k < next.len() && is_iphone(#[trigger] next[k]) implies !(
                            phone_rank(next[k], next[j as int]) is After) by {
                                if k < j {
                                    assert(!(phone_rank(seen[k], seen[b as int]) is After));
                                    lemma_phone_rank_chain(next[k], next[b as int], next[j as int]);
                                } else {
                                    lemma_phone_same(next[k]);
                                }
                            }
                        }
                        best = Some(j);
                    } else {
                        proof {
                            lemma_phone_flips(next[b as int], next[j as int]);
                            assert forall|k: int|
                                0 <= k < next.len() && is_iphone(#[trigger] next[k]) implies !(
                            phone_rank(next[k], next[b as int]) is After) by {
                                if k < j {
                                    assert(!(phone_rank(seen[k], seen[b as int]) is After));
                                }
                            }
                        }
                    }
                },
                None => {
                    proof {
                        lemma_phone_same(next[j as int]);
                        assert forall|k: int|
                            0 <= k < next.len() && is_iphone(#[trigger] next[k]) implies !(
                        phone_rank(next[k], next[j as int]) is After) by {
                            if k < j {
                                assert(!is_iphone(fv[k]));
                            }
                        }
                    }
                    best = Some(j);
                },
            }
        } else {
            proof {
                if let Some(b) = best {
                    assert forall|k: int|
                        0 <= k < next.len() && is_iphone(#[trigger] next[k]) implies !(phone_rank(
                        next[k],
                        next[b as int],
                    ) is After) by {
                        assert(!(phone_rank(seen[k], seen[b as int]) is After));
                    }
                }
            }
        }
        j = j + 1;
    }
    assert(fv.take(fv.len() as int) =~= fv);
    match best {
        Some(b) => {
            assert(fv[b as int] == found@[b as int]@);
            Ok((owned(found[b].name.as_str()), Some(owned(found[b].os.as_str()))))
        },
        None => Err(
            owned("no available iPhone simulator found \u{2014} pass --device \"<name or udid>\""),
        ),
    }
}

/// An iPhone does not come after itself.
proof fn lemma_phone_same(a: UsableView)
    ensures
        phone_rank(a, a) is Same,
{
    lemma_numbers_rank(
        version_numbers(split_on(a.os, '.')),
        version_numbers(split_on(a.os, '.')),
    );
    lemma_text_rank(a.name, a.name);
    lemma_text_rank(a.os, a.os);
}

/// The rank of iPhones turns round with its arguments.
proof fn lemma_phone_flips(a: UsableView, b: UsableView)
    ensures
        phone_rank(b, a) == phone_rank(a, b).flipped(),
{
    lemma_numbers_rank(
        version_numbers(split_on(a.os, '.')),
        version_numbers(split_on(b.os, '.')),
    );
    lemma_text_rank(a.name, b.name);
    lemma_text_rank(a.os, b.os);
}

/// Pick a simulator out of `simctl list devices --json` output.
pub fn detect_device(bytes: &[u8]) -> (r: Result<(String, Option<String>), String>)
    ensures
        match serde_parse(bytes@) {
            Ok(v) => is_listing_choice(v, sim_result(r)),
            Err(e) => r matches Err(m) && m@ == in_context("simctl list output is not JSON"@, e),
        },
{
    match parse(bytes) {
        Ok(v) => pick_simulator(&v),
        Err(e) => Err(with_context("simctl list output is not JSON", e.as_str())),
    }
}

/// The OSLog switch of the first scenario, from `i` on, that has one. A scenario
/// without it is passed over, so that setting a project up again never drops a
/// switch that was turned on.
pub open spec fn oslog_from(scenarios: Seq<JsonView>, i: int) -> Option<bool>
    decreases scenarios.len() - i,
{
    if i < 0 || i >= scenarios.len() {
        None
    } else {
        let found = match scenarios[i].get("oslog"@) {
            Some(v) => v.as_bool(),
            None => None,
        };
        match found {
            Some(b) => Some(b),
            None => oslog_from(scenarios, i + 1),
        }
    }
}

/// The DerivedData directory of the first scenario, from `i` on, that names one.
pub open spec fn derived_data_from(scenarios: Seq<JsonView>, i: int) -> Option<Seq<char>>
    decreases scenarios.len() - i,
{
    if i < 0 || i >= scenarios.len() {
        None
    } else {
        match scenarios[i].str_at("derivedData"@) {
            Some(d) => Some(d),
            None => derived_data_from(scenarios, i + 1),
        }
    }
}

/// Whether the scenarios of a document switch the OSLog pump on.
pub open spec fn oslog_of(v: JsonView) -> bool {
    match v.as_array() {
        Some(a) => oslog_from(a, 0) == Some(true),
        None => false,
    }
}

/// The DerivedData directory that the scenarios of a document name.
pub open spec fn derived_data_of(v: JsonView) -> Option<Seq<char>> {
    match v.as_array() {
        Some(a) => derived_data_from(a, 0),
        None => None,
    }
}

/// The document of a `.zed/debug.json` text, if there is one.
pub open spec fn debug_value(debug_json: Option<Seq<char>>) -> Option<JsonView> {
    match debug_json {
        Some(t) => match jsonc_parsed(t) {
            Ok(v) => Some(v),
            Err(_) => None,
        },
        None => None,
    }
}

/// Whether an existing `.zed/debug.json` switches the OSLog pump on.
pub open spec fn kept_oslog(debug_json: Option<Seq<char>>) -> bool {
    match debug_value(debug_json) {
        Some(v) => oslog_of(v),
        None => false,
    }
}

/// The DerivedData directory that an existing `.zed/debug.json` names.
pub open spec fn kept_derived_data(debug_json: Option<Seq<char>>) -> Option<Seq<char>> {
    match debug_value(debug_json) {
        Some(v) => derived_data_of(v),
        None => None,
    }
}

/// Whether the scenarios of a document switch the OSLog pump on: the first that
/// has the switch decides.
pub fn oslog_in(v: &Json) -> (r: bool)
    ensures
        r == oslog_of(v@),
{
    let a = match v.as_array() {
        Some(a) => a,
        None => return false,
    };
    let ghost av = views_of(a@);
    let mut i: usize = 0;
    while i < a.len()
        invariant
            i <= a.len(),
            av == views_of(a@),
            v@.as_array() == Some(av),
            oslog_from(av, 0) == oslog_from(av, i as int),
        decreases a.len() - i,
    {
        assert(av[i as int] == a@[i as int]@);
        if let Some(v) = a[i].get("oslog") {
            if let Some(b) = v.as_bool() {
                return b;
            }
        }
        i = i + 1;
    }
    false
}

/// The DerivedData directory that the scenarios of a document name: the first that
/// names one decides.
pub fn derived_data_in(v: &Json) -> (r: Option<String>)
    ensures
        opt_view(r) == derived_data_of(v@),
{
    let a = match v.as_array() {
        Some(a) => a,
        None => return None,
    };
    let ghost av = views_of(a@);
    let mut i: usize = 0;
    while i < a.len()
        invariant
            i <= a.len(),
            av == views_of(a@),
            v@.as_array() == Some(av),
            derived_data_from(av, 0) == derived_data_from(av, i as int),
        decreases a.len() - i,
    {
        assert(av[i as int] == a@[i as int]@);
        if let Some(d) = a[i].str_at("derivedData") {
            return Some(owned(d));
        }
        i = i + 1;
    }
    None
}

/// The document of a `.zed/debug.json` text, if there is one.
fn read_debug(debug_json: Option<&str>) -> (r: Option<Json>)
    ensures
        match r {
            Some(v) => debug_value(opt_str_view(debug_json)) == Some(v@),
            None => debug_value(opt_str_view(debug_json)) is None,
        },
{
    match debug_json {
        Some(t) => match parse_jsonc(t) {
            Ok(v) => Some(v),
            Err(_) => None,
        },
        None => None,
    }
}

/// `"oslog"` of the first scenario in an existing `.zed/debug.json` that has it:
/// re-running setup preserves an enabled OSLog pump.
pub fn existing_oslog(debug_json: Option<&str>) -> (r: bool)
    ensures
        r == kept_oslog(opt_str_view(debug_json)),
{
    match read_debug(debug_json) {
        Some(v) => oslog_in(&v),
        None => false,
    }
}

/// `"derivedData"` of the first scenario in an existing `.zed/debug.json` that has
/// it: re-running setup preserves it.
pub fn existing_derived_data(debug_json: Option<&str>) -> (r: Option<String>)
    ensures
        opt_view(r) == kept_derived_data(opt_str_view(debug_json)),
{
    match read_debug(debug_json) {
        Some(v) => derived_data_in(&v),
        None => None,
    }
}

/// Whether a Makefile line is a `project:` rule, not a `project:=` or
/// `project::=` variable assignment.
pub open spec fn is_project_rule(line: Seq<char>) -> bool {
    has_prefix(line, "project:"@) && !has_prefix(line, "project:="@) && !has_prefix(
        line,
        "project::="@,
    )
}

/// The preflight that a Makefile suggests: `make project CI=true` where it has a
/// `project:` target.
pub open spec fn suggested_preflight(makefile: Option<Seq<char>>) -> Option<Seq<char>> {
    match makefile {
        Some(t) => if has_project_rule(lines_of(t)) {
            Some("make project CI=true"@)
        } else {
            None
        },
        None => None,
    }
}

/// Whether one of some lines is a `project:` rule.
pub open spec fn has_project_rule(lines: Seq<Seq<char>>) -> bool {
    exists|i: int| 0 <= i < lines.len() && is_project_rule(#[trigger] lines[i])
}

/// `make project CI=true` when the Makefile has a `project:` target.
pub fn makefile_preflight(makefile: Option<&str>) -> (r: Option<String>)
    ensures
        opt_view(r) == suggested_preflight(opt_str_view(makefile)),
{
    let text = match makefile {
        Some(t) => t,
        None => return None,
    };
    let ls = lines(text);
    let ghost lv = lines_of(text@);
    let mut i: usize = 0;
    while i < ls.len()
        invariant
            i <= ls.len(),
            lv == texts(ls@),
            makefile == Some(text),
            lv == lines_of(text@),
            forall|k: int| 0 <= k < i ==> !is_project_rule(#[trigger] lv[k]),
        decreases ls.len() - i,
    {
        assert(lv[i as int] == ls@[i as int]@);
        let cs = chars_of(ls[i].as_str());
        let s = cs.as_slice();
        if starts_with(s, "project:") && !starts_with(s, "project:=") && !starts_with(
            s,
            "project::=",
        ) {
            assert(has_project_rule(lv));
            return Some(owned("make project CI=true"));
        }
        i = i + 1;
    }
    None
}

/// The mathematical value of [`ProjectFlags`].
pub struct FlagsView {
    pub workspace: Option<Seq<char>>,
    pub scheme: Option<Seq<char>>,
    pub device: Option<Seq<char>>,
    pub os: Option<Seq<char>>,
    pub preflight: Option<Seq<char>>,
    pub oslog: bool,
    pub derived_data: Option<Seq<char>>,
}

impl View for ProjectFlags {
    type V = FlagsView;

    open spec fn view(&self) -> FlagsView {
        FlagsView {
            workspace: opt_view(self.workspace),
            scheme: opt_view(self.scheme),
            device: opt_view(self.device),
            os: opt_view(self.os),
            preflight: opt_view(self.preflight),
            oslog: self.oslog,
            derived_data: opt_view(self.derived_data),
        }
    }
}

/// The configuration that flags and detected values make: a flag wins, an empty
/// preflight flag switches the preflight off, and what an existing
/// `.zed/debug.json` holds is preserved.
pub open spec fn resolved(
    flags: FlagsView,
    workspace: Seq<char>,
    scheme: Seq<char>,
    detected: (Seq<char>, Option<Seq<char>>),
    makefile: Option<Seq<char>>,
    debug_json: Option<Seq<char>>,
) -> ProjectView {
    ProjectView {
        workspace,
        scheme,
        device: match flags.device {
            Some(d) => d,
            None => detected.0,
        },
        os: match flags.device {
            Some(_) => flags.os,
            None => match flags.os {
                Some(o) => Some(o),
                None => detected.1,
            },
        },
        preflight: match flags.preflight {
            Some(p) => if trimmed(p).len() == 0 {
                None
            } else {
                Some(p)
            },
            None => suggested_preflight(makefile),
        },
        oslog: flags.oslog || kept_oslog(debug_json),
        derived_data: match flags.derived_data {
            Some(d) => Some(d),
            None => kept_derived_data(debug_json),
        },
    }
}

/// The configuration that flags and detected values make.
pub fn resolve_config(
    flags: &ProjectFlags,
    workspace: &str,
    scheme: &str,
    detected: &(String, Option<String>),
    makefile: Option<&str>,
    debug_json: Option<&str>,
) -> (r: ProjectConfig)
    ensures
        r@ == resolved(
            flags@,
            workspace@,
            scheme@,
            (detected.0@, opt_view(detected.1)),
            opt_str_view(makefile),
            opt_str_view(debug_json),
        ),
{
    let (device, os) = match &flags.device {
        Some(d) => (owned(d.as_str()), copy_opt(&flags.os)),
        None => (
            owned(detected.0.as_str()),
            match &flags.os {
                Some(o) => Some(owned(o.as_str())),
                None => copy_opt(&detected.1),
            },
        ),
    };
    let preflight = match &flags.preflight {
        Some(p) => if trim(p.as_str()).as_str().is_empty() {
            None
        } else {
            Some(owned(p.as_str()))
        },
        None => makefile_preflight(makefile),
    };
    let oslog = flags.oslog || existing_oslog(debug_json);
    let derived_data = match &flags.derived_data {
        Some(d) => Some(owned(d.as_str())),
        None => existing_derived_data(debug_json),
    };
    ProjectConfig {
        workspace: owned(workspace),
        scheme: owned(scheme),
        device,
        os,
        preflight,
        oslog,
        derived_data,
    }
}

// ---------------------------------------------------------------------------
// shell quoting
// ---------------------------------------------------------------------------

/// Whether a character needs no quoting.
pub open spec fn is_plain_char(c: char) -> bool {
    'a' <= c <= 'z' || 'A' <= c <= 'Z' || '0' <= c <= '9' || c == '_' || c == '-' || c == '.' || c
        == '/' || c == ':' || c == '='
}

/// Whether an argument needs no quoting.
pub open spec fn is_plain(s: Seq<char>) -> bool {
    s.len() > 0 && forall|i: int| 0 <= i < s.len() ==> is_plain_char(#[trigger] s[i])
}

/// An argument quoted for a shell-joined command line.
pub open spec fn quoted(s: Seq<char>) -> Seq<char> {
    if is_plain(s) {
        s
    } else {
        "'"@ + replaced(s, "'"@, "'\\''"@) + "'"@
    }
}

/// A command without its quoting: outer single quotes off, and each escaped
/// apostrophe restored.
pub open spec fn unquoted(c: Seq<char>) -> Seq<char> {
    if c.len() >= 2 && c[0] == '\'' && c.last() == '\'' {
        replaced(c.subrange(1, c.len() - 1), "'\\''"@, "'"@)
    } else {
        c
    }
}

/// Quote an argument for a shell-joined task command line.
pub fn shell_quote(s: &str) -> (r: String)
    ensures
        r@ == quoted(s@),
{
    let cs = chars_of(s);
    let mut safe = cs.len() > 0;
    let mut i: usize = 0;
    while i < cs.len()
        invariant
            i <= cs.len(),
            cs@ == s@,
            safe == (s@.len() > 0 && forall|k: int| 0 <= k < i ==> is_plain_char(#[trigger] s@[k])),
        decreases cs.len() - i,
    {
        let c = cs[i];
        if !(('a' <= c && c <= 'z') || ('A' <= c && c <= 'Z') || ('0' <= c && c <= '9') || c == '_'
            || c == '-' || c == '.' || c == '/' || c == ':' || c == '=') {
            assert(!is_plain_char(s@[i as int]));
            safe = false;
        }
        i = i + 1;
    }
    if safe {
        return owned(s);
    }
    proof {
        reveal_strlit("'");
    }
    let mut r = owned("'");
    r.append(replace_text(s, "'", "'\\''").as_str());
    r.append("'");
    r
}

/// Reverse [`shell_quote`]: an unquoted command is returned as it is.
pub fn unquote_command(c: &str) -> (r: String)
    ensures
        r@ == unquoted(c@),
{
    let cs = chars_of(c);
    if cs.len() >= 2 && cs[0] == '\'' && cs[cs.len() - 1] == '\'' {
        proof {
            reveal_strlit("'\\''");
        }
        let inner = string_of(cs.as_slice(), 1, cs.len() - 1);
        replace_text(inner.as_str(), "'\\''", "'")
    } else {
        owned(c)
    }
}

/// Escaping apostrophes and restoring them gives back the text.
proof fn lemma_escape_round_trip(s: Seq<char>)
    ensures
        replaced(replaced(s, "'"@, "'\\''"@), "'\\''"@, "'"@) == s,
    decreases s.len(),
{
    reveal_strlit("'");
    reveal_strlit("'\\''");
    let q = "'"@;
    let esc = "'\\''"@;
    if s.len() == 0 {
        assert(replaced(s, q, esc) =~= s);
    } else {
        let rest = s.skip(1);
        lemma_escape_round_trip(rest);
        let e = replaced(s, q, esc);
        let er = replaced(rest, q, esc);
        if s[0] == '\'' {
            assert(s.subrange(0, 1) =~= q);
            assert(has_prefix(s, q));
            assert(e =~= esc + er);
            assert(e.subrange(0, 4) =~= esc);
            assert(has_prefix(e, esc));
            assert(e.skip(4) =~= er);
            assert(replaced(e, esc, q) =~= q + rest);
            assert(s =~= q + rest);
        } else {
            assert(!has_prefix(s, q)) by {
                if has_prefix(s, q) {
                    assert(s.subrange(0, 1)[0] == q[0]);
                }
            }
            assert(e =~= seq![s[0]] + er);
            assert(!has_prefix(e, esc)) by {
                if has_prefix(e, esc) {
                    assert(e.subrange(0, 4)[0] == esc[0]);
                }
            }
            assert(e.skip(1) =~= er);
            assert(replaced(e, esc, q) =~= seq![s[0]] + rest);
            assert(s =~= seq![s[0]] + rest);
        }
    }
}

/// Unquoting a quoted command gives back the command.
pub proof fn lemma_unquote_reverses_quote(s: Seq<char>)
    ensures
        unquoted(quoted(s)) == s,
{
    reveal_strlit("'");
    if is_plain(s) {
        assert(is_plain_char(s[0]));
    } else {
        let e = replaced(s, "'"@, "'\\''"@);
        let c = quoted(s);
        assert(c.subrange(1, c.len() - 1) =~= e);
        lemma_escape_round_trip(s);
    }
}

// ---------------------------------------------------------------------------
// .zed/ files
// ---------------------------------------------------------------------------

/// A text as a JSON string.
pub open spec fn json_text(s: Seq<char>) -> Seq<char> {
    serde_compact(JsonView::Str(s))
}

/// A text as a JSON string.
fn json_str(s: &str) -> (r: String)
    ensures
        r@ == json_text(s@),
{
    compact(&Json::string(s))
}

/// What stands at the head of a generated file.
pub open spec fn generated_head() -> Seq<char> {
    "// Generated by `xcode-dap setup --project`. Edit freely; re-running setup\n// backs this file up and rewrites it.\n"@
}

/// An optional member of a scenario.
pub open spec fn scenario_member(key: Seq<char>, value: Option<Seq<char>>) -> Seq<char> {
    match value {
        Some(v) => ",\n    \""@ + key + "\": "@ + json_text(v),
        None => Seq::empty(),
    }
}

/// The workspace of a scenario: a relative one is anchored to the worktree root.
pub open spec fn scenario_workspace(workspace: Seq<char>) -> Seq<char> {
    if is_absolute_path(workspace) {
        workspace
    } else {
        "$ZED_WORKTREE_ROOT/"@ + workspace
    }
}

/// The text of `.zed/debug.json`: one flat "Xcode" scenario.
pub open spec fn debug_json_text(cfg: ProjectView) -> Seq<char> {
    generated_head()
        + "[\n  {\n    \"adapter\": \"Xcode\",\n    \"label\": \"Run on simulator\",\n    \"request\": \"launch\",\n    \"workspace\": "@
        + json_text(scenario_workspace(cfg.workspace)) + ",\n    \"scheme\": "@ + json_text(cfg.scheme)
        + ",\n    \"device\": "@ + json_text(cfg.device) + scenario_member("os"@, cfg.os)
        + scenario_member("preflight"@, cfg.preflight) + if cfg.oslog {
        ",\n    \"oslog\": true"@
    } else {
        ""@
    } + scenario_member("derivedData"@, cfg.derived_data) + "\n  }\n]\n"@
}

/// Append an optional member of a scenario.
fn append_member(s: &mut String, key: &str, value: &Option<String>)
    ensures
        final(s)@ == old(s)@ + scenario_member(key@, opt_view(*value)),
{
    let ghost before = s@;
    match value {
        Some(v) => {
            s.append(",\n    \"");
            s.append(key);
            s.append("\": ");
            s.append(json_str(v.as_str()).as_str());
            assert(s@ =~= before + (",\n    \""@ + key@ + "\": "@ + json_text(v@)));
        },
        None => {
            assert(s@ =~= before + Seq::empty());
        },
    }
}

/// Render `.zed/debug.json`.
pub fn render_debug_json(cfg: &ProjectConfig) -> (r: String)
    ensures
        r@ == debug_json_text(cfg@),
{
    let workspace = if is_absolute(cfg.workspace.as_str()) {
        owned(cfg.workspace.as_str())
    } else {
        let mut w = owned("$ZED_WORKTREE_ROOT/");
        w.append(cfg.workspace.as_str());
        w
    };
    let mut s = owned(
        "// Generated by `xcode-dap setup --project`. Edit freely; re-running setup\n// backs this file up and rewrites it.\n",
    );
    s.append(
        "[\n  {\n    \"adapter\": \"Xcode\",\n    \"label\": \"Run on simulator\",\n    \"request\": \"launch\",\n    \"workspace\": ",
    );
    s.append(json_str(workspace.as_str()).as_str());
    s.append(",\n    \"scheme\": ");
    s.append(json_str(cfg.scheme.as_str()).as_str());
    s.append(",\n    \"device\": ");
    s.append(json_str(cfg.device.as_str()).as_str());
    append_member(&mut s, "os", &cfg.os);
    append_member(&mut s, "preflight", &cfg.preflight);
    if cfg.oslog {
        s.append(",\n    \"oslog\": true");
    } else {
        proof {
            reveal_strlit("");
            assert(s@ + ""@ =~= s@);
        }
    }
    append_member(&mut s, "derivedData", &cfg.derived_data);
    s.append("\n  }\n]\n");
    s
}

/// Texts as JSON strings.
pub open spec fn json_texts(args: Seq<Seq<char>>) -> Seq<Seq<char>> {
    Seq::new(args.len(), |i: int| json_text(args[i]))
}

/// A task of `.zed/tasks.json`.
pub open spec fn task_text(label: Seq<char>, command: Seq<char>, args: Seq<Seq<char>>) -> Seq<char> {
    "  {\n    \"label\": "@ + json_text(label) + ",\n    \"command\": "@ + json_text(command)
        + ",\n    \"args\": ["@ + joined_with(json_texts(args), ", "@)
        + "],\n    \"cwd\": \"$ZED_WORKTREE_ROOT\"\n  }"@
}

/// A flag with a quoted value, where there is one.
pub open spec fn quoted_flag(flag: Seq<char>, value: Option<Seq<char>>) -> Seq<Seq<char>> {
    match value {
        Some(v) => seq![flag, quoted(v)],
        None => Seq::empty(),
    }
}

/// The arguments of the build task.
pub open spec fn build_task_args(cfg: ProjectView) -> Seq<Seq<char>> {
    seq![
        "build"@,
        "--workspace"@,
        quoted(cfg.workspace),
        "--scheme"@,
        quoted(cfg.scheme),
        "--device"@,
        quoted(cfg.device),
    ] + quoted_flag("--os"@, cfg.os) + quoted_flag("--derived-data"@, cfg.derived_data)
}

/// The arguments of the clean task.
pub open spec fn clean_task_args(cfg: ProjectView) -> Seq<Seq<char>> {
    seq!["clean"@, "--workspace"@, quoted(cfg.workspace), "--scheme"@, quoted(cfg.scheme)]
        + quoted_flag("--derived-data"@, cfg.derived_data)
}

/// The text of `.zed/tasks.json`.
pub open spec fn tasks_json_text(cfg: ProjectView, xcode_dap: Seq<char>) -> Seq<char> {
    let command = quoted(xcode_dap);
    generated_head() + "[\n"@ + task_text("Xcode: Build"@, command, build_task_args(cfg)) + ",\n"@
        + task_text("Xcode: Clean"@, command, clean_task_args(cfg)) + ",\n"@ + task_text(
        "Xcode: Refresh"@,
        command,
        seq!["refresh"@],
    ) + ",\n"@ + task_text("Xcode: Console"@, command, seq!["console"@, "--follow"@]) + ",\n"@
        + task_text(
        "Xcode: Choose Scheme"@,
        command,
        seq!["select-scheme"@, "--workspace"@, quoted(cfg.workspace)],
    ) + ",\n"@ + task_text("Xcode: Choose Destination"@, command, seq!["select-device"@])
        + "\n]\n"@
}

/// A task of `.zed/tasks.json`.
fn task_entry(label: &str, command: &str, args: &Vec<String>) -> (r: String)
    ensures
        r@ == task_text(label@, command@, texts(args@)),
{
    let ghost av = texts(args@);
    let mut parts: Vec<String> = Vec::new();
    let mut i: usize = 0;
    assert(texts(parts@) =~= json_texts(av).take(0));
    while i < args.len()
        invariant
            i <= args.len(),
            av == texts(args@),
            texts(parts@) == json_texts(av).take(i as int),
        decreases args.len() - i,
    {
        assert(av[i as int] == args@[i as int]@);
        push_text(&mut parts, json_str(args[i].as_str()).as_str());
        assert(json_texts(av).take(i + 1) =~= json_texts(av).take(i as int).push(
            json_texts(av)[i as int],
        ));
        i = i + 1;
    }
    assert(json_texts(av).take(av.len() as int) =~= json_texts(av));
    let mut r = owned("  {\n    \"label\": ");
    r.append(json_str(label).as_str());
    r.append(",\n    \"command\": ");
    r.append(json_str(command).as_str());
    r.append(",\n    \"args\": [");
    r.append(join_with(&parts, ", ").as_str());
    r.append("],\n    \"cwd\": \"$ZED_WORKTREE_ROOT\"\n  }");
    r
}

/// Append a flag with a quoted value, where there is one.
fn push_quoted_flag(args: &mut Vec<String>, flag: &str, value: &Option<String>)
    ensures
        texts(final(args)@) == texts(old(args)@) + quoted_flag(flag@, opt_view(*value)),
{
    let ghost before = texts(args@);
    match value {
        Some(v) => {
            push_text(args, flag);
            push_text(args, shell_quote(v.as_str()).as_str());
            assert(texts(args@) =~= before + seq![flag@, quoted(v@)]);
        },
        None => {
            assert(texts(args@) =~= before + Seq::<Seq<char>>::empty());
        },
    }
}

/// A list of one text.
fn one(a: &str) -> (r: Vec<String>)
    ensures
        texts(r@) == seq![a@],
{
    let mut r: Vec<String> = Vec::new();
    push_text(&mut r, a);
    assert(texts(r@) =~= seq![a@]);
    r
}

/// Render `.zed/tasks.json`. Every task calls `xcode_dap`, normally the absolute
/// path of the binary, so that tasks do not depend on PATH.
pub fn render_tasks_json(cfg: &ProjectConfig, xcode_dap: &str) -> (r: String)
    ensures
        r@ == tasks_json_text(cfg@, xcode_dap@),
{
    let command = shell_quote(xcode_dap);
    let ws = shell_quote(cfg.workspace.as_str());
    let scheme = shell_quote(cfg.scheme.as_str());
    let device = shell_quote(cfg.device.as_str());

    let mut build_args = one("build");
    push_text(&mut build_args, "--workspace");
    push_text(&mut build_args, ws.as_str());
    push_text(&mut build_args, "--scheme");
    push_text(&mut build_args, scheme.as_str());
    push_text(&mut build_args, "--device");
    push_text(&mut build_args, device.as_str());
    assert(texts(build_args@) =~= seq![
        "build"@,
        "--workspace"@,
        quoted(cfg@.workspace),
        "--scheme"@,
        quoted(cfg@.scheme),
        "--device"@,
        quoted(cfg@.device),
    ]);
    push_quoted_flag(&mut build_args, "--os", &cfg.os);
    push_quoted_flag(&mut build_args, "--derived-data", &cfg.derived_data);

    let mut clean_args = one("clean");
    push_text(&mut clean_args, "--workspace");
    push_text(&mut clean_args, ws.as_str());
    push_text(&mut clean_args, "--scheme");
    push_text(&mut clean_args, scheme.as_str());
    assert(texts(clean_args@) =~= seq![
        "clean"@,
        "--workspace"@,
        quoted(cfg@.workspace),
        "--scheme"@,
        quoted(cfg@.scheme),
    ]);
    push_quoted_flag(&mut clean_args, "--derived-data", &cfg.derived_data);

    let refresh_args = one("refresh");
    let mut console_args = one("console");
    push_text(&mut console_args, "--follow");
    assert(texts(console_args@) =~= seq!["console"@, "--follow"@]);
    let mut scheme_args = one("select-scheme");
    push_text(&mut scheme_args, "--workspace");
    push_text(&mut scheme_args, ws.as_str());
    assert(texts(scheme_args@) =~= seq![
        "select-scheme"@,
        "--workspace"@,
        quoted(cfg@.workspace),
    ]);
    let device_args = one("select-device");

    let mut s = owned(
        "// Generated by `xcode-dap setup --project`. Edit freely; re-running setup\n// backs this file up and rewrites it.\n",
    );
    s.append("[\n");
    s.append(task_entry("Xcode: Build", command.as_str(), &build_args).as_str());
    s.append(",\n");
    s.append(task_entry("Xcode: Clean", command.as_str(), &clean_args).as_str());
    s.append(",\n");
    s.append(task_entry("Xcode: Refresh", command.as_str(), &refresh_args).as_str());
    s.append(",\n");
    s.append(task_entry("Xcode: Console", command.as_str(), &console_args).as_str());
    s.append(",\n");
    s.append(task_entry("Xcode: Choose Scheme", command.as_str(), &scheme_args).as_str());
    s.append(",\n");
    s.append(task_entry("Xcode: Choose Destination", command.as_str(), &device_args).as_str());
    s.append("\n]\n");
    s
}

/// What to do about a generated file.
#[derive(Clone, Copy, Debug, PartialEq, Eq, Structural)]
pub enum WriteStep {
    /// The file is there, byte for byte.
    Unchanged,
    /// The file differs: back it up, then rewrite it.
    Rewrite,
    /// There is no file yet.
    Write,
}

/// What to do about a generated file, given what is there.
pub fn write_generated(existing: Option<&str>, content: &str) -> (r: WriteStep)
    ensures
        r == match opt_str_view(existing) {
            Some(t) => if t == content@ {
                WriteStep::Unchanged
            } else {
                WriteStep::Rewrite
            },
            None => WriteStep::Write,
        },
{
    match existing {
        Some(t) => if str_eq(t, content) {
            WriteStep::Unchanged
        } else {
            WriteStep::Rewrite
        },
        None => WriteStep::Write,
    }
}

/// Whether a project uses the adapter: it has a build server file, or a debug
/// scenario for the adapter.
pub open spec fn opted_in(present: bool, debug_json: Option<Seq<char>>) -> bool {
    present || match debug_json {
        Some(t) => match jsonc_value(t) {
            Some(v) => xcode_scenario(v) is Some,
            None => false,
        },
        None => false,
    }
}

/// Whether the build server file may be written without being asked for:
/// refreshing an existing one always, recreating a deleted one only where
/// `.zed/debug.json` holds a scenario for the adapter. A file that cannot be read
/// or parsed counts as none.
pub fn build_server_opted_in(present: bool, debug_json: Option<&str>) -> (r: bool)
    ensures
        r == opted_in(present, opt_str_view(debug_json)),
{
    if present {
        return true;
    }
    match debug_json {
        Some(t) => match parse_jsonc(t) {
            Ok(v) => find_scenario(&v).is_some(),
            Err(_) => false,
        },
        None => false,
    }
}

/// Where an executable may lie: in each directory of the search path, in order.
pub fn path_candidates(path: &str, name: &str) -> (r: Vec<String>)
    ensures
        r@.len() == split_on(path@, ':').len(),
        forall|i: int|
            0 <= i < r@.len() ==> #[trigger] r@[i]@ == joined(split_on(path@, ':')[i], name@),
{
    let dirs = split_char(path, ':');
    let ghost dv = split_on(path@, ':');
    let mut r: Vec<String> = Vec::new();
    let mut i: usize = 0;
    while i < dirs.len()
        invariant
            i <= dirs.len(),
            dv == texts(dirs@),
            r@.len() == i,
            forall|k: int| 0 <= k < i ==> #[trigger] r@[k]@ == joined(dv[k], name@),
        decreases dirs.len() - i,
    {
        assert(dv[i as int] == dirs@[i as int]@);
        r.push(join(dirs[i].as_str(), name));
        i = i + 1;
    }
    r
}

/// A part of the summary that is shown where there is a value.
pub open spec fn summary_part(label: Seq<char>, value: Option<Seq<char>>) -> Seq<char> {
    match value {
        Some(v) => label + v,
        None => ""@,
    }
}

/// The summary of a project's configuration.
pub open spec fn summary_text(cfg: ProjectView) -> Seq<char> {
    "  workspace: "@ + cfg.workspace + "  scheme: "@ + cfg.scheme + "  device: "@ + cfg.device
        + summary_part("  os: "@, cfg.os) + summary_part("  preflight: "@, cfg.preflight)
}

/// A part of the summary that is shown where there is a value.
fn part(label: &str, value: &Option<String>) -> (r: String)
    ensures
        r@ == summary_part(label@, opt_view(*value)),
{
    match value {
        Some(v) => {
            let mut r = owned(label);
            r.append(v.as_str());
            r
        },
        None => owned(""),
    }
}

/// The summary of a project's configuration.
pub fn summary(cfg: &ProjectConfig) -> (r: String)
    ensures
        r@ == summary_text(cfg@),
{
    let mut r = owned("  workspace: ");
    r.append(cfg.workspace.as_str());
    r.append("  scheme: ");
    r.append(cfg.scheme.as_str());
    r.append("  device: ");
    r.append(cfg.device.as_str());
    r.append(part("  os: ", &cfg.os).as_str());
    r.append(part("  preflight: ", &cfg.preflight).as_str());
    r
}

/// What setup says of `buildServer.json`, which is never fatal.
pub open spec fn generated_text(regen: Regen, workspace: Seq<char>) -> Seq<char> {
    match regen {
        Regen::Written(_) =>
            "\u{2713} buildServer.json \u{2192} sourcekit-lsp go-to-definition ready"@,
        Regen::MissingWorkspace => "! "@ + workspace
            + " does not exist yet \u{2014} skipping buildServer.json;\n  run `xcode-dap refresh` after the project is generated."@,
        Regen::Failed(e) => "! could not generate buildServer.json (non-fatal): "@ + e@
            + "\n  run `xcode-dap refresh` once the project builds."@,
    }
}

/// What setup says of `buildServer.json`.
pub fn generate_build_server(regen: &Regen, workspace: &str) -> (r: String)
    ensures
        r@ == generated_text(*regen, workspace@),
{
    match regen {
        Regen::Written(_) => owned(
            "\u{2713} buildServer.json \u{2192} sourcekit-lsp go-to-definition ready",
        ),
        Regen::MissingWorkspace => {
            let mut r = owned("! ");
            r.append(workspace);
            r.append(
                " does not exist yet \u{2014} skipping buildServer.json;\n  run `xcode-dap refresh` after the project is generated.",
            );
            r
        },
        Regen::Failed(e) => {
            let mut r = owned("! could not generate buildServer.json (non-fatal): ");
            r.append(e.as_str());
            r.append("\n  run `xcode-dap refresh` once the project builds.");
            r
        },
    }
}

} // verus!
