//! `select-scheme` and `select-device`: Xcode-like scheme and destination
//! pickers. A numbered list is shown (the current selection marked), then lines
//! are read: text filters the list, a number selects, `q` quits.

use crate::commands::scenario::debug_json_str;
use crate::commands::scenario::jsonc_value;
use crate::commands::scenario::scenario_field;
use crate::engine::config::ConfigView;
use crate::engine::selection::overlaid_config;
use crate::engine::selection::Selection;
use crate::engine::selection::SelectionView;
use crate::engine::simctl::first_decided;
use crate::engine::simctl::first_two;
use crate::engine::simctl::flag_rank;
use crate::engine::simctl::numbers_in;
use crate::engine::simctl::parse_numbers;
use crate::engine::simctl::rank_flags;
use crate::engine::simctl::rank_versions;
use crate::engine::simctl::same_text;
use crate::engine::simctl::version_pair;
use crate::engine::simctl::version_rank;
use crate::engine::xcodebuild::as_opt_str;
use crate::json::members_view;
use crate::json::parse;
use crate::json::serde_parse;
use crate::json::views_of;
use crate::json::Json;
use crate::json::JsonView;
use crate::number::decimal;
use crate::number::decimal_u64;
use crate::number::hex_padded;
use crate::number::parse_unsigned;
use crate::number::parsed_unsigned;
use crate::number::push_decimal;
use crate::number::push_hex;
use crate::order::in_order;
use crate::order::lemma_text_rank;
use crate::order::lemma_text_rank_chain;
use crate::order::rank_texts;
use crate::order::sort_texts;
use crate::order::text_rank;
use crate::order::Rank;
use crate::text::ascii_lower;
use crate::text::chars_of;
use crate::text::contains;
use crate::text::copy_opt;
use crate::text::ends_with;
use crate::text::has_infix;
use crate::text::has_prefix;
use crate::text::has_suffix;
use crate::text::in_context;
use crate::text::join_with;
use crate::text::joined_with;
use crate::text::lemma_split_nonempty;
use crate::text::lines;
use crate::text::lowercase;
use crate::text::lowercase_text;
use crate::text::occurs_at;
use crate::text::opt_str_view;
use crate::text::opt_view;
use crate::text::owned;
use crate::text::push_range;
use crate::text::push_text;
use crate::text::replace_char;
use crate::text::same_ignoring_case;
use crate::text::split_char;
use crate::text::split_on;
use crate::text::starts_with;
use crate::text::str_eq;
use crate::text::string_of;
use crate::text::string_of_all;
use crate::text::text_result;
use crate::text::texts;
use crate::text::trim;
use crate::text::trimmed;
use crate::text::with_char;
use crate::text::with_context;
use crate::util::hash::fnv1a;
use crate::util::hash::fnv1a64;
use crate::util::paths::join;
use crate::util::paths::joined;
use vstd::prelude::*;
use vstd::seq_lib::to_multiset_build;
use vstd::string::StringSliceAdditionalSpecFns;
use vstd::utf8::is_ascii_chars;

verus! {

// ---------------------------------------------------------------------------
// arguments
// ---------------------------------------------------------------------------

/// Arguments of `select-scheme`.
#[derive(Debug)]
pub struct SelectSchemeArgs {
    /// Path to .xcworkspace / .xcodeproj (default: auto-detect in the project root)
    pub workspace: Option<String>,
    /// Set the scheme non-interactively (exact name, case-insensitive)
    pub set: Option<String>,
    /// Print the scheme list (one per line) and exit
    pub list: bool,
}

/// Arguments of `select-device`.
#[derive(Debug)]
pub struct SelectDeviceArgs {
    /// Set non-interactively: device name, UDID, or "booted"
    pub set: Option<String>,
    /// Print the device list (one per line) and exit
    pub list: bool,
}

// ---------------------------------------------------------------------------
// schemes
// ---------------------------------------------------------------------------

/// The texts among some JSON values.
pub open spec fn strings_among(items: Seq<JsonView>, n: int) -> Seq<Seq<char>>
    decreases n,
{
    if n <= 0 {
        Seq::empty()
    } else {
        match items[n - 1].as_str() {
            Some(s) => strings_among(items, n - 1).push(s),
            None => strings_among(items, n - 1),
        }
    }
}

/// The schemes of a listing, or what is wrong with it.
pub open spec fn listed_schemes(v: JsonView) -> Result<Seq<Seq<char>>, Seq<char>> {
    let container = match v.get("workspace"@) {
        Some(w) => Some(w),
        None => v.get("project"@),
    };
    let items = match container {
        Some(c) => match c.get("schemes"@) {
            Some(s) => s.as_array(),
            None => None,
        },
        None => None,
    };
    match items {
        Some(a) => {
            let schemes = strings_among(a, a.len() as int);
            if schemes.len() == 0 {
                Err("the scheme list is empty"@)
            } else {
                Ok(schemes)
            }
        },
        None => Err("no `schemes` array in output"@),
    }
}

/// The texts among some JSON values.
pub fn strings_in(items: &Vec<Json>) -> (r: Vec<String>)
    ensures
        texts(r@) == strings_among(views_of(items@), items@.len() as int),
{
    let ghost iv = views_of(items@);
    let mut r: Vec<String> = Vec::new();
    let mut i: usize = 0;
    assert(texts(r@) =~= strings_among(iv, 0));
    while i < items.len()
        invariant
            i <= items.len(),
            iv == views_of(items@),
            texts(r@) == strings_among(iv, i as int),
        decreases items.len() - i,
    {
        assert(iv[i as int] == items@[i as int]@);
        if let Some(s) = items[i].as_str() {
            push_text(&mut r, s);
        }
        i = i + 1;
    }
    r
}

/// The schemes of a listing, which is that of a workspace or of a project.
pub fn schemes_of(v: &Json) -> (r: Result<Vec<String>, String>)
    ensures
        match r {
            Ok(s) => listed_schemes(v@) == Ok::<Seq<Seq<char>>, Seq<char>>(texts(s@)),
            Err(e) => listed_schemes(v@) == Err::<Seq<Seq<char>>, Seq<char>>(e@),
        },
{
    let container = match v.get("workspace") {
        Some(w) => Some(w),
        None => v.get("project"),
    };
    if let Some(c) = container {
        if let Some(s) = c.get("schemes") {
            if let Some(a) = s.as_array() {
                let schemes = strings_in(a);
                assert(views_of(a@).len() == a@.len());
                assert(texts(schemes@).len() == schemes@.len());
                if schemes.len() == 0 {
                    return Err(owned("the scheme list is empty"));
                }
                return Ok(schemes);
            }
        }
    }
    Err(owned("no `schemes` array in output"))
}

/// `xcodebuild -list -json` output to scheme names.
pub fn parse_schemes(bytes: &[u8]) -> (r: Result<Vec<String>, String>)
    ensures
        match serde_parse(bytes@) {
            Ok(v) => match r {
                Ok(s) => listed_schemes(v) == Ok::<Seq<Seq<char>>, Seq<char>>(texts(s@)),
                Err(e) => listed_schemes(v) == Err::<Seq<Seq<char>>, Seq<char>>(e@),
            },
            Err(e) => r matches Err(m) && m@ == in_context("output is not JSON"@, e),
        },
{
    match parse(bytes) {
        Ok(v) => schemes_of(&v),
        Err(e) => Err(with_context("output is not JSON", e.as_str())),
    }
}

/// The file name of the cached scheme list of an (absolute) workspace.
pub fn schemes_cache_name(workspace: &str) -> (r: String)
    ensures
        r@ == "schemes-"@ + hex_padded(fnv1a(workspace.spec_bytes()) as nat, 16) + ".json"@,
{
    let mut digits: Vec<char> = Vec::new();
    push_hex(&mut digits, fnv1a64(workspace.as_bytes()), 16);
    assert(digits@ =~= hex_padded(fnv1a(workspace.spec_bytes()) as nat, 16));
    let mut r = owned("schemes-");
    r.append(string_of_all(digits.as_slice()).as_str());
    r.append(".json");
    r
}

/// Whether a cached scheme list may be used: it was made for the same workspace
/// age and is not empty.
pub fn schemes_cache_usable(cached_mtime: u64, mtime: u64, schemes: &Vec<String>) -> (r: bool)
    ensures
        r == (cached_mtime == mtime && schemes@.len() > 0),
{
    cached_mtime == mtime && schemes.len() > 0
}

/// The age of a workspace container for the scheme cache, in seconds: the newest
/// of its own and of its `contents.xcworkspacedata`, which is rewritten in place.
pub fn workspace_age(own: Option<u64>, contents: Option<u64>) -> (r: Option<u64>)
    ensures
        r == match own {
            Some(o) => match contents {
                Some(c) => if o < c {
                    Some(c)
                } else {
                    Some(o)
                },
                None => Some(o),
            },
            None => None,
        },
{
    match own {
        Some(o) => match contents {
            Some(c) => if o < c {
                Some(c)
            } else {
                Some(o)
            },
            None => Some(o),
        },
        None => None,
    }
}

/// The first scheme, from `i` on, that is `query` but for the case of letters.
pub open spec fn scheme_like(schemes: Seq<Seq<char>>, query: Seq<char>, i: int) -> Option<Seq<char>>
    decreases schemes.len() - i,
{
    if i < 0 || i >= schemes.len() {
        None
    } else if same_ignoring_case(schemes[i], query) {
        Some(schemes[i])
    } else {
        scheme_like(schemes, query, i + 1)
    }
}

/// The scheme that a name asks for: the exact one, else the first that differs
/// only in the case of letters.
pub open spec fn scheme_named(schemes: Seq<Seq<char>>, query: Seq<char>) -> Option<Seq<char>> {
    if schemes.contains(query) {
        Some(query)
    } else {
        scheme_like(schemes, query, 0)
    }
}

/// Whether a text holds another, whatever the case of their letters.
pub open spec fn holds(text: Seq<char>, query: Seq<char>) -> bool {
    has_infix(lowercase_text(text), lowercase_text(query))
}

/// Whether a text holds another somewhere, but for the case of ASCII letters.
pub open spec fn holds_ignoring_case(text: Seq<char>, query: Seq<char>) -> bool {
    exists|i: int|
        0 <= i <= text.len() - query.len() && same_ignoring_case(
            #[trigger] text.subrange(i, i + query.len()),
            query,
        )
}

/// The schemes among the first `n` that a mistyped name may mean, ten at most.
pub open spec fn near_schemes(schemes: Seq<Seq<char>>, query: Seq<char>, n: int) -> Seq<Seq<char>>
    decreases n,
{
    if n <= 0 {
        Seq::empty()
    } else {
        let front = near_schemes(schemes, query, n - 1);
        if front.len() < 10 && holds(schemes[n - 1], query) {
            front.push(schemes[n - 1])
        } else {
            front
        }
    }
}

/// The message for a scheme that is not there.
pub open spec fn no_scheme_text(
    schemes: Seq<Seq<char>>,
    query: Seq<char>,
    workspace: Seq<char>,
) -> Seq<char> {
    let near = near_schemes(schemes, query, schemes.len() as int);
    "no scheme named \""@ + query + "\" in "@ + workspace + " \u{2014} "@ + if near.len() == 0 {
        "run `xcode-dap select-scheme --list` to see all "@ + decimal(schemes.len()) + " schemes"@
    } else {
        "did you mean:\n  "@ + joined_with(near, "\n  "@)
    }
}

/// Whether a text holds another, whatever the case of their letters.
fn text_holds(text: &str, query: &str) -> (r: bool)
    ensures
        r == holds(text@, query@),
        is_ascii_chars(text@) && is_ascii_chars(query@) ==> r == holds_ignoring_case(text@, query@),
        query@.len() == 0 ==> r,
{
    let t = lowercase(text);
    let q = lowercase(query);
    proof {
        let n = query@.len() as int;
        if n == 0 {
            assert(q@ =~= Seq::<char>::empty());
            assert(t@.subrange(0, 0) =~= q@);
            assert(occurs_at(t@, q@, 0));
        }
        if is_ascii_chars(text@) && is_ascii_chars(query@) {
            assert forall|i: int| 0 <= i <= text@.len() - n implies occurs_at(t@, q@, i)
                == same_ignoring_case(#[trigger] text@.subrange(i, i + n), query@) by {
                let piece = text@.subrange(i, i + n);
                if occurs_at(t@, q@, i) {
                    assert forall|k: int| 0 <= k < n implies ascii_lower(#[trigger] piece[k])
                        == ascii_lower(query@[k]) by {
                        assert(t@.subrange(i, i + n)[k] == q@[k]);
                    }
                }
                if same_ignoring_case(piece, query@) {
                    let lowered = t@.subrange(i, i + n);
                    assert forall|k: int| 0 <= k < n implies #[trigger] lowered[k] == q@[k] by {
                        assert(ascii_lower(piece[k]) == ascii_lower(query@[k]));
                    }
                    assert(lowered =~= q@);
                }
            }
            if has_infix(t@, q@) {
                let i = choose|i: int| occurs_at(t@, q@, i);
                assert(same_ignoring_case(text@.subrange(i, i + n), query@));
            }
            if holds_ignoring_case(text@, query@) {
                let i = choose|i: int|
                    0 <= i <= text@.len() - n && same_ignoring_case(
                        #[trigger] text@.subrange(i, i + n),
                        query@,
                    );
                assert(occurs_at(t@, q@, i));
            }
        }
    }
    contains(chars_of(t.as_str()).as_slice(), q.as_str())
}

/// The scheme to set for a name, or the message that there is none.
pub fn choose_scheme(schemes: &Vec<String>, query: &str, workspace: &str) -> (r: Result<
    String,
    String,
>)
    ensures
        match scheme_named(texts(schemes@), query@) {
            Some(s) => r matches Ok(c) && c@ == s,
            None => r matches Err(e) && e@ == no_scheme_text(
                texts(schemes@),
                query@,
                workspace@,
            ),
        },
{
    let ghost sv = texts(schemes@);
    let mut i: usize = 0;
    while i < schemes.len()
        invariant
            i <= schemes.len(),
            sv == texts(schemes@),
            forall|k: int| 0 <= k < i ==> #[trigger] sv[k] != query@,
        decreases schemes.len() - i,
    {
        assert(sv[i as int] == schemes@[i as int]@);
        if str_eq(schemes[i].as_str(), query) {
            assert(sv.contains(query@));
            return Ok(owned(query));
        }
        i = i + 1;
    }
    assert(!sv.contains(query@));
    let mut j: usize = 0;
    while j < schemes.len()
        invariant
            j <= schemes.len(),
            sv == texts(schemes@),
            !sv.contains(query@),
            scheme_like(sv, query@, 0) == scheme_like(sv, query@, j as int),
        decreases schemes.len() - j,
    {
        assert(sv[j as int] == schemes@[j as int]@);
        if same_text(schemes[j].as_str(), query) {
            return Ok(owned(schemes[j].as_str()));
        }
        j = j + 1;
    }
    let mut near: Vec<String> = Vec::new();
    let mut k: usize = 0;
    assert(texts(near@) =~= near_schemes(sv, query@, 0));
    while k < schemes.len()
        invariant
            k <= schemes.len(),
            sv == texts(schemes@),
            texts(near@) == near_schemes(sv, query@, k as int),
        decreases schemes.len() - k,
    {
        assert(sv[k as int] == schemes@[k as int]@);
        assert(texts(near@).len() == near@.len());
        if near.len() < 10 && text_holds(schemes[k].as_str(), query) {
            push_text(&mut near, schemes[k].as_str());
        }
        k = k + 1;
    }
    assert(texts(near@).len() == near@.len());
    let mut m = owned("no scheme named \"");
    m.append(query);
    m.append("\" in ");
    m.append(workspace);
    m.append(" \u{2014} ");
    let mut hint = String::new();
    if near.len() == 0 {
        hint.append("run `xcode-dap select-scheme --list` to see all ");
        hint.append(decimal_u64(schemes.len() as u64).as_str());
        hint.append(" schemes");
        assert(hint@ =~= "run `xcode-dap select-scheme --list` to see all "@ + decimal(sv.len())
            + " schemes"@);
    } else {
        hint.append("did you mean:\n  ");
        hint.append(join_with(&near, "\n  ").as_str());
        assert(hint@ =~= "did you mean:\n  "@ + joined_with(texts(near@), "\n  "@));
    }
    m.append(hint.as_str());
    Err(m)
}

// ---------------------------------------------------------------------------
// workspaces
// ---------------------------------------------------------------------------

/// The names among the first `n` that are workspaces, or (without those)
/// projects.
pub open spec fn containers(names: Seq<Seq<char>>, workspaces: bool, n: int) -> Seq<Seq<char>>
    decreases n,
{
    if n <= 0 {
        Seq::empty()
    } else {
        let front = containers(names, workspaces, n - 1);
        let name = names[n - 1];
        if if workspaces {
            has_suffix(name, ".xcworkspace"@)
        } else {
            !has_suffix(name, ".xcworkspace"@) && has_suffix(name, ".xcodeproj"@)
        } {
            front.push(name)
        } else {
            front
        }
    }
}

/// Whether texts are some texts in order.
pub open spec fn is_sorted_of(sorted: Seq<Seq<char>>, of: Seq<Seq<char>>) -> bool {
    in_order(sorted) && sorted.to_multiset() == of.to_multiset()
}

/// The message for several containers of one kind.
pub open spec fn ambiguous_text(
    kind: Seq<char>,
    project: Seq<char>,
    sorted: Seq<Seq<char>>,
) -> Seq<char> {
    "multiple "@ + kind + " files found in "@ + project + " ("@ + joined_with(sorted, ", "@)
        + ") \u{2014} pass --workspace"@
}

/// The message for a directory without any container.
pub open spec fn no_workspace_text(project: Seq<char>) -> Seq<char> {
    "no .xcworkspace/.xcodeproj found in "@ + project
        + " \u{2014} generate the project first (e.g. `make project CI=true`) or pass --workspace"@
}

/// Whether a result is the choice of a container out of the names in a
/// directory: the one workspace; without any, the one project.
pub open spec fn is_workspace_choice(
    project: Seq<char>,
    names: Seq<Seq<char>>,
    r: Result<Seq<char>, Seq<char>>,
) -> bool {
    let ws = containers(names, true, names.len() as int);
    let ps = containers(names, false, names.len() as int);
    if ws.len() == 1 {
        r == Ok::<Seq<char>, Seq<char>>(joined(project, ws[0]))
    } else if ws.len() == 0 && ps.len() == 1 {
        r == Ok::<Seq<char>, Seq<char>>(joined(project, ps[0]))
    } else if ws.len() == 0 && ps.len() == 0 {
        r == Err::<Seq<char>, Seq<char>>(no_workspace_text(project))
    } else if ws.len() == 0 {
        exists|s: Seq<Seq<char>>| #[trigger]
            is_sorted_of(s, ps) && r == Err::<Seq<char>, Seq<char>>(
                ambiguous_text(".xcodeproj"@, project, s),
            )
    } else {
        exists|s: Seq<Seq<char>>| #[trigger]
            is_sorted_of(s, ws) && r == Err::<Seq<char>, Seq<char>>(
                ambiguous_text(".xcworkspace"@, project, s),
            )
    }
}

/// The names that are workspaces, or (without those) projects.
pub fn pick_containers(names: &Vec<String>, workspaces: bool) -> (r: Vec<String>)
    ensures
        texts(r@) == containers(texts(names@), workspaces, names@.len() as int),
{
    let ghost nv = texts(names@);
    let mut r: Vec<String> = Vec::new();
    let mut i: usize = 0;
    assert(texts(r@) =~= containers(nv, workspaces, 0));
    while i < names.len()
        invariant
            i <= names.len(),
            nv == texts(names@),
            texts(r@) == containers(nv, workspaces, i as int),
        decreases names.len() - i,
    {
        assert(nv[i as int] == names@[i as int]@);
        let cs = chars_of(names[i].as_str());
        let is_ws = ends_with(cs.as_slice(), ".xcworkspace");
        let wanted = if workspaces {
            is_ws
        } else {
            !is_ws && ends_with(cs.as_slice(), ".xcodeproj")
        };
        if wanted {
            push_text(&mut r, names[i].as_str());
        }
        i = i + 1;
    }
    r
}

/// The message for several containers of one kind.
fn ambiguous(kind: &str, project: &str, names: Vec<String>) -> (r: String)
    ensures
        exists|s: Seq<Seq<char>>| #[trigger]
            is_sorted_of(s, texts(names@)) && r@ == ambiguous_text(kind@, project@, s),
{
    let sorted = sort_texts(names);
    let mut m = owned("multiple ");
    m.append(kind);
    m.append(" files found in ");
    m.append(project);
    m.append(" (");
    m.append(join_with(&sorted, ", ").as_str());
    m.append(") \u{2014} pass --workspace");
    assert(is_sorted_of(texts(sorted@), texts(names@)));
    m
}

/// The single top-level `*.xcworkspace` (preferred) or `*.xcodeproj` among the
/// names in a project directory.
pub fn find_workspace(project: &str, names: &Vec<String>) -> (r: Result<String, String>)
    ensures
        is_workspace_choice(project@, texts(names@), text_result(r)),
{
    let ws = pick_containers(names, true);
    let ps = pick_containers(names, false);
    assert(texts(ws@).len() == ws@.len());
    assert(texts(ps@).len() == ps@.len());
    if ws.len() == 1 {
        assert(texts(ws@)[0] == ws@[0]@);
        return Ok(join(project, ws[0].as_str()));
    }
    if ws.len() == 0 && ps.len() == 1 {
        assert(texts(ps@)[0] == ps@[0]@);
        return Ok(join(project, ps[0].as_str()));
    }
    if ws.len() == 0 && ps.len() == 0 {
        let mut m = owned("no .xcworkspace/.xcodeproj found in ");
        m.append(project);
        m.append(
            " \u{2014} generate the project first (e.g. `make project CI=true`) or pass --workspace",
        );
        return Err(m);
    }
    if ws.len() == 0 {
        Err(ambiguous(".xcodeproj", project, ps))
    } else {
        Err(ambiguous(".xcworkspace", project, ws))
    }
}

// ---------------------------------------------------------------------------
// current selection
// ---------------------------------------------------------------------------

/// The scheme in force: the selected one, else that of `.zed/debug.json`.
pub open spec fn scheme_in_force(
    sel: SelectionView,
    debug_json: Option<Seq<char>>,
) -> Option<Seq<char>> {
    match sel.scheme {
        Some(s) => Some(s),
        None => debug_field(debug_json, "scheme"@),
    }
}

/// The scheme in force: the selected one, else that of `.zed/debug.json`.
pub fn current_scheme(sel: &Selection, debug_json: Option<&str>) -> (r: Option<String>)
    ensures
        opt_view(r) == scheme_in_force(sel@, opt_str_view(debug_json)),
{
    match &sel.scheme {
        Some(s) => Some(owned(s.as_str())),
        None => debug_json_str(debug_json, "scheme"),
    }
}

/// The field of `.zed/debug.json` that stands in for a selection.
pub open spec fn debug_field(debug_json: Option<Seq<char>>, key: Seq<char>) -> Option<Seq<char>> {
    match debug_json {
        Some(t) => match jsonc_value(t) {
            Some(v) => scenario_field(v, key),
            None => None,
        },
        None => None,
    }
}

/// The destination in force: the selected one, else that of `.zed/debug.json`.
pub open spec fn destination_in_force(
    sel: SelectionView,
    debug_json: Option<Seq<char>>,
) -> Option<(Seq<char>, Option<Seq<char>>)> {
    match sel.device {
        Some(d) => Some((d, sel.os)),
        None => match debug_field(debug_json, "device"@) {
            Some(d) => Some((d, debug_field(debug_json, "os"@))),
            None => None,
        },
    }
}

/// The device and the OS in force: the selected ones, else those of
/// `.zed/debug.json`.
pub fn current_destination(sel: &Selection, debug_json: Option<&str>) -> (r: Option<
    (String, Option<String>),
>)
    ensures
        destination_view(r) == destination_in_force(sel@, opt_str_view(debug_json)),
{
    match &sel.device {
        Some(d) => Some((owned(d.as_str()), copy_opt(&sel.os))),
        None => match debug_json_str(debug_json, "device") {
            Some(d) => Some((d, debug_json_str(debug_json, "os"))),
            None => None,
        },
    }
}

// ---------------------------------------------------------------------------
// devices
// ---------------------------------------------------------------------------

/// An available iPhone or iPad simulator.
#[derive(Debug, PartialEq, Eq)]
pub struct SimDevice {
    pub name: String,
    pub udid: String,
    /// "26.3"
    pub os: String,
    pub version: (u32, u32),
    pub booted: bool,
}

/// The mathematical value of a [`SimDevice`].
pub struct SimView {
    pub name: Seq<char>,
    pub udid: Seq<char>,
    pub os: Seq<char>,
    pub version: (u32, u32),
    pub booted: bool,
}

impl View for SimDevice {
    type V = SimView;

    open spec fn view(&self) -> SimView {
        SimView {
            name: self.name@,
            udid: self.udid@,
            os: self.os@,
            version: self.version,
            booted: self.booted,
        }
    }
}

impl SimDevice {
    /// A copy of the device.
    pub fn copy(&self) -> (r: SimDevice)
        ensures
            r@ == self@,
    {
        SimDevice {
            name: owned(self.name.as_str()),
            udid: owned(self.udid.as_str()),
            os: owned(self.os.as_str()),
            version: self.version,
            booted: self.booted,
        }
    }
}

/// The mathematical values of some devices.
pub open spec fn sim_views(ds: Seq<SimDevice>) -> Seq<SimView> {
    Seq::new(ds.len(), |i: int| ds[i]@)
}

/// The version text of an iOS runtime: `…SimRuntime.iOS-26-3` to `26.3`.
pub open spec fn ios_version(runtime: Seq<char>) -> Option<Seq<char>> {
    let tail = split_on(runtime, '.').last();
    if has_prefix(tail, "iOS-"@) {
        Some(with_char(tail.skip(4), '-', '.'))
    } else {
        None
    }
}

/// Whether a device is an iPad.
pub open spec fn is_ipad(name: Seq<char>) -> bool {
    has_prefix(name, "iPad"@)
}

/// The simulator that a device entry describes, if it is an available iPhone or
/// iPad.
pub open spec fn sim_of(d: JsonView, os: Seq<char>) -> Option<SimView> {
    let available = match d.get("isAvailable"@) {
        Some(a) => a.as_bool() == Some(true),
        None => false,
    };
    match (d.str_at("udid"@), d.str_at("name"@), d.str_at("state"@)) {
        (Some(udid), Some(name), Some(state)) => if available && (has_prefix(name, "iPhone"@)
            || is_ipad(name)) {
            Some(
                SimView {
                    name,
                    udid,
                    os,
                    version: first_two(numbers_in(split_on(os, '.'))),
                    booted: state == "Booted"@,
                },
            )
        } else {
            None
        },
        _ => None,
    }
}

/// The simulators among the first `n` entries of a runtime.
pub open spec fn sims_of(entries: Seq<JsonView>, os: Seq<char>, n: int) -> Seq<SimView>
    decreases n,
{
    if n <= 0 {
        Seq::empty()
    } else {
        match sim_of(entries[n - 1], os) {
            Some(d) => sims_of(entries, os, n - 1).push(d),
            None => sims_of(entries, os, n - 1),
        }
    }
}

/// The simulators among the first `n` runtimes.
pub open spec fn sims_upto(runtimes: Seq<(Seq<char>, JsonView)>, n: int) -> Seq<SimView>
    decreases n,
{
    if n <= 0 {
        Seq::empty()
    } else {
        let front = sims_upto(runtimes, n - 1);
        match (ios_version(runtimes[n - 1].0), runtimes[n - 1].1.as_array()) {
            (Some(os), Some(entries)) => front + sims_of(entries, os, entries.len() as int),
            _ => front,
        }
    }
}

/// The order of two simulators: booted first, then the newest OS, then iPhones
/// before iPads, then by name and UDID.
pub open spec fn sim_rank(a: SimView, b: SimView) -> Rank {
    flag_rank(a.booted, b.booted).or(
        version_rank(a.version, b.version).or(
            flag_rank(!is_ipad(a.name), !is_ipad(b.name)).or(
                text_rank(a.name, b.name).or(text_rank(a.udid, b.udid)),
            ),
        ),
    )
}

/// A list of simulators with one more, behind all that do not come after it.
pub open spec fn put_sim(sorted: Seq<SimView>, d: SimView) -> Seq<SimView>
    decreases sorted.len(),
{
    if sorted.len() == 0 || !(sim_rank(sorted.last(), d) is After) {
        sorted.push(d)
    } else {
        put_sim(sorted.drop_last(), d).push(sorted.last())
    }
}

/// Simulators in order; those of the same rank keep theirs.
pub open spec fn ranked_sims(ds: Seq<SimView>) -> Seq<SimView>
    decreases ds.len(),
{
    if ds.len() == 0 {
        Seq::empty()
    } else {
        put_sim(ranked_sims(ds.drop_last()), ds.last())
    }
}

/// The simulators that a listing describes, in order.
pub open spec fn listed_sims(v: JsonView) -> Seq<SimView> {
    match v.get("devices"@) {
        Some(d) => match d.as_object() {
            Some(runtimes) => ranked_sims(sims_upto(runtimes, runtimes.len() as int)),
            None => Seq::empty(),
        },
        None => Seq::empty(),
    }
}

/// Whether no simulator comes after one behind it.
pub open spec fn in_sim_order(ds: Seq<SimView>) -> bool {
    forall|i: int, j: int|
        0 <= i < j < ds.len() ==> !(sim_rank(#[trigger] ds[i], #[trigger] ds[j]) is After)
}

/// The rank of simulators turns round with its arguments.
proof fn lemma_sim_rank_flips(a: SimView, b: SimView)
    ensures
        sim_rank(b, a) == sim_rank(a, b).flipped(),
{
    lemma_text_rank(a.name, b.name);
    lemma_text_rank(a.udid, b.udid);
}

/// Simulators of which each does not come after the next.
proof fn lemma_sim_rank_chain(a: SimView, b: SimView, c: SimView)
    requires
        !(sim_rank(a, b) is After),
        !(sim_rank(b, c) is After),
    ensures
        !(sim_rank(a, c) is After),
{
    if flag_rank(a.booted, b.booted) is Same && flag_rank(b.booted, c.booted) is Same
        && version_rank(a.version, b.version) is Same && version_rank(b.version, c.version) is Same
        && flag_rank(!is_ipad(a.name), !is_ipad(b.name)) is Same && flag_rank(
        !is_ipad(b.name),
        !is_ipad(c.name),
    ) is Same {
        lemma_text_rank_chain(a.name, b.name, c.name);
        lemma_text_rank(a.name, b.name);
        lemma_text_rank(b.name, c.name);
        lemma_text_rank(a.name, c.name);
        if text_rank(a.name, c.name) is Same {
            lemma_text_rank_chain(a.udid, b.udid, c.udid);
        }
    }
}

/// A simulator put into its place keeps the order and the others.
proof fn lemma_put_sim(sorted: Seq<SimView>, d: SimView)
    requires
        in_sim_order(sorted),
    ensures
        in_sim_order(put_sim(sorted, d)),
        put_sim(sorted, d).to_multiset() == sorted.to_multiset().insert(d),
        forall|i: int|
            0 <= i < put_sim(sorted, d).len() ==> #[trigger] put_sim(sorted, d)[i] == d
                || sorted.contains(put_sim(sorted, d)[i]),
    decreases sorted.len(),
{
    if sorted.len() == 0 || !(sim_rank(sorted.last(), d) is After) {
        let t = sorted.push(d);
        to_multiset_build(sorted, d);
        assert forall|i: int, j: int| 0 <= i < j < t.len() implies !(sim_rank(
            #[trigger] t[i],
            #[trigger] t[j],
        ) is After) by {
            if j == sorted.len() {
                if i < sorted.len() - 1 {
                    assert(!(sim_rank(sorted[i], sorted[sorted.len() - 1]) is After));
                    lemma_sim_rank_chain(sorted[i], sorted.last(), d);
                }
            }
        }
        assert forall|i: int| 0 <= i < t.len() implies #[trigger] t[i] == d || sorted.contains(
            t[i],
        ) by {
            if i < sorted.len() {
                assert(sorted[i] == t[i]);
            }
        }
    } else {
        let front = sorted.drop_last();
        let last = sorted.last();
        lemma_put_sim(front, d);
        let put = put_sim(front, d);
        let t = put.push(last);
        to_multiset_build(put, last);
        to_multiset_build(front, last);
        assert(front.push(last) =~= sorted);
        assert(t.to_multiset() =~= sorted.to_multiset().insert(d));
        lemma_sim_rank_flips(last, d);
        assert forall|i: int, j: int| 0 <= i < j < t.len() implies !(sim_rank(
            #[trigger] t[i],
            #[trigger] t[j],
        ) is After) by {
            if j == put.len() {
                assert(t[i] == put[i]);
                if put[i] != d {
                    let k = front.index_of(put[i]);
                    assert(sorted[k] == put[i]);
                    assert(!(sim_rank(sorted[k], sorted[sorted.len() - 1]) is After));
                }
            } else {
                assert(t[i] == put[i] && t[j] == put[j]);
            }
        }
        assert forall|i: int| 0 <= i < t.len() implies #[trigger] t[i] == d || sorted.contains(
            t[i],
        ) by {
            if i < put.len() {
                assert(t[i] == put[i]);
                if put[i] != d {
                    let k = front.index_of(put[i]);
                    assert(sorted[k] == put[i]);
                }
            } else {
                assert(sorted[sorted.len() - 1] == t[i]);
            }
        }
    }
}

/// The ranked simulators are the same simulators, in order.
pub proof fn lemma_ranked_sims(ds: Seq<SimView>)
    ensures
        in_sim_order(ranked_sims(ds)),
        ranked_sims(ds).to_multiset() == ds.to_multiset(),
    decreases ds.len(),
{
    if ds.len() > 0 {
        lemma_ranked_sims(ds.drop_last());
        lemma_put_sim(ranked_sims(ds.drop_last()), ds.last());
        to_multiset_build(ds.drop_last(), ds.last());
        assert(ds.drop_last().push(ds.last()) =~= ds);
    } else {
        assert(ranked_sims(ds) =~= ds);
    }
}

/// The version text of an iOS runtime.
pub fn runtime_os(runtime: &str) -> (r: Option<String>)
    ensures
        opt_view(r) == ios_version(runtime@),
{
    let parts = split_char(runtime, '.');
    let ghost pv = texts(parts@);
    proof {
        lemma_split_nonempty(runtime@, '.', 0);
    }
    assert(pv.len() == parts@.len());
    assert(pv.last() == parts@[parts@.len() - 1]@);
    let tail = chars_of(parts[parts.len() - 1].as_str());
    if starts_with(tail.as_slice(), "iOS-") {
        proof {
            reveal_strlit("iOS-");
        }
        let rest = string_of(tail.as_slice(), 4, tail.len());
        assert(rest@ =~= tail@.skip(4));
        Some(replace_char(rest.as_str(), '-', '.'))
    } else {
        None
    }
}

/// The simulator that a device entry describes.
fn read_sim(d: &Json, os: &str, version: (u32, u32)) -> (r: Option<SimDevice>)
    requires
        version == first_two(numbers_in(split_on(os@, '.'))),
    ensures
        match r {
            Some(s) => sim_of(d@, os@) == Some(s@),
            None => sim_of(d@, os@) is None,
        },
{
    let available = match d.get("isAvailable") {
        Some(a) => match a.as_bool() {
            Some(b) => b,
            None => false,
        },
        None => false,
    };
    if !available {
        return None;
    }
    if let Some(udid) = d.str_at("udid") {
        if let Some(name) = d.str_at("name") {
            if let Some(state) = d.str_at("state") {
                let cs = chars_of(name);
                if starts_with(cs.as_slice(), "iPhone") || starts_with(cs.as_slice(), "iPad") {
                    return Some(
                        SimDevice {
                            name: owned(name),
                            udid: owned(udid),
                            os: owned(os),
                            version,
                            booted: str_eq(state, "Booted"),
                        },
                    );
                }
            }
        }
    }
    None
}

/// Append the simulators of a runtime.
fn read_sims(out: &mut Vec<SimDevice>, entries: &Vec<Json>, os: &str)
    ensures
        sim_views(final(out)@) == sim_views(old(out)@) + sims_of(
            views_of(entries@),
            os@,
            entries@.len() as int,
        ),
{
    let ghost ev = views_of(entries@);
    let ghost before = sim_views(out@);
    let parts = split_char(os, '.');
    let numbers = parse_numbers(&parts);
    let version = version_pair(&numbers);
    let mut i: usize = 0;
    assert(sim_views(out@) =~= before + sims_of(ev, os@, 0));
    while i < entries.len()
        invariant
            i <= entries.len(),
            ev == views_of(entries@),
            before == sim_views(old(out)@),
            version == first_two(numbers_in(split_on(os@, '.'))),
            sim_views(out@) == before + sims_of(ev, os@, i as int),
        decreases entries.len() - i,
    {
        assert(ev[i as int] == entries@[i as int]@);
        let ghost now = sim_views(out@);
        if let Some(d) = read_sim(&entries[i], os, version) {
            let ghost dv = d@;
            out.push(d);
            assert(sim_views(out@) =~= now.push(dv));
            assert(now.push(dv) =~= before + sims_of(ev, os@, i as int).push(dv));
        }
        i = i + 1;
    }
}

/// The order of two simulators.
fn rank_sims(a: &SimDevice, b: &SimDevice) -> (r: Rank)
    ensures
        r == sim_rank(a@, b@),
{
    let pad_a = starts_with(chars_of(a.name.as_str()).as_slice(), "iPad");
    let pad_b = starts_with(chars_of(b.name.as_str()).as_slice(), "iPad");
    first_decided(
        rank_flags(a.booted, b.booted),
        first_decided(
            rank_versions(a.version, b.version),
            first_decided(
                rank_flags(!pad_a, !pad_b),
                first_decided(
                    rank_texts(a.name.as_str(), b.name.as_str()),
                    rank_texts(a.udid.as_str(), b.udid.as_str()),
                ),
            ),
        ),
    )
}

/// Put a simulator into its place.
fn insert_sim(sorted: &mut Vec<SimDevice>, d: SimDevice)
    ensures
        sim_views(final(sorted)@) == put_sim(sim_views(old(sorted)@), d@),
    decreases old(sorted)@.len(),
{
    let ghost before = sim_views(sorted@);
    let n: usize = sorted.len();
    proof {
        if n > 0 {
            assert(before.last() == sorted@[n - 1]@);
        }
    }
    if n == 0 || rank_sims(&sorted[n - 1], &d) != Rank::After {
        let ghost dv = d@;
        sorted.push(d);
        assert(sim_views(sorted@) =~= before.push(dv));
    } else {
        match sorted.pop() {
            Some(last) => {
                let ghost lv = last@;
                assert(sim_views(sorted@) =~= before.drop_last());
                insert_sim(sorted, d);
                let ghost put = sim_views(sorted@);
                sorted.push(last);
                assert(sim_views(sorted@) =~= put.push(lv));
            },
            None => {},
        }
    }
}

/// Available iPhones and iPads of a `simctl list devices --json` document,
/// booted first, then the newest OS, then iPhones before iPads, then by name.
pub fn parse_devices(v: &Json) -> (r: Vec<SimDevice>)
    ensures
        sim_views(r@) == listed_sims(v@),
{
    let mut sorted: Vec<SimDevice> = Vec::new();
    assert(sim_views(sorted@) =~= Seq::<SimView>::empty());
    let devices = match v.get("devices") {
        Some(d) => d,
        None => return sorted,
    };
    let runtimes = match devices.as_object() {
        Some(ms) => ms,
        None => return sorted,
    };
    let ghost rv = members_view(runtimes@);
    let mut found: Vec<SimDevice> = Vec::new();
    let mut i: usize = 0;
    assert(sim_views(found@) =~= sims_upto(rv, 0));
    while i < runtimes.len()
        invariant
            i <= runtimes.len(),
            rv == members_view(runtimes@),
            sim_views(found@) == sims_upto(rv, i as int),
        decreases runtimes.len() - i,
    {
        assert(rv[i as int] == (runtimes@[i as int].key@, runtimes@[i as int].value@));
        if let Some(os) = runtime_os(runtimes[i].key.as_str()) {
            if let Some(entries) = runtimes[i].value.as_array() {
                assert(views_of(entries@).len() == entries@.len());
                read_sims(&mut found, entries, os.as_str());
            }
        }
        i = i + 1;
    }
    let ghost fv = sim_views(found@);
    let mut j: usize = 0;
    assert(sim_views(sorted@) =~= ranked_sims(fv.take(0)));
    while j < found.len()
        invariant
            j <= found.len(),
            fv == sim_views(found@),
            sim_views(sorted@) == ranked_sims(fv.take(j as int)),
        decreases found.len() - j,
    {
        assert(fv[j as int] == found@[j as int]@);
        assert(fv.take(j + 1).drop_last() =~= fv.take(j as int));
        insert_sim(&mut sorted, found[j].copy());
        j = j + 1;
    }
    assert(fv.take(fv.len() as int) =~= fv);
    sorted
}

/// The simulators of `simctl list devices --json` output.
pub fn list_devices(bytes: &[u8]) -> (r: Result<Vec<SimDevice>, String>)
    ensures
        match serde_parse(bytes@) {
            Ok(v) => r matches Ok(ds) && sim_views(ds@) == listed_sims(v),
            Err(e) => r matches Err(m) && m@ == in_context("simctl device list is not JSON"@, e),
        },
{
    match parse(bytes) {
        Ok(v) => Ok(parse_devices(&v)),
        Err(e) => Err(with_context("simctl device list is not JSON", e.as_str())),
    }
}

/// Whether the device at `i` is the first of some kind.
pub open spec fn is_first_sim(ds: Seq<SimView>, p: spec_fn(SimView) -> bool, i: int) -> bool {
    &&& 0 <= i < ds.len()
    &&& p(ds[i])
    &&& forall|k: int| 0 <= k < i ==> !p(#[trigger] ds[k])
}

/// Whether no device is of some kind.
pub open spec fn no_sim(ds: Seq<SimView>, p: spec_fn(SimView) -> bool) -> bool {
    forall|k: int| 0 <= k < ds.len() ==> !p(#[trigger] ds[k])
}

/// Whether `i` is the device that a query asks for: by UDID, else (for the query
/// "booted") the first booted one, else by name.
pub open spec fn is_queried_sim(ds: Seq<SimView>, query: Seq<char>, i: Option<int>) -> bool {
    let by_udid = |d: SimView| same_ignoring_case(d.udid, query);
    let by_state = |d: SimView| same_ignoring_case(query, "booted"@) && d.booted;
    let by_name = |d: SimView| same_ignoring_case(d.name, query);
    match i {
        Some(i) => {
            ||| is_first_sim(ds, by_udid, i)
            ||| no_sim(ds, by_udid) && is_first_sim(ds, by_state, i)
            ||| no_sim(ds, by_udid) && no_sim(ds, by_state) && is_first_sim(ds, by_name, i)
        },
        None => no_sim(ds, by_udid) && no_sim(ds, by_state) && no_sim(ds, by_name),
    }
}

/// The device that a query asks for: its UDID, its exact name (the first in
/// order wins), or the special query "booted".
pub fn find_device(devices: &Vec<SimDevice>, query: &str) -> (r: Option<usize>)
    ensures
        is_queried_sim(
            sim_views(devices@),
            query@,
            match r {
                Some(i) => Some(i as int),
                None => None,
            },
        ),
{
    let ghost dv = sim_views(devices@);
    let ghost by_udid = |d: SimView| same_ignoring_case(d.udid, query@);
    let ghost by_state = |d: SimView| same_ignoring_case(query@, "booted"@) && d.booted;
    let ghost by_name = |d: SimView| same_ignoring_case(d.name, query@);
    let mut i: usize = 0;
    while i < devices.len()
        invariant
            i <= devices.len(),
            dv == sim_views(devices@),
            by_udid == (|d: SimView| same_ignoring_case(d.udid, query@)),
            forall|k: int| 0 <= k < i ==> !by_udid(#[trigger] dv[k]),
        decreases devices.len() - i,
    {
        assert(dv[i as int] == devices@[i as int]@);
        if same_text(devices[i].udid.as_str(), query) {
            assert(is_first_sim(dv, by_udid, i as int));
            return Some(i);
        }
        i = i + 1;
    }
    assert(no_sim(dv, by_udid));
    let any_booted = same_text(query, "booted");
    i = 0;
    while i < devices.len()
        invariant
            i <= devices.len(),
            dv == sim_views(devices@),
            any_booted == same_ignoring_case(query@, "booted"@),
            by_udid == (|d: SimView| same_ignoring_case(d.udid, query@)),
            by_state == (|d: SimView| same_ignoring_case(query@, "booted"@) && d.booted),
            no_sim(dv, by_udid),
            forall|k: int| 0 <= k < i ==> !by_state(#[trigger] dv[k]),
        decreases devices.len() - i,
    {
        assert(dv[i as int] == devices@[i as int]@);
        if any_booted && devices[i].booted {
            assert(is_first_sim(dv, by_state, i as int));
            return Some(i);
        }
        i = i + 1;
    }
    assert(no_sim(dv, by_state));
    i = 0;
    while i < devices.len()
        invariant
            i <= devices.len(),
            dv == sim_views(devices@),
            by_udid == (|d: SimView| same_ignoring_case(d.udid, query@)),
            by_state == (|d: SimView| same_ignoring_case(query@, "booted"@) && d.booted),
            by_name == (|d: SimView| same_ignoring_case(d.name, query@)),
            no_sim(dv, by_udid),
            no_sim(dv, by_state),
            forall|k: int| 0 <= k < i ==> !by_name(#[trigger] dv[k]),
        decreases devices.len() - i,
    {
        assert(dv[i as int] == devices@[i as int]@);
        if same_text(devices[i].name.as_str(), query) {
            assert(is_first_sim(dv, by_name, i as int));
            return Some(i);
        }
        i = i + 1;
    }
    None
}

/// Whether a device matches a current device and OS.
pub open spec fn sim_matches(d: SimView, device: Seq<char>, os: Option<Seq<char>>) -> bool {
    (same_ignoring_case(device, d.name) || same_ignoring_case(device, d.udid)) && match os {
        Some(o) => o == d.os,
        None => true,
    }
}

/// Whether a device matches a current device and OS.
pub fn device_matches(d: &SimDevice, device: &str, os: Option<&str>) -> (r: bool)
    ensures
        r == sim_matches(d@, device@, opt_str_view(os)),
{
    (same_text(device, d.name.as_str()) || same_text(device, d.udid.as_str())) && match os {
        Some(o) => str_eq(o, d.os.as_str()),
        None => true,
    }
}

/// A device as `--list` shows it.
pub fn device_list_line(d: &SimDevice) -> (r: String)
    ensures
        r@ == d@.name + " \u{2014} iOS "@ + d@.os + " \u{2014} "@ + d@.udid + if d@.booted {
            " (booted)"@
        } else {
            ""@
        },
{
    let mut r = owned(d.name.as_str());
    r.append(" \u{2014} iOS ");
    r.append(d.os.as_str());
    r.append(" \u{2014} ");
    r.append(d.udid.as_str());
    if d.booted {
        r.append(" (booted)");
    } else {
        proof {
            reveal_strlit("");
            assert(r@ + ""@ =~= r@);
        }
    }
    r
}

/// Whether two of the devices share the name and the OS of the one at `i`.
pub open spec fn is_ambiguous(ds: Seq<SimView>, i: int) -> bool {
    exists|k: int|
        0 <= k < ds.len() && k != i && (#[trigger] ds[k]).name == ds[i].name && ds[k].os
            == ds[i].os
}

/// A selection with a chosen device: its name and OS, or its UDID where name and OS
/// are shared.
pub open spec fn with_device(sel: SelectionView, ds: Seq<SimView>, chosen: int) -> SelectionView {
    SelectionView {
        device: Some(
            if is_ambiguous(ds, chosen) {
                ds[chosen].udid
            } else {
                ds[chosen].name
            },
        ),
        os: Some(ds[chosen].os),
        ..sel
    }
}

/// A selection with a chosen scheme.
pub open spec fn with_scheme(sel: SelectionView, scheme: Seq<char>) -> SelectionView {
    SelectionView { scheme: Some(scheme), ..sel }
}

/// A choice overrides the scenario of the next run, and nothing but what was chosen.
pub proof fn lemma_choice_runs(
    cfg: ConfigView,
    sel: SelectionView,
    scheme: Seq<char>,
    ds: Seq<SimView>,
    chosen: int,
)
    requires
        0 <= chosen < ds.len(),
    ensures
        overlaid_config(cfg, with_scheme(sel, scheme)) == (ConfigView {
            scheme,
            ..overlaid_config(cfg, sel)
        }),
        overlaid_config(cfg, with_device(sel, ds, chosen)) == (ConfigView {
            device: with_device(sel, ds, chosen).device,
            os: Some(ds[chosen].os),
            ..overlaid_config(cfg, sel)
        }),
{
}

/// The device that was chosen is the one that the list shows as current, and of the
/// devices that go by its exact name and OS it is the only one where it was saved by
/// name.
pub proof fn lemma_choice_is_current(sel: SelectionView, ds: Seq<SimView>, chosen: int, k: int)
    requires
        0 <= chosen < ds.len(),
        0 <= k < ds.len(),
    ensures
        ({
            let saved = with_device(sel, ds, chosen);
            &&& sim_matches(ds[chosen], saved.device->0, saved.os)
            &&& !is_ambiguous(ds, chosen) && ds[k].name == saved.device->0 && Some(ds[k].os)
                == saved.os ==> k == chosen
        }),
{
    assert(same_ignoring_case(ds[chosen].name, ds[chosen].name));
    assert(same_ignoring_case(ds[chosen].udid, ds[chosen].udid));
}

/// The selection with a chosen device: its name and OS (readable, and they
/// survive re-creation of the device), or its UDID where name and OS are shared.
pub fn select_device(sel: &Selection, devices: &Vec<SimDevice>, chosen: usize) -> (r: Selection)
    requires
        chosen < devices@.len(),
    ensures
        r@ == with_device(sel@, sim_views(devices@), chosen as int),
{
    let ghost dv = sim_views(devices@);
    assert(dv[chosen as int] == devices@[chosen as int]@);
    let mut shared = false;
    let mut i: usize = 0;
    while i < devices.len()
        invariant
            i <= devices.len(),
            chosen < devices@.len(),
            dv == sim_views(devices@),
            dv[chosen as int] == devices@[chosen as int]@,
            shared == exists|k: int|
                0 <= k < i && k != chosen && (#[trigger] dv[k]).name == dv[chosen as int].name
                    && dv[k].os == dv[chosen as int].os,
        decreases devices.len() - i,
    {
        assert(dv[i as int] == devices@[i as int]@);
        if i != chosen && str_eq(devices[i].name.as_str(), devices[chosen].name.as_str()) && str_eq(
            devices[i].os.as_str(),
            devices[chosen].os.as_str(),
        ) {
            shared = true;
        }
        i = i + 1;
    }
    Selection {
        scheme: copy_opt(&sel.scheme),
        device: Some(
            if shared {
                owned(devices[chosen].udid.as_str())
            } else {
                owned(devices[chosen].name.as_str())
            },
        ),
        os: Some(owned(devices[chosen].os.as_str())),
    }
}

/// The selection with a chosen scheme.
pub fn select_scheme(sel: &Selection, scheme: &str) -> (r: Selection)
    ensures
        r@ == with_scheme(sel@, scheme@),
{
    Selection {
        scheme: Some(owned(scheme)),
        device: copy_opt(&sel.device),
        os: copy_opt(&sel.os),
    }
}

// ---------------------------------------------------------------------------
// the interactive picker
// ---------------------------------------------------------------------------

/// A row of the picker.
#[derive(Debug)]
pub struct Item {
    /// Display label; also the filter target.
    pub label: String,
    /// Prefix with "● " (booted simulator).
    pub marked: bool,
    /// Suffix with "  (current)".
    pub current: bool,
}

/// The mathematical value of an [`Item`].
pub struct ItemView {
    pub label: Seq<char>,
    pub marked: bool,
    pub current: bool,
}

impl View for Item {
    type V = ItemView;

    open spec fn view(&self) -> ItemView {
        ItemView { label: self.label@, marked: self.marked, current: self.current }
    }
}

/// The mathematical values of some rows.
pub open spec fn items_view(items: Seq<Item>) -> Seq<ItemView> {
    Seq::new(items.len(), |i: int| items[i]@)
}

/// The rows of a scheme picker.
pub fn scheme_items(schemes: &Vec<String>, current: Option<&str>) -> (r: Vec<Item>)
    ensures
        items_view(r@) == Seq::new(
            schemes@.len(),
            |i: int|
                ItemView {
                    label: schemes@[i]@,
                    marked: false,
                    current: opt_str_view(current) == Some(schemes@[i]@),
                },
        ),
{
    let mut r: Vec<Item> = Vec::new();
    let mut i: usize = 0;
    while i < schemes.len()
        invariant
            i <= schemes.len(),
            r@.len() == i,
            forall|k: int|
                0 <= k < i ==> (#[trigger] r@[k])@ == (ItemView {
                    label: schemes@[k]@,
                    marked: false,
                    current: opt_str_view(current) == Some(schemes@[k]@),
                }),
        decreases schemes.len() - i,
    {
        let is_current = match current {
            Some(c) => str_eq(c, schemes[i].as_str()),
            None => false,
        };
        r.push(Item { label: owned(schemes[i].as_str()), marked: false, current: is_current });
        i = i + 1;
    }
    r
}

/// A device as the picker shows it.
pub open spec fn sim_item(d: SimView, current: Option<(Seq<char>, Option<Seq<char>>)>) -> ItemView {
    ItemView {
        label: d.name + " \u{2014} iOS "@ + d.os,
        marked: d.booted,
        current: match current {
            Some((device, os)) => sim_matches(d, device, os),
            None => false,
        },
    }
}

/// The mathematical value of a device and an OS in force.
pub open spec fn destination_view(c: Option<(String, Option<String>)>) -> Option<
    (Seq<char>, Option<Seq<char>>),
> {
    match c {
        Some(c) => Some((c.0@, opt_view(c.1))),
        None => None,
    }
}

/// The rows of a device picker.
pub fn device_items(devices: &Vec<SimDevice>, current: &Option<(String, Option<String>)>) -> (r: Vec<
    Item,
>)
    ensures
        items_view(r@) == Seq::new(
            devices@.len(),
            |i: int|
                sim_item(devices@[i]@, destination_view(*current)),
        ),
{
    let ghost cv = destination_view(*current);
    let mut r: Vec<Item> = Vec::new();
    let mut i: usize = 0;
    while i < devices.len()
        invariant
            i <= devices.len(),
            cv == destination_view(*current),
            r@.len() == i,
            forall|k: int| 0 <= k < i ==> (#[trigger] r@[k])@ == sim_item(devices@[k]@, cv),
        decreases devices.len() - i,
    {
        let mut label = owned(devices[i].name.as_str());
        label.append(" \u{2014} iOS ");
        label.append(devices[i].os.as_str());
        let is_current = match current {
            Some(c) => device_matches(&devices[i], c.0.as_str(), as_opt_str(&c.1)),
            None => false,
        };
        r.push(Item { label, marked: devices[i].booted, current: is_current });
        i = i + 1;
    }
    r
}

/// What a typed line asks for.
#[derive(Debug, PartialEq, Eq)]
pub enum Input {
    /// 1-based row in the currently shown (filtered) list.
    Select(usize),
    Filter(String),
    Quit,
}

/// The mathematical value of an [`Input`].
pub enum InputView {
    Select(int),
    Filter(Seq<char>),
    Quit,
}

impl View for Input {
    type V = InputView;

    open spec fn view(&self) -> InputView {
        match self {
            Input::Select(n) => InputView::Select(*n as int),
            Input::Filter(q) => InputView::Filter(q@),
            Input::Quit => InputView::Quit,
        }
    }
}

/// What a typed line asks for: `q` or `quit` quits, a number within the shown
/// range selects, anything else filters.
pub open spec fn input_of(line: Seq<char>, shown: int) -> InputView {
    let t = trimmed(line);
    if same_ignoring_case(t, "q"@) || same_ignoring_case(t, "quit"@) {
        InputView::Quit
    } else {
        match parsed_unsigned(t, usize::MAX as int) {
            Some(n) => if 1 <= n <= shown {
                InputView::Select(n as int)
            } else {
                InputView::Filter(t)
            },
            None => InputView::Filter(t),
        }
    }
}

/// One typed line to a picker action. Out-of-range numbers and the empty line
/// are filters over the full list.
pub fn parse_input(line: &str, shown: usize) -> (r: Input)
    ensures
        r@ == input_of(line@, shown as int),
{
    let t = trim(line);
    if same_text(t.as_str(), "q") || same_text(t.as_str(), "quit") {
        return Input::Quit;
    }
    let cs = chars_of(t.as_str());
    assert(cs@.subrange(0, cs@.len() as int) =~= t@);
    if let Some(n) = parse_unsigned(cs.as_slice(), 0, cs.len(), usize::MAX as u64) {
        if n >= 1 && n <= shown as u64 {
            return Input::Select(n as usize);
        }
    }
    Input::Filter(t)
}

/// The rows among the first `n` whose label holds a query.
pub open spec fn rows_holding(items: Seq<ItemView>, query: Seq<char>, n: int) -> Seq<int>
    decreases n,
{
    if n <= 0 {
        Seq::empty()
    } else if holds(items[n - 1].label, query) {
        rows_holding(items, query, n - 1).push(n - 1)
    } else {
        rows_holding(items, query, n - 1)
    }
}

/// Indices, as numbers.
pub open spec fn rows_view(rows: Seq<usize>) -> Seq<int> {
    Seq::new(rows.len(), |i: int| rows[i] as int)
}

/// Case-insensitive substring filter: the rows whose label holds the query. The
/// empty query keeps every row.
pub fn filter_indices(items: &Vec<Item>, query: &str) -> (r: Vec<usize>)
    ensures
        rows_view(r@) == rows_holding(items_view(items@), query@, items@.len() as int),
        query@.len() == 0 ==> rows_view(r@) == Seq::new(items@.len(), |i: int| i),
        is_ascii_chars(query@) ==> forall|k: int|
            0 <= k < items@.len() && is_ascii_chars((#[trigger] items@[k]).label@) ==> (rows_view(
                r@,
            ).contains(k) <==> holds_ignoring_case(items@[k].label@, query@)),
{
    let ghost iv = items_view(items@);
    let mut r: Vec<usize> = Vec::new();
    let mut i: usize = 0;
    assert(rows_view(r@) =~= rows_holding(iv, query@, 0));
    while i < items.len()
        invariant
            i <= items.len(),
            iv == items_view(items@),
            rows_view(r@) == rows_holding(iv, query@, i as int),
            query@.len() == 0 ==> rows_view(r@) == Seq::new(i as nat, |k: int| k),
            is_ascii_chars(query@) ==> forall|k: int|
                0 <= k < i && is_ascii_chars((#[trigger] items@[k]).label@) ==> holds(
                    items@[k].label@,
                    query@,
                ) == holds_ignoring_case(items@[k].label@, query@),
        decreases items.len() - i,
    {
        assert(iv[i as int] == items@[i as int]@);
        let ghost before = rows_view(r@);
        if text_holds(items[i].label.as_str(), query) {
            r.push(i);
            assert(rows_view(r@) =~= before.push(i as int));
        }
        i = i + 1;
    }
    proof {
        let n = items@.len() as int;
        let rows = rows_view(r@);
        lemma_rows_holding(iv, query@, n);
        assert forall|k: int|
            is_ascii_chars(query@) && 0 <= k < n && is_ascii_chars(
                (#[trigger] items@[k]).label@,
            ) implies (rows.contains(k) <==> holds_ignoring_case(items@[k].label@, query@)) by {
            assert(iv[k] == items@[k]@);
            if rows.contains(k) {
                let j = choose|j: int| 0 <= j < rows.len() && rows[j] == k;
                assert(holds(iv[rows[j]].label, query@));
            }
        }
    }
    r
}

/// A filter keeps rows of the list, each once and in order, and exactly those
/// whose label holds the query.
pub proof fn lemma_rows_holding(items: Seq<ItemView>, query: Seq<char>, n: int)
    requires
        0 <= n <= items.len(),
    ensures
        forall|i: int, j: int|
            0 <= i < j < rows_holding(items, query, n).len() ==> #[trigger] rows_holding(
                items,
                query,
                n,
            )[i] < #[trigger] rows_holding(items, query, n)[j],
        forall|i: int|
            0 <= i < rows_holding(items, query, n).len() ==> 0 <= #[trigger] rows_holding(
                items,
                query,
                n,
            )[i] < n && holds(items[rows_holding(items, query, n)[i]].label, query),
        forall|k: int|
            0 <= k < n && holds((#[trigger] items[k]).label, query) ==> rows_holding(
                items,
                query,
                n,
            ).contains(k),
    decreases n,
{
    if n > 0 {
        lemma_rows_holding(items, query, n - 1);
        let front = rows_holding(items, query, n - 1);
        let all = rows_holding(items, query, n);
        if holds(items[n - 1].label, query) {
            assert(all == front.push(n - 1));
            assert(all[front.len() as int] == n - 1);
        }
        assert forall|k: int| 0 <= k < n && holds(
            (#[trigger] items[k]).label,
            query,
        ) implies all.contains(k) by {
            if k < n - 1 {
                assert(front.contains(k));
                let t = front.index_of(k);
                assert(all[t] == k);
            }
        }
    }
}

/// How many digits the row numbers of a view take.
pub open spec fn number_width(shown: nat) -> nat {
    decimal(shown).len()
}

/// A row of the picker as it is shown.
pub open spec fn item_line(it: ItemView, row: nat, width: nat, any_marked: bool) -> Seq<char> {
    let number = decimal(row);
    let pad = if number.len() < width {
        Seq::new((width - number.len()) as nat, |i: int| ' ')
    } else {
        Seq::empty()
    };
    pad + number + ". "@ + if !any_marked {
        ""@
    } else if it.marked {
        "\u{25cf} "@
    } else {
        "  "@
    } + it.label + if it.current {
        "  (current)"@
    } else {
        ""@
    }
}

/// Whether rows are rows of a list.
pub open spec fn rows_within(view: Seq<usize>, items: Seq<Item>) -> bool {
    forall|i: int| 0 <= i < view.len() ==> (#[trigger] view[i]) < items.len()
}

/// A row of the picker as it is shown.
fn render_item(it: &Item, row: u64, width: usize, any_marked: bool) -> (r: String)
    ensures
        r@ == item_line(it@, row as nat, width as nat, any_marked),
{
    let mut number: Vec<char> = Vec::new();
    push_decimal(&mut number, row);
    assert(number@ =~= decimal(row as nat));
    let mut out: Vec<char> = Vec::new();
    let mut k: usize = number.len();
    while k < width
        invariant
            number@ == decimal(row as nat),
            number@.len() <= k,
            k <= width || k == number@.len(),
            out@ == Seq::new((k - number@.len()) as nat, |i: int| ' '),
        decreases width - k,
    {
        out.push(' ');
        k = k + 1;
    }
    let ghost pad = if number@.len() < width {
        Seq::new((width - number@.len()) as nat, |i: int| ' ')
    } else {
        Seq::empty()
    };
    assert(out@ =~= pad);
    push_range(&mut out, number.as_slice(), 0, number.len());
    assert(number@.subrange(0, number@.len() as int) =~= number@);
    let mut r = string_of_all(out.as_slice());
    r.append(". ");
    if !any_marked {
        proof {
            reveal_strlit("");
            assert(r@ + ""@ =~= r@);
        }
    } else if it.marked {
        r.append("\u{25cf} ");
    } else {
        r.append("  ");
    }
    r.append(it.label.as_str());
    if it.current {
        r.append("  (current)");
    } else {
        proof {
            reveal_strlit("");
            assert(r@ + ""@ =~= r@);
        }
    }
    r
}

/// The shown rows of a picker.
pub fn render_items(items: &Vec<Item>, view: &Vec<usize>, any_marked: bool) -> (r: Vec<String>)
    requires
        rows_within(view@, items@),
    ensures
        texts(r@) == Seq::new(
            view@.len(),
            |i: int|
                item_line(
                    items@[view@[i] as int]@,
                    (i + 1) as nat,
                    number_width(view@.len()),
                    any_marked,
                ),
        ),
{
    let mut digits: Vec<char> = Vec::new();
    push_decimal(&mut digits, view.len() as u64);
    assert(digits@ =~= decimal(view@.len()));
    let width: usize = digits.len();
    let mut r: Vec<String> = Vec::new();
    let mut i: usize = 0;
    while i < view.len()
        invariant
            i <= view.len(),
            rows_within(view@, items@),
            width == number_width(view@.len()),
            texts(r@).len() == i,
            forall|k: int|
                0 <= k < i ==> #[trigger] texts(r@)[k] == item_line(
                    items@[view@[k] as int]@,
                    (k + 1) as nat,
                    width as nat,
                    any_marked,
                ),
        decreases view.len() - i,
    {
        assert(view@[i as int] < items@.len());
        let line = render_item(&items[view[i]], i as u64 + 1, width, any_marked);
        let ghost before = texts(r@);
        push_text(&mut r, line.as_str());
        assert(forall|k: int| 0 <= k < i ==> #[trigger] texts(r@)[k] == before[k]);
        i = i + 1;
    }
    assert(texts(r@) =~= Seq::new(
        view@.len(),
        |i: int|
            item_line(
                items@[view@[i] as int]@,
                (i + 1) as nat,
                number_width(view@.len()),
                any_marked,
            ),
    ));
    r
}

/// What the picker does with a typed line.
#[derive(Debug)]
pub enum PickStep {
    /// This row of the list was chosen.
    Chosen(usize),
    /// Nothing was chosen.
    Quit,
    /// Show these lines and read on.
    Show(Vec<String>),
}

/// The state of a picker: the rows that are shown.
#[derive(Debug)]
pub struct Picker {
    items: Vec<Item>,
    view: Vec<usize>,
}

/// The mathematical value of a [`Picker`].
pub struct PickerView {
    pub items: Seq<ItemView>,
    pub shown: Seq<int>,
}

impl View for Picker {
    type V = PickerView;

    closed spec fn view(&self) -> PickerView {
        PickerView { items: items_view(self.items@), shown: rows_view(self.view@) }
    }
}

/// Whether some row is marked.
pub open spec fn any_marked(items: Seq<ItemView>) -> bool {
    exists|i: int| 0 <= i < items.len() && (#[trigger] items[i]).marked
}

impl PickerView {
    /// The shown rows are rows of the list.
    pub open spec fn wf(self) -> bool {
        forall|i: int| 0 <= i < self.shown.len() ==> 0 <= #[trigger] self.shown[i] < self.items.len()
    }

    /// The lines of the shown rows.
    pub open spec fn lines(self) -> Seq<Seq<char>> {
        Seq::new(
            self.shown.len(),
            |i: int|
                item_line(
                    self.items[self.shown[i]],
                    (i + 1) as nat,
                    number_width(self.shown.len()),
                    any_marked(self.items),
                ),
        )
    }
}

impl Picker {
    /// The shown rows are rows of the list.
    pub closed spec fn wf(&self) -> bool {
        self@.wf()
    }

    /// A picker that shows every row.
    pub fn new(items: Vec<Item>) -> (r: Picker)
        ensures
            r.wf(),
            r@.items == items_view(items@),
            r@.shown == Seq::new(items@.len(), |i: int| i),
    {
        let mut view: Vec<usize> = Vec::new();
        let mut i: usize = 0;
        while i < items.len()
            invariant
                i <= items.len(),
                view@.len() == i,
                forall|k: int| 0 <= k < i ==> (#[trigger] view@[k]) == k,
            decreases items.len() - i,
        {
            view.push(i);
            i = i + 1;
        }
        let r = Picker { items, view };
        assert(r@.shown =~= Seq::new(items@.len(), |i: int| i));
        r
    }

    /// Whether some row is marked.
    fn has_marked(&self) -> (r: bool)
        ensures
            r == any_marked(self@.items),
    {
        let ghost iv = self@.items;
        let mut i: usize = 0;
        while i < self.items.len()
            invariant
                i <= self.items.len(),
                iv == items_view(self.items@),
                forall|k: int| 0 <= k < i ==> !(#[trigger] iv[k]).marked,
            decreases self.items.len() - i,
        {
            assert(iv[i as int] == self.items@[i as int]@);
            if self.items[i].marked {
                return true;
            }
            i = i + 1;
        }
        false
    }

    /// The lines of the shown rows.
    pub fn lines(&self) -> (r: Vec<String>)
        requires
            self.wf(),
        ensures
            texts(r@) == self@.lines(),
    {
        proof {
            assert forall|i: int| 0 <= i < self.view@.len() implies (#[trigger] self.view@[i])
                < self.items@.len() by {
                assert(self@.shown[i] == self.view@[i] as int);
            }
        }
        let marked = self.has_marked();
        let r = render_items(&self.items, &self.view, marked);
        assert(texts(r@) =~= self@.lines());
        r
    }

    /// Take in a typed line.
    pub fn step(&mut self, line: &str) -> (r: PickStep)
        requires
            old(self).wf(),
        ensures
            final(self).wf(),
            final(self)@.items == old(self)@.items,
            match input_of(line@, old(self)@.shown.len() as int) {
                InputView::Quit => r is Quit && final(self)@ == old(self)@,
                InputView::Select(row) => r matches PickStep::Chosen(i) && i
                    == old(self)@.shown[row - 1] && final(self)@ == old(self)@,
                InputView::Filter(q) => {
                    &&& final(self)@.shown == rows_holding(
                        old(self)@.items,
                        q,
                        old(self)@.items.len() as int,
                    )
                    &&& r matches PickStep::Show(ls) && texts(ls@) == if final(self)@.shown.len()
                        == 0 {
                        seq![
                            "(no matches for \""@ + q
                                + "\" \u{2014} type another filter)"@,
                        ]
                    } else {
                        final(self)@.lines()
                    }
                },
            },
    {
        let ghost before = self@;
        assert(before.shown.len() == self.view@.len());
        match parse_input(line, self.view.len()) {
            Input::Quit => PickStep::Quit,
            Input::Select(row) => {
                assert(before.shown[row - 1] == self.view@[row - 1] as int);
                PickStep::Chosen(self.view[row - 1])
            },
            Input::Filter(q) => {
                self.view = filter_indices(&self.items, q.as_str());
                proof {
                    lemma_rows_holding(before.items, q@, before.items.len() as int);
                }
                assert(self@.shown.len() == self.view@.len());
                if self.view.len() == 0 {
                    let mut m = owned("(no matches for \"");
                    m.append(q.as_str());
                    m.append("\" \u{2014} type another filter)");
                    let mut ls: Vec<String> = Vec::new();
                    assert(texts(ls@) =~= Seq::<Seq<char>>::empty());
                    push_text(&mut ls, m.as_str());
                    assert(texts(ls@) =~= seq![
                        "(no matches for \""@ + q@ + "\" \u{2014} type another filter)"@,
                    ]);
                    PickStep::Show(ls)
                } else {
                    PickStep::Show(self.lines())
                }
            },
        }
    }
}

} // verus!
