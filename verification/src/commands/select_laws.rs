//! What the pickers offer, in which order, and what a choice leads to.

use crate::commands::select::ambiguous_text;
use crate::commands::select::containers;
use crate::commands::select::debug_field;
use crate::commands::select::destination_in_force;
use crate::commands::select::in_sim_order;
use crate::commands::select::input_of;
use crate::commands::select::ios_version;
use crate::commands::select::is_queried_sim;
use crate::commands::select::is_sorted_of;
use crate::commands::select::is_workspace_choice;
use crate::commands::select::item_line;
use crate::commands::select::lemma_ranked_sims;
use crate::commands::select::listed_schemes;
use crate::commands::select::listed_sims;
use crate::commands::select::no_workspace_text;
use crate::commands::select::scheme_in_force;
use crate::commands::select::scheme_like;
use crate::commands::select::scheme_named;
use crate::commands::select::sim_item;
use crate::commands::select::sim_matches;
use crate::commands::select::sim_of;
use crate::commands::select::sim_rank;
use crate::commands::select::sims_upto;
use crate::commands::select::strings_among;
use crate::commands::select::with_device;
use crate::commands::select::with_scheme;
use crate::commands::select::InputView;
use crate::commands::select::ItemView;
use crate::commands::select::SimView;
use crate::engine::config::ConfigView;
use crate::engine::selection::overlaid_config;
use crate::engine::selection::SelectionView;
use crate::engine::xcodebuild::build_words;
use crate::engine::xcodebuild_laws::lemma_options_passed;
use crate::engine::xcodebuild_laws::passes_flag;
use crate::json::JsonView;
use crate::number::decimal;
use crate::number::is_digit;
use crate::number::lemma_decimal_round_trip;
use crate::order::text_rank;
use crate::text::ascii_lower;
use crate::text::has_prefix;
use crate::text::lemma_trim_padded;
use crate::text::same_ignoring_case;
use crate::text::split_on;
use crate::text::trimmed;
use crate::util::paths::joined;
use vstd::prelude::*;

verus! {

// ---------------------------------------------------------------------------
// schemes
// ---------------------------------------------------------------------------

/// Texts among other values are found, each of them and no other.
pub proof fn lemma_texts_found(items: Seq<JsonView>, n: int, k: int)
    requires
        0 <= n <= items.len(),
    ensures
        0 <= k < n ==> (items[k] matches JsonView::Str(s) ==> strings_among(items, n).contains(s)),
        0 <= k < strings_among(items, n).len() ==> items.contains(
            JsonView::Str(strings_among(items, n)[k]),
        ),
        (forall|i: int| 0 <= i < n ==> #[trigger] items[i] is Str) ==> strings_among(items, n).len()
            == n && (0 <= k < n ==> items[k] == JsonView::Str(strings_among(items, n)[k])),
    decreases n,
{
    if n > 0 {
        lemma_texts_found(items, n - 1, k);
        let before = strings_among(items, n - 1);
        let now = strings_among(items, n);
        if 0 <= k < n {
            if let JsonView::Str(s) = items[k] {
                if k == n - 1 {
                    assert(now[before.len() as int] == s);
                } else {
                    let at = choose|at: int| 0 <= at < before.len() && before[at] == s;
                    assert(now[at] == s);
                }
            }
        }
        if 0 <= k < now.len() && k == before.len() {
            assert(items[n - 1] == JsonView::Str(now[k]));
        }
        if forall|i: int| 0 <= i < n ==> #[trigger] items[i] is Str {
            assert(items[n - 1] is Str);
        }
    }
}

/// The schemes of a workspace, else of a project, are those that xcodebuild lists for it.
pub proof fn lemma_schemes_listed(v: JsonView, container: JsonView, items: Seq<JsonView>)
    requires
        v.get("workspace"@) == Some(container) || (v.get("workspace"@) is None && v.get("project"@)
            == Some(container)),
        container.get("schemes"@) == Some(JsonView::Array(items)),
    ensures
        listed_schemes(v) matches Ok(s) ==> s == strings_among(items, items.len() as int),
        listed_schemes(v) is Ok <==> strings_among(items, items.len() as int).len() > 0,
{
}

/// A scheme is found by its exact name, else by the first that differs in case alone; what
/// is found is one of the schemes.
pub proof fn lemma_scheme_found(schemes: Seq<Seq<char>>, query: Seq<char>)
    ensures
        schemes.contains(query) ==> scheme_named(schemes, query) == Some(query),
        scheme_named(schemes, query) matches Some(s) ==> schemes.contains(s) && same_ignoring_case(
            s,
            query,
        ),
        scheme_named(schemes, query) is None ==> forall|i: int|
            0 <= i < schemes.len() ==> !same_ignoring_case(#[trigger] schemes[i], query),
{
    lemma_scheme_like(schemes, query, 0);
    if schemes.contains(query) {
        assert(same_ignoring_case(query, query));
    }
}

/// What is found by name is the first that differs in case alone.
proof fn lemma_scheme_like(schemes: Seq<Seq<char>>, query: Seq<char>, i: int)
    requires
        0 <= i,
    ensures
        match scheme_like(schemes, query, i) {
            Some(s) => schemes.contains(s) && same_ignoring_case(s, query),
            None => forall|j: int|
                i <= j < schemes.len() ==> !same_ignoring_case(#[trigger] schemes[j], query),
        },
    decreases schemes.len() - i,
{
    if i < schemes.len() && !same_ignoring_case(schemes[i], query) {
        lemma_scheme_like(schemes, query, i + 1);
    }
}

/// The scheme in force is the chosen one, else the scenario's; the destination in force is
/// the chosen device with its OS, else the scenario's.
pub proof fn lemma_in_force(sel: SelectionView, debug_json: Option<Seq<char>>)
    ensures
        sel.scheme is Some ==> scheme_in_force(sel, debug_json) == sel.scheme,
        sel.scheme is None ==> scheme_in_force(sel, debug_json) == debug_field(
            debug_json,
            "scheme"@,
        ),
        sel.device matches Some(d) ==> destination_in_force(sel, debug_json) == Some((d, sel.os)),
        sel.device is None ==> (debug_field(debug_json, "device"@) matches Some(d)
            ==> destination_in_force(sel, debug_json) == Some(
            (d, debug_field(debug_json, "os"@)),
        )),
        sel.device is None && debug_field(debug_json, "device"@) is None ==> destination_in_force(
            sel,
            debug_json,
        ) is None,
{
}

// ---------------------------------------------------------------------------
// devices
// ---------------------------------------------------------------------------

/// An entry is offered where it is an available iPhone or iPad, with its own name, udid and
/// state and the OS of its runtime.
pub proof fn lemma_sim_reads(d: JsonView, os: Seq<char>)
    ensures
        sim_of(d, os) is Some <==> d.get("isAvailable"@) == Some(JsonView::Bool(true)) && d.str_at(
            "udid"@,
        ) is Some && d.str_at("state"@) is Some && (d.str_at("name"@) matches Some(n) && (
        has_prefix(n, "iPhone"@) || has_prefix(n, "iPad"@))),
        sim_of(d, os) matches Some(s) ==> Some(s.name) == d.str_at("name"@) && Some(s.udid)
            == d.str_at("udid"@) && s.os == os && (s.booted <==> d.str_at("state"@) == Some(
            "Booted"@,
        )),
{
}

/// Devices are offered booted ones first, then by their OS from the newest, then iPhones
/// before iPads, then by name.
pub proof fn lemma_offered_in_order(ds: Seq<SimView>, i: int, j: int)
    requires
        in_sim_order(ds),
        0 <= i < j < ds.len(),
    ensures
        ds[j].booted ==> ds[i].booted,
        ds[i].booted == ds[j].booted ==> ds[i].version.0 > ds[j].version.0 || (ds[i].version.0
            == ds[j].version.0 && ds[i].version.1 >= ds[j].version.1),
        ds[i].booted == ds[j].booted && ds[i].version == ds[j].version && has_prefix(
            ds[i].name,
            "iPad"@,
        ) ==> has_prefix(ds[j].name, "iPad"@),
        ds[i].booted == ds[j].booted && ds[i].version == ds[j].version && has_prefix(
            ds[i].name,
            "iPad"@,
        ) == has_prefix(ds[j].name, "iPad"@) ==> !(text_rank(ds[i].name, ds[j].name) is After),
{
    assert(!(sim_rank(ds[i], ds[j]) is After));
}

/// What the listing offers is in that order.
pub proof fn lemma_listing_in_order(v: JsonView)
    ensures
        in_sim_order(listed_sims(v)),
{
    if let Some(d) = v.get("devices"@) {
        if let Some(runtimes) = d.as_object() {
            lemma_ranked_sims(sims_upto(runtimes, runtimes.len() as int));
        }
    }
}

/// The OS of a runtime is read from its last part, with dots between its numbers.
pub proof fn lemma_runtime_os(runtime: Seq<char>)
    ensures
        ios_version(runtime) is Some <==> has_prefix(split_on(runtime, '.').last(), "iOS-"@),
        ios_version(runtime) matches Some(v) ==> {
            let tail = split_on(runtime, '.').last();
            &&& v.len() == tail.len() - 4
            &&& forall|i: int|
                0 <= i < v.len() ==> #[trigger] v[i] == if tail[i + 4] == '-' {
                    '.'
                } else {
                    tail[i + 4]
                }
        },
{
    reveal_strlit("iOS-");
}

/// A device is asked for by its udid, by `booted` or by its name, in this order.
pub proof fn lemma_device_asked_for(ds: Seq<SimView>, query: Seq<char>, i: int, k: int)
    requires
        is_queried_sim(ds, query, Some(i)),
        0 <= k < ds.len(),
    ensures
        0 <= i < ds.len(),
        same_ignoring_case(ds[i].udid, query) || (same_ignoring_case(query, "booted"@)
            && ds[i].booted) || same_ignoring_case(ds[i].name, query),
        same_ignoring_case(ds[k].udid, query) ==> same_ignoring_case(ds[i].udid, query),
        same_ignoring_case(query, "booted"@) && ds[k].booted ==> same_ignoring_case(
            ds[i].udid,
            query,
        ) || ds[i].booted,
{
    let by_udid = |d: SimView| same_ignoring_case(d.udid, query);
    let by_state = |d: SimView| same_ignoring_case(query, "booted"@) && d.booted;
    assert(by_udid(ds[k]) == same_ignoring_case(ds[k].udid, query));
    assert(by_state(ds[k]) == (same_ignoring_case(query, "booted"@) && ds[k].booted));
}

/// A query that finds nothing names no udid, no name and no booted device.
pub proof fn lemma_device_not_found(ds: Seq<SimView>, query: Seq<char>, k: int)
    requires
        is_queried_sim(ds, query, None),
        0 <= k < ds.len(),
    ensures
        !same_ignoring_case(ds[k].udid, query),
        !same_ignoring_case(ds[k].name, query),
        same_ignoring_case(query, "booted"@) ==> !ds[k].booted,
{
    let by_udid = |d: SimView| same_ignoring_case(d.udid, query);
    let by_state = |d: SimView| same_ignoring_case(query, "booted"@) && d.booted;
    let by_name = |d: SimView| same_ignoring_case(d.name, query);
    assert(!by_udid(ds[k]) && !by_state(ds[k]) && !by_name(ds[k]));
}

/// A chosen device is kept by its name and its OS, by its udid where the name would not tell
/// it from another; the chosen scheme stays. A chosen scheme is kept as it is, and the
/// chosen device stays.
pub proof fn lemma_choice_kept(
    sel: SelectionView,
    ds: Seq<SimView>,
    chosen: int,
    other: int,
    scheme: Seq<char>,
)
    requires
        0 <= chosen < ds.len(),
    ensures
        ({
            let s = with_device(sel, ds, chosen);
            &&& s.os == Some(ds[chosen].os)
            &&& s.device == Some(ds[chosen].name) || s.device == Some(ds[chosen].udid)
            &&& 0 <= other < ds.len() && other != chosen && ds[other].name == ds[chosen].name
                && ds[other].os == ds[chosen].os ==> s.device == Some(ds[chosen].udid)
            &&& (forall|k: int|
                0 <= k < ds.len() && k != chosen ==> (#[trigger] ds[k]).name != ds[chosen].name)
                ==> s.device == Some(ds[chosen].name)
            &&& s.scheme == sel.scheme
            &&& with_scheme(sel, scheme).scheme == Some(scheme)
            &&& with_scheme(sel, scheme).device == sel.device
            &&& with_scheme(sel, scheme).os == sel.os
        }),
{
}

/// What was chosen is what the next run builds and runs on.
pub proof fn lemma_chosen_is_run(
    cfg: ConfigView,
    sel: SelectionView,
    ds: Seq<SimView>,
    chosen: int,
    scheme: Seq<char>,
)
    requires
        0 <= chosen < ds.len(),
    ensures
        overlaid_config(cfg, with_scheme(sel, scheme)).scheme == scheme,
        overlaid_config(cfg, with_device(sel, ds, chosen)).os == Some(ds[chosen].os),
        ({
            let d = overlaid_config(cfg, with_device(sel, ds, chosen)).device;
            d == Some(ds[chosen].name) || d == Some(ds[chosen].udid)
        }),
        passes_flag(
            build_words(overlaid_config(cfg, with_scheme(sel, scheme)), ds[chosen].udid),
            "-scheme"@,
            scheme,
        ),
{
    lemma_options_passed(overlaid_config(cfg, with_scheme(sel, scheme)), ds[chosen].udid);
}

/// A device is the one in force where its name or its udid is that of the destination, in any
/// case, and its OS is the destination's where that names one.
pub proof fn lemma_current_device(d: SimView, device: Seq<char>, os: Option<Seq<char>>)
    ensures
        sim_matches(d, device, os) <==> (same_ignoring_case(device, d.name) || same_ignoring_case(
            device,
            d.udid,
        )) && (os matches Some(o) ==> o == d.os),
        sim_item(d, Some((device, os))).current == sim_matches(d, device, os),
        !sim_item(d, None).current,
        sim_item(d, None).marked == d.booted,
        sim_item(d, None).label == d.name + " \u{2014} iOS "@ + d.os,
        sim_item(d, Some((device, os))).label == sim_item(d, None).label,
        sim_item(d, Some((device, os))).marked == d.booted,
{
}

// ---------------------------------------------------------------------------
// the picker
// ---------------------------------------------------------------------------

/// A number of a row that is shown chooses that row; `q` and `quit` leave; anything else is
/// the text to look for.
pub proof fn lemma_inputs(n: nat, shown: int, line: Seq<char>)
    requires
        1 <= n <= shown <= usize::MAX,
    ensures
        input_of(decimal(n), shown) == InputView::Select(n as int),
        same_ignoring_case(trimmed(line), "q"@) || same_ignoring_case(trimmed(line), "quit"@)
            ==> input_of(line, shown) is Quit,
        input_of(line, shown) is Quit ==> same_ignoring_case(trimmed(line), "q"@)
            || same_ignoring_case(trimmed(line), "quit"@),
        input_of(line, shown) matches InputView::Select(k) ==> 1 <= k <= shown,
        input_of(line, shown) matches InputView::Filter(q) ==> q == trimmed(line),
{
    reveal_strlit("q");
    reveal_strlit("quit");
    lemma_decimal_round_trip(n);
    let d = decimal(n);
    assert(is_digit(d[0]) && is_digit(d[d.len() - 1]));
    let none = Seq::<char>::empty();
    lemma_trim_padded(none, d, none);
    assert(none + d + none =~= d);
    if same_ignoring_case(d, "q"@) {
        assert(ascii_lower(d[0]) == ascii_lower("q"@[0]));
    }
    if same_ignoring_case(d, "quit"@) {
        assert(ascii_lower(d[0]) == ascii_lower("quit"@[0]));
    }
}

/// A row shows its number and its label, and says where it is the one in force.
pub proof fn lemma_row_text(it: ItemView, row: nat, width: nat)
    requires
        decimal(row).len() >= width,
    ensures
        !it.current ==> item_line(it, row, width, false) == decimal(row) + ". "@ + it.label,
        it.current ==> item_line(it, row, width, false) == decimal(row) + ". "@ + it.label
            + "  (current)"@,
        !it.current && it.marked ==> item_line(it, row, width, true) == decimal(row) + ". "@
            + "\u{25cf} "@ + it.label,
        !it.current && !it.marked ==> item_line(it, row, width, true) == decimal(row) + ". "@
            + "  "@ + it.label,
{
    reveal_strlit("");
    let none = Seq::<char>::empty();
    let d = decimal(row);
    assert(none + d =~= d);
    assert(d + ". "@ + ""@ =~= d + ". "@);
    assert(d + ". "@ + it.label + ""@ =~= d + ". "@ + it.label);
    assert(d + ". "@ + "\u{25cf} "@ + it.label + ""@ =~= d + ". "@ + "\u{25cf} "@ + it.label);
    assert(d + ". "@ + "  "@ + it.label + ""@ =~= d + ". "@ + "  "@ + it.label);
}

/// Where one workspace lies in a project it is taken, else the one Xcode project; several of
/// a kind, and none, are refused.
pub proof fn lemma_workspace_choice(
    project: Seq<char>,
    names: Seq<Seq<char>>,
    r: Result<Seq<char>, Seq<char>>,
)
    requires
        is_workspace_choice(project, names, r),
    ensures
        ({
            let ws = containers(names, true, names.len() as int);
            let ps = containers(names, false, names.len() as int);
            &&& ws.len() == 1 ==> r == Ok::<Seq<char>, Seq<char>>(joined(project, ws[0]))
            &&& ws.len() == 0 && ps.len() == 1 ==> r == Ok::<Seq<char>, Seq<char>>(
                joined(project, ps[0]),
            )
            &&& ws.len() > 1 ==> r is Err
            &&& ws.len() == 0 && ps.len() != 1 ==> r is Err
        }),
{
}

/// Where there is no container the message says where it was looked for, and where there are
/// several it names those of the kind that there are several of.
pub proof fn lemma_workspace_refusals(
    project: Seq<char>,
    names: Seq<Seq<char>>,
    r: Result<Seq<char>, Seq<char>>,
)
    requires
        is_workspace_choice(project, names, r),
    ensures
        ({
            let ws = containers(names, true, names.len() as int);
            let ps = containers(names, false, names.len() as int);
            &&& ws.len() == 0 && ps.len() == 0 ==> r == Err::<Seq<char>, Seq<char>>(
                no_workspace_text(project),
            )
            &&& ws.len() > 1 ==> exists|s: Seq<Seq<char>>| #[trigger]
                is_sorted_of(s, ws) && r == Err::<Seq<char>, Seq<char>>(
                    ambiguous_text(".xcworkspace"@, project, s),
                )
            &&& ws.len() == 0 && ps.len() > 1 ==> exists|s: Seq<Seq<char>>| #[trigger]
                is_sorted_of(s, ps) && r == Err::<Seq<char>, Seq<char>>(
                    ambiguous_text(".xcodeproj"@, project, s),
                )
        }),
{
}

} // verus!
