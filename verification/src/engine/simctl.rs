//! Simulator control: device selection, boot and launch decisions, pids.

use crate::json::members_view;
use crate::json::parse;
use crate::json::serde_parse;
use crate::json::views_of;
use crate::json::Json;
use crate::json::JsonView;
use crate::json::Member;
use crate::number::decimal;
use crate::number::decimal_u64;
use crate::number::parse_signed;
use crate::number::parse_unsigned;
use crate::number::parsed_signed;
use crate::number::parsed_unsigned;
use crate::order::in_order;
use crate::order::lemma_text_rank;
use crate::order::lemma_text_rank_transitive;
use crate::order::rank_texts;
use crate::order::sort_texts;
use crate::order::text_rank;
use crate::order::Rank;
use crate::text::char_from;
use crate::text::chars_of;
use crate::text::contains;
use crate::text::ends_with;
use crate::text::eq_ignore_case;
use crate::text::find_char;
use crate::text::has_infix;
use crate::text::has_prefix;
use crate::text::has_suffix;
use crate::text::in_context;
use crate::text::is_space;
use crate::text::join_with;
use crate::text::joined_with;
use crate::text::lines;
use crate::text::lines_of;
use crate::text::matches_at;
use crate::text::occurs_at;
use crate::text::opt_str_view;
use crate::text::owned;
use crate::text::replace_char;
use crate::text::same_ignoring_case;
use crate::text::split_char;
use crate::text::split_on;
use crate::text::starts_with;
use crate::text::str_eq;
use crate::text::string_of;
use crate::text::texts;
use crate::text::trim;
use crate::text::trim_range;
use crate::text::trim_start_by;
use crate::text::trimmed;
use crate::text::whitespace;
use crate::text::with_char;
use crate::text::with_context;
use vstd::prelude::*;

verus! {

// ---------------------------------------------------------------------------
// runtime versions
// ---------------------------------------------------------------------------

/// The last position at or before `from` at which `p` occurs.
pub open spec fn last_at(s: Seq<char>, p: Seq<char>, from: int) -> Option<int>
    decreases from + 1,
{
    if from < 0 {
        None
    } else if occurs_at(s, p, from) {
        Some(from)
    } else {
        last_at(s, p, from - 1)
    }
}

/// What follows the last `iOS-` of a runtime identifier (all of it, without
/// one).
pub open spec fn runtime_tail(runtime: Seq<char>) -> Seq<char> {
    match last_at(runtime, "iOS-"@, runtime.len() as int) {
        Some(i) => runtime.skip(i + 4),
        None => runtime,
    }
}

/// The pieces that are numbers, as numbers.
pub open spec fn numbers_in(ps: Seq<Seq<char>>) -> Seq<u32>
    decreases ps.len(),
{
    if ps.len() == 0 {
        Seq::empty()
    } else {
        match parsed_unsigned(ps.last(), u32::MAX as int) {
            Some(n) => numbers_in(ps.drop_last()).push(n as u32),
            None => numbers_in(ps.drop_last()),
        }
    }
}

/// The first two numbers, 0 for one that is not there.
pub open spec fn first_two(ns: Seq<u32>) -> (u32, u32) {
    (
        if ns.len() > 0 {
            ns[0]
        } else {
            0
        },
        if ns.len() > 1 {
            ns[1]
        } else {
            0
        },
    )
}

/// The OS version of a runtime identifier.
pub open spec fn version_of(runtime: Seq<char>) -> (u32, u32) {
    first_two(numbers_in(split_on(runtime_tail(runtime), '-')))
}

/// The pieces that are numbers, as numbers.
pub fn parse_numbers(ps: &Vec<String>) -> (r: Vec<u32>)
    ensures
        r@ == numbers_in(texts(ps@)),
{
    let mut r: Vec<u32> = Vec::new();
    let mut i: usize = 0;
    assert(texts(ps@).take(0) =~= Seq::<Seq<char>>::empty());
    while i < ps.len()
        invariant
            i <= ps.len(),
            r@ == numbers_in(texts(ps@).take(i as int)),
        decreases ps.len() - i,
    {
        assert(texts(ps@).take(i + 1).drop_last() =~= texts(ps@).take(i as int));
        let cs = chars_of(ps[i].as_str());
        assert(cs@.subrange(0, cs@.len() as int) == cs@);
        if let Some(n) = parse_unsigned(cs.as_slice(), 0, cs.len(), u32::MAX as u64) {
            r.push(n as u32);
        }
        i = i + 1;
    }
    assert(texts(ps@).take(ps@.len() as int) =~= texts(ps@));
    r
}

/// The first two numbers, 0 for one that is not there.
pub fn version_pair(ns: &Vec<u32>) -> (r: (u32, u32))
    ensures
        r == first_two(ns@),
{
    let a: u32 = if ns.len() > 0 {
        ns[0]
    } else {
        0
    };
    let b: u32 = if ns.len() > 1 {
        ns[1]
    } else {
        0
    };
    (a, b)
}

/// `"com.apple.CoreSimulator.SimRuntime.iOS-26-3"` gives `(26, 3)`.
pub fn runtime_version(runtime: &str) -> (r: (u32, u32))
    ensures
        r == version_of(runtime@),
{
    let cs = chars_of(runtime);
    let p = chars_of("iOS-");
    proof {
        reveal_strlit("iOS-");
    }
    let mut i: usize = cs.len();
    let mut start: usize = 0;
    loop
        invariant_except_break
            i <= cs.len(),
            start == 0,
            last_at(cs@, p@, cs@.len() as int) == last_at(cs@, p@, i as int),
        invariant
            cs@ == runtime@,
            p@ == "iOS-"@,
            p@.len() == 4,
        ensures
            start <= cs.len(),
            cs@.skip(start as int) == runtime_tail(runtime@),
        decreases i,
    {
        if matches_at(cs.as_slice(), p.as_slice(), i) {
            start = i + 4;
            break;
        }
        if i == 0 {
            assert(last_at(cs@, p@, -1) is None);
            assert(cs@.skip(0) =~= cs@);
            break;
        }
        i = i - 1;
    }
    assert(cs@.subrange(start as int, cs@.len() as int) =~= cs@.skip(start as int));
    let tail = string_of(cs.as_slice(), start, cs.len());
    let ps = split_char(tail.as_str(), '-');
    let ns = parse_numbers(&ps);
    version_pair(&ns)
}

// ---------------------------------------------------------------------------
// the device list
// ---------------------------------------------------------------------------

/// An available simulator device.
#[derive(Debug)]
pub struct Device {
    pub udid: String,
    pub name: String,
    pub state: String,
    pub os: (u32, u32),
}

/// The mathematical value of a [`Device`].
pub struct DeviceView {
    pub udid: Seq<char>,
    pub name: Seq<char>,
    pub state: Seq<char>,
    pub os: (u32, u32),
}

impl View for Device {
    type V = DeviceView;

    open spec fn view(&self) -> DeviceView {
        DeviceView { udid: self.udid@, name: self.name@, state: self.state@, os: self.os }
    }
}

/// The views of a list of devices.
pub open spec fn device_views(v: Seq<Device>) -> Seq<DeviceView> {
    Seq::new(v.len(), |i: int| v[i]@)
}

/// The device that an entry of the list describes, if it is available and has
/// a udid, a name and a state.
pub open spec fn device_in(d: JsonView, os: (u32, u32)) -> Option<DeviceView> {
    let available = match d.get("isAvailable"@) {
        Some(b) => b.as_bool() == Some(true),
        None => false,
    };
    match (available, d.str_at("udid"@), d.str_at("name"@), d.str_at("state"@)) {
        (true, Some(udid), Some(name), Some(state)) => Some(DeviceView { udid, name, state, os }),
        _ => None,
    }
}

/// The devices among the first `n` entries of a runtime.
pub open spec fn devices_in(entries: Seq<JsonView>, os: (u32, u32), n: int) -> Seq<DeviceView>
    decreases n,
{
    if n <= 0 {
        Seq::empty()
    } else {
        match device_in(entries[n - 1], os) {
            Some(d) => devices_in(entries, os, n - 1).push(d),
            None => devices_in(entries, os, n - 1),
        }
    }
}

/// Whether a runtime is an iOS one, of the asked-for version where one is.
pub open spec fn runtime_wanted(runtime: Seq<char>, os: Option<Seq<char>>) -> bool {
    has_infix(runtime, "SimRuntime.iOS"@) && match os {
        Some(v) => has_suffix(runtime, "iOS-"@ + with_char(v, '.', '-')),
        None => true,
    }
}

/// The available devices of the wanted runtimes among the first `n`.
pub open spec fn listed(
    runtimes: Seq<(Seq<char>, JsonView)>,
    os: Option<Seq<char>>,
    n: int,
) -> Seq<DeviceView>
    decreases n,
{
    if n <= 0 {
        Seq::empty()
    } else {
        let before = listed(runtimes, os, n - 1);
        let (runtime, entries) = runtimes[n - 1];
        match (runtime_wanted(runtime, os), entries.as_array()) {
            (true, Some(a)) => before + devices_in(a, version_of(runtime), a.len() as int),
            _ => before,
        }
    }
}

/// The device that an entry of the list describes.
pub fn read_device(d: &Json, os: (u32, u32)) -> (r: Option<Device>)
    ensures
        match r {
            Some(v) => device_in(d@, os) == Some(v@),
            None => device_in(d@, os) is None,
        },
{
    let available = match d.get("isAvailable") {
        Some(b) => match b.as_bool() {
            Some(v) => v,
            None => false,
        },
        None => false,
    };
    if !available {
        return None;
    }
    match (d.str_at("udid"), d.str_at("name"), d.str_at("state")) {
        (Some(udid), Some(name), Some(state)) => Some(
            Device { udid: owned(udid), name: owned(name), state: owned(state), os },
        ),
        _ => None,
    }
}

/// Append the devices of one runtime.
pub fn read_runtime(out: &mut Vec<Device>, entries: &Vec<Json>, os: (u32, u32))
    ensures
        device_views(final(out)@) == device_views(old(out)@) + devices_in(
            views_of(entries@),
            os,
            entries@.len() as int,
        ),
{
    let ghost before = device_views(out@);
    let mut i: usize = 0;
    assert(device_views(out@) =~= before + devices_in(views_of(entries@), os, 0));
    while i < entries.len()
        invariant
            i <= entries.len(),
            device_views(out@) == before + devices_in(views_of(entries@), os, i as int),
        decreases entries.len() - i,
    {
        let ghost had = device_views(out@);
        assert(views_of(entries@)[i as int] == entries@[i as int]@);
        match read_device(&entries[i], os) {
            Some(d) => {
                let ghost dv = d@;
                out.push(d);
                assert(device_views(out@) =~= had.push(dv));
                assert(device_views(out@) =~= before + devices_in(views_of(entries@), os, i + 1));
            },
            None => {},
        }
        i = i + 1;
    }
}

/// Whether a runtime is an iOS one, of the asked-for version where one is.
fn wants_runtime(runtime: &str, os: Option<&str>) -> (r: bool)
    ensures
        r == runtime_wanted(runtime@, opt_str_view(os)),
{
    let cs = chars_of(runtime);
    if !contains(cs.as_slice(), "SimRuntime.iOS") {
        return false;
    }
    match os {
        Some(v) => {
            let mut suffix = owned("iOS-");
            suffix.append(replace_char(v, '.', '-').as_str());
            ends_with(cs.as_slice(), suffix.as_str())
        },
        None => true,
    }
}

/// The available devices of the wanted runtimes.
fn list_devices(runtimes: &Vec<Member>, os: Option<&str>) -> (r: Vec<Device>)
    ensures
        device_views(r@) == listed(
            members_view(runtimes@),
            opt_str_view(os),
            runtimes@.len() as int,
        ),
{
    let mut out: Vec<Device> = Vec::new();
    let ghost ms = members_view(runtimes@);
    let mut i: usize = 0;
    assert(device_views(out@) =~= listed(ms, opt_str_view(os), 0));
    while i < runtimes.len()
        invariant
            i <= runtimes.len(),
            ms == members_view(runtimes@),
            device_views(out@) == listed(ms, opt_str_view(os), i as int),
        decreases runtimes.len() - i,
    {
        let key = runtimes[i].key.as_str();
        assert(ms[i as int] == (runtimes@[i as int].key@, runtimes@[i as int].value@));
        if wants_runtime(key, os) {
            if let Some(a) = runtimes[i].value.as_array() {
                read_runtime(&mut out, a, runtime_version(key));
            }
        }
        i = i + 1;
    }
    out
}

// ---------------------------------------------------------------------------
// picking one
// ---------------------------------------------------------------------------

/// Whether a device is running.
pub open spec fn is_booted(d: DeviceView) -> bool {
    d.state == "Booted"@
}

/// Whether a device answers a query: by udid, by name, or `booted`; without a
/// query every iPhone does.
pub open spec fn answers(d: DeviceView, query: Option<Seq<char>>) -> bool {
    match query {
        Some(q) => same_ignoring_case(q, d.udid) || same_ignoring_case(q, d.name) || (
        same_ignoring_case(q, "booted"@) && is_booted(d)),
        None => has_prefix(d.name, "iPhone"@),
    }
}

/// True before false.
pub open spec fn flag_rank(a: bool, b: bool) -> Rank {
    if a == b {
        Rank::Same
    } else if a {
        Rank::Before
    } else {
        Rank::After
    }
}

/// The newer version before the older.
pub open spec fn version_rank(a: (u32, u32), b: (u32, u32)) -> Rank {
    if a == b {
        Rank::Same
    } else if a.0 > b.0 || (a.0 == b.0 && a.1 > b.1) {
        Rank::Before
    } else {
        Rank::After
    }
}

/// Which of two devices is preferred: booted first, then the newest OS, then
/// by name, then by udid. Names go up where there was a query, and down where
/// there was none (so that the newest model wins).
pub open spec fn device_rank(a: DeviceView, b: DeviceView, queried: bool) -> Rank {
    flag_rank(is_booted(a), is_booted(b)).or(
        version_rank(a.os, b.os).or(
            (if queried {
                text_rank(a.name, b.name)
            } else {
                text_rank(b.name, a.name)
            }).or(text_rank(a.udid, b.udid)),
        ),
    )
}

/// Whether device `k` answers the query and no other that does is preferred.
pub open spec fn is_pick(ds: Seq<DeviceView>, query: Option<Seq<char>>, k: int) -> bool {
    &&& 0 <= k < ds.len()
    &&& answers(ds[k], query)
    &&& forall|j: int|
        0 <= j < ds.len() && answers(#[trigger] ds[j], query) ==> !(device_rank(
            ds[j],
            ds[k],
            query is Some,
        ) is Before)
}

/// Two picks are the same device.
pub proof fn lemma_pick_unique(ds: Seq<DeviceView>, query: Option<Seq<char>>, k: int, l: int)
    requires
        is_pick(ds, query, k),
        is_pick(ds, query, l),
    ensures
        ds[k].udid == ds[l].udid,
{
    lemma_text_rank(ds[k].name, ds[l].name);
    lemma_text_rank(ds[k].udid, ds[l].udid);
}

/// Preference is transitive.
proof fn lemma_device_rank_transitive(a: DeviceView, b: DeviceView, c: DeviceView, queried: bool)
    requires
        device_rank(a, b, queried) is Before,
        device_rank(b, c, queried) is Before,
    ensures
        device_rank(a, c, queried) is Before,
{
    lemma_text_rank(a.name, b.name);
    lemma_text_rank(b.name, c.name);
    lemma_text_rank(a.name, c.name);
    lemma_text_rank(a.udid, b.udid);
    lemma_text_rank(b.udid, c.udid);
    if queried && text_rank(a.name, b.name) is Before && text_rank(b.name, c.name) is Before {
        lemma_text_rank_transitive(a.name, b.name, c.name);
    }
    if !queried && text_rank(b.name, a.name) is Before && text_rank(c.name, b.name) is Before {
        lemma_text_rank_transitive(c.name, b.name, a.name);
    }
    if text_rank(a.udid, b.udid) is Before && text_rank(b.udid, c.udid) is Before {
        lemma_text_rank_transitive(a.udid, b.udid, c.udid);
    }
}

/// Whether two texts differ at most in the case of ASCII letters.
pub fn same_text(a: &str, b: &str) -> (r: bool)
    ensures
        r == same_ignoring_case(a@, b@),
{
    let cs = chars_of(a);
    assert(cs@.subrange(0, cs@.len() as int) == a@);
    eq_ignore_case(cs.as_slice(), 0, cs.len(), b)
}

/// Whether a device answers a query.
fn matches_query(d: &Device, query: Option<&str>) -> (r: bool)
    ensures
        r == answers(d@, opt_str_view(query)),
{
    match query {
        Some(q) => same_text(q, d.udid.as_str()) || same_text(q, d.name.as_str()) || (same_text(
            q,
            "booted",
        ) && str_eq(d.state.as_str(), "Booted")),
        None => starts_with(chars_of(d.name.as_str()).as_slice(), "iPhone"),
    }
}

/// This rank, or `next` where this one decides nothing.
pub fn first_decided(a: Rank, next: Rank) -> (r: Rank)
    ensures
        r == a.or(next),
{
    match a {
        Rank::Same => next,
        _ => a,
    }
}

/// True before false.
pub fn rank_flags(a: bool, b: bool) -> (r: Rank)
    ensures
        r == flag_rank(a, b),
{
    if a == b {
        Rank::Same
    } else if a {
        Rank::Before
    } else {
        Rank::After
    }
}

/// The newer version before the older.
pub fn rank_versions(a: (u32, u32), b: (u32, u32)) -> (r: Rank)
    ensures
        r == version_rank(a, b),
{
    if a.0 == b.0 && a.1 == b.1 {
        Rank::Same
    } else if a.0 > b.0 || (a.0 == b.0 && a.1 > b.1) {
        Rank::Before
    } else {
        Rank::After
    }
}

/// Which of two devices is preferred.
fn rank_devices(a: &Device, b: &Device, queried: bool) -> (r: Rank)
    ensures
        r == device_rank(a@, b@, queried),
{
    let booted = rank_flags(
        str_eq(a.state.as_str(), "Booted"),
        str_eq(b.state.as_str(), "Booted"),
    );
    let names = if queried {
        rank_texts(a.name.as_str(), b.name.as_str())
    } else {
        rank_texts(b.name.as_str(), a.name.as_str())
    };
    let udids = rank_texts(a.udid.as_str(), b.udid.as_str());
    first_decided(booted, first_decided(rank_versions(a.os, b.os), first_decided(names, udids)))
}

/// The device that answers the query best.
pub fn best_device(ds: &Vec<Device>, query: Option<&str>) -> (r: Option<usize>)
    ensures
        match r {
            Some(k) => is_pick(device_views(ds@), opt_str_view(query), k as int),
            None => forall|j: int|
                0 <= j < ds@.len() ==> !answers(#[trigger] device_views(ds@)[j], opt_str_view(query)),
        },
{
    let ghost dv = device_views(ds@);
    let ghost q = opt_str_view(query);
    let mut best: Option<usize> = None;
    let mut i: usize = 0;
    while i < ds.len()
        invariant
            i <= ds.len(),
            dv == device_views(ds@),
            q == opt_str_view(query),
            match best {
                Some(k) => {
                    &&& k < i
                    &&& answers(dv[k as int], q)
                    &&& forall|j: int|
                        0 <= j < i && answers(#[trigger] dv[j], q) ==> !(device_rank(
                            dv[j],
                            dv[k as int],
                            q is Some,
                        ) is Before)
                },
                None => forall|j: int| 0 <= j < i ==> !answers(#[trigger] dv[j], q),
            },
        decreases ds.len() - i,
    {
        let ghost had = best;
        assert(dv[i as int] == ds@[i as int]@);
        if matches_query(&ds[i], query) {
            match best {
                Some(k) => {
                    if rank_devices(&ds[i], &ds[k], query.is_some()) == Rank::Before {
                        proof {
                            assert forall|j: int|
                                0 <= j < i && answers(#[trigger] dv[j], q) implies !(device_rank(
                                dv[j],
                                dv[i as int],
                                q is Some,
                            ) is Before) by {
                                if device_rank(dv[j], dv[i as int], q is Some) is Before {
                                    lemma_device_rank_transitive(
                                        dv[j],
                                        dv[i as int],
                                        dv[k as int],
                                        q is Some,
                                    );
                                }
                            }
                            lemma_text_rank(dv[i as int].name, dv[i as int].name);
                            lemma_text_rank(dv[i as int].udid, dv[i as int].udid);
                        }
                        best = Some(i);
                    }
                },
                None => {
                    proof {
                        lemma_text_rank(dv[i as int].name, dv[i as int].name);
                        lemma_text_rank(dv[i as int].udid, dv[i as int].udid);
                    }
                    best = Some(i);
                },
            }
        }
        i = i + 1;
    }
    best
}

/// A device as the error message lists it.
pub open spec fn device_line(d: DeviceView) -> Seq<char> {
    d.name + " (iOS "@ + decimal(d.os.0 as nat) + "."@ + decimal(d.os.1 as nat) + ", "@ + d.state
        + ")"@
}

/// The devices as the error message lists them.
pub open spec fn device_lines(ds: Seq<DeviceView>) -> Seq<Seq<char>> {
    Seq::new(ds.len(), |i: int| device_line(ds[i]))
}

/// The start of the message that no device was found.
pub open spec fn none_text(query: Option<Seq<char>>, os: Option<Seq<char>>) -> Seq<char> {
    "no available simulator "@ + (match query {
        Some(q) => "matching \""@ + q + "\""@,
        None => "(no \"device\" configured: looked for an iPhone)"@,
    }) + match os {
        Some(o) => " (iOS "@ + o + ")"@,
        None => ""@,
    }
}

/// The message where no device was available at all.
pub open spec fn nothing_text(query: Option<Seq<char>>, os: Option<Seq<char>>) -> Seq<char> {
    none_text(query, os) + ": "@ + (match os {
        Some(o) => "no iOS "@ + o + " simulator runtime is installed"@,
        None => "no iOS simulator devices are available"@,
    })
        + "\nhint: install the runtime and create a device in Xcode (Settings \u{2192} Components, Window \u{2192} Devices and Simulators)"@
}

/// The message where devices were available but none answered; `lines` lists
/// them in order.
pub open spec fn others_text(
    query: Option<Seq<char>>,
    os: Option<Seq<char>>,
    lines: Seq<Seq<char>>,
) -> Seq<char> {
    none_text(query, os) + "; available devices:\n  "@ + joined_with(lines, "\n  "@)
        + "\nhint: pass --device \"<name or udid>\" (or set \"device\" in .zed/debug.json)"@
}

/// Whether `t` tells that none of `ds` answers.
pub open spec fn is_refusal(
    t: Seq<char>,
    ds: Seq<DeviceView>,
    query: Option<Seq<char>>,
    os: Option<Seq<char>>,
) -> bool {
    if ds.len() == 0 {
        t == nothing_text(query, os)
    } else {
        exists|lines: Seq<Seq<char>>|
            in_order(lines) && lines.to_multiset() == device_lines(ds).to_multiset() && t
                == #[trigger] others_text(query, os, lines)
    }
}

/// The start of the message that no device was found.
fn none_message(query: Option<&str>, os: Option<&str>) -> (r: String)
    ensures
        r@ == none_text(opt_str_view(query), opt_str_view(os)),
{
    let mut what = String::new();
    match query {
        Some(q) => {
            what.append("matching \"");
            what.append(q);
            what.append("\"");
            assert(what@ =~= "matching \""@ + q@ + "\""@);
        },
        None => {
            what.append("(no \"device\" configured: looked for an iPhone)");
            assert(what@ =~= "(no \"device\" configured: looked for an iPhone)"@);
        },
    }
    let mut note = String::new();
    match os {
        Some(o) => {
            note.append(" (iOS ");
            note.append(o);
            note.append(")");
            assert(note@ =~= " (iOS "@ + o@ + ")"@);
        },
        None => {
            proof {
                reveal_strlit("");
            }
            assert(note@ =~= ""@);
        },
    }
    let mut r = owned("no available simulator ");
    r.append(what.as_str());
    r.append(note.as_str());
    r
}

/// A device as the error message lists it.
fn describe_device(d: &Device) -> (r: String)
    ensures
        r@ == device_line(d@),
{
    let mut r = owned(d.name.as_str());
    r.append(" (iOS ");
    r.append(decimal_u64(d.os.0 as u64).as_str());
    r.append(".");
    r.append(decimal_u64(d.os.1 as u64).as_str());
    r.append(", ");
    r.append(d.state.as_str());
    r.append(")");
    r
}

/// The message that none of the devices answers.
fn refusal(ds: &Vec<Device>, query: Option<&str>, os: Option<&str>) -> (r: String)
    ensures
        is_refusal(r@, device_views(ds@), opt_str_view(query), opt_str_view(os)),
{
    let mut r = none_message(query, os);
    if ds.len() == 0 {
        let mut why = String::new();
        match os {
            Some(o) => {
                why.append("no iOS ");
                why.append(o);
                why.append(" simulator runtime is installed");
                assert(why@ =~= "no iOS "@ + o@ + " simulator runtime is installed"@);
            },
            None => {
                why.append("no iOS simulator devices are available");
                assert(why@ =~= "no iOS simulator devices are available"@);
            },
        }
        r.append(": ");
        r.append(why.as_str());
        r.append(
            "\nhint: install the runtime and create a device in Xcode (Settings \u{2192} Components, Window \u{2192} Devices and Simulators)",
        );
        return r;
    }
    let mut seen: Vec<String> = Vec::new();
    let ghost dl = device_lines(device_views(ds@));
    let mut i: usize = 0;
    while i < ds.len()
        invariant
            i <= ds.len(),
            dl == device_lines(device_views(ds@)),
            texts(seen@) == dl.take(i as int),
        decreases ds.len() - i,
    {
        let ghost before = texts(seen@);
        let l = describe_device(&ds[i]);
        let ghost lv = l@;
        seen.push(l);
        assert(texts(seen@) =~= before.push(lv));
        assert(texts(seen@) =~= dl.take(i + 1));
        i = i + 1;
    }
    assert(dl.take(dl.len() as int) =~= dl);
    let sorted = sort_texts(seen);
    r.append("; available devices:\n  ");
    r.append(join_with(&sorted, "\n  ").as_str());
    r.append("\nhint: pass --device \"<name or udid>\" (or set \"device\" in .zed/debug.json)");
    assert(r@ == others_text(opt_str_view(query), opt_str_view(os), texts(sorted@)));
    r
}

/// Whether `r` is the outcome of a device choice on a parsed device list.
pub open spec fn is_device_choice(
    r: Result<String, String>,
    v: JsonView,
    query: Option<Seq<char>>,
    os: Option<Seq<char>>,
) -> bool {
    match v.get("devices"@) {
        Some(JsonView::Object(ms)) => {
            let ds = listed(ms, os, ms.len() as int);
            match r {
                Ok(udid) => exists|k: int| #[trigger] is_pick(ds, query, k) && udid@ == ds[k].udid,
                Err(t) => is_refusal(t@, ds, query, os) && forall|j: int|
                    0 <= j < ds.len() ==> !answers(#[trigger] ds[j], query),
            }
        },
        _ => match r {
            Ok(_) => false,
            Err(t) => t@ == "malformed simctl JSON: missing `devices` object"@,
        },
    }
}

/// Device selection over the parsed `simctl list devices --json` output: the
/// preferred device among those that answer the query, else a message that
/// lists what there is.
pub fn pick_device(json: &Json, query: Option<&str>, os: Option<&str>) -> (r: Result<
    String,
    String,
>)
    ensures
        is_device_choice(r, json@, opt_str_view(query), opt_str_view(os)),
{
    let runtimes = match json.get("devices") {
        Some(Json::Object(ms)) => ms,
        _ => return Err(owned("malformed simctl JSON: missing `devices` object")),
    };
    assert(json@.get("devices"@)->0->Object_0 =~= members_view(runtimes@));
    let ds = list_devices(runtimes, os);
    match best_device(&ds, query) {
        Some(k) => Ok(owned(ds[k].udid.as_str())),
        None => Err(refusal(&ds, query, os)),
    }
}

/// Resolve a device from the bytes of `simctl list devices --json`.
pub fn resolve_device(stdout: &[u8], device: Option<&str>, os: Option<&str>) -> (r: Result<
    String,
    String,
>)
    ensures
        match serde_parse(stdout@) {
            Ok(v) => is_device_choice(r, v, opt_str_view(device), opt_str_view(os)),
            Err(e) => r matches Err(t) && t@ == in_context("parsing simctl device list JSON"@, e),
        },
{
    match parse(stdout) {
        Ok(v) => pick_device(&v, device, os),
        Err(e) => Err(with_context("parsing simctl device list JSON", e.as_str())),
    }
}

// ---------------------------------------------------------------------------
// booting
// ---------------------------------------------------------------------------

/// Time budget, in milliseconds, for retrying a boot that races a shutdown in
/// flight. A real shutdown takes 10 to 30 s on a loaded machine.
pub const BOOT_RETRY_BUDGET_MS: u64 = 30_000;

/// Pause between two attempts, in milliseconds.
pub const BOOT_RETRY_DELAY_MS: u64 = 2_000;

/// A boot fails when the device is already booted (or mid-boot); that is
/// success for us.
pub fn boot_error_is_benign(stderr: &str) -> (r: bool)
    ensures
        r == (has_infix(stderr@, "Unable to boot device in current state: Booted"@) || has_infix(
            stderr@,
            "Unable to boot device in current state: Booting"@,
        )),
{
    let cs = chars_of(stderr);
    contains(cs.as_slice(), "Unable to boot device in current state: Booted") || contains(
        cs.as_slice(),
        "Unable to boot device in current state: Booting",
    )
}

/// A boot also fails while a previous session's shutdown is still in flight;
/// that state resolves by itself.
pub fn boot_error_is_retryable(stderr: &str) -> (r: bool)
    ensures
        r == has_infix(stderr@, "Unable to boot device in current state: Shutting Down"@),
{
    contains(
        chars_of(stderr).as_slice(),
        "Unable to boot device in current state: Shutting Down",
    )
}

/// What to do after one `simctl boot`.
#[derive(Clone, Copy, Debug, PartialEq, Eq, Structural)]
pub enum BootStep {
    /// The device is booted or booting: go on.
    Proceed,
    /// Wait [`BOOT_RETRY_DELAY_MS`] and try again.
    Retry,
    /// Give up with the command's error.
    Fail,
}

/// What follows an attempt to boot a simulator.
pub open spec fn boot_step(success: bool, stderr: Seq<char>, elapsed_ms: u64) -> BootStep {
    if success || has_infix(stderr, "Unable to boot device in current state: Booted"@)
        || has_infix(stderr, "Unable to boot device in current state: Booting"@) {
        BootStep::Proceed
    } else if has_infix(stderr, "Unable to boot device in current state: Shutting Down"@)
        && elapsed_ms < BOOT_RETRY_BUDGET_MS {
        BootStep::Retry
    } else {
        BootStep::Fail
    }
}

/// What to do after one `simctl boot`, `elapsed_ms` after the first attempt.
pub fn boot(success: bool, stderr: &str, elapsed_ms: u64) -> (r: BootStep)
    ensures
        r == boot_step(success, stderr@, elapsed_ms),
{
    if success || boot_error_is_benign(stderr) {
        BootStep::Proceed
    } else if boot_error_is_retryable(stderr) && elapsed_ms < BOOT_RETRY_BUDGET_MS {
        BootStep::Retry
    } else {
        BootStep::Fail
    }
}

// ---------------------------------------------------------------------------
// launching
// ---------------------------------------------------------------------------

/// The arguments of `xcrun` that launch an app.
pub open spec fn launch_words(
    udid: Seq<char>,
    bundle_id: Seq<char>,
    wait: bool,
    stdout_file: Seq<char>,
    stderr_file: Seq<char>,
) -> Seq<Seq<char>> {
    seq!["simctl"@, "launch"@, "--terminate-running-process"@] + (if wait {
        seq!["--wait-for-debugger"@]
    } else {
        Seq::empty()
    }) + seq!["--stdout="@ + stdout_file, "--stderr="@ + stderr_file, udid, bundle_id]
}

/// The arguments of `xcrun` that launch an app, suspended until a debugger
/// attaches where `wait_for_debugger` says so.
pub fn launch(
    udid: &str,
    bundle_id: &str,
    wait_for_debugger: bool,
    stdout_file: &str,
    stderr_file: &str,
) -> (r: Vec<String>)
    ensures
        texts(r@) == launch_words(
            udid@,
            bundle_id@,
            wait_for_debugger,
            stdout_file@,
            stderr_file@,
        ),
{
    let mut out = owned("--stdout=");
    out.append(stdout_file);
    let mut err = owned("--stderr=");
    err.append(stderr_file);
    let mut r: Vec<String> = Vec::new();
    r.push(owned("simctl"));
    r.push(owned("launch"));
    r.push(owned("--terminate-running-process"));
    if wait_for_debugger {
        r.push(owned("--wait-for-debugger"));
    }
    r.push(out);
    r.push(err);
    r.push(owned(udid));
    r.push(owned(bundle_id));
    assert(texts(r@) =~= launch_words(
        udid@,
        bundle_id@,
        wait_for_debugger,
        stdout_file@,
        stderr_file@,
    ));
    r
}

/// The message of a failed launch: a broken or stale bundle is usually fixed
/// by a clean reinstall.
pub fn launch_failure(udid: &str, bundle_id: &str, stderr: &str) -> (r: String)
    ensures
        r@ == "simctl launch of "@ + bundle_id@ + " failed: "@ + trimmed(stderr@) + if has_infix(
            trimmed(stderr@),
            "FBSOpenApplicationServiceErrorDomain"@,
        ) {
            "\nhint: the installed app looks stale or damaged \u{2014} run `xcrun simctl uninstall "@
                + udid@ + " "@ + bundle_id@ + "` and rerun (the next run reinstalls the app)"@
        } else {
            ""@
        },
{
    let t = trim(stderr);
    let mut hint = String::new();
    if contains(chars_of(t.as_str()).as_slice(), "FBSOpenApplicationServiceErrorDomain") {
        hint.append(
            "\nhint: the installed app looks stale or damaged \u{2014} run `xcrun simctl uninstall ",
        );
        hint.append(udid);
        hint.append(" ");
        hint.append(bundle_id);
        hint.append("` and rerun (the next run reinstalls the app)");
        assert(hint@
            =~= "\nhint: the installed app looks stale or damaged \u{2014} run `xcrun simctl uninstall "@
            + udid@ + " "@ + bundle_id@ + "` and rerun (the next run reinstalls the app)"@);
    } else {
        proof {
            reveal_strlit("");
        }
        assert(hint@ =~= ""@);
    }
    let mut r = owned("simctl launch of ");
    r.append(bundle_id);
    r.append(" failed: ");
    r.append(t.as_str());
    r.append(hint.as_str());
    r
}

/// The pid in a line `<bundle>: <pid>`.
pub open spec fn pid_in_line(line: Seq<char>, bundle_id: Seq<char>) -> Option<int> {
    let l = trimmed(line);
    let head = bundle_id.push(':');
    if has_prefix(l, head) {
        parsed_signed(trimmed(l.skip(head.len() as int)), i64::MAX as int)
    } else {
        None
    }
}

/// The first pid in lines `<bundle>: <pid>`, from line `from` on.
pub open spec fn first_pid(ls: Seq<Seq<char>>, bundle_id: Seq<char>, from: int) -> Option<int>
    decreases ls.len() - from,
{
    if from < 0 || from >= ls.len() {
        None
    } else {
        match pid_in_line(ls[from], bundle_id) {
            Some(p) => Some(p),
            None => first_pid(ls, bundle_id, from + 1),
        }
    }
}

/// The pid in a line `<bundle>: <pid>`.
fn line_pid(line: &str, bundle_id: &str) -> (r: Option<i64>)
    ensures
        match r {
            Some(p) => pid_in_line(line@, bundle_id@) == Some(p as int),
            None => pid_in_line(line@, bundle_id@) is None,
        },
{
    let l = trim(line);
    let cs = chars_of(l.as_str());
    let mut head = chars_of(bundle_id);
    head.push(':');
    if !matches_at(cs.as_slice(), head.as_slice(), 0) {
        return None;
    }
    let (a, b) = trim_range(cs.as_slice(), head.len(), cs.len());
    assert(cs@.subrange(head@.len() as int, cs@.len() as int) =~= cs@.skip(head@.len() as int));
    parse_signed(cs.as_slice(), a, b, i64::MAX)
}

/// Parse `<bundle>: <pid>` from `simctl launch` stdout.
pub fn parse_launch_pid(stdout: &str, bundle_id: &str) -> (r: Option<i64>)
    ensures
        match r {
            Some(p) => first_pid(lines_of(stdout@), bundle_id@, 0) == Some(p as int),
            None => first_pid(lines_of(stdout@), bundle_id@, 0) is None,
        },
{
    let ls = lines(stdout);
    let ghost lv = lines_of(stdout@);
    let mut i: usize = 0;
    while i < ls.len()
        invariant
            i <= ls.len(),
            texts(ls@) == lv,
            lv == lines_of(stdout@),
            first_pid(lv, bundle_id@, 0) == first_pid(lv, bundle_id@, i as int),
        decreases ls.len() - i,
    {
        assert(lv[i as int] == ls@[i as int]@);
        if let Some(p) = line_pid(ls[i].as_str(), bundle_id) {
            return Some(p);
        }
        i = i + 1;
    }
    None
}

/// The pid of a `ps` line (`<pid> <path>`), if the executable belongs to the
/// app on the simulator.
pub open spec fn app_pid(line: Seq<char>, udid: Seq<char>, app_name: Seq<char>) -> Option<int> {
    let l = trim_start_by(line, |c: char| is_space(c));
    match char_from(l, ' ', 0) {
        Some(i) => {
            let path = l.skip(i + 1);
            if has_infix(path, "CoreSimulator/Devices/"@ + udid + "/"@) && has_infix(
                path,
                "/"@ + app_name + ".app/"@,
            ) {
                parsed_signed(trimmed(l.take(i)), i64::MAX as int)
            } else {
                None
            }
        },
        None => None,
    }
}

/// The pid of a `ps` line, if the executable belongs to the app.
fn ps_line_pid(line: &str, udid: &str, app_name: &str) -> (r: Option<i64>)
    ensures
        match r {
            Some(p) => app_pid(line@, udid@, app_name@) == Some(p as int),
            None => app_pid(line@, udid@, app_name@) is None,
        },
{
    let all = chars_of(line);
    let ghost sp = |c: char| is_space(c);
    let mut a: usize = 0;
    assert(all@.subrange(0, all@.len() as int) =~= line@);
    while a < all.len() && whitespace(all[a])
        invariant
            a <= all.len(),
            sp == (|c: char| is_space(c)),
            trim_start_by(line@, sp) == trim_start_by(
                all@.subrange(a as int, all@.len() as int),
                sp,
            ),
        decreases all.len() - a,
    {
        assert(all@.subrange(a as int, all@.len() as int).drop_first() =~= all@.subrange(
            a + 1,
            all@.len() as int,
        ));
        a = a + 1;
    }
    let l = chars_of(string_of(all.as_slice(), a, all.len()).as_str());
    let i = match find_char(l.as_slice(), ' ', 0) {
        Some(i) => i,
        None => return None,
    };
    let mut device = owned("CoreSimulator/Devices/");
    device.append(udid);
    device.append("/");
    let mut app = owned("/");
    app.append(app_name);
    app.append(".app/");
    let path = chars_of(string_of(l.as_slice(), i + 1, l.len()).as_str());
    assert(l@.subrange(i + 1, l@.len() as int) =~= l@.skip(i + 1));
    if !(contains(path.as_slice(), device.as_str()) && contains(path.as_slice(), app.as_str())) {
        return None;
    }
    let (b, c) = trim_range(l.as_slice(), 0, i);
    assert(l@.subrange(0, i as int) =~= l@.take(i as int));
    parse_signed(l.as_slice(), b, c, i64::MAX)
}

/// Whether `p` is the pid of one of the lines.
pub open spec fn is_app_pid(ls: Seq<Seq<char>>, udid: Seq<char>, app_name: Seq<char>, p: int) -> bool {
    exists|i: int| 0 <= i < ls.len() && app_pid(#[trigger] ls[i], udid, app_name) == Some(p)
}

/// Pids of processes whose executable lives under this simulator and inside
/// `<app_name>.app/`, out of the output of `ps axww -o pid=,comm=`.
pub fn ps_app_pids(stdout: &str, udid: &str, app_name: &str) -> (r: Vec<i64>)
    ensures
        forall|p: i64|
            #[trigger] r@.contains(p) <==> is_app_pid(
                lines_of(stdout@),
                udid@,
                app_name@,
                p as int,
            ),
{
    let ls = lines(stdout);
    let ghost lv = lines_of(stdout@);
    let mut r: Vec<i64> = Vec::new();
    let mut i: usize = 0;
    while i < ls.len()
        invariant
            i <= ls.len(),
            texts(ls@) == lv,
            forall|p: i64|
                #[trigger] r@.contains(p) <==> is_app_pid(
                    lv.take(i as int),
                    udid@,
                    app_name@,
                    p as int,
                ),
        decreases ls.len() - i,
    {
        let ghost before = r@;
        assert(lv[i as int] == ls@[i as int]@);
        let found = ps_line_pid(ls[i].as_str(), udid, app_name);
        if let Some(p) = found {
            r.push(p);
        }
        proof {
            let now = lv.take(i + 1);
            assert forall|p: i64| #[trigger] r@.contains(p) <==> is_app_pid(
                now,
                udid@,
                app_name@,
                p as int,
            ) by {
                if is_app_pid(lv.take(i as int), udid@, app_name@, p as int) {
                    let k = choose|k: int|
                        0 <= k < i && app_pid(#[trigger] lv.take(i as int)[k], udid@, app_name@)
                            == Some(p as int);
                    assert(now[k] == lv.take(i as int)[k]);
                }
                if is_app_pid(now, udid@, app_name@, p as int) {
                    let k = choose|k: int|
                        0 <= k < i + 1 && app_pid(#[trigger] now[k], udid@, app_name@) == Some(
                            p as int,
                        );
                    if k < i {
                        assert(now[k] == lv.take(i as int)[k]);
                        assert(before.contains(p));
                        let n = choose|n: int| 0 <= n < before.len() && before[n] == p;
                        assert(r@[n] == p);
                    } else {
                        assert(r@.last() == p);
                    }
                }
                if r@.contains(p) && !before.contains(p) {
                    let n = choose|n: int| 0 <= n < r@.len() && r@[n] == p;
                    assert(n == before.len());
                    assert(now[i as int] == lv[i as int]);
                } else if r@.contains(p) {
                    assert(is_app_pid(lv.take(i as int), udid@, app_name@, p as int));
                }
            }
        }
        i = i + 1;
    }
    assert(lv.take(lv.len() as int) =~= lv);
    r
}

/// Whether `p` is the largest pid that was not there before.
pub open spec fn is_new_pid(now: Seq<i64>, before: Seq<i64>, p: i64) -> bool {
    &&& now.contains(p)
    &&& !before.contains(p)
    &&& forall|q: i64| #[trigger] now.contains(q) && !before.contains(q) ==> q <= p
}

/// Whether all pids were there before.
pub open spec fn no_new_pid(now: Seq<i64>, before: Seq<i64>) -> bool {
    forall|q: i64| #[trigger] now.contains(q) ==> before.contains(q)
}

/// The largest pid that was not there before.
pub fn new_pid(now: &Vec<i64>, before: &Vec<i64>) -> (r: Option<i64>)
    ensures
        match r {
            Some(p) => is_new_pid(now@, before@, p),
            None => no_new_pid(now@, before@),
        },
{
    let mut best: Option<i64> = None;
    let mut i: usize = 0;
    while i < now.len()
        invariant
            i <= now.len(),
            match best {
                Some(p) => {
                    &&& now@.contains(p)
                    &&& !before@.contains(p)
                    &&& forall|k: int|
                        0 <= k < i && !before@.contains(#[trigger] now@[k]) ==> now@[k] <= p
                },
                None => forall|k: int| 0 <= k < i ==> before@.contains(#[trigger] now@[k]),
            },
        decreases now.len() - i,
    {
        let p = now[i];
        assert(now@.contains(p)) by {
            assert(now@[i as int] == p);
        }
        if !has_pid(before, p) {
            best = match best {
                Some(b) => if p > b {
                    Some(p)
                } else {
                    Some(b)
                },
                None => Some(p),
            };
        }
        i = i + 1;
    }
    proof {
        assert forall|q: i64| #[trigger] now@.contains(q) && !before@.contains(q) implies best is Some
            && q <= best->0 by {
            let k = choose|k: int| 0 <= k < now@.len() && now@[k] == q;
            assert(now@[k] == q);
        }
    }
    best
}

/// How long to wait in front of each poll for a pid, in milliseconds.
pub const PID_POLL_DELAY_MS: u64 = 1_000;

/// How many polls for a pid are made.
pub const PID_POLLS: u32 = 5;

/// What to do after a poll for the pid of a launched app.
#[derive(Clone, Copy, Debug, PartialEq, Eq, Structural)]
pub enum PidStep {
    /// The app runs under this pid.
    Found(i64),
    /// Wait [`PID_POLL_DELAY_MS`] and poll again.
    Wait,
    /// Give up.
    GiveUp,
}

/// What to do after the poll number `polls`, counted from one, which saw the pids
/// `now`; `before` was there in front of the launch.
pub fn poll_pid(polls: u32, now: &Vec<i64>, before: &Vec<i64>) -> (r: PidStep)
    ensures
        match r {
            PidStep::Found(p) => is_new_pid(now@, before@, p),
            PidStep::Wait => no_new_pid(now@, before@) && polls < PID_POLLS,
            PidStep::GiveUp => no_new_pid(now@, before@) && polls >= PID_POLLS,
        },
{
    match new_pid(now, before) {
        Some(p) => PidStep::Found(p),
        None => if polls < PID_POLLS {
            PidStep::Wait
        } else {
            PidStep::GiveUp
        },
    }
}

/// Whether a pid is in a list.
fn has_pid(v: &Vec<i64>, p: i64) -> (r: bool)
    ensures
        r == v@.contains(p),
{
    let mut i: usize = 0;
    while i < v.len()
        invariant
            i <= v.len(),
            forall|k: int| 0 <= k < i ==> v@[k] != p,
        decreases v.len() - i,
    {
        if v[i] == p {
            assert(v@[i as int] == p);
            return true;
        }
        i = i + 1;
    }
    false
}

} // verus!
