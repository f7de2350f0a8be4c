//! The build logs that `LogStoreManifest.plist` registers.

use crate::json::members_view;
use crate::json::parse;
use crate::json::serde_parse;
use crate::json::Json;
use crate::json::JsonView;
use crate::text::owned;
use crate::text::push_text;
use crate::text::str_eq;
use crate::text::texts;
use crate::util::paths::join;
use crate::util::paths::joined;
use vstd::prelude::*;
use vstd::seq_lib::to_multiset_build;

verus! {

/// The place of a finite double in the order of doubles, from its bits. Both
/// zeros have the same place.
pub open spec fn double_place(bits: u64) -> int {
    if bits < 0x8000_0000_0000_0000 {
        bits as int
    } else {
        0x8000_0000_0000_0000 - bits
    }
}

/// A registered log: when its recording stopped, and its file.
#[derive(Debug)]
struct LogEntry {
    place: i128,
    file: String,
}

/// The mathematical value of a registered log.
pub struct LogView {
    pub place: int,
    pub file: Seq<char>,
}

/// The log that a manifest entry registers for a scheme; entries that miss a
/// field register none.
pub open spec fn log_of(entry: JsonView, scheme: Seq<char>) -> Option<LogView> {
    if entry.str_at("schemeIdentifier-schemeName"@) != Some(scheme) {
        None
    } else {
        match entry.get("timeStoppedRecording"@) {
            Some(t) => match (t.as_bits(), entry.str_at("fileName"@)) {
                (Some(bits), Some(file)) => Some(LogView { place: double_place(bits), file }),
                _ => None,
            },
            None => None,
        }
    }
}

/// The logs that the first `n` members register for a scheme.
pub open spec fn logs_upto(
    ms: Seq<(Seq<char>, JsonView)>,
    scheme: Seq<char>,
    n: int,
) -> Seq<LogView>
    decreases n,
{
    if n <= 0 {
        Seq::empty()
    } else {
        match log_of(ms[n - 1].1, scheme) {
            Some(l) => logs_upto(ms, scheme, n - 1).push(l),
            None => logs_upto(ms, scheme, n - 1),
        }
    }
}

/// The logs that a manifest registers for a scheme, in the manifest's order.
pub open spec fn registered_logs(manifest: JsonView, scheme: Seq<char>) -> Seq<LogView> {
    match manifest.get("logs"@) {
        Some(logs) => match logs.as_object() {
            Some(ms) => logs_upto(ms, scheme, ms.len() as int),
            None => Seq::empty(),
        },
        None => Seq::empty(),
    }
}

/// Whether the log at `i` is the newest: no log is newer, and those in front of
/// it are older.
pub open spec fn is_newest(logs: Seq<LogView>, i: int) -> bool {
    &&& 0 <= i < logs.len()
    &&& forall|k: int| 0 <= k < logs.len() ==> (#[trigger] logs[k]).place <= logs[i].place
    &&& forall|k: int| 0 <= k < i ==> (#[trigger] logs[k]).place < logs[i].place
}

/// There is one newest log.
pub proof fn lemma_newest_unique(logs: Seq<LogView>, i: int, j: int)
    requires
        is_newest(logs, i),
        is_newest(logs, j),
    ensures
        i == j,
{
    assert(logs[i].place <= logs[j].place && logs[j].place <= logs[i].place);
}

/// A list of logs with one more, behind all that are not newer.
pub open spec fn put_log(sorted: Seq<LogView>, log: LogView) -> Seq<LogView>
    decreases sorted.len(),
{
    if sorted.len() == 0 || sorted.last().place <= log.place {
        sorted.push(log)
    } else {
        put_log(sorted.drop_last(), log).push(sorted.last())
    }
}

/// The logs from oldest to newest; those of the same moment keep their order.
pub open spec fn by_age(logs: Seq<LogView>) -> Seq<LogView>
    decreases logs.len(),
{
    if logs.len() == 0 {
        Seq::empty()
    } else {
        put_log(by_age(logs.drop_last()), logs.last())
    }
}

/// Whether no log is older than one in front of it.
pub open spec fn aged(logs: Seq<LogView>) -> bool {
    forall|i: int, j: int|
        0 <= i <= j < logs.len() ==> (#[trigger] logs[i]).place <= (#[trigger] logs[j]).place
}

/// A log put into its place keeps the order and the other logs.
proof fn lemma_put_log(sorted: Seq<LogView>, log: LogView)
    requires
        aged(sorted),
    ensures
        aged(put_log(sorted, log)),
        put_log(sorted, log).to_multiset() == sorted.to_multiset().insert(log),
        put_log(sorted, log).len() == sorted.len() + 1,
        forall|i: int|
            0 <= i < put_log(sorted, log).len() ==> (#[trigger] put_log(sorted, log)[i]).place
                <= log.place || (sorted.len() > 0 && put_log(sorted, log)[i].place
                <= sorted.last().place),
    decreases sorted.len(),
{
    if sorted.len() == 0 || sorted.last().place <= log.place {
        to_multiset_build(sorted, log);
        let t = sorted.push(log);
        assert forall|i: int, j: int| 0 <= i <= j < t.len() implies (#[trigger] t[i]).place <= (
        #[trigger] t[j]).place by {
            if j == sorted.len() && i < j {
                assert(sorted[i].place <= sorted[sorted.len() - 1].place);
            }
        }
    } else {
        let front = sorted.drop_last();
        lemma_put_log(front, log);
        let put = put_log(front, log);
        to_multiset_build(put, sorted.last());
        to_multiset_build(front, sorted.last());
        assert(front.push(sorted.last()) =~= sorted);
        assert(put.push(sorted.last()).to_multiset() =~= sorted.to_multiset().insert(log));
        let t = put.push(sorted.last());
        assert forall|i: int| 0 <= i < put.len() implies (#[trigger] put[i]).place
            <= sorted.last().place by {
            if front.len() > 0 {
                assert(front.last() == sorted[sorted.len() - 2]);
                assert(sorted[sorted.len() - 2].place <= sorted[sorted.len() - 1].place);
            }
        }
        assert forall|i: int, j: int| 0 <= i <= j < t.len() implies (#[trigger] t[i]).place <= (
        #[trigger] t[j]).place by {
            if j == put.len() && i < j {
                assert(t[i] == put[i]);
            }
        }
    }
}

/// The logs by age are the same logs, from oldest to newest.
pub proof fn lemma_by_age(logs: Seq<LogView>)
    ensures
        aged(by_age(logs)),
        by_age(logs).to_multiset() == logs.to_multiset(),
        by_age(logs).len() == logs.len(),
    decreases logs.len(),
{
    if logs.len() > 0 {
        lemma_by_age(logs.drop_last());
        lemma_put_log(by_age(logs.drop_last()), logs.last());
        to_multiset_build(logs.drop_last(), logs.last());
        assert(logs.drop_last().push(logs.last()) =~= logs);
    } else {
        assert(by_age(logs) =~= logs);
    }
}

impl View for LogEntry {
    type V = LogView;

    closed spec fn view(&self) -> LogView {
        LogView { place: self.place as int, file: self.file@ }
    }
}

/// The mathematical values of some registered logs.
spec fn logs_view(logs: Seq<LogEntry>) -> Seq<LogView> {
    Seq::new(logs.len(), |i: int| logs[i]@)
}

/// The log that a manifest entry registers for a scheme.
fn read_log(entry: &Json, scheme: &str) -> (r: Option<LogEntry>)
    ensures
        match r {
            Some(l) => log_of(entry@, scheme@) == Some(l@),
            None => log_of(entry@, scheme@) is None,
        },
{
    match entry.str_at("schemeIdentifier-schemeName") {
        Some(s) => {
            if !str_eq(s, scheme) {
                return None;
            }
        },
        None => {
            return None;
        },
    }
    let bits = match entry.get("timeStoppedRecording") {
        Some(t) => match t.as_bits() {
            Some(b) => b,
            None => return None,
        },
        None => return None,
    };
    match entry.str_at("fileName") {
        Some(f) => {
            let place: i128 = if bits < 0x8000_0000_0000_0000 {
                bits as i128
            } else {
                0x8000_0000_0000_0000i128 - bits as i128
            };
            Some(LogEntry { place, file: owned(f) })
        },
        None => None,
    }
}

/// The logs that a manifest registers for a scheme.
fn read_logs(manifest: &Json, scheme: &str) -> (r: Vec<LogEntry>)
    ensures
        logs_view(r@) == registered_logs(manifest@, scheme@),
{
    let mut r: Vec<LogEntry> = Vec::new();
    assert(logs_view(r@) =~= Seq::<LogView>::empty());
    let logs = match manifest.get("logs") {
        Some(l) => l,
        None => return r,
    };
    let ms = match logs.as_object() {
        Some(ms) => ms,
        None => return r,
    };
    let ghost mv = members_view(ms@);
    let mut i: usize = 0;
    while i < ms.len()
        invariant
            i <= ms.len(),
            mv == members_view(ms@),
            logs_view(r@) == logs_upto(mv, scheme@, i as int),
        decreases ms.len() - i,
    {
        assert(mv[i as int].1 == ms@[i as int].value@);
        let ghost done = logs_view(r@);
        if let Some(l) = read_log(&ms[i].value, scheme) {
            let ghost lv = l@;
            r.push(l);
            assert(logs_view(r@) =~= done.push(lv));
        }
        i = i + 1;
    }
    r
}

/// The file of the newest log that a manifest registers for a scheme.
pub fn newest_log_filename(manifest: &Json, scheme: &str) -> (r: Option<String>)
    ensures
        match r {
            Some(f) => exists|i: int|
                #![trigger registered_logs(manifest@, scheme@)[i]]
                is_newest(registered_logs(manifest@, scheme@), i) && registered_logs(
                    manifest@,
                    scheme@,
                )[i].file == f@,
            None => registered_logs(manifest@, scheme@).len() == 0,
        },
{
    let logs = read_logs(manifest, scheme);
    let ghost lv = logs_view(logs@);
    if logs.len() == 0 {
        return None;
    }
    let mut best: usize = 0;
    let mut i: usize = 1;
    while i < logs.len()
        invariant
            best < i <= logs.len(),
            lv == logs_view(logs@),
            is_newest(lv.take(i as int), best as int),
        decreases logs.len() - i,
    {
        assert(lv[i as int] == logs@[i as int]@);
        assert(lv[best as int] == logs@[best as int]@);
        let ghost seen = lv.take(i as int);
        let ghost next = lv.take(i + 1);
        assert(forall|k: int| 0 <= k < i ==> #[trigger] next[k] == seen[k]);
        if logs[i].place > logs[best].place {
            best = i;
        }
        i = i + 1;
    }
    assert(lv.take(lv.len() as int) =~= lv);
    assert(lv[best as int] == logs@[best as int]@);
    Some(owned(logs[best].file.as_str()))
}

/// The files of some logs.
pub open spec fn log_files(logs: Seq<LogView>) -> Seq<Seq<char>> {
    Seq::new(logs.len(), |i: int| logs[i].file)
}

/// Put a log into its place.
fn insert_log(sorted: &mut Vec<LogEntry>, log: LogEntry)
    ensures
        logs_view(final(sorted)@) == put_log(logs_view(old(sorted)@), log@),
    decreases old(sorted)@.len(),
{
    let ghost before = logs_view(sorted@);
    let n: usize = sorted.len();
    proof {
        if n > 0 {
            assert(before.last() == sorted@[n - 1]@);
        }
    }
    if n == 0 || sorted[n - 1].place <= log.place {
        let ghost lv = log@;
        sorted.push(log);
        assert(logs_view(sorted@) =~= before.push(lv));
    } else {
        match sorted.pop() {
            Some(last) => {
                let ghost lv = last@;
                assert(logs_view(sorted@) =~= before.drop_last());
                insert_log(sorted, log);
                let ghost put = logs_view(sorted@);
                sorted.push(last);
                assert(logs_view(sorted@) =~= put.push(lv));
            },
            None => {},
        }
    }
}

/// The files of the logs that a manifest registers for a scheme, oldest first.
pub fn logs_for_scheme_sorted(manifest: &Json, scheme: &str) -> (r: Vec<String>)
    ensures
        texts(r@) == log_files(by_age(registered_logs(manifest@, scheme@))),
{
    let logs = read_logs(manifest, scheme);
    let ghost lv = logs_view(logs@);
    let mut sorted: Vec<LogEntry> = Vec::new();
    let mut i: usize = 0;
    assert(logs_view(sorted@) =~= by_age(lv.take(0)));
    while i < logs.len()
        invariant
            i <= logs.len(),
            lv == logs_view(logs@),
            logs_view(sorted@) == by_age(lv.take(i as int)),
        decreases logs.len() - i,
    {
        assert(lv[i as int] == logs@[i as int]@);
        let log = LogEntry { place: logs[i].place, file: owned(logs[i].file.as_str()) };
        assert(lv.take(i + 1).drop_last() =~= lv.take(i as int));
        insert_log(&mut sorted, log);
        i = i + 1;
    }
    assert(lv.take(lv.len() as int) =~= lv);
    let ghost sv = logs_view(sorted@);
    let mut r: Vec<String> = Vec::new();
    let mut j: usize = 0;
    assert(texts(r@) =~= log_files(sv).take(0));
    while j < sorted.len()
        invariant
            j <= sorted.len(),
            sv == logs_view(sorted@),
            texts(r@) == log_files(sv).take(j as int),
        decreases sorted.len() - j,
    {
        assert(sv[j as int] == sorted@[j as int]@);
        push_text(&mut r, sorted[j].file.as_str());
        assert(log_files(sv).take(j + 1) =~= log_files(sv).take(j as int).push(
            log_files(sv)[j as int],
        ));
        j = j + 1;
    }
    assert(log_files(sv).take(sv.len() as int) =~= log_files(sv));
    r
}

/// The path of a log file under a build root.
pub open spec fn log_path(build_root: Seq<char>, file: Seq<char>) -> Seq<char> {
    joined(joined(build_root, "Logs/Build"@), file)
}

/// The path of the manifest under a build root.
pub fn manifest_path(build_root: &str) -> (r: String)
    ensures
        r@ == joined(build_root@, "Logs/Build/LogStoreManifest.plist"@),
{
    join(build_root, "Logs/Build/LogStoreManifest.plist")
}

/// The newest log registered for a scheme under a build root, from the manifest
/// as JSON. In-flight and cancelled builds leave an unregistered log, so the
/// manifest never leads to a partial one.
pub fn newest_log(build_root: &str, manifest: &[u8], scheme: &str) -> (r: Option<String>)
    ensures
        match serde_parse(manifest@) {
            Ok(m) => match r {
                Some(p) => exists|i: int|
                    #![trigger registered_logs(m, scheme@)[i]]
                    is_newest(registered_logs(m, scheme@), i) && p@ == log_path(
                        build_root@,
                        registered_logs(m, scheme@)[i].file,
                    ),
                None => registered_logs(m, scheme@).len() == 0,
            },
            Err(_) => r is None,
        },
{
    match parse(manifest) {
        Ok(m) => match newest_log_filename(&m, scheme) {
            Some(f) => Some(join(join(build_root, "Logs/Build").as_str(), f.as_str())),
            None => None,
        },
        Err(_) => None,
    }
}

/// Every log registered for a scheme under a build root, oldest first, from the
/// manifest as JSON; nothing where the manifest cannot be read.
pub fn logs_for_scheme(build_root: &str, manifest: &[u8], scheme: &str) -> (r: Vec<String>)
    ensures
        texts(r@) == match serde_parse(manifest@) {
            Ok(m) => log_files(by_age(registered_logs(m, scheme@))).map_values(
                |f: Seq<char>| log_path(build_root@, f),
            ),
            Err(_) => Seq::empty(),
        },
{
    let mut r: Vec<String> = Vec::new();
    assert(texts(r@) =~= Seq::<Seq<char>>::empty());
    match parse(manifest) {
        Ok(m) => {
            let files = logs_for_scheme_sorted(&m, scheme);
            let ghost fv = texts(files@);
            let mut i: usize = 0;
            while i < files.len()
                invariant
                    i <= files.len(),
                    fv == texts(files@),
                    texts(r@).len() == i,
                    forall|k: int|
                        0 <= k < i ==> #[trigger] texts(r@)[k] == log_path(build_root@, fv[k]),
                decreases files.len() - i,
            {
                assert(fv[i as int] == files@[i as int]@);
                let path = join(join(build_root, "Logs/Build").as_str(), files[i].as_str());
                let ghost done = texts(r@);
                push_text(&mut r, path.as_str());
                assert(forall|k: int| 0 <= k < i ==> #[trigger] texts(r@)[k] == done[k]);
                i = i + 1;
            }
            assert(texts(r@) =~= fv.map_values(|f: Seq<char>| log_path(build_root@, f)));
            r
        },
        Err(_) => r,
    }
}

} // verus!
