//! What is read out of Xcode's build logs: which commands compile Swift, what they say of
//! their modules, and how a command line falls into words.

use crate::engine::log_manifest::double_place;
use crate::engine::log_manifest::log_of;
use crate::engine::log_manifest::log_path;
use crate::engine::log_manifest::logs_upto;
use crate::engine::log_manifest::registered_logs;
use crate::engine::shell_words::double_quoted;
use crate::engine::shell_words::single_end;
use crate::engine::shell_words::word_at;
use crate::engine::shell_words::words_from;
use crate::engine::shell_words::words_of;
use crate::engine::slf::delim_from;
use crate::engine::slf::has_gzip_header;
use crate::engine::slf::has_payload;
use crate::engine::slf::is_delim;
use crate::engine::slf::lemma_slf_read_back;
use crate::engine::slf::slf_texts;
use crate::engine::slf::strings_from;
use crate::engine::slf::token_texts;
use crate::engine::slf::tokens_bytes;
use crate::engine::slf::Token;
use crate::engine::xcactivitylog::arg_after;
use crate::engine::xcactivitylog::body_from;
use crate::engine::xcactivitylog::candidates;
use crate::engine::xcactivitylog::cd_from;
use crate::engine::xcactivitylog::collected;
use crate::engine::xcactivitylog::invocation;
use crate::engine::xcactivitylog::lists_modules;
use crate::engine::xcactivitylog::module_names;
use crate::engine::xcactivitylog::module_of;
use crate::engine::xcactivitylog::response_files;
use crate::engine::xcactivitylog::section_end;
use crate::engine::xcactivitylog::section_module;
use crate::engine::xcactivitylog::section_start;
use crate::engine::xcactivitylog::section_title;
use crate::engine::xcactivitylog::store_beside;
use crate::engine::xcactivitylog::stream_modules;
use crate::engine::xcactivitylog::swift_files;
use crate::engine::xcactivitylog::ModuleView;
use crate::json::JsonView;
use crate::number::decimal;
use crate::text::first_at;
use crate::text::has_infix;
use crate::text::has_prefix;
use crate::text::has_suffix;
use crate::text::is_space;
use crate::text::lemma_char_from;
use crate::text::lemma_first_at;
use crate::text::lossy_text;
use crate::text::occurs_at;
use crate::text::trimmed;
use crate::util::name_map::rising;
use crate::util::paths::joined;
use vstd::prelude::*;
use vstd::utf8::encode_utf8;

verus! {

// ---------------------------------------------------------------------------
// words
// ---------------------------------------------------------------------------

/// Whether a character stands for itself in a command line.
pub open spec fn stands_for_itself(c: char) -> bool {
    !is_space(c) && c != '\\' && c != '\'' && c != '"'
}

/// Whether the characters from `i` to `j` stand for themselves.
pub open spec fn plain_run(cs: Seq<char>, i: int, j: int) -> bool {
    0 <= i <= j <= cs.len() && forall|k: int| i <= k < j ==> stands_for_itself(#[trigger] cs[k])
}

/// Whether a word cannot go on at `j`.
pub open spec fn word_over(cs: Seq<char>, j: int) -> bool {
    j == cs.len() || (0 <= j < cs.len() && is_space(cs[j]))
}

/// A run of characters that stand for themselves is the start of the word.
proof fn lemma_run(cs: Seq<char>, i: int, j: int)
    requires
        plain_run(cs, i, j),
    ensures
        word_at(cs, i).0 == cs.subrange(i, j) + word_at(cs, j).0,
        word_at(cs, i).1 == word_at(cs, j).1,
    decreases j - i,
{
    if i < j {
        assert(stands_for_itself(cs[i]));
        lemma_run(cs, i + 1, j);
        assert(seq![cs[i]] + (cs.subrange(i + 1, j) + word_at(cs, j).0) =~= cs.subrange(i, j)
            + word_at(cs, j).0);
    } else {
        assert(cs.subrange(i, j) + word_at(cs, j).0 =~= word_at(cs, j).0);
    }
}

/// A word without anything special is what stands there, up to the next white space.
pub proof fn lemma_plain_word(cs: Seq<char>, i: int, j: int)
    requires
        plain_run(cs, i, j),
        i < j,
        word_over(cs, j),
    ensures
        words_from(cs, i) == seq![cs.subrange(i, j)] + words_from(cs, j),
{
    lemma_run(cs, i, j);
    assert(stands_for_itself(cs[i]));
    assert(word_at(cs, j).0 =~= Seq::<char>::empty());
    assert(word_at(cs, i).0 =~= cs.subrange(i, j));
}

/// White space only parts words.
pub proof fn lemma_space_parts(cs: Seq<char>, i: int)
    requires
        0 <= i < cs.len(),
        is_space(cs[i]),
    ensures
        words_from(cs, i) == words_from(cs, i + 1),
        words_of(cs) == words_from(cs, 0),
        words_from(cs, cs.len() as int) == Seq::<Seq<char>>::empty(),
{
}

/// What stands in single quotes is one word as it is, with its white space.
pub proof fn lemma_single_quoted_word(cs: Seq<char>, i: int, k: int)
    requires
        0 <= i < k < cs.len(),
        cs[i] == '\'',
        cs[k] == '\'',
        forall|m: int| i < m < k ==> #[trigger] cs[m] != '\'',
        word_over(cs, k + 1),
    ensures
        words_from(cs, i) == seq![cs.subrange(i + 1, k)] + words_from(cs, k + 1),
{
    lemma_char_from(cs, '\'', i + 1);
    assert(single_end(cs, i + 1) == k);
    assert(word_at(cs, k + 1).0 =~= Seq::<char>::empty());
    assert(word_at(cs, i).0 =~= cs.subrange(i + 1, k));
}

/// What stands in double quotes, without a quote or a backslash in it, is one word as it is.
pub proof fn lemma_double_quoted_word(cs: Seq<char>, i: int, k: int)
    requires
        0 <= i < k < cs.len(),
        cs[i] == '"',
        cs[k] == '"',
        forall|m: int| i < m < k ==> #[trigger] cs[m] != '"' && cs[m] != '\\',
        word_over(cs, k + 1),
    ensures
        words_from(cs, i) == seq![cs.subrange(i + 1, k)] + words_from(cs, k + 1),
{
    lemma_double_run(cs, i + 1, k);
    assert(word_at(cs, k + 1).0 =~= Seq::<char>::empty());
    assert(word_at(cs, i).0 =~= cs.subrange(i + 1, k));
}

/// The inside of a double-quoted run.
proof fn lemma_double_run(cs: Seq<char>, i: int, k: int)
    requires
        0 <= i <= k < cs.len(),
        cs[k] == '"',
        forall|m: int| i <= m < k ==> #[trigger] cs[m] != '"' && cs[m] != '\\',
    ensures
        double_quoted(cs, i) == (cs.subrange(i, k), k + 1),
    decreases k - i,
{
    if i < k {
        assert(cs[i] != '"' && cs[i] != '\\');
        lemma_double_run(cs, i + 1, k);
        assert(seq![cs[i]] + cs.subrange(i + 1, k) =~= cs.subrange(i, k));
    } else {
        assert(cs.subrange(i, k) =~= Seq::<char>::empty());
    }
}

/// An escaped space does not end a word, and is a space in it.
pub proof fn lemma_escaped_space(cs: Seq<char>, i: int, j: int, k: int)
    requires
        plain_run(cs, i, j),
        j + 2 <= k,
        k <= cs.len(),
        cs[j] == '\\',
        cs[j + 1] == ' ',
        plain_run(cs, j + 2, k),
        word_over(cs, k),
    ensures
        words_from(cs, i) == seq![cs.subrange(i, j) + seq![' '] + cs.subrange(j + 2, k)]
            + words_from(cs, k),
{
    lemma_run(cs, i, j);
    lemma_run(cs, j + 2, k);
    assert(word_at(cs, k).0 =~= Seq::<char>::empty());
    if i < j {
        assert(stands_for_itself(cs[i]));
    }
    assert(word_at(cs, i).0 =~= cs.subrange(i, j) + seq![' '] + cs.subrange(j + 2, k));
}

// ---------------------------------------------------------------------------
// modules
// ---------------------------------------------------------------------------

/// The value of a flag is what follows its first occurrence.
pub proof fn lemma_flag_value(args: Seq<Seq<char>>, flag: Seq<char>, i: int, k: int)
    requires
        0 <= i,
    ensures
        i <= k < args.len() && args[k] == flag && (forall|j: int|
            i <= j < k ==> #[trigger] args[j] != flag) ==> arg_after(args, flag, i) == if k + 1
            < args.len() {
            Some(args[k + 1])
        } else {
            None
        },
        (forall|j: int| i <= j < args.len() ==> #[trigger] args[j] != flag) ==> arg_after(
            args,
            flag,
            i,
        ) is None,
    decreases args.len() - i,
{
    if i < args.len() {
        if args[i] != flag {
            lemma_flag_value(args, flag, i + 1, k);
        }
    }
}

/// A compile command says the module's name, and everything that it was called with but its
/// own name is kept; its files are the Swift files among its arguments, its response files
/// those that list Swift files. It ran where it says, else where the log changed to.
pub proof fn lemma_module_read(args: Seq<Seq<char>>, body: Seq<Seq<char>>)
    requires
        args.len() > 0,
    ensures
        ({
            let name = arg_after(args, "-module-name"@, 0);
            &&& module_of(args, body) is Some <==> name is Some && name->0.len() > 0
            &&& module_of(args, body) matches Some(m) ==> {
                &&& m.name == name->0
                &&& m.args.len() == args.len() - 1
                &&& forall|k: int| 0 <= k < m.args.len() ==> #[trigger] m.args[k] == args[k + 1]
                &&& arg_after(args, "-working-directory"@, 0) matches Some(d) ==> m.working_dir
                    == d
                &&& arg_after(args, "-working-directory"@, 0) is None ==> (cd_from(
                    body,
                    0,
                ) matches Some(d) ==> m.working_dir == d)
                &&& arg_after(args, "-index-store-path"@, 0) is Some ==> m.index_store_path
                    == arg_after(args, "-index-store-path"@, 0)
                &&& m.files == swift_files(args, args.len() as int)
                &&& m.file_lists == response_files(args, args.len() as int)
            }
        }),
{
}

/// The files of a command are its arguments that end in `.swift`, each of them and no other.
pub proof fn lemma_swift_files(args: Seq<Seq<char>>, n: int, k: int)
    requires
        0 <= n <= args.len(),
    ensures
        0 <= k < n && has_suffix(args[k], ".swift"@) ==> swift_files(args, n).contains(args[k]),
        0 <= k < swift_files(args, n).len() ==> has_suffix(swift_files(args, n)[k], ".swift"@)
            && args.contains(swift_files(args, n)[k]),
    decreases n,
{
    if n > 0 {
        lemma_swift_files(args, n - 1, k);
        let before = swift_files(args, n - 1);
        let now = swift_files(args, n);
        assert(args.contains(args[n - 1]));
        if 0 <= k < n && has_suffix(args[k], ".swift"@) {
            if k == n - 1 {
                assert(now[before.len() as int] == args[k]);
            } else {
                let at = choose|at: int| 0 <= at < before.len() && before[at] == args[k];
                assert(now[at] == args[k]);
            }
        }
    }
}

/// The response files of a command are its arguments that start with `@` and end in
/// `.SwiftFileList`, without the `@`.
pub proof fn lemma_response_files(args: Seq<Seq<char>>, n: int, k: int)
    requires
        0 <= n <= args.len(),
    ensures
        0 <= k < n && args[k].len() > 0 && args[k][0] == '@' && has_suffix(
            args[k],
            ".SwiftFileList"@,
        ) ==> response_files(args, n).contains(args[k].skip(1)),
        0 <= k < response_files(args, n).len() ==> args.contains(
            seq!['@'] + response_files(args, n)[k],
        ),
    decreases n,
{
    if n > 0 {
        lemma_response_files(args, n - 1, k);
        let before = response_files(args, n - 1);
        let now = response_files(args, n);
        if 0 <= k < n && args[k].len() > 0 && args[k][0] == '@' && has_suffix(
            args[k],
            ".SwiftFileList"@,
        ) {
            if k == n - 1 {
                assert(now[before.len() as int] == args[k].skip(1));
            } else {
                let at = choose|at: int| 0 <= at < before.len() && before[at] == args[k].skip(1);
                assert(now[at] == args[k].skip(1));
            }
        }
        if 0 <= k < now.len() {
            if k == before.len() {
                assert(seq!['@'] + now[k] =~= args[n - 1]);
            }
        }
    }
}

/// The directory that a log changed to is the second word of its first `cd` line.
pub proof fn lemma_cd_found(body: Seq<Seq<char>>, i: int, k: int)
    requires
        0 <= i <= k < body.len(),
        has_prefix(body[k], "cd "@),
        words_of(body[k]).len() > 1,
        forall|j: int| i <= j < k ==> !has_prefix(#[trigger] body[j], "cd "@),
    ensures
        cd_from(body, i) == Some(words_of(body[k])[1]),
    decreases k - i,
{
    if i < k {
        assert(!has_prefix(body[i], "cd "@));
        lemma_cd_found(body, i + 1, k);
    }
}

/// A command compiles Swift where it runs `swiftc`, itself or behind Xcode's own driver; the
/// driver's words in front are not part of it.
pub proof fn lemma_invocations(command: Seq<char>, rest: Seq<char>)
    ensures
        !has_infix(command, " -- "@) && !has_prefix(command, "builtin-Swift-Compilation -- "@)
            && !has_prefix(command, "builtin-SwiftDriver -- "@) ==> (invocation(command)
            == if has_infix(command, "bin/swiftc "@) {
            Some(command)
        } else {
            None
        }),
        invocation(command) matches Some(r) ==> has_infix(r, "bin/swiftc "@) && (exists|k: int|
            0 <= k <= command.len() && r == #[trigger] command.skip(k)),
        has_infix(command, " -- "@) && !has_prefix(command, "builtin-Swift-Compilation -- "@)
            && !has_prefix(command, "builtin-SwiftDriver -- "@) ==> invocation(command) is None,
        has_infix(rest, "bin/swiftc "@) ==> invocation("builtin-SwiftDriver -- "@ + rest) == Some(
            rest,
        ) && invocation("builtin-Swift-Compilation -- "@ + rest) == Some(rest),
{
    assert(command.skip(0) =~= command);
    reveal_strlit(" -- ");
    lemma_first_at(command, " -- "@, 0);
    if let Some(r) = invocation(command) {
        if let Some(i) = first_at(command, " -- "@, 0) {
            assert(0 <= i + 4 <= command.len());
            assert(r == command.skip(i + 4) || r == command.skip(0));
        }
    }
    if has_infix(rest, "bin/swiftc "@) {
        lemma_behind_driver("builtin-SwiftDriver -- "@, rest);
        lemma_behind_driver("builtin-Swift-Compilation -- "@, rest);
    }
}

/// What stands behind a driver's name and its dashes is the command.
proof fn lemma_behind_driver(driver: Seq<char>, rest: Seq<char>)
    requires
        driver == "builtin-SwiftDriver -- "@ || driver == "builtin-Swift-Compilation -- "@,
        has_infix(rest, "bin/swiftc "@),
    ensures
        invocation(driver + rest) == Some(rest),
{
    reveal_strlit("builtin-SwiftDriver -- ");
    reveal_strlit("builtin-Swift-Compilation -- ");
    reveal_strlit(" -- ");
    let c = driver + rest;
    let n = driver.len() as int;
    let d = " -- "@;
    assert(c.subrange(0, n) =~= driver);
    assert(c.subrange(n - 4, n) =~= d);
    assert(occurs_at(c, d, n - 4));
    lemma_first_at(c, d, 0);
    let i = first_at(c, d, 0)->0;
    if i < n - 4 {
        assert(c.subrange(i, i + 4) == d);
        assert(c.subrange(i, i + 4)[0] == ' ');
        assert(c[i] == ' ');
        assert(c[i] == driver[i]);
    }
    assert(c.skip(n) =~= rest);
}

/// Of the sections of a log that compile a module, the last one counts, and no module is
/// left out.
pub proof fn lemma_sections_collected(sections: Seq<Seq<char>>, n: int, k: int)
    requires
        0 <= k < n <= sections.len(),
        section_module(sections[k]) is Some,
        forall|j: int|
            k < j < n ==> !(#[trigger] section_module(sections[j]) is Some && section_module(
                sections[j],
            )->0.name == section_module(sections[k])->0.name),
    ensures
        ({
            let m = section_module(sections[k])->0;
            collected(sections, n).dom().contains(m.name) && collected(sections, n)[m.name] == m
        }),
    decreases n,
{
    if n - 1 > k {
        lemma_sections_collected(sections, n - 1, k);
        assert(!(section_module(sections[n - 1]) is Some && section_module(sections[n - 1])->0.name
            == section_module(sections[k])->0.name));
    }
}

/// A section that may compile Swift starts with one of the three names that Xcode gives to
/// such a step.
pub proof fn lemma_section_titles(s: Seq<char>)
    ensures
        section_title(s) <==> has_prefix(s, "SwiftDriver "@) || has_prefix(
            s,
            "SwiftDriver\\ Compilation "@,
        ) || has_prefix(s, "CompileSwiftSources "@),
{
}

// ---------------------------------------------------------------------------
// the log store
// ---------------------------------------------------------------------------

/// The log of a build is listed under the scheme that it built, with its file and the time
/// at which it stopped; a log of another scheme is not.
pub proof fn lemma_log_reads(entry: JsonView, scheme: Seq<char>)
    ensures
        log_of(entry, scheme) matches Some(l) ==> {
            &&& entry.str_at("schemeIdentifier-schemeName"@) == Some(scheme)
            &&& entry.str_at("fileName"@) == Some(l.file)
            &&& entry.get("timeStoppedRecording"@) matches Some(t) && t.as_bits() is Some
                && l.place == double_place(t.as_bits()->0)
        },
        entry.str_at("schemeIdentifier-schemeName"@) == Some(scheme) && entry.str_at("fileName"@)
            is Some && (entry.get("timeStoppedRecording"@) matches Some(t) && t.as_bits() is Some)
            ==> log_of(entry, scheme) is Some,
{
}

/// Times that are not negative are placed as their bits are, and before them those that are,
/// the other way round.
pub proof fn lemma_times_placed(a: u64, b: u64)
    ensures
        a < b < 0x8000_0000_0000_0000 ==> double_place(a) < double_place(b),
        a < 0x8000_0000_0000_0000 <= b ==> double_place(b) <= double_place(a),
        0x8000_0000_0000_0000 <= a < b ==> double_place(b) < double_place(a),
{
}

/// Every log of the manifest that is of the scheme is listed, and no other is.
pub proof fn lemma_logs_listed(
    ms: Seq<(Seq<char>, JsonView)>,
    scheme: Seq<char>,
    n: int,
    k: int,
)
    requires
        0 <= n <= ms.len(),
    ensures
        0 <= k < n && log_of(ms[k].1, scheme) is Some ==> logs_upto(ms, scheme, n).contains(
            log_of(ms[k].1, scheme)->0,
        ),
        0 <= k < logs_upto(ms, scheme, n).len() ==> exists|i: int|
            0 <= i < n && log_of((#[trigger] ms[i]).1, scheme) == Some(
                logs_upto(ms, scheme, n)[k],
            ),
    decreases n,
{
    if n > 0 {
        lemma_logs_listed(ms, scheme, n - 1, k);
        let before = logs_upto(ms, scheme, n - 1);
        let now = logs_upto(ms, scheme, n);
        if 0 <= k < n && log_of(ms[k].1, scheme) is Some {
            let l = log_of(ms[k].1, scheme)->0;
            if k == n - 1 {
                assert(now[before.len() as int] == l);
            } else {
                let at = choose|at: int| 0 <= at < before.len() && before[at] == l;
                assert(now[at] == l);
            }
        }
        if 0 <= k < now.len() {
            if k < before.len() {
                let i = choose|i: int|
                    0 <= i < n - 1 && log_of((#[trigger] ms[i]).1, scheme) == Some(before[k]);
                assert(log_of(ms[i].1, scheme) == Some(now[k]));
            } else {
                assert(log_of(ms[n - 1].1, scheme) == Some(now[k]));
            }
        }
    }
}

/// The logs of a build root lie in its own log directory.
pub proof fn lemma_log_places(build_root: Seq<char>, file: Seq<char>)
    ensures
        log_path(build_root, file) == joined(joined(build_root, "Logs/Build"@), file),
{
}

/// A stream of one text gives that text: its length in digits, a quote, and its bytes behind
/// the four letters that open a log.
pub proof fn lemma_one_text(p: Seq<u8>)
    requires
        p.len() <= usize::MAX,
    ensures
        slf_texts(
            seq![0x53u8, 0x4cu8, 0x46u8, 0x30u8] + (encode_utf8(decimal(p.len())) + seq![0x22u8]
                + p),
        ) == seq![lossy_text(p)],
{
    let toks = seq![Token::Text(p)];
    lemma_slf_read_back(toks);
    reveal_with_fuel(tokens_bytes, 2);
    reveal_with_fuel(token_texts, 2);
    assert(toks[0] == Token::Text(p));
    assert(toks.drop_first() =~= Seq::<Token>::empty());
    assert(tokens_bytes(toks) =~= encode_utf8(decimal(p.len())) + seq![0x22u8] + p);
    assert(token_texts(toks) =~= seq![lossy_text(p)]);
}

/// What does not open as a log holds no text.
pub proof fn lemma_no_log(data: Seq<u8>)
    requires
        data.len() < 4 || data[0] != 0x53 || data[1] != 0x4c || data[2] != 0x46 || data[3] != 0x30,
    ensures
        slf_texts(data).len() == 0,
{
    if data.len() >= 4 {
        let m = seq![0x53u8, 0x4cu8, 0x46u8, 0x30u8];
        if data.take(4) == m {
            assert(data.take(4)[0] == m[0] && data.take(4)[1] == m[1] && data.take(4)[2] == m[2]
                && data.take(4)[3] == m[3]);
        }
    }
}

/// The logs of a scheme are looked for among the `logs` of the manifest.
pub proof fn lemma_manifest_logs(v: JsonView, ms: Seq<(Seq<char>, JsonView)>, scheme: Seq<char>)
    ensures
        v.get("logs"@) == Some(JsonView::Object(ms)) ==> registered_logs(v, scheme) == logs_upto(
            ms,
            scheme,
            ms.len() as int,
        ),
        v.get("logs"@) is None ==> registered_logs(v, scheme).len() == 0,
{
}

/// Exactly those strings of a log are read as sections whose title says that Swift was
/// compiled.
pub proof fn lemma_sections_taken(strings: Seq<Seq<char>>, n: int, k: int)
    requires
        0 <= n <= strings.len(),
    ensures
        0 <= k < n && section_title(strings[k]) ==> candidates(strings, n).contains(strings[k]),
        0 <= k < candidates(strings, n).len() ==> section_title(candidates(strings, n)[k])
            && strings.contains(candidates(strings, n)[k]),
        candidates(strings, n).len() <= n,
    decreases n,
{
    if n > 0 {
        lemma_sections_taken(strings, n - 1, k);
        let before = candidates(strings, n - 1);
        let now = candidates(strings, n);
        if 0 <= k < n && section_title(strings[k]) {
            if k < n - 1 {
                let at = choose|at: int| 0 <= at < before.len() && before[at] == strings[k];
                assert(now[at] == strings[k]);
            } else {
                assert(now[before.len() as int] == strings[k]);
            }
        }
        if 0 <= k < now.len() && k >= before.len() {
            assert(now[k] == strings[n - 1]);
        }
    }
}

/// The modules of a log are those of its sections, each once and in the order of their names.
pub proof fn lemma_modules_listed(data: Seq<u8>, ms: Seq<ModuleView>, name: Seq<char>)
    requires
        lists_modules(ms, stream_modules(data)),
    ensures
        ({
            let sections = candidates(slf_texts(data), slf_texts(data).len() as int);
            let by_name = collected(sections, sections.len() as int);
            &&& by_name.dom().contains(name) ==> exists|i: int|
                0 <= i < ms.len() && (#[trigger] ms[i]).name == name && ms[i] == by_name[name]
            &&& !by_name.dom().contains(name) ==> forall|i: int|
                0 <= i < ms.len() ==> (#[trigger] ms[i]).name != name
            &&& rising(module_names(ms))
        }),
{
    let names = module_names(ms);
    if names.contains(name) {
        let i = choose|i: int| 0 <= i < names.len() && names[i] == name;
        assert(ms[i].name == name);
    } else {
        assert forall|i: int| 0 <= i < ms.len() implies (#[trigger] ms[i]).name != name by {
            assert(names[i] == ms[i].name);
        }
    }
}

/// The commands of a section are its lines up to the first empty one, without the white space
/// round them.
pub proof fn lemma_section_body(lines: Seq<Seq<char>>, i: int, n: int)
    requires
        0 <= i <= n <= lines.len(),
        forall|k: int| i <= k < n ==> trimmed(#[trigger] lines[k]).len() > 0,
        n == lines.len() || trimmed(lines[n]).len() == 0,
    ensures
        body_from(lines, i).len() == n - i,
        forall|k: int| i <= k < n ==> body_from(lines, i)[k - i] == trimmed(#[trigger] lines[k]),
    decreases n - i,
{
    if i < n {
        lemma_section_body(lines, i + 1, n);
        let rest = body_from(lines, i + 1);
        assert forall|k: int| i <= k < n implies body_from(lines, i)[k - i] == trimmed(
            #[trigger] lines[k],
        ) by {
            if k > i {
                assert(body_from(lines, i)[k - i] == rest[k - i - 1]);
            }
        }
    }
}

/// A section goes on up to the first empty line or the title of the next.
pub proof fn lemma_section_ends(lines: Seq<Seq<char>>, i: int, n: int)
    requires
        0 <= i <= n <= lines.len(),
        forall|k: int|
            i <= k < n ==> trimmed(#[trigger] lines[k]).len() > 0 && !section_start(lines[k]),
        n == lines.len() || trimmed(lines[n]).len() == 0 || section_start(lines[n]),
    ensures
        section_end(lines, i) == n,
    decreases n - i,
{
    if i < n {
        assert(trimmed(lines[i]).len() > 0);
        lemma_section_ends(lines, i + 1, n);
    }
}

/// A title stands at the beginning of its line.
pub proof fn lemma_title_at_line_start(line: Seq<char>)
    ensures
        section_start(line) ==> section_title(line),
        line.len() > 0 && line[0] == ' ' ==> !section_start(line),
        line.len() > 0 && !is_space(line[0]) && section_title(line) ==> section_start(line),
{
}

/// Only a stream that begins with its mark is read.
pub proof fn lemma_stream_mark(data: Seq<u8>)
    ensures
        data.len() < 4 ==> slf_texts(data).len() == 0,
        data.len() >= 4 && !(data[0] as char == 'S' && data[1] as char == 'L' && data[2] as char
            == 'F' && data[3] as char == '0') ==> slf_texts(data).len() == 0,
        data.len() >= 4 && data[0] as char == 'S' && data[1] as char == 'L' && data[2] as char
            == 'F' && data[3] as char == '0' ==> slf_texts(data) == strings_from(data, 4),
{
    let mark = seq![0x53u8, 0x4cu8, 0x46u8, 0x30u8];
    if data.len() >= 4 {
        if data.take(4) == mark {
            assert(data.take(4)[0] == data[0] && data.take(4)[1] == data[1] && data.take(4)[2]
                == data[2] && data.take(4)[3] == data[3]);
        }
        if data[0] as char == 'S' && data[1] as char == 'L' && data[2] as char == 'F'
            && data[3] as char == '0' {
            assert(data.take(4) =~= mark);
        }
    }
}

/// The tokens of a stream end at one of eight signs; behind a quotation mark, a percent sign
/// and an asterisk stands as much as the number in front of it says.
pub proof fn lemma_stream_signs(b: u8)
    ensures
        is_delim(b) <==> b as char == '"' || b as char == '#' || b as char == '^' || b as char
            == '(' || b as char == '%' || b as char == '@' || b as char == '-' || b as char == '*',
        has_payload(b) <==> b as char == '"' || b as char == '%' || b as char == '*',
        has_payload(b) ==> is_delim(b),
{
}

/// A gzip stream begins with its two marks and has room for a header.
pub proof fn lemma_gzip_mark(bytes: Seq<u8>)
    ensures
        has_gzip_header(bytes) ==> bytes.len() >= 10 && bytes[0] == 31 && bytes[1] == 139,
        bytes.len() >= 10 && bytes[0] == 31 && bytes[1] == 139 ==> has_gzip_header(bytes),
{
}

/// A token ends at the first delimiter.
pub proof fn lemma_token_ends(data: Seq<u8>, i: int, n: int)
    requires
        0 <= i <= n <= data.len(),
        forall|k: int| i <= k < n ==> !is_delim(#[trigger] data[k]),
        n == data.len() || is_delim(data[n]),
    ensures
        delim_from(data, i) == n,
    decreases n - i,
{
    if i < n {
        assert(!is_delim(data[i]));
        lemma_token_ends(data, i + 1, n);
    }
}

/// The index store is looked for only beside a path from the root.
pub proof fn lemma_store_beside_path(arg: Seq<char>)
    ensures
        arg.len() == 0 || arg[0] != '/' ==> store_beside(arg) is None,
        !has_infix(arg, "/Build/Intermediates.noindex"@) ==> store_beside(arg) is None,
        store_beside(arg) matches Some(s) ==> has_suffix(s, "/Index.noindex/DataStore"@)
            && has_prefix(arg, s.take(s.len() - 24)),
{
    lemma_first_at(arg, "/Build/Intermediates.noindex"@, 0);
    reveal_strlit("/Index.noindex/DataStore");
    if let Some(s) = store_beside(arg) {
        let i = first_at(arg, "/Build/Intermediates.noindex"@, 0)->0;
        let e = "/Index.noindex/DataStore"@;
        assert(s =~= arg.take(i) + e);
        assert(s.subrange(s.len() - e.len(), s.len() as int) =~= e);
        assert(s.take(s.len() - 24) =~= arg.take(i));
        assert(arg.subrange(0, i) =~= arg.take(i));
    }
}

} // verus!
