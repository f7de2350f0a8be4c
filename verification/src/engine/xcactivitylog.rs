//! Reader for Xcode's `.xcactivitylog` build logs and captured `xcodebuild`
//! output: extracts the per-module `swiftc` invocations that a Build Server
//! needs to answer compile-argument queries.

use crate::engine::shell_words::shell_split;
use crate::engine::shell_words::words_of;
use crate::engine::slf::gunzip_partial;
use crate::engine::slf::gunzipped;
use crate::engine::slf::has_gzip_header;
use crate::engine::slf::inflates_to;
use crate::engine::slf::slf_strings;
use crate::engine::slf::slf_texts;
use crate::text::chars_of;
use crate::text::contains;
use crate::text::copy_opt;
use crate::text::copy_texts;
use crate::text::ends_with;
use crate::text::find_from;
use crate::text::first_at;
use crate::text::has_infix;
use crate::text::has_prefix;
use crate::text::has_suffix;
use crate::text::is_space;
use crate::text::join_with;
use crate::text::joined_with;
use crate::text::lemma_first_at;
use crate::text::lines;
use crate::text::lines_of;
use crate::text::opt_view;
use crate::text::owned;
use crate::text::push_text;
use crate::text::starts_with;
use crate::text::str_eq;
use crate::text::string_of;
use crate::text::texts;
use crate::text::texts_from;
use crate::text::texts_range;
use crate::text::trim;
use crate::text::trimmed;
use crate::text::whitespace;
use crate::util::name_map::rising;
use crate::util::name_map::NameMap;
use crate::util::paths::joined;
use vstd::prelude::*;

verus! {

// ---------------------------------------------------------------------------
// section grammar
// ---------------------------------------------------------------------------

/// One Swift module's compile invocation, extracted from a build log.
#[derive(Debug, PartialEq, Eq)]
pub struct ParsedModule {
    /// `-module-name` value; the store keys on this.
    pub module_name: String,
    /// `-working-directory` value, else the section's `cd` directory.
    pub working_dir: String,
    /// `-index-store-path` value, or inferred for index-less (Release) builds.
    pub index_store_path: Option<String>,
    /// `.swift` arguments listed inline on the command (empty for the modern
    /// SwiftDriver form, which lists files in a `.SwiftFileList`).
    pub files: Vec<String>,
    /// `@…SwiftFileList` response-file paths (leading `@` stripped).
    pub file_lists: Vec<String>,
    /// The compiler arguments with `argv[0]` (the `swiftc` path) dropped and
    /// `@…SwiftFileList` args kept verbatim.
    pub args: Vec<String>,
}

/// The mathematical value of a [`ParsedModule`].
#[verifier::ext_equal]
pub struct ModuleView {
    pub name: Seq<char>,
    pub working_dir: Seq<char>,
    pub index_store_path: Option<Seq<char>>,
    pub files: Seq<Seq<char>>,
    pub file_lists: Seq<Seq<char>>,
    pub args: Seq<Seq<char>>,
}

impl View for ParsedModule {
    type V = ModuleView;

    open spec fn view(&self) -> ModuleView {
        ModuleView {
            name: self.module_name@,
            working_dir: self.working_dir@,
            index_store_path: opt_view(self.index_store_path),
            files: texts(self.files@),
            file_lists: texts(self.file_lists@),
            args: texts(self.args@),
        }
    }
}

impl ParsedModule {
    /// A copy of the module.
    pub fn copy(&self) -> (r: ParsedModule)
        ensures
            r@ == self@,
    {
        ParsedModule {
            module_name: owned(self.module_name.as_str()),
            working_dir: owned(self.working_dir.as_str()),
            index_store_path: copy_opt(&self.index_store_path),
            files: copy_texts(&self.files),
            file_lists: copy_texts(&self.file_lists),
            args: copy_texts(&self.args),
        }
    }
}

/// How long the line break at `i` is: none, one character, or a CR with an LF.
pub open spec fn break_len(s: Seq<char>, i: int) -> int {
    if s[i] == '\n' {
        1
    } else if s[i] == '\r' {
        if i + 1 < s.len() && s[i + 1] == '\n' {
            2
        } else {
            1
        }
    } else {
        0
    }
}

/// The lines of a text whose current line starts at `start`, scanned from `i`
/// on: CR, LF and CRLF each end a line, and an empty last line is no line.
pub open spec fn broken_lines(s: Seq<char>, start: int, i: int) -> Seq<Seq<char>>
    decreases s.len() - i,
{
    if i < 0 || i >= s.len() {
        if start < s.len() {
            seq![s.subrange(start, s.len() as int)]
        } else {
            Seq::empty()
        }
    } else if break_len(s, i) == 0 {
        broken_lines(s, start, i + 1)
    } else {
        let next = i + break_len(s, i);
        seq![s.subrange(start, i)] + broken_lines(s, next, next)
    }
}

/// Split on CR, LF or CRLF, each counting as a single break.
pub fn split_lines(s: &str) -> (r: Vec<String>)
    ensures
        texts(r@) == broken_lines(s@, 0, 0),
{
    let chars = chars_of(s);
    let cs = chars.as_slice();
    let mut lines: Vec<String> = Vec::new();
    let mut start: usize = 0;
    let mut i: usize = 0;
    assert(texts(lines@) + broken_lines(s@, 0, 0) =~= broken_lines(s@, 0, 0));
    while i < cs.len()
        invariant
            start <= i <= cs.len(),
            cs@ == s@,
            texts(lines@) + broken_lines(s@, start as int, i as int) == broken_lines(s@, 0, 0),
        decreases cs.len() - i,
    {
        let n: usize = if cs[i] == '\n' {
            1
        } else if cs[i] == '\r' {
            if i + 1 < cs.len() && cs[i + 1] == '\n' {
                2
            } else {
                1
            }
        } else {
            0
        };
        if n == 0 {
            i = i + 1;
        } else {
            let ghost done = texts(lines@);
            let line = string_of(cs, start, i);
            push_text(&mut lines, line.as_str());
            assert(texts(lines@) + broken_lines(s@, i + n, i + n) =~= done + broken_lines(
                s@,
                start as int,
                i as int,
            ));
            i = i + n;
            start = i;
        }
    }
    if start < cs.len() {
        let line = string_of(cs, start, cs.len());
        push_text(&mut lines, line.as_str());
    }
    assert(texts(lines@) =~= broken_lines(s@, 0, 0));
    lines
}

/// The value behind the first occurrence of a flag.
pub open spec fn arg_after(args: Seq<Seq<char>>, flag: Seq<char>, i: int) -> Option<Seq<char>>
    decreases args.len() - i,
{
    if i < 0 || i >= args.len() {
        None
    } else if args[i] == flag {
        if i + 1 < args.len() {
            Some(args[i + 1])
        } else {
            None
        }
    } else {
        arg_after(args, flag, i + 1)
    }
}

/// The value behind the first occurrence of a flag.
fn arg_value(args: &Vec<String>, flag: &str) -> (r: Option<String>)
    ensures
        opt_view(r) == arg_after(texts(args@), flag@, 0),
{
    let ghost av = texts(args@);
    let mut i: usize = 0;
    while i < args.len()
        invariant
            i <= args.len(),
            av == texts(args@),
            arg_after(av, flag@, 0) == arg_after(av, flag@, i as int),
        decreases args.len() - i,
    {
        assert(av[i as int] == args@[i as int]@);
        if str_eq(args[i].as_str(), flag) {
            if i + 1 < args.len() {
                assert(av[i + 1] == args@[i + 1]@);
                return Some(owned(args[i + 1].as_str()));
            }
            return None;
        }
        i = i + 1;
    }
    None
}

/// The index store that an argument's path belongs to: an absolute path through
/// `…/Build/Intermediates.noindex` has its DerivedData root in front of it.
pub open spec fn store_beside(arg: Seq<char>) -> Option<Seq<char>> {
    if arg.len() > 0 && arg[0] == '/' {
        match first_at(arg, "/Build/Intermediates.noindex"@, 0) {
            Some(i) => if i > 0 {
                Some(arg.take(i) + "/Index.noindex/DataStore"@)
            } else {
                None
            },
            None => None,
        }
    } else {
        None
    }
}

/// The index store of the first argument, from `i` on, that shows one.
pub open spec fn inferred_store(args: Seq<Seq<char>>, i: int) -> Option<Seq<char>>
    decreases args.len() - i,
{
    if i < 0 || i >= args.len() {
        None
    } else {
        match store_beside(args[i]) {
            Some(s) => Some(s),
            None => inferred_store(args, i + 1),
        }
    }
}

/// Release builds omit `-index-store-path`; Xcode still writes a debug index
/// alongside the intermediates.
fn infer_index_store(args: &Vec<String>) -> (r: Option<String>)
    ensures
        opt_view(r) == inferred_store(texts(args@), 0),
{
    let ghost av = texts(args@);
    let mut i: usize = 0;
    while i < args.len()
        invariant
            i <= args.len(),
            av == texts(args@),
            inferred_store(av, 0) == inferred_store(av, i as int),
        decreases args.len() - i,
    {
        assert(av[i as int] == args@[i as int]@);
        let cs = chars_of(args[i].as_str());
        if cs.len() > 0 && cs[0] == '/' {
            let marker = chars_of("/Build/Intermediates.noindex");
            if let Some(k) = find_from(cs.as_slice(), marker.as_slice(), 0) {
                if k > 0 {
                    let mut r = string_of(cs.as_slice(), 0, k);
                    r.append("/Index.noindex/DataStore");
                    assert(cs@.subrange(0, k as int) =~= cs@.take(k as int));
                    return Some(r);
                }
            }
        }
        i = i + 1;
    }
    None
}

/// The inline `.swift` arguments among the first `n`.
pub open spec fn swift_files(args: Seq<Seq<char>>, n: int) -> Seq<Seq<char>>
    decreases n,
{
    if n <= 0 {
        Seq::empty()
    } else if has_suffix(args[n - 1], ".swift"@) {
        swift_files(args, n - 1).push(args[n - 1])
    } else {
        swift_files(args, n - 1)
    }
}

/// The response files among the first `n` arguments, without their `@`.
pub open spec fn response_files(args: Seq<Seq<char>>, n: int) -> Seq<Seq<char>>
    decreases n,
{
    if n <= 0 {
        Seq::empty()
    } else if is_response_file(args[n - 1]) {
        response_files(args, n - 1).push(args[n - 1].skip(1))
    } else {
        response_files(args, n - 1)
    }
}

/// Whether an argument is an `@…SwiftFileList`.
pub open spec fn is_response_file(arg: Seq<char>) -> bool {
    arg.len() > 0 && arg[0] == '@' && has_suffix(arg, ".SwiftFileList"@)
}

/// The inline `.swift` arguments.
fn inline_files(args: &Vec<String>) -> (r: Vec<String>)
    ensures
        texts(r@) == swift_files(texts(args@), args@.len() as int),
{
    let ghost av = texts(args@);
    let mut r: Vec<String> = Vec::new();
    let mut i: usize = 0;
    assert(texts(r@) =~= swift_files(av, 0));
    while i < args.len()
        invariant
            i <= args.len(),
            av == texts(args@),
            texts(r@) == swift_files(av, i as int),
        decreases args.len() - i,
    {
        assert(av[i as int] == args@[i as int]@);
        if ends_with(chars_of(args[i].as_str()).as_slice(), ".swift") {
            push_text(&mut r, args[i].as_str());
        }
        i = i + 1;
    }
    r
}

/// The response files, without their `@`.
fn listed_files(args: &Vec<String>) -> (r: Vec<String>)
    ensures
        texts(r@) == response_files(texts(args@), args@.len() as int),
{
    let ghost av = texts(args@);
    let mut r: Vec<String> = Vec::new();
    let mut i: usize = 0;
    assert(texts(r@) =~= response_files(av, 0));
    while i < args.len()
        invariant
            i <= args.len(),
            av == texts(args@),
            texts(r@) == response_files(av, i as int),
        decreases args.len() - i,
    {
        assert(av[i as int] == args@[i as int]@);
        let cs = chars_of(args[i].as_str());
        if cs.len() > 0 && cs[0] == '@' && ends_with(cs.as_slice(), ".SwiftFileList") {
            let path = string_of(cs.as_slice(), 1, cs.len());
            assert(path@ =~= av[i as int].skip(1));
            push_text(&mut r, path.as_str());
        }
        i = i + 1;
    }
    r
}

/// The body of a section: the trimmed lines from `i` on, up to a blank one.
pub open spec fn body_from(lines: Seq<Seq<char>>, i: int) -> Seq<Seq<char>>
    decreases lines.len() - i,
{
    if i < 0 || i >= lines.len() || trimmed(lines[i]).len() == 0 {
        Seq::empty()
    } else {
        seq![trimmed(lines[i])] + body_from(lines, i + 1)
    }
}

/// The directory that a body line changes to.
pub open spec fn cd_target(line: Seq<char>) -> Option<Seq<char>> {
    if has_prefix(line, "cd "@) && words_of(line).len() > 1 {
        Some(words_of(line)[1])
    } else {
        None
    }
}

/// The directory that the first such body line, from `i` on, changes to.
pub open spec fn cd_from(body: Seq<Seq<char>>, i: int) -> Option<Seq<char>>
    decreases body.len() - i,
{
    if i < 0 || i >= body.len() {
        None
    } else {
        match cd_target(body[i]) {
            Some(d) => Some(d),
            None => cd_from(body, i + 1),
        }
    }
}

/// The `swiftc` invocation in a section's command: behind one of the two real
/// compile wrappers, or the whole of a command without any wrapper.
pub open spec fn invocation(command: Seq<char>) -> Option<Seq<char>> {
    let rest = if has_prefix(command, "builtin-Swift-Compilation -- "@) || has_prefix(
        command,
        "builtin-SwiftDriver -- "@,
    ) {
        match first_at(command, " -- "@, 0) {
            Some(i) => Some(command.skip(i + 4)),
            None => None,
        }
    } else if has_infix(command, " -- "@) {
        None
    } else {
        Some(command)
    };
    match rest {
        Some(r) => if has_infix(r, "bin/swiftc "@) {
            Some(r)
        } else {
            None
        },
        None => None,
    }
}

/// The module that an invocation compiles, in a section with some body.
pub open spec fn module_of(args: Seq<Seq<char>>, body: Seq<Seq<char>>) -> Option<ModuleView> {
    match arg_after(args, "-module-name"@, 0) {
        Some(name) => if name.len() == 0 {
            None
        } else {
            Some(
                ModuleView {
                    name,
                    working_dir: match arg_after(args, "-working-directory"@, 0) {
                        Some(d) => d,
                        None => match cd_from(body, 0) {
                            Some(d) => d,
                            None => Seq::empty(),
                        },
                    },
                    index_store_path: match arg_after(args, "-index-store-path"@, 0) {
                        Some(p) => Some(p),
                        None => inferred_store(args, 0),
                    },
                    files: swift_files(args, args.len() as int),
                    file_lists: response_files(args, args.len() as int),
                    args: args.skip(1),
                },
            )
        },
        None => None,
    }
}

/// The module that a section (title line and indented body lines) compiles.
pub open spec fn section_module(value: Seq<char>) -> Option<ModuleView> {
    let body = body_from(broken_lines(value, 0, 0), 1);
    if body.len() == 0 {
        None
    } else {
        match invocation(body.last()) {
            Some(rest) => if words_of(rest).len() == 0 {
                None
            } else {
                module_of(words_of(rest), body)
            },
            None => None,
        }
    }
}

/// The body of a section, trimmed.
fn section_body(lines: &Vec<String>) -> (r: Vec<String>)
    ensures
        texts(r@) == body_from(texts(lines@), 1),
{
    let ghost lv = texts(lines@);
    let mut r: Vec<String> = Vec::new();
    let mut i: usize = 1;
    assert(texts(r@) + body_from(lv, 1) =~= body_from(lv, 1));
    while i < lines.len()
        invariant
            1 <= i,
            lv == texts(lines@),
            texts(r@) + body_from(lv, i as int) == body_from(lv, 1),
        decreases lines.len() - i,
    {
        assert(lv[i as int] == lines@[i as int]@);
        let t = trim(lines[i].as_str());
        if t.as_str().is_empty() {
            assert(texts(r@) =~= body_from(lv, 1));
            return r;
        }
        let ghost done = texts(r@);
        push_text(&mut r, t.as_str());
        assert(texts(r@) + body_from(lv, i + 1) =~= done + body_from(lv, i as int));
        i = i + 1;
    }
    assert(texts(r@) =~= body_from(lv, 1));
    r
}

/// The directory that the body changes to.
fn cd_dir(body: &Vec<String>) -> (r: Option<String>)
    ensures
        opt_view(r) == cd_from(texts(body@), 0),
{
    let ghost bv = texts(body@);
    let mut i: usize = 0;
    while i < body.len()
        invariant
            i <= body.len(),
            bv == texts(body@),
            cd_from(bv, 0) == cd_from(bv, i as int),
        decreases body.len() - i,
    {
        assert(bv[i as int] == body@[i as int]@);
        if starts_with(chars_of(body[i].as_str()).as_slice(), "cd ") {
            let words = shell_split(body[i].as_str());
            assert(words@.len() == texts(words@).len());
            if words.len() > 1 {
                assert(texts(words@)[1] == words@[1]@);
                return Some(owned(words[1].as_str()));
            }
        }
        i = i + 1;
    }
    None
}

/// The `swiftc` invocation in a section's command.
fn find_invocation(command: &str) -> (r: Option<String>)
    ensures
        opt_view(r) == invocation(command@),
{
    let chars = chars_of(command);
    let cs = chars.as_slice();
    let from: usize = if starts_with(cs, "builtin-Swift-Compilation -- ") || starts_with(
        cs,
        "builtin-SwiftDriver -- ",
    ) {
        let dashes = chars_of(" -- ");
        proof {
            reveal_strlit(" -- ");
            lemma_first_at(cs@, dashes@, 0);
        }
        match find_from(cs, dashes.as_slice(), 0) {
            Some(i) => i + 4,
            None => return None,
        }
    } else if contains(cs, " -- ") {
        return None;
    } else {
        0
    };
    let rest = string_of(cs, from, cs.len());
    assert(rest@ =~= command@.skip(from as int));
    assert(command@.skip(0) =~= command@);
    if contains(chars_of(rest.as_str()).as_slice(), "bin/swiftc ") {
        Some(rest)
    } else {
        None
    }
}

/// Parse a section text (title line and indented body lines) into a module.
/// `None` for the noise sections whose command fails the checks.
pub fn parse_section(value: &str) -> (r: Option<ParsedModule>)
    ensures
        match r {
            Some(m) => section_module(value@) == Some(m@),
            None => section_module(value@) is None,
        },
{
    let lines = split_lines(value);
    let body = section_body(&lines);
    let ghost bv = texts(body@);
    assert(bv.len() == body@.len());
    if body.len() == 0 {
        return None;
    }
    assert(bv.last() == body@[body@.len() - 1]@);
    let rest = match find_invocation(body[body.len() - 1].as_str()) {
        Some(r) => r,
        None => return None,
    };
    let words = shell_split(rest.as_str());
    let ghost av = texts(words@);
    assert(av.len() == words@.len());
    if words.len() == 0 {
        return None;
    }
    let module_name = match arg_value(&words, "-module-name") {
        Some(n) => n,
        None => return None,
    };
    if module_name.as_str().is_empty() {
        return None;
    }
    let working_dir = match arg_value(&words, "-working-directory") {
        Some(d) => d,
        None => match cd_dir(&body) {
            Some(d) => d,
            None => String::new(),
        },
    };
    let index_store_path = match arg_value(&words, "-index-store-path") {
        Some(p) => Some(p),
        None => infer_index_store(&words),
    };
    let files = inline_files(&words);
    let file_lists = listed_files(&words);
    let args = texts_from(&words, 1);
    let m = ParsedModule { module_name, working_dir, index_store_path, files, file_lists, args };
    assert(m@ =~= section_module(value@)->Some_0);
    Some(m)
}

// ---------------------------------------------------------------------------
// collecting modules
// ---------------------------------------------------------------------------

/// The modules of the first `n` sections by name: a later section takes the
/// place of an earlier one.
pub open spec fn collected(sections: Seq<Seq<char>>, n: int) -> Map<Seq<char>, ModuleView>
    decreases n,
{
    if n <= 0 {
        Map::empty()
    } else {
        match section_module(sections[n - 1]) {
            Some(m) => collected(sections, n - 1).insert(m.name, m),
            None => collected(sections, n - 1),
        }
    }
}

/// A module that a section compiles has a name, and so have all of some sections.
pub proof fn lemma_collected_named(sections: Seq<Seq<char>>, n: int)
    ensures
        forall|k: Seq<char>| #[trigger] collected(sections, n).dom().contains(k) ==> k.len() > 0,
    decreases n,
{
    if n > 0 {
        lemma_collected_named(sections, n - 1);
        let before = collected(sections, n - 1);
        assert forall|k: Seq<char>| #[trigger] collected(sections, n).dom().contains(k) implies k.len()
            > 0 by {
            if !before.dom().contains(k) {
                assert(section_module(sections[n - 1]) is Some);
                assert(k == section_module(sections[n - 1])->0.name);
            }
        }
    }
}

/// The mathematical values of some modules.
pub open spec fn modules_view(ms: Seq<ParsedModule>) -> Seq<ModuleView> {
    Seq::new(ms.len(), |i: int| ms[i]@)
}

/// The names of some modules.
pub open spec fn module_names(ms: Seq<ModuleView>) -> Seq<Seq<char>> {
    Seq::new(ms.len(), |i: int| ms[i].name)
}

/// Whether a list holds the modules of a map, each once, in the order of their
/// names.
pub open spec fn lists_modules(ms: Seq<ModuleView>, by_name: Map<Seq<char>, ModuleView>) -> bool {
    &&& rising(module_names(ms))
    &&& forall|k: Seq<char>| #[trigger]
        by_name.dom().contains(k) <==> module_names(ms).contains(k)
    &&& forall|i: int| 0 <= i < ms.len() ==> by_name[(#[trigger] ms[i]).name] == ms[i]
}

/// The modules of some sections, keyed last-wins by module name (Xcode emits
/// some modules twice), in the order of the names.
pub fn collect_modules(sections: &Vec<String>) -> (r: Vec<ParsedModule>)
    ensures
        lists_modules(
            modules_view(r@),
            collected(texts(sections@), sections@.len() as int),
        ),
{
    let ghost sv = texts(sections@);
    let mut by_name: NameMap<ParsedModule> = NameMap::new();
    let mut i: usize = 0;
    while i < sections.len()
        invariant
            i <= sections.len(),
            sv == texts(sections@),
            by_name.wf(),
            forall|k: Seq<char>| #[trigger]
                by_name@.dom().contains(k) <==> collected(sv, i as int).dom().contains(k),
            forall|k: Seq<char>| #[trigger]
                by_name@.dom().contains(k) ==> by_name@[k]@ == collected(sv, i as int)[k]
                    && by_name@[k]@.name == k,
        decreases sections.len() - i,
    {
        assert(sv[i as int] == sections@[i as int]@);
        if let Some(m) = parse_section(sections[i].as_str()) {
            let name = owned(m.module_name.as_str());
            by_name.insert(name.as_str(), m);
        }
        i = i + 1;
    }
    let ghost all = collected(sv, sv.len() as int);
    let ghost names = by_name.names();
    proof {
        by_name.lemma_names();
    }
    let mut r: Vec<ParsedModule> = Vec::new();
    let mut j: usize = 0;
    let n: usize = by_name.len();
    while j < n
        invariant
            j <= n,
            n == names.len(),
            names == by_name.names(),
            by_name.wf(),
            forall|k: int|
                0 <= k < names.len() ==> by_name@.dom().contains(#[trigger] names[k]),
            forall|k: Seq<char>| #[trigger]
                by_name@.dom().contains(k) ==> by_name@[k]@ == all[k] && by_name@[k]@.name == k,
            r@.len() == j,
            forall|k: int|
                0 <= k < j ==> (#[trigger] r@[k])@ == all[names[k]] && r@[k]@.name == names[k],
        decreases n - j,
    {
        r.push(by_name.value(j).copy());
        j = j + 1;
    }
    proof {
        assert(module_names(modules_view(r@)) =~= names);
        let ms = modules_view(r@);
        assert forall|k: Seq<char>| #[trigger] all.dom().contains(k) <==> names.contains(k) by {
            assert(by_name@.dom().contains(k) <==> names.contains(k));
        }
        assert forall|k: int| 0 <= k < ms.len() implies all[(#[trigger] ms[k]).name] == ms[k] by {
            assert(ms[k] == r@[k]@);
        }
    }
    r
}

// ---------------------------------------------------------------------------
// sources of sections
// ---------------------------------------------------------------------------

/// Whether a text starts as a Swift-compile section does. Both `SwiftDriver `
/// and `SwiftDriver\ Compilation ` occur on modern Xcode;
/// `CompileSwiftSources ` is the legacy title.
pub open spec fn section_title(s: Seq<char>) -> bool {
    has_prefix(s, "SwiftDriver "@) || has_prefix(s, "SwiftDriver\\ Compilation "@) || has_prefix(
        s,
        "CompileSwiftSources "@,
    )
}

/// Whether a text starts as a Swift-compile section does.
fn is_section_candidate(s: &[char]) -> (r: bool)
    ensures
        r == section_title(s@),
{
    starts_with(s, "SwiftDriver ") || starts_with(s, "SwiftDriver\\ Compilation ") || starts_with(
        s,
        "CompileSwiftSources ",
    )
}

/// The sections among the first `n` strings of a stream.
pub open spec fn candidates(strings: Seq<Seq<char>>, n: int) -> Seq<Seq<char>>
    decreases n,
{
    if n <= 0 {
        Seq::empty()
    } else if section_title(strings[n - 1]) {
        candidates(strings, n - 1).push(strings[n - 1])
    } else {
        candidates(strings, n - 1)
    }
}

/// The modules of a decompressed stream by name.
pub open spec fn stream_modules(data: Seq<u8>) -> Map<Seq<char>, ModuleView> {
    let strings = slf_texts(data);
    let sections = candidates(strings, strings.len() as int);
    collected(sections, sections.len() as int)
}

/// The modules of a decompressed stream.
pub fn parse_decompressed(data: &[u8]) -> (r: Vec<ParsedModule>)
    ensures
        lists_modules(modules_view(r@), stream_modules(data@)),
{
    let strings = slf_strings(data);
    let ghost sv = texts(strings@);
    let mut sections: Vec<String> = Vec::new();
    let mut i: usize = 0;
    assert(texts(sections@) =~= candidates(sv, 0));
    while i < strings.len()
        invariant
            i <= strings.len(),
            sv == texts(strings@),
            texts(sections@) == candidates(sv, i as int),
        decreases strings.len() - i,
    {
        assert(sv[i as int] == strings@[i as int]@);
        if is_section_candidate(chars_of(strings[i].as_str()).as_slice()) {
            push_text(&mut sections, strings[i].as_str());
        }
        i = i + 1;
    }
    assert(texts(sections@).len() == sections@.len());
    assert(sv.len() == strings@.len());
    collect_modules(&sections)
}

/// Decompress and parse a `.xcactivitylog`. An empty, truncated, non-gzip or
/// non-SLF file yields what its readable part holds, at worst nothing.
pub fn parse_log(bytes: &[u8]) -> (r: Vec<ParsedModule>)
    ensures
        gunzipped(bytes@) matches Some(data) ==> lists_modules(
            modules_view(r@),
            stream_modules(data),
        ),
        !has_gzip_header(bytes@) ==> r@.len() == 0,
        exists|data: Seq<u8>|
            #[trigger] inflates_to(bytes@, data) && lists_modules(
                modules_view(r@),
                stream_modules(data),
            ),
{
    let data = gunzip_partial(bytes);
    let r = parse_decompressed(data.as_slice());
    proof {
        assert(inflates_to(bytes@, data@));
        if !has_gzip_header(bytes@) {
            assert(slf_texts(data@) =~= Seq::<Seq<char>>::empty());
            assert(candidates(slf_texts(data@), 0) =~= Seq::<Seq<char>>::empty());
            let names = module_names(modules_view(r@));
            if r@.len() > 0 {
                assert(names.contains(names[0]));
                assert(stream_modules(data@).dom().contains(names[0]));
            }
        }
    }
    r
}

/// Whether a line is an unindented Swift-compile task title.
pub open spec fn section_start(line: Seq<char>) -> bool {
    !(line.len() > 0 && is_space(line[0])) && section_title(line)
}

/// Where the section whose title stands in front of line `i` ends: at a blank
/// line, at the next title, or at the end.
pub open spec fn section_end(lines: Seq<Seq<char>>, i: int) -> int
    decreases lines.len() - i,
{
    if i < 0 || i >= lines.len() || trimmed(lines[i]).len() == 0 || section_start(lines[i]) {
        i
    } else {
        section_end(lines, i + 1)
    }
}

/// A section's end is searched forwards.
pub proof fn lemma_section_end(lines: Seq<Seq<char>>, i: int)
    requires
        0 <= i <= lines.len(),
    ensures
        i <= section_end(lines, i) <= lines.len(),
    decreases lines.len() - i,
{
    if i < lines.len() && trimmed(lines[i]).len() > 0 && !section_start(lines[i]) {
        lemma_section_end(lines, i + 1);
    }
}

/// The sections among the lines from `i` on.
pub open spec fn sections_from(lines: Seq<Seq<char>>, i: int) -> Seq<Seq<char>>
    decreases lines.len() - i,
{
    if i < 0 || i >= lines.len() {
        Seq::empty()
    } else if !section_start(lines[i]) {
        sections_from(lines, i + 1)
    } else {
        proof {
            lemma_section_end(lines, i + 1);
        }
        let end = section_end(lines, i + 1);
        seq![joined_with(lines.subrange(i, end), "\n"@)] + sections_from(lines, end)
    }
}

/// Whether a line is an unindented Swift-compile task title.
fn is_section_start(line: &str) -> (r: bool)
    ensures
        r == section_start(line@),
{
    let cs = chars_of(line);
    !(cs.len() > 0 && whitespace(cs[0])) && is_section_candidate(cs.as_slice())
}

/// Group captured output into section texts.
pub fn group_text_sections(text: &str) -> (r: Vec<String>)
    ensures
        texts(r@) == sections_from(lines_of(text@), 0),
{
    let all = lines(text);
    let ghost lv = lines_of(text@);
    let mut sections: Vec<String> = Vec::new();
    let mut i: usize = 0;
    assert(texts(sections@) + sections_from(lv, 0) =~= sections_from(lv, 0));
    while i < all.len()
        invariant
            i <= all.len(),
            lv == texts(all@),
            texts(sections@) + sections_from(lv, i as int) == sections_from(lv, 0),
        decreases all.len() - i,
    {
        assert(lv[i as int] == all@[i as int]@);
        if !is_section_start(all[i].as_str()) {
            i = i + 1;
        } else {
            let start: usize = i;
            let ghost done = texts(sections@);
            let mut e: usize = i + 1;
            proof {
                lemma_section_end(lv, i + 1);
            }
            while e < all.len() && !trim(all[e].as_str()).as_str().is_empty() && !is_section_start(
                all[e].as_str(),
            )
                invariant
                    start < e <= all.len(),
                    lv == texts(all@),
                    section_end(lv, start + 1) == section_end(lv, e as int),
                decreases all.len() - e,
            {
                assert(lv[e as int] == all@[e as int]@);
                e = e + 1;
            }
            proof {
                if e < all.len() {
                    assert(lv[e as int] == all@[e as int]@);
                }
            }
            let part = texts_range(&all, start, e);
            let joined = join_with(&part, "\n");
            push_text(&mut sections, joined.as_str());
            assert(texts(sections@) + sections_from(lv, e as int) =~= done + sections_from(
                lv,
                start as int,
            ));
            i = e;
        }
    }
    assert(texts(sections@) =~= sections_from(lv, 0));
    sections
}

/// The modules that captured `xcodebuild` output compiles, by name.
pub open spec fn text_modules(text: Seq<char>) -> Map<Seq<char>, ModuleView> {
    let sections = sections_from(lines_of(text), 0);
    collected(sections, sections.len() as int)
}

/// Parse captured `xcodebuild` output into compile modules: a compile task
/// prints the same title, `cd` and `builtin-…swiftc …` lines that the build log
/// stores as one string.
pub fn parse_text_lines(text: &str) -> (r: Vec<ParsedModule>)
    ensures
        lists_modules(modules_view(r@), text_modules(text@)),
{
    let sections = group_text_sections(text);
    assert(texts(sections@).len() == sections@.len());
    collect_modules(&sections)
}

} // verus!
