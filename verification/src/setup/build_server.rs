//! The `buildServer.json` generator. sourcekit-lsp reads this file to spawn the
//! `xcode-dap bsp` Build Server: `argv` points at the running binary and the
//! `bsp` subcommand, and the private `workspace`, `build_root`, `scheme` and
//! `kind` fields are read back by the server and by `doctor`.

use crate::commands::refresh::own_opt;
use crate::commands::select::strings_among;
use crate::commands::select::strings_in;
use crate::json::array;
use crate::json::is_flat;
use crate::json::member;
use crate::json::member_of;
use crate::json::members_view;
use crate::json::object;
use crate::json::parse;
use crate::json::pretty;
use crate::json::serde_parse;
use crate::json::serde_pretty;
use crate::json::views_of;
use crate::json::Json;
use crate::json::JsonView;
use crate::json::Member;
use crate::order::text_rank;
use crate::text::opt_view;
use crate::text::push_text;
use crate::text::str_eq;
use crate::text::texts;
use crate::text::texts_eq;
use crate::util::name_map::lemma_rising_steps;
use crate::util::name_map::steps_up;
use vstd::prelude::*;
use vstd::utf8::encode_utf8;

verus! {

/// A list of texts as a JSON array.
pub open spec fn texts_document(items: Seq<Seq<char>>) -> JsonView {
    JsonView::Array(Seq::new(items.len(), |i: int| JsonView::Str(items[i])))
}

/// The languages that the build server answers for.
pub open spec fn languages() -> Seq<Seq<char>> {
    seq!["c"@, "cpp"@, "objective-c"@, "objective-cpp"@, "swift"@]
}

/// What `buildServer.json` holds. Every field of `name`, `version`,
/// `bspVersion`, `languages` and `argv` is required by sourcekit-lsp.
pub open spec fn server_document(
    exe: Seq<char>,
    version: Seq<char>,
    workspace: Seq<char>,
    scheme: Seq<char>,
    build_root: Seq<char>,
) -> JsonView {
    JsonView::Object(
        seq![
            ("argv"@, texts_document(seq![exe, "bsp"@])),
            ("bspVersion"@, JsonView::Str("2.2.0"@)),
            ("build_root"@, JsonView::Str(build_root)),
            ("kind"@, JsonView::Str("xcode"@)),
            ("languages"@, texts_document(languages())),
            ("name"@, JsonView::Str("xcode-dap"@)),
            ("scheme"@, JsonView::Str(scheme)),
            ("version"@, JsonView::Str(version)),
            ("workspace"@, JsonView::Str(workspace)),
        ],
    )
}

/// A list of texts as a JSON array.
pub fn texts_array(items: &Vec<String>) -> (r: Json)
    ensures
        r@ == texts_document(texts(items@)),
{
    let ghost tv = texts(items@);
    let mut out: Vec<Json> = Vec::new();
    let mut i: usize = 0;
    while i < items.len()
        invariant
            i <= items.len(),
            tv == texts(items@),
            out@.len() == i,
            forall|k: int| 0 <= k < i ==> (#[trigger] out@[k])@ == JsonView::Str(tv[k]),
        decreases items.len() - i,
    {
        assert(tv[i as int] == items@[i as int]@);
        out.push(Json::string(items[i].as_str()));
        i = i + 1;
    }
    let ghost ov = views_of(out@);
    assert(ov =~= Seq::new(tv.len(), |i: int| JsonView::Str(tv[i])));
    array(out)
}

/// Append a member to an object's members.
pub fn push_member(ms: &mut Vec<Member>, key: &str, value: Json)
    ensures
        members_view(final(ms)@) == members_view(old(ms)@).push((key@, value@)),
{
    let ghost before = members_view(ms@);
    let ghost vv = value@;
    ms.push(member(key, value));
    assert(members_view(ms@) =~= before.push((key@, vv)));
}

/// The languages that the build server answers for.
pub fn language_list() -> (r: Vec<String>)
    ensures
        texts(r@) == languages(),
{
    let mut r: Vec<String> = Vec::new();
    assert(texts(r@) =~= Seq::<Seq<char>>::empty());
    push_text(&mut r, "c");
    push_text(&mut r, "cpp");
    push_text(&mut r, "objective-c");
    push_text(&mut r, "objective-cpp");
    push_text(&mut r, "swift");
    assert(texts(r@) =~= languages());
    r
}

/// What `buildServer.json` holds, for absolute paths.
pub fn server_json(exe: &str, version: &str, workspace: &str, scheme: &str, build_root: &str) -> (r:
    Json)
    ensures
        r@ == server_document(exe@, version@, workspace@, scheme@, build_root@),
{
    let mut argv: Vec<String> = Vec::new();
    assert(texts(argv@) =~= Seq::<Seq<char>>::empty());
    push_text(&mut argv, exe);
    push_text(&mut argv, "bsp");
    assert(texts(argv@) =~= seq![exe@, "bsp"@]);
    let langs = language_list();
    let mut ms: Vec<Member> = Vec::new();
    assert(members_view(ms@) =~= Seq::<(Seq<char>, JsonView)>::empty());
    push_member(&mut ms, "argv", texts_array(&argv));
    push_member(&mut ms, "bspVersion", Json::string("2.2.0"));
    push_member(&mut ms, "build_root", Json::string(build_root));
    push_member(&mut ms, "kind", Json::string("xcode"));
    push_member(&mut ms, "languages", texts_array(&langs));
    push_member(&mut ms, "name", Json::string("xcode-dap"));
    push_member(&mut ms, "scheme", Json::string(scheme));
    push_member(&mut ms, "version", Json::string(version));
    push_member(&mut ms, "workspace", Json::string(workspace));
    let ghost mv = members_view(ms@);
    let r = object(ms);
    assert(mv =~= server_document(exe@, version@, workspace@, scheme@, build_root@)->Object_0);
    r
}

/// What `buildServer.json` holds is flat.
proof fn lemma_server_flat(
    exe: Seq<char>,
    version: Seq<char>,
    workspace: Seq<char>,
    scheme: Seq<char>,
    build_root: Seq<char>,
)
    ensures
        is_flat(server_document(exe, version, workspace, scheme, build_root)),
{
    reveal_strlit("argv");
    reveal_strlit("bspVersion");
    reveal_strlit("build_root");
    reveal_strlit("kind");
    reveal_strlit("languages");
    reveal_strlit("name");
    reveal_strlit("scheme");
    reveal_strlit("version");
    reveal_strlit("workspace");
    let ms = server_document(exe, version, workspace, scheme, build_root)->Object_0;
    let keys = Seq::new(ms.len(), |i: int| ms[i].0);
    reveal_with_fuel(text_rank, 3);
    assert(text_rank("argv"@, "bspVersion"@) is Before);
    assert(text_rank("bspVersion"@, "build_root"@) is Before) by {
        assert("bspVersion"@.drop_first()[0] == 's');
        assert("build_root"@.drop_first()[0] == 'u');
    }
    assert(text_rank("build_root"@, "kind"@) is Before);
    assert(text_rank("kind"@, "languages"@) is Before);
    assert(text_rank("languages"@, "name"@) is Before);
    assert(text_rank("name"@, "scheme"@) is Before);
    assert(text_rank("scheme"@, "version"@) is Before);
    assert(text_rank("version"@, "workspace"@) is Before);
    assert forall|i: int| 0 <= i < keys.len() - 1 implies #[trigger] steps_up(keys, i) by {
        assert(i == 0 || i == 1 || i == 2 || i == 3 || i == 4 || i == 5 || i == 6 || i == 7);
    }
    lemma_rising_steps(keys);
}

/// Render the text of `buildServer.json` for absolute paths. The file is read
/// back as what was rendered.
pub fn render(exe: &str, version: &str, workspace: &str, scheme: &str, build_root: &str) -> (r:
    String)
    ensures
        r@ == serde_pretty(server_document(exe@, version@, workspace@, scheme@, build_root@))
            + "\n"@,
        serde_parse(encode_utf8(r@)) == Ok::<JsonView, Seq<char>>(
            server_document(exe@, version@, workspace@, scheme@, build_root@),
        ),
{
    proof {
        lemma_server_flat(exe@, version@, workspace@, scheme@, build_root@);
    }
    let mut r = pretty(&server_json(exe, version, workspace, scheme, build_root));
    r.append("\n");
    r
}

/// Whether the write created, changed, or left the file byte-identical.
#[derive(Clone, Copy, Debug, PartialEq, Eq, Structural)]
pub enum Change {
    /// The file did not exist before.
    Created,
    /// The file existed and its bytes changed.
    Changed,
    /// The file existed and the bytes were byte-identical.
    Unchanged,
}

/// What a write of `buildServer.json` amounts to.
#[derive(Clone, Copy, Debug)]
pub struct Outcome {
    pub change: Change,
    /// Whether a completed regeneration warrants an `editor: restart language
    /// server` hint. A scheme-only change does not: the build server reloads the
    /// file and pushes `buildTarget/didChange`.
    pub restart_hint: bool,
}

impl Outcome {
    /// Whether the file did not exist before this write.
    pub fn first_create(&self) -> (r: bool)
        ensures
            r == (self.change == Change::Created),
    {
        self.change == Change::Created
    }
}

/// Outcome of a regeneration.
#[derive(Debug)]
pub enum Regen {
    /// buildServer.json was written; the [`Outcome`] carries the change and hint.
    Written(Outcome),
    /// The workspace or project container does not exist yet.
    MissingWorkspace,
    /// Finding the build root or the write failed (message included).
    Failed(String),
}

/// The fields whose change requires a restart: `argv` and `build_root`.
pub struct RelevantView {
    pub argv: Option<Seq<Seq<char>>>,
    pub build_root: Option<Seq<char>>,
}

/// The fields of a document whose change requires a restart.
pub open spec fn relevant_in(v: JsonView) -> RelevantView {
    RelevantView {
        argv: match v.get("argv"@) {
            Some(a) => match a.as_array() {
                Some(items) => Some(strings_among(items, items.len() as int)),
                None => None,
            },
            None => None,
        },
        build_root: v.str_at("build_root"@),
    }
}

/// The fields of a file whose change requires a restart; none where it does not
/// parse.
pub open spec fn relevant_of(bytes: Seq<u8>) -> RelevantView {
    match serde_parse(bytes) {
        Ok(v) => relevant_in(v),
        Err(_) => RelevantView { argv: None, build_root: None },
    }
}

/// The fields whose change requires a restart.
#[derive(Debug)]
struct Relevant {
    argv: Option<Vec<String>>,
    build_root: Option<String>,
}

/// The mathematical value of a list of texts that may be absent.
pub open spec fn opt_texts(o: Option<Vec<String>>) -> Option<Seq<Seq<char>>> {
    match o {
        Some(v) => Some(texts(v@)),
        None => None,
    }
}

/// The fields of a document whose change requires a restart.
fn read_relevant(v: &Json) -> (r: Relevant)
    ensures
        opt_texts(r.argv) == relevant_in(v@).argv,
        opt_view(r.build_root) == relevant_in(v@).build_root,
{
    let argv = match v.get("argv") {
        Some(a) => match a.as_array() {
            Some(items) => {
                assert(views_of(items@).len() == items@.len());
                Some(strings_in(items))
            },
            None => None,
        },
        None => None,
    };
    Relevant { argv, build_root: own_opt(v.str_at("build_root")) }
}

/// The fields of a file whose change requires a restart.
fn restart_relevant(bytes: &[u8]) -> (r: Relevant)
    ensures
        opt_texts(r.argv) == relevant_of(bytes@).argv,
        opt_view(r.build_root) == relevant_of(bytes@).build_root,
{
    match parse(bytes) {
        Ok(v) => read_relevant(&v),
        Err(_) => Relevant { argv: None, build_root: None },
    }
}

/// Whether two texts that may be absent are the same.
pub fn opt_text_eq(a: &Option<String>, b: &Option<String>) -> (r: bool)
    ensures
        r == (opt_view(*a) == opt_view(*b)),
{
    match a {
        Some(x) => match b {
            Some(y) => str_eq(x.as_str(), y.as_str()),
            None => false,
        },
        None => b.is_none(),
    }
}

/// Whether a completed regeneration warrants an `editor: restart language
/// server` hint: where the parsed `argv` or `build_root` changed, and where one
/// of the files is not there.
pub open spec fn hint_needed(previous: Option<Seq<u8>>, current: Option<Seq<u8>>) -> bool {
    match (previous, current) {
        (Some(p), Some(c)) => relevant_of(p) != relevant_of(c),
        _ => true,
    }
}

/// The mathematical value of bytes that may be absent.
pub open spec fn opt_bytes(o: Option<&[u8]>) -> Option<Seq<u8>> {
    match o {
        Some(b) => Some(b@),
        None => None,
    }
}

/// Whether a completed regeneration warrants a restart hint.
pub fn restart_hint_needed(previous: Option<&[u8]>, current: Option<&[u8]>) -> (r: bool)
    ensures
        r == hint_needed(opt_bytes(previous), opt_bytes(current)),
{
    match (previous, current) {
        (Some(p), Some(c)) => {
            let a = restart_relevant(p);
            let b = restart_relevant(c);
            let same_argv = match &a.argv {
                Some(x) => match &b.argv {
                    Some(y) => texts_eq(x, y),
                    None => false,
                },
                None => b.argv.is_none(),
            };
            !(same_argv && opt_text_eq(&a.build_root, &b.build_root))
        },
        _ => true,
    }
}

/// Whether a document belongs to another build server: it has a name, and
/// neither the name nor the kind is ours.
pub open spec fn is_foreign(v: JsonView) -> bool {
    v.str_at("name"@) is Some && v.str_at("name"@) != Some("xcode-dap"@) && v.str_at("kind"@)
        != Some("xcode"@)
}

/// Whether a document belongs to another build server.
pub fn foreign_server(v: &Json) -> (r: bool)
    ensures
        r == is_foreign(v@),
{
    let ours = match v.str_at("kind") {
        Some(k) => str_eq(k, "xcode"),
        None => false,
    };
    match v.str_at("name") {
        Some(n) => !str_eq(n, "xcode-dap") && !ours,
        None => false,
    }
}

/// Whether an existing buildServer.json belongs to another build server, so that
/// it must be preserved before it is overwritten. A file that does not parse, or
/// a bare stub without a name, is nothing that another tool would lose.
pub fn is_foreign_build_server(bytes: &[u8]) -> (r: bool)
    ensures
        r == match serde_parse(bytes@) {
            Ok(v) => is_foreign(v),
            Err(_) => false,
        },
{
    match parse(bytes) {
        Ok(v) => foreign_server(&v),
        Err(_) => false,
    }
}

/// A write of `buildServer.json`.
#[derive(Debug)]
pub struct ServerWrite {
    pub content: String,
    /// Whether the file that is there is to be backed up first.
    pub backup: bool,
    pub outcome: Outcome,
}

/// Whether two byte strings are the same.
fn bytes_eq(a: &[u8], b: &[u8]) -> (r: bool)
    ensures
        r == (a@ == b@),
{
    if a.len() != b.len() {
        return false;
    }
    let mut i: usize = 0;
    while i < a.len()
        invariant
            i <= a.len(),
            a.len() == b.len(),
            forall|k: int| 0 <= k < i ==> #[trigger] a@[k] == b@[k],
        decreases a.len() - i,
    {
        if a[i] != b[i] {
            return false;
        }
        i = i + 1;
    }
    assert(a@ =~= b@);
    true
}

/// What becomes of the file when it is written.
pub open spec fn server_change(previous: Option<Seq<u8>>, content: Seq<u8>) -> Change {
    match previous {
        Some(p) => if p == content {
            Change::Unchanged
        } else {
            Change::Changed
        },
        None => Change::Created,
    }
}

/// Whether the file that is there is another server's, and is to be kept.
pub open spec fn needs_backup(previous: Option<Seq<u8>>) -> bool {
    match previous {
        Some(p) => match serde_parse(p) {
            Ok(v) => is_foreign(v),
            Err(_) => false,
        },
        None => false,
    }
}

/// Plan the (re)write of `buildServer.json` over what is there. The file is
/// always written, so that its age stays fresh relative to the workspace.
pub fn write_build_server_json(
    previous: Option<&[u8]>,
    exe: &str,
    version: &str,
    workspace: &str,
    scheme: &str,
    build_root: &str,
) -> (r: ServerWrite)
    ensures
        r.content@ == serde_pretty(
            server_document(exe@, version@, workspace@, scheme@, build_root@),
        ) + "\n"@,
        serde_parse(encode_utf8(r.content@)) == Ok::<JsonView, Seq<char>>(
            server_document(exe@, version@, workspace@, scheme@, build_root@),
        ),
        r.outcome.change == server_change(opt_bytes(previous), encode_utf8(r.content@)),
        r.outcome.restart_hint == hint_needed(
            opt_bytes(previous),
            Some(encode_utf8(r.content@)),
        ),
        r.backup == needs_backup(opt_bytes(previous)),
{
    let content = render(exe, version, workspace, scheme, build_root);
    let bytes = content.as_str().as_bytes();
    let restart_hint = restart_hint_needed(previous, Some(bytes));
    let (change, backup) = match previous {
        Some(p) => (
            if bytes_eq(p, bytes) {
                Change::Unchanged
            } else {
                Change::Changed
            },
            is_foreign_build_server(p),
        ),
        None => (Change::Created, false),
    };
    ServerWrite { content, backup, outcome: Outcome { change, restart_hint } }
}

/// The member of a nine-member object that a key other than the first ones
/// leads to.
proof fn lemma_server_members(
    exe: Seq<char>,
    version: Seq<char>,
    workspace: Seq<char>,
    scheme: Seq<char>,
    build_root: Seq<char>,
)
    ensures
        ({
            let v = server_document(exe, version, workspace, scheme, build_root);
            &&& v.get("argv"@) == Some(texts_document(seq![exe, "bsp"@]))
            &&& v.str_at("build_root"@) == Some(build_root)
            &&& v.str_at("kind"@) == Some("xcode"@)
            &&& v.str_at("name"@) == Some("xcode-dap"@)
            &&& v.str_at("scheme"@) == Some(scheme)
            &&& v.str_at("workspace"@) == Some(workspace)
        }),
{
    reveal_strlit("argv");
    reveal_strlit("bspVersion");
    reveal_strlit("build_root");
    reveal_strlit("kind");
    reveal_strlit("languages");
    reveal_strlit("name");
    reveal_strlit("scheme");
    reveal_strlit("version");
    reveal_strlit("workspace");
    let ms = server_document(exe, version, workspace, scheme, build_root)->Object_0;
    // Each key differs from those in front of it in its length or a letter.
    assert("bspVersion"@[0] == 'b' && "build_root"@[1] == 'u' && "bspVersion"@[1] == 's');
    assert("argv"@[0] == 'a' && "kind"@[0] == 'k' && "languages"@[0] == 'l' && "name"@[0] == 'n');
    assert("scheme"@[0] == 's' && "version"@[0] == 'v' && "workspace"@[0] == 'w');
    assert("build_root"@[0] == 'b');
    assert(ms.drop_first() =~= ms.skip(1));
    assert(ms.skip(1).drop_first() =~= ms.skip(2));
    assert(ms.skip(2).drop_first() =~= ms.skip(3));
    assert(ms.skip(3).drop_first() =~= ms.skip(4));
    assert(ms.skip(4).drop_first() =~= ms.skip(5));
    assert(ms.skip(5).drop_first() =~= ms.skip(6));
    assert(ms.skip(6).drop_first() =~= ms.skip(7));
    assert(ms.skip(7).drop_first() =~= ms.skip(8));
    reveal_with_fuel(member_of, 10);
}

/// A scheme-only change of `buildServer.json` needs no restart; a change of the
/// build root or of the binary does.
pub proof fn lemma_restart_relevance(
    exe1: Seq<char>,
    exe2: Seq<char>,
    version: Seq<char>,
    workspace: Seq<char>,
    scheme1: Seq<char>,
    scheme2: Seq<char>,
    root1: Seq<char>,
    root2: Seq<char>,
)
    ensures
        relevant_in(server_document(exe1, version, workspace, scheme1, root1)) == relevant_in(
            server_document(exe2, version, workspace, scheme2, root2),
        ) <==> exe1 == exe2 && root1 == root2,
{
    lemma_server_members(exe1, version, workspace, scheme1, root1);
    lemma_server_members(exe2, version, workspace, scheme2, root2);
    let a = seq![JsonView::Str(exe1), JsonView::Str("bsp"@)];
    let b = seq![JsonView::Str(exe2), JsonView::Str("bsp"@)];
    assert(texts_document(seq![exe1, "bsp"@])->Array_0 =~= a);
    assert(texts_document(seq![exe2, "bsp"@])->Array_0 =~= b);
    reveal_with_fuel(strings_among, 3);
    assert(strings_among(a, 2) =~= seq![exe1, "bsp"@]);
    assert(strings_among(b, 2) =~= seq![exe2, "bsp"@]);
    assert(seq![exe1, "bsp"@][0] == exe1 && seq![exe2, "bsp"@][0] == exe2);
}

/// A generated `buildServer.json` is never taken for another tool's, and gives
/// back the scheme, the workspace and the build root that it was made for.
pub proof fn lemma_server_read_back(
    exe: Seq<char>,
    version: Seq<char>,
    workspace: Seq<char>,
    scheme: Seq<char>,
    build_root: Seq<char>,
)
    ensures
        ({
            let v = server_document(exe, version, workspace, scheme, build_root);
            &&& !is_foreign(v)
            &&& v.str_at("build_root"@) == Some(build_root)
            &&& v.str_at("scheme"@) == Some(scheme)
            &&& v.str_at("workspace"@) == Some(workspace)
        }),
{
    lemma_server_members(exe, version, workspace, scheme, build_root);
}

} // verus!
