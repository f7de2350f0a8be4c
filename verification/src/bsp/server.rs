//! JSON-RPC dispatch: what each inbound message asks for, and the replies.

use crate::bsp::uri::file_uri;
use crate::bsp::uri::path_to_file_uri;
use crate::commands::refresh::own_opt;
use crate::json::array;
use crate::json::member;
use crate::json::member_of;
use crate::json::members_view;
use crate::json::number_view;
use crate::json::object;
use crate::json::parse;
use crate::json::serde_parse;
use crate::json::Json;
use crate::json::JsonView;
use crate::json::Member;
use crate::number::hex_padded;
use crate::number::push_hex;
use crate::setup::build_server::language_list;
use crate::setup::build_server::languages;
use crate::setup::build_server::opt_bytes;
use crate::setup::build_server::push_member;
use crate::setup::build_server::texts_array;
use crate::setup::build_server::texts_document;
use crate::text::chars_of;
use crate::text::opt_str_view;
use crate::text::opt_view;
use crate::text::owned;
use crate::text::push_text;
use crate::text::str_eq;
use crate::text::string_of;
use crate::text::string_of_all;
use crate::text::texts;
use crate::text::trim_end_by;
use crate::util::hash::fnv1a;
use crate::util::hash::fnv1a64;
use crate::util::paths::join;
use crate::util::paths::joined;
use vstd::prelude::*;
use vstd::utf8::encode_utf8;

verus! {

// ---------------------------------------------------------------------------
// replies
// ---------------------------------------------------------------------------

/// The JSON-RPC code for a method that the server does not have.
pub const METHOD_NOT_FOUND: i64 = -32601;

/// The answer to the request `id`.
pub open spec fn result_view(id: JsonView, result: JsonView) -> JsonView {
    JsonView::Object(
        seq![("jsonrpc"@, JsonView::Str("2.0"@)), ("id"@, id), ("result"@, result)],
    )
}

/// The answer to the request `id`.
pub fn result_message(id: Json, result: Json) -> (r: Json)
    ensures
        r@ == result_view(id@, result@),
{
    let ghost want = result_view(id@, result@);
    let r = object(
        vec![
            member("jsonrpc", Json::string("2.0")),
            member("id", id),
            member("result", result),
        ],
    );
    assert(r@->Object_0 =~= want->Object_0);
    r
}

/// The refusal of the request `id`.
pub open spec fn error_view(id: JsonView, code: i64, message: Seq<char>) -> JsonView {
    JsonView::Object(
        seq![
            ("jsonrpc"@, JsonView::Str("2.0"@)),
            ("id"@, id),
            (
                "error"@,
                JsonView::Object(
                    seq![("code"@, number_view(code)), ("message"@, JsonView::Str(message))],
                ),
            ),
        ],
    )
}

/// The refusal of the request `id`.
pub fn error_message(id: Json, code: i64, message: &str) -> (r: Json)
    ensures
        r@ == error_view(id@, code, message@),
{
    let ghost want = error_view(id@, code, message@);
    let body = object(
        vec![member("code", Json::number(code)), member("message", Json::string(message))],
    );
    assert(body@->Object_0 =~= want->Object_0[2].1->Object_0);
    let r = object(
        vec![member("jsonrpc", Json::string("2.0")), member("id", id), member("error", body)],
    );
    assert(r@->Object_0 =~= want->Object_0);
    r
}

/// The notification that all targets changed, so that the client asks again for
/// the options of its files.
pub open spec fn did_change_view() -> JsonView {
    JsonView::Object(
        seq![
            ("jsonrpc"@, JsonView::Str("2.0"@)),
            ("method"@, JsonView::Str("buildTarget/didChange"@)),
            ("params"@, JsonView::Object(seq![("changes"@, JsonView::Null)])),
        ],
    )
}

/// The notification that all targets changed.
pub fn did_change() -> (r: Json)
    ensures
        r@ == did_change_view(),
{
    let params = object(vec![member("changes", Json::Null)]);
    assert(params@->Object_0 =~= did_change_view()->Object_0[2].1->Object_0);
    let r = object(
        vec![
            member("jsonrpc", Json::string("2.0")),
            member("method", Json::string("buildTarget/didChange")),
            member("params", params),
        ],
    );
    assert(r@->Object_0 =~= did_change_view()->Object_0);
    r
}

/// The identifier of the one target.
pub open spec fn target_view() -> JsonView {
    JsonView::Object(seq![("uri"@, JsonView::Str("dummy://dummy"@))])
}

/// The identifier of the one target.
fn target_id() -> (r: Json)
    ensures
        r@ == target_view(),
{
    let r = object(vec![member("uri", Json::string("dummy://dummy"))]);
    assert(r@->Object_0 =~= target_view()->Object_0);
    r
}

/// The one target that documents hang off; the compiler arguments of each file
/// are asked for separately.
pub open spec fn targets_view() -> JsonView {
    JsonView::Object(
        seq![
            (
                "targets"@,
                JsonView::Array(
                    seq![
                        JsonView::Object(
                            seq![
                                ("id"@, target_view()),
                                ("displayName"@, JsonView::Str("BuildServer"@)),
                                ("tags"@, texts_document(seq!["test"@])),
                                ("capabilities"@, JsonView::Object(Seq::empty())),
                                ("languageIds"@, texts_document(languages())),
                                ("dependencies"@, JsonView::Array(Seq::empty())),
                            ],
                        ),
                    ],
                ),
            ),
        ],
    )
}

/// The one target.
pub fn build_targets() -> (r: Json)
    ensures
        r@ == targets_view(),
{
    let ghost want = targets_view()->Object_0[0].1->Array_0[0]->Object_0;
    let mut tags: Vec<String> = Vec::new();
    assert(texts(tags@) =~= Seq::<Seq<char>>::empty());
    push_text(&mut tags, "test");
    assert(texts(tags@) =~= seq!["test"@]);
    let capabilities = object(Vec::new());
    assert(capabilities@->Object_0 =~= Seq::empty());
    let dependencies = array(Vec::new());
    assert(dependencies@->Array_0 =~= Seq::empty());
    let mut ms: Vec<Member> = Vec::new();
    assert(members_view(ms@) =~= Seq::empty());
    push_member(&mut ms, "id", target_id());
    push_member(&mut ms, "displayName", Json::string("BuildServer"));
    push_member(&mut ms, "tags", texts_array(&tags));
    push_member(&mut ms, "capabilities", capabilities);
    push_member(&mut ms, "languageIds", texts_array(&language_list()));
    push_member(&mut ms, "dependencies", dependencies);
    assert(members_view(ms@) =~= want);
    let target = object(ms);
    let targets = array(vec![target]);
    assert(targets@->Array_0 =~= targets_view()->Object_0[0].1->Array_0);
    let r = object(vec![member("targets", targets)]);
    assert(r@->Object_0 =~= targets_view()->Object_0);
    r
}

/// The directory URI of the project: the client's own text where it gave one,
/// with one slash behind it.
pub open spec fn root_text(root_uri: Option<Seq<char>>, root: Seq<char>) -> Seq<char> {
    let base = match root_uri {
        Some(u) => u,
        None => file_uri(root),
    };
    trim_end_by(base, |c: char| c == '/') + "/"@
}

/// One source item: the project root as a directory.
pub open spec fn sources_view(uri: Seq<char>) -> JsonView {
    JsonView::Object(
        seq![
            (
                "items"@,
                JsonView::Array(
                    seq![
                        JsonView::Object(
                            seq![
                                ("target"@, target_view()),
                                (
                                    "sources"@,
                                    JsonView::Array(
                                        seq![
                                            JsonView::Object(
                                                seq![
                                                    ("uri"@, JsonView::Str(uri)),
                                                    ("kind"@, number_view(2)),
                                                    ("generated"@, JsonView::Bool(false)),
                                                ],
                                            ),
                                        ],
                                    ),
                                ),
                            ],
                        ),
                    ],
                ),
            ),
        ],
    )
}

/// A text without the slashes at its end.
fn strip_end_slashes(s: &str) -> (r: String)
    ensures
        r@ == trim_end_by(s@, |c: char| c == '/'),
{
    let cs = chars_of(s);
    let ghost p = |c: char| c == '/';
    let mut b: usize = cs.len();
    assert(cs@.take(b as int) =~= s@);
    while b > 0 && cs[b - 1] == '/'
        invariant
            b <= cs.len(),
            p == (|c: char| c == '/'),
            trim_end_by(s@, p) == trim_end_by(cs@.take(b as int), p),
        decreases b,
    {
        assert(cs@.take(b as int).drop_last() =~= cs@.take(b - 1));
        b = b - 1;
    }
    assert(cs@.subrange(0, b as int) =~= cs@.take(b as int));
    string_of(cs.as_slice(), 0, b)
}

/// The project root as the one source directory.
pub fn build_target_sources(root_uri: Option<&str>, root: &str) -> (r: Json)
    ensures
        r@ == sources_view(root_text(opt_str_view(root_uri), root@)),
{
    let base = match root_uri {
        Some(u) => strip_end_slashes(u),
        None => strip_end_slashes(path_to_file_uri(root).as_str()),
    };
    let mut uri = base;
    uri.append("/");
    let ghost want = sources_view(uri@);
    let ghost item = want->Object_0[0].1->Array_0[0];
    let ghost list = item->Object_0[1].1;
    let source = object(
        vec![
            member("uri", Json::string(uri.as_str())),
            member("kind", Json::number(2)),
            member("generated", Json::Bool(false)),
        ],
    );
    assert(source@->Object_0 =~= list->Array_0[0]->Object_0);
    let sources = array(vec![source]);
    assert(sources@->Array_0 =~= list->Array_0);
    let one = object(vec![member("target", target_id()), member("sources", sources)]);
    assert(one@->Object_0 =~= item->Object_0);
    let items = array(vec![one]);
    assert(items@->Array_0 =~= want->Object_0[0].1->Array_0);
    let r = object(vec![member("items", items)]);
    assert(r@->Object_0 =~= want->Object_0);
    r
}

/// The compiler arguments of a file, `null` where they are not known.
pub open spec fn options_view(options: Option<(Seq<Seq<char>>, Seq<char>)>) -> JsonView {
    match options {
        Some((args, dir)) => JsonView::Object(
            seq![
                ("compilerArguments"@, texts_document(args)),
                ("workingDirectory"@, JsonView::Str(dir)),
            ],
        ),
        None => JsonView::Null,
    }
}

/// The compiler arguments of a file, `null` where they are not known.
pub fn source_kit_options(options: Option<(Vec<String>, String)>) -> (r: Json)
    ensures
        match options {
            Some((args, dir)) => r@ == options_view(Some((texts(args@), dir@))),
            None => r@ == options_view(None),
        },
{
    match options {
        Some((args, dir)) => {
            let ghost want = options_view(Some((texts(args@), dir@)));
            let r = object(
                vec![
                    member("compilerArguments", texts_array(&args)),
                    member("workingDirectory", Json::string(dir.as_str())),
                ],
            );
            assert(r@->Object_0 =~= want->Object_0);
            r
        },
        None => Json::Null,
    }
}

// ---------------------------------------------------------------------------
// initialization
// ---------------------------------------------------------------------------

/// Where the index store of a build root lies; nowhere without a build root.
pub fn index_store_path(build_root: Option<&str>) -> (r: String)
    ensures
        r@ == match opt_str_view(build_root) {
            Some(b) => b + "/Index.noindex/DataStore"@,
            None => ""@,
        },
{
    match build_root {
        Some(b) => {
            let mut r = owned(b);
            r.append("/Index.noindex/DataStore");
            r
        },
        None => owned(""),
    }
}

/// The name of the index database for an index store.
pub open spec fn index_name(index_store: Seq<char>) -> Seq<char> {
    "index-db-"@ + hex_padded(fnv1a(encode_utf8(index_store)) as nat, 16)
}

/// Where the index database for an index store lies: in the cache of the home
/// directory, or under its bare name where there is no home.
pub fn index_database_path(home: Option<&str>, index_store: &str) -> (r: String)
    ensures
        r@ == match opt_str_view(home) {
            Some(h) => joined(joined(h, "cache"@), index_name(index_store@)),
            None => index_name(index_store@),
        },
{
    let hash = fnv1a64(index_store.as_bytes());
    let mut digits: Vec<char> = Vec::new();
    push_hex(&mut digits, hash, 16);
    assert(digits@ =~= hex_padded(hash as nat, 16));
    let mut name = owned("index-db-");
    name.append(string_of_all(digits.as_slice()).as_str());
    match home {
        Some(h) => join(join(h, "cache").as_str(), name.as_str()),
        None => name,
    }
}

/// A text, or `null`.
pub open spec fn text_or_null(s: Option<Seq<char>>) -> JsonView {
    match s {
        Some(t) => JsonView::Str(t),
        None => JsonView::Null,
    }
}

/// The capabilities of the server: the client pulls the options of each file.
pub open spec fn initialize_view(
    version: Seq<char>,
    root_uri: Option<Seq<char>>,
    index_store: Seq<char>,
    index_database: Seq<char>,
) -> JsonView {
    JsonView::Object(
        seq![
            ("displayName"@, JsonView::Str("xcode-dap"@)),
            ("version"@, JsonView::Str(version)),
            ("bspVersion"@, JsonView::Str("2.2.0"@)),
            ("rootUri"@, text_or_null(root_uri)),
            (
                "capabilities"@,
                JsonView::Object(seq![("languageIds"@, texts_document(languages()))]),
            ),
            ("dataKind"@, JsonView::Str("sourceKit"@)),
            (
                "data"@,
                JsonView::Object(
                    seq![
                        ("indexStorePath"@, JsonView::Str(index_store)),
                        ("indexDatabasePath"@, JsonView::Str(index_database)),
                        ("sourceKitOptionsProvider"@, JsonView::Bool(true)),
                    ],
                ),
            ),
        ],
    )
}

/// The capabilities of the server.
pub fn initialize_result(
    version: &str,
    root_uri: Option<&str>,
    index_store: &str,
    index_database: &str,
) -> (r: Json)
    ensures
        r@ == initialize_view(version@, opt_str_view(root_uri), index_store@, index_database@),
{
    let ghost want = initialize_view(
        version@,
        opt_str_view(root_uri),
        index_store@,
        index_database@,
    );
    let uri = match root_uri {
        Some(u) => Json::string(u),
        None => Json::Null,
    };
    let capabilities = object(vec![member("languageIds", texts_array(&language_list()))]);
    assert(capabilities@->Object_0 =~= want->Object_0[4].1->Object_0);
    let data = object(
        vec![
            member("indexStorePath", Json::string(index_store)),
            member("indexDatabasePath", Json::string(index_database)),
            member("sourceKitOptionsProvider", Json::Bool(true)),
        ],
    );
    assert(data@->Object_0 =~= want->Object_0[6].1->Object_0);
    let mut ms: Vec<Member> = Vec::new();
    assert(members_view(ms@) =~= Seq::empty());
    push_member(&mut ms, "displayName", Json::string("xcode-dap"));
    push_member(&mut ms, "version", Json::string(version));
    push_member(&mut ms, "bspVersion", Json::string("2.2.0"));
    push_member(&mut ms, "rootUri", uri);
    push_member(&mut ms, "capabilities", capabilities);
    push_member(&mut ms, "dataKind", Json::string("sourceKit"));
    push_member(&mut ms, "data", data);
    assert(members_view(ms@) =~= want->Object_0);
    object(ms)
}

// ---------------------------------------------------------------------------
// configuration
// ---------------------------------------------------------------------------

/// What the build server takes from `buildServer.json`.
#[derive(Debug)]
pub struct BsConfig {
    pub build_root: Option<String>,
    pub scheme: Option<String>,
    pub workspace: Option<String>,
}

/// The mathematical value of a [`BsConfig`].
pub struct BsConfigView {
    pub build_root: Option<Seq<char>>,
    pub scheme: Option<Seq<char>>,
    pub workspace: Option<Seq<char>>,
}

impl View for BsConfig {
    type V = BsConfigView;

    open spec fn view(&self) -> BsConfigView {
        BsConfigView {
            build_root: opt_view(self.build_root),
            scheme: opt_view(self.scheme),
            workspace: opt_view(self.workspace),
        }
    }
}

/// What a `buildServer.json` configures: nothing where it is missing or does not
/// parse.
pub open spec fn config_of(bytes: Option<Seq<u8>>) -> BsConfigView {
    let none = BsConfigView { build_root: None, scheme: None, workspace: None };
    match bytes {
        Some(b) => match serde_parse(b) {
            Ok(v) => BsConfigView {
                build_root: v.str_at("build_root"@),
                scheme: v.str_at("scheme"@),
                workspace: v.str_at("workspace"@),
            },
            Err(_) => none,
        },
        None => none,
    }
}

/// What a document configures.
pub fn config_in(v: &Json) -> (r: BsConfig)
    ensures
        opt_view(r.build_root) == v@.str_at("build_root"@),
        opt_view(r.scheme) == v@.str_at("scheme"@),
        opt_view(r.workspace) == v@.str_at("workspace"@),
{
    BsConfig {
        build_root: own_opt(v.str_at("build_root")),
        scheme: own_opt(v.str_at("scheme")),
        workspace: own_opt(v.str_at("workspace")),
    }
}

/// What a `buildServer.json` configures; the server runs without it, and then
/// knows no options.
pub fn read_build_server(bytes: Option<&[u8]>) -> (r: BsConfig)
    ensures
        r@ == config_of(opt_bytes(bytes)),
{
    if let Some(b) = bytes {
        if let Ok(v) = parse(b) {
            return config_in(&v);
        }
    }
    BsConfig { build_root: None, scheme: None, workspace: None }
}

// ---------------------------------------------------------------------------
// dispatch
// ---------------------------------------------------------------------------

/// What a message asks for.
#[derive(Debug)]
pub enum Action {
    /// The message is no JSON; why.
    Invalid(String),
    /// Nothing is to be done.
    Ignore,
    /// Set up the session for a project root, then answer.
    Initialize { id: Json, root_uri: Option<String> },
    /// Answer with the source directory of the session.
    Sources { id: Json },
    /// Answer with the options of a file, once the store is ready.
    Options { id: Json, uri: Option<String> },
    /// Send this message.
    Reply(Json),
    /// Start to ingest build logs, if that has not been started.
    StartIngest,
    /// Leave.
    Exit,
}

/// The mathematical value of an [`Action`].
pub enum ActionView {
    Invalid(Seq<char>),
    Ignore,
    Initialize(JsonView, Option<Seq<char>>),
    Sources(JsonView),
    Options(JsonView, Option<Seq<char>>),
    Reply(JsonView),
    StartIngest,
    Exit,
}

impl View for Action {
    type V = ActionView;

    open spec fn view(&self) -> ActionView {
        match self {
            Action::Invalid(e) => ActionView::Invalid(e@),
            Action::Ignore => ActionView::Ignore,
            Action::Initialize { id, root_uri } => ActionView::Initialize(id@, opt_view(*root_uri)),
            Action::Sources { id } => ActionView::Sources(id@),
            Action::Options { id, uri } => ActionView::Options(id@, opt_view(*uri)),
            Action::Reply(m) => ActionView::Reply(m@),
            Action::StartIngest => ActionView::StartIngest,
            Action::Exit => ActionView::Exit,
        }
    }
}

/// The id of a request; a notification has none, or `null`.
pub open spec fn id_in(msg: JsonView) -> Option<JsonView> {
    match msg.get("id"@) {
        Some(id) => if id is Null {
            None
        } else {
            Some(id)
        },
        None => None,
    }
}

/// The root URI that an initialization names.
pub open spec fn root_uri_in(msg: JsonView) -> Option<Seq<char>> {
    match msg.get("params"@) {
        Some(p) => p.str_at("rootUri"@),
        None => None,
    }
}

/// The document that options are asked for.
pub open spec fn document_in(msg: JsonView) -> Option<Seq<char>> {
    match msg.get("params"@) {
        Some(p) => match p.get("textDocument"@) {
            Some(d) => d.str_at("uri"@),
            None => None,
        },
        None => None,
    }
}

/// What a request asks for.
pub open spec fn asked(method: Seq<char>, id: JsonView, msg: JsonView) -> ActionView {
    if method == "build/initialize"@ {
        ActionView::Initialize(id, root_uri_in(msg))
    } else if method == "workspace/buildTargets"@ {
        ActionView::Reply(result_view(id, targets_view()))
    } else if method == "buildTarget/sources"@ {
        ActionView::Sources(id)
    } else if method == "textDocument/sourceKitOptions"@ {
        ActionView::Options(id, document_in(msg))
    } else if method == "workspace/waitForBuildSystemUpdates"@ {
        ActionView::Reply(result_view(id, JsonView::Object(Seq::empty())))
    } else if method == "build/shutdown"@ {
        ActionView::Reply(result_view(id, JsonView::Null))
    } else {
        ActionView::Reply(error_view(id, METHOD_NOT_FOUND, "method not found: "@ + method))
    }
}

/// What a notification asks for.
pub open spec fn notified(method: Seq<char>) -> ActionView {
    if method == "build/initialized"@ {
        ActionView::StartIngest
    } else if method == "build/exit"@ {
        ActionView::Exit
    } else {
        ActionView::Ignore
    }
}

/// What a message asks for: a request has a method and an id, a notification a
/// method alone, and anything else is an answer that nobody waits for.
pub open spec fn routed(msg: JsonView) -> ActionView {
    match (msg.str_at("method"@), id_in(msg)) {
        (Some(m), Some(id)) => asked(m, id, msg),
        (Some(m), None) => notified(m),
        (None, _) => ActionView::Ignore,
    }
}

/// What a request asks for.
fn handle_request(method: &str, id: Json, msg: &Json) -> (r: Action)
    ensures
        r@ == asked(method@, id@, msg@),
{
    if str_eq(method, "build/initialize") {
        let root_uri = match msg.get("params") {
            Some(p) => own_opt(p.str_at("rootUri")),
            None => None,
        };
        return Action::Initialize { id, root_uri };
    }
    if str_eq(method, "workspace/buildTargets") {
        return Action::Reply(result_message(id, build_targets()));
    }
    if str_eq(method, "buildTarget/sources") {
        return Action::Sources { id };
    }
    if str_eq(method, "textDocument/sourceKitOptions") {
        let uri = match msg.get("params") {
            Some(p) => match p.get("textDocument") {
                Some(d) => own_opt(d.str_at("uri")),
                None => None,
            },
            None => None,
        };
        return Action::Options { id, uri };
    }
    if str_eq(method, "workspace/waitForBuildSystemUpdates") {
        let empty = object(Vec::new());
        assert(empty@->Object_0 =~= Seq::empty());
        return Action::Reply(result_message(id, empty));
    }
    if str_eq(method, "build/shutdown") {
        return Action::Reply(result_message(id, Json::Null));
    }
    let mut m = owned("method not found: ");
    m.append(method);
    Action::Reply(error_message(id, METHOD_NOT_FOUND, m.as_str()))
}

/// What a notification asks for. Sources are found in logs, so that watched files
/// do not matter, and all work is too cheap to cancel.
fn handle_notification(method: &str) -> (r: Action)
    ensures
        r@ == notified(method@),
{
    if str_eq(method, "build/initialized") {
        Action::StartIngest
    } else if str_eq(method, "build/exit") {
        Action::Exit
    } else {
        Action::Ignore
    }
}

/// What a message asks for.
pub fn route(msg: &Json) -> (r: Action)
    ensures
        r@ == routed(msg@),
{
    let id = match msg.get("id") {
        Some(Json::Null) => None,
        Some(id) => Some(id.copy()),
        None => None,
    };
    match (msg.str_at("method"), id) {
        (Some(m), Some(id)) => handle_request(m, id, msg),
        (Some(m), None) => handle_notification(m),
        (None, _) => Action::Ignore,
    }
}

/// What an inbound frame asks for.
pub fn handle_message(raw: &[u8]) -> (r: Action)
    ensures
        r@ == match serde_parse(raw@) {
            Ok(v) => routed(v),
            Err(e) => ActionView::Invalid(e),
        },
{
    match parse(raw) {
        Ok(v) => route(&v),
        Err(e) => Action::Invalid(e),
    }
}

/// The request that an action answers.
pub open spec fn answers(a: ActionView) -> Option<JsonView> {
    match a {
        ActionView::Initialize(id, _) => Some(id),
        ActionView::Sources(id) => Some(id),
        ActionView::Options(id, _) => Some(id),
        ActionView::Reply(m) => m.get("id"@),
        _ => None,
    }
}

/// A reply carries the id of its request.
proof fn lemma_reply_id(id: JsonView, result: JsonView, code: i64, message: Seq<char>)
    ensures
        result_view(id, result).get("id"@) == Some(id),
        error_view(id, code, message).get("id"@) == Some(id),
{
    reveal_strlit("jsonrpc");
    reveal_strlit("id");
    reveal_with_fuel(member_of, 3);
    assert("jsonrpc"@.len() != "id"@.len());
    let a = result_view(id, result)->Object_0;
    let b = error_view(id, code, message)->Object_0;
    assert(a.drop_first()[0] == a[1]);
    assert(b.drop_first()[0] == b[1]);
}

/// Every request is answered, under its own id, and nothing else is.
pub proof fn lemma_requests_answered(msg: JsonView)
    ensures
        answers(routed(msg)) == if msg.str_at("method"@) is Some {
            id_in(msg)
        } else {
            None
        },
{
    if let (Some(m), Some(id)) = (msg.str_at("method"@), id_in(msg)) {
        lemma_reply_id(id, targets_view(), METHOD_NOT_FOUND, "method not found: "@ + m);
        lemma_reply_id(id, JsonView::Object(Seq::empty()), METHOD_NOT_FOUND, "method not found: "@ + m);
        lemma_reply_id(id, JsonView::Null, METHOD_NOT_FOUND, "method not found: "@ + m);
    }
}

} // verus!
