//! What the language server reads in the answers of the build server, member by
//! member, and which of its messages is answered with what.

use crate::bsp::server::config_of;
use crate::bsp::server::did_change_view;
use crate::bsp::server::error_view;
use crate::bsp::server::index_name;
use crate::bsp::server::initialize_view;
use crate::bsp::server::options_view;
use crate::bsp::server::result_view;
use crate::bsp::server::root_text;
use crate::bsp::server::routed;
use crate::bsp::server::sources_view;
use crate::bsp::server::target_view;
use crate::bsp::server::targets_view;
use crate::bsp::server::ActionView;
use crate::bsp::server::METHOD_NOT_FOUND;
use crate::bsp::uri::file_uri;
use crate::json::lemma_member_absent;
use crate::json::lemma_member_at;
use crate::json::serde_parse;
use crate::json::JsonView;
use crate::number::hex_count;
use crate::number::hex_padded;
use crate::number::lemma_hex_padded_injective;
use crate::number::lemma_hex_padded_len;
use crate::text::has_prefix;
use crate::text::lemma_trim_end_bound;
use crate::text::lemma_trim_end_exact;
use crate::util::hash::fnv1a;
use vstd::prelude::*;
use vstd::utf8::encode_utf8;

verus! {

/// Whether a document is the list of some texts.
pub open spec fn lists_texts(v: Option<JsonView>, items: Seq<Seq<char>>) -> bool {
    v matches Some(JsonView::Array(a)) && a.len() == items.len() && forall|i: int|
        0 <= i < items.len() ==> #[trigger] a[i] == JsonView::Str(items[i])
}

/// The answer to the initialization announces that the server has compiler options for
/// files, so that the language server asks for them, and says where the index store and
/// the index database of the project lie. It gives the root back as the client wrote it.
pub proof fn lemma_initialize_announces(
    version: Seq<char>,
    root_uri: Option<Seq<char>>,
    index_store: Seq<char>,
    index_database: Seq<char>,
)
    ensures
        ({
            let r = initialize_view(version, root_uri, index_store, index_database);
            &&& r.str_at("dataKind"@) == Some("sourceKit"@)
            &&& r.get("data"@) matches Some(d) && {
                &&& d.get("sourceKitOptionsProvider"@) == Some(JsonView::Bool(true))
                &&& d.str_at("indexStorePath"@) == Some(index_store)
                &&& d.str_at("indexDatabasePath"@) == Some(index_database)
            }
            &&& r.str_at("displayName"@) == Some("xcode-dap"@)
            &&& r.str_at("version"@) == Some(version)
            &&& r.str_at("bspVersion"@) == Some("2.2.0"@)
            &&& r.str_at("rootUri"@) == root_uri
            &&& r.get("rootUri"@) is Some
            &&& r.get("capabilities"@) matches Some(c) && lists_texts(
                c.get("languageIds"@),
                seq!["c"@, "cpp"@, "objective-c"@, "objective-cpp"@, "swift"@],
            )
        }),
{
    reveal_strlit("displayName");
    reveal_strlit("version");
    reveal_strlit("bspVersion");
    reveal_strlit("rootUri");
    reveal_strlit("capabilities");
    reveal_strlit("dataKind");
    reveal_strlit("data");
    reveal_strlit("indexStorePath");
    reveal_strlit("indexDatabasePath");
    reveal_strlit("sourceKitOptionsProvider");
    assert("displayName"@.len() != "version"@.len());
    assert("displayName"@.len() != "bspVersion"@.len());
    assert("displayName"@.len() != "rootUri"@.len());
    assert("displayName"@.len() != "capabilities"@.len());
    assert("displayName"@.len() != "dataKind"@.len());
    assert("displayName"@.len() != "data"@.len());
    assert("version"@.len() != "bspVersion"@.len());
    assert("version"@[0] != "rootUri"@[0]);
    assert("version"@.len() != "capabilities"@.len());
    assert("version"@.len() != "dataKind"@.len());
    assert("version"@.len() != "data"@.len());
    assert("bspVersion"@.len() != "rootUri"@.len());
    assert("bspVersion"@.len() != "capabilities"@.len());
    assert("bspVersion"@.len() != "dataKind"@.len());
    assert("bspVersion"@.len() != "data"@.len());
    assert("rootUri"@.len() != "capabilities"@.len());
    assert("rootUri"@.len() != "dataKind"@.len());
    assert("rootUri"@.len() != "data"@.len());
    assert("capabilities"@.len() != "dataKind"@.len());
    assert("capabilities"@.len() != "data"@.len());
    assert("dataKind"@.len() != "data"@.len());
    assert("indexStorePath"@.len() != "indexDatabasePath"@.len());
    assert("indexStorePath"@.len() != "sourceKitOptionsProvider"@.len());
    assert("indexDatabasePath"@.len() != "sourceKitOptionsProvider"@.len());
    let ms = initialize_view(version, root_uri, index_store, index_database)->Object_0;
    lemma_member_at(ms, 0, "displayName"@);
    lemma_member_at(ms, 1, "version"@);
    lemma_member_at(ms, 2, "bspVersion"@);
    lemma_member_at(ms, 3, "rootUri"@);
    lemma_member_at(ms, 4, "capabilities"@);
    lemma_member_at(ms, 5, "dataKind"@);
    lemma_member_at(ms, 6, "data"@);
    let data = ms[6].1->Object_0;
    lemma_member_at(data, 0, "indexStorePath"@);
    lemma_member_at(data, 1, "indexDatabasePath"@);
    lemma_member_at(data, 2, "sourceKitOptionsProvider"@);
    lemma_member_at(ms[4].1->Object_0, 0, "languageIds"@);
}

/// What the server announces it does: it answers requests for options with the options,
/// and every initialization with the announcement.
pub proof fn lemma_announced_is_served(
    msg: JsonView,
    id: JsonView,
    version: Seq<char>,
    root_uri: Option<Seq<char>>,
    index_store: Seq<char>,
    index_database: Seq<char>,
)
    requires
        msg.str_at("method"@) == Some("textDocument/sourceKitOptions"@),
        msg.get("id"@) == Some(id),
        !(id is Null),
    ensures
        routed(msg) is Options,
        initialize_view(version, root_uri, index_store, index_database).get("data"@) matches Some(
            d,
        ) && d.get("sourceKitOptionsProvider"@) == Some(JsonView::Bool(true)),
{
    lemma_initialize_announces(version, root_uri, index_store, index_database);
    lemma_methods_routed(msg, id);
}

/// A reply carries the id of its request and what was asked for.
pub proof fn lemma_result_reads(id: JsonView, result: JsonView)
    ensures
        result_view(id, result).str_at("jsonrpc"@) == Some("2.0"@),
        result_view(id, result).get("id"@) == Some(id),
        result_view(id, result).get("result"@) == Some(result),
        result_view(id, result).get("error"@) is None,
{
    reveal_strlit("jsonrpc");
    reveal_strlit("id");
    reveal_strlit("result");
    reveal_strlit("error");
    assert("jsonrpc"@.len() != "id"@.len());
    assert("jsonrpc"@.len() != "result"@.len());
    assert("jsonrpc"@.len() != "error"@.len());
    assert("id"@.len() != "result"@.len());
    assert("id"@.len() != "error"@.len());
    assert("result"@.len() != "error"@.len());
    let ms = result_view(id, result)->Object_0;
    lemma_member_at(ms, 0, "jsonrpc"@);
    lemma_member_at(ms, 1, "id"@);
    lemma_member_at(ms, 2, "result"@);
    lemma_member_absent(ms, "error"@);
}

/// A refusal carries the id of its request, a code and a reason.
pub proof fn lemma_error_reads(id: JsonView, code: i64, message: Seq<char>)
    ensures
        ({
            let r = error_view(id, code, message);
            &&& r.str_at("jsonrpc"@) == Some("2.0"@)
            &&& r.get("id"@) == Some(id)
            &&& r.get("error"@) matches Some(e) && e.i64_at("code"@) == Some(code) && e.str_at(
                "message"@,
            ) == Some(message)
            &&& r.get("result"@) is None
        }),
{
    reveal_strlit("jsonrpc");
    reveal_strlit("id");
    reveal_strlit("error");
    reveal_strlit("code");
    reveal_strlit("message");
    reveal_strlit("result");
    assert("jsonrpc"@.len() != "id"@.len());
    assert("jsonrpc"@.len() != "error"@.len());
    assert("jsonrpc"@.len() != "result"@.len());
    assert("id"@.len() != "error"@.len());
    assert("id"@.len() != "result"@.len());
    assert("error"@.len() != "result"@.len());
    assert("code"@.len() != "message"@.len());
    let ms = error_view(id, code, message)->Object_0;
    lemma_member_at(ms, 0, "jsonrpc"@);
    lemma_member_at(ms, 1, "id"@);
    lemma_member_at(ms, 2, "error"@);
    lemma_member_absent(ms, "result"@);
    let body = ms[2].1->Object_0;
    lemma_member_at(body, 0, "code"@);
    lemma_member_at(body, 1, "message"@);
}

/// The notification of a change is a `buildTarget/didChange` that names no target, which
/// stands for all of them.
pub proof fn lemma_change_reads()
    ensures
        did_change_view().str_at("jsonrpc"@) == Some("2.0"@),
        did_change_view().str_at("method"@) == Some("buildTarget/didChange"@),
        did_change_view().get("id"@) is None,
        did_change_view().get("params"@) matches Some(p) && p.get("changes"@) == Some(
            JsonView::Null,
        ),
{
    reveal_strlit("jsonrpc");
    reveal_strlit("method");
    reveal_strlit("params");
    reveal_strlit("id");
    assert("jsonrpc"@.len() != "method"@.len());
    assert("jsonrpc"@.len() != "params"@.len());
    assert("jsonrpc"@.len() != "id"@.len());
    assert("method"@[0] != "params"@[0]);
    assert("method"@.len() != "id"@.len());
    assert("params"@.len() != "id"@.len());
    let ms = did_change_view()->Object_0;
    lemma_member_at(ms, 0, "jsonrpc"@);
    lemma_member_at(ms, 1, "method"@);
    lemma_member_at(ms, 2, "params"@);
    lemma_member_absent(ms, "id"@);
    lemma_member_at(ms[2].1->Object_0, 0, "changes"@);
}

/// There is one target; it takes the languages that the server answers for, and the
/// sources hang off its identifier.
pub proof fn lemma_target_reads(uri: Seq<char>)
    ensures
        targets_view().get("targets"@) matches Some(JsonView::Array(ts)) && ts.len() == 1 && {
            &&& ts[0].get("id"@) matches Some(t) && t.str_at("uri"@) == Some("dummy://dummy"@)
            &&& lists_texts(
                ts[0].get("languageIds"@),
                seq!["c"@, "cpp"@, "objective-c"@, "objective-cpp"@, "swift"@],
            )
            &&& lists_texts(ts[0].get("dependencies"@), Seq::empty())
            &&& lists_texts(ts[0].get("tags"@), seq!["test"@])
            &&& sources_view(uri).get("items"@) matches Some(JsonView::Array(items)) && items.len()
                == 1 && items[0].get("target"@) == ts[0].get("id"@)
        },
{
    reveal_strlit("id");
    reveal_strlit("displayName");
    reveal_strlit("tags");
    reveal_strlit("capabilities");
    reveal_strlit("languageIds");
    reveal_strlit("dependencies");
    reveal_strlit("target");
    reveal_strlit("sources");
    assert("id"@.len() != "displayName"@.len());
    assert("id"@.len() != "tags"@.len());
    assert("id"@.len() != "capabilities"@.len());
    assert("id"@.len() != "languageIds"@.len());
    assert("id"@.len() != "dependencies"@.len());
    assert("displayName"@.len() != "tags"@.len());
    assert("displayName"@.len() != "capabilities"@.len());
    assert("displayName"@[0] != "languageIds"@[0]);
    assert("displayName"@.len() != "dependencies"@.len());
    assert("tags"@.len() != "capabilities"@.len());
    assert("tags"@.len() != "languageIds"@.len());
    assert("tags"@.len() != "dependencies"@.len());
    assert("capabilities"@.len() != "languageIds"@.len());
    assert("capabilities"@[0] != "dependencies"@[0]);
    assert("languageIds"@.len() != "dependencies"@.len());
    assert("target"@.len() != "sources"@.len());
    lemma_member_at(targets_view()->Object_0, 0, "targets"@);
    let one = targets_view()->Object_0[0].1->Array_0[0]->Object_0;
    lemma_member_at(one, 0, "id"@);
    lemma_member_at(one, 1, "displayName"@);
    lemma_member_at(one, 2, "tags"@);
    lemma_member_at(one, 3, "capabilities"@);
    lemma_member_at(one, 4, "languageIds"@);
    lemma_member_at(one, 5, "dependencies"@);
    lemma_member_at(target_view()->Object_0, 0, "uri"@);
    lemma_member_at(sources_view(uri)->Object_0, 0, "items"@);
    let item = sources_view(uri)->Object_0[0].1->Array_0[0]->Object_0;
    lemma_member_at(item, 0, "target"@);
    lemma_member_at(item, 1, "sources"@);
}

/// The sources of the target are one directory: the project root, not generated.
pub proof fn lemma_sources_read(uri: Seq<char>)
    ensures
        sources_view(uri).get("items"@) matches Some(JsonView::Array(items)) && items.len() == 1 && (
        items[0].get("sources"@) matches Some(JsonView::Array(s)) && s.len() == 1 && {
            &&& s[0].str_at("uri"@) == Some(uri)
            &&& s[0].i64_at("kind"@) == Some(2i64)
            &&& s[0].get("generated"@) == Some(JsonView::Bool(false))
        }),
{
    reveal_strlit("uri");
    reveal_strlit("kind");
    reveal_strlit("generated");
    reveal_strlit("target");
    reveal_strlit("sources");
    assert("uri"@.len() != "kind"@.len());
    assert("uri"@.len() != "generated"@.len());
    assert("kind"@.len() != "generated"@.len());
    assert("target"@.len() != "sources"@.len());
    lemma_member_at(sources_view(uri)->Object_0, 0, "items"@);
    let item = sources_view(uri)->Object_0[0].1->Array_0[0]->Object_0;
    lemma_member_at(item, 0, "target"@);
    lemma_member_at(item, 1, "sources"@);
    let source = item[1].1->Array_0[0]->Object_0;
    lemma_member_at(source, 0, "uri"@);
    lemma_member_at(source, 1, "kind"@);
    lemma_member_at(source, 2, "generated"@);
}

/// The source directory is the root as the client wrote it, else the file URI of the
/// root's path, and ends in exactly one slash.
pub proof fn lemma_root_text(root_uri: Option<Seq<char>>, root: Seq<char>)
    ensures
        ({
            let base = match root_uri {
                Some(u) => u,
                None => file_uri(root),
            };
            let t = root_text(root_uri, root);
            let n = t.len() - 1;
            &&& n >= 0
            &&& t[n] == '/'
            &&& n > 0 ==> t[n - 1] != '/'
            &&& n <= base.len()
            &&& t.take(n) == base.take(n)
            &&& forall|k: int| n <= k < base.len() ==> #[trigger] base[k] == '/'
        }),
{
    reveal_strlit("/");
    let base = match root_uri {
        Some(u) => u,
        None => file_uri(root),
    };
    let p = |c: char| c == '/';
    let n = lemma_trim_end_bound(base, p);
    lemma_trim_end_exact(base, n, p);
    let t = root_text(root_uri, root);
    assert(t =~= base.take(n) + seq!['/']);
    assert(t.take(n) =~= base.take(n));
    assert forall|k: int| n <= k < base.len() implies #[trigger] base[k] == '/' by {
        assert(p(base[k]));
    }
    if n > 0 {
        assert(!p(base[n - 1]));
    }
}

/// The options of a file are its compiler arguments, all of them and in order, and the
/// directory to run in; where none are known the answer is `null`.
pub proof fn lemma_options_read(args: Seq<Seq<char>>, dir: Seq<char>)
    ensures
        lists_texts(options_view(Some((args, dir))).get("compilerArguments"@), args),
        options_view(Some((args, dir))).str_at("workingDirectory"@) == Some(dir),
        options_view(None) is Null,
{
    reveal_strlit("compilerArguments");
    reveal_strlit("workingDirectory");
    assert("compilerArguments"@.len() != "workingDirectory"@.len());
    let ms = options_view(Some((args, dir)))->Object_0;
    lemma_member_at(ms, 0, "compilerArguments"@);
    lemma_member_at(ms, 1, "workingDirectory"@);
}

/// Which request is answered with what.
pub proof fn lemma_methods_routed(msg: JsonView, id: JsonView)
    requires
        msg.get("id"@) == Some(id),
        !(id is Null),
    ensures
        ({
            let m = msg.str_at("method"@);
            let a = routed(msg);
            let asked_for = match msg.get("params"@) {
                Some(p) => match p.get("textDocument"@) {
                    Some(d) => d.str_at("uri"@),
                    None => None,
                },
                None => None,
            };
            let rooted_at = match msg.get("params"@) {
                Some(p) => p.str_at("rootUri"@),
                None => None,
            };
            &&& m == Some("build/initialize"@) ==> a == ActionView::Initialize(id, rooted_at)
            &&& m == Some("workspace/buildTargets"@) ==> a == ActionView::Reply(
                result_view(id, targets_view()),
            )
            &&& m == Some("buildTarget/sources"@) ==> a == ActionView::Sources(id)
            &&& m == Some("textDocument/sourceKitOptions"@) ==> a == ActionView::Options(
                id,
                asked_for,
            )
            &&& m == Some("workspace/waitForBuildSystemUpdates"@) ==> (a matches ActionView::Reply(
                r,
            ) && r.get("id"@) == Some(id) && r.get("result"@) == Some(
                JsonView::Object(Seq::empty()),
            ))
            &&& m == Some("build/shutdown"@) ==> (a matches ActionView::Reply(r) && r.get("id"@)
                == Some(id) && r.get("result"@) == Some(JsonView::Null))
            &&& m is None ==> a is Ignore
        }),
{
    reveal_strlit("build/initialize");
    reveal_strlit("workspace/buildTargets");
    reveal_strlit("buildTarget/sources");
    reveal_strlit("textDocument/sourceKitOptions");
    reveal_strlit("workspace/waitForBuildSystemUpdates");
    reveal_strlit("build/shutdown");
    assert("build/initialize"@.len() != "workspace/buildTargets"@.len());
    assert("build/initialize"@.len() != "buildTarget/sources"@.len());
    assert("build/initialize"@.len() != "textDocument/sourceKitOptions"@.len());
    assert("build/initialize"@.len() != "workspace/waitForBuildSystemUpdates"@.len());
    assert("build/initialize"@.len() != "build/shutdown"@.len());
    assert("workspace/buildTargets"@.len() != "buildTarget/sources"@.len());
    assert("workspace/buildTargets"@.len() != "textDocument/sourceKitOptions"@.len());
    assert("workspace/buildTargets"@.len() != "workspace/waitForBuildSystemUpdates"@.len());
    assert("workspace/buildTargets"@.len() != "build/shutdown"@.len());
    assert("buildTarget/sources"@.len() != "textDocument/sourceKitOptions"@.len());
    assert("buildTarget/sources"@.len() != "workspace/waitForBuildSystemUpdates"@.len());
    assert("buildTarget/sources"@.len() != "build/shutdown"@.len());
    assert("textDocument/sourceKitOptions"@.len() != "workspace/waitForBuildSystemUpdates"@.len());
    assert("textDocument/sourceKitOptions"@.len() != "build/shutdown"@.len());
    assert("workspace/waitForBuildSystemUpdates"@.len() != "build/shutdown"@.len());
    lemma_result_reads(id, JsonView::Object(Seq::empty()));
    lemma_result_reads(id, JsonView::Null);
}

/// A request for anything else is refused: there is no such method.
pub proof fn lemma_unknown_refused(msg: JsonView, id: JsonView, m: Seq<char>)
    requires
        msg.get("id"@) == Some(id),
        !(id is Null),
        msg.str_at("method"@) == Some(m),
        m != "build/initialize"@,
        m != "workspace/buildTargets"@,
        m != "buildTarget/sources"@,
        m != "textDocument/sourceKitOptions"@,
        m != "workspace/waitForBuildSystemUpdates"@,
        m != "build/shutdown"@,
    ensures
        routed(msg) matches ActionView::Reply(r) && {
            &&& r.get("id"@) == Some(id)
            &&& r.get("result"@) is None
            &&& r.get("error"@) matches Some(e) && e.i64_at("code"@) == Some(-32601i64)
                && e.str_at("message"@) == Some("method not found: "@ + m)
        },
{
    lemma_error_reads(id, METHOD_NOT_FOUND, "method not found: "@ + m);
}

/// A notification starts the ingestion of build logs or ends the server; any other is
/// let pass.
pub proof fn lemma_notifications(msg: JsonView)
    requires
        msg.get("id"@) matches Some(id) ==> id is Null,
    ensures
        ({
            let m = msg.str_at("method"@);
            &&& m == Some("build/initialized"@) <==> routed(msg) is StartIngest
            &&& m == Some("build/exit"@) <==> routed(msg) is Exit
            &&& m != Some("build/initialized"@) && m != Some("build/exit"@) ==> routed(msg) is Ignore
        }),
{
    reveal_strlit("build/initialized");
    reveal_strlit("build/exit");
    assert("build/initialized"@.len() != "build/exit"@.len());
}

/// The file gives the build root, the scheme and the workspace under these names; a file
/// that is missing or no JSON gives nothing.
pub proof fn lemma_config_reads(bytes: Option<Seq<u8>>)
    ensures
        ({
            let c = config_of(bytes);
            match bytes {
                Some(b) => match serde_parse(b) {
                    Ok(v) => c.build_root == v.str_at("build_root"@) && c.scheme == v.str_at(
                        "scheme"@,
                    ) && c.workspace == v.str_at("workspace"@),
                    Err(_) => c.build_root is None && c.scheme is None && c.workspace is None,
                },
                None => c.build_root is None && c.scheme is None && c.workspace is None,
            }
        }),
{
}

/// Two index stores share a database only where their hashes agree, and the name of a
/// database is that of its store's hash in sixteen digits.
pub proof fn lemma_index_names(a: Seq<char>, b: Seq<char>)
    ensures
        index_name(a) == index_name(b) ==> fnv1a(encode_utf8(a)) == fnv1a(encode_utf8(b)),
        has_prefix(index_name(a), "index-db-"@),
        index_name(a).len() >= "index-db-"@.len() + 16,
{
    let n = "index-db-"@.len() as int;
    let x = fnv1a(encode_utf8(a)) as nat;
    let y = fnv1a(encode_utf8(b)) as nat;
    lemma_hex_padded_len(x, 16);
    lemma_hex_padded_len(y, 16);
    reveal_with_fuel(hex_count, 17);
    assert(hex_count(16) == 0x1_0000_0000_0000_0000);
    assert(index_name(a).take(n) =~= "index-db-"@);
    if index_name(a) == index_name(b) {
        assert(index_name(a).skip(n) =~= hex_padded(x, 16));
        assert(index_name(b).skip(n) =~= hex_padded(y, 16));
        lemma_hex_padded_injective(x, y, 16);
    }
}

} // verus!
