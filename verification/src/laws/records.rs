//! What is registered, configured, served and told.

use crate::http::HttpError;
use crate::json;
use crate::json::JsonView;
use crate::laws::numbers;
use crate::laws::queries;
use crate::laws::replies;
use crate::number;
use crate::number::IntError;
use crate::registry;
use crate::sidecar;
use crate::sidecar::{
    FffqBatchItem, FffqHealth, FffqTextResponse, Handler, Method, RescanAction, RescanEvent,
    RescanPhase, SearchTool, ServerArgs,
};
use vstd::prelude::*;

verus! {

/// The name of a hash spells its first eight bytes, each with two lower-case hexadecimal digits.
pub proof fn a_hash_is_spelled_byte_by_byte(digest: Seq<u8>, i: int)
    requires
        digest.len() >= 8,
        0 <= i < 8,
    ensures
        ({
            let name = registry::hash_name(digest);
            &&& name.len() == 16
            &&& 16 * numbers::worth(name[2 * i]) + numbers::worth(name[2 * i + 1]) == digest[i]
            &&& '0' <= name[2 * i] <= '9' || 'a' <= name[2 * i] <= 'f'
            &&& '0' <= name[2 * i + 1] <= '9' || 'a' <= name[2 * i + 1] <= 'f'
        }),
{
    let name = registry::hash_name(digest);
    let byte = digest[i];
    assert((2 * i) / 2 == i && (2 * i) % 2 == 0 && (2 * i + 1) / 2 == i && (2 * i + 1) % 2 == 1);
    assert(name[2 * i] == number::digit_char((byte / 16) as nat));
    assert(name[2 * i + 1] == number::digit_char((byte % 16) as nat));
    assert(byte as int == 16 * (byte as int / 16) + byte as int % 16);
}

/// A root is registered below the home directory, under the name of the hash of its bytes.
pub proof fn a_root_is_registered_below_home(home: Seq<char>, root: Seq<char>)
    ensures
        registry::registry_parts(home, root) == seq![
            home,
            ".cache"@,
            "fff"@,
            "sidecars"@,
            registry::hash_name(registry::blake3_digest(vstd::utf8::encode_utf8(root)))
                + ".json"@,
        ],
{
}

/// The home directory is the one that is set, or else a place for temporary files.
pub proof fn home_is_what_is_set(home: Seq<char>, profile: Seq<char>)
    ensures
        registry::client_home(Some(home)) == home,
        registry::client_home(None) == "/tmp"@,
        registry::sidecar_home(Some(home), Some(profile)) == home,
        registry::sidecar_home(Some(home), None) == home,
        registry::sidecar_home(None, Some(profile)) == profile,
        registry::sidecar_home(None, None) == "/tmp"@,
{
}

/// A sidecar records its root, its process and its start as they are, and its URLs on its listener.
pub proof fn a_sidecar_is_recorded_as_it_is(
    root: Seq<char>,
    pid: u32,
    local_addr: Seq<char>,
    http_path: Seq<char>,
    started_at_ms: u128,
)
    ensures
        ({
            let recorded = registry::recorded(root, pid, local_addr, http_path, started_at_ms);
            &&& recorded.root == root
            &&& recorded.pid == pid
            &&& recorded.started_at_ms == started_at_ms
            &&& recorded.http_url == "http://"@ + local_addr
            &&& recorded.mcp_url == "http://"@ + local_addr + http_path
            &&& recorded.fffq_url == "http://"@ + local_addr + "/fffq"@
        }),
{
}

/// A path that begins with a slash is served as it is, and any other below one.
pub proof fn a_path_gets_the_slash_that_it_lacks(path: Seq<char>)
    ensures
        path.len() > 0 && path[0] == '/' ==> sidecar::rooted(path) == path,
        !(path.len() > 0 && path[0] == '/') ==> sidecar::rooted(path) == seq!['/'] + path,
{
    crate::laws::words::beginnings_are_found(path, seq!['/']);
    if path.len() > 0 {
        assert(path.take(1) == seq![path[0]]);
        if path[0] != '/' {
            assert(path.take(1)[0] != '/');
        }
    }
}

/// The log lies below the home directory, at the place of the system.
pub proof fn the_log_lies_below_home(home: Seq<char>)
    ensures
        sidecar::default_log_file(home, false) == home + "/.cache/fff_mcp.log"@,
        sidecar::default_log_file(home, true) == home + "\\AppData\\Local\\fff_mcp.log"@,
{
}

/// The paths that were given are kept in their order.
pub proof fn given_paths_are_kept(a: Seq<char>, b: Seq<char>)
    ensures
        sidecar::given_paths(Some(a), Some(b)) == seq![a, b],
        sidecar::given_paths(Some(a), None) == seq![a],
        sidecar::given_paths(None, Some(b)) == seq![b],
        sidecar::given_paths(None, None) == Seq::<Seq<char>>::empty(),
{
}

/// Contents are indexed if that is wished; if it is not, they are not if that is wished; and
/// without a wish they are unless there is no warm-up.
pub proof fn a_wish_for_an_index_prevails(args: ServerArgs)
    ensures
        args.content_indexing ==> sidecar::indexes_contents(args),
        !args.content_indexing && args.no_content_indexing ==> !sidecar::indexes_contents(args),
        !args.content_indexing && !args.no_content_indexing ==> (sidecar::indexes_contents(args)
            <==> !args.no_warmup),
{
}

/// Each route has its path, its method and its own answer, and there are no others.
pub proof fn routes_lead_to_their_answers()
    ensures
        sidecar::all_routes().len() == 6,
        sidecar::all_routes().contains((Method::Get, "/health"@, Handler::Health)),
        sidecar::all_routes().contains((Method::Get, "/fffq/health"@, Handler::FffqHealth)),
        sidecar::all_routes().contains((Method::Post, "/fffq/find"@, Handler::Find)),
        sidecar::all_routes().contains((Method::Post, "/fffq/grep"@, Handler::Grep)),
        sidecar::all_routes().contains((Method::Post, "/fffq/multi-grep"@, Handler::MultiGrep)),
        sidecar::all_routes().contains((Method::Post, "/fffq/batch"@, Handler::Batch)),
{
    let all = sidecar::all_routes();
    assert(all[0] == (Method::Get, "/health"@, Handler::Health));
    assert(all[1] == (Method::Get, "/fffq/health"@, Handler::FffqHealth));
    assert(all[2] == (Method::Post, "/fffq/find"@, Handler::Find));
    assert(all[3] == (Method::Post, "/fffq/grep"@, Handler::Grep));
    assert(all[4] == (Method::Post, "/fffq/multi-grep"@, Handler::MultiGrep));
    assert(all[5] == (Method::Post, "/fffq/batch"@, Handler::Batch));
}

/// An item of a batch names its tool, says whether it came out, and holds the text or the reason.
pub proof fn an_item_tells_what_came_out(
    item: FffqBatchItem,
    tool: SearchTool,
    outcome: Result<String, String>,
)
    requires
        sidecar::item_tells(item, tool, outcome),
    ensures
        item.tool@ == match tool {
            SearchTool::FindFiles => "find_files"@,
            SearchTool::Grep => "grep"@,
            SearchTool::MultiGrep => "multi_grep"@,
        },
        item.ok <==> outcome is Ok,
        match outcome {
            Ok(text) => item.text@ == text@,
            Err(message) => item.text@ == message@,
        },
{
}

/// A rescan sleeps, requests and waits in turn: it waits only for what was requested.
pub proof fn a_rescan_goes_round(interval_secs: u64)
    ensures
        sidecar::rescan_wanted(RescanPhase::Sleeping, interval_secs) == RescanAction::Sleep(
            interval_secs,
        ),
        sidecar::rescan_wanted(RescanPhase::Requesting, interval_secs) is Request,
        sidecar::rescan_wanted(RescanPhase::Scanning, interval_secs) == RescanAction::Wait(
            interval_secs,
        ),
        sidecar::rescan_next(RescanPhase::Sleeping, RescanEvent::Passed) is Requesting,
        sidecar::rescan_next(RescanPhase::Requesting, RescanEvent::Requested) is Scanning,
        sidecar::rescan_next(RescanPhase::Requesting, RescanEvent::Failed) is Sleeping,
        sidecar::rescan_next(RescanPhase::Scanning, RescanEvent::Passed) is Sleeping,
        sidecar::rescan_next(RescanPhase::Sleeping, RescanEvent::Requested) is Sleeping,
        sidecar::rescan_next(RescanPhase::Sleeping, RescanEvent::Failed) is Sleeping,
        sidecar::rescan_next(RescanPhase::Requesting, RescanEvent::Passed) is Requesting,
        sidecar::rescan_next(RescanPhase::Scanning, RescanEvent::Requested) is Scanning,
        sidecar::rescan_next(RescanPhase::Scanning, RescanEvent::Failed) is Scanning,
{
}

/// A report on its health holds what a sidecar says, field by field.
pub proof fn a_health_report_holds_its_fields(report: FffqHealth)
    ensures
        queries::names(report.json()) == set!["ok"@, "root"@, "pid"@, "version"@],
        queries::has(report.json(), "ok"@, JsonView::Bool(report.ok)),
        queries::has(report.json(), "root"@, JsonView::Str(report.root@)),
        report.json().get("pid"@) matches Some(pid) && queries::is_number(pid, report.pid as int),
        queries::has(report.json(), "version"@, JsonView::Str(report.version@)),
{
    reveal_strlit("ok");
    reveal_strlit("root");
    reveal_strlit("pid");
    reveal_strlit("version");
    assert("ok"@.len() == 2 && "root"@.len() == 4 && "pid"@.len() == 3 && "version"@.len() == 7);
    reveal_with_fuel(json::fields_of, 5);
    numbers::decimals_are_worth_their_number(report.pid as nat);
    let fields = seq![
        ("ok"@, JsonView::Bool(report.ok)),
        ("root"@, JsonView::Str(report.root@)),
        ("pid"@, json::number_of(report.pid as nat)),
        ("version"@, JsonView::Str(report.version@)),
    ];
    assert(fields.drop_last().drop_last().drop_last().drop_last() == Seq::<
        (Seq<char>, JsonView),
    >::empty());
    assert(report.json() == json::object(fields));
}

/// The answer to a search holds its text and nothing else.
pub proof fn an_answer_holds_its_text(answer: FffqTextResponse)
    ensures
        queries::names(answer.json()) == set!["text"@],
        queries::has(answer.json(), "text"@, JsonView::Str(answer.text@)),
{
    reveal_with_fuel(json::fields_of, 2);
    let fields = seq![("text"@, JsonView::Str(answer.text@))];
    assert(fields.drop_last() == Seq::<(Seq<char>, JsonView)>::empty());
    assert(answer.json() == json::object(fields));
}

/// A value gives the field that it holds, and its text or truth value if it is one.
pub proof fn values_give_what_they_hold(value: JsonView, name: Seq<char>)
    ensures
        value.get(name) == replies::field_of(value, name),
        value.as_str() == match value {
            JsonView::Str(text) => Some(text),
            _ => None,
        },
        value.as_bool() == match value {
            JsonView::Bool(b) => Some(b),
            _ => None,
        },
{
}

proof fn lemma_object_field(fields: Seq<(Seq<char>, JsonView)>, i: int)
    requires
        json::names_differ(fields),
        0 <= i < fields.len(),
    ensures
        json::fields_of(fields).dom().contains(fields[i].0),
        json::fields_of(fields)[fields[i].0] == fields[i].1,
    decreases fields.len(),
{
    let n = fields.len() - 1;
    if i < n {
        let before = fields.drop_last();
        assert forall|a: int, b: int| 0 <= a < b < before.len() implies (#[trigger] before[a]).0
            != (#[trigger] before[b]).0 by {
            assert(before[a] == fields[a] && before[b] == fields[b]);
        }
        lemma_object_field(before, i);
        assert(before[i] == fields[i]);
        assert(fields[i].0 != fields[n].0);
    }
}

proof fn lemma_object_names(fields: Seq<(Seq<char>, JsonView)>, name: Seq<char>)
    ensures
        json::fields_of(fields).dom().contains(name) ==> exists|i: int|
            0 <= i < fields.len() && (#[trigger] fields[i]).0 == name,
    decreases fields.len(),
{
    if fields.len() > 0 && json::fields_of(fields).dom().contains(name) {
        let n = fields.len() - 1;
        if fields[n].0 != name {
            let before = fields.drop_last();
            lemma_object_names(before, name);
            let i = choose|i: int| 0 <= i < before.len() && (#[trigger] before[i]).0 == name;
            assert(fields[i].0 == name);
        }
    }
}

/// An object holds each of its fields, and no others.
pub proof fn an_object_holds_its_fields(
    fields: Seq<(Seq<char>, JsonView)>,
    i: int,
    name: Seq<char>,
)
    requires
        json::names_differ(fields),
        0 <= i < fields.len(),
    ensures
        queries::has(json::object(fields), fields[i].0, fields[i].1),
        queries::names(json::object(fields)).contains(name) ==> exists|k: int|
            0 <= k < fields.len() && (#[trigger] fields[k]).0 == name,
{
    lemma_object_field(fields, i);
    lemma_object_names(fields, name);
}

/// What is optional is null where there is none, and itself where there is.
pub proof fn what_is_optional_may_be_null(text: Seq<char>, n: nat)
    ensures
        json::optional_str(None) is Null,
        json::optional_str(Some(text)) == JsonView::Str(text),
        json::optional_number(None) is Null,
        queries::is_number(json::optional_number(Some(n)), n as int),
        queries::is_number(json::number_of(n), n as int),
{
    numbers::decimals_are_worth_their_number(n);
}

/// Every error has its own message.
pub proof fn errors_have_their_messages(e: IntError)
    ensures
        HttpError::UnsupportedScheme.spec_message() == "only http:// sidecar URLs are supported"@,
        HttpError::MissingPort.spec_message() == "HTTP URL must include an explicit port"@,
        HttpError::EmptyResponse.spec_message() == "empty HTTP response from sidecar"@,
        HttpError::MalformedResponse.spec_message() == "malformed HTTP response"@,
        HttpError::MissingStatus.spec_message() == "missing HTTP status"@,
        HttpError::MissingStatusCode.spec_message() == "missing HTTP status code"@,
        HttpError::MalformedChunkedBody.spec_message() == "malformed chunked body"@,
        HttpError::TruncatedChunkedBody.spec_message() == "truncated chunked body"@,
        HttpError::BadNumber(e).spec_message() == match e {
            IntError::Empty => "cannot parse integer from empty string"@,
            IntError::InvalidDigit => "invalid digit found in string"@,
            IntError::PosOverflow => "number too large to fit in target type"@,
        },
{
}

} // verus!
