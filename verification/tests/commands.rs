//! Commands from their beginning to their end.

use fffq::client::{
    action, begin, doctor_report, report_text, step, Action, Command, Job, Output, State,
    POLL_INTERVAL_MS,
};
use fffq::http::{HttpRequest, HttpResponse};
use fffq::launch::{
    is_overdue, launch_args, resolve_fff_mcp_bin, resolve_root, Discovery, Event, Launch, Target,
    LAUNCH_TIMEOUT_SECS,
};
use fffq::query::Query;
use fffq::registry::{sidecar_registry, Registry};

type Happening = Event<Registry, HttpResponse, String>;
type Doing = Action<HttpRequest, Launch, String>;

fn command(job: Job, no_start: bool) -> Command {
    Command {
        target: Target {
            root: "/repo".to_string(),
            registry_path: "/home/u/.cache/fff/sidecars/x.json".to_string(),
            no_start,
        },
        job,
        version: "0.1.0".to_string(),
    }
}

fn search() -> Job {
    Job::Search(Query::Find { query: "main".to_string(), max_results: 20, cursor: None })
}

fn registered(root: &str) -> Happening {
    Event::Registry(Some(sidecar_registry(root, 7, "127.0.0.1:54321", "/mcp", 1)))
}

fn reply(status: u16, body: &str) -> Happening {
    Event::Reply(Ok(HttpResponse { status, headers: Vec::new(), body: body.to_string() }))
}

fn failure(message: &str) -> Happening {
    Event::Reply(Err(message.to_string()))
}

fn healthy() -> Happening {
    reply(200, "{\"ok\":true,\"root\":\"/repo\",\"pid\":7,\"version\":\"0.1.0\"}")
}

fn run(command: &Command, events: Vec<Happening>) -> State<Registry, String> {
    let mut state = begin(command);
    for event in events {
        state = step(command, state, event);
    }
    state
}

fn next_action(command: &Command, events: Vec<Happening>) -> Doing {
    action(command, &run(command, events))
}

fn line(state: State<Registry, String>) -> String {
    match state {
        State::Done(Ok(Output::Line(text))) => text,
        other => panic!("{other:?}"),
    }
}

fn error(state: State<Registry, String>) -> String {
    match state {
        State::Done(Err(message)) => message,
        other => panic!("{other:?}"),
    }
}

#[test]
fn live_sidecar_is_reused() {
    let ensure = command(Job::Ensure, false);
    assert!(matches!(next_action(&ensure, vec![]), Action::ReadRegistry));
    match next_action(&ensure, vec![registered("/repo")]) {
        Action::Send(request) => {
            assert_eq!((request.host.as_str(), request.port), ("127.0.0.1", 54321));
            assert!(request.text.starts_with("GET /fffq/health HTTP/1.1\r\n"));
        }
        other => panic!("{other:?}"),
    }
    let ended = run(&ensure, vec![registered("/repo"), healthy()]);
    assert!(matches!(action(&ensure, &ended), Action::Finish));
    match ended {
        State::Done(Ok(Output::Registry(registry))) => assert_eq!(registry.pid, 7),
        other => panic!("{other:?}"),
    }
}

#[test]
fn no_start_refuses_to_start() {
    let stale = "no live sidecar for /repo; registry /home/u/.cache/fff/sidecars/x.json is missing or stale";
    let doctor = command(Job::Doctor, true);
    assert_eq!(error(run(&doctor, vec![Event::Registry(None)])), stale);
    assert_eq!(error(run(&doctor, vec![registered("/other")])), stale);
    assert_eq!(error(run(&doctor, vec![registered("/repo"), failure("Connection refused")])), stale);
    assert_eq!(error(run(&doctor, vec![registered("/repo"), reply(500, "{}")])), stale);
}

#[test]
fn no_start_does_not_restart() {
    let find = command(search(), true);
    let events = vec![
        registered("/repo"),
        healthy(),
        failure("Connection refused"),
        failure("Connection refused"),
    ];
    assert_eq!(
        error(run(&find, events)),
        "direct fffq HTTP failed: Connection refused; streamable HTTP MCP fallback also failed: Connection refused"
    );
}

#[test]
fn missing_sidecar_is_started_and_awaited() {
    let ensure = command(Job::Ensure, false);
    match next_action(&ensure, vec![Event::Registry(None)]) {
        Action::Launch(launch) => {
            assert_eq!(launch.stale_registry, "/home/u/.cache/fff/sidecars/x.json");
            assert_eq!(launch.directory, "/repo");
            assert_eq!(launch.args, launch_args("/home/u/.cache/fff/sidecars/x.json", "/repo"));
        }
        other => panic!("{other:?}"),
    }
    let launched = || vec![Event::Registry(None), Event::Launched(Ok(()))];
    assert!(matches!(next_action(&ensure, launched()), Action::CheckTime));
    let mut events = launched();
    events.push(Event::Elapsed(14_999));
    events.push(Event::Registry(None));
    assert!(matches!(next_action(&ensure, events), Action::Sleep(75)));
    let mut events = launched();
    events.push(Event::Elapsed(14_999));
    events.push(Event::Registry(None));
    events.push(Event::Done);
    events.push(Event::Elapsed(14_999));
    events.push(registered("/repo"));
    events.push(healthy());
    assert!(matches!(run(&ensure, events), State::Done(Ok(Output::Registry(_)))));
    assert_eq!(POLL_INTERVAL_MS, 75);
    assert_eq!(LAUNCH_TIMEOUT_SECS, 15);
    assert!(!is_overdue(14_999));
    assert!(is_overdue(15_000));
}

#[test]
fn started_sidecar_may_fail() {
    let ensure = command(Job::Ensure, false);
    let events = vec![Event::Registry(None), Event::Launched(Err("No such file".to_string()))];
    assert_eq!(error(run(&ensure, events)), "No such file");
    let events = vec![Event::Registry(None), Event::Launched(Ok(())), Event::Elapsed(15_000)];
    assert_eq!(
        error(run(&ensure, events)),
        "sidecar did not become healthy before timeout; registry /home/u/.cache/fff/sidecars/x.json"
    );
}

#[test]
fn search_prints_its_text() {
    let find = command(search(), false);
    let events = vec![registered("/repo"), healthy(), reply(200, "{\"text\":\"src/main.rs\"}")];
    assert_eq!(line(run(&find, events)), "src/main.rs");
}

#[test]
fn lost_sidecar_is_restarted_once() {
    let find = command(search(), false);
    let first = || {
        vec![
            registered("/repo"),
            healthy(),
            failure("malformed HTTP response"),
            failure("Connection refused (os error 61)"),
        ]
    };
    let lost = "direct fffq HTTP failed: malformed HTTP response; streamable HTTP MCP fallback also failed: Connection refused (os error 61)";
    match next_action(&find, first()) {
        Action::Restart(warning) => assert_eq!(
            warning,
            format!("fffq: sidecar request failed ({lost}); restarting sidecar once")
        ),
        other => panic!("{other:?}"),
    }
    let again = || {
        let mut events = first();
        events.push(Event::Done);
        events.push(Event::Registry(None));
        events.push(Event::Launched(Ok(())));
        events.push(Event::Elapsed(14_999));
        events.push(registered("/repo"));
        events.push(healthy());
        events
    };
    let mut events = again();
    events.push(reply(200, "{\"text\":\"found\"}"));
    assert_eq!(line(run(&find, events)), "found");
    let mut events = again();
    events.push(failure("timed out"));
    events.push(failure("timed out"));
    assert_eq!(
        error(run(&find, events)),
        format!("{lost}; retry after restarting sidecar also failed: direct fffq HTTP failed: timed out; streamable HTTP MCP fallback also failed: timed out")
    );
    let mut events = first();
    events.push(Event::Done);
    events.push(Event::Registry(None));
    events.push(Event::Launched(Err("No such file".to_string())));
    assert_eq!(error(run(&find, events)), "No such file");
}

#[test]
fn status_errors_end_a_search() {
    let find = command(search(), false);
    let events = vec![registered("/repo"), healthy(), reply(400, "bad"), reply(400, "bad")];
    assert_eq!(
        error(run(&find, events)),
        "direct fffq HTTP returned 400; streamable HTTP MCP fallback also failed: HTTP 400: bad"
    );
}

#[test]
fn batch_is_posted_and_printed_as_it_is() {
    let batch = command(Job::Batch("{\"ops\":[]}".to_string()), false);
    match next_action(&batch, vec![registered("/repo"), healthy()]) {
        Action::Send(request) => {
            assert!(request.text.starts_with("POST /fffq/batch HTTP/1.1\r\n"));
            assert!(request.text.ends_with("\r\n\r\n{\"ops\":[]}"));
        }
        other => panic!("{other:?}"),
    }
    let events = vec![registered("/repo"), healthy(), reply(200, "{\"results\":[]}")];
    match run(&batch, events) {
        State::Done(Ok(Output::Raw(text))) => assert_eq!(text, "{\"results\":[]}"),
        other => panic!("{other:?}"),
    }
    let events = vec![registered("/repo"), healthy(), failure("empty HTTP response from sidecar")];
    assert!(matches!(run(&batch, events), State::Restarting { .. }));
}

#[test]
fn doctor_reports_and_does_not_restart() {
    let doctor = command(Job::Doctor, false);
    let events = vec![registered("/repo"), healthy(), reply(200, "{\"ok\":true}")];
    assert_eq!(
        line(run(&doctor, events)),
        "root: /repo\npid: 7\nfffq: http://127.0.0.1:54321/fffq\nmcp: http://127.0.0.1:54321/mcp\nhealth: {\n  \"ok\": true\n}"
    );
    let events = vec![registered("/repo"), healthy(), failure("timed out")];
    assert_eq!(error(run(&doctor, events)), "timed out");
}

#[test]
fn report_holds_the_health_as_indented_json() {
    let registry = sidecar_registry("/r", 1, "h:2", "/mcp", 3);
    assert_eq!(
        report_text(&registry, "fine"),
        "root: /r\npid: 1\nfffq: http://h:2/fffq\nmcp: http://h:2/mcp\nhealth: fine"
    );
    let health = serde_json::from_str("{\"b\":[1],\"a\":null}").unwrap();
    assert_eq!(
        doctor_report(&registry, &health).unwrap(),
        "root: /r\npid: 1\nfffq: http://h:2/fffq\nmcp: http://h:2/mcp\nhealth: {\n  \"a\": null,\n  \"b\": [\n    1\n  ]\n}"
    );
}

#[test]
fn unusable_url_in_the_registry_is_no_live_sidecar() {
    let ensure = command(Job::Ensure, true);
    let mut registry = sidecar_registry("/repo", 7, "127.0.0.1:54321", "/mcp", 1);
    registry.fffq_url = "https://127.0.0.1:1/fffq".to_string();
    let state = step(&ensure, begin(&ensure), Event::Registry(Some(registry)));
    match action(&ensure, &state) {
        Action::Refuse(message) => {
            assert_eq!(message, "only http:// sidecar URLs are supported");
            assert!(error(step(&ensure, state, Event::Reply(Err(message)))).starts_with("no live"));
        }
        other => panic!("{other:?}"),
    }
}

#[test]
fn unexpected_events_change_nothing() {
    let find = command(search(), false);
    let state = run(&find, vec![Event::Done, Event::Elapsed(15_000), healthy()]);
    assert!(matches!(action(&find, &state), Action::ReadRegistry));
    let ended = run(&find, vec![registered("/repo"), healthy(), reply(200, "{\"text\":\"t\"}"), healthy()]);
    assert_eq!(line(ended), "t");
}

#[test]
fn sidecar_is_launched_for_streamable_http() {
    assert_eq!(
        launch_args("/reg.json", "/repo").join(" "),
        "--transport streamable-http --http-bind 127.0.0.1:0 --http-path /mcp --registry-path /reg.json --no-warmup --no-update-check --max-cached-files 20000 --no-watch --poll-interval-secs 300 /repo"
    );
}

#[test]
fn program_is_the_first_that_there_is() {
    let found = |a, b, c| resolve_fff_mcp_bin::<&str>(a, b, c, "fff-mcp");
    assert_eq!(found(Some("a"), Some("b"), Some("c")), "a");
    assert_eq!(found(None, Some("b"), Some("c")), "b");
    assert_eq!(found(None, None, Some("c")), "c");
    assert_eq!(found(None, None, None), "fff-mcp");
}

#[test]
fn root_is_that_of_the_repository() {
    let canonical = || Ok("/canonical".to_string());
    assert_eq!(
        resolve_root(Discovery::Workdir("/repo/".to_string()), canonical()),
        Ok("/repo/".to_string())
    );
    assert_eq!(
        resolve_root(Discovery::Bare, canonical()),
        Err("bare git repositories are not supported by fffq".to_string())
    );
    assert_eq!(resolve_root(Discovery::Missing, canonical()), canonical());
    assert_eq!(
        resolve_root(Discovery::Missing, Err("No such file".to_string())),
        Err("No such file".to_string())
    );
}

#[test]
fn every_answer_moves_a_command_on() {
    let find = command(search(), false);
    let mut state = begin(&find);
    let answers = vec![
        Event::Registry(None),
        Event::Launched(Ok(())),
        Event::Elapsed(14_999),
        registered("/other"),
        Event::Done,
        Event::Elapsed(14_999),
        registered("/repo"),
        failure("Connection refused"),
        Event::Done,
        Event::Elapsed(14_999),
        registered("/repo"),
        healthy(),
        reply(500, ""),
        failure("timed out"),
        Event::Done,
    ];
    let mut launches = 0;
    for answer in answers {
        if matches!(action(&find, &state), Action::Launch(_)) {
            launches += 1;
        }
        let before = format!("{state:?}");
        state = step(&find, state, answer);
        assert_ne!(format!("{state:?}"), before);
    }
    assert_eq!(launches, 1);
    assert!(matches!(action(&find, &state), Action::ReadRegistry));
}

#[test]
fn multi_grep_without_a_pattern_does_nothing() {
    let multi_grep = |patterns: Vec<String>| {
        command(
            Job::Search(Query::MultiGrep {
                patterns,
                constraints: None,
                max_results: 20,
                output_mode: "content".to_string(),
                cursor: None,
                context: None,
            }),
            false,
        )
    };
    let empty = multi_grep(Vec::new());
    assert!(matches!(action(&empty, &begin(&empty)), Action::Finish));
    assert_eq!(error(begin(&empty)), "multi-grep requires at least one pattern");
    assert_eq!(
        error(run(&empty, vec![registered("/repo"), healthy()])),
        "multi-grep requires at least one pattern"
    );
    let one = multi_grep(vec!["a".to_string()]);
    assert!(matches!(action(&one, &begin(&one)), Action::ReadRegistry));
}
