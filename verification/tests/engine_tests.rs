use lazyreq::cache::calculate_cache_name;
use lazyreq::engine::Run;
use lazyreq::machine::{Action, Event, Part, Payload, ResolvedRequest};
use lazyreq::error::ExecError;
use lazyreq::lazyreq::{LazyReq, TokenUse};
use lazyreq::request::{HttpMethod, Request};
use std::collections::HashMap;

struct World {
    now: u64,
    cache: HashMap<String, String>,
    answers: HashMap<String, (String, String)>,
    sources: HashMap<String, Vec<u8>>,
    sent: Vec<ResolvedRequest>,
    loads: usize,
    stores: usize,
}

fn world() -> World {
    World {
        now: 1_000,
        cache: HashMap::new(),
        answers: HashMap::new(),
        sources: HashMap::new(),
        sent: Vec::new(),
        loads: 0,
        stores: 0,
    }
}

fn drive(run: &mut Run, w: &mut World) -> Action {
    let mut event = Event::Continue;
    let mut steps = 0;
    loop {
        steps += 1;
        assert!(steps < 10_000, "the run does not end");
        match run.step(event) {
            Action::Continue => event = Event::Continue,
            Action::LoadCache { name } => {
                w.loads += 1;
                event = Event::CacheLoaded { stored: w.cache.get(&name).cloned(), now: w.now };
            }
            Action::StoreCache { name, text } => {
                w.stores += 1;
                w.cache.insert(name, text);
                event = Event::CacheStored;
            }
            Action::ReadFile { path } => {
                event = match w.sources.get(&path) {
                    Some(bytes) => Event::SourceRead { bytes: bytes.clone() },
                    None => Event::SourceFailed { cause: format!("no file {}", path) },
                };
            }
            Action::Download { url } => {
                event = match w.sources.get(&url) {
                    Some(bytes) => Event::SourceRead { bytes: bytes.clone() },
                    None => Event::SourceFailed { cause: format!("no answer from {}", url) },
                };
            }
            Action::Send(request) => {
                event = match w.answers.get(&request.url) {
                    Some((status, body)) => Event::Response {
                        status: status.clone(),
                        body: body.clone(),
                        now: w.now,
                    },
                    None => Event::TransportFailed { cause: format!("no route to {}", request.url) },
                };
                w.sent.push(request);
            }
            done => return done,
        }
    }
}

fn request(method: &str, path: &str) -> Request {
    let mut r = Request::default();
    r.set_method(method.to_string());
    r.set_path(path.to_string());
    r
}

fn defs(requests: Vec<(&str, Request)>, variables: &[(&str, &str)], hooks: &[(&str, &str)]) -> LazyReq {
    let mut d = LazyReq::new();
    d.filename = "api.lreq".to_string();
    for (k, v) in variables {
        d.add_variable(k.to_string(), v.to_string());
    }
    for (k, v) in hooks {
        d.add_hook(k.to_string(), v.to_string());
    }
    for (id, r) in requests {
        d.add_request(id.to_string(), r);
    }
    d
}

fn run_once(d: LazyReq, id: &str, w: &mut World) -> Action {
    let mut run = d.do_request(id).expect("the request is defined");
    let end = drive(&mut run, w);
    assert!(run.is_over());
    end
}

fn finished(end: Action) -> (String, String, String) {
    match end {
        Action::Finished(o) => (o.status, o.url, o.body),
        Action::Failed(e) => panic!("the run failed: {:?}", error_text(&e)),
        _ => panic!("the run did not end"),
    }
}

fn error_text(e: &ExecError) -> String {
    match e {
        ExecError::UnresolvedToken(s) => format!("UnresolvedToken({})", s),
        ExecError::MacroNotFound(s) => format!("MacroNotFound({})", s),
        ExecError::JsonParseFailure(s) => format!("JsonParseFailure({})", s),
        ExecError::JsonPathNotFound(s) => format!("JsonPathNotFound({})", s),
        ExecError::InvalidDefinition(s) => format!("InvalidDefinition({})", s),
        ExecError::MultipartSourceError(s) => format!("MultipartSourceError({})", s),
        ExecError::TransportError(s) => format!("TransportError({})", s),
        ExecError::CycleDetected(s) => format!("CycleDetected({})", s),
        ExecError::ScannerFailure => "ScannerFailure".to_string(),
        ExecError::UnexpectedEvent => "UnexpectedEvent".to_string(),
    }
}

fn failure(end: Action) -> String {
    match end {
        Action::Failed(e) => error_text(&e),
        _ => panic!("the run did not fail"),
    }
}

fn answer(w: &mut World, url: &str, status: &str, body: &str) {
    w.answers.insert(url.to_string(), (status.to_string(), body.to_string()));
}

#[test]
fn template_without_tokens_is_sent_as_it_is() {
    for url in ["https://example.com/api", "", "price=5$", "a $ b $$ c"] {
        let mut w = world();
        answer(&mut w, url, "200 OK", "hi");
        let mut r = request("GET", url);
        r.add_header("X".to_string(), "plain value".to_string());
        let end = run_once(defs(vec![("ping", r)], &[], &[]), "ping", &mut w);
        assert_eq!(finished(end), ("200 OK".to_string(), url.to_string(), "hi".to_string()));
        assert_eq!(w.sent.len(), 1);
        assert_eq!(w.sent[0].url, url);
        assert_eq!(w.sent[0].headers, vec![("X".to_string(), "plain value".to_string())]);
    }
}

#[test]
fn escaped_token_loses_one_dollar_sign() {
    let mut w = world();
    answer(&mut w, "$literal", "200 OK", "");
    let d = defs(vec![("r", request("GET", "$$literal"))], &[("literal", "never")], &[("literal", "$req.r")]);
    assert_eq!(finished(run_once(d, "r", &mut w)).1, "$literal");
    assert_eq!(w.sent.len(), 1);
    assert_eq!(w.loads, 0);
}

#[test]
fn variable_is_substituted() {
    let mut w = world();
    answer(&mut w, "https://example.com/api", "200 OK", "{}");
    let d = defs(vec![("r", request("GET", "https://$host/api"))], &[("host", "example.com")], &[]);
    let (status, url, body) = finished(run_once(d, "r", &mut w));
    assert_eq!((status.as_str(), url.as_str(), body.as_str()), ("200 OK", "https://example.com/api", "{}"));
}

#[test]
fn every_token_is_replaced_once_from_left_to_right() {
    let mut w = world();
    answer(&mut w, "$b/$b-x/$b/$b", "200 OK", "");
    let d = defs(
        vec![("r", request("GET", "$a/$a-x/$a.c/$ab"))],
        &[("a", "$b"), ("b", "wrong"), ("ab", "$b")],
        &[],
    );
    assert_eq!(finished(run_once(d, "r", &mut w)).1, "$b/$b-x/$b/$b");
}

#[test]
fn headers_are_resolved_in_order() {
    let mut w = world();
    answer(&mut w, "/x", "204 No Content", "");
    let mut r = request("POST", "/x");
    r.add_header("Authorization".to_string(), "Bearer $token".to_string());
    r.add_header("Content-Type".to_string(), "application/json".to_string());
    r.add_header("X-Host".to_string(), "$host:$number".to_string());
    r.set_body("{\"a\": \"$notresolved\"}".to_string());
    let d = defs(vec![("r", r)], &[("token", "abc"), ("host", "h"), ("number", "80")], &[]);
    finished(run_once(d, "r", &mut w));
    let sent = &w.sent[0];
    assert_eq!(sent.method, HttpMethod::Post);
    assert_eq!(
        sent.headers,
        vec![
            ("Authorization".to_string(), "Bearer abc".to_string()),
            ("Content-Type".to_string(), "application/json".to_string()),
            ("X-Host".to_string(), "h:80".to_string()),
        ]
    );
    assert!(matches!(&sent.payload, Payload::Body(b) if b == "{\"a\": \"$notresolved\"}"));
}

#[test]
fn unknown_method_goes_out_as_get() {
    let mut w = world();
    answer(&mut w, "/x", "200 OK", "");
    finished(run_once(defs(vec![("r", request("FETCH", "/x"))], &[], &[]), "r", &mut w));
    assert_eq!(w.sent[0].method, HttpMethod::Get);
}

#[test]
fn unresolved_token_fails_the_run() {
    let mut w = world();
    let d = defs(vec![("r", request("GET", "/$missing.path/x"))], &[("other", "1")], &[]);
    assert_eq!(failure(run_once(d, "r", &mut w)), "UnresolvedToken(missing)");
    assert!(w.sent.is_empty());
}

#[test]
fn unknown_request_is_not_started() {
    let d = defs(vec![("r", request("GET", "/"))], &[], &[]);
    assert!(d.do_request("other").is_none());
    let d = defs(vec![("r", request("GET", "/"))], &[], &[]);
    assert!(Run::new(d, "").is_none());
}

fn user_defs(path: &str, hook: &str) -> LazyReq {
    defs(
        vec![("getUser", request("GET", "https://$host/user")), ("show", request("GET", path))],
        &[("host", "example.com")],
        &[("user", hook)],
    )
}

#[test]
fn hook_chain_takes_a_field_of_the_result() {
    let mut w = world();
    answer(&mut w, "https://example.com/user", "200 OK", "{\"data\":{\"id\":42}}");
    answer(&mut w, "/items/42", "200 OK", "item");
    let end = run_once(user_defs("/items/$user.data.id", "$req.getUser 60"), "show", &mut w);
    assert_eq!(finished(end), ("200 OK".to_string(), "/items/42".to_string(), "item".to_string()));
    let urls: Vec<&str> = w.sent.iter().map(|r| r.url.as_str()).collect();
    assert_eq!(urls, vec!["https://example.com/user", "/items/42"]);
}

#[test]
fn hook_chain_missing_field_names_the_token() {
    let mut w = world();
    answer(&mut w, "https://example.com/user", "200 OK", "{\"data\":{\"id\":42}}");
    let end = run_once(user_defs("/items/$user.data.missing", "$req.getUser 60"), "show", &mut w);
    assert_eq!(failure(end), "JsonPathNotFound($user.data.missing)");
    assert_eq!(w.sent.len(), 1);
    assert_eq!(w.stores, 0);
}

#[test]
fn result_that_is_no_json_fails_only_with_a_path() {
    let mut w = world();
    answer(&mut w, "https://example.com/user", "200 OK", "just text");
    answer(&mut w, "/items/just text", "200 OK", "");
    let end = run_once(user_defs("/items/$user.id", "$req.getUser"), "show", &mut w);
    assert_eq!(failure(end), "JsonParseFailure($user.id)");
    let end = run_once(user_defs("/items/$user", "$req.getUser"), "show", &mut w);
    assert_eq!(finished(end).1, "/items/just text");
}

#[test]
fn cached_result_is_not_fetched_again() {
    let mut w = world();
    answer(&mut w, "https://example.com/user", "200 OK", "{\"data\":{\"id\":42,\"n\":\"x\"}}");
    answer(&mut w, "/items/42", "200 OK", "");
    answer(&mut w, "/names/x", "200 OK", "");
    finished(run_once(user_defs("/items/$user.data.id", "$req.getUser 60"), "show", &mut w));
    assert_eq!((w.loads, w.stores, w.sent.len()), (1, 1, 2));
    w.now += 60;
    finished(run_once(user_defs("/names/$user.data.n", "$req.getUser 60"), "show", &mut w));
    assert_eq!((w.loads, w.stores, w.sent.len()), (2, 1, 3));
    assert_eq!(w.sent[2].url, "/names/x");
    let users = w.sent.iter().filter(|r| r.url == "https://example.com/user").count();
    assert_eq!(users, 1);
}

#[test]
fn cached_result_of_several_lines_is_served_whole() {
    let mut w = world();
    let raw = "{\n  \"data\": {\n    \"id\": 42,\n    \"n\": \"x\"\n  }\n}\n";
    answer(&mut w, "https://example.com/user", "200 OK", raw);
    answer(&mut w, "/items/42", "200 OK", "");
    answer(&mut w, "/names/x", "200 OK", "");
    answer(&mut w, &format!("/raw/{}", raw), "200 OK", "");
    finished(run_once(user_defs("/items/$user.data.id", "$req.getUser 60"), "show", &mut w));
    let name = calculate_cache_name("api.lreq", "getUser");
    assert_eq!(w.cache.get(&name), Some(&format!("1060\n{}\n", raw)));
    finished(run_once(user_defs("/names/$user.data.n", "$req.getUser 60"), "show", &mut w));
    finished(run_once(user_defs("/raw/$user", "$req.getUser 60"), "show", &mut w));
    assert_eq!(w.sent.last().unwrap().url, format!("/raw/{}", raw));
    let users = w.sent.iter().filter(|r| r.url == "https://example.com/user").count();
    assert_eq!(users, 1);
    assert_eq!((w.loads, w.stores), (3, 1));
}

#[test]
fn expired_result_is_fetched_again() {
    let mut w = world();
    answer(&mut w, "https://example.com/user", "200 OK", "{\"data\":{\"id\":42}}");
    answer(&mut w, "/items/42", "200 OK", "");
    finished(run_once(user_defs("/items/$user.data.id", "$req.getUser 60"), "show", &mut w));
    w.now += 61;
    finished(run_once(user_defs("/items/$user.data.id", "$req.getUser 60"), "show", &mut w));
    let users = w.sent.iter().filter(|r| r.url == "https://example.com/user").count();
    assert_eq!(users, 2);
    assert_eq!(w.stores, 2);
}

#[test]
fn cache_holds_the_raw_result_under_the_entry_name() {
    let mut w = world();
    let raw = "{\"data\":{\"id\":42}}";
    answer(&mut w, "https://example.com/user", "200 OK", raw);
    answer(&mut w, "/items/42", "200 OK", "");
    finished(run_once(user_defs("/items/$user.data.id", "$req.getUser 60"), "show", &mut w));
    let name = calculate_cache_name("api.lreq", "getUser");
    assert_eq!(w.cache.get(&name), Some(&format!("1060\n{}\n", raw)));
}

#[test]
fn corrupt_cache_entry_counts_as_a_miss() {
    let mut w = world();
    w.cache.insert(calculate_cache_name("api.lreq", "getUser"), "garbage".to_string());
    answer(&mut w, "https://example.com/user", "200 OK", "{\"data\":{\"id\":7}}");
    answer(&mut w, "/items/7", "200 OK", "");
    assert_eq!(finished(run_once(user_defs("/items/$user.data.id", "$req.getUser 5"), "show", &mut w)).1, "/items/7");
    assert_eq!(w.sent.len(), 2);
}

#[test]
fn hook_without_ttl_never_touches_the_cache() {
    let mut w = world();
    answer(&mut w, "https://example.com/user", "200 OK", "{\"id\":1}");
    answer(&mut w, "/1/1", "200 OK", "");
    finished(run_once(user_defs("/$user.id/$user.id", "$req.getUser"), "show", &mut w));
    assert_eq!((w.loads, w.stores), (0, 0));
    assert_eq!(w.sent.len(), 3);
}

#[test]
fn expiry_beyond_the_last_timestamp_is_not_stored() {
    let mut w = world();
    w.now = 10;
    answer(&mut w, "https://example.com/user", "200 OK", "{\"id\":1}");
    answer(&mut w, "/1", "200 OK", "");
    let hook = format!("$req.getUser {}", u64::MAX);
    assert_eq!(finished(run_once(user_defs("/$user.id", &hook), "show", &mut w)).1, "/1");
    assert_eq!((w.loads, w.stores), (1, 0));
}

#[test]
fn hooks_are_looked_up_before_variables() {
    let mut w = world();
    answer(&mut w, "/inner", "200 OK", "from-hook");
    answer(&mut w, "/from-hook", "200 OK", "");
    let d = defs(
        vec![("inner", request("GET", "/inner")), ("outer", request("GET", "/$x"))],
        &[("x", "from-variable")],
        &[("x", "$req.inner")],
    );
    assert_eq!(finished(run_once(d, "outer", &mut w)).1, "/from-hook");
}

#[test]
fn hook_errors() {
    let mut w = world();
    let d = defs(vec![("r", request("GET", "/$h"))], &[], &[("h", "$req.nowhere 5")]);
    assert_eq!(failure(run_once(d, "r", &mut w)), "MacroNotFound(nowhere)");
    let d = defs(vec![("r", request("GET", "/$h"))], &[], &[("h", "nowhere")]);
    assert_eq!(failure(run_once(d, "r", &mut w)), "MacroNotFound(nowhere)");
    let d = defs(vec![("r", request("GET", "/$h")), ("s", request("GET", "/"))], &[], &[("h", "$req.s soon")]);
    assert_eq!(failure(run_once(d, "r", &mut w)), "InvalidDefinition($req.s soon)");
    assert!(w.sent.is_empty());
}

#[test]
fn hook_cycle_is_reported() {
    let mut w = world();
    let d = defs(
        vec![("a", request("GET", "/$hb")), ("b", request("GET", "/$ha"))],
        &[],
        &[("ha", "$req.a"), ("hb", "$req.b 10")],
    );
    assert_eq!(failure(run_once(d, "a", &mut w)), "CycleDetected(a)");
    assert!(w.sent.is_empty());
    let d = defs(vec![("a", request("GET", "/$h"))], &[], &[("h", "$req.a")]);
    assert_eq!(failure(run_once(d, "a", &mut w)), "CycleDetected(a)");
}

#[test]
fn failure_of_a_macro_fails_the_whole_run() {
    let mut w = world();
    let end = run_once(user_defs("/items/$user.id", "$req.getUser 5"), "show", &mut w);
    assert_eq!(failure(end), "TransportError(no route to https://example.com/user)");
    assert_eq!(w.sent.len(), 1);
    assert_eq!(w.stores, 0);
}

fn form_request() -> Request {
    let mut r = request("POST", "/upload");
    r.add_header("content-type".to_string(), "text/plain".to_string());
    r.add_header("Accept".to_string(), "*/*".to_string());
    r.add_multipart("note".to_string(), "hello".to_string());
    r.add_multipart("image".to_string(), "file:///tmp/x.png".to_string());
    r.add_multipart("doc".to_string(), "download://https://host/f.pdf".to_string());
    r.set_body("ignored".to_string());
    r
}

#[test]
fn multipart_parts_are_classified_and_named() {
    let mut w = world();
    w.sources.insert("/tmp/x.png".to_string(), vec![1, 2, 3]);
    w.sources.insert("https://host/f.pdf".to_string(), vec![4, 5]);
    answer(&mut w, "/upload", "201 Created", "ok");
    let end = run_once(defs(vec![("up", form_request())], &[], &[]), "up", &mut w);
    assert_eq!(finished(end).0, "201 Created");
    let sent = &w.sent[0];
    assert_eq!(sent.headers, vec![("Accept".to_string(), "*/*".to_string())]);
    let parts = match &sent.payload {
        Payload::Form(parts) => parts,
        Payload::Body(_) => panic!("a form was expected"),
    };
    assert_eq!(parts.len(), 3);
    assert!(matches!(&parts[0], Part::Text { name, text } if name == "note" && text == "hello"));
    assert!(matches!(&parts[1], Part::File { name, file_name, mime, bytes }
        if name == "image" && file_name == "x.png" && mime == "image/png" && bytes == &vec![1u8, 2, 3]));
    assert!(matches!(&parts[2], Part::File { name, file_name, mime, bytes }
        if name == "doc" && file_name == "f.pdf" && mime == "application/pdf" && bytes == &vec![4u8, 5]));
}

#[test]
fn multipart_source_failures() {
    let mut w = world();
    let end = run_once(defs(vec![("up", form_request())], &[], &[]), "up", &mut w);
    assert_eq!(failure(end), "MultipartSourceError(no file /tmp/x.png)");
    let mut r = request("POST", "/upload");
    r.add_multipart("doc".to_string(), "download://not a url".to_string());
    let end = run_once(defs(vec![("up", r)], &[], &[]), "up", &mut w);
    assert_eq!(failure(end), "MultipartSourceError(not a url)");
    let mut r = request("POST", "/upload");
    r.add_multipart("f".to_string(), "file://..".to_string());
    let end = run_once(defs(vec![("up", r)], &[], &[]), "up", &mut w);
    assert_eq!(failure(end), "MultipartSourceError(..)");
    assert!(w.sent.is_empty());
}

#[test]
fn step_with_takes_the_file_name_it_is_given() {
    let mut r = request("POST", "/upload");
    r.add_multipart("f".to_string(), "file:///tmp/x.png".to_string());
    let mut run = defs(vec![("up", r)], &[], &[]).do_request("up").unwrap();
    let mut action = run.step(Event::Continue);
    while matches!(action, Action::Continue) && run.pending_local_path().is_none() {
        action = run.step(Event::Continue);
    }
    assert_eq!(run.pending_local_path(), Some("/tmp/x.png".to_string()));
    let action = run.step_with(Event::Continue, Some("renamed.txt".to_string()));
    assert!(matches!(action, Action::ReadFile { path } if path == "/tmp/x.png"));
    assert!(matches!(run.step(Event::SourceRead { bytes: vec![9] }), Action::Continue));
    match run.step(Event::Continue) {
        Action::Send(sent) => match &sent.payload {
            Payload::Form(parts) => assert!(matches!(&parts[0], Part::File { file_name, mime, .. }
                if file_name == "renamed.txt" && mime == "text/plain")),
            Payload::Body(_) => panic!("a form was expected"),
        },
        _ => panic!("the request was expected to be sent"),
    }
}

#[test]
fn unexpected_event_fails_the_run() {
    let mut run = defs(vec![("r", request("GET", "/"))], &[], &[]).do_request("r").unwrap();
    assert!(!run.is_over());
    let action = run.step(Event::CacheStored);
    assert!(matches!(action, Action::Failed(ExecError::UnexpectedEvent)));
    assert!(run.is_over());
    assert!(matches!(run.step(Event::Continue), Action::Failed(ExecError::UnexpectedEvent)));
}

#[test]
fn tokens_are_classified_against_the_definitions() {
    let d = defs(
        vec![("a", request("GET", "/")), ("b", request("GET", "/"))],
        &[("v", "value")],
        &[("h", "$req.b 30"), ("g", "$req.a")],
    );
    assert!(matches!(d.handle_token("$v"), Ok(TokenUse::Literal(s)) if s == "value"));
    assert!(matches!(d.handle_token("$v.ignored.path"), Ok(TokenUse::Literal(s)) if s == "value"));
    assert!(matches!(d.handle_token("$$v"), Ok(TokenUse::Literal(s)) if s == "$v"));
    assert!(matches!(d.handle_token("$h.x"), Ok(TokenUse::Call { request: 1, ttl: Some(30) })));
    assert!(matches!(d.handle_token("$g"), Ok(TokenUse::Call { request: 0, ttl: None })));
    assert!(matches!(d.handle_token("$nope"), Err(ExecError::UnresolvedToken(s)) if s == "nope"));
    assert!(matches!(d.handle_macro(" $req.a  15 "), Ok(TokenUse::Call { request: 0, ttl: Some(15) })));
    assert!(matches!(d.handle_macro("req.a"), Err(ExecError::MacroNotFound(s)) if s == "req.a"));
}
