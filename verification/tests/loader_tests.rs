use lazyreq::error::ExecError;
use lazyreq::lazyreq::LazyReq;
use lazyreq::store::StringMap;

fn env(pairs: &[(&str, &str)]) -> StringMap<String> {
    let mut m = StringMap::new();
    for (k, v) in pairs {
        m.insert(k.to_string(), v.to_string());
    }
    m
}

fn load(content: &str) -> Result<LazyReq, ExecError> {
    let mut d = LazyReq::new();
    d.from_file("api.lreq".to_string(), content, &env(&[("TOKEN", "\"secret\""), ("HOME", "/root")]))?;
    Ok(d)
}

fn entries(m: &StringMap<String>) -> Vec<(String, String)> {
    m.names.iter().cloned().zip(m.values.iter().cloned()).collect()
}

fn pair(a: &str, b: &str) -> (String, String) {
    (a.to_string(), b.to_string())
}

const SAMPLE: &str = "\
# a definitions file
VARS
host = example.com
token=$env.TOKEN
name = 'Ann Lee'
  # indented comment

HOOKS
user = $req.getUser 60

ID: getUser
GET https://$host/user
H:Authorization=Bearer $token

ID: create
POST https://$host/items
H: Content-Type = application/json
M:file=file:///tmp/a=b.png
M: note = hello
{
  \"name\": \"$name\"
}
";

#[test]
fn sample_file_is_read() {
    let d = load(SAMPLE).ok().unwrap();
    assert_eq!(d.filename, "api.lreq");
    assert_eq!(
        entries(&d.variables),
        vec![pair("host", "example.com"), pair("token", "secret"), pair("name", "Ann Lee")]
    );
    assert_eq!(entries(&d.hooks), vec![pair("user", "$req.getUser 60")]);
    assert_eq!(d.requests.names, vec!["getUser", "create"]);
    let get = &d.requests.values[0];
    assert_eq!((get.method.as_str(), get.path.as_str(), get.body.as_str()), ("GET", "https://$host/user", ""));
    assert_eq!(entries(&get.headers), vec![pair("Authorization", "Bearer $token")]);
    assert!(get.multipart.is_empty());
    let create = &d.requests.values[1];
    assert_eq!((create.method.as_str(), create.path.as_str()), ("POST", "https://$host/items"));
    assert_eq!(create.body, "{\"name\": \"$name\"}");
    assert_eq!(entries(&create.headers), vec![pair("Content-Type", "application/json")]);
    let parts: Vec<(String, String)> =
        create.multipart.iter().map(|p| (p.name.clone(), p.content.clone())).collect();
    assert_eq!(parts, vec![pair("file", "file:///tmp/a=b.png"), pair("note", "hello")]);
}

#[test]
fn empty_file_defines_nothing() {
    for content in ["", "\n\n", "# only a comment", "VARS\nHOOKS\n"] {
        let d = load(content).ok().unwrap();
        assert!(d.variables.names.is_empty() && d.hooks.names.is_empty() && d.requests.names.is_empty());
        assert_eq!(d.filename, "api.lreq");
    }
}

#[test]
fn lines_before_any_section_are_variables() {
    let d = load("a=1\nb = \"two\"\r\n").ok().unwrap();
    assert_eq!(entries(&d.variables), vec![pair("a", "1"), pair("b", "two")]);
}

#[test]
fn quotes_are_stripped_only_around_the_value() {
    let d = load("a='it''s'\nb=\"x\nc='x\"\nd=\"\"\ne=\"\n").ok().unwrap();
    assert_eq!(
        entries(&d.variables),
        vec![pair("a", "it''s"), pair("b", "\"x"), pair("c", "'x\""), pair("d", ""), pair("e", "\"")]
    );
}

#[test]
fn environment_values_are_read_at_load_time() {
    let d = load("home=$env.HOME\ntoken =  $env.TOKEN \n").ok().unwrap();
    assert_eq!(entries(&d.variables), vec![pair("home", "/root"), pair("token", "secret")]);
    assert!(matches!(load("x=$env.MISSING"), Err(ExecError::InvalidDefinition(l)) if l == "x=$env.MISSING"));
}

#[test]
fn later_definitions_replace_earlier_ones() {
    let d = load("a=1\nb=2\na=3\nID: r\nGET /one\nID: s\nGET /s\nID: r\nPUT /two\n").ok().unwrap();
    assert_eq!(entries(&d.variables), vec![pair("a", "3"), pair("b", "2")]);
    assert_eq!(d.requests.names, vec!["r", "s"]);
    assert_eq!(d.requests.values[0].method, "PUT");
    assert_eq!(d.requests.values[0].path, "/two");
    assert_eq!(d.requests.values[1].path, "/s");
}

#[test]
fn request_without_method_line_is_not_set() {
    let d = load("ID: r\nH:A=b\n").ok().unwrap();
    assert_eq!(d.requests.values[0].method, "NOT SET");
    assert_eq!(d.requests.values[0].path, "");
    let d = load("ID:a:b:c\n").ok().unwrap();
    assert_eq!(d.requests.names, vec!["a"]);
}

#[test]
fn body_lines_are_trimmed_and_joined() {
    let d = load("ID: r\nPOST /x\n  {\n  \"a\": 1,\n\n  \"b\": \"VARS\"\n  }\nID: s\nGET /y\n").ok().unwrap();
    assert_eq!(d.requests.values[0].body, "{\"a\": 1,\"b\": \"VARS\"}");
    assert_eq!(d.requests.values[1].body, "");
}

#[test]
fn sections_may_come_back() {
    let d = load("ID: r\nGET /x\nVARS\na=1\nHOOKS more\nh=$req.r=x\n").ok().unwrap();
    assert_eq!(entries(&d.variables), vec![pair("a", "1")]);
    assert_eq!(entries(&d.hooks), vec![pair("h", "$req.r")]);
    assert_eq!(d.requests.values[0].path, "/x");
}

#[test]
fn malformed_lines_are_refused() {
    for (content, line) in [
        ("novalue", "novalue"),
        ("a=b=c", "a=b=c"),
        ("HOOKS\nnohook", "nohook"),
        ("ID: r\nH:NoValue", "H:NoValue"),
        ("ID: r\nH:a=b=c", "H:a=b=c"),
        ("ID: r\nM:nocontent", "M:nocontent"),
        ("ID: r\nGET", "GET"),
        ("ID: r\nGET /a /b", "GET /a /b"),
        ("ID: r\nGET  /a", "GET  /a"),
    ] {
        match load(content) {
            Err(ExecError::InvalidDefinition(l)) => assert_eq!(l, line),
            _ => panic!("{:?} was expected to be refused", content),
        }
    }
}

#[test]
fn refused_file_leaves_nothing_defined() {
    let mut d = LazyReq::new();
    d.add_variable("old".to_string(), "1".to_string());
    assert!(d.from_file("f.lreq".to_string(), "a=1\nbad line\n", &env(&[])).is_err());
    assert!(d.variables.names.is_empty());
    assert_eq!(d.filename, "");
}

#[test]
fn reading_adds_to_what_is_defined() {
    let mut d = LazyReq::new();
    d.add_variable("old".to_string(), "1".to_string());
    d.add_hook("h".to_string(), "$req.x".to_string());
    assert!(d.from_file("f.lreq".to_string(), "new=2\nold=3\n", &env(&[])).is_ok());
    assert_eq!(entries(&d.variables), vec![pair("old", "3"), pair("new", "2")]);
    assert_eq!(entries(&d.hooks), vec![pair("h", "$req.x")]);
    assert_eq!(d.filename, "f.lreq");
}

#[test]
fn definitions_are_well_formed_after_reading() {
    let d = load(SAMPLE).ok().unwrap();
    assert!(d.is_wf());
    let mut broken = load(SAMPLE).ok().unwrap();
    broken.hooks.names.push("user".to_string());
    broken.hooks.values.push("$req.create".to_string());
    assert!(!broken.is_wf());
    let mut broken = load(SAMPLE).ok().unwrap();
    broken.requests.values[1].headers.values.clear();
    assert!(!broken.is_wf());
}

#[test]
fn error_messages_name_what_went_wrong() {
    let cases = [
        (ExecError::UnresolvedToken("x".to_string()), "variable or hook not found: x"),
        (ExecError::MacroNotFound("x".to_string()), "macro names no request: x"),
        (ExecError::JsonParseFailure("$x.a".to_string()), "result of the macro is not JSON: $x.a"),
        (ExecError::JsonPathNotFound("$x.a".to_string()), "macro path not found: $x.a"),
        (ExecError::InvalidDefinition("a b".to_string()), "invalid definition: a b"),
        (ExecError::MultipartSourceError("f".to_string()), "multipart source failed: f"),
        (ExecError::TransportError("t".to_string()), "request failed: t"),
        (ExecError::CycleDetected("r".to_string()), "hooks run in a cycle through request: r"),
        (ExecError::ScannerFailure, "the token pattern was refused"),
        (ExecError::UnexpectedEvent, "unexpected event"),
    ];
    for (error, text) in cases {
        assert_eq!(error.message(), text);
    }
}
