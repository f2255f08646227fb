use lazyreq::error::ExecError;
use lazyreq::hooks::{parse_hook, split_first_word, HookError};
use lazyreq::json::{parse_json, JsonMember, JsonValue};
use lazyreq::lazyreq::{extract, value_in};
use lazyreq::scanner::{cut_text, find_word, scan, to_char_vecs, to_strings, token_is_escaped, token_parts};
use lazyreq::text::{chars_of, string_of};

fn path(segments: &[&str]) -> Vec<Vec<char>> {
    segments.iter().map(|s| chars_of(s)).collect()
}

fn leaf(text: &str) -> JsonValue {
    JsonValue { string: None, json: text.to_string(), members: vec![] }
}

fn text_leaf(characters: &str, json: &str) -> JsonValue {
    JsonValue { string: Some(characters.to_string()), json: json.to_string(), members: vec![] }
}

fn object(text: &str, members: Vec<(&str, JsonValue)>) -> JsonValue {
    JsonValue {
        string: None,
        json: text.to_string(),
        members: members
            .into_iter()
            .map(|(k, v)| JsonMember { key: k.to_string(), value: v })
            .collect(),
    }
}

#[test]
fn navigate_follows_members() {
    let doc = object(
        "{\"data\":{\"id\":42}}",
        vec![("data", object("{\"id\":42}", vec![("id", leaf("42"))]))],
    );
    assert_eq!(doc.navigate(&path(&["data", "id"])).map(|v| v.text()), Some("42".to_string()));
    assert_eq!(doc.navigate(&path(&["data"])).map(|v| v.text()), Some("{\"id\":42}".to_string()));
    assert_eq!(doc.navigate(&path(&[])).map(|v| v.text()), Some("{\"data\":{\"id\":42}}".to_string()));
    assert!(doc.navigate(&path(&["data", "missing"])).is_none());
    assert!(doc.navigate(&path(&["data", "id", "x"])).is_none());
    assert!(doc.navigate(&path(&[""])).is_none());
}

#[test]
fn member_takes_the_first_of_equal_keys() {
    let doc = object("", vec![("a", leaf("1")), ("b", leaf("2")), ("a", leaf("3"))]);
    assert_eq!(doc.member(&chars_of("a")).map(|v| v.text()), Some("1".to_string()));
    assert_eq!(doc.member(&chars_of("b")).map(|v| v.text()), Some("2".to_string()));
    assert!(doc.member(&chars_of("c")).is_none());
    assert!(leaf("x").member(&chars_of("a")).is_none());
}

#[test]
fn parse_json_reads_objects() {
    let doc = parse_json("{\"data\": {\"id\": 42, \"name\": \"Ann\"}, \"ok\": true}").unwrap();
    assert_eq!(doc.text(), "{\"data\":{\"id\":42,\"name\":\"Ann\"},\"ok\":true}");
    assert_eq!(doc.string, None);
    assert_eq!(doc.navigate(&path(&["data", "id"])).map(|v| v.text()), Some("42".to_string()));
    assert_eq!(doc.navigate(&path(&["data", "name"])).map(|v| v.text()), Some("Ann".to_string()));
    assert_eq!(doc.navigate(&path(&["ok"])).map(|v| v.text()), Some("true".to_string()));
    assert!(doc.navigate(&path(&["data", "missing"])).is_none());
}

#[test]
fn parse_json_texts_of_values() {
    assert_eq!(parse_json("\"a\\\"b\"").unwrap().text(), "a\"b");
    assert_eq!(parse_json("null").unwrap().text(), "null");
    assert_eq!(parse_json(" 1.5 ").unwrap().text(), "1.5");
    assert_eq!(parse_json("[1, \"x\"]").unwrap().text(), "[1,\"x\"]");
    assert!(parse_json("[1, 2]").unwrap().members.is_empty());
    assert!(parse_json("\"s\"").unwrap().members.is_empty());
}

#[test]
fn a_string_stands_for_its_characters() {
    let v = parse_json("\"a\\\"b\"").unwrap();
    assert_eq!(v.string, Some("a\"b".to_string()));
    assert_eq!(v.json, "\"a\\\"b\"");
    assert_eq!(v.text(), "a\"b");
    let n = parse_json("42").unwrap();
    assert_eq!((n.string.clone(), n.json.as_str()), (None, "42"));
    assert_eq!(n.text(), "42");
    assert_eq!(text_leaf("chosen", "\"not chosen\"").text(), "chosen");
    assert_eq!(text_leaf("", "\"\"").text(), "");
    assert_eq!(leaf("[1,2]").text(), "[1,2]");
}

#[test]
fn parse_json_refuses_what_is_no_json() {
    assert!(parse_json("").is_none());
    assert!(parse_json("not json").is_none());
    assert!(parse_json("{\"a\":").is_none());
    assert!(parse_json("{} x").is_none());
}

#[test]
fn extract_takes_the_value_at_the_path() {
    let raw = "{\"data\":{\"id\":42,\"name\":\"Ann\"}}";
    assert_eq!(extract(raw, "$user.data.id").ok(), Some("42".to_string()));
    assert_eq!(extract(raw, "$user.data.name").ok(), Some("Ann".to_string()));
    assert_eq!(extract(raw, "$user.data").ok(), Some("{\"id\":42,\"name\":\"Ann\"}".to_string()));
}

#[test]
fn extract_without_path_is_the_raw_result() {
    assert_eq!(extract("plain text", "$user").ok(), Some("plain text".to_string()));
    assert_eq!(extract("{\"a\": 1}", "$user").ok(), Some("{\"a\": 1}".to_string()));
    assert_eq!(extract("", "$user").ok(), Some(String::new()));
}

#[test]
fn extract_names_the_token_in_errors() {
    let raw = "{\"data\":{\"id\":42}}";
    assert!(matches!(
        extract(raw, "$user.data.missing"),
        Err(ExecError::JsonPathNotFound(t)) if t == "$user.data.missing"
    ));
    assert!(matches!(
        extract("not json", "$user.data"),
        Err(ExecError::JsonParseFailure(t)) if t == "$user.data"
    ));
    assert!(matches!(extract(raw, "$user."), Err(ExecError::JsonPathNotFound(t)) if t == "$user."));
}

#[test]
fn value_in_takes_the_document_as_given() {
    let doc = object("whole", vec![("a", leaf("1"))]);
    assert_eq!(value_in("raw", Some(&doc), &path(&["a"]), "$t.a").ok(), Some("1".to_string()));
    assert_eq!(value_in("raw", Some(&doc), &path(&[]), "$t").ok(), Some("raw".to_string()));
    assert_eq!(value_in("raw", None, &path(&[]), "$t").ok(), Some("raw".to_string()));
    assert!(matches!(
        value_in("raw", None, &path(&["a"]), "$t.a"),
        Err(ExecError::JsonParseFailure(t)) if t == "$t.a"
    ));
    assert!(matches!(
        value_in("raw", Some(&doc), &path(&["b"]), "$t.b"),
        Err(ExecError::JsonPathNotFound(t)) if t == "$t.b"
    ));
}

#[test]
fn scan_finds_tokens_and_pieces() {
    let s = scan("https://$host/api/$user.data.id?x=$$literal&y").unwrap();
    assert_eq!(s.tokens, vec!["$host", "$user.data.id", "$$literal"]);
    assert_eq!(s.pieces, vec!["https://", "/api/", "?x=", "&y"]);
}

#[test]
fn scan_without_tokens_is_one_piece() {
    for text in ["", "plain", "cost: 5$", "$ alone", "a $$ b", "100$-"] {
        let s = scan(text).unwrap();
        assert!(s.tokens.is_empty(), "{:?}", text);
        assert_eq!(s.pieces, vec![text.to_string()]);
    }
}

#[test]
fn scan_of_text_without_dollar_sign_is_the_text() {
    for text in ["", "https://example.com/a?b=c&d=e", "{\"a\": [1, 2]}", "line\nline", "é ü \u{1F600}"] {
        let s = scan(text).unwrap();
        assert!(s.tokens.is_empty());
        assert_eq!(s.pieces, vec![text.to_string()]);
    }
}

#[test]
fn scan_takes_word_characters_and_dots() {
    let s = scan("$a-b $c_d.e9/$é").unwrap();
    assert_eq!(s.tokens, vec!["$a", "$c_d.e9", "$é"]);
    assert_eq!(s.pieces, vec!["", "-b ", "/", ""]);
    let s = scan("$$$x$y").unwrap();
    assert_eq!(s.tokens, vec!["$$x", "$y"]);
    assert_eq!(s.pieces, vec!["$", "", ""]);
}

#[test]
fn scan_of_repeated_tokens() {
    let s = scan("$a$a.$a").unwrap();
    assert_eq!(s.tokens, vec!["$a", "$a.", "$a"]);
    assert_eq!(s.pieces, vec!["", "", "", ""]);
}

#[test]
fn cut_text_cuts_in_order() {
    let words = vec![chars_of("ab"), chars_of("ab"), chars_of("")];
    let pieces = cut_text(&chars_of("xabyabz"), &words).unwrap();
    assert_eq!(to_strings(&pieces), vec!["x", "y", "", "z"]);
    assert!(cut_text(&chars_of("xab"), &vec![chars_of("ab"), chars_of("ab")]).is_none());
    assert!(cut_text(&chars_of(""), &vec![chars_of("a")]).is_none());
    assert_eq!(to_strings(&cut_text(&chars_of("abc"), &vec![]).unwrap()), vec!["abc"]);
    let back = to_char_vecs(&vec!["a".to_string(), "".to_string()]);
    assert_eq!(back, vec![vec!['a'], vec![]]);
}

#[test]
fn find_word_gives_the_first_place() {
    let text = chars_of("abcabc");
    assert_eq!(find_word(&text, &chars_of("bc"), 0), Some(1));
    assert_eq!(find_word(&text, &chars_of("bc"), 2), Some(4));
    assert_eq!(find_word(&text, &chars_of("bc"), 5), None);
    assert_eq!(find_word(&text, &chars_of(""), 6), Some(6));
    assert_eq!(find_word(&text, &chars_of("abcabcd"), 0), None);
}

#[test]
fn token_parts_split_at_dots() {
    let (name, rest) = token_parts(&chars_of("$user.data.id"));
    assert_eq!(string_of(&name), "user");
    assert_eq!(to_strings(&rest), vec!["data", "id"]);
    let (name, rest) = token_parts(&chars_of("$host"));
    assert_eq!(string_of(&name), "host");
    assert!(rest.is_empty());
    let (name, rest) = token_parts(&chars_of("$a."));
    assert_eq!(string_of(&name), "a");
    assert_eq!(to_strings(&rest), vec![""]);
    let (name, rest) = token_parts(&chars_of(""));
    assert_eq!(string_of(&name), "");
    assert!(rest.is_empty());
    assert!(token_is_escaped(&chars_of("$$x")));
    assert!(!token_is_escaped(&chars_of("$x")));
    assert!(!token_is_escaped(&chars_of("$")));
}

#[test]
fn hook_invocation_with_and_without_ttl() {
    let c = parse_hook("$req.getUser 60").ok().unwrap();
    assert_eq!((c.request_id.as_str(), c.ttl), ("getUser", Some(60)));
    let c = parse_hook("$req.getUser").ok().unwrap();
    assert_eq!((c.request_id.as_str(), c.ttl), ("getUser", None));
    let c = parse_hook("  $req.ping \t 0  ignored").ok().unwrap();
    assert_eq!((c.request_id.as_str(), c.ttl), ("ping", Some(0)));
    let c = parse_hook("$req.").ok().unwrap();
    assert_eq!((c.request_id.as_str(), c.ttl), ("", None));
}

#[test]
fn hook_invocation_errors() {
    assert!(matches!(parse_hook("getUser 60"), Err(HookError::NotAMacro)));
    assert!(matches!(parse_hook(""), Err(HookError::NotAMacro)));
    assert!(matches!(parse_hook("$req"), Err(HookError::NotAMacro)));
    assert!(matches!(parse_hook("$req.a soon"), Err(HookError::BadTtl)));
    assert!(matches!(parse_hook("$req.a -1"), Err(HookError::BadTtl)));
    assert!(matches!(parse_hook("$req.a 99999999999999999999"), Err(HookError::BadTtl)));
}

#[test]
fn first_word_and_rest() {
    let (word, rest) = split_first_word(&chars_of("abc  def ghi "));
    assert_eq!(string_of(&word), "abc");
    assert_eq!(string_of(&rest), "def ghi");
    let (word, rest) = split_first_word(&chars_of(" x"));
    assert_eq!(string_of(&word), "");
    assert_eq!(string_of(&rest), "x");
}
