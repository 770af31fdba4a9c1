use axeon::http::parser::{
    content_length, content_type, parse_header_line, parse_query, parse_request_line, HeaderLine,
    Need, ParserState, RequestParser,
};
use axeon::http::request::{Method, ParseError, Request};
use axeon::http::body::Body;
use axeon::http::value::Value;
use axeon::string_map::StringMap;

fn pairs(map: &StringMap) -> Vec<(String, String)> {
    (0..map.len()).map(|i| (map.key_at(i).clone(), map.value_at(i).clone())).collect()
}

fn owned(items: &[(&str, &str)]) -> Vec<(String, String)> {
    items.iter().map(|(k, v)| (k.to_string(), v.to_string())).collect()
}

#[test]
fn method_names_are_recognised() {
    assert_eq!(Method::from_string("GET"), Method::GET);
    assert_eq!(Method::from_string("POST"), Method::POST);
    assert_eq!(Method::from_string("PUT"), Method::PUT);
    assert_eq!(Method::from_string("DELETE"), Method::DELETE);
    assert_eq!(Method::from_string("HEAD"), Method::HEAD);
    assert_eq!(Method::from_string("CONNECT"), Method::CONNECT);
    assert_eq!(Method::from_string("OPTIONS"), Method::OPTIONS);
    assert_eq!(Method::from_string("TRACE"), Method::TRACE);
    assert_eq!(Method::from_string("PATCH"), Method::PATCH);
}

#[test]
fn unknown_method_token_is_get() {
    assert_eq!(Method::from_string("BREW"), Method::GET);
    assert_eq!(Method::from_string("get"), Method::GET);
    assert_eq!(Method::from_string("post"), Method::GET);
    assert_eq!(Method::from_string(""), Method::GET);
    let line = parse_request_line("BREW /pot HTTP/1.1\r\n").unwrap().unwrap();
    assert_eq!(line.method, Method::GET);
    assert_eq!(line.path, "/pot");
}

#[test]
fn request_line_is_split_on_white_space() {
    let line = parse_request_line("POST /users/?a=1&b=2 HTTP/1.1\r\n").unwrap().unwrap();
    assert_eq!(line.method, Method::POST);
    assert_eq!(line.path, "/users");
    assert_eq!(pairs(&line.query), owned(&[("a", "1"), ("b", "2")]));
    let spaced = parse_request_line("  GET \t /x   HTTP/1.1 \r\n").unwrap().unwrap();
    assert_eq!(spaced.method, Method::GET);
    assert_eq!(spaced.path, "/x");
    assert!(spaced.query.is_empty());
}

#[test]
fn request_target_is_split_at_the_first_question_mark() {
    let line = parse_request_line("GET /a?x=1?y=2 HTTP/1.1").unwrap().unwrap();
    assert_eq!(line.path, "/a");
    assert_eq!(pairs(&line.query), owned(&[("x", "1?y=2")]));
    let root = parse_request_line("GET /?q HTTP/1.1").unwrap().unwrap();
    assert_eq!(root.path, "/");
    assert_eq!(pairs(&root.query), owned(&[("q", "")]));
    let bare = parse_request_line("GET ?q=1").unwrap().unwrap();
    assert_eq!(bare.path, "/");
}

#[test]
fn empty_line_means_closed_connection() {
    assert!(parse_request_line("").unwrap().is_none());
}

#[test]
fn request_line_without_target_is_invalid() {
    assert_eq!(parse_request_line("GET\r\n").unwrap_err(), ParseError::InvalidRequest);
    assert_eq!(parse_request_line("\r\n").unwrap_err(), ParseError::InvalidRequest);
    assert_eq!(parse_request_line("   ").unwrap_err(), ParseError::InvalidRequest);
}

#[test]
fn query_pairs_split_at_the_first_equals() {
    let query = parse_query("a=1&b=x=y&flag&&c=");
    assert_eq!(pairs(&query), owned(&[("a", "1"), ("b", "x=y"), ("flag", ""), ("c", "")]));
}

#[test]
fn later_query_pair_replaces_the_earlier() {
    let query = parse_query("a=1&b=2&a=3");
    assert_eq!(pairs(&query), owned(&[("a", "3"), ("b", "2")]));
    assert!(parse_query("").is_empty());
    assert!(parse_query("&&").is_empty());
}

#[test]
fn header_names_are_trimmed_and_lowercased() {
    match parse_header_line("  Content-Type :  text/html; charset=utf-8 \r\n") {
        HeaderLine::Field(name, value) => {
            assert_eq!(name, "content-type");
            assert_eq!(value, "text/html; charset=utf-8");
        }
        other => panic!("expected a field, got {:?}", other),
    }
    match parse_header_line("X-\u{c9}T\u{c9}: a:b\r\n") {
        HeaderLine::Field(name, value) => {
            assert_eq!(name, "x-\u{e9}t\u{e9}");
            assert_eq!(value, "a:b");
        }
        other => panic!("expected a field, got {:?}", other),
    }
}

#[test]
fn blank_line_ends_the_head() {
    assert!(matches!(parse_header_line("\r\n"), HeaderLine::End));
    assert!(matches!(parse_header_line(""), HeaderLine::End));
    assert!(matches!(parse_header_line(" \t \u{a0}\r\n"), HeaderLine::End));
    assert!(matches!(parse_header_line("no colon\r\n"), HeaderLine::Ignored));
}

#[test]
fn content_length_must_be_a_number() {
    let mut headers = StringMap::new();
    assert_eq!(content_length(&headers), 0);
    headers.insert("content-length".to_string(), "12".to_string());
    assert_eq!(content_length(&headers), 12);
    headers.insert("content-length".to_string(), "+7".to_string());
    assert_eq!(content_length(&headers), 7);
    headers.insert("content-length".to_string(), "-1".to_string());
    assert_eq!(content_length(&headers), 0);
    headers.insert("content-length".to_string(), "1 2".to_string());
    assert_eq!(content_length(&headers), 0);
    headers.insert("content-length".to_string(), "99999999999999999999999".to_string());
    assert_eq!(content_length(&headers), 0);
}

#[test]
fn content_type_defaults_to_none() {
    let mut headers = StringMap::new();
    assert_eq!(content_type(&headers), "none");
    headers.insert("content-type".to_string(), "application/json".to_string());
    assert_eq!(content_type(&headers), "application/json");
}

#[test]
fn parser_reads_a_whole_head() {
    let mut parser = RequestParser::new();
    assert_eq!(parser.state, ParserState::RequestLine);
    assert_eq!(parser.feed_line("POST /items/?page=2 HTTP/1.1\r\n"), Need::Line);
    assert_eq!(parser.state, ParserState::Headers);
    assert_eq!(parser.feed_line("Host: example.org\r\n"), Need::Line);
    assert_eq!(parser.feed_line("garbage\r\n"), Need::Line);
    assert_eq!(parser.feed_line("Content-Type: application/json\r\n"), Need::Line);
    assert_eq!(parser.feed_line("HOST: other.example\r\n"), Need::Line);
    assert_eq!(parser.feed_line("Content-Length: 7\r\n"), Need::Line);
    assert_eq!(parser.feed_line("\r\n"), Need::Body(7));
    assert_eq!(parser.state, ParserState::Body);
    assert_eq!(parser.feed_line("ignored\r\n"), Need::Body(7));
    let request: Request = parser.finish(b"{\"a\":1}".to_vec());
    assert_eq!(request.method, Method::POST);
    assert_eq!(request.path, "/items");
    assert_eq!(pairs(&request.query), owned(&[("page", "2")]));
    assert_eq!(
        pairs(&request.headers),
        owned(&[
            ("host", "other.example"),
            ("content-type", "application/json"),
            ("content-length", "7"),
        ])
    );
    assert!(request.params.is_empty());
    assert!(request.data.is_empty());
    assert_eq!(request.body.content_type, "application/json");
    assert_eq!(request.body.as_bytes(), b"{\"a\":1}");
    assert_eq!(request.get_header("host"), Some("other.example"));
    assert_eq!(request.get_header("Host"), None);
    assert_eq!(*request.get_method(), Method::POST);
}

#[test]
fn parser_without_content_length_reads_no_body() {
    let mut parser = RequestParser::new();
    assert_eq!(parser.feed_line("GET / HTTP/1.1\r\n"), Need::Line);
    assert_eq!(parser.feed_line("\r\n"), Need::Body(0));
    let request = parser.finish(Vec::new());
    assert_eq!(request.path, "/");
    assert_eq!(request.body.content_type, "none");
}

#[test]
fn parser_stops_on_a_closed_connection() {
    let mut parser = RequestParser::new();
    assert_eq!(parser.feed_line(""), Need::Nothing);
    assert_eq!(parser.state, ParserState::Closed);
    assert_eq!(parser.feed_line("GET / HTTP/1.1\r\n"), Need::Nothing);
    assert_eq!(parser.state, ParserState::Closed);
}

#[test]
fn parser_stops_on_an_invalid_request_line() {
    let mut parser = RequestParser::new();
    assert_eq!(parser.feed_line("GET\r\n"), Need::Nothing);
    assert_eq!(parser.state, ParserState::Failed);
    assert_eq!(parser.feed_line("Host: x\r\n"), Need::Nothing);
    assert!(parser.headers.is_empty());
}

#[test]
fn request_data_is_handed_on() {
    let mut request = Request {
        method: Method::GET,
        path: "/".to_string(),
        query: StringMap::new(),
        params: StringMap::new(),
        headers: StringMap::new(),
        data: Vec::new(),
        body: Body::new(),
    };
    assert!(request.get_data("user").is_none());
    request.set_data("user", Value::Text("ann".to_string()));
    request.set_data("admin", Value::Bool(true));
    request.set_data("user", Value::Text("bob".to_string()));
    assert!(matches!(request.get_data("user"), Some(Value::Text(s)) if s == "bob"));
    assert!(matches!(request.get_typed_data("admin"), Some(Value::Bool(true))));
    assert!(request.get_typed_data("missing").is_none());
    assert_eq!(request.data.len(), 2);
}

#[test]
fn string_map_keeps_insertion_order_and_replaces() {
    let mut map = StringMap::new();
    assert!(map.is_empty());
    map.insert("b".to_string(), "1".to_string());
    map.insert("a".to_string(), "2".to_string());
    map.insert("b".to_string(), "3".to_string());
    assert_eq!(pairs(&map), owned(&[("b", "3"), ("a", "2")]));
    assert!(map.contains_key("a"));
    assert!(!map.contains_key("c"));
    assert_eq!(map.get("b").map(|s| s.as_str()), Some("3"));
    let mut other = StringMap::new();
    other.insert("a".to_string(), "9".to_string());
    other.insert("z".to_string(), "8".to_string());
    map.extend(other);
    assert_eq!(pairs(&map), owned(&[("b", "3"), ("a", "9"), ("z", "8")]));
    let copy = map.duplicate();
    assert_eq!(pairs(&copy), pairs(&map));
}
