use axeon::app::{content_type_for, file_response, serve_file, FileHead, FileInfo};
use axeon::error::ServerError;
use axeon::http::response::Response;
use axeon::string_map::StringMap;

fn pairs(map: &StringMap) -> Vec<(String, String)> {
    (0..map.len()).map(|i| (map.key_at(i).clone(), map.value_at(i).clone())).collect()
}

fn owned(items: &[(&str, &str)]) -> Vec<(String, String)> {
    items.iter().map(|(k, v)| (k.to_string(), v.to_string())).collect()
}

#[test]
fn status_codes_follow_the_taxonomy() {
    assert_eq!(ServerError::BadRequest("x".into()).status_code(), 400);
    assert_eq!(ServerError::Unauthorized("x".into()).status_code(), 401);
    assert_eq!(ServerError::Forbidden("x".into()).status_code(), 403);
    assert_eq!(ServerError::NotFound.status_code(), 404);
    assert_eq!(ServerError::Conflict("x".into()).status_code(), 409);
    assert_eq!(ServerError::ParseError("x".into()).status_code(), 422);
    assert_eq!(ServerError::ValidationError("x".into()).status_code(), 422);
    assert_eq!(ServerError::TooManyRequests.status_code(), 429);
    assert_eq!(ServerError::IoError("x".into()).status_code(), 500);
    assert_eq!(ServerError::InternalError("x".into()).status_code(), 500);
    assert_eq!(ServerError::PanicError("x".into()).status_code(), 500);
}

#[test]
fn error_messages_carry_their_label() {
    assert_eq!(ServerError::IoError("reset".into()).message(), "IO error: reset");
    assert_eq!(ServerError::ParseError("p".into()).message(), "Parse error: p");
    assert_eq!(ServerError::ValidationError("v".into()).message(), "Validation error: v");
    assert_eq!(ServerError::NotFound.message(), "Not found");
    assert_eq!(ServerError::BadRequest("b".into()).message(), "Bad request: b");
    assert_eq!(ServerError::Unauthorized("u".into()).message(), "Unauthorized: u");
    assert_eq!(ServerError::Forbidden("f".into()).message(), "Forbidden: f");
    assert_eq!(ServerError::Conflict("c".into()).message(), "Conflict: c");
    assert_eq!(ServerError::InternalError("i".into()).message(), "Internal error: i");
    assert_eq!(ServerError::PanicError("boom".into()).message(), "Panic: boom");
    assert_eq!(ServerError::TooManyRequests.message(), "Too many requests");
}

#[test]
fn error_response_is_a_json_document() {
    let response = Response::error(ServerError::NotFound);
    assert_eq!(response.status, 404);
    assert_eq!(response.body, "{\"error\":{\"message\":\"Not found\",\"status\":404}}");
    assert_eq!(pairs(&response.headers), owned(&[("Content-Type", "application/json")]));
}

#[test]
fn error_response_escapes_the_message() {
    let response = Response::error(ServerError::BadRequest("say \"hi\"\n".into()));
    assert_eq!(response.status, 400);
    assert_eq!(
        response.body,
        "{\"error\":{\"message\":\"Bad request: say \\\"hi\\\"\\n\",\"status\":400}}"
    );
}

#[test]
fn error_body_is_assembled_from_its_parts() {
    assert_eq!(
        Response::error_body("\"m\"", 500),
        "{\"error\":{\"message\":\"m\",\"status\":500}}"
    );
}

#[test]
fn new_response_is_empty() {
    let response = Response::new(418);
    assert_eq!(response.status, 418);
    assert_eq!(response.body, "");
    assert!(response.headers.is_empty());
    assert_eq!(Response::no_content().status, 204);
}

#[test]
fn setters_chain() {
    let mut response = Response::new(200);
    response.status(201).body("made").header("X-A", "1").header("X-B", "2").header("X-A", "3");
    assert_eq!(response.status, 201);
    assert_eq!(response.body, "made");
    assert_eq!(pairs(&response.headers), owned(&[("X-A", "3"), ("X-B", "2")]));
}

#[test]
fn headers_are_merged() {
    let mut more = StringMap::new();
    more.insert("X-B".to_string(), "9".to_string());
    more.insert("X-C".to_string(), "8".to_string());
    let mut response = Response::new(200);
    response.header("X-A", "1").header("X-B", "2").headers(more);
    assert_eq!(pairs(&response.headers), owned(&[("X-A", "1"), ("X-B", "9"), ("X-C", "8")]));
}

#[test]
fn json_sets_type_and_body() {
    let mut response = Response::new(200);
    assert!(response.json(Ok("{\"a\":1}".to_string())).is_ok());
    assert_eq!(response.body, "{\"a\":1}");
    assert_eq!(pairs(&response.headers), owned(&[("Content-Type", "application/json")]));
}

#[test]
fn json_failure_is_an_internal_error() {
    let mut response = Response::new(200);
    response.body("kept");
    match response.json(Err("key must be a string".to_string())) {
        Err(ServerError::InternalError(m)) => {
            assert_eq!(m, "JSON serialization error: key must be a string")
        }
        other => panic!("expected an internal error, got {:?}", other),
    }
    assert_eq!(response.body, "kept");
    assert!(response.headers.is_empty());
}

#[test]
fn json_constructors_set_their_status() {
    let doc = || Ok("[]".to_string());
    assert_eq!(Response::ok(doc()).unwrap().status, 200);
    assert_eq!(Response::created(doc()).unwrap().status, 201);
    assert_eq!(Response::accepted(doc()).unwrap().status, 202);
    assert_eq!(Response::bad_request(doc()).unwrap().status, 400);
    assert_eq!(Response::unauthorized(doc()).unwrap().status, 401);
    assert_eq!(Response::forbidden(doc()).unwrap().status, 403);
    assert_eq!(Response::not_found(doc()).unwrap().status, 404);
    assert_eq!(Response::conflict(doc()).unwrap().status, 409);
    assert_eq!(Response::unprocessable_entity(doc()).unwrap().status, 422);
    assert_eq!(Response::too_many_requests(doc()).unwrap().status, 429);
    assert_eq!(Response::service_unavailable(doc()).unwrap().status, 503);
    let ok = Response::ok(doc()).unwrap();
    assert_eq!(ok.body, "[]");
    assert_eq!(ok.headers.get("Content-Type").map(|s| s.as_str()), Some("application/json"));
    assert!(matches!(Response::ok(Err("bad".to_string())), Err(ServerError::InternalError(_))));
}

#[test]
fn content_constructors() {
    let text = Response::text("hi");
    assert_eq!((text.status, text.body.as_str()), (200, "hi"));
    assert_eq!(pairs(&text.headers), owned(&[("Content-Type", "text/plain")]));
    let html = Response::html("<p>");
    assert_eq!(pairs(&html.headers), owned(&[("Content-Type", "text/html")]));
    assert_eq!(html.body, "<p>");
    let xml = Response::xml("<a/>");
    assert_eq!(pairs(&xml.headers), owned(&[("Content-Type", "application/xml")]));
}

#[test]
fn redirects() {
    let temporary = Response::redirect("/next");
    assert_eq!(temporary.status, 302);
    assert_eq!(pairs(&temporary.headers), owned(&[("Location", "/next")]));
    let permanent = Response::permanent_redirect("/home");
    assert_eq!(permanent.status, 301);
    assert_eq!(pairs(&permanent.headers), owned(&[("Location", "/home")]));
}

#[test]
fn method_not_allowed_lists_the_methods() {
    let response = Response::method_not_allowed(&["GET", "POST"]);
    assert_eq!(response.status, 405);
    assert_eq!(
        pairs(&response.headers),
        owned(&[("Allow", "GET, POST"), ("Content-Type", "application/json")])
    );
    assert_eq!(
        response.body,
        "{\"error\":{\"allowed_methods\":[\"GET\",\"POST\"],\"message\":\"Method not allowed\"}}"
    );
    let none = Response::method_not_allowed(&[]);
    assert_eq!(none.headers.get("Allow").map(|s| s.as_str()), Some(""));
    assert_eq!(
        none.body,
        "{\"error\":{\"allowed_methods\":[],\"message\":\"Method not allowed\"}}"
    );
}

#[test]
fn header_helpers() {
    let mut response = Response::new(200);
    response.stream("text/event-stream");
    assert_eq!(
        pairs(&response.headers),
        owned(&[("Transfer-Encoding", "chunked"), ("Content-Type", "text/event-stream")])
    );
    let mut cors = Response::new(200);
    cors.with_cors("https://a.example");
    assert_eq!(
        pairs(&cors.headers),
        owned(&[
            ("Access-Control-Allow-Origin", "https://a.example"),
            ("Access-Control-Allow-Methods", "GET, POST, PUT, DELETE, OPTIONS"),
            ("Access-Control-Allow-Headers", "Content-Type, Authorization"),
        ])
    );
    let mut cache = Response::new(200);
    cache.with_cache_control("max-age=60");
    assert_eq!(pairs(&cache.headers), owned(&[("Cache-Control", "max-age=60")]));
    cache.no_cache();
    assert_eq!(
        pairs(&cache.headers),
        owned(&[
            ("Cache-Control", "no-cache, no-store, must-revalidate"),
            ("Pragma", "no-cache"),
            ("Expires", "0"),
        ])
    );
    let mut secure = Response::new(200);
    secure.with_security_headers();
    assert_eq!(
        pairs(&secure.headers),
        owned(&[
            ("X-Content-Type-Options", "nosniff"),
            ("X-Frame-Options", "DENY"),
            ("X-XSS-Protection", "1; mode=block"),
            ("Strict-Transport-Security", "max-age=31536000; includeSubDomains"),
            ("Referrer-Policy", "strict-origin-when-cross-origin"),
        ])
    );
}

#[test]
fn download_and_variants() {
    let mut file = Response::new(200);
    file.file_download("r\u{e9}sum\u{e9}.pdf", "application/pdf");
    assert_eq!(
        pairs(&file.headers),
        owned(&[
            ("Content-Type", "application/pdf"),
            ("Content-Disposition", "attachment; filename=\"r\u{e9}sum\u{e9}.pdf\""),
        ])
    );
    let mut vary = Response::new(200);
    vary.vary(&["Accept", "Origin", "Cookie"]);
    assert_eq!(pairs(&vary.headers), owned(&[("Vary", "Accept, Origin, Cookie")]));
    let mut gzip = Response::new(200);
    gzip.with_gzip();
    assert_eq!(
        pairs(&gzip.headers),
        owned(&[("Content-Encoding", "gzip"), ("Vary", "Accept-Encoding")])
    );
    let mut brotli = Response::new(200);
    brotli.with_brotli();
    assert_eq!(
        pairs(&brotli.headers),
        owned(&[("Content-Encoding", "br"), ("Vary", "Accept-Encoding")])
    );
    let mut lang = Response::new(200);
    lang.with_language("nb");
    assert_eq!(
        pairs(&lang.headers),
        owned(&[("Content-Language", "nb"), ("Vary", "Accept-Language")])
    );
    let mut api = Response::new(200);
    api.with_api_version("2");
    assert_eq!(pairs(&api.headers), owned(&[("X-API-Version", "2")]));
}

#[test]
fn wire_format_is_exact() {
    let mut response = Response::new(200);
    response.header("Content-Type", "text/plain").header("X-A", "1").body("h\u{e9}llo");
    assert_eq!(
        response.to_wire(),
        "HTTP/1.1 200\r\nContent-Type: text/plain\r\nX-A: 1\r\nContent-Length: 6\r\n\r\nh\u{e9}llo"
    );
    assert_eq!(Response::new(404).to_wire(), "HTTP/1.1 404\r\nContent-Length: 0\r\n\r\n");
}

#[test]
fn content_types_by_extension() {
    assert_eq!(content_type_for("html"), "text/html");
    assert_eq!(content_type_for("css"), "text/css");
    assert_eq!(content_type_for("js"), "text/javascript");
    assert_eq!(content_type_for("png"), "image/png");
    assert_eq!(content_type_for("jpg"), "image/jpeg");
    assert_eq!(content_type_for("jpeg"), "image/jpeg");
    assert_eq!(content_type_for("gif"), "image/gif");
    assert_eq!(content_type_for("svg"), "image/svg+xml");
    assert_eq!(content_type_for("ico"), "image/x-icon");
    assert_eq!(content_type_for("bin"), "application/octet-stream");
    assert_eq!(content_type_for("HTML"), "application/octet-stream");
}

#[test]
fn served_file_has_its_headers() {
    let info = FileInfo { extension: Some("css".to_string()), stamp: Some((1234, Some(1431704061))) };
    let response = serve_file(&info, "a{}");
    assert_eq!(response.status, 200);
    assert_eq!(response.body, "a{}");
    assert_eq!(
        pairs(&response.headers),
        owned(&[
            ("Content-Type", "text/css"),
            ("Cache-Control", "public, max-age=31536000"),
            ("Last-Modified", "Fri, 15 May 2015 15:34:21 GMT"),
            ("ETag", "\"1234-1431704061\""),
        ])
    );
}

#[test]
fn served_file_without_stamp_or_extension() {
    let bare = serve_file(&FileInfo { extension: None, stamp: None }, "");
    assert_eq!(pairs(&bare.headers), owned(&[("Cache-Control", "public, max-age=31536000")]));
    let undated = serve_file(&FileInfo { extension: None, stamp: Some((5, None)) }, "12345");
    assert_eq!(
        pairs(&undated.headers),
        owned(&[("Cache-Control", "public, max-age=31536000"), ("ETag", "\"5-0\"")])
    );
    assert_eq!(undated.body, "12345");
}

#[test]
fn file_response_sets_what_it_is_given() {
    let head = FileHead {
        content_type: Some("text/x".to_string()),
        last_modified: None,
        etag: Some("\"t\"".to_string()),
    };
    let response = file_response(&head, "body");
    assert_eq!(
        pairs(&response.headers),
        owned(&[
            ("Content-Type", "text/x"),
            ("Cache-Control", "public, max-age=31536000"),
            ("ETag", "\"t\""),
        ])
    );
    assert_eq!(response.body, "body");
}
