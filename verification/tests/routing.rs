use axeon::app::{is_within_root, Application, FileInfo, FoundFile};
use axeon::http::request::{Method, Request};
use axeon::http::body::Body;
use axeon::http::response::Response;
use axeon::middleware::{MiddlewareManager, Terminal};
use axeon::path::{has_parameter, match_dynamic_path, normalize_path};
use axeon::router::{Dispatch, Router};
use axeon::string_map::StringMap;

fn request(method: Method, path: &str) -> Request {
    Request {
        method,
        path: path.to_string(),
        query: StringMap::new(),
        params: StringMap::new(),
        headers: StringMap::new(),
        data: Vec::new(),
        body: Body::new(),
    }
}

#[test]
fn normalize_strips_trailing_slashes() {
    assert_eq!(normalize_path("/users/"), "/users");
    assert_eq!(normalize_path("/users///"), "/users");
    assert_eq!(normalize_path("/users"), "/users");
    assert_eq!(normalize_path("/a/b/"), "/a/b");
}

#[test]
fn normalize_turns_empty_into_root() {
    assert_eq!(normalize_path(""), "/");
    assert_eq!(normalize_path("/"), "/");
    assert_eq!(normalize_path("///"), "/");
}

#[test]
fn registered_path_resolves_without_trailing_slash() {
    let mut router = Router::new();
    router.get("/users/", 1);
    let (dispatch, params) = router.resolve("/users", Method::GET);
    match dispatch {
        Dispatch::Route(route) => {
            assert_eq!(route.handler, 1);
            assert!(route.middlewares.middlewares.is_empty());
        }
        other => panic!("expected a route, got {:?}", other),
    }
    assert!(params.is_none());
}

#[test]
fn registration_keeps_the_middleware_of_that_moment() {
    let mut router = Router::new();
    router.get("/early", 1);
    router.middleware(10);
    router.get("/late", 2);
    match router.resolve("/early", Method::GET).0 {
        Dispatch::Route(route) => assert_eq!(route.middlewares.middlewares, Vec::<u64>::new()),
        other => panic!("expected a route, got {:?}", other),
    }
    match router.resolve("/late", Method::GET).0 {
        Dispatch::Route(route) => assert_eq!(route.middlewares.middlewares, vec![10]),
        other => panic!("expected a route, got {:?}", other),
    }
}

#[test]
fn later_registration_replaces_the_route() {
    let mut router = Router::new();
    router.get("/x", 1).get("/x", 2);
    match router.resolve("/x", Method::GET).0 {
        Dispatch::Route(route) => assert_eq!(route.handler, 2),
        other => panic!("expected a route, got {:?}", other),
    }
    assert_eq!(router.routes.len(), 1);
}

#[test]
fn method_without_route_is_unrouted() {
    let mut router = Router::new();
    router.get("/x", 1);
    assert!(matches!(router.resolve("/x", Method::POST).0, Dispatch::Unrouted));
    assert!(matches!(router.resolve("/y", Method::GET).0, Dispatch::Unrouted));
}

#[test]
fn dynamic_pattern_binds_its_parameter() {
    let params = match_dynamic_path("/users/:id", "/users/42").expect("the pattern matches");
    assert_eq!(params.len(), 1);
    assert_eq!(params.get("id").map(|s| s.as_str()), Some("42"));
}

#[test]
fn dynamic_pattern_needs_the_same_segment_count() {
    assert!(match_dynamic_path("/users/:id", "/users/42/extra").is_none());
    assert!(match_dynamic_path("/users/:id", "/users").is_none());
}

#[test]
fn dynamic_pattern_needs_equal_literals() {
    assert!(match_dynamic_path("/users/:id", "/posts/42").is_none());
    let params = match_dynamic_path("/a/:x/b/:y", "/a/1/b/2").expect("the pattern matches");
    assert_eq!(params.get("x").map(|s| s.as_str()), Some("1"));
    assert_eq!(params.get("y").map(|s| s.as_str()), Some("2"));
}

#[test]
fn colon_marks_a_pattern() {
    assert!(has_parameter("/users/:id"));
    assert!(!has_parameter("/users/id"));
}

#[test]
fn router_resolves_dynamic_route_with_params() {
    let mut router = Router::new();
    router.get("/users/:id", 2);
    let (dispatch, params) = router.resolve("/users/42", Method::GET);
    match dispatch {
        Dispatch::Route(route) => assert_eq!(route.handler, 2),
        other => panic!("expected a route, got {:?}", other),
    }
    let params = params.expect("the pattern binds parameters");
    assert_eq!(params.get("id").map(|s| s.as_str()), Some("42"));
    assert!(matches!(router.resolve("/users/42/extra", Method::GET).0, Dispatch::Unrouted));
}

#[test]
fn exact_path_wins_over_pattern() {
    let mut router = Router::new();
    router.get("/users/:id", 2);
    router.get("/users/me", 3);
    let (dispatch, params) = router.resolve("/users/me", Method::GET);
    match dispatch {
        Dispatch::Route(route) => assert_eq!(route.handler, 3),
        other => panic!("expected a route, got {:?}", other),
    }
    assert!(params.is_none());
}

#[test]
fn overlapping_patterns_resolve_by_registration_order() {
    let mut router = Router::new();
    router.get("/:a/x", 1);
    router.get("/y/:b", 2);
    let (dispatch, params) = router.resolve("/y/x", Method::GET);
    match dispatch {
        Dispatch::Route(route) => assert_eq!(route.handler, 1),
        other => panic!("expected a route, got {:?}", other),
    }
    assert_eq!(params.unwrap().get("a").map(|s| s.as_str()), Some("y"));
}

#[test]
fn pattern_without_the_method_lets_the_next_pattern_serve() {
    let mut router = Router::new();
    router.post("/:a/x", 1);
    router.get("/y/:b", 2);
    let (dispatch, params) = router.resolve("/y/x", Method::GET);
    match dispatch {
        Dispatch::Route(route) => assert_eq!(route.handler, 2),
        other => panic!("expected a route, got {:?}", other),
    }
    assert_eq!(params.unwrap().get("b").map(|s| s.as_str()), Some("x"));
}

#[test]
fn head_falls_back_to_get_and_drops_the_body() {
    let mut router = Router::new();
    router.middleware(5);
    router.get("/page", 1);
    let (dispatch, _) = router.resolve("/page", Method::HEAD);
    match &dispatch {
        Dispatch::Head(route) => {
            assert_eq!(route.handler, 1);
            assert_eq!(route.middlewares.middlewares, vec![5]);
        }
        other => panic!("expected the route for GET, got {:?}", other),
    }
    let mut answer = Response::text("hello");
    answer.status(203).header("X-Test", "1");
    let sent = dispatch.complete(Ok(answer)).expect("a response");
    assert_eq!(sent.status, 203);
    assert_eq!(sent.body, "");
    assert_eq!(sent.headers.get("X-Test").map(|s| s.as_str()), Some("1"));
    assert_eq!(sent.headers.get("Content-Type").map(|s| s.as_str()), Some("text/plain"));
    assert_eq!(sent.headers.len(), 2);
}

#[test]
fn get_response_keeps_its_body() {
    let mut router = Router::new();
    router.get("/page", 1);
    let (dispatch, _) = router.resolve("/page", Method::GET);
    let sent = dispatch.complete(Ok(Response::text("hello"))).expect("a response");
    assert_eq!(sent.body, "hello");
}

#[test]
fn own_head_route_is_preferred() {
    let mut router = Router::new();
    router.get("/page", 1);
    router.head("/page", 2);
    match router.resolve("/page", Method::HEAD).0 {
        Dispatch::Route(route) => assert_eq!(route.handler, 2),
        other => panic!("expected a route, got {:?}", other),
    }
}

#[test]
fn options_runs_the_get_chain_without_the_handler() {
    let mut router = Router::new();
    router.middleware(5);
    router.get("/page", 1);
    let (dispatch, _) = router.resolve("/page", Method::OPTIONS);
    match &dispatch {
        Dispatch::Options(chain) => assert_eq!(chain.middlewares, vec![5]),
        other => panic!("expected the chain of GET, got {:?}", other),
    }
    let next = dispatch.pipeline().expect("a pipeline");
    assert_eq!(next.chain, vec![5]);
    assert_eq!(next.terminal, Terminal::EmptyOk);
}

#[test]
fn head_and_options_without_get_are_unrouted() {
    let mut router = Router::new();
    router.post("/page", 1);
    assert!(matches!(router.resolve("/page", Method::HEAD).0, Dispatch::Unrouted));
    assert!(matches!(router.resolve("/page", Method::OPTIONS).0, Dispatch::Unrouted));
}

#[test]
fn mounted_route_resolves_under_the_prefix() {
    let mut sub = Router::new();
    sub.middleware(20);
    sub.get("/ping", 7);
    let mut parent = Router::new();
    parent.middleware(10);
    parent.mount("/api", sub);
    match parent.resolve("/api/ping", Method::GET).0 {
        Dispatch::Route(route) => {
            assert_eq!(route.handler, 7);
            assert_eq!(route.middlewares.middlewares, vec![10, 20]);
        }
        other => panic!("expected a route, got {:?}", other),
    }
    assert!(matches!(parent.resolve("/ping", Method::GET).0, Dispatch::Unrouted));
}

#[test]
fn mounting_the_root_of_a_table_gives_the_prefix() {
    let mut sub = Router::new();
    sub.get("/", 7);
    sub.get("/users/:id", 8);
    let mut parent = Router::new();
    parent.mount("/api", sub);
    match parent.resolve("/api", Method::GET).0 {
        Dispatch::Route(route) => assert_eq!(route.handler, 7),
        other => panic!("expected a route, got {:?}", other),
    }
    let (dispatch, params) = parent.resolve("/api/users/9", Method::GET);
    match dispatch {
        Dispatch::Route(route) => assert_eq!(route.handler, 8),
        other => panic!("expected a route, got {:?}", other),
    }
    assert_eq!(params.unwrap().get("id").map(|s| s.as_str()), Some("9"));
}

#[test]
fn application_binds_params_into_the_request() {
    let mut app = Application::new();
    app.get("/users/:id", 4);
    let mut req = request(Method::GET, "/users/42");
    let dispatch = app.handle(&mut req);
    assert!(matches!(dispatch, Dispatch::Route(_)));
    assert_eq!(req.params.get("id").map(|s| s.as_str()), Some("42"));
    assert_eq!(req.method, Method::GET);
}

#[test]
fn application_serves_head_as_get() {
    let mut app = Application::new();
    app.get("/users/:id", 4);
    let mut req = request(Method::HEAD, "/users/42");
    let dispatch = app.handle(&mut req);
    assert!(matches!(dispatch, Dispatch::Head(_)));
    assert_eq!(req.method, Method::GET);
    assert_eq!(req.params.get("id").map(|s| s.as_str()), Some("42"));
}

fn found(root: &str, path: &str, is_file: bool) -> FoundFile {
    FoundFile {
        root: root.to_string(),
        path: path.to_string(),
        is_file,
        info: FileInfo { extension: Some("txt".to_string()), stamp: Some((2, None)) },
        content: "hi".to_string(),
    }
}

#[test]
fn application_reports_not_found_without_route_and_file() {
    let mut app = Application::new();
    app.get("/x", 1);
    app.static_dir("public");
    let mut req = request(Method::GET, "/nothing");
    assert!(matches!(app.handle(&mut req), Dispatch::Unrouted));
    assert!(matches!(app.handle_static_file(None), Err(axeon::error::ServerError::NotFound)));
}

#[test]
fn application_serves_a_file_in_its_root() {
    let mut app = Application::new();
    app.static_dir("public");
    let file = found("/srv/public", "/srv/public/a.txt", true);
    let response = app.handle_static_file(Some(&file)).expect("the file is served");
    assert_eq!(response.status, 200);
    assert_eq!(response.body, "hi");
    assert_eq!(response.headers.get("ETag").map(|s| s.as_str()), Some("\"2-0\""));
    assert_eq!(
        response.headers.get("Content-Type").map(|s| s.as_str()),
        Some("application/octet-stream")
    );
}

#[test]
fn application_serves_nothing_outside_its_root() {
    let mut app = Application::new();
    app.static_dir("public");
    for (root, path, is_file) in [
        ("/srv/public", "/srv/secret.txt", true),
        ("/srv/public", "/etc/passwd", true),
        ("/srv/public", "/srv/public2/a.txt", true),
        ("/srv/public", "/srv/public/dir", false),
    ] {
        let file = found(root, path, is_file);
        assert!(matches!(
            app.handle_static_file(Some(&file)),
            Err(axeon::error::ServerError::NotFound)
        ));
    }
}

#[test]
fn application_without_static_dir_serves_no_file() {
    let app = Application::new();
    let file = found("/srv/public", "/srv/public/a.txt", true);
    assert!(matches!(
        app.handle_static_file(Some(&file)),
        Err(axeon::error::ServerError::NotFound)
    ));
}

#[test]
fn application_defaults() {
    let app = Application::new();
    assert_eq!(app.max_connections, 256);
    assert_eq!(app.keep_alive, 5);
    assert!(app.static_dir.is_none());
    assert!(app.tls_config.is_none());
}

#[test]
fn application_configuration_chains() {
    let mut app = Application::new();
    app.max_connections(1).keep_alive(30).static_dir("public").with_tls("c.pem", "k.pem");
    assert_eq!(app.max_connections, 1);
    assert_eq!(app.keep_alive, 30);
    assert_eq!(app.static_dir.as_deref(), Some("public"));
    let tls = app.tls_config.expect("a TLS configuration");
    assert_eq!(tls.cert_file, "c.pem");
    assert_eq!(tls.key_file, "k.pem");
}

#[test]
fn files_outside_the_root_are_refused() {
    assert!(is_within_root("/srv/public", "/srv/public/index.html"));
    assert!(is_within_root("/srv/public", "/srv/public"));
    assert!(is_within_root("/srv/public/", "/srv/public/css/a.css"));
    assert!(!is_within_root("/srv/public", "/srv/secret.txt"));
    assert!(!is_within_root("/srv/public", "/srv/public2/index.html"));
    assert!(!is_within_root("/srv/public", "/etc/passwd"));
}

#[test]
fn middleware_manager_appends_in_order() {
    let mut outer = MiddlewareManager::new();
    outer.add(1);
    outer.add(2);
    let mut inner = MiddlewareManager::new();
    inner.add(3);
    outer.append(inner);
    assert_eq!(outer.middlewares, vec![1, 2, 3]);
}
