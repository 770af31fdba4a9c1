use axeon::http::request::Method;
use axeon::middleware::{MiddlewareManager, Next, Step, Terminal};
use axeon::router::Router;

/// Runs the pipeline `next`: the middleware at the place `i` of the chain
/// invokes its continuation if `forwards[i]`. Returns the middleware that
/// ran, in order, and how often the handler `handler` ran.
fn run(next: Next, forwards: &[bool], handler: u64) -> (Vec<u64>, u32) {
    let mut order = Vec::new();
    let mut calls = 0;
    let mut current = next;
    let mut place = 0;
    loop {
        match current.handle() {
            Step::Middleware { id, next } => {
                order.push(id);
                if !forwards[place] {
                    return (order, calls);
                }
                place += 1;
                current = next;
            }
            Step::End(Terminal::Handler(id)) => {
                if id == handler {
                    calls += 1;
                }
                return (order, calls);
            }
            Step::End(Terminal::EmptyOk) => return (order, calls),
        }
    }
}

fn chain(ids: &[u64]) -> MiddlewareManager {
    let mut manager = MiddlewareManager::new();
    for id in ids {
        manager.add(*id);
    }
    manager
}

#[test]
fn first_middleware_is_outermost() {
    let next = chain(&[1, 2, 3]).call(Next::new(9));
    let (order, calls) = run(next, &[true, true, true], 9);
    assert_eq!(order, vec![1, 2, 3]);
    assert_eq!(calls, 1);
}

#[test]
fn short_circuit_keeps_the_handler_from_running() {
    let next = chain(&[1, 2, 3]).call(Next::new(9));
    let (order, calls) = run(next, &[true, false, true], 9);
    assert_eq!(order, vec![1, 2]);
    assert_eq!(calls, 0);
}

#[test]
fn short_circuit_in_the_outermost_runs_nothing_else() {
    let next = chain(&[1, 2]).call(Next::new(9));
    let (order, calls) = run(next, &[false, true], 9);
    assert_eq!(order, vec![1]);
    assert_eq!(calls, 0);
}

#[test]
fn empty_chain_runs_the_handler() {
    let next = MiddlewareManager::new().call(Next::new(9));
    match next.handle() {
        Step::End(terminal) => assert_eq!(terminal, Terminal::Handler(9)),
        other => panic!("expected the handler, got {:?}", other),
    }
}

#[test]
fn continuation_hands_on_the_rest_of_the_chain() {
    let next = chain(&[4, 5]).call(Next::new(9));
    match next.handle() {
        Step::Middleware { id, next } => {
            assert_eq!(id, 4);
            assert_eq!(next.chain, vec![5]);
            assert_eq!(next.terminal, Terminal::Handler(9));
        }
        other => panic!("expected a middleware, got {:?}", other),
    }
}

#[test]
fn call_wraps_an_existing_chain() {
    let inner = chain(&[3]).call(Next::new_handler(Terminal::EmptyOk));
    let outer = chain(&[1, 2]).call(inner);
    assert_eq!(outer.chain, vec![1, 2, 3]);
    assert_eq!(outer.terminal, Terminal::EmptyOk);
}

#[test]
fn route_pipeline_runs_its_chain_then_its_handler() {
    let mut router = Router::new();
    router.middleware(1);
    router.middleware(2);
    router.get("/x", 9);
    let (dispatch, _) = router.resolve("/x", Method::GET);
    let next = dispatch.pipeline().expect("a pipeline");
    let (order, calls) = run(next, &[true, true], 9);
    assert_eq!(order, vec![1, 2]);
    assert_eq!(calls, 1);
}

#[test]
fn mounted_pipeline_runs_parent_middleware_first() {
    let mut sub = Router::new();
    sub.middleware(20);
    sub.middleware(21);
    sub.get("/ping", 7);
    let mut parent = Router::new();
    parent.middleware(10);
    parent.mount("/api", sub);
    let (dispatch, _) = parent.resolve("/api/ping", Method::GET);
    let next = dispatch.pipeline().expect("a pipeline");
    let (order, calls) = run(next, &[true, true, true], 7);
    assert_eq!(order, vec![10, 20, 21]);
    assert_eq!(calls, 1);
}

#[test]
fn options_pipeline_never_reaches_the_handler() {
    let mut router = Router::new();
    router.middleware(1);
    router.get("/x", 9);
    let (dispatch, _) = router.resolve("/x", Method::OPTIONS);
    let next = dispatch.pipeline().expect("a pipeline");
    let (order, calls) = run(next, &[true], 9);
    assert_eq!(order, vec![1]);
    assert_eq!(calls, 0);
}

#[test]
fn unrouted_has_no_pipeline() {
    let router = Router::new();
    let (dispatch, _) = router.resolve("/x", Method::GET);
    assert!(dispatch.pipeline().is_none());
}

#[test]
fn chain_without_handler_ends_in_an_empty_200() {
    let answer = Terminal::EmptyOk.answer().expect("a response");
    assert_eq!(answer.status, 200);
    assert_eq!(answer.body, "");
    assert!(answer.headers.is_empty());
    assert!(Terminal::Handler(3).answer().is_none());
}
