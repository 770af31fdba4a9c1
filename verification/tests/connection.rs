use axeon::buffer::BufferPool;
use axeon::connection::{
    action, advance, contain, respond, ConnectionAction, ConnectionEvent, ConnectionLimiter,
    ConnectionState, Outcome,
};
use axeon::database::plugin::DatabasePlugin;
use axeon::database::{Connection, ConnectionPool, DatabaseError, PoolConfig};
use axeon::error::ServerError;
use axeon::http::response::Response;
use axeon::plugins::Plugins;
use axeon::text::{
    parse_usize, split_chars, strip_chars, to_chars, to_decimal, tokens_chars, trim_chars,
    CharClass,
};

#[test]
fn second_connection_waits_for_the_first() {
    let mut limiter = ConnectionLimiter::new(1);
    assert!(limiter.try_acquire());
    assert!(!limiter.try_acquire());
    assert!(!limiter.try_acquire());
    assert_eq!(limiter.active, 1);
    limiter.release();
    assert_eq!(limiter.active, 0);
    assert!(limiter.try_acquire());
}

#[test]
fn limiter_never_exceeds_its_ceiling() {
    let mut limiter = ConnectionLimiter::new(3);
    let mut granted = 0;
    for _ in 0..10 {
        if limiter.try_acquire() {
            granted += 1;
        }
        assert!(limiter.active <= 3);
    }
    assert_eq!(granted, 3);
    limiter.release();
    limiter.release();
    limiter.release();
    limiter.release();
    assert_eq!(limiter.active, 0);
    let mut closed = ConnectionLimiter::new(0);
    assert!(!closed.try_acquire());
}

#[test]
fn connection_walks_through_its_states() {
    let mut state = ConnectionState::Accepted;
    assert_eq!(action(state, false), ConnectionAction::Handshake);
    state = advance(state, ConnectionEvent::HandshakeDone);
    assert_eq!(state, ConnectionState::Accepted);
    assert_eq!(action(state, true), ConnectionAction::ReadRequest);
    state = advance(state, ConnectionEvent::RequestRead);
    assert_eq!(state, ConnectionState::Parsed);
    assert_eq!(action(state, true), ConnectionAction::Dispatch);
    state = advance(state, ConnectionEvent::Answered);
    assert_eq!(state, ConnectionState::Dispatched);
    assert_eq!(action(state, true), ConnectionAction::WriteResponse);
    state = advance(state, ConnectionEvent::Written);
    assert_eq!(state, ConnectionState::Responded);
    assert_eq!(action(state, true), ConnectionAction::Release);
    state = advance(state, ConnectionEvent::Released);
    assert_eq!(state, ConnectionState::Closed);
    assert_eq!(action(state, true), ConnectionAction::Stop);
    assert_eq!(advance(state, ConnectionEvent::RequestRead), ConnectionState::Closed);
}

#[test]
fn failures_close_the_connection() {
    let accepted = ConnectionState::Accepted;
    assert_eq!(advance(accepted, ConnectionEvent::HandshakeFailed), ConnectionState::Closed);
    assert_eq!(advance(accepted, ConnectionEvent::NoRequest), ConnectionState::Closed);
    assert_eq!(
        advance(ConnectionState::Dispatched, ConnectionEvent::WriteFailed),
        ConnectionState::Closed
    );
    assert_eq!(advance(accepted, ConnectionEvent::Written), ConnectionState::Accepted);
    assert_eq!(advance(ConnectionState::Parsed, ConnectionEvent::Written), ConnectionState::Parsed);
}

#[test]
fn faults_become_panic_errors() {
    match contain(Outcome::Fault(Some("boom".to_string()))) {
        Err(ServerError::PanicError(m)) => assert_eq!(m, "boom"),
        other => panic!("expected a panic error, got {:?}", other),
    }
    match contain(Outcome::Fault(None)) {
        Err(ServerError::PanicError(m)) => assert_eq!(m, "Unknown panic"),
        other => panic!("expected a panic error, got {:?}", other),
    }
    let answered = contain(Outcome::Answer(Ok(Response::text("fine")))).unwrap();
    assert_eq!(answered.body, "fine");
    assert!(matches!(
        contain(Outcome::Answer(Err(ServerError::NotFound))),
        Err(ServerError::NotFound)
    ));
}

#[test]
fn every_answer_becomes_a_response() {
    let fault = respond(contain(Outcome::Fault(Some("boom".to_string()))));
    assert_eq!(fault.status, 500);
    assert_eq!(fault.body, "{\"error\":{\"message\":\"Panic: boom\",\"status\":500}}");
    let limited = respond(Err(ServerError::TooManyRequests));
    assert_eq!(limited.status, 429);
    assert_eq!(limited.body, "{\"error\":{\"message\":\"Too many requests\",\"status\":429}}");
    assert_eq!(respond(Ok(Response::text("ok"))).body, "ok");
}

#[test]
fn plugins_keep_their_slots() {
    let mut plugins = Plugins::new();
    assert!(plugins.get(7).is_none());
    assert_eq!(plugins.insert(7), 0);
    assert_eq!(plugins.insert(9), 1);
    assert_eq!(plugins.insert(7), 0);
    assert_eq!(plugins.get(9), Some(1));
    assert_eq!(plugins.keys, vec![7, 9]);
    let handle = plugins.share();
    assert!(plugins.shared);
    assert!(handle.shared);
    assert_eq!(handle.get(7), Some(0));
    assert_eq!(handle.get(8), None);
}

#[test]
fn buffers_are_used_again() {
    let mut pool = BufferPool::new(16);
    let fresh = pool.get();
    assert!(fresh.is_empty());
    assert!(fresh.capacity() >= 16);
    pool.put(vec![1, 2, 3]);
    pool.put(vec![4]);
    assert_eq!(pool.buffers.len(), 2);
    let reused = pool.get();
    assert!(reused.is_empty());
    assert_eq!(pool.buffers.len(), 1);
    assert_eq!(BufferPool::default().size, 8192);
}

#[derive(Debug, PartialEq)]
struct Conn {
    id: u32,
    good: bool,
}

impl Connection for Conn {
    fn valid(&self) -> bool {
        self.good
    }

    fn is_valid(&self) -> bool {
        self.good
    }

    fn close(&mut self) {
        self.good = false;
    }
}

fn config() -> PoolConfig {
    PoolConfig { max_size: 2, min_idle: 0, max_lifetime: 1000, idle_timeout: 100 }
}

#[test]
fn pool_defaults() {
    let config = PoolConfig::default();
    assert_eq!(config.max_size, 10);
    assert_eq!(config.min_idle, 2);
    assert_eq!(config.max_lifetime, 30 * 60 * 1000);
    assert_eq!(config.idle_timeout, 10 * 60 * 1000);
}

#[test]
fn pool_fills_its_idle_connections() {
    let settings = PoolConfig { max_size: 4, min_idle: 3, max_lifetime: 1000, idle_timeout: 100 };
    let pool = ConnectionPool::new(settings, || Ok(Conn { id: 1, good: true }), 5);
    assert_eq!(pool.connections.len(), 3);
    assert!(pool.connections.iter().all(|p| p.created_at == 5 && p.last_used_at == 5));
    let broken = ConnectionPool::new(settings, || Ok(Conn { id: 1, good: false }), 5);
    assert!(broken.connections.is_empty());
    let failing = ConnectionPool::new(
        settings,
        || Err::<Conn, DatabaseError>(DatabaseError::ConnectionFailed),
        5,
    );
    assert!(failing.connections.is_empty());
}

#[test]
fn pool_gives_idle_connections_first() {
    let mut pool = ConnectionPool::new(config(), || Ok(Conn { id: 99, good: true }), 0);
    pool.release(Conn { id: 1, good: true }, 10);
    pool.release(Conn { id: 2, good: true }, 20);
    pool.release(Conn { id: 3, good: true }, 30);
    assert_eq!(pool.connections.len(), 2);
    assert_eq!(pool.get(40), Ok(Conn { id: 1, good: true }));
    assert_eq!(pool.get(40), Ok(Conn { id: 2, good: true }));
    assert_eq!(pool.get(40), Ok(Conn { id: 99, good: true }));
}

#[test]
fn pool_drops_expired_connections() {
    let mut pool = ConnectionPool::new(config(), || Ok(Conn { id: 99, good: true }), 0);
    pool.release(Conn { id: 1, good: true }, 10);
    pool.release(Conn { id: 2, good: true }, 100);
    assert_eq!(pool.get(150), Ok(Conn { id: 2, good: true }));
    assert!(pool.connections.is_empty());
}

#[test]
fn pool_is_exhausted_when_nothing_can_be_made() {
    let mut pool = ConnectionPool::new(
        config(),
        || Err::<Conn, DatabaseError>(DatabaseError::ConnectionFailed),
        0,
    );
    assert_eq!(pool.get(1), Err(DatabaseError::PoolExhausted));
    pool.release(Conn { id: 1, good: false }, 2);
    assert!(pool.connections.is_empty());
    let made = ConnectionPool::<Conn, fn() -> Result<Conn, DatabaseError>>::pooled(
        Ok(Conn { id: 5, good: false }),
        3,
    );
    assert!(matches!(made, Err(DatabaseError::InvalidConnection)));
    let failed = ConnectionPool::<Conn, fn() -> Result<Conn, DatabaseError>>::pooled(
        Err(DatabaseError::ConnectionFailed),
        3,
    );
    assert!(matches!(failed, Err(DatabaseError::ConnectionFailed)));
}

#[test]
fn database_plugin_wraps_the_pool() {
    let mut plugin = DatabasePlugin::new(config(), || Ok(Conn { id: 7, good: true }), 0);
    assert_eq!(plugin.get_connection(1), Ok(Conn { id: 7, good: true }));
    plugin.release_connection(Conn { id: 8, good: true }, 2);
    assert_eq!(plugin.get_connection(3), Ok(Conn { id: 8, good: true }));
}

fn strings(pieces: Vec<Vec<char>>) -> Vec<String> {
    pieces.into_iter().map(|p| p.into_iter().collect()).collect()
}

#[test]
fn decimal_notation() {
    let text = |n: u64| to_decimal(n).into_iter().collect::<String>();
    assert_eq!(text(0), "0");
    assert_eq!(text(7), "7");
    assert_eq!(text(10), "10");
    assert_eq!(text(404), "404");
    assert_eq!(text(u64::MAX), "18446744073709551615");
}

#[test]
fn decimal_parsing() {
    let parse = |s: &str| parse_usize(&to_chars(s));
    assert_eq!(parse("0"), Some(0));
    assert_eq!(parse("007"), Some(7));
    assert_eq!(parse("+12"), Some(12));
    assert_eq!(parse(""), None);
    assert_eq!(parse("+"), None);
    assert_eq!(parse("-1"), None);
    assert_eq!(parse("1a"), None);
    assert_eq!(parse(" 1"), None);
    assert_eq!(parse("\u{0661}"), None);
    assert_eq!(parse(&usize::MAX.to_string()), Some(usize::MAX));
    assert_eq!(parse("18446744073709551616"), None);
    assert_eq!(parse("99999999999999999999999999"), None);
}

#[test]
fn splitting_and_trimming() {
    let chars = to_chars("a,,b,");
    assert_eq!(strings(split_chars(&chars, CharClass::Exactly(','))), vec!["a", "", "b", ""]);
    assert_eq!(strings(tokens_chars(&chars, CharClass::Exactly(','))), vec!["a", "b"]);
    assert_eq!(strings(split_chars(&[], CharClass::Exactly(','))), vec![""]);
    assert!(tokens_chars(&[], CharClass::Whitespace).is_empty());
    let spaced = to_chars(" \t\u{a0}x y\u{3000}\r\n");
    assert_eq!(trim_chars(&spaced).into_iter().collect::<String>(), "x y");
    let quoted = to_chars("\"\"a\"b\"");
    assert_eq!(
        strip_chars(&quoted, CharClass::Exactly('"')).into_iter().collect::<String>(),
        "a\"b"
    );
}

#[test]
fn white_space_is_the_unicode_property() {
    for code in 0..=0x10FFFFu32 {
        if let Some(c) = char::from_u32(code) {
            assert_eq!(CharClass::Whitespace.contains(c), c.is_whitespace(), "U+{:04X}", code);
        }
    }
    assert!(CharClass::Bracket.contains('['));
    assert!(CharClass::Bracket.contains(']'));
    assert!(!CharClass::Bracket.contains('('));
    assert!(CharClass::Exactly('x').contains('x'));
    assert!(!CharClass::Exactly('x').contains('y'));
}

#[test]
fn decimal_notation_matches_parsing() {
    for n in [0u64, 1, 9, 10, 99, 100, 255, 256, 65535, 1_000_000, 4_294_967_296] {
        let text: String = to_decimal(n).into_iter().collect();
        assert_eq!(text, n.to_string());
        assert_eq!(parse_usize(&to_chars(&text)), text.parse::<usize>().ok());
    }
    for text in ["", "+", "+0", "00", "-0", "1_0", "0x10", "12 ", "٣"] {
        assert_eq!(parse_usize(&to_chars(text)), text.parse::<usize>().ok(), "{:?}", text);
    }
}

#[test]
fn empty_pool_with_a_failing_maker_is_exhausted() {
    let settings = PoolConfig { max_size: 1, min_idle: 0, ..PoolConfig::default() };
    let mut pool = ConnectionPool::new(
        settings,
        || Err::<Conn, DatabaseError>(DatabaseError::ConnectionFailed),
        0,
    );
    assert!(pool.connections.is_empty());
    assert_eq!(pool.get(1), Err(DatabaseError::PoolExhausted));
    assert!(pool.connections.is_empty());
}

#[test]
fn pool_keeps_what_the_maker_made_in_order() {
    let counter = std::cell::Cell::new(0u32);
    let settings = PoolConfig { max_size: 5, min_idle: 3, max_lifetime: 1000, idle_timeout: 100 };
    let pool = ConnectionPool::new(
        settings,
        || {
            counter.set(counter.get() + 1);
            Ok(Conn { id: counter.get(), good: counter.get() != 2 })
        },
        7,
    );
    assert_eq!(counter.get(), 3);
    let kept: Vec<u32> = pool.connections.iter().map(|p| p.connection.id).collect();
    assert_eq!(kept, vec![1, 3]);
    assert!(pool.connections.iter().all(|p| p.connection.good && p.created_at == 7));
}

#[test]
fn pool_without_room_makes_no_connection() {
    let settings = PoolConfig { max_size: 0, min_idle: 0, max_lifetime: 1000, idle_timeout: 100 };
    let mut pool = ConnectionPool::new(settings, || Ok(Conn { id: 1, good: true }), 0);
    assert_eq!(pool.get(1), Err(DatabaseError::PoolExhausted));
}
