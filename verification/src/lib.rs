//! An embeddable HTTP/1.1 server core: request parsing, the route table, the
//! middleware pipeline, dispatch and the per-connection life cycle.

pub mod app;
pub mod buffer;
pub mod connection;
pub mod database;
pub mod error;
pub mod http;
pub mod middleware;
pub mod path;
pub mod plugins;
pub mod router;
pub mod string_map;
pub mod text;
