//! Requests, responses and the values that request bodies decode to.

pub mod body;
pub mod parser;
pub mod request;
pub mod response;
pub mod value;
