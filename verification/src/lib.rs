//! A JSON document exposed as a set of named resources, with the queries and
//! mutations that a mock REST server needs on it.

pub mod codec;
pub mod error;
pub mod json;
pub mod laws;
pub mod server;
pub mod storage;
pub mod text;
