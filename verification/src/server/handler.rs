//! The answers to requests, one file for each HTTP method.

pub mod delete;
pub mod get;
pub mod hc;
pub mod patch;
pub mod post;
pub mod put;
