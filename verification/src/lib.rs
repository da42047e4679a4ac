//! A small library behind a mock user-creation endpoint and a tracing demo.
//!
//! The `users` module holds the endpoint's decision logic: validating a
//! requested username and choosing the HTTP status code and response body.
//! The `demo` module describes, as data, the fixed script of spans, log
//! lines and delays that the standalone tracing demo performs.

pub mod demo;
pub mod users;
