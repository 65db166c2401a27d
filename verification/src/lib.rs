//! A verified core for a terminal HTTP API client: parameterized request
//! recipes whose method, URL, headers, and body contain `{{ }}` placeholders
//! that are resolved at send time from a profile, per-call overrides, the
//! environment, and data chained out of previously received responses.
//!
//! The crate covers the template resolution and chaining engine, the request
//! builder, the in-session record repository, and the per-recipe request
//! state machine.

pub mod builder;
pub mod http;
pub mod json;
pub mod modal;
pub mod orchestrator;
pub mod strutil;
pub mod template;
pub mod valuemap;
