//! Capture of write operations from a query-language request, resolution of
//! their argument values, correlation with the downstream result, and the
//! planning of one durable event-store append per captured operation.
//!
//! The host request pipeline hands this library the raw operation text and a
//! resolved-variables mapping, later the result payload; the library hands
//! back fully concrete call records and, per record, the stream name, event
//! type and serialized payload to append. Network transport, the async
//! runtime and the host pipeline stay outside.

pub mod call;
pub mod chars;
pub mod correlate;
pub mod extract;
pub mod json;
pub mod numbers;
pub mod parse;
pub mod render;
pub mod resolve;
pub mod sink;
pub mod strings;

pub use json::JsonValue;
