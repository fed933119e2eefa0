//! Backend engine of a desktop API-testing tool.
//!
//! Two independent components:
//! - request handling: validating a caller-supplied request description,
//!   composing the outbound header list, and normalizing a raw transport
//!   response (headers, cookies, body classification) into a structured
//!   description;
//! - a keyed, last-write-wins document store over a single local sqlite
//!   table.
//!
//! Network transport and process wiring live outside this crate; they hand
//! plain values in and take plain values back.

pub mod request;
pub mod response;
pub mod store;
pub mod strmap;
pub mod strutil;
