//! A typed client core for a chat-completion HTTP endpoint.
//!
//! The crate builds the JSON body for a chat request from typed fields,
//! renders the authentication header, and maps an HTTP outcome (status code
//! plus body text) to either a typed response or a typed error. The network
//! transport itself lives outside this library; everything here is pure
//! computation with verified contracts.

pub mod api;
pub mod error;
pub mod json;
pub mod request;
pub mod token;
