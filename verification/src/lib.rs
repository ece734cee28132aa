//! Core logic of a chat server: request validation, message routing,
//! database row preparation, group fan-out and account checks.
//!
//! Everything here is plain data in, plain data out; the network, the
//! database and the clock are driven by the application around it.
pub mod text;
pub mod labels;
pub mod json;
pub mod ids;
pub mod records;
pub mod http;
pub mod rows;
pub mod batch;
pub mod registry;
pub mod forward;
pub mod auth;
pub mod routing;
