//! Device-authorization credential management: a profile store with expiry
//! tracking, the device-code / token-exchange / refresh protocol client with
//! its closed error taxonomy, and the polling state machine that drives the
//! flow end to end.

pub mod apis;
pub mod auth;
pub mod config;
pub mod flow;
pub mod json;
