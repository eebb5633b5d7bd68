//! A command-line client's library for a cloud heating service: the session
//! lifecycle (cached token, one bootstrap login, one bounded refresh), device
//! selection, temperature arguments and the requests sent to the service.

pub mod json;
pub mod session;
pub mod temperature;
pub mod target;
pub mod devices;
pub mod report;
pub mod requests;
pub mod config;
pub mod operation;
