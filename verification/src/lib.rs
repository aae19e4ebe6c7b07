//! A WHOIS client core: domain normalization, server routing, per-server
//! query formatting, referral extraction, disclaimer filtering, and the
//! referral-chasing state machine.
//!
//! All lookup logic is verified. Network transport (opening the TCP stream,
//! writing the query line, reading the response) is left to the caller, who
//! drives a [`chase::Chaser`] by handing it each server response.

pub mod chase;
pub mod data;
pub mod error;
pub mod filter;
pub mod format;
pub mod router;
pub mod scan;
pub mod strutil;
pub mod utils;

pub use chase::{query, whois, ChaseStep, Chaser, Whois, WhoisResult};
pub use data::{MAX_HOPS, WHOIS_QUICK, WHOIS_RECURSE, WHOIS_SPAM_ME};
pub use error::Error;
pub use filter::{hide_line, HideState};
