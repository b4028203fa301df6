//! The exchange: what is sent to it, and what comes back.

pub mod client;
pub mod error;
pub mod replies;
pub mod requests;
pub mod symbol;
pub mod types;
