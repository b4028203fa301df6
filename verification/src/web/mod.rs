//! The requests of users, and their answers.

pub mod account;
pub mod auth;
pub mod center;
pub mod error;
pub mod grids;
pub mod pause;
