//! Grid trading.

pub mod config;
pub mod decimal;
pub mod engine;
pub mod exchange;
pub mod models;
pub mod names;
pub mod text;
pub mod web;
