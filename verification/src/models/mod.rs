//! What is stored: grids, trades and users.

pub mod trade_history;
pub mod user;
pub mod user_grid;
