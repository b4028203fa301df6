//! The engine: how balances are laid out as grids, and how grids are traded.

pub mod error;
pub mod median;
pub mod range;
pub mod recenter;
pub mod round;
pub mod state;
pub mod strategy;
pub mod supervise;
pub mod turn;
