//! A multi-party quiz game with hash-chained answers and escrowed rewards.

pub mod table;
pub mod digest;
pub mod types;
pub mod state;
pub mod game;
pub mod quiz;
pub mod disclosure;
pub mod rewards;
pub mod views;
pub mod deposit;
pub mod laws;
