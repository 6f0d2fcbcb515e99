//! A verified spin-the-wheel lottery: a fixed prize table, a payment gate,
//! an append-only ledger of draws and a bounded query of the most recent
//! ones.

pub mod amount;
pub mod game;
pub mod ids;
