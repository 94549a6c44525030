//! Game rules, economy and bookkeeping of a Discord casino bot, with their
//! contracts proved by Verus.  Network, database and chat plumbing live in
//! the companion application; this crate decides what happens.

pub mod model;
pub mod text;
pub mod clock;
pub mod rewards;
pub mod records;
pub mod bets;
pub mod parity;
pub mod cards;
pub mod deck;
pub mod highlow;
pub mod niquel;
pub mod duel;
pub mod shop;
pub mod ranking;
pub mod commands;
