//! Verified business rules of the snail token launch and of the snail game.
//!
//! The crate holds the fixed-point curve, the game's trigger rules and the
//! launch's distribution rules as functions on plain records. Reading accounts,
//! moving tokens and emitting events is left to the program built around it.

pub mod curve;
pub mod pubkey;
pub mod snail_game;
pub mod snail_launch;
