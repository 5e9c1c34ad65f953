//! Deterministic, rollback-safe simulation core of a two-player paddle-and-ball game.
//!
//! All positions are integers in sub-pixel units, so that every peer computes
//! bit-identical states from identical inputs.
pub mod geometry;
pub mod pong;
pub mod rollback;
pub mod session;
