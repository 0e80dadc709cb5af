//! Verified core of a personal game-library tracker.
//!
//! The crate covers the identity and access-control core of the service:
//! password hashing and verification, signed session tokens with expiry,
//! the bearer-token authorization gate, ownership-scoped access to game
//! records, and the normalization of a game's free-text category names
//! onto a deduplicated category table and a game-category link table.

pub mod clock;
pub mod entities;
pub mod errors;
pub mod ids;
pub mod games;
pub mod gate;
pub mod keys;
pub mod password;
pub mod store;
pub mod token;
pub mod users;
