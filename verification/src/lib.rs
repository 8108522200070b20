//! Festive game-server core: small mutable entities packed into single
//! machine words and updated lock-free through atomic compare-and-swap,
//! together with the pure request logic built on top of them.
//!
//! The two packed entities are a 4x4 connect-four style board and a
//! leaky-bucket milk counter. Every state transition is a pure function of
//! the old packed word and the request parameters; a retry helper applies
//! such a function atomically.

pub mod addresses;
pub mod board;
pub mod board_service;
pub mod bucket;
pub mod bucket_service;
pub mod digits;
pub mod manifest;
pub mod markup;
pub mod quotes;
pub mod retry;
pub mod rng;
pub mod text;
