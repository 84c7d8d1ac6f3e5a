//! Threshold secret sharing over GF(2^8), with typed, disposable chunks.
//!
//! `gf` holds the field, `poly` polynomial evaluation, splitting and reconstruction,
//! `strategy` the chunks that package shares and decoys, `disposable` the release
//! contract they follow.

mod entropy;
pub mod disposable;
pub mod error;
pub mod gf;
pub mod poly;
pub mod strategy;
