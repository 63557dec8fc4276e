//! A verifiable delay function in Wesolowski's construction over a
//! Rivest–Shamir–Wagner time-lock puzzle, together with the pure parts of the
//! storage layer that surrounds it in the node.

pub mod bigint;
pub mod prng;
pub mod primality;
pub mod bigfloat;
pub mod hash;
pub mod puzzle;
pub mod vdf;
pub mod prover;
pub mod verification;
pub mod config;
pub mod storage;
