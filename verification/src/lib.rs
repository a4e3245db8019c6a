//! Chaum–Pedersen password authentication.
//!
//! A prover shows that it knows the exponent `x` behind a registered pair
//! `(alpha^x, beta^x)` without revealing it. The crate holds the arithmetic of
//! the proof over big-endian natural numbers, the verifier's session store and
//! the three-step authentication service built on both.

pub mod natural;
pub mod group;
pub mod soundness;
pub mod parameters;
pub mod engine;
pub mod hexadecimal;
pub mod random;
pub mod store;
pub mod service;
