//! A verified model of an arithmetic-circuit gadget proving that a public
//! value equals the bitwise AND of two private fixed-width words.
//!
//! A constraint system over a prime field has no native bitwise operators,
//! so AND is encoded algebraically: each word is split into its even- and
//! odd-position bits, the two operands' halves are added slot-wise, and a
//! second split extracts the carry of each two-bit slot, which is exactly
//! the AND of the corresponding input bits. A precomputed table of "spread"
//! values (one bit per two-bit slot) makes the splits sound: membership in
//! the table is the only thing that pins a decomposition down.
//!
//! This crate holds the witness arithmetic, every gate relation, and the
//! fixed pipeline, together with proofs that the constraint system is
//! sound (any satisfying assignment exposes the AND of the private inputs)
//! and complete (an honest witness satisfies it). Driving an actual proving
//! backend with these values is left to the surrounding application.

pub mod spread;
pub mod word;
pub mod gadget;
pub mod topology;
