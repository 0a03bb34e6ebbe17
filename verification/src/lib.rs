//! A commit-then-reveal proof system for arithmetic circuits over a prime
//! field.
//!
//! A prover evaluates a circuit on a private witness, commits to every private
//! signal with a hash, and reveals the committed values together with their
//! blinding factors. A verifier recomputes the commitments and re-runs the
//! circuit against the public inputs. The scheme is tamper-evident, not
//! hiding: everything the prover commits to is disclosed in the proof.
//!
//! The data model is in [`field_element`], [`signal`], [`constraint`],
//! [`circuit`], [`witness`], [`commitment`] and [`bundle`]; [`name_map`] is
//! the map by signal name that they share. [`engine`] evaluates the gates of
//! a circuit, for [`prover`] and [`verification`] alike. [`laws`] states what
//! holds of the two together.
//!
//! Every function is verified against its contract. Two calls are trusted:
//! the SHA-256 digest of `sha2` in [`commitment`], and the random draw of
//! `rand` in [`prover`].

pub mod bundle;
pub mod circuit;
pub mod commitment;
pub mod constraint;
pub mod engine;
pub mod field_element;
pub mod laws;
pub mod name_map;
pub mod prover;
pub mod signal;
pub mod verification;
pub mod witness;

pub use bundle::Proof;
pub use circuit::Circuit;
pub use commitment::Commitment;
pub use constraint::{Constraint, Operation};
pub use engine::EvalError;
pub use field_element::FieldElement;
pub use name_map::NameMap;
pub use prover::Prover;
pub use signal::Signal;
pub use verification::Verifier;
pub use witness::Witness;
