//! Gates: one binary relation between three signals.

use crate::signal::Signal;
use vstd::prelude::*;

verus! {

/// What a gate does with its two operands.
#[derive(Clone, Debug)]
pub enum Operation {
    /// `output = left + right`
    Add,
    /// `output = left * right`
    Mul,
    /// `output = left - right`
    Sub,
    /// Requires `left == right` and produces no value.
    Eq,
}

/// One gate: it reads `left` and `right` and, unless it is an equality,
/// produces `output`.
#[derive(Clone, Debug)]
pub struct Constraint {
    /// The first operand.
    pub left: Signal,
    /// The second operand.
    pub right: Signal,
    /// Where the result goes. An equality stores nothing there; a private
    /// signal that is named here is committed to by the prover all the same.
    pub output: Signal,
    /// What is done with the operands.
    pub operation: Operation,
}

} // verus!
