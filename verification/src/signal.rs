//! Named, role-tagged values of a circuit.

use vstd::prelude::*;

verus! {

/// A named value of a circuit, tagged with its role.
///
/// Within a circuit a signal is identified by role and name, and names are
/// assumed unique per role. Values are stored and looked up by name alone.
#[derive(Clone, Debug)]
pub enum Signal {
    /// A public input, bound by position when a proof is checked.
    Input(String),
    /// A private value of the prover.
    Witness(String),
    /// A declared public result.
    Output(String),
}

impl Signal {
    /// The name that the signal carries, whatever its role.
    pub open spec fn name(&self) -> Seq<char> {
        match self {
            Signal::Input(name) => name@,
            Signal::Witness(name) => name@,
            Signal::Output(name) => name@,
        }
    }

    /// Whether a gate may store its result under this signal: inputs are
    /// never written.
    pub open spec fn writable(&self) -> bool {
        !(self is Input)
    }

    /// The name that the signal carries, whatever its role.
    pub fn label(&self) -> (name: &String)
        ensures
            name@ == self.name(),
    {
        match self {
            Signal::Input(name) => name,
            Signal::Witness(name) => name,
            Signal::Output(name) => name,
        }
    }
}

} // verus!
