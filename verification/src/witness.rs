//! The prover's private assignment.

use crate::field_element::FieldElement;
use crate::name_map::NameMap;
use vstd::prelude::*;

verus! {

/// The values that the prover starts from, by signal name.
///
/// It holds the base values of the private signals and, while proving, the
/// values of the public inputs that the gates read. A verifier never sees it:
/// it receives the public inputs separately.
#[derive(Clone, Debug)]
pub struct Witness {
    /// The assigned values, by signal name.
    pub values: NameMap<FieldElement>,
}

impl Witness {
    /// The witness that assigns exactly `values`.
    pub fn new(values: NameMap<FieldElement>) -> (witness: Self)
        ensures
            witness.values == values,
    {
        Witness { values }
    }
}

} // verus!
