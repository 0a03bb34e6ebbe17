//! What the prover hands to the verifier.

use crate::commitment::Commitment;
use crate::field_element::FieldElement;
use crate::name_map::NameMap;
use vstd::prelude::*;

verus! {

/// A commit-then-open bundle: one commitment per private signal, and the
/// value and blinding factor that open it.
///
/// The bundle discloses every private value. It lets a verifier detect that a
/// value was changed after the commitments were made; it does not keep the
/// witness secret.
#[derive(Clone, Debug)]
pub struct Proof {
    /// The commitment made for each private signal, by name.
    pub commitments: NameMap<Commitment>,
    /// The value and the blinding factor of each private signal, by name.
    pub revealed_witness: NameMap<(FieldElement, FieldElement)>,
}

/// The digest that each commitment holds.
pub open spec fn digests(commitments: Map<Seq<char>, Commitment>) -> Map<Seq<char>, Seq<u8>> {
    commitments.map_values(|c: Commitment| c.committed_hash@)
}

/// The value of each revealed pair, without its blinding factor.
pub open spec fn revealed_values(
    openings: Map<Seq<char>, (FieldElement, FieldElement)>,
) -> Map<Seq<char>, FieldElement> {
    openings.map_values(|pair: (FieldElement, FieldElement)| pair.0)
}

/// A proof as plain data: the committed digests and the revealed pairs.
pub struct ProofView {
    /// The digest committed for each name.
    pub digests: Map<Seq<char>, Seq<u8>>,
    /// The value and the blinding factor revealed for each name.
    pub openings: Map<Seq<char>, (FieldElement, FieldElement)>,
}

impl View for Proof {
    type V = ProofView;

    open spec fn view(&self) -> ProofView {
        ProofView {
            digests: digests(self.commitments@),
            openings: self.revealed_witness@,
        }
    }
}

} // verus!
