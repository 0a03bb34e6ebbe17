//! Checking a proof against a circuit and its public inputs.

use crate::bundle::{digests, revealed_values, Proof, ProofView};
use crate::circuit::Circuit;
use crate::commitment::{commitment_digest, Commitment};
use crate::constraint::Constraint;
use crate::engine::{evaluate, run, Assignment, EvalError};
use crate::field_element::FieldElement;
use crate::name_map::NameMap;
use crate::signal::Signal;
use vstd::prelude::*;

verus! {

/// Every revealed pair has a commitment, which is the digest of that pair,
/// and there are as many commitments as pairs.
pub open spec fn commitments_match(
    digests: Map<Seq<char>, Seq<u8>>,
    openings: Map<Seq<char>, (FieldElement, FieldElement)>,
) -> bool {
    &&& digests.len() == openings.len()
    &&& forall|name: Seq<char>| #[trigger]
        openings.contains_key(name) ==> digests.contains_key(name) && digests[name]
            == commitment_digest(openings[name].0, openings[name].1)
}

/// `values` after the public inputs were bound by position: the `i`-th signal
/// of `inputs`, if it is an input signal and there is an `i`-th public input,
/// gets that value. Later positions override earlier ones of the same name.
pub open spec fn bind_inputs(
    inputs: Seq<Signal>,
    public_inputs: Seq<FieldElement>,
    values: Assignment,
) -> Assignment
    decreases inputs.len(),
{
    if inputs.len() == 0 {
        values
    } else {
        let last = inputs.len() - 1;
        let before = bind_inputs(inputs.drop_last(), public_inputs, values);
        if last < public_inputs.len() && inputs[last] is Input {
            before.insert(inputs[last].name(), public_inputs[last])
        } else {
            before
        }
    }
}

/// The assignment that a verification starts from: the revealed values, with
/// the public inputs bound over them.
pub open spec fn verifier_seed(
    circuit: Circuit,
    public_inputs: Seq<FieldElement>,
    proof: ProofView,
) -> Assignment {
    bind_inputs(
        circuit.inputs@,
        public_inputs,
        revealed_values(proof.openings),
    )
}

/// What a verification comes to.
///
/// It rejects a proof whose commitments do not match, without looking at the
/// gates. Otherwise it runs the gates from [`verifier_seed`]: it accepts if
/// all of them hold, rejects if an equality fails, and has no answer where a
/// gate cannot be evaluated at all.
pub open spec fn verdict(
    circuit: Circuit,
    public_inputs: Seq<FieldElement>,
    proof: ProofView,
) -> Result<bool, EvalError> {
    if !commitments_match(proof.digests, proof.openings) {
        Ok(false)
    } else {
        match run(circuit.constraints@, verifier_seed(circuit, public_inputs, proof)).fault {
            None => Ok(true),
            Some(EvalError::Unsatisfied) => Ok(false),
            Some(fault) => Err(fault),
        }
    }
}

/// The party that checks proofs. It keeps no state.
#[derive(Clone, Debug)]
pub struct Verifier;

impl Verifier {
    /// Whether `proof` is accepted for `circuit` under `public_inputs`.
    ///
    /// A public-input list shorter than `circuit.inputs` leaves the remaining
    /// inputs unbound. Where a gate then reads a signal without a value, or
    /// where operands disagree on their prime, the verification has no
    /// verdict and this function may not be called; [`Verifier::try_verify`]
    /// reports such a fault instead.
    pub fn verify(circuit: &Circuit, public_inputs: &[FieldElement], proof: &Proof) -> (accepted:
        bool)
        requires
            verdict(*circuit, public_inputs@, proof@) is Ok,
        ensures
            verdict(*circuit, public_inputs@, proof@) == Ok::<bool, EvalError>(accepted),
    {
        if !Self::check_commitments(&proof.commitments, &proof.revealed_witness) {
            return false;
        }
        let mut value_map = Self::seed(circuit, public_inputs, proof);
        Self::constraints_satisfied(circuit.constraints.as_slice(), &mut value_map)
    }

    /// [`Verifier::verify`] for any input: the verdict, or the fault that
    /// leaves the verification without one.
    pub fn try_verify(circuit: &Circuit, public_inputs: &[FieldElement], proof: &Proof) -> (outcome:
        Result<bool, EvalError>)
        ensures
            outcome == verdict(*circuit, public_inputs@, proof@),
    {
        if !Self::check_commitments(&proof.commitments, &proof.revealed_witness) {
            return Ok(false);
        }
        let mut value_map = Self::seed(circuit, public_inputs, proof);
        match evaluate(circuit.constraints.as_slice(), &mut value_map) {
            None => Ok(true),
            Some(EvalError::Unsatisfied) => Ok(false),
            Some(fault) => Err(fault),
        }
    }

    /// Recomputes the commitment of every revealed pair and compares it with
    /// the stored one.
    pub fn check_commitments(
        commitments: &NameMap<Commitment>,
        revealed_witness: &NameMap<(FieldElement, FieldElement)>,
    ) -> (ok: bool)
        ensures
            ok == commitments_match(digests(commitments@), revealed_witness@),
    {
        let ghost stored = digests(commitments@);
        let count = revealed_witness.len();
        let stored_count = commitments.len();
        assert(stored.dom() =~= commitments@.dom());
        if stored_count != count {
            return false;
        }
        let mut i: usize = 0;
        while i < count
            invariant
                i <= count,
                count == revealed_witness.names().len(),
                stored == digests(commitments@),
                forall|j: int|
                    0 <= j < i ==> {
                        let name = #[trigger] revealed_witness.names()[j];
                        stored.contains_key(name) && stored[name] == commitment_digest(
                            revealed_witness@[name].0,
                            revealed_witness@[name].1,
                        )
                    },
            decreases count - i,
        {
            let (name, pair) = revealed_witness.entry(i);
            let recomputed = Commitment::new(&pair.0, &pair.1);
            match commitments.get(name) {
                None => {
                    return false;
                },
                Some(commitment) => {
                    if !commitment.matches(&recomputed.committed_hash) {
                        return false;
                    }
                },
            }
            i += 1;
        }
        true
    }

    /// The assignment that the gates are run from.
    fn seed(
        circuit: &Circuit,
        public_inputs: &[FieldElement],
        proof: &Proof,
    ) -> (value_map: NameMap<FieldElement>)
        ensures
            value_map@ == verifier_seed(*circuit, public_inputs@, proof@),
    {
        let revealed = &proof.revealed_witness;
        let ghost values = revealed_values(revealed@);
        let mut value_map: NameMap<FieldElement> = NameMap::new();
        let count = revealed.len();
        let mut i: usize = 0;
        while i < count
            invariant
                i <= count,
                count == revealed.names().len(),
                revealed.names().no_duplicates(),
                values == revealed_values(revealed@),
                forall|name: Seq<char>|
                    value_map@.contains_key(name) <==> revealed.names().take(i as int).contains(
                        name,
                    ),
                forall|name: Seq<char>| #[trigger]
                    value_map@.contains_key(name) ==> value_map@[name] == values[name],
            decreases count - i,
        {
            let (name, pair) = revealed.entry(i);
            value_map.insert(name.clone(), pair.0.clone());
            i += 1;
            proof {
                let names = revealed.names();
                let done = names.take(i as int);
                let earlier = names.take(i - 1);
                assert forall|k: Seq<char>| value_map@.contains_key(k) <==> done.contains(k) by {
                    if earlier.contains(k) {
                        let j = earlier.index_of(k);
                        assert(done[j] == k);
                    }
                    if k == names[i - 1] {
                        assert(done[i - 1] == k);
                    }
                    if done.contains(k) {
                        let j = done.index_of(k);
                        if j < i - 1 {
                            assert(earlier[j] == k);
                        }
                    }
                }
            }
        }
        proof {
            assert(revealed.names().take(count as int) =~= revealed.names());
            assert(value_map@ =~= values);
        }
        let inputs = &circuit.inputs;
        let mut k: usize = 0;
        while k < inputs.len()
            invariant
                k <= inputs@.len(),
                value_map@ == bind_inputs(inputs@.take(k as int), public_inputs@, values),
            decreases inputs@.len() - k,
        {
            proof {
                assert(inputs@.take(k + 1).drop_last() =~= inputs@.take(k as int));
            }
            if k < public_inputs.len() {
                match &inputs[k] {
                    Signal::Input(name) => {
                        value_map.insert(name.clone(), public_inputs[k].clone());
                    },
                    _ => {},
                }
            }
            k += 1;
        }
        proof {
            assert(inputs@.take(inputs@.len() as int) =~= inputs@);
        }
        value_map
    }

    /// Runs the gates on `value_map` and says whether all of them hold. An
    /// equality that fails ends the run with `false`.
    pub fn constraints_satisfied(
        constraints: &[Constraint],
        value_map: &mut NameMap<FieldElement>,
    ) -> (satisfied: bool)
        requires
            match run(constraints@, old(value_map)@).fault {
                Some(fault) => !fault.is_fatal(),
                None => true,
            },
        ensures
            satisfied == (run(constraints@, old(value_map)@).fault is None),
            final(value_map)@ == run(constraints@, old(value_map)@).assignment,
    {
        evaluate(constraints, value_map).is_none()
    }
}

} // verus!
