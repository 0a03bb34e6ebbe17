//! Producing a proof from a circuit and a witness.

use crate::bundle::{digests, Proof, ProofView};
use crate::circuit::{lemma_witness_names, note_witness, witness_names, Circuit};
use crate::commitment::{commitment_digest, Commitment};
use crate::engine::{evaluate, run, Assignment, EvalError};
use crate::field_element::FieldElement;
use crate::name_map::NameMap;
use crate::signal::Signal;
use crate::witness::Witness;
use rand::Rng;
use vstd::prelude::*;

verus! {

/// Draws one `u128` from the thread-local generator of `rand`, by
/// `rand::rng().random()`.
///
/// Trusted, and nothing is claimed of the value that comes back: callers are
/// verified for every `u128`. The generator aborts where the operating
/// system gives it no entropy to start from.
#[verifier::external_body]
fn random_u128() -> u128 {
    rand::rng().random()
}

/// The first reason, going through `names` in order, why the prover cannot
/// commit to them from `values`: a name without a value, or a value over the
/// modulus zero, for which no blinding factor exists.
pub open spec fn commit_fault(names: Seq<Seq<char>>, values: Assignment) -> Option<EvalError>
    decreases names.len(),
{
    if names.len() == 0 {
        None
    } else if !values.contains_key(names[0]) {
        Some(EvalError::MissingValue)
    } else if values[names[0]].prime == 0 {
        Some(EvalError::ZeroPrime)
    } else {
        commit_fault(names.drop_first(), values)
    }
}

/// What proving comes to, before any blinding factor is drawn: the complete
/// assignment that the gates produce from the witness, or the first fault,
/// in the gates or in what is to be committed.
pub open spec fn proving(circuit: Circuit, witness: Witness) -> Result<Assignment, EvalError> {
    let evaluation = run(circuit.constraints@, witness.values@);
    match evaluation.fault {
        Some(fault) => Err(fault),
        None => match commit_fault(witness_names(circuit.constraints@), evaluation.assignment) {
            Some(fault) => Err(fault),
            None => Ok(evaluation.assignment),
        },
    }
}

/// `proof` opens `values` on exactly `names`: for each of them it reveals the
/// value that `values` gives it, with a reduced blinding factor over the same
/// prime, and holds the digest of that pair.
pub open spec fn opens(proof: ProofView, names: Seq<Seq<char>>, values: Assignment) -> bool {
    &&& proof.openings.dom() == names.to_set()
    &&& proof.digests.dom() == names.to_set()
    &&& forall|name: Seq<char>| #[trigger]
        names.contains(name) ==> {
            let (value, blinding) = proof.openings[name];
            &&& value == values[name]
            &&& blinding.prime == value.prime
            &&& blinding.wf()
            &&& proof.digests[name] == commitment_digest(value, blinding)
        }
}

/// [`opens`], with the blinding factor of the `i`-th name being the `i`-th
/// draw, reduced.
pub open spec fn opens_with(
    proof: ProofView,
    names: Seq<Seq<char>>,
    values: Assignment,
    draws: Seq<u128>,
) -> bool {
    &&& opens(proof, names, values)
    &&& forall|i: int|
        0 <= i < names.len() ==> (#[trigger] proof.openings[names[i]]).1.value == draws[i]
            % values[names[i]].prime
}

/// The party that produces proofs. It keeps no state.
#[derive(Clone, Debug)]
pub struct Prover;

impl Prover {
    /// Evaluates `circuit` on `witness`, commits to every private signal
    /// under a freshly drawn blinding factor, and returns the commitments
    /// with the pairs that open them.
    ///
    /// It may be called only where proving succeeds: the witness is complete
    /// and satisfies the circuit. [`Prover::try_prove`] takes any input.
    pub fn prove(circuit: &Circuit, witness: &Witness) -> (proof: Proof)
        requires
            proving(*circuit, *witness) is Ok,
        ensures
            opens(proof@, witness_names(circuit.constraints@), proving(*circuit, *witness)->Ok_0),
    {
        match Self::try_prove(circuit, witness) {
            Ok(proof) => proof,
            Err(_) => vstd::pervasive::unreached(),
        }
    }

    /// [`Prover::prove`] for any input: the proof, or the fault that stops
    /// the prover. No partial proof is ever returned.
    pub fn try_prove(circuit: &Circuit, witness: &Witness) -> (outcome: Result<Proof, EvalError>)
        ensures
            match outcome {
                Ok(proof) => proving(*circuit, *witness) is Ok && opens(
                    proof@,
                    witness_names(circuit.constraints@),
                    proving(*circuit, *witness)->Ok_0,
                ),
                Err(fault) => proving(*circuit, *witness) == Err::<Assignment, EvalError>(fault),
            },
    {
        let values = match Self::assign(circuit, witness) {
            Ok(values) => values,
            Err(fault) => {
                return Err(fault);
            },
        };
        let names = Self::collect_witness_names(circuit);
        let mut draws: Vec<u128> = Vec::new();
        while draws.len() < names.len()
            invariant
                draws@.len() <= names@.len(),
            decreases names@.len() - draws@.len(),
        {
            draws.push(random_u128());
        }
        Self::commit(&names, &values, draws.as_slice())
    }

    /// Proves with the given draws in place of fresh randomness: the
    /// blinding factor of the `i`-th private signal, in the order of
    /// [`witness_names`], is the `i`-th draw reduced modulo the prime of the
    /// signal's value.
    pub fn try_prove_with(circuit: &Circuit, witness: &Witness, draws: &[u128]) -> (outcome: Result<
        Proof,
        EvalError,
    >)
        requires
            draws@.len() == witness_names(circuit.constraints@).len(),
        ensures
            match outcome {
                Ok(proof) => proving(*circuit, *witness) is Ok && opens_with(
                    proof@,
                    witness_names(circuit.constraints@),
                    proving(*circuit, *witness)->Ok_0,
                    draws@,
                ),
                Err(fault) => proving(*circuit, *witness) == Err::<Assignment, EvalError>(fault),
            },
    {
        let values = match Self::assign(circuit, witness) {
            Ok(values) => values,
            Err(fault) => {
                return Err(fault);
            },
        };
        let names = Self::collect_witness_names(circuit);
        Self::commit(&names, &values, draws)
    }

    /// Runs the gates of `circuit` on a copy of the witness: the complete
    /// assignment, or the first fault.
    fn assign(circuit: &Circuit, witness: &Witness) -> (outcome: Result<
        NameMap<FieldElement>,
        EvalError,
    >)
        ensures
            match outcome {
                Ok(values) => run(circuit.constraints@, witness.values@).fault is None && values@
                    == run(circuit.constraints@, witness.values@).assignment,
                Err(fault) => run(circuit.constraints@, witness.values@).fault == Some(fault),
            },
    {
        let mut values = witness.values.clone();
        assert(values.values() =~= witness.values.values());
        match evaluate(circuit.constraints.as_slice(), &mut values) {
            Some(fault) => Err(fault),
            None => Ok(values),
        }
    }

    /// Commits to the value of each of `names`, in order, under the draw of
    /// the same position.
    fn commit(names: &Vec<String>, values: &NameMap<FieldElement>, draws: &[u128]) -> (outcome:
        Result<Proof, EvalError>)
        requires
            names.deep_view().no_duplicates(),
            draws@.len() == names@.len(),
        ensures
            match outcome {
                Ok(proof) => commit_fault(names.deep_view(), values@) is None && opens_with(
                    proof@,
                    names.deep_view(),
                    values@,
                    draws@,
                ),
                Err(fault) => commit_fault(names.deep_view(), values@) == Some(fault),
            },
    {
        let ghost all = names.deep_view();
        let mut commitments: NameMap<Commitment> = NameMap::new();
        let mut revealed_witness: NameMap<(FieldElement, FieldElement)> = NameMap::new();
        let mut i: usize = 0;
        proof {
            assert(all.skip(0) =~= all);
            assert(all.take(0).to_set() =~= Set::<Seq<char>>::empty());
            assert(digests(commitments@).dom() =~= Set::<Seq<char>>::empty());
        }
        while i < names.len()
            invariant
                i <= names@.len(),
                all == names.deep_view(),
                all.no_duplicates(),
                draws@.len() == names@.len(),
                commit_fault(all, values@) == commit_fault(all.skip(i as int), values@),
                opens_with(
                    ProofView {
                        digests: digests(commitments@),
                        openings: revealed_witness@,
                    },
                    all.take(i as int),
                    values@,
                    draws@,
                ),
            decreases names@.len() - i,
        {
            let name = &names[i];
            proof {
                let rest = all.skip(i as int);
                assert(rest.drop_first() =~= all.skip(i + 1));
            }
            let value = match values.get(name) {
                Some(value) => value,
                None => {
                    return Err(EvalError::MissingValue);
                },
            };
            if value.prime == 0 {
                return Err(EvalError::ZeroPrime);
            }
            let blinding = FieldElement::new(draws[i], value.prime);
            let commitment = Commitment::new(value, &blinding);
            let ghost before = ProofView {
                digests: digests(commitments@),
                openings: revealed_witness@,
            };
            let ghost digest = commitment.committed_hash@;
            commitments.insert(name.clone(), commitment);
            revealed_witness.insert(name.clone(), (value.clone(), blinding));
            i += 1;
            proof {
                let after = ProofView {
                    digests: digests(commitments@),
                    openings: revealed_witness@,
                };
                let key = name@;
                let done = all.take(i as int);
                let earlier = all.take(i - 1);
                assert(after.digests =~= before.digests.insert(key, digest));
                assert(done[i - 1] == key);
                assert forall|k: Seq<char>| done.contains(k) <==> earlier.contains(k) || k
                    == key by {
                    if earlier.contains(k) {
                        let j = earlier.index_of(k);
                        assert(done[j] == k);
                    }
                }
                assert(done.to_set() =~= earlier.to_set().insert(key));
            }
        }
        assert(all.take(i as int) =~= all);
        Ok(Proof { commitments, revealed_witness })
    }

    /// The names of the private signals of `circuit`, each once, in the
    /// order in which they first appear.
    pub fn collect_witness_names(circuit: &Circuit) -> (names: Vec<String>)
        ensures
            names.deep_view() == witness_names(circuit.constraints@),
            names.deep_view().no_duplicates(),
    {
        let mut names: Vec<String> = Vec::new();
        let mut i: usize = 0;
        while i < circuit.constraints.len()
            invariant
                i <= circuit.constraints@.len(),
                names.deep_view() == witness_names(circuit.constraints@.take(i as int)),
            decreases circuit.constraints@.len() - i,
        {
            let gate = &circuit.constraints[i];
            proof {
                let next = circuit.constraints@.take(i + 1);
                assert(next.drop_last() =~= circuit.constraints@.take(i as int));
            }
            Self::note(&mut names, &gate.left);
            Self::note(&mut names, &gate.right);
            Self::note(&mut names, &gate.output);
            i += 1;
        }
        proof {
            assert(circuit.constraints@.take(i as int) =~= circuit.constraints@);
            lemma_witness_names(circuit.constraints@);
        }
        names
    }

    /// Adds the name of `signal` to `names` if it is a private signal that is
    /// not listed yet.
    fn note(names: &mut Vec<String>, signal: &Signal)
        ensures
            final(names).deep_view() == note_witness(old(names).deep_view(), *signal),
    {
        match signal {
            Signal::Witness(name) => {
                if !Self::lists(names, name) {
                    names.push(name.clone());
                }
            },
            _ => {},
        }
    }

    /// Whether `names` holds `name`.
    fn lists(names: &Vec<String>, name: &String) -> (found: bool)
        ensures
            found == names.deep_view().contains(name@),
    {
        let mut i: usize = 0;
        while i < names.len()
            invariant
                i <= names@.len(),
                forall|j: int| 0 <= j < i ==> names.deep_view()[j] != name@,
            decreases names@.len() - i,
        {
            if names[i] == *name {
                assert(names.deep_view()[i as int] == name@);
                return true;
            }
            i += 1;
        }
        false
    }
}

} // verus!
