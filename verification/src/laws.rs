//! What holds of proving and verifying together.
//!
//! Each law is stated over the specification functions that the contracts of
//! [`Prover`](crate::prover::Prover) and [`Verifier`](crate::verification::Verifier)
//! use, so that it applies to whatever those functions return.

use crate::bundle::{revealed_values, ProofView};
use crate::circuit::{
    declares_input, never_written, reads, reads_first, witness_names, writes, Circuit,
};
use crate::commitment::{commitment_digest, lemma_preimage_injective, preimage};
use crate::constraint::{Constraint, Operation};
use crate::engine::{combine, run, step, Assignment, EvalError};
use crate::field_element::FieldElement;
use crate::prover::{opens, proving};
use crate::signal::Signal;
use crate::verification::{bind_inputs, commitments_match, verdict, verifier_seed};
use crate::witness::Witness;
use vstd::arithmetic::div_mod::{lemma_mod_sub_multiples_vanish, lemma_small_mod};
use vstd::prelude::*;

verus! {

/// If the gates hold from `prover`, they hold from every assignment that
/// gives the signals they read, before they write them, the values that
/// `prover` gives them.
proof fn lemma_same_run(gates: Seq<Constraint>, prover: Assignment, verifier: Assignment)
    requires
        run(gates, prover).fault is None,
        forall|name: Seq<char>|
            reads_first(gates, name) && prover.contains_key(name) ==> verifier.contains_key(name)
                && verifier[name] == prover[name],
    ensures
        run(gates, verifier).fault is None,
    decreases gates.len(),
{
    if gates.len() > 0 {
        let gate = gates[0];
        let rest = gates.drop_first();
        assert(reads(gates[0], gate.left.name()) && reads(gates[0], gate.right.name()));
        assert(never_written(gates.take(0), gate.left.name()));
        assert(never_written(gates.take(0), gate.right.name()));
        let next_prover = step(gate, prover)->Ok_0;
        let next_verifier = step(gate, verifier)->Ok_0;
        assert forall|name: Seq<char>|
            reads_first(rest, name) && next_prover.contains_key(name)
            implies next_verifier.contains_key(name) && next_verifier[name]
            == next_prover[name] by {
            if !writes(gate, name) {
                let i = choose|i: int|
                    0 <= i < rest.len() && reads(#[trigger] rest[i], name) && never_written(
                        rest.take(i),
                        name,
                    );
                assert(gates[i + 1] == rest[i]);
                assert forall|j: int| 0 <= j < i + 1 implies !writes(
                    #[trigger] gates.take(i + 1)[j],
                    name,
                ) by {
                    if j > 0 {
                        assert(gates.take(i + 1)[j] == rest.take(i)[j - 1]);
                    }
                }
                assert(reads_first(gates, name));
            }
        }
        lemma_same_run(rest, next_prover, next_verifier);
    }
}

/// The residue of a number below twice the modulus.
proof fn lemma_mod_below_twice(x: int, p: int)
    requires
        0 <= x < 2 * p,
    ensures
        x % p == if x < p {
            x
        } else {
            x - p
        },
{
    if x < p {
        lemma_small_mod(x as nat, p as nat);
    } else {
        lemma_mod_sub_multiples_vanish(x, p);
        lemma_small_mod((x - p) as nat, p as nat);
    }
}

/// Running all gates is running the first `k` and then, if they raise no
/// fault, the others from where the first `k` ended.
proof fn lemma_run_split(gates: Seq<Constraint>, values: Assignment, k: int)
    requires
        0 <= k <= gates.len(),
    ensures
        run(gates, values) == if run(gates.take(k), values).fault is Some {
            run(gates.take(k), values)
        } else {
            run(gates.skip(k), run(gates.take(k), values).assignment)
        },
    decreases gates.len(),
{
    if k == 0 {
        assert(gates.skip(0) =~= gates);
    } else {
        let rest = gates.drop_first();
        assert(gates.take(k).drop_first() =~= rest.take(k - 1));
        assert(rest.skip(k - 1) =~= gates.skip(k));
        match step(gates[0], values) {
            Ok(next) => {
                lemma_run_split(rest, next, k - 1);
            },
            Err(_) => {},
        }
    }
}

/// Gates that do not write `name` leave it as it was.
proof fn lemma_untouched(gates: Seq<Constraint>, values: Assignment, name: Seq<char>)
    requires
        never_written(gates, name),
    ensures
        run(gates, values).assignment.contains_key(name) == values.contains_key(name),
        run(gates, values).assignment[name] == values[name],
    decreases gates.len(),
{
    if gates.len() > 0 {
        let rest = gates.drop_first();
        match step(gates[0], values) {
            Ok(next) => {
                lemma_untouched(rest, next, name);
            },
            Err(_) => {},
        }
    }
}

/// A name that every position of `inputs` binds to `value` is bound to it.
proof fn lemma_bound_input(
    inputs: Seq<Signal>,
    public_inputs: Seq<FieldElement>,
    values: Assignment,
    name: Seq<char>,
    value: FieldElement,
)
    requires
        declares_input(inputs, name),
        forall|i: int|
            0 <= i < inputs.len() && #[trigger] inputs[i] is Input && inputs[i].name() == name ==> i
                < public_inputs.len() && public_inputs[i] == value,
    ensures
        bind_inputs(inputs, public_inputs, values).contains_key(name),
        bind_inputs(inputs, public_inputs, values)[name] == value,
    decreases inputs.len(),
{
    let last = inputs.len() - 1;
    if !(inputs[last] is Input && inputs[last].name() == name) {
        let before = inputs.drop_last();
        let i = choose|i: int|
            0 <= i < inputs.len() && #[trigger] inputs[i] is Input && inputs[i].name() == name;
        assert(before[i] == inputs[i]);
        lemma_bound_input(before, public_inputs, values, name, value);
    }
}

/// A name that `inputs` does not list as an input is left as it was.
proof fn lemma_unbound_name(
    inputs: Seq<Signal>,
    public_inputs: Seq<FieldElement>,
    values: Assignment,
    name: Seq<char>,
)
    requires
        !declares_input(inputs, name),
    ensures
        bind_inputs(inputs, public_inputs, values).contains_key(name) == values.contains_key(name),
        bind_inputs(inputs, public_inputs, values)[name] == values[name],
    decreases inputs.len(),
{
    if inputs.len() > 0 {
        let last = inputs.len() - 1;
        let before = inputs.drop_last();
        lemma_unbound_name(before, public_inputs, values, name);
    }
}

/// A proof is accepted where the verifier starts as the prover did.
///
/// Let proving succeed on `circuit` and `witness`, and let `proof` open the
/// prover's assignment, under whatever blinding factors. Let the verifier
/// start alike: on every signal that the witness assigns and a gate reads
/// before any gate writes it, the assignment that the verifier starts from,
/// the revealed values with `public_inputs` bound over them, holds the
/// witness's value. Then the verification accepts.
///
/// The last condition fails where a gate overwrites a value of the witness
/// that an earlier gate has read: the proof reveals the final value, and the
/// verifier starts from that.
pub proof fn law_same_start_accepted(
    circuit: Circuit,
    witness: Witness,
    public_inputs: Seq<FieldElement>,
    proof: ProofView,
)
    requires
        proving(circuit, witness) is Ok,
        opens(proof, witness_names(circuit.constraints@), proving(circuit, witness)->Ok_0),
        forall|name: Seq<char>|
            reads_first(circuit.constraints@, name) && witness.values@.contains_key(name) ==> {
                let seed = verifier_seed(circuit, public_inputs, proof);
                seed.contains_key(name) && seed[name] == witness.values@[name]
            },
    ensures
        verdict(circuit, public_inputs, proof) == Ok::<bool, EvalError>(true),
{
    let names = witness_names(circuit.constraints@);
    lemma_same_run(
        circuit.constraints@,
        witness.values@,
        verifier_seed(circuit, public_inputs, proof),
    );
}

/// An honest proof is accepted under the public inputs of the witness.
///
/// Let proving succeed on `circuit` and `witness`, and let `proof` open the
/// prover's assignment, under whatever blinding factors. Let `public_inputs`
/// give every declared input that the witness assigns the witness's value.
/// And let every signal that the witness assigns and a gate reads before
/// any gate writes it be a declared input, or a private signal that no gate
/// writes. Then the verification accepts.
///
/// The last condition keeps out the circuits on which an honest proof fails:
/// the verifier has no value for a signal that is neither revealed nor
/// bound, and it starts from the final value of a private signal, not from
/// the one that the witness gave it.
pub proof fn law_honest_proof_accepted(
    circuit: Circuit,
    witness: Witness,
    public_inputs: Seq<FieldElement>,
    proof: ProofView,
)
    requires
        proving(circuit, witness) is Ok,
        opens(proof, witness_names(circuit.constraints@), proving(circuit, witness)->Ok_0),
        forall|i: int|
            0 <= i < circuit.inputs@.len() && #[trigger] circuit.inputs@[i] is Input
                && witness.values@.contains_key(circuit.inputs@[i].name()) ==> i
                < public_inputs.len() && public_inputs[i]
                == witness.values@[circuit.inputs@[i].name()],
        forall|name: Seq<char>|
            reads_first(circuit.constraints@, name) && witness.values@.contains_key(name)
                ==> declares_input(circuit.inputs@, name) || (witness_names(
                circuit.constraints@,
            ).contains(name) && never_written(circuit.constraints@, name)),
    ensures
        verdict(circuit, public_inputs, proof) == Ok::<bool, EvalError>(true),
{
    let gates = circuit.constraints@;
    let names = witness_names(gates);
    let given = witness.values@;
    let revealed = revealed_values(proof.openings);
    let seed = verifier_seed(circuit, public_inputs, proof);
    assert forall|name: Seq<char>|
        reads_first(gates, name) && given.contains_key(name) implies seed.contains_key(name)
        && seed[name] == given[name] by {
        if declares_input(circuit.inputs@, name) {
            lemma_bound_input(circuit.inputs@, public_inputs, revealed, name, given[name]);
        } else {
            lemma_unbound_name(circuit.inputs@, public_inputs, revealed, name);
            lemma_untouched(gates, given, name);
        }
    }
    law_same_start_accepted(circuit, witness, public_inputs, proof);
}

/// An equality gate rejects a difference in one of its operands.
///
/// Let gate `k` of the circuit be an equality, and let `proof` be accepted
/// under `accepted_inputs`. Let other public inputs lead to a value of one
/// operand, when evaluation comes to that gate, which differs from the one
/// under `accepted_inputs`, and to the same value of the other operand. Then
/// the proof is not accepted under them: where that verification has a
/// verdict, the verdict is `false`.
///
/// Whether a changed public input comes to the equality as a changed operand
/// depends on the gates between. [`law_sum_carries_difference`] carries it
/// through sums and differences. A product does not carry it in general: a
/// product with zero forgets its other factor.
pub proof fn law_equality_detects_difference(
    circuit: Circuit,
    accepted_inputs: Seq<FieldElement>,
    other_inputs: Seq<FieldElement>,
    proof: ProofView,
    k: int,
)
    requires
        0 <= k < circuit.constraints@.len(),
        circuit.constraints@[k].operation is Eq,
        verdict(circuit, accepted_inputs, proof) == Ok::<bool, EvalError>(true),
        ({
            let left = circuit.constraints@[k].left.name();
            let right = circuit.constraints@[k].right.name();
            let earlier = circuit.constraints@.take(k);
            let accepted = run(earlier, verifier_seed(circuit, accepted_inputs, proof)).assignment;
            let other = run(earlier, verifier_seed(circuit, other_inputs, proof)).assignment;
            (other[left].value != accepted[left].value) != (other[right].value
                != accepted[right].value)
        }),
    ensures
        verdict(circuit, other_inputs, proof) != Ok::<bool, EvalError>(true),
{
    let gates = circuit.constraints@;
    assert(gates.skip(k)[0] == gates[k]);
    lemma_run_split(gates, verifier_seed(circuit, accepted_inputs, proof), k);
    lemma_run_split(gates, verifier_seed(circuit, other_inputs, proof), k);
}

/// An equality gate binds the public inputs that it reads.
///
/// Let gate `k` of the circuit be an equality whose operands no earlier gate
/// writes, and let `proof` be accepted under `accepted_inputs`. Then it is not
/// accepted under public inputs that change the value which one of its
/// operands starts with and keep the value of the other.
pub proof fn law_equality_binds_public_input(
    circuit: Circuit,
    accepted_inputs: Seq<FieldElement>,
    other_inputs: Seq<FieldElement>,
    proof: ProofView,
    k: int,
)
    requires
        0 <= k < circuit.constraints@.len(),
        circuit.constraints@[k].operation is Eq,
        never_written(circuit.constraints@.take(k), circuit.constraints@[k].left.name()),
        never_written(circuit.constraints@.take(k), circuit.constraints@[k].right.name()),
        verdict(circuit, accepted_inputs, proof) == Ok::<bool, EvalError>(true),
        ({
            let left = circuit.constraints@[k].left.name();
            let right = circuit.constraints@[k].right.name();
            let accepted = verifier_seed(circuit, accepted_inputs, proof);
            let other = verifier_seed(circuit, other_inputs, proof);
            (other[left].value != accepted[left].value) != (other[right].value
                != accepted[right].value)
        }),
    ensures
        verdict(circuit, other_inputs, proof) != Ok::<bool, EvalError>(true),
{
    let gate = circuit.constraints@[k];
    let earlier = circuit.constraints@.take(k);
    let accepted = verifier_seed(circuit, accepted_inputs, proof);
    let other = verifier_seed(circuit, other_inputs, proof);
    lemma_untouched(earlier, accepted, gate.left.name());
    lemma_untouched(earlier, accepted, gate.right.name());
    lemma_untouched(earlier, other, gate.left.name());
    lemma_untouched(earlier, other, gate.right.name());
    law_equality_detects_difference(circuit, accepted_inputs, other_inputs, proof, k);
}

/// A sum or a difference changes with either operand: over one prime, two
/// reduced values that differ give different results with the same reduced
/// third value, on either side.
pub proof fn law_sum_carries_difference(
    operation: Operation,
    value: FieldElement,
    other_value: FieldElement,
    with: FieldElement,
)
    requires
        operation is Add || operation is Sub,
        value.wf() && other_value.wf() && with.wf(),
        value.prime == with.prime && other_value.prime == with.prime,
        value.value != other_value.value,
    ensures
        combine(operation, value, with)->0.value != combine(operation, other_value, with)->0.value,
        combine(operation, with, value)->0.value != combine(operation, with, other_value)->0.value,
{
    let p = with.prime as int;
    let a = value.value as int;
    let b = other_value.value as int;
    let c = with.value as int;
    lemma_mod_below_twice(a + c, p);
    lemma_mod_below_twice(b + c, p);
    lemma_mod_below_twice(a + p - c, p);
    lemma_mod_below_twice(b + p - c, p);
    lemma_mod_below_twice(c + p - a, p);
    lemma_mod_below_twice(c + p - b, p);
}

/// A proof with a revealed pair that its commitment does not open is
/// rejected, whatever the circuit and the public inputs.
///
/// This is what tampering with a revealed value or blinding factor comes to,
/// or putting another value in place of a revealed one while the stored
/// commitment stays: by [`law_opening_determines_preimage`] the changed pair
/// is hashed from other bytes, and the proof fails unless those bytes have
/// the very digest that was stored.
pub proof fn law_unopened_commitment_rejected(
    circuit: Circuit,
    public_inputs: Seq<FieldElement>,
    proof: ProofView,
    name: Seq<char>,
)
    requires
        proof.openings.contains_key(name),
        !proof.digests.contains_key(name) || proof.digests[name] != commitment_digest(
            proof.openings[name].0,
            proof.openings[name].1,
        ),
    ensures
        verdict(circuit, public_inputs, proof) == Ok::<bool, EvalError>(false),
{
}

/// Two revealed pairs are hashed from the same bytes only if they agree in
/// the value, in the prime of the value, and in the blinding factor's value.
pub proof fn law_opening_determines_preimage(
    value: FieldElement,
    blinding: FieldElement,
    other_value: FieldElement,
    other_blinding: FieldElement,
)
    ensures
        preimage(value.value, blinding.value, value.prime) == preimage(
            other_value.value,
            other_blinding.value,
            other_value.prime,
        ) <==> value == other_value && blinding.value == other_blinding.value,
{
    lemma_preimage_injective(
        value.value,
        blinding.value,
        value.prime,
        other_value.value,
        other_blinding.value,
        other_value.prime,
    );
}

/// Committing is deterministic: the digest depends on nothing but the value,
/// the blinding factor's value and the prime of the value.
pub proof fn law_commitment_deterministic(
    value: FieldElement,
    blinding: FieldElement,
    other_value: FieldElement,
    other_blinding: FieldElement,
)
    requires
        value.value == other_value.value,
        value.prime == other_value.prime,
        blinding.value == other_blinding.value,
    ensures
        commitment_digest(value, blinding) == commitment_digest(other_value, other_blinding),
{
}

} // verus!
