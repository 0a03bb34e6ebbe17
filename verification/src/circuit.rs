//! The computation whose satisfaction is proved.

use crate::constraint::Constraint;
use crate::signal::Signal;
use vstd::prelude::*;

verus! {

/// An ordered declaration of public inputs, outputs and gates.
///
/// The order of `inputs` is significant: the `i`-th public input of a
/// verification is bound to the `i`-th entry. The gates are evaluated strictly
/// in order, and a gate may read what an earlier one produced. `outputs` is
/// informational and is not checked against a proof.
#[derive(Clone, Debug)]
pub struct Circuit {
    /// The public inputs, in the order in which a verifier supplies them.
    pub inputs: Vec<Signal>,
    /// The declared results.
    pub outputs: Vec<Signal>,
    /// The gates, in the order of their evaluation.
    pub constraints: Vec<Constraint>,
}

impl Circuit {
    /// A circuit of the given parts, in the given order.
    pub fn new(inputs: Vec<Signal>, outputs: Vec<Signal>, constraints: Vec<Constraint>) -> (circuit:
        Self)
        ensures
            circuit.inputs == inputs,
            circuit.outputs == outputs,
            circuit.constraints == constraints,
    {
        Circuit { inputs, outputs, constraints }
    }
}

/// Whether `gate` has the private signal called `name` as an operand or as
/// its output.
pub open spec fn names_witness(gate: Constraint, name: Seq<char>) -> bool {
    ||| gate.left is Witness && gate.left.name() == name
    ||| gate.right is Witness && gate.right.name() == name
    ||| gate.output is Witness && gate.output.name() == name
}

/// Whether `gate` stores a value under `name`.
pub open spec fn writes(gate: Constraint, name: Seq<char>) -> bool {
    !(gate.operation is Eq) && gate.output.writable() && gate.output.name() == name
}

/// Whether none of `gates` stores a value under `name`.
pub open spec fn never_written(gates: Seq<Constraint>, name: Seq<char>) -> bool {
    forall|j: int| 0 <= j < gates.len() ==> !writes(#[trigger] gates[j], name)
}

/// Whether `gate` has the signal called `name` as an operand.
pub open spec fn reads(gate: Constraint, name: Seq<char>) -> bool {
    gate.left.name() == name || gate.right.name() == name
}

/// Whether one of `gates` reads the signal called `name` before any of them
/// writes it: the value that is read is then the one that evaluation
/// started with.
pub open spec fn reads_first(gates: Seq<Constraint>, name: Seq<char>) -> bool {
    exists|i: int|
        0 <= i < gates.len() && reads(#[trigger] gates[i], name) && never_written(
            gates.take(i),
            name,
        )
}

/// Whether `inputs` lists an input signal called `name`.
pub open spec fn declares_input(inputs: Seq<Signal>, name: Seq<char>) -> bool {
    exists|i: int|
        0 <= i < inputs.len() && #[trigger] inputs[i] is Input && inputs[i].name() == name
}

/// `names`, with the name of `signal` added at the end if `signal` is a
/// private signal that `names` does not hold yet.
pub open spec fn note_witness(names: Seq<Seq<char>>, signal: Signal) -> Seq<Seq<char>> {
    if signal is Witness && !names.contains(signal.name()) {
        names.push(signal.name())
    } else {
        names
    }
}

/// The names of the private signals of `gates`, each once, in the order in
/// which they first appear: gate by gate, and within a gate left operand,
/// right operand, output.
pub open spec fn witness_names(gates: Seq<Constraint>) -> Seq<Seq<char>>
    decreases gates.len(),
{
    if gates.len() == 0 {
        Seq::empty()
    } else {
        let gate = gates.last();
        note_witness(
            note_witness(note_witness(witness_names(gates.drop_last()), gate.left), gate.right),
            gate.output,
        )
    }
}

/// Adding a name keeps a list free of duplicates and adds no name but that
/// of the signal.
proof fn lemma_note_witness(names: Seq<Seq<char>>, signal: Signal)
    requires
        names.no_duplicates(),
    ensures
        note_witness(names, signal).no_duplicates(),
        forall|name: Seq<char>|
            note_witness(names, signal).contains(name) <==> names.contains(name) || (signal
                is Witness && signal.name() == name),
{
    let noted = note_witness(names, signal);
    if signal is Witness && !names.contains(signal.name()) {
        assert(noted[names.len() as int] == signal.name());
        assert forall|name: Seq<char>| names.contains(name) implies noted.contains(name) by {
            let j = names.index_of(name);
            assert(noted[j] == name);
        }
    }
}

/// [`witness_names`] lists every private signal of the gates, and each once.
pub proof fn lemma_witness_names(gates: Seq<Constraint>)
    ensures
        witness_names(gates).no_duplicates(),
        forall|name: Seq<char>|
            witness_names(gates).contains(name) <==> exists|i: int|
                0 <= i < gates.len() && names_witness(#[trigger] gates[i], name),
    decreases gates.len(),
{
    if gates.len() > 0 {
        let gate = gates.last();
        let before = gates.drop_last();
        lemma_witness_names(before);
        let a = witness_names(before);
        let b = note_witness(a, gate.left);
        let c = note_witness(b, gate.right);
        lemma_note_witness(a, gate.left);
        lemma_note_witness(b, gate.right);
        lemma_note_witness(c, gate.output);
        assert forall|name: Seq<char>| witness_names(gates).contains(name) implies exists|i: int|
            0 <= i < gates.len() && names_witness(#[trigger] gates[i], name) by {
            if a.contains(name) {
                let i = choose|i: int|
                    0 <= i < before.len() && names_witness(#[trigger] before[i], name);
                assert(gates[i] == before[i]);
            } else {
                assert(names_witness(gates[gates.len() - 1], name));
            }
        }
        assert forall|name: Seq<char>|
            (exists|i: int| 0 <= i < gates.len() && names_witness(#[trigger] gates[i], name))
            implies witness_names(gates).contains(name) by {
            let i = choose|i: int| 0 <= i < gates.len() && names_witness(#[trigger] gates[i], name);
            if i < before.len() {
                assert(names_witness(before[i], name));
            }
            assert(b.contains(name) <==> a.contains(name) || (gate.left is Witness
                && gate.left.name() == name));
            assert(c.contains(name) <==> b.contains(name) || (gate.right is Witness
                && gate.right.name() == name));
        }
    }
}

} // verus!
