use ghayb::{
    Circuit, Commitment, Constraint, EvalError, FieldElement, NameMap, Operation, Proof, Prover,
    Signal, Verifier, Witness,
};

const PRIME: u128 = 7489;

fn input(name: &str) -> Signal {
    Signal::Input(name.to_string())
}

fn private(name: &str) -> Signal {
    Signal::Witness(name.to_string())
}

fn output(name: &str) -> Signal {
    Signal::Output(name.to_string())
}

fn gate(left: Signal, operation: Operation, right: Signal, output: Signal) -> Constraint {
    Constraint { left, right, output, operation }
}

fn witness_of(values: &[(&str, u128)]) -> Witness {
    let mut map = NameMap::new();
    for (name, value) in values {
        map.insert(name.to_string(), FieldElement::new(*value, PRIME));
    }
    Witness::new(map)
}

fn elements(values: &[u128]) -> Vec<FieldElement> {
    values.iter().map(|value| FieldElement::new(*value, PRIME)).collect()
}

fn sum_circuit() -> Circuit {
    Circuit::new(
        vec![input("x")],
        vec![output("out")],
        vec![gate(private("w"), Operation::Add, input("x"), output("out"))],
    )
}

fn chained_circuit() -> Circuit {
    Circuit::new(
        vec![input("x")],
        vec![output("out")],
        vec![
            gate(private("w1"), Operation::Add, private("w2"), private("tmp1")),
            gate(private("tmp1"), Operation::Mul, input("x"), private("tmp2")),
            gate(private("tmp2"), Operation::Sub, private("w3"), output("out")),
        ],
    )
}

/// `w + x -> sum`, then `sum == y`: the equality ties the public `y` to the
/// private `w` and the public `x`.
fn checked_sum_circuit() -> Circuit {
    Circuit::new(
        vec![input("x"), input("y")],
        vec![],
        vec![
            gate(private("w"), Operation::Add, input("x"), private("sum")),
            gate(private("sum"), Operation::Eq, input("y"), output("unused")),
        ],
    )
}

fn sum_proof() -> Proof {
    Prover::try_prove_with(&sum_circuit(), &witness_of(&[("w", 5), ("x", 10)]), &[42]).unwrap()
}

#[test]
fn a_sum_is_accepted_under_the_proving_input() {
    let circuit = sum_circuit();
    let proof = Prover::prove(&circuit, &witness_of(&[("w", 5), ("x", 10)]));
    assert!(Verifier::verify(&circuit, &elements(&[10]), &proof));
    assert_eq!(Verifier::try_verify(&circuit, &elements(&[10]), &proof), Ok(true));
}

#[test]
fn a_sum_without_an_equality_does_not_bind_its_input() {
    // The output is recomputed, not compared with anything, so that another
    // public input is accepted as well.
    let circuit = sum_circuit();
    let proof = Prover::prove(&circuit, &witness_of(&[("w", 5), ("x", 10)]));
    assert!(Verifier::verify(&circuit, &elements(&[11]), &proof));
}

#[test]
fn a_chain_is_accepted_under_the_proving_input() {
    let circuit = chained_circuit();
    let proof = Prover::prove(&circuit, &witness_of(&[("w1", 2), ("w2", 3), ("x", 4), ("w3", 10)]));
    assert!(Verifier::verify(&circuit, &elements(&[4]), &proof));
}

#[test]
fn a_chain_without_an_equality_does_not_bind_its_input() {
    let circuit = chained_circuit();
    let proof = Prover::prove(&circuit, &witness_of(&[("w1", 2), ("w2", 3), ("x", 4), ("w3", 10)]));
    assert!(Verifier::verify(&circuit, &elements(&[5]), &proof));
}

#[test]
fn an_equality_binds_the_public_inputs_it_reads() {
    let circuit = checked_sum_circuit();
    let proof = Prover::prove(&circuit, &witness_of(&[("w", 5), ("x", 10), ("y", 15)]));
    assert!(Verifier::verify(&circuit, &elements(&[10, 15]), &proof));
    assert!(!Verifier::verify(&circuit, &elements(&[10, 16]), &proof));
    assert!(!Verifier::verify(&circuit, &elements(&[11, 15]), &proof));
    assert_eq!(Verifier::try_verify(&circuit, &elements(&[10, 16]), &proof), Ok(false));
    assert!(Verifier::verify(&circuit, &elements(&[10 + PRIME, 15]), &proof));
}

#[test]
fn an_input_behind_a_product_with_zero_is_not_bound() {
    let circuit = Circuit::new(
        vec![input("x")],
        vec![],
        vec![
            gate(input("x"), Operation::Mul, private("zero"), private("product")),
            gate(private("product"), Operation::Eq, private("zero"), output("unused")),
        ],
    );
    let proof = Prover::prove(&circuit, &witness_of(&[("x", 3), ("zero", 0)]));
    assert!(Verifier::verify(&circuit, &elements(&[3]), &proof));
    assert!(Verifier::verify(&circuit, &elements(&[4]), &proof));
}

#[test]
fn a_changed_revealed_value_is_rejected() {
    let circuit = sum_circuit();
    let mut proof = sum_proof();
    proof.revealed_witness.insert(
        "w".to_string(),
        (FieldElement::new(6, PRIME), FieldElement::new(42, PRIME)),
    );
    assert!(!Verifier::verify(&circuit, &elements(&[10]), &proof));
    assert!(!Verifier::check_commitments(&proof.commitments, &proof.revealed_witness));
}

#[test]
fn a_changed_blinding_factor_is_rejected() {
    let circuit = sum_circuit();
    let mut proof = sum_proof();
    proof.revealed_witness.insert(
        "w".to_string(),
        (FieldElement::new(5, PRIME), FieldElement::new(43, PRIME)),
    );
    assert!(!Verifier::verify(&circuit, &elements(&[10]), &proof));
}

#[test]
fn any_changed_byte_of_a_revealed_pair_is_rejected() {
    let circuit = sum_circuit();
    for byte in 0..16 {
        let flip = 1u128 << (8 * byte);
        let mut changed_value = sum_proof();
        changed_value.revealed_witness.insert(
            "w".to_string(),
            (FieldElement { value: 5 ^ flip, prime: PRIME }, FieldElement::new(42, PRIME)),
        );
        assert!(!Verifier::check_commitments(
            &changed_value.commitments,
            &changed_value.revealed_witness
        ));
        assert_eq!(Verifier::try_verify(&circuit, &elements(&[10]), &changed_value), Ok(false));

        let mut changed_blinding = sum_proof();
        changed_blinding.revealed_witness.insert(
            "w".to_string(),
            (FieldElement::new(5, PRIME), FieldElement { value: 42 ^ flip, prime: PRIME }),
        );
        assert_eq!(Verifier::try_verify(&circuit, &elements(&[10]), &changed_blinding), Ok(false));

        let mut changed_prime = sum_proof();
        changed_prime.revealed_witness.insert(
            "w".to_string(),
            (FieldElement { value: 5, prime: PRIME ^ flip }, FieldElement::new(42, PRIME)),
        );
        assert_eq!(Verifier::try_verify(&circuit, &elements(&[10]), &changed_prime), Ok(false));
    }
}

#[test]
fn the_prime_of_a_blinding_factor_is_not_committed_to() {
    // Only the value of a blinding factor is hashed, so that a change of the
    // prime it carries goes unnoticed. No gate reads a blinding factor.
    let circuit = sum_circuit();
    let mut proof = sum_proof();
    proof.revealed_witness.insert(
        "w".to_string(),
        (FieldElement::new(5, PRIME), FieldElement { value: 42, prime: 99 }),
    );
    assert!(Verifier::verify(&circuit, &elements(&[10]), &proof));
}

#[test]
fn a_changed_commitment_is_rejected() {
    let circuit = sum_circuit();
    let mut proof = sum_proof();
    let mut digest = proof.commitments.get(&"w".to_string()).unwrap().committed_hash.clone();
    digest[0] ^= 0x80;
    proof.commitments.insert("w".to_string(), Commitment { committed_hash: digest });
    assert!(!Verifier::verify(&circuit, &elements(&[10]), &proof));

    let mut truncated = sum_proof();
    truncated.commitments.insert("w".to_string(), Commitment { committed_hash: vec![0xd6] });
    assert!(!Verifier::verify(&circuit, &elements(&[10]), &truncated));
}

#[test]
fn a_revealed_pair_without_commitment_is_rejected() {
    let circuit = sum_circuit();
    let honest = sum_proof();
    let mut commitments = NameMap::new();
    commitments.insert(
        "v".to_string(),
        honest.commitments.get(&"w".to_string()).unwrap().clone(),
    );
    let renamed = Proof { commitments, revealed_witness: honest.revealed_witness.clone() };
    assert!(!Verifier::verify(&circuit, &elements(&[10]), &renamed));
}

#[test]
fn different_numbers_of_commitments_and_pairs_are_rejected() {
    let circuit = sum_circuit();
    let mut extra_commitment = sum_proof();
    extra_commitment.commitments.insert(
        "v".to_string(),
        Commitment::new(&FieldElement::new(1, PRIME), &FieldElement::new(1, PRIME)),
    );
    assert!(!Verifier::verify(&circuit, &elements(&[10]), &extra_commitment));

    let no_commitment = Proof {
        commitments: NameMap::new(),
        revealed_witness: sum_proof().revealed_witness,
    };
    assert!(!Verifier::verify(&circuit, &elements(&[10]), &no_commitment));

    let no_pair = Proof { commitments: sum_proof().commitments, revealed_witness: NameMap::new() };
    assert_eq!(Verifier::try_verify(&circuit, &elements(&[10]), &no_pair), Ok(false));
}

#[test]
fn a_consistent_proof_of_another_value_is_accepted_without_an_equality() {
    // Commitments detect a change after proving. They do not tie a proof to
    // one witness: whoever makes the commitments may commit to any value.
    let circuit = sum_circuit();
    let mut commitments = NameMap::new();
    let mut revealed_witness = NameMap::new();
    let value = FieldElement::new(6, PRIME);
    let blinding = FieldElement::new(1, PRIME);
    commitments.insert("w".to_string(), Commitment::new(&value, &blinding));
    revealed_witness.insert("w".to_string(), (value, blinding));
    let proof = Proof { commitments, revealed_witness };
    assert!(Verifier::verify(&circuit, &elements(&[10]), &proof));
}

#[test]
fn inputs_are_bound_by_position() {
    let circuit = Circuit::new(
        vec![input("x"), input("y")],
        vec![],
        vec![
            gate(input("x"), Operation::Sub, input("y"), private("difference")),
            gate(private("difference"), Operation::Eq, private("w"), output("unused")),
        ],
    );
    let proof = Prover::prove(&circuit, &witness_of(&[("x", 9), ("y", 4), ("w", 5)]));
    assert!(Verifier::verify(&circuit, &elements(&[9, 4]), &proof));
    assert!(!Verifier::verify(&circuit, &elements(&[4, 9]), &proof));
    assert!(Verifier::verify(&circuit, &elements(&[9, 4, 77]), &proof));
}

#[test]
fn too_few_public_inputs_leave_an_input_unbound() {
    let circuit = sum_circuit();
    let proof = sum_proof();
    assert_eq!(Verifier::try_verify(&circuit, &[], &proof), Err(EvalError::MissingValue));

    let two_inputs = checked_sum_circuit();
    let proof = Prover::prove(&two_inputs, &witness_of(&[("w", 5), ("x", 10), ("y", 15)]));
    assert_eq!(
        Verifier::try_verify(&two_inputs, &elements(&[10]), &proof),
        Err(EvalError::MissingValue)
    );
}

#[test]
fn an_unbound_input_that_no_gate_reads_does_no_harm() {
    let circuit = Circuit::new(
        vec![input("x"), input("idle")],
        vec![output("out")],
        vec![gate(private("w"), Operation::Add, input("x"), output("out"))],
    );
    let proof = Prover::prove(&circuit, &witness_of(&[("w", 5), ("x", 10)]));
    assert!(Verifier::verify(&circuit, &elements(&[10]), &proof));
}

#[test]
fn an_empty_proof_for_a_circuit_with_private_signals_has_no_verdict() {
    let empty = Proof { commitments: NameMap::new(), revealed_witness: NameMap::new() };
    assert_eq!(
        Verifier::try_verify(&sum_circuit(), &elements(&[10]), &empty),
        Err(EvalError::MissingValue)
    );
}

#[test]
fn a_public_input_of_another_prime_has_no_verdict() {
    let circuit = sum_circuit();
    let proof = sum_proof();
    let inputs = vec![FieldElement::new(10, 7487)];
    assert_eq!(Verifier::try_verify(&circuit, &inputs, &proof), Err(EvalError::MismatchedPrimes));
}

#[test]
fn a_failed_commitment_check_comes_before_the_gates() {
    let mut proof = sum_proof();
    proof.revealed_witness.insert(
        "w".to_string(),
        (FieldElement::new(6, PRIME), FieldElement::new(42, PRIME)),
    );
    assert_eq!(Verifier::try_verify(&sum_circuit(), &[], &proof), Ok(false));
    assert!(!Verifier::verify(&sum_circuit(), &[], &proof));
}

#[test]
fn only_input_signals_of_the_input_list_are_bound() {
    let circuit = Circuit::new(
        vec![private("w"), input("x")],
        vec![],
        vec![gate(private("w"), Operation::Eq, input("x"), output("unused"))],
    );
    let proof = Prover::prove(&circuit, &witness_of(&[("w", 5), ("x", 5)]));
    assert!(Verifier::verify(&circuit, &elements(&[99, 5]), &proof));
    assert!(!Verifier::verify(&circuit, &elements(&[5, 99]), &proof));
}

#[test]
fn constraints_satisfied_runs_the_gates_on_the_given_values() {
    let circuit = checked_sum_circuit();
    let mut values = NameMap::new();
    for (name, value) in [("w", 5), ("x", 10), ("y", 15)] {
        values.insert(name.to_string(), FieldElement::new(value, PRIME));
    }
    assert!(Verifier::constraints_satisfied(&circuit.constraints, &mut values));
    assert_eq!(values.get(&"sum".to_string()).unwrap().value, 15);

    values.insert("y".to_string(), FieldElement::new(16, PRIME));
    assert!(!Verifier::constraints_satisfied(&circuit.constraints, &mut values));
}

#[test]
fn verifying_does_not_change_the_proof() {
    let circuit = chained_circuit();
    let proof = Prover::prove(&circuit, &witness_of(&[("w1", 2), ("w2", 3), ("x", 4), ("w3", 10)]));
    let copy = proof.clone();
    assert!(Verifier::verify(&circuit, &elements(&[4]), &proof));
    assert!(Verifier::verify(&circuit.clone(), &elements(&[4]), &copy));
    assert_eq!(proof.revealed_witness.len(), 5);
    assert_eq!(proof.commitments.len(), 5);
}
