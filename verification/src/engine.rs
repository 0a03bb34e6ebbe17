//! Gate-by-gate evaluation, shared by proving and verifying.
//!
//! Both sides run the same single forward pass over the gates of a circuit,
//! on an assignment that they seed differently. The pass stops at the first
//! gate that cannot be evaluated or does not hold, and says why.

use crate::constraint::{Constraint, Operation};
use crate::field_element::FieldElement;
use crate::name_map::NameMap;
use crate::signal::Signal;
use vstd::prelude::*;

verus! {

/// Why an evaluation stopped before the last gate.
#[derive(Clone, Copy, Debug, PartialEq, Eq, Structural)]
pub enum EvalError {
    /// A gate reads a signal that has no value, or the prover is to commit to
    /// one.
    MissingValue,
    /// The two operands of a gate carry different primes.
    MismatchedPrimes,
    /// An arithmetic gate, or a blinding factor, is asked for over the
    /// modulus zero.
    ZeroPrime,
    /// The operands of an equality gate differ.
    Unsatisfied,
}

impl EvalError {
    /// Whether the fault is a broken precondition rather than a failed
    /// check: everything but an equality that does not hold.
    pub open spec fn is_fatal(&self) -> bool {
        !(self is Unsatisfied)
    }
}

/// Values by signal name.
pub type Assignment = Map<Seq<char>, FieldElement>;

/// Where an evaluation ended: the assignment at that point, and the fault
/// that ended it early, if one did.
pub struct Evaluation {
    /// The values when the evaluation ended.
    pub assignment: Assignment,
    /// Why it ended before the last gate, if it did.
    pub fault: Option<EvalError>,
}

/// The value that `signal` has in `values`, found by its name.
pub open spec fn lookup(signal: Signal, values: Assignment) -> Option<FieldElement> {
    if values.contains_key(signal.name()) {
        Some(values[signal.name()])
    } else {
        None
    }
}

/// The value that `operation` produces from two operands of one field. An
/// equality produces none.
pub open spec fn combine(operation: Operation, left: FieldElement, right: FieldElement) -> Option<
    FieldElement,
> {
    let prime = left.prime as int;
    let value = match operation {
        Operation::Add => Some((left.value + right.value) % prime),
        Operation::Mul => Some((left.value * right.value) % prime),
        Operation::Sub => Some((left.value + left.prime - right.value) % prime),
        Operation::Eq => None,
    };
    match value {
        Some(value) => Some(FieldElement { value: value as u128, prime: left.prime }),
        None => None,
    }
}

/// One gate on `values`: the assignment after it, or its fault.
///
/// Both operands must have a value and carry the same prime. An equality
/// compares them and stores nothing. An arithmetic gate needs a nonzero prime
/// and stores its result under the name of its output, unless the output is
/// an input signal, which is never written.
pub open spec fn step(gate: Constraint, values: Assignment) -> Result<Assignment, EvalError> {
    match (lookup(gate.left, values), lookup(gate.right, values)) {
        (Some(left), Some(right)) => {
            if left.prime != right.prime {
                Err(EvalError::MismatchedPrimes)
            } else {
                match combine(gate.operation, left, right) {
                    None => {
                        if left.value == right.value {
                            Ok(values)
                        } else {
                            Err(EvalError::Unsatisfied)
                        }
                    },
                    Some(result) => {
                        if left.prime == 0 {
                            Err(EvalError::ZeroPrime)
                        } else if gate.output.writable() {
                            Ok(values.insert(gate.output.name(), result))
                        } else {
                            Ok(values)
                        }
                    },
                }
            }
        },
        _ => Err(EvalError::MissingValue),
    }
}

/// The gates in order, from `values`, up to the first fault.
pub open spec fn run(gates: Seq<Constraint>, values: Assignment) -> Evaluation
    decreases gates.len(),
{
    if gates.len() == 0 {
        Evaluation { assignment: values, fault: None }
    } else {
        match step(gates[0], values) {
            Ok(next) => run(gates.drop_first(), next),
            Err(fault) => Evaluation { assignment: values, fault: Some(fault) },
        }
    }
}

/// The value of `signal` in `value_map`, if it has one.
pub fn eval_signal(signal: &Signal, value_map: &NameMap<FieldElement>) -> (value: Option<
    FieldElement,
>)
    ensures
        value == lookup(*signal, value_map@),
{
    match value_map.get(signal.label()) {
        Some(found) => Some(found.clone()),
        None => None,
    }
}

/// Evaluates one gate on `values`.
pub fn apply(gate: &Constraint, values: &mut NameMap<FieldElement>) -> (fault: Option<EvalError>)
    ensures
        match step(*gate, old(values)@) {
            Ok(next) => fault is None && final(values)@ == next,
            Err(e) => fault == Some(e) && final(values)@ == old(values)@,
        },
{
    let left = match eval_signal(&gate.left, values) {
        Some(value) => value,
        None => {
            return Some(EvalError::MissingValue);
        },
    };
    let right = match eval_signal(&gate.right, values) {
        Some(value) => value,
        None => {
            return Some(EvalError::MissingValue);
        },
    };
    if left.prime != right.prime {
        return Some(EvalError::MismatchedPrimes);
    }
    let result = match gate.operation {
        Operation::Eq => {
            if left.equals(&right) {
                return None;
            }
            return Some(EvalError::Unsatisfied);
        },
        Operation::Add => {
            if left.prime == 0 {
                return Some(EvalError::ZeroPrime);
            }
            left.add(&right)
        },
        Operation::Mul => {
            if left.prime == 0 {
                return Some(EvalError::ZeroPrime);
            }
            left.mul(&right)
        },
        Operation::Sub => {
            if left.prime == 0 {
                return Some(EvalError::ZeroPrime);
            }
            left.sub(&right)
        },
    };
    match &gate.output {
        Signal::Input(_) => {},
        Signal::Witness(name) => {
            values.insert(name.clone(), result);
        },
        Signal::Output(name) => {
            values.insert(name.clone(), result);
        },
    }
    None
}

/// Evaluates `constraints` in order on `values`, stopping at the first fault.
///
/// On return `values` holds the complete assignment if no fault is reported,
/// else the assignment as it stood when the fault occurred.
pub fn evaluate(constraints: &[Constraint], values: &mut NameMap<FieldElement>) -> (fault: Option<
    EvalError,
>)
    ensures
        fault == run(constraints@, old(values)@).fault,
        final(values)@ == run(constraints@, old(values)@).assignment,
{
    let ghost seed = values@;
    let mut i: usize = 0;
    assert(constraints@.skip(0) =~= constraints@);
    while i < constraints.len()
        invariant
            i <= constraints@.len(),
            seed == old(values)@,
            run(constraints@, seed) == run(constraints@.skip(i as int), values@),
        decreases constraints@.len() - i,
    {
        proof {
            let rest = constraints@.skip(i as int);
            assert(rest.drop_first() =~= constraints@.skip(i + 1));
        }
        let fault = apply(&constraints[i], values);
        if fault.is_some() {
            return fault;
        }
        i += 1;
    }
    None
}

} // verus!
