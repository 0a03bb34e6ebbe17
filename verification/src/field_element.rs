//! Arithmetic in the integers modulo a caller-supplied prime.

use vstd::arithmetic::div_mod::*;
use vstd::arithmetic::mul::*;
use vstd::prelude::*;

verus! {

/// An integer modulo `prime`.
///
/// Every element built by [`FieldElement::new`] or by an operation is reduced:
/// `value < prime`. The fields are public, so [`FieldElement::wf`] names that
/// condition for values that were put together by hand.
#[derive(Debug)]
pub struct FieldElement {
    /// The residue.
    pub value: u128,
    /// The modulus, shared by all elements of one computation.
    pub prime: u128,
}

impl Clone for FieldElement {
    fn clone(&self) -> (copy: Self)
        ensures
            copy == *self,
    {
        FieldElement { value: self.value, prime: self.prime }
    }
}

/// `(a + b) mod m` for reduced `a` and `b`, without leaving `u128`.
fn add_mod(a: u128, b: u128, m: u128) -> (r: u128)
    requires
        a < m,
        b < m,
    ensures
        r == (a + b) % (m as int),
        r < m,
{
    if a >= m - b {
        let r = a - (m - b);
        proof {
            lemma_mod_sub_multiples_vanish(a + b, m as int);
            lemma_small_mod(r as nat, m as nat);
        }
        r
    } else {
        proof {
            lemma_small_mod((a + b) as nat, m as nat);
        }
        a + b
    }
}

/// One round of double-and-add leaves `acc + x * k` unchanged modulo `m`.
proof fn lemma_double_and_add(acc: int, x: int, k: int, m: int)
    requires
        m > 0,
        k >= 0,
    ensures
        k % 2 == 1 ==> ((acc + x) % m + ((x + x) % m) * (k / 2)) % m == (acc + x * k) % m,
        k % 2 == 0 ==> (acc % m + ((x + x) % m) * (k / 2)) % m == (acc + x * k) % m,
{
    let a = if k % 2 == 1 { acc + x } else { acc };
    let b = x + x;
    let q = k / 2;
    assert(a + b * q == acc + x * k) by (nonlinear_arith)
        requires
            a == if k % 2 == 1 { acc + x } else { acc },
            b == x + x,
            q == k / 2,
            k == 2 * (k / 2) + k % 2,
    ;
    lemma_mul_mod_noop_left(b, q, m);
    lemma_add_mod_noop(a, (b % m) * q, m);
    lemma_add_mod_noop_right(a % m, (b % m) * q, m);
    lemma_add_mod_noop_right(a, (b % m) * q, m);
    lemma_add_mod_noop_right(a, b * q, m);
}

/// `(a * b) mod m` for reduced `a` and `b`, by double-and-add, so that no
/// intermediate value exceeds `m`.
fn mul_mod(a: u128, b: u128, m: u128) -> (r: u128)
    requires
        a < m,
        b < m,
    ensures
        r == (a * b) % (m as int),
        r < m,
{
    let mut acc: u128 = 0;
    let mut x: u128 = a;
    let mut k: u128 = b;
    while k > 0
        invariant
            acc < m,
            x < m,
            (acc + x * k) % (m as int) == (a * b) % (m as int),
        decreases k,
    {
        proof {
            lemma_double_and_add(acc as int, x as int, k as int, m as int);
            lemma_small_mod(acc as nat, m as nat);
        }
        if k % 2 == 1 {
            acc = add_mod(acc, x, m);
        }
        x = add_mod(x, x, m);
        k = k / 2;
    }
    proof {
        lemma_small_mod(acc as nat, m as nat);
    }
    acc
}

impl FieldElement {
    /// The data-model invariant: the stored value is reduced.
    pub open spec fn wf(&self) -> bool {
        self.value < self.prime
    }

    /// Reduces `value` modulo `prime`.
    pub fn new(value: u128, prime: u128) -> (element: Self)
        requires
            prime > 0,
        ensures
            element.value == value % prime,
            element.prime == prime,
            element.wf(),
    {
        FieldElement { value: value % prime, prime }
    }

    /// Sum modulo the shared prime.
    pub fn add(&self, other: &Self) -> (sum: Self)
        requires
            self.prime == other.prime,
            self.prime > 0,
        ensures
            sum.value == (self.value + other.value) % (self.prime as int),
            sum.prime == self.prime,
            sum.wf(),
    {
        let p = self.prime;
        let value = match self.value.checked_add(other.value) {
            Some(sum) => sum % p,
            None => {
                proof {
                    lemma_add_mod_noop(self.value as int, other.value as int, p as int);
                }
                add_mod(self.value % p, other.value % p, p)
            },
        };
        FieldElement { value, prime: p }
    }

    /// Product modulo the shared prime. Where the product of the two values
    /// does not fit in `u128` it is reduced step by step instead, so that the
    /// result is exact for every pair of operands.
    pub fn mul(&self, other: &Self) -> (product: Self)
        requires
            self.prime == other.prime,
            self.prime > 0,
        ensures
            product.value == (self.value * other.value) % (self.prime as int),
            product.prime == self.prime,
            product.wf(),
    {
        let p = self.prime;
        let value = match self.value.checked_mul(other.value) {
            Some(product) => product % p,
            None => {
                proof {
                    lemma_mul_mod_noop_general(self.value as int, other.value as int, p as int);
                }
                mul_mod(self.value % p, other.value % p, p)
            },
        };
        FieldElement { value, prime: p }
    }

    /// Difference modulo the shared prime: `(a + prime - b) mod prime`, which
    /// never goes below zero for reduced operands.
    pub fn sub(&self, other: &Self) -> (difference: Self)
        requires
            self.prime == other.prime,
            self.prime > 0,
        ensures
            difference.value == (self.value + self.prime - other.value) % (self.prime as int),
            difference.prime == self.prime,
            difference.wf(),
    {
        let p = self.prime;
        let a = self.value % p;
        let b = other.value % p;
        proof {
            lemma_sub_mod_noop(self.value as int, other.value as int, p as int);
            lemma_mod_add_multiples_vanish(self.value - other.value, p as int);
            lemma_mod_add_multiples_vanish(a - b, p as int);
        }
        let value = if a >= b {
            proof {
                lemma_small_mod((a - b) as nat, p as nat);
            }
            a - b
        } else {
            proof {
                lemma_small_mod((a + p - b) as nat, p as nat);
            }
            a + (p - b)
        };
        FieldElement { value, prime: p }
    }

    /// Whether two elements of one field hold the same value. The stored
    /// values are compared as they are; reduced elements are equal exactly
    /// when they are the same residue.
    pub fn equals(&self, other: &Self) -> (same: bool)
        requires
            self.prime == other.prime,
        ensures
            same == (self.value == other.value),
    {
        self.value == other.value
    }
}

} // verus!
