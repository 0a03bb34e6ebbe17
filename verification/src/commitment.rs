//! Hash commitments to a value and a blinding factor.
//!
//! A commitment binds a pair of field elements: whoever holds the digest can
//! later check a revealed pair against it. It hides nothing once the pair is
//! revealed, and every proof of this crate reveals it. What the digest gives is
//! tamper evidence between proving and verifying, no more.

use crate::field_element::FieldElement;
use sha2::{Digest, Sha256};
use vstd::prelude::*;

verus! {

/// The SHA-256 digest of `message`, as `sha2::Sha256::digest` computes it.
pub uninterp spec fn sha256(message: Seq<u8>) -> Seq<u8>;

/// Hashes `message` with `sha2::Sha256::digest` and copies the digest out of
/// the array that the call returns.
///
/// Trusted: the digest is a function of the message bytes alone, named
/// [`sha256`], and it is 32 bytes long, the output size that `sha2` declares
/// for `Sha256`. Nothing else is claimed of it.
#[verifier::external_body]
fn sha256_digest(message: &Vec<u8>) -> (digest: Vec<u8>)
    ensures
        digest@ == sha256(message@),
        digest@.len() == 32,
{
    Sha256::digest(message.as_slice()).to_vec()
}

/// The first `count` bytes of `x` in little-endian order: the lowest byte
/// comes first.
pub open spec fn le_bytes(x: nat, count: nat) -> Seq<u8>
    decreases count,
{
    if count == 0 {
        Seq::empty()
    } else {
        seq![(x % 256) as u8] + le_bytes(x / 256, (count - 1) as nat)
    }
}

/// What is left of `x` above its first `count` bytes.
pub open spec fn above(x: nat, count: nat) -> nat
    decreases count,
{
    if count == 0 {
        x
    } else {
        above(x / 256, (count - 1) as nat)
    }
}

/// The bytes that are hashed for a commitment: the value, the blinding
/// factor and the prime, in this order, each as 16 little-endian bytes.
pub open spec fn preimage(value: u128, blinding: u128, prime: u128) -> Seq<u8> {
    le_bytes(value as nat, 16) + le_bytes(blinding as nat, 16) + le_bytes(prime as nat, 16)
}

/// The digest that commits to `value` under `blinding`. The prime is that of
/// `value`; the prime that `blinding` carries is not hashed.
pub open spec fn commitment_digest(value: FieldElement, blinding: FieldElement) -> Seq<u8> {
    sha256(preimage(value.value, blinding.value, value.prime))
}

/// `count` bytes are `count` long.
proof fn lemma_le_bytes_len(x: nat, count: nat)
    ensures
        le_bytes(x, count).len() == count,
    decreases count,
{
    if count > 0 {
        lemma_le_bytes_len(x / 256, (count - 1) as nat);
    }
}

/// Two numbers with the same first `count` bytes and the same rest above
/// them are the same number.
proof fn lemma_le_bytes_injective(x: nat, y: nat, count: nat)
    requires
        le_bytes(x, count) == le_bytes(y, count),
        above(x, count) == above(y, count),
    ensures
        x == y,
    decreases count,
{
    if count > 0 {
        let rest = (count - 1) as nat;
        let x_bytes = seq![(x % 256) as u8] + le_bytes(x / 256, rest);
        let y_bytes = seq![(y % 256) as u8] + le_bytes(y / 256, rest);
        assert(x_bytes[0] == y_bytes[0]);
        assert(x_bytes.drop_first() =~= le_bytes(x / 256, rest));
        assert(y_bytes.drop_first() =~= le_bytes(y / 256, rest));
        lemma_le_bytes_injective(x / 256, y / 256, rest);
    }
}

/// A `u128` has nothing above its first 16 bytes.
proof fn lemma_sixteen_bytes(x: u128)
    ensures
        above(x as nat, 16) == 0,
{
    reveal_with_fuel(above, 17);
}

/// The preimage is 48 bytes long and determines its three parts.
pub proof fn lemma_preimage_injective(
    value: u128,
    blinding: u128,
    prime: u128,
    other_value: u128,
    other_blinding: u128,
    other_prime: u128,
)
    ensures
        preimage(value, blinding, prime).len() == 48,
        preimage(value, blinding, prime) == preimage(other_value, other_blinding, other_prime)
            <==> value == other_value && blinding == other_blinding && prime == other_prime,
{
    let a = preimage(value, blinding, prime);
    let b = preimage(other_value, other_blinding, other_prime);
    lemma_le_bytes_len(value as nat, 16);
    lemma_le_bytes_len(blinding as nat, 16);
    lemma_le_bytes_len(prime as nat, 16);
    lemma_le_bytes_len(other_value as nat, 16);
    lemma_le_bytes_len(other_blinding as nat, 16);
    lemma_le_bytes_len(other_prime as nat, 16);
    assert(a.subrange(0, 16) =~= le_bytes(value as nat, 16));
    assert(a.subrange(16, 32) =~= le_bytes(blinding as nat, 16));
    assert(a.subrange(32, 48) =~= le_bytes(prime as nat, 16));
    assert(b.subrange(0, 16) =~= le_bytes(other_value as nat, 16));
    assert(b.subrange(16, 32) =~= le_bytes(other_blinding as nat, 16));
    assert(b.subrange(32, 48) =~= le_bytes(other_prime as nat, 16));
    if a == b {
        lemma_sixteen_bytes(value);
        lemma_sixteen_bytes(blinding);
        lemma_sixteen_bytes(prime);
        lemma_sixteen_bytes(other_value);
        lemma_sixteen_bytes(other_blinding);
        lemma_sixteen_bytes(other_prime);
        lemma_le_bytes_injective(value as nat, other_value as nat, 16);
        lemma_le_bytes_injective(blinding as nat, other_blinding as nat, 16);
        lemma_le_bytes_injective(prime as nat, other_prime as nat, 16);
    }
}

/// Appends the 16 little-endian bytes of `x` to `message`.
fn append_le_bytes(message: &mut Vec<u8>, x: u128)
    ensures
        final(message)@ == old(message)@ + le_bytes(x as nat, 16),
{
    let mut rest: u128 = x;
    let mut i: usize = 0;
    assert(message@ + le_bytes(rest as nat, 16) =~= old(message)@ + le_bytes(x as nat, 16));
    while i < 16
        invariant
            i <= 16,
            message@ + le_bytes(rest as nat, (16 - i) as nat) == old(message)@ + le_bytes(
                x as nat,
                16,
            ),
        decreases 16 - i,
    {
        let ghost before = message@;
        let byte = (rest % 256) as u8;
        message.push(byte);
        proof {
            let tail = le_bytes((rest / 256) as nat, (16 - i - 1) as nat);
            assert(le_bytes(rest as nat, (16 - i) as nat) == seq![byte] + tail);
            assert(message@ + tail =~= before + (seq![byte] + tail));
        }
        rest = rest / 256;
        i += 1;
    }
    assert(message@ + le_bytes(rest as nat, 0) =~= message@);
}

/// A digest that binds one value and one blinding factor.
#[derive(Clone, Debug)]
pub struct Commitment {
    /// The digest.
    pub committed_hash: Vec<u8>,
}

impl Commitment {
    /// Commits to `val` under `blinding`:
    /// `SHA-256(LE(val.value) || LE(blinding.value) || LE(val.prime))`.
    pub fn new(val: &FieldElement, blinding: &FieldElement) -> (commitment: Self)
        ensures
            commitment.committed_hash@ == commitment_digest(*val, *blinding),
            commitment.committed_hash@.len() == 32,
    {
        let mut message: Vec<u8> = Vec::new();
        append_le_bytes(&mut message, val.value);
        append_le_bytes(&mut message, blinding.value);
        append_le_bytes(&mut message, val.prime);
        assert(message@ =~= preimage(val.value, blinding.value, val.prime));
        Commitment { committed_hash: sha256_digest(&message) }
    }

    /// Whether this commitment holds exactly the bytes `digest`.
    pub fn matches(&self, digest: &Vec<u8>) -> (same: bool)
        ensures
            same == (self.committed_hash@ == digest@),
    {
        if self.committed_hash.len() != digest.len() {
            return false;
        }
        let mut i: usize = 0;
        while i < digest.len()
            invariant
                i <= digest@.len(),
                self.committed_hash@.len() == digest@.len(),
                forall|j: int| 0 <= j < i ==> self.committed_hash@[j] == digest@[j],
            decreases digest@.len() - i,
        {
            if self.committed_hash[i] != digest[i] {
                return false;
            }
            i += 1;
        }
        assert(self.committed_hash@ =~= digest@);
        true
    }
}

} // verus!
