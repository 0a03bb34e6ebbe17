use ghayb::FieldElement;

const PRIME: u128 = 7489;

/// 2^127 - 1, a prime for which `a * b` does not fit in `u128`.
const MERSENNE_127: u128 = 170141183460469231731687303715884105727;

fn element(value: u128, prime: u128) -> FieldElement {
    FieldElement::new(value, prime)
}

#[test]
fn new_reduces_the_value() {
    let reduced = element(7490, PRIME);
    assert_eq!(reduced.value, 1);
    assert_eq!(reduced.prime, PRIME);
    assert_eq!(element(PRIME, PRIME).value, 0);
    assert_eq!(element(PRIME - 1, PRIME).value, PRIME - 1);
    assert_eq!(element(u128::MAX, PRIME).value, u128::MAX % PRIME);
    assert_eq!(element(12, 1).value, 0);
}

#[test]
fn add_wraps_at_the_prime() {
    assert_eq!(element(5, PRIME).add(&element(10, PRIME)).value, 15);
    assert_eq!(element(7488, PRIME).add(&element(1, PRIME)).value, 0);
    assert_eq!(element(7488, PRIME).add(&element(7488, PRIME)).value, 7487);
    assert_eq!(element(0, PRIME).add(&element(0, PRIME)).value, 0);
    assert_eq!(element(5, PRIME).add(&element(10, PRIME)).prime, PRIME);
}

#[test]
fn sub_does_not_go_below_zero() {
    assert_eq!(element(10, PRIME).sub(&element(5, PRIME)).value, 5);
    assert_eq!(element(5, PRIME).sub(&element(10, PRIME)).value, 7484);
    assert_eq!(element(0, PRIME).sub(&element(1, PRIME)).value, 7488);
    assert_eq!(element(0, PRIME).sub(&element(0, PRIME)).value, 0);
    assert_eq!(element(7488, PRIME).sub(&element(7488, PRIME)).value, 0);
    assert_eq!(element(5, PRIME).sub(&element(10, PRIME)).prime, PRIME);
}

#[test]
fn mul_reduces_the_product() {
    assert_eq!(element(4, PRIME).mul(&element(3, PRIME)).value, 12);
    assert_eq!(element(100, PRIME).mul(&element(100, PRIME)).value, 10000 % PRIME);
    assert_eq!(element(7488, PRIME).mul(&element(7488, PRIME)).value, 1);
    assert_eq!(element(0, PRIME).mul(&element(7488, PRIME)).value, 0);
    assert_eq!(element(1, PRIME).mul(&element(7488, PRIME)).value, 7488);
    assert_eq!(element(4, PRIME).mul(&element(3, PRIME)).prime, PRIME);
}

#[test]
fn arithmetic_is_exact_where_u128_would_overflow() {
    let top = element(MERSENNE_127 - 1, MERSENNE_127);
    assert_eq!(top.mul(&top).value, 1);
    assert_eq!(top.add(&top).value, MERSENNE_127 - 2);
    assert_eq!(element(0, MERSENNE_127).sub(&top).value, 1);
    let a = element(123456789123456789123456789, MERSENNE_127);
    let b = element(987654321987654321987654321, MERSENNE_127);
    assert_eq!(a.mul(&b).value, 76763877966837222893868575540991082991);

    let widest = element(u128::MAX - 1, u128::MAX);
    assert_eq!(widest.mul(&widest).value, 1);
    assert_eq!(widest.add(&widest).value, u128::MAX - 2);
    assert_eq!(element(1, u128::MAX).sub(&widest).value, 2);
}

#[test]
fn operands_built_by_hand_need_not_be_reduced() {
    let a = FieldElement { value: 7490, prime: PRIME };
    let b = FieldElement { value: 2 * PRIME + 5, prime: PRIME };
    assert_eq!(a.add(&b).value, 6);
    assert_eq!(a.mul(&b).value, 5);
    assert_eq!(a.sub(&b).value, 7485);
    let wide = FieldElement { value: u128::MAX, prime: u128::MAX - 1 };
    assert_eq!(wide.add(&wide).value, 2);
    assert_eq!(wide.mul(&wide).value, 1);
    assert_eq!(FieldElement { value: 0, prime: u128::MAX - 1 }.sub(&wide).value, u128::MAX - 2);
}

#[test]
fn results_stay_below_a_small_prime() {
    let p: u128 = 7;
    for x in 0..p {
        for y in 0..p {
            let a = element(x, p);
            let b = element(y, p);
            let sum = a.add(&b);
            let difference = a.sub(&b);
            let product = a.mul(&b);
            assert!(sum.value < p);
            assert!(difference.value < p);
            assert!(product.value < p);
            assert_eq!(sum.value, (x + y) % p);
            assert_eq!(difference.value, (x + p - y) % p);
            assert_eq!(product.value, (x * y) % p);
            assert_eq!(difference.add(&b).value, x);
        }
    }
}

#[test]
fn equals_compares_values() {
    assert!(element(5, PRIME).equals(&element(5, PRIME)));
    assert!(element(5, PRIME).equals(&element(5 + PRIME, PRIME)));
    assert!(!element(5, PRIME).equals(&element(6, PRIME)));
    assert!(element(0, PRIME).equals(&element(PRIME, PRIME)));
}

#[test]
fn clone_keeps_both_fields() {
    let a = element(5, PRIME);
    let b = a.clone();
    assert_eq!(b.value, 5);
    assert_eq!(b.prime, PRIME);
}
