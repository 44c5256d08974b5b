//! Exact-value tests of the prime-field arithmetic.

use gougu::field::{Fe, FIELD_ORDER};

#[test]
fn construction_reduces_modulo_the_order() {
    assert_eq!(Fe::from_u64(FIELD_ORDER), Fe::zero());
    assert_eq!(Fe::from_u64(FIELD_ORDER + 5), Fe::from_u64(5));
    assert_eq!(Fe::from_u64(0), Fe::zero());
    assert_eq!(Fe::from_u64(1), Fe::one());
}

#[test]
fn addition_wraps_at_the_order() {
    assert_eq!(Fe::from_u64(2).add(Fe::from_u64(3)), Fe::from_u64(5));
    assert_eq!(Fe::from_u64(FIELD_ORDER - 1).add(Fe::one()), Fe::zero());
    assert_eq!(Fe::from_u64(FIELD_ORDER - 1).add(Fe::from_u64(2)), Fe::one());
}

#[test]
fn negation_is_the_additive_inverse() {
    assert_eq!(Fe::zero().neg(), Fe::zero());
    assert_eq!(Fe::from_u64(1).neg(), Fe::from_u64(FIELD_ORDER - 1));
    let x = Fe::from_u64(123456789);
    assert_eq!(x.add(x.neg()), Fe::zero());
}

#[test]
fn subtraction_matches_addition_of_the_negation() {
    assert_eq!(Fe::from_u64(7).sub(Fe::from_u64(3)), Fe::from_u64(4));
    assert_eq!(Fe::from_u64(3).sub(Fe::from_u64(7)), Fe::from_u64(FIELD_ORDER - 4));
}

#[test]
fn multiplication_reduces_products() {
    assert_eq!(Fe::from_u64(3).mul(Fe::from_u64(3)), Fe::from_u64(9));
    assert_eq!(Fe::from_u64(5).mul(Fe::from_u64(5)), Fe::from_u64(25));
    // (2^31 - 2)^2 mod (2^31 - 1) == 1: the largest element squared.
    let top = Fe::from_u64(FIELD_ORDER - 1);
    assert_eq!(top.mul(top), Fe::one());
    assert_eq!(Fe::from_u64(10).mul(Fe::zero()), Fe::zero());
}

#[test]
fn zero_test_sees_only_the_identity() {
    assert!(Fe::zero().is_zero());
    assert!(!Fe::one().is_zero());
    assert!(Fe::from_u64(FIELD_ORDER).is_zero());
}
