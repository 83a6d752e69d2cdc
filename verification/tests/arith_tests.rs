use snark_verifier::arith::{add_mod, inv_mod, mul_mod, neg_mod, pow_mod, sub_mod};

#[test]
fn add_wraps_at_modulus() {
    assert_eq!(add_mod(101, 60, 60), 19);
    assert_eq!(add_mod(101, 0, 0), 0);
    assert_eq!(add_mod(101, 100, 1), 0);
}

#[test]
fn add_handles_large_moduli_without_overflow() {
    let p = u64::MAX - 58; // largest 64-bit prime
    assert_eq!(add_mod(p, p - 1, p - 1), p - 2);
    assert_eq!(mul_mod(p, p - 1, p - 1), 1);
}

#[test]
fn sub_and_neg_are_exact() {
    assert_eq!(sub_mod(101, 5, 7), 99);
    assert_eq!(sub_mod(101, 7, 5), 2);
    assert_eq!(neg_mod(101, 0), 0);
    assert_eq!(neg_mod(101, 1), 100);
}

#[test]
fn mul_is_exact() {
    assert_eq!(mul_mod(101, 10, 10), 100);
    assert_eq!(mul_mod(101, 10, 11), 9);
}

#[test]
fn pow_is_square_and_multiply() {
    assert_eq!(pow_mod(101, 2, 10), 14); // 1024 mod 101
    assert_eq!(pow_mod(101, 2, 0), 1);
    assert_eq!(pow_mod(101, 0, 5), 0);
    assert_eq!(pow_mod(101, 7, 100), 1); // Fermat
}

#[test]
fn inverse_is_the_fermat_power() {
    let r = inv_mod(101, 2);
    assert_eq!(r, 51);
    assert_eq!(mul_mod(101, r, 2), 1);
    let p = 2305843009213693951u64; // 2^61 - 1
    let r = inv_mod(p, 1234567);
    assert_eq!(mul_mod(p, r, 1234567), 1);
}
