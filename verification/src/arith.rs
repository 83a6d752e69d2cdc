//! Prime-field arithmetic over a runtime modulus.
//!
//! Every scalar the verifier manipulates is a canonical residue `< p` for a
//! field modulus `p` carried by the loader. The spec functions here are the
//! mathematical model that all higher-level contracts are stated over; the
//! executable functions compute them exactly, with intermediate results
//! widened to `u128` so no operation can overflow.

use vstd::prelude::*;
use vstd::arithmetic::div_mod::{
    lemma_add_mod_noop, lemma_mod_add_multiples_vanish, lemma_mod_self_0,
    lemma_mod_bound, lemma_mul_mod_noop_left, lemma_mul_mod_noop_right, lemma_small_mod,
};

verus! {

/// Field addition: `(a + b) mod p`.
pub open spec fn f_add(p: nat, a: nat, b: nat) -> nat {
    (a + b) % p
}

/// Field negation: the canonical residue of `-a mod p`.
pub open spec fn f_neg(p: nat, a: nat) -> nat
    recommends
        a < p,
{
    if a == 0 {
        0
    } else {
        (p - a) as nat
    }
}

/// Field subtraction: `(a - b) mod p`, via the additive inverse.
pub open spec fn f_sub(p: nat, a: nat, b: nat) -> nat
    recommends
        b < p,
{
    f_add(p, a, f_neg(p, b))
}

/// Field multiplication: `(a * b) mod p`.
pub open spec fn f_mul(p: nat, a: nat, b: nat) -> nat {
    (a * b) % p
}

/// Field exponentiation `a^e mod p`, defined by squaring so that the
/// executable square-and-multiply loop matches it step for step.
pub open spec fn f_pow(p: nat, a: nat, e: nat) -> nat
    decreases e,
{
    if e == 0 {
        1nat % p
    } else {
        let h = f_pow(p, (a * a) % p, e / 2);
        if e % 2 == 0 {
            h
        } else {
            (a * h) % p
        }
    }
}

/// The multiplicative inverse of `a`, as the Fermat power `a^(p-2) mod p`.
/// For a prime `p` and `a != 0` this is the unique inverse; the engine never
/// relies on more than the power itself.
pub open spec fn f_inv(p: nat, a: nat) -> nat
    recommends
        2 <= p,
{
    f_pow(p, a, (p - 2) as nat)
}

/// A power stays a canonical residue.
pub proof fn lemma_f_pow_bound(p: nat, a: nat, e: nat)
    requires
        0 < p,
    ensures
        f_pow(p, a, e) < p,
    decreases e,
{
    if e == 0 {
        lemma_mod_bound(1int, p as int);
    } else {
        lemma_f_pow_bound(p, (a * a) % p, e / 2);
        if e % 2 != 0 {
            lemma_mod_bound((a * f_pow(p, (a * a) % p, e / 2)) as int, p as int);
        }
    }
}

/// Multiplication modulo `p` is associative.
pub proof fn lemma_f_mul_assoc(p: nat, x: nat, y: nat, z: nat)
    requires
        0 < p,
    ensures
        f_mul(p, f_mul(p, x, y), z) == f_mul(p, x, f_mul(p, y, z)),
{
    lemma_mul_mod_noop_left(x * y as int, z as int, p as int);
    lemma_mul_mod_noop_right(x as int, y * z as int, p as int);
    assert((x * y) * z == x * (y * z)) by (nonlinear_arith);
}

/// Multiplication modulo `p` distributes over addition modulo `p`.
pub proof fn lemma_f_mul_distrib(p: nat, a: nat, b: nat, c: nat)
    requires
        0 < p,
    ensures
        f_mul(p, f_add(p, a, b), c) == f_add(p, f_mul(p, a, c), f_mul(p, b, c)),
{
    lemma_mul_mod_noop_left((a + b) as int, c as int, p as int);
    assert((a + b) * c == a * c + b * c) by (nonlinear_arith);
    lemma_add_mod_noop(a * c as int, b * c as int, p as int);
}

/// A difference of canonical residues vanishes exactly on equal operands.
pub proof fn lemma_f_sub_zero(p: nat, a: nat, b: nat)
    requires
        0 < p,
        a < p,
        b < p,
    ensures
        f_sub(p, a, b) == 0 <==> a == b,
{
    if b == 0 {
        lemma_small_mod(a, p);
    } else if a == b {
        assert((a + (p - b)) as int == p);
        assert(p % p == 0) by {
            lemma_mod_self_0(p as int);
        }
    } else if a < b {
        lemma_small_mod((a + (p - b)) as nat, p);
    } else {
        lemma_mod_add_multiples_vanish((a - b) as int, p as int);
        lemma_small_mod((a - b) as nat, p);
    }
}

/// Field addition, computed exactly.
pub fn add_mod(p: u64, a: u64, b: u64) -> (r: u64)
    requires
        2 <= p,
        a < p,
        b < p,
    ensures
        r < p,
        r as nat == f_add(p as nat, a as nat, b as nat),
{
    let s: u128 = a as u128 + b as u128;
    let m: u128 = s % (p as u128);
    proof {
        lemma_mod_bound(s as int, p as int);
    }
    m as u64
}

/// Field negation, computed exactly.
pub fn neg_mod(p: u64, a: u64) -> (r: u64)
    requires
        2 <= p,
        a < p,
    ensures
        r < p,
        r as nat == f_neg(p as nat, a as nat),
{
    if a == 0 {
        0
    } else {
        p - a
    }
}

/// Field subtraction, computed exactly.
pub fn sub_mod(p: u64, a: u64, b: u64) -> (r: u64)
    requires
        2 <= p,
        a < p,
        b < p,
    ensures
        r < p,
        r as nat == f_sub(p as nat, a as nat, b as nat),
{
    let nb = neg_mod(p, b);
    add_mod(p, a, nb)
}

/// Field multiplication, computed exactly.
pub fn mul_mod(p: u64, a: u64, b: u64) -> (r: u64)
    requires
        2 <= p,
        a < p,
        b < p,
    ensures
        r < p,
        r as nat == f_mul(p as nat, a as nat, b as nat),
{
    proof {
        assert((a as int) * (b as int) <= (u64::MAX as int) * (u64::MAX as int))
            by (nonlinear_arith)
            requires
                a <= u64::MAX,
                b <= u64::MAX,
        ;
    }
    let prod: u128 = (a as u128) * (b as u128);
    let m: u128 = prod % (p as u128);
    proof {
        lemma_mod_bound(prod as int, p as int);
    }
    m as u64
}

/// Field exponentiation by square-and-multiply, computed exactly.
pub fn pow_mod(p: u64, a: u64, e: u64) -> (r: u64)
    requires
        2 <= p,
        a < p,
    ensures
        r < p,
        r as nat == f_pow(p as nat, a as nat, e as nat),
{
    let mut acc: u64 = 1 % p;
    let mut base: u64 = a;
    let mut exp: u64 = e;
    proof {
        lemma_small_mod(1nat, p as nat);
        lemma_f_pow_bound(p as nat, a as nat, e as nat);
        lemma_small_mod(f_pow(p as nat, a as nat, e as nat), p as nat);
        assert(f_mul(p as nat, 1nat, f_pow(p as nat, a as nat, e as nat)) == f_pow(
            p as nat,
            a as nat,
            e as nat,
        ));
    }
    while exp > 0
        invariant
            2 <= p,
            acc < p,
            base < p,
            f_mul(p as nat, acc as nat, f_pow(p as nat, base as nat, exp as nat)) == f_pow(
                p as nat,
                a as nat,
                e as nat,
            ),
        decreases exp,
    {
        let ghost old_acc = acc as nat;
        let ghost old_base = base as nat;
        let ghost old_exp = exp as nat;
        let ghost pn = p as nat;
        if exp % 2 == 1 {
            acc = mul_mod(p, acc, base);
        }
        base = mul_mod(p, base, base);
        exp = exp / 2;
        proof {
            let h = f_pow(pn, base as nat, exp as nat);
            if old_exp % 2 == 1 {
                assert(f_pow(pn, old_base, old_exp) == f_mul(pn, old_base, h));
                lemma_f_mul_assoc(pn, old_acc, old_base, h);
            }
        }
    }
    proof {
        lemma_small_mod(1nat, p as nat);
        lemma_small_mod(acc as nat, p as nat);
        assert(f_mul(p as nat, acc as nat, 1nat) == acc as nat);
    }
    acc
}

/// Multiplicative inverse via the Fermat power `a^(p-2)`, computed exactly.
pub fn inv_mod(p: u64, a: u64) -> (r: u64)
    requires
        2 <= p,
        a < p,
    ensures
        r < p,
        r as nat == f_inv(p as nat, a as nat),
{
    pow_mod(p, a, p - 2)
}

} // verus!
