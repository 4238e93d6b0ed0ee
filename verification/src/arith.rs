//! The integer functions that the contracts of the library are stated over:
//! the remainders, two's-complement exclusive-or on unbounded integers,
//! and modular inverses, with the lemmas about them.

use vstd::arithmetic::div_mod::{
    lemma_fundamental_div_mod, lemma_fundamental_div_mod_converse, lemma_mod_equivalence,
    lemma_mod_multiples_basic, lemma_mod_twice, lemma_mul_mod_noop_right,
};
use vstd::arithmetic::power::{lemma1_pow, lemma_pow_distributes, lemma_pow_mod_noop, pow};
use vstd::prelude::*;

verus! {

/// The distance of `x` from zero.
pub open spec fn magnitude(x: int) -> int {
    if x < 0 {
        -x
    } else {
        x
    }
}

/// The remainder of the division that rounds toward zero: its sign follows
/// the dividend `a` and its magnitude is below that of `m`.
pub open spec fn truncated_rem(a: int, m: int) -> int
    recommends
        m != 0,
{
    if a >= 0 {
        a % magnitude(m)
    } else {
        -((-a) % magnitude(m))
    }
}

/// The remainder of the division that rounds toward negative infinity: it
/// lies in `[0, m)` for positive `m` and in `(m, 0]` for negative `m`.
pub open spec fn floor_mod(a: int, m: int) -> int
    recommends
        m != 0,
{
    if m > 0 {
        a % m
    } else {
        -((-a) % (-m))
    }
}

/// The Euclidean remainder: the one number from zero up to, and not
/// including, the magnitude of `m` that differs from `a` by a multiple of `m`.
pub open spec fn euclidean_rem(a: int, m: int) -> int
    recommends
        m != 0,
{
    a % magnitude(m)
}

/// True when `x` is a multiplicative inverse of `a` modulo `m`: `a * x` and
/// `1` differ by a multiple of `m`.
pub open spec fn is_inverse_mod(a: int, x: int, m: int) -> bool
    recommends
        m != 0,
{
    (a * x - 1) % magnitude(m) == 0
}

/// True when `a` has a multiplicative inverse modulo `m`.
pub open spec fn invertible_mod(a: int, m: int) -> bool
    recommends
        m != 0,
{
    exists|x: int| is_inverse_mod(a, x, m)
}

/// Some multiplicative inverse of `a` modulo `m`, where one exists. All of
/// them are congruent modulo `m`.
pub open spec fn mod_inverse(a: int, m: int) -> int
    recommends
        invertible_mod(a, m),
{
    choose|x: int| is_inverse_mod(a, x, m)
}

/// True when `x` lies where a floored remainder by `m` lies: in `[0, m)` for
/// positive `m`, in `(m, 0]` for negative `m`.
pub open spec fn in_floor_range(x: int, m: int) -> bool
    recommends
        m != 0,
{
    if m > 0 {
        0 <= x < m
    } else {
        m < x <= 0
    }
}

/// True for the two integers whose two's-complement digits are all alike:
/// `0` (all zeros) and `-1` (all ones).
pub open spec fn is_constant_bits(x: int) -> bool {
    x == 0 || x == -1
}

/// Exclusive-or of the lowest two's-complement bits of `a` and `b`.
pub open spec fn low_bit_xor(a: int, b: int) -> int {
    if a % 2 == b % 2 {
        0
    } else {
        1
    }
}

/// Bitwise exclusive-or of `a` and `b`, each read as an infinite
/// two's-complement bit string (a negative number continues in ones).
pub open spec fn bit_xor(a: int, b: int) -> int
    decreases magnitude(a) + magnitude(b),
{
    if is_constant_bits(a) && is_constant_bits(b) {
        if a == b {
            0
        } else {
            -1
        }
    } else {
        2 * bit_xor(a / 2, b / 2) + low_bit_xor(a, b)
    }
}

/// `bit_xor` works bit by bit: the lowest bit of the result is the
/// exclusive-or of the lowest bits, and the rest is the exclusive-or of the
/// rests.
pub proof fn lemma_bit_xor_unfold(a: int, b: int)
    ensures
        bit_xor(a, b) == 2 * bit_xor(a / 2, b / 2) + low_bit_xor(a, b),
        bit_xor(a, b) / 2 == bit_xor(a / 2, b / 2),
        bit_xor(a, b) % 2 == low_bit_xor(a, b),
{
    if is_constant_bits(a) && is_constant_bits(b) {
        assert(a / 2 == a && b / 2 == b);
    }
}

/// Exclusive-or with the same operand twice gives the first operand back.
pub proof fn lemma_bit_xor_involution(a: int, b: int)
    ensures
        bit_xor(bit_xor(a, b), b) == a,
    decreases magnitude(a) + magnitude(b),
{
    let x = bit_xor(a, b);
    if is_constant_bits(a) && is_constant_bits(b) {
        assert(is_constant_bits(x));
    } else {
        lemma_bit_xor_unfold(a, b);
        lemma_bit_xor_unfold(x, b);
        lemma_bit_xor_involution(a / 2, b / 2);
        assert(low_bit_xor(x, b) == a % 2);
    }
}

/// The Euclidean remainder lies from zero up to the magnitude of the
/// modulus, differs from the dividend by a multiple of the modulus, and is the
/// truncated remainder, moved up by the magnitude of the modulus when that
/// one is negative.
pub proof fn lemma_euclidean_rem(a: int, m: int)
    requires
        m != 0,
    ensures
        0 <= euclidean_rem(a, m) < magnitude(m),
        (a - euclidean_rem(a, m)) % magnitude(m) == 0,
        a - euclidean_rem(a, m) == (if m > 0 {
            a / magnitude(m)
        } else {
            -(a / magnitude(m))
        }) * m,
        euclidean_rem(a, m) == if truncated_rem(a, m) < 0 {
            truncated_rem(a, m) + magnitude(m)
        } else {
            truncated_rem(a, m)
        },
{
    let d = magnitude(m);
    let q = a / d;
    lemma_mod_of_negation(a, d);
    lemma_fundamental_div_mod(a, d);
    assert(a - a % d == d * q);
    lemma_mod_multiples_basic(q, d);
    assert(d * q == q * d) by (nonlinear_arith);
    if m > 0 {
        assert(d * q == q * m) by (nonlinear_arith)
            requires
                d == m,
        ;
    } else {
        assert(d * q == (-q) * m) by (nonlinear_arith)
            requires
                d == -m,
        ;
    }
}

/// How the Euclidean remainder of `-a` follows from that of `a`.
pub proof fn lemma_mod_of_negation(a: int, m: int)
    requires
        m > 0,
    ensures
        (-a) % m == if a % m == 0 {
            0
        } else {
            m - a % m
        },
{
    let q = a / m;
    let r = a % m;
    lemma_fundamental_div_mod(a, m);
    assert(a == m * q + r);
    if r == 0 {
        assert(-a == m * (-q)) by (nonlinear_arith)
            requires
                a == m * q + r,
                r == 0,
        ;
        lemma_fundamental_div_mod_converse(-a, m, -q, 0);
    } else {
        assert(-a == m * (-q - 1) + (m - r)) by (nonlinear_arith)
            requires
                a == m * q + r,
        ;
        lemma_fundamental_div_mod_converse(-a, m, -q - 1, m - r);
    }
}

/// Two inverses of `a` modulo `m` leave the same remainder.
pub proof fn lemma_inverses_congruent(a: int, x: int, y: int, m: int)
    requires
        m != 0,
        is_inverse_mod(a, x, m),
        is_inverse_mod(a, y, m),
    ensures
        x % magnitude(m) == y % magnitude(m),
{
    let d = magnitude(m);
    let p = (a * x - 1) / d;
    let q = (a * y - 1) / d;
    lemma_fundamental_div_mod(a * x - 1, d);
    lemma_fundamental_div_mod(a * y - 1, d);
    let k = y * p - x * q;
    assert(x - y == k * d) by (nonlinear_arith)
        requires
            a * x - 1 == d * p,
            a * y - 1 == d * q,
            k == y * p - x * q,
    ;
    lemma_mod_multiples_basic(k, d);
    lemma_mod_equivalence(x, y, d);
}

/// Powers of numbers that leave the same remainder leave the same remainder.
pub proof fn lemma_pow_congruent(x: int, y: int, k: nat, d: int)
    requires
        d > 0,
        x % d == y % d,
    ensures
        pow(x, k) % d == pow(y, k) % d,
{
    lemma_pow_mod_noop(x, k, d);
    lemma_pow_mod_noop(y, k, d);
}

/// The floored remainder depends on the Euclidean remainder alone.
pub proof fn lemma_floor_mod_congruent(u: int, v: int, m: int)
    requires
        m != 0,
        u % magnitude(m) == v % magnitude(m),
    ensures
        floor_mod(u, m) == floor_mod(v, m),
{
    if m < 0 {
        lemma_mod_of_negation(u, -m);
        lemma_mod_of_negation(v, -m);
    }
}

/// Whichever inverse of `a` is raised to a power, the floored remainder of
/// the power is that of the power of `mod_inverse(a, m)`.
pub proof fn lemma_power_of_any_inverse(a: int, x: int, k: nat, m: int)
    requires
        m != 0,
        is_inverse_mod(a, x, m),
    ensures
        invertible_mod(a, m),
        floor_mod(pow(x, k), m) == floor_mod(pow(mod_inverse(a, m), k), m),
{
    let y = mod_inverse(a, m);
    lemma_inverses_congruent(a, x, y, m);
    lemma_pow_congruent(x, y, k, magnitude(m));
    lemma_floor_mod_congruent(pow(x, k), pow(y, k), m);
}

/// The floored remainder lies on the side of the modulus, and leaves the
/// Euclidean remainder of the dividend.
pub proof fn lemma_floor_mod_range(u: int, m: int)
    requires
        m != 0,
    ensures
        in_floor_range(floor_mod(u, m), m),
        floor_mod(u, m) % magnitude(m) == u % magnitude(m),
{
    let d = magnitude(m);
    if m > 0 {
        lemma_mod_twice(u, m);
    } else {
        let t = (-u) % d;
        lemma_mod_of_negation(-u, d);
        lemma_mod_of_negation(t, d);
        lemma_mod_twice(-u, d);
        lemma_mod_twice(u, d);
    }
}

/// The power of an inverse is an inverse of the power, also after the
/// floored remainder is taken.
pub proof fn lemma_power_of_inverse_inverts(a: int, y: int, k: nat, m: int)
    requires
        m != 0,
        is_inverse_mod(a, y, m),
    ensures
        is_inverse_mod(pow(a, k), floor_mod(pow(y, k), m), m),
{
    let d = magnitude(m);
    let p = pow(a, k);
    let q = pow(y, k);
    let r = floor_mod(q, m);
    lemma_floor_mod_range(q, m);
    lemma_mul_mod_noop_right(p, r, d);
    lemma_mul_mod_noop_right(p, q, d);
    assert((p * r) % d == (p * q) % d);
    lemma_pow_distributes(a, y, k);
    assert(p * q == pow(a * y, k));
    lemma_mod_equivalence(a * y, 1, d);
    lemma_pow_congruent(a * y, 1, k, d);
    lemma1_pow(k);
    lemma_mod_equivalence(p * r, 1, d);
}

} // verus!
