//! Congruences modulo the field modulus, and the inverses of the powers
//! of two.

use crate::field::fadd;
use crate::field::fmul;
use crate::field::fneg;
use crate::field::fsub;
use crate::field::modulus;
use vstd::arithmetic::div_mod::*;
use vstd::arithmetic::mul::*;
use vstd::arithmetic::power::*;
use vstd::arithmetic::power2::*;
use vstd::prelude::*;

verus! {

/// Two integers stand for the same element of the field.
pub open spec fn cong(a: int, b: int) -> bool {
    a % (modulus() as int) == b % (modulus() as int)
}

/// The modulus is an odd number of 255 bits.
pub proof fn lemma_modulus_bounds()
    ensures
        pow2(254) < modulus() < pow2(255),
        pow2(64) < modulus(),
        modulus() % 2 == 1,
{
    lemma2_to64();
    lemma2_to64_rest();
    lemma_pow2_adds(64, 64);
    lemma_pow2_adds(128, 64);
    lemma_pow2_adds(192, 62);
    lemma_pow2_adds(192, 63);
    let b: int = 0x1_0000_0000_0000_0000;
    assert(pow2(62) == 0x4000_0000_0000_0000);
    assert(pow2(63) == 0x8000_0000_0000_0000);
    assert(pow2(128) == b * b);
    assert(pow2(192) == b * b * b);
    assert(pow2(254) == b * b * b * 0x4000_0000_0000_0000);
    assert(pow2(255) == b * b * b * 0x8000_0000_0000_0000);
    lemma_pow2_strictly_increases(64, 254);
}

/// Reducing an integer does not change the element it stands for.
pub proof fn lemma_cong_mod(a: int)
    ensures
        cong(a % (modulus() as int), a),
        0 <= a % (modulus() as int) < modulus(),
{
    lemma_mod_twice(a, modulus() as int);
    lemma_mod_bound(a, modulus() as int);
}

/// Congruent summands give congruent sums.
pub proof fn lemma_cong_add(a: int, b: int, c: int, d: int)
    requires
        cong(a, b),
        cong(c, d),
    ensures
        cong(a + c, b + d),
{
    lemma_add_mod_noop(a, c, modulus() as int);
    lemma_add_mod_noop(b, d, modulus() as int);
}

/// Congruent terms give congruent differences.
pub proof fn lemma_cong_sub(a: int, b: int, c: int, d: int)
    requires
        cong(a, b),
        cong(c, d),
    ensures
        cong(a - c, b - d),
{
    lemma_sub_mod_noop(a, c, modulus() as int);
    lemma_sub_mod_noop(b, d, modulus() as int);
}

/// Congruent factors give congruent products.
pub proof fn lemma_cong_mul(a: int, b: int, c: int, d: int)
    requires
        cong(a, b),
        cong(c, d),
    ensures
        cong(a * c, b * d),
{
    lemma_mul_mod_noop(a, c, modulus() as int);
    lemma_mul_mod_noop(b, d, modulus() as int);
}

/// Two reduced integers that are congruent are equal.
pub proof fn lemma_cong_small(a: int, b: int)
    requires
        cong(a, b),
        0 <= a < modulus(),
        0 <= b < modulus(),
    ensures
        a == b,
{
    lemma_small_mod(a as nat, modulus());
    lemma_small_mod(b as nat, modulus());
}

/// The sum in the field is reduced and stands for the sum of the integers.
pub proof fn lemma_fadd(a: nat, b: nat)
    ensures
        cong(fadd(a, b) as int, (a + b) as int),
        fadd(a, b) < modulus(),
{
    lemma_cong_mod((a + b) as int);
}

/// The difference in the field is reduced and stands for the difference of
/// the integers.
pub proof fn lemma_fsub(a: nat, b: nat)
    ensures
        cong(fsub(a, b) as int, a - b),
        fsub(a, b) < modulus(),
{
    lemma_cong_mod(a - b);
}

/// The product in the field is reduced and stands for the product of the
/// integers.
pub proof fn lemma_fmul(a: nat, b: nat)
    ensures
        cong(fmul(a, b) as int, (a * b) as int),
        fmul(a, b) < modulus(),
{
    lemma_cong_mod((a * b) as int);
}

/// The negation in the field is reduced and stands for the negated integer.
pub proof fn lemma_fneg(a: nat)
    ensures
        cong(fneg(a) as int, -a),
        fneg(a) < modulus(),
{
    lemma_cong_mod(0 - a);
}

/// A factor that has an inverse can be cancelled from a congruence.
pub proof fn lemma_cong_cancel(a: int, inverse: int, x: int, y: int)
    requires
        cong(a * inverse, 1),
        cong(a * x, a * y),
    ensures
        cong(x, y),
{
    lemma_cong_mul(a * x, a * y, inverse, inverse);
    assert((a * x) * inverse == (a * inverse) * x) by (nonlinear_arith);
    assert((a * y) * inverse == (a * inverse) * y) by (nonlinear_arith);
    lemma_cong_mul(a * inverse, 1, x, x);
    lemma_cong_mul(a * inverse, 1, y, y);
    assert(1 * x == x && 1 * y == y);
}

/// A reduced integer has at most one reduced inverse.
pub proof fn lemma_inverse_unique(a: nat, r1: nat, r2: nat)
    requires
        fmul(a, r1) == 1,
        fmul(a, r2) == 1,
        r1 < modulus(),
        r2 < modulus(),
    ensures
        r1 == r2,
{
    lemma_modulus_bounds();
    lemma_small_mod(1, modulus());
    assert(cong((a * r1) as int, 1));
    assert(cong((a * r2) as int, 1));
    lemma_cong_cancel(a as int, r1 as int, r1 as int, r2 as int);
    lemma_cong_small(r1 as int, r2 as int);
}

/// The inverse of two: (p + 1) / 2.
pub open spec fn half() -> nat {
    (modulus() + 1) / 2
}

/// The inverse of 2^k in the field.
pub open spec fn inv_pow2(k: nat) -> nat {
    (pow(half() as int, k) % (modulus() as int)) as nat
}

/// `inv_pow2(k)` is the reduced inverse of 2^k.
pub proof fn lemma_inv_pow2(k: nat)
    ensures
        cong((pow2(k) * inv_pow2(k)) as int, 1),
        cong(pow2(k) * pow(half() as int, k), 1),
        inv_pow2(k) < modulus(),
        fmul(pow2(k), inv_pow2(k)) == 1,
    decreases k,
{
    lemma_modulus_bounds();
    let p = modulus() as int;
    let h = half() as int;
    lemma_small_mod(1, modulus());
    lemma_cong_mod(pow(h, k));
    if k == 0 {
        lemma_pow0(h);
        lemma2_to64();
        assert(pow2(0) * pow(h, 0) == 1);
    } else {
        lemma_inv_pow2((k - 1) as nat);
        lemma_pow2_unfold(k);
        reveal(pow);
        let a = pow2((k - 1) as nat) as int;
        let b = pow(h, (k - 1) as nat);
        assert(pow(h, k) == h * b);
        assert(pow2(k) * pow(h, k) == (a * b) * (2 * h)) by (nonlinear_arith)
            requires
                pow2(k) == 2 * a,
                pow(h, k) == h * b,
        ;
        assert(2 * h == p + 1);
        lemma_mod_add_multiples_vanish(1, p);
        assert(cong(2 * h, 1));
        lemma_cong_mul(a * b, 1, 2 * h, 1);
    }
    lemma_cong_mul(pow2(k) as int, pow2(k) as int, inv_pow2(k) as int, pow(h, k));
    lemma_fmul(pow2(k), inv_pow2(k));
    lemma_cong_small(fmul(pow2(k), inv_pow2(k)) as int, 1);
}

/// A reduced inverse of 2^k, found in whatever way, is `inv_pow2(k)`.
pub proof fn lemma_inv_pow2_unique(k: nat, a: nat, r: nat)
    requires
        a % modulus() == pow2(k) % modulus(),
        fmul(a, r) == 1,
        r < modulus(),
    ensures
        r == inv_pow2(k),
{
    lemma_inv_pow2(k);
    lemma_cong_mul(a as int, pow2(k) as int, r as int, r as int);
    lemma_fmul(pow2(k), r);
    lemma_small_mod(1, modulus());
    lemma_modulus_bounds();
    lemma_cong_small(fmul(pow2(k), r) as int, 1);
    lemma_inverse_unique(pow2(k), r, inv_pow2(k));
}

/// A product in the field vanishes only where a factor does.
pub open spec fn no_zero_divisors() -> bool {
    forall|a: nat, b: nat|
        0 < a < modulus() && 0 < b < modulus() ==> #[trigger] fmul(a, b) != 0
}

/// An element and its negation add up to zero.
pub proof fn lemma_fadd_fneg(a: nat)
    ensures
        fadd(a, fneg(a)) == 0,
{
    lemma_fneg(a);
    lemma_fadd(a, fneg(a));
    lemma_cong_add(a as int, a as int, fneg(a) as int, -a);
    lemma_modulus_bounds();
    lemma_cong_small(fadd(a, fneg(a)) as int, 0);
}

/// A product with zero is zero.
pub proof fn lemma_fmul_zero(a: nat)
    ensures
        fmul(a, 0) == 0,
        fmul(0, a) == 0,
{
    lemma_modulus_bounds();
    assert(a * 0 == 0 && 0 * a == 0) by (nonlinear_arith);
    lemma_small_mod(0, modulus());
}

/// The difference of a smaller and a greater reduced integer in the field
/// is neither zero nor out of range.
pub proof fn lemma_difference_nonzero(a: nat, b: nat)
    requires
        a < b < modulus(),
    ensures
        0 < fadd(a, fneg(b)) < modulus(),
        fadd(a, fneg(b)) == modulus() - (b - a),
{
    lemma_fneg(b);
    lemma_fadd(a, fneg(b));
    lemma_cong_add(a as int, a as int, fneg(b) as int, -b);
    let d = modulus() - (b - a);
    lemma_mod_add_multiples_vanish(a - b, modulus() as int);
    assert(cong(d, a - b));
    lemma_cong_small(fadd(a, fneg(b)) as int, d);
}

} // verus!
