//! The field modulus is prime.
//!
//! For the modulus, and for every prime above 2 that its proof rests on,
//! an element `g` is given whose powers pass the test of Lucas: modulo the
//! prime `q` the power `q - 1` of `g` is 1 and, for every prime `r` that
//! divides `q - 1`, the power `(q - 1) / r` is not. Each power is reached
//! by squaring and multiplying, one ground step at a time; powers that
//! share a part of their exponent share that part of the way.

use crate::field::fmul;
use crate::field::modulus;
use crate::modular::no_zero_divisors;
use crate::primality::is_prime;
use crate::primality::lemma_chain_step;
use crate::primality::lemma_lucas;
use crate::primality::lemma_no_prime_divides_one;
use crate::primality::lemma_powmod_basics;
use crate::primality::lemma_powmod_mul;
use crate::primality::lemma_prime_no_zero_divisors;
use crate::primality::lemma_split;
use crate::primality::only_prime_factors;
use crate::primality::powmod;
use vstd::prelude::*;

verus! {

/// One step of a chain: from the power `e` of `b` to the power `2e`, or
/// `2e + 1` where `bit` is set. Returns the new exponent.
proof fn step(b: nat, q: nat, e: nat, v: nat, bit: bool, v2: nat) -> (e2: nat)
    requires
        q >= 2,
        powmod(b, e, q) == v,
        v2 == if bit {
            (v * v * b) % q
        } else {
            (v * v) % q
        },
    ensures
        e2 == 2 * e + if bit {
            1nat
        } else {
            0nat
        },
        powmod(b, e2, q) == v2,
{
    lemma_chain_step(b, q, e, v, bit, v2);
    2 * e + if bit {
        1nat
    } else {
        0nat
    }
}

/// 2 is prime.
pub proof fn lemma_prime_2()
    ensures
        is_prime(2),
{
}

/// The power `(q - 1) / 2` of 2 modulo `q`, for `q` = 3.
proof fn lemma_power_3_over_2()
    ensures
        powmod(2nat, 1nat, 3nat) == 2nat,
{
    lemma_powmod_basics(2nat, 3nat);
    lemma_powmod_mul(2nat, 1, 1nat, 3nat);
}

/// Part 1 of the chain of `lemma_power_3_top`.
proof fn lemma_power_3_top_part_1()
    ensures
        powmod(2nat, 2nat, 3nat) == 1nat,
{
    let q: nat = 3nat;
    let b: nat = 2nat;
    lemma_powmod_basics(b, q);
    let e0: nat = 1nat;
    let v0: nat = 2nat;
    let v1: nat = 1nat;
    let e1: nat = step(b, q, e0, v0, false, v1);
}

/// The power `q - 1` of 2 modulo `q` is 1, for `q` = 3.
proof fn lemma_power_3_top()
    ensures
        powmod(2nat, 2nat, 3nat) == 1nat,
{
    lemma_power_3_over_2();
    lemma_power_3_top_part_1();
    lemma_powmod_mul(2nat, 1nat, 2nat, 3nat);
}

/// 3 is prime: the powers of 2 pass the test of Lucas.
pub proof fn lemma_prime_3()
    ensures
        is_prime(3nat),
{
    let q: nat = 3nat;
    let g: nat = 2nat;
    let factors: Seq<nat> = seq![2nat];
    lemma_prime_2();
    // No other prime divides `q - 1`.
    lemma_split(2nat, 2nat, 1nat);
    lemma_no_prime_divides_one();
    assert(factors[0] == 2nat);
    assert(only_prime_factors((q - 1) as nat, factors));
    // The powers.
    lemma_power_3_top();
    lemma_power_3_over_2();
    assert forall|i: int| 0 <= i < factors.len() implies factors[i] > 0 && (q - 1) % (
        factors[i] as int
    ) == 0 && powmod(g, ((q - 1) / (#[trigger] factors[i] as int)) as nat, q) != 1 by {
        if i == 0 {
            assert((q - 1) / (2nat as int) == 1nat);
        }
    }
    lemma_lucas(q, g, factors);
}

/// Part 1 of the chain of `lemma_power_7_over_2`.
proof fn lemma_power_7_over_2_part_1()
    ensures
        powmod(3nat, 3nat, 7nat) == 6nat,
{
    let q: nat = 7nat;
    let b: nat = 3nat;
    lemma_powmod_basics(b, q);
    let e0: nat = 1nat;
    let v0: nat = 3nat;
    let v1: nat = 6nat;
    let e1: nat = step(b, q, e0, v0, true, v1);
}

/// The power `(q - 1) / 2` of 3 modulo `q`, for `q` = 7.
proof fn lemma_power_7_over_2()
    ensures
        powmod(3nat, 3nat, 7nat) == 6nat,
{
    lemma_power_7_over_2_part_1();
    lemma_powmod_basics(3nat, 7nat);
    lemma_powmod_mul(3nat, 1, 3nat, 7nat);
}

/// Part 1 of the chain of `lemma_power_7_over_3`.
proof fn lemma_power_7_over_3_part_1()
    ensures
        powmod(3nat, 2nat, 7nat) == 2nat,
{
    let q: nat = 7nat;
    let b: nat = 3nat;
    lemma_powmod_basics(b, q);
    let e0: nat = 1nat;
    let v0: nat = 3nat;
    let v1: nat = 2nat;
    let e1: nat = step(b, q, e0, v0, false, v1);
}

/// The power `(q - 1) / 3` of 3 modulo `q`, for `q` = 7.
proof fn lemma_power_7_over_3()
    ensures
        powmod(3nat, 2nat, 7nat) == 2nat,
{
    lemma_power_7_over_3_part_1();
    lemma_powmod_basics(3nat, 7nat);
    lemma_powmod_mul(3nat, 1, 2nat, 7nat);
}

/// Part 1 of the chain of `lemma_power_7_top`.
proof fn lemma_power_7_top_part_1()
    ensures
        powmod(6nat, 2nat, 7nat) == 1nat,
{
    let q: nat = 7nat;
    let b: nat = 6nat;
    lemma_powmod_basics(b, q);
    let e0: nat = 1nat;
    let v0: nat = 6nat;
    let v1: nat = 1nat;
    let e1: nat = step(b, q, e0, v0, false, v1);
}

/// The power `q - 1` of 3 modulo `q` is 1, for `q` = 7.
proof fn lemma_power_7_top()
    ensures
        powmod(3nat, 6nat, 7nat) == 1nat,
{
    lemma_power_7_over_2();
    lemma_power_7_top_part_1();
    lemma_powmod_mul(3nat, 3nat, 2nat, 7nat);
}

/// 7 is prime: the powers of 3 pass the test of Lucas.
pub proof fn lemma_prime_7()
    ensures
        is_prime(7nat),
{
    let q: nat = 7nat;
    let g: nat = 3nat;
    let factors: Seq<nat> = seq![2nat, 3nat];
    lemma_prime_2();
    lemma_prime_3();
    // No other prime divides `q - 1`.
    lemma_split(6nat, 2nat, 3nat);
    lemma_split(3nat, 3nat, 1nat);
    lemma_no_prime_divides_one();
    assert(factors[0] == 2nat);
    assert(factors[1] == 3nat);
    assert(only_prime_factors((q - 1) as nat, factors));
    // The powers.
    lemma_power_7_top();
    lemma_power_7_over_2();
    lemma_power_7_over_3();
    assert forall|i: int| 0 <= i < factors.len() implies factors[i] > 0 && (q - 1) % (
        factors[i] as int
    ) == 0 && powmod(g, ((q - 1) / (#[trigger] factors[i] as int)) as nat, q) != 1 by {
        if i == 0 {
            assert((q - 1) / (2nat as int) == 3nat);
        } else if i == 1 {
            assert((q - 1) / (3nat as int) == 2nat);
        }
    }
    lemma_lucas(q, g, factors);
}

/// Part 1 of the chain of `lemma_power_5_over_2`.
proof fn lemma_power_5_over_2_part_1()
    ensures
        powmod(2nat, 2nat, 5nat) == 4nat,
{
    let q: nat = 5nat;
    let b: nat = 2nat;
    lemma_powmod_basics(b, q);
    let e0: nat = 1nat;
    let v0: nat = 2nat;
    let v1: nat = 4nat;
    let e1: nat = step(b, q, e0, v0, false, v1);
}

/// The power `(q - 1) / 2` of 2 modulo `q`, for `q` = 5.
proof fn lemma_power_5_over_2()
    ensures
        powmod(2nat, 2nat, 5nat) == 4nat,
{
    lemma_power_5_over_2_part_1();
    lemma_powmod_basics(2nat, 5nat);
    lemma_powmod_mul(2nat, 1, 2nat, 5nat);
}

/// Part 1 of the chain of `lemma_power_5_top`.
proof fn lemma_power_5_top_part_1()
    ensures
        powmod(4nat, 2nat, 5nat) == 1nat,
{
    let q: nat = 5nat;
    let b: nat = 4nat;
    lemma_powmod_basics(b, q);
    let e0: nat = 1nat;
    let v0: nat = 4nat;
    let v1: nat = 1nat;
    let e1: nat = step(b, q, e0, v0, false, v1);
}

/// The power `q - 1` of 2 modulo `q` is 1, for `q` = 5.
proof fn lemma_power_5_top()
    ensures
        powmod(2nat, 4nat, 5nat) == 1nat,
{
    lemma_power_5_over_2();
    lemma_power_5_top_part_1();
    lemma_powmod_mul(2nat, 2nat, 2nat, 5nat);
}

/// 5 is prime: the powers of 2 pass the test of Lucas.
pub proof fn lemma_prime_5()
    ensures
        is_prime(5nat),
{
    let q: nat = 5nat;
    let g: nat = 2nat;
    let factors: Seq<nat> = seq![2nat];
    lemma_prime_2();
    // No other prime divides `q - 1`.
    lemma_split(4nat, 2nat, 2nat);
    lemma_split(2nat, 2nat, 1nat);
    lemma_no_prime_divides_one();
    assert(factors[0] == 2nat);
    assert(only_prime_factors((q - 1) as nat, factors));
    // The powers.
    lemma_power_5_top();
    lemma_power_5_over_2();
    assert forall|i: int| 0 <= i < factors.len() implies factors[i] > 0 && (q - 1) % (
        factors[i] as int
    ) == 0 && powmod(g, ((q - 1) / (#[trigger] factors[i] as int)) as nat, q) != 1 by {
        if i == 0 {
            assert((q - 1) / (2nat as int) == 2nat);
        }
    }
    lemma_lucas(q, g, factors);
}

/// Part 1 of the chain of `lemma_power_11_over_5`.
proof fn lemma_power_11_over_5_part_1()
    ensures
        powmod(2nat, 2nat, 11nat) == 4nat,
{
    let q: nat = 11nat;
    let b: nat = 2nat;
    lemma_powmod_basics(b, q);
    let e0: nat = 1nat;
    let v0: nat = 2nat;
    let v1: nat = 4nat;
    let e1: nat = step(b, q, e0, v0, false, v1);
}

/// The power `(q - 1) / 5` of 2 modulo `q`, for `q` = 11.
proof fn lemma_power_11_over_5()
    ensures
        powmod(2nat, 2nat, 11nat) == 4nat,
{
    lemma_power_11_over_5_part_1();
    lemma_powmod_basics(2nat, 11nat);
    lemma_powmod_mul(2nat, 1, 2nat, 11nat);
}

/// Part 1 of the chain of `lemma_power_11_over_2`.
proof fn lemma_power_11_over_2_part_1()
    ensures
        powmod(2nat, 5nat, 11nat) == 10nat,
{
    let q: nat = 11nat;
    let b: nat = 2nat;
    lemma_powmod_basics(b, q);
    let e0: nat = 1nat;
    let v0: nat = 2nat;
    let v1: nat = 4nat;
    let e1: nat = step(b, q, e0, v0, false, v1);
    let v2: nat = 10nat;
    let e2: nat = step(b, q, e1, v1, true, v2);
}

/// The power `(q - 1) / 2` of 2 modulo `q`, for `q` = 11.
proof fn lemma_power_11_over_2()
    ensures
        powmod(2nat, 5nat, 11nat) == 10nat,
{
    lemma_power_11_over_2_part_1();
    lemma_powmod_basics(2nat, 11nat);
    lemma_powmod_mul(2nat, 1, 5nat, 11nat);
}

/// Part 1 of the chain of `lemma_power_11_top`.
proof fn lemma_power_11_top_part_1()
    ensures
        powmod(10nat, 2nat, 11nat) == 1nat,
{
    let q: nat = 11nat;
    let b: nat = 10nat;
    lemma_powmod_basics(b, q);
    let e0: nat = 1nat;
    let v0: nat = 10nat;
    let v1: nat = 1nat;
    let e1: nat = step(b, q, e0, v0, false, v1);
}

/// The power `q - 1` of 2 modulo `q` is 1, for `q` = 11.
proof fn lemma_power_11_top()
    ensures
        powmod(2nat, 10nat, 11nat) == 1nat,
{
    lemma_power_11_over_2();
    lemma_power_11_top_part_1();
    lemma_powmod_mul(2nat, 5nat, 2nat, 11nat);
}

/// 11 is prime: the powers of 2 pass the test of Lucas.
pub proof fn lemma_prime_11()
    ensures
        is_prime(11nat),
{
    let q: nat = 11nat;
    let g: nat = 2nat;
    let factors: Seq<nat> = seq![2nat, 5nat];
    lemma_prime_2();
    lemma_prime_5();
    // No other prime divides `q - 1`.
    lemma_split(10nat, 2nat, 5nat);
    lemma_split(5nat, 5nat, 1nat);
    lemma_no_prime_divides_one();
    assert(factors[0] == 2nat);
    assert(factors[1] == 5nat);
    assert(only_prime_factors((q - 1) as nat, factors));
    // The powers.
    lemma_power_11_top();
    lemma_power_11_over_2();
    lemma_power_11_over_5();
    assert forall|i: int| 0 <= i < factors.len() implies factors[i] > 0 && (q - 1) % (
        factors[i] as int
    ) == 0 && powmod(g, ((q - 1) / (#[trigger] factors[i] as int)) as nat, q) != 1 by {
        if i == 0 {
            assert((q - 1) / (2nat as int) == 5nat);
        } else if i == 1 {
            assert((q - 1) / (5nat as int) == 2nat);
        }
    }
    lemma_lucas(q, g, factors);
}

/// Part 1 of the chain of `lemma_power_463_shared_1`.
proof fn lemma_power_463_shared_1_part_1()
    ensures
        powmod(3nat, 14nat, 463nat) == 179nat,
{
    let q: nat = 463nat;
    let b: nat = 3nat;
    lemma_powmod_basics(b, q);
    let e0: nat = 1nat;
    let v0: nat = 3nat;
    let v1: nat = 27nat;
    let e1: nat = step(b, q, e0, v0, true, v1);
    let v2: nat = 335nat;
    let e2: nat = step(b, q, e1, v1, true, v2);
    let v3: nat = 179nat;
    let e3: nat = step(b, q, e2, v2, false, v3);
}

/// A power of 3 modulo 463 that the powers `(q - 1) / r` share for `r` = 3
/// and 11.
proof fn lemma_power_463_shared_1()
    ensures
        powmod(3nat, 14nat, 463nat) == 179nat,
{
    lemma_power_463_shared_1_part_1();
    lemma_powmod_basics(3nat, 463nat);
    lemma_powmod_mul(3nat, 1, 14nat, 463nat);
}

/// Part 1 of the chain of `lemma_power_463_over_11`.
proof fn lemma_power_463_over_11_part_1()
    ensures
        powmod(179nat, 3nat, 463nat) == 158nat,
{
    let q: nat = 463nat;
    let b: nat = 179nat;
    lemma_powmod_basics(b, q);
    let e0: nat = 1nat;
    let v0: nat = 179nat;
    let v1: nat = 158nat;
    let e1: nat = step(b, q, e0, v0, true, v1);
}

/// The power `(q - 1) / 11` of 3 modulo `q`, for `q` = 463.
proof fn lemma_power_463_over_11()
    ensures
        powmod(3nat, 42nat, 463nat) == 158nat,
{
    lemma_power_463_shared_1();
    lemma_power_463_over_11_part_1();
    lemma_powmod_mul(3nat, 14nat, 3nat, 463nat);
}

/// Part 1 of the chain of `lemma_power_463_over_3`.
proof fn lemma_power_463_over_3_part_1()
    ensures
        powmod(179nat, 11nat, 463nat) == 21nat,
{
    let q: nat = 463nat;
    let b: nat = 179nat;
    lemma_powmod_basics(b, q);
    let e0: nat = 1nat;
    let v0: nat = 179nat;
    let v1: nat = 94nat;
    let e1: nat = step(b, q, e0, v0, false, v1);
    let v2: nat = 36nat;
    let e2: nat = step(b, q, e1, v1, true, v2);
    let v3: nat = 21nat;
    let e3: nat = step(b, q, e2, v2, true, v3);
}

/// The power `(q - 1) / 3` of 3 modulo `q`, for `q` = 463.
proof fn lemma_power_463_over_3()
    ensures
        powmod(3nat, 154nat, 463nat) == 21nat,
{
    lemma_power_463_shared_1();
    lemma_power_463_over_3_part_1();
    lemma_powmod_mul(3nat, 14nat, 11nat, 463nat);
}

/// Part 1 of the chain of `lemma_power_463_shared_2`.
proof fn lemma_power_463_shared_2_part_1()
    ensures
        powmod(3nat, 33nat, 463nat) == 155nat,
{
    let q: nat = 463nat;
    let b: nat = 3nat;
    lemma_powmod_basics(b, q);
    let e0: nat = 1nat;
    let v0: nat = 3nat;
    let v1: nat = 9nat;
    let e1: nat = step(b, q, e0, v0, false, v1);
    let v2: nat = 81nat;
    let e2: nat = step(b, q, e1, v1, false, v2);
    let v3: nat = 79nat;
    let e3: nat = step(b, q, e2, v2, false, v3);
    let v4: nat = 222nat;
    let e4: nat = step(b, q, e3, v3, false, v4);
    let v5: nat = 155nat;
    let e5: nat = step(b, q, e4, v4, true, v5);
}

/// A power of 3 modulo 463 that the powers `(q - 1) / r` share for `r` = 2
/// and 7.
proof fn lemma_power_463_shared_2()
    ensures
        powmod(3nat, 33nat, 463nat) == 155nat,
{
    lemma_power_463_shared_2_part_1();
    lemma_powmod_basics(3nat, 463nat);
    lemma_powmod_mul(3nat, 1, 33nat, 463nat);
}

/// Part 1 of the chain of `lemma_power_463_over_7`.
proof fn lemma_power_463_over_7_part_1()
    ensures
        powmod(155nat, 2nat, 463nat) == 412nat,
{
    let q: nat = 463nat;
    let b: nat = 155nat;
    lemma_powmod_basics(b, q);
    let e0: nat = 1nat;
    let v0: nat = 155nat;
    let v1: nat = 412nat;
    let e1: nat = step(b, q, e0, v0, false, v1);
}

/// The power `(q - 1) / 7` of 3 modulo `q`, for `q` = 463.
proof fn lemma_power_463_over_7()
    ensures
        powmod(3nat, 66nat, 463nat) == 412nat,
{
    lemma_power_463_shared_2();
    lemma_power_463_over_7_part_1();
    lemma_powmod_mul(3nat, 33nat, 2nat, 463nat);
}

/// Part 1 of the chain of `lemma_power_463_over_2`.
proof fn lemma_power_463_over_2_part_1()
    ensures
        powmod(155nat, 7nat, 463nat) == 462nat,
{
    let q: nat = 463nat;
    let b: nat = 155nat;
    lemma_powmod_basics(b, q);
    let e0: nat = 1nat;
    let v0: nat = 155nat;
    let v1: nat = 429nat;
    let e1: nat = step(b, q, e0, v0, true, v1);
    let v2: nat = 462nat;
    let e2: nat = step(b, q, e1, v1, true, v2);
}

/// The power `(q - 1) / 2` of 3 modulo `q`, for `q` = 463.
proof fn lemma_power_463_over_2()
    ensures
        powmod(3nat, 231nat, 463nat) == 462nat,
{
    lemma_power_463_shared_2();
    lemma_power_463_over_2_part_1();
    lemma_powmod_mul(3nat, 33nat, 7nat, 463nat);
}

/// Part 1 of the chain of `lemma_power_463_top`.
proof fn lemma_power_463_top_part_1()
    ensures
        powmod(462nat, 2nat, 463nat) == 1nat,
{
    let q: nat = 463nat;
    let b: nat = 462nat;
    lemma_powmod_basics(b, q);
    let e0: nat = 1nat;
    let v0: nat = 462nat;
    let v1: nat = 1nat;
    let e1: nat = step(b, q, e0, v0, false, v1);
}

/// The power `q - 1` of 3 modulo `q` is 1, for `q` = 463.
proof fn lemma_power_463_top()
    ensures
        powmod(3nat, 462nat, 463nat) == 1nat,
{
    lemma_power_463_over_2();
    lemma_power_463_top_part_1();
    lemma_powmod_mul(3nat, 231nat, 2nat, 463nat);
}

/// 463 is prime: the powers of 3 pass the test of Lucas.
pub proof fn lemma_prime_463()
    ensures
        is_prime(463nat),
{
    let q: nat = 463nat;
    let g: nat = 3nat;
    let factors: Seq<nat> = seq![2nat, 3nat, 7nat, 11nat];
    lemma_prime_2();
    lemma_prime_3();
    lemma_prime_7();
    lemma_prime_11();
    // No other prime divides `q - 1`.
    lemma_split(462nat, 2nat, 231nat);
    lemma_split(231nat, 3nat, 77nat);
    lemma_split(77nat, 7nat, 11nat);
    lemma_split(11nat, 11nat, 1nat);
    lemma_no_prime_divides_one();
    assert(factors[0] == 2nat);
    assert(factors[1] == 3nat);
    assert(factors[2] == 7nat);
    assert(factors[3] == 11nat);
    assert(only_prime_factors((q - 1) as nat, factors));
    // The powers.
    lemma_power_463_top();
    lemma_power_463_over_2();
    lemma_power_463_over_3();
    lemma_power_463_over_7();
    lemma_power_463_over_11();
    assert forall|i: int| 0 <= i < factors.len() implies factors[i] > 0 && (q - 1) % (
        factors[i] as int
    ) == 0 && powmod(g, ((q - 1) / (#[trigger] factors[i] as int)) as nat, q) != 1 by {
        if i == 0 {
            assert((q - 1) / (2nat as int) == 231nat);
        } else if i == 1 {
            assert((q - 1) / (3nat as int) == 154nat);
        } else if i == 2 {
            assert((q - 1) / (7nat as int) == 66nat);
        } else if i == 3 {
            assert((q - 1) / (11nat as int) == 42nat);
        }
    }
    lemma_lucas(q, g, factors);
}

/// Part 1 of the chain of `lemma_power_89_shared_1`.
proof fn lemma_power_89_shared_1_part_1()
    ensures
        powmod(3nat, 11nat, 89nat) == 37nat,
{
    let q: nat = 89nat;
    let b: nat = 3nat;
    lemma_powmod_basics(b, q);
    let e0: nat = 1nat;
    let v0: nat = 3nat;
    let v1: nat = 9nat;
    let e1: nat = step(b, q, e0, v0, false, v1);
    let v2: nat = 65nat;
    let e2: nat = step(b, q, e1, v1, true, v2);
    let v3: nat = 37nat;
    let e3: nat = step(b, q, e2, v2, true, v3);
}

/// A power of 3 modulo 89 that the powers `(q - 1) / r` share for `r` = 2.
proof fn lemma_power_89_shared_1()
    ensures
        powmod(3nat, 11nat, 89nat) == 37nat,
{
    lemma_power_89_shared_1_part_1();
    lemma_powmod_basics(3nat, 89nat);
    lemma_powmod_mul(3nat, 1, 11nat, 89nat);
}

/// Part 1 of the chain of `lemma_power_89_over_2`.
proof fn lemma_power_89_over_2_part_1()
    ensures
        powmod(37nat, 4nat, 89nat) == 88nat,
{
    let q: nat = 89nat;
    let b: nat = 37nat;
    lemma_powmod_basics(b, q);
    let e0: nat = 1nat;
    let v0: nat = 37nat;
    let v1: nat = 34nat;
    let e1: nat = step(b, q, e0, v0, false, v1);
    let v2: nat = 88nat;
    let e2: nat = step(b, q, e1, v1, false, v2);
}

/// The power `(q - 1) / 2` of 3 modulo `q`, for `q` = 89.
proof fn lemma_power_89_over_2()
    ensures
        powmod(3nat, 44nat, 89nat) == 88nat,
{
    lemma_power_89_shared_1();
    lemma_power_89_over_2_part_1();
    lemma_powmod_mul(3nat, 11nat, 4nat, 89nat);
}

/// Part 1 of the chain of `lemma_power_89_over_11`.
proof fn lemma_power_89_over_11_part_1()
    ensures
        powmod(3nat, 8nat, 89nat) == 64nat,
{
    let q: nat = 89nat;
    let b: nat = 3nat;
    lemma_powmod_basics(b, q);
    let e0: nat = 1nat;
    let v0: nat = 3nat;
    let v1: nat = 9nat;
    let e1: nat = step(b, q, e0, v0, false, v1);
    let v2: nat = 81nat;
    let e2: nat = step(b, q, e1, v1, false, v2);
    let v3: nat = 64nat;
    let e3: nat = step(b, q, e2, v2, false, v3);
}

/// The power `(q - 1) / 11` of 3 modulo `q`, for `q` = 89.
proof fn lemma_power_89_over_11()
    ensures
        powmod(3nat, 8nat, 89nat) == 64nat,
{
    lemma_power_89_over_11_part_1();
    lemma_powmod_basics(3nat, 89nat);
    lemma_powmod_mul(3nat, 1, 8nat, 89nat);
}

/// Part 1 of the chain of `lemma_power_89_top`.
proof fn lemma_power_89_top_part_1()
    ensures
        powmod(88nat, 2nat, 89nat) == 1nat,
{
    let q: nat = 89nat;
    let b: nat = 88nat;
    lemma_powmod_basics(b, q);
    let e0: nat = 1nat;
    let v0: nat = 88nat;
    let v1: nat = 1nat;
    let e1: nat = step(b, q, e0, v0, false, v1);
}

/// The power `q - 1` of 3 modulo `q` is 1, for `q` = 89.
proof fn lemma_power_89_top()
    ensures
        powmod(3nat, 88nat, 89nat) == 1nat,
{
    lemma_power_89_over_2();
    lemma_power_89_top_part_1();
    lemma_powmod_mul(3nat, 44nat, 2nat, 89nat);
}

/// 89 is prime: the powers of 3 pass the test of Lucas.
pub proof fn lemma_prime_89()
    ensures
        is_prime(89nat),
{
    let q: nat = 89nat;
    let g: nat = 3nat;
    let factors: Seq<nat> = seq![2nat, 11nat];
    lemma_prime_2();
    lemma_prime_11();
    // No other prime divides `q - 1`.
    lemma_split(88nat, 2nat, 44nat);
    lemma_split(44nat, 2nat, 22nat);
    lemma_split(22nat, 2nat, 11nat);
    lemma_split(11nat, 11nat, 1nat);
    lemma_no_prime_divides_one();
    assert(factors[0] == 2nat);
    assert(factors[1] == 11nat);
    assert(only_prime_factors((q - 1) as nat, factors));
    // The powers.
    lemma_power_89_top();
    lemma_power_89_over_2();
    lemma_power_89_over_11();
    assert forall|i: int| 0 <= i < factors.len() implies factors[i] > 0 && (q - 1) % (
        factors[i] as int
    ) == 0 && powmod(g, ((q - 1) / (#[trigger] factors[i] as int)) as nat, q) != 1 by {
        if i == 0 {
            assert((q - 1) / (2nat as int) == 44nat);
        } else if i == 1 {
            assert((q - 1) / (11nat as int) == 8nat);
        }
    }
    lemma_lucas(q, g, factors);
}

/// Part 1 of the chain of `lemma_power_23_over_11`.
proof fn lemma_power_23_over_11_part_1()
    ensures
        powmod(5nat, 2nat, 23nat) == 2nat,
{
    let q: nat = 23nat;
    let b: nat = 5nat;
    lemma_powmod_basics(b, q);
    let e0: nat = 1nat;
    let v0: nat = 5nat;
    let v1: nat = 2nat;
    let e1: nat = step(b, q, e0, v0, false, v1);
}

/// The power `(q - 1) / 11` of 5 modulo `q`, for `q` = 23.
proof fn lemma_power_23_over_11()
    ensures
        powmod(5nat, 2nat, 23nat) == 2nat,
{
    lemma_power_23_over_11_part_1();
    lemma_powmod_basics(5nat, 23nat);
    lemma_powmod_mul(5nat, 1, 2nat, 23nat);
}

/// Part 1 of the chain of `lemma_power_23_over_2`.
proof fn lemma_power_23_over_2_part_1()
    ensures
        powmod(5nat, 11nat, 23nat) == 22nat,
{
    let q: nat = 23nat;
    let b: nat = 5nat;
    lemma_powmod_basics(b, q);
    let e0: nat = 1nat;
    let v0: nat = 5nat;
    let v1: nat = 2nat;
    let e1: nat = step(b, q, e0, v0, false, v1);
    let v2: nat = 20nat;
    let e2: nat = step(b, q, e1, v1, true, v2);
    let v3: nat = 22nat;
    let e3: nat = step(b, q, e2, v2, true, v3);
}

/// The power `(q - 1) / 2` of 5 modulo `q`, for `q` = 23.
proof fn lemma_power_23_over_2()
    ensures
        powmod(5nat, 11nat, 23nat) == 22nat,
{
    lemma_power_23_over_2_part_1();
    lemma_powmod_basics(5nat, 23nat);
    lemma_powmod_mul(5nat, 1, 11nat, 23nat);
}

/// Part 1 of the chain of `lemma_power_23_top`.
proof fn lemma_power_23_top_part_1()
    ensures
        powmod(22nat, 2nat, 23nat) == 1nat,
{
    let q: nat = 23nat;
    let b: nat = 22nat;
    lemma_powmod_basics(b, q);
    let e0: nat = 1nat;
    let v0: nat = 22nat;
    let v1: nat = 1nat;
    let e1: nat = step(b, q, e0, v0, false, v1);
}

/// The power `q - 1` of 5 modulo `q` is 1, for `q` = 23.
proof fn lemma_power_23_top()
    ensures
        powmod(5nat, 22nat, 23nat) == 1nat,
{
    lemma_power_23_over_2();
    lemma_power_23_top_part_1();
    lemma_powmod_mul(5nat, 11nat, 2nat, 23nat);
}

/// 23 is prime: the powers of 5 pass the test of Lucas.
pub proof fn lemma_prime_23()
    ensures
        is_prime(23nat),
{
    let q: nat = 23nat;
    let g: nat = 5nat;
    let factors: Seq<nat> = seq![2nat, 11nat];
    lemma_prime_2();
    lemma_prime_11();
    // No other prime divides `q - 1`.
    lemma_split(22nat, 2nat, 11nat);
    lemma_split(11nat, 11nat, 1nat);
    lemma_no_prime_divides_one();
    assert(factors[0] == 2nat);
    assert(factors[1] == 11nat);
    assert(only_prime_factors((q - 1) as nat, factors));
    // The powers.
    lemma_power_23_top();
    lemma_power_23_over_2();
    lemma_power_23_over_11();
    assert forall|i: int| 0 <= i < factors.len() implies factors[i] > 0 && (q - 1) % (
        factors[i] as int
    ) == 0 && powmod(g, ((q - 1) / (#[trigger] factors[i] as int)) as nat, q) != 1 by {
        if i == 0 {
            assert((q - 1) / (2nat as int) == 11nat);
        } else if i == 1 {
            assert((q - 1) / (11nat as int) == 2nat);
        }
    }
    lemma_lucas(q, g, factors);
}

/// Part 1 of the chain of `lemma_power_829_over_23`.
proof fn lemma_power_829_over_23_part_1()
    ensures
        powmod(2nat, 36nat, 829nat) == 69nat,
{
    let q: nat = 829nat;
    let b: nat = 2nat;
    lemma_powmod_basics(b, q);
    let e0: nat = 1nat;
    let v0: nat = 2nat;
    let v1: nat = 4nat;
    let e1: nat = step(b, q, e0, v0, false, v1);
    let v2: nat = 16nat;
    let e2: nat = step(b, q, e1, v1, false, v2);
    let v3: nat = 512nat;
    let e3: nat = step(b, q, e2, v2, true, v3);
    let v4: nat = 180nat;
    let e4: nat = step(b, q, e3, v3, false, v4);
    let v5: nat = 69nat;
    let e5: nat = step(b, q, e4, v4, false, v5);
}

/// The power `(q - 1) / 23` of 2 modulo `q`, for `q` = 829.
proof fn lemma_power_829_over_23()
    ensures
        powmod(2nat, 36nat, 829nat) == 69nat,
{
    lemma_power_829_over_23_part_1();
    lemma_powmod_basics(2nat, 829nat);
    lemma_powmod_mul(2nat, 1, 36nat, 829nat);
}

/// Part 1 of the chain of `lemma_power_829_shared_1`.
proof fn lemma_power_829_shared_1_part_1()
    ensures
        powmod(2nat, 23nat, 829nat) == 786nat,
{
    let q: nat = 829nat;
    let b: nat = 2nat;
    lemma_powmod_basics(b, q);
    let e0: nat = 1nat;
    let v0: nat = 2nat;
    let v1: nat = 4nat;
    let e1: nat = step(b, q, e0, v0, false, v1);
    let v2: nat = 32nat;
    let e2: nat = step(b, q, e1, v1, true, v2);
    let v3: nat = 390nat;
    let e3: nat = step(b, q, e2, v2, true, v3);
    let v4: nat = 786nat;
    let e4: nat = step(b, q, e3, v3, true, v4);
}

/// A power of 2 modulo 829 that the powers `(q - 1) / r` share for `r` = 2
/// and 3.
proof fn lemma_power_829_shared_1()
    ensures
        powmod(2nat, 23nat, 829nat) == 786nat,
{
    lemma_power_829_shared_1_part_1();
    lemma_powmod_basics(2nat, 829nat);
    lemma_powmod_mul(2nat, 1, 23nat, 829nat);
}

/// Part 1 of the chain of `lemma_power_829_shared_2`.
proof fn lemma_power_829_shared_2_part_1()
    ensures
        powmod(786nat, 4nat, 829nat) == 5nat,
{
    let q: nat = 829nat;
    let b: nat = 786nat;
    lemma_powmod_basics(b, q);
    let e0: nat = 1nat;
    let v0: nat = 786nat;
    let v1: nat = 191nat;
    let e1: nat = step(b, q, e0, v0, false, v1);
    let v2: nat = 5nat;
    let e2: nat = step(b, q, e1, v1, false, v2);
}

/// A power of 2 modulo 829 that the powers `(q - 1) / r` share for `r` = 3.
proof fn lemma_power_829_shared_2()
    ensures
        powmod(2nat, 92nat, 829nat) == 5nat,
{
    lemma_power_829_shared_1();
    lemma_power_829_shared_2_part_1();
    lemma_powmod_mul(2nat, 23nat, 4nat, 829nat);
}

/// Part 1 of the chain of `lemma_power_829_over_3`.
proof fn lemma_power_829_over_3_part_1()
    ensures
        powmod(5nat, 3nat, 829nat) == 125nat,
{
    let q: nat = 829nat;
    let b: nat = 5nat;
    lemma_powmod_basics(b, q);
    let e0: nat = 1nat;
    let v0: nat = 5nat;
    let v1: nat = 125nat;
    let e1: nat = step(b, q, e0, v0, true, v1);
}

/// The power `(q - 1) / 3` of 2 modulo `q`, for `q` = 829.
proof fn lemma_power_829_over_3()
    ensures
        powmod(2nat, 276nat, 829nat) == 125nat,
{
    lemma_power_829_shared_2();
    lemma_power_829_over_3_part_1();
    lemma_powmod_mul(2nat, 92nat, 3nat, 829nat);
}

/// Part 1 of the chain of `lemma_power_829_shared_3`.
proof fn lemma_power_829_shared_3_part_1()
    ensures
        powmod(786nat, 9nat, 829nat) == 583nat,
{
    let q: nat = 829nat;
    let b: nat = 786nat;
    lemma_powmod_basics(b, q);
    let e0: nat = 1nat;
    let v0: nat = 786nat;
    let v1: nat = 191nat;
    let e1: nat = step(b, q, e0, v0, false, v1);
    let v2: nat = 5nat;
    let e2: nat = step(b, q, e1, v1, false, v2);
    let v3: nat = 583nat;
    let e3: nat = step(b, q, e2, v2, true, v3);
}

/// A power of 2 modulo 829 that the powers `(q - 1) / r` share for `r` = 2.
proof fn lemma_power_829_shared_3()
    ensures
        powmod(2nat, 207nat, 829nat) == 583nat,
{
    lemma_power_829_shared_1();
    lemma_power_829_shared_3_part_1();
    lemma_powmod_mul(2nat, 23nat, 9nat, 829nat);
}

/// Part 1 of the chain of `lemma_power_829_over_2`.
proof fn lemma_power_829_over_2_part_1()
    ensures
        powmod(583nat, 2nat, 829nat) == 828nat,
{
    let q: nat = 829nat;
    let b: nat = 583nat;
    lemma_powmod_basics(b, q);
    let e0: nat = 1nat;
    let v0: nat = 583nat;
    let v1: nat = 828nat;
    let e1: nat = step(b, q, e0, v0, false, v1);
}

/// The power `(q - 1) / 2` of 2 modulo `q`, for `q` = 829.
proof fn lemma_power_829_over_2()
    ensures
        powmod(2nat, 414nat, 829nat) == 828nat,
{
    lemma_power_829_shared_3();
    lemma_power_829_over_2_part_1();
    lemma_powmod_mul(2nat, 207nat, 2nat, 829nat);
}

/// Part 1 of the chain of `lemma_power_829_top`.
proof fn lemma_power_829_top_part_1()
    ensures
        powmod(828nat, 2nat, 829nat) == 1nat,
{
    let q: nat = 829nat;
    let b: nat = 828nat;
    lemma_powmod_basics(b, q);
    let e0: nat = 1nat;
    let v0: nat = 828nat;
    let v1: nat = 1nat;
    let e1: nat = step(b, q, e0, v0, false, v1);
}

/// The power `q - 1` of 2 modulo `q` is 1, for `q` = 829.
proof fn lemma_power_829_top()
    ensures
        powmod(2nat, 828nat, 829nat) == 1nat,
{
    lemma_power_829_over_2();
    lemma_power_829_top_part_1();
    lemma_powmod_mul(2nat, 414nat, 2nat, 829nat);
}

/// 829 is prime: the powers of 2 pass the test of Lucas.
pub proof fn lemma_prime_829()
    ensures
        is_prime(829nat),
{
    let q: nat = 829nat;
    let g: nat = 2nat;
    let factors: Seq<nat> = seq![2nat, 3nat, 23nat];
    lemma_prime_2();
    lemma_prime_3();
    lemma_prime_23();
    // No other prime divides `q - 1`.
    lemma_split(828nat, 2nat, 414nat);
    lemma_split(414nat, 2nat, 207nat);
    lemma_split(207nat, 3nat, 69nat);
    lemma_split(69nat, 3nat, 23nat);
    lemma_split(23nat, 23nat, 1nat);
    lemma_no_prime_divides_one();
    assert(factors[0] == 2nat);
    assert(factors[1] == 3nat);
    assert(factors[2] == 23nat);
    assert(only_prime_factors((q - 1) as nat, factors));
    // The powers.
    lemma_power_829_top();
    lemma_power_829_over_2();
    lemma_power_829_over_3();
    lemma_power_829_over_23();
    assert forall|i: int| 0 <= i < factors.len() implies factors[i] > 0 && (q - 1) % (
        factors[i] as int
    ) == 0 && powmod(g, ((q - 1) / (#[trigger] factors[i] as int)) as nat, q) != 1 by {
        if i == 0 {
            assert((q - 1) / (2nat as int) == 414nat);
        } else if i == 1 {
            assert((q - 1) / (3nat as int) == 276nat);
        } else if i == 2 {
            assert((q - 1) / (23nat as int) == 36nat);
        }
    }
    lemma_lucas(q, g, factors);
}

/// Part 1 of the chain of `lemma_power_14923_over_829`.
proof fn lemma_power_14923_over_829_part_1()
    ensures
        powmod(2nat, 18nat, 14923nat) == 8453nat,
{
    let q: nat = 14923nat;
    let b: nat = 2nat;
    lemma_powmod_basics(b, q);
    let e0: nat = 1nat;
    let v0: nat = 2nat;
    let v1: nat = 4nat;
    let e1: nat = step(b, q, e0, v0, false, v1);
    let v2: nat = 16nat;
    let e2: nat = step(b, q, e1, v1, false, v2);
    let v3: nat = 512nat;
    let e3: nat = step(b, q, e2, v2, true, v3);
    let v4: nat = 8453nat;
    let e4: nat = step(b, q, e3, v3, false, v4);
}

/// The power `(q - 1) / 829` of 2 modulo `q`, for `q` = 14923.
proof fn lemma_power_14923_over_829()
    ensures
        powmod(2nat, 18nat, 14923nat) == 8453nat,
{
    lemma_power_14923_over_829_part_1();
    lemma_powmod_basics(2nat, 14923nat);
    lemma_powmod_mul(2nat, 1, 18nat, 14923nat);
}

/// Part 1 of the chain of `lemma_power_14923_shared_1`.
proof fn lemma_power_14923_shared_1_part_1()
    ensures
        powmod(2nat, 829nat, 14923nat) == 13005nat,
{
    let q: nat = 14923nat;
    let b: nat = 2nat;
    lemma_powmod_basics(b, q);
    let e0: nat = 1nat;
    let v0: nat = 2nat;
    let v1: nat = 8nat;
    let e1: nat = step(b, q, e0, v0, true, v1);
    let v2: nat = 64nat;
    let e2: nat = step(b, q, e1, v1, false, v2);
    let v3: nat = 4096nat;
    let e3: nat = step(b, q, e2, v2, false, v3);
    let v4: nat = 7528nat;
    let e4: nat = step(b, q, e3, v3, true, v4);
    let v5: nat = 1383nat;
    let e5: nat = step(b, q, e4, v4, true, v5);
    let v6: nat = 5090nat;
    let e6: nat = step(b, q, e5, v5, true, v6);
    let v7: nat = 3544nat;
    let e7: nat = step(b, q, e6, v6, true, v7);
    let v8: nat = 9693nat;
    let e8: nat = step(b, q, e7, v7, false, v8);
    let v9: nat = 13005nat;
    let e9: nat = step(b, q, e8, v8, true, v9);
}

/// A power of 2 modulo 14923 that the powers `(q - 1) / r` share for `r` = 2
/// and 3.
proof fn lemma_power_14923_shared_1()
    ensures
        powmod(2nat, 829nat, 14923nat) == 13005nat,
{
    lemma_power_14923_shared_1_part_1();
    lemma_powmod_basics(2nat, 14923nat);
    lemma_powmod_mul(2nat, 1, 829nat, 14923nat);
}

/// Part 1 of the chain of `lemma_power_14923_shared_2`.
proof fn lemma_power_14923_shared_2_part_1()
    ensures
        powmod(13005nat, 2nat, 14923nat) == 7666nat,
{
    let q: nat = 14923nat;
    let b: nat = 13005nat;
    lemma_powmod_basics(b, q);
    let e0: nat = 1nat;
    let v0: nat = 13005nat;
    let v1: nat = 7666nat;
    let e1: nat = step(b, q, e0, v0, false, v1);
}

/// A power of 2 modulo 14923 that the powers `(q - 1) / r` share for `r` = 3.
proof fn lemma_power_14923_shared_2()
    ensures
        powmod(2nat, 1658nat, 14923nat) == 7666nat,
{
    lemma_power_14923_shared_1();
    lemma_power_14923_shared_2_part_1();
    lemma_powmod_mul(2nat, 829nat, 2nat, 14923nat);
}

/// Part 1 of the chain of `lemma_power_14923_over_3`.
proof fn lemma_power_14923_over_3_part_1()
    ensures
        powmod(7666nat, 3nat, 14923nat) == 10689nat,
{
    let q: nat = 14923nat;
    let b: nat = 7666nat;
    lemma_powmod_basics(b, q);
    let e0: nat = 1nat;
    let v0: nat = 7666nat;
    let v1: nat = 10689nat;
    let e1: nat = step(b, q, e0, v0, true, v1);
}

/// The power `(q - 1) / 3` of 2 modulo `q`, for `q` = 14923.
proof fn lemma_power_14923_over_3()
    ensures
        powmod(2nat, 4974nat, 14923nat) == 10689nat,
{
    lemma_power_14923_shared_2();
    lemma_power_14923_over_3_part_1();
    lemma_powmod_mul(2nat, 1658nat, 3nat, 14923nat);
}

/// Part 1 of the chain of `lemma_power_14923_over_2`.
proof fn lemma_power_14923_over_2_part_1()
    ensures
        powmod(13005nat, 9nat, 14923nat) == 14922nat,
{
    let q: nat = 14923nat;
    let b: nat = 13005nat;
    lemma_powmod_basics(b, q);
    let e0: nat = 1nat;
    let v0: nat = 13005nat;
    let v1: nat = 7666nat;
    let e1: nat = step(b, q, e0, v0, false, v1);
    let v2: nat = 782nat;
    let e2: nat = step(b, q, e1, v1, false, v2);
    let v3: nat = 14922nat;
    let e3: nat = step(b, q, e2, v2, true, v3);
}

/// The power `(q - 1) / 2` of 2 modulo `q`, for `q` = 14923.
proof fn lemma_power_14923_over_2()
    ensures
        powmod(2nat, 7461nat, 14923nat) == 14922nat,
{
    lemma_power_14923_shared_1();
    lemma_power_14923_over_2_part_1();
    lemma_powmod_mul(2nat, 829nat, 9nat, 14923nat);
}

/// Part 1 of the chain of `lemma_power_14923_top`.
proof fn lemma_power_14923_top_part_1()
    ensures
        powmod(14922nat, 2nat, 14923nat) == 1nat,
{
    let q: nat = 14923nat;
    let b: nat = 14922nat;
    lemma_powmod_basics(b, q);
    let e0: nat = 1nat;
    let v0: nat = 14922nat;
    let v1: nat = 1nat;
    let e1: nat = step(b, q, e0, v0, false, v1);
}

/// The power `q - 1` of 2 modulo `q` is 1, for `q` = 14923.
proof fn lemma_power_14923_top()
    ensures
        powmod(2nat, 14922nat, 14923nat) == 1nat,
{
    lemma_power_14923_over_2();
    lemma_power_14923_top_part_1();
    lemma_powmod_mul(2nat, 7461nat, 2nat, 14923nat);
}

/// 14923 is prime: the powers of 2 pass the test of Lucas.
pub proof fn lemma_prime_14923()
    ensures
        is_prime(14923nat),
{
    let q: nat = 14923nat;
    let g: nat = 2nat;
    let factors: Seq<nat> = seq![2nat, 3nat, 829nat];
    lemma_prime_2();
    lemma_prime_3();
    lemma_prime_829();
    // No other prime divides `q - 1`.
    lemma_split(14922nat, 2nat, 7461nat);
    lemma_split(7461nat, 3nat, 2487nat);
    lemma_split(2487nat, 3nat, 829nat);
    lemma_split(829nat, 829nat, 1nat);
    lemma_no_prime_divides_one();
    assert(factors[0] == 2nat);
    assert(factors[1] == 3nat);
    assert(factors[2] == 829nat);
    assert(only_prime_factors((q - 1) as nat, factors));
    // The powers.
    lemma_power_14923_top();
    lemma_power_14923_over_2();
    lemma_power_14923_over_3();
    lemma_power_14923_over_829();
    assert forall|i: int| 0 <= i < factors.len() implies factors[i] > 0 && (q - 1) % (
        factors[i] as int
    ) == 0 && powmod(g, ((q - 1) / (#[trigger] factors[i] as int)) as nat, q) != 1 by {
        if i == 0 {
            assert((q - 1) / (2nat as int) == 7461nat);
        } else if i == 1 {
            assert((q - 1) / (3nat as int) == 4974nat);
        } else if i == 2 {
            assert((q - 1) / (829nat as int) == 18nat);
        }
    }
    lemma_lucas(q, g, factors);
}

/// Part 1 of the chain of `lemma_power_29_shared_1`.
proof fn lemma_power_29_shared_1_part_1()
    ensures
        powmod(2nat, 7nat, 29nat) == 12nat,
{
    let q: nat = 29nat;
    let b: nat = 2nat;
    lemma_powmod_basics(b, q);
    let e0: nat = 1nat;
    let v0: nat = 2nat;
    let v1: nat = 8nat;
    let e1: nat = step(b, q, e0, v0, true, v1);
    let v2: nat = 12nat;
    let e2: nat = step(b, q, e1, v1, true, v2);
}

/// A power of 2 modulo 29 that the powers `(q - 1) / r` share for `r` = 2.
proof fn lemma_power_29_shared_1()
    ensures
        powmod(2nat, 7nat, 29nat) == 12nat,
{
    lemma_power_29_shared_1_part_1();
    lemma_powmod_basics(2nat, 29nat);
    lemma_powmod_mul(2nat, 1, 7nat, 29nat);
}

/// Part 1 of the chain of `lemma_power_29_over_2`.
proof fn lemma_power_29_over_2_part_1()
    ensures
        powmod(12nat, 2nat, 29nat) == 28nat,
{
    let q: nat = 29nat;
    let b: nat = 12nat;
    lemma_powmod_basics(b, q);
    let e0: nat = 1nat;
    let v0: nat = 12nat;
    let v1: nat = 28nat;
    let e1: nat = step(b, q, e0, v0, false, v1);
}

/// The power `(q - 1) / 2` of 2 modulo `q`, for `q` = 29.
proof fn lemma_power_29_over_2()
    ensures
        powmod(2nat, 14nat, 29nat) == 28nat,
{
    lemma_power_29_shared_1();
    lemma_power_29_over_2_part_1();
    lemma_powmod_mul(2nat, 7nat, 2nat, 29nat);
}

/// Part 1 of the chain of `lemma_power_29_over_7`.
proof fn lemma_power_29_over_7_part_1()
    ensures
        powmod(2nat, 4nat, 29nat) == 16nat,
{
    let q: nat = 29nat;
    let b: nat = 2nat;
    lemma_powmod_basics(b, q);
    let e0: nat = 1nat;
    let v0: nat = 2nat;
    let v1: nat = 4nat;
    let e1: nat = step(b, q, e0, v0, false, v1);
    let v2: nat = 16nat;
    let e2: nat = step(b, q, e1, v1, false, v2);
}

/// The power `(q - 1) / 7` of 2 modulo `q`, for `q` = 29.
proof fn lemma_power_29_over_7()
    ensures
        powmod(2nat, 4nat, 29nat) == 16nat,
{
    lemma_power_29_over_7_part_1();
    lemma_powmod_basics(2nat, 29nat);
    lemma_powmod_mul(2nat, 1, 4nat, 29nat);
}

/// Part 1 of the chain of `lemma_power_29_top`.
proof fn lemma_power_29_top_part_1()
    ensures
        powmod(28nat, 2nat, 29nat) == 1nat,
{
    let q: nat = 29nat;
    let b: nat = 28nat;
    lemma_powmod_basics(b, q);
    let e0: nat = 1nat;
    let v0: nat = 28nat;
    let v1: nat = 1nat;
    let e1: nat = step(b, q, e0, v0, false, v1);
}

/// The power `q - 1` of 2 modulo `q` is 1, for `q` = 29.
proof fn lemma_power_29_top()
    ensures
        powmod(2nat, 28nat, 29nat) == 1nat,
{
    lemma_power_29_over_2();
    lemma_power_29_top_part_1();
    lemma_powmod_mul(2nat, 14nat, 2nat, 29nat);
}

/// 29 is prime: the powers of 2 pass the test of Lucas.
pub proof fn lemma_prime_29()
    ensures
        is_prime(29nat),
{
    let q: nat = 29nat;
    let g: nat = 2nat;
    let factors: Seq<nat> = seq![2nat, 7nat];
    lemma_prime_2();
    lemma_prime_7();
    // No other prime divides `q - 1`.
    lemma_split(28nat, 2nat, 14nat);
    lemma_split(14nat, 2nat, 7nat);
    lemma_split(7nat, 7nat, 1nat);
    lemma_no_prime_divides_one();
    assert(factors[0] == 2nat);
    assert(factors[1] == 7nat);
    assert(only_prime_factors((q - 1) as nat, factors));
    // The powers.
    lemma_power_29_top();
    lemma_power_29_over_2();
    lemma_power_29_over_7();
    assert forall|i: int| 0 <= i < factors.len() implies factors[i] > 0 && (q - 1) % (
        factors[i] as int
    ) == 0 && powmod(g, ((q - 1) / (#[trigger] factors[i] as int)) as nat, q) != 1 by {
        if i == 0 {
            assert((q - 1) / (2nat as int) == 14nat);
        } else if i == 1 {
            assert((q - 1) / (7nat as int) == 4nat);
        }
    }
    lemma_lucas(q, g, factors);
}

/// Part 1 of the chain of `lemma_power_59_over_29`.
proof fn lemma_power_59_over_29_part_1()
    ensures
        powmod(2nat, 2nat, 59nat) == 4nat,
{
    let q: nat = 59nat;
    let b: nat = 2nat;
    lemma_powmod_basics(b, q);
    let e0: nat = 1nat;
    let v0: nat = 2nat;
    let v1: nat = 4nat;
    let e1: nat = step(b, q, e0, v0, false, v1);
}

/// The power `(q - 1) / 29` of 2 modulo `q`, for `q` = 59.
proof fn lemma_power_59_over_29()
    ensures
        powmod(2nat, 2nat, 59nat) == 4nat,
{
    lemma_power_59_over_29_part_1();
    lemma_powmod_basics(2nat, 59nat);
    lemma_powmod_mul(2nat, 1, 2nat, 59nat);
}

/// Part 1 of the chain of `lemma_power_59_over_2`.
proof fn lemma_power_59_over_2_part_1()
    ensures
        powmod(2nat, 29nat, 59nat) == 58nat,
{
    let q: nat = 59nat;
    let b: nat = 2nat;
    lemma_powmod_basics(b, q);
    let e0: nat = 1nat;
    let v0: nat = 2nat;
    let v1: nat = 8nat;
    let e1: nat = step(b, q, e0, v0, true, v1);
    let v2: nat = 10nat;
    let e2: nat = step(b, q, e1, v1, true, v2);
    let v3: nat = 41nat;
    let e3: nat = step(b, q, e2, v2, false, v3);
    let v4: nat = 58nat;
    let e4: nat = step(b, q, e3, v3, true, v4);
}

/// The power `(q - 1) / 2` of 2 modulo `q`, for `q` = 59.
proof fn lemma_power_59_over_2()
    ensures
        powmod(2nat, 29nat, 59nat) == 58nat,
{
    lemma_power_59_over_2_part_1();
    lemma_powmod_basics(2nat, 59nat);
    lemma_powmod_mul(2nat, 1, 29nat, 59nat);
}

/// Part 1 of the chain of `lemma_power_59_top`.
proof fn lemma_power_59_top_part_1()
    ensures
        powmod(58nat, 2nat, 59nat) == 1nat,
{
    let q: nat = 59nat;
    let b: nat = 58nat;
    lemma_powmod_basics(b, q);
    let e0: nat = 1nat;
    let v0: nat = 58nat;
    let v1: nat = 1nat;
    let e1: nat = step(b, q, e0, v0, false, v1);
}

/// The power `q - 1` of 2 modulo `q` is 1, for `q` = 59.
proof fn lemma_power_59_top()
    ensures
        powmod(2nat, 58nat, 59nat) == 1nat,
{
    lemma_power_59_over_2();
    lemma_power_59_top_part_1();
    lemma_powmod_mul(2nat, 29nat, 2nat, 59nat);
}

/// 59 is prime: the powers of 2 pass the test of Lucas.
pub proof fn lemma_prime_59()
    ensures
        is_prime(59nat),
{
    let q: nat = 59nat;
    let g: nat = 2nat;
    let factors: Seq<nat> = seq![2nat, 29nat];
    lemma_prime_2();
    lemma_prime_29();
    // No other prime divides `q - 1`.
    lemma_split(58nat, 2nat, 29nat);
    lemma_split(29nat, 29nat, 1nat);
    lemma_no_prime_divides_one();
    assert(factors[0] == 2nat);
    assert(factors[1] == 29nat);
    assert(only_prime_factors((q - 1) as nat, factors));
    // The powers.
    lemma_power_59_top();
    lemma_power_59_over_2();
    lemma_power_59_over_29();
    assert forall|i: int| 0 <= i < factors.len() implies factors[i] > 0 && (q - 1) % (
        factors[i] as int
    ) == 0 && powmod(g, ((q - 1) / (#[trigger] factors[i] as int)) as nat, q) != 1 by {
        if i == 0 {
            assert((q - 1) / (2nat as int) == 29nat);
        } else if i == 1 {
            assert((q - 1) / (29nat as int) == 2nat);
        }
    }
    lemma_lucas(q, g, factors);
}

/// Part 1 of the chain of `lemma_power_17_over_2`.
proof fn lemma_power_17_over_2_part_1()
    ensures
        powmod(3nat, 8nat, 17nat) == 16nat,
{
    let q: nat = 17nat;
    let b: nat = 3nat;
    lemma_powmod_basics(b, q);
    let e0: nat = 1nat;
    let v0: nat = 3nat;
    let v1: nat = 9nat;
    let e1: nat = step(b, q, e0, v0, false, v1);
    let v2: nat = 13nat;
    let e2: nat = step(b, q, e1, v1, false, v2);
    let v3: nat = 16nat;
    let e3: nat = step(b, q, e2, v2, false, v3);
}

/// The power `(q - 1) / 2` of 3 modulo `q`, for `q` = 17.
proof fn lemma_power_17_over_2()
    ensures
        powmod(3nat, 8nat, 17nat) == 16nat,
{
    lemma_power_17_over_2_part_1();
    lemma_powmod_basics(3nat, 17nat);
    lemma_powmod_mul(3nat, 1, 8nat, 17nat);
}

/// Part 1 of the chain of `lemma_power_17_top`.
proof fn lemma_power_17_top_part_1()
    ensures
        powmod(16nat, 2nat, 17nat) == 1nat,
{
    let q: nat = 17nat;
    let b: nat = 16nat;
    lemma_powmod_basics(b, q);
    let e0: nat = 1nat;
    let v0: nat = 16nat;
    let v1: nat = 1nat;
    let e1: nat = step(b, q, e0, v0, false, v1);
}

/// The power `q - 1` of 3 modulo `q` is 1, for `q` = 17.
proof fn lemma_power_17_top()
    ensures
        powmod(3nat, 16nat, 17nat) == 1nat,
{
    lemma_power_17_over_2();
    lemma_power_17_top_part_1();
    lemma_powmod_mul(3nat, 8nat, 2nat, 17nat);
}

/// 17 is prime: the powers of 3 pass the test of Lucas.
pub proof fn lemma_prime_17()
    ensures
        is_prime(17nat),
{
    let q: nat = 17nat;
    let g: nat = 3nat;
    let factors: Seq<nat> = seq![2nat];
    lemma_prime_2();
    // No other prime divides `q - 1`.
    lemma_split(16nat, 2nat, 8nat);
    lemma_split(8nat, 2nat, 4nat);
    lemma_split(4nat, 2nat, 2nat);
    lemma_split(2nat, 2nat, 1nat);
    lemma_no_prime_divides_one();
    assert(factors[0] == 2nat);
    assert(only_prime_factors((q - 1) as nat, factors));
    // The powers.
    lemma_power_17_top();
    lemma_power_17_over_2();
    assert forall|i: int| 0 <= i < factors.len() implies factors[i] > 0 && (q - 1) % (
        factors[i] as int
    ) == 0 && powmod(g, ((q - 1) / (#[trigger] factors[i] as int)) as nat, q) != 1 by {
        if i == 0 {
            assert((q - 1) / (2nat as int) == 8nat);
        }
    }
    lemma_lucas(q, g, factors);
}

/// Part 1 of the chain of `lemma_power_1973_shared_1`.
proof fn lemma_power_1973_shared_1_part_1()
    ensures
        powmod(2nat, 29nat, 1973nat) == 1828nat,
{
    let q: nat = 1973nat;
    let b: nat = 2nat;
    lemma_powmod_basics(b, q);
    let e0: nat = 1nat;
    let v0: nat = 2nat;
    let v1: nat = 8nat;
    let e1: nat = step(b, q, e0, v0, true, v1);
    let v2: nat = 128nat;
    let e2: nat = step(b, q, e1, v1, true, v2);
    let v3: nat = 600nat;
    let e3: nat = step(b, q, e2, v2, false, v3);
    let v4: nat = 1828nat;
    let e4: nat = step(b, q, e3, v3, true, v4);
}

/// A power of 2 modulo 1973 that the powers `(q - 1) / r` share for `r` = 2
/// and 17.
proof fn lemma_power_1973_shared_1()
    ensures
        powmod(2nat, 29nat, 1973nat) == 1828nat,
{
    lemma_power_1973_shared_1_part_1();
    lemma_powmod_basics(2nat, 1973nat);
    lemma_powmod_mul(2nat, 1, 29nat, 1973nat);
}

/// Part 1 of the chain of `lemma_power_1973_over_17`.
proof fn lemma_power_1973_over_17_part_1()
    ensures
        powmod(1828nat, 4nat, 1973nat) == 1948nat,
{
    let q: nat = 1973nat;
    let b: nat = 1828nat;
    lemma_powmod_basics(b, q);
    let e0: nat = 1nat;
    let v0: nat = 1828nat;
    let v1: nat = 1295nat;
    let e1: nat = step(b, q, e0, v0, false, v1);
    let v2: nat = 1948nat;
    let e2: nat = step(b, q, e1, v1, false, v2);
}

/// The power `(q - 1) / 17` of 2 modulo `q`, for `q` = 1973.
proof fn lemma_power_1973_over_17()
    ensures
        powmod(2nat, 116nat, 1973nat) == 1948nat,
{
    lemma_power_1973_shared_1();
    lemma_power_1973_over_17_part_1();
    lemma_powmod_mul(2nat, 29nat, 4nat, 1973nat);
}

/// Part 1 of the chain of `lemma_power_1973_shared_2`.
proof fn lemma_power_1973_shared_2_part_1()
    ensures
        powmod(1828nat, 17nat, 1973nat) == 259nat,
{
    let q: nat = 1973nat;
    let b: nat = 1828nat;
    lemma_powmod_basics(b, q);
    let e0: nat = 1nat;
    let v0: nat = 1828nat;
    let v1: nat = 1295nat;
    let e1: nat = step(b, q, e0, v0, false, v1);
    let v2: nat = 1948nat;
    let e2: nat = step(b, q, e1, v1, false, v2);
    let v3: nat = 625nat;
    let e3: nat = step(b, q, e2, v2, false, v3);
    let v4: nat = 259nat;
    let e4: nat = step(b, q, e3, v3, true, v4);
}

/// A power of 2 modulo 1973 that the powers `(q - 1) / r` share for `r` = 2.
proof fn lemma_power_1973_shared_2()
    ensures
        powmod(2nat, 493nat, 1973nat) == 259nat,
{
    lemma_power_1973_shared_1();
    lemma_power_1973_shared_2_part_1();
    lemma_powmod_mul(2nat, 29nat, 17nat, 1973nat);
}

/// Part 1 of the chain of `lemma_power_1973_over_2`.
proof fn lemma_power_1973_over_2_part_1()
    ensures
        powmod(259nat, 2nat, 1973nat) == 1972nat,
{
    let q: nat = 1973nat;
    let b: nat = 259nat;
    lemma_powmod_basics(b, q);
    let e0: nat = 1nat;
    let v0: nat = 259nat;
    let v1: nat = 1972nat;
    let e1: nat = step(b, q, e0, v0, false, v1);
}

/// The power `(q - 1) / 2` of 2 modulo `q`, for `q` = 1973.
proof fn lemma_power_1973_over_2()
    ensures
        powmod(2nat, 986nat, 1973nat) == 1972nat,
{
    lemma_power_1973_shared_2();
    lemma_power_1973_over_2_part_1();
    lemma_powmod_mul(2nat, 493nat, 2nat, 1973nat);
}

/// Part 1 of the chain of `lemma_power_1973_over_29`.
proof fn lemma_power_1973_over_29_part_1()
    ensures
        powmod(2nat, 68nat, 1973nat) == 224nat,
{
    let q: nat = 1973nat;
    let b: nat = 2nat;
    lemma_powmod_basics(b, q);
    let e0: nat = 1nat;
    let v0: nat = 2nat;
    let v1: nat = 4nat;
    let e1: nat = step(b, q, e0, v0, false, v1);
    let v2: nat = 16nat;
    let e2: nat = step(b, q, e1, v1, false, v2);
    let v3: nat = 256nat;
    let e3: nat = step(b, q, e2, v2, false, v3);
    let v4: nat = 854nat;
    let e4: nat = step(b, q, e3, v3, true, v4);
    let v5: nat = 1279nat;
    let e5: nat = step(b, q, e4, v4, false, v5);
    let v6: nat = 224nat;
    let e6: nat = step(b, q, e5, v5, false, v6);
}

/// The power `(q - 1) / 29` of 2 modulo `q`, for `q` = 1973.
proof fn lemma_power_1973_over_29()
    ensures
        powmod(2nat, 68nat, 1973nat) == 224nat,
{
    lemma_power_1973_over_29_part_1();
    lemma_powmod_basics(2nat, 1973nat);
    lemma_powmod_mul(2nat, 1, 68nat, 1973nat);
}

/// Part 1 of the chain of `lemma_power_1973_top`.
proof fn lemma_power_1973_top_part_1()
    ensures
        powmod(1972nat, 2nat, 1973nat) == 1nat,
{
    let q: nat = 1973nat;
    let b: nat = 1972nat;
    lemma_powmod_basics(b, q);
    let e0: nat = 1nat;
    let v0: nat = 1972nat;
    let v1: nat = 1nat;
    let e1: nat = step(b, q, e0, v0, false, v1);
}

/// The power `q - 1` of 2 modulo `q` is 1, for `q` = 1973.
proof fn lemma_power_1973_top()
    ensures
        powmod(2nat, 1972nat, 1973nat) == 1nat,
{
    lemma_power_1973_over_2();
    lemma_power_1973_top_part_1();
    lemma_powmod_mul(2nat, 986nat, 2nat, 1973nat);
}

/// 1973 is prime: the powers of 2 pass the test of Lucas.
pub proof fn lemma_prime_1973()
    ensures
        is_prime(1973nat),
{
    let q: nat = 1973nat;
    let g: nat = 2nat;
    let factors: Seq<nat> = seq![2nat, 17nat, 29nat];
    lemma_prime_2();
    lemma_prime_17();
    lemma_prime_29();
    // No other prime divides `q - 1`.
    lemma_split(1972nat, 2nat, 986nat);
    lemma_split(986nat, 2nat, 493nat);
    lemma_split(493nat, 17nat, 29nat);
    lemma_split(29nat, 29nat, 1nat);
    lemma_no_prime_divides_one();
    assert(factors[0] == 2nat);
    assert(factors[1] == 17nat);
    assert(factors[2] == 29nat);
    assert(only_prime_factors((q - 1) as nat, factors));
    // The powers.
    lemma_power_1973_top();
    lemma_power_1973_over_2();
    lemma_power_1973_over_17();
    lemma_power_1973_over_29();
    assert forall|i: int| 0 <= i < factors.len() implies factors[i] > 0 && (q - 1) % (
        factors[i] as int
    ) == 0 && powmod(g, ((q - 1) / (#[trigger] factors[i] as int)) as nat, q) != 1 by {
        if i == 0 {
            assert((q - 1) / (2nat as int) == 986nat);
        } else if i == 1 {
            assert((q - 1) / (17nat as int) == 116nat);
        } else if i == 2 {
            assert((q - 1) / (29nat as int) == 68nat);
        }
    }
    lemma_lucas(q, g, factors);
}

/// Part 1 of the chain of `lemma_power_43_over_7`.
proof fn lemma_power_43_over_7_part_1()
    ensures
        powmod(3nat, 6nat, 43nat) == 41nat,
{
    let q: nat = 43nat;
    let b: nat = 3nat;
    lemma_powmod_basics(b, q);
    let e0: nat = 1nat;
    let v0: nat = 3nat;
    let v1: nat = 27nat;
    let e1: nat = step(b, q, e0, v0, true, v1);
    let v2: nat = 41nat;
    let e2: nat = step(b, q, e1, v1, false, v2);
}

/// The power `(q - 1) / 7` of 3 modulo `q`, for `q` = 43.
proof fn lemma_power_43_over_7()
    ensures
        powmod(3nat, 6nat, 43nat) == 41nat,
{
    lemma_power_43_over_7_part_1();
    lemma_powmod_basics(3nat, 43nat);
    lemma_powmod_mul(3nat, 1, 6nat, 43nat);
}

/// Part 1 of the chain of `lemma_power_43_shared_1`.
proof fn lemma_power_43_shared_1_part_1()
    ensures
        powmod(3nat, 7nat, 43nat) == 37nat,
{
    let q: nat = 43nat;
    let b: nat = 3nat;
    lemma_powmod_basics(b, q);
    let e0: nat = 1nat;
    let v0: nat = 3nat;
    let v1: nat = 27nat;
    let e1: nat = step(b, q, e0, v0, true, v1);
    let v2: nat = 37nat;
    let e2: nat = step(b, q, e1, v1, true, v2);
}

/// A power of 3 modulo 43 that the powers `(q - 1) / r` share for `r` = 2 and
/// 3.
proof fn lemma_power_43_shared_1()
    ensures
        powmod(3nat, 7nat, 43nat) == 37nat,
{
    lemma_power_43_shared_1_part_1();
    lemma_powmod_basics(3nat, 43nat);
    lemma_powmod_mul(3nat, 1, 7nat, 43nat);
}

/// Part 1 of the chain of `lemma_power_43_over_2`.
proof fn lemma_power_43_over_2_part_1()
    ensures
        powmod(37nat, 3nat, 43nat) == 42nat,
{
    let q: nat = 43nat;
    let b: nat = 37nat;
    lemma_powmod_basics(b, q);
    let e0: nat = 1nat;
    let v0: nat = 37nat;
    let v1: nat = 42nat;
    let e1: nat = step(b, q, e0, v0, true, v1);
}

/// The power `(q - 1) / 2` of 3 modulo `q`, for `q` = 43.
proof fn lemma_power_43_over_2()
    ensures
        powmod(3nat, 21nat, 43nat) == 42nat,
{
    lemma_power_43_shared_1();
    lemma_power_43_over_2_part_1();
    lemma_powmod_mul(3nat, 7nat, 3nat, 43nat);
}

/// Part 1 of the chain of `lemma_power_43_over_3`.
proof fn lemma_power_43_over_3_part_1()
    ensures
        powmod(37nat, 2nat, 43nat) == 36nat,
{
    let q: nat = 43nat;
    let b: nat = 37nat;
    lemma_powmod_basics(b, q);
    let e0: nat = 1nat;
    let v0: nat = 37nat;
    let v1: nat = 36nat;
    let e1: nat = step(b, q, e0, v0, false, v1);
}

/// The power `(q - 1) / 3` of 3 modulo `q`, for `q` = 43.
proof fn lemma_power_43_over_3()
    ensures
        powmod(3nat, 14nat, 43nat) == 36nat,
{
    lemma_power_43_shared_1();
    lemma_power_43_over_3_part_1();
    lemma_powmod_mul(3nat, 7nat, 2nat, 43nat);
}

/// Part 1 of the chain of `lemma_power_43_top`.
proof fn lemma_power_43_top_part_1()
    ensures
        powmod(42nat, 2nat, 43nat) == 1nat,
{
    let q: nat = 43nat;
    let b: nat = 42nat;
    lemma_powmod_basics(b, q);
    let e0: nat = 1nat;
    let v0: nat = 42nat;
    let v1: nat = 1nat;
    let e1: nat = step(b, q, e0, v0, false, v1);
}

/// The power `q - 1` of 3 modulo `q` is 1, for `q` = 43.
proof fn lemma_power_43_top()
    ensures
        powmod(3nat, 42nat, 43nat) == 1nat,
{
    lemma_power_43_over_2();
    lemma_power_43_top_part_1();
    lemma_powmod_mul(3nat, 21nat, 2nat, 43nat);
}

/// 43 is prime: the powers of 3 pass the test of Lucas.
pub proof fn lemma_prime_43()
    ensures
        is_prime(43nat),
{
    let q: nat = 43nat;
    let g: nat = 3nat;
    let factors: Seq<nat> = seq![2nat, 3nat, 7nat];
    lemma_prime_2();
    lemma_prime_3();
    lemma_prime_7();
    // No other prime divides `q - 1`.
    lemma_split(42nat, 2nat, 21nat);
    lemma_split(21nat, 3nat, 7nat);
    lemma_split(7nat, 7nat, 1nat);
    lemma_no_prime_divides_one();
    assert(factors[0] == 2nat);
    assert(factors[1] == 3nat);
    assert(factors[2] == 7nat);
    assert(only_prime_factors((q - 1) as nat, factors));
    // The powers.
    lemma_power_43_top();
    lemma_power_43_over_2();
    lemma_power_43_over_3();
    lemma_power_43_over_7();
    assert forall|i: int| 0 <= i < factors.len() implies factors[i] > 0 && (q - 1) % (
        factors[i] as int
    ) == 0 && powmod(g, ((q - 1) / (#[trigger] factors[i] as int)) as nat, q) != 1 by {
        if i == 0 {
            assert((q - 1) / (2nat as int) == 21nat);
        } else if i == 1 {
            assert((q - 1) / (3nat as int) == 14nat);
        } else if i == 2 {
            assert((q - 1) / (7nat as int) == 6nat);
        }
    }
    lemma_lucas(q, g, factors);
}

/// Part 1 of the chain of `lemma_power_173_over_43`.
proof fn lemma_power_173_over_43_part_1()
    ensures
        powmod(2nat, 4nat, 173nat) == 16nat,
{
    let q: nat = 173nat;
    let b: nat = 2nat;
    lemma_powmod_basics(b, q);
    let e0: nat = 1nat;
    let v0: nat = 2nat;
    let v1: nat = 4nat;
    let e1: nat = step(b, q, e0, v0, false, v1);
    let v2: nat = 16nat;
    let e2: nat = step(b, q, e1, v1, false, v2);
}

/// The power `(q - 1) / 43` of 2 modulo `q`, for `q` = 173.
proof fn lemma_power_173_over_43()
    ensures
        powmod(2nat, 4nat, 173nat) == 16nat,
{
    lemma_power_173_over_43_part_1();
    lemma_powmod_basics(2nat, 173nat);
    lemma_powmod_mul(2nat, 1, 4nat, 173nat);
}

/// Part 1 of the chain of `lemma_power_173_shared_1`.
proof fn lemma_power_173_shared_1_part_1()
    ensures
        powmod(2nat, 43nat, 173nat) == 80nat,
{
    let q: nat = 173nat;
    let b: nat = 2nat;
    lemma_powmod_basics(b, q);
    let e0: nat = 1nat;
    let v0: nat = 2nat;
    let v1: nat = 4nat;
    let e1: nat = step(b, q, e0, v0, false, v1);
    let v2: nat = 32nat;
    let e2: nat = step(b, q, e1, v1, true, v2);
    let v3: nat = 159nat;
    let e3: nat = step(b, q, e2, v2, false, v3);
    let v4: nat = 46nat;
    let e4: nat = step(b, q, e3, v3, true, v4);
    let v5: nat = 80nat;
    let e5: nat = step(b, q, e4, v4, true, v5);
}

/// A power of 2 modulo 173 that the powers `(q - 1) / r` share for `r` = 2.
proof fn lemma_power_173_shared_1()
    ensures
        powmod(2nat, 43nat, 173nat) == 80nat,
{
    lemma_power_173_shared_1_part_1();
    lemma_powmod_basics(2nat, 173nat);
    lemma_powmod_mul(2nat, 1, 43nat, 173nat);
}

/// Part 1 of the chain of `lemma_power_173_over_2`.
proof fn lemma_power_173_over_2_part_1()
    ensures
        powmod(80nat, 2nat, 173nat) == 172nat,
{
    let q: nat = 173nat;
    let b: nat = 80nat;
    lemma_powmod_basics(b, q);
    let e0: nat = 1nat;
    let v0: nat = 80nat;
    let v1: nat = 172nat;
    let e1: nat = step(b, q, e0, v0, false, v1);
}

/// The power `(q - 1) / 2` of 2 modulo `q`, for `q` = 173.
proof fn lemma_power_173_over_2()
    ensures
        powmod(2nat, 86nat, 173nat) == 172nat,
{
    lemma_power_173_shared_1();
    lemma_power_173_over_2_part_1();
    lemma_powmod_mul(2nat, 43nat, 2nat, 173nat);
}

/// Part 1 of the chain of `lemma_power_173_top`.
proof fn lemma_power_173_top_part_1()
    ensures
        powmod(172nat, 2nat, 173nat) == 1nat,
{
    let q: nat = 173nat;
    let b: nat = 172nat;
    lemma_powmod_basics(b, q);
    let e0: nat = 1nat;
    let v0: nat = 172nat;
    let v1: nat = 1nat;
    let e1: nat = step(b, q, e0, v0, false, v1);
}

/// The power `q - 1` of 2 modulo `q` is 1, for `q` = 173.
proof fn lemma_power_173_top()
    ensures
        powmod(2nat, 172nat, 173nat) == 1nat,
{
    lemma_power_173_over_2();
    lemma_power_173_top_part_1();
    lemma_powmod_mul(2nat, 86nat, 2nat, 173nat);
}

/// 173 is prime: the powers of 2 pass the test of Lucas.
pub proof fn lemma_prime_173()
    ensures
        is_prime(173nat),
{
    let q: nat = 173nat;
    let g: nat = 2nat;
    let factors: Seq<nat> = seq![2nat, 43nat];
    lemma_prime_2();
    lemma_prime_43();
    // No other prime divides `q - 1`.
    lemma_split(172nat, 2nat, 86nat);
    lemma_split(86nat, 2nat, 43nat);
    lemma_split(43nat, 43nat, 1nat);
    lemma_no_prime_divides_one();
    assert(factors[0] == 2nat);
    assert(factors[1] == 43nat);
    assert(only_prime_factors((q - 1) as nat, factors));
    // The powers.
    lemma_power_173_top();
    lemma_power_173_over_2();
    lemma_power_173_over_43();
    assert forall|i: int| 0 <= i < factors.len() implies factors[i] > 0 && (q - 1) % (
        factors[i] as int
    ) == 0 && powmod(g, ((q - 1) / (#[trigger] factors[i] as int)) as nat, q) != 1 by {
        if i == 0 {
            assert((q - 1) / (2nat as int) == 86nat);
        } else if i == 1 {
            assert((q - 1) / (43nat as int) == 4nat);
        }
    }
    lemma_lucas(q, g, factors);
}

/// Part 1 of the chain of `lemma_power_6229_over_173`.
proof fn lemma_power_6229_over_173_part_1()
    ensures
        powmod(2nat, 36nat, 6229nat) == 2600nat,
{
    let q: nat = 6229nat;
    let b: nat = 2nat;
    lemma_powmod_basics(b, q);
    let e0: nat = 1nat;
    let v0: nat = 2nat;
    let v1: nat = 4nat;
    let e1: nat = step(b, q, e0, v0, false, v1);
    let v2: nat = 16nat;
    let e2: nat = step(b, q, e1, v1, false, v2);
    let v3: nat = 512nat;
    let e3: nat = step(b, q, e2, v2, true, v3);
    let v4: nat = 526nat;
    let e4: nat = step(b, q, e3, v3, false, v4);
    let v5: nat = 2600nat;
    let e5: nat = step(b, q, e4, v4, false, v5);
}

/// The power `(q - 1) / 173` of 2 modulo `q`, for `q` = 6229.
proof fn lemma_power_6229_over_173()
    ensures
        powmod(2nat, 36nat, 6229nat) == 2600nat,
{
    lemma_power_6229_over_173_part_1();
    lemma_powmod_basics(2nat, 6229nat);
    lemma_powmod_mul(2nat, 1, 36nat, 6229nat);
}

/// Part 1 of the chain of `lemma_power_6229_shared_1`.
proof fn lemma_power_6229_shared_1_part_1()
    ensures
        powmod(2nat, 173nat, 6229nat) == 3024nat,
{
    let q: nat = 6229nat;
    let b: nat = 2nat;
    lemma_powmod_basics(b, q);
    let e0: nat = 1nat;
    let v0: nat = 2nat;
    let v1: nat = 4nat;
    let e1: nat = step(b, q, e0, v0, false, v1);
    let v2: nat = 32nat;
    let e2: nat = step(b, q, e1, v1, true, v2);
    let v3: nat = 1024nat;
    let e3: nat = step(b, q, e2, v2, false, v3);
    let v4: nat = 4208nat;
    let e4: nat = step(b, q, e3, v3, true, v4);
    let v5: nat = 2663nat;
    let e5: nat = step(b, q, e4, v4, true, v5);
    let v6: nat = 2967nat;
    let e6: nat = step(b, q, e5, v5, false, v6);
    let v7: nat = 3024nat;
    let e7: nat = step(b, q, e6, v6, true, v7);
}

/// A power of 2 modulo 6229 that the powers `(q - 1) / r` share for `r` = 2
/// and 3.
proof fn lemma_power_6229_shared_1()
    ensures
        powmod(2nat, 173nat, 6229nat) == 3024nat,
{
    lemma_power_6229_shared_1_part_1();
    lemma_powmod_basics(2nat, 6229nat);
    lemma_powmod_mul(2nat, 1, 173nat, 6229nat);
}

/// Part 1 of the chain of `lemma_power_6229_shared_2`.
proof fn lemma_power_6229_shared_2_part_1()
    ensures
        powmod(3024nat, 4nat, 6229nat) == 1262nat,
{
    let q: nat = 6229nat;
    let b: nat = 3024nat;
    lemma_powmod_basics(b, q);
    let e0: nat = 1nat;
    let v0: nat = 3024nat;
    let v1: nat = 404nat;
    let e1: nat = step(b, q, e0, v0, false, v1);
    let v2: nat = 1262nat;
    let e2: nat = step(b, q, e1, v1, false, v2);
}

/// A power of 2 modulo 6229 that the powers `(q - 1) / r` share for `r` = 3.
proof fn lemma_power_6229_shared_2()
    ensures
        powmod(2nat, 692nat, 6229nat) == 1262nat,
{
    lemma_power_6229_shared_1();
    lemma_power_6229_shared_2_part_1();
    lemma_powmod_mul(2nat, 173nat, 4nat, 6229nat);
}

/// Part 1 of the chain of `lemma_power_6229_over_3`.
proof fn lemma_power_6229_over_3_part_1()
    ensures
        powmod(1262nat, 3nat, 6229nat) == 5298nat,
{
    let q: nat = 6229nat;
    let b: nat = 1262nat;
    lemma_powmod_basics(b, q);
    let e0: nat = 1nat;
    let v0: nat = 1262nat;
    let v1: nat = 5298nat;
    let e1: nat = step(b, q, e0, v0, true, v1);
}

/// The power `(q - 1) / 3` of 2 modulo `q`, for `q` = 6229.
proof fn lemma_power_6229_over_3()
    ensures
        powmod(2nat, 2076nat, 6229nat) == 5298nat,
{
    lemma_power_6229_shared_2();
    lemma_power_6229_over_3_part_1();
    lemma_powmod_mul(2nat, 692nat, 3nat, 6229nat);
}

/// Part 1 of the chain of `lemma_power_6229_shared_3`.
proof fn lemma_power_6229_shared_3_part_1()
    ensures
        powmod(3024nat, 9nat, 6229nat) == 4778nat,
{
    let q: nat = 6229nat;
    let b: nat = 3024nat;
    lemma_powmod_basics(b, q);
    let e0: nat = 1nat;
    let v0: nat = 3024nat;
    let v1: nat = 404nat;
    let e1: nat = step(b, q, e0, v0, false, v1);
    let v2: nat = 1262nat;
    let e2: nat = step(b, q, e1, v1, false, v2);
    let v3: nat = 4778nat;
    let e3: nat = step(b, q, e2, v2, true, v3);
}

/// A power of 2 modulo 6229 that the powers `(q - 1) / r` share for `r` = 2.
proof fn lemma_power_6229_shared_3()
    ensures
        powmod(2nat, 1557nat, 6229nat) == 4778nat,
{
    lemma_power_6229_shared_1();
    lemma_power_6229_shared_3_part_1();
    lemma_powmod_mul(2nat, 173nat, 9nat, 6229nat);
}

/// Part 1 of the chain of `lemma_power_6229_over_2`.
proof fn lemma_power_6229_over_2_part_1()
    ensures
        powmod(4778nat, 2nat, 6229nat) == 6228nat,
{
    let q: nat = 6229nat;
    let b: nat = 4778nat;
    lemma_powmod_basics(b, q);
    let e0: nat = 1nat;
    let v0: nat = 4778nat;
    let v1: nat = 6228nat;
    let e1: nat = step(b, q, e0, v0, false, v1);
}

/// The power `(q - 1) / 2` of 2 modulo `q`, for `q` = 6229.
proof fn lemma_power_6229_over_2()
    ensures
        powmod(2nat, 3114nat, 6229nat) == 6228nat,
{
    lemma_power_6229_shared_3();
    lemma_power_6229_over_2_part_1();
    lemma_powmod_mul(2nat, 1557nat, 2nat, 6229nat);
}

/// Part 1 of the chain of `lemma_power_6229_top`.
proof fn lemma_power_6229_top_part_1()
    ensures
        powmod(6228nat, 2nat, 6229nat) == 1nat,
{
    let q: nat = 6229nat;
    let b: nat = 6228nat;
    lemma_powmod_basics(b, q);
    let e0: nat = 1nat;
    let v0: nat = 6228nat;
    let v1: nat = 1nat;
    let e1: nat = step(b, q, e0, v0, false, v1);
}

/// The power `q - 1` of 2 modulo `q` is 1, for `q` = 6229.
proof fn lemma_power_6229_top()
    ensures
        powmod(2nat, 6228nat, 6229nat) == 1nat,
{
    lemma_power_6229_over_2();
    lemma_power_6229_top_part_1();
    lemma_powmod_mul(2nat, 3114nat, 2nat, 6229nat);
}

/// 6229 is prime: the powers of 2 pass the test of Lucas.
pub proof fn lemma_prime_6229()
    ensures
        is_prime(6229nat),
{
    let q: nat = 6229nat;
    let g: nat = 2nat;
    let factors: Seq<nat> = seq![2nat, 3nat, 173nat];
    lemma_prime_2();
    lemma_prime_3();
    lemma_prime_173();
    // No other prime divides `q - 1`.
    lemma_split(6228nat, 2nat, 3114nat);
    lemma_split(3114nat, 2nat, 1557nat);
    lemma_split(1557nat, 3nat, 519nat);
    lemma_split(519nat, 3nat, 173nat);
    lemma_split(173nat, 173nat, 1nat);
    lemma_no_prime_divides_one();
    assert(factors[0] == 2nat);
    assert(factors[1] == 3nat);
    assert(factors[2] == 173nat);
    assert(only_prime_factors((q - 1) as nat, factors));
    // The powers.
    lemma_power_6229_top();
    lemma_power_6229_over_2();
    lemma_power_6229_over_3();
    lemma_power_6229_over_173();
    assert forall|i: int| 0 <= i < factors.len() implies factors[i] > 0 && (q - 1) % (
        factors[i] as int
    ) == 0 && powmod(g, ((q - 1) / (#[trigger] factors[i] as int)) as nat, q) != 1 by {
        if i == 0 {
            assert((q - 1) / (2nat as int) == 3114nat);
        } else if i == 1 {
            assert((q - 1) / (3nat as int) == 2076nat);
        } else if i == 2 {
            assert((q - 1) / (173nat as int) == 36nat);
        }
    }
    lemma_lucas(q, g, factors);
}

/// Part 1 of the chain of `lemma_power_24917_over_6229`.
proof fn lemma_power_24917_over_6229_part_1()
    ensures
        powmod(2nat, 4nat, 24917nat) == 16nat,
{
    let q: nat = 24917nat;
    let b: nat = 2nat;
    lemma_powmod_basics(b, q);
    let e0: nat = 1nat;
    let v0: nat = 2nat;
    let v1: nat = 4nat;
    let e1: nat = step(b, q, e0, v0, false, v1);
    let v2: nat = 16nat;
    let e2: nat = step(b, q, e1, v1, false, v2);
}

/// The power `(q - 1) / 6229` of 2 modulo `q`, for `q` = 24917.
proof fn lemma_power_24917_over_6229()
    ensures
        powmod(2nat, 4nat, 24917nat) == 16nat,
{
    lemma_power_24917_over_6229_part_1();
    lemma_powmod_basics(2nat, 24917nat);
    lemma_powmod_mul(2nat, 1, 4nat, 24917nat);
}

/// Part 1 of the chain of `lemma_power_24917_shared_1`.
proof fn lemma_power_24917_shared_1_part_1()
    ensures
        powmod(2nat, 6229nat, 24917nat) == 21122nat,
{
    let q: nat = 24917nat;
    let b: nat = 2nat;
    lemma_powmod_basics(b, q);
    let e0: nat = 1nat;
    let v0: nat = 2nat;
    let v1: nat = 8nat;
    let e1: nat = step(b, q, e0, v0, true, v1);
    let v2: nat = 64nat;
    let e2: nat = step(b, q, e1, v1, false, v2);
    let v3: nat = 4096nat;
    let e3: nat = step(b, q, e2, v2, false, v3);
    let v4: nat = 8075nat;
    let e4: nat = step(b, q, e3, v3, false, v4);
    let v5: nat = 22753nat;
    let e5: nat = step(b, q, e4, v4, false, v5);
    let v6: nat = 21917nat;
    let e6: nat = step(b, q, e5, v5, true, v6);
    let v7: nat = 4963nat;
    let e7: nat = step(b, q, e6, v6, false, v7);
    let v8: nat = 1829nat;
    let e8: nat = step(b, q, e7, v7, true, v8);
    let v9: nat = 6363nat;
    let e9: nat = step(b, q, e8, v8, false, v9);
    let v10: nat = 20205nat;
    let e10: nat = step(b, q, e9, v9, true, v10);
    let v11: nat = 1897nat;
    let e11: nat = step(b, q, e10, v10, false, v11);
    let v12: nat = 21122nat;
    let e12: nat = step(b, q, e11, v11, true, v12);
}

/// A power of 2 modulo 24917 that the powers `(q - 1) / r` share for `r` = 2.
proof fn lemma_power_24917_shared_1()
    ensures
        powmod(2nat, 6229nat, 24917nat) == 21122nat,
{
    lemma_power_24917_shared_1_part_1();
    lemma_powmod_basics(2nat, 24917nat);
    lemma_powmod_mul(2nat, 1, 6229nat, 24917nat);
}

/// Part 1 of the chain of `lemma_power_24917_over_2`.
proof fn lemma_power_24917_over_2_part_1()
    ensures
        powmod(21122nat, 2nat, 24917nat) == 24916nat,
{
    let q: nat = 24917nat;
    let b: nat = 21122nat;
    lemma_powmod_basics(b, q);
    let e0: nat = 1nat;
    let v0: nat = 21122nat;
    let v1: nat = 24916nat;
    let e1: nat = step(b, q, e0, v0, false, v1);
}

/// The power `(q - 1) / 2` of 2 modulo `q`, for `q` = 24917.
proof fn lemma_power_24917_over_2()
    ensures
        powmod(2nat, 12458nat, 24917nat) == 24916nat,
{
    lemma_power_24917_shared_1();
    lemma_power_24917_over_2_part_1();
    lemma_powmod_mul(2nat, 6229nat, 2nat, 24917nat);
}

/// Part 1 of the chain of `lemma_power_24917_top`.
proof fn lemma_power_24917_top_part_1()
    ensures
        powmod(24916nat, 2nat, 24917nat) == 1nat,
{
    let q: nat = 24917nat;
    let b: nat = 24916nat;
    lemma_powmod_basics(b, q);
    let e0: nat = 1nat;
    let v0: nat = 24916nat;
    let v1: nat = 1nat;
    let e1: nat = step(b, q, e0, v0, false, v1);
}

/// The power `q - 1` of 2 modulo `q` is 1, for `q` = 24917.
proof fn lemma_power_24917_top()
    ensures
        powmod(2nat, 24916nat, 24917nat) == 1nat,
{
    lemma_power_24917_over_2();
    lemma_power_24917_top_part_1();
    lemma_powmod_mul(2nat, 12458nat, 2nat, 24917nat);
}

/// 24917 is prime: the powers of 2 pass the test of Lucas.
pub proof fn lemma_prime_24917()
    ensures
        is_prime(24917nat),
{
    let q: nat = 24917nat;
    let g: nat = 2nat;
    let factors: Seq<nat> = seq![2nat, 6229nat];
    lemma_prime_2();
    lemma_prime_6229();
    // No other prime divides `q - 1`.
    lemma_split(24916nat, 2nat, 12458nat);
    lemma_split(12458nat, 2nat, 6229nat);
    lemma_split(6229nat, 6229nat, 1nat);
    lemma_no_prime_divides_one();
    assert(factors[0] == 2nat);
    assert(factors[1] == 6229nat);
    assert(only_prime_factors((q - 1) as nat, factors));
    // The powers.
    lemma_power_24917_top();
    lemma_power_24917_over_2();
    lemma_power_24917_over_6229();
    assert forall|i: int| 0 <= i < factors.len() implies factors[i] > 0 && (q - 1) % (
        factors[i] as int
    ) == 0 && powmod(g, ((q - 1) / (#[trigger] factors[i] as int)) as nat, q) != 1 by {
        if i == 0 {
            assert((q - 1) / (2nat as int) == 12458nat);
        } else if i == 1 {
            assert((q - 1) / (6229nat as int) == 4nat);
        }
    }
    lemma_lucas(q, g, factors);
}

/// Part 1 of the chain of `lemma_power_149503_over_24917`.
proof fn lemma_power_149503_over_24917_part_1()
    ensures
        powmod(3nat, 6nat, 149503nat) == 729nat,
{
    let q: nat = 149503nat;
    let b: nat = 3nat;
    lemma_powmod_basics(b, q);
    let e0: nat = 1nat;
    let v0: nat = 3nat;
    let v1: nat = 27nat;
    let e1: nat = step(b, q, e0, v0, true, v1);
    let v2: nat = 729nat;
    let e2: nat = step(b, q, e1, v1, false, v2);
}

/// The power `(q - 1) / 24917` of 3 modulo `q`, for `q` = 149503.
proof fn lemma_power_149503_over_24917()
    ensures
        powmod(3nat, 6nat, 149503nat) == 729nat,
{
    lemma_power_149503_over_24917_part_1();
    lemma_powmod_basics(3nat, 149503nat);
    lemma_powmod_mul(3nat, 1, 6nat, 149503nat);
}

/// Part 1 of the chain of `lemma_power_149503_shared_1`.
proof fn lemma_power_149503_shared_1_part_1()
    ensures
        powmod(3nat, 24917nat, 149503nat) == 17236nat,
{
    let q: nat = 149503nat;
    let b: nat = 3nat;
    lemma_powmod_basics(b, q);
    let e0: nat = 1nat;
    let v0: nat = 3nat;
    let v1: nat = 27nat;
    let e1: nat = step(b, q, e0, v0, true, v1);
    let v2: nat = 729nat;
    let e2: nat = step(b, q, e1, v1, false, v2);
    let v3: nat = 82932nat;
    let e3: nat = step(b, q, e2, v2, false, v3);
    let v4: nat = 130115nat;
    let e4: nat = step(b, q, e3, v3, false, v4);
    let v5: nat = 44002nat;
    let e5: nat = step(b, q, e4, v4, false, v5);
    let v6: nat = 37456nat;
    let e6: nat = step(b, q, e5, v5, true, v6);
    let v7: nat = 15784nat;
    let e7: nat = step(b, q, e6, v6, false, v7);
    let v8: nat = 38471nat;
    let e8: nat = step(b, q, e7, v7, true, v8);
    let v9: nat = 87644nat;
    let e9: nat = step(b, q, e8, v8, false, v9);
    let v10: nat = 19788nat;
    let e10: nat = step(b, q, e9, v9, true, v10);
    let v11: nat = 16587nat;
    let e11: nat = step(b, q, e10, v10, false, v11);
    let v12: nat = 129147nat;
    let e12: nat = step(b, q, e11, v11, true, v12);
    let v13: nat = 93923nat;
    let e13: nat = step(b, q, e12, v12, false, v13);
    let v14: nat = 17236nat;
    let e14: nat = step(b, q, e13, v13, true, v14);
}

/// A power of 3 modulo 149503 that the powers `(q - 1) / r` share for `r` = 2
/// and 3.
proof fn lemma_power_149503_shared_1()
    ensures
        powmod(3nat, 24917nat, 149503nat) == 17236nat,
{
    lemma_power_149503_shared_1_part_1();
    lemma_powmod_basics(3nat, 149503nat);
    lemma_powmod_mul(3nat, 1, 24917nat, 149503nat);
}

/// Part 1 of the chain of `lemma_power_149503_over_2`.
proof fn lemma_power_149503_over_2_part_1()
    ensures
        powmod(17236nat, 3nat, 149503nat) == 149502nat,
{
    let q: nat = 149503nat;
    let b: nat = 17236nat;
    lemma_powmod_basics(b, q);
    let e0: nat = 1nat;
    let v0: nat = 17236nat;
    let v1: nat = 149502nat;
    let e1: nat = step(b, q, e0, v0, true, v1);
}

/// The power `(q - 1) / 2` of 3 modulo `q`, for `q` = 149503.
proof fn lemma_power_149503_over_2()
    ensures
        powmod(3nat, 74751nat, 149503nat) == 149502nat,
{
    lemma_power_149503_shared_1();
    lemma_power_149503_over_2_part_1();
    lemma_powmod_mul(3nat, 24917nat, 3nat, 149503nat);
}

/// Part 1 of the chain of `lemma_power_149503_over_3`.
proof fn lemma_power_149503_over_3_part_1()
    ensures
        powmod(17236nat, 2nat, 149503nat) == 17235nat,
{
    let q: nat = 149503nat;
    let b: nat = 17236nat;
    lemma_powmod_basics(b, q);
    let e0: nat = 1nat;
    let v0: nat = 17236nat;
    let v1: nat = 17235nat;
    let e1: nat = step(b, q, e0, v0, false, v1);
}

/// The power `(q - 1) / 3` of 3 modulo `q`, for `q` = 149503.
proof fn lemma_power_149503_over_3()
    ensures
        powmod(3nat, 49834nat, 149503nat) == 17235nat,
{
    lemma_power_149503_shared_1();
    lemma_power_149503_over_3_part_1();
    lemma_powmod_mul(3nat, 24917nat, 2nat, 149503nat);
}

/// Part 1 of the chain of `lemma_power_149503_top`.
proof fn lemma_power_149503_top_part_1()
    ensures
        powmod(149502nat, 2nat, 149503nat) == 1nat,
{
    let q: nat = 149503nat;
    let b: nat = 149502nat;
    lemma_powmod_basics(b, q);
    let e0: nat = 1nat;
    let v0: nat = 149502nat;
    let v1: nat = 1nat;
    let e1: nat = step(b, q, e0, v0, false, v1);
}

/// The power `q - 1` of 3 modulo `q` is 1, for `q` = 149503.
proof fn lemma_power_149503_top()
    ensures
        powmod(3nat, 149502nat, 149503nat) == 1nat,
{
    lemma_power_149503_over_2();
    lemma_power_149503_top_part_1();
    lemma_powmod_mul(3nat, 74751nat, 2nat, 149503nat);
}

/// 149503 is prime: the powers of 3 pass the test of Lucas.
pub proof fn lemma_prime_149503()
    ensures
        is_prime(149503nat),
{
    let q: nat = 149503nat;
    let g: nat = 3nat;
    let factors: Seq<nat> = seq![2nat, 3nat, 24917nat];
    lemma_prime_2();
    lemma_prime_3();
    lemma_prime_24917();
    // No other prime divides `q - 1`.
    lemma_split(149502nat, 2nat, 74751nat);
    lemma_split(74751nat, 3nat, 24917nat);
    lemma_split(24917nat, 24917nat, 1nat);
    lemma_no_prime_divides_one();
    assert(factors[0] == 2nat);
    assert(factors[1] == 3nat);
    assert(factors[2] == 24917nat);
    assert(only_prime_factors((q - 1) as nat, factors));
    // The powers.
    lemma_power_149503_top();
    lemma_power_149503_over_2();
    lemma_power_149503_over_3();
    lemma_power_149503_over_24917();
    assert forall|i: int| 0 <= i < factors.len() implies factors[i] > 0 && (q - 1) % (
        factors[i] as int
    ) == 0 && powmod(g, ((q - 1) / (#[trigger] factors[i] as int)) as nat, q) != 1 by {
        if i == 0 {
            assert((q - 1) / (2nat as int) == 74751nat);
        } else if i == 1 {
            assert((q - 1) / (3nat as int) == 49834nat);
        } else if i == 2 {
            assert((q - 1) / (24917nat as int) == 6nat);
        }
    }
    lemma_lucas(q, g, factors);
}

/// Part 1 of the chain of `lemma_power_897019_over_149503`.
proof fn lemma_power_897019_over_149503_part_1()
    ensures
        powmod(2nat, 6nat, 897019nat) == 64nat,
{
    let q: nat = 897019nat;
    let b: nat = 2nat;
    lemma_powmod_basics(b, q);
    let e0: nat = 1nat;
    let v0: nat = 2nat;
    let v1: nat = 8nat;
    let e1: nat = step(b, q, e0, v0, true, v1);
    let v2: nat = 64nat;
    let e2: nat = step(b, q, e1, v1, false, v2);
}

/// The power `(q - 1) / 149503` of 2 modulo `q`, for `q` = 897019.
proof fn lemma_power_897019_over_149503()
    ensures
        powmod(2nat, 6nat, 897019nat) == 64nat,
{
    lemma_power_897019_over_149503_part_1();
    lemma_powmod_basics(2nat, 897019nat);
    lemma_powmod_mul(2nat, 1, 6nat, 897019nat);
}

/// Part 1 of the chain of `lemma_power_897019_shared_1`.
proof fn lemma_power_897019_shared_1_part_1()
    ensures
        powmod(2nat, 149503nat, 897019nat) == 125838nat,
{
    let q: nat = 897019nat;
    let b: nat = 2nat;
    lemma_powmod_basics(b, q);
    let e0: nat = 1nat;
    let v0: nat = 2nat;
    let v1: nat = 4nat;
    let e1: nat = step(b, q, e0, v0, false, v1);
    let v2: nat = 16nat;
    let e2: nat = step(b, q, e1, v1, false, v2);
    let v3: nat = 512nat;
    let e3: nat = step(b, q, e2, v2, true, v3);
    let v4: nat = 262144nat;
    let e4: nat = step(b, q, e3, v3, false, v4);
    let v5: nat = 645184nat;
    let e5: nat = step(b, q, e4, v4, false, v5);
    let v6: nat = 726906nat;
    let e6: nat = step(b, q, e5, v5, false, v6);
    let v7: nat = 302639nat;
    let e7: nat = step(b, q, e6, v6, true, v7);
    let v8: nat = 478652nat;
    let e8: nat = step(b, q, e7, v7, true, v8);
    let v9: nat = 228628nat;
    let e9: nat = step(b, q, e8, v8, true, v9);
    let v10: nat = 239451nat;
    let e10: nat = step(b, q, e9, v9, true, v10);
    let v11: nat = 447880nat;
    let e11: nat = step(b, q, e10, v10, true, v11);
    let v12: nat = 344031nat;
    let e12: nat = step(b, q, e11, v11, true, v12);
    let v13: nat = 314012nat;
    let e13: nat = step(b, q, e12, v12, true, v13);
    let v14: nat = 136195nat;
    let e14: nat = step(b, q, e13, v13, true, v14);
    let v15: nat = 141267nat;
    let e15: nat = step(b, q, e14, v14, true, v15);
    let v16: nat = 767192nat;
    let e16: nat = step(b, q, e15, v15, true, v16);
    let v17: nat = 125838nat;
    let e17: nat = step(b, q, e16, v16, true, v17);
}

/// A power of 2 modulo 897019 that the powers `(q - 1) / r` share for `r` = 2
/// and 3.
proof fn lemma_power_897019_shared_1()
    ensures
        powmod(2nat, 149503nat, 897019nat) == 125838nat,
{
    lemma_power_897019_shared_1_part_1();
    lemma_powmod_basics(2nat, 897019nat);
    lemma_powmod_mul(2nat, 1, 149503nat, 897019nat);
}

/// Part 1 of the chain of `lemma_power_897019_over_2`.
proof fn lemma_power_897019_over_2_part_1()
    ensures
        powmod(125838nat, 3nat, 897019nat) == 897018nat,
{
    let q: nat = 897019nat;
    let b: nat = 125838nat;
    lemma_powmod_basics(b, q);
    let e0: nat = 1nat;
    let v0: nat = 125838nat;
    let v1: nat = 897018nat;
    let e1: nat = step(b, q, e0, v0, true, v1);
}

/// The power `(q - 1) / 2` of 2 modulo `q`, for `q` = 897019.
proof fn lemma_power_897019_over_2()
    ensures
        powmod(2nat, 448509nat, 897019nat) == 897018nat,
{
    lemma_power_897019_shared_1();
    lemma_power_897019_over_2_part_1();
    lemma_powmod_mul(2nat, 149503nat, 3nat, 897019nat);
}

/// Part 1 of the chain of `lemma_power_897019_over_3`.
proof fn lemma_power_897019_over_3_part_1()
    ensures
        powmod(125838nat, 2nat, 897019nat) == 125837nat,
{
    let q: nat = 897019nat;
    let b: nat = 125838nat;
    lemma_powmod_basics(b, q);
    let e0: nat = 1nat;
    let v0: nat = 125838nat;
    let v1: nat = 125837nat;
    let e1: nat = step(b, q, e0, v0, false, v1);
}

/// The power `(q - 1) / 3` of 2 modulo `q`, for `q` = 897019.
proof fn lemma_power_897019_over_3()
    ensures
        powmod(2nat, 299006nat, 897019nat) == 125837nat,
{
    lemma_power_897019_shared_1();
    lemma_power_897019_over_3_part_1();
    lemma_powmod_mul(2nat, 149503nat, 2nat, 897019nat);
}

/// Part 1 of the chain of `lemma_power_897019_top`.
proof fn lemma_power_897019_top_part_1()
    ensures
        powmod(897018nat, 2nat, 897019nat) == 1nat,
{
    let q: nat = 897019nat;
    let b: nat = 897018nat;
    lemma_powmod_basics(b, q);
    let e0: nat = 1nat;
    let v0: nat = 897018nat;
    let v1: nat = 1nat;
    let e1: nat = step(b, q, e0, v0, false, v1);
}

/// The power `q - 1` of 2 modulo `q` is 1, for `q` = 897019.
proof fn lemma_power_897019_top()
    ensures
        powmod(2nat, 897018nat, 897019nat) == 1nat,
{
    lemma_power_897019_over_2();
    lemma_power_897019_top_part_1();
    lemma_powmod_mul(2nat, 448509nat, 2nat, 897019nat);
}

/// 897019 is prime: the powers of 2 pass the test of Lucas.
pub proof fn lemma_prime_897019()
    ensures
        is_prime(897019nat),
{
    let q: nat = 897019nat;
    let g: nat = 2nat;
    let factors: Seq<nat> = seq![2nat, 3nat, 149503nat];
    lemma_prime_2();
    lemma_prime_3();
    lemma_prime_149503();
    // No other prime divides `q - 1`.
    lemma_split(897018nat, 2nat, 448509nat);
    lemma_split(448509nat, 3nat, 149503nat);
    lemma_split(149503nat, 149503nat, 1nat);
    lemma_no_prime_divides_one();
    assert(factors[0] == 2nat);
    assert(factors[1] == 3nat);
    assert(factors[2] == 149503nat);
    assert(only_prime_factors((q - 1) as nat, factors));
    // The powers.
    lemma_power_897019_top();
    lemma_power_897019_over_2();
    lemma_power_897019_over_3();
    lemma_power_897019_over_149503();
    assert forall|i: int| 0 <= i < factors.len() implies factors[i] > 0 && (q - 1) % (
        factors[i] as int
    ) == 0 && powmod(g, ((q - 1) / (#[trigger] factors[i] as int)) as nat, q) != 1 by {
        if i == 0 {
            assert((q - 1) / (2nat as int) == 448509nat);
        } else if i == 1 {
            assert((q - 1) / (3nat as int) == 299006nat);
        } else if i == 2 {
            assert((q - 1) / (149503nat as int) == 6nat);
        }
    }
    lemma_lucas(q, g, factors);
}

/// Part 1 of the chain of `lemma_power_613f7fb9b5_over_897019`.
proof fn lemma_power_613f7fb9b5_over_897019_part_1()
    ensures
        powmod(2nat, 465628nat, 0x613f7fb9b5nat) == 0x586234709bnat,
{
    let q: nat = 0x613f7fb9b5nat;
    let b: nat = 2nat;
    lemma_powmod_basics(b, q);
    let e0: nat = 1nat;
    let v0: nat = 2nat;
    let v1: nat = 8nat;
    let e1: nat = step(b, q, e0, v0, true, v1);
    let v2: nat = 128nat;
    let e2: nat = step(b, q, e1, v1, true, v2);
    let v3: nat = 16384nat;
    let e3: nat = step(b, q, e2, v2, false, v3);
    let v4: nat = 0x10000000nat;
    let e4: nat = step(b, q, e3, v3, false, v4);
    let v5: nat = 0x50ec8a98adnat;
    let e5: nat = step(b, q, e4, v4, false, v5);
    let v6: nat = 0x504b0d2582nat;
    let e6: nat = step(b, q, e5, v5, true, v6);
    let v7: nat = 0x47f3679e26nat;
    let e7: nat = step(b, q, e6, v6, true, v7);
    let v8: nat = 0x2fcf280ab8nat;
    let e8: nat = step(b, q, e7, v7, false, v8);
    let v9: nat = 0x4a829324d9nat;
    let e9: nat = step(b, q, e8, v8, true, v9);
    let v10: nat = 0x39c128a133nat;
    let e10: nat = step(b, q, e9, v9, false, v10);
    let v11: nat = 0x17636849e1nat;
    let e11: nat = step(b, q, e10, v10, true, v11);
    let v12: nat = 0x148adb65a2nat;
    let e12: nat = step(b, q, e11, v11, true, v12);
    let v13: nat = 0x181d31c238nat;
    let e13: nat = step(b, q, e12, v12, false, v13);
    let v14: nat = 0x1340fc863fnat;
    let e14: nat = step(b, q, e13, v13, true, v14);
    let v15: nat = 0x1ebd2b3533nat;
    let e15: nat = step(b, q, e14, v14, true, v15);
    let v16: nat = 0xb4c0a89f2nat;
    let e16: nat = step(b, q, e15, v15, true, v16);
    let v17: nat = 0x3f3ce0c8fcnat;
    let e17: nat = step(b, q, e16, v16, false, v17);
    let v18: nat = 0x586234709bnat;
    let e18: nat = step(b, q, e17, v17, false, v18);
}

/// The power `(q - 1) / 897019` of 2 modulo `q`, for `q` = 0x613f7fb9b5.
proof fn lemma_power_613f7fb9b5_over_897019()
    ensures
        powmod(2nat, 465628nat, 0x613f7fb9b5nat) == 0x586234709bnat,
{
    lemma_power_613f7fb9b5_over_897019_part_1();
    lemma_powmod_basics(2nat, 0x613f7fb9b5nat);
    lemma_powmod_mul(2nat, 1, 465628nat, 0x613f7fb9b5nat);
}

/// Part 1 of the chain of `lemma_power_613f7fb9b5_shared_1`.
proof fn lemma_power_613f7fb9b5_shared_1_part_1()
    ensures
        powmod(2nat, 897019nat, 0x613f7fb9b5nat) == 0x124333fd9cnat,
{
    let q: nat = 0x613f7fb9b5nat;
    let b: nat = 2nat;
    lemma_powmod_basics(b, q);
    let e0: nat = 1nat;
    let v0: nat = 2nat;
    let v1: nat = 8nat;
    let e1: nat = step(b, q, e0, v0, true, v1);
    let v2: nat = 64nat;
    let e2: nat = step(b, q, e1, v1, false, v2);
    let v3: nat = 8192nat;
    let e3: nat = step(b, q, e2, v2, true, v3);
    let v4: nat = 0x8000000nat;
    let e4: nat = step(b, q, e3, v3, true, v4);
    let v5: nat = 0x5d2ac27173nat;
    let e5: nat = step(b, q, e4, v4, false, v5);
    let v6: nat = 0x297c80b7fcnat;
    let e6: nat = step(b, q, e5, v5, true, v6);
    let v7: nat = 0x21f30d1b5fnat;
    let e7: nat = step(b, q, e6, v6, false, v7);
    let v8: nat = 0x57975d5e44nat;
    let e8: nat = step(b, q, e7, v7, true, v8);
    let v9: nat = 0x414eca79acnat;
    let e9: nat = step(b, q, e8, v8, true, v9);
    let v10: nat = 0x238c451d15nat;
    let e10: nat = step(b, q, e9, v9, true, v10);
    let v11: nat = 0x4d8eebb28enat;
    let e11: nat = step(b, q, e10, v10, true, v11);
    let v12: nat = 0x18ce0a7237nat;
    let e12: nat = step(b, q, e11, v11, true, v12);
    let v13: nat = 0x35fc771a54nat;
    let e13: nat = step(b, q, e12, v12, true, v13);
    let v14: nat = 0x2a5ecad111nat;
    let e14: nat = step(b, q, e13, v13, true, v14);
    let v15: nat = 0x4675d55d56nat;
    let e15: nat = step(b, q, e14, v14, true, v15);
    let v16: nat = 0x16b11004b7nat;
    let e16: nat = step(b, q, e15, v15, true, v16);
    let v17: nat = 0xf7a414955nat;
    let e17: nat = step(b, q, e16, v16, false, v17);
    let v18: nat = 0x3f947c57f0nat;
    let e18: nat = step(b, q, e17, v17, true, v18);
    let v19: nat = 0x124333fd9cnat;
    let e19: nat = step(b, q, e18, v18, true, v19);
}

/// A power of 2 modulo 0x613f7fb9b5 that the powers `(q - 1) / r` share for
/// `r` = 2, 59 and 1973.
proof fn lemma_power_613f7fb9b5_shared_1()
    ensures
        powmod(2nat, 897019nat, 0x613f7fb9b5nat) == 0x124333fd9cnat,
{
    lemma_power_613f7fb9b5_shared_1_part_1();
    lemma_powmod_basics(2nat, 0x613f7fb9b5nat);
    lemma_powmod_mul(2nat, 1, 897019nat, 0x613f7fb9b5nat);
}

/// Part 1 of the chain of `lemma_power_613f7fb9b5_over_1973`.
proof fn lemma_power_613f7fb9b5_over_1973_part_1()
    ensures
        powmod(0x124333fd9cnat, 236nat, 0x613f7fb9b5nat) == 0x2046d7c10bnat,
{
    let q: nat = 0x613f7fb9b5nat;
    let b: nat = 0x124333fd9cnat;
    lemma_powmod_basics(b, q);
    let e0: nat = 1nat;
    let v0: nat = 0x124333fd9cnat;
    let v1: nat = 0x53c1fbae02nat;
    let e1: nat = step(b, q, e0, v0, true, v1);
    let v2: nat = 0x3dff676abfnat;
    let e2: nat = step(b, q, e1, v1, true, v2);
    let v3: nat = 0x57fbceb47cnat;
    let e3: nat = step(b, q, e2, v2, false, v3);
    let v4: nat = 0xfd0fc7ca0nat;
    let e4: nat = step(b, q, e3, v3, true, v4);
    let v5: nat = 0x238aecdc3dnat;
    let e5: nat = step(b, q, e4, v4, true, v5);
    let v6: nat = 0x30f60aa4c1nat;
    let e6: nat = step(b, q, e5, v5, false, v6);
    let v7: nat = 0x2046d7c10bnat;
    let e7: nat = step(b, q, e6, v6, false, v7);
}

/// The power `(q - 1) / 1973` of 2 modulo `q`, for `q` = 0x613f7fb9b5.
proof fn lemma_power_613f7fb9b5_over_1973()
    ensures
        powmod(2nat, 0xc9e3b64nat, 0x613f7fb9b5nat) == 0x2046d7c10bnat,
{
    lemma_power_613f7fb9b5_shared_1();
    lemma_power_613f7fb9b5_over_1973_part_1();
    lemma_powmod_mul(2nat, 897019nat, 236nat, 0x613f7fb9b5nat);
}

/// Part 1 of the chain of `lemma_power_613f7fb9b5_shared_2`.
proof fn lemma_power_613f7fb9b5_shared_2_part_1()
    ensures
        powmod(0x124333fd9cnat, 1973nat, 0x613f7fb9b5nat) == 0x127bc05273nat,
{
    let q: nat = 0x613f7fb9b5nat;
    let b: nat = 0x124333fd9cnat;
    lemma_powmod_basics(b, q);
    let e0: nat = 1nat;
    let v0: nat = 0x124333fd9cnat;
    let v1: nat = 0x53c1fbae02nat;
    let e1: nat = step(b, q, e0, v0, true, v1);
    let v2: nat = 0x3dff676abfnat;
    let e2: nat = step(b, q, e1, v1, true, v2);
    let v3: nat = 0x564aec19b6nat;
    let e3: nat = step(b, q, e2, v2, true, v3);
    let v4: nat = 0xaa1dc2158nat;
    let e4: nat = step(b, q, e3, v3, false, v4);
    let v5: nat = 0x10becfc6fcnat;
    let e5: nat = step(b, q, e4, v4, true, v5);
    let v6: nat = 0xdf7de03a0nat;
    let e6: nat = step(b, q, e5, v5, true, v6);
    let v7: nat = 0x28523994bbnat;
    let e7: nat = step(b, q, e6, v6, false, v7);
    let v8: nat = 0x58b0cef0b3nat;
    let e8: nat = step(b, q, e7, v7, true, v8);
    let v9: nat = 0x42dd903d73nat;
    let e9: nat = step(b, q, e8, v8, false, v9);
    let v10: nat = 0x127bc05273nat;
    let e10: nat = step(b, q, e9, v9, true, v10);
}

/// A power of 2 modulo 0x613f7fb9b5 that the powers `(q - 1) / r` share for
/// `r` = 2 and 59.
proof fn lemma_power_613f7fb9b5_shared_2()
    ensures
        powmod(2nat, 0x697d4977nat, 0x613f7fb9b5nat) == 0x127bc05273nat,
{
    lemma_power_613f7fb9b5_shared_1();
    lemma_power_613f7fb9b5_shared_2_part_1();
    lemma_powmod_mul(2nat, 897019nat, 1973nat, 0x613f7fb9b5nat);
}

/// Part 1 of the chain of `lemma_power_613f7fb9b5_over_59`.
proof fn lemma_power_613f7fb9b5_over_59_part_1()
    ensures
        powmod(0x127bc05273nat, 4nat, 0x613f7fb9b5nat) == 0x32997a18cbnat,
{
    let q: nat = 0x613f7fb9b5nat;
    let b: nat = 0x127bc05273nat;
    lemma_powmod_basics(b, q);
    let e0: nat = 1nat;
    let v0: nat = 0x127bc05273nat;
    let v1: nat = 0x5f51a18341nat;
    let e1: nat = step(b, q, e0, v0, false, v1);
    let v2: nat = 0x32997a18cbnat;
    let e2: nat = step(b, q, e1, v1, false, v2);
}

/// The power `(q - 1) / 59` of 2 modulo `q`, for `q` = 0x613f7fb9b5.
proof fn lemma_power_613f7fb9b5_over_59()
    ensures
        powmod(2nat, 0x1a5f525dcnat, 0x613f7fb9b5nat) == 0x32997a18cbnat,
{
    lemma_power_613f7fb9b5_shared_2();
    lemma_power_613f7fb9b5_over_59_part_1();
    lemma_powmod_mul(2nat, 0x697d4977nat, 4nat, 0x613f7fb9b5nat);
}

/// Part 1 of the chain of `lemma_power_613f7fb9b5_shared_3`.
proof fn lemma_power_613f7fb9b5_shared_3_part_1()
    ensures
        powmod(0x127bc05273nat, 59nat, 0x613f7fb9b5nat) == 0x3b26eebd46nat,
{
    let q: nat = 0x613f7fb9b5nat;
    let b: nat = 0x127bc05273nat;
    lemma_powmod_basics(b, q);
    let e0: nat = 1nat;
    let v0: nat = 0x127bc05273nat;
    let v1: nat = 0x562dd08208nat;
    let e1: nat = step(b, q, e0, v0, true, v1);
    let v2: nat = 0x4c09687c3fnat;
    let e2: nat = step(b, q, e1, v1, true, v2);
    let v3: nat = 0x111901b01anat;
    let e3: nat = step(b, q, e2, v2, false, v3);
    let v4: nat = 0x264d923cf1nat;
    let e4: nat = step(b, q, e3, v3, true, v4);
    let v5: nat = 0x3b26eebd46nat;
    let e5: nat = step(b, q, e4, v4, true, v5);
}

/// A power of 2 modulo 0x613f7fb9b5 that the powers `(q - 1) / r` share for
/// `r` = 2.
proof fn lemma_power_613f7fb9b5_shared_3()
    ensures
        powmod(2nat, 0x184fdfee6dnat, 0x613f7fb9b5nat) == 0x3b26eebd46nat,
{
    lemma_power_613f7fb9b5_shared_2();
    lemma_power_613f7fb9b5_shared_3_part_1();
    lemma_powmod_mul(2nat, 0x697d4977nat, 59nat, 0x613f7fb9b5nat);
}

/// Part 1 of the chain of `lemma_power_613f7fb9b5_over_2`.
proof fn lemma_power_613f7fb9b5_over_2_part_1()
    ensures
        powmod(0x3b26eebd46nat, 2nat, 0x613f7fb9b5nat) == 0x613f7fb9b4nat,
{
    let q: nat = 0x613f7fb9b5nat;
    let b: nat = 0x3b26eebd46nat;
    lemma_powmod_basics(b, q);
    let e0: nat = 1nat;
    let v0: nat = 0x3b26eebd46nat;
    let v1: nat = 0x613f7fb9b4nat;
    let e1: nat = step(b, q, e0, v0, false, v1);
}

/// The power `(q - 1) / 2` of 2 modulo `q`, for `q` = 0x613f7fb9b5.
proof fn lemma_power_613f7fb9b5_over_2()
    ensures
        powmod(2nat, 0x309fbfdcdanat, 0x613f7fb9b5nat) == 0x613f7fb9b4nat,
{
    lemma_power_613f7fb9b5_shared_3();
    lemma_power_613f7fb9b5_over_2_part_1();
    lemma_powmod_mul(2nat, 0x184fdfee6dnat, 2nat, 0x613f7fb9b5nat);
}

/// Part 1 of the chain of `lemma_power_613f7fb9b5_top`.
proof fn lemma_power_613f7fb9b5_top_part_1()
    ensures
        powmod(0x613f7fb9b4nat, 2nat, 0x613f7fb9b5nat) == 1nat,
{
    let q: nat = 0x613f7fb9b5nat;
    let b: nat = 0x613f7fb9b4nat;
    lemma_powmod_basics(b, q);
    let e0: nat = 1nat;
    let v0: nat = 0x613f7fb9b4nat;
    let v1: nat = 1nat;
    let e1: nat = step(b, q, e0, v0, false, v1);
}

/// The power `q - 1` of 2 modulo `q` is 1, for `q` = 0x613f7fb9b5.
proof fn lemma_power_613f7fb9b5_top()
    ensures
        powmod(2nat, 0x613f7fb9b4nat, 0x613f7fb9b5nat) == 1nat,
{
    lemma_power_613f7fb9b5_over_2();
    lemma_power_613f7fb9b5_top_part_1();
    lemma_powmod_mul(2nat, 0x309fbfdcdanat, 2nat, 0x613f7fb9b5nat);
}

/// 0x613f7fb9b5 is prime: the powers of 2 pass the test of Lucas.
pub proof fn lemma_prime_613f7fb9b5()
    ensures
        is_prime(0x613f7fb9b5nat),
{
    let q: nat = 0x613f7fb9b5nat;
    let g: nat = 2nat;
    let factors: Seq<nat> = seq![2nat, 59nat, 1973nat, 897019nat];
    lemma_prime_2();
    lemma_prime_59();
    lemma_prime_1973();
    lemma_prime_897019();
    // No other prime divides `q - 1`.
    lemma_split(0x613f7fb9b4nat, 2nat, 0x309fbfdcdanat);
    lemma_split(0x309fbfdcdanat, 2nat, 0x184fdfee6dnat);
    lemma_split(0x184fdfee6dnat, 59nat, 0x697d4977nat);
    lemma_split(0x697d4977nat, 1973nat, 897019nat);
    lemma_split(897019nat, 897019nat, 1nat);
    lemma_no_prime_divides_one();
    assert(factors[0] == 2nat);
    assert(factors[1] == 59nat);
    assert(factors[2] == 1973nat);
    assert(factors[3] == 897019nat);
    assert(only_prime_factors((q - 1) as nat, factors));
    // The powers.
    lemma_power_613f7fb9b5_top();
    lemma_power_613f7fb9b5_over_2();
    lemma_power_613f7fb9b5_over_59();
    lemma_power_613f7fb9b5_over_1973();
    lemma_power_613f7fb9b5_over_897019();
    assert forall|i: int| 0 <= i < factors.len() implies factors[i] > 0 && (q - 1) % (
        factors[i] as int
    ) == 0 && powmod(g, ((q - 1) / (#[trigger] factors[i] as int)) as nat, q) != 1 by {
        if i == 0 {
            assert((q - 1) / (2nat as int) == 0x309fbfdcdanat);
        } else if i == 1 {
            assert((q - 1) / (59nat as int) == 0x1a5f525dcnat);
        } else if i == 2 {
            assert((q - 1) / (1973nat as int) == 0xc9e3b64nat);
        } else if i == 3 {
            assert((q - 1) / (897019nat as int) == 465628nat);
        }
    }
    lemma_lucas(q, g, factors);
}

/// Part 1 of the chain of `lemma_power_1d3af59550161cf575_over_613f7fb9b5`.
proof fn lemma_power_1d3af59550161cf575_over_613f7fb9b5_part_1()
    ensures
        powmod(5nat, 0x4cf27824nat, 0x1d3af59550161cf575nat) == 0x133fee81542727a08dnat,
{
    let q: nat = 0x1d3af59550161cf575nat;
    let b: nat = 5nat;
    lemma_powmod_basics(b, q);
    let e0: nat = 1nat;
    let v0: nat = 5nat;
    let v1: nat = 25nat;
    let e1: nat = step(b, q, e0, v0, false, v1);
    let v2: nat = 625nat;
    let e2: nat = step(b, q, e1, v1, false, v2);
    let v3: nat = 0x1dcd65nat;
    let e3: nat = step(b, q, e2, v2, true, v3);
    let v4: nat = 0x1158e460913dnat;
    let e4: nat = step(b, q, e3, v3, true, v4);
    let v5: nat = 0x7fcfe9f8a4282664bnat;
    let e5: nat = step(b, q, e4, v4, false, v5);
    let v6: nat = 0x17b142843aa7696b5dnat;
    let e6: nat = step(b, q, e5, v5, false, v6);
    let v7: nat = 0x12a07cab77d244df31nat;
    let e7: nat = step(b, q, e6, v6, true, v7);
    let v8: nat = 0x4aa359571fa8668fenat;
    let e8: nat = step(b, q, e7, v7, true, v8);
    let v9: nat = 0x80f5dc1f3e3a98829nat;
    let e9: nat = step(b, q, e8, v8, true, v9);
    let v10: nat = 0x9edce62145b56c74cnat;
    let e10: nat = step(b, q, e9, v9, true, v10);
    let v11: nat = 0x109e18449bd44680dfnat;
    let e11: nat = step(b, q, e10, v10, false, v11);
    let v12: nat = 0x4dac8bd7188fc7826nat;
    let e12: nat = step(b, q, e11, v11, false, v12);
    let v13: nat = 0x14967a379d7c0bc2d7nat;
    let e13: nat = step(b, q, e12, v12, true, v13);
    let v14: nat = 0x172da6448a52384637nat;
    let e14: nat = step(b, q, e13, v13, false, v14);
    let v15: nat = 0x3d9870e36238448a3nat;
    let e15: nat = step(b, q, e14, v14, false, v15);
    let v16: nat = 0x44fec1207248694aenat;
    let e16: nat = step(b, q, e15, v15, true, v16);
    let v17: nat = 0x7768346d8c2f1bb43nat;
    let e17: nat = step(b, q, e16, v16, true, v17);
    let v18: nat = 0x1ec2b8da53870db50nat;
    let e18: nat = step(b, q, e17, v17, true, v18);
    let v19: nat = 0x5014f74a8fcef60a4nat;
    let e19: nat = step(b, q, e18, v18, true, v19);
    let v20: nat = 0x58c435bbda49afcc6nat;
    let e20: nat = step(b, q, e19, v19, false, v20);
    let v21: nat = 0x167419dddbfa2e8fcfnat;
    let e21: nat = step(b, q, e20, v20, false, v21);
    let v22: nat = 0xffe534f1a37f18c1dnat;
    let e22: nat = step(b, q, e21, v21, false, v22);
    let v23: nat = 0x1ab2935dc7a9348b53nat;
    let e23: nat = step(b, q, e22, v22, false, v23);
    let v24: nat = 0x9ecd7e8b07db600c2nat;
    let e24: nat = step(b, q, e23, v23, false, v24);
    let v25: nat = 0xd185029d084d5fb37nat;
    let e25: nat = step(b, q, e24, v24, true, v25);
    let v26: nat = 0xdf2e090517d3d4b2bnat;
    let e26: nat = step(b, q, e25, v25, false, v26);
    let v27: nat = 0x8a6fd22ffdea57b26nat;
    let e27: nat = step(b, q, e26, v26, false, v27);
    let v28: nat = 0x118a689815204a7686nat;
    let e28: nat = step(b, q, e27, v27, true, v28);
    let v29: nat = 0x326a28a7805223a87nat;
    let e29: nat = step(b, q, e28, v28, false, v29);
    let v30: nat = 0x133fee81542727a08dnat;
    let e30: nat = step(b, q, e29, v29, false, v30);
}

/// The power `(q - 1) / 0x613f7fb9b5` of 5 modulo `q`, for `q` =
/// 0x1d3af59550161cf575.
proof fn lemma_power_1d3af59550161cf575_over_613f7fb9b5()
    ensures
        powmod(5nat, 0x4cf27824nat, 0x1d3af59550161cf575nat) == 0x133fee81542727a08dnat,
{
    lemma_power_1d3af59550161cf575_over_613f7fb9b5_part_1();
    lemma_powmod_basics(5nat, 0x1d3af59550161cf575nat);
    lemma_powmod_mul(5nat, 1, 0x4cf27824nat, 0x1d3af59550161cf575nat);
}

/// Part 1 of the chain of `lemma_power_1d3af59550161cf575_shared_1`.
proof fn lemma_power_1d3af59550161cf575_shared_1_part_1()
    ensures
        powmod(5nat, 0x613f7fb9b5nat, 0x1d3af59550161cf575nat) == 0x566394e7c46478525nat,
{
    let q: nat = 0x1d3af59550161cf575nat;
    let b: nat = 5nat;
    lemma_powmod_basics(b, q);
    let e0: nat = 1nat;
    let v0: nat = 5nat;
    let v1: nat = 125nat;
    let e1: nat = step(b, q, e0, v0, true, v1);
    let v2: nat = 15625nat;
    let e2: nat = step(b, q, e1, v1, false, v2);
    let v3: nat = 0xe8d4a51nat;
    let e3: nat = step(b, q, e2, v2, false, v3);
    let v4: nat = 0xd3c21bcecceda1nat;
    let e4: nat = step(b, q, e3, v3, false, v4);
    let v5: nat = 0x634a7b9127fb33b2enat;
    let e5: nat = step(b, q, e4, v4, false, v5);
    let v6: nat = 0xf5577b6d24918e69nat;
    let e6: nat = step(b, q, e5, v5, true, v6);
    let v7: nat = 0xc46a2679a50e266ccnat;
    let e7: nat = step(b, q, e6, v6, false, v7);
    let v8: nat = 0x12a65891a4dfefffefnat;
    let e8: nat = step(b, q, e7, v7, false, v8);
    let v9: nat = 0xa3431948c3fee00d9nat;
    let e9: nat = step(b, q, e8, v8, true, v9);
    let v10: nat = 0x10cc6b5fbced4ed343nat;
    let e10: nat = step(b, q, e9, v9, true, v10);
    let v11: nat = 0x155e9b9aeeadfaa0f7nat;
    let e11: nat = step(b, q, e10, v10, true, v11);
    let v12: nat = 0x17bb40ae46b66280f4nat;
    let e12: nat = step(b, q, e11, v11, true, v12);
    let v13: nat = 0x144a0ebf72ed60af3enat;
    let e13: nat = step(b, q, e12, v12, true, v13);
    let v14: nat = 0x1ab23789f460b2bb8enat;
    let e14: nat = step(b, q, e13, v13, true, v14);
    let v15: nat = 0x3d9b1da31be3a8cebnat;
    let e15: nat = step(b, q, e14, v14, false, v15);
    let v16: nat = 0x151fc77c4678a3d219nat;
    let e16: nat = step(b, q, e15, v15, true, v16);
    let v17: nat = 0x1b2ece528907febfcfnat;
    let e17: nat = step(b, q, e16, v16, true, v17);
    let v18: nat = 0x218fd97bda0351c1fnat;
    let e18: nat = step(b, q, e17, v17, true, v18);
    let v19: nat = 0xd8e64e9e512dedeccnat;
    let e19: nat = step(b, q, e18, v18, true, v19);
    let v20: nat = 0x10f8169f16edae3ec3nat;
    let e20: nat = step(b, q, e19, v19, true, v20);
    let v21: nat = 0x5f1fdcb610f2c3183nat;
    let e21: nat = step(b, q, e20, v20, true, v21);
    let v22: nat = 0x101a239c0892a55663nat;
    let e22: nat = step(b, q, e21, v21, true, v22);
    let v23: nat = 0x1a5991b552e1488b0dnat;
    let e23: nat = step(b, q, e22, v22, true, v23);
    let v24: nat = 0x11ec4bc18cf2e91e3nat;
    let e24: nat = step(b, q, e23, v23, false, v24);
    let v25: nat = 0x1cc9ab7e9b4527f3efnat;
    let e25: nat = step(b, q, e24, v24, true, v25);
    let v26: nat = 0x245c8e6cd75416fcanat;
    let e26: nat = step(b, q, e25, v25, true, v26);
    let v27: nat = 0x17e18b7d3a95e6a5ednat;
    let e27: nat = step(b, q, e26, v26, true, v27);
    let v28: nat = 0x145f65bbb36ef2a5ccnat;
    let e28: nat = step(b, q, e27, v27, false, v28);
    let v29: nat = 0x4b1b5a1e72b0b1c71nat;
    let e29: nat = step(b, q, e28, v28, false, v29);
    let v30: nat = 0x2bdfc8c9e7d5dd9fanat;
    let e30: nat = step(b, q, e29, v29, true, v30);
    let v31: nat = 0x51195a40715c75571nat;
    let e31: nat = step(b, q, e30, v30, true, v31);
    let v32: nat = 0x9e342c80a71034b6dnat;
    let e32: nat = step(b, q, e31, v31, false, v32);
    let v33: nat = 0x1afe0affd92d285f3bnat;
    let e33: nat = step(b, q, e32, v32, true, v33);
    let v34: nat = 0x14aa0d711e9bd2d52anat;
    let e34: nat = step(b, q, e33, v33, true, v34);
    let v35: nat = 0xb6227f2f678a269c2nat;
    let e35: nat = step(b, q, e34, v34, false, v35);
    let v36: nat = 0x147871ee1737b18694nat;
    let e36: nat = step(b, q, e35, v35, true, v36);
    let v37: nat = 0x1b1a4210a7cfae2308nat;
    let e37: nat = step(b, q, e36, v36, false, v37);
    let v38: nat = 0x566394e7c46478525nat;
    let e38: nat = step(b, q, e37, v37, true, v38);
}

/// A power of 5 modulo 0x1d3af59550161cf575 that the powers `(q - 1) / r`
/// share for `r` = 2, 3, 89 and 14923.
proof fn lemma_power_1d3af59550161cf575_shared_1()
    ensures
        powmod(5nat, 0x613f7fb9b5nat, 0x1d3af59550161cf575nat) == 0x566394e7c46478525nat,
{
    lemma_power_1d3af59550161cf575_shared_1_part_1();
    lemma_powmod_basics(5nat, 0x1d3af59550161cf575nat);
    lemma_powmod_mul(5nat, 1, 0x613f7fb9b5nat, 0x1d3af59550161cf575nat);
}

/// Part 1 of the chain of `lemma_power_1d3af59550161cf575_shared_2`.
proof fn lemma_power_1d3af59550161cf575_shared_2_part_1()
    ensures
        powmod(
            0x566394e7c46478525nat,
            21627nat,
            0x1d3af59550161cf575nat,
        ) == 0x1ced9669bd8cc14282nat,
{
    let q: nat = 0x1d3af59550161cf575nat;
    let b: nat = 0x566394e7c46478525nat;
    lemma_powmod_basics(b, q);
    let e0: nat = 1nat;
    let v0: nat = 0x566394e7c46478525nat;
    let v1: nat = 0x126c256dad4f7f54e1nat;
    let e1: nat = step(b, q, e0, v0, false, v1);
    let v2: nat = 0x227585507418bfff3nat;
    let e2: nat = step(b, q, e1, v1, true, v2);
    let v3: nat = 0x119838c25cb5e16f2cnat;
    let e3: nat = step(b, q, e2, v2, false, v3);
    let v4: nat = 0x59c3ce4b31e02ac2anat;
    let e4: nat = step(b, q, e3, v3, true, v4);
    let v5: nat = 0x13474d1a1bdb041d78nat;
    let e5: nat = step(b, q, e4, v4, false, v5);
    let v6: nat = 0x11871fc899cb3359danat;
    let e6: nat = step(b, q, e5, v5, false, v6);
    let v7: nat = 0x113544ae21b8b2d55anat;
    let e7: nat = step(b, q, e6, v6, false, v7);
    let v8: nat = 0x1af3f01c3d23054959nat;
    let e8: nat = step(b, q, e7, v7, true, v8);
    let v9: nat = 0x1083ebbed4d410155enat;
    let e9: nat = step(b, q, e8, v8, true, v9);
    let v10: nat = 0xe5bfb37a9d3e540e0nat;
    let e10: nat = step(b, q, e9, v9, true, v10);
    let v11: nat = 0x1c1609346e7ee160c2nat;
    let e11: nat = step(b, q, e10, v10, true, v11);
    let v12: nat = 0x1b2c2d9d91334cd3d2nat;
    let e12: nat = step(b, q, e11, v11, false, v12);
    let v13: nat = 0x19c7e5e53a6e816cb7nat;
    let e13: nat = step(b, q, e12, v12, true, v13);
    let v14: nat = 0x1ced9669bd8cc14282nat;
    let e14: nat = step(b, q, e13, v13, true, v14);
}

/// A power of 5 modulo 0x1d3af59550161cf575 that the powers `(q - 1) / r`
/// share for `r` = 2 and 14923.
proof fn lemma_power_1d3af59550161cf575_shared_2()
    ensures
        powmod(5nat, 0x20178f6b4d9df7nat, 0x1d3af59550161cf575nat) == 0x1ced9669bd8cc14282nat,
{
    lemma_power_1d3af59550161cf575_shared_1();
    lemma_power_1d3af59550161cf575_shared_2_part_1();
    lemma_powmod_mul(5nat, 0x613f7fb9b5nat, 21627nat, 0x1d3af59550161cf575nat);
}

/// Part 1 of the chain of `lemma_power_1d3af59550161cf575_over_14923`.
proof fn lemma_power_1d3af59550161cf575_over_14923_part_1()
    ensures
        powmod(0x1ced9669bd8cc14282nat, 4nat, 0x1d3af59550161cf575nat) == 0xff1413e44c5e825e7nat,
{
    let q: nat = 0x1d3af59550161cf575nat;
    let b: nat = 0x1ced9669bd8cc14282nat;
    lemma_powmod_basics(b, q);
    let e0: nat = 1nat;
    let v0: nat = 0x1ced9669bd8cc14282nat;
    let v1: nat = 0xe749c781a90fc4ff1nat;
    let e1: nat = step(b, q, e0, v0, false, v1);
    let v2: nat = 0xff1413e44c5e825e7nat;
    let e2: nat = step(b, q, e1, v1, false, v2);
}

/// The power `(q - 1) / 14923` of 5 modulo `q`, for `q` =
/// 0x1d3af59550161cf575.
proof fn lemma_power_1d3af59550161cf575_over_14923()
    ensures
        powmod(5nat, 0x805e3dad3677dcnat, 0x1d3af59550161cf575nat) == 0xff1413e44c5e825e7nat,
{
    lemma_power_1d3af59550161cf575_shared_2();
    lemma_power_1d3af59550161cf575_over_14923_part_1();
    lemma_powmod_mul(5nat, 0x20178f6b4d9df7nat, 4nat, 0x1d3af59550161cf575nat);
}

/// Part 1 of the chain of `lemma_power_1d3af59550161cf575_shared_3`.
proof fn lemma_power_1d3af59550161cf575_shared_3_part_1()
    ensures
        powmod(
            0x1ced9669bd8cc14282nat,
            14923nat,
            0x1d3af59550161cf575nat,
        ) == 0x7597fbe69831909f8nat,
{
    let q: nat = 0x1d3af59550161cf575nat;
    let b: nat = 0x1ced9669bd8cc14282nat;
    lemma_powmod_basics(b, q);
    let e0: nat = 1nat;
    let v0: nat = 0x1ced9669bd8cc14282nat;
    let v1: nat = 0x12797988e7bad0af61nat;
    let e1: nat = step(b, q, e0, v0, true, v1);
    let v2: nat = 0x3df2fa0b26b471765nat;
    let e2: nat = step(b, q, e1, v1, true, v2);
    let v3: nat = 0x19bee73371773e07fdnat;
    let e3: nat = step(b, q, e2, v2, false, v3);
    let v4: nat = 0x8254ba4c2330f1d9nat;
    let e4: nat = step(b, q, e3, v3, true, v4);
    let v5: nat = 0x195e606f6f632a83c8nat;
    let e5: nat = step(b, q, e4, v4, false, v5);
    let v6: nat = 0x326a8a4d4ff533437nat;
    let e6: nat = step(b, q, e5, v5, false, v6);
    let v7: nat = 0x2c9deccca2210884dnat;
    let e7: nat = step(b, q, e6, v6, true, v7);
    let v8: nat = 0x5ae2dd4b827eb8476nat;
    let e8: nat = step(b, q, e7, v7, false, v8);
    let v9: nat = 0x1b0ef2ade9d8ac58banat;
    let e9: nat = step(b, q, e8, v8, false, v9);
    let v10: nat = 0xce02bb34e83ed8860nat;
    let e10: nat = step(b, q, e9, v9, true, v10);
    let v11: nat = 0x15177e189a650c5c29nat;
    let e11: nat = step(b, q, e10, v10, false, v11);
    let v12: nat = 0x12dc3317e410fa4d46nat;
    let e12: nat = step(b, q, e11, v11, true, v12);
    let v13: nat = 0x7597fbe69831909f8nat;
    let e13: nat = step(b, q, e12, v12, true, v13);
}

/// A power of 5 modulo 0x1d3af59550161cf575 that the powers `(q - 1) / r`
/// share for `r` = 2.
proof fn lemma_power_1d3af59550161cf575_shared_3()
    ensures
        powmod(5nat, 0x74ebd655405873d5dnat, 0x1d3af59550161cf575nat) == 0x7597fbe69831909f8nat,
{
    lemma_power_1d3af59550161cf575_shared_2();
    lemma_power_1d3af59550161cf575_shared_3_part_1();
    lemma_powmod_mul(5nat, 0x20178f6b4d9df7nat, 14923nat, 0x1d3af59550161cf575nat);
}

/// Part 1 of the chain of `lemma_power_1d3af59550161cf575_over_2`.
proof fn lemma_power_1d3af59550161cf575_over_2_part_1()
    ensures
        powmod(0x7597fbe69831909f8nat, 2nat, 0x1d3af59550161cf575nat) == 0x1d3af59550161cf574nat,
{
    let q: nat = 0x1d3af59550161cf575nat;
    let b: nat = 0x7597fbe69831909f8nat;
    lemma_powmod_basics(b, q);
    let e0: nat = 1nat;
    let v0: nat = 0x7597fbe69831909f8nat;
    let v1: nat = 0x1d3af59550161cf574nat;
    let e1: nat = step(b, q, e0, v0, false, v1);
}

/// The power `(q - 1) / 2` of 5 modulo `q`, for `q` = 0x1d3af59550161cf575.
proof fn lemma_power_1d3af59550161cf575_over_2()
    ensures
        powmod(5nat, 0xe9d7acaa80b0e7abanat, 0x1d3af59550161cf575nat) == 0x1d3af59550161cf574nat,
{
    lemma_power_1d3af59550161cf575_shared_3();
    lemma_power_1d3af59550161cf575_over_2_part_1();
    lemma_powmod_mul(5nat, 0x74ebd655405873d5dnat, 2nat, 0x1d3af59550161cf575nat);
}

/// Part 1 of the chain of `lemma_power_1d3af59550161cf575_shared_4`.
proof fn lemma_power_1d3af59550161cf575_shared_4_part_1()
    ensures
        powmod(
            0x566394e7c46478525nat,
            59692nat,
            0x1d3af59550161cf575nat,
        ) == 0x17db0ba06cde88fa13nat,
{
    let q: nat = 0x1d3af59550161cf575nat;
    let b: nat = 0x566394e7c46478525nat;
    lemma_powmod_basics(b, q);
    let e0: nat = 1nat;
    let v0: nat = 0x566394e7c46478525nat;
    let v1: nat = 0x18664ea9fef7b7c01nat;
    let e1: nat = step(b, q, e0, v0, true, v1);
    let v2: nat = 0x1cdd18ef8ad1ee7d61nat;
    let e2: nat = step(b, q, e1, v1, true, v2);
    let v3: nat = 0xcac82b28f8eb616e8nat;
    let e3: nat = step(b, q, e2, v2, false, v3);
    let v4: nat = 0x3dd38fe2876a7c3d0nat;
    let e4: nat = step(b, q, e3, v3, true, v4);
    let v5: nat = 0x1a6638dd5be2a42396nat;
    let e5: nat = step(b, q, e4, v4, false, v5);
    let v6: nat = 0x1b836f620941f8d1c8nat;
    let e6: nat = step(b, q, e5, v5, false, v6);
    let v7: nat = 0xf8cbbec11846e7188nat;
    let e7: nat = step(b, q, e6, v6, true, v7);
    let v8: nat = 0x16121ece7e0065d2a3nat;
    let e8: nat = step(b, q, e7, v7, false, v8);
    let v9: nat = 0x16b71548a73708bfd9nat;
    let e9: nat = step(b, q, e8, v8, false, v9);
    let v10: nat = 0x177f454162efac22bdnat;
    let e10: nat = step(b, q, e9, v9, true, v10);
    let v11: nat = 0x1598a2df4eef281f5anat;
    let e11: nat = step(b, q, e10, v10, false, v11);
    let v12: nat = 0x1b7a9f9ccdea332bf7nat;
    let e12: nat = step(b, q, e11, v11, true, v12);
    let v13: nat = 0x573a11210428591dcnat;
    let e13: nat = step(b, q, e12, v12, true, v13);
    let v14: nat = 0x171bfc3ff95cff3464nat;
    let e14: nat = step(b, q, e13, v13, false, v14);
    let v15: nat = 0x17db0ba06cde88fa13nat;
    let e15: nat = step(b, q, e14, v14, false, v15);
}

/// A power of 5 modulo 0x1d3af59550161cf575 that the powers `(q - 1) / r`
/// share for `r` = 3 and 89.
proof fn lemma_power_1d3af59550161cf575_shared_4()
    ensures
        powmod(5nat, 0x58938229f9a81cnat, 0x1d3af59550161cf575nat) == 0x17db0ba06cde88fa13nat,
{
    lemma_power_1d3af59550161cf575_shared_1();
    lemma_power_1d3af59550161cf575_shared_4_part_1();
    lemma_powmod_mul(5nat, 0x613f7fb9b5nat, 59692nat, 0x1d3af59550161cf575nat);
}

/// Part 1 of the chain of `lemma_power_1d3af59550161cf575_shared_5`.
proof fn lemma_power_1d3af59550161cf575_shared_5_part_1()
    ensures
        powmod(0x17db0ba06cde88fa13nat, 89nat, 0x1d3af59550161cf575nat) == 0x1116698bf147bfab7dnat,
{
    let q: nat = 0x1d3af59550161cf575nat;
    let b: nat = 0x17db0ba06cde88fa13nat;
    lemma_powmod_basics(b, q);
    let e0: nat = 1nat;
    let v0: nat = 0x17db0ba06cde88fa13nat;
    let v1: nat = 0xc12659638ff7ac5dnat;
    let e1: nat = step(b, q, e0, v0, false, v1);
    let v2: nat = 0x10636f2f850af7a12bnat;
    let e2: nat = step(b, q, e1, v1, true, v2);
    let v3: nat = 0xa3cd6f1d6fdd5d90enat;
    let e3: nat = step(b, q, e2, v2, true, v3);
    let v4: nat = 0x20b5e77422f99bd09nat;
    let e4: nat = step(b, q, e3, v3, false, v4);
    let v5: nat = 0xdb9a78b54f62bb8c6nat;
    let e5: nat = step(b, q, e4, v4, false, v5);
    let v6: nat = 0x1116698bf147bfab7dnat;
    let e6: nat = step(b, q, e5, v5, true, v6);
}

/// A power of 5 modulo 0x1d3af59550161cf575 that the powers `(q - 1) / r`
/// share for `r` = 3.
proof fn lemma_power_1d3af59550161cf575_shared_5()
    ensures
        powmod(5nat, 0x1ecb484097cb71bcnat, 0x1d3af59550161cf575nat) == 0x1116698bf147bfab7dnat,
{
    lemma_power_1d3af59550161cf575_shared_4();
    lemma_power_1d3af59550161cf575_shared_5_part_1();
    lemma_powmod_mul(5nat, 0x58938229f9a81cnat, 89nat, 0x1d3af59550161cf575nat);
}

/// Part 1 of the chain of `lemma_power_1d3af59550161cf575_over_3`.
proof fn lemma_power_1d3af59550161cf575_over_3_part_1()
    ensures
        powmod(0x1116698bf147bfab7dnat, 81nat, 0x1d3af59550161cf575nat) == 0x3e9b6fc475b30bf7fnat,
{
    let q: nat = 0x1d3af59550161cf575nat;
    let b: nat = 0x1116698bf147bfab7dnat;
    lemma_powmod_basics(b, q);
    let e0: nat = 1nat;
    let v0: nat = 0x1116698bf147bfab7dnat;
    let v1: nat = 0x1d25928ae4f4d9b283nat;
    let e1: nat = step(b, q, e0, v0, false, v1);
    let v2: nat = 0x1a4910a0370fe8c1dnat;
    let e2: nat = step(b, q, e1, v1, true, v2);
    let v3: nat = 0x159c15fb474f8516bbnat;
    let e3: nat = step(b, q, e2, v2, false, v3);
    let v4: nat = 0xa9f5a5ac44b2a9cdbnat;
    let e4: nat = step(b, q, e3, v3, false, v4);
    let v5: nat = 0xb0d833fb4dc590372nat;
    let e5: nat = step(b, q, e4, v4, false, v5);
    let v6: nat = 0x3e9b6fc475b30bf7fnat;
    let e6: nat = step(b, q, e5, v5, true, v6);
}

/// The power `(q - 1) / 3` of 5 modulo `q`, for `q` = 0x1d3af59550161cf575.
proof fn lemma_power_1d3af59550161cf575_over_3()
    ensures
        powmod(5nat, 0x9be51dc70075efc7cnat, 0x1d3af59550161cf575nat) == 0x3e9b6fc475b30bf7fnat,
{
    lemma_power_1d3af59550161cf575_shared_5();
    lemma_power_1d3af59550161cf575_over_3_part_1();
    lemma_powmod_mul(5nat, 0x1ecb484097cb71bcnat, 81nat, 0x1d3af59550161cf575nat);
}

/// Part 1 of the chain of `lemma_power_1d3af59550161cf575_over_89`.
proof fn lemma_power_1d3af59550161cf575_over_89_part_1()
    ensures
        powmod(0x17db0ba06cde88fa13nat, 243nat, 0x1d3af59550161cf575nat) == 0x17c9f80e8d231d8e8dnat,
{
    let q: nat = 0x1d3af59550161cf575nat;
    let b: nat = 0x17db0ba06cde88fa13nat;
    lemma_powmod_basics(b, q);
    let e0: nat = 1nat;
    let v0: nat = 0x17db0ba06cde88fa13nat;
    let v1: nat = 0x33ad92077da69595cnat;
    let e1: nat = step(b, q, e0, v0, true, v1);
    let v2: nat = 0x26e57c56f107721a4nat;
    let e2: nat = step(b, q, e1, v1, true, v2);
    let v3: nat = 0x15a505ab74d8ae131dnat;
    let e3: nat = step(b, q, e2, v2, true, v3);
    let v4: nat = 0x1f16c82bbd29c72ccnat;
    let e4: nat = step(b, q, e3, v3, false, v4);
    let v5: nat = 0x9a0dbaa2be914c596nat;
    let e5: nat = step(b, q, e4, v4, false, v5);
    let v6: nat = 0x1cc02436cc554f564anat;
    let e6: nat = step(b, q, e5, v5, true, v6);
    let v7: nat = 0x17c9f80e8d231d8e8dnat;
    let e7: nat = step(b, q, e6, v6, true, v7);
}

/// The power `(q - 1) / 89` of 5 modulo `q`, for `q` = 0x1d3af59550161cf575.
proof fn lemma_power_1d3af59550161cf575_over_89()
    ensures
        powmod(5nat, 0x5414048dd7fa9294nat, 0x1d3af59550161cf575nat) == 0x17c9f80e8d231d8e8dnat,
{
    lemma_power_1d3af59550161cf575_shared_4();
    lemma_power_1d3af59550161cf575_over_89_part_1();
    lemma_powmod_mul(5nat, 0x58938229f9a81cnat, 243nat, 0x1d3af59550161cf575nat);
}

/// Part 1 of the chain of `lemma_power_1d3af59550161cf575_top`.
proof fn lemma_power_1d3af59550161cf575_top_part_1()
    ensures
        powmod(0x1d3af59550161cf574nat, 2nat, 0x1d3af59550161cf575nat) == 1nat,
{
    let q: nat = 0x1d3af59550161cf575nat;
    let b: nat = 0x1d3af59550161cf574nat;
    lemma_powmod_basics(b, q);
    let e0: nat = 1nat;
    let v0: nat = 0x1d3af59550161cf574nat;
    let v1: nat = 1nat;
    let e1: nat = step(b, q, e0, v0, false, v1);
}

/// The power `q - 1` of 5 modulo `q` is 1, for `q` = 0x1d3af59550161cf575.
proof fn lemma_power_1d3af59550161cf575_top()
    ensures
        powmod(5nat, 0x1d3af59550161cf574nat, 0x1d3af59550161cf575nat) == 1nat,
{
    lemma_power_1d3af59550161cf575_over_2();
    lemma_power_1d3af59550161cf575_top_part_1();
    lemma_powmod_mul(5nat, 0xe9d7acaa80b0e7abanat, 2nat, 0x1d3af59550161cf575nat);
}

/// 0x1d3af59550161cf575 is prime: the powers of 5 pass the test of Lucas.
pub proof fn lemma_prime_1d3af59550161cf575()
    ensures
        is_prime(0x1d3af59550161cf575nat),
{
    let q: nat = 0x1d3af59550161cf575nat;
    let g: nat = 5nat;
    let factors: Seq<nat> = seq![2nat, 3nat, 89nat, 14923nat, 0x613f7fb9b5nat];
    lemma_prime_2();
    lemma_prime_3();
    lemma_prime_89();
    lemma_prime_14923();
    lemma_prime_613f7fb9b5();
    // No other prime divides `q - 1`.
    lemma_split(0x1d3af59550161cf574nat, 2nat, 0xe9d7acaa80b0e7abanat);
    lemma_split(0xe9d7acaa80b0e7abanat, 2nat, 0x74ebd655405873d5dnat);
    lemma_split(0x74ebd655405873d5dnat, 3nat, 0x26f94771c01d7bf1fnat);
    lemma_split(0x26f94771c01d7bf1fnat, 3nat, 0xcfdc27b4009d3fb5nat);
    lemma_split(0xcfdc27b4009d3fb5nat, 3nat, 0x454962915589bfe7nat);
    lemma_split(0x454962915589bfe7nat, 3nat, 0x1718763071d8954dnat);
    lemma_split(0x1718763071d8954dnat, 3nat, 0x7b2d21025f2dc6fnat);
    lemma_split(0x7b2d21025f2dc6fnat, 89nat, 0x1624e08a7e6a07nat);
    lemma_split(0x1624e08a7e6a07nat, 14923nat, 0x613f7fb9b5nat);
    lemma_split(0x613f7fb9b5nat, 0x613f7fb9b5nat, 1nat);
    lemma_no_prime_divides_one();
    assert(factors[0] == 2nat);
    assert(factors[1] == 3nat);
    assert(factors[2] == 89nat);
    assert(factors[3] == 14923nat);
    assert(factors[4] == 0x613f7fb9b5nat);
    assert(only_prime_factors((q - 1) as nat, factors));
    // The powers.
    lemma_power_1d3af59550161cf575_top();
    lemma_power_1d3af59550161cf575_over_2();
    lemma_power_1d3af59550161cf575_over_3();
    lemma_power_1d3af59550161cf575_over_89();
    lemma_power_1d3af59550161cf575_over_14923();
    lemma_power_1d3af59550161cf575_over_613f7fb9b5();
    assert forall|i: int| 0 <= i < factors.len() implies factors[i] > 0 && (q - 1) % (
        factors[i] as int
    ) == 0 && powmod(g, ((q - 1) / (#[trigger] factors[i] as int)) as nat, q) != 1 by {
        if i == 0 {
            assert((q - 1) / (2nat as int) == 0xe9d7acaa80b0e7abanat);
        } else if i == 1 {
            assert((q - 1) / (3nat as int) == 0x9be51dc70075efc7cnat);
        } else if i == 2 {
            assert((q - 1) / (89nat as int) == 0x5414048dd7fa9294nat);
        } else if i == 3 {
            assert((q - 1) / (14923nat as int) == 0x805e3dad3677dcnat);
        } else if i == 4 {
            assert((q - 1) / (0x613f7fb9b5nat as int) == 0x4cf27824nat);
        }
    }
    lemma_lucas(q, g, factors);
}

/// Part 1 of the chain of `lemma_power_2531_shared_1`.
proof fn lemma_power_2531_shared_1_part_1()
    ensures
        powmod(2nat, 55nat, 2531nat) == 1737nat,
{
    let q: nat = 2531nat;
    let b: nat = 2nat;
    lemma_powmod_basics(b, q);
    let e0: nat = 1nat;
    let v0: nat = 2nat;
    let v1: nat = 8nat;
    let e1: nat = step(b, q, e0, v0, true, v1);
    let v2: nat = 64nat;
    let e2: nat = step(b, q, e1, v1, false, v2);
    let v3: nat = 599nat;
    let e3: nat = step(b, q, e2, v2, true, v3);
    let v4: nat = 1329nat;
    let e4: nat = step(b, q, e3, v3, true, v4);
    let v5: nat = 1737nat;
    let e5: nat = step(b, q, e4, v4, true, v5);
}

/// A power of 2 modulo 2531 that the powers `(q - 1) / r` share for `r` = 2
/// and 23.
proof fn lemma_power_2531_shared_1()
    ensures
        powmod(2nat, 55nat, 2531nat) == 1737nat,
{
    lemma_power_2531_shared_1_part_1();
    lemma_powmod_basics(2nat, 2531nat);
    lemma_powmod_mul(2nat, 1, 55nat, 2531nat);
}

/// Part 1 of the chain of `lemma_power_2531_over_23`.
proof fn lemma_power_2531_over_23_part_1()
    ensures
        powmod(1737nat, 2nat, 2531nat) == 217nat,
{
    let q: nat = 2531nat;
    let b: nat = 1737nat;
    lemma_powmod_basics(b, q);
    let e0: nat = 1nat;
    let v0: nat = 1737nat;
    let v1: nat = 217nat;
    let e1: nat = step(b, q, e0, v0, false, v1);
}

/// The power `(q - 1) / 23` of 2 modulo `q`, for `q` = 2531.
proof fn lemma_power_2531_over_23()
    ensures
        powmod(2nat, 110nat, 2531nat) == 217nat,
{
    lemma_power_2531_shared_1();
    lemma_power_2531_over_23_part_1();
    lemma_powmod_mul(2nat, 55nat, 2nat, 2531nat);
}

/// Part 1 of the chain of `lemma_power_2531_over_2`.
proof fn lemma_power_2531_over_2_part_1()
    ensures
        powmod(1737nat, 23nat, 2531nat) == 2530nat,
{
    let q: nat = 2531nat;
    let b: nat = 1737nat;
    lemma_powmod_basics(b, q);
    let e0: nat = 1nat;
    let v0: nat = 1737nat;
    let v1: nat = 217nat;
    let e1: nat = step(b, q, e0, v0, false, v1);
    let v2: nat = 1797nat;
    let e2: nat = step(b, q, e1, v1, true, v2);
    let v3: nat = 2170nat;
    let e3: nat = step(b, q, e2, v2, true, v3);
    let v4: nat = 2530nat;
    let e4: nat = step(b, q, e3, v3, true, v4);
}

/// The power `(q - 1) / 2` of 2 modulo `q`, for `q` = 2531.
proof fn lemma_power_2531_over_2()
    ensures
        powmod(2nat, 1265nat, 2531nat) == 2530nat,
{
    lemma_power_2531_shared_1();
    lemma_power_2531_over_2_part_1();
    lemma_powmod_mul(2nat, 55nat, 23nat, 2531nat);
}

/// Part 1 of the chain of `lemma_power_2531_shared_2`.
proof fn lemma_power_2531_shared_2_part_1()
    ensures
        powmod(2nat, 46nat, 2531nat) == 2045nat,
{
    let q: nat = 2531nat;
    let b: nat = 2nat;
    lemma_powmod_basics(b, q);
    let e0: nat = 1nat;
    let v0: nat = 2nat;
    let v1: nat = 4nat;
    let e1: nat = step(b, q, e0, v0, false, v1);
    let v2: nat = 32nat;
    let e2: nat = step(b, q, e1, v1, true, v2);
    let v3: nat = 2048nat;
    let e3: nat = step(b, q, e2, v2, true, v3);
    let v4: nat = 874nat;
    let e4: nat = step(b, q, e3, v3, true, v4);
    let v5: nat = 2045nat;
    let e5: nat = step(b, q, e4, v4, false, v5);
}

/// A power of 2 modulo 2531 that the powers `(q - 1) / r` share for `r` = 5
/// and 11.
proof fn lemma_power_2531_shared_2()
    ensures
        powmod(2nat, 46nat, 2531nat) == 2045nat,
{
    lemma_power_2531_shared_2_part_1();
    lemma_powmod_basics(2nat, 2531nat);
    lemma_powmod_mul(2nat, 1, 46nat, 2531nat);
}

/// Part 1 of the chain of `lemma_power_2531_over_11`.
proof fn lemma_power_2531_over_11_part_1()
    ensures
        powmod(2045nat, 5nat, 2531nat) == 1055nat,
{
    let q: nat = 2531nat;
    let b: nat = 2045nat;
    lemma_powmod_basics(b, q);
    let e0: nat = 1nat;
    let v0: nat = 2045nat;
    let v1: nat = 813nat;
    let e1: nat = step(b, q, e0, v0, false, v1);
    let v2: nat = 1055nat;
    let e2: nat = step(b, q, e1, v1, true, v2);
}

/// The power `(q - 1) / 11` of 2 modulo `q`, for `q` = 2531.
proof fn lemma_power_2531_over_11()
    ensures
        powmod(2nat, 230nat, 2531nat) == 1055nat,
{
    lemma_power_2531_shared_2();
    lemma_power_2531_over_11_part_1();
    lemma_powmod_mul(2nat, 46nat, 5nat, 2531nat);
}

/// Part 1 of the chain of `lemma_power_2531_over_5`.
proof fn lemma_power_2531_over_5_part_1()
    ensures
        powmod(2045nat, 11nat, 2531nat) == 232nat,
{
    let q: nat = 2531nat;
    let b: nat = 2045nat;
    lemma_powmod_basics(b, q);
    let e0: nat = 1nat;
    let v0: nat = 2045nat;
    let v1: nat = 813nat;
    let e1: nat = step(b, q, e0, v0, false, v1);
    let v2: nat = 1055nat;
    let e2: nat = step(b, q, e1, v1, true, v2);
    let v3: nat = 232nat;
    let e3: nat = step(b, q, e2, v2, true, v3);
}

/// The power `(q - 1) / 5` of 2 modulo `q`, for `q` = 2531.
proof fn lemma_power_2531_over_5()
    ensures
        powmod(2nat, 506nat, 2531nat) == 232nat,
{
    lemma_power_2531_shared_2();
    lemma_power_2531_over_5_part_1();
    lemma_powmod_mul(2nat, 46nat, 11nat, 2531nat);
}

/// Part 1 of the chain of `lemma_power_2531_top`.
proof fn lemma_power_2531_top_part_1()
    ensures
        powmod(2530nat, 2nat, 2531nat) == 1nat,
{
    let q: nat = 2531nat;
    let b: nat = 2530nat;
    lemma_powmod_basics(b, q);
    let e0: nat = 1nat;
    let v0: nat = 2530nat;
    let v1: nat = 1nat;
    let e1: nat = step(b, q, e0, v0, false, v1);
}

/// The power `q - 1` of 2 modulo `q` is 1, for `q` = 2531.
proof fn lemma_power_2531_top()
    ensures
        powmod(2nat, 2530nat, 2531nat) == 1nat,
{
    lemma_power_2531_over_2();
    lemma_power_2531_top_part_1();
    lemma_powmod_mul(2nat, 1265nat, 2nat, 2531nat);
}

/// 2531 is prime: the powers of 2 pass the test of Lucas.
pub proof fn lemma_prime_2531()
    ensures
        is_prime(2531nat),
{
    let q: nat = 2531nat;
    let g: nat = 2nat;
    let factors: Seq<nat> = seq![2nat, 5nat, 11nat, 23nat];
    lemma_prime_2();
    lemma_prime_5();
    lemma_prime_11();
    lemma_prime_23();
    // No other prime divides `q - 1`.
    lemma_split(2530nat, 2nat, 1265nat);
    lemma_split(1265nat, 5nat, 253nat);
    lemma_split(253nat, 11nat, 23nat);
    lemma_split(23nat, 23nat, 1nat);
    lemma_no_prime_divides_one();
    assert(factors[0] == 2nat);
    assert(factors[1] == 5nat);
    assert(factors[2] == 11nat);
    assert(factors[3] == 23nat);
    assert(only_prime_factors((q - 1) as nat, factors));
    // The powers.
    lemma_power_2531_top();
    lemma_power_2531_over_2();
    lemma_power_2531_over_5();
    lemma_power_2531_over_11();
    lemma_power_2531_over_23();
    assert forall|i: int| 0 <= i < factors.len() implies factors[i] > 0 && (q - 1) % (
        factors[i] as int
    ) == 0 && powmod(g, ((q - 1) / (#[trigger] factors[i] as int)) as nat, q) != 1 by {
        if i == 0 {
            assert((q - 1) / (2nat as int) == 1265nat);
        } else if i == 1 {
            assert((q - 1) / (5nat as int) == 506nat);
        } else if i == 2 {
            assert((q - 1) / (11nat as int) == 230nat);
        } else if i == 3 {
            assert((q - 1) / (23nat as int) == 110nat);
        }
    }
    lemma_lucas(q, g, factors);
}

/// Part 1 of the chain of `lemma_power_127_shared_1`.
proof fn lemma_power_127_shared_1_part_1()
    ensures
        powmod(3nat, 14nat, 127nat) == 22nat,
{
    let q: nat = 127nat;
    let b: nat = 3nat;
    lemma_powmod_basics(b, q);
    let e0: nat = 1nat;
    let v0: nat = 3nat;
    let v1: nat = 27nat;
    let e1: nat = step(b, q, e0, v0, true, v1);
    let v2: nat = 28nat;
    let e2: nat = step(b, q, e1, v1, true, v2);
    let v3: nat = 22nat;
    let e3: nat = step(b, q, e2, v2, false, v3);
}

/// A power of 3 modulo 127 that the powers `(q - 1) / r` share for `r` = 3.
proof fn lemma_power_127_shared_1()
    ensures
        powmod(3nat, 14nat, 127nat) == 22nat,
{
    lemma_power_127_shared_1_part_1();
    lemma_powmod_basics(3nat, 127nat);
    lemma_powmod_mul(3nat, 1, 14nat, 127nat);
}

/// Part 1 of the chain of `lemma_power_127_over_3`.
proof fn lemma_power_127_over_3_part_1()
    ensures
        powmod(22nat, 3nat, 127nat) == 107nat,
{
    let q: nat = 127nat;
    let b: nat = 22nat;
    lemma_powmod_basics(b, q);
    let e0: nat = 1nat;
    let v0: nat = 22nat;
    let v1: nat = 107nat;
    let e1: nat = step(b, q, e0, v0, true, v1);
}

/// The power `(q - 1) / 3` of 3 modulo `q`, for `q` = 127.
proof fn lemma_power_127_over_3()
    ensures
        powmod(3nat, 42nat, 127nat) == 107nat,
{
    lemma_power_127_shared_1();
    lemma_power_127_over_3_part_1();
    lemma_powmod_mul(3nat, 14nat, 3nat, 127nat);
}

/// Part 1 of the chain of `lemma_power_127_shared_2`.
proof fn lemma_power_127_shared_2_part_1()
    ensures
        powmod(3nat, 9nat, 127nat) == 125nat,
{
    let q: nat = 127nat;
    let b: nat = 3nat;
    lemma_powmod_basics(b, q);
    let e0: nat = 1nat;
    let v0: nat = 3nat;
    let v1: nat = 9nat;
    let e1: nat = step(b, q, e0, v0, false, v1);
    let v2: nat = 81nat;
    let e2: nat = step(b, q, e1, v1, false, v2);
    let v3: nat = 125nat;
    let e3: nat = step(b, q, e2, v2, true, v3);
}

/// A power of 3 modulo 127 that the powers `(q - 1) / r` share for `r` = 2
/// and 7.
proof fn lemma_power_127_shared_2()
    ensures
        powmod(3nat, 9nat, 127nat) == 125nat,
{
    lemma_power_127_shared_2_part_1();
    lemma_powmod_basics(3nat, 127nat);
    lemma_powmod_mul(3nat, 1, 9nat, 127nat);
}

/// Part 1 of the chain of `lemma_power_127_over_7`.
proof fn lemma_power_127_over_7_part_1()
    ensures
        powmod(125nat, 2nat, 127nat) == 4nat,
{
    let q: nat = 127nat;
    let b: nat = 125nat;
    lemma_powmod_basics(b, q);
    let e0: nat = 1nat;
    let v0: nat = 125nat;
    let v1: nat = 4nat;
    let e1: nat = step(b, q, e0, v0, false, v1);
}

/// The power `(q - 1) / 7` of 3 modulo `q`, for `q` = 127.
proof fn lemma_power_127_over_7()
    ensures
        powmod(3nat, 18nat, 127nat) == 4nat,
{
    lemma_power_127_shared_2();
    lemma_power_127_over_7_part_1();
    lemma_powmod_mul(3nat, 9nat, 2nat, 127nat);
}

/// Part 1 of the chain of `lemma_power_127_over_2`.
proof fn lemma_power_127_over_2_part_1()
    ensures
        powmod(125nat, 7nat, 127nat) == 126nat,
{
    let q: nat = 127nat;
    let b: nat = 125nat;
    lemma_powmod_basics(b, q);
    let e0: nat = 1nat;
    let v0: nat = 125nat;
    let v1: nat = 119nat;
    let e1: nat = step(b, q, e0, v0, true, v1);
    let v2: nat = 126nat;
    let e2: nat = step(b, q, e1, v1, true, v2);
}

/// The power `(q - 1) / 2` of 3 modulo `q`, for `q` = 127.
proof fn lemma_power_127_over_2()
    ensures
        powmod(3nat, 63nat, 127nat) == 126nat,
{
    lemma_power_127_shared_2();
    lemma_power_127_over_2_part_1();
    lemma_powmod_mul(3nat, 9nat, 7nat, 127nat);
}

/// Part 1 of the chain of `lemma_power_127_top`.
proof fn lemma_power_127_top_part_1()
    ensures
        powmod(126nat, 2nat, 127nat) == 1nat,
{
    let q: nat = 127nat;
    let b: nat = 126nat;
    lemma_powmod_basics(b, q);
    let e0: nat = 1nat;
    let v0: nat = 126nat;
    let v1: nat = 1nat;
    let e1: nat = step(b, q, e0, v0, false, v1);
}

/// The power `q - 1` of 3 modulo `q` is 1, for `q` = 127.
proof fn lemma_power_127_top()
    ensures
        powmod(3nat, 126nat, 127nat) == 1nat,
{
    lemma_power_127_over_2();
    lemma_power_127_top_part_1();
    lemma_powmod_mul(3nat, 63nat, 2nat, 127nat);
}

/// 127 is prime: the powers of 3 pass the test of Lucas.
pub proof fn lemma_prime_127()
    ensures
        is_prime(127nat),
{
    let q: nat = 127nat;
    let g: nat = 3nat;
    let factors: Seq<nat> = seq![2nat, 3nat, 7nat];
    lemma_prime_2();
    lemma_prime_3();
    lemma_prime_7();
    // No other prime divides `q - 1`.
    lemma_split(126nat, 2nat, 63nat);
    lemma_split(63nat, 3nat, 21nat);
    lemma_split(21nat, 3nat, 7nat);
    lemma_split(7nat, 7nat, 1nat);
    lemma_no_prime_divides_one();
    assert(factors[0] == 2nat);
    assert(factors[1] == 3nat);
    assert(factors[2] == 7nat);
    assert(only_prime_factors((q - 1) as nat, factors));
    // The powers.
    lemma_power_127_top();
    lemma_power_127_over_2();
    lemma_power_127_over_3();
    lemma_power_127_over_7();
    assert forall|i: int| 0 <= i < factors.len() implies factors[i] > 0 && (q - 1) % (
        factors[i] as int
    ) == 0 && powmod(g, ((q - 1) / (#[trigger] factors[i] as int)) as nat, q) != 1 by {
        if i == 0 {
            assert((q - 1) / (2nat as int) == 63nat);
        } else if i == 1 {
            assert((q - 1) / (3nat as int) == 42nat);
        } else if i == 2 {
            assert((q - 1) / (7nat as int) == 18nat);
        }
    }
    lemma_lucas(q, g, factors);
}

/// Part 1 of the chain of `lemma_power_509_over_127`.
proof fn lemma_power_509_over_127_part_1()
    ensures
        powmod(2nat, 4nat, 509nat) == 16nat,
{
    let q: nat = 509nat;
    let b: nat = 2nat;
    lemma_powmod_basics(b, q);
    let e0: nat = 1nat;
    let v0: nat = 2nat;
    let v1: nat = 4nat;
    let e1: nat = step(b, q, e0, v0, false, v1);
    let v2: nat = 16nat;
    let e2: nat = step(b, q, e1, v1, false, v2);
}

/// The power `(q - 1) / 127` of 2 modulo `q`, for `q` = 509.
proof fn lemma_power_509_over_127()
    ensures
        powmod(2nat, 4nat, 509nat) == 16nat,
{
    lemma_power_509_over_127_part_1();
    lemma_powmod_basics(2nat, 509nat);
    lemma_powmod_mul(2nat, 1, 4nat, 509nat);
}

/// Part 1 of the chain of `lemma_power_509_shared_1`.
proof fn lemma_power_509_shared_1_part_1()
    ensures
        powmod(2nat, 127nat, 509nat) == 301nat,
{
    let q: nat = 509nat;
    let b: nat = 2nat;
    lemma_powmod_basics(b, q);
    let e0: nat = 1nat;
    let v0: nat = 2nat;
    let v1: nat = 8nat;
    let e1: nat = step(b, q, e0, v0, true, v1);
    let v2: nat = 128nat;
    let e2: nat = step(b, q, e1, v1, true, v2);
    let v3: nat = 192nat;
    let e3: nat = step(b, q, e2, v2, true, v3);
    let v4: nat = 432nat;
    let e4: nat = step(b, q, e3, v3, true, v4);
    let v5: nat = 151nat;
    let e5: nat = step(b, q, e4, v4, true, v5);
    let v6: nat = 301nat;
    let e6: nat = step(b, q, e5, v5, true, v6);
}

/// A power of 2 modulo 509 that the powers `(q - 1) / r` share for `r` = 2.
proof fn lemma_power_509_shared_1()
    ensures
        powmod(2nat, 127nat, 509nat) == 301nat,
{
    lemma_power_509_shared_1_part_1();
    lemma_powmod_basics(2nat, 509nat);
    lemma_powmod_mul(2nat, 1, 127nat, 509nat);
}

/// Part 1 of the chain of `lemma_power_509_over_2`.
proof fn lemma_power_509_over_2_part_1()
    ensures
        powmod(301nat, 2nat, 509nat) == 508nat,
{
    let q: nat = 509nat;
    let b: nat = 301nat;
    lemma_powmod_basics(b, q);
    let e0: nat = 1nat;
    let v0: nat = 301nat;
    let v1: nat = 508nat;
    let e1: nat = step(b, q, e0, v0, false, v1);
}

/// The power `(q - 1) / 2` of 2 modulo `q`, for `q` = 509.
proof fn lemma_power_509_over_2()
    ensures
        powmod(2nat, 254nat, 509nat) == 508nat,
{
    lemma_power_509_shared_1();
    lemma_power_509_over_2_part_1();
    lemma_powmod_mul(2nat, 127nat, 2nat, 509nat);
}

/// Part 1 of the chain of `lemma_power_509_top`.
proof fn lemma_power_509_top_part_1()
    ensures
        powmod(508nat, 2nat, 509nat) == 1nat,
{
    let q: nat = 509nat;
    let b: nat = 508nat;
    lemma_powmod_basics(b, q);
    let e0: nat = 1nat;
    let v0: nat = 508nat;
    let v1: nat = 1nat;
    let e1: nat = step(b, q, e0, v0, false, v1);
}

/// The power `q - 1` of 2 modulo `q` is 1, for `q` = 509.
proof fn lemma_power_509_top()
    ensures
        powmod(2nat, 508nat, 509nat) == 1nat,
{
    lemma_power_509_over_2();
    lemma_power_509_top_part_1();
    lemma_powmod_mul(2nat, 254nat, 2nat, 509nat);
}

/// 509 is prime: the powers of 2 pass the test of Lucas.
pub proof fn lemma_prime_509()
    ensures
        is_prime(509nat),
{
    let q: nat = 509nat;
    let g: nat = 2nat;
    let factors: Seq<nat> = seq![2nat, 127nat];
    lemma_prime_2();
    lemma_prime_127();
    // No other prime divides `q - 1`.
    lemma_split(508nat, 2nat, 254nat);
    lemma_split(254nat, 2nat, 127nat);
    lemma_split(127nat, 127nat, 1nat);
    lemma_no_prime_divides_one();
    assert(factors[0] == 2nat);
    assert(factors[1] == 127nat);
    assert(only_prime_factors((q - 1) as nat, factors));
    // The powers.
    lemma_power_509_top();
    lemma_power_509_over_2();
    lemma_power_509_over_127();
    assert forall|i: int| 0 <= i < factors.len() implies factors[i] > 0 && (q - 1) % (
        factors[i] as int
    ) == 0 && powmod(g, ((q - 1) / (#[trigger] factors[i] as int)) as nat, q) != 1 by {
        if i == 0 {
            assert((q - 1) / (2nat as int) == 254nat);
        } else if i == 1 {
            assert((q - 1) / (127nat as int) == 4nat);
        }
    }
    lemma_lucas(q, g, factors);
}

/// Part 1 of the chain of `lemma_power_13_shared_1`.
proof fn lemma_power_13_shared_1_part_1()
    ensures
        powmod(2nat, 3nat, 13nat) == 8nat,
{
    let q: nat = 13nat;
    let b: nat = 2nat;
    lemma_powmod_basics(b, q);
    let e0: nat = 1nat;
    let v0: nat = 2nat;
    let v1: nat = 8nat;
    let e1: nat = step(b, q, e0, v0, true, v1);
}

/// A power of 2 modulo 13 that the powers `(q - 1) / r` share for `r` = 2.
proof fn lemma_power_13_shared_1()
    ensures
        powmod(2nat, 3nat, 13nat) == 8nat,
{
    lemma_power_13_shared_1_part_1();
    lemma_powmod_basics(2nat, 13nat);
    lemma_powmod_mul(2nat, 1, 3nat, 13nat);
}

/// Part 1 of the chain of `lemma_power_13_over_2`.
proof fn lemma_power_13_over_2_part_1()
    ensures
        powmod(8nat, 2nat, 13nat) == 12nat,
{
    let q: nat = 13nat;
    let b: nat = 8nat;
    lemma_powmod_basics(b, q);
    let e0: nat = 1nat;
    let v0: nat = 8nat;
    let v1: nat = 12nat;
    let e1: nat = step(b, q, e0, v0, false, v1);
}

/// The power `(q - 1) / 2` of 2 modulo `q`, for `q` = 13.
proof fn lemma_power_13_over_2()
    ensures
        powmod(2nat, 6nat, 13nat) == 12nat,
{
    lemma_power_13_shared_1();
    lemma_power_13_over_2_part_1();
    lemma_powmod_mul(2nat, 3nat, 2nat, 13nat);
}

/// Part 1 of the chain of `lemma_power_13_over_3`.
proof fn lemma_power_13_over_3_part_1()
    ensures
        powmod(2nat, 4nat, 13nat) == 3nat,
{
    let q: nat = 13nat;
    let b: nat = 2nat;
    lemma_powmod_basics(b, q);
    let e0: nat = 1nat;
    let v0: nat = 2nat;
    let v1: nat = 4nat;
    let e1: nat = step(b, q, e0, v0, false, v1);
    let v2: nat = 3nat;
    let e2: nat = step(b, q, e1, v1, false, v2);
}

/// The power `(q - 1) / 3` of 2 modulo `q`, for `q` = 13.
proof fn lemma_power_13_over_3()
    ensures
        powmod(2nat, 4nat, 13nat) == 3nat,
{
    lemma_power_13_over_3_part_1();
    lemma_powmod_basics(2nat, 13nat);
    lemma_powmod_mul(2nat, 1, 4nat, 13nat);
}

/// Part 1 of the chain of `lemma_power_13_top`.
proof fn lemma_power_13_top_part_1()
    ensures
        powmod(12nat, 2nat, 13nat) == 1nat,
{
    let q: nat = 13nat;
    let b: nat = 12nat;
    lemma_powmod_basics(b, q);
    let e0: nat = 1nat;
    let v0: nat = 12nat;
    let v1: nat = 1nat;
    let e1: nat = step(b, q, e0, v0, false, v1);
}

/// The power `q - 1` of 2 modulo `q` is 1, for `q` = 13.
proof fn lemma_power_13_top()
    ensures
        powmod(2nat, 12nat, 13nat) == 1nat,
{
    lemma_power_13_over_2();
    lemma_power_13_top_part_1();
    lemma_powmod_mul(2nat, 6nat, 2nat, 13nat);
}

/// 13 is prime: the powers of 2 pass the test of Lucas.
pub proof fn lemma_prime_13()
    ensures
        is_prime(13nat),
{
    let q: nat = 13nat;
    let g: nat = 2nat;
    let factors: Seq<nat> = seq![2nat, 3nat];
    lemma_prime_2();
    lemma_prime_3();
    // No other prime divides `q - 1`.
    lemma_split(12nat, 2nat, 6nat);
    lemma_split(6nat, 2nat, 3nat);
    lemma_split(3nat, 3nat, 1nat);
    lemma_no_prime_divides_one();
    assert(factors[0] == 2nat);
    assert(factors[1] == 3nat);
    assert(only_prime_factors((q - 1) as nat, factors));
    // The powers.
    lemma_power_13_top();
    lemma_power_13_over_2();
    lemma_power_13_over_3();
    assert forall|i: int| 0 <= i < factors.len() implies factors[i] > 0 && (q - 1) % (
        factors[i] as int
    ) == 0 && powmod(g, ((q - 1) / (#[trigger] factors[i] as int)) as nat, q) != 1 by {
        if i == 0 {
            assert((q - 1) / (2nat as int) == 6nat);
        } else if i == 1 {
            assert((q - 1) / (3nat as int) == 4nat);
        }
    }
    lemma_lucas(q, g, factors);
}

/// Part 1 of the chain of `lemma_power_25741_shared_1`.
proof fn lemma_power_25741_shared_1_part_1()
    ensures
        powmod(6nat, 220nat, 25741nat) == 24000nat,
{
    let q: nat = 25741nat;
    let b: nat = 6nat;
    lemma_powmod_basics(b, q);
    let e0: nat = 1nat;
    let v0: nat = 6nat;
    let v1: nat = 216nat;
    let e1: nat = step(b, q, e0, v0, true, v1);
    let v2: nat = 20915nat;
    let e2: nat = step(b, q, e1, v1, false, v2);
    let v3: nat = 19508nat;
    let e3: nat = step(b, q, e2, v2, true, v3);
    let v4: nat = 16979nat;
    let e4: nat = step(b, q, e3, v3, true, v4);
    let v5: nat = 669nat;
    let e5: nat = step(b, q, e4, v4, true, v5);
    let v6: nat = 9964nat;
    let e6: nat = step(b, q, e5, v5, false, v6);
    let v7: nat = 24000nat;
    let e7: nat = step(b, q, e6, v6, false, v7);
}

/// A power of 6 modulo 25741 that the powers `(q - 1) / r` share for `r` = 3
/// and 13.
proof fn lemma_power_25741_shared_1()
    ensures
        powmod(6nat, 220nat, 25741nat) == 24000nat,
{
    lemma_power_25741_shared_1_part_1();
    lemma_powmod_basics(6nat, 25741nat);
    lemma_powmod_mul(6nat, 1, 220nat, 25741nat);
}

/// Part 1 of the chain of `lemma_power_25741_shared_2`.
proof fn lemma_power_25741_shared_2_part_1()
    ensures
        powmod(24000nat, 13nat, 25741nat) == 8852nat,
{
    let q: nat = 25741nat;
    let b: nat = 24000nat;
    lemma_powmod_basics(b, q);
    let e0: nat = 1nat;
    let v0: nat = 24000nat;
    let v1: nat = 24648nat;
    let e1: nat = step(b, q, e0, v0, true, v1);
    let v2: nat = 10563nat;
    let e2: nat = step(b, q, e1, v1, false, v2);
    let v3: nat = 8852nat;
    let e3: nat = step(b, q, e2, v2, true, v3);
}

/// A power of 6 modulo 25741 that the powers `(q - 1) / r` share for `r` = 3.
proof fn lemma_power_25741_shared_2()
    ensures
        powmod(6nat, 2860nat, 25741nat) == 8852nat,
{
    lemma_power_25741_shared_1();
    lemma_power_25741_shared_2_part_1();
    lemma_powmod_mul(6nat, 220nat, 13nat, 25741nat);
}

/// Part 1 of the chain of `lemma_power_25741_over_3`.
proof fn lemma_power_25741_over_3_part_1()
    ensures
        powmod(8852nat, 3nat, 25741nat) == 24210nat,
{
    let q: nat = 25741nat;
    let b: nat = 8852nat;
    lemma_powmod_basics(b, q);
    let e0: nat = 1nat;
    let v0: nat = 8852nat;
    let v1: nat = 24210nat;
    let e1: nat = step(b, q, e0, v0, true, v1);
}

/// The power `(q - 1) / 3` of 6 modulo `q`, for `q` = 25741.
proof fn lemma_power_25741_over_3()
    ensures
        powmod(6nat, 8580nat, 25741nat) == 24210nat,
{
    lemma_power_25741_shared_2();
    lemma_power_25741_over_3_part_1();
    lemma_powmod_mul(6nat, 2860nat, 3nat, 25741nat);
}

/// Part 1 of the chain of `lemma_power_25741_over_13`.
proof fn lemma_power_25741_over_13_part_1()
    ensures
        powmod(24000nat, 9nat, 25741nat) == 12350nat,
{
    let q: nat = 25741nat;
    let b: nat = 24000nat;
    lemma_powmod_basics(b, q);
    let e0: nat = 1nat;
    let v0: nat = 24000nat;
    let v1: nat = 19384nat;
    let e1: nat = step(b, q, e0, v0, false, v1);
    let v2: nat = 23820nat;
    let e2: nat = step(b, q, e1, v1, false, v2);
    let v3: nat = 12350nat;
    let e3: nat = step(b, q, e2, v2, true, v3);
}

/// The power `(q - 1) / 13` of 6 modulo `q`, for `q` = 25741.
proof fn lemma_power_25741_over_13()
    ensures
        powmod(6nat, 1980nat, 25741nat) == 12350nat,
{
    lemma_power_25741_shared_1();
    lemma_power_25741_over_13_part_1();
    lemma_powmod_mul(6nat, 220nat, 9nat, 25741nat);
}

/// Part 1 of the chain of `lemma_power_25741_shared_3`.
proof fn lemma_power_25741_shared_3_part_1()
    ensures
        powmod(6nat, 117nat, 25741nat) == 13285nat,
{
    let q: nat = 25741nat;
    let b: nat = 6nat;
    lemma_powmod_basics(b, q);
    let e0: nat = 1nat;
    let v0: nat = 6nat;
    let v1: nat = 216nat;
    let e1: nat = step(b, q, e0, v0, true, v1);
    let v2: nat = 22526nat;
    let e2: nat = step(b, q, e1, v1, true, v2);
    let v3: nat = 14084nat;
    let e3: nat = step(b, q, e2, v2, false, v3);
    let v4: nat = 19201nat;
    let e4: nat = step(b, q, e3, v3, true, v4);
    let v5: nat = 15799nat;
    let e5: nat = step(b, q, e4, v4, false, v5);
    let v6: nat = 13285nat;
    let e6: nat = step(b, q, e5, v5, true, v6);
}

/// A power of 6 modulo 25741 that the powers `(q - 1) / r` share for `r` = 2,
/// 5 and 11.
proof fn lemma_power_25741_shared_3()
    ensures
        powmod(6nat, 117nat, 25741nat) == 13285nat,
{
    lemma_power_25741_shared_3_part_1();
    lemma_powmod_basics(6nat, 25741nat);
    lemma_powmod_mul(6nat, 1, 117nat, 25741nat);
}

/// Part 1 of the chain of `lemma_power_25741_over_11`.
proof fn lemma_power_25741_over_11_part_1()
    ensures
        powmod(13285nat, 20nat, 25741nat) == 21223nat,
{
    let q: nat = 25741nat;
    let b: nat = 13285nat;
    lemma_powmod_basics(b, q);
    let e0: nat = 1nat;
    let v0: nat = 13285nat;
    let v1: nat = 10929nat;
    let e1: nat = step(b, q, e0, v0, false, v1);
    let v2: nat = 20828nat;
    let e2: nat = step(b, q, e1, v1, true, v2);
    let v3: nat = 18252nat;
    let e3: nat = step(b, q, e2, v2, false, v3);
    let v4: nat = 21223nat;
    let e4: nat = step(b, q, e3, v3, false, v4);
}

/// The power `(q - 1) / 11` of 6 modulo `q`, for `q` = 25741.
proof fn lemma_power_25741_over_11()
    ensures
        powmod(6nat, 2340nat, 25741nat) == 21223nat,
{
    lemma_power_25741_shared_3();
    lemma_power_25741_over_11_part_1();
    lemma_powmod_mul(6nat, 117nat, 20nat, 25741nat);
}

/// Part 1 of the chain of `lemma_power_25741_shared_4`.
proof fn lemma_power_25741_shared_4_part_1()
    ensures
        powmod(13285nat, 11nat, 25741nat) == 23341nat,
{
    let q: nat = 25741nat;
    let b: nat = 13285nat;
    lemma_powmod_basics(b, q);
    let e0: nat = 1nat;
    let v0: nat = 13285nat;
    let v1: nat = 10929nat;
    let e1: nat = step(b, q, e0, v0, false, v1);
    let v2: nat = 20828nat;
    let e2: nat = step(b, q, e1, v1, true, v2);
    let v3: nat = 23341nat;
    let e3: nat = step(b, q, e2, v2, true, v3);
}

/// A power of 6 modulo 25741 that the powers `(q - 1) / r` share for `r` = 2
/// and 5.
proof fn lemma_power_25741_shared_4()
    ensures
        powmod(6nat, 1287nat, 25741nat) == 23341nat,
{
    lemma_power_25741_shared_3();
    lemma_power_25741_shared_4_part_1();
    lemma_powmod_mul(6nat, 117nat, 11nat, 25741nat);
}

/// Part 1 of the chain of `lemma_power_25741_shared_5`.
proof fn lemma_power_25741_shared_5_part_1()
    ensures
        powmod(23341nat, 5nat, 25741nat) == 14876nat,
{
    let q: nat = 25741nat;
    let b: nat = 23341nat;
    lemma_powmod_basics(b, q);
    let e0: nat = 1nat;
    let v0: nat = 23341nat;
    let v1: nat = 19757nat;
    let e1: nat = step(b, q, e0, v0, false, v1);
    let v2: nat = 14876nat;
    let e2: nat = step(b, q, e1, v1, true, v2);
}

/// A power of 6 modulo 25741 that the powers `(q - 1) / r` share for `r` = 2.
proof fn lemma_power_25741_shared_5()
    ensures
        powmod(6nat, 6435nat, 25741nat) == 14876nat,
{
    lemma_power_25741_shared_4();
    lemma_power_25741_shared_5_part_1();
    lemma_powmod_mul(6nat, 1287nat, 5nat, 25741nat);
}

/// Part 1 of the chain of `lemma_power_25741_over_2`.
proof fn lemma_power_25741_over_2_part_1()
    ensures
        powmod(14876nat, 2nat, 25741nat) == 25740nat,
{
    let q: nat = 25741nat;
    let b: nat = 14876nat;
    lemma_powmod_basics(b, q);
    let e0: nat = 1nat;
    let v0: nat = 14876nat;
    let v1: nat = 25740nat;
    let e1: nat = step(b, q, e0, v0, false, v1);
}

/// The power `(q - 1) / 2` of 6 modulo `q`, for `q` = 25741.
proof fn lemma_power_25741_over_2()
    ensures
        powmod(6nat, 12870nat, 25741nat) == 25740nat,
{
    lemma_power_25741_shared_5();
    lemma_power_25741_over_2_part_1();
    lemma_powmod_mul(6nat, 6435nat, 2nat, 25741nat);
}

/// Part 1 of the chain of `lemma_power_25741_over_5`.
proof fn lemma_power_25741_over_5_part_1()
    ensures
        powmod(23341nat, 4nat, 25741nat) == 2525nat,
{
    let q: nat = 25741nat;
    let b: nat = 23341nat;
    lemma_powmod_basics(b, q);
    let e0: nat = 1nat;
    let v0: nat = 23341nat;
    let v1: nat = 19757nat;
    let e1: nat = step(b, q, e0, v0, false, v1);
    let v2: nat = 2525nat;
    let e2: nat = step(b, q, e1, v1, false, v2);
}

/// The power `(q - 1) / 5` of 6 modulo `q`, for `q` = 25741.
proof fn lemma_power_25741_over_5()
    ensures
        powmod(6nat, 5148nat, 25741nat) == 2525nat,
{
    lemma_power_25741_shared_4();
    lemma_power_25741_over_5_part_1();
    lemma_powmod_mul(6nat, 1287nat, 4nat, 25741nat);
}

/// Part 1 of the chain of `lemma_power_25741_top`.
proof fn lemma_power_25741_top_part_1()
    ensures
        powmod(25740nat, 2nat, 25741nat) == 1nat,
{
    let q: nat = 25741nat;
    let b: nat = 25740nat;
    lemma_powmod_basics(b, q);
    let e0: nat = 1nat;
    let v0: nat = 25740nat;
    let v1: nat = 1nat;
    let e1: nat = step(b, q, e0, v0, false, v1);
}

/// The power `q - 1` of 6 modulo `q` is 1, for `q` = 25741.
proof fn lemma_power_25741_top()
    ensures
        powmod(6nat, 25740nat, 25741nat) == 1nat,
{
    lemma_power_25741_over_2();
    lemma_power_25741_top_part_1();
    lemma_powmod_mul(6nat, 12870nat, 2nat, 25741nat);
}

/// 25741 is prime: the powers of 6 pass the test of Lucas.
pub proof fn lemma_prime_25741()
    ensures
        is_prime(25741nat),
{
    let q: nat = 25741nat;
    let g: nat = 6nat;
    let factors: Seq<nat> = seq![2nat, 3nat, 5nat, 11nat, 13nat];
    lemma_prime_2();
    lemma_prime_3();
    lemma_prime_5();
    lemma_prime_11();
    lemma_prime_13();
    // No other prime divides `q - 1`.
    lemma_split(25740nat, 2nat, 12870nat);
    lemma_split(12870nat, 2nat, 6435nat);
    lemma_split(6435nat, 3nat, 2145nat);
    lemma_split(2145nat, 3nat, 715nat);
    lemma_split(715nat, 5nat, 143nat);
    lemma_split(143nat, 11nat, 13nat);
    lemma_split(13nat, 13nat, 1nat);
    lemma_no_prime_divides_one();
    assert(factors[0] == 2nat);
    assert(factors[1] == 3nat);
    assert(factors[2] == 5nat);
    assert(factors[3] == 11nat);
    assert(factors[4] == 13nat);
    assert(only_prime_factors((q - 1) as nat, factors));
    // The powers.
    lemma_power_25741_top();
    lemma_power_25741_over_2();
    lemma_power_25741_over_3();
    lemma_power_25741_over_5();
    lemma_power_25741_over_11();
    lemma_power_25741_over_13();
    assert forall|i: int| 0 <= i < factors.len() implies factors[i] > 0 && (q - 1) % (
        factors[i] as int
    ) == 0 && powmod(g, ((q - 1) / (#[trigger] factors[i] as int)) as nat, q) != 1 by {
        if i == 0 {
            assert((q - 1) / (2nat as int) == 12870nat);
        } else if i == 1 {
            assert((q - 1) / (3nat as int) == 8580nat);
        } else if i == 2 {
            assert((q - 1) / (5nat as int) == 5148nat);
        } else if i == 3 {
            assert((q - 1) / (11nat as int) == 2340nat);
        } else if i == 4 {
            assert((q - 1) / (13nat as int) == 1980nat);
        }
    }
    lemma_lucas(q, g, factors);
}

/// Part 1 of the chain of `lemma_power_772231_over_25741`.
proof fn lemma_power_772231_over_25741_part_1()
    ensures
        powmod(6nat, 30nat, 772231nat) == 20949nat,
{
    let q: nat = 772231nat;
    let b: nat = 6nat;
    lemma_powmod_basics(b, q);
    let e0: nat = 1nat;
    let v0: nat = 6nat;
    let v1: nat = 216nat;
    let e1: nat = step(b, q, e0, v0, true, v1);
    let v2: nat = 279936nat;
    let e2: nat = step(b, q, e1, v1, true, v2);
    let v3: nat = 556761nat;
    let e3: nat = step(b, q, e2, v2, true, v3);
    let v4: nat = 20949nat;
    let e4: nat = step(b, q, e3, v3, false, v4);
}

/// The power `(q - 1) / 25741` of 6 modulo `q`, for `q` = 772231.
proof fn lemma_power_772231_over_25741()
    ensures
        powmod(6nat, 30nat, 772231nat) == 20949nat,
{
    lemma_power_772231_over_25741_part_1();
    lemma_powmod_basics(6nat, 772231nat);
    lemma_powmod_mul(6nat, 1, 30nat, 772231nat);
}

/// Part 1 of the chain of `lemma_power_772231_shared_1`.
proof fn lemma_power_772231_shared_1_part_1()
    ensures
        powmod(6nat, 25741nat, 772231nat) == 224954nat,
{
    let q: nat = 772231nat;
    let b: nat = 6nat;
    lemma_powmod_basics(b, q);
    let e0: nat = 1nat;
    let v0: nat = 6nat;
    let v1: nat = 216nat;
    let e1: nat = step(b, q, e0, v0, true, v1);
    let v2: nat = 46656nat;
    let e2: nat = step(b, q, e1, v1, false, v2);
    let v3: nat = 635378nat;
    let e3: nat = step(b, q, e2, v2, false, v3);
    let v4: nat = 495458nat;
    let e4: nat = step(b, q, e3, v3, true, v4);
    let v5: nat = 295022nat;
    let e5: nat = step(b, q, e4, v4, false, v5);
    let v6: nat = 596705nat;
    let e6: nat = step(b, q, e5, v5, false, v6);
    let v7: nat = 375507nat;
    let e7: nat = step(b, q, e6, v6, true, v7);
    let v8: nat = 759835nat;
    let e8: nat = step(b, q, e7, v7, false, v8);
    let v9: nat = 759078nat;
    let e9: nat = step(b, q, e8, v8, false, v9);
    let v10: nat = 21665nat;
    let e10: nat = step(b, q, e9, v9, false, v10);
    let v11: nat = 679124nat;
    let e11: nat = step(b, q, e10, v10, true, v11);
    let v12: nat = 633920nat;
    let e12: nat = step(b, q, e11, v11, true, v12);
    let v13: nat = 226389nat;
    let e13: nat = step(b, q, e12, v12, false, v13);
    let v14: nat = 224954nat;
    let e14: nat = step(b, q, e13, v13, true, v14);
}

/// A power of 6 modulo 772231 that the powers `(q - 1) / r` share for `r` =
/// 2, 3 and 5.
proof fn lemma_power_772231_shared_1()
    ensures
        powmod(6nat, 25741nat, 772231nat) == 224954nat,
{
    lemma_power_772231_shared_1_part_1();
    lemma_powmod_basics(6nat, 772231nat);
    lemma_powmod_mul(6nat, 1, 25741nat, 772231nat);
}

/// Part 1 of the chain of `lemma_power_772231_over_5`.
proof fn lemma_power_772231_over_5_part_1()
    ensures
        powmod(224954nat, 6nat, 772231nat) == 516799nat,
{
    let q: nat = 772231nat;
    let b: nat = 224954nat;
    lemma_powmod_basics(b, q);
    let e0: nat = 1nat;
    let v0: nat = 224954nat;
    let v1: nat = 39129nat;
    let e1: nat = step(b, q, e0, v0, true, v1);
    let v2: nat = 516799nat;
    let e2: nat = step(b, q, e1, v1, false, v2);
}

/// The power `(q - 1) / 5` of 6 modulo `q`, for `q` = 772231.
proof fn lemma_power_772231_over_5()
    ensures
        powmod(6nat, 154446nat, 772231nat) == 516799nat,
{
    lemma_power_772231_shared_1();
    lemma_power_772231_over_5_part_1();
    lemma_powmod_mul(6nat, 25741nat, 6nat, 772231nat);
}

/// Part 1 of the chain of `lemma_power_772231_shared_2`.
proof fn lemma_power_772231_shared_2_part_1()
    ensures
        powmod(224954nat, 5nat, 772231nat) == 339747nat,
{
    let q: nat = 772231nat;
    let b: nat = 224954nat;
    lemma_powmod_basics(b, q);
    let e0: nat = 1nat;
    let v0: nat = 224954nat;
    let v1: nat = 4686nat;
    let e1: nat = step(b, q, e0, v0, false, v1);
    let v2: nat = 339747nat;
    let e2: nat = step(b, q, e1, v1, true, v2);
}

/// A power of 6 modulo 772231 that the powers `(q - 1) / r` share for `r` = 2
/// and 3.
proof fn lemma_power_772231_shared_2()
    ensures
        powmod(6nat, 128705nat, 772231nat) == 339747nat,
{
    lemma_power_772231_shared_1();
    lemma_power_772231_shared_2_part_1();
    lemma_powmod_mul(6nat, 25741nat, 5nat, 772231nat);
}

/// Part 1 of the chain of `lemma_power_772231_over_2`.
proof fn lemma_power_772231_over_2_part_1()
    ensures
        powmod(339747nat, 3nat, 772231nat) == 772230nat,
{
    let q: nat = 772231nat;
    let b: nat = 339747nat;
    lemma_powmod_basics(b, q);
    let e0: nat = 1nat;
    let v0: nat = 339747nat;
    let v1: nat = 772230nat;
    let e1: nat = step(b, q, e0, v0, true, v1);
}

/// The power `(q - 1) / 2` of 6 modulo `q`, for `q` = 772231.
proof fn lemma_power_772231_over_2()
    ensures
        powmod(6nat, 386115nat, 772231nat) == 772230nat,
{
    lemma_power_772231_shared_2();
    lemma_power_772231_over_2_part_1();
    lemma_powmod_mul(6nat, 128705nat, 3nat, 772231nat);
}

/// Part 1 of the chain of `lemma_power_772231_over_3`.
proof fn lemma_power_772231_over_3_part_1()
    ensures
        powmod(339747nat, 2nat, 772231nat) == 339746nat,
{
    let q: nat = 772231nat;
    let b: nat = 339747nat;
    lemma_powmod_basics(b, q);
    let e0: nat = 1nat;
    let v0: nat = 339747nat;
    let v1: nat = 339746nat;
    let e1: nat = step(b, q, e0, v0, false, v1);
}

/// The power `(q - 1) / 3` of 6 modulo `q`, for `q` = 772231.
proof fn lemma_power_772231_over_3()
    ensures
        powmod(6nat, 257410nat, 772231nat) == 339746nat,
{
    lemma_power_772231_shared_2();
    lemma_power_772231_over_3_part_1();
    lemma_powmod_mul(6nat, 128705nat, 2nat, 772231nat);
}

/// Part 1 of the chain of `lemma_power_772231_top`.
proof fn lemma_power_772231_top_part_1()
    ensures
        powmod(772230nat, 2nat, 772231nat) == 1nat,
{
    let q: nat = 772231nat;
    let b: nat = 772230nat;
    lemma_powmod_basics(b, q);
    let e0: nat = 1nat;
    let v0: nat = 772230nat;
    let v1: nat = 1nat;
    let e1: nat = step(b, q, e0, v0, false, v1);
}

/// The power `q - 1` of 6 modulo `q` is 1, for `q` = 772231.
proof fn lemma_power_772231_top()
    ensures
        powmod(6nat, 772230nat, 772231nat) == 1nat,
{
    lemma_power_772231_over_2();
    lemma_power_772231_top_part_1();
    lemma_powmod_mul(6nat, 386115nat, 2nat, 772231nat);
}

/// 772231 is prime: the powers of 6 pass the test of Lucas.
pub proof fn lemma_prime_772231()
    ensures
        is_prime(772231nat),
{
    let q: nat = 772231nat;
    let g: nat = 6nat;
    let factors: Seq<nat> = seq![2nat, 3nat, 5nat, 25741nat];
    lemma_prime_2();
    lemma_prime_3();
    lemma_prime_5();
    lemma_prime_25741();
    // No other prime divides `q - 1`.
    lemma_split(772230nat, 2nat, 386115nat);
    lemma_split(386115nat, 3nat, 128705nat);
    lemma_split(128705nat, 5nat, 25741nat);
    lemma_split(25741nat, 25741nat, 1nat);
    lemma_no_prime_divides_one();
    assert(factors[0] == 2nat);
    assert(factors[1] == 3nat);
    assert(factors[2] == 5nat);
    assert(factors[3] == 25741nat);
    assert(only_prime_factors((q - 1) as nat, factors));
    // The powers.
    lemma_power_772231_top();
    lemma_power_772231_over_2();
    lemma_power_772231_over_3();
    lemma_power_772231_over_5();
    lemma_power_772231_over_25741();
    assert forall|i: int| 0 <= i < factors.len() implies factors[i] > 0 && (q - 1) % (
        factors[i] as int
    ) == 0 && powmod(g, ((q - 1) / (#[trigger] factors[i] as int)) as nat, q) != 1 by {
        if i == 0 {
            assert((q - 1) / (2nat as int) == 386115nat);
        } else if i == 1 {
            assert((q - 1) / (3nat as int) == 257410nat);
        } else if i == 2 {
            assert((q - 1) / (5nat as int) == 154446nat);
        } else if i == 3 {
            assert((q - 1) / (25741nat as int) == 30nat);
        }
    }
    lemma_lucas(q, g, factors);
}

/// Part 1 of the chain of `lemma_power_41_shared_1`.
proof fn lemma_power_41_shared_1_part_1()
    ensures
        powmod(6nat, 5nat, 41nat) == 27nat,
{
    let q: nat = 41nat;
    let b: nat = 6nat;
    lemma_powmod_basics(b, q);
    let e0: nat = 1nat;
    let v0: nat = 6nat;
    let v1: nat = 36nat;
    let e1: nat = step(b, q, e0, v0, false, v1);
    let v2: nat = 27nat;
    let e2: nat = step(b, q, e1, v1, true, v2);
}

/// A power of 6 modulo 41 that the powers `(q - 1) / r` share for `r` = 2.
proof fn lemma_power_41_shared_1()
    ensures
        powmod(6nat, 5nat, 41nat) == 27nat,
{
    lemma_power_41_shared_1_part_1();
    lemma_powmod_basics(6nat, 41nat);
    lemma_powmod_mul(6nat, 1, 5nat, 41nat);
}

/// Part 1 of the chain of `lemma_power_41_over_2`.
proof fn lemma_power_41_over_2_part_1()
    ensures
        powmod(27nat, 4nat, 41nat) == 40nat,
{
    let q: nat = 41nat;
    let b: nat = 27nat;
    lemma_powmod_basics(b, q);
    let e0: nat = 1nat;
    let v0: nat = 27nat;
    let v1: nat = 32nat;
    let e1: nat = step(b, q, e0, v0, false, v1);
    let v2: nat = 40nat;
    let e2: nat = step(b, q, e1, v1, false, v2);
}

/// The power `(q - 1) / 2` of 6 modulo `q`, for `q` = 41.
proof fn lemma_power_41_over_2()
    ensures
        powmod(6nat, 20nat, 41nat) == 40nat,
{
    lemma_power_41_shared_1();
    lemma_power_41_over_2_part_1();
    lemma_powmod_mul(6nat, 5nat, 4nat, 41nat);
}

/// Part 1 of the chain of `lemma_power_41_over_5`.
proof fn lemma_power_41_over_5_part_1()
    ensures
        powmod(6nat, 8nat, 41nat) == 10nat,
{
    let q: nat = 41nat;
    let b: nat = 6nat;
    lemma_powmod_basics(b, q);
    let e0: nat = 1nat;
    let v0: nat = 6nat;
    let v1: nat = 36nat;
    let e1: nat = step(b, q, e0, v0, false, v1);
    let v2: nat = 25nat;
    let e2: nat = step(b, q, e1, v1, false, v2);
    let v3: nat = 10nat;
    let e3: nat = step(b, q, e2, v2, false, v3);
}

/// The power `(q - 1) / 5` of 6 modulo `q`, for `q` = 41.
proof fn lemma_power_41_over_5()
    ensures
        powmod(6nat, 8nat, 41nat) == 10nat,
{
    lemma_power_41_over_5_part_1();
    lemma_powmod_basics(6nat, 41nat);
    lemma_powmod_mul(6nat, 1, 8nat, 41nat);
}

/// Part 1 of the chain of `lemma_power_41_top`.
proof fn lemma_power_41_top_part_1()
    ensures
        powmod(40nat, 2nat, 41nat) == 1nat,
{
    let q: nat = 41nat;
    let b: nat = 40nat;
    lemma_powmod_basics(b, q);
    let e0: nat = 1nat;
    let v0: nat = 40nat;
    let v1: nat = 1nat;
    let e1: nat = step(b, q, e0, v0, false, v1);
}

/// The power `q - 1` of 6 modulo `q` is 1, for `q` = 41.
proof fn lemma_power_41_top()
    ensures
        powmod(6nat, 40nat, 41nat) == 1nat,
{
    lemma_power_41_over_2();
    lemma_power_41_top_part_1();
    lemma_powmod_mul(6nat, 20nat, 2nat, 41nat);
}

/// 41 is prime: the powers of 6 pass the test of Lucas.
pub proof fn lemma_prime_41()
    ensures
        is_prime(41nat),
{
    let q: nat = 41nat;
    let g: nat = 6nat;
    let factors: Seq<nat> = seq![2nat, 5nat];
    lemma_prime_2();
    lemma_prime_5();
    // No other prime divides `q - 1`.
    lemma_split(40nat, 2nat, 20nat);
    lemma_split(20nat, 2nat, 10nat);
    lemma_split(10nat, 2nat, 5nat);
    lemma_split(5nat, 5nat, 1nat);
    lemma_no_prime_divides_one();
    assert(factors[0] == 2nat);
    assert(factors[1] == 5nat);
    assert(only_prime_factors((q - 1) as nat, factors));
    // The powers.
    lemma_power_41_top();
    lemma_power_41_over_2();
    lemma_power_41_over_5();
    assert forall|i: int| 0 <= i < factors.len() implies factors[i] > 0 && (q - 1) % (
        factors[i] as int
    ) == 0 && powmod(g, ((q - 1) / (#[trigger] factors[i] as int)) as nat, q) != 1 by {
        if i == 0 {
            assert((q - 1) / (2nat as int) == 20nat);
        } else if i == 1 {
            assert((q - 1) / (5nat as int) == 8nat);
        }
    }
    lemma_lucas(q, g, factors);
}

/// Part 1 of the chain of `lemma_power_413527_shared_1`.
proof fn lemma_power_413527_shared_1_part_1()
    ensures
        powmod(3nat, 6nat, 413527nat) == 729nat,
{
    let q: nat = 413527nat;
    let b: nat = 3nat;
    lemma_powmod_basics(b, q);
    let e0: nat = 1nat;
    let v0: nat = 3nat;
    let v1: nat = 27nat;
    let e1: nat = step(b, q, e0, v0, true, v1);
    let v2: nat = 729nat;
    let e2: nat = step(b, q, e1, v1, false, v2);
}

/// A power of 3 modulo 413527 that the powers `(q - 1) / r` share for `r` =
/// 41.
proof fn lemma_power_413527_shared_1()
    ensures
        powmod(3nat, 6nat, 413527nat) == 729nat,
{
    lemma_power_413527_shared_1_part_1();
    lemma_powmod_basics(3nat, 413527nat);
    lemma_powmod_mul(3nat, 1, 6nat, 413527nat);
}

/// Part 1 of the chain of `lemma_power_413527_over_41`.
proof fn lemma_power_413527_over_41_part_1()
    ensures
        powmod(729nat, 1681nat, 413527nat) == 362589nat,
{
    let q: nat = 413527nat;
    let b: nat = 729nat;
    lemma_powmod_basics(b, q);
    let e0: nat = 1nat;
    let v0: nat = 729nat;
    let v1: nat = 359217nat;
    let e1: nat = step(b, q, e0, v0, true, v1);
    let v2: nat = 301536nat;
    let e2: nat = step(b, q, e1, v1, false, v2);
    let v3: nat = 26956nat;
    let e3: nat = step(b, q, e2, v2, true, v3);
    let v4: nat = 58997nat;
    let e4: nat = step(b, q, e3, v3, false, v4);
    let v5: nat = 402777nat;
    let e5: nat = step(b, q, e4, v4, false, v5);
    let v6: nat = 101479nat;
    let e6: nat = step(b, q, e5, v5, true, v6);
    let v7: nat = 338087nat;
    let e7: nat = step(b, q, e6, v6, false, v7);
    let v8: nat = 235026nat;
    let e8: nat = step(b, q, e7, v7, false, v8);
    let v9: nat = 351651nat;
    let e9: nat = step(b, q, e8, v8, false, v9);
    let v10: nat = 362589nat;
    let e10: nat = step(b, q, e9, v9, true, v10);
}

/// The power `(q - 1) / 41` of 3 modulo `q`, for `q` = 413527.
proof fn lemma_power_413527_over_41()
    ensures
        powmod(3nat, 10086nat, 413527nat) == 362589nat,
{
    lemma_power_413527_shared_1();
    lemma_power_413527_over_41_part_1();
    lemma_powmod_mul(3nat, 6nat, 1681nat, 413527nat);
}

/// Part 1 of the chain of `lemma_power_413527_shared_2`.
proof fn lemma_power_413527_shared_2_part_1()
    ensures
        powmod(3nat, 68921nat, 413527nat) == 120036nat,
{
    let q: nat = 413527nat;
    let b: nat = 3nat;
    lemma_powmod_basics(b, q);
    let e0: nat = 1nat;
    let v0: nat = 3nat;
    let v1: nat = 9nat;
    let e1: nat = step(b, q, e0, v0, false, v1);
    let v2: nat = 81nat;
    let e2: nat = step(b, q, e1, v1, false, v2);
    let v3: nat = 6561nat;
    let e3: nat = step(b, q, e2, v2, false, v3);
    let v4: nat = 39913nat;
    let e4: nat = step(b, q, e3, v3, false, v4);
    let v5: nat = 11168nat;
    let e5: nat = step(b, q, e4, v4, true, v5);
    let v6: nat = 344264nat;
    let e6: nat = step(b, q, e5, v5, true, v6);
    let v7: nat = 36442nat;
    let e7: nat = step(b, q, e6, v6, false, v7);
    let v8: nat = 138974nat;
    let e8: nat = step(b, q, e7, v7, true, v8);
    let v9: nat = 407668nat;
    let e9: nat = step(b, q, e8, v8, false, v9);
    let v10: nat = 5140nat;
    let e10: nat = step(b, q, e9, v9, false, v10);
    let v11: nat = 275143nat;
    let e11: nat = step(b, q, e10, v10, true, v11);
    let v12: nat = 328839nat;
    let e12: nat = step(b, q, e11, v11, true, v12);
    let v13: nat = 362222nat;
    let e13: nat = step(b, q, e12, v12, true, v13);
    let v14: nat = 103670nat;
    let e14: nat = step(b, q, e13, v13, false, v14);
    let v15: nat = 315697nat;
    let e15: nat = step(b, q, e14, v14, false, v15);
    let v16: nat = 120036nat;
    let e16: nat = step(b, q, e15, v15, true, v16);
}

/// A power of 3 modulo 413527 that the powers `(q - 1) / r` share for `r` = 2
/// and 3.
proof fn lemma_power_413527_shared_2()
    ensures
        powmod(3nat, 68921nat, 413527nat) == 120036nat,
{
    lemma_power_413527_shared_2_part_1();
    lemma_powmod_basics(3nat, 413527nat);
    lemma_powmod_mul(3nat, 1, 68921nat, 413527nat);
}

/// Part 1 of the chain of `lemma_power_413527_over_2`.
proof fn lemma_power_413527_over_2_part_1()
    ensures
        powmod(120036nat, 3nat, 413527nat) == 413526nat,
{
    let q: nat = 413527nat;
    let b: nat = 120036nat;
    lemma_powmod_basics(b, q);
    let e0: nat = 1nat;
    let v0: nat = 120036nat;
    let v1: nat = 413526nat;
    let e1: nat = step(b, q, e0, v0, true, v1);
}

/// The power `(q - 1) / 2` of 3 modulo `q`, for `q` = 413527.
proof fn lemma_power_413527_over_2()
    ensures
        powmod(3nat, 206763nat, 413527nat) == 413526nat,
{
    lemma_power_413527_shared_2();
    lemma_power_413527_over_2_part_1();
    lemma_powmod_mul(3nat, 68921nat, 3nat, 413527nat);
}

/// Part 1 of the chain of `lemma_power_413527_over_3`.
proof fn lemma_power_413527_over_3_part_1()
    ensures
        powmod(120036nat, 2nat, 413527nat) == 120035nat,
{
    let q: nat = 413527nat;
    let b: nat = 120036nat;
    lemma_powmod_basics(b, q);
    let e0: nat = 1nat;
    let v0: nat = 120036nat;
    let v1: nat = 120035nat;
    let e1: nat = step(b, q, e0, v0, false, v1);
}

/// The power `(q - 1) / 3` of 3 modulo `q`, for `q` = 413527.
proof fn lemma_power_413527_over_3()
    ensures
        powmod(3nat, 137842nat, 413527nat) == 120035nat,
{
    lemma_power_413527_shared_2();
    lemma_power_413527_over_3_part_1();
    lemma_powmod_mul(3nat, 68921nat, 2nat, 413527nat);
}

/// Part 1 of the chain of `lemma_power_413527_top`.
proof fn lemma_power_413527_top_part_1()
    ensures
        powmod(413526nat, 2nat, 413527nat) == 1nat,
{
    let q: nat = 413527nat;
    let b: nat = 413526nat;
    lemma_powmod_basics(b, q);
    let e0: nat = 1nat;
    let v0: nat = 413526nat;
    let v1: nat = 1nat;
    let e1: nat = step(b, q, e0, v0, false, v1);
}

/// The power `q - 1` of 3 modulo `q` is 1, for `q` = 413527.
proof fn lemma_power_413527_top()
    ensures
        powmod(3nat, 413526nat, 413527nat) == 1nat,
{
    lemma_power_413527_over_2();
    lemma_power_413527_top_part_1();
    lemma_powmod_mul(3nat, 206763nat, 2nat, 413527nat);
}

/// 413527 is prime: the powers of 3 pass the test of Lucas.
pub proof fn lemma_prime_413527()
    ensures
        is_prime(413527nat),
{
    let q: nat = 413527nat;
    let g: nat = 3nat;
    let factors: Seq<nat> = seq![2nat, 3nat, 41nat];
    lemma_prime_2();
    lemma_prime_3();
    lemma_prime_41();
    // No other prime divides `q - 1`.
    lemma_split(413526nat, 2nat, 206763nat);
    lemma_split(206763nat, 3nat, 68921nat);
    lemma_split(68921nat, 41nat, 1681nat);
    lemma_split(1681nat, 41nat, 41nat);
    lemma_split(41nat, 41nat, 1nat);
    lemma_no_prime_divides_one();
    assert(factors[0] == 2nat);
    assert(factors[1] == 3nat);
    assert(factors[2] == 41nat);
    assert(only_prime_factors((q - 1) as nat, factors));
    // The powers.
    lemma_power_413527_top();
    lemma_power_413527_over_2();
    lemma_power_413527_over_3();
    lemma_power_413527_over_41();
    assert forall|i: int| 0 <= i < factors.len() implies factors[i] > 0 && (q - 1) % (
        factors[i] as int
    ) == 0 && powmod(g, ((q - 1) / (#[trigger] factors[i] as int)) as nat, q) != 1 by {
        if i == 0 {
            assert((q - 1) / (2nat as int) == 206763nat);
        } else if i == 1 {
            assert((q - 1) / (3nat as int) == 137842nat);
        } else if i == 2 {
            assert((q - 1) / (41nat as int) == 10086nat);
        }
    }
    lemma_lucas(q, g, factors);
}

/// Part 1 of the chain of `lemma_power_127aa16eeaabb_shared_1`.
proof fn lemma_power_127aa16eeaabb_shared_1_part_1()
    ensures
        powmod(2nat, 0xc8bbffbnat, 0x127aa16eeaabbnat) == 0x46dbedf38dfdnat,
{
    let q: nat = 0x127aa16eeaabbnat;
    let b: nat = 2nat;
    lemma_powmod_basics(b, q);
    let e0: nat = 1nat;
    let v0: nat = 2nat;
    let v1: nat = 8nat;
    let e1: nat = step(b, q, e0, v0, true, v1);
    let v2: nat = 64nat;
    let e2: nat = step(b, q, e1, v1, false, v2);
    let v3: nat = 4096nat;
    let e3: nat = step(b, q, e2, v2, false, v3);
    let v4: nat = 0x2000000nat;
    let e4: nat = step(b, q, e3, v3, true, v4);
    let v5: nat = 0x8901bb33ffcfnat;
    let e5: nat = step(b, q, e4, v4, false, v5);
    let v6: nat = 0x408118b57d40nat;
    let e6: nat = step(b, q, e5, v5, false, v6);
    let v7: nat = 0x1091d84c60878nat;
    let e7: nat = step(b, q, e6, v6, false, v7);
    let v8: nat = 0xdffb6b633670nat;
    let e8: nat = step(b, q, e7, v7, true, v8);
    let v9: nat = 0x916cb85fbf88nat;
    let e9: nat = step(b, q, e8, v8, false, v9);
    let v10: nat = 0x6d7c9939c035nat;
    let e10: nat = step(b, q, e9, v9, true, v10);
    let v11: nat = 0x63eb5e3eabf0nat;
    let e11: nat = step(b, q, e10, v10, true, v11);
    let v12: nat = 0x196007361b1bnat;
    let e12: nat = step(b, q, e11, v11, true, v12);
    let v13: nat = 0x11294c493b67enat;
    let e13: nat = step(b, q, e12, v12, false, v13);
    let v14: nat = 0xe48dbf359bb0nat;
    let e14: nat = step(b, q, e13, v13, true, v14);
    let v15: nat = 0x4430d47ae0d8nat;
    let e15: nat = step(b, q, e14, v14, true, v15);
    let v16: nat = 0x81a94b43404dnat;
    let e16: nat = step(b, q, e15, v15, true, v16);
    let v17: nat = 0x1ce1d3a18241nat;
    let e17: nat = step(b, q, e16, v16, true, v17);
    let v18: nat = 0x10a4b71365606nat;
    let e18: nat = step(b, q, e17, v17, true, v18);
    let v19: nat = 0x14f964d62ffanat;
    let e19: nat = step(b, q, e18, v18, true, v19);
    let v20: nat = 0x1103d3f1d09enat;
    let e20: nat = step(b, q, e19, v19, true, v20);
    let v21: nat = 0x641a03da0a98nat;
    let e21: nat = step(b, q, e20, v20, true, v21);
    let v22: nat = 0xd160ea7d0798nat;
    let e22: nat = step(b, q, e21, v21, true, v22);
    let v23: nat = 0xa4fe88a539e7nat;
    let e23: nat = step(b, q, e22, v22, true, v23);
    let v24: nat = 0x47163e59f9c4nat;
    let e24: nat = step(b, q, e23, v23, true, v24);
    let v25: nat = 0xb396200ea665nat;
    let e25: nat = step(b, q, e24, v24, false, v25);
    let v26: nat = 0x10371f1f6fanat;
    let e26: nat = step(b, q, e25, v25, true, v26);
    let v27: nat = 0x46dbedf38dfdnat;
    let e27: nat = step(b, q, e26, v26, true, v27);
}

/// A power of 2 modulo 0x127aa16eeaabb that the powers `(q - 1) / r` share
/// for `r` = 2 and 772231.
proof fn lemma_power_127aa16eeaabb_shared_1()
    ensures
        powmod(2nat, 0xc8bbffbnat, 0x127aa16eeaabbnat) == 0x46dbedf38dfdnat,
{
    lemma_power_127aa16eeaabb_shared_1_part_1();
    lemma_powmod_basics(2nat, 0x127aa16eeaabbnat);
    lemma_powmod_mul(2nat, 1, 0xc8bbffbnat, 0x127aa16eeaabbnat);
}

/// Part 1 of the chain of `lemma_power_127aa16eeaabb_over_772231`.
proof fn lemma_power_127aa16eeaabb_over_772231_part_1()
    ensures
        powmod(0x46dbedf38dfdnat, 2nat, 0x127aa16eeaabbnat) == 0x8e0b83230477nat,
{
    let q: nat = 0x127aa16eeaabbnat;
    let b: nat = 0x46dbedf38dfdnat;
    lemma_powmod_basics(b, q);
    let e0: nat = 1nat;
    let v0: nat = 0x46dbedf38dfdnat;
    let v1: nat = 0x8e0b83230477nat;
    let e1: nat = step(b, q, e0, v0, false, v1);
}

/// The power `(q - 1) / 772231` of 2 modulo `q`, for `q` = 0x127aa16eeaabb.
proof fn lemma_power_127aa16eeaabb_over_772231()
    ensures
        powmod(2nat, 0x19177ff6nat, 0x127aa16eeaabbnat) == 0x8e0b83230477nat,
{
    lemma_power_127aa16eeaabb_shared_1();
    lemma_power_127aa16eeaabb_over_772231_part_1();
    lemma_powmod_mul(2nat, 0xc8bbffbnat, 2nat, 0x127aa16eeaabbnat);
}

/// Part 1 of the chain of `lemma_power_127aa16eeaabb_over_2`.
proof fn lemma_power_127aa16eeaabb_over_2_part_1()
    ensures
        powmod(0x46dbedf38dfdnat, 772231nat, 0x127aa16eeaabbnat) == 0x127aa16eeaabanat,
{
    let q: nat = 0x127aa16eeaabbnat;
    let b: nat = 0x46dbedf38dfdnat;
    lemma_powmod_basics(b, q);
    let e0: nat = 1nat;
    let v0: nat = 0x46dbedf38dfdnat;
    let v1: nat = 0x8e0b83230477nat;
    let e1: nat = step(b, q, e0, v0, false, v1);
    let v2: nat = 0x11f142a8f7f2fnat;
    let e2: nat = step(b, q, e1, v1, true, v2);
    let v3: nat = 0x11e599ee1568nat;
    let e3: nat = step(b, q, e2, v2, true, v3);
    let v4: nat = 0xd5b883846f83nat;
    let e4: nat = step(b, q, e3, v3, true, v4);
    let v5: nat = 0x1064dae726186nat;
    let e5: nat = step(b, q, e4, v4, true, v5);
    let v6: nat = 0xba0c4cd4b3bfnat;
    let e6: nat = step(b, q, e5, v5, false, v6);
    let v7: nat = 0x5eaac1992520nat;
    let e7: nat = step(b, q, e6, v6, false, v7);
    let v8: nat = 0xfc57651dd70cnat;
    let e8: nat = step(b, q, e7, v7, true, v8);
    let v9: nat = 0x1092f937bf746nat;
    let e9: nat = step(b, q, e8, v8, false, v9);
    let v10: nat = 0x1220cbd8f40d8nat;
    let e10: nat = step(b, q, e9, v9, false, v10);
    let v11: nat = 0x11d1d90e16bcenat;
    let e11: nat = step(b, q, e10, v10, false, v11);
    let v12: nat = 0x62d122fdead8nat;
    let e12: nat = step(b, q, e11, v11, true, v12);
    let v13: nat = 0x141356f3031cnat;
    let e13: nat = step(b, q, e12, v12, false, v13);
    let v14: nat = 0x559f8f90c38dnat;
    let e14: nat = step(b, q, e13, v13, false, v14);
    let v15: nat = 0x5bfa7edad4f1nat;
    let e15: nat = step(b, q, e14, v14, false, v15);
    let v16: nat = 0x69d7efdb8eeenat;
    let e16: nat = step(b, q, e15, v15, false, v16);
    let v17: nat = 0x10b2883480835nat;
    let e17: nat = step(b, q, e16, v16, true, v17);
    let v18: nat = 0x36c3ce9fcbdfnat;
    let e18: nat = step(b, q, e17, v17, true, v18);
    let v19: nat = 0x127aa16eeaabanat;
    let e19: nat = step(b, q, e18, v18, true, v19);
}

/// The power `(q - 1) / 2` of 2 modulo `q`, for `q` = 0x127aa16eeaabb.
proof fn lemma_power_127aa16eeaabb_over_2()
    ensures
        powmod(2nat, 0x93d50b77555dnat, 0x127aa16eeaabbnat) == 0x127aa16eeaabanat,
{
    lemma_power_127aa16eeaabb_shared_1();
    lemma_power_127aa16eeaabb_over_2_part_1();
    lemma_powmod_mul(2nat, 0xc8bbffbnat, 772231nat, 0x127aa16eeaabbnat);
}

/// Part 1 of the chain of `lemma_power_127aa16eeaabb_shared_2`.
proof fn lemma_power_127aa16eeaabb_shared_2_part_1()
    ensures
        powmod(2nat, 0x17910enat, 0x127aa16eeaabbnat) == 0xcc1591f398d7nat,
{
    let q: nat = 0x127aa16eeaabbnat;
    let b: nat = 2nat;
    lemma_powmod_basics(b, q);
    let e0: nat = 1nat;
    let v0: nat = 2nat;
    let v1: nat = 4nat;
    let e1: nat = step(b, q, e0, v0, false, v1);
    let v2: nat = 32nat;
    let e2: nat = step(b, q, e1, v1, true, v2);
    let v3: nat = 2048nat;
    let e3: nat = step(b, q, e2, v2, true, v3);
    let v4: nat = 0x800000nat;
    let e4: nat = step(b, q, e3, v3, true, v4);
    let v5: nat = 0x800000000000nat;
    let e5: nat = step(b, q, e4, v4, true, v5);
    let v6: nat = 0x1020462d5f5nat;
    let e6: nat = step(b, q, e5, v5, false, v6);
    let v7: nat = 0x26c153d887b8nat;
    let e7: nat = step(b, q, e6, v6, false, v7);
    let v8: nat = 0x113129708a800nat;
    let e8: nat = step(b, q, e7, v7, true, v8);
    let v9: nat = 0x10685c4008775nat;
    let e9: nat = step(b, q, e8, v8, false, v9);
    let v10: nat = 0x1dc0692273b2nat;
    let e10: nat = step(b, q, e9, v9, false, v10);
    let v11: nat = 0x78cd14acfcebnat;
    let e11: nat = step(b, q, e10, v10, false, v11);
    let v12: nat = 0xe4679ba0ca2nat;
    let e12: nat = step(b, q, e11, v11, true, v12);
    let v13: nat = 0xca55b2c5cf65nat;
    let e13: nat = step(b, q, e12, v12, false, v13);
    let v14: nat = 0x4e8726c6d42fnat;
    let e14: nat = step(b, q, e13, v13, false, v14);
    let v15: nat = 0x6c983d294396nat;
    let e15: nat = step(b, q, e14, v14, false, v15);
    let v16: nat = 0x60cef0898637nat;
    let e16: nat = step(b, q, e15, v15, false, v16);
    let v17: nat = 0x2e2710139207nat;
    let e17: nat = step(b, q, e16, v16, true, v17);
    let v18: nat = 0xe16a4b6f5907nat;
    let e18: nat = step(b, q, e17, v17, true, v18);
    let v19: nat = 0x10544654aefa1nat;
    let e19: nat = step(b, q, e18, v18, true, v19);
    let v20: nat = 0xcc1591f398d7nat;
    let e20: nat = step(b, q, e19, v19, false, v20);
}

/// A power of 2 modulo 0x127aa16eeaabb that the powers `(q - 1) / r` share
/// for `r` = 509 and 413527.
proof fn lemma_power_127aa16eeaabb_shared_2()
    ensures
        powmod(2nat, 0x17910enat, 0x127aa16eeaabbnat) == 0xcc1591f398d7nat,
{
    lemma_power_127aa16eeaabb_shared_2_part_1();
    lemma_powmod_basics(2nat, 0x127aa16eeaabbnat);
    lemma_powmod_mul(2nat, 1, 0x17910enat, 0x127aa16eeaabbnat);
}

/// Part 1 of the chain of `lemma_power_127aa16eeaabb_over_413527`.
proof fn lemma_power_127aa16eeaabb_over_413527_part_1()
    ensures
        powmod(0xcc1591f398d7nat, 509nat, 0x127aa16eeaabbnat) == 0x5cc69cb9deb8nat,
{
    let q: nat = 0x127aa16eeaabbnat;
    let b: nat = 0xcc1591f398d7nat;
    lemma_powmod_basics(b, q);
    let e0: nat = 1nat;
    let v0: nat = 0xcc1591f398d7nat;
    let v1: nat = 0xd4a5aa9e8b2bnat;
    let e1: nat = step(b, q, e0, v0, true, v1);
    let v2: nat = 0x7c8725557f91nat;
    let e2: nat = step(b, q, e1, v1, true, v2);
    let v3: nat = 0xd4d939650073nat;
    let e3: nat = step(b, q, e2, v2, true, v3);
    let v4: nat = 0x994c880e6237nat;
    let e4: nat = step(b, q, e3, v3, true, v4);
    let v5: nat = 0x488e117a9828nat;
    let e5: nat = step(b, q, e4, v4, true, v5);
    let v6: nat = 0xf064d9c54e88nat;
    let e6: nat = step(b, q, e5, v5, true, v6);
    let v7: nat = 0xcc7e989006d3nat;
    let e7: nat = step(b, q, e6, v6, false, v7);
    let v8: nat = 0x5cc69cb9deb8nat;
    let e8: nat = step(b, q, e7, v7, true, v8);
}

/// The power `(q - 1) / 413527` of 2 modulo `q`, for `q` = 0x127aa16eeaabb.
proof fn lemma_power_127aa16eeaabb_over_413527()
    ensures
        powmod(2nat, 0x2edb68d6nat, 0x127aa16eeaabbnat) == 0x5cc69cb9deb8nat,
{
    lemma_power_127aa16eeaabb_shared_2();
    lemma_power_127aa16eeaabb_over_413527_part_1();
    lemma_powmod_mul(2nat, 0x17910enat, 509nat, 0x127aa16eeaabbnat);
}

/// Part 1 of the chain of `lemma_power_127aa16eeaabb_over_509`.
proof fn lemma_power_127aa16eeaabb_over_509_part_1()
    ensures
        powmod(0xcc1591f398d7nat, 413527nat, 0x127aa16eeaabbnat) == 0x75c1192b07c9nat,
{
    let q: nat = 0x127aa16eeaabbnat;
    let b: nat = 0xcc1591f398d7nat;
    lemma_powmod_basics(b, q);
    let e0: nat = 1nat;
    let v0: nat = 0xcc1591f398d7nat;
    let v1: nat = 0xd4a5aa9e8b2bnat;
    let e1: nat = step(b, q, e0, v0, true, v1);
    let v2: nat = 0x118971e63e866nat;
    let e2: nat = step(b, q, e1, v1, false, v2);
    let v3: nat = 0x98e118284e3fnat;
    let e3: nat = step(b, q, e2, v2, false, v3);
    let v4: nat = 0xb4ef4834a89bnat;
    let e4: nat = step(b, q, e3, v3, true, v4);
    let v5: nat = 0xe78e60864a4nat;
    let e5: nat = step(b, q, e4, v4, false, v5);
    let v6: nat = 0xc4e52e692dadnat;
    let e6: nat = step(b, q, e5, v5, false, v6);
    let v7: nat = 0x63a8c7311caenat;
    let e7: nat = step(b, q, e6, v6, true, v7);
    let v8: nat = 0x4d95930ee93nat;
    let e8: nat = step(b, q, e7, v7, true, v8);
    let v9: nat = 0x5cd2252b48a3nat;
    let e9: nat = step(b, q, e8, v8, true, v9);
    let v10: nat = 0x2960351961f0nat;
    let e10: nat = step(b, q, e9, v9, true, v10);
    let v11: nat = 0x858609fa3740nat;
    let e11: nat = step(b, q, e10, v10, false, v11);
    let v12: nat = 0x1176ac5be9c09nat;
    let e12: nat = step(b, q, e11, v11, true, v12);
    let v13: nat = 0x7b51031f5041nat;
    let e13: nat = step(b, q, e12, v12, false, v13);
    let v14: nat = 0x421624254715nat;
    let e14: nat = step(b, q, e13, v13, true, v14);
    let v15: nat = 0x7b56a5966c2enat;
    let e15: nat = step(b, q, e14, v14, false, v15);
    let v16: nat = 0x4a71ec6d108nat;
    let e16: nat = step(b, q, e15, v15, true, v16);
    let v17: nat = 0xf2b20ab895danat;
    let e17: nat = step(b, q, e16, v16, true, v17);
    let v18: nat = 0x75c1192b07c9nat;
    let e18: nat = step(b, q, e17, v17, true, v18);
}

/// The power `(q - 1) / 509` of 2 modulo `q`, for `q` = 0x127aa16eeaabb.
proof fn lemma_power_127aa16eeaabb_over_509()
    ensures
        powmod(2nat, 0x94b4199dc2nat, 0x127aa16eeaabbnat) == 0x75c1192b07c9nat,
{
    lemma_power_127aa16eeaabb_shared_2();
    lemma_power_127aa16eeaabb_over_509_part_1();
    lemma_powmod_mul(2nat, 0x17910enat, 413527nat, 0x127aa16eeaabbnat);
}

/// Part 1 of the chain of `lemma_power_127aa16eeaabb_top`.
proof fn lemma_power_127aa16eeaabb_top_part_1()
    ensures
        powmod(0x127aa16eeaabanat, 2nat, 0x127aa16eeaabbnat) == 1nat,
{
    let q: nat = 0x127aa16eeaabbnat;
    let b: nat = 0x127aa16eeaabanat;
    lemma_powmod_basics(b, q);
    let e0: nat = 1nat;
    let v0: nat = 0x127aa16eeaabanat;
    let v1: nat = 1nat;
    let e1: nat = step(b, q, e0, v0, false, v1);
}

/// The power `q - 1` of 2 modulo `q` is 1, for `q` = 0x127aa16eeaabb.
proof fn lemma_power_127aa16eeaabb_top()
    ensures
        powmod(2nat, 0x127aa16eeaabanat, 0x127aa16eeaabbnat) == 1nat,
{
    lemma_power_127aa16eeaabb_over_2();
    lemma_power_127aa16eeaabb_top_part_1();
    lemma_powmod_mul(2nat, 0x93d50b77555dnat, 2nat, 0x127aa16eeaabbnat);
}

/// 0x127aa16eeaabb is prime: the powers of 2 pass the test of Lucas.
pub proof fn lemma_prime_127aa16eeaabb()
    ensures
        is_prime(0x127aa16eeaabbnat),
{
    let q: nat = 0x127aa16eeaabbnat;
    let g: nat = 2nat;
    let factors: Seq<nat> = seq![2nat, 509nat, 413527nat, 772231nat];
    lemma_prime_2();
    lemma_prime_509();
    lemma_prime_413527();
    lemma_prime_772231();
    // No other prime divides `q - 1`.
    lemma_split(0x127aa16eeaabanat, 2nat, 0x93d50b77555dnat);
    lemma_split(0x93d50b77555dnat, 509nat, 0x4a5a0ccee1nat);
    lemma_split(0x4a5a0ccee1nat, 413527nat, 772231nat);
    lemma_split(772231nat, 772231nat, 1nat);
    lemma_no_prime_divides_one();
    assert(factors[0] == 2nat);
    assert(factors[1] == 509nat);
    assert(factors[2] == 413527nat);
    assert(factors[3] == 772231nat);
    assert(only_prime_factors((q - 1) as nat, factors));
    // The powers.
    lemma_power_127aa16eeaabb_top();
    lemma_power_127aa16eeaabb_over_2();
    lemma_power_127aa16eeaabb_over_509();
    lemma_power_127aa16eeaabb_over_413527();
    lemma_power_127aa16eeaabb_over_772231();
    assert forall|i: int| 0 <= i < factors.len() implies factors[i] > 0 && (q - 1) % (
        factors[i] as int
    ) == 0 && powmod(g, ((q - 1) / (#[trigger] factors[i] as int)) as nat, q) != 1 by {
        if i == 0 {
            assert((q - 1) / (2nat as int) == 0x93d50b77555dnat);
        } else if i == 1 {
            assert((q - 1) / (509nat as int) == 0x94b4199dc2nat);
        } else if i == 2 {
            assert((q - 1) / (413527nat as int) == 0x2edb68d6nat);
        } else if i == 3 {
            assert((q - 1) / (772231nat as int) == 0x19177ff6nat);
        }
    }
    lemma_lucas(q, g, factors);
}

/// Part 1 of the chain of `lemma_power_19_shared_1`.
proof fn lemma_power_19_shared_1_part_1()
    ensures
        powmod(2nat, 2nat, 19nat) == 4nat,
{
    let q: nat = 19nat;
    let b: nat = 2nat;
    lemma_powmod_basics(b, q);
    let e0: nat = 1nat;
    let v0: nat = 2nat;
    let v1: nat = 4nat;
    let e1: nat = step(b, q, e0, v0, false, v1);
}

/// A power of 2 modulo 19 that the powers `(q - 1) / r` share for `r` = 3.
proof fn lemma_power_19_shared_1()
    ensures
        powmod(2nat, 2nat, 19nat) == 4nat,
{
    lemma_power_19_shared_1_part_1();
    lemma_powmod_basics(2nat, 19nat);
    lemma_powmod_mul(2nat, 1, 2nat, 19nat);
}

/// Part 1 of the chain of `lemma_power_19_over_3`.
proof fn lemma_power_19_over_3_part_1()
    ensures
        powmod(4nat, 3nat, 19nat) == 7nat,
{
    let q: nat = 19nat;
    let b: nat = 4nat;
    lemma_powmod_basics(b, q);
    let e0: nat = 1nat;
    let v0: nat = 4nat;
    let v1: nat = 7nat;
    let e1: nat = step(b, q, e0, v0, true, v1);
}

/// The power `(q - 1) / 3` of 2 modulo `q`, for `q` = 19.
proof fn lemma_power_19_over_3()
    ensures
        powmod(2nat, 6nat, 19nat) == 7nat,
{
    lemma_power_19_shared_1();
    lemma_power_19_over_3_part_1();
    lemma_powmod_mul(2nat, 2nat, 3nat, 19nat);
}

/// Part 1 of the chain of `lemma_power_19_over_2`.
proof fn lemma_power_19_over_2_part_1()
    ensures
        powmod(2nat, 9nat, 19nat) == 18nat,
{
    let q: nat = 19nat;
    let b: nat = 2nat;
    lemma_powmod_basics(b, q);
    let e0: nat = 1nat;
    let v0: nat = 2nat;
    let v1: nat = 4nat;
    let e1: nat = step(b, q, e0, v0, false, v1);
    let v2: nat = 16nat;
    let e2: nat = step(b, q, e1, v1, false, v2);
    let v3: nat = 18nat;
    let e3: nat = step(b, q, e2, v2, true, v3);
}

/// The power `(q - 1) / 2` of 2 modulo `q`, for `q` = 19.
proof fn lemma_power_19_over_2()
    ensures
        powmod(2nat, 9nat, 19nat) == 18nat,
{
    lemma_power_19_over_2_part_1();
    lemma_powmod_basics(2nat, 19nat);
    lemma_powmod_mul(2nat, 1, 9nat, 19nat);
}

/// Part 1 of the chain of `lemma_power_19_top`.
proof fn lemma_power_19_top_part_1()
    ensures
        powmod(18nat, 2nat, 19nat) == 1nat,
{
    let q: nat = 19nat;
    let b: nat = 18nat;
    lemma_powmod_basics(b, q);
    let e0: nat = 1nat;
    let v0: nat = 18nat;
    let v1: nat = 1nat;
    let e1: nat = step(b, q, e0, v0, false, v1);
}

/// The power `q - 1` of 2 modulo `q` is 1, for `q` = 19.
proof fn lemma_power_19_top()
    ensures
        powmod(2nat, 18nat, 19nat) == 1nat,
{
    lemma_power_19_over_2();
    lemma_power_19_top_part_1();
    lemma_powmod_mul(2nat, 9nat, 2nat, 19nat);
}

/// 19 is prime: the powers of 2 pass the test of Lucas.
pub proof fn lemma_prime_19()
    ensures
        is_prime(19nat),
{
    let q: nat = 19nat;
    let g: nat = 2nat;
    let factors: Seq<nat> = seq![2nat, 3nat];
    lemma_prime_2();
    lemma_prime_3();
    // No other prime divides `q - 1`.
    lemma_split(18nat, 2nat, 9nat);
    lemma_split(9nat, 3nat, 3nat);
    lemma_split(3nat, 3nat, 1nat);
    lemma_no_prime_divides_one();
    assert(factors[0] == 2nat);
    assert(factors[1] == 3nat);
    assert(only_prime_factors((q - 1) as nat, factors));
    // The powers.
    lemma_power_19_top();
    lemma_power_19_over_2();
    lemma_power_19_over_3();
    assert forall|i: int| 0 <= i < factors.len() implies factors[i] > 0 && (q - 1) % (
        factors[i] as int
    ) == 0 && powmod(g, ((q - 1) / (#[trigger] factors[i] as int)) as nat, q) != 1 by {
        if i == 0 {
            assert((q - 1) / (2nat as int) == 9nat);
        } else if i == 1 {
            assert((q - 1) / (3nat as int) == 6nat);
        }
    }
    lemma_lucas(q, g, factors);
}

/// Part 1 of the chain of `lemma_power_61_shared_1`.
proof fn lemma_power_61_shared_1_part_1()
    ensures
        powmod(2nat, 5nat, 61nat) == 32nat,
{
    let q: nat = 61nat;
    let b: nat = 2nat;
    lemma_powmod_basics(b, q);
    let e0: nat = 1nat;
    let v0: nat = 2nat;
    let v1: nat = 4nat;
    let e1: nat = step(b, q, e0, v0, false, v1);
    let v2: nat = 32nat;
    let e2: nat = step(b, q, e1, v1, true, v2);
}

/// A power of 2 modulo 61 that the powers `(q - 1) / r` share for `r` = 2 and
/// 3.
proof fn lemma_power_61_shared_1()
    ensures
        powmod(2nat, 5nat, 61nat) == 32nat,
{
    lemma_power_61_shared_1_part_1();
    lemma_powmod_basics(2nat, 61nat);
    lemma_powmod_mul(2nat, 1, 5nat, 61nat);
}

/// Part 1 of the chain of `lemma_power_61_shared_2`.
proof fn lemma_power_61_shared_2_part_1()
    ensures
        powmod(32nat, 3nat, 61nat) == 11nat,
{
    let q: nat = 61nat;
    let b: nat = 32nat;
    lemma_powmod_basics(b, q);
    let e0: nat = 1nat;
    let v0: nat = 32nat;
    let v1: nat = 11nat;
    let e1: nat = step(b, q, e0, v0, true, v1);
}

/// A power of 2 modulo 61 that the powers `(q - 1) / r` share for `r` = 2.
proof fn lemma_power_61_shared_2()
    ensures
        powmod(2nat, 15nat, 61nat) == 11nat,
{
    lemma_power_61_shared_1();
    lemma_power_61_shared_2_part_1();
    lemma_powmod_mul(2nat, 5nat, 3nat, 61nat);
}

/// Part 1 of the chain of `lemma_power_61_over_2`.
proof fn lemma_power_61_over_2_part_1()
    ensures
        powmod(11nat, 2nat, 61nat) == 60nat,
{
    let q: nat = 61nat;
    let b: nat = 11nat;
    lemma_powmod_basics(b, q);
    let e0: nat = 1nat;
    let v0: nat = 11nat;
    let v1: nat = 60nat;
    let e1: nat = step(b, q, e0, v0, false, v1);
}

/// The power `(q - 1) / 2` of 2 modulo `q`, for `q` = 61.
proof fn lemma_power_61_over_2()
    ensures
        powmod(2nat, 30nat, 61nat) == 60nat,
{
    lemma_power_61_shared_2();
    lemma_power_61_over_2_part_1();
    lemma_powmod_mul(2nat, 15nat, 2nat, 61nat);
}

/// Part 1 of the chain of `lemma_power_61_over_3`.
proof fn lemma_power_61_over_3_part_1()
    ensures
        powmod(32nat, 4nat, 61nat) == 47nat,
{
    let q: nat = 61nat;
    let b: nat = 32nat;
    lemma_powmod_basics(b, q);
    let e0: nat = 1nat;
    let v0: nat = 32nat;
    let v1: nat = 48nat;
    let e1: nat = step(b, q, e0, v0, false, v1);
    let v2: nat = 47nat;
    let e2: nat = step(b, q, e1, v1, false, v2);
}

/// The power `(q - 1) / 3` of 2 modulo `q`, for `q` = 61.
proof fn lemma_power_61_over_3()
    ensures
        powmod(2nat, 20nat, 61nat) == 47nat,
{
    lemma_power_61_shared_1();
    lemma_power_61_over_3_part_1();
    lemma_powmod_mul(2nat, 5nat, 4nat, 61nat);
}

/// Part 1 of the chain of `lemma_power_61_over_5`.
proof fn lemma_power_61_over_5_part_1()
    ensures
        powmod(2nat, 12nat, 61nat) == 9nat,
{
    let q: nat = 61nat;
    let b: nat = 2nat;
    lemma_powmod_basics(b, q);
    let e0: nat = 1nat;
    let v0: nat = 2nat;
    let v1: nat = 8nat;
    let e1: nat = step(b, q, e0, v0, true, v1);
    let v2: nat = 3nat;
    let e2: nat = step(b, q, e1, v1, false, v2);
    let v3: nat = 9nat;
    let e3: nat = step(b, q, e2, v2, false, v3);
}

/// The power `(q - 1) / 5` of 2 modulo `q`, for `q` = 61.
proof fn lemma_power_61_over_5()
    ensures
        powmod(2nat, 12nat, 61nat) == 9nat,
{
    lemma_power_61_over_5_part_1();
    lemma_powmod_basics(2nat, 61nat);
    lemma_powmod_mul(2nat, 1, 12nat, 61nat);
}

/// Part 1 of the chain of `lemma_power_61_top`.
proof fn lemma_power_61_top_part_1()
    ensures
        powmod(60nat, 2nat, 61nat) == 1nat,
{
    let q: nat = 61nat;
    let b: nat = 60nat;
    lemma_powmod_basics(b, q);
    let e0: nat = 1nat;
    let v0: nat = 60nat;
    let v1: nat = 1nat;
    let e1: nat = step(b, q, e0, v0, false, v1);
}

/// The power `q - 1` of 2 modulo `q` is 1, for `q` = 61.
proof fn lemma_power_61_top()
    ensures
        powmod(2nat, 60nat, 61nat) == 1nat,
{
    lemma_power_61_over_2();
    lemma_power_61_top_part_1();
    lemma_powmod_mul(2nat, 30nat, 2nat, 61nat);
}

/// 61 is prime: the powers of 2 pass the test of Lucas.
pub proof fn lemma_prime_61()
    ensures
        is_prime(61nat),
{
    let q: nat = 61nat;
    let g: nat = 2nat;
    let factors: Seq<nat> = seq![2nat, 3nat, 5nat];
    lemma_prime_2();
    lemma_prime_3();
    lemma_prime_5();
    // No other prime divides `q - 1`.
    lemma_split(60nat, 2nat, 30nat);
    lemma_split(30nat, 2nat, 15nat);
    lemma_split(15nat, 3nat, 5nat);
    lemma_split(5nat, 5nat, 1nat);
    lemma_no_prime_divides_one();
    assert(factors[0] == 2nat);
    assert(factors[1] == 3nat);
    assert(factors[2] == 5nat);
    assert(only_prime_factors((q - 1) as nat, factors));
    // The powers.
    lemma_power_61_top();
    lemma_power_61_over_2();
    lemma_power_61_over_3();
    lemma_power_61_over_5();
    assert forall|i: int| 0 <= i < factors.len() implies factors[i] > 0 && (q - 1) % (
        factors[i] as int
    ) == 0 && powmod(g, ((q - 1) / (#[trigger] factors[i] as int)) as nat, q) != 1 by {
        if i == 0 {
            assert((q - 1) / (2nat as int) == 30nat);
        } else if i == 1 {
            assert((q - 1) / (3nat as int) == 20nat);
        } else if i == 2 {
            assert((q - 1) / (5nat as int) == 12nat);
        }
    }
    lemma_lucas(q, g, factors);
}

/// Part 1 of the chain of `lemma_power_977_over_61`.
proof fn lemma_power_977_over_61_part_1()
    ensures
        powmod(3nat, 16nat, 977nat) == 101nat,
{
    let q: nat = 977nat;
    let b: nat = 3nat;
    lemma_powmod_basics(b, q);
    let e0: nat = 1nat;
    let v0: nat = 3nat;
    let v1: nat = 9nat;
    let e1: nat = step(b, q, e0, v0, false, v1);
    let v2: nat = 81nat;
    let e2: nat = step(b, q, e1, v1, false, v2);
    let v3: nat = 699nat;
    let e3: nat = step(b, q, e2, v2, false, v3);
    let v4: nat = 101nat;
    let e4: nat = step(b, q, e3, v3, false, v4);
}

/// The power `(q - 1) / 61` of 3 modulo `q`, for `q` = 977.
proof fn lemma_power_977_over_61()
    ensures
        powmod(3nat, 16nat, 977nat) == 101nat,
{
    lemma_power_977_over_61_part_1();
    lemma_powmod_basics(3nat, 977nat);
    lemma_powmod_mul(3nat, 1, 16nat, 977nat);
}

/// Part 1 of the chain of `lemma_power_977_shared_1`.
proof fn lemma_power_977_shared_1_part_1()
    ensures
        powmod(3nat, 61nat, 977nat) == 620nat,
{
    let q: nat = 977nat;
    let b: nat = 3nat;
    lemma_powmod_basics(b, q);
    let e0: nat = 1nat;
    let v0: nat = 3nat;
    let v1: nat = 27nat;
    let e1: nat = step(b, q, e0, v0, true, v1);
    let v2: nat = 233nat;
    let e2: nat = step(b, q, e1, v1, true, v2);
    let v3: nat = 685nat;
    let e3: nat = step(b, q, e2, v2, true, v3);
    let v4: nat = 265nat;
    let e4: nat = step(b, q, e3, v3, false, v4);
    let v5: nat = 620nat;
    let e5: nat = step(b, q, e4, v4, true, v5);
}

/// A power of 3 modulo 977 that the powers `(q - 1) / r` share for `r` = 2.
proof fn lemma_power_977_shared_1()
    ensures
        powmod(3nat, 61nat, 977nat) == 620nat,
{
    lemma_power_977_shared_1_part_1();
    lemma_powmod_basics(3nat, 977nat);
    lemma_powmod_mul(3nat, 1, 61nat, 977nat);
}

/// Part 1 of the chain of `lemma_power_977_over_2`.
proof fn lemma_power_977_over_2_part_1()
    ensures
        powmod(620nat, 8nat, 977nat) == 976nat,
{
    let q: nat = 977nat;
    let b: nat = 620nat;
    lemma_powmod_basics(b, q);
    let e0: nat = 1nat;
    let v0: nat = 620nat;
    let v1: nat = 439nat;
    let e1: nat = step(b, q, e0, v0, false, v1);
    let v2: nat = 252nat;
    let e2: nat = step(b, q, e1, v1, false, v2);
    let v3: nat = 976nat;
    let e3: nat = step(b, q, e2, v2, false, v3);
}

/// The power `(q - 1) / 2` of 3 modulo `q`, for `q` = 977.
proof fn lemma_power_977_over_2()
    ensures
        powmod(3nat, 488nat, 977nat) == 976nat,
{
    lemma_power_977_shared_1();
    lemma_power_977_over_2_part_1();
    lemma_powmod_mul(3nat, 61nat, 8nat, 977nat);
}

/// Part 1 of the chain of `lemma_power_977_top`.
proof fn lemma_power_977_top_part_1()
    ensures
        powmod(976nat, 2nat, 977nat) == 1nat,
{
    let q: nat = 977nat;
    let b: nat = 976nat;
    lemma_powmod_basics(b, q);
    let e0: nat = 1nat;
    let v0: nat = 976nat;
    let v1: nat = 1nat;
    let e1: nat = step(b, q, e0, v0, false, v1);
}

/// The power `q - 1` of 3 modulo `q` is 1, for `q` = 977.
proof fn lemma_power_977_top()
    ensures
        powmod(3nat, 976nat, 977nat) == 1nat,
{
    lemma_power_977_over_2();
    lemma_power_977_top_part_1();
    lemma_powmod_mul(3nat, 488nat, 2nat, 977nat);
}

/// 977 is prime: the powers of 3 pass the test of Lucas.
pub proof fn lemma_prime_977()
    ensures
        is_prime(977nat),
{
    let q: nat = 977nat;
    let g: nat = 3nat;
    let factors: Seq<nat> = seq![2nat, 61nat];
    lemma_prime_2();
    lemma_prime_61();
    // No other prime divides `q - 1`.
    lemma_split(976nat, 2nat, 488nat);
    lemma_split(488nat, 2nat, 244nat);
    lemma_split(244nat, 2nat, 122nat);
    lemma_split(122nat, 2nat, 61nat);
    lemma_split(61nat, 61nat, 1nat);
    lemma_no_prime_divides_one();
    assert(factors[0] == 2nat);
    assert(factors[1] == 61nat);
    assert(only_prime_factors((q - 1) as nat, factors));
    // The powers.
    lemma_power_977_top();
    lemma_power_977_over_2();
    lemma_power_977_over_61();
    assert forall|i: int| 0 <= i < factors.len() implies factors[i] > 0 && (q - 1) % (
        factors[i] as int
    ) == 0 && powmod(g, ((q - 1) / (#[trigger] factors[i] as int)) as nat, q) != 1 by {
        if i == 0 {
            assert((q - 1) / (2nat as int) == 488nat);
        } else if i == 1 {
            assert((q - 1) / (61nat as int) == 16nat);
        }
    }
    lemma_lucas(q, g, factors);
}

/// Part 1 of the chain of `lemma_power_69ef63_shared_1`.
proof fn lemma_power_69ef63_shared_1_part_1()
    ensures
        powmod(2nat, 646nat, 0x69ef63nat) == 0x170a72nat,
{
    let q: nat = 0x69ef63nat;
    let b: nat = 2nat;
    lemma_powmod_basics(b, q);
    let e0: nat = 1nat;
    let v0: nat = 2nat;
    let v1: nat = 4nat;
    let e1: nat = step(b, q, e0, v0, false, v1);
    let v2: nat = 32nat;
    let e2: nat = step(b, q, e1, v1, true, v2);
    let v3: nat = 1024nat;
    let e3: nat = step(b, q, e2, v2, false, v3);
    let v4: nat = 0x100000nat;
    let e4: nat = step(b, q, e3, v3, false, v4);
    let v5: nat = 0x3da694nat;
    let e5: nat = step(b, q, e4, v4, false, v5);
    let v6: nat = 403491nat;
    let e6: nat = step(b, q, e5, v5, false, v6);
    let v7: nat = 0x398476nat;
    let e7: nat = step(b, q, e6, v6, true, v7);
    let v8: nat = 0x682953nat;
    let e8: nat = step(b, q, e7, v7, true, v8);
    let v9: nat = 0x170a72nat;
    let e9: nat = step(b, q, e8, v8, false, v9);
}

/// A power of 2 modulo 0x69ef63 that the powers `(q - 1) / r` share for `r` =
/// 11 and 977.
proof fn lemma_power_69ef63_shared_1()
    ensures
        powmod(2nat, 646nat, 0x69ef63nat) == 0x170a72nat,
{
    lemma_power_69ef63_shared_1_part_1();
    lemma_powmod_basics(2nat, 0x69ef63nat);
    lemma_powmod_mul(2nat, 1, 646nat, 0x69ef63nat);
}

/// Part 1 of the chain of `lemma_power_69ef63_over_977`.
proof fn lemma_power_69ef63_over_977_part_1()
    ensures
        powmod(0x170a72nat, 11nat, 0x69ef63nat) == 0x4d3cbenat,
{
    let q: nat = 0x69ef63nat;
    let b: nat = 0x170a72nat;
    lemma_powmod_basics(b, q);
    let e0: nat = 1nat;
    let v0: nat = 0x170a72nat;
    let v1: nat = 0x1a630cnat;
    let e1: nat = step(b, q, e0, v0, false, v1);
    let v2: nat = 0x1a2016nat;
    let e2: nat = step(b, q, e1, v1, true, v2);
    let v3: nat = 0x4d3cbenat;
    let e3: nat = step(b, q, e2, v2, true, v3);
}

/// The power `(q - 1) / 977` of 2 modulo `q`, for `q` = 0x69ef63.
proof fn lemma_power_69ef63_over_977()
    ensures
        powmod(2nat, 7106nat, 0x69ef63nat) == 0x4d3cbenat,
{
    lemma_power_69ef63_shared_1();
    lemma_power_69ef63_over_977_part_1();
    lemma_powmod_mul(2nat, 646nat, 11nat, 0x69ef63nat);
}

/// Part 1 of the chain of `lemma_power_69ef63_over_11`.
proof fn lemma_power_69ef63_over_11_part_1()
    ensures
        powmod(0x170a72nat, 977nat, 0x69ef63nat) == 0x116fafnat,
{
    let q: nat = 0x69ef63nat;
    let b: nat = 0x170a72nat;
    lemma_powmod_basics(b, q);
    let e0: nat = 1nat;
    let v0: nat = 0x170a72nat;
    let v1: nat = 0x450e13nat;
    let e1: nat = step(b, q, e0, v0, true, v1);
    let v2: nat = 0x541db3nat;
    let e2: nat = step(b, q, e1, v1, true, v2);
    let v3: nat = 0x586b9dnat;
    let e3: nat = step(b, q, e2, v2, true, v3);
    let v4: nat = 0x48006enat;
    let e4: nat = step(b, q, e3, v3, false, v4);
    let v5: nat = 0x5d95f5nat;
    let e5: nat = step(b, q, e4, v4, true, v5);
    let v6: nat = 0x544fe6nat;
    let e6: nat = step(b, q, e5, v5, false, v6);
    let v7: nat = 492038nat;
    let e7: nat = step(b, q, e6, v6, false, v7);
    let v8: nat = 336508nat;
    let e8: nat = step(b, q, e7, v7, false, v8);
    let v9: nat = 0x116fafnat;
    let e9: nat = step(b, q, e8, v8, true, v9);
}

/// The power `(q - 1) / 11` of 2 modulo `q`, for `q` = 0x69ef63.
proof fn lemma_power_69ef63_over_11()
    ensures
        powmod(2nat, 631142nat, 0x69ef63nat) == 0x116fafnat,
{
    lemma_power_69ef63_shared_1();
    lemma_power_69ef63_over_11_part_1();
    lemma_powmod_mul(2nat, 646nat, 977nat, 0x69ef63nat);
}

/// Part 1 of the chain of `lemma_power_69ef63_shared_2`.
proof fn lemma_power_69ef63_shared_2_part_1()
    ensures
        powmod(2nat, 10747nat, 0x69ef63nat) == 0x41b478nat,
{
    let q: nat = 0x69ef63nat;
    let b: nat = 2nat;
    lemma_powmod_basics(b, q);
    let e0: nat = 1nat;
    let v0: nat = 2nat;
    let v1: nat = 4nat;
    let e1: nat = step(b, q, e0, v0, false, v1);
    let v2: nat = 32nat;
    let e2: nat = step(b, q, e1, v1, true, v2);
    let v3: nat = 1024nat;
    let e3: nat = step(b, q, e2, v2, false, v3);
    let v4: nat = 0x100000nat;
    let e4: nat = step(b, q, e3, v3, false, v4);
    let v5: nat = 0x115dc5nat;
    let e5: nat = step(b, q, e4, v4, true, v5);
    let v6: nat = 0x314118nat;
    let e6: nat = step(b, q, e5, v5, true, v6);
    let v7: nat = 0x4f525anat;
    let e7: nat = step(b, q, e6, v6, true, v7);
    let v8: nat = 0x2c85afnat;
    let e8: nat = step(b, q, e7, v7, true, v8);
    let v9: nat = 0x405496nat;
    let e9: nat = step(b, q, e8, v8, true, v9);
    let v10: nat = 0x143c82nat;
    let e10: nat = step(b, q, e9, v9, true, v10);
    let v11: nat = 0x3ddab0nat;
    let e11: nat = step(b, q, e10, v10, false, v11);
    let v12: nat = 838467nat;
    let e12: nat = step(b, q, e11, v11, true, v12);
    let v13: nat = 0x41b478nat;
    let e13: nat = step(b, q, e12, v12, true, v13);
}

/// A power of 2 modulo 0x69ef63 that the powers `(q - 1) / r` share for `r` =
/// 2, 17 and 19.
proof fn lemma_power_69ef63_shared_2()
    ensures
        powmod(2nat, 10747nat, 0x69ef63nat) == 0x41b478nat,
{
    lemma_power_69ef63_shared_2_part_1();
    lemma_powmod_basics(2nat, 0x69ef63nat);
    lemma_powmod_mul(2nat, 1, 10747nat, 0x69ef63nat);
}

/// Part 1 of the chain of `lemma_power_69ef63_shared_3`.
proof fn lemma_power_69ef63_shared_3_part_1()
    ensures
        powmod(0x41b478nat, 19nat, 0x69ef63nat) == 0x3680ecnat,
{
    let q: nat = 0x69ef63nat;
    let b: nat = 0x41b478nat;
    lemma_powmod_basics(b, q);
    let e0: nat = 1nat;
    let v0: nat = 0x41b478nat;
    let v1: nat = 0x522430nat;
    let e1: nat = step(b, q, e0, v0, false, v1);
    let v2: nat = 0x66e72cnat;
    let e2: nat = step(b, q, e1, v1, false, v2);
    let v3: nat = 167880nat;
    let e3: nat = step(b, q, e2, v2, true, v3);
    let v4: nat = 0x3680ecnat;
    let e4: nat = step(b, q, e3, v3, true, v4);
}

/// A power of 2 modulo 0x69ef63 that the powers `(q - 1) / r` share for `r` =
/// 2 and 17.
proof fn lemma_power_69ef63_shared_3()
    ensures
        powmod(2nat, 204193nat, 0x69ef63nat) == 0x3680ecnat,
{
    lemma_power_69ef63_shared_2();
    lemma_power_69ef63_shared_3_part_1();
    lemma_powmod_mul(2nat, 10747nat, 19nat, 0x69ef63nat);
}

/// Part 1 of the chain of `lemma_power_69ef63_over_17`.
proof fn lemma_power_69ef63_over_17_part_1()
    ensures
        powmod(0x3680ecnat, 2nat, 0x69ef63nat) == 0x5fd4fenat,
{
    let q: nat = 0x69ef63nat;
    let b: nat = 0x3680ecnat;
    lemma_powmod_basics(b, q);
    let e0: nat = 1nat;
    let v0: nat = 0x3680ecnat;
    let v1: nat = 0x5fd4fenat;
    let e1: nat = step(b, q, e0, v0, false, v1);
}

/// The power `(q - 1) / 17` of 2 modulo `q`, for `q` = 0x69ef63.
proof fn lemma_power_69ef63_over_17()
    ensures
        powmod(2nat, 408386nat, 0x69ef63nat) == 0x5fd4fenat,
{
    lemma_power_69ef63_shared_3();
    lemma_power_69ef63_over_17_part_1();
    lemma_powmod_mul(2nat, 204193nat, 2nat, 0x69ef63nat);
}

/// Part 1 of the chain of `lemma_power_69ef63_over_2`.
proof fn lemma_power_69ef63_over_2_part_1()
    ensures
        powmod(0x3680ecnat, 17nat, 0x69ef63nat) == 0x69ef62nat,
{
    let q: nat = 0x69ef63nat;
    let b: nat = 0x3680ecnat;
    lemma_powmod_basics(b, q);
    let e0: nat = 1nat;
    let v0: nat = 0x3680ecnat;
    let v1: nat = 0x5fd4fenat;
    let e1: nat = step(b, q, e0, v0, false, v1);
    let v2: nat = 0x3a921bnat;
    let e2: nat = step(b, q, e1, v1, false, v2);
    let v3: nat = 0x5cfc79nat;
    let e3: nat = step(b, q, e2, v2, false, v3);
    let v4: nat = 0x69ef62nat;
    let e4: nat = step(b, q, e3, v3, true, v4);
}

/// The power `(q - 1) / 2` of 2 modulo `q`, for `q` = 0x69ef63.
proof fn lemma_power_69ef63_over_2()
    ensures
        powmod(2nat, 0x34f7b1nat, 0x69ef63nat) == 0x69ef62nat,
{
    lemma_power_69ef63_shared_3();
    lemma_power_69ef63_over_2_part_1();
    lemma_powmod_mul(2nat, 204193nat, 17nat, 0x69ef63nat);
}

/// Part 1 of the chain of `lemma_power_69ef63_over_19`.
proof fn lemma_power_69ef63_over_19_part_1()
    ensures
        powmod(0x41b478nat, 34nat, 0x69ef63nat) == 0x176bf9nat,
{
    let q: nat = 0x69ef63nat;
    let b: nat = 0x41b478nat;
    lemma_powmod_basics(b, q);
    let e0: nat = 1nat;
    let v0: nat = 0x41b478nat;
    let v1: nat = 0x522430nat;
    let e1: nat = step(b, q, e0, v0, false, v1);
    let v2: nat = 0x66e72cnat;
    let e2: nat = step(b, q, e1, v1, false, v2);
    let v3: nat = 0x388b8cnat;
    let e3: nat = step(b, q, e2, v2, false, v3);
    let v4: nat = 0x3574e5nat;
    let e4: nat = step(b, q, e3, v3, true, v4);
    let v5: nat = 0x176bf9nat;
    let e5: nat = step(b, q, e4, v4, false, v5);
}

/// The power `(q - 1) / 19` of 2 modulo `q`, for `q` = 0x69ef63.
proof fn lemma_power_69ef63_over_19()
    ensures
        powmod(2nat, 365398nat, 0x69ef63nat) == 0x176bf9nat,
{
    lemma_power_69ef63_shared_2();
    lemma_power_69ef63_over_19_part_1();
    lemma_powmod_mul(2nat, 10747nat, 34nat, 0x69ef63nat);
}

/// Part 1 of the chain of `lemma_power_69ef63_top`.
proof fn lemma_power_69ef63_top_part_1()
    ensures
        powmod(0x69ef62nat, 2nat, 0x69ef63nat) == 1nat,
{
    let q: nat = 0x69ef63nat;
    let b: nat = 0x69ef62nat;
    lemma_powmod_basics(b, q);
    let e0: nat = 1nat;
    let v0: nat = 0x69ef62nat;
    let v1: nat = 1nat;
    let e1: nat = step(b, q, e0, v0, false, v1);
}

/// The power `q - 1` of 2 modulo `q` is 1, for `q` = 0x69ef63.
proof fn lemma_power_69ef63_top()
    ensures
        powmod(2nat, 0x69ef62nat, 0x69ef63nat) == 1nat,
{
    lemma_power_69ef63_over_2();
    lemma_power_69ef63_top_part_1();
    lemma_powmod_mul(2nat, 0x34f7b1nat, 2nat, 0x69ef63nat);
}

/// 0x69ef63 is prime: the powers of 2 pass the test of Lucas.
pub proof fn lemma_prime_69ef63()
    ensures
        is_prime(0x69ef63nat),
{
    let q: nat = 0x69ef63nat;
    let g: nat = 2nat;
    let factors: Seq<nat> = seq![2nat, 11nat, 17nat, 19nat, 977nat];
    lemma_prime_2();
    lemma_prime_11();
    lemma_prime_17();
    lemma_prime_19();
    lemma_prime_977();
    // No other prime divides `q - 1`.
    lemma_split(0x69ef62nat, 2nat, 0x34f7b1nat);
    lemma_split(0x34f7b1nat, 11nat, 315571nat);
    lemma_split(315571nat, 17nat, 18563nat);
    lemma_split(18563nat, 19nat, 977nat);
    lemma_split(977nat, 977nat, 1nat);
    lemma_no_prime_divides_one();
    assert(factors[0] == 2nat);
    assert(factors[1] == 11nat);
    assert(factors[2] == 17nat);
    assert(factors[3] == 19nat);
    assert(factors[4] == 977nat);
    assert(only_prime_factors((q - 1) as nat, factors));
    // The powers.
    lemma_power_69ef63_top();
    lemma_power_69ef63_over_2();
    lemma_power_69ef63_over_11();
    lemma_power_69ef63_over_17();
    lemma_power_69ef63_over_19();
    lemma_power_69ef63_over_977();
    assert forall|i: int| 0 <= i < factors.len() implies factors[i] > 0 && (q - 1) % (
        factors[i] as int
    ) == 0 && powmod(g, ((q - 1) / (#[trigger] factors[i] as int)) as nat, q) != 1 by {
        if i == 0 {
            assert((q - 1) / (2nat as int) == 0x34f7b1nat);
        } else if i == 1 {
            assert((q - 1) / (11nat as int) == 631142nat);
        } else if i == 2 {
            assert((q - 1) / (17nat as int) == 408386nat);
        } else if i == 3 {
            assert((q - 1) / (19nat as int) == 365398nat);
        } else if i == 4 {
            assert((q - 1) / (977nat as int) == 7106nat);
        }
    }
    lemma_lucas(q, g, factors);
}

/// Part 1 of the chain of `lemma_power_27b9c53_over_69ef63`.
proof fn lemma_power_27b9c53_over_69ef63_part_1()
    ensures
        powmod(2nat, 6nat, 0x27b9c53nat) == 64nat,
{
    let q: nat = 0x27b9c53nat;
    let b: nat = 2nat;
    lemma_powmod_basics(b, q);
    let e0: nat = 1nat;
    let v0: nat = 2nat;
    let v1: nat = 8nat;
    let e1: nat = step(b, q, e0, v0, true, v1);
    let v2: nat = 64nat;
    let e2: nat = step(b, q, e1, v1, false, v2);
}

/// The power `(q - 1) / 0x69ef63` of 2 modulo `q`, for `q` = 0x27b9c53.
proof fn lemma_power_27b9c53_over_69ef63()
    ensures
        powmod(2nat, 6nat, 0x27b9c53nat) == 64nat,
{
    lemma_power_27b9c53_over_69ef63_part_1();
    lemma_powmod_basics(2nat, 0x27b9c53nat);
    lemma_powmod_mul(2nat, 1, 6nat, 0x27b9c53nat);
}

/// Part 1 of the chain of `lemma_power_27b9c53_shared_1`.
proof fn lemma_power_27b9c53_shared_1_part_1()
    ensures
        powmod(2nat, 0x69ef63nat, 0x27b9c53nat) == 0x115a936nat,
{
    let q: nat = 0x27b9c53nat;
    let b: nat = 2nat;
    lemma_powmod_basics(b, q);
    let e0: nat = 1nat;
    let v0: nat = 2nat;
    let v1: nat = 8nat;
    let e1: nat = step(b, q, e0, v0, true, v1);
    let v2: nat = 64nat;
    let e2: nat = step(b, q, e1, v1, false, v2);
    let v3: nat = 8192nat;
    let e3: nat = step(b, q, e2, v2, true, v3);
    let v4: nat = 0x18463adnat;
    let e4: nat = step(b, q, e3, v3, false, v4);
    let v5: nat = 0x113560nat;
    let e5: nat = step(b, q, e4, v4, false, v5);
    let v6: nat = 0x1ca5942nat;
    let e6: nat = step(b, q, e5, v5, true, v6);
    let v7: nat = 0x616604nat;
    let e7: nat = step(b, q, e6, v6, true, v7);
    let v8: nat = 0x8308d1nat;
    let e8: nat = step(b, q, e7, v7, true, v8);
    let v9: nat = 0x112baa2nat;
    let e9: nat = step(b, q, e8, v8, true, v9);
    let v10: nat = 0x106259fnat;
    let e10: nat = step(b, q, e9, v9, false, v10);
    let v11: nat = 0x62bdf4nat;
    let e11: nat = step(b, q, e10, v10, true, v11);
    let v12: nat = 0x25ec7c5nat;
    let e12: nat = step(b, q, e11, v11, true, v12);
    let v13: nat = 0xefd1canat;
    let e13: nat = step(b, q, e12, v12, true, v13);
    let v14: nat = 0x156e1d2nat;
    let e14: nat = step(b, q, e13, v13, true, v14);
    let v15: nat = 0x1bf934bnat;
    let e15: nat = step(b, q, e14, v14, false, v15);
    let v16: nat = 0x1977581nat;
    let e16: nat = step(b, q, e15, v15, true, v16);
    let v17: nat = 0x2e7174nat;
    let e17: nat = step(b, q, e16, v16, true, v17);
    let v18: nat = 0x2302af6nat;
    let e18: nat = step(b, q, e17, v17, false, v18);
    let v19: nat = 0x1b6b94fnat;
    let e19: nat = step(b, q, e18, v18, false, v19);
    let v20: nat = 0x4a1a5bnat;
    let e20: nat = step(b, q, e19, v19, false, v20);
    let v21: nat = 0x1bc4c23nat;
    let e21: nat = step(b, q, e20, v20, true, v21);
    let v22: nat = 0x115a936nat;
    let e22: nat = step(b, q, e21, v21, true, v22);
}

/// A power of 2 modulo 0x27b9c53 that the powers `(q - 1) / r` share for `r`
/// = 2 and 3.
proof fn lemma_power_27b9c53_shared_1()
    ensures
        powmod(2nat, 0x69ef63nat, 0x27b9c53nat) == 0x115a936nat,
{
    lemma_power_27b9c53_shared_1_part_1();
    lemma_powmod_basics(2nat, 0x27b9c53nat);
    lemma_powmod_mul(2nat, 1, 0x69ef63nat, 0x27b9c53nat);
}

/// Part 1 of the chain of `lemma_power_27b9c53_over_2`.
proof fn lemma_power_27b9c53_over_2_part_1()
    ensures
        powmod(0x115a936nat, 3nat, 0x27b9c53nat) == 0x27b9c52nat,
{
    let q: nat = 0x27b9c53nat;
    let b: nat = 0x115a936nat;
    lemma_powmod_basics(b, q);
    let e0: nat = 1nat;
    let v0: nat = 0x115a936nat;
    let v1: nat = 0x27b9c52nat;
    let e1: nat = step(b, q, e0, v0, true, v1);
}

/// The power `(q - 1) / 2` of 2 modulo `q`, for `q` = 0x27b9c53.
proof fn lemma_power_27b9c53_over_2()
    ensures
        powmod(2nat, 0x13dce29nat, 0x27b9c53nat) == 0x27b9c52nat,
{
    lemma_power_27b9c53_shared_1();
    lemma_power_27b9c53_over_2_part_1();
    lemma_powmod_mul(2nat, 0x69ef63nat, 3nat, 0x27b9c53nat);
}

/// Part 1 of the chain of `lemma_power_27b9c53_over_3`.
proof fn lemma_power_27b9c53_over_3_part_1()
    ensures
        powmod(0x115a936nat, 2nat, 0x27b9c53nat) == 0x115a935nat,
{
    let q: nat = 0x27b9c53nat;
    let b: nat = 0x115a936nat;
    lemma_powmod_basics(b, q);
    let e0: nat = 1nat;
    let v0: nat = 0x115a936nat;
    let v1: nat = 0x115a935nat;
    let e1: nat = step(b, q, e0, v0, false, v1);
}

/// The power `(q - 1) / 3` of 2 modulo `q`, for `q` = 0x27b9c53.
proof fn lemma_power_27b9c53_over_3()
    ensures
        powmod(2nat, 0xd3dec6nat, 0x27b9c53nat) == 0x115a935nat,
{
    lemma_power_27b9c53_shared_1();
    lemma_power_27b9c53_over_3_part_1();
    lemma_powmod_mul(2nat, 0x69ef63nat, 2nat, 0x27b9c53nat);
}

/// Part 1 of the chain of `lemma_power_27b9c53_top`.
proof fn lemma_power_27b9c53_top_part_1()
    ensures
        powmod(0x27b9c52nat, 2nat, 0x27b9c53nat) == 1nat,
{
    let q: nat = 0x27b9c53nat;
    let b: nat = 0x27b9c52nat;
    lemma_powmod_basics(b, q);
    let e0: nat = 1nat;
    let v0: nat = 0x27b9c52nat;
    let v1: nat = 1nat;
    let e1: nat = step(b, q, e0, v0, false, v1);
}

/// The power `q - 1` of 2 modulo `q` is 1, for `q` = 0x27b9c53.
proof fn lemma_power_27b9c53_top()
    ensures
        powmod(2nat, 0x27b9c52nat, 0x27b9c53nat) == 1nat,
{
    lemma_power_27b9c53_over_2();
    lemma_power_27b9c53_top_part_1();
    lemma_powmod_mul(2nat, 0x13dce29nat, 2nat, 0x27b9c53nat);
}

/// 0x27b9c53 is prime: the powers of 2 pass the test of Lucas.
pub proof fn lemma_prime_27b9c53()
    ensures
        is_prime(0x27b9c53nat),
{
    let q: nat = 0x27b9c53nat;
    let g: nat = 2nat;
    let factors: Seq<nat> = seq![2nat, 3nat, 0x69ef63nat];
    lemma_prime_2();
    lemma_prime_3();
    lemma_prime_69ef63();
    // No other prime divides `q - 1`.
    lemma_split(0x27b9c52nat, 2nat, 0x13dce29nat);
    lemma_split(0x13dce29nat, 3nat, 0x69ef63nat);
    lemma_split(0x69ef63nat, 0x69ef63nat, 1nat);
    lemma_no_prime_divides_one();
    assert(factors[0] == 2nat);
    assert(factors[1] == 3nat);
    assert(factors[2] == 0x69ef63nat);
    assert(only_prime_factors((q - 1) as nat, factors));
    // The powers.
    lemma_power_27b9c53_top();
    lemma_power_27b9c53_over_2();
    lemma_power_27b9c53_over_3();
    lemma_power_27b9c53_over_69ef63();
    assert forall|i: int| 0 <= i < factors.len() implies factors[i] > 0 && (q - 1) % (
        factors[i] as int
    ) == 0 && powmod(g, ((q - 1) / (#[trigger] factors[i] as int)) as nat, q) != 1 by {
        if i == 0 {
            assert((q - 1) / (2nat as int) == 0x13dce29nat);
        } else if i == 1 {
            assert((q - 1) / (3nat as int) == 0xd3dec6nat);
        } else if i == 2 {
            assert((q - 1) / (0x69ef63nat as int) == 6nat);
        }
    }
    lemma_lucas(q, g, factors);
}

/// Part 1 of the chain of `lemma_power_528e0dc7d_over_27b9c53`.
proof fn lemma_power_528e0dc7d_over_27b9c53_part_1()
    ensures
        powmod(3nat, 532nat, 0x528e0dc7dnat) == 0x286dfa7cenat,
{
    let q: nat = 0x528e0dc7dnat;
    let b: nat = 3nat;
    lemma_powmod_basics(b, q);
    let e0: nat = 1nat;
    let v0: nat = 3nat;
    let v1: nat = 9nat;
    let e1: nat = step(b, q, e0, v0, false, v1);
    let v2: nat = 81nat;
    let e2: nat = step(b, q, e1, v1, false, v2);
    let v3: nat = 6561nat;
    let e3: nat = step(b, q, e2, v2, false, v3);
    let v4: nat = 0x290d741nat;
    let e4: nat = step(b, q, e3, v3, false, v4);
    let v5: nat = 0x352e4552fnat;
    let e5: nat = step(b, q, e4, v4, true, v5);
    let v6: nat = 0x15fcbe04nat;
    let e6: nat = step(b, q, e5, v5, false, v6);
    let v7: nat = 0x3aa2b23b5nat;
    let e7: nat = step(b, q, e6, v6, true, v7);
    let v8: nat = 0x161f288c6nat;
    let e8: nat = step(b, q, e7, v7, false, v8);
    let v9: nat = 0x286dfa7cenat;
    let e9: nat = step(b, q, e8, v8, false, v9);
}

/// The power `(q - 1) / 0x27b9c53` of 3 modulo `q`, for `q` = 0x528e0dc7d.
proof fn lemma_power_528e0dc7d_over_27b9c53()
    ensures
        powmod(3nat, 532nat, 0x528e0dc7dnat) == 0x286dfa7cenat,
{
    lemma_power_528e0dc7d_over_27b9c53_part_1();
    lemma_powmod_basics(3nat, 0x528e0dc7dnat);
    lemma_powmod_mul(3nat, 1, 532nat, 0x528e0dc7dnat);
}

/// Part 1 of the chain of `lemma_power_528e0dc7d_shared_1`.
proof fn lemma_power_528e0dc7d_shared_1_part_1()
    ensures
        powmod(3nat, 0x27b9c53nat, 0x528e0dc7dnat) == 0x1d2f7cc17nat,
{
    let q: nat = 0x528e0dc7dnat;
    let b: nat = 3nat;
    lemma_powmod_basics(b, q);
    let e0: nat = 1nat;
    let v0: nat = 3nat;
    let v1: nat = 9nat;
    let e1: nat = step(b, q, e0, v0, false, v1);
    let v2: nat = 81nat;
    let e2: nat = step(b, q, e1, v1, false, v2);
    let v3: nat = 19683nat;
    let e3: nat = step(b, q, e2, v2, true, v3);
    let v4: nat = 0x4546b3dbnat;
    let e4: nat = step(b, q, e3, v3, true, v4);
    let v5: nat = 0x32842a1d6nat;
    let e5: nat = step(b, q, e4, v4, true, v5);
    let v6: nat = 0x1a6256cdnat;
    let e6: nat = step(b, q, e5, v5, true, v6);
    let v7: nat = 0xbd863585nat;
    let e7: nat = step(b, q, e6, v6, false, v7);
    let v8: nat = 0x1841f0675nat;
    let e8: nat = step(b, q, e7, v7, true, v8);
    let v9: nat = 0x12488b24enat;
    let e9: nat = step(b, q, e8, v8, true, v9);
    let v10: nat = 0x3e3aa7150nat;
    let e10: nat = step(b, q, e9, v9, true, v10);
    let v11: nat = 0x3d2862e70nat;
    let e11: nat = step(b, q, e10, v10, false, v11);
    let v12: nat = 0x504de6be5nat;
    let e12: nat = step(b, q, e11, v11, false, v12);
    let v13: nat = 0x3cd15b008nat;
    let e13: nat = step(b, q, e12, v12, true, v13);
    let v14: nat = 0x153950a72nat;
    let e14: nat = step(b, q, e13, v13, true, v14);
    let v15: nat = 0x4d152559fnat;
    let e15: nat = step(b, q, e14, v14, true, v15);
    let v16: nat = 0x5185c8e68nat;
    let e16: nat = step(b, q, e15, v15, false, v16);
    let v17: nat = 0x50c158a4anat;
    let e17: nat = step(b, q, e16, v16, false, v17);
    let v18: nat = 0x507790e4anat;
    let e18: nat = step(b, q, e17, v17, false, v18);
    let v19: nat = 0x4dcecc38bnat;
    let e19: nat = step(b, q, e18, v18, true, v19);
    let v20: nat = 0xcaa25885nat;
    let e20: nat = step(b, q, e19, v19, false, v20);
    let v21: nat = 0x2c10ca295nat;
    let e21: nat = step(b, q, e20, v20, true, v21);
    let v22: nat = 0x4e6bdd781nat;
    let e22: nat = step(b, q, e21, v21, false, v22);
    let v23: nat = 0x391f26980nat;
    let e23: nat = step(b, q, e22, v22, false, v23);
    let v24: nat = 0x90298a02nat;
    let e24: nat = step(b, q, e23, v23, true, v24);
    let v25: nat = 0x1d2f7cc17nat;
    let e25: nat = step(b, q, e24, v24, true, v25);
}

/// A power of 3 modulo 0x528e0dc7d that the powers `(q - 1) / r` share for
/// `r` = 2, 7 and 19.
proof fn lemma_power_528e0dc7d_shared_1()
    ensures
        powmod(3nat, 0x27b9c53nat, 0x528e0dc7dnat) == 0x1d2f7cc17nat,
{
    lemma_power_528e0dc7d_shared_1_part_1();
    lemma_powmod_basics(3nat, 0x528e0dc7dnat);
    lemma_powmod_mul(3nat, 1, 0x27b9c53nat, 0x528e0dc7dnat);
}

/// Part 1 of the chain of `lemma_power_528e0dc7d_over_19`.
proof fn lemma_power_528e0dc7d_over_19_part_1()
    ensures
        powmod(0x1d2f7cc17nat, 28nat, 0x528e0dc7dnat) == 0x42d6af159nat,
{
    let q: nat = 0x528e0dc7dnat;
    let b: nat = 0x1d2f7cc17nat;
    lemma_powmod_basics(b, q);
    let e0: nat = 1nat;
    let v0: nat = 0x1d2f7cc17nat;
    let v1: nat = 0x528095b2fnat;
    let e1: nat = step(b, q, e0, v0, true, v1);
    let v2: nat = 0x4cb778b18nat;
    let e2: nat = step(b, q, e1, v1, true, v2);
    let v3: nat = 0x3f8daebdanat;
    let e3: nat = step(b, q, e2, v2, false, v3);
    let v4: nat = 0x42d6af159nat;
    let e4: nat = step(b, q, e3, v3, false, v4);
}

/// The power `(q - 1) / 19` of 3 modulo `q`, for `q` = 0x528e0dc7d.
proof fn lemma_power_528e0dc7d_over_19()
    ensures
        powmod(3nat, 0x45851914nat, 0x528e0dc7dnat) == 0x42d6af159nat,
{
    lemma_power_528e0dc7d_shared_1();
    lemma_power_528e0dc7d_over_19_part_1();
    lemma_powmod_mul(3nat, 0x27b9c53nat, 28nat, 0x528e0dc7dnat);
}

/// Part 1 of the chain of `lemma_power_528e0dc7d_shared_2`.
proof fn lemma_power_528e0dc7d_shared_2_part_1()
    ensures
        powmod(0x1d2f7cc17nat, 19nat, 0x528e0dc7dnat) == 0x20631b75cnat,
{
    let q: nat = 0x528e0dc7dnat;
    let b: nat = 0x1d2f7cc17nat;
    lemma_powmod_basics(b, q);
    let e0: nat = 1nat;
    let v0: nat = 0x1d2f7cc17nat;
    let v1: nat = 0x3cc86a76cnat;
    let e1: nat = step(b, q, e0, v0, false, v1);
    let v2: nat = 0x8e77b740nat;
    let e2: nat = step(b, q, e1, v1, false, v2);
    let v3: nat = 0x29bd958enat;
    let e3: nat = step(b, q, e2, v2, true, v3);
    let v4: nat = 0x20631b75cnat;
    let e4: nat = step(b, q, e3, v3, true, v4);
}

/// A power of 3 modulo 0x528e0dc7d that the powers `(q - 1) / r` share for
/// `r` = 2 and 7.
proof fn lemma_power_528e0dc7d_shared_2()
    ensures
        powmod(3nat, 0x2f2c9a29nat, 0x528e0dc7dnat) == 0x20631b75cnat,
{
    lemma_power_528e0dc7d_shared_1();
    lemma_power_528e0dc7d_shared_2_part_1();
    lemma_powmod_mul(3nat, 0x27b9c53nat, 19nat, 0x528e0dc7dnat);
}

/// Part 1 of the chain of `lemma_power_528e0dc7d_shared_3`.
proof fn lemma_power_528e0dc7d_shared_3_part_1()
    ensures
        powmod(0x20631b75cnat, 7nat, 0x528e0dc7dnat) == 0x639b8c7bnat,
{
    let q: nat = 0x528e0dc7dnat;
    let b: nat = 0x20631b75cnat;
    lemma_powmod_basics(b, q);
    let e0: nat = 1nat;
    let v0: nat = 0x20631b75cnat;
    let v1: nat = 0x3e00a1eanat;
    let e1: nat = step(b, q, e0, v0, true, v1);
    let v2: nat = 0x639b8c7bnat;
    let e2: nat = step(b, q, e1, v1, true, v2);
}

/// A power of 3 modulo 0x528e0dc7d that the powers `(q - 1) / r` share for
/// `r` = 2.
proof fn lemma_power_528e0dc7d_shared_3()
    ensures
        powmod(3nat, 0x14a38371fnat, 0x528e0dc7dnat) == 0x639b8c7bnat,
{
    lemma_power_528e0dc7d_shared_2();
    lemma_power_528e0dc7d_shared_3_part_1();
    lemma_powmod_mul(3nat, 0x2f2c9a29nat, 7nat, 0x528e0dc7dnat);
}

/// Part 1 of the chain of `lemma_power_528e0dc7d_over_2`.
proof fn lemma_power_528e0dc7d_over_2_part_1()
    ensures
        powmod(0x639b8c7bnat, 2nat, 0x528e0dc7dnat) == 0x528e0dc7cnat,
{
    let q: nat = 0x528e0dc7dnat;
    let b: nat = 0x639b8c7bnat;
    lemma_powmod_basics(b, q);
    let e0: nat = 1nat;
    let v0: nat = 0x639b8c7bnat;
    let v1: nat = 0x528e0dc7cnat;
    let e1: nat = step(b, q, e0, v0, false, v1);
}

/// The power `(q - 1) / 2` of 3 modulo `q`, for `q` = 0x528e0dc7d.
proof fn lemma_power_528e0dc7d_over_2()
    ensures
        powmod(3nat, 0x294706e3enat, 0x528e0dc7dnat) == 0x528e0dc7cnat,
{
    lemma_power_528e0dc7d_shared_3();
    lemma_power_528e0dc7d_over_2_part_1();
    lemma_powmod_mul(3nat, 0x14a38371fnat, 2nat, 0x528e0dc7dnat);
}

/// Part 1 of the chain of `lemma_power_528e0dc7d_over_7`.
proof fn lemma_power_528e0dc7d_over_7_part_1()
    ensures
        powmod(0x20631b75cnat, 4nat, 0x528e0dc7dnat) == 0x1268de11anat,
{
    let q: nat = 0x528e0dc7dnat;
    let b: nat = 0x20631b75cnat;
    lemma_powmod_basics(b, q);
    let e0: nat = 1nat;
    let v0: nat = 0x20631b75cnat;
    let v1: nat = 0x29d3ae8fbnat;
    let e1: nat = step(b, q, e0, v0, false, v1);
    let v2: nat = 0x1268de11anat;
    let e2: nat = step(b, q, e1, v1, false, v2);
}

/// The power `(q - 1) / 7` of 3 modulo `q`, for `q` = 0x528e0dc7d.
proof fn lemma_power_528e0dc7d_over_7()
    ensures
        powmod(3nat, 0xbcb268a4nat, 0x528e0dc7dnat) == 0x1268de11anat,
{
    lemma_power_528e0dc7d_shared_2();
    lemma_power_528e0dc7d_over_7_part_1();
    lemma_powmod_mul(3nat, 0x2f2c9a29nat, 4nat, 0x528e0dc7dnat);
}

/// Part 1 of the chain of `lemma_power_528e0dc7d_top`.
proof fn lemma_power_528e0dc7d_top_part_1()
    ensures
        powmod(0x528e0dc7cnat, 2nat, 0x528e0dc7dnat) == 1nat,
{
    let q: nat = 0x528e0dc7dnat;
    let b: nat = 0x528e0dc7cnat;
    lemma_powmod_basics(b, q);
    let e0: nat = 1nat;
    let v0: nat = 0x528e0dc7cnat;
    let v1: nat = 1nat;
    let e1: nat = step(b, q, e0, v0, false, v1);
}

/// The power `q - 1` of 3 modulo `q` is 1, for `q` = 0x528e0dc7d.
proof fn lemma_power_528e0dc7d_top()
    ensures
        powmod(3nat, 0x528e0dc7cnat, 0x528e0dc7dnat) == 1nat,
{
    lemma_power_528e0dc7d_over_2();
    lemma_power_528e0dc7d_top_part_1();
    lemma_powmod_mul(3nat, 0x294706e3enat, 2nat, 0x528e0dc7dnat);
}

/// 0x528e0dc7d is prime: the powers of 3 pass the test of Lucas.
pub proof fn lemma_prime_528e0dc7d()
    ensures
        is_prime(0x528e0dc7dnat),
{
    let q: nat = 0x528e0dc7dnat;
    let g: nat = 3nat;
    let factors: Seq<nat> = seq![2nat, 7nat, 19nat, 0x27b9c53nat];
    lemma_prime_2();
    lemma_prime_7();
    lemma_prime_19();
    lemma_prime_27b9c53();
    // No other prime divides `q - 1`.
    lemma_split(0x528e0dc7cnat, 2nat, 0x294706e3enat);
    lemma_split(0x294706e3enat, 2nat, 0x14a38371fnat);
    lemma_split(0x14a38371fnat, 7nat, 0x2f2c9a29nat);
    lemma_split(0x2f2c9a29nat, 19nat, 0x27b9c53nat);
    lemma_split(0x27b9c53nat, 0x27b9c53nat, 1nat);
    lemma_no_prime_divides_one();
    assert(factors[0] == 2nat);
    assert(factors[1] == 7nat);
    assert(factors[2] == 19nat);
    assert(factors[3] == 0x27b9c53nat);
    assert(only_prime_factors((q - 1) as nat, factors));
    // The powers.
    lemma_power_528e0dc7d_top();
    lemma_power_528e0dc7d_over_2();
    lemma_power_528e0dc7d_over_7();
    lemma_power_528e0dc7d_over_19();
    lemma_power_528e0dc7d_over_27b9c53();
    assert forall|i: int| 0 <= i < factors.len() implies factors[i] > 0 && (q - 1) % (
        factors[i] as int
    ) == 0 && powmod(g, ((q - 1) / (#[trigger] factors[i] as int)) as nat, q) != 1 by {
        if i == 0 {
            assert((q - 1) / (2nat as int) == 0x294706e3enat);
        } else if i == 1 {
            assert((q - 1) / (7nat as int) == 0xbcb268a4nat);
        } else if i == 2 {
            assert((q - 1) / (19nat as int) == 0x45851914nat);
        } else if i == 3 {
            assert((q - 1) / (0x27b9c53nat as int) == 532nat);
        }
    }
    lemma_lucas(q, g, factors);
}

/// Part 1 of the chain of `lemma_power_53_over_13`.
proof fn lemma_power_53_over_13_part_1()
    ensures
        powmod(2nat, 4nat, 53nat) == 16nat,
{
    let q: nat = 53nat;
    let b: nat = 2nat;
    lemma_powmod_basics(b, q);
    let e0: nat = 1nat;
    let v0: nat = 2nat;
    let v1: nat = 4nat;
    let e1: nat = step(b, q, e0, v0, false, v1);
    let v2: nat = 16nat;
    let e2: nat = step(b, q, e1, v1, false, v2);
}

/// The power `(q - 1) / 13` of 2 modulo `q`, for `q` = 53.
proof fn lemma_power_53_over_13()
    ensures
        powmod(2nat, 4nat, 53nat) == 16nat,
{
    lemma_power_53_over_13_part_1();
    lemma_powmod_basics(2nat, 53nat);
    lemma_powmod_mul(2nat, 1, 4nat, 53nat);
}

/// Part 1 of the chain of `lemma_power_53_shared_1`.
proof fn lemma_power_53_shared_1_part_1()
    ensures
        powmod(2nat, 13nat, 53nat) == 30nat,
{
    let q: nat = 53nat;
    let b: nat = 2nat;
    lemma_powmod_basics(b, q);
    let e0: nat = 1nat;
    let v0: nat = 2nat;
    let v1: nat = 8nat;
    let e1: nat = step(b, q, e0, v0, true, v1);
    let v2: nat = 11nat;
    let e2: nat = step(b, q, e1, v1, false, v2);
    let v3: nat = 30nat;
    let e3: nat = step(b, q, e2, v2, true, v3);
}

/// A power of 2 modulo 53 that the powers `(q - 1) / r` share for `r` = 2.
proof fn lemma_power_53_shared_1()
    ensures
        powmod(2nat, 13nat, 53nat) == 30nat,
{
    lemma_power_53_shared_1_part_1();
    lemma_powmod_basics(2nat, 53nat);
    lemma_powmod_mul(2nat, 1, 13nat, 53nat);
}

/// Part 1 of the chain of `lemma_power_53_over_2`.
proof fn lemma_power_53_over_2_part_1()
    ensures
        powmod(30nat, 2nat, 53nat) == 52nat,
{
    let q: nat = 53nat;
    let b: nat = 30nat;
    lemma_powmod_basics(b, q);
    let e0: nat = 1nat;
    let v0: nat = 30nat;
    let v1: nat = 52nat;
    let e1: nat = step(b, q, e0, v0, false, v1);
}

/// The power `(q - 1) / 2` of 2 modulo `q`, for `q` = 53.
proof fn lemma_power_53_over_2()
    ensures
        powmod(2nat, 26nat, 53nat) == 52nat,
{
    lemma_power_53_shared_1();
    lemma_power_53_over_2_part_1();
    lemma_powmod_mul(2nat, 13nat, 2nat, 53nat);
}

/// Part 1 of the chain of `lemma_power_53_top`.
proof fn lemma_power_53_top_part_1()
    ensures
        powmod(52nat, 2nat, 53nat) == 1nat,
{
    let q: nat = 53nat;
    let b: nat = 52nat;
    lemma_powmod_basics(b, q);
    let e0: nat = 1nat;
    let v0: nat = 52nat;
    let v1: nat = 1nat;
    let e1: nat = step(b, q, e0, v0, false, v1);
}

/// The power `q - 1` of 2 modulo `q` is 1, for `q` = 53.
proof fn lemma_power_53_top()
    ensures
        powmod(2nat, 52nat, 53nat) == 1nat,
{
    lemma_power_53_over_2();
    lemma_power_53_top_part_1();
    lemma_powmod_mul(2nat, 26nat, 2nat, 53nat);
}

/// 53 is prime: the powers of 2 pass the test of Lucas.
pub proof fn lemma_prime_53()
    ensures
        is_prime(53nat),
{
    let q: nat = 53nat;
    let g: nat = 2nat;
    let factors: Seq<nat> = seq![2nat, 13nat];
    lemma_prime_2();
    lemma_prime_13();
    // No other prime divides `q - 1`.
    lemma_split(52nat, 2nat, 26nat);
    lemma_split(26nat, 2nat, 13nat);
    lemma_split(13nat, 13nat, 1nat);
    lemma_no_prime_divides_one();
    assert(factors[0] == 2nat);
    assert(factors[1] == 13nat);
    assert(only_prime_factors((q - 1) as nat, factors));
    // The powers.
    lemma_power_53_top();
    lemma_power_53_over_2();
    lemma_power_53_over_13();
    assert forall|i: int| 0 <= i < factors.len() implies factors[i] > 0 && (q - 1) % (
        factors[i] as int
    ) == 0 && powmod(g, ((q - 1) / (#[trigger] factors[i] as int)) as nat, q) != 1 by {
        if i == 0 {
            assert((q - 1) / (2nat as int) == 26nat);
        } else if i == 1 {
            assert((q - 1) / (13nat as int) == 4nat);
        }
    }
    lemma_lucas(q, g, factors);
}

/// Part 1 of the chain of `lemma_power_67_over_11`.
proof fn lemma_power_67_over_11_part_1()
    ensures
        powmod(2nat, 6nat, 67nat) == 64nat,
{
    let q: nat = 67nat;
    let b: nat = 2nat;
    lemma_powmod_basics(b, q);
    let e0: nat = 1nat;
    let v0: nat = 2nat;
    let v1: nat = 8nat;
    let e1: nat = step(b, q, e0, v0, true, v1);
    let v2: nat = 64nat;
    let e2: nat = step(b, q, e1, v1, false, v2);
}

/// The power `(q - 1) / 11` of 2 modulo `q`, for `q` = 67.
proof fn lemma_power_67_over_11()
    ensures
        powmod(2nat, 6nat, 67nat) == 64nat,
{
    lemma_power_67_over_11_part_1();
    lemma_powmod_basics(2nat, 67nat);
    lemma_powmod_mul(2nat, 1, 6nat, 67nat);
}

/// Part 1 of the chain of `lemma_power_67_shared_1`.
proof fn lemma_power_67_shared_1_part_1()
    ensures
        powmod(2nat, 11nat, 67nat) == 38nat,
{
    let q: nat = 67nat;
    let b: nat = 2nat;
    lemma_powmod_basics(b, q);
    let e0: nat = 1nat;
    let v0: nat = 2nat;
    let v1: nat = 4nat;
    let e1: nat = step(b, q, e0, v0, false, v1);
    let v2: nat = 32nat;
    let e2: nat = step(b, q, e1, v1, true, v2);
    let v3: nat = 38nat;
    let e3: nat = step(b, q, e2, v2, true, v3);
}

/// A power of 2 modulo 67 that the powers `(q - 1) / r` share for `r` = 2 and
/// 3.
proof fn lemma_power_67_shared_1()
    ensures
        powmod(2nat, 11nat, 67nat) == 38nat,
{
    lemma_power_67_shared_1_part_1();
    lemma_powmod_basics(2nat, 67nat);
    lemma_powmod_mul(2nat, 1, 11nat, 67nat);
}

/// Part 1 of the chain of `lemma_power_67_over_2`.
proof fn lemma_power_67_over_2_part_1()
    ensures
        powmod(38nat, 3nat, 67nat) == 66nat,
{
    let q: nat = 67nat;
    let b: nat = 38nat;
    lemma_powmod_basics(b, q);
    let e0: nat = 1nat;
    let v0: nat = 38nat;
    let v1: nat = 66nat;
    let e1: nat = step(b, q, e0, v0, true, v1);
}

/// The power `(q - 1) / 2` of 2 modulo `q`, for `q` = 67.
proof fn lemma_power_67_over_2()
    ensures
        powmod(2nat, 33nat, 67nat) == 66nat,
{
    lemma_power_67_shared_1();
    lemma_power_67_over_2_part_1();
    lemma_powmod_mul(2nat, 11nat, 3nat, 67nat);
}

/// Part 1 of the chain of `lemma_power_67_over_3`.
proof fn lemma_power_67_over_3_part_1()
    ensures
        powmod(38nat, 2nat, 67nat) == 37nat,
{
    let q: nat = 67nat;
    let b: nat = 38nat;
    lemma_powmod_basics(b, q);
    let e0: nat = 1nat;
    let v0: nat = 38nat;
    let v1: nat = 37nat;
    let e1: nat = step(b, q, e0, v0, false, v1);
}

/// The power `(q - 1) / 3` of 2 modulo `q`, for `q` = 67.
proof fn lemma_power_67_over_3()
    ensures
        powmod(2nat, 22nat, 67nat) == 37nat,
{
    lemma_power_67_shared_1();
    lemma_power_67_over_3_part_1();
    lemma_powmod_mul(2nat, 11nat, 2nat, 67nat);
}

/// Part 1 of the chain of `lemma_power_67_top`.
proof fn lemma_power_67_top_part_1()
    ensures
        powmod(66nat, 2nat, 67nat) == 1nat,
{
    let q: nat = 67nat;
    let b: nat = 66nat;
    lemma_powmod_basics(b, q);
    let e0: nat = 1nat;
    let v0: nat = 66nat;
    let v1: nat = 1nat;
    let e1: nat = step(b, q, e0, v0, false, v1);
}

/// The power `q - 1` of 2 modulo `q` is 1, for `q` = 67.
proof fn lemma_power_67_top()
    ensures
        powmod(2nat, 66nat, 67nat) == 1nat,
{
    lemma_power_67_over_2();
    lemma_power_67_top_part_1();
    lemma_powmod_mul(2nat, 33nat, 2nat, 67nat);
}

/// 67 is prime: the powers of 2 pass the test of Lucas.
pub proof fn lemma_prime_67()
    ensures
        is_prime(67nat),
{
    let q: nat = 67nat;
    let g: nat = 2nat;
    let factors: Seq<nat> = seq![2nat, 3nat, 11nat];
    lemma_prime_2();
    lemma_prime_3();
    lemma_prime_11();
    // No other prime divides `q - 1`.
    lemma_split(66nat, 2nat, 33nat);
    lemma_split(33nat, 3nat, 11nat);
    lemma_split(11nat, 11nat, 1nat);
    lemma_no_prime_divides_one();
    assert(factors[0] == 2nat);
    assert(factors[1] == 3nat);
    assert(factors[2] == 11nat);
    assert(only_prime_factors((q - 1) as nat, factors));
    // The powers.
    lemma_power_67_top();
    lemma_power_67_over_2();
    lemma_power_67_over_3();
    lemma_power_67_over_11();
    assert forall|i: int| 0 <= i < factors.len() implies factors[i] > 0 && (q - 1) % (
        factors[i] as int
    ) == 0 && powmod(g, ((q - 1) / (#[trigger] factors[i] as int)) as nat, q) != 1 by {
        if i == 0 {
            assert((q - 1) / (2nat as int) == 33nat);
        } else if i == 1 {
            assert((q - 1) / (3nat as int) == 22nat);
        } else if i == 2 {
            assert((q - 1) / (11nat as int) == 6nat);
        }
    }
    lemma_lucas(q, g, factors);
}

/// Part 1 of the chain of `lemma_power_269_over_67`.
proof fn lemma_power_269_over_67_part_1()
    ensures
        powmod(2nat, 4nat, 269nat) == 16nat,
{
    let q: nat = 269nat;
    let b: nat = 2nat;
    lemma_powmod_basics(b, q);
    let e0: nat = 1nat;
    let v0: nat = 2nat;
    let v1: nat = 4nat;
    let e1: nat = step(b, q, e0, v0, false, v1);
    let v2: nat = 16nat;
    let e2: nat = step(b, q, e1, v1, false, v2);
}

/// The power `(q - 1) / 67` of 2 modulo `q`, for `q` = 269.
proof fn lemma_power_269_over_67()
    ensures
        powmod(2nat, 4nat, 269nat) == 16nat,
{
    lemma_power_269_over_67_part_1();
    lemma_powmod_basics(2nat, 269nat);
    lemma_powmod_mul(2nat, 1, 4nat, 269nat);
}

/// Part 1 of the chain of `lemma_power_269_shared_1`.
proof fn lemma_power_269_shared_1_part_1()
    ensures
        powmod(2nat, 67nat, 269nat) == 187nat,
{
    let q: nat = 269nat;
    let b: nat = 2nat;
    lemma_powmod_basics(b, q);
    let e0: nat = 1nat;
    let v0: nat = 2nat;
    let v1: nat = 4nat;
    let e1: nat = step(b, q, e0, v0, false, v1);
    let v2: nat = 16nat;
    let e2: nat = step(b, q, e1, v1, false, v2);
    let v3: nat = 256nat;
    let e3: nat = step(b, q, e2, v2, false, v3);
    let v4: nat = 169nat;
    let e4: nat = step(b, q, e3, v3, false, v4);
    let v5: nat = 94nat;
    let e5: nat = step(b, q, e4, v4, true, v5);
    let v6: nat = 187nat;
    let e6: nat = step(b, q, e5, v5, true, v6);
}

/// A power of 2 modulo 269 that the powers `(q - 1) / r` share for `r` = 2.
proof fn lemma_power_269_shared_1()
    ensures
        powmod(2nat, 67nat, 269nat) == 187nat,
{
    lemma_power_269_shared_1_part_1();
    lemma_powmod_basics(2nat, 269nat);
    lemma_powmod_mul(2nat, 1, 67nat, 269nat);
}

/// Part 1 of the chain of `lemma_power_269_over_2`.
proof fn lemma_power_269_over_2_part_1()
    ensures
        powmod(187nat, 2nat, 269nat) == 268nat,
{
    let q: nat = 269nat;
    let b: nat = 187nat;
    lemma_powmod_basics(b, q);
    let e0: nat = 1nat;
    let v0: nat = 187nat;
    let v1: nat = 268nat;
    let e1: nat = step(b, q, e0, v0, false, v1);
}

/// The power `(q - 1) / 2` of 2 modulo `q`, for `q` = 269.
proof fn lemma_power_269_over_2()
    ensures
        powmod(2nat, 134nat, 269nat) == 268nat,
{
    lemma_power_269_shared_1();
    lemma_power_269_over_2_part_1();
    lemma_powmod_mul(2nat, 67nat, 2nat, 269nat);
}

/// Part 1 of the chain of `lemma_power_269_top`.
proof fn lemma_power_269_top_part_1()
    ensures
        powmod(268nat, 2nat, 269nat) == 1nat,
{
    let q: nat = 269nat;
    let b: nat = 268nat;
    lemma_powmod_basics(b, q);
    let e0: nat = 1nat;
    let v0: nat = 268nat;
    let v1: nat = 1nat;
    let e1: nat = step(b, q, e0, v0, false, v1);
}

/// The power `q - 1` of 2 modulo `q` is 1, for `q` = 269.
proof fn lemma_power_269_top()
    ensures
        powmod(2nat, 268nat, 269nat) == 1nat,
{
    lemma_power_269_over_2();
    lemma_power_269_top_part_1();
    lemma_powmod_mul(2nat, 134nat, 2nat, 269nat);
}

/// 269 is prime: the powers of 2 pass the test of Lucas.
pub proof fn lemma_prime_269()
    ensures
        is_prime(269nat),
{
    let q: nat = 269nat;
    let g: nat = 2nat;
    let factors: Seq<nat> = seq![2nat, 67nat];
    lemma_prime_2();
    lemma_prime_67();
    // No other prime divides `q - 1`.
    lemma_split(268nat, 2nat, 134nat);
    lemma_split(134nat, 2nat, 67nat);
    lemma_split(67nat, 67nat, 1nat);
    lemma_no_prime_divides_one();
    assert(factors[0] == 2nat);
    assert(factors[1] == 67nat);
    assert(only_prime_factors((q - 1) as nat, factors));
    // The powers.
    lemma_power_269_top();
    lemma_power_269_over_2();
    lemma_power_269_over_67();
    assert forall|i: int| 0 <= i < factors.len() implies factors[i] > 0 && (q - 1) % (
        factors[i] as int
    ) == 0 && powmod(g, ((q - 1) / (#[trigger] factors[i] as int)) as nat, q) != 1 by {
        if i == 0 {
            assert((q - 1) / (2nat as int) == 134nat);
        } else if i == 1 {
            assert((q - 1) / (67nat as int) == 4nat);
        }
    }
    lemma_lucas(q, g, factors);
}

/// Part 1 of the chain of `lemma_power_3767_over_269`.
proof fn lemma_power_3767_over_269_part_1()
    ensures
        powmod(5nat, 14nat, 3767nat) == 3739nat,
{
    let q: nat = 3767nat;
    let b: nat = 5nat;
    lemma_powmod_basics(b, q);
    let e0: nat = 1nat;
    let v0: nat = 5nat;
    let v1: nat = 125nat;
    let e1: nat = step(b, q, e0, v0, true, v1);
    let v2: nat = 2785nat;
    let e2: nat = step(b, q, e1, v1, true, v2);
    let v3: nat = 3739nat;
    let e3: nat = step(b, q, e2, v2, false, v3);
}

/// The power `(q - 1) / 269` of 5 modulo `q`, for `q` = 3767.
proof fn lemma_power_3767_over_269()
    ensures
        powmod(5nat, 14nat, 3767nat) == 3739nat,
{
    lemma_power_3767_over_269_part_1();
    lemma_powmod_basics(5nat, 3767nat);
    lemma_powmod_mul(5nat, 1, 14nat, 3767nat);
}

/// Part 1 of the chain of `lemma_power_3767_shared_1`.
proof fn lemma_power_3767_shared_1_part_1()
    ensures
        powmod(5nat, 269nat, 3767nat) == 1700nat,
{
    let q: nat = 3767nat;
    let b: nat = 5nat;
    lemma_powmod_basics(b, q);
    let e0: nat = 1nat;
    let v0: nat = 5nat;
    let v1: nat = 25nat;
    let e1: nat = step(b, q, e0, v0, false, v1);
    let v2: nat = 625nat;
    let e2: nat = step(b, q, e1, v1, false, v2);
    let v3: nat = 2624nat;
    let e3: nat = step(b, q, e2, v2, false, v3);
    let v4: nat = 3067nat;
    let e4: nat = step(b, q, e3, v3, false, v4);
    let v5: nat = 1450nat;
    let e5: nat = step(b, q, e4, v4, true, v5);
    let v6: nat = 2570nat;
    let e6: nat = step(b, q, e5, v5, true, v6);
    let v7: nat = 1349nat;
    let e7: nat = step(b, q, e6, v6, false, v7);
    let v8: nat = 1700nat;
    let e8: nat = step(b, q, e7, v7, true, v8);
}

/// A power of 5 modulo 3767 that the powers `(q - 1) / r` share for `r` = 2
/// and 7.
proof fn lemma_power_3767_shared_1()
    ensures
        powmod(5nat, 269nat, 3767nat) == 1700nat,
{
    lemma_power_3767_shared_1_part_1();
    lemma_powmod_basics(5nat, 3767nat);
    lemma_powmod_mul(5nat, 1, 269nat, 3767nat);
}

/// Part 1 of the chain of `lemma_power_3767_over_7`.
proof fn lemma_power_3767_over_7_part_1()
    ensures
        powmod(1700nat, 2nat, 3767nat) == 711nat,
{
    let q: nat = 3767nat;
    let b: nat = 1700nat;
    lemma_powmod_basics(b, q);
    let e0: nat = 1nat;
    let v0: nat = 1700nat;
    let v1: nat = 711nat;
    let e1: nat = step(b, q, e0, v0, false, v1);
}

/// The power `(q - 1) / 7` of 5 modulo `q`, for `q` = 3767.
proof fn lemma_power_3767_over_7()
    ensures
        powmod(5nat, 538nat, 3767nat) == 711nat,
{
    lemma_power_3767_shared_1();
    lemma_power_3767_over_7_part_1();
    lemma_powmod_mul(5nat, 269nat, 2nat, 3767nat);
}

/// Part 1 of the chain of `lemma_power_3767_over_2`.
proof fn lemma_power_3767_over_2_part_1()
    ensures
        powmod(1700nat, 7nat, 3767nat) == 3766nat,
{
    let q: nat = 3767nat;
    let b: nat = 1700nat;
    lemma_powmod_basics(b, q);
    let e0: nat = 1nat;
    let v0: nat = 1700nat;
    let v1: nat = 3260nat;
    let e1: nat = step(b, q, e0, v0, true, v1);
    let v2: nat = 3766nat;
    let e2: nat = step(b, q, e1, v1, true, v2);
}

/// The power `(q - 1) / 2` of 5 modulo `q`, for `q` = 3767.
proof fn lemma_power_3767_over_2()
    ensures
        powmod(5nat, 1883nat, 3767nat) == 3766nat,
{
    lemma_power_3767_shared_1();
    lemma_power_3767_over_2_part_1();
    lemma_powmod_mul(5nat, 269nat, 7nat, 3767nat);
}

/// Part 1 of the chain of `lemma_power_3767_top`.
proof fn lemma_power_3767_top_part_1()
    ensures
        powmod(3766nat, 2nat, 3767nat) == 1nat,
{
    let q: nat = 3767nat;
    let b: nat = 3766nat;
    lemma_powmod_basics(b, q);
    let e0: nat = 1nat;
    let v0: nat = 3766nat;
    let v1: nat = 1nat;
    let e1: nat = step(b, q, e0, v0, false, v1);
}

/// The power `q - 1` of 5 modulo `q` is 1, for `q` = 3767.
proof fn lemma_power_3767_top()
    ensures
        powmod(5nat, 3766nat, 3767nat) == 1nat,
{
    lemma_power_3767_over_2();
    lemma_power_3767_top_part_1();
    lemma_powmod_mul(5nat, 1883nat, 2nat, 3767nat);
}

/// 3767 is prime: the powers of 5 pass the test of Lucas.
pub proof fn lemma_prime_3767()
    ensures
        is_prime(3767nat),
{
    let q: nat = 3767nat;
    let g: nat = 5nat;
    let factors: Seq<nat> = seq![2nat, 7nat, 269nat];
    lemma_prime_2();
    lemma_prime_7();
    lemma_prime_269();
    // No other prime divides `q - 1`.
    lemma_split(3766nat, 2nat, 1883nat);
    lemma_split(1883nat, 7nat, 269nat);
    lemma_split(269nat, 269nat, 1nat);
    lemma_no_prime_divides_one();
    assert(factors[0] == 2nat);
    assert(factors[1] == 7nat);
    assert(factors[2] == 269nat);
    assert(only_prime_factors((q - 1) as nat, factors));
    // The powers.
    lemma_power_3767_top();
    lemma_power_3767_over_2();
    lemma_power_3767_over_7();
    lemma_power_3767_over_269();
    assert forall|i: int| 0 <= i < factors.len() implies factors[i] > 0 && (q - 1) % (
        factors[i] as int
    ) == 0 && powmod(g, ((q - 1) / (#[trigger] factors[i] as int)) as nat, q) != 1 by {
        if i == 0 {
            assert((q - 1) / (2nat as int) == 1883nat);
        } else if i == 1 {
            assert((q - 1) / (7nat as int) == 538nat);
        } else if i == 2 {
            assert((q - 1) / (269nat as int) == 14nat);
        }
    }
    lemma_lucas(q, g, factors);
}

/// Part 1 of the chain of `lemma_power_124753_over_3767`.
proof fn lemma_power_124753_over_3767_part_1()
    ensures
        powmod(3nat, 318nat, 0x124753nat) == 65324nat,
{
    let q: nat = 0x124753nat;
    let b: nat = 3nat;
    lemma_powmod_basics(b, q);
    let e0: nat = 1nat;
    let v0: nat = 3nat;
    let v1: nat = 9nat;
    let e1: nat = step(b, q, e0, v0, false, v1);
    let v2: nat = 81nat;
    let e2: nat = step(b, q, e1, v1, false, v2);
    let v3: nat = 19683nat;
    let e3: nat = step(b, q, e2, v2, true, v3);
    let v4: nat = 291677nat;
    let e4: nat = step(b, q, e3, v3, true, v4);
    let v5: nat = 351567nat;
    let e5: nat = step(b, q, e4, v4, true, v5);
    let v6: nat = 329501nat;
    let e6: nat = step(b, q, e5, v5, true, v6);
    let v7: nat = 615796nat;
    let e7: nat = step(b, q, e6, v6, true, v7);
    let v8: nat = 65324nat;
    let e8: nat = step(b, q, e7, v7, false, v8);
}

/// The power `(q - 1) / 3767` of 3 modulo `q`, for `q` = 0x124753.
proof fn lemma_power_124753_over_3767()
    ensures
        powmod(3nat, 318nat, 0x124753nat) == 65324nat,
{
    lemma_power_124753_over_3767_part_1();
    lemma_powmod_basics(3nat, 0x124753nat);
    lemma_powmod_mul(3nat, 1, 318nat, 0x124753nat);
}

/// Part 1 of the chain of `lemma_power_124753_shared_1`.
proof fn lemma_power_124753_shared_1_part_1()
    ensures
        powmod(3nat, 3767nat, 0x124753nat) == 389901nat,
{
    let q: nat = 0x124753nat;
    let b: nat = 3nat;
    lemma_powmod_basics(b, q);
    let e0: nat = 1nat;
    let v0: nat = 3nat;
    let v1: nat = 27nat;
    let e1: nat = step(b, q, e0, v0, true, v1);
    let v2: nat = 2187nat;
    let e2: nat = step(b, q, e1, v1, true, v2);
    let v3: nat = 0x122580nat;
    let e3: nat = step(b, q, e2, v2, false, v3);
    let v4: nat = 926234nat;
    let e4: nat = step(b, q, e3, v3, true, v4);
    let v5: nat = 772845nat;
    let e5: nat = step(b, q, e4, v4, false, v5);
    let v6: nat = 558451nat;
    let e6: nat = step(b, q, e5, v5, true, v6);
    let v7: nat = 56086nat;
    let e7: nat = step(b, q, e6, v6, true, v7);
    let v8: nat = 0x114bd1nat;
    let e8: nat = step(b, q, e7, v7, false, v8);
    let v9: nat = 514nat;
    let e9: nat = step(b, q, e8, v8, true, v9);
    let v10: nat = 792588nat;
    let e10: nat = step(b, q, e9, v9, true, v10);
    let v11: nat = 389901nat;
    let e11: nat = step(b, q, e10, v10, true, v11);
}

/// A power of 3 modulo 0x124753 that the powers `(q - 1) / r` share for `r` =
/// 2, 3 and 53.
proof fn lemma_power_124753_shared_1()
    ensures
        powmod(3nat, 3767nat, 0x124753nat) == 389901nat,
{
    lemma_power_124753_shared_1_part_1();
    lemma_powmod_basics(3nat, 0x124753nat);
    lemma_powmod_mul(3nat, 1, 3767nat, 0x124753nat);
}

/// Part 1 of the chain of `lemma_power_124753_over_53`.
proof fn lemma_power_124753_over_53_part_1()
    ensures
        powmod(389901nat, 6nat, 0x124753nat) == 596032nat,
{
    let q: nat = 0x124753nat;
    let b: nat = 389901nat;
    lemma_powmod_basics(b, q);
    let e0: nat = 1nat;
    let v0: nat = 389901nat;
    let v1: nat = 461138nat;
    let e1: nat = step(b, q, e0, v0, true, v1);
    let v2: nat = 596032nat;
    let e2: nat = step(b, q, e1, v1, false, v2);
}

/// The power `(q - 1) / 53` of 3 modulo `q`, for `q` = 0x124753.
proof fn lemma_power_124753_over_53()
    ensures
        powmod(3nat, 22602nat, 0x124753nat) == 596032nat,
{
    lemma_power_124753_shared_1();
    lemma_power_124753_over_53_part_1();
    lemma_powmod_mul(3nat, 3767nat, 6nat, 0x124753nat);
}

/// Part 1 of the chain of `lemma_power_124753_shared_2`.
proof fn lemma_power_124753_shared_2_part_1()
    ensures
        powmod(389901nat, 53nat, 0x124753nat) == 71796nat,
{
    let q: nat = 0x124753nat;
    let b: nat = 389901nat;
    lemma_powmod_basics(b, q);
    let e0: nat = 1nat;
    let v0: nat = 389901nat;
    let v1: nat = 461138nat;
    let e1: nat = step(b, q, e0, v0, true, v1);
    let v2: nat = 596032nat;
    let e2: nat = step(b, q, e1, v1, false, v2);
    let v3: nat = 294331nat;
    let e3: nat = step(b, q, e2, v2, true, v3);
    let v4: nat = 499135nat;
    let e4: nat = step(b, q, e3, v3, false, v4);
    let v5: nat = 71796nat;
    let e5: nat = step(b, q, e4, v4, true, v5);
}

/// A power of 3 modulo 0x124753 that the powers `(q - 1) / r` share for `r` =
/// 2 and 3.
proof fn lemma_power_124753_shared_2()
    ensures
        powmod(3nat, 199651nat, 0x124753nat) == 71796nat,
{
    lemma_power_124753_shared_1();
    lemma_power_124753_shared_2_part_1();
    lemma_powmod_mul(3nat, 3767nat, 53nat, 0x124753nat);
}

/// Part 1 of the chain of `lemma_power_124753_over_2`.
proof fn lemma_power_124753_over_2_part_1()
    ensures
        powmod(71796nat, 3nat, 0x124753nat) == 0x124752nat,
{
    let q: nat = 0x124753nat;
    let b: nat = 71796nat;
    lemma_powmod_basics(b, q);
    let e0: nat = 1nat;
    let v0: nat = 71796nat;
    let v1: nat = 0x124752nat;
    let e1: nat = step(b, q, e0, v0, true, v1);
}

/// The power `(q - 1) / 2` of 3 modulo `q`, for `q` = 0x124753.
proof fn lemma_power_124753_over_2()
    ensures
        powmod(3nat, 598953nat, 0x124753nat) == 0x124752nat,
{
    lemma_power_124753_shared_2();
    lemma_power_124753_over_2_part_1();
    lemma_powmod_mul(3nat, 199651nat, 3nat, 0x124753nat);
}

/// Part 1 of the chain of `lemma_power_124753_over_3`.
proof fn lemma_power_124753_over_3_part_1()
    ensures
        powmod(71796nat, 2nat, 0x124753nat) == 71795nat,
{
    let q: nat = 0x124753nat;
    let b: nat = 71796nat;
    lemma_powmod_basics(b, q);
    let e0: nat = 1nat;
    let v0: nat = 71796nat;
    let v1: nat = 71795nat;
    let e1: nat = step(b, q, e0, v0, false, v1);
}

/// The power `(q - 1) / 3` of 3 modulo `q`, for `q` = 0x124753.
proof fn lemma_power_124753_over_3()
    ensures
        powmod(3nat, 399302nat, 0x124753nat) == 71795nat,
{
    lemma_power_124753_shared_2();
    lemma_power_124753_over_3_part_1();
    lemma_powmod_mul(3nat, 199651nat, 2nat, 0x124753nat);
}

/// Part 1 of the chain of `lemma_power_124753_top`.
proof fn lemma_power_124753_top_part_1()
    ensures
        powmod(0x124752nat, 2nat, 0x124753nat) == 1nat,
{
    let q: nat = 0x124753nat;
    let b: nat = 0x124752nat;
    lemma_powmod_basics(b, q);
    let e0: nat = 1nat;
    let v0: nat = 0x124752nat;
    let v1: nat = 1nat;
    let e1: nat = step(b, q, e0, v0, false, v1);
}

/// The power `q - 1` of 3 modulo `q` is 1, for `q` = 0x124753.
proof fn lemma_power_124753_top()
    ensures
        powmod(3nat, 0x124752nat, 0x124753nat) == 1nat,
{
    lemma_power_124753_over_2();
    lemma_power_124753_top_part_1();
    lemma_powmod_mul(3nat, 598953nat, 2nat, 0x124753nat);
}

/// 0x124753 is prime: the powers of 3 pass the test of Lucas.
pub proof fn lemma_prime_124753()
    ensures
        is_prime(0x124753nat),
{
    let q: nat = 0x124753nat;
    let g: nat = 3nat;
    let factors: Seq<nat> = seq![2nat, 3nat, 53nat, 3767nat];
    lemma_prime_2();
    lemma_prime_3();
    lemma_prime_53();
    lemma_prime_3767();
    // No other prime divides `q - 1`.
    lemma_split(0x124752nat, 2nat, 598953nat);
    lemma_split(598953nat, 3nat, 199651nat);
    lemma_split(199651nat, 53nat, 3767nat);
    lemma_split(3767nat, 3767nat, 1nat);
    lemma_no_prime_divides_one();
    assert(factors[0] == 2nat);
    assert(factors[1] == 3nat);
    assert(factors[2] == 53nat);
    assert(factors[3] == 3767nat);
    assert(only_prime_factors((q - 1) as nat, factors));
    // The powers.
    lemma_power_124753_top();
    lemma_power_124753_over_2();
    lemma_power_124753_over_3();
    lemma_power_124753_over_53();
    lemma_power_124753_over_3767();
    assert forall|i: int| 0 <= i < factors.len() implies factors[i] > 0 && (q - 1) % (
        factors[i] as int
    ) == 0 && powmod(g, ((q - 1) / (#[trigger] factors[i] as int)) as nat, q) != 1 by {
        if i == 0 {
            assert((q - 1) / (2nat as int) == 598953nat);
        } else if i == 1 {
            assert((q - 1) / (3nat as int) == 399302nat);
        } else if i == 2 {
            assert((q - 1) / (53nat as int) == 22602nat);
        } else if i == 3 {
            assert((q - 1) / (3767nat as int) == 318nat);
        }
    }
    lemma_lucas(q, g, factors);
}

/// Part 1 of the chain of `lemma_power_19267_shared_1`.
proof fn lemma_power_19267_shared_1_part_1()
    ensures
        powmod(3nat, 114nat, 19267nat) == 14620nat,
{
    let q: nat = 19267nat;
    let b: nat = 3nat;
    lemma_powmod_basics(b, q);
    let e0: nat = 1nat;
    let v0: nat = 3nat;
    let v1: nat = 27nat;
    let e1: nat = step(b, q, e0, v0, true, v1);
    let v2: nat = 2187nat;
    let e2: nat = step(b, q, e1, v1, true, v2);
    let v3: nat = 4753nat;
    let e3: nat = step(b, q, e2, v2, false, v3);
    let v4: nat = 10085nat;
    let e4: nat = step(b, q, e3, v3, false, v4);
    let v5: nat = 9463nat;
    let e5: nat = step(b, q, e4, v4, true, v5);
    let v6: nat = 14620nat;
    let e6: nat = step(b, q, e5, v5, false, v6);
}

/// A power of 3 modulo 19267 that the powers `(q - 1) / r` share for `r` =
/// 13.
proof fn lemma_power_19267_shared_1()
    ensures
        powmod(3nat, 114nat, 19267nat) == 14620nat,
{
    lemma_power_19267_shared_1_part_1();
    lemma_powmod_basics(3nat, 19267nat);
    lemma_powmod_mul(3nat, 1, 114nat, 19267nat);
}

/// Part 1 of the chain of `lemma_power_19267_over_13`.
proof fn lemma_power_19267_over_13_part_1()
    ensures
        powmod(14620nat, 13nat, 19267nat) == 17399nat,
{
    let q: nat = 19267nat;
    let b: nat = 14620nat;
    lemma_powmod_basics(b, q);
    let e0: nat = 1nat;
    let v0: nat = 14620nat;
    let v1: nat = 17709nat;
    let e1: nat = step(b, q, e0, v0, true, v1);
    let v2: nat = 18989nat;
    let e2: nat = step(b, q, e1, v1, false, v2);
    let v3: nat = 17399nat;
    let e3: nat = step(b, q, e2, v2, true, v3);
}

/// The power `(q - 1) / 13` of 3 modulo `q`, for `q` = 19267.
proof fn lemma_power_19267_over_13()
    ensures
        powmod(3nat, 1482nat, 19267nat) == 17399nat,
{
    lemma_power_19267_shared_1();
    lemma_power_19267_over_13_part_1();
    lemma_powmod_mul(3nat, 114nat, 13nat, 19267nat);
}

/// Part 1 of the chain of `lemma_power_19267_shared_2`.
proof fn lemma_power_19267_shared_2_part_1()
    ensures
        powmod(3nat, 169nat, 19267nat) == 14178nat,
{
    let q: nat = 19267nat;
    let b: nat = 3nat;
    lemma_powmod_basics(b, q);
    let e0: nat = 1nat;
    let v0: nat = 3nat;
    let v1: nat = 9nat;
    let e1: nat = step(b, q, e0, v0, false, v1);
    let v2: nat = 243nat;
    let e2: nat = step(b, q, e1, v1, true, v2);
    let v3: nat = 1248nat;
    let e3: nat = step(b, q, e2, v2, false, v3);
    let v4: nat = 9898nat;
    let e4: nat = step(b, q, e3, v3, true, v4);
    let v5: nat = 16976nat;
    let e5: nat = step(b, q, e4, v4, false, v5);
    let v6: nat = 8057nat;
    let e6: nat = step(b, q, e5, v5, false, v6);
    let v7: nat = 14178nat;
    let e7: nat = step(b, q, e6, v6, true, v7);
}

/// A power of 3 modulo 19267 that the powers `(q - 1) / r` share for `r` = 2,
/// 3 and 19.
proof fn lemma_power_19267_shared_2()
    ensures
        powmod(3nat, 169nat, 19267nat) == 14178nat,
{
    lemma_power_19267_shared_2_part_1();
    lemma_powmod_basics(3nat, 19267nat);
    lemma_powmod_mul(3nat, 1, 169nat, 19267nat);
}

/// Part 1 of the chain of `lemma_power_19267_over_19`.
proof fn lemma_power_19267_over_19_part_1()
    ensures
        powmod(14178nat, 6nat, 19267nat) == 11161nat,
{
    let q: nat = 19267nat;
    let b: nat = 14178nat;
    lemma_powmod_basics(b, q);
    let e0: nat = 1nat;
    let v0: nat = 14178nat;
    let v1: nat = 6307nat;
    let e1: nat = step(b, q, e0, v0, true, v1);
    let v2: nat = 11161nat;
    let e2: nat = step(b, q, e1, v1, false, v2);
}

/// The power `(q - 1) / 19` of 3 modulo `q`, for `q` = 19267.
proof fn lemma_power_19267_over_19()
    ensures
        powmod(3nat, 1014nat, 19267nat) == 11161nat,
{
    lemma_power_19267_shared_2();
    lemma_power_19267_over_19_part_1();
    lemma_powmod_mul(3nat, 169nat, 6nat, 19267nat);
}

/// Part 1 of the chain of `lemma_power_19267_shared_3`.
proof fn lemma_power_19267_shared_3_part_1()
    ensures
        powmod(14178nat, 19nat, 19267nat) == 7150nat,
{
    let q: nat = 19267nat;
    let b: nat = 14178nat;
    lemma_powmod_basics(b, q);
    let e0: nat = 1nat;
    let v0: nat = 14178nat;
    let v1: nat = 3073nat;
    let e1: nat = step(b, q, e0, v0, false, v1);
    let v2: nat = 2499nat;
    let e2: nat = step(b, q, e1, v1, false, v2);
    let v3: nat = 10076nat;
    let e3: nat = step(b, q, e2, v2, true, v3);
    let v4: nat = 7150nat;
    let e4: nat = step(b, q, e3, v3, true, v4);
}

/// A power of 3 modulo 19267 that the powers `(q - 1) / r` share for `r` = 2
/// and 3.
proof fn lemma_power_19267_shared_3()
    ensures
        powmod(3nat, 3211nat, 19267nat) == 7150nat,
{
    lemma_power_19267_shared_2();
    lemma_power_19267_shared_3_part_1();
    lemma_powmod_mul(3nat, 169nat, 19nat, 19267nat);
}

/// Part 1 of the chain of `lemma_power_19267_over_2`.
proof fn lemma_power_19267_over_2_part_1()
    ensures
        powmod(7150nat, 3nat, 19267nat) == 19266nat,
{
    let q: nat = 19267nat;
    let b: nat = 7150nat;
    lemma_powmod_basics(b, q);
    let e0: nat = 1nat;
    let v0: nat = 7150nat;
    let v1: nat = 19266nat;
    let e1: nat = step(b, q, e0, v0, true, v1);
}

/// The power `(q - 1) / 2` of 3 modulo `q`, for `q` = 19267.
proof fn lemma_power_19267_over_2()
    ensures
        powmod(3nat, 9633nat, 19267nat) == 19266nat,
{
    lemma_power_19267_shared_3();
    lemma_power_19267_over_2_part_1();
    lemma_powmod_mul(3nat, 3211nat, 3nat, 19267nat);
}

/// Part 1 of the chain of `lemma_power_19267_over_3`.
proof fn lemma_power_19267_over_3_part_1()
    ensures
        powmod(7150nat, 2nat, 19267nat) == 7149nat,
{
    let q: nat = 19267nat;
    let b: nat = 7150nat;
    lemma_powmod_basics(b, q);
    let e0: nat = 1nat;
    let v0: nat = 7150nat;
    let v1: nat = 7149nat;
    let e1: nat = step(b, q, e0, v0, false, v1);
}

/// The power `(q - 1) / 3` of 3 modulo `q`, for `q` = 19267.
proof fn lemma_power_19267_over_3()
    ensures
        powmod(3nat, 6422nat, 19267nat) == 7149nat,
{
    lemma_power_19267_shared_3();
    lemma_power_19267_over_3_part_1();
    lemma_powmod_mul(3nat, 3211nat, 2nat, 19267nat);
}

/// Part 1 of the chain of `lemma_power_19267_top`.
proof fn lemma_power_19267_top_part_1()
    ensures
        powmod(19266nat, 2nat, 19267nat) == 1nat,
{
    let q: nat = 19267nat;
    let b: nat = 19266nat;
    lemma_powmod_basics(b, q);
    let e0: nat = 1nat;
    let v0: nat = 19266nat;
    let v1: nat = 1nat;
    let e1: nat = step(b, q, e0, v0, false, v1);
}

/// The power `q - 1` of 3 modulo `q` is 1, for `q` = 19267.
proof fn lemma_power_19267_top()
    ensures
        powmod(3nat, 19266nat, 19267nat) == 1nat,
{
    lemma_power_19267_over_2();
    lemma_power_19267_top_part_1();
    lemma_powmod_mul(3nat, 9633nat, 2nat, 19267nat);
}

/// 19267 is prime: the powers of 3 pass the test of Lucas.
pub proof fn lemma_prime_19267()
    ensures
        is_prime(19267nat),
{
    let q: nat = 19267nat;
    let g: nat = 3nat;
    let factors: Seq<nat> = seq![2nat, 3nat, 13nat, 19nat];
    lemma_prime_2();
    lemma_prime_3();
    lemma_prime_13();
    lemma_prime_19();
    // No other prime divides `q - 1`.
    lemma_split(19266nat, 2nat, 9633nat);
    lemma_split(9633nat, 3nat, 3211nat);
    lemma_split(3211nat, 13nat, 247nat);
    lemma_split(247nat, 13nat, 19nat);
    lemma_split(19nat, 19nat, 1nat);
    lemma_no_prime_divides_one();
    assert(factors[0] == 2nat);
    assert(factors[1] == 3nat);
    assert(factors[2] == 13nat);
    assert(factors[3] == 19nat);
    assert(only_prime_factors((q - 1) as nat, factors));
    // The powers.
    lemma_power_19267_top();
    lemma_power_19267_over_2();
    lemma_power_19267_over_3();
    lemma_power_19267_over_13();
    lemma_power_19267_over_19();
    assert forall|i: int| 0 <= i < factors.len() implies factors[i] > 0 && (q - 1) % (
        factors[i] as int
    ) == 0 && powmod(g, ((q - 1) / (#[trigger] factors[i] as int)) as nat, q) != 1 by {
        if i == 0 {
            assert((q - 1) / (2nat as int) == 9633nat);
        } else if i == 1 {
            assert((q - 1) / (3nat as int) == 6422nat);
        } else if i == 2 {
            assert((q - 1) / (13nat as int) == 1482nat);
        } else if i == 3 {
            assert((q - 1) / (19nat as int) == 1014nat);
        }
    }
    lemma_lucas(q, g, factors);
}

/// Part 1 of the chain of `lemma_power_115603_over_19267`.
proof fn lemma_power_115603_over_19267_part_1()
    ensures
        powmod(2nat, 6nat, 115603nat) == 64nat,
{
    let q: nat = 115603nat;
    let b: nat = 2nat;
    lemma_powmod_basics(b, q);
    let e0: nat = 1nat;
    let v0: nat = 2nat;
    let v1: nat = 8nat;
    let e1: nat = step(b, q, e0, v0, true, v1);
    let v2: nat = 64nat;
    let e2: nat = step(b, q, e1, v1, false, v2);
}

/// The power `(q - 1) / 19267` of 2 modulo `q`, for `q` = 115603.
proof fn lemma_power_115603_over_19267()
    ensures
        powmod(2nat, 6nat, 115603nat) == 64nat,
{
    lemma_power_115603_over_19267_part_1();
    lemma_powmod_basics(2nat, 115603nat);
    lemma_powmod_mul(2nat, 1, 6nat, 115603nat);
}

/// Part 1 of the chain of `lemma_power_115603_shared_1`.
proof fn lemma_power_115603_shared_1_part_1()
    ensures
        powmod(2nat, 19267nat, 115603nat) == 57632nat,
{
    let q: nat = 115603nat;
    let b: nat = 2nat;
    lemma_powmod_basics(b, q);
    let e0: nat = 1nat;
    let v0: nat = 2nat;
    let v1: nat = 4nat;
    let e1: nat = step(b, q, e0, v0, false, v1);
    let v2: nat = 16nat;
    let e2: nat = step(b, q, e1, v1, false, v2);
    let v3: nat = 512nat;
    let e3: nat = step(b, q, e2, v2, true, v3);
    let v4: nat = 30938nat;
    let e4: nat = step(b, q, e3, v3, false, v4);
    let v5: nat = 49611nat;
    let e5: nat = step(b, q, e4, v4, true, v5);
    let v6: nat = 11299nat;
    let e6: nat = step(b, q, e5, v5, true, v6);
    let v7: nat = 41689nat;
    let e7: nat = step(b, q, e6, v6, false, v7);
    let v8: nat = 110041nat;
    let e8: nat = step(b, q, e7, v7, true, v8);
    let v9: nat = 69843nat;
    let e9: nat = step(b, q, e8, v8, false, v9);
    let v10: nat = 60461nat;
    let e10: nat = step(b, q, e9, v9, false, v10);
    let v11: nat = 50058nat;
    let e11: nat = step(b, q, e10, v10, false, v11);
    let v12: nat = 108339nat;
    let e12: nat = step(b, q, e11, v11, false, v12);
    let v13: nat = 101456nat;
    let e13: nat = step(b, q, e12, v12, true, v13);
    let v14: nat = 57632nat;
    let e14: nat = step(b, q, e13, v13, true, v14);
}

/// A power of 2 modulo 115603 that the powers `(q - 1) / r` share for `r` = 2
/// and 3.
proof fn lemma_power_115603_shared_1()
    ensures
        powmod(2nat, 19267nat, 115603nat) == 57632nat,
{
    lemma_power_115603_shared_1_part_1();
    lemma_powmod_basics(2nat, 115603nat);
    lemma_powmod_mul(2nat, 1, 19267nat, 115603nat);
}

/// Part 1 of the chain of `lemma_power_115603_over_2`.
proof fn lemma_power_115603_over_2_part_1()
    ensures
        powmod(57632nat, 3nat, 115603nat) == 115602nat,
{
    let q: nat = 115603nat;
    let b: nat = 57632nat;
    lemma_powmod_basics(b, q);
    let e0: nat = 1nat;
    let v0: nat = 57632nat;
    let v1: nat = 115602nat;
    let e1: nat = step(b, q, e0, v0, true, v1);
}

/// The power `(q - 1) / 2` of 2 modulo `q`, for `q` = 115603.
proof fn lemma_power_115603_over_2()
    ensures
        powmod(2nat, 57801nat, 115603nat) == 115602nat,
{
    lemma_power_115603_shared_1();
    lemma_power_115603_over_2_part_1();
    lemma_powmod_mul(2nat, 19267nat, 3nat, 115603nat);
}

/// Part 1 of the chain of `lemma_power_115603_over_3`.
proof fn lemma_power_115603_over_3_part_1()
    ensures
        powmod(57632nat, 2nat, 115603nat) == 57631nat,
{
    let q: nat = 115603nat;
    let b: nat = 57632nat;
    lemma_powmod_basics(b, q);
    let e0: nat = 1nat;
    let v0: nat = 57632nat;
    let v1: nat = 57631nat;
    let e1: nat = step(b, q, e0, v0, false, v1);
}

/// The power `(q - 1) / 3` of 2 modulo `q`, for `q` = 115603.
proof fn lemma_power_115603_over_3()
    ensures
        powmod(2nat, 38534nat, 115603nat) == 57631nat,
{
    lemma_power_115603_shared_1();
    lemma_power_115603_over_3_part_1();
    lemma_powmod_mul(2nat, 19267nat, 2nat, 115603nat);
}

/// Part 1 of the chain of `lemma_power_115603_top`.
proof fn lemma_power_115603_top_part_1()
    ensures
        powmod(115602nat, 2nat, 115603nat) == 1nat,
{
    let q: nat = 115603nat;
    let b: nat = 115602nat;
    lemma_powmod_basics(b, q);
    let e0: nat = 1nat;
    let v0: nat = 115602nat;
    let v1: nat = 1nat;
    let e1: nat = step(b, q, e0, v0, false, v1);
}

/// The power `q - 1` of 2 modulo `q` is 1, for `q` = 115603.
proof fn lemma_power_115603_top()
    ensures
        powmod(2nat, 115602nat, 115603nat) == 1nat,
{
    lemma_power_115603_over_2();
    lemma_power_115603_top_part_1();
    lemma_powmod_mul(2nat, 57801nat, 2nat, 115603nat);
}

/// 115603 is prime: the powers of 2 pass the test of Lucas.
pub proof fn lemma_prime_115603()
    ensures
        is_prime(115603nat),
{
    let q: nat = 115603nat;
    let g: nat = 2nat;
    let factors: Seq<nat> = seq![2nat, 3nat, 19267nat];
    lemma_prime_2();
    lemma_prime_3();
    lemma_prime_19267();
    // No other prime divides `q - 1`.
    lemma_split(115602nat, 2nat, 57801nat);
    lemma_split(57801nat, 3nat, 19267nat);
    lemma_split(19267nat, 19267nat, 1nat);
    lemma_no_prime_divides_one();
    assert(factors[0] == 2nat);
    assert(factors[1] == 3nat);
    assert(factors[2] == 19267nat);
    assert(only_prime_factors((q - 1) as nat, factors));
    // The powers.
    lemma_power_115603_top();
    lemma_power_115603_over_2();
    lemma_power_115603_over_3();
    lemma_power_115603_over_19267();
    assert forall|i: int| 0 <= i < factors.len() implies factors[i] > 0 && (q - 1) % (
        factors[i] as int
    ) == 0 && powmod(g, ((q - 1) / (#[trigger] factors[i] as int)) as nat, q) != 1 by {
        if i == 0 {
            assert((q - 1) / (2nat as int) == 57801nat);
        } else if i == 1 {
            assert((q - 1) / (3nat as int) == 38534nat);
        } else if i == 2 {
            assert((q - 1) / (19267nat as int) == 6nat);
        }
    }
    lemma_lucas(q, g, factors);
}

/// Part 1 of the chain of `lemma_power_674e41aa25559f3f6806ca7324f298d5465d_shared_1`.
proof fn lemma_power_674e41aa25559f3f6806ca7324f298d5465d_shared_1_part_1()
    ensures
        powmod(
            2nat,
            0x140863693638d1606nat,
            0x674e41aa25559f3f6806ca7324f298d5465dnat,
        ) == 0x29808e9078651c0e61d99a97a5f01dd4780enat,
{
    let q: nat = 0x674e41aa25559f3f6806ca7324f298d5465dnat;
    let b: nat = 2nat;
    lemma_powmod_basics(b, q);
    let e0: nat = 1nat;
    let v0: nat = 2nat;
    let v1: nat = 4nat;
    let e1: nat = step(b, q, e0, v0, false, v1);
    let v2: nat = 32nat;
    let e2: nat = step(b, q, e1, v1, true, v2);
    let v3: nat = 1024nat;
    let e3: nat = step(b, q, e2, v2, false, v3);
    let v4: nat = 0x100000nat;
    let e4: nat = step(b, q, e3, v3, false, v4);
    let v5: nat = 0x10000000000nat;
    let e5: nat = step(b, q, e4, v4, false, v5);
    let v6: nat = 0x100000000000000000000nat;
    let e6: nat = step(b, q, e5, v5, false, v6);
    let v7: nat = 0x3e1d3abd838062d9f3fe8bf7e7aeb5437809nat;
    let e7: nat = step(b, q, e6, v6, false, v7);
    let v8: nat = 0x49297c10ede1cdf65d6566f9df7c55c51cb6nat;
    let e8: nat = step(b, q, e7, v7, false, v8);
    let v9: nat = 0x3db144793372dde7b7ffa76e11e64079a752nat;
    let e9: nat = step(b, q, e8, v8, true, v9);
    let v10: nat = 0x1f078077cd5cbabac2762a3b5a6b845fddc4nat;
    let e10: nat = step(b, q, e9, v9, false, v10);
    let v11: nat = 0x64d8e224271bb49392679e8197bf571af066nat;
    let e11: nat = step(b, q, e10, v10, false, v11);
    let v12: nat = 0x78e9b30d0a21698cbcd0daaa82cbde74d27nat;
    let e12: nat = step(b, q, e11, v11, false, v12);
    let v13: nat = 0x3e135a497f8cea1372fa484be2cb1e053ce5nat;
    let e13: nat = step(b, q, e12, v12, false, v13);
    let v14: nat = 0x4483082c7beedf92c14e505685485c4ff3b3nat;
    let e14: nat = step(b, q, e13, v13, true, v14);
    let v15: nat = 0x225e70c98c4bae00ba4b24418e4cd66122fcnat;
    let e15: nat = step(b, q, e14, v14, true, v15);
    let v16: nat = 0x1364ed337e34ade302ba59253301ca4a1f2cnat;
    let e16: nat = step(b, q, e15, v15, false, v16);
    let v17: nat = 0x4fecdb22768963cb5d023084994cd112f0a5nat;
    let e17: nat = step(b, q, e16, v16, false, v17);
    let v18: nat = 0x4581d9ea19cd0927676e84020a8e70e06fc3nat;
    let e18: nat = step(b, q, e17, v17, false, v18);
    let v19: nat = 0x65acc72017ca61869c48c1678607b6d893aanat;
    let e19: nat = step(b, q, e18, v18, true, v19);
    let v20: nat = 0x545ca9c308c1aae59a4cac2635227c4d0f38nat;
    let e20: nat = step(b, q, e19, v19, true, v20);
    let v21: nat = 0x116f5ec2f69f753f60cd108ace2202820496nat;
    let e21: nat = step(b, q, e20, v20, false, v21);
    let v22: nat = 0x43e5a87ad97a30e15e21a0dad72e9b5486fenat;
    let e22: nat = step(b, q, e21, v21, true, v22);
    let v23: nat = 0x2bebfe54e5ec19e320050d24f6ea2562dd36nat;
    let e23: nat = step(b, q, e22, v22, true, v23);
    let v24: nat = 0x2c0565f61588d3eccfde0bd3248cae0d6866nat;
    let e24: nat = step(b, q, e23, v23, false, v24);
    let v25: nat = 0x30028723840c05c7bb33d5d3ae033019fcd1nat;
    let e25: nat = step(b, q, e24, v24, true, v25);
    let v26: nat = 0x1f0b216fb470f10adb13ddd3d9bb9fe8496anat;
    let e26: nat = step(b, q, e25, v25, false, v26);
    let v27: nat = 0x443b8b26e0ae4e709fa9d3266ae84e7bef69nat;
    let e27: nat = step(b, q, e26, v26, false, v27);
    let v28: nat = 0x61c54e7d13afa8f532fc6a9fc03298f7ccaanat;
    let e28: nat = step(b, q, e27, v27, true, v28);
    let v29: nat = 0x1a146a8981b18cec8b74db7bfbfbe8b8130anat;
    let e29: nat = step(b, q, e28, v28, false, v29);
    let v30: nat = 0x3037547befbaab5073c564b86c92658b7759nat;
    let e30: nat = step(b, q, e29, v29, false, v30);
    let v31: nat = 0x11d143a6781c0aa9c259206965e9c07fb2d6nat;
    let e31: nat = step(b, q, e30, v30, true, v31);
    let v32: nat = 0x3dfb80c8da77fb0a0dc2334ea83ab3770a8enat;
    let e32: nat = step(b, q, e31, v31, true, v32);
    let v33: nat = 0x43162938b04d5ef6c26a43153f00c9b368c0nat;
    let e33: nat = step(b, q, e32, v32, false, v33);
    let v34: nat = 0x37c4ab1dd74ee2e399a220ff11645e29f29bnat;
    let e34: nat = step(b, q, e33, v33, true, v34);
    let v35: nat = 0x1d3148b1eadf04e758f39f05fe20bf49a447nat;
    let e35: nat = step(b, q, e34, v34, true, v35);
    let v36: nat = 0x4b2db05c17d20771bb9e653b4cbaaf9a5799nat;
    let e36: nat = step(b, q, e35, v35, false, v36);
    let v37: nat = 0x1e3bc466616e4406b70e4caa0b47d340a6nat;
    let e37: nat = step(b, q, e36, v36, false, v37);
    let v38: nat = 0x4122e1f7ef3d7d5803fafd7e9d4c139d8a6dnat;
    let e38: nat = step(b, q, e37, v37, false, v38);
    let v39: nat = 0xc8d0a2479629d213615d54c1d996ad98eadnat;
    let e39: nat = step(b, q, e38, v38, true, v39);
    let v40: nat = 0x2eaf649b983ff64b5d0a469c719a8f50bb3anat;
    let e40: nat = step(b, q, e39, v39, true, v40);
    let v41: nat = 0x2562e3edae39676467ae47059260c38f13dnat;
    let e41: nat = step(b, q, e40, v40, true, v41);
    let v42: nat = 0x4fbaa9c3dcab81d13c0b4ee3ea0028a3504enat;
    let e42: nat = step(b, q, e41, v41, false, v42);
    let v43: nat = 0x26c19460e18be561c66d63c44d4a40332fdanat;
    let e43: nat = step(b, q, e42, v42, false, v43);
    let v44: nat = 0x482a41369602a7b941ed509538e8cd09ba23nat;
    let e44: nat = step(b, q, e43, v43, false, v44);
    let v45: nat = 0x196312c7b1dd1cf55b8c9a6718d83af9a768nat;
    let e45: nat = step(b, q, e44, v44, true, v45);
    let v46: nat = 0x5a7e89d6bfc62da110ed7e4f50ad8dd3ade9nat;
    let e46: nat = step(b, q, e45, v45, true, v46);
    let v47: nat = 0x428c7b74c6ac75efb3943330a7ee20db09eenat;
    let e47: nat = step(b, q, e46, v46, false, v47);
    let v48: nat = 0x3823477af32abd8b5b32b42fdc188305b93nat;
    let e48: nat = step(b, q, e47, v47, true, v48);
    let v49: nat = 0x1080d7a6af52b67511e70a6c9b6f8aa7c169nat;
    let e49: nat = step(b, q, e48, v48, false, v49);
    let v50: nat = 0x58e62a3d32f24fbeb727abcfa9a33622ef7cnat;
    let e50: nat = step(b, q, e49, v49, false, v50);
    let v51: nat = 0x60473b023a96436f213e8b592adb6ffb45d0nat;
    let e51: nat = step(b, q, e50, v50, false, v51);
    let v52: nat = 0x5cbccb8791bd23e2c421365d0e22e3a60be6nat;
    let e52: nat = step(b, q, e51, v51, true, v52);
    let v53: nat = 0x5df6cae9fc3ec872dc446e3200d514e5bac7nat;
    let e53: nat = step(b, q, e52, v52, false, v53);
    let v54: nat = 0x240d5fa28163a17b368686a79d8642c8cdf2nat;
    let e54: nat = step(b, q, e53, v53, true, v54);
    let v55: nat = 0x1c9a252dbb289bfa10f615d53259444d4a8cnat;
    let e55: nat = step(b, q, e54, v54, true, v55);
    let v56: nat = 0x94f21069d81f36816eef5be07a9c293f0e9nat;
    let e56: nat = step(b, q, e55, v55, false, v56);
    let v57: nat = 0xa2c5edae86bcedd1336e2fa07d6bef3afaenat;
    let e57: nat = step(b, q, e56, v56, false, v57);
    let v58: nat = 0x1bdf7b4eb01773e0cbf12c6557fd09f9e0cenat;
    let e58: nat = step(b, q, e57, v57, false, v58);
    let v59: nat = 0x55d99f877eb46dfe9ca00cdad8f68f945b81nat;
    let e59: nat = step(b, q, e58, v58, false, v59);
    let v60: nat = 0x29054a3f1370d258fd7b1d862a17071967aanat;
    let e60: nat = step(b, q, e59, v59, false, v60);
    let v61: nat = 0x6612bee8769da8bb4da127cee1c1ea4c1631nat;
    let e61: nat = step(b, q, e60, v60, false, v61);
    let v62: nat = 0x5e2ef4b61097bff4a8abe1520764c0d6dbd9nat;
    let e62: nat = step(b, q, e61, v61, true, v62);
    let v63: nat = 0x990d2ea18d806446d027013b456c7f2f9dnat;
    let e63: nat = step(b, q, e62, v62, true, v63);
    let v64: nat = 0x29808e9078651c0e61d99a97a5f01dd4780enat;
    let e64: nat = step(b, q, e63, v63, false, v64);
}

/// Part 2 of the chain of `lemma_power_674e41aa25559f3f6806ca7324f298d5465d_shared_1`.
proof fn lemma_power_674e41aa25559f3f6806ca7324f298d5465d_shared_1_part_2()
    ensures
        powmod(
            2nat,
            0xa0431b49b1c68b031cnat,
            0x674e41aa25559f3f6806ca7324f298d5465dnat,
        ) == 0x22bdb039c79d890202af0136bdd6e72730a0nat,
{
    let q: nat = 0x674e41aa25559f3f6806ca7324f298d5465dnat;
    let b: nat = 2nat;
    lemma_power_674e41aa25559f3f6806ca7324f298d5465d_shared_1_part_1();
    let e0: nat = 0x140863693638d1606nat;
    let v0: nat = 0x29808e9078651c0e61d99a97a5f01dd4780enat;
    let v1: nat = 0xd87e5e927f8ecb7753b32c3d533ac352dffnat;
    let e1: nat = step(b, q, e0, v0, false, v1);
    let v2: nat = 0x37250c55754a846eca85681335052c479698nat;
    let e2: nat = step(b, q, e1, v1, false, v2);
    let v3: nat = 0x441a48f0610b575d9c26eadf2b8aac0633bbnat;
    let e3: nat = step(b, q, e2, v2, true, v3);
    let v4: nat = 0x65f4f1be4ca99e01081559b373c05e9d7f54nat;
    let e4: nat = step(b, q, e3, v3, true, v4);
    let v5: nat = 0x36d98d074ec7cf80bff5d1c38687cca2becdnat;
    let e5: nat = step(b, q, e4, v4, true, v5);
    let v6: nat = 0x11cfac12f8c57e765a5ad7780358d17d7665nat;
    let e6: nat = step(b, q, e5, v5, false, v6);
    let v7: nat = 0x22bdb039c79d890202af0136bdd6e72730a0nat;
    let e7: nat = step(b, q, e6, v6, false, v7);
}

/// A power of 2 modulo 0x674e41aa25559f3f6806ca7324f298d5465d that the powers
/// `(q - 1) / r` share for `r` = 3, 115603 and 0x127aa16eeaabb.
proof fn lemma_power_674e41aa25559f3f6806ca7324f298d5465d_shared_1()
    ensures
        powmod(
            2nat,
            0xa0431b49b1c68b031cnat,
            0x674e41aa25559f3f6806ca7324f298d5465dnat,
        ) == 0x22bdb039c79d890202af0136bdd6e72730a0nat,
{
    lemma_power_674e41aa25559f3f6806ca7324f298d5465d_shared_1_part_2();
    lemma_powmod_basics(2nat, 0x674e41aa25559f3f6806ca7324f298d5465dnat);
    lemma_powmod_mul(2nat, 1, 0xa0431b49b1c68b031cnat, 0x674e41aa25559f3f6806ca7324f298d5465dnat);
}

/// Part 1 of the chain of `lemma_power_674e41aa25559f3f6806ca7324f298d5465d_over_127aa16eeaabb`.
proof fn lemma_power_674e41aa25559f3f6806ca7324f298d5465d_over_127aa16eeaabb_part_1()
    ensures
        powmod(
            0x22bdb039c79d890202af0136bdd6e72730a0nat,
            0x8ee183nat,
            0x674e41aa25559f3f6806ca7324f298d5465dnat,
        ) == 0x1615a4fc9dd1d5260b3068d98852c86a2c65nat,
{
    let q: nat = 0x674e41aa25559f3f6806ca7324f298d5465dnat;
    let b: nat = 0x22bdb039c79d890202af0136bdd6e72730a0nat;
    lemma_powmod_basics(b, q);
    let e0: nat = 1nat;
    let v0: nat = 0x22bdb039c79d890202af0136bdd6e72730a0nat;
    let v1: nat = 0x63f6ad4c0f431130042d6d4315f24dd3dd8enat;
    let e1: nat = step(b, q, e0, v0, false, v1);
    let v2: nat = 0x59afe4ff699f03900d20d965bfcc4be3cdcanat;
    let e2: nat = step(b, q, e1, v1, false, v2);
    let v3: nat = 0x38138ddf93e170124030c900c62b575e9f0fnat;
    let e3: nat = step(b, q, e2, v2, false, v3);
    let v4: nat = 0x34549989a145130ca2a3f953b11b6c92e7d0nat;
    let e4: nat = step(b, q, e3, v3, true, v4);
    let v5: nat = 0x40e0cadd24a69116b05125340daec2459e63nat;
    let e5: nat = step(b, q, e4, v4, true, v5);
    let v6: nat = 0x61cb045c447567711ca490093a4ecd6882e7nat;
    let e6: nat = step(b, q, e5, v5, true, v6);
    let v7: nat = 0xfa6fc390eed8741017c7d2c5682ba22e855nat;
    let e7: nat = step(b, q, e6, v6, false, v7);
    let v8: nat = 0x29d8c07027c9ab2bb896ea64c301016ecfb4nat;
    let e8: nat = step(b, q, e7, v7, true, v8);
    let v9: nat = 0x1b6edfcccaacfdce124aa03ab84d295c1ec9nat;
    let e9: nat = step(b, q, e8, v8, true, v9);
    let v10: nat = 0x1244b059f3f5fc585ad0f4f95b807dc408denat;
    let e10: nat = step(b, q, e9, v9, true, v10);
    let v11: nat = 0x2ecad575efb2fb7122c5006f3a66d341abc9nat;
    let e11: nat = step(b, q, e10, v10, false, v11);
    let v12: nat = 0x521285b4f04474f51390d40a2a5d4f296bdnat;
    let e12: nat = step(b, q, e11, v11, false, v12);
    let v13: nat = 0x57f4515e4e5e2b05bede63e93e6b9c7a25anat;
    let e13: nat = step(b, q, e12, v12, false, v13);
    let v14: nat = 0x444d2476162dbb4c717c74a684b4866cf09nat;
    let e14: nat = step(b, q, e13, v13, false, v14);
    let v15: nat = 0x23bb2d429cb15199f023b11cb4905848f530nat;
    let e15: nat = step(b, q, e14, v14, true, v15);
    let v16: nat = 0x388b1084cd1b0ec3644e6656bfdbf70d0d60nat;
    let e16: nat = step(b, q, e15, v15, true, v16);
    let v17: nat = 0x48875e8e9f9a5c6c51e4cc696997e74f9f5dnat;
    let e17: nat = step(b, q, e16, v16, false, v17);
    let v18: nat = 0x26612474864e2ec971c1d7c5d0ac2bd81fecnat;
    let e18: nat = step(b, q, e17, v17, false, v18);
    let v19: nat = 0x28bc0a603e650a596f9608d0e77acb07c7c5nat;
    let e19: nat = step(b, q, e18, v18, false, v19);
    let v20: nat = 0x6594c8300d530f0eb2ccbd64601d438f8131nat;
    let e20: nat = step(b, q, e19, v19, false, v20);
    let v21: nat = 0x5a28aac9b618b331768a560df3e28a536d1enat;
    let e21: nat = step(b, q, e20, v20, false, v21);
    let v22: nat = 0x665fdefb2de29ea38a1ef3e5f67845ff1d3fnat;
    let e22: nat = step(b, q, e21, v21, true, v22);
    let v23: nat = 0x1615a4fc9dd1d5260b3068d98852c86a2c65nat;
    let e23: nat = step(b, q, e22, v22, true, v23);
}

/// The power `(q - 1) / 0x127aa16eeaabb` of 2 modulo `q`, for `q` =
/// 0x674e41aa25559f3f6806ca7324f298d5465d.
proof fn lemma_power_674e41aa25559f3f6806ca7324f298d5465d_over_127aa16eeaabb()
    ensures
        powmod(
            2nat,
            0x597266203358169480663354nat,
            0x674e41aa25559f3f6806ca7324f298d5465dnat,
        ) == 0x1615a4fc9dd1d5260b3068d98852c86a2c65nat,
{
    lemma_power_674e41aa25559f3f6806ca7324f298d5465d_shared_1();
    lemma_power_674e41aa25559f3f6806ca7324f298d5465d_over_127aa16eeaabb_part_1();
    lemma_powmod_mul(
        2nat,
        0xa0431b49b1c68b031cnat,
        0x8ee183nat,
        0x674e41aa25559f3f6806ca7324f298d5465dnat,
    );
}

/// Part 1 of the chain of `lemma_power_674e41aa25559f3f6806ca7324f298d5465d_shared_2`.
proof fn lemma_power_674e41aa25559f3f6806ca7324f298d5465d_shared_2_part_1()
    ensures
        powmod(
            0x22bdb039c79d890202af0136bdd6e72730a0nat,
            0x127aa16eeaabbnat,
            0x674e41aa25559f3f6806ca7324f298d5465dnat,
        ) == 0x1003bb774a661dddeff6fd1c51ff66d6c521nat,
{
    let q: nat = 0x674e41aa25559f3f6806ca7324f298d5465dnat;
    let b: nat = 0x22bdb039c79d890202af0136bdd6e72730a0nat;
    lemma_powmod_basics(b, q);
    let e0: nat = 1nat;
    let v0: nat = 0x22bdb039c79d890202af0136bdd6e72730a0nat;
    let v1: nat = 0x63f6ad4c0f431130042d6d4315f24dd3dd8enat;
    let e1: nat = step(b, q, e0, v0, false, v1);
    let v2: nat = 0x59afe4ff699f03900d20d965bfcc4be3cdcanat;
    let e2: nat = step(b, q, e1, v1, false, v2);
    let v3: nat = 0x53f9ef3d0092c54313bad8814a9949b9d5c4nat;
    let e3: nat = step(b, q, e2, v2, true, v3);
    let v4: nat = 0x547a9377c38fe85922348cb1cde53335ba85nat;
    let e4: nat = step(b, q, e3, v3, false, v4);
    let v5: nat = 0x706b53e15e9bed5f149d020cc264f8e0a7anat;
    let e5: nat = step(b, q, e4, v4, false, v5);
    let v6: nat = 0x2dddb7c4b3824311668a0d1f64f012723088nat;
    let e6: nat = step(b, q, e5, v5, true, v6);
    let v7: nat = 0x5e170d8f0a1f0708e7a675dc3459dd817568nat;
    let e7: nat = step(b, q, e6, v6, true, v7);
    let v8: nat = 0x432d7df43048affb6af1f28f3a9ed9566699nat;
    let e8: nat = step(b, q, e7, v7, true, v8);
    let v9: nat = 0x33b6fd0624e56a394df8bb666350fb44c86cnat;
    let e9: nat = step(b, q, e8, v8, true, v9);
    let v10: nat = 0x525f3d49323d80e46d8ecc93ff53164c391enat;
    let e10: nat = step(b, q, e9, v9, false, v10);
    let v11: nat = 0x2a1fad0565215a9ad6b32031489d406fd1e9nat;
    let e11: nat = step(b, q, e10, v10, true, v11);
    let v12: nat = 0x30d06e677109853f4ca0d0857194040f90bcnat;
    let e12: nat = step(b, q, e11, v11, false, v12);
    let v13: nat = 0x597c976d8822e02fa4ee9cf6e6661ba7bc71nat;
    let e13: nat = step(b, q, e12, v12, true, v13);
    let v14: nat = 0x23ace9a2b547c2443efef8ca8d7274dd1adcnat;
    let e14: nat = step(b, q, e13, v13, false, v14);
    let v15: nat = 0x31194dafb36a7d5b5bb300947a83cffac0c5nat;
    let e15: nat = step(b, q, e14, v14, true, v15);
    let v16: nat = 0x1089447bc9e0f48188f652741122c26c1175nat;
    let e16: nat = step(b, q, e15, v15, false, v16);
    let v17: nat = 0x10d2ede09649e8c930c13a5f0fc0d1051163nat;
    let e17: nat = step(b, q, e16, v16, false, v17);
    let v18: nat = 0x54de44e3f2d14b21429204f73dee076df2f1nat;
    let e18: nat = step(b, q, e17, v17, false, v18);
    let v19: nat = 0x13d36cdeee5137736c70355b98f9ac2c1994nat;
    let e19: nat = step(b, q, e18, v18, false, v19);
    let v20: nat = 0x7ae721ac216f197ce7a782d4bda8acbf6f4nat;
    let e20: nat = step(b, q, e19, v19, true, v20);
    let v21: nat = 0x158225c806ff6c775637106b155101156b60nat;
    let e21: nat = step(b, q, e20, v20, false, v21);
    let v22: nat = 0x613557aa8d465f8168f07d560dee6ba72b67nat;
    let e22: nat = step(b, q, e21, v21, true, v22);
    let v23: nat = 0x607396ffc34bf03a990fb386ab5e2cd6b5enat;
    let e23: nat = step(b, q, e22, v22, true, v23);
    let v24: nat = 0x39a7a3e7f64d837ff5db3360a5bc480afcafnat;
    let e24: nat = step(b, q, e23, v23, false, v24);
    let v25: nat = 0x52239148630e69d99888ff4db4c38d1ca1f6nat;
    let e25: nat = step(b, q, e24, v24, true, v25);
    let v26: nat = 0x670d90a1828f71548fd24633fb47df9f27cnat;
    let e26: nat = step(b, q, e25, v25, true, v26);
    let v27: nat = 0x3badab4e1c856aedcfcf4d3ce790c01514f4nat;
    let e27: nat = step(b, q, e26, v26, true, v27);
    let v28: nat = 0xa5f3a11007a73a5c8270b66d0286d10413enat;
    let e28: nat = step(b, q, e27, v27, false, v28);
    let v29: nat = 0x5a39e615c9b6cd6388a4e0438827612fc5abnat;
    let e29: nat = step(b, q, e28, v28, true, v29);
    let v30: nat = 0x3d8bc97a2467888bd5e82905f3cd9765591enat;
    let e30: nat = step(b, q, e29, v29, true, v30);
    let v31: nat = 0x29703a50975c87ff44187909af97497e4130nat;
    let e31: nat = step(b, q, e30, v30, true, v31);
    let v32: nat = 0x15dbe3b623eac90311bd1270c4b4125ae582nat;
    let e32: nat = step(b, q, e31, v31, false, v32);
    let v33: nat = 0x2eae0ef5cb8df503fdb1bc7b64c9e21df8fnat;
    let e33: nat = step(b, q, e32, v32, true, v33);
    let v34: nat = 0x62c4049f59f268d53948b168efdb186c2749nat;
    let e34: nat = step(b, q, e33, v33, false, v34);
    let v35: nat = 0x34bd6011bb20940db24e6f42847d359dff94nat;
    let e35: nat = step(b, q, e34, v34, true, v35);
    let v36: nat = 0x384992bbc35268be4cda0bef06ad7eef6cdcnat;
    let e36: nat = step(b, q, e35, v35, false, v36);
    let v37: nat = 0x43335ee3ccda7535e86793b80d39fd0ec220nat;
    let e37: nat = step(b, q, e36, v36, true, v37);
    let v38: nat = 0x60e10e816844f7dc947418cfa6a1410c1083nat;
    let e38: nat = step(b, q, e37, v37, false, v38);
    let v39: nat = 0x62a1b1b9289b702bf1916489fe45cf9afa7dnat;
    let e39: nat = step(b, q, e38, v38, true, v39);
    let v40: nat = 0x476bcd3ef0c939d123898f8f45f18f052a04nat;
    let e40: nat = step(b, q, e39, v39, false, v40);
    let v41: nat = 0x20910a488bfeee36c2e5d21c490b0b7d91e7nat;
    let e41: nat = step(b, q, e40, v40, true, v41);
    let v42: nat = 0x522a8c3a9efbf35a785e5c9bded75b0c3087nat;
    let e42: nat = step(b, q, e41, v41, false, v42);
    let v43: nat = 0x1543c565872954542dc3156f75fa87f80f1fnat;
    let e43: nat = step(b, q, e42, v42, true, v43);
    let v44: nat = 0x403e286c9bd5f08cb0ec28f3cb9b90c1d2banat;
    let e44: nat = step(b, q, e43, v43, true, v44);
    let v45: nat = 0x3be9e0f23da92dc8f27ff9838506ab5f3645nat;
    let e45: nat = step(b, q, e44, v44, true, v45);
    let v46: nat = 0x53154c686c177260e68ad745fc259ac78f78nat;
    let e46: nat = step(b, q, e45, v45, false, v46);
    let v47: nat = 0x527852c21f6eda9e046ef7a74d8f6cdbe0a5nat;
    let e47: nat = step(b, q, e46, v46, true, v47);
    let v48: nat = 0x1003bb774a661dddeff6fd1c51ff66d6c521nat;
    let e48: nat = step(b, q, e47, v47, true, v48);
}

/// A power of 2 modulo 0x674e41aa25559f3f6806ca7324f298d5465d that the powers
/// `(q - 1) / r` share for `r` = 3 and 115603.
proof fn lemma_power_674e41aa25559f3f6806ca7324f298d5465d_shared_2()
    ensures
        powmod(
            2nat,
            0xb917cf5d38692cf71abecda3a3dd74nat,
            0x674e41aa25559f3f6806ca7324f298d5465dnat,
        ) == 0x1003bb774a661dddeff6fd1c51ff66d6c521nat,
{
    lemma_power_674e41aa25559f3f6806ca7324f298d5465d_shared_1();
    lemma_power_674e41aa25559f3f6806ca7324f298d5465d_shared_2_part_1();
    lemma_powmod_mul(
        2nat,
        0xa0431b49b1c68b031cnat,
        0x127aa16eeaabbnat,
        0x674e41aa25559f3f6806ca7324f298d5465dnat,
    );
}

/// Part 1 of the chain of `lemma_power_674e41aa25559f3f6806ca7324f298d5465d_over_115603`.
proof fn lemma_power_674e41aa25559f3f6806ca7324f298d5465d_over_115603_part_1()
    ensures
        powmod(
            0x1003bb774a661dddeff6fd1c51ff66d6c521nat,
            81nat,
            0x674e41aa25559f3f6806ca7324f298d5465dnat,
        ) == 0x3dc6dc7344af628ba624410a8dcb8edda6dcnat,
{
    let q: nat = 0x674e41aa25559f3f6806ca7324f298d5465dnat;
    let b: nat = 0x1003bb774a661dddeff6fd1c51ff66d6c521nat;
    lemma_powmod_basics(b, q);
    let e0: nat = 1nat;
    let v0: nat = 0x1003bb774a661dddeff6fd1c51ff66d6c521nat;
    let v1: nat = 0x23d1818c964e4b5a876e85c36528892e6e65nat;
    let e1: nat = step(b, q, e0, v0, false, v1);
    let v2: nat = 0xd5cc22c9d85994b1046f6c68181563d1753nat;
    let e2: nat = step(b, q, e1, v1, true, v2);
    let v3: nat = 0x162c4429a590347ccfe377651ec6929be538nat;
    let e3: nat = step(b, q, e2, v2, false, v3);
    let v4: nat = 0x1896bc1afc1bf861684ca63c27010686df1dnat;
    let e4: nat = step(b, q, e3, v3, false, v4);
    let v5: nat = 0x5779513e0f84e960c72ceb9027cfc7c68f79nat;
    let e5: nat = step(b, q, e4, v4, false, v5);
    let v6: nat = 0x3dc6dc7344af628ba624410a8dcb8edda6dcnat;
    let e6: nat = step(b, q, e5, v5, true, v6);
}

/// The power `(q - 1) / 115603` of 2 modulo `q`, for `q` =
/// 0x674e41aa25559f3f6806ca7324f298d5465d.
proof fn lemma_power_674e41aa25559f3f6806ca7324f298d5465d_over_115603()
    ensures
        powmod(
            2nat,
            0x3a90889c7ed9473a2f765f10c6d911b4nat,
            0x674e41aa25559f3f6806ca7324f298d5465dnat,
        ) == 0x3dc6dc7344af628ba624410a8dcb8edda6dcnat,
{
    lemma_power_674e41aa25559f3f6806ca7324f298d5465d_shared_2();
    lemma_power_674e41aa25559f3f6806ca7324f298d5465d_over_115603_part_1();
    lemma_powmod_mul(
        2nat,
        0xb917cf5d38692cf71abecda3a3dd74nat,
        81nat,
        0x674e41aa25559f3f6806ca7324f298d5465dnat,
    );
}

/// Part 1 of the chain of `lemma_power_674e41aa25559f3f6806ca7324f298d5465d_shared_3`.
proof fn lemma_power_674e41aa25559f3f6806ca7324f298d5465d_shared_3_part_1()
    ensures
        powmod(
            0x1003bb774a661dddeff6fd1c51ff66d6c521nat,
            115603nat,
            0x674e41aa25559f3f6806ca7324f298d5465dnat,
        ) == 0x235acb6dccf1182ef72b8655b31209ad5055nat,
{
    let q: nat = 0x674e41aa25559f3f6806ca7324f298d5465dnat;
    let b: nat = 0x1003bb774a661dddeff6fd1c51ff66d6c521nat;
    lemma_powmod_basics(b, q);
    let e0: nat = 1nat;
    let v0: nat = 0x1003bb774a661dddeff6fd1c51ff66d6c521nat;
    let v1: nat = 0xb58c7932c33941959f4cb0d87faff055b65nat;
    let e1: nat = step(b, q, e0, v0, true, v1);
    let v2: nat = 0x35cd0f5a3b9d51dcf2a1c2567ab03642bb3cnat;
    let e2: nat = step(b, q, e1, v1, true, v2);
    let v3: nat = 0xf0ac8f577a34656a4a2d3ffd7eac92ed850nat;
    let e3: nat = step(b, q, e2, v2, false, v3);
    let v4: nat = 0x20f65dc81d5aceb8159c5b5c9160b88dcc4nat;
    let e4: nat = step(b, q, e3, v3, false, v4);
    let v5: nat = 0x4a1c3c9ac5b3e31f87942cadd5761c47bc88nat;
    let e5: nat = step(b, q, e4, v4, false, v5);
    let v6: nat = 0x30c420196ac35f3f4b5fb7de940540e6a62cnat;
    let e6: nat = step(b, q, e5, v5, false, v6);
    let v7: nat = 0x2ad701b8fcf166f766060ba284cc516d19eenat;
    let e7: nat = step(b, q, e6, v6, true, v7);
    let v8: nat = 0x3cef56fb7674b82321dcf9b34ba80baf7ab0nat;
    let e8: nat = step(b, q, e7, v7, true, v8);
    let v9: nat = 0x53f002a1d29e4045e6406b6b96ff20443f57nat;
    let e9: nat = step(b, q, e8, v8, true, v9);
    let v10: nat = 0x4918beaf3259ef9edf5c406c856b65772613nat;
    let e10: nat = step(b, q, e9, v9, false, v10);
    let v11: nat = 0x7befb59b3f9345176cbcf0beea3bd155f67nat;
    let e11: nat = step(b, q, e10, v10, false, v11);
    let v12: nat = 0x171614b4ccf15be8de66d3be78c80072a48fnat;
    let e12: nat = step(b, q, e11, v11, true, v12);
    let v13: nat = 0x17cd725445c06ba64feb507a854eb59917cdnat;
    let e13: nat = step(b, q, e12, v12, false, v13);
    let v14: nat = 0x2e16a062a9864d9a29fb6e27d1604112ee0fnat;
    let e14: nat = step(b, q, e13, v13, false, v14);
    let v15: nat = 0x9d02c0a66e2f93969861f89be917c03da50nat;
    let e15: nat = step(b, q, e14, v14, true, v15);
    let v16: nat = 0x235acb6dccf1182ef72b8655b31209ad5055nat;
    let e16: nat = step(b, q, e15, v15, true, v16);
}

/// A power of 2 modulo 0x674e41aa25559f3f6806ca7324f298d5465d that the powers
/// `(q - 1) / r` share for `r` = 3.
proof fn lemma_power_674e41aa25559f3f6806ca7324f298d5465d_shared_3()
    ensures
        powmod(
            2nat,
            0x1467f3afd4ce8ae9c26027fd75ea63b859cnat,
            0x674e41aa25559f3f6806ca7324f298d5465dnat,
        ) == 0x235acb6dccf1182ef72b8655b31209ad5055nat,
{
    lemma_power_674e41aa25559f3f6806ca7324f298d5465d_shared_2();
    lemma_power_674e41aa25559f3f6806ca7324f298d5465d_shared_3_part_1();
    lemma_powmod_mul(
        2nat,
        0xb917cf5d38692cf71abecda3a3dd74nat,
        115603nat,
        0x674e41aa25559f3f6806ca7324f298d5465dnat,
    );
}

/// Part 1 of the chain of `lemma_power_674e41aa25559f3f6806ca7324f298d5465d_over_3`.
proof fn lemma_power_674e41aa25559f3f6806ca7324f298d5465d_over_3_part_1()
    ensures
        powmod(
            0x235acb6dccf1182ef72b8655b31209ad5055nat,
            27nat,
            0x674e41aa25559f3f6806ca7324f298d5465dnat,
        ) == 0x4ad0b6cb50463cea267d81edbc10c5ce5798nat,
{
    let q: nat = 0x674e41aa25559f3f6806ca7324f298d5465dnat;
    let b: nat = 0x235acb6dccf1182ef72b8655b31209ad5055nat;
    lemma_powmod_basics(b, q);
    let e0: nat = 1nat;
    let v0: nat = 0x235acb6dccf1182ef72b8655b31209ad5055nat;
    let v1: nat = 0x5ba4e85ea37ccd248101b6ce6b8199332b51nat;
    let e1: nat = step(b, q, e0, v0, true, v1);
    let v2: nat = 0x5377d3180a98abfc9b7be35c71c8955c229anat;
    let e2: nat = step(b, q, e1, v1, false, v2);
    let v3: nat = 0x2826aa32210191ecf2df7bed5735a2da8c42nat;
    let e3: nat = step(b, q, e2, v2, true, v3);
    let v4: nat = 0x4ad0b6cb50463cea267d81edbc10c5ce5798nat;
    let e4: nat = step(b, q, e3, v3, true, v4);
}

/// The power `(q - 1) / 3` of 2 modulo `q`, for `q` =
/// 0x674e41aa25559f3f6806ca7324f298d5465d.
proof fn lemma_power_674e41aa25559f3f6806ca7324f298d5465d_over_3()
    ensures
        powmod(
            2nat,
            0x226f6b38b71c8a6a7802437bb6fb88471774nat,
            0x674e41aa25559f3f6806ca7324f298d5465dnat,
        ) == 0x4ad0b6cb50463cea267d81edbc10c5ce5798nat,
{
    lemma_power_674e41aa25559f3f6806ca7324f298d5465d_shared_3();
    lemma_power_674e41aa25559f3f6806ca7324f298d5465d_over_3_part_1();
    lemma_powmod_mul(
        2nat,
        0x1467f3afd4ce8ae9c26027fd75ea63b859cnat,
        27nat,
        0x674e41aa25559f3f6806ca7324f298d5465dnat,
    );
}

/// Part 1 of the chain of `lemma_power_674e41aa25559f3f6806ca7324f298d5465d_shared_4`.
proof fn lemma_power_674e41aa25559f3f6806ca7324f298d5465d_shared_4_part_1()
    ensures
        powmod(
            2nat,
            0x14a0999052867d371nat,
            0x674e41aa25559f3f6806ca7324f298d5465dnat,
        ) == 0x55c03134c969b49be715188e15b29a429de3nat,
{
    let q: nat = 0x674e41aa25559f3f6806ca7324f298d5465dnat;
    let b: nat = 2nat;
    lemma_powmod_basics(b, q);
    let e0: nat = 1nat;
    let v0: nat = 2nat;
    let v1: nat = 4nat;
    let e1: nat = step(b, q, e0, v0, false, v1);
    let v2: nat = 32nat;
    let e2: nat = step(b, q, e1, v1, true, v2);
    let v3: nat = 1024nat;
    let e3: nat = step(b, q, e2, v2, false, v3);
    let v4: nat = 0x100000nat;
    let e4: nat = step(b, q, e3, v3, false, v4);
    let v5: nat = 0x20000000000nat;
    let e5: nat = step(b, q, e4, v4, true, v5);
    let v6: nat = 0x400000000000000000000nat;
    let e6: nat = step(b, q, e5, v5, false, v6);
    let v7: nat = 0x18d8780faab18989c750787137d5509ac839nat;
    let e7: nat = step(b, q, e6, v6, true, v7);
    let v8: nat = 0x15504cdbcbbbdae3fa608f664e4c4072929fnat;
    let e8: nat = step(b, q, e7, v7, false, v8);
    let v9: nat = 0xda3b5e9b8c8dc098a0e2615e41590bf8218nat;
    let e9: nat = step(b, q, e8, v8, false, v9);
    let v10: nat = 0x15cdde607383ecda606647a2b1d2f94608e6nat;
    let e10: nat = step(b, q, e9, v9, false, v10);
    let v11: nat = 0x61ad2281a5431237586d843993c1e7dd1807nat;
    let e11: nat = step(b, q, e10, v10, false, v11);
    let v12: nat = 0xab4fcd39ba7139edc74a0b4cc5a5363b84cnat;
    let e12: nat = step(b, q, e11, v11, false, v12);
    let v13: nat = 0x5ff1274e026de07f2a48c3a7dd8dcdad7cb1nat;
    let e13: nat = step(b, q, e12, v12, true, v13);
    let v14: nat = 0x2e675bbeae3870353c275c8a8846f7c3737enat;
    let e14: nat = step(b, q, e13, v13, false, v14);
    let v15: nat = 0x631927c3eed6b7aa5e829b71162aeecb5cednat;
    let e15: nat = step(b, q, e14, v14, false, v15);
    let v16: nat = 0x179193a9de2b738f98dc845d716b329c200bnat;
    let e16: nat = step(b, q, e15, v15, true, v16);
    let v17: nat = 0x5727a4393b3be2b3f525906776555971acd0nat;
    let e17: nat = step(b, q, e16, v16, true, v17);
    let v18: nat = 0x2e328d598eb96b8de03a61a07cddeec809e0nat;
    let e18: nat = step(b, q, e17, v17, false, v18);
    let v19: nat = 0x5619175579a20a611a1c7b566126a80877d3nat;
    let e19: nat = step(b, q, e18, v18, false, v19);
    let v20: nat = 0x4523e58ca3e91a83580ed0b3e53daac2af8fnat;
    let e20: nat = step(b, q, e19, v19, true, v20);
    let v21: nat = 0x3ca58a9ce19560f3ad10153f04aacd83f76fnat;
    let e21: nat = step(b, q, e20, v20, true, v21);
    let v22: nat = 0x215aa096c84eae69c918f286ea5c59dce3b3nat;
    let e22: nat = step(b, q, e21, v21, false, v22);
    let v23: nat = 0x2c78c418c1d4b54f0d673532bd757bf767fnat;
    let e23: nat = step(b, q, e22, v22, false, v23);
    let v24: nat = 0x3c69ea197025fe99ce9fde0ef9d57da846cfnat;
    let e24: nat = step(b, q, e23, v23, true, v24);
    let v25: nat = 0x23c3d770d187e9879d44906613b2d5fdfcb6nat;
    let e25: nat = step(b, q, e24, v24, false, v25);
    let v26: nat = 0x1711144a494f7aeafedb6e95ec420a6c3d8nat;
    let e26: nat = step(b, q, e25, v25, false, v26);
    let v27: nat = 0x228ff2c64764f2b4a42f1fac56f5ed7d3996nat;
    let e27: nat = step(b, q, e26, v26, false, v27);
    let v28: nat = 0x57db7e3649efaca0ecd4bffab9c9496ff030nat;
    let e28: nat = step(b, q, e27, v27, false, v28);
    let v29: nat = 0x60b69a836f0d400d51373d69626ab10debb3nat;
    let e29: nat = step(b, q, e28, v28, false, v29);
    let v30: nat = 0x19bfb1421a58a33a367af3f9fd33ed53eddbnat;
    let e30: nat = step(b, q, e29, v29, true, v30);
    let v31: nat = 0x14fc3175b5c5882e5c3de29043ff66c0bb2nat;
    let e31: nat = step(b, q, e30, v30, false, v31);
    let v32: nat = 0x27e6aba8bd9175fab41585e8a9c11af7fd66nat;
    let e32: nat = step(b, q, e31, v31, true, v32);
    let v33: nat = 0x65e2456725de29d6f4eca6ace4148dba6442nat;
    let e33: nat = step(b, q, e32, v32, false, v33);
    let v34: nat = 0x4bd6c9fd8ad81ce49077acab72d2d0e5e328nat;
    let e34: nat = step(b, q, e33, v33, false, v34);
    let v35: nat = 0xb0c85c6440c98619af34068083c84fac4b4nat;
    let e35: nat = step(b, q, e34, v34, true, v35);
    let v36: nat = 0x65053b55303d46c4e981f1f68a1e5b2c372fnat;
    let e36: nat = step(b, q, e35, v35, false, v36);
    let v37: nat = 0x15e00e11d8da53ff3b9090ee7273152fc1dcnat;
    let e37: nat = step(b, q, e36, v36, true, v37);
    let v38: nat = 0x4895860794463386b54b8df2917721d5d5cdnat;
    let e38: nat = step(b, q, e37, v37, false, v38);
    let v39: nat = 0x110b9ccdabc1ad6a8313317ea7a55101e8a2nat;
    let e39: nat = step(b, q, e38, v38, false, v39);
    let v40: nat = 0x526b93395e62b4524921ed5c4b6979e3b659nat;
    let e40: nat = step(b, q, e39, v39, false, v40);
    let v41: nat = 0x43c62823ff3803406a0bb400967ea76ad6banat;
    let e41: nat = step(b, q, e40, v40, false, v41);
    let v42: nat = 0x1bddfc270baa6e68890df91f9de59a831156nat;
    let e42: nat = step(b, q, e41, v41, true, v42);
    let v43: nat = 0xb0e966f03818c85ce6e11dd3d0a102e4b62nat;
    let e43: nat = step(b, q, e42, v42, true, v43);
    let v44: nat = 0x5f0abab70e88d52ab4037223ddff74b598c5nat;
    let e44: nat = step(b, q, e43, v43, false, v44);
    let v45: nat = 0x3198e10558b95cb21ebeb3773d5372118487nat;
    let e45: nat = step(b, q, e44, v44, false, v45);
    let v46: nat = 0x4631ae0ef080d8022efb6c358b76410ce7acnat;
    let e46: nat = step(b, q, e45, v45, true, v46);
    let v47: nat = 0x13343b37fbb9358671812e914144daf92bednat;
    let e47: nat = step(b, q, e46, v46, true, v47);
    let v48: nat = 0x589ae56a1cb0fec634f256f3b333c48c9da9nat;
    let e48: nat = step(b, q, e47, v47, true, v48);
    let v49: nat = 0x249d30f50b9f80bf1dfc4be311f1798a5e63nat;
    let e49: nat = step(b, q, e48, v48, true, v49);
    let v50: nat = 0x629fbabb993536ea6b079ddeda8af6b32e2nat;
    let e50: nat = step(b, q, e49, v49, true, v50);
    let v51: nat = 0x6562158544f6e0b05a1b2fc462e2aadd421cnat;
    let e51: nat = step(b, q, e50, v50, false, v51);
    let v52: nat = 0x450d891169b43939a9b7780804487ebc334fnat;
    let e52: nat = step(b, q, e51, v51, true, v52);
    let v53: nat = 0x2427fc851d7b62c36124c13c51ab74ecf484nat;
    let e53: nat = step(b, q, e52, v52, false, v53);
    let v54: nat = 0xf6d18bdfbb2846a22dcfc3785cad5f757b4nat;
    let e54: nat = step(b, q, e53, v53, false, v54);
    let v55: nat = 0x59ceef185973bb955f11b69dc19c91e3635anat;
    let e55: nat = step(b, q, e54, v54, true, v55);
    let v56: nat = 0x47d5530587182b8f992cfc6c2fffaca85bc3nat;
    let e56: nat = step(b, q, e55, v55, true, v56);
    let v57: nat = 0x169a6aefe57735e4bf683c30fcbb9dc03335nat;
    let e57: nat = step(b, q, e56, v56, false, v57);
    let v58: nat = 0x2d0c1c7198cbdc02e07cee1228ef0875bab8nat;
    let e58: nat = step(b, q, e57, v57, true, v58);
    let v59: nat = 0x5fd89b044dd7494ba7f21b21b1b287f6d732nat;
    let e59: nat = step(b, q, e58, v58, true, v59);
    let v60: nat = 0x1ff151828f0ab961020ce68f5bbb7654b8d8nat;
    let e60: nat = step(b, q, e59, v59, true, v60);
    let v61: nat = 0x1c7d0b2ed671697ed36d8401a32dced78a4nat;
    let e61: nat = step(b, q, e60, v60, false, v61);
    let v62: nat = 0x1a50752da5c79504d7df4f5b7d9f673a67b8nat;
    let e62: nat = step(b, q, e61, v61, false, v62);
    let v63: nat = 0x5ca60144bad5ec01b55059bd29cffd2f3598nat;
    let e63: nat = step(b, q, e62, v62, false, v63);
    let v64: nat = 0x55c03134c969b49be715188e15b29a429de3nat;
    let e64: nat = step(b, q, e63, v63, true, v64);
}

/// Part 2 of the chain of `lemma_power_674e41aa25559f3f6806ca7324f298d5465d_shared_4`.
proof fn lemma_power_674e41aa25559f3f6806ca7324f298d5465d_shared_4_part_2()
    ensures
        powmod(
            2nat,
            0xa504cc829433e9b8b1nat,
            0x674e41aa25559f3f6806ca7324f298d5465dnat,
        ) == 0x288dc6277ae0169708fffa347ca02033f0b0nat,
{
    let q: nat = 0x674e41aa25559f3f6806ca7324f298d5465dnat;
    let b: nat = 2nat;
    lemma_power_674e41aa25559f3f6806ca7324f298d5465d_shared_4_part_1();
    let e0: nat = 0x14a0999052867d371nat;
    let v0: nat = 0x55c03134c969b49be715188e15b29a429de3nat;
    let v1: nat = 0x1113ca5ebb79ee4e0d951a703956b246323nat;
    let e1: nat = step(b, q, e0, v0, false, v1);
    let v2: nat = 0x31d6c2cf9ce5bb9c0081c1baf490f6cb61f2nat;
    let e2: nat = step(b, q, e1, v1, true, v2);
    let v3: nat = 0x422575c1f4515a1aa24fe41905ba2b8cb41nat;
    let e3: nat = step(b, q, e2, v2, true, v3);
    let v4: nat = 0x3fb0c32801b22c8a142fd204adb3150ab7a7nat;
    let e4: nat = step(b, q, e3, v3, false, v4);
    let v5: nat = 0x3eed92ffda159a842bbd8c7ed36b8f3013denat;
    let e5: nat = step(b, q, e4, v4, false, v5);
    let v6: nat = 0x2983aa9d974ad498ff5e3ccd933e3b79dd04nat;
    let e6: nat = step(b, q, e5, v5, false, v6);
    let v7: nat = 0x288dc6277ae0169708fffa347ca02033f0b0nat;
    let e7: nat = step(b, q, e6, v6, true, v7);
}

/// A power of 2 modulo 0x674e41aa25559f3f6806ca7324f298d5465d that the powers
/// `(q - 1) / r` share for `r` = 2, 11, 2531, 0x124753 and 0x528e0dc7d.
proof fn lemma_power_674e41aa25559f3f6806ca7324f298d5465d_shared_4()
    ensures
        powmod(
            2nat,
            0xa504cc829433e9b8b1nat,
            0x674e41aa25559f3f6806ca7324f298d5465dnat,
        ) == 0x288dc6277ae0169708fffa347ca02033f0b0nat,
{
    lemma_power_674e41aa25559f3f6806ca7324f298d5465d_shared_4_part_2();
    lemma_powmod_basics(2nat, 0x674e41aa25559f3f6806ca7324f298d5465dnat);
    lemma_powmod_mul(2nat, 1, 0xa504cc829433e9b8b1nat, 0x674e41aa25559f3f6806ca7324f298d5465dnat);
}

/// Part 1 of the chain of `lemma_power_674e41aa25559f3f6806ca7324f298d5465d_shared_5`.
proof fn lemma_power_674e41aa25559f3f6806ca7324f298d5465d_shared_5_part_1()
    ensures
        powmod(
            0x288dc6277ae0169708fffa347ca02033f0b0nat,
            0x7c3dec993nat,
            0x674e41aa25559f3f6806ca7324f298d5465dnat,
        ) == 0x2276a82f2a4f58e724946072f4bffc9780d3nat,
{
    let q: nat = 0x674e41aa25559f3f6806ca7324f298d5465dnat;
    let b: nat = 0x288dc6277ae0169708fffa347ca02033f0b0nat;
    lemma_powmod_basics(b, q);
    let e0: nat = 1nat;
    let v0: nat = 0x288dc6277ae0169708fffa347ca02033f0b0nat;
    let v1: nat = 0x1611eb1ef85d5fe5d37fbd38813cc6832f17nat;
    let e1: nat = step(b, q, e0, v0, true, v1);
    let v2: nat = 0x551a58233308c22fbd20002f7d05d2c3071dnat;
    let e2: nat = step(b, q, e1, v1, true, v2);
    let v3: nat = 0x1ddb1171ea741f6bf91144ce122c1e5c640fnat;
    let e3: nat = step(b, q, e2, v2, true, v3);
    let v4: nat = 0x4e9699f1b2289610759cb4494b099c9a761bnat;
    let e4: nat = step(b, q, e3, v3, true, v4);
    let v5: nat = 0x58873e19f1dd0f15b8e1cdf4a89d385687a0nat;
    let e5: nat = step(b, q, e4, v4, false, v5);
    let v6: nat = 0x6520b3af0b225a54d6d603fbc81d682e9e6dnat;
    let e6: nat = step(b, q, e5, v5, false, v6);
    let v7: nat = 0x804645f34594b5cdc936988283eac1a0287nat;
    let e7: nat = step(b, q, e6, v6, false, v7);
    let v8: nat = 0x56e82123f7d1626928f8adf411e8ed4de7dbnat;
    let e8: nat = step(b, q, e7, v7, false, v8);
    let v9: nat = 0x3a287e1ac5a0c6bf2aca77e8555a522aa7nat;
    let e9: nat = step(b, q, e8, v8, true, v9);
    let v10: nat = 0x476408b3c8680d53aa34fca75dab19f505f9nat;
    let e10: nat = step(b, q, e9, v9, true, v10);
    let v11: nat = 0x10559521e25a76c73833e6959b199ec02ce1nat;
    let e11: nat = step(b, q, e10, v10, true, v11);
    let v12: nat = 0x2907634083c3ed243eeff82cf8eaad849d8dnat;
    let e12: nat = step(b, q, e11, v11, true, v12);
    let v13: nat = 0x20a44fa6c01b082b66bca1ca47fdbbdd10a8nat;
    let e13: nat = step(b, q, e12, v12, false, v13);
    let v14: nat = 0x65fb77bccd360868b2d83c5948df1441e102nat;
    let e14: nat = step(b, q, e13, v13, true, v14);
    let v15: nat = 0x249cf6ff212facc27d1400eabec2e756aed4nat;
    let e15: nat = step(b, q, e14, v14, true, v15);
    let v16: nat = 0x3536be0c4b3702b83460253d64e013ce2ccbnat;
    let e16: nat = step(b, q, e15, v15, true, v16);
    let v17: nat = 0x105bdfd0687cd2dd0fb010c7a4f170e79d81nat;
    let e17: nat = step(b, q, e16, v16, true, v17);
    let v18: nat = 0x3bc1abfd87e0cf6255c4dab855ae302a2f95nat;
    let e18: nat = step(b, q, e17, v17, false, v18);
    let v19: nat = 0x405a5b56154ec9946a94119a72d055acdc6dnat;
    let e19: nat = step(b, q, e18, v18, true, v19);
    let v20: nat = 0x2c802bbfdf17c7ad5c430d01550554bdb5a0nat;
    let e20: nat = step(b, q, e19, v19, true, v20);
    let v21: nat = 0x2785681564dd7f8b3ddeb6e2288546416e25nat;
    let e21: nat = step(b, q, e20, v20, false, v21);
    let v22: nat = 0x30d925b0d836ef569c0fa12f351899c56283nat;
    let e22: nat = step(b, q, e21, v21, false, v22);
    let v23: nat = 0x15b72229d9264df87284e803c20b1c0c17fanat;
    let e23: nat = step(b, q, e22, v22, true, v23);
    let v24: nat = 0x6123e2a1267d6df26251d3f0fc699d72e902nat;
    let e24: nat = step(b, q, e23, v23, false, v24);
    let v25: nat = 0x1fed5448ac8f75a6a0ac266fbfaea553e925nat;
    let e25: nat = step(b, q, e24, v24, false, v25);
    let v26: nat = 0xb0abaaa22a834358e40469bd9fa087755bnat;
    let e26: nat = step(b, q, e25, v25, true, v26);
    let v27: nat = 0x6204b035d2e74f341abc4b0100ed41dcf18fnat;
    let e27: nat = step(b, q, e26, v26, true, v27);
    let v28: nat = 0x59976fee334a85ecf9ff2272e2ae21cb67a5nat;
    let e28: nat = step(b, q, e27, v27, false, v28);
    let v29: nat = 0x3b3ebba9b7bebcfaba4767fab8873987e9anat;
    let e29: nat = step(b, q, e28, v28, false, v29);
    let v30: nat = 0x587007ec5b9f136717332690dd93a15278d7nat;
    let e30: nat = step(b, q, e29, v29, true, v30);
    let v31: nat = 0x57333344b73a7528bf32978b2d735aed2e78nat;
    let e31: nat = step(b, q, e30, v30, false, v31);
    let v32: nat = 0x49673b8815ecd2875a5699b558ec9b4369d4nat;
    let e32: nat = step(b, q, e31, v31, false, v32);
    let v33: nat = 0x65e4d6b2cee653b4c0f96d40e8e5bd06ebb2nat;
    let e33: nat = step(b, q, e32, v32, true, v33);
    let v34: nat = 0x2276a82f2a4f58e724946072f4bffc9780d3nat;
    let e34: nat = step(b, q, e33, v33, true, v34);
}

/// A power of 2 modulo 0x674e41aa25559f3f6806ca7324f298d5465d that the powers
/// `(q - 1) / r` share for `r` = 2 and 0x528e0dc7d.
proof fn lemma_power_674e41aa25559f3f6806ca7324f298d5465d_shared_5()
    ensures
        powmod(
            2nat,
            0x50163db7263df6971104db606a3nat,
            0x674e41aa25559f3f6806ca7324f298d5465dnat,
        ) == 0x2276a82f2a4f58e724946072f4bffc9780d3nat,
{
    lemma_power_674e41aa25559f3f6806ca7324f298d5465d_shared_4();
    lemma_power_674e41aa25559f3f6806ca7324f298d5465d_shared_5_part_1();
    lemma_powmod_mul(
        2nat,
        0xa504cc829433e9b8b1nat,
        0x7c3dec993nat,
        0x674e41aa25559f3f6806ca7324f298d5465dnat,
    );
}

/// Part 1 of the chain of `lemma_power_674e41aa25559f3f6806ca7324f298d5465d_over_528e0dc7d`.
proof fn lemma_power_674e41aa25559f3f6806ca7324f298d5465d_over_528e0dc7d_part_1()
    ensures
        powmod(
            0x2276a82f2a4f58e724946072f4bffc9780d3nat,
            4nat,
            0x674e41aa25559f3f6806ca7324f298d5465dnat,
        ) == 0x55bb924d6d8f9f031b347bf64472e58fbe3enat,
{
    let q: nat = 0x674e41aa25559f3f6806ca7324f298d5465dnat;
    let b: nat = 0x2276a82f2a4f58e724946072f4bffc9780d3nat;
    lemma_powmod_basics(b, q);
    let e0: nat = 1nat;
    let v0: nat = 0x2276a82f2a4f58e724946072f4bffc9780d3nat;
    let v1: nat = 0x174912638e96ecad69d083a97acfcf43be16nat;
    let e1: nat = step(b, q, e0, v0, false, v1);
    let v2: nat = 0x55bb924d6d8f9f031b347bf64472e58fbe3enat;
    let e2: nat = step(b, q, e1, v1, false, v2);
}

/// The power `(q - 1) / 0x528e0dc7d` of 2 modulo `q`, for `q` =
/// 0x674e41aa25559f3f6806ca7324f298d5465d.
proof fn lemma_power_674e41aa25559f3f6806ca7324f298d5465d_over_528e0dc7d()
    ensures
        powmod(
            2nat,
            0x14058f6dc98f7da5c44136d81a8cnat,
            0x674e41aa25559f3f6806ca7324f298d5465dnat,
        ) == 0x55bb924d6d8f9f031b347bf64472e58fbe3enat,
{
    lemma_power_674e41aa25559f3f6806ca7324f298d5465d_shared_5();
    lemma_power_674e41aa25559f3f6806ca7324f298d5465d_over_528e0dc7d_part_1();
    lemma_powmod_mul(
        2nat,
        0x50163db7263df6971104db606a3nat,
        4nat,
        0x674e41aa25559f3f6806ca7324f298d5465dnat,
    );
}

/// Part 1 of the chain of `lemma_power_674e41aa25559f3f6806ca7324f298d5465d_shared_6`.
proof fn lemma_power_674e41aa25559f3f6806ca7324f298d5465d_shared_6_part_1()
    ensures
        powmod(
            0x2276a82f2a4f58e724946072f4bffc9780d3nat,
            0x528e0dc7dnat,
            0x674e41aa25559f3f6806ca7324f298d5465dnat,
        ) == 0x4026f34a75cf005bc6fb113ff7d75fc4e5f8nat,
{
    let q: nat = 0x674e41aa25559f3f6806ca7324f298d5465dnat;
    let b: nat = 0x2276a82f2a4f58e724946072f4bffc9780d3nat;
    lemma_powmod_basics(b, q);
    let e0: nat = 1nat;
    let v0: nat = 0x2276a82f2a4f58e724946072f4bffc9780d3nat;
    let v1: nat = 0x174912638e96ecad69d083a97acfcf43be16nat;
    let e1: nat = step(b, q, e0, v0, false, v1);
    let v2: nat = 0x4c4fbc7dccc6669e9c0402ffe0ac511aefbenat;
    let e2: nat = step(b, q, e1, v1, true, v2);
    let v3: nat = 0x7104056a6d0b47e20148e153b93ff8e5e28nat;
    let e3: nat = step(b, q, e2, v2, false, v3);
    let v4: nat = 0x5537b15531d10dda5faa2b62db3c8ad57162nat;
    let e4: nat = step(b, q, e3, v3, false, v4);
    let v5: nat = 0x298b5c899ca4dd26575c493843422ee67e32nat;
    let e5: nat = step(b, q, e4, v4, true, v5);
    let v6: nat = 0x63ec2b64db86fa856b7256034dc79fcc4c81nat;
    let e6: nat = step(b, q, e5, v5, false, v6);
    let v7: nat = 0x9a60aa0978d72de16d782deb81aa6c86aednat;
    let e7: nat = step(b, q, e6, v6, true, v7);
    let v8: nat = 0x68cfdc2b9e8092e0ad97f74560118379dd3nat;
    let e8: nat = step(b, q, e7, v7, false, v8);
    let v9: nat = 0x2a560d42d6fa4ca2a229de63cb7430247c4nat;
    let e9: nat = step(b, q, e8, v8, false, v9);
    let v10: nat = 0x5c6f76b1e41e00c3ea7ae4166e88a01b35e8nat;
    let e10: nat = step(b, q, e9, v9, false, v10);
    let v11: nat = 0x4b1f4ed615b45425f2aa5fb7e7462bf72a91nat;
    let e11: nat = step(b, q, e10, v10, true, v11);
    let v12: nat = 0x5cf93e77332b12a9ce032cf12a1b81b24eb0nat;
    let e12: nat = step(b, q, e11, v11, true, v12);
    let v13: nat = 0x536314f50f72dc1b26d2bd7ad7f41605f20dnat;
    let e13: nat = step(b, q, e12, v12, true, v13);
    let v14: nat = 0x2155ae7b3420456ae8afc4a4e714368d1879nat;
    let e14: nat = step(b, q, e13, v13, false, v14);
    let v15: nat = 0x2a92e434906f574ac5bb354a94e825e53b07nat;
    let e15: nat = step(b, q, e14, v14, false, v15);
    let v16: nat = 0x507b92e1fb3000ddfb125ba46638fb402fb7nat;
    let e16: nat = step(b, q, e15, v15, false, v16);
    let v17: nat = 0x2ce6e388ee5b402f0d67b0ed434bd8dad6c7nat;
    let e17: nat = step(b, q, e16, v16, false, v17);
    let v18: nat = 0x2a011a60b2ae942687a83b35ff4846f37173nat;
    let e18: nat = step(b, q, e17, v17, false, v18);
    let v19: nat = 0x65533655dd7a8249c17851c0ca76524a4471nat;
    let e19: nat = step(b, q, e18, v18, true, v19);
    let v20: nat = 0x104013c7455a213628e708f3a5c92cccca37nat;
    let e20: nat = step(b, q, e19, v19, true, v20);
    let v21: nat = 0x62404a223238daf297295f294c44f8206dc1nat;
    let e21: nat = step(b, q, e20, v20, false, v21);
    let v22: nat = 0x2908a124f9892a14b68791c8ad8d929a4fbcnat;
    let e22: nat = step(b, q, e21, v21, true, v22);
    let v23: nat = 0x3f26c4cc37d99eb39175cd8b1a1a4b5ffad9nat;
    let e23: nat = step(b, q, e22, v22, true, v23);
    let v24: nat = 0xad9398213eb589ebcc3fd3b566ea9c130afnat;
    let e24: nat = step(b, q, e23, v23, true, v24);
    let v25: nat = 0x4d3e8791c122bb24ff51d6c94a18cb2a5c3bnat;
    let e25: nat = step(b, q, e24, v24, false, v25);
    let v26: nat = 0x482fe740930fb5940a4e0c81b972d5713595nat;
    let e26: nat = step(b, q, e25, v25, false, v26);
    let v27: nat = 0x5da723d102b9771d75da3f7cc06aa2b4df40nat;
    let e27: nat = step(b, q, e26, v26, false, v27);
    let v28: nat = 0x5cb989b7a629e442287eba1f3f2fe8902dd4nat;
    let e28: nat = step(b, q, e27, v27, true, v28);
    let v29: nat = 0x590ac1dfceb23d7559d3e45e61297348ddcfnat;
    let e29: nat = step(b, q, e28, v28, true, v29);
    let v30: nat = 0x16a19a83075a8a4bde6bc4ca5eae1d377ed4nat;
    let e30: nat = step(b, q, e29, v29, true, v30);
    let v31: nat = 0x1c84b7796837afb95599b293cb9e3d404b63nat;
    let e31: nat = step(b, q, e30, v30, true, v31);
    let v32: nat = 0x6142ec0fd1e2783d889b23f67996e7e53605nat;
    let e32: nat = step(b, q, e31, v31, true, v32);
    let v33: nat = 0x2169bb1ae70e6c0222ea6217cad1ee13172cnat;
    let e33: nat = step(b, q, e32, v32, false, v33);
    let v34: nat = 0x4026f34a75cf005bc6fb113ff7d75fc4e5f8nat;
    let e34: nat = step(b, q, e33, v33, true, v34);
}

/// A power of 2 modulo 0x674e41aa25559f3f6806ca7324f298d5465d that the powers
/// `(q - 1) / r` share for `r` = 2.
proof fn lemma_power_674e41aa25559f3f6806ca7324f298d5465d_shared_6()
    ensures
        powmod(
            2nat,
            0x19d3906a895567cfda01b29cc93ca6355197nat,
            0x674e41aa25559f3f6806ca7324f298d5465dnat,
        ) == 0x4026f34a75cf005bc6fb113ff7d75fc4e5f8nat,
{
    lemma_power_674e41aa25559f3f6806ca7324f298d5465d_shared_5();
    lemma_power_674e41aa25559f3f6806ca7324f298d5465d_shared_6_part_1();
    lemma_powmod_mul(
        2nat,
        0x50163db7263df6971104db606a3nat,
        0x528e0dc7dnat,
        0x674e41aa25559f3f6806ca7324f298d5465dnat,
    );
}

/// Part 1 of the chain of `lemma_power_674e41aa25559f3f6806ca7324f298d5465d_over_2`.
proof fn lemma_power_674e41aa25559f3f6806ca7324f298d5465d_over_2_part_1()
    ensures
        powmod(
            0x4026f34a75cf005bc6fb113ff7d75fc4e5f8nat,
            2nat,
            0x674e41aa25559f3f6806ca7324f298d5465dnat,
        ) == 0x674e41aa25559f3f6806ca7324f298d5465cnat,
{
    let q: nat = 0x674e41aa25559f3f6806ca7324f298d5465dnat;
    let b: nat = 0x4026f34a75cf005bc6fb113ff7d75fc4e5f8nat;
    lemma_powmod_basics(b, q);
    let e0: nat = 1nat;
    let v0: nat = 0x4026f34a75cf005bc6fb113ff7d75fc4e5f8nat;
    let v1: nat = 0x674e41aa25559f3f6806ca7324f298d5465cnat;
    let e1: nat = step(b, q, e0, v0, false, v1);
}

/// The power `(q - 1) / 2` of 2 modulo `q`, for `q` =
/// 0x674e41aa25559f3f6806ca7324f298d5465d.
proof fn lemma_power_674e41aa25559f3f6806ca7324f298d5465d_over_2()
    ensures
        powmod(
            2nat,
            0x33a720d512aacf9fb403653992794c6aa32enat,
            0x674e41aa25559f3f6806ca7324f298d5465dnat,
        ) == 0x674e41aa25559f3f6806ca7324f298d5465cnat,
{
    lemma_power_674e41aa25559f3f6806ca7324f298d5465d_shared_6();
    lemma_power_674e41aa25559f3f6806ca7324f298d5465d_over_2_part_1();
    lemma_powmod_mul(
        2nat,
        0x19d3906a895567cfda01b29cc93ca6355197nat,
        2nat,
        0x674e41aa25559f3f6806ca7324f298d5465dnat,
    );
}

/// Part 1 of the chain of `lemma_power_674e41aa25559f3f6806ca7324f298d5465d_shared_7`.
proof fn lemma_power_674e41aa25559f3f6806ca7324f298d5465d_shared_7_part_1()
    ensures
        powmod(
            0x288dc6277ae0169708fffa347ca02033f0b0nat,
            0x14a38371f4nat,
            0x674e41aa25559f3f6806ca7324f298d5465dnat,
        ) == 0x584a79da32abcabe14fefdcfd19571f82826nat,
{
    let q: nat = 0x674e41aa25559f3f6806ca7324f298d5465dnat;
    let b: nat = 0x288dc6277ae0169708fffa347ca02033f0b0nat;
    lemma_powmod_basics(b, q);
    let e0: nat = 1nat;
    let v0: nat = 0x288dc6277ae0169708fffa347ca02033f0b0nat;
    let v1: nat = 0x4449fe7ad95dadb5e720400a7355889328dnat;
    let e1: nat = step(b, q, e0, v0, false, v1);
    let v2: nat = 0x1dc8d28cf250fb0f0255d2c84ebffedc0a99nat;
    let e2: nat = step(b, q, e1, v1, true, v2);
    let v3: nat = 0x277960bd88b7f4735094d0dd8a19c13d94ecnat;
    let e3: nat = step(b, q, e2, v2, false, v3);
    let v4: nat = 0x433f7e743981c3cc081bb5c6ea27ce1bf08bnat;
    let e4: nat = step(b, q, e3, v3, false, v4);
    let v5: nat = 0x17f51945851498e3cf5a700a06ffa8085bfnat;
    let e5: nat = step(b, q, e4, v4, true, v5);
    let v6: nat = 0x1ccd88cae875c70d87d9411818af44802777nat;
    let e6: nat = step(b, q, e5, v5, false, v6);
    let v7: nat = 0x179c063588f1f5267ecfeec697c3304a5cb8nat;
    let e7: nat = step(b, q, e6, v6, true, v7);
    let v8: nat = 0x40f472b3cd11726c9f3a2b46ba24b21eb268nat;
    let e8: nat = step(b, q, e7, v7, false, v8);
    let v9: nat = 0x20ab0d7c9721fdc6abd06add83f35406dff0nat;
    let e9: nat = step(b, q, e8, v8, false, v9);
    let v10: nat = 0x2fa6ebff4ee9e0c564c6d614cbb64bbb29aenat;
    let e10: nat = step(b, q, e9, v9, false, v10);
    let v11: nat = 0x5319e3b08471cac0ab6dda27f998623e27benat;
    let e11: nat = step(b, q, e10, v10, true, v11);
    let v12: nat = 0x28074c633addaabb8aad89e0fca4ccf43867nat;
    let e12: nat = step(b, q, e11, v11, true, v12);
    let v13: nat = 0x3598dc10d8c7b8bc5c2efcacf0ae58a4c46cnat;
    let e13: nat = step(b, q, e12, v12, true, v13);
    let v14: nat = 0x4b957185ce2d255e1998ff92cace85035312nat;
    let e14: nat = step(b, q, e13, v13, false, v14);
    let v15: nat = 0x4a36c9d0c035148eaa5e77d56cf2bd461687nat;
    let e15: nat = step(b, q, e14, v14, false, v15);
    let v16: nat = 0x5f247eb7208564719f40127625b5755ad091nat;
    let e16: nat = step(b, q, e15, v15, false, v16);
    let v17: nat = 0x36f996a2f2ca9ecf5874e65d95bb1fc480fanat;
    let e17: nat = step(b, q, e16, v16, false, v17);
    let v18: nat = 0x487181f9df425124e783d39bc2f26f10673cnat;
    let e18: nat = step(b, q, e17, v17, false, v18);
    let v19: nat = 0x1b2086136f2b62c21d2dd6273b49a6ef5ae4nat;
    let e19: nat = step(b, q, e18, v18, true, v19);
    let v20: nat = 0x2c9df7c462b34ba477d64895de6c704cc006nat;
    let e20: nat = step(b, q, e19, v19, true, v20);
    let v21: nat = 0x52446bc35d2330bbd3a3768caa79e9c06810nat;
    let e21: nat = step(b, q, e20, v20, false, v21);
    let v22: nat = 0x437bf654f57c204cbf063beb940fc19f1003nat;
    let e22: nat = step(b, q, e21, v21, true, v22);
    let v23: nat = 0x3935718f95ecbcbe99e1c2bbc52c85f54da7nat;
    let e23: nat = step(b, q, e22, v22, true, v23);
    let v24: nat = 0x51e078e7ed3ceacf46cd782a2b6be3654fd8nat;
    let e24: nat = step(b, q, e23, v23, true, v24);
    let v25: nat = 0x16c0ce70b10b984dddbedea2f0aa4a369a8nat;
    let e25: nat = step(b, q, e24, v24, false, v25);
    let v26: nat = 0x40f4df74263e1ae0c85f7b01f012716674banat;
    let e26: nat = step(b, q, e25, v25, false, v26);
    let v27: nat = 0x2e0e455e4efe1c49372b59e6d40fbaa14622nat;
    let e27: nat = step(b, q, e26, v26, false, v27);
    let v28: nat = 0x216299af637e4bf9cf44fd2db8d96b6671aenat;
    let e28: nat = step(b, q, e27, v27, true, v28);
    let v29: nat = 0x64ab95c5fce828e55552153911f5d47d7aafnat;
    let e29: nat = step(b, q, e28, v28, true, v29);
    let v30: nat = 0x134bdc6fef5fa3e4aa1b001dcb442a726ac1nat;
    let e30: nat = step(b, q, e29, v29, true, v30);
    let v31: nat = 0x5354eb5efb93463530a7cc5b903393c45adnat;
    let e31: nat = step(b, q, e30, v30, true, v31);
    let v32: nat = 0x338e3abc3a9daca7514b14f64efa9b292f5bnat;
    let e32: nat = step(b, q, e31, v31, true, v32);
    let v33: nat = 0x247b66d4604f76d769b1b236f3ff1bf6704nat;
    let e33: nat = step(b, q, e32, v32, false, v33);
    let v34: nat = 0x647b4da46f459a83fe283ae2597614f64b54nat;
    let e34: nat = step(b, q, e33, v33, true, v34);
    let v35: nat = 0x44548ccb5e4d36e1fc0b093015b84d79813dnat;
    let e35: nat = step(b, q, e34, v34, false, v35);
    let v36: nat = 0x584a79da32abcabe14fefdcfd19571f82826nat;
    let e36: nat = step(b, q, e35, v35, false, v36);
}

/// A power of 2 modulo 0x674e41aa25559f3f6806ca7324f298d5465d that the powers
/// `(q - 1) / r` share for `r` = 11, 2531 and 0x124753.
proof fn lemma_power_674e41aa25559f3f6806ca7324f298d5465d_shared_7()
    ensures
        powmod(
            2nat,
            0xd4dc6c353c615b6af31dadd29b4nat,
            0x674e41aa25559f3f6806ca7324f298d5465dnat,
        ) == 0x584a79da32abcabe14fefdcfd19571f82826nat,
{
    lemma_power_674e41aa25559f3f6806ca7324f298d5465d_shared_4();
    lemma_power_674e41aa25559f3f6806ca7324f298d5465d_shared_7_part_1();
    lemma_powmod_mul(
        2nat,
        0xa504cc829433e9b8b1nat,
        0x14a38371f4nat,
        0x674e41aa25559f3f6806ca7324f298d5465dnat,
    );
}

/// Part 1 of the chain of `lemma_power_674e41aa25559f3f6806ca7324f298d5465d_over_124753`.
proof fn lemma_power_674e41aa25559f3f6806ca7324f298d5465d_over_124753_part_1()
    ensures
        powmod(
            0x584a79da32abcabe14fefdcfd19571f82826nat,
            27841nat,
            0x674e41aa25559f3f6806ca7324f298d5465dnat,
        ) == 0x24c06dddb1a11b59e5c507ca14b95100a615nat,
{
    let q: nat = 0x674e41aa25559f3f6806ca7324f298d5465dnat;
    let b: nat = 0x584a79da32abcabe14fefdcfd19571f82826nat;
    lemma_powmod_basics(b, q);
    let e0: nat = 1nat;
    let v0: nat = 0x584a79da32abcabe14fefdcfd19571f82826nat;
    let v1: nat = 0x40d143d8fe18960598c0e2a711d1a53aadf9nat;
    let e1: nat = step(b, q, e0, v0, true, v1);
    let v2: nat = 0xa8df3167d3f5c4289adb0580c8febea3aacnat;
    let e2: nat = step(b, q, e1, v1, false, v2);
    let v3: nat = 0x5a8b6b43c6692b2861c63f55849a81d00b3nat;
    let e3: nat = step(b, q, e2, v2, true, v3);
    let v4: nat = 0xff4124fd8bc5340edd92fe41d0e36d2a707nat;
    let e4: nat = step(b, q, e3, v3, true, v4);
    let v5: nat = 0x27c056b714160efdb89061b5f02184d81d47nat;
    let e5: nat = step(b, q, e4, v4, false, v5);
    let v6: nat = 0x2134129770b2cc52c1c51cdf76d859ee421enat;
    let e6: nat = step(b, q, e5, v5, false, v6);
    let v7: nat = 0x5b7842c18625f47365d9033e479d54970aafnat;
    let e7: nat = step(b, q, e6, v6, true, v7);
    let v8: nat = 0x655d676bd4b1d940faf6eeeb4982a2847380nat;
    let e8: nat = step(b, q, e7, v7, true, v8);
    let v9: nat = 0x5b1e29074bfc013e2d81da5a8800bc70acanat;
    let e9: nat = step(b, q, e8, v8, false, v9);
    let v10: nat = 0x1341faf9f89e8667ed67835330ccb31eb2danat;
    let e10: nat = step(b, q, e9, v9, false, v10);
    let v11: nat = 0x65058043bebe35ec1f985b3479e946ce0298nat;
    let e11: nat = step(b, q, e10, v10, false, v11);
    let v12: nat = 0x58481c8d196ed9511f72c368b8825a67fce1nat;
    let e12: nat = step(b, q, e11, v11, false, v12);
    let v13: nat = 0x14153dda25d5a84f7e14d7a5e2cb90948414nat;
    let e13: nat = step(b, q, e12, v12, false, v13);
    let v14: nat = 0x24c06dddb1a11b59e5c507ca14b95100a615nat;
    let e14: nat = step(b, q, e13, v13, true, v14);
}

/// The power `(q - 1) / 0x124753` of 2 modulo `q`, for `q` =
/// 0x674e41aa25559f3f6806ca7324f298d5465d.
proof fn lemma_power_674e41aa25559f3f6806ca7324f298d5465d_over_124753()
    ensures
        powmod(
            2nat,
            0x5a6d77d4099b97f70a31ceb4e5460b4nat,
            0x674e41aa25559f3f6806ca7324f298d5465dnat,
        ) == 0x24c06dddb1a11b59e5c507ca14b95100a615nat,
{
    lemma_power_674e41aa25559f3f6806ca7324f298d5465d_shared_7();
    lemma_power_674e41aa25559f3f6806ca7324f298d5465d_over_124753_part_1();
    lemma_powmod_mul(
        2nat,
        0xd4dc6c353c615b6af31dadd29b4nat,
        27841nat,
        0x674e41aa25559f3f6806ca7324f298d5465dnat,
    );
}

/// Part 1 of the chain of `lemma_power_674e41aa25559f3f6806ca7324f298d5465d_shared_8`.
proof fn lemma_power_674e41aa25559f3f6806ca7324f298d5465d_shared_8_part_1()
    ensures
        powmod(
            0x584a79da32abcabe14fefdcfd19571f82826nat,
            0x124753nat,
            0x674e41aa25559f3f6806ca7324f298d5465dnat,
        ) == 0x123d72f975f15d41c9d8b6177186a9a6b078nat,
{
    let q: nat = 0x674e41aa25559f3f6806ca7324f298d5465dnat;
    let b: nat = 0x584a79da32abcabe14fefdcfd19571f82826nat;
    lemma_powmod_basics(b, q);
    let e0: nat = 1nat;
    let v0: nat = 0x584a79da32abcabe14fefdcfd19571f82826nat;
    let v1: nat = 0x44c2a0a597b882c1afb63c5fe477dadd5ad1nat;
    let e1: nat = step(b, q, e0, v0, false, v1);
    let v2: nat = 0x1bdbd2a9ac13a61fef712349b6c9f8382fc4nat;
    let e2: nat = step(b, q, e1, v1, false, v2);
    let v3: nat = 0x23caf5f18f6a3c6f423d19a03b0a546e4d46nat;
    let e3: nat = step(b, q, e2, v2, true, v3);
    let v4: nat = 0x68bf014ecc9fcd831164bc8b0c19b83340enat;
    let e4: nat = step(b, q, e3, v3, false, v4);
    let v5: nat = 0x3af297dccf9878dfdf57afaf82f3cdc9de87nat;
    let e5: nat = step(b, q, e4, v4, false, v5);
    let v6: nat = 0x254ba3a7d72e15e9886f834dd1ac1cded0fbnat;
    let e6: nat = step(b, q, e5, v5, true, v6);
    let v7: nat = 0x16285da8fba9939e48ebaefb80966404ef74nat;
    let e7: nat = step(b, q, e6, v6, false, v7);
    let v8: nat = 0x4d0a91716ba0f8f83371c62b40c741f2b38anat;
    let e8: nat = step(b, q, e7, v7, false, v8);
    let v9: nat = 0xc3efa19417f3d3c9448bb2ed36175ebc246nat;
    let e9: nat = step(b, q, e8, v8, false, v9);
    let v10: nat = 0x306174d04a92b83bb82f1e115add1036a22nat;
    let e10: nat = step(b, q, e9, v9, true, v10);
    let v11: nat = 0x361956faef49571c2b7a12af567e1755f3cfnat;
    let e11: nat = step(b, q, e10, v10, true, v11);
    let v12: nat = 0x4e6ee6f2e782c1e32deaa196482e33b3656anat;
    let e12: nat = step(b, q, e11, v11, true, v12);
    let v13: nat = 0x1580c63b21b2b7adc355918ea564876b66ecnat;
    let e13: nat = step(b, q, e12, v12, false, v13);
    let v14: nat = 0x57a3e1ae363c9bd4567679be0ed849bf3045nat;
    let e14: nat = step(b, q, e13, v13, true, v14);
    let v15: nat = 0x171d1a3119c5053901681ea5cf891a5959denat;
    let e15: nat = step(b, q, e14, v14, false, v15);
    let v16: nat = 0x5fdff22feae310020505e08e2eec886cfa5anat;
    let e16: nat = step(b, q, e15, v15, true, v16);
    let v17: nat = 0x3276c056815b5fe7d599ddcabe775a0d3c36nat;
    let e17: nat = step(b, q, e16, v16, false, v17);
    let v18: nat = 0x51edcfc51a218425fda79d47b51c676a6fcbnat;
    let e18: nat = step(b, q, e17, v17, false, v18);
    let v19: nat = 0x37fbf4876cbe59a34617896d6c84a8a6d420nat;
    let e19: nat = step(b, q, e18, v18, true, v19);
    let v20: nat = 0x123d72f975f15d41c9d8b6177186a9a6b078nat;
    let e20: nat = step(b, q, e19, v19, true, v20);
}

/// A power of 2 modulo 0x674e41aa25559f3f6806ca7324f298d5465d that the powers
/// `(q - 1) / r` share for `r` = 11 and 2531.
proof fn lemma_power_674e41aa25559f3f6806ca7324f298d5465d_shared_8()
    ensures
        powmod(
            2nat,
            0xf32cdc13817da0170653046a3aed715cnat,
            0x674e41aa25559f3f6806ca7324f298d5465dnat,
        ) == 0x123d72f975f15d41c9d8b6177186a9a6b078nat,
{
    lemma_power_674e41aa25559f3f6806ca7324f298d5465d_shared_7();
    lemma_power_674e41aa25559f3f6806ca7324f298d5465d_shared_8_part_1();
    lemma_powmod_mul(
        2nat,
        0xd4dc6c353c615b6af31dadd29b4nat,
        0x124753nat,
        0x674e41aa25559f3f6806ca7324f298d5465dnat,
    );
}

/// Part 1 of the chain of `lemma_power_674e41aa25559f3f6806ca7324f298d5465d_over_2531`.
proof fn lemma_power_674e41aa25559f3f6806ca7324f298d5465d_over_2531_part_1()
    ensures
        powmod(
            0x123d72f975f15d41c9d8b6177186a9a6b078nat,
            11nat,
            0x674e41aa25559f3f6806ca7324f298d5465dnat,
        ) == 0x150b873e3604a0b4755b3cc228f3c2788070nat,
{
    let q: nat = 0x674e41aa25559f3f6806ca7324f298d5465dnat;
    let b: nat = 0x123d72f975f15d41c9d8b6177186a9a6b078nat;
    lemma_powmod_basics(b, q);
    let e0: nat = 1nat;
    let v0: nat = 0x123d72f975f15d41c9d8b6177186a9a6b078nat;
    let v1: nat = 0x477c2758a5efc6fd63fa9a8fb05cf1585711nat;
    let e1: nat = step(b, q, e0, v0, false, v1);
    let v2: nat = 0x6021010cdcd696c6102d427022cdc61b65anat;
    let e2: nat = step(b, q, e1, v1, true, v2);
    let v3: nat = 0x150b873e3604a0b4755b3cc228f3c2788070nat;
    let e3: nat = step(b, q, e2, v2, true, v3);
}

/// The power `(q - 1) / 2531` of 2 modulo `q`, for `q` =
/// 0x674e41aa25559f3f6806ca7324f298d5465d.
proof fn lemma_power_674e41aa25559f3f6806ca7324f298d5465d_over_2531()
    ensures
        powmod(
            2nat,
            0xa72ed74d69065e0fd459130908833def4nat,
            0x674e41aa25559f3f6806ca7324f298d5465dnat,
        ) == 0x150b873e3604a0b4755b3cc228f3c2788070nat,
{
    lemma_power_674e41aa25559f3f6806ca7324f298d5465d_shared_8();
    lemma_power_674e41aa25559f3f6806ca7324f298d5465d_over_2531_part_1();
    lemma_powmod_mul(
        2nat,
        0xf32cdc13817da0170653046a3aed715cnat,
        11nat,
        0x674e41aa25559f3f6806ca7324f298d5465dnat,
    );
}

/// Part 1 of the chain of `lemma_power_674e41aa25559f3f6806ca7324f298d5465d_over_11`.
proof fn lemma_power_674e41aa25559f3f6806ca7324f298d5465d_over_11_part_1()
    ensures
        powmod(
            0x123d72f975f15d41c9d8b6177186a9a6b078nat,
            2531nat,
            0x674e41aa25559f3f6806ca7324f298d5465dnat,
        ) == 0x95706620185d12793a474ca876e22023953nat,
{
    let q: nat = 0x674e41aa25559f3f6806ca7324f298d5465dnat;
    let b: nat = 0x123d72f975f15d41c9d8b6177186a9a6b078nat;
    lemma_powmod_basics(b, q);
    let e0: nat = 1nat;
    let v0: nat = 0x123d72f975f15d41c9d8b6177186a9a6b078nat;
    let v1: nat = 0x477c2758a5efc6fd63fa9a8fb05cf1585711nat;
    let e1: nat = step(b, q, e0, v0, false, v1);
    let v2: nat = 0x84ee3f1b17393711b1fbce0f3baee2687cbnat;
    let e2: nat = step(b, q, e1, v1, false, v2);
    let v3: nat = 0x26c2a23cb6be41d0cdf8e3edaa7b19271d1dnat;
    let e3: nat = step(b, q, e2, v2, true, v3);
    let v4: nat = 0x419959cc6335a86cc3b682effd97db00e9abnat;
    let e4: nat = step(b, q, e3, v3, true, v4);
    let v5: nat = 0x4e572ded1793cbf5eb4252f8b89adcabd0cenat;
    let e5: nat = step(b, q, e4, v4, true, v5);
    let v6: nat = 0x1dfaed7363d221bd0b58ad01f0e32114e51bnat;
    let e6: nat = step(b, q, e5, v5, true, v6);
    let v7: nat = 0x57e225a89f403570e6b8fb343a27ca470c19nat;
    let e7: nat = step(b, q, e6, v6, false, v7);
    let v8: nat = 0x236503dc4cee69da38a63565b5cdf4ccc1danat;
    let e8: nat = step(b, q, e7, v7, false, v8);
    let v9: nat = 0x32e04fe948bd9cae0a54023421c523198ee5nat;
    let e9: nat = step(b, q, e8, v8, false, v9);
    let v10: nat = 0xabeb543d32e09f86f7b03abba5896b0c6e1nat;
    let e10: nat = step(b, q, e9, v9, true, v10);
    let v11: nat = 0x95706620185d12793a474ca876e22023953nat;
    let e11: nat = step(b, q, e10, v10, true, v11);
}

/// The power `(q - 1) / 11` of 2 modulo `q`, for `q` =
/// 0x674e41aa25559f3f6806ca7324f298d5465d.
proof fn lemma_power_674e41aa25559f3f6806ca7324f298d5465d_over_11()
    ensures
        powmod(
            2nat,
            0x9643483d4d93d05c3a386c4a6449987c094nat,
            0x674e41aa25559f3f6806ca7324f298d5465dnat,
        ) == 0x95706620185d12793a474ca876e22023953nat,
{
    lemma_power_674e41aa25559f3f6806ca7324f298d5465d_shared_8();
    lemma_power_674e41aa25559f3f6806ca7324f298d5465d_over_11_part_1();
    lemma_powmod_mul(
        2nat,
        0xf32cdc13817da0170653046a3aed715cnat,
        2531nat,
        0x674e41aa25559f3f6806ca7324f298d5465dnat,
    );
}

/// Part 1 of the chain of `lemma_power_674e41aa25559f3f6806ca7324f298d5465d_top`.
proof fn lemma_power_674e41aa25559f3f6806ca7324f298d5465d_top_part_1()
    ensures
        powmod(
            0x674e41aa25559f3f6806ca7324f298d5465cnat,
            2nat,
            0x674e41aa25559f3f6806ca7324f298d5465dnat,
        ) == 1nat,
{
    let q: nat = 0x674e41aa25559f3f6806ca7324f298d5465dnat;
    let b: nat = 0x674e41aa25559f3f6806ca7324f298d5465cnat;
    lemma_powmod_basics(b, q);
    let e0: nat = 1nat;
    let v0: nat = 0x674e41aa25559f3f6806ca7324f298d5465cnat;
    let v1: nat = 1nat;
    let e1: nat = step(b, q, e0, v0, false, v1);
}

/// The power `q - 1` of 2 modulo `q` is 1, for `q` =
/// 0x674e41aa25559f3f6806ca7324f298d5465d.
proof fn lemma_power_674e41aa25559f3f6806ca7324f298d5465d_top()
    ensures
        powmod(
            2nat,
            0x674e41aa25559f3f6806ca7324f298d5465cnat,
            0x674e41aa25559f3f6806ca7324f298d5465dnat,
        ) == 1nat,
{
    lemma_power_674e41aa25559f3f6806ca7324f298d5465d_over_2();
    lemma_power_674e41aa25559f3f6806ca7324f298d5465d_top_part_1();
    lemma_powmod_mul(
        2nat,
        0x33a720d512aacf9fb403653992794c6aa32enat,
        2nat,
        0x674e41aa25559f3f6806ca7324f298d5465dnat,
    );
}

/// 0x674e41aa25559f3f6806ca7324f298d5465d is prime: the powers of 2 pass the test of Lucas.
pub proof fn lemma_prime_674e41aa25559f3f6806ca7324f298d5465d()
    ensures
        is_prime(0x674e41aa25559f3f6806ca7324f298d5465dnat),
{
    let q: nat = 0x674e41aa25559f3f6806ca7324f298d5465dnat;
    let g: nat = 2nat;
    let factors: Seq<nat> = seq![
        2nat,
        3nat,
        11nat,
        2531nat,
        115603nat,
        0x124753nat,
        0x528e0dc7dnat,
        0x127aa16eeaabbnat,
    ];
    lemma_prime_2();
    lemma_prime_3();
    lemma_prime_11();
    lemma_prime_2531();
    lemma_prime_115603();
    lemma_prime_124753();
    lemma_prime_528e0dc7d();
    lemma_prime_127aa16eeaabb();
    // No other prime divides `q - 1`.
    lemma_split(
        0x674e41aa25559f3f6806ca7324f298d5465cnat,
        2nat,
        0x33a720d512aacf9fb403653992794c6aa32enat,
    );
    lemma_split(
        0x33a720d512aacf9fb403653992794c6aa32enat,
        2nat,
        0x19d3906a895567cfda01b29cc93ca6355197nat,
    );
    lemma_split(
        0x19d3906a895567cfda01b29cc93ca6355197nat,
        3nat,
        0x89bdace2dc7229a9e0090deedbee211c5ddnat,
    );
    lemma_split(
        0x89bdace2dc7229a9e0090deedbee211c5ddnat,
        3nat,
        0x2de9e44b9ed0b88df55859fa494f605ec9fnat,
    );
    lemma_split(
        0x2de9e44b9ed0b88df55859fa494f605ec9fnat,
        3nat,
        0xf4df6c3df9ae82f51c81dfe186fcaca435nat,
    );
    lemma_split(
        0xf4df6c3df9ae82f51c81dfe186fcaca435nat,
        3nat,
        0x519fcebf533a2ba709809ff5d7a98ee167nat,
    );
    lemma_split(
        0x519fcebf533a2ba709809ff5d7a98ee167nat,
        11nat,
        0x76b9e6e7bee03f7e997545c2ae0de7195nat,
    );
    lemma_split(
        0x76b9e6e7bee03f7e997545c2ae0de7195nat,
        2531nat,
        0xc02371d685eb292850d94c2e025027nat,
    );
    lemma_split(0xc02371d685eb292850d94c2e025027nat, 115603nat, 0x6ceca495dcbafbe7f86ba6859dnat);
    lemma_split(0x6ceca495dcbafbe7f86ba6859dnat, 0x124753nat, 0x5f588b9b93aebe8e2114fnat);
    lemma_split(0x5f588b9b93aebe8e2114fnat, 0x528e0dc7dnat, 0x127aa16eeaabbnat);
    lemma_split(0x127aa16eeaabbnat, 0x127aa16eeaabbnat, 1nat);
    lemma_no_prime_divides_one();
    assert(factors[0] == 2nat);
    assert(factors[1] == 3nat);
    assert(factors[2] == 11nat);
    assert(factors[3] == 2531nat);
    assert(factors[4] == 115603nat);
    assert(factors[5] == 0x124753nat);
    assert(factors[6] == 0x528e0dc7dnat);
    assert(factors[7] == 0x127aa16eeaabbnat);
    assert(only_prime_factors((q - 1) as nat, factors));
    // The powers.
    lemma_power_674e41aa25559f3f6806ca7324f298d5465d_top();
    lemma_power_674e41aa25559f3f6806ca7324f298d5465d_over_2();
    lemma_power_674e41aa25559f3f6806ca7324f298d5465d_over_3();
    lemma_power_674e41aa25559f3f6806ca7324f298d5465d_over_11();
    lemma_power_674e41aa25559f3f6806ca7324f298d5465d_over_2531();
    lemma_power_674e41aa25559f3f6806ca7324f298d5465d_over_115603();
    lemma_power_674e41aa25559f3f6806ca7324f298d5465d_over_124753();
    lemma_power_674e41aa25559f3f6806ca7324f298d5465d_over_528e0dc7d();
    lemma_power_674e41aa25559f3f6806ca7324f298d5465d_over_127aa16eeaabb();
    assert forall|i: int| 0 <= i < factors.len() implies factors[i] > 0 && (q - 1) % (
        factors[i] as int
    ) == 0 && powmod(g, ((q - 1) / (#[trigger] factors[i] as int)) as nat, q) != 1 by {
        if i == 0 {
            assert((q - 1) / (2nat as int) == 0x33a720d512aacf9fb403653992794c6aa32enat);
        } else if i == 1 {
            assert((q - 1) / (3nat as int) == 0x226f6b38b71c8a6a7802437bb6fb88471774nat);
        } else if i == 2 {
            assert((q - 1) / (11nat as int) == 0x9643483d4d93d05c3a386c4a6449987c094nat);
        } else if i == 3 {
            assert((q - 1) / (2531nat as int) == 0xa72ed74d69065e0fd459130908833def4nat);
        } else if i == 4 {
            assert((q - 1) / (115603nat as int) == 0x3a90889c7ed9473a2f765f10c6d911b4nat);
        } else if i == 5 {
            assert((q - 1) / (0x124753nat as int) == 0x5a6d77d4099b97f70a31ceb4e5460b4nat);
        } else if i == 6 {
            assert((q - 1) / (0x528e0dc7dnat as int) == 0x14058f6dc98f7da5c44136d81a8cnat);
        } else if i == 7 {
            assert((q - 1) / (0x127aa16eeaabbnat as int) == 0x597266203358169480663354nat);
        }
    }
    lemma_lucas(q, g, factors);
}

/// Part 1 of the chain of `lemma_power_modulus_over_674e41aa25559f3f6806ca7324f298d5465d`.
proof fn lemma_power_modulus_over_674e41aa25559f3f6806ca7324f298d5465d_part_1()
    ensures
        powmod(
            5nat,
            0x13d31ccf6470ff63fnat,
            0x40000000000000000000000000000000224698fc094cf91b992d30ed00000001nat,
        ) == 0x7b4be70b6a499248a9c750e954769895a8fdab96477d6ff042d0bbf20330a2dnat,
{
    let q: nat = 0x40000000000000000000000000000000224698fc094cf91b992d30ed00000001nat;
    let b: nat = 5nat;
    lemma_powmod_basics(b, q);
    let e0: nat = 1nat;
    let v0: nat = 5nat;
    let v1: nat = 25nat;
    let e1: nat = step(b, q, e0, v0, false, v1);
    let v2: nat = 625nat;
    let e2: nat = step(b, q, e1, v1, false, v2);
    let v3: nat = 0x1dcd65nat;
    let e3: nat = step(b, q, e2, v2, true, v3);
    let v4: nat = 0x1158e460913dnat;
    let e4: nat = step(b, q, e3, v3, true, v4);
    let v5: nat = 0x5e0a1fd2712875988becaadnat;
    let e5: nat = step(b, q, e4, v4, true, v5);
    let v6: nat = 0xacb92ed9397bf99649c2c37f07965404f547206e475c8dnat;
    let e6: nat = step(b, q, e5, v5, true, v6);
    let v7: nat = 0x1c2e90a1dfedab5935a7150067cd3b26774ce4a460ab7cad3991c68d08ffa254nat;
    let e7: nat = step(b, q, e6, v6, false, v7);
    let v8: nat = 0x31104cdfc0b7c1104e769756bf4df79f1154149301ec1ebd20282a064b191271nat;
    let e8: nat = step(b, q, e7, v7, true, v8);
    let v9: nat = 0x270ced6f7c8d6d6cc332b688ad2bad70d1af5c5a70b58dccb2d957f4f217d545nat;
    let e9: nat = step(b, q, e8, v8, false, v9);
    let v10: nat = 0x2212c19cf52d5a2184af87ac4a216550cd3a5bc44ea3adc398386f153900b97fnat;
    let e10: nat = step(b, q, e9, v9, false, v10);
    let v11: nat = 0x3577a570a46793e44aa453d315a661defeb4694a791b3c78bd0ee7ff10d39504nat;
    let e11: nat = step(b, q, e10, v10, true, v11);
    let v12: nat = 0x798893f38b98c4ecf21d2ab5cdcbee4e8901cd4f3c29def604537784688bbc1nat;
    let e12: nat = step(b, q, e11, v11, true, v12);
    let v13: nat = 0x71942ba4052205442b9316bc71137ecf1a5fda2898540aca96469ca3151d717nat;
    let e13: nat = step(b, q, e12, v12, false, v13);
    let v14: nat = 0x3f4b2bbc3181f78572fafc3a2d4ab8fc9d4075a9a8aed2685e29c0381c62dce6nat;
    let e14: nat = step(b, q, e13, v13, false, v14);
    let v15: nat = 0x2d976d0c941acf835102c0d5bc52ddf8aa78594369ade4d90e33dd8d12ab0703nat;
    let e15: nat = step(b, q, e14, v14, false, v15);
    let v16: nat = 0x27a29a8b710afdfe26ab088a8b57fa820a8015fe6017e0ae55e4a19a760c0b59nat;
    let e16: nat = step(b, q, e15, v15, true, v16);
    let v17: nat = 0x15c8eb4cad5ee4a15e9df4c7544c91c4b27a58034182e000137a16531766c076nat;
    let e17: nat = step(b, q, e16, v16, true, v17);
    let v18: nat = 0x2d6b4ddc46a69cd0bfd2efa05288de78ba1e4eefb58710112b0f94e7b0e12d94nat;
    let e18: nat = step(b, q, e17, v17, true, v18);
    let v19: nat = 0x2ed44254fb57c82580b599a3fd885f0f3f4ad4a4c37fb5ccd33b874675f1fe0bnat;
    let e19: nat = step(b, q, e18, v18, false, v19);
    let v20: nat = 0x6bd1c316a058b363de4045b5c5e1c970b9deb8e3145936c403ef8d3ce9b730bnat;
    let e20: nat = step(b, q, e19, v19, false, v20);
    let v21: nat = 0x36dc1b7b47ca26deb06b007f79dde4d3724284eded06559a7cdea0e24247b594nat;
    let e21: nat = step(b, q, e20, v20, true, v21);
    let v22: nat = 0x1451981e95d8223e7c07e583a3d71771b99a73f39f7e927c306aaf9a0e25d246nat;
    let e22: nat = step(b, q, e21, v21, true, v22);
    let v23: nat = 0x353878dc8d0f62067421956b306f28ede71aa2775d541722636174b3b489e13bnat;
    let e23: nat = step(b, q, e22, v22, false, v23);
    let v24: nat = 0x2659a705a714668c61fd7f064a5704ed124ff189ae3ab810a2c872930b27c18anat;
    let e24: nat = step(b, q, e23, v23, false, v24);
    let v25: nat = 0x5956d45887eb30703f86097af8fdf6eb6f16db95c4250039cf84f8403a0c122nat;
    let e25: nat = step(b, q, e24, v24, true, v25);
    let v26: nat = 0x5d2404ad3d2192311b2783934b68cdab74a29f44778711d80f10ccf71825c95nat;
    let e26: nat = step(b, q, e25, v25, true, v26);
    let v27: nat = 0xa812aea540680e552c0942eadd73b77dc8077059ea2a088b2de10a4b12c07d5nat;
    let e27: nat = step(b, q, e26, v26, true, v27);
    let v28: nat = 0x3fc482f91e3cb7630f740030471cd09857484db972a33a12b9eea9e7d963e4anat;
    let e28: nat = step(b, q, e27, v27, true, v28);
    let v29: nat = 0xe52f6d0503eab3e9bc52c4602e7c3bf169bbf7cce6252fd66be070ddda438f6nat;
    let e29: nat = step(b, q, e28, v28, false, v29);
    let v30: nat = 0x36e795d8def9f2dda0a0e10a9d587240e7db711b4e34a6ef5acfcc26794b7418nat;
    let e30: nat = step(b, q, e29, v29, true, v30);
    let v31: nat = 0x2c017fd8c47d9231247d8a50b6cc7c9629a6332b60b5b5ae7e53c393932fefb7nat;
    let e31: nat = step(b, q, e30, v30, true, v31);
    let v32: nat = 0x221f76187cc0d1dcf6ec711e73a656925573fa787aa7c0e94405295f84e8a7f2nat;
    let e32: nat = step(b, q, e31, v31, false, v32);
    let v33: nat = 0x17720225a4b726feb3ffb3abeaeecfb918c6b352e6ef5b28b293658e33ffa6f1nat;
    let e33: nat = step(b, q, e32, v32, false, v33);
    let v34: nat = 0x2f5f3cc739b11c05cab015bc598da6f24d8af935a951ef98749838a242289279nat;
    let e34: nat = step(b, q, e33, v33, true, v34);
    let v35: nat = 0x87799f48588dabc3fa2d0306df8aea7a211228ad53dbe8d6125707743347166nat;
    let e35: nat = step(b, q, e34, v34, false, v35);
    let v36: nat = 0x10e260e81023213c93bb930c638f28dad5b9873a1c89b06a65e3f685922ec2cfnat;
    let e36: nat = step(b, q, e35, v35, false, v36);
    let v37: nat = 0x1640495e9aec5880aad5154474b5b8751e7b9da9fd6ddcb16442e3dd36fe83ddnat;
    let e37: nat = step(b, q, e36, v36, false, v37);
    let v38: nat = 0xd786c7f22aa06f499c833382b924a75bd372b9ad0e6d02e76560ba9bb2a253nat;
    let e38: nat = step(b, q, e37, v37, true, v38);
    let v39: nat = 0x9e8e29f101d38ba34dc4bd40a6ab15ccf859d5aece5cceac893f00840fd254cnat;
    let e39: nat = step(b, q, e38, v38, true, v39);
    let v40: nat = 0x217fb49bfa760d1569af153decff2c605c8d7431a1b3f50104e99290766d7a2fnat;
    let e40: nat = step(b, q, e39, v39, true, v40);
    let v41: nat = 0x21307a6b5ef4b05e42b05d26efffb0133a2414ea91e67489fe5b71b79c258ca6nat;
    let e41: nat = step(b, q, e40, v40, false, v41);
    let v42: nat = 0x368c7efa8838affeb6cf71c1ba112d5318a9bc6f3063134ae350c78bc0800f55nat;
    let e42: nat = step(b, q, e41, v41, false, v42);
    let v43: nat = 0x2299037853b0e93484c3e02a8e1ae2d8bd2eebcdfdbb6050543e5997e171e31anat;
    let e43: nat = step(b, q, e42, v42, false, v43);
    let v44: nat = 0x1de6202747ce2612e3d63cb894e5206fcc3e260ac0e5f24deeba52a33d504d5anat;
    let e44: nat = step(b, q, e43, v43, false, v44);
    let v45: nat = 0x3bd6c114fe556836e8624253d214e8fd7282279f3536005495db5e809c471f44nat;
    let e45: nat = step(b, q, e44, v44, true, v45);
    let v46: nat = 0x8e0d02b8daa623291afe145fd1a0bfb634cbb1150a142650da48ac24df6a8e6nat;
    let e46: nat = step(b, q, e45, v45, true, v46);
    let v47: nat = 0x4841dd0f8248b19a7e1b71e0375ab4e0c1e6b3c63c0c3dd2798e29bcbb9583nat;
    let e47: nat = step(b, q, e46, v46, true, v47);
    let v48: nat = 0x27124a13acbec4a2bc1d9b1dcd853cee4708640a2fa31f16e28d5e1d6b627489nat;
    let e48: nat = step(b, q, e47, v47, true, v48);
    let v49: nat = 0x103d0d48e9540496c0cd54bb7a684ebc343d167eeaf67a66938bcf823fa2ce8anat;
    let e49: nat = step(b, q, e48, v48, true, v49);
    let v50: nat = 0x2e3c29c23f9fd4d0aa403ad7c5695e4465d43d8e1baa103f3078c50c7b47cbfanat;
    let e50: nat = step(b, q, e49, v49, true, v50);
    let v51: nat = 0x1ffaf77b428641b907ebaa8ff30a10f48839d69601a7ed9161db3c1b7faf0f14nat;
    let e51: nat = step(b, q, e50, v50, true, v51);
    let v52: nat = 0x9e9a781a206e0bf6b1f2277630ede3b7e7046f4febcf0f451a764eb505fc3c0nat;
    let e52: nat = step(b, q, e51, v51, true, v52);
    let v53: nat = 0x264a5a1b08ab93ecde482e9564eca12376be699ea84591c7a975444b7ac0a165nat;
    let e53: nat = step(b, q, e52, v52, false, v53);
    let v54: nat = 0x1ee044c20342991ae0dca8ab81322fa48212351b49f4c48db9103a2451b14cednat;
    let e54: nat = step(b, q, e53, v53, true, v54);
    let v55: nat = 0x2657403b59456aeb913f9e477ecfecf81d0d73535b6c11cedd5d6f6ff462eaa6nat;
    let e55: nat = step(b, q, e54, v54, true, v55);
    let v56: nat = 0x36b6e864fa40fb064dd14d224943b0211f35eb18bd7de122f2f12680bf9a53f9nat;
    let e56: nat = step(b, q, e55, v55, false, v56);
    let v57: nat = 0x2b9f9cfe256ad0c14f5c7daf57303ebb2dfad76fed1abcb68a05c20bd71c8enat;
    let e57: nat = step(b, q, e56, v56, false, v57);
    let v58: nat = 0x3a7b6ff0d0a68a80b8ed35f9ec0eab40795282fc168478127fc8f533b6fd0e24nat;
    let e58: nat = step(b, q, e57, v57, false, v58);
    let v59: nat = 0x3ebdb91058dcbfdeb4bdc523e9e27caf86a0822ce1049b84d2c922479bffbf97nat;
    let e59: nat = step(b, q, e58, v58, true, v59);
    let v60: nat = 0xd948fb15b91e4a21aa6ed99ab4bad1336d4d96a777842a2255dbff590361cenat;
    let e60: nat = step(b, q, e59, v59, true, v60);
    let v61: nat = 0x3d9c20ebf930f86d45bd996b025e0031f295d2448f947555c27ae33cbb5b7b4fnat;
    let e61: nat = step(b, q, e60, v60, true, v61);
    let v62: nat = 0x25109a4681ec5084df34fc37f23fd07815af475aecc45276128c229ec4c51957nat;
    let e62: nat = step(b, q, e61, v61, true, v62);
    let v63: nat = 0x3f1bc8a21bb46f52d96382fcd59fb3da0ff7a55d36fa22e7e0dcf91e6312a8b2nat;
    let e63: nat = step(b, q, e62, v62, true, v63);
    let v64: nat = 0x7b4be70b6a499248a9c750e954769895a8fdab96477d6ff042d0bbf20330a2dnat;
    let e64: nat = step(b, q, e63, v63, true, v64);
}

/// Part 2 of the chain of `lemma_power_modulus_over_674e41aa25559f3f6806ca7324f298d5465d`.
proof fn lemma_power_modulus_over_674e41aa25559f3f6806ca7324f298d5465d_part_2()
    ensures
        powmod(
            5nat,
            0x9e98e67b2387fb1fcbd100000000nat,
            0x40000000000000000000000000000000224698fc094cf91b992d30ed00000001nat,
        ) == 0x3a8c3a0030d002b0523eb4541abe71582d53186e737b2cc45c560ed3c1f3a3d6nat,
{
    let q: nat = 0x40000000000000000000000000000000224698fc094cf91b992d30ed00000001nat;
    let b: nat = 5nat;
    lemma_power_modulus_over_674e41aa25559f3f6806ca7324f298d5465d_part_1();
    let e0: nat = 0x13d31ccf6470ff63fnat;
    let v0: nat = 0x7b4be70b6a499248a9c750e954769895a8fdab96477d6ff042d0bbf20330a2dnat;
    let v1: nat = 0x31d9265dccaf3601b4cc40290e57b67e03f30da2009ddff518a3cf04e5528dd4nat;
    let e1: nat = step(b, q, e0, v0, true, v1);
    let v2: nat = 0x289f018d169523bd3a43ee3ad12b9ce176ad38bc4f58c7ea21d68ab6adadc4fcnat;
    let e2: nat = step(b, q, e1, v1, false, v2);
    let v3: nat = 0x3d0894cd5bae5ffbf21a72e4e193145b5bf8c75cc1b2b051f5ea2c78eb53ba54nat;
    let e3: nat = step(b, q, e2, v2, false, v3);
    let v4: nat = 0x38673174e9e0946e6fce5f3705946d9a934e394722ed3e5c9d6ff289265a6debnat;
    let e4: nat = step(b, q, e3, v3, true, v4);
    let v5: nat = 0x2a3f164fb4be09b654f34bed3013aec47c4469079d5d9d29a75250085ec8444dnat;
    let e5: nat = step(b, q, e4, v4, false, v5);
    let v6: nat = 0x33098a6ed02b2f509cf39ac7a2d210f27bf32dfd8c4c06626a18dc7586871c49nat;
    let e6: nat = step(b, q, e5, v5, true, v6);
    let v7: nat = 0x2fe7906444086ff1bd619fbbfd418358ceafbf2b99b158d58ba3ba327ab692f2nat;
    let e7: nat = step(b, q, e6, v6, true, v7);
    let v8: nat = 0x2035c124e1d398f9fd0b3ab4507d80b6491873b7486a7ca7d34457346913b6eanat;
    let e8: nat = step(b, q, e7, v7, true, v8);
    let v9: nat = 0x1136ad17a21296572917e9ea151818f1bb99c921fcf5e745b4752f01f6249badnat;
    let e9: nat = step(b, q, e8, v8, true, v9);
    let v10: nat = 0x19f7a2577c41cb3683cd7dde8867044021f9b642af69be9241ab2c56d05083e9nat;
    let e10: nat = step(b, q, e9, v9, false, v10);
    let v11: nat = 0xadd308af88b3ccc5f1251b81ee218e534992e8a5d1837c3d839f7ea5e29e390nat;
    let e11: nat = step(b, q, e10, v10, true, v11);
    let v12: nat = 0x392c9ab9592723b717794f81e95ae29322068c467d3411bb0dc387dd2aa420ecnat;
    let e12: nat = step(b, q, e11, v11, false, v12);
    let v13: nat = 0x13ba3bd7d4ff5e0740abd8f9035fc78bc620171c106366cf0a9f78b27b6e12b1nat;
    let e13: nat = step(b, q, e12, v12, false, v13);
    let v14: nat = 0x2d749dffdc3713024e23b1f5b718c6f5c087b10ebda3b23066ce2e3116565b5nat;
    let e14: nat = step(b, q, e13, v13, false, v14);
    let v15: nat = 0x11e6227207b72ea3c344d861e2e166ac6836e2f7dc8e65170dfdf580dee4bafanat;
    let e15: nat = step(b, q, e14, v14, true, v15);
    let v16: nat = 0x293f5e9e710d0dec154d7873fe3806b989305df1c979bbeb366a9e3ff0eaf142nat;
    let e16: nat = step(b, q, e15, v15, false, v16);
    let v17: nat = 0x20178d2a05e902f4a14a0b237b933220b9e3e1767b34607a6ccd572258fb29b7nat;
    let e17: nat = step(b, q, e16, v16, false, v17);
    let v18: nat = 0x287a77dad3947e4ce8c6a91ac22566d7e7e223662f9cda37609dfaf2fe7b16ebnat;
    let e18: nat = step(b, q, e17, v17, false, v18);
    let v19: nat = 0x18e7ed0608890c0c890f99402ec638f23b7c8c3da94abdc7a8a3974a7ab5c8d3nat;
    let e19: nat = step(b, q, e18, v18, false, v19);
    let v20: nat = 0x24ac735afb41b63306d5b63e453c3e11e41c81e41b56049b999a548403380bd3nat;
    let e20: nat = step(b, q, e19, v19, false, v20);
    let v21: nat = 0x27dd81f066de84a68b51531dbfe1d9a2eac9ebe59f4735d0aaf9005610170e90nat;
    let e21: nat = step(b, q, e20, v20, false, v21);
    let v22: nat = 0x2013b97c197bcfcf7439aa5de7f8e5ff9e13fd80eeabcf2c1536a8f5a59c5c00nat;
    let e22: nat = step(b, q, e21, v21, false, v22);
    let v23: nat = 0x32c3fbf3d19fb8a169d2aab8ea08ac6767cd7212b2611b7939671e88869d1e1cnat;
    let e23: nat = step(b, q, e22, v22, false, v23);
    let v24: nat = 0x256fb32aa6ed834bff816eeccb2842e9794cc48b87907e1bfdc8b5d82af0bd90nat;
    let e24: nat = step(b, q, e23, v23, false, v24);
    let v25: nat = 0x1ed377f1aaf90eaedd393c2a8a438232e04074b8edab65b892f07085b1456d44nat;
    let e25: nat = step(b, q, e24, v24, false, v25);
    let v26: nat = 0x34eace8a3622ee97bf88a6053523b4d71a5690dc8ccdcb83f3c0ad39f178eae9nat;
    let e26: nat = step(b, q, e25, v25, false, v26);
    let v27: nat = 0xb2a4f7400223edd98d81af69f0e425184816ea1e7511627e8469903843d7565nat;
    let e27: nat = step(b, q, e26, v26, false, v27);
    let v28: nat = 0x169dce65d8104bd39a4d27f3aa12af5f2add2452675c38d51e98595984b8fe58nat;
    let e28: nat = step(b, q, e27, v27, false, v28);
    let v29: nat = 0x391862a7df4685de25ae89aae6394e86a4d275b6bf13d5b9c654549f0ae218b5nat;
    let e29: nat = step(b, q, e28, v28, false, v29);
    let v30: nat = 0x3e3d048463d85a09717f54d88cf67bce5f12f9991efc4e79d9cfddd5ee3423ebnat;
    let e30: nat = step(b, q, e29, v29, false, v30);
    let v31: nat = 0x852a3ad283bd925c90c2f74826e04856bb5dec42b71722894587f4b73bb3c1enat;
    let e31: nat = step(b, q, e30, v30, false, v31);
    let v32: nat = 0x1868e4adfea083856921d6756fee68acd126fb462e91735f6e366bb87cd5a72nat;
    let e32: nat = step(b, q, e31, v31, false, v32);
    let v33: nat = 0x3f498591893f6ef26c1c6b6788b15bf7d8cde8a215f5db41df0db62e07b9f1e4nat;
    let e33: nat = step(b, q, e32, v32, false, v33);
    let v34: nat = 0xbe7634d5b9d2624162ae85bc785a4dac307a4c164f4d07f9853afc630e3e987nat;
    let e34: nat = step(b, q, e33, v33, false, v34);
    let v35: nat = 0x39404d46fe7a7860b4cb9a550a6b3d872853b204d686077178b111faf53dab12nat;
    let e35: nat = step(b, q, e34, v34, false, v35);
    let v36: nat = 0xf5666d7a512db05bea3562b12ea04e1f355fe5ef16b91c8371eb020b048f1fdnat;
    let e36: nat = step(b, q, e35, v35, false, v36);
    let v37: nat = 0xbda57cab7d800aeac981f92fca123c31591d80cfd1961b32a5c91529e72a670nat;
    let e37: nat = step(b, q, e36, v36, false, v37);
    let v38: nat = 0x234402e7d0e04c05d633c5559d9b12c921ce1ae7db61d96d03b3cbbb400cc4b8nat;
    let e38: nat = step(b, q, e37, v37, false, v38);
    let v39: nat = 0x324ac74c08e07f7369d4435435c566c71c4dc71951046d035bbb2c29d46cb4b9nat;
    let e39: nat = step(b, q, e38, v38, false, v39);
    let v40: nat = 0x27127eabb847cb29fef43722dcdc2b5fc427f83ee9dfc75e54de2b5e31f8c5afnat;
    let e40: nat = step(b, q, e39, v39, false, v40);
    let v41: nat = 0x24b38b8778e614a61af0515aa74c5be16fd0659d3ef81049123312690d8926f5nat;
    let e41: nat = step(b, q, e40, v40, false, v41);
    let v42: nat = 0x2d75a7158832b1e109a67312f6cc89c890856a3d967ebb65ea4f2700b7bfae83nat;
    let e42: nat = step(b, q, e41, v41, false, v42);
    let v43: nat = 0x1e0b95d38f9199599073e43f7dc5dfd9291c572e3ee4c9b41b5056733ef14a52nat;
    let e43: nat = step(b, q, e42, v42, false, v43);
    let v44: nat = 0x22d12648348a39304f479392009303a8c307a14792a36d4bf5deaf17d582e97cnat;
    let e44: nat = step(b, q, e43, v43, false, v44);
    let v45: nat = 0xa4d38ff46756a79f94abbe577c4f0d36d822f7b9b37f6b5553c9a221f8a87f9nat;
    let e45: nat = step(b, q, e44, v44, false, v45);
    let v46: nat = 0xcc4209d1e3adb30b0ea4e1b217486620d6d80311baaa32e7609c2106cc6e09anat;
    let e46: nat = step(b, q, e45, v45, false, v46);
    let v47: nat = 0x3a8c3a0030d002b0523eb4541abe71582d53186e737b2cc45c560ed3c1f3a3d6nat;
    let e47: nat = step(b, q, e46, v46, false, v47);
}

/// The power `(q - 1) / 0x674e41aa25559f3f6806ca7324f298d5465d` of 5 modulo
/// `q`, for `q` = the modulus.
proof fn lemma_power_modulus_over_674e41aa25559f3f6806ca7324f298d5465d()
    ensures
        powmod(
            5nat,
            0x9e98e67b2387fb1fcbd100000000nat,
            0x40000000000000000000000000000000224698fc094cf91b992d30ed00000001nat,
        ) == 0x3a8c3a0030d002b0523eb4541abe71582d53186e737b2cc45c560ed3c1f3a3d6nat,
{
    lemma_power_modulus_over_674e41aa25559f3f6806ca7324f298d5465d_part_2();
    lemma_powmod_basics(
        5nat,
        0x40000000000000000000000000000000224698fc094cf91b992d30ed00000001nat,
    );
    lemma_powmod_mul(
        5nat,
        1,
        0x9e98e67b2387fb1fcbd100000000nat,
        0x40000000000000000000000000000000224698fc094cf91b992d30ed00000001nat,
    );
}

/// Part 1 of the chain of `lemma_power_modulus_shared_1`.
proof fn lemma_power_modulus_shared_1_part_1()
    ensures
        powmod(
            5nat,
            0x19d3906a895567cfdnat,
            0x40000000000000000000000000000000224698fc094cf91b992d30ed00000001nat,
        ) == 0x1c488f8c8cc6c00aed88ee51707132be10681bbb7b8b3f9c3a7ecaeac2bfe064nat,
{
    let q: nat = 0x40000000000000000000000000000000224698fc094cf91b992d30ed00000001nat;
    let b: nat = 5nat;
    lemma_powmod_basics(b, q);
    let e0: nat = 1nat;
    let v0: nat = 5nat;
    let v1: nat = 125nat;
    let e1: nat = step(b, q, e0, v0, true, v1);
    let v2: nat = 15625nat;
    let e2: nat = step(b, q, e1, v1, false, v2);
    let v3: nat = 0xe8d4a51nat;
    let e3: nat = step(b, q, e2, v2, false, v3);
    let v4: nat = 0x422ca8b0a00a425nat;
    let e4: nat = step(b, q, e3, v3, true, v4);
    let v5: nat = 0x558749db77f70029c77506823d22bdnat;
    let e5: nat = step(b, q, e4, v4, true, v5);
    let v6: nat = 0x8edf98b59a373fec4724bd4189bd5eac6b5856629eedf590abb3a1ebbdadnat;
    let e6: nat = step(b, q, e5, v5, true, v6);
    let v7: nat = 0x17219cb30e26e1ffdc0888480fba1f06ecceea4b4359861452610795a1879dbanat;
    let e7: nat = step(b, q, e6, v6, false, v7);
    let v8: nat = 0x2fb53d99810c4bb42dcf16b4c93b5db52c9828587011aba39c8308f858e4079nat;
    let e8: nat = step(b, q, e7, v7, true, v8);
    let v9: nat = 0x256d1e5ef181e8d7a8bed6c6c7172d7c64e773437e029bd3d18d86a75d3ef55nat;
    let e9: nat = step(b, q, e8, v8, false, v9);
    let v10: nat = 0xa3c69870eb1326de96b590b093663f39f0967ffa4d8a6b7b8c9776092d21616nat;
    let e10: nat = step(b, q, e9, v9, false, v10);
    let v11: nat = 0x21cf8e49bba7cca6c000c79f0eafebf8bd8dfa8081d1054ffd90fd95a66adfa6nat;
    let e11: nat = step(b, q, e10, v10, true, v11);
    let v12: nat = 0x34b4c1d946b21c68a155f6caec2d745051a67114c0c789e8011ebb07e32cc2e1nat;
    let e12: nat = step(b, q, e11, v11, true, v12);
    let v13: nat = 0x2dd1b6f566743608a0771e4562f4feab655136966bdd0b4dc97e5e0eb598cd23nat;
    let e13: nat = step(b, q, e12, v12, true, v13);
    let v14: nat = 0x3459247c978235b2197125d17d78e9790d0def23463f9415926aec8457cdd572nat;
    let e14: nat = step(b, q, e13, v13, false, v14);
    let v15: nat = 0xce3071ef11515693d1a1c47fb1102eddd4d0324a7a5494f0d8b096028c8bb1dnat;
    let e15: nat = step(b, q, e14, v14, false, v15);
    let v16: nat = 0x3e956302e2f6ae9f8a3edaebe52d55b0848370edda0b7afd7c311fcc03ed537cnat;
    let e16: nat = step(b, q, e15, v15, true, v16);
    let v17: nat = 0x3cab1af919695b7a96e43b6442bff2b882ad28e1816b1f28d7c2edeeee2494b1nat;
    let e17: nat = step(b, q, e16, v16, false, v17);
    let v18: nat = 0x322fb8de4f68552cf6f5cc8c5431378b3ad4e5925065c858fd90229e3c25d498nat;
    let e18: nat = step(b, q, e17, v17, false, v18);
    let v19: nat = 0xff1436084d042feb131302588e7bbd492a537858e222e26df5757bb7e0fa2b4nat;
    let e19: nat = step(b, q, e18, v18, false, v19);
    let v20: nat = 0x6fa9fd6a83587fd8663de9a598d446bf60cc2cdb95862c4db307daabc6ce08anat;
    let e20: nat = step(b, q, e19, v19, false, v20);
    let v21: nat = 0x3b9cb1745d17770b28100ebc436d81283b62ad5123725c8725c8b16506a7e69nat;
    let e21: nat = step(b, q, e20, v20, false, v21);
    let v22: nat = 0xac40a17131ed9e1fcd3ec1aefbde29f198da52f1db19488d183aaddd9504738nat;
    let e22: nat = step(b, q, e21, v21, true, v22);
    let v23: nat = 0xb648be234a52325298be8f789717fa0f26281c7ad0f8fedf1b6605a44e4c669nat;
    let e23: nat = step(b, q, e22, v22, true, v23);
    let v24: nat = 0x213308ece24b55e96800213da1ea4cd57d1fc7849d55cfd4eb7e6ec9985f07f1nat;
    let e24: nat = step(b, q, e23, v23, false, v24);
    let v25: nat = 0x26726a97e8577005a647e9003921af5253c8a34d34a0c96829b8b08b6b941615nat;
    let e25: nat = step(b, q, e24, v24, true, v25);
    let v26: nat = 0x3e80839c84dbbe0d4351d3337816c4fe446d159d3aef17b8a4e5d459af2da197nat;
    let e26: nat = step(b, q, e25, v25, false, v26);
    let v27: nat = 0x3057e6289d13708fbedea13df678c0e9d60ac2c50c2553082c815263321a32e4nat;
    let e27: nat = step(b, q, e26, v26, true, v27);
    let v28: nat = 0x27ea91c87d6d71329e06ef535bc8d5dc66aa33846c8de91095c978ed8025aed7nat;
    let e28: nat = step(b, q, e27, v27, false, v28);
    let v29: nat = 0x3aea877e529e7bba7cb7e1fa02ecfb3a3e4c9498117cb9257c6cdf4d604bcb5cnat;
    let e29: nat = step(b, q, e28, v28, true, v29);
    let v30: nat = 0x3ea368d4a98e7033ef5f11aa6549038d8a95a4eb369c268526e236f763e99f9dnat;
    let e30: nat = step(b, q, e29, v29, false, v30);
    let v31: nat = 0x3d35e2d4b12f118e41cd5c5d332dfd604fa3d5e161765014b32a87361bc9fb27nat;
    let e31: nat = step(b, q, e30, v30, false, v31);
    let v32: nat = 0x9f1c9bf789f378e0855d50c514d781c45556222bad367fe4c2993ea0f49bfa0nat;
    let e32: nat = step(b, q, e31, v31, false, v32);
    let v33: nat = 0x3be7092834d73a83842209ad07cbe773f549f74986d37f7f057bacf75b7f8f0nat;
    let e33: nat = step(b, q, e32, v32, true, v33);
    let v34: nat = 0x1fe5f45492fb5600c935194da3ce57ff5072e9e4c719ac7e7c7ad5eefb127eafnat;
    let e34: nat = step(b, q, e33, v33, false, v34);
    let v35: nat = 0x46e9d1f5e1e165dfdc6335d2707103de544126811424d83793d5cae853d4d5nat;
    let e35: nat = step(b, q, e34, v34, false, v35);
    let v36: nat = 0x2b6cfbd251806aa77c16c48f7028e1b2b9124072ad197ea814317faf85f67b80nat;
    let e36: nat = step(b, q, e35, v35, true, v36);
    let v37: nat = 0x3cde72ce2e9089e99830343826bae7cf16128a0ae31341d1ddc89e3269164b76nat;
    let e37: nat = step(b, q, e36, v36, false, v37);
    let v38: nat = 0x29f94f2a2694098ed5f17f4694d132a22732d436ce51160d8152f45d3079d17cnat;
    let e38: nat = step(b, q, e37, v37, true, v38);
    let v39: nat = 0x35d814e01236b9338ddaf3524c32f8661b30e1ee390b90218fb5eea05af0cc26nat;
    let e39: nat = step(b, q, e38, v38, false, v39);
    let v40: nat = 0x5b5efb0bf90da48f6b07f3271a67dd0c9c8aba5d1db9b004cd3570ae55c2f5fnat;
    let e40: nat = step(b, q, e39, v39, true, v40);
    let v41: nat = 0x1d5dc47d93708d1a6f916b03531c7e4ae903dd79f9e527c2a46adb4d229f2b3enat;
    let e41: nat = step(b, q, e40, v40, false, v41);
    let v42: nat = 0x19aec6c64aba3351c54d2191f96add34be167778895b3653cefeb6a582ee5308nat;
    let e42: nat = step(b, q, e41, v41, true, v42);
    let v43: nat = 0xea5b4477e8ee54240e3959957e3cec50b51699c2e67b4966bf3b96afb7d778anat;
    let e43: nat = step(b, q, e42, v42, false, v43);
    let v44: nat = 0x23055b8e049bc2768f1448a7750f411324e99c256da6c225853317cf7150f879nat;
    let e44: nat = step(b, q, e43, v43, true, v44);
    let v45: nat = 0x99492f6702505769c44e40c8cefa68c386c40b5407df00036ed81fcc3c64f35nat;
    let e45: nat = step(b, q, e44, v44, false, v45);
    let v46: nat = 0x3c64e8e438754d413eed3ee8272c76eeb4393668dd3b3e4f104442044a7f7493nat;
    let e46: nat = step(b, q, e45, v45, true, v46);
    let v47: nat = 0x1d5b3f9d18024628f74172817b396956b00ea376b9d6210c173b79d599cc023cnat;
    let e47: nat = step(b, q, e46, v46, true, v47);
    let v48: nat = 0x1099217c480a51735e1fc451c68bb9f31e1037cf5effadac7e2a1aebd91925anat;
    let e48: nat = step(b, q, e47, v47, false, v48);
    let v49: nat = 0x19c10278363b9170d6c604abf229741b419eb8ac99e8da0160d32cf9c48a192nat;
    let e49: nat = step(b, q, e48, v48, false, v49);
    let v50: nat = 0x560dfbb63254eb7b55dfaee28f6e4ce82b752a3e890000c43629391605cd9banat;
    let e50: nat = step(b, q, e49, v49, true, v50);
    let v51: nat = 0x2448ae9ad85d402f8f91635ea2f93f801c056b5d5214767d3aeea446cb26157nat;
    let e51: nat = step(b, q, e50, v50, true, v51);
    let v52: nat = 0x10d432bd48831948d59eba7f537ae76515242fd834a00a1bee9763ef39abab9nat;
    let e52: nat = step(b, q, e51, v51, true, v52);
    let v53: nat = 0x1d7edf4b91ddadb2eb79082d634056543ced75c5bdabbe5889152fdeefe96eb0nat;
    let e53: nat = step(b, q, e52, v52, true, v53);
    let v54: nat = 0x10edcacfbeae09d7e383fc23a38538dd847034ed6a086639cdc4fe2a1e814bebnat;
    let e54: nat = step(b, q, e53, v53, true, v54);
    let v55: nat = 0x24e94e18fbd3c71340ef94cc854f23a1e912982c99c7099306003313b2629710nat;
    let e55: nat = step(b, q, e54, v54, false, v55);
    let v56: nat = 0x159e7a4d3611be36ed0e1dac4026fa275cec56366e6a2f10a6e221e79be3af58nat;
    let e56: nat = step(b, q, e55, v55, false, v56);
    let v57: nat = 0xb5aa1d4a44cbdac7e042aa1822cf964ab8e62fb6e89ec0828a26e4dbffa5d08nat;
    let e57: nat = step(b, q, e56, v56, true, v57);
    let v58: nat = 0x3e7887c457a40c6fd57090f8fe4a06c01e2f765d3b628c90362be537822593b4nat;
    let e58: nat = step(b, q, e57, v57, true, v58);
    let v59: nat = 0xdb7da338fb6c5d14174f4b35c62fb88b9e0cb4d3ccf21ef82dba1a1ca9c3ac8nat;
    let e59: nat = step(b, q, e58, v58, true, v59);
    let v60: nat = 0xe9dabbef49e648dafb34595aa6626855cecc190319dd3238c0b9ead665ab290nat;
    let e60: nat = step(b, q, e59, v59, true, v60);
    let v61: nat = 0xb5d7c88f8279d194bb1ea242c4e3e3fb76228bf5ac35b0e635ef08b217e84b0nat;
    let e61: nat = step(b, q, e60, v60, true, v61);
    let v62: nat = 0x988211c5529ec359fcabfaf63f7a7962f3e561636fd3f6fbb32e60969000122nat;
    let e62: nat = step(b, q, e61, v61, true, v62);
    let v63: nat = 0x1469686d43920afb1b4bbbbfc412e858af0b7401b6d7e96b6f862e715d58686dnat;
    let e63: nat = step(b, q, e62, v62, false, v63);
    let v64: nat = 0x1c488f8c8cc6c00aed88ee51707132be10681bbb7b8b3f9c3a7ecaeac2bfe064nat;
    let e64: nat = step(b, q, e63, v63, true, v64);
}

/// Part 2 of the chain of `lemma_power_modulus_shared_1`.
proof fn lemma_power_modulus_shared_1_part_2()
    ensures
        powmod(
            5nat,
            0x19d3906a895567cfda01b29cc93ca6355nat,
            0x40000000000000000000000000000000224698fc094cf91b992d30ed00000001nat,
        ) == 0x28d9f6a1690b295f249238f9f07cc64574b68c3496fb43c05675dcd0c2069159nat,
{
    let q: nat = 0x40000000000000000000000000000000224698fc094cf91b992d30ed00000001nat;
    let b: nat = 5nat;
    lemma_power_modulus_shared_1_part_1();
    let e0: nat = 0x19d3906a895567cfdnat;
    let v0: nat = 0x1c488f8c8cc6c00aed88ee51707132be10681bbb7b8b3f9c3a7ecaeac2bfe064nat;
    let v1: nat = 0x1b1a41b57b153f87bec8dc7a323707ca5a53a7c867f59a79fcf8c83fae63e5bbnat;
    let e1: nat = step(b, q, e0, v0, true, v1);
    let v2: nat = 0x343744dffb009a116b29e82e05716069e505c66e3dd62af53b13fc32caeb10a5nat;
    let e2: nat = step(b, q, e1, v1, false, v2);
    let v3: nat = 0x31972cd9a26470a4e29ceba46b40ee02c4446ccf9c0605230227e6509551e60dnat;
    let e3: nat = step(b, q, e2, v2, true, v3);
    let v4: nat = 0x31401fa576d55e7939ee042aac87dca16f28816db455c637a808df0a071885c2nat;
    let e4: nat = step(b, q, e3, v3, false, v4);
    let v5: nat = 0x9029a7fe0695ff2f5115d82bc33cb8d9eab988e7a6821e4e70d702139c3f569nat;
    let e5: nat = step(b, q, e4, v4, false, v5);
    let v6: nat = 0x53450cf0fc92acce582e9bf2311d1fbf25eb6ff4d100486f1a1ebcdd4fdff96nat;
    let e6: nat = step(b, q, e5, v5, false, v6);
    let v7: nat = 0x2350630c25448ba99bcbc50da9d1caedc2a3b5f87d5cb69ec313898620700977nat;
    let e7: nat = step(b, q, e6, v6, false, v7);
    let v8: nat = 0x159be18b3ace6a0122350994ad04226382acd048e310c41ad03a372bb80ad631nat;
    let e8: nat = step(b, q, e7, v7, false, v8);
    let v9: nat = 0x468fc97de1678da31e35b3d96fae26aab028693e72eb0a5ffdd39a8286f93ecnat;
    let e9: nat = step(b, q, e8, v8, false, v9);
    let v10: nat = 0x2402fc56aa942e480dc40a71bd8185f244f3222e6f678446757604daa17beba3nat;
    let e10: nat = step(b, q, e9, v9, false, v10);
    let v11: nat = 0x10d37d1865f759eb5a9cd7bf4f0820a55b39287f723ef6dad29528a2809a415bnat;
    let e11: nat = step(b, q, e10, v10, false, v11);
    let v12: nat = 0x76f3a728cb60bb593119828209a88d918d2d8dc2bd2d74850c60aa27d91658anat;
    let e12: nat = step(b, q, e11, v11, true, v12);
    let v13: nat = 0x35ded8e34269b57b72ae6e3baf9a23d81c985be6c7f4b6c75594ff3a36e00615nat;
    let e13: nat = step(b, q, e12, v12, true, v13);
    let v14: nat = 0x3f962940aab9d9363d77a9d8b2bac3dd92958e828ceb7feb40bff0800a1c86fnat;
    let e14: nat = step(b, q, e13, v13, false, v14);
    let v15: nat = 0x341e03d473511481df09ed0efa2491419053c1f1431f79bc8e29e906f7405018nat;
    let e15: nat = step(b, q, e14, v14, true, v15);
    let v16: nat = 0x5f1bb034ad087a4ea266cf8dc8c7c70d1ff4a6efbd8715f8427365fbeedd60bnat;
    let e16: nat = step(b, q, e15, v15, true, v16);
    let v17: nat = 0x19b3246d38896b634a71aa618085e64bbfeb938f525397be3d5a7a0a0aebf563nat;
    let e17: nat = step(b, q, e16, v16, false, v17);
    let v18: nat = 0xb00b8eb9665ebada9184a5dc410e1d5e3c16fc202b384b416ee4206235be61cnat;
    let e18: nat = step(b, q, e17, v17, false, v18);
    let v19: nat = 0x6f90f1909cf3d4568e86a8c84161dd4eab1cbf4b68b2f0c542b30c729c6327bnat;
    let e19: nat = step(b, q, e18, v18, true, v19);
    let v20: nat = 0x10dae4e81ff4fb939458483ee615e1ce9332c83a7449c82ee49b2be545aba252nat;
    let e20: nat = step(b, q, e19, v19, false, v20);
    let v21: nat = 0x29c3982f2e30c6752b96c7ab4e652b846c134941afb8759e6e5051bd30614a97nat;
    let e21: nat = step(b, q, e20, v20, true, v21);
    let v22: nat = 0x1f081b98d9b5c743538c493f00cd9ac218efd8ff3f60fcdab746affd890011aenat;
    let e22: nat = step(b, q, e21, v21, false, v22);
    let v23: nat = 0x3bf2cb9791cbb4fdd732dd0e3762c29985e4c756d3d96912c3ae3ae50195a32enat;
    let e23: nat = step(b, q, e22, v22, false, v23);
    let v24: nat = 0x1f9f1fb6d91c643d9b5a49d1282618044c97a3a2de7e0df0007fa21167dfdbe8nat;
    let e24: nat = step(b, q, e23, v23, true, v24);
    let v25: nat = 0xae9545d06e86fe2b318b47053f915f2a2353b8de28123d4e20b5fcdd7337f66nat;
    let e25: nat = step(b, q, e24, v24, true, v25);
    let v26: nat = 0x1ecafa2e1c225d93b6cb1705263d8e3fcc0fc402d1f652251d898ab0202f0f2dnat;
    let e26: nat = step(b, q, e25, v25, true, v26);
    let v27: nat = 0x1704ad25dfd04a29638289f40a0a78d7971cbf5a7bb7b2e22d12749697a5c16enat;
    let e27: nat = step(b, q, e26, v26, false, v27);
    let v28: nat = 0x3488d75d1c00538fdeebe96caf22fafe26cc2fa4c3671acd6c78d14b4d2669eenat;
    let e28: nat = step(b, q, e27, v27, false, v28);
    let v29: nat = 0x22628372ea37b3b4b444b2542ed63f4fc48d53ed914ad35eaaf22875cb421c18nat;
    let e29: nat = step(b, q, e28, v28, true, v29);
    let v30: nat = 0x3bde2c7e2a14e3e4d12d0a1026a999405a47e9fa730fd72e99d783b8b6f8aa20nat;
    let e30: nat = step(b, q, e29, v29, true, v30);
    let v31: nat = 0xd9a89aec66219d9b6e9b307c4907006fb91292703a89d2f40647f7c64e50da2nat;
    let e31: nat = step(b, q, e30, v30, false, v31);
    let v32: nat = 0x3aed06f91df2569d8c9ec923c5c78a0f968c531501b9647d5806d04ad16041e2nat;
    let e32: nat = step(b, q, e31, v31, false, v32);
    let v33: nat = 0x276a32643b71d677ce5eb1557396c2ab1e94ea3f6597139cffbab2812ffd4c70nat;
    let e33: nat = step(b, q, e32, v32, true, v33);
    let v34: nat = 0x2eb58fbad8113268c0ddac1646c166e7e355bc36bfd9b2087f8d6a6b8abb08cnat;
    let e34: nat = step(b, q, e33, v33, false, v34);
    let v35: nat = 0xfbe8997a7d86901c9c5505c4bc0c5452e3be46595e31fbc5b6481c561268344nat;
    let e35: nat = step(b, q, e34, v34, false, v35);
    let v36: nat = 0x23abfc95f3b499a10d2571e5e43a04141f4db2ba340d706f96d4dca625d917abnat;
    let e36: nat = step(b, q, e35, v35, true, v36);
    let v37: nat = 0x12d0b7b855069fd93fbcf17b3785a39137681eee21367056fa3221f71ad595d0nat;
    let e37: nat = step(b, q, e36, v36, false, v37);
    let v38: nat = 0xa95f3e749d5a0a67b3c49f9b2766daf2a9db536f47feec21d7db6e11aeb4afenat;
    let e38: nat = step(b, q, e37, v37, false, v38);
    let v39: nat = 0x1303a020a28d28ab061eb217d141379365ac9cc9bdfca7886d9e47530e783686nat;
    let e39: nat = step(b, q, e38, v38, true, v39);
    let v40: nat = 0x54c31d158ffb92d6beffa930fc39eb331bb330cbb72c7a11ffd39f344b0da12nat;
    let e40: nat = step(b, q, e39, v39, true, v40);
    let v41: nat = 0x136602767040fb75878586c184afcae9f1e4ce7434e7cc678d5c08ab09c14ad4nat;
    let e41: nat = step(b, q, e40, v40, true, v41);
    let v42: nat = 0x1d5dc62f03393e561f34e841a50e9743b77b40562104a7ad8f7d10670fc4988nat;
    let e42: nat = step(b, q, e41, v41, true, v42);
    let v43: nat = 0x3f93fba6ce4b3e0ccbf7e350ab5bd923073acf87a1592e88cfa90b7f23b2ab79nat;
    let e43: nat = step(b, q, e42, v42, false, v43);
    let v44: nat = 0x15da10ac371f81e3f9d22a745b735a6d2e7d660e1e62c5959e44ec64e4d122dnat;
    let e44: nat = step(b, q, e43, v43, false, v44);
    let v45: nat = 0x36a4e945474b5bdb12b49ce55aaa8bc6ab48dc56d27a308568105361b30174ebnat;
    let e45: nat = step(b, q, e44, v44, true, v45);
    let v46: nat = 0x1e43ff447cddcf5c2dd777ad46ee758fb880bcc9aebea14c537523894d38a8ebnat;
    let e46: nat = step(b, q, e45, v45, false, v46);
    let v47: nat = 0x2acafb55cd1265675f00bbd038e9d297c75edd47910ed19d593d15d74a873236nat;
    let e47: nat = step(b, q, e46, v46, true, v47);
    let v48: nat = 0x274eb49a8586b7cf26445c8fe588d792e89ec67b74c28b6605b2f58fe0857f8enat;
    let e48: nat = step(b, q, e47, v47, false, v48);
    let v49: nat = 0xdea6ce1faaf68221b4f3a6f02101ea51f0f450c4475e8bc7704b841f1e6d644nat;
    let e49: nat = step(b, q, e48, v48, false, v49);
    let v50: nat = 0x20839bd372fba311a9a69790868e3b0f9cacafd35a4a30bf2179b8c30019d94anat;
    let e50: nat = step(b, q, e49, v49, true, v50);
    let v51: nat = 0x3c04c4acbd888a32138835d230e1a1a34122a541b8438a86689589926c1c673anat;
    let e51: nat = step(b, q, e50, v50, true, v51);
    let v52: nat = 0x445b27a5b4a27e6c46cf0534083be9e39cb57656473605654359790de2c003dnat;
    let e52: nat = step(b, q, e51, v51, false, v52);
    let v53: nat = 0xb0fe1be9582ea8cb7f265dfada78afb7ed2f208189b4a9280d8c470d25ee828nat;
    let e53: nat = step(b, q, e52, v52, false, v53);
    let v54: nat = 0x2880557b19ae4cd076feb2b5ad4a11e369f1533f083e5d9fb8dd9ac5f06ba0e9nat;
    let e54: nat = step(b, q, e53, v53, false, v54);
    let v55: nat = 0x760f342693f4c562b27835abbb17c887e2fff9c54c985f561a9a133f78c3e9bnat;
    let e55: nat = step(b, q, e54, v54, true, v55);
    let v56: nat = 0x1998d326ed3375025fec76c83b315bff639560c4c3a5e870ed2916d2859aaddbnat;
    let e56: nat = step(b, q, e55, v55, true, v56);
    let v57: nat = 0x36aa00ffdf4667cdadec0f6a4d639a8539b8e44c52c0644a9c76f82cf10b6880nat;
    let e57: nat = step(b, q, e56, v56, false, v57);
    let v58: nat = 0x3063c288850c17012a98c8fbf3dde7b019e002992165c07a5957baff4cd1a344nat;
    let e58: nat = step(b, q, e57, v57, true, v58);
    let v59: nat = 0x34e2da73bbc536e950852ae8bdf695bc59224f12cf27a2461fd3113252607ba4nat;
    let e59: nat = step(b, q, e58, v58, false, v59);
    let v60: nat = 0x2bcbf445a93918b6298e07ea8ecb39bb3112ce85abb8d68de018ed96183c13anat;
    let e60: nat = step(b, q, e59, v59, true, v60);
    let v61: nat = 0x2e70ad6a7c0421f8cd165407a0b1e3a4871633e1da83a8fe79f714a6c5f33ea7nat;
    let e61: nat = step(b, q, e60, v60, false, v61);
    let v62: nat = 0x3865de9a1ff66d02bbcfb42ac5cdc68a9a67e7c63fe7930743ef3d04837f09fnat;
    let e62: nat = step(b, q, e61, v61, true, v62);
    let v63: nat = 0x3145b96ce9f0947083d4f47bb15d3b93504a3cc95d7ff64816de9d49e2f2db60nat;
    let e63: nat = step(b, q, e62, v62, false, v63);
    let v64: nat = 0x28d9f6a1690b295f249238f9f07cc64574b68c3496fb43c05675dcd0c2069159nat;
    let e64: nat = step(b, q, e63, v63, true, v64);
}

/// Part 3 of the chain of `lemma_power_modulus_shared_1`.
proof fn lemma_power_modulus_shared_1_part_3()
    ensures
        powmod(
            5nat,
            0x674e41aa25559f3f6806ca7324f298d5465dnat,
            0x40000000000000000000000000000000224698fc094cf91b992d30ed00000001nat,
        ) == 0x35598770f9432d2724d93fd7b14705f1f0fe4209481e60dcd3dadc72fe1fa097nat,
{
    let q: nat = 0x40000000000000000000000000000000224698fc094cf91b992d30ed00000001nat;
    let b: nat = 5nat;
    lemma_power_modulus_shared_1_part_2();
    let e0: nat = 0x19d3906a895567cfda01b29cc93ca6355nat;
    let v0: nat = 0x28d9f6a1690b295f249238f9f07cc64574b68c3496fb43c05675dcd0c2069159nat;
    let v1: nat = 0x20e4eb64e9f0829103e94011b43f8446027a282adfebffc39141b78811976991nat;
    let e1: nat = step(b, q, e0, v0, false, v1);
    let v2: nat = 0x257038e2b720a2d8463b6ea93632d17a762ec479fc6b8f3de055fbba8abb36danat;
    let e2: nat = step(b, q, e1, v1, false, v2);
    let v3: nat = 0x2d4ca9eab6de10ca08420c33f803d95fde88bc8d4f0c119776f1ab7787b93ccenat;
    let e3: nat = step(b, q, e2, v2, false, v3);
    let v4: nat = 0x5e306790f99ae535d6f503fe1674d67853f9e804172187ff61c63b4a5080004nat;
    let e4: nat = step(b, q, e3, v3, true, v4);
    let v5: nat = 0xf72af00522102193bf17d09462eb2e27d87d9049ea897729bbab5d5ac8b34f8nat;
    let e5: nat = step(b, q, e4, v4, true, v5);
    let v6: nat = 0x3a39b454af9ae0593515772284bb88eb095ac46b4c8c051d344ba9463d78f6e1nat;
    let e6: nat = step(b, q, e5, v5, false, v6);
    let v7: nat = 0x10aa78335caf513ee776e66d5d8d8375f904650326308f01073034853f9efef1nat;
    let e7: nat = step(b, q, e6, v6, false, v7);
    let v8: nat = 0xbd9ce9dd226c21bf52de0570221a4c4b6fa2ac8b56e2951918f81df4f91b3e2nat;
    let e8: nat = step(b, q, e7, v7, true, v8);
    let v9: nat = 0x30728b89866ba68f3602bae69220cf678d2e03d68fb4d8ec7102f849fe7de448nat;
    let e9: nat = step(b, q, e8, v8, false, v9);
    let v10: nat = 0x4c57294c46a034d74f4cf22c282e59035929ddfe7f18eff656a1617ef31f9d1nat;
    let e10: nat = step(b, q, e9, v9, true, v10);
    let v11: nat = 0x2f222f8eba8bb093733678c5f683496829d5aadb6afc72a77255212ff8b0af60nat;
    let e11: nat = step(b, q, e10, v10, true, v11);
    let v12: nat = 0x3288961fe3db4b77f9555e47f5193c4ceebe7b7756820bb1d352076c153dce8dnat;
    let e12: nat = step(b, q, e11, v11, true, v12);
    let v13: nat = 0x3d08ac1534e97843e6ccc54d06188448f5ea0b118cae1a0a3f00995153e3ae15nat;
    let e13: nat = step(b, q, e12, v12, false, v13);
    let v14: nat = 0x35598770f9432d2724d93fd7b14705f1f0fe4209481e60dcd3dadc72fe1fa097nat;
    let e14: nat = step(b, q, e13, v13, true, v14);
}

/// A power of 5 modulo the modulus that the powers `(q - 1) / r` share for
/// `r` = 2, 3, 463 and 0x1d3af59550161cf575.
proof fn lemma_power_modulus_shared_1()
    ensures
        powmod(
            5nat,
            0x674e41aa25559f3f6806ca7324f298d5465dnat,
            0x40000000000000000000000000000000224698fc094cf91b992d30ed00000001nat,
        ) == 0x35598770f9432d2724d93fd7b14705f1f0fe4209481e60dcd3dadc72fe1fa097nat,
{
    lemma_power_modulus_shared_1_part_3();
    lemma_powmod_basics(
        5nat,
        0x40000000000000000000000000000000224698fc094cf91b992d30ed00000001nat,
    );
    lemma_powmod_mul(
        5nat,
        1,
        0x674e41aa25559f3f6806ca7324f298d5465dnat,
        0x40000000000000000000000000000000224698fc094cf91b992d30ed00000001nat,
    );
}

/// Part 1 of the chain of `lemma_power_modulus_over_1d3af59550161cf575`.
proof fn lemma_power_modulus_over_1d3af59550161cf575_part_1()
    ensures
        powmod(
            0x35598770f9432d2724d93fd7b14705f1f0fe4209481e60dcd3dadc72fe1fa097nat,
            0x56d00000000nat,
            0x40000000000000000000000000000000224698fc094cf91b992d30ed00000001nat,
        ) == 0x1c18998b5e6c74e38280a970a5589dadc65d0f228dfc2a9b9d7586768942b179nat,
{
    let q: nat = 0x40000000000000000000000000000000224698fc094cf91b992d30ed00000001nat;
    let b: nat = 0x35598770f9432d2724d93fd7b14705f1f0fe4209481e60dcd3dadc72fe1fa097nat;
    lemma_powmod_basics(b, q);
    let e0: nat = 1nat;
    let v0: nat = 0x35598770f9432d2724d93fd7b14705f1f0fe4209481e60dcd3dadc72fe1fa097nat;
    let v1: nat = 0x2d07c7de1272782df88d1b65f11ae4e7e10cf71eeff0a879c022d031e733464fnat;
    let e1: nat = step(b, q, e0, v0, false, v1);
    let v2: nat = 0x20da5111eecd1c144a8dbc9dc647a5da64f5767705874ad2b10ef3701de69ea9nat;
    let e2: nat = step(b, q, e1, v1, true, v2);
    let v3: nat = 0x65223a1baec5cd61e50dffeb94752a618c5e61523b3f9a025faf075a32d3e5nat;
    let e3: nat = step(b, q, e2, v2, false, v3);
    let v4: nat = 0x2933149452548292ace8403f75a140b78f5d022869d4409e291897a56dbec3e4nat;
    let e4: nat = step(b, q, e3, v3, true, v4);
    let v5: nat = 0x251b27f204ee4415702c897961da8d45fe84db3dd85a9496f27806ec9eb3c8afnat;
    let e5: nat = step(b, q, e4, v4, true, v5);
    let v6: nat = 0x3ef4842b5a0c4585b2a82f24a52578541f8a19769c1a262a1c5d4dfddfa33f7cnat;
    let e6: nat = step(b, q, e5, v5, false, v6);
    let v7: nat = 0x1dec051879097090d0fb00ed9feb515b8e743dca215d19432b345775f321bf8nat;
    let e7: nat = step(b, q, e6, v6, true, v7);
    let v8: nat = 0x1b7657f7b74bab8431694521eb3942f0a28c08aff49002f3ff762ea3fcd903ccnat;
    let e8: nat = step(b, q, e7, v7, true, v8);
    let v9: nat = 0x19eef3c2e3c8061aa72b1bf8a5a9cc3cc2a5470d63617621077f73e869c8d20dnat;
    let e9: nat = step(b, q, e8, v8, false, v9);
    let v10: nat = 0x3564412fbf97db3bc794f36a0f5c44925dc77b7e676112a9ccf43430576ce016nat;
    let e10: nat = step(b, q, e9, v9, true, v10);
    let v11: nat = 0x2adc2d523a54b4c80b8b6a179845532d72175682d577367e4ea622477951c8d7nat;
    let e11: nat = step(b, q, e10, v10, false, v11);
    let v12: nat = 0xfb7617fb75ca2c2d863fb363dad989de6c44946aa4ae2d359f72fe84da305d3nat;
    let e12: nat = step(b, q, e11, v11, false, v12);
    let v13: nat = 0x245a6e7c0b2be278c832b3782e65a8bef2109796c60147fd8150a16b7cc518c0nat;
    let e13: nat = step(b, q, e12, v12, false, v13);
    let v14: nat = 0x11e515eb4b4e8dc5168adaf2272be390ac038e6304f4dcebbe03cb28aca9debbnat;
    let e14: nat = step(b, q, e13, v13, false, v14);
    let v15: nat = 0x29a15eb8c28f82cfa90918db8a46cc6a8c23da2dc62efb43f98ea96df0d4f4e3nat;
    let e15: nat = step(b, q, e14, v14, false, v15);
    let v16: nat = 0x350fa4ded8da1839df7e17dfd70c5d0fa0da45d5799299e9e5fee9cbb257db7fnat;
    let e16: nat = step(b, q, e15, v15, false, v16);
    let v17: nat = 0x1d124ca2d8ce886866b6cc9ba2901b8494c522b95b6081bbb6a10f405b6b4b47nat;
    let e17: nat = step(b, q, e16, v16, false, v17);
    let v18: nat = 0x2f35629a688742cb05257d5e719e182a7343cadbf51531dd7a3cd289cdfa7fcenat;
    let e18: nat = step(b, q, e17, v17, false, v18);
    let v19: nat = 0x1964e4607ab13ebe946a2d6931f3f682115ae3e448bd2f979abc4f9b8a2cb20bnat;
    let e19: nat = step(b, q, e18, v18, false, v19);
    let v20: nat = 0x19d3978c30c0869cd6c4a32ffe96597b0f456887f4d576d7199ce23413e7e1canat;
    let e20: nat = step(b, q, e19, v19, false, v20);
    let v21: nat = 0x2839d25ecaa00d4d47007dcb2bb947d1899a12f7dcbb9538dd10cfd32ce92f24nat;
    let e21: nat = step(b, q, e20, v20, false, v21);
    let v22: nat = 0x15256dc8e2e11dcfa9e30a2fffdae0b1ede67f2b6ed92198f822d3347fb7ce5nat;
    let e22: nat = step(b, q, e21, v21, false, v22);
    let v23: nat = 0x18a807870e671e9ec24af2166d9fcb6aac2cb6d90c822c4c74eb091f46fba79cnat;
    let e23: nat = step(b, q, e22, v22, false, v23);
    let v24: nat = 0x2dc6d22fbcefc785dfc7b44ef8813d71d72ae6f87cd0a85d8cbeab7a0e9f0747nat;
    let e24: nat = step(b, q, e23, v23, false, v24);
    let v25: nat = 0xdcd7be5988ab57b73d5736a9bce5c2f7f0b571989bd6e29a002c2ebd762ba12nat;
    let e25: nat = step(b, q, e24, v24, false, v25);
    let v26: nat = 0x3f46da81d910634e31e2da0e021df3e1fbedd2b7fa30a5fd2fe11219a153f7a5nat;
    let e26: nat = step(b, q, e25, v25, false, v26);
    let v27: nat = 0x25861c3e6a9e9b8e7ca188945f6e3f595659b11e102092b3e348bd5cba7c4ab1nat;
    let e27: nat = step(b, q, e26, v26, false, v27);
    let v28: nat = 0x30cd438bbc35b9b39ff4f831591b6fad94e3d04583bcfd0b65b24da9ebc20a70nat;
    let e28: nat = step(b, q, e27, v27, false, v28);
    let v29: nat = 0x3a0abb1f86f6f7677cf5fc2340a320ea164ba14c3d99d48635c88548abf930efnat;
    let e29: nat = step(b, q, e28, v28, false, v29);
    let v30: nat = 0x276a97ef7e2a4edfad726ac986f08b40cfeecdd0eea0d60ec1b66db497d4a49anat;
    let e30: nat = step(b, q, e29, v29, false, v30);
    let v31: nat = 0x707ec5f3609856cfe8bba7deb4b4bfd077ead6eb0a0fbdf22c42d3ea24d9b7fnat;
    let e31: nat = step(b, q, e30, v30, false, v31);
    let v32: nat = 0x11b58662253915b5fdcd3e09b9b59e0c1d33030b3f9a2c1d8f5df934e0cb1f44nat;
    let e32: nat = step(b, q, e31, v31, false, v32);
    let v33: nat = 0x197a02f1a6268136924304d677c13a5b1e4cf88b8da12a4f6a2b99bd23dad59dnat;
    let e33: nat = step(b, q, e32, v32, false, v33);
    let v34: nat = 0x193137aba3ec1d8aedf5ee224e814be59fc115c830200ae472640b0119ca8dc2nat;
    let e34: nat = step(b, q, e33, v33, false, v34);
    let v35: nat = 0x249ba30d6fd4dd99e6aa144d3688b370437f65d4938a86e7f6cc5a52af2eb8c8nat;
    let e35: nat = step(b, q, e34, v34, false, v35);
    let v36: nat = 0x1eb2e0f48036e6e8e2a281882c44c7e867b5e12d4d9689d805be6315ca0e4ac5nat;
    let e36: nat = step(b, q, e35, v35, false, v36);
    let v37: nat = 0x3ad3cd23891d60ac869cb57330c31e1a96e048146f1fb6eb7ee74a6112032bd7nat;
    let e37: nat = step(b, q, e36, v36, false, v37);
    let v38: nat = 0xe9189eeb8d83ad1ca2f1ccd6e2ab1a3df422c963813fd859e6b7786196a44canat;
    let e38: nat = step(b, q, e37, v37, false, v38);
    let v39: nat = 0x2756791eba1deabf1cc7fb52176b5e69ba9d27e5ce9e1b53c7af47941c765afdnat;
    let e39: nat = step(b, q, e38, v38, false, v39);
    let v40: nat = 0x288fdb525271cc486800bf4bb181134d13a089e3d457caf1070dbfdc9ad63170nat;
    let e40: nat = step(b, q, e39, v39, false, v40);
    let v41: nat = 0x2715e1e5c5b54fce1b91cfe2ec6c4943d37cc8021af4cd3e88f5136b91b6952enat;
    let e41: nat = step(b, q, e40, v40, false, v41);
    let v42: nat = 0x1c18998b5e6c74e38280a970a5589dadc65d0f228dfc2a9b9d7586768942b179nat;
    let e42: nat = step(b, q, e41, v41, false, v42);
}

/// The power `(q - 1) / 0x1d3af59550161cf575` of 5 modulo `q`, for `q` = the
/// modulus.
proof fn lemma_power_modulus_over_1d3af59550161cf575()
    ensures
        powmod(
            5nat,
            0x230839a482c91910b076cd872bf78473d2ec69900000000nat,
            0x40000000000000000000000000000000224698fc094cf91b992d30ed00000001nat,
        ) == 0x1c18998b5e6c74e38280a970a5589dadc65d0f228dfc2a9b9d7586768942b179nat,
{
    lemma_power_modulus_shared_1();
    lemma_power_modulus_over_1d3af59550161cf575_part_1();
    lemma_powmod_mul(
        5nat,
        0x674e41aa25559f3f6806ca7324f298d5465dnat,
        0x56d00000000nat,
        0x40000000000000000000000000000000224698fc094cf91b992d30ed00000001nat,
    );
}

/// Part 1 of the chain of `lemma_power_modulus_shared_2`.
proof fn lemma_power_modulus_shared_2_part_1()
    ensures
        powmod(
            0x35598770f9432d2724d93fd7b14705f1f0fe4209481e60dcd3dadc72fe1fa097nat,
            0x1d3af59550161cf57nat,
            0x40000000000000000000000000000000224698fc094cf91b992d30ed00000001nat,
        ) == 0x4e16f72a47f6e420a0ca6a14029b86cd9710293804929428ff1937d3497962anat,
{
    let q: nat = 0x40000000000000000000000000000000224698fc094cf91b992d30ed00000001nat;
    let b: nat = 0x35598770f9432d2724d93fd7b14705f1f0fe4209481e60dcd3dadc72fe1fa097nat;
    lemma_powmod_basics(b, q);
    let e0: nat = 1nat;
    let v0: nat = 0x35598770f9432d2724d93fd7b14705f1f0fe4209481e60dcd3dadc72fe1fa097nat;
    let v1: nat = 0x3d5a3fad73eba438a182ec4a62b8a7548ed37b91b6180b0482296061d9980211nat;
    let e1: nat = step(b, q, e0, v0, true, v1);
    let v2: nat = 0x2c5d3c131894fc09ba52790a753c875514e7516fd44d0dd02c7e11ebe8353c3anat;
    let e2: nat = step(b, q, e1, v1, true, v2);
    let v3: nat = 0x18f03883c636aea0d97dad307556f58d7469ccc96c1344b45494ecab8bfb7db5nat;
    let e3: nat = step(b, q, e2, v2, false, v3);
    let v4: nat = 0x3b9838e1524a3f14b7dcd4d2ef674409e93136a9cd53ab38b0397b8ba5c317efnat;
    let e4: nat = step(b, q, e3, v3, true, v4);
    let v5: nat = 0x1fc3914befc7ffeaed71cf7f1df68ed586f6b9be1a35c6be7e6fbadd4ebf43c8nat;
    let e5: nat = step(b, q, e4, v4, false, v5);
    let v6: nat = 0x2da6babe8a2324fca1168d86c285c4d5b3b1171931054e82457570416cf1a630nat;
    let e6: nat = step(b, q, e5, v5, false, v6);
    let v7: nat = 0x2036452f894f6963906b063f74c7989b3579f6f5d4b1680cd664e4f6189ed689nat;
    let e7: nat = step(b, q, e6, v6, true, v7);
    let v8: nat = 0x2b8139d87b112e9182be5fc699a08c58f27aa32eb091d3b9547e81c702ac3bdfnat;
    let e8: nat = step(b, q, e7, v7, true, v8);
    let v9: nat = 0x980227ea7399466c19ae4ab85e7775f930398b7607033ff756373cc3e4bae5dnat;
    let e9: nat = step(b, q, e8, v8, true, v9);
    let v10: nat = 0x6addb78bd6ba8f95f65c48ed80e9bcddc245a21c335238fac9080b9d91fcaa6nat;
    let e10: nat = step(b, q, e9, v9, false, v10);
    let v11: nat = 0x77371989df25511e332dd6f8fc700af7ae492090f3ba65baf28484491af72c8nat;
    let e11: nat = step(b, q, e10, v10, true, v11);
    let v12: nat = 0x2457bb81672e51cfb03450078c5501b9a4eca0df0dc95f2cb4b5476d459686f1nat;
    let e12: nat = step(b, q, e11, v11, false, v12);
    let v13: nat = 0xf9ce689b5b9f2e282de1a19cc10ad1bf80841ab4495731a8fc0c6c3a63b6695nat;
    let e13: nat = step(b, q, e12, v12, true, v13);
    let v14: nat = 0x3d65117d3e953ad8e49d4c1c041533d2baa16b5388478b45e031fdec827d8a2dnat;
    let e14: nat = step(b, q, e13, v13, true, v14);
    let v15: nat = 0xf368218fa5b3c6ae5b2287c3daf0d457e593d59725cd66fb24e40263bf408ednat;
    let e15: nat = step(b, q, e14, v14, true, v15);
    let v16: nat = 0x97ad5de1aa5abfe91d71bc41581196a034678fe2a6eb29f451f1ec9eff191b7nat;
    let e16: nat = step(b, q, e15, v15, true, v16);
    let v17: nat = 0x2512994463ebce19657470432171c14b2a5b326a0f64c679ccb6bf39a025a803nat;
    let e17: nat = step(b, q, e16, v16, false, v17);
    let v18: nat = 0x4985c4d018361b6a016a1417a7cc49194116b4da9cbca45becd15914a2757d6nat;
    let e18: nat = step(b, q, e17, v17, true, v18);
    let v19: nat = 0x20b8ea08c5ea7de6bc3f2e1f7ec62b574207ae053398091fa593f0ee4def1d71nat;
    let e19: nat = step(b, q, e18, v18, false, v19);
    let v20: nat = 0x35e30a37ab0ac389d2bbeb1f4a7cab371700751a7a50c3c714300520d0ec2a1fnat;
    let e20: nat = step(b, q, e19, v19, true, v20);
    let v21: nat = 0x2ce39a0221aa7c402dc2340feaafa48058aa3ee0fd8faf0779bfac2c10f05fc3nat;
    let e21: nat = step(b, q, e20, v20, true, v21);
    let v22: nat = 0x304845c07687dd2d26d87f5e5549a0f09feca7d189eb831f2e15e23d65071689nat;
    let e22: nat = step(b, q, e21, v21, false, v22);
    let v23: nat = 0x3bc347c3e28ab364f31fa866ab142b119901e5f4ec0fcda5491ebc85d63cfa1dnat;
    let e23: nat = step(b, q, e22, v22, false, v23);
    let v24: nat = 0x1454c8a17129c0e4e36c92714ced5a580a5503519606870a78c495084f45d811nat;
    let e24: nat = step(b, q, e23, v23, true, v24);
    let v25: nat = 0x3c031ae45b255ce89cc8633448e5242972765774e58d309ac572c09c0be31c96nat;
    let e25: nat = step(b, q, e24, v24, false, v25);
    let v26: nat = 0x1670fbf69e4b9c9f26d1b03cb2a712802181484647b2468e8733748d359b6ff6nat;
    let e26: nat = step(b, q, e25, v25, true, v26);
    let v27: nat = 0x3a174c1d7eb3971b5968d56f0d3aa895818231e9f1b60d6b2e6e4ec0a047cc0nat;
    let e27: nat = step(b, q, e26, v26, false, v27);
    let v28: nat = 0x17b09402cfd4a12cc4d929d49d9def116789309ccd53279eba45c3d008f17fb6nat;
    let e28: nat = step(b, q, e27, v27, true, v28);
    let v29: nat = 0xdd8a03b1f5b3fe6928228fc993072a110b62bd155c057e82f6aca2497318c1enat;
    let e29: nat = step(b, q, e28, v28, false, v29);
    let v30: nat = 0xedfba8e1dd82e133a9c1247931d69a25f663885c29bcf6492d53b37359d306anat;
    let e30: nat = step(b, q, e29, v29, true, v30);
    let v31: nat = 0x1538893fc201dacbb328f8785be3240c3073aed46e03335dee41dac82418a39cnat;
    let e31: nat = step(b, q, e30, v30, false, v31);
    let v32: nat = 0x109c08b3cbfd9fa10165ac29b1876f325a142ffa360abe7a7f08a0745877ee4enat;
    let e32: nat = step(b, q, e31, v31, true, v32);
    let v33: nat = 0x1256bda375e169668587da028ffcb396c5a64d910c60efee1301aeb68ea8736nat;
    let e33: nat = step(b, q, e32, v32, false, v33);
    let v34: nat = 0x14a9f566ff4db3f7bbf2fe8cb4084c933d0600928ba1fef1735dbe7727d6b48fnat;
    let e34: nat = step(b, q, e33, v33, false, v34);
    let v35: nat = 0x30dd991784f1025d631d727b3c04cbdf13e9885265aed8af4457d265818dabdnat;
    let e35: nat = step(b, q, e34, v34, false, v35);
    let v36: nat = 0x83c66546c0bd59fadecc9e375cc3fb4f787c1c94b419e41c68cc8f1c40f47b7nat;
    let e36: nat = step(b, q, e35, v35, false, v36);
    let v37: nat = 0x47ebaeeb8b518823422e4261a1762528b7ce540acb239ea312480ddb924f2c9nat;
    let e37: nat = step(b, q, e36, v36, false, v37);
    let v38: nat = 0x3ba15f707d518cc9321c4f977a164fa081cb4c5567e9015c19edeaf906ce30c2nat;
    let e38: nat = step(b, q, e37, v37, false, v38);
    let v39: nat = 0x2f0ff7811340a05ca5634ae757a51fc6dc216575df005a1e992041c5d81c5631nat;
    let e39: nat = step(b, q, e38, v38, false, v39);
    let v40: nat = 0x37e3ccb39782328c1c569ab0796a1bc0885e4e0e04e1fa88829e27ffd0dbf8b5nat;
    let e40: nat = step(b, q, e39, v39, true, v40);
    let v41: nat = 0xb535f89df06fa0cddd88ff5cfffc637e3db5c85b2ef291bda838e911b9335a3nat;
    let e41: nat = step(b, q, e40, v40, false, v41);
    let v42: nat = 0x356e524cb7363752bbb3d643960decdd23e3a01ae6d5b1edf8c9f57cec6b3e7nat;
    let e42: nat = step(b, q, e41, v41, true, v42);
    let v43: nat = 0xe5fb34a8b1c404b9043b79cbea83cbb9ae1e6578a47f0f6f89574ae996f621dnat;
    let e43: nat = step(b, q, e42, v42, true, v43);
    let v44: nat = 0x24fe7a2e54a98c5c863b512dddf65257e781f1c44914f9e277e9cf7c1735afc7nat;
    let e44: nat = step(b, q, e43, v43, false, v44);
    let v45: nat = 0x192067238abe4e75a4b5d80331361c1a01565c97296fea1e6c77e278ef942d0bnat;
    let e45: nat = step(b, q, e44, v44, false, v45);
    let v46: nat = 0x19df19f8c3da09ae04963fdb026209bfd2e4cb5292e0f9b600c51ec8271f24bdnat;
    let e46: nat = step(b, q, e45, v45, false, v46);
    let v47: nat = 0x16a6b73336dd5f08c8565d8e2fd4a41237a30ea5a18bdacba77fb35bec787d3cnat;
    let e47: nat = step(b, q, e46, v46, false, v47);
    let v48: nat = 0x1faccaa6aa98af85edd90fa60efca2f870280952aff199e4328bb4cc088e3982nat;
    let e48: nat = step(b, q, e47, v47, true, v48);
    let v49: nat = 0x3da07e3845a37527f18b46af34a823fa9974dcf53ccf38ce31cd115db3e1adaanat;
    let e49: nat = step(b, q, e48, v48, true, v49);
    let v50: nat = 0xae04c68294e6a4343c9f0a313ffaf972320908fa7f05646961746066bf9267fnat;
    let e50: nat = step(b, q, e49, v49, true, v50);
    let v51: nat = 0x1e079e5000fed29a39976444260bc5e54a18eeea880db0d3bd00963c01b4ed29nat;
    let e51: nat = step(b, q, e50, v50, false, v51);
    let v52: nat = 0x1423ddd19e3e7af32707b5777954215f65b550287ff2c02f1904adb308655ff0nat;
    let e52: nat = step(b, q, e51, v51, false, v52);
    let v53: nat = 0x333671d361bee7035afc2c2defbfa9f713428e83ebbac0e9c53492e0689b16e2nat;
    let e53: nat = step(b, q, e52, v52, true, v53);
    let v54: nat = 0x375efc1e409dfee426d489f3ebdb4d11baa4cdd49de5b1b112bf7f22bc43bff2nat;
    let e54: nat = step(b, q, e53, v53, true, v54);
    let v55: nat = 0x277a3c7dc4b6f76dc15c80dfd782c201700c08309b18eccd5e2d594e9a72618fnat;
    let e55: nat = step(b, q, e54, v54, true, v55);
    let v56: nat = 0x1304709361521f3fe7525983c18a51b4eaa70f33ca6cf00bba58a7d3a568d4dbnat;
    let e56: nat = step(b, q, e55, v55, true, v56);
    let v57: nat = 0xcc6cc3c33fd6e88fc352ce1490809241ef074b8942016145265d9d970e0a98cnat;
    let e57: nat = step(b, q, e56, v56, false, v57);
    let v58: nat = 0x20a26673b8bec8fb918407ab92dae35084c0fe30b0fefbd45ca594ea8c2bd348nat;
    let e58: nat = step(b, q, e57, v57, true, v58);
    let v59: nat = 0x1bb20a9aef931c3bfcccf5372cde7806bfad3c6651f732910ac60c0cb8d4bb01nat;
    let e59: nat = step(b, q, e58, v58, false, v59);
    let v60: nat = 0x29199a45bd8d94af9ea6135732ea4d605c1c95a18defa1bea3c702ab988458ccnat;
    let e60: nat = step(b, q, e59, v59, true, v60);
    let v61: nat = 0xed824901223efc0736d33b759a8040a2a0d4a9e5ab336ea185514c657d3c6c5nat;
    let e61: nat = step(b, q, e60, v60, false, v61);
    let v62: nat = 0x296f14e43990128c486ab2c9629ebb60d3fd0936fa86b5505eaa8c31806a4835nat;
    let e62: nat = step(b, q, e61, v61, true, v62);
    let v63: nat = 0x4b5b0ac5e79dad4b46f4069d6f8e092e65c0017ac796bf21b29697efa4c39c0nat;
    let e63: nat = step(b, q, e62, v62, true, v63);
    let v64: nat = 0x4e16f72a47f6e420a0ca6a14029b86cd9710293804929428ff1937d3497962anat;
    let e64: nat = step(b, q, e63, v63, true, v64);
}

/// Part 2 of the chain of `lemma_power_modulus_shared_2`.
proof fn lemma_power_modulus_shared_2_part_2()
    ensures
        powmod(
            0x35598770f9432d2724d93fd7b14705f1f0fe4209481e60dcd3dadc72fe1fa097nat,
            0x1d3af59550161cf575nat,
            0x40000000000000000000000000000000224698fc094cf91b992d30ed00000001nat,
        ) == 0x10bb0466a8144843540a971baf9cb550af1ebc7f89a169038f5e7a1908d9b3a0nat,
{
    let q: nat = 0x40000000000000000000000000000000224698fc094cf91b992d30ed00000001nat;
    let b: nat = 0x35598770f9432d2724d93fd7b14705f1f0fe4209481e60dcd3dadc72fe1fa097nat;
    lemma_power_modulus_shared_2_part_1();
    let e0: nat = 0x1d3af59550161cf57nat;
    let v0: nat = 0x4e16f72a47f6e420a0ca6a14029b86cd9710293804929428ff1937d3497962anat;
    let v1: nat = 0x2d1c5a19547981e263c546a33f2de37670217a457cb1f30bd9f8df6d38c9bd0fnat;
    let e1: nat = step(b, q, e0, v0, false, v1);
    let v2: nat = 0x300f6a8e2a4e916c347483bcb9eb6a11d5534e53296f2da8aaffde368a6d4a24nat;
    let e2: nat = step(b, q, e1, v1, true, v2);
    let v3: nat = 0xaaf9f42f6100823304244ce7cf9e6d589ffa00fa2b4c497f3c70c927d11f9danat;
    let e3: nat = step(b, q, e2, v2, false, v3);
    let v4: nat = 0x10bb0466a8144843540a971baf9cb550af1ebc7f89a169038f5e7a1908d9b3a0nat;
    let e4: nat = step(b, q, e3, v3, true, v4);
}

/// A power of 5 modulo the modulus that the powers `(q - 1) / r` share for
/// `r` = 2, 3 and 463.
proof fn lemma_power_modulus_shared_2()
    ensures
        powmod(
            5nat,
            0xbcba8454c7c97215bf7e3fc505b6a581f61f9ea423893a5fc2981nat,
            0x40000000000000000000000000000000224698fc094cf91b992d30ed00000001nat,
        ) == 0x10bb0466a8144843540a971baf9cb550af1ebc7f89a169038f5e7a1908d9b3a0nat,
{
    lemma_power_modulus_shared_1();
    lemma_power_modulus_shared_2_part_2();
    lemma_powmod_mul(
        5nat,
        0x674e41aa25559f3f6806ca7324f298d5465dnat,
        0x1d3af59550161cf575nat,
        0x40000000000000000000000000000000224698fc094cf91b992d30ed00000001nat,
    );
}

/// Part 1 of the chain of `lemma_power_modulus_shared_3`.
proof fn lemma_power_modulus_shared_3_part_1()
    ensures
        powmod(
            0x10bb0466a8144843540a971baf9cb550af1ebc7f89a169038f5e7a1908d9b3a0nat,
            1389nat,
            0x40000000000000000000000000000000224698fc094cf91b992d30ed00000001nat,
        ) == 0x2bce74deac30ebda362120830561f81aea322bf2b7bb7584bdad6fabd87ea32fnat,
{
    let q: nat = 0x40000000000000000000000000000000224698fc094cf91b992d30ed00000001nat;
    let b: nat = 0x10bb0466a8144843540a971baf9cb550af1ebc7f89a169038f5e7a1908d9b3a0nat;
    lemma_powmod_basics(b, q);
    let e0: nat = 1nat;
    let v0: nat = 0x10bb0466a8144843540a971baf9cb550af1ebc7f89a169038f5e7a1908d9b3a0nat;
    let v1: nat = 0x10363f5fc5da368f37a29daa4d5e90b8fc924d461411be0210ed879e5266e94bnat;
    let e1: nat = step(b, q, e0, v0, false, v1);
    let v2: nat = 0xf38d8c959cb45c39495ed1995cd2df6b48eab6e458249fa4c3e862f6ee73044nat;
    let e2: nat = step(b, q, e1, v1, true, v2);
    let v3: nat = 0x118ebee0c718bbc8623121575fb11a71728e01d58a8778a688db5c3532830cffnat;
    let e3: nat = step(b, q, e2, v2, false, v3);
    let v4: nat = 0x23684da6390e02443860310ab91a730b1c634c9e6ceb9ffb07db4dc52713a617nat;
    let e4: nat = step(b, q, e3, v3, true, v4);
    let v5: nat = 0x2ca4e5e007fe95435376de7eced9448fc8e448d0c182ceceb16168fac3ad827nat;
    let e5: nat = step(b, q, e4, v4, true, v5);
    let v6: nat = 0x524e44a6cc3cd3302db934ef0712e166b48aa74da05adc4abc2fe6c137cb808nat;
    let e6: nat = step(b, q, e5, v5, false, v6);
    let v7: nat = 0x95eed2812a48b5ec69a0dc34a33d6dede3b8fae2b7d11da81c722a3a35481b4nat;
    let e7: nat = step(b, q, e6, v6, true, v7);
    let v8: nat = 0x105c9b9df1439c5a7ebd3ee55e1405cc86bf682a037fe63f33a5836622fdff6nat;
    let e8: nat = step(b, q, e7, v7, true, v8);
    let v9: nat = 0x29379f517f4b73d441958029b08e278f5c0b157267d34802eec29371ec83d20fnat;
    let e9: nat = step(b, q, e8, v8, false, v9);
    let v10: nat = 0x2bce74deac30ebda362120830561f81aea322bf2b7bb7584bdad6fabd87ea32fnat;
    let e10: nat = step(b, q, e9, v9, true, v10);
}

/// A power of 5 modulo the modulus that the powers `(q - 1) / r` share for
/// `r` = 2.
proof fn lemma_power_modulus_shared_3()
    ensures
        powmod(
            5nat,
            0x40000000000000000000000000000000224698fc094cf91b992d30ednat,
            0x40000000000000000000000000000000224698fc094cf91b992d30ed00000001nat,
        ) == 0x2bce74deac30ebda362120830561f81aea322bf2b7bb7584bdad6fabd87ea32fnat,
{
    lemma_power_modulus_shared_2();
    lemma_power_modulus_shared_3_part_1();
    lemma_powmod_mul(
        5nat,
        0xbcba8454c7c97215bf7e3fc505b6a581f61f9ea423893a5fc2981nat,
        1389nat,
        0x40000000000000000000000000000000224698fc094cf91b992d30ed00000001nat,
    );
}

/// Part 1 of the chain of `lemma_power_modulus_over_2`.
proof fn lemma_power_modulus_over_2_part_1()
    ensures
        powmod(
            0x2bce74deac30ebda362120830561f81aea322bf2b7bb7584bdad6fabd87ea32fnat,
            0x80000000nat,
            0x40000000000000000000000000000000224698fc094cf91b992d30ed00000001nat,
        ) == 0x40000000000000000000000000000000224698fc094cf91b992d30ed00000000nat,
{
    let q: nat = 0x40000000000000000000000000000000224698fc094cf91b992d30ed00000001nat;
    let b: nat = 0x2bce74deac30ebda362120830561f81aea322bf2b7bb7584bdad6fabd87ea32fnat;
    lemma_powmod_basics(b, q);
    let e0: nat = 1nat;
    let v0: nat = 0x2bce74deac30ebda362120830561f81aea322bf2b7bb7584bdad6fabd87ea32fnat;
    let v1: nat = 0x2c4273e5d2eb1de98c9176cb401abf06c4938ab16ac69c2b9645ee87acea193bnat;
    let e1: nat = step(b, q, e0, v0, false, v1);
    let v2: nat = 0x2e99e0eeba6afb04d748bb4c8f7746167a3163883882dd3401793e65f9e09bbdnat;
    let e2: nat = step(b, q, e1, v1, false, v2);
    let v3: nat = 0x223b10e2909d647727473e05119a70bf69fe5716194f8d1100e79397659a24ednat;
    let e3: nat = step(b, q, e2, v2, false, v3);
    let v4: nat = 0x88ef444b9a63e67dce3f521ea318e20d55a3e3fa4f0d2de615bd0d717c62c05nat;
    let e4: nat = step(b, q, e3, v3, false, v4);
    let v5: nat = 0x38bbffdbaedf01944c6fb4257565f4a05376d4d8ce7e86f50d96bb7262957d3nat;
    let e5: nat = step(b, q, e4, v4, false, v5);
    let v6: nat = 0x2b32b23c415d3e576c4d05c1b1d89d9ba57789d36d6a6e3726a28916f7e648e1nat;
    let e6: nat = step(b, q, e5, v5, false, v6);
    let v7: nat = 0x365bd233e19a77476101c7698b1c063f5b7353922f426d682549375fb22e49d3nat;
    let e7: nat = step(b, q, e6, v6, false, v7);
    let v8: nat = 0x31951d72cbf5ee0d78d9867098e13b79fb81505e6db526ce5190e23731a54569nat;
    let e8: nat = step(b, q, e7, v7, false, v8);
    let v9: nat = 0x1c6a098fa72833f405a8dc469477bbe65b995f8670713a0fc3831c6abcf38cb1nat;
    let e9: nat = step(b, q, e8, v8, false, v9);
    let v10: nat = 0xd8c20d3f81693b34d98347484bde7a92c9244a2a37a6ded9bfb7e07b75cb10cnat;
    let e10: nat = step(b, q, e9, v9, false, v10);
    let v11: nat = 0x44694ccde4116800af467b81f89c782f175600cc0aed539085db943eb10148enat;
    let e11: nat = step(b, q, e10, v10, false, v11);
    let v12: nat = 0x3a4a077c9c0654e7e98d9f1c0b146bf64171285db283f84b463f4019b18ed31bnat;
    let e12: nat = step(b, q, e11, v11, false, v12);
    let v13: nat = 0x1c6807d58325da33dfb456db63dcf180e1491c6808fe947b90d867fbd3e61b7fnat;
    let e13: nat = step(b, q, e12, v12, false, v13);
    let v14: nat = 0x14078ea8cdee85a0950d9a272227e4f52c624e853d02ad879ec22f8bf80662c4nat;
    let e14: nat = step(b, q, e13, v13, false, v14);
    let v15: nat = 0xf971f9f81878a727f025b2aca0774ead6d1be12fb8a867820245ff86e558730nat;
    let e15: nat = step(b, q, e14, v14, false, v15);
    let v16: nat = 0x23222d06029d21a655392ad9dda387278c1c46359289a4d3d465aafc06d1cf1anat;
    let e16: nat = step(b, q, e15, v15, false, v16);
    let v17: nat = 0x2fd0767705fa5b03402039fc9e89ad1de3c85d25401fd8dd898dce603d1c0f3enat;
    let e17: nat = step(b, q, e16, v16, false, v17);
    let v18: nat = 0x1aa07732b05972abcadc042243371883e38cca91106ecac1e26a77c64bc5bec4nat;
    let e18: nat = step(b, q, e17, v17, false, v18);
    let v19: nat = 0x3b402c2cbd0a0660626f1948867533cfd2a80abd33d0e808075a3efc92d52d2nat;
    let e19: nat = step(b, q, e18, v18, false, v19);
    let v20: nat = 0x28961bbd9c63b7bd7c75f72e02a9727d14d99e7985184470d34cd1b8ef03001nat;
    let e20: nat = step(b, q, e19, v19, false, v20);
    let v21: nat = 0x181b50ad5f32119e31cbd395426d600b7a9b88bcaaa1c24eef28545aada17813nat;
    let e21: nat = step(b, q, e20, v20, false, v21);
    let v22: nat = 0x1421deb15f5ce205068512b010382353dc0aa1b40386a1c14774c65664bb8182nat;
    let e22: nat = step(b, q, e21, v21, false, v22);
    let v23: nat = 0xcb8102d0128ebb25343154773101eaf1a9daef679667eb4bd1e06b973e985e4nat;
    let e23: nat = step(b, q, e22, v22, false, v23);
    let v24: nat = 0x21d0b0a3be45b5ee2ff5140e6007a63bc5ac7dc51c50ed52ebf2f918f4d603c9nat;
    let e24: nat = step(b, q, e23, v23, false, v24);
    let v25: nat = 0xa31cd9ef8679794deeb656fd6b01c97550149e556476b314244fb708d44fc3nat;
    let e25: nat = step(b, q, e24, v24, false, v25);
    let v26: nat = 0x1868ca50534a180d97ff23a878e088b0b9569c85b0a15d666c23ded157fceebanat;
    let e26: nat = step(b, q, e25, v25, false, v26);
    let v27: nat = 0xcc3380dc616f2e1daf29ad1560833ed3baea3393eceb7bc8fa36376929b78ccnat;
    let e27: nat = step(b, q, e26, v26, false, v27);
    let v28: nat = 0x17e6c570737897f385e789dcbc7a09bd4f82ab3e1182aecd80ec9d0beefa6c6dnat;
    let e28: nat = step(b, q, e27, v27, false, v28);
    let v29: nat = 0x3f8f1cc60c6da729d26301123de65ed9c73bfb511bf223ac1d15074e708ac5aenat;
    let e29: nat = step(b, q, e28, v28, false, v29);
    let v30: nat = 0x36bdcc7b0f28b5df31744fb72326829dff98203a45f8ebf0e047f48898cdb6dbnat;
    let e30: nat = step(b, q, e29, v29, false, v30);
    let v31: nat = 0x40000000000000000000000000000000224698fc094cf91b992d30ed00000000nat;
    let e31: nat = step(b, q, e30, v30, false, v31);
}

/// The power `(q - 1) / 2` of 5 modulo `q`, for `q` = the modulus.
proof fn lemma_power_modulus_over_2()
    ensures
        powmod(
            5nat,
            0x2000000000000000000000000000000011234c7e04a67c8dcc96987680000000nat,
            0x40000000000000000000000000000000224698fc094cf91b992d30ed00000001nat,
        ) == 0x40000000000000000000000000000000224698fc094cf91b992d30ed00000000nat,
{
    lemma_power_modulus_shared_3();
    lemma_power_modulus_over_2_part_1();
    lemma_powmod_mul(
        5nat,
        0x40000000000000000000000000000000224698fc094cf91b992d30ednat,
        0x80000000nat,
        0x40000000000000000000000000000000224698fc094cf91b992d30ed00000001nat,
    );
}

/// Part 1 of the chain of `lemma_power_modulus_shared_4`.
proof fn lemma_power_modulus_shared_4_part_1()
    ensures
        powmod(
            0x10bb0466a8144843540a971baf9cb550af1ebc7f89a169038f5e7a1908d9b3a0nat,
            0x100000000nat,
            0x40000000000000000000000000000000224698fc094cf91b992d30ed00000001nat,
        ) == 0x36552c7a316826e734e648d5978ff92864d327f01c60fa396f6b8924c39b1a1fnat,
{
    let q: nat = 0x40000000000000000000000000000000224698fc094cf91b992d30ed00000001nat;
    let b: nat = 0x10bb0466a8144843540a971baf9cb550af1ebc7f89a169038f5e7a1908d9b3a0nat;
    lemma_powmod_basics(b, q);
    let e0: nat = 1nat;
    let v0: nat = 0x10bb0466a8144843540a971baf9cb550af1ebc7f89a169038f5e7a1908d9b3a0nat;
    let v1: nat = 0x10363f5fc5da368f37a29daa4d5e90b8fc924d461411be0210ed879e5266e94bnat;
    let e1: nat = step(b, q, e0, v0, false, v1);
    let v2: nat = 0x293868f2d724064c0f5a41c59d8b12d0b9dceed195be4f2930c43d7813621eafnat;
    let e2: nat = step(b, q, e1, v1, false, v2);
    let v3: nat = 0x6d4acde2a61241217146010c2242fbedf845c83b83a8391f7624c5262438792nat;
    let e3: nat = step(b, q, e2, v2, false, v3);
    let v4: nat = 0x35eb7116d28a0a067b266babee391a31c2e5acfe006a399c5218e57b6ce1d196nat;
    let e4: nat = step(b, q, e3, v3, false, v4);
    let v5: nat = 0x31c55907a3b65d7ba25f8a82dd959dca90e9d9b0a55cdf9eb7aadc18482f11fanat;
    let e5: nat = step(b, q, e4, v4, false, v5);
    let v6: nat = 0x2454c0c47b992e0902114f2ca6b8fe4af98579f35d3a69bdde81072fc146fb3enat;
    let e6: nat = step(b, q, e5, v5, false, v6);
    let v7: nat = 0x19969593b4487942abe52b3bea56c55366ad869499735f03bc04c8a96016d125nat;
    let e7: nat = step(b, q, e6, v6, false, v7);
    let v8: nat = 0x1ef12f8436af51bb52716e8e798c08bd3d09be1aabee4691311f6ebee1d66160nat;
    let e8: nat = step(b, q, e7, v7, false, v8);
    let v9: nat = 0x225b02336fe399f6f542ceec407fa0d0e0a2fe371c7d62ff2ea5c40209606eenat;
    let e9: nat = step(b, q, e8, v8, false, v9);
    let v10: nat = 0x7591314936a3a730cdcf29bbaaaf5e4b709f81ad5b625f7dc81652133a84d46nat;
    let e10: nat = step(b, q, e9, v9, false, v10);
    let v11: nat = 0x3cbc388fc52eb2fa6eafe8d91bc87f113975230076ae6ed33b752c4413ac8d07nat;
    let e11: nat = step(b, q, e10, v10, false, v11);
    let v12: nat = 0x3bd2eca53fcdbb9bd715ea1cbcc9397ca1e682218b6e25f05bfd5d1f2f4823d3nat;
    let e12: nat = step(b, q, e11, v11, false, v12);
    let v13: nat = 0x381fc5d93280c940497c4b70cd9524d6cdbc1c6f8f42b0097242aa0fc99c99b1nat;
    let e13: nat = step(b, q, e12, v12, false, v13);
    let v14: nat = 0xa90974b1913f597b40ccf7cc9722e81e307e72ff6c17dd7e627f7eb605f9457nat;
    let e14: nat = step(b, q, e13, v13, false, v14);
    let v15: nat = 0x3d3998a002034ff0016e08d312980e029ab3bcaeeaba9a8cc925aff971740b31nat;
    let e15: nat = step(b, q, e14, v14, false, v15);
    let v16: nat = 0x3ef1cb1d7a1ef1504985957aff1907b40aa32887edbc18daef6843203c930715nat;
    let e16: nat = step(b, q, e15, v15, false, v16);
    let v17: nat = 0x13a0228ffa7670f90d801fde77fcc6e0055899bd0f1ddadde38909f3381a2e45nat;
    let e17: nat = step(b, q, e16, v16, false, v17);
    let v18: nat = 0x3b69ffb9c20c6524a60af00ad9f127bd2df2eb3829641859b8c0def029bb9b48nat;
    let e18: nat = step(b, q, e17, v17, false, v18);
    let v19: nat = 0x3e394255c70a56306e19f649b7957a413e5c3c90140ec10ffb11f9f93989a304nat;
    let e19: nat = step(b, q, e18, v18, false, v19);
    let v20: nat = 0x8271d217be8746b903ab7be0ed7533a618193ee487dd254ee7463d76d23827fnat;
    let e20: nat = step(b, q, e19, v19, false, v20);
    let v21: nat = 0x290b0069c61ca0fdaedafc742821b53587d2d7329dcc1565a8238f8996bc51a5nat;
    let e21: nat = step(b, q, e20, v20, false, v21);
    let v22: nat = 0x276bbfdd16fae5d8007d330b5fac5fb0d61b4ed5f4303b8404da211cca552019nat;
    let e22: nat = step(b, q, e21, v21, false, v22);
    let v23: nat = 0xaf872d8a101bbcbe6e9c5b0009b57f3f97289fc341643121b26ab9c8207384fnat;
    let e23: nat = step(b, q, e22, v22, false, v23);
    let v24: nat = 0xd87753f0fe4e55cbac8fa5ba7d5191052a30a320752b78d6e783494d3968dc2nat;
    let e24: nat = step(b, q, e23, v23, false, v24);
    let v25: nat = 0x2642bcd73e094dd3654ac5250ae2bbb9d4fd7ee3d86521c613ccab1044abc5efnat;
    let e25: nat = step(b, q, e24, v24, false, v25);
    let v26: nat = 0x8534282fb143ab224c3b7ef4c1afa5ad7bc8a24d3e62954081649492bb52838nat;
    let e26: nat = step(b, q, e25, v25, false, v26);
    let v27: nat = 0x1e5b5147b0a96909d664aad71200dfd41b8c7cb1ed3976687fc6b3180767e0cenat;
    let e27: nat = step(b, q, e26, v26, false, v27);
    let v28: nat = 0x2aaf2eae3bcd04ebade31d878f402df3e27d9b157fbac1b642a12c2a9b49349fnat;
    let e28: nat = step(b, q, e27, v27, false, v28);
    let v29: nat = 0x3927e1d098321c275c2955d23fc9ef080db6d98f7fe8d6f191e3857423665b4cnat;
    let e29: nat = step(b, q, e28, v28, false, v29);
    let v30: nat = 0x277b9419d7d437e1668ff11989c299647517aa01abc6eb83b3bff7a8c1c81225nat;
    let e30: nat = step(b, q, e29, v29, false, v30);
    let v31: nat = 0x1b4326df084a5a998538083ec446bca003328188665c5d11ee8269bd70808f76nat;
    let e31: nat = step(b, q, e30, v30, false, v31);
    let v32: nat = 0x36552c7a316826e734e648d5978ff92864d327f01c60fa396f6b8924c39b1a1fnat;
    let e32: nat = step(b, q, e31, v31, false, v32);
}

/// A power of 5 modulo the modulus that the powers `(q - 1) / r` share for
/// `r` = 3 and 463.
proof fn lemma_power_modulus_shared_4()
    ensures
        powmod(
            5nat,
            0xbcba8454c7c97215bf7e3fc505b6a581f61f9ea423893a5fc298100000000nat,
            0x40000000000000000000000000000000224698fc094cf91b992d30ed00000001nat,
        ) == 0x36552c7a316826e734e648d5978ff92864d327f01c60fa396f6b8924c39b1a1fnat,
{
    lemma_power_modulus_shared_2();
    lemma_power_modulus_shared_4_part_1();
    lemma_powmod_mul(
        5nat,
        0xbcba8454c7c97215bf7e3fc505b6a581f61f9ea423893a5fc2981nat,
        0x100000000nat,
        0x40000000000000000000000000000000224698fc094cf91b992d30ed00000001nat,
    );
}

/// Part 1 of the chain of `lemma_power_modulus_over_463`.
proof fn lemma_power_modulus_over_463_part_1()
    ensures
        powmod(
            0x36552c7a316826e734e648d5978ff92864d327f01c60fa396f6b8924c39b1a1fnat,
            3nat,
            0x40000000000000000000000000000000224698fc094cf91b992d30ed00000001nat,
        ) == 0x2eb73fde2e8d4087f554d15df75fccbb7f57cec5884a3da4f2dfe04018750b5cnat,
{
    let q: nat = 0x40000000000000000000000000000000224698fc094cf91b992d30ed00000001nat;
    let b: nat = 0x36552c7a316826e734e648d5978ff92864d327f01c60fa396f6b8924c39b1a1fnat;
    lemma_powmod_basics(b, q);
    let e0: nat = 1nat;
    let v0: nat = 0x36552c7a316826e734e648d5978ff92864d327f01c60fa396f6b8924c39b1a1fnat;
    let v1: nat = 0x2eb73fde2e8d4087f554d15df75fccbb7f57cec5884a3da4f2dfe04018750b5cnat;
    let e1: nat = step(b, q, e0, v0, true, v1);
}

/// The power `(q - 1) / 463` of 5 modulo `q`, for `q` = the modulus.
proof fn lemma_power_modulus_over_463()
    ensures
        powmod(
            5nat,
            0x2362f8cfe575c56413e7abf4f1123f085e25edbec6a9baf1f47c8300000000nat,
            0x40000000000000000000000000000000224698fc094cf91b992d30ed00000001nat,
        ) == 0x2eb73fde2e8d4087f554d15df75fccbb7f57cec5884a3da4f2dfe04018750b5cnat,
{
    lemma_power_modulus_shared_4();
    lemma_power_modulus_over_463_part_1();
    lemma_powmod_mul(
        5nat,
        0xbcba8454c7c97215bf7e3fc505b6a581f61f9ea423893a5fc298100000000nat,
        3nat,
        0x40000000000000000000000000000000224698fc094cf91b992d30ed00000001nat,
    );
}

/// Part 1 of the chain of `lemma_power_modulus_over_3`.
proof fn lemma_power_modulus_over_3_part_1()
    ensures
        powmod(
            0x36552c7a316826e734e648d5978ff92864d327f01c60fa396f6b8924c39b1a1fnat,
            463nat,
            0x40000000000000000000000000000000224698fc094cf91b992d30ed00000001nat,
        ) == 0x2d33357cb532458ed3552a23a8554e5005270d29d19fc7d27b7fd22f0201b547nat,
{
    let q: nat = 0x40000000000000000000000000000000224698fc094cf91b992d30ed00000001nat;
    let b: nat = 0x36552c7a316826e734e648d5978ff92864d327f01c60fa396f6b8924c39b1a1fnat;
    lemma_powmod_basics(b, q);
    let e0: nat = 1nat;
    let v0: nat = 0x36552c7a316826e734e648d5978ff92864d327f01c60fa396f6b8924c39b1a1fnat;
    let v1: nat = 0x2eb73fde2e8d4087f554d15df75fccbb7f57cec5884a3da4f2dfe04018750b5cnat;
    let e1: nat = step(b, q, e0, v0, true, v1);
    let v2: nat = 0x436b0b21759c442bd39a0e2deb41bc8ee901c34c6c709452d7bb1df7794836bnat;
    let e2: nat = step(b, q, e1, v1, true, v2);
    let v3: nat = 0x1c569a22f20a4d5e91c1b60e4d59d52afa1b6e0ff5d2d5bc4504596a547423b8nat;
    let e3: nat = step(b, q, e2, v2, false, v3);
    let v4: nat = 0x38606f915851300f949826e857197b3d70bc283bf192192cdf4da34ba0964157nat;
    let e4: nat = step(b, q, e3, v3, false, v4);
    let v5: nat = 0x3eab86accd5ea3d41ade13891d250ab1d0e1b189681a280ba861c39ace35ce64nat;
    let e5: nat = step(b, q, e4, v4, true, v5);
    let v6: nat = 0x283b9bb5293528ba7cb1dc9f784cc7f4e22134d18d8643cd4a93e7d9203c8f02nat;
    let e6: nat = step(b, q, e5, v5, true, v6);
    let v7: nat = 0x308351166bec8281aff9ffc6e1be284f626da5ab58bac85152b6a409efd081e6nat;
    let e7: nat = step(b, q, e6, v6, true, v7);
    let v8: nat = 0x2d33357cb532458ed3552a23a8554e5005270d29d19fc7d27b7fd22f0201b547nat;
    let e8: nat = step(b, q, e7, v7, true, v8);
}

/// The power `(q - 1) / 3` of 5 modulo `q`, for `q` = the modulus.
proof fn lemma_power_modulus_over_3()
    ensures
        powmod(
            5nat,
            0x1555555555555555555555555555555560c232feadc45309330f104f00000000nat,
            0x40000000000000000000000000000000224698fc094cf91b992d30ed00000001nat,
        ) == 0x2d33357cb532458ed3552a23a8554e5005270d29d19fc7d27b7fd22f0201b547nat,
{
    lemma_power_modulus_shared_4();
    lemma_power_modulus_over_3_part_1();
    lemma_powmod_mul(
        5nat,
        0xbcba8454c7c97215bf7e3fc505b6a581f61f9ea423893a5fc298100000000nat,
        463nat,
        0x40000000000000000000000000000000224698fc094cf91b992d30ed00000001nat,
    );
}

/// Part 1 of the chain of `lemma_power_modulus_top`.
proof fn lemma_power_modulus_top_part_1()
    ensures
        powmod(
            0x40000000000000000000000000000000224698fc094cf91b992d30ed00000000nat,
            2nat,
            0x40000000000000000000000000000000224698fc094cf91b992d30ed00000001nat,
        ) == 1nat,
{
    let q: nat = 0x40000000000000000000000000000000224698fc094cf91b992d30ed00000001nat;
    let b: nat = 0x40000000000000000000000000000000224698fc094cf91b992d30ed00000000nat;
    lemma_powmod_basics(b, q);
    let e0: nat = 1nat;
    let v0: nat = 0x40000000000000000000000000000000224698fc094cf91b992d30ed00000000nat;
    let v1: nat = 1nat;
    let e1: nat = step(b, q, e0, v0, false, v1);
}

/// The power `q - 1` of 5 modulo `q` is 1, for `q` = the modulus.
proof fn lemma_power_modulus_top()
    ensures
        powmod(
            5nat,
            0x40000000000000000000000000000000224698fc094cf91b992d30ed00000000nat,
            0x40000000000000000000000000000000224698fc094cf91b992d30ed00000001nat,
        ) == 1nat,
{
    lemma_power_modulus_over_2();
    lemma_power_modulus_top_part_1();
    lemma_powmod_mul(
        5nat,
        0x2000000000000000000000000000000011234c7e04a67c8dcc96987680000000nat,
        2nat,
        0x40000000000000000000000000000000224698fc094cf91b992d30ed00000001nat,
    );
}

/// The field modulus is prime: the powers of 5 pass the test of Lucas.
pub proof fn lemma_prime_modulus()
    ensures
        is_prime(0x40000000000000000000000000000000224698fc094cf91b992d30ed00000001nat),
{
    let q: nat = 0x40000000000000000000000000000000224698fc094cf91b992d30ed00000001nat;
    let g: nat = 5nat;
    let factors: Seq<nat> = seq![
        2nat,
        3nat,
        463nat,
        0x1d3af59550161cf575nat,
        0x674e41aa25559f3f6806ca7324f298d5465dnat,
    ];
    lemma_prime_2();
    lemma_prime_3();
    lemma_prime_463();
    lemma_prime_1d3af59550161cf575();
    lemma_prime_674e41aa25559f3f6806ca7324f298d5465d();
    // No other prime divides `q - 1`.
    lemma_split(
        0x40000000000000000000000000000000224698fc094cf91b992d30ed00000000nat,
        2nat,
        0x2000000000000000000000000000000011234c7e04a67c8dcc96987680000000nat,
    );
    lemma_split(
        0x2000000000000000000000000000000011234c7e04a67c8dcc96987680000000nat,
        2nat,
        0x100000000000000000000000000000000891a63f02533e46e64b4c3b40000000nat,
    );
    lemma_split(
        0x100000000000000000000000000000000891a63f02533e46e64b4c3b40000000nat,
        2nat,
        0x80000000000000000000000000000000448d31f81299f237325a61da0000000nat,
    );
    lemma_split(
        0x80000000000000000000000000000000448d31f81299f237325a61da0000000nat,
        2nat,
        0x40000000000000000000000000000000224698fc094cf91b992d30ed0000000nat,
    );
    lemma_split(
        0x40000000000000000000000000000000224698fc094cf91b992d30ed0000000nat,
        2nat,
        0x2000000000000000000000000000000011234c7e04a67c8dcc9698768000000nat,
    );
    lemma_split(
        0x2000000000000000000000000000000011234c7e04a67c8dcc9698768000000nat,
        2nat,
        0x100000000000000000000000000000000891a63f02533e46e64b4c3b4000000nat,
    );
    lemma_split(
        0x100000000000000000000000000000000891a63f02533e46e64b4c3b4000000nat,
        2nat,
        0x80000000000000000000000000000000448d31f81299f237325a61da000000nat,
    );
    lemma_split(
        0x80000000000000000000000000000000448d31f81299f237325a61da000000nat,
        2nat,
        0x40000000000000000000000000000000224698fc094cf91b992d30ed000000nat,
    );
    lemma_split(
        0x40000000000000000000000000000000224698fc094cf91b992d30ed000000nat,
        2nat,
        0x2000000000000000000000000000000011234c7e04a67c8dcc969876800000nat,
    );
    lemma_split(
        0x2000000000000000000000000000000011234c7e04a67c8dcc969876800000nat,
        2nat,
        0x100000000000000000000000000000000891a63f02533e46e64b4c3b400000nat,
    );
    lemma_split(
        0x100000000000000000000000000000000891a63f02533e46e64b4c3b400000nat,
        2nat,
        0x80000000000000000000000000000000448d31f81299f237325a61da00000nat,
    );
    lemma_split(
        0x80000000000000000000000000000000448d31f81299f237325a61da00000nat,
        2nat,
        0x40000000000000000000000000000000224698fc094cf91b992d30ed00000nat,
    );
    lemma_split(
        0x40000000000000000000000000000000224698fc094cf91b992d30ed00000nat,
        2nat,
        0x2000000000000000000000000000000011234c7e04a67c8dcc96987680000nat,
    );
    lemma_split(
        0x2000000000000000000000000000000011234c7e04a67c8dcc96987680000nat,
        2nat,
        0x100000000000000000000000000000000891a63f02533e46e64b4c3b40000nat,
    );
    lemma_split(
        0x100000000000000000000000000000000891a63f02533e46e64b4c3b40000nat,
        2nat,
        0x80000000000000000000000000000000448d31f81299f237325a61da0000nat,
    );
    lemma_split(
        0x80000000000000000000000000000000448d31f81299f237325a61da0000nat,
        2nat,
        0x40000000000000000000000000000000224698fc094cf91b992d30ed0000nat,
    );
    lemma_split(
        0x40000000000000000000000000000000224698fc094cf91b992d30ed0000nat,
        2nat,
        0x2000000000000000000000000000000011234c7e04a67c8dcc9698768000nat,
    );
    lemma_split(
        0x2000000000000000000000000000000011234c7e04a67c8dcc9698768000nat,
        2nat,
        0x100000000000000000000000000000000891a63f02533e46e64b4c3b4000nat,
    );
    lemma_split(
        0x100000000000000000000000000000000891a63f02533e46e64b4c3b4000nat,
        2nat,
        0x80000000000000000000000000000000448d31f81299f237325a61da000nat,
    );
    lemma_split(
        0x80000000000000000000000000000000448d31f81299f237325a61da000nat,
        2nat,
        0x40000000000000000000000000000000224698fc094cf91b992d30ed000nat,
    );
    lemma_split(
        0x40000000000000000000000000000000224698fc094cf91b992d30ed000nat,
        2nat,
        0x2000000000000000000000000000000011234c7e04a67c8dcc969876800nat,
    );
    lemma_split(
        0x2000000000000000000000000000000011234c7e04a67c8dcc969876800nat,
        2nat,
        0x100000000000000000000000000000000891a63f02533e46e64b4c3b400nat,
    );
    lemma_split(
        0x100000000000000000000000000000000891a63f02533e46e64b4c3b400nat,
        2nat,
        0x80000000000000000000000000000000448d31f81299f237325a61da00nat,
    );
    lemma_split(
        0x80000000000000000000000000000000448d31f81299f237325a61da00nat,
        2nat,
        0x40000000000000000000000000000000224698fc094cf91b992d30ed00nat,
    );
    lemma_split(
        0x40000000000000000000000000000000224698fc094cf91b992d30ed00nat,
        2nat,
        0x2000000000000000000000000000000011234c7e04a67c8dcc96987680nat,
    );
    lemma_split(
        0x2000000000000000000000000000000011234c7e04a67c8dcc96987680nat,
        2nat,
        0x100000000000000000000000000000000891a63f02533e46e64b4c3b40nat,
    );
    lemma_split(
        0x100000000000000000000000000000000891a63f02533e46e64b4c3b40nat,
        2nat,
        0x80000000000000000000000000000000448d31f81299f237325a61da0nat,
    );
    lemma_split(
        0x80000000000000000000000000000000448d31f81299f237325a61da0nat,
        2nat,
        0x40000000000000000000000000000000224698fc094cf91b992d30ed0nat,
    );
    lemma_split(
        0x40000000000000000000000000000000224698fc094cf91b992d30ed0nat,
        2nat,
        0x2000000000000000000000000000000011234c7e04a67c8dcc9698768nat,
    );
    lemma_split(
        0x2000000000000000000000000000000011234c7e04a67c8dcc9698768nat,
        2nat,
        0x100000000000000000000000000000000891a63f02533e46e64b4c3b4nat,
    );
    lemma_split(
        0x100000000000000000000000000000000891a63f02533e46e64b4c3b4nat,
        2nat,
        0x80000000000000000000000000000000448d31f81299f237325a61danat,
    );
    lemma_split(
        0x80000000000000000000000000000000448d31f81299f237325a61danat,
        2nat,
        0x40000000000000000000000000000000224698fc094cf91b992d30ednat,
    );
    lemma_split(
        0x40000000000000000000000000000000224698fc094cf91b992d30ednat,
        3nat,
        0x1555555555555555555555555555555560c232feadc45309330f104fnat,
    );
    lemma_split(
        0x1555555555555555555555555555555560c232feadc45309330f104fnat,
        463nat,
        0xbcba8454c7c97215bf7e3fc505b6a581f61f9ea423893a5fc2981nat,
    );
    lemma_split(
        0xbcba8454c7c97215bf7e3fc505b6a581f61f9ea423893a5fc2981nat,
        0x1d3af59550161cf575nat,
        0x674e41aa25559f3f6806ca7324f298d5465dnat,
    );
    lemma_split(
        0x674e41aa25559f3f6806ca7324f298d5465dnat,
        0x674e41aa25559f3f6806ca7324f298d5465dnat,
        1nat,
    );
    lemma_no_prime_divides_one();
    assert(factors[0] == 2nat);
    assert(factors[1] == 3nat);
    assert(factors[2] == 463nat);
    assert(factors[3] == 0x1d3af59550161cf575nat);
    assert(factors[4] == 0x674e41aa25559f3f6806ca7324f298d5465dnat);
    assert(only_prime_factors((q - 1) as nat, factors));
    // The powers.
    lemma_power_modulus_top();
    lemma_power_modulus_over_2();
    lemma_power_modulus_over_3();
    lemma_power_modulus_over_463();
    lemma_power_modulus_over_1d3af59550161cf575();
    lemma_power_modulus_over_674e41aa25559f3f6806ca7324f298d5465d();
    assert forall|i: int| 0 <= i < factors.len() implies factors[i] > 0 && (q - 1) % (
        factors[i] as int
    ) == 0 && powmod(g, ((q - 1) / (#[trigger] factors[i] as int)) as nat, q) != 1 by {
        if i == 0 {
            assert((q - 1) / (2nat as int)
                == 0x2000000000000000000000000000000011234c7e04a67c8dcc96987680000000nat);
        } else if i == 1 {
            assert((q - 1) / (3nat as int)
                == 0x1555555555555555555555555555555560c232feadc45309330f104f00000000nat);
        } else if i == 2 {
            assert((q - 1) / (463nat as int)
                == 0x2362f8cfe575c56413e7abf4f1123f085e25edbec6a9baf1f47c8300000000nat);
        } else if i == 3 {
            assert((q - 1) / (0x1d3af59550161cf575nat as int)
                == 0x230839a482c91910b076cd872bf78473d2ec69900000000nat);
        } else if i == 4 {
            assert((q - 1) / (0x674e41aa25559f3f6806ca7324f298d5465dnat as int)
                == 0x9e98e67b2387fb1fcbd100000000nat);
        }
    }
    lemma_lucas(q, g, factors);
}

/// The field modulus is prime.
pub proof fn lemma_modulus_prime()
    ensures
        is_prime(modulus()),
{
    lemma_prime_modulus();
}

/// In the field, a product vanishes only where a factor does.
pub proof fn lemma_no_zero_divisors()
    ensures
        no_zero_divisors(),
{
    lemma_modulus_prime();
    assert forall|a: nat, b: nat| 0 < a < modulus() && 0 < b < modulus() implies #[trigger] fmul(
        a,
        b,
    ) != 0 by {
        lemma_prime_no_zero_divisors(modulus(), a, b);
    }
}

} // verus!
