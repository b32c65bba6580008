//! The Fibonacci recurrence over values of the field.

use crate::circuit::value_sum;
use crate::circuit::Value;
use crate::field::fadd;
use crate::field::fneg;
use crate::field::Felt;
use crate::modular::lemma_fadd;
use crate::modular::lemma_fadd_fneg;
use crate::modular::lemma_modulus_bounds;
use vstd::arithmetic::power2::*;
use vstd::prelude::*;

verus! {

/// Term `n` of the recurrence that starts with `a` and `b`: each further
/// term is the sum of the two before it. A term is unknown where a term
/// that it is made of is.
pub open spec fn fibonacci(a: Value, b: Value, n: nat) -> Value
    decreases n,
{
    if n == 0 {
        a
    } else if n == 1 {
        b
    } else {
        value_sum(fibonacci(a, b, (n - 2) as nat), fibonacci(a, b, (n - 1) as nat))
    }
}

/// Term `n` of the recurrence over numbers: the sums are taken in the
/// field.
pub open spec fn fibonacci_number(a: nat, b: nat, n: nat) -> nat
    decreases n,
{
    if n == 0 {
        a
    } else if n == 1 {
        b
    } else {
        fadd(fibonacci_number(a, b, (n - 2) as nat), fibonacci_number(a, b, (n - 1) as nat))
    }
}

/// The terms of the recurrence over known values are known, and stand for
/// the terms of the recurrence over numbers.
pub proof fn lemma_fibonacci_known(a: Felt, b: Felt, n: nat)
    ensures
        fibonacci(Some(a), Some(b), n) is Some,
        fibonacci(Some(a), Some(b), n)->0.value() == fibonacci_number(a.value(), b.value(), n),
    decreases n,
{
    if n >= 2 {
        lemma_fibonacci_known(a, b, (n - 2) as nat);
        lemma_fibonacci_known(a, b, (n - 1) as nat);
        let sum = fadd(
            fibonacci_number(a.value(), b.value(), (n - 2) as nat),
            fibonacci_number(a.value(), b.value(), (n - 1) as nat),
        );
        lemma_fadd(
            fibonacci_number(a.value(), b.value(), (n - 2) as nat),
            fibonacci_number(a.value(), b.value(), (n - 1) as nat),
        );
        lemma_modulus_bounds();
        lemma2_to64();
        lemma_pow2_adds(64, 64);
        lemma_pow2_adds(128, 64);
        lemma_pow2_adds(192, 64);
        lemma_pow2_strictly_increases(255, 256);
        Felt::lemma_value_of_from_value(sum);
    }
}

/// Three terms in a row satisfy the recurrence: `x + y - z = 0` in the
/// field.
pub proof fn lemma_fibonacci_step(a: nat, b: nat, n: nat)
    ensures
        fadd(
            fadd(fibonacci_number(a, b, n), fibonacci_number(a, b, n + 1)),
            fneg(fibonacci_number(a, b, n + 2)),
        ) == 0,
{
    lemma_fadd_fneg(fibonacci_number(a, b, n + 2));
}

/// From 1 and 1, term 9 of the recurrence is 55, the tenth Fibonacci
/// number.
pub proof fn lemma_tenth_fibonacci_number()
    ensures
        fibonacci_number(1, 1, 9) == 55,
{
    lemma_modulus_bounds();
    lemma2_to64();
    lemma_pow2_strictly_increases(64, 254);
    reveal_with_fuel(fibonacci_number, 3);
    assert(fibonacci_number(1, 1, 2) == 2) by {
        vstd::arithmetic::div_mod::lemma_small_mod(2, crate::field::modulus());
    }
    assert(fibonacci_number(1, 1, 3) == 3) by {
        vstd::arithmetic::div_mod::lemma_small_mod(3, crate::field::modulus());
    }
    assert(fibonacci_number(1, 1, 4) == 5) by {
        vstd::arithmetic::div_mod::lemma_small_mod(5, crate::field::modulus());
    }
    assert(fibonacci_number(1, 1, 5) == 8) by {
        vstd::arithmetic::div_mod::lemma_small_mod(8, crate::field::modulus());
    }
    assert(fibonacci_number(1, 1, 6) == 13) by {
        vstd::arithmetic::div_mod::lemma_small_mod(13, crate::field::modulus());
    }
    assert(fibonacci_number(1, 1, 7) == 21) by {
        vstd::arithmetic::div_mod::lemma_small_mod(21, crate::field::modulus());
    }
    assert(fibonacci_number(1, 1, 8) == 34) by {
        vstd::arithmetic::div_mod::lemma_small_mod(34, crate::field::modulus());
    }
    assert(fibonacci_number(1, 1, 9) == 55) by {
        vstd::arithmetic::div_mod::lemma_small_mod(55, crate::field::modulus());
    }
}

} // verus!
