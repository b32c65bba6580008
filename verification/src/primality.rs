//! Prime numbers: Euclid's lemma, and the test of Lucas by which a number
//! is shown to be prime from the powers of one element.

use vstd::arithmetic::div_mod::*;
use vstd::arithmetic::mul::*;
use vstd::arithmetic::power::*;
use vstd::prelude::*;
use vstd::relations::injective_on;
use vstd::set_lib::*;

verus! {

/// A number greater than 1 that no number between 1 and itself divides.
pub open spec fn is_prime(n: nat) -> bool {
    n >= 2 && forall|d: nat| 2 <= d < n ==> #[trigger] (n % d) != 0
}

/// The power `g^e` modulo `n`.
pub open spec fn powmod(g: nat, e: nat, n: nat) -> nat {
    (pow(g as int, e) % (n as int)) as nat
}

/// The greatest common divisor, by Euclid's algorithm.
pub open spec fn gcd(a: nat, b: nat) -> nat
    decreases b,
{
    if b == 0 {
        a
    } else {
        gcd(b, a % b)
    }
}

/// Every prime that divides `m` is one of the given numbers.
pub open spec fn only_prime_factors(m: nat, factors: Seq<nat>) -> bool {
    forall|x: nat| is_prime(x) && #[trigger] (m % x) == 0 ==> factors.contains(x)
}

/// The powers `g^0` and `g^1` modulo `n`.
pub proof fn lemma_powmod_basics(g: nat, n: nat)
    requires
        n >= 2,
    ensures
        powmod(g, 0, n) == 1,
        powmod(g, 1, n) == g % n,
        powmod(1, 0, n) == 1,
{
    lemma_pow0(g as int);
    lemma_pow1(g as int);
    lemma_pow0(1);
    lemma_small_mod(1, n);
}

/// A power modulo `n` is below `n`.
pub proof fn lemma_powmod_bound(g: nat, e: nat, n: nat)
    requires
        n >= 1,
    ensures
        powmod(g, e, n) < n,
{
    lemma_mod_bound(pow(g as int, e), n as int);
}

/// The power of a sum of exponents is the product of the powers.
pub proof fn lemma_powmod_add(g: nat, a: nat, b: nat, n: nat)
    requires
        n >= 1,
    ensures
        powmod(g, a + b, n) == (powmod(g, a, n) * powmod(g, b, n)) % n,
{
    lemma_pow_adds(g as int, a, b);
    lemma_mul_mod_noop(pow(g as int, a), pow(g as int, b), n as int);
    lemma_mod_bound(pow(g as int, a), n as int);
    lemma_mod_bound(pow(g as int, b), n as int);
}

/// The power of a product of exponents is the power of the power.
pub proof fn lemma_powmod_mul(g: nat, a: nat, k: nat, n: nat)
    requires
        n >= 1,
    ensures
        powmod(g, a * k, n) == powmod(powmod(g, a, n), k, n),
{
    lemma_pow_multiplies(g as int, a, k);
    lemma_pow_mod_noop(pow(g as int, a), k, n as int);
    lemma_mod_bound(pow(g as int, a), n as int);
}

/// Every power of 1 is 1.
pub proof fn lemma_powmod_one(k: nat, n: nat)
    requires
        n >= 2,
    ensures
        powmod(1, k, n) == 1,
{
    lemma1_pow(k);
    lemma_small_mod(1, n);
}

/// One step of a square-and-multiply chain: from `g^e` to `g^(2e)` or
/// `g^(2e + 1)`.
pub proof fn lemma_chain_step(g: nat, n: nat, e: nat, v: nat, bit: bool, v2: nat)
    requires
        n >= 2,
        powmod(g, e, n) == v,
        v2 == if bit {
            (v * v * g) % n
        } else {
            (v * v) % n
        },
    ensures
        powmod(
            g,
            2 * e + if bit {
                1nat
            } else {
                0nat
            },
            n,
        ) == v2,
{
    lemma_powmod_add(g, e, e, n);
    assert(e + e == 2 * e);
    if bit {
        lemma_powmod_add(g, 2 * e, 1, n);
        lemma_powmod_basics(g, n);
        lemma_mul_mod_noop((v * v) as int, g as int, n as int);
        lemma_mod_bound((v * v) as int, n as int);
        lemma_mod_bound(g as int, n as int);
    }
}

/// What divides a divisor divides the number.
pub proof fn lemma_divides_transitive(a: nat, b: nat, c: nat)
    requires
        a > 0,
        b > 0,
        b % a == 0,
        c % b == 0,
    ensures
        c % a == 0,
{
    lemma_fundamental_div_mod(b as int, a as int);
    lemma_fundamental_div_mod(c as int, b as int);
    let k = b / a;
    let m = c / b;
    assert(c == a * (k * m)) by (nonlinear_arith)
        requires
            b == a * k,
            c == b * m,
    ;
    lemma_mod_multiples_basic((k * m) as int, a as int);
    assert((k * m) * a == a * (k * m)) by (nonlinear_arith);
}

/// Every number greater than 1 has a prime factor.
pub proof fn lemma_prime_factor(n: nat) -> (q: nat)
    requires
        n >= 2,
    ensures
        is_prime(q),
        n % q == 0,
        q <= n,
    decreases n,
{
    if is_prime(n) {
        lemma_mod_self_0(n as int);
        n
    } else {
        let d = choose|d: nat| 2 <= d < n && #[trigger] (n % d) == 0;
        let q = lemma_prime_factor(d);
        lemma_divides_transitive(q, d, n);
        q
    }
}

/// Euclid's lemma for a factor below the prime: if a prime divides `a * b`
/// and `0 < a < r`, it divides `b`.
pub proof fn lemma_euclid_reduced(r: nat, a: nat, b: nat)
    requires
        is_prime(r),
        0 < a < r,
        (a * b) % r == 0,
    ensures
        b % r == 0,
    decreases a,
{
    if a == 1 {
        assert(1 * b == b);
    } else {
        // r = k * a + s with 0 < s < a, and r divides s * b.
        let k = r / a;
        let s = r % a;
        lemma_fundamental_div_mod(r as int, a as int);
        lemma_mod_bound(r as int, a as int);
        assert(s != 0);
        let m = (a * b) / r;
        lemma_fundamental_div_mod((a * b) as int, r as int);
        assert(s * b == r * (b - k * m)) by (nonlinear_arith)
            requires
                r == a * k + s,
                a * b == r * m,
        ;
        lemma_mod_multiples_basic(b - k * m, r as int);
        assert((b - k * m) * r == r * (b - k * m)) by (nonlinear_arith);
        lemma_euclid_reduced(r, s, b);
    }
}

/// Euclid's lemma: a prime that divides a product divides a factor.
pub proof fn lemma_euclid(r: nat, a: nat, b: nat)
    requires
        is_prime(r),
        (a * b) % r == 0,
    ensures
        a % r == 0 || b % r == 0,
{
    let reduced = a % r;
    lemma_mod_bound(a as int, r as int);
    if reduced != 0 {
        lemma_mul_mod_noop_left(a as int, b as int, r as int);
        lemma_euclid_reduced(r, reduced, b);
    }
}

/// A prime that divides a prime is that prime.
pub proof fn lemma_prime_divides_prime(x: nat, r: nat)
    requires
        is_prime(x),
        is_prime(r),
        r % x == 0,
    ensures
        x == r,
{
    if x > r {
        lemma_small_mod(r, x);
    }
}

/// Splitting a prime off a number: a prime that divides `r * rest`, with
/// `r` prime, is `r` or divides `rest`.
pub proof fn lemma_split(m: nat, r: nat, rest: nat)
    requires
        m == r * rest,
        is_prime(r),
    ensures
        forall|x: nat| is_prime(x) && #[trigger] (m % x) == 0 ==> x == r || rest % x == 0,
{
    assert forall|x: nat| is_prime(x) && #[trigger] (m % x) == 0 implies x == r || rest % x
        == 0 by {
        lemma_euclid(x, r, rest);
        if r % x == 0 {
            lemma_prime_divides_prime(x, r);
        }
    }
}

/// No prime divides 1.
pub proof fn lemma_no_prime_divides_one()
    ensures
        forall|x: nat| is_prime(x) ==> #[trigger] (1nat % x) != 0,
{
    assert forall|x: nat| is_prime(x) implies #[trigger] (1nat % x) != 0 by {
        lemma_small_mod(1, x);
    }
}

/// The greatest common divisor of two numbers that are not both zero is
/// positive and divides both.
pub proof fn lemma_gcd_divides(a: nat, b: nat)
    requires
        a > 0 || b > 0,
    ensures
        gcd(a, b) > 0,
        a % gcd(a, b) == 0,
        b % gcd(a, b) == 0,
    decreases b,
{
    if b == 0 {
        lemma_mod_self_0(a as int);
        lemma_small_mod(0, a);
    } else {
        let r = a % b;
        lemma_mod_bound(a as int, b as int);
        lemma_gcd_divides(b, r);
        let d = gcd(b, r);
        // d divides b and r, so it divides a = (a / b) * b + r.
        lemma_fundamental_div_mod(a as int, b as int);
        lemma_fundamental_div_mod(b as int, d as int);
        lemma_fundamental_div_mod(r as int, d as int);
        let q = a / b;
        let x = b / d;
        let y = r / d;
        assert(a == d * (q * x + y)) by (nonlinear_arith)
            requires
                a == b * q + r,
                b == d * x,
                r == d * y,
        ;
        lemma_mod_multiples_basic((q * x + y) as int, d as int);
        assert((q * x + y) * d == d * (q * x + y)) by (nonlinear_arith);
    }
}

/// The exponents at which the power is 1 are closed under the greatest
/// common divisor.
pub proof fn lemma_order_gcd(g: nat, n: nat, a: nat, b: nat)
    requires
        n >= 2,
        powmod(g, a, n) == 1,
        powmod(g, b, n) == 1,
    ensures
        powmod(g, gcd(a, b), n) == 1,
    decreases b,
{
    if b != 0 {
        let k = a / b;
        let r = a % b;
        lemma_fundamental_div_mod(a as int, b as int);
        lemma_mod_bound(a as int, b as int);
        // g^a = (g^b)^k * g^r = g^r
        lemma_powmod_mul(g, b, k, n);
        lemma_powmod_one(k, n);
        lemma_powmod_add(g, b * k, r, n);
        lemma_powmod_bound(g, r, n);
        lemma_small_mod(powmod(g, r, n), n);
        assert(1 * powmod(g, r, n) == powmod(g, r, n));
        lemma_order_gcd(g, n, b, r);
    }
}

/// Where `g^(n-1) = 1` and `g^((n-1)/q) != 1` for every prime `q` that
/// divides `n - 1`, no power of `g` below the power `n - 1` is 1.
pub proof fn lemma_full_order(n: nat, g: nat, factors: Seq<nat>, e: nat)
    requires
        n >= 2,
        only_prime_factors((n - 1) as nat, factors),
        powmod(g, (n - 1) as nat, n) == 1,
        forall|i: int|
            0 <= i < factors.len() ==> factors[i] > 0 && (n - 1) % (factors[i] as int) == 0
                && powmod(g, ((n - 1) / (#[trigger] factors[i] as int)) as nat, n) != 1,
        0 < e < n - 1,
    ensures
        powmod(g, e, n) != 1,
{
    if powmod(g, e, n) == 1 {
        let top = (n - 1) as nat;
        let d = gcd(top, e);
        lemma_order_gcd(g, n, top, e);
        lemma_gcd_divides(top, e);
        // d divides e, so d <= e < n - 1, and m = (n - 1) / d is at least 2.
        lemma_fundamental_div_mod(e as int, d as int);
        lemma_fundamental_div_mod(top as int, d as int);
        let m = top / d;
        assert(d <= e) by (nonlinear_arith)
            requires
                e == d * (e / d),
                e > 0,
                d > 0,
        ;
        assert(m >= 2) by (nonlinear_arith)
            requires
                top == d * m,
                d < top,
                d > 0,
        ;
        let q = lemma_prime_factor(m);
        // q divides m, hence n - 1; so it is one of the factors.
        lemma_fundamental_div_mod(m as int, q as int);
        let rest = m / q;
        assert(top == q * (d * rest)) by (nonlinear_arith)
            requires
                top == d * m,
                m == q * rest,
        ;
        lemma_mod_multiples_basic((d * rest) as int, q as int);
        assert((d * rest) * q == q * (d * rest)) by (nonlinear_arith);
        assert(top % q == 0);
        let i = choose|i: int| 0 <= i < factors.len() && factors[i] == q;
        // (n - 1) / q = d * rest, and g^(d * rest) = (g^d)^rest = 1.
        lemma_div_multiples_vanish((d * rest) as int, q as int);
        assert(top / q == d * rest);
        lemma_powmod_mul(g, d, rest, n);
        lemma_powmod_one(rest, n);
        assert(powmod(g, ((n - 1) / (factors[i] as int)) as nat, n) != 1);
    }
}

/// The test of Lucas: `n` is prime where some `g` has `g^(n-1) = 1` modulo
/// `n` and `g^((n-1)/q) != 1` for every prime `q` that divides `n - 1`.
pub proof fn lemma_lucas(n: nat, g: nat, factors: Seq<nat>)
    requires
        n >= 2,
        only_prime_factors((n - 1) as nat, factors),
        powmod(g, (n - 1) as nat, n) == 1,
        forall|i: int|
            0 <= i < factors.len() ==> factors[i] > 0 && (n - 1) % (factors[i] as int) == 0
                && powmod(g, ((n - 1) / (#[trigger] factors[i] as int)) as nat, n) != 1,
    ensures
        is_prime(n),
{
    let top = (n - 1) as nat;
    let f = |i: int| powmod(g, i as nat, n) as int;
    let exponents = set_int_range(0, top as int);
    let residues = set_int_range(1, n as int);
    let powers = exponents.map(f);
    lemma_int_range(0, top as int);
    lemma_int_range(1, n as int);

    // Every power below the power n - 1 has an inverse, so it is not 0.
    assert forall|i: int| 0 <= i < top implies 1 <= #[trigger] f(i) < n && (f(i) * f(top - i))
        % (n as int) == 1 by {
        lemma_powmod_add(g, i as nat, (top - i) as nat, n);
        lemma_powmod_bound(g, i as nat, n);
        if f(i) == 0 {
            assert(0 * f(top - i) == 0);
            lemma_small_mod(0, n);
        }
    }

    // The powers below the power n - 1 differ from each other.
    assert forall|i: int, j: int|
        exponents.contains(i) && exponents.contains(j) && #[trigger] f(i) == #[trigger] f(
            j,
        ) implies i == j by {
        if i != j {
            let (low, high) = if i < j {
                (i, j)
            } else {
                (j, i)
            };
            let e = (high - low) as nat;
            // g^(high + (top - low)) = g^(low + (top - low)) = 1, and it is
            // g^top * g^e = g^e.
            lemma_powmod_add(g, high as nat, (top - low) as nat, n);
            lemma_powmod_add(g, low as nat, (top - low) as nat, n);
            lemma_powmod_add(g, top, e, n);
            assert(high + (top - low) == top + e);
            lemma_powmod_bound(g, e, n);
            lemma_small_mod(powmod(g, e, n), n);
            assert(1 * powmod(g, e, n) == powmod(g, e, n));
            lemma_full_order(n, g, factors, e);
        }
    }
    assert(injective_on(f, exponents));
    lemma_map_size(exponents, powers, f);
    assert(powers.subset_of(residues)) by {
        assert forall|x: int| powers.contains(x) implies residues.contains(x) by {
            let i = choose|i: int| exponents.contains(i) && f(i) == x;
            assert(1 <= f(i) < n);
        }
    }
    lemma_subset_equality(powers, residues);

    // So every number between 1 and n has an inverse, and divides n
    // only if it is 1.
    assert forall|d: nat| 2 <= d < n implies #[trigger] (n % d) != 0 by {
        if n % d == 0 {
            assert(residues.contains(d as int));
            assert(powers.contains(d as int));
            let i = choose|i: int| exponents.contains(i) && f(i) == d as int;
            let u = f(top - i);
            assert((d * u) % (n as int) == 1);
            lemma_fundamental_div_mod(n as int, d as int);
            let m = (n / d) as int;
            assert(1 <= m < n) by (nonlinear_arith)
                requires
                    n == d * m,
                    2 <= d < n,
            ;
            // m * (d * u) = n * u is 0 modulo n, and it is m.
            lemma_mul_mod_noop_right(m, d * u, n as int);
            assert(m * (d * u) == (u * n)) by (nonlinear_arith)
                requires
                    n == d * m,
            ;
            lemma_mod_multiples_basic(u, n as int);
            assert(m * 1 == m);
            lemma_small_mod(m as nat, n);
        }
    }
}

/// Modulo a prime, a product of two numbers that the prime does not divide
/// is not zero.
pub proof fn lemma_prime_no_zero_divisors(p: nat, a: nat, b: nat)
    requires
        is_prime(p),
        0 < a < p,
        0 < b < p,
    ensures
        (a * b) % p != 0,
{
    if (a * b) % p == 0 {
        lemma_euclid(p, a, b);
        lemma_small_mod(a, p);
        lemma_small_mod(b, p);
    }
}

} // verus!
