//! The arithmetic behind the running-sum range check: little-endian bits,
//! chunks of bits, and the running sum that consumes one chunk per step.

use crate::field::bit_of;
use crate::field::fadd;
use crate::field::fmul;
use crate::field::fneg;
use crate::field::fsub;
use crate::field::modulus;
use crate::modular::cong;
use crate::modular::inv_pow2;
use crate::modular::lemma_cong_add;
use crate::modular::lemma_cong_cancel;
use crate::modular::lemma_cong_mul;
use crate::modular::lemma_cong_small;
use crate::modular::lemma_cong_sub;
use crate::modular::lemma_fadd;
use crate::modular::lemma_fmul;
use crate::modular::lemma_fneg;
use crate::modular::lemma_fsub;
use crate::modular::lemma_inv_pow2;
use crate::modular::lemma_modulus_bounds;
use vstd::arithmetic::div_mod::*;
use vstd::arithmetic::mul::*;
use vstd::arithmetic::power2::*;
use vstd::prelude::*;

verus! {

/// The number that a sequence of bits stands for, least significant bit
/// first.
pub open spec fn bits_value(bits: Seq<bool>) -> nat
    decreases bits.len(),
{
    if bits.len() == 0 {
        0
    } else {
        bits_value(bits.drop_last()) + if bits.last() {
            pow2((bits.len() - 1) as nat)
        } else {
            0
        }
    }
}

/// The lowest `n` bits of a number, least significant bit first.
pub open spec fn le_bits(v: nat, n: nat) -> Seq<bool> {
    Seq::new(n, |i: int| bit_of(v, i as nat))
}

/// Chunk `i` of the lowest `n` bits of `v`, cut into chunks of `k` bits from
/// the least significant end. The last chunk is shorter where `k` does not
/// divide `n`.
pub open spec fn chunk(v: nat, n: nat, k: nat, i: nat) -> nat {
    ((v % pow2(n)) / pow2(i * k)) % pow2(k)
}

/// The number of chunks of `k` bits that `n` bits are cut into.
pub open spec fn num_chunks(n: nat, k: nat) -> nat
    recommends
        k > 0,
{
    if n % k == 0 {
        n / k
    } else {
        n / k + 1
    }
}

/// All the chunks of the lowest `n` bits of `v`.
pub open spec fn chunks(v: nat, n: nat, k: nat) -> Seq<nat> {
    Seq::new(num_chunks(n, k), |i: int| chunk(v, n, k, i as nat))
}

/// The number that chunks of `k` bits stand for, least significant chunk
/// first: the sum of `c_i * 2^(i * k)`.
pub open spec fn recombine(chunks: Seq<nat>, k: nat) -> nat
    decreases chunks.len(),
{
    if chunks.len() == 0 {
        0
    } else {
        recombine(chunks.drop_last(), k) + chunks.last() * pow2(((chunks.len() - 1) * k) as nat)
    }
}

/// Term `i` of the running sum over `v`: `z_0 = v`, and each further term
/// takes the next chunk away and divides by `2^k` in the field,
/// `z_(i+1) = (z_i - c_i) * 2^(-k)`.
pub open spec fn running_sum(v: nat, n: nat, k: nat, i: nat) -> nat
    decreases i,
{
    if i == 0 {
        v
    } else {
        fmul(
            fsub(running_sum(v, n, k, (i - 1) as nat), chunk(v, n, k, (i - 1) as nat)),
            inv_pow2(k),
        )
    }
}

/// A sequence of bits stands for a number below two to its length.
pub proof fn lemma_bits_value_bound(bits: Seq<bool>)
    ensures
        bits_value(bits) < pow2(bits.len()),
    decreases bits.len(),
{
    if bits.len() == 0 {
        lemma2_to64();
    } else {
        lemma_bits_value_bound(bits.drop_last());
        lemma_pow2_unfold(bits.len());
    }
}

/// The lowest `m` bits of a number stand for its remainder modulo `2^m`.
pub proof fn lemma_le_bits_value(v: nat, m: nat)
    ensures
        bits_value(le_bits(v, m)) == v % pow2(m),
    decreases m,
{
    if m == 0 {
        lemma2_to64();
    } else {
        let low = (m - 1) as nat;
        lemma_le_bits_value(v, low);
        assert(le_bits(v, m).drop_last() =~= le_bits(v, low));
        lemma_pow2_pos(low);
        lemma_pow2_unfold(m);
        lemma_breakdown(v as int, pow2(low) as int, 2);
        let top = (v / pow2(low)) % 2;
        assert(pow2(low) * top == if bit_of(v, low) {
            pow2(low)
        } else {
            0
        }) by (nonlinear_arith)
            requires
                top == 0 || top == 1,
                bit_of(v, low) == (top == 1),
        ;
        assert(pow2(low) * 2 == pow2(m));
    }
}

/// Bits `a..b` of a number stand for the number shifted down by `a` bits,
/// modulo `2^(b - a)`.
pub proof fn lemma_bit_range_value(v: nat, n: nat, a: nat, b: nat)
    requires
        a <= b <= n,
    ensures
        bits_value(le_bits(v, n).subrange(a as int, b as int)) == (v / pow2(a)) % pow2(
            (b - a) as nat,
        ),
{
    let shifted = v / pow2(a);
    lemma_pow2_pos(a);
    assert forall|j: int| 0 <= j < b - a implies #[trigger] bit_of(shifted, j as nat) == bit_of(
        v,
        (a + j) as nat,
    ) by {
        lemma_pow2_pos(j as nat);
        lemma_pow2_adds(a, j as nat);
        lemma_div_denominator(v as int, pow2(a) as int, pow2(j as nat) as int);
    }
    assert(le_bits(v, n).subrange(a as int, b as int) =~= le_bits(shifted, (b - a) as nat));
    lemma_le_bits_value(shifted, (b - a) as nat);
}

/// Shifting the lowest `n` bits down by `a` bits gives the lowest `n - a`
/// bits of the shifted number.
pub proof fn lemma_shift_truncated(v: nat, n: nat, a: nat)
    requires
        a <= n,
    ensures
        (v % pow2(n)) / pow2(a) == (v / pow2(a)) % pow2((n - a) as nat),
{
    let rest = (n - a) as nat;
    lemma_pow2_pos(a);
    lemma_pow2_pos(rest);
    lemma_pow2_adds(a, rest);
    lemma_breakdown(v as int, pow2(a) as int, pow2(rest) as int);
    let q = (v / pow2(a)) % pow2(rest);
    let r = v % pow2(a);
    assert(v % pow2(n) == pow2(a) * q + r);
    lemma_fundamental_div_mod_converse((v % pow2(n)) as int, pow2(a) as int, q as int, r as int);
}

/// A chunk is what its bits stand for, and it is below two to the number
/// of its bits.
pub proof fn lemma_chunk_bits(v: nat, n: nat, k: nat, i: nat)
    requires
        k > 0,
        i * k < n,
    ensures
        chunk(v, n, k, i) == bits_value(
            le_bits(v, n).subrange((i * k) as int, if i * k + k <= n {
                (i * k + k) as int
            } else {
                n as int
            }),
        ),
        chunk(v, n, k, i) < pow2(k),
        i * k + k > n ==> chunk(v, n, k, i) < pow2((n - i * k) as nat),
{
    let a = i * k;
    let b = if a + k <= n {
        a + k
    } else {
        n
    };
    let shifted = v / pow2(a);
    lemma_bit_range_value(v, n, a, b);
    lemma_shift_truncated(v, n, a);
    lemma_pow2_pos(k);
    lemma_pow2_pos((n - a) as nat);
    lemma_mod_bound(((v % pow2(n)) / pow2(a)) as int, pow2(k) as int);
    if a + k <= n {
        let rest = (n - a - k) as nat;
        lemma_pow2_pos(rest);
        lemma_pow2_adds(k, rest);
        lemma_mod_mod(shifted as int, pow2(k) as int, pow2(rest) as int);
    } else {
        lemma_mod_bound(shifted as int, pow2((n - a) as nat) as int);
        lemma_pow2_strictly_increases((n - a) as nat, k);
        lemma_small_mod(shifted % pow2((n - a) as nat), pow2(k));
    }
}

/// Every chunk is below `2^k`, also one that lies beyond the `n` bits.
pub proof fn lemma_chunk_bound(v: nat, n: nat, k: nat, i: nat)
    ensures
        chunk(v, n, k, i) < pow2(k),
{
    lemma_pow2_pos(k);
    lemma_mod_bound(((v % pow2(n)) / pow2(i * k)) as int, pow2(k) as int);
}

/// The first `c` chunks stand for the lowest `c * k` of the `n` bits.
pub proof fn lemma_recombine_prefix(v: nat, n: nat, k: nat, c: nat)
    requires
        k > 0,
        c <= num_chunks(n, k),
    ensures
        recombine(chunks(v, n, k).take(c as int), k) == (v % pow2(n)) % pow2(c * k),
    decreases c,
{
    let t = v % pow2(n);
    let all = chunks(v, n, k);
    if c == 0 {
        lemma2_to64();
        assert(0 * k == 0);
    } else {
        let d = (c - 1) as nat;
        lemma_recombine_prefix(v, n, k, d);
        assert(all.take(c as int).drop_last() =~= all.take(d as int));
        assert(all.take(c as int).last() == chunk(v, n, k, d));
        lemma_pow2_pos(d * k);
        lemma_pow2_pos(k);
        lemma_pow2_pos(n);
        lemma_mod_bound(v as int, pow2(n) as int);
        lemma_breakdown(t as int, pow2(d * k) as int, pow2(k) as int);
        lemma_pow2_adds(d * k, k);
        assert(d * k + k == c * k) by (nonlinear_arith)
            requires
                d + 1 == c,
        ;
        assert(chunk(v, n, k, d) * pow2(d * k) == pow2(d * k) * chunk(v, n, k, d))
            by (nonlinear_arith);
    }
}

/// The chunks cover the `n` bits: `num_chunks(n, k) * k >= n`, and one
/// chunk fewer would not.
pub proof fn lemma_num_chunks(n: nat, k: nat)
    requires
        k > 0,
    ensures
        num_chunks(n, k) * k >= n,
        n > 0 ==> (num_chunks(n, k) - 1) * k < n,
        n == 0 ==> num_chunks(n, k) == 0,
{
    lemma_fundamental_div_mod(n as int, k as int);
    lemma_mod_bound(n as int, k as int);
    let q = n / k;
    assert(k * q == q * k) by (nonlinear_arith);
    assert((q + 1) * k == q * k + k) by (nonlinear_arith);
    assert((q - 1) * k == q * k - k) by (nonlinear_arith);
    if n == 0 {
        lemma_small_mod(0, k);
        lemma_div_basics_1(k as int);
    }
}

/// Cutting a number into chunks and putting the chunks together again gives
/// the lowest `n` bits of the number: the number itself where it has no
/// more than `n` bits.
pub proof fn lemma_decompose_recombine(v: nat, n: nat, k: nat)
    requires
        k > 0,
    ensures
        recombine(chunks(v, n, k), k) == v % pow2(n),
        v < pow2(n) ==> recombine(chunks(v, n, k), k) == v,
{
    let c = num_chunks(n, k);
    lemma_recombine_prefix(v, n, k, c);
    assert(chunks(v, n, k).take(c as int) =~= chunks(v, n, k));
    lemma_num_chunks(n, k);
    lemma_pow2_pos(n);
    lemma_mod_bound(v as int, pow2(n) as int);
    if n < c * k {
        lemma_pow2_strictly_increases(n, c * k);
    }
    lemma_small_mod(v % pow2(n), pow2(c * k));
    if v < pow2(n) {
        lemma_small_mod(v, pow2(n));
    }
}

/// Every term of the running sum but the first is reduced.
pub proof fn lemma_running_sum_reduced(v: nat, n: nat, k: nat, i: nat)
    ensures
        i > 0 ==> running_sum(v, n, k, i) < modulus(),
        v < modulus() ==> running_sum(v, n, k, i) < modulus(),
{
    if i > 0 {
        lemma_fmul(
            fsub(running_sum(v, n, k, (i - 1) as nat), chunk(v, n, k, (i - 1) as nat)),
            inv_pow2(k),
        );
    }
}

/// One step of the running sum, read backwards: `z_(i+1) * 2^k` stands for
/// `z_i - c_i`.
pub proof fn lemma_running_sum_step(v: nat, n: nat, k: nat, i: nat)
    ensures
        cong(
            (running_sum(v, n, k, i + 1) * pow2(k)) as int,
            running_sum(v, n, k, i) - chunk(v, n, k, i),
        ),
{
    let z = running_sum(v, n, k, i) as int;
    let c = chunk(v, n, k, i) as int;
    let d = fsub(z as nat, c as nat) as int;
    let inv = inv_pow2(k) as int;
    let two_k = pow2(k) as int;
    lemma_fsub(z as nat, c as nat);
    lemma_fmul(d as nat, inv as nat);
    lemma_inv_pow2(k);
    // z_(i+1) * 2^k  ~  (d * inv) * 2^k  =  d * (2^k * inv)  ~  d * 1  ~  z - c
    lemma_cong_mul(running_sum(v, n, k, i + 1) as int, d * inv, two_k, two_k);
    assert((d * inv) * two_k == d * (two_k * inv)) by (nonlinear_arith);
    lemma_cong_mul(d, d, two_k * inv, 1);
    assert(d * 1 == d);
}

/// What the running sum has taken away after `i` steps: `z_i * 2^(i*k)`
/// stands for `v` without the lowest `i * k` of its lowest `n` bits.
pub proof fn lemma_running_sum_invariant(v: nat, n: nat, k: nat, i: nat)
    ensures
        cong((running_sum(v, n, k, i) * pow2(i * k)) as int, v - (v % pow2(n)) % pow2(i * k)),
    decreases i,
{
    let t = v % pow2(n);
    if i == 0 {
        lemma2_to64();
        assert(0 * k == 0);
        assert(running_sum(v, n, k, 0) * pow2(0) == v) by (nonlinear_arith)
            requires
                running_sum(v, n, k, 0) == v,
                pow2(0) == 1,
        ;
    } else {
        let j = (i - 1) as nat;
        lemma_running_sum_invariant(v, n, k, j);
        lemma_running_sum_step(v, n, k, j);
        let zi = running_sum(v, n, k, i) as int;
        let zj = running_sum(v, n, k, j) as int;
        let c = chunk(v, n, k, j) as int;
        let pj = pow2(j * k) as int;
        let two_k = pow2(k) as int;
        lemma_pow2_adds(j * k, k);
        assert(j * k + k == i * k) by (nonlinear_arith)
            requires
                j + 1 == i,
        ;
        // z_i * 2^(ik) = (z_i * 2^k) * 2^(jk) ~ (z_j - c) * 2^(jk)
        lemma_cong_mul(zi * two_k, zj - c, pj, pj);
        assert(zi * pow2(i * k) == (zi * two_k) * pj) by (nonlinear_arith)
            requires
                pow2(i * k) == pj * two_k,
        ;
        assert((zj - c) * pj == zj * pj - c * pj) by (nonlinear_arith);
        // z_j * 2^(jk) ~ v - t % 2^(jk)
        lemma_cong_sub(zj * pj, v - t % pow2(j * k), c * pj, c * pj);
        lemma_pow2_pos(j * k);
        lemma_pow2_pos(k);
        lemma_pow2_pos(n);
        lemma_mod_bound(v as int, pow2(n) as int);
        lemma_breakdown(t as int, pj, two_k);
        assert(c * pj == pj * c) by (nonlinear_arith);
    }
}

/// The running sum ends in zero exactly where the number has no more than
/// `n` bits.
pub proof fn lemma_running_sum_final(v: nat, n: nat, k: nat)
    requires
        k > 0,
        v < modulus(),
    ensures
        running_sum(v, n, k, num_chunks(n, k)) == 0 <==> v < pow2(n),
{
    let c = num_chunks(n, k);
    let z = running_sum(v, n, k, c);
    let t = v % pow2(n);
    lemma_running_sum_invariant(v, n, k, c);
    lemma_running_sum_reduced(v, n, k, c);
    lemma_num_chunks(n, k);
    lemma_pow2_pos(n);
    lemma_mod_bound(v as int, pow2(n) as int);
    if n < c * k {
        lemma_pow2_strictly_increases(n, c * k);
    }
    lemma_small_mod(t, pow2(c * k));
    lemma_modulus_bounds();
    lemma_small_mod(0, modulus());
    assert(cong((z * pow2(c * k)) as int, v - t));
    if v < pow2(n) {
        lemma_small_mod(v, pow2(n));
        lemma_inv_pow2(c * k);
        assert(pow2(c * k) * 0 == 0);
        assert(z * pow2(c * k) == pow2(c * k) * z) by (nonlinear_arith);
        lemma_cong_cancel(pow2(c * k) as int, inv_pow2(c * k) as int, z as int, 0);
        lemma_cong_small(z as int, 0);
    } else {
        lemma_fundamental_div_mod(v as int, pow2(n) as int);
        if z == 0 {
            assert(z * pow2(c * k) == 0);
            assert(0 < v - t < modulus()) by {
                if v == t {
                    lemma_small_mod(v, pow2(n));
                }
            }
            lemma_cong_small(0, v - t);
        }
    }
}

/// The chunk that the lookup argument reads off two neighbouring terms of
/// the running sum, `z_i - z_(i+1) * 2^k`, is chunk `i`.
pub proof fn lemma_running_sum_chunk(v: nat, n: nat, k: nat, i: nat)
    requires
        0 < k <= 254,
    ensures
        fadd(
            running_sum(v, n, k, i),
            fneg(fmul(running_sum(v, n, k, i + 1), pow2(k))),
        ) == chunk(v, n, k, i),
{
    let z = running_sum(v, n, k, i);
    let next = running_sum(v, n, k, i + 1);
    let c = chunk(v, n, k, i);
    let m = fmul(next, pow2(k));
    lemma_running_sum_step(v, n, k, i);
    lemma_fmul(next, pow2(k));
    lemma_fneg(m);
    lemma_fadd(z, fneg(m));
    // z + (-(next * 2^k)) ~ z - (z - c) = c
    lemma_cong_sub(0, 0, m as int, z - c);
    lemma_cong_add(z as int, z as int, fneg(m) as int, 0 - (z - c));
    lemma_chunk_bound(v, n, k, i);
    lemma_modulus_bounds();
    if k < 254 {
        lemma_pow2_strictly_increases(k, 254);
    }
    lemma_cong_small(fadd(z, fneg(m)) as int, c as int);
}

} // verus!
