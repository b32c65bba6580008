//! Elements of the Pallas base field, held by their canonical limbs.
//!
//! The arithmetic itself is done by `pasta_curves`; this module gives each
//! operation a contract over the integers that the elements stand for.
//! Those contracts are taken on trust: each of the functions `fp_add`,
//! `fp_sub`, `fp_mul`, `fp_neg`, `fp_invert` and `fp_to_le_bits` hands its
//! limbs to `Fp::from_raw`, which takes any four limbs to the element they
//! are congruent to, makes one call, and reads the limbs of the result off
//! `PrimeFieldBits::to_le_bits`, the bits of its reduced representation.

use ff::Field;
use ff::PrimeFieldBits;
use halo2_proofs::pasta::Fp;
use vstd::prelude::*;

verus! {

/// The weight of one limb: 2^64.
pub open spec fn limb_base() -> nat {
    0x1_0000_0000_0000_0000
}

/// The field modulus p = 2^254 + 0x224698fc094cf91b992d30ed00000001.
pub open spec fn modulus() -> nat {
    0x4000_0000_0000_0000 * limb_base() * limb_base() * limb_base()
        + 0x2246_98fc_094c_f91b_992d_30ed_0000_0001
}

/// The number that four little-endian limbs stand for.
pub open spec fn limbs_value(l0: u64, l1: u64, l2: u64, l3: u64) -> nat {
    l0 as nat + limb_base() * (l1 as nat + limb_base() * (l2 as nat + limb_base() * (l3 as nat)))
}

/// Sum in the field.
pub open spec fn fadd(a: nat, b: nat) -> nat {
    (a + b) % modulus()
}

/// Difference in the field.
pub open spec fn fsub(a: nat, b: nat) -> nat {
    ((a as int - b as int) % (modulus() as int)) as nat
}

/// Product in the field.
pub open spec fn fmul(a: nat, b: nat) -> nat {
    (a * b) % modulus()
}

/// Additive inverse in the field.
pub open spec fn fneg(a: nat) -> nat {
    fsub(0, a)
}

/// Bit `i` of a natural number, counted from the least significant one.
pub open spec fn bit_of(n: nat, i: nat) -> bool {
    (n / vstd::arithmetic::power2::pow2(i)) % 2 == 1
}

/// An element of the field, kept as the four little-endian limbs of an
/// integer that represents it. Every element that this crate hands out is
/// reduced, see [`Felt::wf`].
#[derive(Clone, Copy, Debug, PartialEq, Eq, Structural)]
pub struct Felt {
    l0: u64,
    l1: u64,
    l2: u64,
    l3: u64,
}

impl Felt {
    /// The integer that the limbs stand for.
    pub closed spec fn value(&self) -> nat {
        limbs_value(self.l0, self.l1, self.l2, self.l3)
    }

    /// The element is reduced: its value lies below the modulus.
    pub open spec fn wf(&self) -> bool {
        self.value() < modulus()
    }

    /// The element with the given limbs.
    pub closed spec fn spec_from_limbs(l0: u64, l1: u64, l2: u64, l3: u64) -> Felt {
        Felt { l0, l1, l2, l3 }
    }

    /// The reduced element that stands for an integer below 2^256.
    pub closed spec fn from_value(v: nat) -> Felt {
        Felt {
            l0: (v % limb_base()) as u64,
            l1: ((v / limb_base()) % limb_base()) as u64,
            l2: ((v / limb_base() / limb_base()) % limb_base()) as u64,
            l3: ((v / limb_base() / limb_base() / limb_base()) % limb_base()) as u64,
        }
    }

    /// An element is known by its value.
    pub proof fn lemma_from_value(self)
        ensures
            Felt::from_value(self.value()) == self,
    {
        let b = limb_base() as int;
        let v = self.value() as int;
        let x1: int = self.l1 as int + b * (self.l2 as int + b * (self.l3 as int));
        let x2: int = self.l2 as int + b * (self.l3 as int);
        vstd::arithmetic::div_mod::lemma_fundamental_div_mod_converse(v, b, x1, self.l0 as int);
        vstd::arithmetic::div_mod::lemma_fundamental_div_mod_converse(x1, b, x2, self.l1 as int);
        vstd::arithmetic::div_mod::lemma_fundamental_div_mod_converse(
            x2,
            b,
            self.l3 as int,
            self.l2 as int,
        );
        vstd::arithmetic::div_mod::lemma_small_mod(self.l3 as nat, limb_base());
    }

    /// The element that stands for an integer below 2^256 has that value.
    pub proof fn lemma_value_of_from_value(v: nat)
        requires
            v < limb_base() * limb_base() * limb_base() * limb_base(),
        ensures
            Felt::from_value(v).value() == v,
    {
        let b = limb_base() as int;
        let q1 = v as int / b;
        let q2 = q1 / b;
        let q3 = q2 / b;
        vstd::arithmetic::div_mod::lemma_fundamental_div_mod(v as int, b);
        vstd::arithmetic::div_mod::lemma_fundamental_div_mod(q1, b);
        vstd::arithmetic::div_mod::lemma_fundamental_div_mod(q2, b);
        assert(q3 < b);
        vstd::arithmetic::div_mod::lemma_small_mod(q3 as nat, limb_base());
    }

    /// The element that stands for a small integer.
    pub open spec fn spec_from_u64(v: u64) -> Felt {
        Felt::spec_from_limbs(v, 0, 0, 0)
    }

    /// Two elements with the same value are the same element.
    pub proof fn lemma_value_injective(a: Felt, b: Felt)
        requires
            a.value() == b.value(),
        ensures
            a == b,
    {
        let x: int = a.l1 as int + limb_base() * (a.l2 as int + limb_base() * (a.l3 as int));
        let y: int = b.l1 as int + limb_base() * (b.l2 as int + limb_base() * (b.l3 as int));
        assert(a.l0 as int + limb_base() * x == b.l0 as int + limb_base() * y);
        assert(a.l0 == b.l0 && x == y);
        let x2: int = a.l2 as int + limb_base() * (a.l3 as int);
        let y2: int = b.l2 as int + limb_base() * (b.l3 as int);
        assert(a.l1 as int + limb_base() * x2 == b.l1 as int + limb_base() * y2);
        assert(a.l1 == b.l1 && x2 == y2);
    }

    /// The value of a small integer's element.
    pub proof fn lemma_from_u64(v: u64)
        ensures
            Felt::spec_from_u64(v).value() == v,
            Felt::spec_from_u64(v).wf(),
    {
    }

    /// The element that stands for a small integer.
    pub fn from_u64(v: u64) -> (r: Felt)
        ensures
            r == Felt::spec_from_u64(v),
            r.value() == v,
            r.wf(),
    {
        Felt { l0: v, l1: 0, l2: 0, l3: 0 }
    }

    /// The additive identity.
    pub fn zero() -> (r: Felt)
        ensures
            r == Felt::spec_from_u64(0),
            r.value() == 0,
            r.wf(),
    {
        Felt { l0: 0, l1: 0, l2: 0, l3: 0 }
    }

    /// The multiplicative identity.
    pub fn one() -> (r: Felt)
        ensures
            r == Felt::spec_from_u64(1),
            r.value() == 1,
            r.wf(),
    {
        Felt { l0: 1, l1: 0, l2: 0, l3: 0 }
    }

    /// Whether the element's value is zero.
    pub fn is_zero(&self) -> (r: bool)
        ensures
            r == (self.value() == 0),
    {
        self.l0 == 0 && self.l1 == 0 && self.l2 == 0 && self.l3 == 0
    }

    /// The four little-endian limbs.
    pub fn limbs(&self) -> (r: [u64; 4])
        ensures
            Felt::spec_from_limbs(r[0], r[1], r[2], r[3]) == *self,
            limbs_value(r[0], r[1], r[2], r[3]) == self.value(),
    {
        [self.l0, self.l1, self.l2, self.l3]
    }

    /// The element with the given little-endian limbs, if they stand for a
    /// number below the modulus.
    pub fn from_limbs(limbs: [u64; 4]) -> (r: Option<Felt>)
        ensures
            limbs_value(limbs[0], limbs[1], limbs[2], limbs[3]) < modulus() ==> r == Some(
                Felt::spec_from_limbs(limbs[0], limbs[1], limbs[2], limbs[3]),
            ),
            limbs_value(limbs[0], limbs[1], limbs[2], limbs[3]) >= modulus() ==> r is None,
            r matches Some(element) ==> element.wf() && element.value() == limbs_value(
                limbs[0],
                limbs[1],
                limbs[2],
                limbs[3],
            ),
    {
        let l0: u64 = limbs[0];
        let l1: u64 = limbs[1];
        let l2: u64 = limbs[2];
        let l3: u64 = limbs[3];
        let below: bool = l3 < 0x4000_0000_0000_0000 || (l3 == 0x4000_0000_0000_0000 && l2 == 0
            && (l1 < 0x2246_98fc_094c_f91b || (l1 == 0x2246_98fc_094c_f91b && l0
            < 0x992d_30ed_0000_0001)));
        if below {
            Some(Felt { l0, l1, l2, l3 })
        } else {
            None
        }
    }
}

/// Calls `Fp::add` of pasta_curves, through the `+` of `Fp`. The claim: the
/// result is reduced and stands for the sum of the two values modulo p.
#[verifier::external_body]
pub(crate) fn fp_add(a: &Felt, b: &Felt) -> (r: Felt)
    ensures
        r.value() == fadd(a.value(), b.value()),
{
    let x = Fp::from_raw([a.l0, a.l1, a.l2, a.l3]);
    let y = Fp::from_raw([b.l0, b.l1, b.l2, b.l3]);
    let [l0, l1, l2, l3] = (x + y).to_le_bits().into_inner();
    Felt { l0, l1, l2, l3 }
}

/// Calls `Fp::sub` of pasta_curves, through the `-` of `Fp`. The claim: the
/// result is reduced and stands for the difference of the two values
/// modulo p.
#[verifier::external_body]
pub(crate) fn fp_sub(a: &Felt, b: &Felt) -> (r: Felt)
    ensures
        r.value() == fsub(a.value(), b.value()),
{
    let x = Fp::from_raw([a.l0, a.l1, a.l2, a.l3]);
    let y = Fp::from_raw([b.l0, b.l1, b.l2, b.l3]);
    let [l0, l1, l2, l3] = (x - y).to_le_bits().into_inner();
    Felt { l0, l1, l2, l3 }
}

/// Calls `Fp::mul` of pasta_curves, through the `*` of `Fp`. The claim: the
/// result is reduced and stands for the product of the two values modulo p.
#[verifier::external_body]
pub(crate) fn fp_mul(a: &Felt, b: &Felt) -> (r: Felt)
    ensures
        r.value() == fmul(a.value(), b.value()),
{
    let x = Fp::from_raw([a.l0, a.l1, a.l2, a.l3]);
    let y = Fp::from_raw([b.l0, b.l1, b.l2, b.l3]);
    let [l0, l1, l2, l3] = (x * y).to_le_bits().into_inner();
    Felt { l0, l1, l2, l3 }
}

/// Calls `Fp::neg` of pasta_curves, through the unary `-` of `Fp`. The
/// claim: the result is reduced and stands for the negated value modulo p.
#[verifier::external_body]
pub(crate) fn fp_neg(a: &Felt) -> (r: Felt)
    ensures
        r.value() == fneg(a.value()),
{
    let x = Fp::from_raw([a.l0, a.l1, a.l2, a.l3]);
    let [l0, l1, l2, l3] = (-x).to_le_bits().into_inner();
    Felt { l0, l1, l2, l3 }
}

/// Calls `Field::invert` as pasta_curves implements it for `Fp`. The claim:
/// there is no result exactly when the value is a multiple of p; otherwise
/// the result is reduced and its product with the value is 1 modulo p.
#[verifier::external_body]
pub(crate) fn fp_invert(a: &Felt) -> (r: Option<Felt>)
    ensures
        r is None <==> a.value() % modulus() == 0,
        r matches Some(inv) ==> inv.wf() && fmul(a.value(), inv.value()) == 1,
{
    let inverse: Option<Fp> = Fp::from_raw([a.l0, a.l1, a.l2, a.l3]).invert().into();
    inverse.map(
        |x| {
            let [l0, l1, l2, l3] = x.to_le_bits().into_inner();
            Felt { l0, l1, l2, l3 }
        },
    )
}

/// Calls `PrimeFieldBits::to_le_bits` as pasta_curves implements it for
/// `Fp`. The claim: the result holds the 256 bits of the reduced value,
/// least significant first.
#[verifier::external_body]
pub(crate) fn fp_to_le_bits(a: &Felt) -> (bits: Vec<bool>)
    ensures
        bits@.len() == 256,
        forall|i: int| 0 <= i < 256 ==> bits@[i] == bit_of(a.value() % modulus(), i as nat),
{
    Fp::from_raw([a.l0, a.l1, a.l2, a.l3]).to_le_bits().iter().by_vals().collect()
}

} // verus!
