use plonkish_gadgets::circuit::value_add;
use plonkish_gadgets::circuit::Region;
use plonkish_gadgets::dev::evaluate;
use plonkish_gadgets::field::Felt;
use plonkish_gadgets::plonk::Expression;
use plonkish_gadgets::plonk::Selector;

/// The limbs of the modulus minus one.
const MINUS_ONE: [u64; 4] = [
    0x992d30ed00000000,
    0x224698fc094cf91b,
    0x0000000000000000,
    0x4000000000000000,
];

/// The limbs of the modulus.
const MODULUS: [u64; 4] = [
    0x992d30ed00000001,
    0x224698fc094cf91b,
    0x0000000000000000,
    0x4000000000000000,
];

fn empty_region() -> Region {
    Region {
        name: "empty",
        cells: vec![],
        enabled: vec![],
        constraints: vec![],
    }
}

fn constant(v: u64) -> Expression {
    Expression::Constant(Felt::from_u64(v))
}

#[test]
fn small_integers() {
    assert_eq!(Felt::zero(), Felt::from_u64(0));
    assert_eq!(Felt::one(), Felt::from_u64(1));
    assert!(Felt::zero().is_zero());
    assert!(!Felt::one().is_zero());
    assert_eq!(Felt::from_u64(u64::MAX).limbs(), [u64::MAX, 0, 0, 0]);
}

#[test]
fn limbs_below_the_modulus_are_elements() {
    assert_eq!(Felt::from_limbs([7, 0, 0, 0]), Some(Felt::from_u64(7)));
    let minus_one = Felt::from_limbs(MINUS_ONE).unwrap();
    assert_eq!(minus_one.limbs(), MINUS_ONE);
    assert_eq!(Felt::from_limbs(MODULUS), None);
    assert_eq!(Felt::from_limbs([u64::MAX; 4]), None);
    assert_eq!(Felt::from_limbs([0, 0, 1, 0x4000000000000000]), None);
    assert!(Felt::from_limbs([u64::MAX, u64::MAX, u64::MAX, 0x3fffffffffffffff]).is_some());
}

#[test]
fn sums_wrap_around_the_modulus() {
    assert_eq!(
        value_add(Some(Felt::from_u64(3)), Some(Felt::from_u64(4))),
        Some(Felt::from_u64(7))
    );
    let minus_one = Felt::from_limbs(MINUS_ONE).unwrap();
    assert_eq!(
        value_add(Some(minus_one), Some(Felt::from_u64(2))),
        Some(Felt::from_u64(1))
    );
    assert_eq!(value_add(Some(minus_one), Some(Felt::one())), Some(Felt::zero()));
    assert_eq!(value_add(None, Some(Felt::one())), None);
    assert_eq!(value_add(Some(Felt::one()), None), None);
}

#[test]
fn polynomials_of_constants() {
    let region = empty_region();
    // -1 = p - 1
    assert_eq!(
        evaluate(&constant(1).negated(), &region, 0),
        Felt::from_limbs(MINUS_ONE)
    );
    // -0 = 0
    assert_eq!(evaluate(&constant(0).negated(), &region, 0), Some(Felt::zero()));
    // 5 - 7 = p - 2
    assert_eq!(
        evaluate(&constant(5).minus(constant(7)), &region, 0),
        Felt::from_limbs([MINUS_ONE[0] - 1, MINUS_ONE[1], MINUS_ONE[2], MINUS_ONE[3]])
    );
    // 6 * 7 = 42
    assert_eq!(
        evaluate(&constant(6).times(constant(7)), &region, 0),
        Some(Felt::from_u64(42))
    );
    // (p - 1) * (p - 1) = 1
    let minus_one = Felt::from_limbs(MINUS_ONE).unwrap();
    assert_eq!(
        evaluate(
            &Expression::Constant(minus_one).times(Expression::Constant(minus_one)),
            &region,
            0
        ),
        Some(Felt::one())
    );
    // 2^32 * 2^32 = 2^64
    assert_eq!(
        evaluate(&constant(1 << 32).scaled(Felt::from_u64(1 << 32)), &region, 0),
        Felt::from_limbs([0, 1, 0, 0])
    );
    // 3 + 4 = 7
    assert_eq!(
        evaluate(&constant(3).plus(constant(4)), &region, 0),
        Some(Felt::from_u64(7))
    );
}

#[test]
fn selectors_evaluate_to_zero_or_one() {
    let q = Selector {
        index: 0,
        simple: true,
    };
    let mut region = empty_region();
    region.enabled.push((q, 3));
    assert_eq!(evaluate(&Expression::Selector(q), &region, 3), Some(Felt::one()));
    assert_eq!(evaluate(&Expression::Selector(q), &region, 2), Some(Felt::zero()));
}

#[test]
fn copies_of_polynomials_are_equal() {
    let poly = constant(3).plus(constant(4)).times(constant(5).negated());
    assert_eq!(poly.duplicate(), poly);
    assert_eq!(poly.clone(), poly);
}
