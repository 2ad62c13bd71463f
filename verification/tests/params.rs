//! Checks of the declared parameters against an independent field
//! implementation: the base field of this curve is the scalar field of the
//! outer pairing-friendly curve, so its arithmetic is exercised through that
//! crate.

use ark_ff::{BigInteger384, Field, FpParameters, One, PrimeField, Zero};
use ed_on_cp6_782::field::{base_field_modulus_limbs, scalar_field_modulus_limbs};
use ed_on_cp6_782::{EdwardsParameters, Fq};

type ArkFq = ark_cp6_782::Fr;

fn ark_fq(limbs: [u64; 6]) -> ArkFq {
    ArkFq::from_repr(BigInteger384::new(limbs)).expect("canonical limbs")
}

fn ark_fq_of(e: &Fq) -> ArkFq {
    ark_fq(e.to_limbs())
}

fn lib_fq(e: ArkFq) -> Fq {
    Fq::from_limbs(e.into_repr().0).expect("canonical limbs")
}

#[test]
fn base_field_modulus_matches_outer_scalar_field() {
    let m = <ark_cp6_782::FrParameters as FpParameters>::MODULUS.0;
    assert_eq!(base_field_modulus_limbs(), m);
}

#[test]
fn generator_is_on_curve() {
    let a = ark_fq_of(&EdwardsParameters::coeff_a());
    let d = ark_fq_of(&EdwardsParameters::coeff_d());
    let (gx, gy) = EdwardsParameters::affine_generator_coeffs();
    let x = ark_fq_of(&gx);
    let y = ark_fq_of(&gy);
    assert_eq!(a * x * x + y * y, ArkFq::one() + d * x * x * y * y);
}

#[test]
fn coeff_a_is_minus_one() {
    let a = ark_fq_of(&EdwardsParameters::coeff_a());
    assert_eq!(a, -ArkFq::one());
}

#[test]
fn montgomery_coefficients_match_birational_transform() {
    let a = ark_fq_of(&EdwardsParameters::coeff_a());
    let d = ark_fq_of(&EdwardsParameters::coeff_d());
    let mont_a = ark_fq_of(&EdwardsParameters::montgomery_coeff_a());
    let mont_b = ark_fq_of(&EdwardsParameters::montgomery_coeff_b());
    let two = ArkFq::one() + ArkFq::one();
    let four = two + two;
    let inv_a_minus_d = (a - d).inverse().expect("a != d");
    assert_eq!(mont_a, two * (a + d) * inv_a_minus_d);
    assert_eq!(mont_b, four * inv_a_minus_d);
    let inv_b = mont_b.inverse().expect("B != 0");
    assert_eq!(a, (mont_a + two) * inv_b);
    assert_eq!(d, (mont_a - two) * inv_b);
}

#[test]
fn mul_by_a_matches_generic_multiplication() {
    let a = ark_fq_of(&EdwardsParameters::coeff_a());
    let mut samples: Vec<ArkFq> = vec![
        ArkFq::zero(),
        ArkFq::one(),
        -ArkFq::one(),
        ark_fq_of(&EdwardsParameters::coeff_d()),
        ark_fq_of(&EdwardsParameters::generator_x()),
        ark_fq_of(&EdwardsParameters::generator_y()),
    ];
    // Deterministic pseudo-random elements: iterated squaring plus one.
    let mut e = ark_fq_of(&EdwardsParameters::generator_y());
    for _ in 0..20 {
        e = e * e + ArkFq::one();
        samples.push(e);
    }
    for e in samples {
        let lib_e = lib_fq(e);
        let got = EdwardsParameters::mul_by_a(&lib_e);
        assert_eq!(got.to_limbs(), lib_fq(a * e).to_limbs());
        assert_eq!(got.to_limbs(), lib_fq(-e).to_limbs());
    }
}

#[test]
fn from_limbs_accepts_exactly_canonical_encodings() {
    let q = base_field_modulus_limbs();
    assert!(Fq::from_limbs(q).is_none());
    let mut q_minus_one = q;
    q_minus_one[0] -= 1;
    let e = Fq::from_limbs(q_minus_one).expect("below the modulus");
    assert_eq!(e.to_limbs(), q_minus_one);
    assert!(Fq::from_limbs([0xffffffffffffffff; 6]).is_none());

    let r = scalar_field_modulus_limbs();
    assert!(ed_on_cp6_782::Fr::from_limbs(r).is_none());
    let mut r_minus_one = r;
    r_minus_one[0] -= 1;
    assert!(ed_on_cp6_782::Fr::from_limbs(r_minus_one).is_some());
}

#[test]
fn cofactor_is_eight() {
    assert_eq!(EdwardsParameters::cofactor(), vec![8u64]);
}

#[test]
fn mul_by_a_of_one_is_minus_one() {
    let mut one_limbs = [0u64; 6];
    one_limbs[0] = 1;
    let one = Fq::from_limbs(one_limbs).unwrap();
    assert_eq!(
        EdwardsParameters::mul_by_a(&one).to_limbs(),
        EdwardsParameters::coeff_a().to_limbs()
    );
}

#[test]
fn mul_by_a_of_zero_and_of_generator_x() {
    let zero = Fq::from_limbs([0; 6]).unwrap();
    assert_eq!(EdwardsParameters::mul_by_a(&zero).to_limbs(), [0u64; 6]);
    let gx = EdwardsParameters::generator_x();
    let neg_gx = EdwardsParameters::mul_by_a(&gx);
    // -x + x == 0 in the field.
    assert_eq!(ark_fq_of(&neg_gx) + ark_fq_of(&gx), ArkFq::zero());
    assert_ne!(neg_gx.to_limbs(), gx.to_limbs());
}
