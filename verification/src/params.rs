//! The parameter set of the curve: the twisted Edwards coefficients `(a, d)`
//! with `a = -1`, the coefficients `(A, B)` of the birationally equivalent
//! Montgomery curve, the affine generator, the cofactor `8` and its inverse
//! modulo the subgroup order, and the curve-specific fast multiplication by
//! `a`.
//!
//! The lemmas at the end of the module prove the invariants a valid parameter
//! set must satisfy: the generator lies on the curve, the cofactor inverse is
//! a true inverse, the two curve models are related by the standard birational
//! transform, and multiplication by `a` is exactly negation.

use crate::field::{
    base_field_modulus, base_field_neg, lemma_mul_by_minus_one_is_neg, scalar_field_modulus, Fq,
    Fr,
};
use vstd::prelude::*;

verus! {

/// The linear twisted Edwards coefficient `a = -1`, canonically
/// `base_field_modulus() - 1`.
pub open spec fn coeff_a_nat() -> nat {
    (base_field_modulus() - 1) as nat
}

/// The quadratic twisted Edwards coefficient `d = 79743`.
pub open spec fn coeff_d_nat() -> nat {
    79743
}

/// The `x` coordinate of the affine generator.
pub open spec fn generator_x_nat() -> nat {
    174701772324485506941690903512423551998294352968833659960042362742684869862495746426366187462669992073196420267127nat
}

/// The `y` coordinate of the affine generator.
pub open spec fn generator_y_nat() -> nat {
    208487200052258845495340374451540775445408439654930191324011635560142523886549663106522691296420655144190624954833nat
}

/// The Montgomery coefficient `A` of the equivalent curve
/// `B * y^2 = x^3 + A * x^2 + x`.
pub open spec fn montgomery_coeff_a_nat() -> nat {
    90083623084271891037116870487743067984710080209539149685414147055329063590616489392386084989619674926965747987765nat
}

/// The Montgomery coefficient `B` of the equivalent curve.
pub open spec fn montgomery_coeff_b_nat() -> nat {
    168580802928697202973535863207150465551683432545375510854470115611391404757724333382582803149953685197474573470410nat
}

/// The cofactor `h = 8`: the full point group has order
/// `8 * scalar_field_modulus()`.
pub open spec fn cofactor_nat() -> nat {
    8
}

/// The inverse of the cofactor modulo the subgroup order.
pub open spec fn cofactor_inv_nat() -> nat {
    12124894969357926281749346891948134384518445910386624712788431705725441736421489799867521238554906438478484045560nat
}

/// Whether `(x, y)` satisfies the twisted Edwards equation
/// `a * x^2 + y^2 = 1 + d * x^2 * y^2` in the base field.
pub open spec fn on_twisted_edwards_curve(x: nat, y: nat) -> bool {
    (coeff_a_nat() * x * x + y * y) % base_field_modulus() == (1 + coeff_d_nat() * x * x * y * y)
        % base_field_modulus()
}

/// The parameter set of the curve, consumed by a generic group-arithmetic
/// engine.
#[derive(Clone, Copy, Default, PartialEq, Eq)]
pub struct EdwardsParameters;

impl EdwardsParameters {
    /// The linear twisted Edwards coefficient `a = -1`, as a base field
    /// element.
    pub fn coeff_a() -> (r: Fq)
        ensures
            r@ == coeff_a_nat(),
    {
        Fq::from_canonical_limbs(
            [
                0x8508c00000000000,
                0x170b5d4430000000,
                0x1ef3622fba094800,
                0x1a22d9f300f5138f,
                0xc63b05c06ca1493b,
                0x01ae3a4617c510ea,
            ],
        )
    }

    /// The quadratic twisted Edwards coefficient `d = 79743`, as a base field
    /// element.
    pub fn coeff_d() -> (r: Fq)
        ensures
            r@ == coeff_d_nat(),
    {
        Fq::from_canonical_limbs([79743, 0, 0, 0, 0, 0])
    }

    /// The `x` coordinate of the affine generator.
    pub fn generator_x() -> (r: Fq)
        ensures
            r@ == generator_x_nat(),
    {
        Fq::from_canonical_limbs(
            [
                0xaab61e6fdfe4fc77,
                0x5da88626965b066b,
                0x02e1fbaf0af31431,
                0x4c41c6eb2abc7f0b,
                0xc30a7d5b70356e1d,
                0x012293502447b5d0,
            ],
        )
    }

    /// The `y` coordinate of the affine generator.
    pub fn generator_y() -> (r: Fq)
        ensures
            r@ == generator_y_nat(),
    {
        Fq::from_canonical_limbs(
            [
                0x41212982c2ec79d1,
                0xf83f929f663db5fc,
                0xdfd7952682e87102,
                0xe1eaa5231e3e4c0e,
                0x3c390c77f2c0d168,
                0x015ac503330ebb65,
            ],
        )
    }

    /// The affine generator `(x, y)`, assembled from its two coordinates.
    pub fn affine_generator_coeffs() -> (r: (Fq, Fq))
        ensures
            r.0@ == generator_x_nat(),
            r.1@ == generator_y_nat(),
    {
        (Self::generator_x(), Self::generator_y())
    }

    /// The Montgomery coefficient `A` of the equivalent curve.
    pub fn montgomery_coeff_a() -> (r: Fq)
        ensures
            r@ == montgomery_coeff_a_nat(),
    {
        Fq::from_canonical_limbs(
            [
                0xf4cd906d4da9b535,
                0x5e51534b26719e33,
                0xfd06b6b3baa390f2,
                0xdc6073bcae513e03,
                0x7a53c26020144439,
                0x0095d53eb3f6ac3f,
            ],
        )
    }

    /// The Montgomery coefficient `B` of the equivalent curve.
    pub fn montgomery_coeff_b() -> (r: Fq)
        ensures
            r@ == montgomery_coeff_b_nat(),
    {
        Fq::from_canonical_limbs(
            [
                0x903b2f92b2564aca,
                0xb8ba09f9098e61cc,
                0x21ecab7bff65b70d,
                0x3dc2663652a3d58b,
                0x4be743604c8d0501,
                0x0118650763ce64ab,
            ],
        )
    }

    /// The cofactor as a little-endian limb sequence.
    pub fn cofactor() -> (r: Vec<u64>)
        ensures
            r@.len() == 1,
            r@[0] == cofactor_nat(),
    {
        let mut v: Vec<u64> = Vec::new();
        v.push(8);
        v
    }

    /// The inverse of the cofactor modulo the subgroup order, as a scalar
    /// field element.
    pub fn cofactor_inv() -> (r: Fr)
        ensures
            r@ == cofactor_inv_nat(),
    {
        Fr::from_canonical_limbs(
            [
                0x78613b25b8f17ef8,
                0xd38268e65c313750,
                0xb4b0c3f6f0998518,
                0xc539a237640b7cea,
                0x014ac44505178f6e,
                0x00142abb491d3ccb,
            ],
        )
    }

    /// Multiplication of a base field element by the coefficient `a`.
    ///
    /// Because `a = -1` for this curve, the product is computed as a plain
    /// negation instead of a full field multiplication; the contract states
    /// that the result nonetheless equals the generic product `a * elem`.
    pub fn mul_by_a(elem: &Fq) -> (r: Fq)
        ensures
            r@ == (coeff_a_nat() * elem@) % base_field_modulus(),
            r@ == base_field_neg(elem@),
    {
        proof {
            use_type_invariant(&*elem);
            lemma_mul_by_minus_one_is_neg(elem@);
        }
        elem.neg()
    }
}

/// The affine generator satisfies the twisted Edwards curve equation.
pub proof fn lemma_generator_on_curve()
    ensures
        on_twisted_edwards_curve(generator_x_nat(), generator_y_nat()),
{
    assert(on_twisted_edwards_curve(generator_x_nat(), generator_y_nat())) by (nonlinear_arith);
}

/// The declared cofactor inverse is the multiplicative inverse of the
/// cofactor in the scalar field.
pub proof fn lemma_cofactor_inv_correct()
    ensures
        (cofactor_nat() * cofactor_inv_nat()) % scalar_field_modulus() == 1,
{
    assert((cofactor_nat() * cofactor_inv_nat()) % scalar_field_modulus() == 1)
        by (nonlinear_arith);
}

/// The twisted Edwards coefficients `(a, d)` and the Montgomery coefficients
/// `(A, B)` are related by the standard birational transform
/// `A = 2 * (a + d) / (a - d)`, `B = 4 / (a - d)`, stated multiplicatively,
/// together with its inverse `a = (A + 2) / B`, `d = (A - 2) / B`.
pub proof fn lemma_montgomery_model_consistent()
    ensures
        (montgomery_coeff_a_nat() * (coeff_a_nat() - coeff_d_nat())) % (base_field_modulus() as int) == (2
            * (coeff_a_nat() + coeff_d_nat())) % base_field_modulus(),
        (montgomery_coeff_b_nat() * (coeff_a_nat() - coeff_d_nat())) % (base_field_modulus() as int) == 4,
        (coeff_a_nat() * montgomery_coeff_b_nat()) % base_field_modulus() == montgomery_coeff_a_nat()
            + 2,
        (coeff_d_nat() * montgomery_coeff_b_nat()) % base_field_modulus() == montgomery_coeff_a_nat()
            - 2,
{
    assert((montgomery_coeff_a_nat() * (coeff_a_nat() - coeff_d_nat())) % (base_field_modulus() as int) == (
    2 * (coeff_a_nat() + coeff_d_nat())) % base_field_modulus()) by (nonlinear_arith);
    assert((montgomery_coeff_b_nat() * (coeff_a_nat() - coeff_d_nat())) % (base_field_modulus() as int)
        == 4) by (nonlinear_arith);
    assert((coeff_a_nat() * montgomery_coeff_b_nat()) % base_field_modulus()
        == montgomery_coeff_a_nat() + 2) by (nonlinear_arith);
    assert((coeff_d_nat() * montgomery_coeff_b_nat()) % base_field_modulus()
        == montgomery_coeff_a_nat() - 2) by (nonlinear_arith);
}

/// For every canonical base field element, the specialized `mul_by_a` result
/// (negation) agrees with generic field multiplication by the coefficient
/// `a = -1`.
pub proof fn lemma_mul_by_a_matches_generic(e: nat)
    requires
        e < base_field_modulus(),
    ensures
        (coeff_a_nat() * e) % base_field_modulus() == base_field_neg(e),
{
    lemma_mul_by_minus_one_is_neg(e);
}

} // verus!
