//! Element types for the two prime fields of the curve: the base field, over
//! which point coordinates live, and the scalar field, whose order is the size
//! of the prime-order subgroup.
//!
//! An element is held as six 64-bit limbs in little-endian order, always in
//! canonical form (strictly below the modulus); the type invariants enforce
//! canonicity, so every reachable value of these types denotes exactly one
//! field element.

use vstd::arithmetic::div_mod::{lemma_mod_multiples_vanish, lemma_small_mod};
use vstd::prelude::*;

verus! {

/// The natural number denoted by six little-endian 64-bit limbs.
pub open spec fn limbs6_as_nat(l: [u64; 6]) -> nat {
    (l[0] as nat)
        + (l[1] as nat) * 0x10000000000000000
        + (l[2] as nat) * 0x100000000000000000000000000000000
        + (l[3] as nat) * 0x1000000000000000000000000000000000000000000000000
        + (l[4] as nat) * 0x10000000000000000000000000000000000000000000000000000000000000000
        + (l[5] as nat)
        * 0x100000000000000000000000000000000000000000000000000000000000000000000000000000000
}

/// The prime modulus of the base field: a 377-bit prime, shared with the
/// scalar field of an outer pairing-friendly curve.
pub open spec fn base_field_modulus() -> nat {
    258664426012969094010652733694893533536393512754914660539884262666720468348340822774968888139573360124440321458177nat
}

/// The prime order of the curve's prime-order subgroup: the full point group
/// has order `8 * scalar_field_modulus()`.
pub open spec fn scalar_field_modulus() -> nat {
    32333053251621136751331591711861691692049189094364332567435817881934511297123972799646723302813083835942624121493nat
}

/// Negation in the base field: the additive inverse of `x` modulo the base
/// field modulus, for canonical `x`.
pub open spec fn base_field_neg(x: nat) -> nat
    recommends
        x < base_field_modulus(),
{
    if x == 0 {
        0
    } else {
        (base_field_modulus() - x) as nat
    }
}

/// An element of the base field, in canonical little-endian limb form.
#[derive(Clone, Copy, PartialEq, Eq)]
pub struct Fq {
    limbs: [u64; 6],
}

/// An element of the scalar field, in canonical little-endian limb form.
#[derive(Clone, Copy, PartialEq, Eq)]
pub struct Fr {
    limbs: [u64; 6],
}

impl View for Fq {
    type V = nat;

    closed spec fn view(&self) -> nat {
        limbs6_as_nat(self.limbs)
    }
}

impl View for Fr {
    type V = nat;

    closed spec fn view(&self) -> nat {
        limbs6_as_nat(self.limbs)
    }
}

/// The base field modulus as little-endian limbs, for consumers that need the
/// field's size in executable form.
pub fn base_field_modulus_limbs() -> (r: [u64; 6])
    ensures
        limbs6_as_nat(r) == base_field_modulus(),
{
    [
        0x8508c00000000001,
        0x170b5d4430000000,
        0x1ef3622fba094800,
        0x1a22d9f300f5138f,
        0xc63b05c06ca1493b,
        0x01ae3a4617c510ea,
    ]
}

/// The scalar field modulus as little-endian limbs, for consumers that need
/// the subgroup order in executable form.
pub fn scalar_field_modulus_limbs() -> (r: [u64; 6])
    ensures
        limbs6_as_nat(r) == scalar_field_modulus(),
{
    [
        0x4103486497d95295,
        0x34066d10f5d89381,
        0xe1d75fe7d6eeb842,
        0x63445b3e601ea271,
        0x58c760b80d942927,
        0x0035c748c2f8a21d,
    ]
}

/// Strict order on six-limb little-endian values, decided from the most
/// significant limb down.
fn limbs6_lt(a: &[u64; 6], b: &[u64; 6]) -> (r: bool)
    ensures
        r == (limbs6_as_nat(*a) < limbs6_as_nat(*b)),
{
    if a[5] != b[5] {
        a[5] < b[5]
    } else if a[4] != b[4] {
        a[4] < b[4]
    } else if a[3] != b[3] {
        a[3] < b[3]
    } else if a[2] != b[2] {
        a[2] < b[2]
    } else if a[1] != b[1] {
        a[1] < b[1]
    } else {
        a[0] < b[0]
    }
}

/// One step of a multi-limb subtraction: `x - y - carried borrow`, returning
/// the low 64 bits and the borrow out of this position.
fn sub_limb(x: u64, y: u64, borrow_in: u64) -> (r: (u64, u64))
    requires
        borrow_in <= 1,
    ensures
        r.1 <= 1,
        r.0 as int == x - y - borrow_in + r.1 * 0x10000000000000000,
{
    let t: i128 = x as i128 - y as i128 - borrow_in as i128;
    if t < 0 {
        (((t + 0x10000000000000000) as u64), 1)
    } else {
        (t as u64, 0)
    }
}

impl Fq {
    /// Canonicity: the denoted value lies strictly below the base field
    /// modulus.
    #[verifier::type_invariant]
    pub open spec fn canonical(self) -> bool {
        self@ < base_field_modulus()
    }

    /// Builds an element from little-endian limbs; accepts exactly the
    /// canonical encodings.
    pub fn from_limbs(limbs: [u64; 6]) -> (r: Option<Fq>)
        ensures
            match r {
                Some(f) => limbs6_as_nat(limbs) < base_field_modulus() && f@ == limbs6_as_nat(
                    limbs,
                ),
                None => limbs6_as_nat(limbs) >= base_field_modulus(),
            },
    {
        let q = base_field_modulus_limbs();
        if limbs6_lt(&limbs, &q) {
            Some(Fq { limbs })
        } else {
            None
        }
    }

    /// Builds an element from limbs already known to be canonical.
    pub(crate) fn from_canonical_limbs(limbs: [u64; 6]) -> (r: Fq)
        requires
            limbs6_as_nat(limbs) < base_field_modulus(),
        ensures
            r@ == limbs6_as_nat(limbs),
    {
        Fq { limbs }
    }

    /// The element's canonical little-endian limbs.
    pub fn to_limbs(&self) -> (r: [u64; 6])
        ensures
            limbs6_as_nat(r) == self@,
    {
        self.limbs
    }

    /// The additive inverse in the base field.
    pub fn neg(&self) -> (r: Fq)
        ensures
            r@ == base_field_neg(self@),
    {
        proof {
            use_type_invariant(self);
        }
        let l = self.limbs;
        if l[0] == 0 && l[1] == 0 && l[2] == 0 && l[3] == 0 && l[4] == 0 && l[5] == 0 {
            *self
        } else {
            let q = base_field_modulus_limbs();
            let (d0, b0) = sub_limb(q[0], l[0], 0);
            let (d1, b1) = sub_limb(q[1], l[1], b0);
            let (d2, b2) = sub_limb(q[2], l[2], b1);
            let (d3, b3) = sub_limb(q[3], l[3], b2);
            let (d4, b4) = sub_limb(q[4], l[4], b3);
            let (d5, b5) = sub_limb(q[5], l[5], b4);
            let limbs = [d0, d1, d2, d3, d4, d5];
            proof {
                assert(limbs6_as_nat(l) >= 1);
                assert(limbs6_as_nat(limbs) as int == base_field_modulus() - limbs6_as_nat(l) + (
                b5 as int)
                    * 0x1000000000000000000000000000000000000000000000000000000000000000000000000000000000000000000000000);
                assert(b5 == 0);
            }
            Fq { limbs }
        }
    }
}

impl Fr {
    /// Canonicity: the denoted value lies strictly below the scalar field
    /// modulus.
    #[verifier::type_invariant]
    pub open spec fn canonical(self) -> bool {
        self@ < scalar_field_modulus()
    }

    /// Builds an element from little-endian limbs; accepts exactly the
    /// canonical encodings.
    pub fn from_limbs(limbs: [u64; 6]) -> (r: Option<Fr>)
        ensures
            match r {
                Some(f) => limbs6_as_nat(limbs) < scalar_field_modulus() && f@ == limbs6_as_nat(
                    limbs,
                ),
                None => limbs6_as_nat(limbs) >= scalar_field_modulus(),
            },
    {
        let m = scalar_field_modulus_limbs();
        if limbs6_lt(&limbs, &m) {
            Some(Fr { limbs })
        } else {
            None
        }
    }

    /// Builds an element from limbs already known to be canonical.
    pub(crate) fn from_canonical_limbs(limbs: [u64; 6]) -> (r: Fr)
        requires
            limbs6_as_nat(limbs) < scalar_field_modulus(),
        ensures
            r@ == limbs6_as_nat(limbs),
    {
        Fr { limbs }
    }

    /// The element's canonical little-endian limbs.
    pub fn to_limbs(&self) -> (r: [u64; 6])
        ensures
            limbs6_as_nat(r) == self@,
    {
        self.limbs
    }

}

/// In the base field, multiplying a canonical element by `modulus - 1` (the
/// residue of `-1`) is the same as negating it.
pub proof fn lemma_mul_by_minus_one_is_neg(e: nat)
    requires
        e < base_field_modulus(),
    ensures
        ((base_field_modulus() - 1) * e) % (base_field_modulus() as int) == base_field_neg(e),
{
    let q = base_field_modulus() as int;
    if e == 0 {
        assert((q - 1) * 0 == 0);
        assert(0int % q == 0);
    } else {
        assert((q - 1) * e == q * (e - 1) + (q - e));
        lemma_mod_multiples_vanish(e - 1, q - e, q);
        lemma_small_mod((q - e) as nat, q as nat);
    }
}

} // verus!
