//! Cofactor clearing, viewed in an abstract model of the group that the
//! arithmetic engine implements on the curve's points.
//!
//! The engine is generic and out of scope here, so the point group is modelled
//! by an arbitrary carrier type together with an addition operation and an
//! identity that satisfy the abelian-group laws, and by the fact — established
//! offline for this curve — that the full point group has order
//! `8 * scalar_field_modulus()`, so that every point vanishes under
//! scalar multiplication by that order.  Under exactly those assumptions,
//! cofactor clearing (scalar multiplication by the cofactor `8`) lands in the
//! prime-order subgroup, clearing twice is the same as clearing once and then
//! multiplying by the cofactor again, and the result still lies in that same
//! subgroup: clearing is a projection onto the subgroup, not an operation that
//! leaves it.

use crate::field::scalar_field_modulus;
use crate::params::cofactor_nat;
use vstd::prelude::*;

verus! {

/// Scalar multiplication in the abstract group: the `n`-fold sum of `p`.
pub open spec fn scalar_mul<E>(op: spec_fn(E, E) -> E, id: E, p: E, n: nat) -> E
    decreases n,
{
    if n == 0 {
        id
    } else {
        op(p, scalar_mul(op, id, p, (n - 1) as nat))
    }
}

/// The abelian-group laws assumed of the engine's point addition.
pub open spec fn abelian_group<E>(op: spec_fn(E, E) -> E, id: E) -> bool {
    &&& forall|x: E| #[trigger] op(id, x) == x
    &&& forall|x: E, y: E| #[trigger] op(x, y) == op(y, x)
    &&& forall|x: E, y: E, z: E| #[trigger] op(op(x, y), z) == op(x, op(y, z))
}

/// Membership in the prime-order subgroup: the element vanishes under scalar
/// multiplication by the subgroup order.
pub open spec fn in_prime_order_subgroup<E>(op: spec_fn(E, E) -> E, id: E, x: E) -> bool {
    scalar_mul(op, id, x, scalar_field_modulus()) == id
}

/// Scalar multiplication splits over a sum of scalars.
proof fn lemma_scalar_mul_split_sum<E>(op: spec_fn(E, E) -> E, id: E, p: E, m: nat, n: nat)
    requires
        abelian_group(op, id),
    ensures
        scalar_mul(op, id, p, m + n) == op(
            scalar_mul(op, id, p, m),
            scalar_mul(op, id, p, n),
        ),
    decreases m,
{
    if m == 0 {
        assert(op(id, scalar_mul(op, id, p, n)) == scalar_mul(op, id, p, n));
    } else {
        lemma_scalar_mul_split_sum(op, id, p, (m - 1) as nat, n);
        assert(m + n == 1 + ((m - 1) as nat + n));
        assert(scalar_mul(op, id, p, m + n) == op(
            p,
            scalar_mul(op, id, p, ((m - 1) as nat + n) as nat),
        ));
        assert(op(p, op(scalar_mul(op, id, p, (m - 1) as nat), scalar_mul(op, id, p, n)))
            == op(op(p, scalar_mul(op, id, p, (m - 1) as nat)), scalar_mul(op, id, p, n)));
    }
}

/// Scalar multiplication by a product of scalars is iterated scalar
/// multiplication.
proof fn lemma_scalar_mul_split_product<E>(op: spec_fn(E, E) -> E, id: E, p: E, m: nat, n: nat)
    requires
        abelian_group(op, id),
    ensures
        scalar_mul(op, id, p, m * n) == scalar_mul(op, id, scalar_mul(op, id, p, n), m),
    decreases m,
{
    if m == 0 {
        assert(0nat * n == 0) by (nonlinear_arith);
    } else {
        lemma_scalar_mul_split_product(op, id, p, (m - 1) as nat, n);
        assert(m * n == n + (m - 1) as nat * n) by (nonlinear_arith)
            requires
                m >= 1,
        ;
        lemma_scalar_mul_split_sum(op, id, p, n, (m - 1) as nat * n);
        assert(scalar_mul(op, id, scalar_mul(op, id, p, n), m) == op(
            scalar_mul(op, id, p, n),
            scalar_mul(op, id, scalar_mul(op, id, p, n), (m - 1) as nat),
        ));
    }
}

/// Cofactor clearing is a projection onto the prime-order subgroup.
///
/// If the engine's addition operation and identity form an abelian group on the points,
/// and every point vanishes under scalar multiplication by the full group
/// order `8 * scalar_field_modulus()`, then for every point `p`: clearing the
/// cofactor of `p` lands in the prime-order subgroup; clearing twice equals
/// clearing once followed by one more scalar multiplication by the cofactor,
/// namely scalar multiplication by `64`; and that result lies in the same
/// prime-order subgroup as the once-cleared point.
pub proof fn lemma_cofactor_clearing_is_projection<E>(op: spec_fn(E, E) -> E, id: E, p: E)
    requires
        abelian_group(op, id),
        forall|x: E| #[trigger] scalar_mul(op, id, x, 8 * scalar_field_modulus()) == id,
    ensures
        in_prime_order_subgroup(op, id, scalar_mul(op, id, p, cofactor_nat())),
        scalar_mul(op, id, scalar_mul(op, id, p, cofactor_nat()), cofactor_nat()) == scalar_mul(
            op,
            id,
            p,
            64,
        ),
        in_prime_order_subgroup(
            op,
            id,
            scalar_mul(op, id, scalar_mul(op, id, p, cofactor_nat()), cofactor_nat()),
        ),
{
    let r = scalar_field_modulus();
    let cleared = scalar_mul(op, id, p, 8);
    // Clearing lands in the prime-order subgroup.
    lemma_scalar_mul_split_product(op, id, p, r, 8);
    assert(r * 8 == 8 * r) by (nonlinear_arith);
    assert(scalar_mul(op, id, p, 8 * r) == id);
    assert(scalar_mul(op, id, cleared, r) == id);
    // Clearing twice is scalar multiplication by 64.
    lemma_scalar_mul_split_product(op, id, p, 8, 8);
    assert(8nat * 8 == 64) by (nonlinear_arith);
    // The twice-cleared point still lies in the subgroup.
    lemma_scalar_mul_split_product(op, id, cleared, r, 8);
    assert(scalar_mul(op, id, cleared, 8 * r) == id);
    assert(scalar_mul(op, id, scalar_mul(op, id, cleared, 8), r) == id);
}

} // verus!
