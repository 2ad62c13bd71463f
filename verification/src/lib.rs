//! Parameters of a twisted Edwards curve over a 377-bit prime field, together
//! with its birationally equivalent Montgomery form, for use by a generic
//! elliptic-curve group-arithmetic engine.

use vstd::prelude::*;

pub mod field;
pub mod params;
pub mod subgroup;

verus! {

pub use field::Fq;
pub use field::Fr;
pub use params::EdwardsParameters;

} // verus!
