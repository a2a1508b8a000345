//! Prime-field and short-Weierstrass elliptic-curve arithmetic.
//!
//! Field elements are held in Montgomery form over `N` 64-bit limbs, for a
//! modulus fixed by an `FpConfig`; curves are fixed by an `SWCurveConfig`.
//! Every operation states its result over canonical integers modulo the
//! field's characteristic, and the group law over the Jacobian model.

pub mod limbs;
pub mod bits;
pub mod fp;
pub mod field;
pub mod curve;
pub mod affine;
pub mod projective;
pub mod encoding;
pub mod text;
pub mod laws;
pub mod small;
