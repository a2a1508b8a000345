//! Short-Weierstrass curves `y^2 = x^3 + A x + B` over a prime field: the
//! curve constants, the Jacobian model of the group law, and the default
//! subgroup and scalar-multiplication algorithms.
use vstd::prelude::*;
use vstd::arithmetic::div_mod::lemma_small_mod;
use crate::fp::{Fp, FpConfig, add_mod, sub_mod, neg_mod, mul_mod};
use crate::limbs::limbs_val;
use crate::bits::limbs_bits;
use crate::affine::Affine;
use crate::projective::Projective;

verus! {

/// The modulus of the base field of a curve.
pub open spec fn base_modulus<C: SWCurveConfig<N>, const N: usize>() -> nat {
    <C::BaseConfig as FpConfig<N>>::spec_modulus()
}

/// The right-hand side `x^3 + A x + B` of the curve equation, in the field.
pub open spec fn curve_rhs<C: SWCurveConfig<N>, const N: usize>(x: nat) -> nat {
    let p = base_modulus::<C, N>();
    add_mod(add_mod(mul_mod(mul_mod(x, x, p), x, p), mul_mod(x, C::spec_coeff_a(), p), p), C::spec_coeff_b(), p)
}

/// `(x, y)` satisfies the curve equation.
pub open spec fn on_curve<C: SWCurveConfig<N>, const N: usize>(x: nat, y: nat) -> bool {
    mul_mod(y, y, base_modulus::<C, N>()) == curve_rhs::<C, N>(x)
}

/// Some ordinate `y` puts `(x, y)` on the curve.
pub open spec fn has_point_at<C: SWCurveConfig<N>, const N: usize>(x: nat) -> bool {
    exists|y: nat| y < base_modulus::<C, N>() && #[trigger] on_curve::<C, N>(x, y)
}

/// The constants of a short-Weierstrass curve.
pub trait SWCurveConfig<const N: usize>: Sized + Copy {
    /// The configuration of the base field.
    type BaseConfig: FpConfig<N>;

    spec fn spec_coeff_a() -> nat;

    spec fn spec_coeff_b() -> nat;

    /// The limbs of the cofactor.
    spec fn spec_cofactor() -> Seq<u64>;

    /// The limbs of the order of the prime-order subgroup.
    spec fn spec_scalar_modulus() -> Seq<u64>;

    /// Coefficient `A` of the curve equation.
    fn coeff_a() -> (r: Fp<Self::BaseConfig, N>)
        ensures
            r.wf(),
            r@ == Self::spec_coeff_a(),
    ;

    /// Coefficient `B` of the curve equation.
    fn coeff_b() -> (r: Fp<Self::BaseConfig, N>)
        ensures
            r.wf(),
            r@ == Self::spec_coeff_b(),
    ;

    /// The coordinates of the generator.
    spec fn spec_generator() -> (nat, nat);

    /// The generator of the prime-order subgroup: a finite point with reduced
    /// coordinates that satisfy the curve equation.
    fn generator() -> (r: Affine<Self, N>)
        ensures
            (r.x@, r.y@) == Self::spec_generator(),
            r.x.wf(),
            r.y.wf(),
            !r.infinity,
            mul_mod(r.y@, r.y@, <Self::BaseConfig as FpConfig<N>>::spec_modulus()) == add_mod(
                add_mod(
                    mul_mod(
                        mul_mod(r.x@, r.x@, <Self::BaseConfig as FpConfig<N>>::spec_modulus()),
                        r.x@,
                        <Self::BaseConfig as FpConfig<N>>::spec_modulus(),
                    ),
                    mul_mod(r.x@, Self::spec_coeff_a(), <Self::BaseConfig as FpConfig<N>>::spec_modulus()),
                    <Self::BaseConfig as FpConfig<N>>::spec_modulus(),
                ),
                Self::spec_coeff_b(),
                <Self::BaseConfig as FpConfig<N>>::spec_modulus(),
            ),
    ;

    /// The cofactor of the prime-order subgroup, as limbs.
    fn cofactor() -> (r: Vec<u64>)
        ensures
            r@ == Self::spec_cofactor(),
    ;

    /// The order of the prime-order subgroup (the scalar field's modulus).
    fn scalar_modulus() -> (r: Vec<u64>)
        ensures
            r@ == Self::spec_scalar_modulus(),
    ;

    /// `elem * A`; skips the product when `A` is zero.
    fn mul_by_a(elem: Fp<Self::BaseConfig, N>) -> (r: Fp<Self::BaseConfig, N>)
        requires
            elem.wf(),
        ensures
            r.wf(),
            r@ == mul_mod(elem@, Self::spec_coeff_a(), <Self::BaseConfig as FpConfig<N>>::spec_modulus()),
    {
        let a = Self::coeff_a();
        if a.is_zero() {
            let z = Fp::zero();
            proof {
                assert(elem@ * 0 == 0);
                lemma_small_mod(0, <Self::BaseConfig as FpConfig<N>>::spec_modulus());
            }
            z
        } else {
            elem.mul(a)
        }
    }

    /// `elem + B`; skips the sum when `B` is zero.
    fn add_b(elem: Fp<Self::BaseConfig, N>) -> (r: Fp<Self::BaseConfig, N>)
        requires
            elem.wf(),
        ensures
            r.wf(),
            r@ == add_mod(elem@, Self::spec_coeff_b(), <Self::BaseConfig as FpConfig<N>>::spec_modulus()),
    {
        let b = Self::coeff_b();
        if b.is_zero() {
            proof {
                lemma_small_mod(elem@, <Self::BaseConfig as FpConfig<N>>::spec_modulus());
            }
            elem
        } else {
            elem.add(b)
        }
    }
}

/// Whether a point on the curve lies in the prime-order subgroup: always
/// when the cofactor is one, else when multiplying it by the subgroup
/// order gives the identity.
pub fn is_in_correct_subgroup_assuming_on_curve<C: SWCurveConfig<N>, const N: usize>(item: &Affine<C, N>) -> (r: bool)
    requires
        item.wf(),
    ensures
        r == in_prime_subgroup::<C, N>(jac_of_affine(item.x@, item.y@, item.infinity)),
{
    let cofactor = C::cofactor();
    if limbs_are_one(&cofactor) {
        true
    } else {
        let order = C::scalar_modulus();
        mul_affine::<C, N>(item, order.as_slice()).is_zero()
    }
}

/// Cofactor clearing by the default method: the multiple of the point by the
/// cofactor, in normal form.
pub fn clear_cofactor<C: SWCurveConfig<N>, const N: usize>(item: &Affine<C, N>) -> (r: Affine<C, N>)
    requires
        item.wf(),
    ensures
        r.wf(),
        represents::<C, N>(
            r,
            jac_mul_bits::<C, N>(
                jac_of_affine(item.x@, item.y@, item.infinity),
                limbs_bits(C::spec_cofactor()),
            ),
        ),
{
    let cofactor = C::cofactor();
    mul_affine::<C, N>(item, cofactor.as_slice()).into_affine()
}

/// Double-and-add multiplication of a projective point by a scalar given
/// as little-endian limbs.
pub fn mul_projective<C: SWCurveConfig<N>, const N: usize>(base: &Projective<C, N>, scalar: &[u64]) -> (r: Projective<C, N>)
    requires
        base.wf(),
    ensures
        r.wf(),
        r.jac() == jac_mul_bits::<C, N>(base.jac(), limbs_bits(scalar@)),
{
    base.mul_bigint(scalar)
}

/// Double-and-add multiplication of an affine point by a scalar given as
/// little-endian limbs.
pub fn mul_affine<C: SWCurveConfig<N>, const N: usize>(base: &Affine<C, N>, scalar: &[u64]) -> (r: Projective<C, N>)
    requires
        base.wf(),
    ensures
        r.wf(),
        r.jac() == jac_mul_bits::<C, N>(
            jac_of_affine(base.x@, base.y@, base.infinity),
            limbs_bits(scalar@),
        ),
{
    Projective::from_affine(base).mul_bigint(scalar)
}

/// A curve configuration whose generator is known to have the order of the
/// prime-order subgroup.
pub trait SWCurveGenerator<const N: usize>: SWCurveConfig<N> {
    /// The subgroup order times the generator is the identity.
    proof fn lemma_generator_order()
        ensures
            jac_mul_bits::<Self, N>(
                jac_of_affine(Self::spec_generator().0, Self::spec_generator().1, false),
                limbs_bits(Self::spec_scalar_modulus()),
            ).2 == 0,
    ;
}

/// One more bit of double-and-add.
pub proof fn lemma_mul_bits_step<C: SWCurveConfig<N>, const N: usize>(base: Jac, bits: Seq<bool>, k: int)
    requires
        0 <= k < bits.len(),
    ensures
        jac_mul_bits::<C, N>(base, bits.take(k + 1)) == (if bits[k] {
            jac_add::<C, N>(jac_double::<C, N>(jac_mul_bits::<C, N>(base, bits.take(k))), base)
        } else {
            jac_double::<C, N>(jac_mul_bits::<C, N>(base, bits.take(k)))
        }),
{
    assert(bits.take(k + 1).drop_last() =~= bits.take(k));
}

/// Leading zero bits leave the identity.
pub proof fn lemma_mul_bits_zero_prefix<C: SWCurveConfig<N>, const N: usize>(base: Jac, bits: Seq<bool>, k: int)
    requires
        0 <= k <= bits.len(),
        forall|i: int| 0 <= i < k ==> !#[trigger] bits[i],
    ensures
        jac_mul_bits::<C, N>(base, bits.take(k)) == jac_identity(),
    decreases k,
{
    if k == 0 {
        assert(bits.take(0) =~= Seq::<bool>::empty());
    } else {
        lemma_mul_bits_zero_prefix::<C, N>(base, bits, k - 1);
        lemma_mul_bits_step::<C, N>(base, bits, k - 1);
    }
}

/// Limbs that stand for the integer one.
fn limbs_are_one(v: &Vec<u64>) -> (r: bool)
    ensures
        r == (limbs_val(v@) == 1),
{
    if v.len() == 0 {
        return false;
    }
    if v[0] != 1 {
        proof {
            if v@.len() > 0 {
                crate::limbs::lemma_limbs_val_low(v@);
                if limbs_val(v@) == 1 {
                    vstd::arithmetic::div_mod::lemma_small_mod(1, crate::limbs::limb_base());
                }
            }
        }
        return false;
    }
    let mut i: usize = 1;
    while i < v.len()
        invariant
            1 <= i <= v@.len(),
            v@[0] == 1,
            forall|j: int| 1 <= j < i ==> v@[j] == 0,
        decreases v@.len() - i,
    {
        if v[i] != 0 {
            proof {
                crate::limbs::lemma_limbs_val_high(v@, i as int);
            }
            return false;
        }
        i = i + 1;
    }
    proof {
        crate::limbs::lemma_limbs_val_single(v@);
    }
    true
}

/// A point of the Jacobian model as canonical integers `(X, Y, Z)`: the
/// affine point `(X / Z^2, Y / Z^3)`, or the identity when `Z` is zero.
pub type Jac = (nat, nat, nat);

/// The identity of the Jacobian model.
pub open spec fn jac_identity() -> Jac {
    (1, 1, 0)
}

/// The Jacobian point of an affine one.
pub open spec fn jac_of_affine(x: nat, y: nat, infinity: bool) -> Jac {
    if infinity {
        jac_identity()
    } else {
        (x, y, 1)
    }
}

/// Negation in the Jacobian model.
pub open spec fn jac_neg<C: SWCurveConfig<N>, const N: usize>(pt: Jac) -> Jac {
    (pt.0, neg_mod(pt.1, base_modulus::<C, N>()), pt.2)
}

/// Doubling in the Jacobian model: `S = 4 X Y^2`, `M = 3 X^2 + A Z^4`,
/// `X' = M^2 - 2 S`, `Y' = M (S - X') - 8 Y^4`, `Z' = 2 Y Z`.
pub open spec fn jac_double<C: SWCurveConfig<N>, const N: usize>(pt: Jac) -> Jac {
    let p = base_modulus::<C, N>();
    if pt.2 == 0 {
        pt
    } else {
        let xx = mul_mod(pt.0, pt.0, p);
        let yy = mul_mod(pt.1, pt.1, p);
        let yyyy = mul_mod(yy, yy, p);
        let zz = mul_mod(pt.2, pt.2, p);
        let xyy = mul_mod(pt.0, yy, p);
        let s2 = add_mod(xyy, xyy, p);
        let s = add_mod(s2, s2, p);
        let xx2 = add_mod(xx, xx, p);
        let m = add_mod(add_mod(xx2, xx, p), mul_mod(mul_mod(zz, zz, p), C::spec_coeff_a(), p), p);
        let x3 = sub_mod(mul_mod(m, m, p), add_mod(s, s, p), p);
        let y2 = add_mod(yyyy, yyyy, p);
        let y4 = add_mod(y2, y2, p);
        let y8 = add_mod(y4, y4, p);
        let y3 = sub_mod(mul_mod(m, sub_mod(s, x3, p), p), y8, p);
        let yz = mul_mod(pt.1, pt.2, p);
        (x3, y3, add_mod(yz, yz, p))
    }
}

/// Addition in the Jacobian model: with `U1 = X1 Z2^2`, `U2 = X2 Z1^2`,
/// `S1 = Y1 Z2^3`, `S2 = Y2 Z1^3`, equal points are doubled, opposite points
/// give the identity, and otherwise `H = U2 - U1`, `R = S2 - S1`,
/// `X' = R^2 - H^3 - 2 U1 H^2`, `Y' = R (U1 H^2 - X') - S1 H^3`,
/// `Z' = Z1 Z2 H`.
pub open spec fn jac_add<C: SWCurveConfig<N>, const N: usize>(lhs: Jac, rhs: Jac) -> Jac {
    let p = base_modulus::<C, N>();
    if lhs.2 == 0 {
        rhs
    } else if rhs.2 == 0 {
        lhs
    } else {
        let z1z1 = mul_mod(lhs.2, lhs.2, p);
        let z2z2 = mul_mod(rhs.2, rhs.2, p);
        let u1 = mul_mod(lhs.0, z2z2, p);
        let u2 = mul_mod(rhs.0, z1z1, p);
        let s1 = mul_mod(mul_mod(lhs.1, rhs.2, p), z2z2, p);
        let s2 = mul_mod(mul_mod(rhs.1, lhs.2, p), z1z1, p);
        if u1 == u2 {
            if s1 == s2 {
                jac_double::<C, N>(lhs)
            } else {
                jac_identity()
            }
        } else {
            let h = sub_mod(u2, u1, p);
            let r = sub_mod(s2, s1, p);
            let hh = mul_mod(h, h, p);
            let hhh = mul_mod(h, hh, p);
            let v = mul_mod(u1, hh, p);
            let x3 = sub_mod(sub_mod(mul_mod(r, r, p), hhh, p), add_mod(v, v, p), p);
            let y3 = sub_mod(mul_mod(r, sub_mod(v, x3, p), p), mul_mod(s1, hhh, p), p);
            (x3, y3, mul_mod(mul_mod(lhs.2, rhs.2, p), h, p))
        }
    }
}

/// Double-and-add over bits, most significant first.
pub open spec fn jac_mul_bits<C: SWCurveConfig<N>, const N: usize>(base: Jac, bits: Seq<bool>) -> Jac
    decreases bits.len(),
{
    if bits.len() == 0 {
        jac_identity()
    } else {
        let acc = jac_double::<C, N>(jac_mul_bits::<C, N>(base, bits.drop_last()));
        if bits.last() {
            jac_add::<C, N>(acc, base)
        } else {
            acc
        }
    }
}

/// Every multiple of the identity is the identity.
pub proof fn lemma_mul_identity<C: SWCurveConfig<N>, const N: usize>(bits: Seq<bool>)
    ensures
        jac_mul_bits::<C, N>(jac_identity(), bits) == jac_identity(),
    decreases bits.len(),
{
    if bits.len() > 0 {
        lemma_mul_identity::<C, N>(bits.drop_last());
    }
}

/// The point lies in the prime-order subgroup: the cofactor is one, or the
/// subgroup order times the point is the identity.
pub open spec fn in_prime_subgroup<C: SWCurveConfig<N>, const N: usize>(pt: Jac) -> bool {
    limbs_val(C::spec_cofactor()) == 1 || jac_mul_bits::<C, N>(pt, limbs_bits(C::spec_scalar_modulus())).2 == 0
}

/// Two Jacobian points stand for the same group element.
pub open spec fn jac_eq<C: SWCurveConfig<N>, const N: usize>(a: Jac, b: Jac) -> bool {
    let p = base_modulus::<C, N>();
    if a.2 == 0 || b.2 == 0 {
        a.2 == 0 && b.2 == 0
    } else {
        let aa = mul_mod(a.2, a.2, p);
        let bb = mul_mod(b.2, b.2, p);
        &&& mul_mod(a.0, bb, p) == mul_mod(b.0, aa, p)
        &&& mul_mod(a.1, mul_mod(bb, b.2, p), p) == mul_mod(b.1, mul_mod(aa, a.2, p), p)
    }
}

/// The affine point `a` is the normal form of the Jacobian point `j`.
pub open spec fn represents<C: SWCurveConfig<N>, const N: usize>(a: Affine<C, N>, j: Jac) -> bool {
    let p = base_modulus::<C, N>();
    if j.2 == 0 {
        a.infinity && a.x@ == 0 && a.y@ == 0
    } else {
        let zz = mul_mod(j.2, j.2, p);
        &&& !a.infinity
        &&& mul_mod(a.x@, zz, p) == j.0
        &&& mul_mod(a.y@, mul_mod(zz, j.2, p), p) == j.1
    }
}

} // verus!
