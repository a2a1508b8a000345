//! Points in affine coordinates.
use vstd::prelude::*;
use core::cmp::Ordering;
use crate::fp::{Fp, FpConfig, is_square, lemma_neg_involutive, lemma_neg_square, mul_mod, neg_mod};
use crate::curve::{
    SWCurveConfig, base_modulus, has_point_at, clear_cofactor, curve_rhs, in_prime_subgroup,
    is_in_correct_subgroup_assuming_on_curve, jac_add, jac_eq, jac_mul_bits, jac_neg, jac_of_affine,
    mul_affine, on_curve, represents,
};
use crate::projective::Projective;
use crate::encoding::{decodes_to, deserialize_compressed, well_formed_encoding};
use crate::limbs::limbs_val;
use crate::bits::limbs_bits;

verus! {

/// Which of the two square roots a point's `y` is, or the point at infinity.
#[derive(Clone, Copy, PartialEq, Eq, Structural, Debug)]
pub enum SWFlags {
    /// `y <= -y` as canonical integers: the smaller root.
    YIsPositive,
    /// `y > -y`: the larger root.
    YIsNegative,
    PointAtInfinity,
}

/// A point in affine coordinates; `infinity` marks the group identity, whose
/// coordinates are zero by convention.
#[derive(Copy, Hash, Debug)]
pub struct Affine<C: SWCurveConfig<N>, const N: usize> {
    pub x: Fp<C::BaseConfig, N>,
    pub y: Fp<C::BaseConfig, N>,
    pub infinity: bool,
}

impl<C: SWCurveConfig<N>, const N: usize> Clone for Affine<C, N> {
    fn clone(&self) -> (r: Self)
        ensures
            r == *self,
    {
        *self
    }
}

impl<C: SWCurveConfig<N>, const N: usize> Affine<C, N> {
    /// Both coordinates are reduced field elements.
    pub open spec fn wf(self) -> bool {
        self.x.wf() && self.y.wf()
    }

    /// The point is the identity or satisfies the curve equation.
    pub open spec fn is_on_curve_spec(self) -> bool {
        self.infinity || on_curve::<C, N>(self.x@, self.y@)
    }

    /// A point at infinity carries zero coordinates.
    pub open spec fn is_canonical(self) -> bool {
        self.infinity ==> self.x@ == 0 && self.y@ == 0
    }

    /// Builds a finite point; the caller guarantees that it lies on the curve
    /// and in the prime-order subgroup.
    pub fn new(x: Fp<C::BaseConfig, N>, y: Fp<C::BaseConfig, N>) -> (r: Self)
        requires
            x.wf(),
            y.wf(),
            on_curve::<C, N>(x@, y@),
            in_prime_subgroup::<C, N>(jac_of_affine(x@, y@, false)),
        ensures
            r.x == x,
            r.y == y,
            !r.infinity,
    {
        Affine { x, y, infinity: false }
    }

    /// Builds a finite point without any check.
    pub fn new_unchecked(x: Fp<C::BaseConfig, N>, y: Fp<C::BaseConfig, N>) -> (r: Self)
        ensures
            r.x == x,
            r.y == y,
            !r.infinity,
    {
        Affine { x, y, infinity: false }
    }

    /// The point at infinity.
    pub fn identity() -> (r: Self)
        ensures
            r.wf(),
            r.infinity,
            r.x@ == 0,
            r.y@ == 0,
    {
        Affine { x: Fp::zero(), y: Fp::zero(), infinity: true }
    }

    /// The point at infinity.
    pub fn zero() -> (r: Self)
        ensures
            r.wf(),
            r.infinity,
            r.x@ == 0,
            r.y@ == 0,
    {
        Self::identity()
    }

    /// The coordinates, unless this is the point at infinity.
    pub fn xy(&self) -> (r: Option<(Fp<C::BaseConfig, N>, Fp<C::BaseConfig, N>)>)
        ensures
            r == (if self.infinity { None } else { Some((self.x, self.y)) }),
    {
        if self.infinity {
            None
        } else {
            Some((self.x, self.y))
        }
    }

    /// `x^3 + A x + B` for a reduced `x`.
    fn rhs(x: Fp<C::BaseConfig, N>) -> (r: Fp<C::BaseConfig, N>)
        requires
            x.wf(),
        ensures
            r.wf(),
            r@ == curve_rhs::<C, N>(x@),
    {
        let x3 = x.square().mul(x);
        let ax = C::mul_by_a(x);
        C::add_b(x3.add(ax))
    }

    /// The identity, or a point whose coordinates satisfy the curve equation.
    pub fn is_on_curve(&self) -> (r: bool)
        requires
            self.wf(),
        ensures
            r == self.is_on_curve_spec(),
    {
        if !self.infinity {
            let rhs = Self::rhs(self.x);
            self.y.square().equals(&rhs)
        } else {
            true
        }
    }

    /// The two `y` with `(x, y)` on the curve, smaller canonical integer
    /// first; `None` exactly when no point has abscissa `x`.
    pub fn get_ys_from_x_unchecked(x: Fp<C::BaseConfig, N>) -> (r: Option<(Fp<C::BaseConfig, N>, Fp<C::BaseConfig, N>)>)
        requires
            x.wf(),
        ensures
            r matches Some(ys) ==> {
                &&& ys.0.wf() && ys.1.wf()
                &&& on_curve::<C, N>(x@, ys.0@)
                &&& on_curve::<C, N>(x@, ys.1@)
                &&& ys.0@ <= ys.1@
                &&& ys.1@ == neg_mod(ys.0@, base_modulus::<C, N>())
            },
            r is Some <==> has_point_at::<C, N>(x@),
            curve_rhs::<C, N>(x@) == 0 ==> (r matches Some(ys) && ys.0@ == 0 && ys.1@ == 0),
    {
        let rhs = Self::rhs(x);
        let y = match rhs.sqrt() {
            Some(y) => y,
            None => {
                proof {
                    assert forall|yy: nat| yy < base_modulus::<C, N>() implies !#[trigger] on_curve::<C, N>(x@, yy) by {
                        if on_curve::<C, N>(x@, yy) {
                            assert(mul_mod(yy, yy, base_modulus::<C, N>()) == rhs@);
                            assert(is_square(rhs@, base_modulus::<C, N>()));
                        }
                    }
                }
                return None;
            },
        };
        proof {
            assert(on_curve::<C, N>(x@, y@));
        }
        let neg_y = y.neg();
        proof {
            if y@ == 0 {
                vstd::arithmetic::div_mod::lemma_mod_self_0(base_modulus::<C, N>() as int);
            }
            lemma_neg_square::<C::BaseConfig, N>(y@);
            lemma_neg_involutive::<C::BaseConfig, N>(y@);
        }
        match y.cmp(&neg_y) {
            core::cmp::Ordering::Less => Some((y, neg_y)),
            _ => Some((neg_y, y)),
        }
    }

    /// The point with abscissa `x` whose ordinate is the larger root when
    /// `greatest` holds and the smaller one otherwise.
    pub fn get_point_from_x_unchecked(x: Fp<C::BaseConfig, N>, greatest: bool) -> (r: Option<Self>)
        requires
            x.wf(),
        ensures
            r matches Some(pt) ==> {
                &&& pt.wf() && !pt.infinity && pt.x == x
                &&& on_curve::<C, N>(x@, pt.y@)
                &&& pt.y@ == neg_mod(pt.y@, base_modulus::<C, N>()) || (greatest == (pt.y@ > neg_mod(pt.y@, base_modulus::<C, N>())))
            },
            r is Some <==> has_point_at::<C, N>(x@),
    {
        match Self::get_ys_from_x_unchecked(x) {
            Some((smaller, larger)) => {
                proof {
                    lemma_neg_involutive::<C::BaseConfig, N>(smaller@);
                }
                if greatest {
                    Some(Self::new_unchecked(x, larger))
                } else {
                    Some(Self::new_unchecked(x, smaller))
                }
            },
            None => None,
        }
    }

    /// Which root `y` is, or the point at infinity.
    pub fn to_flags(&self) -> (r: SWFlags)
        requires
            self.wf(),
        ensures
            r == (if self.infinity {
                SWFlags::PointAtInfinity
            } else if self.y@ <= neg_mod(self.y@, base_modulus::<C, N>()) {
                SWFlags::YIsPositive
            } else {
                SWFlags::YIsNegative
            }),
    {
        if self.infinity {
            SWFlags::PointAtInfinity
        } else {
            match self.y.cmp(&self.y.neg()) {
                core::cmp::Ordering::Greater => SWFlags::YIsNegative,
                _ => SWFlags::YIsPositive,
            }
        }
    }

    /// `(x, -y)`; the identity is left as it is.
    pub fn neg(self) -> (r: Self)
        requires
            self.wf(),
        ensures
            r.wf(),
            r.x == self.x,
            r.infinity == self.infinity,
            r.y@ == neg_mod(self.y@, base_modulus::<C, N>()),
            self.is_on_curve_spec() ==> r.is_on_curve_spec(),
    {
        proof {
            lemma_neg_square::<C::BaseConfig, N>(self.y@);
        }
        Affine { x: self.x, y: self.y.neg(), infinity: self.infinity }
    }

    /// Overwrites the coordinates with zeros and clears the infinity flag.
    pub fn zeroize(&mut self)
        ensures
            final(self).wf(),
            final(self).x@ == 0,
            final(self).y@ == 0,
            !final(self).infinity,
    {
        self.x.zeroize();
        self.y.zeroize();
        self.infinity = false;
    }
}

impl<C: SWCurveConfig<N>, const N: usize> Affine<C, N> {
    /// Whether this point, taken to be on the curve, lies in the prime-order
    /// subgroup.
    pub fn is_in_correct_subgroup_assuming_on_curve(&self) -> (r: bool)
        requires
            self.wf(),
        ensures
            r == in_prime_subgroup::<C, N>(jac_of_affine(self.x@, self.y@, self.infinity)),
    {
        is_in_correct_subgroup_assuming_on_curve::<C, N>(self)
    }

    /// The generator of the prime-order subgroup.
    pub fn generator() -> (r: Self)
        ensures
            (r.x@, r.y@) == C::spec_generator(),
            r.wf(),
            !r.infinity,
            r.is_on_curve_spec(),
    {
        C::generator()
    }

    /// The point as a projective point with `Z = 1`, or the identity.
    pub fn into_group(&self) -> (r: Projective<C, N>)
        requires
            self.wf(),
        ensures
            r.wf(),
            r.jac() == jac_of_affine(self.x@, self.y@, self.infinity),
    {
        Projective::from_affine(self)
    }

    /// The normal form of a projective point.
    pub fn from_projective(p: Projective<C, N>) -> (r: Self)
        requires
            p.wf(),
        ensures
            r.wf(),
            represents::<C, N>(r, p.jac()),
            p.z@ == 1 ==> r.x == p.x && r.y == p.y && !r.infinity,
    {
        p.into_affine()
    }

    /// The scalar multiple by an integer given as little-endian limbs.
    pub fn mul_bigint(&self, by: &[u64]) -> (r: Projective<C, N>)
        requires
            self.wf(),
        ensures
            r.wf(),
            r.jac() == jac_mul_bits::<C, N>(jac_of_affine(self.x@, self.y@, self.infinity), limbs_bits(by@)),
    {
        mul_affine::<C, N>(self, by)
    }

    /// The multiple by the cofactor, as a projective point.
    pub fn mul_by_cofactor_to_group(&self) -> (r: Projective<C, N>)
        requires
            self.wf(),
        ensures
            r.wf(),
            r.jac() == jac_mul_bits::<C, N>(
                jac_of_affine(self.x@, self.y@, self.infinity),
                limbs_bits(C::spec_cofactor()),
            ),
    {
        let cofactor = C::cofactor();
        mul_affine::<C, N>(self, cofactor.as_slice())
    }

    /// The multiple by the cofactor, in normal form.
    pub fn clear_cofactor(&self) -> (r: Self)
        requires
            self.wf(),
        ensures
            r.wf(),
            represents::<C, N>(
                r,
                jac_mul_bits::<C, N>(
                    jac_of_affine(self.x@, self.y@, self.infinity),
                    limbs_bits(C::spec_cofactor()),
                ),
            ),
    {
        clear_cofactor::<C, N>(self)
    }

    /// The group sum, as a projective point.
    pub fn add(self, other: Self) -> (r: Projective<C, N>)
        requires
            self.wf(),
            other.wf(),
        ensures
            r.wf(),
            r.jac() == jac_add::<C, N>(
                jac_of_affine(self.x@, self.y@, self.infinity),
                jac_of_affine(other.x@, other.y@, other.infinity),
            ),
    {
        self.into_group().add(other.into_group())
    }

    /// The sum with a projective point.
    pub fn add_projective(self, other: Projective<C, N>) -> (r: Projective<C, N>)
        requires
            self.wf(),
            other.wf(),
        ensures
            r.wf(),
            r.jac() == jac_add::<C, N>(jac_of_affine(self.x@, self.y@, self.infinity), other.jac()),
    {
        self.into_group().add(other)
    }

    /// The group difference, as a projective point.
    pub fn sub(self, other: Self) -> (r: Projective<C, N>)
        requires
            self.wf(),
            other.wf(),
        ensures
            r.wf(),
            r.jac() == jac_add::<C, N>(
                jac_of_affine(self.x@, self.y@, self.infinity),
                jac_neg::<C, N>(jac_of_affine(other.x@, other.y@, other.infinity)),
            ),
    {
        self.into_group().sub(other.into_group())
    }

    /// The difference with a projective point.
    pub fn sub_projective(self, other: Projective<C, N>) -> (r: Projective<C, N>)
        requires
            self.wf(),
            other.wf(),
        ensures
            r.wf(),
            r.jac() == jac_add::<C, N>(
                jac_of_affine(self.x@, self.y@, self.infinity),
                jac_neg::<C, N>(other.jac()),
            ),
    {
        self.into_group().sub(other)
    }
}

impl<C: SWCurveConfig<N>, const N: usize> Affine<C, N> {
    /// The same group element as a projective point.
    pub fn equals_projective(&self, other: &Projective<C, N>) -> (r: bool)
        requires
            self.wf(),
            other.wf(),
        ensures
            r == jac_eq::<C, N>(jac_of_affine(self.x@, self.y@, self.infinity), other.jac()),
    {
        self.into_group().equals(other)
    }

    /// The multiple by an element of a (scalar) prime field, through its
    /// canonical integer.
    pub fn mul_scalar<S: FpConfig<M>, const M: usize>(self, other: Fp<S, M>) -> (r: Projective<C, N>)
        requires
            self.wf(),
        ensures
            r.wf(),
            exists|k: Seq<u64>|
                limbs_val(k) == other@ && r.jac() == #[trigger] jac_mul_bits::<C, N>(
                    jac_of_affine(self.x@, self.y@, self.infinity),
                    limbs_bits(k),
                ),
    {
        let k = other.into_bigint();
        let r = self.mul_bigint(vstd::array::array_as_slice(&k));
        proof {
            vstd::array::axiom_spec_array_as_slice(&k);
        }
        r
    }

    /// A point read from the compressed encoding, the subgroup unchecked;
    /// `None` exactly for malformed input.
    pub fn from_random_bytes(bytes: &[u8]) -> (r: Option<Self>)
        ensures
            r is Some <==> well_formed_encoding::<C, N>(bytes@),
            r matches Some(pt) ==> decodes_to::<C, N>(bytes@, pt),
    {
        let d = deserialize_compressed::<C, N>(bytes, false);
        match d {
            Ok(pt) => Some(pt),
            Err(_) => None,
        }
    }
}

impl<C: SWCurveConfig<N>, const N: usize> Default for Affine<C, N> {
    fn default() -> (r: Self)
        ensures
            r.wf(),
            r.infinity,
            r.x@ == 0,
            r.y@ == 0,
    {
        Self::identity()
    }
}

impl<C: SWCurveConfig<N>, const N: usize> PartialEq for Affine<C, N> {
    fn eq(&self, other: &Self) -> (r: bool) {
        self.infinity == other.infinity && self.x.equals(&other.x) && self.y.equals(&other.y)
    }
}

impl<C: SWCurveConfig<N>, const N: usize> Eq for Affine<C, N> {

}

impl<C: SWCurveConfig<N>, const N: usize> vstd::std_specs::cmp::PartialEqSpecImpl for Affine<C, N> {
    open spec fn obeys_eq_spec() -> bool {
        true
    }

    /// Same flag and the same canonical coordinates.
    open spec fn eq_spec(&self, other: &Self) -> bool {
        self.infinity == other.infinity && self.x@ == other.x@ && self.y@ == other.y@
    }
}

} // verus!
