//! Points in Jacobian projective coordinates and the group law on them.
use vstd::prelude::*;
use vstd::arithmetic::div_mod::{lemma_small_mod, lemma_mul_mod_noop, lemma_mul_mod_noop_left,
    lemma_mul_mod_noop_right};
use crate::fp::{Fp, FpConfig, mul_mod};
use crate::curve::{
    Jac, SWCurveConfig, base_modulus, jac_add, jac_double, jac_eq, jac_identity, jac_mul_bits, jac_neg,
    jac_of_affine, represents,
};
use crate::affine::Affine;
use crate::bits::{word_bits, limbs_bits, lemma_limbs_bits_suffix};

verus! {

/// A point in Jacobian coordinates `(X, Y, Z)`, standing for the affine
/// point `(X / Z^2, Y / Z^3)`; `Z = 0` is the identity.
#[derive(Copy, Debug)]
pub struct Projective<C: SWCurveConfig<N>, const N: usize> {
    pub x: Fp<C::BaseConfig, N>,
    pub y: Fp<C::BaseConfig, N>,
    pub z: Fp<C::BaseConfig, N>,
}

impl<C: SWCurveConfig<N>, const N: usize> Clone for Projective<C, N> {
    fn clone(&self) -> (r: Self)
        ensures
            r == *self,
    {
        *self
    }
}

impl<C: SWCurveConfig<N>, const N: usize> Projective<C, N> {
    pub open spec fn wf(self) -> bool {
        self.x.wf() && self.y.wf() && self.z.wf()
    }

    /// The canonical integers of the coordinates.
    pub open spec fn jac(self) -> Jac {
        (self.x@, self.y@, self.z@)
    }

    /// The identity `(1, 1, 0)`.
    pub fn zero() -> (r: Self)
        ensures
            r.wf(),
            r.jac() == jac_identity(),
    {
        Projective { x: Fp::one(), y: Fp::one(), z: Fp::zero() }
    }

    pub fn is_zero(&self) -> (r: bool)
        ensures
            r == (self.z@ == 0),
    {
        self.z.is_zero()
    }

    /// The point with `Z = 1`, or the identity.
    pub fn from_affine(a: &Affine<C, N>) -> (r: Self)
        requires
            a.wf(),
        ensures
            r.wf(),
            r.jac() == jac_of_affine(a.x@, a.y@, a.infinity),
            !a.infinity ==> r.x == a.x && r.y == a.y,
    {
        if a.infinity {
            Self::zero()
        } else {
            Projective { x: a.x, y: a.y, z: Fp::one() }
        }
    }

    pub fn neg(self) -> (r: Self)
        requires
            self.wf(),
        ensures
            r.wf(),
            r.jac() == jac_neg::<C, N>(self.jac()),
    {
        Projective { x: self.x, y: self.y.neg(), z: self.z }
    }

    pub fn double(&self) -> (r: Self)
        requires
            self.wf(),
        ensures
            r.wf(),
            r.jac() == jac_double::<C, N>(self.jac()),
    {
        if self.z.is_zero() {
            return *self;
        }
        let xx = self.x.square();
        let yy = self.y.square();
        let yyyy = yy.square();
        let zz = self.z.square();
        let xyy = self.x.mul(yy);
        let s2 = xyy.double();
        let s = s2.double();
        let xx2 = xx.double();
        let m = xx2.add(xx).add(C::mul_by_a(zz.square()));
        let x3 = m.square().sub(s.double());
        let y2 = yyyy.double();
        let y4 = y2.double();
        let y8 = y4.double();
        let y3 = m.mul(s.sub(x3)).sub(y8);
        let yz = self.y.mul(self.z);
        Projective { x: x3, y: y3, z: yz.double() }
    }

    pub fn add(self, other: Self) -> (r: Self)
        requires
            self.wf(),
            other.wf(),
        ensures
            r.wf(),
            r.jac() == jac_add::<C, N>(self.jac(), other.jac()),
    {
        if self.z.is_zero() {
            return other;
        }
        if other.z.is_zero() {
            return self;
        }
        let z1z1 = self.z.square();
        let z2z2 = other.z.square();
        let u1 = self.x.mul(z2z2);
        let u2 = other.x.mul(z1z1);
        let s1 = self.y.mul(other.z).mul(z2z2);
        let s2 = other.y.mul(self.z).mul(z1z1);
        if u1.equals(&u2) {
            if s1.equals(&s2) {
                return self.double();
            } else {
                return Self::zero();
            }
        }
        let h = u2.sub(u1);
        let r = s2.sub(s1);
        let hh = h.square();
        let hhh = h.mul(hh);
        let v = u1.mul(hh);
        let x3 = r.square().sub(hhh).sub(v.double());
        let y3 = r.mul(v.sub(x3)).sub(s1.mul(hhh));
        let z3 = self.z.mul(other.z).mul(h);
        Projective { x: x3, y: y3, z: z3 }
    }

    /// `self + (-other)`.
    pub fn sub(self, other: Self) -> (r: Self)
        requires
            self.wf(),
            other.wf(),
        ensures
            r.wf(),
            r.jac() == jac_add::<C, N>(self.jac(), jac_neg::<C, N>(other.jac())),
    {
        self.add(other.neg())
    }

    /// The same group element: both the identity, or the same affine point.
    pub fn equals(&self, other: &Self) -> (r: bool)
        requires
            self.wf(),
            other.wf(),
        ensures
            r == jac_eq::<C, N>(self.jac(), other.jac()),
    {
        let z1_zero = self.z.is_zero();
        let z2_zero = other.z.is_zero();
        if z1_zero || z2_zero {
            return z1_zero && z2_zero;
        }
        let z1z1 = self.z.square();
        let z2z2 = other.z.square();
        let x_eq = self.x.mul(z2z2).equals(&other.x.mul(z1z1));
        let y_eq = self.y.mul(z2z2.mul(other.z)).equals(&other.y.mul(z1z1.mul(self.z)));
        x_eq && y_eq
    }

    /// Double-and-add over the bits of the scalar, most significant first.
    pub fn mul_bigint(&self, scalar: &[u64]) -> (r: Self)
        requires
            self.wf(),
        ensures
            r.wf(),
            r.jac() == jac_mul_bits::<C, N>(self.jac(), limbs_bits(scalar@)),
    {
        let ghost base = self.jac();
        let ghost len = scalar@.len() as int;
        let mut res = Self::zero();
        proof {
            assert(scalar@.subrange(len, len) =~= Seq::<u64>::empty());
        }
        let mut i: usize = scalar.len();
        while i > 0
            invariant
                res.wf(),
                self.wf(),
                base == self.jac(),
                i <= scalar@.len(),
                len == scalar@.len(),
                res.jac() == jac_mul_bits::<C, N>(base, limbs_bits(scalar@.subrange(i as int, len))),
            decreases i,
        {
            i = i - 1;
            let w = scalar[i];
            let ghost high = limbs_bits(scalar@.subrange(i + 1, len));
            proof {
                lemma_limbs_bits_suffix(scalar@, i as int);
                assert(high + word_bits(w).take(0) =~= high);
            }
            let mut k: u64 = 0;
            while k < 64
                invariant
                    res.wf(),
                    self.wf(),
                    base == self.jac(),
                    k <= 64,
                    res.jac() == jac_mul_bits::<C, N>(base, high + word_bits(w).take(k as int)),
                decreases 64 - k,
            {
                let ghost pre = high + word_bits(w).take(k as int);
                let bit = (w >> (63 - k)) & 1u64 == 1u64;
                proof {
                    assert(high + word_bits(w).take(k + 1) =~= pre.push(word_bits(w)[k as int]));
                    assert(pre.push(bit).drop_last() =~= pre);
                }
                res = res.double();
                if bit {
                    res = res.add(*self);
                }
                k = k + 1;
            }
            proof {
                assert(word_bits(w).take(64) =~= word_bits(w));
            }
        }
        proof {
            assert(scalar@.subrange(0, len) =~= scalar@);
        }
        res
    }

    /// The normal form: the identity, or the affine point `(X / Z^2, Y / Z^3)`;
    /// a point with `Z = 1` keeps its coordinates as they are.
    pub fn into_affine(&self) -> (r: Affine<C, N>)
        requires
            self.wf(),
        ensures
            r.wf(),
            represents::<C, N>(r, self.jac()),
            self.z@ == 1 ==> r.x == self.x && r.y == self.y && !r.infinity,
    {
        proof {
            <C::BaseConfig as FpConfig<N>>::lemma_valid();
        }
        if self.z.is_zero() {
            Affine::identity()
        } else if self.z.is_one() {
            proof {
                let p = base_modulus::<C, N>();
                lemma_small_mod(1, p);
                lemma_small_mod(self.x@, p);
                lemma_small_mod(self.y@, p);
                assert(mul_mod(1, 1, p) == 1);
                assert(self.x@ * 1 == self.x@);
                assert(self.y@ * 1 == self.y@);
            }
            Affine::new_unchecked(self.x, self.y)
        } else {
            let zinv = self.z.inverse().unwrap();
            let zinv_squared = zinv.square();
            let x = self.x.mul(zinv_squared);
            let y = self.y.mul(zinv_squared.mul(zinv));
            proof {
                let p = base_modulus::<C, N>() as int;
                let z = self.z@ as int;
                let zi = zinv@ as int;
                let zz = (z * z) % p;
                let zizi = (zi * zi) % p;
                lemma_inv_product(z, zi, z, zi, p);
                lemma_inv_product(zz, zizi, z, zi, p);
                lemma_unscale(self.x@ as int, zz, zizi, p);
                lemma_unscale(self.y@ as int, (zz * z) % p, (zizi * zi) % p, p);
                assert(mul_mod(x@, mul_mod(self.z@, self.z@, p as nat), p as nat) == self.x@);
                assert(mul_mod(y@, mul_mod(mul_mod(self.z@, self.z@, p as nat), self.z@, p as nat), p as nat) == self.y@);
            }
            Affine::new_unchecked(x, y)
        }
    }
}

/// Inverses multiply: `a b` is inverted by `a' b'`.
pub proof fn lemma_inv_product(a: int, ai: int, b: int, bi: int, p: int)
    requires
        p > 1,
        (a * ai) % p == 1,
        (b * bi) % p == 1,
    ensures
        (((a * b) % p) * ((ai * bi) % p)) % p == 1,
{
    lemma_mul_mod_noop(a * b, ai * bi, p);
    assert((a * b) * (ai * bi) == (a * ai) * (b * bi)) by (nonlinear_arith);
    lemma_mul_mod_noop(a * ai, b * bi, p);
    lemma_small_mod(1, p as nat);
}

/// Scaling a reduced value by `c^-1` and then by `c` gives it back.
pub proof fn lemma_unscale(x: int, c: int, ci: int, p: int)
    requires
        p > 1,
        0 <= x < p,
        (c * ci) % p == 1,
    ensures
        (((x * ci) % p) * c) % p == x,
{
    lemma_mul_mod_noop_left(x * ci, c, p);
    assert((x * ci) * c == x * (c * ci)) by (nonlinear_arith);
    lemma_mul_mod_noop_right(x, c * ci, p);
    lemma_small_mod(x as nat, p as nat);
}

} // verus!
