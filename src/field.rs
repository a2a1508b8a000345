//! The algebraic operations that a field element type offers, as traits, so
//! that generic code can be written against them. Elements stand for
//! integers modulo the characteristic.
use vstd::prelude::*;
use crate::fp::{Fp, FpConfig, add_mod, mul_mod, neg_mod};
use crate::limbs::limbs_val;

verus! {

/// An additive group whose elements stand for integers modulo `spec_order()`.
pub trait AdditiveGroup: Sized + Copy {
    /// The modulus of the element values.
    spec fn spec_order() -> nat;

    /// The integer an element stands for.
    spec fn spec_value(&self) -> nat;

    /// The element is in its reduced form.
    spec fn spec_wf(&self) -> bool;

    /// The additive identity.
    fn zero() -> (r: Self)
        ensures
            r.spec_wf(),
            r.spec_value() == 0,
    ;

    fn add(self, other: Self) -> (r: Self)
        requires
            self.spec_wf(),
            other.spec_wf(),
        ensures
            r.spec_wf(),
            r.spec_value() == add_mod(self.spec_value(), other.spec_value(), Self::spec_order()),
    ;

    fn neg(self) -> (r: Self)
        requires
            self.spec_wf(),
        ensures
            r.spec_wf(),
            r.spec_value() == neg_mod(self.spec_value(), Self::spec_order()),
    ;

    /// `self + self`.
    fn double(&self) -> (r: Self)
        requires
            self.spec_wf(),
        ensures
            r.spec_wf(),
            r.spec_value() == add_mod(self.spec_value(), self.spec_value(), Self::spec_order()),
    {
        let mut copy = *self;
        copy.double_in_place();
        copy
    }

    /// Doubles in place.
    fn double_in_place(&mut self)
        requires
            old(self).spec_wf(),
        ensures
            final(self).spec_wf(),
            final(self).spec_value() == add_mod(old(self).spec_value(), old(self).spec_value(), Self::spec_order()),
    {
        *self = self.add(*self);
    }

    /// Negates in place.
    fn neg_in_place(&mut self)
        requires
            old(self).spec_wf(),
        ensures
            final(self).spec_wf(),
            final(self).spec_value() == neg_mod(old(self).spec_value(), Self::spec_order()),
    {
        *self = self.neg();
    }
}

/// A field: an additive group with multiplication and inverses.
pub trait Field: AdditiveGroup {
    /// The multiplicative identity.
    fn one() -> (r: Self)
        ensures
            r.spec_wf(),
            r.spec_value() == 1,
    ;

    fn mul(self, other: Self) -> (r: Self)
        requires
            self.spec_wf(),
            other.spec_wf(),
        ensures
            r.spec_wf(),
            r.spec_value() == mul_mod(self.spec_value(), other.spec_value(), Self::spec_order()),
    ;

    /// The multiplicative inverse; absent exactly for zero.
    fn inverse(&self) -> (r: Option<Self>)
        ensures
            r is Some <==> self.spec_value() != 0,
            r matches Some(v) ==> v.spec_wf() && mul_mod(self.spec_value(), v.spec_value(), Self::spec_order())
                == 1,
    ;

    /// The characteristic, as little-endian limbs.
    fn characteristic() -> (r: Vec<u64>)
        ensures
            limbs_val(r@) == Self::spec_order(),
    ;

    /// The degree over the prime field.
    fn extension_degree() -> u64;

    /// `self * self`.
    fn square(&self) -> (r: Self)
        requires
            self.spec_wf(),
        ensures
            r.spec_wf(),
            r.spec_value() == mul_mod(self.spec_value(), self.spec_value(), Self::spec_order()),
    {
        let mut copy = *self;
        copy.square_in_place();
        copy
    }

    /// Squares in place.
    fn square_in_place(&mut self)
        requires
            old(self).spec_wf(),
        ensures
            final(self).spec_wf(),
            final(self).spec_value() == mul_mod(old(self).spec_value(), old(self).spec_value(), Self::spec_order()),
    {
        *self = self.mul(*self);
    }
}

impl<P: FpConfig<N>, const N: usize> AdditiveGroup for Fp<P, N> {
    open spec fn spec_order() -> nat {
        P::spec_modulus()
    }

    open spec fn spec_value(&self) -> nat {
        self@
    }

    open spec fn spec_wf(&self) -> bool {
        self.wf()
    }

    fn zero() -> (r: Self) {
        Fp::zero()
    }

    fn add(self, other: Self) -> (r: Self) {
        Fp::add(self, other)
    }

    fn neg(self) -> (r: Self) {
        Fp::neg(self)
    }
}

impl<P: FpConfig<N>, const N: usize> Field for Fp<P, N> {
    fn one() -> (r: Self) {
        Fp::one()
    }

    fn mul(self, other: Self) -> (r: Self) {
        Fp::mul(self, other)
    }

    fn inverse(&self) -> (r: Option<Self>) {
        Fp::inverse(self)
    }

    fn characteristic() -> (r: Vec<u64>) {
        let m = P::modulus();
        let mut v: Vec<u64> = Vec::new();
        let mut i: usize = 0;
        while i < N
            invariant
                i <= N,
                v@ == m@.subrange(0, i as int),
            decreases N - i,
        {
            v.push(m[i]);
            i = i + 1;
        }
        proof {
            assert(m@.subrange(0, N as int) =~= m@);
        }
        v
    }

    fn extension_degree() -> u64 {
        1
    }
}

} // verus!
