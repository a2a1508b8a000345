//! Prime-field elements in Montgomery form, generic over a configuration that
//! fixes the modulus and the Montgomery constants.
use vstd::prelude::*;
use vstd::arithmetic::div_mod::*;
use core::cmp::Ordering;
use core::marker::PhantomData;
use vstd::arithmetic::power::{pow, lemma_pow0, lemma_pow1, lemma_pow_adds, lemma_pow_mod_noop};
use vstd::arithmetic::power2::pow2;
use crate::bits::{word_bits, limbs_bits, bits_val, lemma_bits_val_push, lemma_limbs_bits_val, lemma_limbs_bits_suffix};
use crate::encoding::{bytes_to_limbs, word_from_bytes};
use crate::limbs::{
    lemma_limbs_val_padded,
    add_mod_limbs, cmp_limbs, inv_word_mod_2_64, mul_wide_limbs, rem_wide_limbs, has_inverse, inv_odd_mod_limbs, lemma_limbs_val_bound, lemma_limbs_val_low,
    lemma_limbs_val_single, lemma_limbs_val_zero, lemma_mont_neg, lemma_mont_product, lemma_mont_sum,
    limb_base, limbs_val, mont_mul, neg_mod_limbs, radix, valid_modulus, zeroize_limbs,
};

verus! {

/// The constants of a prime field `F_p` whose elements fit in `N` limbs.
pub trait FpConfig<const N: usize>: Sized + Copy {
    /// The modulus `p`.
    spec fn spec_modulus() -> nat;

    /// The inverse of the Montgomery radix `R = 2^(64 N)` modulo `p`.
    spec fn spec_r_inv() -> nat;

    /// The modulus, as limbs.
    fn modulus() -> (r: [u64; N])
        ensures
            limbs_val(r@) == Self::spec_modulus(),
    ;

    /// `-p^-1 mod 2^64`, the constant of Montgomery reduction.
    fn inv() -> (r: u64)
        ensures
            (((Self::spec_modulus() % limb_base()) as int) * (r as int) + 1) % (limb_base() as int)
                == 0,
    {
        proof {
            Self::lemma_valid();
        }
        let p = Self::modulus();
        proof {
            lemma_limbs_val_low(p@);
            lemma_mod_mod(limbs_val(p@) as int, 2, limb_base() as int / 2);
            assert(limb_base() as int == 2 * (limb_base() as int / 2));
        }
        let w = inv_word_mod_2_64(p[0]);
        proof {
            let b = limb_base() as int;
            let (pi, wi) = (p[0] as int, w as int);
            assert(wi != 0) by {
                if wi == 0 {
                    assert(pi * wi == 0);
                    lemma_small_mod(0, b as nat);
                }
            }
            assert(pi * (b - wi) + 1 == b * pi + (1 - pi * wi)) by (nonlinear_arith);
            lemma_mod_multiples_vanish(pi, 1 - pi * wi, b);
            lemma_fundamental_div_mod(pi * wi, b);
            let q = (pi * wi) / b;
            assert(1 - pi * wi == b * (-q));
            lemma_mod_multiples_vanish(-q, 0, b);
            lemma_small_mod(0, b as nat);
            lemma_small_mod(p[0] as nat, b as nat);
        }
        0u64.wrapping_sub(w)
    }

    /// `R^2 mod p`, which brings an integer into Montgomery form.
    fn r2() -> (r: [u64; N])
        ensures
            limbs_val(r@) == (radix(N as nat) * radix(N as nat)) % Self::spec_modulus(),
    {
        proof {
            Self::lemma_valid();
        }
        let p = Self::modulus();
        let zero = zero_limbs::<N>();
        let one = word_limbs::<N>(1);
        proof {
            lemma_limbs_val_zero(zero@);
        }
        let r_mod_p = rem_wide_limbs(&zero, &one, &p);
        let (lo, hi) = mul_wide_limbs(&r_mod_p, &r_mod_p);
        let r = rem_wide_limbs(&lo, &hi, &p);
        proof {
            let rr = radix(N as nat) as int;
            assert(0 + rr * 1 == rr);
            lemma_mul_mod_noop(rr, rr, Self::spec_modulus() as int);
        }
        r
    }

    /// The two-adicity `s`: `p - 1 = t * 2^s` with `t` odd.
    spec fn spec_two_adicity() -> nat;

    fn two_adicity() -> (r: u32)
        ensures
            r == Self::spec_two_adicity(),
            r >= 1,
    ;

    /// `(t - 1) / 2`, where `t` is the odd part of `p - 1`.
    fn trace_minus_one_div_two() -> (r: [u64; N])
        ensures
            (2 * limbs_val(r@) + 1) * pow2(Self::spec_two_adicity()) == Self::spec_modulus() - 1,
    ;

    /// A primitive `2^s`-th root of unity, `s` being the two-adicity, as
    /// Montgomery limbs: its `2^(s-1)`-th power is `-1`.
    fn two_adic_root_of_unity() -> (r: [u64; N])
        ensures
            limbs_val(r@) < Self::spec_modulus(),
            pow(
                ((limbs_val(r@) * Self::spec_r_inv()) % Self::spec_modulus()) as int,
                pow2((Self::spec_two_adicity() - 1) as nat),
            ) % (Self::spec_modulus() as int) == Self::spec_modulus() - 1,
    ;

    /// A generator of the multiplicative group, as Montgomery limbs: its
    /// powers below `p - 1` are all different from one.
    fn generator() -> (r: [u64; N])
        ensures
            limbs_val(r@) < Self::spec_modulus(),
            forall|e: nat|
                0 < e < Self::spec_modulus() - 1 ==> #[trigger] pow(
                    ((limbs_val(r@) * Self::spec_r_inv()) % Self::spec_modulus()) as int,
                    e,
                ) % (Self::spec_modulus() as int) != 1,
    ;

    /// The modulus is odd, fits in `N` limbs, and is prime: every non-zero
    /// residue is invertible and meets Fermat's little theorem.
    proof fn lemma_valid()
        ensures
            valid_modulus(Self::spec_modulus(), N as nat, Self::spec_r_inv()),
    ;
}

/// An element of `F_p`, stored in Montgomery form: the limbs hold `v * R mod p`
/// for the element `v`.
#[derive(Copy, Hash, Debug)]
pub struct Fp<P: FpConfig<N>, const N: usize>(pub [u64; N], pub PhantomData<P>);

impl<P: FpConfig<N>, const N: usize> Clone for Fp<P, N> {
    fn clone(&self) -> (r: Self)
        ensures
            r == *self,
    {
        *self
    }
}

/// `(a + b) mod p`.
pub open spec fn add_mod(a: nat, b: nat, p: nat) -> nat {
    (a + b) % p
}

/// `(a - b) mod p` for `a, b < p`.
pub open spec fn sub_mod(a: nat, b: nat, p: nat) -> nat {
    ((a + p) - b) as nat % p
}

/// `-a mod p` for `a < p`.
pub open spec fn neg_mod(a: nat, p: nat) -> nat {
    (p - a) as nat % p
}

/// `(a * b) mod p`.
pub open spec fn mul_mod(a: nat, b: nat, p: nat) -> nat {
    (a * b) % p
}

impl<P: FpConfig<N>, const N: usize> View for Fp<P, N> {
    type V = nat;

    /// The canonical integer in `[0, p)` that this element stands for.
    open spec fn view(&self) -> nat {
        (limbs_val(self.0@) * P::spec_r_inv()) % P::spec_modulus()
    }
}

/// All-zero limbs.
fn zero_limbs<const N: usize>() -> (r: [u64; N])
    ensures
        forall|i: int| 0 <= i < N ==> #[trigger] r@[i] == 0,
{
    let a = [0u64; N];
    proof {
        assert forall|i: int| 0 <= i < N implies #[trigger] a@[i] == 0 by {
            vstd::array::axiom_spec_array_fill_for_copy_type::<u64, N>(0u64);
        }
    }
    a
}

/// The limbs of the integer one.
fn one_limbs<const N: usize>() -> (r: [u64; N])
    requires
        N > 0,
    ensures
        limbs_val(r@) == 1,
{
    let mut a = zero_limbs::<N>();
    a[0] = 1;
    proof {
        lemma_limbs_val_single(a@);
    }
    a
}

/// Limbs holding a single word.
fn word_limbs<const N: usize>(w: u64) -> (r: [u64; N])
    requires
        N > 0,
    ensures
        limbs_val(r@) == w,
{
    let mut a = zero_limbs::<N>();
    a[0] = w;
    proof {
        lemma_limbs_val_single(a@);
    }
    a
}

/// `u * R * R^-1 == u` modulo `p`.
proof fn lemma_cancel_radix(u: int, rr: int, ri: int, p: int)
    requires
        p > 1,
        (rr * ri) % p == 1,
    ensures
        ((u * rr) * ri) % p == u % p,
{
    lemma_mul_mod_noop_right(u, rr * ri, p);
    assert((u * rr) * ri == u * (rr * ri)) by (nonlinear_arith);
}

impl<P: FpConfig<N>, const N: usize> Fp<P, N> {
    /// The limbs hold a reduced Montgomery residue.
    pub open spec fn wf(self) -> bool {
        limbs_val(self.0@) < P::spec_modulus()
    }

    /// Montgomery product of two sets of limbs, the right one reduced.
    fn mont_mul_limbs(a: &[u64; N], b: &[u64; N]) -> (r: [u64; N])
        requires
            limbs_val(b@) < P::spec_modulus(),
        ensures
            limbs_val(r@) < P::spec_modulus(),
            (limbs_val(r@) * radix(N as nat)) % P::spec_modulus() == (limbs_val(a@) * limbs_val(
                b@,
            )) % P::spec_modulus(),
    {
        proof {
            P::lemma_valid();
            lemma_limbs_val_bound(a@);
        }
        let p = P::modulus();
        let inv = P::inv();
        proof {
            lemma_limbs_val_low(p@);
        }
        mont_mul(a, b, &p, inv)
    }

    /// Reduces an arbitrary `N`-limb integer into the field.
    pub fn new(element: [u64; N]) -> (r: Self)
        ensures
            r.wf(),
            r@ == limbs_val(element@) % P::spec_modulus(),
    {
        proof {
            P::lemma_valid();
        }
        let r2 = P::r2();
        let m = Self::mont_mul_limbs(&element, &r2);
        proof {
            let p = P::spec_modulus() as int;
            let rr = radix(N as nat) as int;
            let ri = P::spec_r_inv() as int;
            let x = limbs_val(element@) as int;
            let vr = limbs_val(m@) as int;
            let v2 = limbs_val(r2@) as int;
            lemma_mont_product(x, v2, vr, rr, ri, p);
            // (R^2 mod p) * R^-1 == R
            lemma_mul_mod_noop_left(rr * rr, ri, p);
            lemma_cancel_radix(rr, rr, ri, p);
            // (x R^-1) * R == x
            lemma_mul_mod_noop(x * ri, rr, p);
            assert((x * ri) * rr == (x * rr) * ri) by (nonlinear_arith);
            lemma_cancel_radix(x, rr, ri, p);
        }
        Fp(m, PhantomData)
    }

    /// A generator of the multiplicative group: an element of order `p - 1`.
    pub fn generator() -> (r: Self)
        ensures
            r.wf(),
            forall|e: nat| 0 < e < P::spec_modulus() - 1 ==> #[trigger] pow(r@ as int, e) % (P::spec_modulus() as int) != 1,
    {
        Fp(P::generator(), PhantomData)
    }

    /// Wraps limbs that already hold a Montgomery residue.
    pub fn new_unchecked(element: [u64; N]) -> (r: Self)
        ensures
            r.0 == element,
    {
        Fp(element, PhantomData)
    }

    /// The canonical integer in `[0, p)` of this element.
    pub fn into_bigint(self) -> (r: [u64; N])
        ensures
            limbs_val(r@) == self@,
    {
        proof {
            P::lemma_valid();
        }
        let one = one_limbs::<N>();
        let r = Self::mont_mul_limbs(&self.0, &one);
        proof {
            let p = P::spec_modulus() as int;
            let rr = radix(N as nat) as int;
            let ri = P::spec_r_inv() as int;
            let vr = limbs_val(r@) as int;
            let m = limbs_val(self.0@) as int;
            lemma_cancel_radix(vr, rr, ri, p);
            lemma_mul_mod_noop_left(vr * rr, ri, p);
            lemma_mul_mod_noop_left(m, ri, p);
            lemma_small_mod(vr as nat, p as nat);
        }
        r
    }

    /// Same as `new`: every integer is reduced into the field.
    pub fn from_bigint(r: [u64; N]) -> (res: Option<Self>)
        ensures
            res matches Some(v) && v.wf() && v@ == limbs_val(r@) % P::spec_modulus(),
    {
        Some(Self::new(r))
    }

    /// The stored limbs are not below the modulus.
    pub fn is_geq_modulus(&self) -> (r: bool)
        ensures
            r == (limbs_val(self.0@) >= P::spec_modulus()),
    {
        let p = P::modulus();
        match cmp_limbs(&self.0, &p) {
            Ordering::Less => false,
            _ => true,
        }
    }

    /// The additive identity.
    pub fn zero() -> (r: Self)
        ensures
            r.wf(),
            r@ == 0,
    {
        proof {
            P::lemma_valid();
        }
        let z = zero_limbs::<N>();
        proof {
            lemma_limbs_val_zero(z@);
            assert(0 * P::spec_r_inv() == 0);
            lemma_small_mod(0, P::spec_modulus());
        }
        Fp(z, PhantomData)
    }

    /// The multiplicative identity.
    pub fn one() -> (r: Self)
        ensures
            r.wf(),
            r@ == 1,
    {
        proof {
            P::lemma_valid();
        }
        let r = Self::new(one_limbs::<N>());
        proof {
            lemma_small_mod(1, P::spec_modulus());
        }
        r
    }

    /// Equality of the canonical integers.
    pub fn equals(&self, other: &Self) -> (r: bool)
        ensures
            r == (self@ == other@),
    {
        let a = self.into_bigint();
        let b = other.into_bigint();
        match cmp_limbs(&a, &b) {
            Ordering::Equal => true,
            _ => false,
        }
    }

    /// Ordering of the canonical integers.
    pub fn cmp(&self, other: &Self) -> (r: Ordering)
        ensures
            (r == Ordering::Less) == (self@ < other@),
            (r == Ordering::Equal) == (self@ == other@),
            (r == Ordering::Greater) == (self@ > other@),
    {
        let a = self.into_bigint();
        let b = other.into_bigint();
        cmp_limbs(&a, &b)
    }

    pub fn is_zero(&self) -> (r: bool)
        ensures
            r == (self@ == 0),
    {
        self.equals(&Self::zero())
    }

    pub fn is_one(&self) -> (r: bool)
        ensures
            r == (self@ == 1),
    {
        self.equals(&Self::one())
    }

    /// The field is a prime field: its extension degree is one.
    pub fn extension_degree() -> (r: u64)
        ensures
            r == 1,
    {
        1
    }

    /// The characteristic `p`, as limbs.
    pub fn characteristic() -> (r: [u64; N])
        ensures
            limbs_val(r@) == P::spec_modulus(),
    {
        P::modulus()
    }

    pub fn add(self, other: Self) -> (r: Self)
        requires
            self.wf(),
            other.wf(),
        ensures
            r.wf(),
            r@ == add_mod(self@, other@, P::spec_modulus()),
    {
        proof {
            P::lemma_valid();
        }
        let p = P::modulus();
        let m = add_mod_limbs(&self.0, &other.0, &p);
        proof {
            lemma_mont_sum(
                limbs_val(self.0@) as int,
                limbs_val(other.0@) as int,
                P::spec_r_inv() as int,
                P::spec_modulus() as int,
            );
        }
        Fp(m, PhantomData)
    }

    pub fn double(&self) -> (r: Self)
        requires
            self.wf(),
        ensures
            r.wf(),
            r@ == add_mod(self@, self@, P::spec_modulus()),
    {
        self.add(*self)
    }

    pub fn neg(self) -> (r: Self)
        requires
            self.wf(),
        ensures
            r.wf(),
            r@ == neg_mod(self@, P::spec_modulus()),
    {
        proof {
            P::lemma_valid();
        }
        let p = P::modulus();
        let m = neg_mod_limbs(&self.0, &p);
        proof {
            lemma_mont_neg(
                limbs_val(self.0@) as int,
                P::spec_r_inv() as int,
                P::spec_modulus() as int,
            );
        }
        Fp(m, PhantomData)
    }

    /// `self + (-other)`.
    pub fn sub(self, other: Self) -> (r: Self)
        requires
            self.wf(),
            other.wf(),
        ensures
            r.wf(),
            r@ == sub_mod(self@, other@, P::spec_modulus()),
    {
        proof {
            P::lemma_valid();
        }
        let n = other.neg();
        let r = self.add(n);
        proof {
            let p = P::spec_modulus() as int;
            lemma_add_mod_noop(self@ as int, p - other@, p);
            lemma_small_mod(self@, p as nat);
            lemma_mod_twice(p - other@, p);
        }
        r
    }

    pub fn mul(self, other: Self) -> (r: Self)
        requires
            self.wf(),
            other.wf(),
        ensures
            r.wf(),
            r@ == mul_mod(self@, other@, P::spec_modulus()),
    {
        proof {
            P::lemma_valid();
        }
        let m = Self::mont_mul_limbs(&self.0, &other.0);
        proof {
            lemma_mont_product(
                limbs_val(self.0@) as int,
                limbs_val(other.0@) as int,
                limbs_val(m@) as int,
                radix(N as nat) as int,
                P::spec_r_inv() as int,
                P::spec_modulus() as int,
            );
        }
        Fp(m, PhantomData)
    }

    pub fn square(&self) -> (r: Self)
        requires
            self.wf(),
        ensures
            r.wf(),
            r@ == mul_mod(self@, self@, P::spec_modulus()),
    {
        self.mul(*self)
    }
}

impl<P: FpConfig<N>, const N: usize> Fp<P, N> {
    /// The multiplicative inverse; absent exactly for zero.
    pub fn inverse(&self) -> (r: Option<Self>)
        ensures
            r is Some <==> self@ != 0,
            r matches Some(v) ==> v.wf() && mul_mod(self@, v@, P::spec_modulus()) == 1,
    {
        proof {
            P::lemma_valid();
        }
        let a = self.into_bigint();
        let p = P::modulus();
        let (t, found) = inv_odd_mod_limbs(&a, &p);
        proof {
            let pm = P::spec_modulus() as int;
            if self@ == 0 {
                assert forall|x: int| #[trigger] ((0 * x) % pm) != 1 by {
                    assert(0 * x == 0);
                    lemma_small_mod(0, pm as nat);
                }
                assert(!has_inverse(0, pm));
            } else {
                assert(has_inverse(self@ as int, pm));
            }
        }
        if found {
            let v = Self::new(t);
            proof {
                lemma_mul_mod_noop_right(
                    self@ as int,
                    limbs_val(t@) as int,
                    P::spec_modulus() as int,
                );
            }
            Some(v)
        } else {
            None
        }
    }

    /// Replaces `self` by its inverse and reports whether there was one; zero
    /// is left as it is.
    pub fn inverse_in_place(&mut self) -> (r: bool)
        ensures
            r == (old(self)@ != 0),
            r ==> final(self).wf() && mul_mod(old(self)@, final(self)@, P::spec_modulus()) == 1,
            !r ==> *final(self) == *old(self),
    {
        match self.inverse() {
            Some(v) => {
                *self = v;
                true
            },
            None => false,
        }
    }

    /// `self * other^-1`; the divisor must not be zero.
    pub fn div(self, other: Self) -> (r: Self)
        requires
            self.wf(),
            other.wf(),
            other@ != 0,
        ensures
            r.wf(),
            mul_mod(r@, other@, P::spec_modulus()) == self@,
    {
        proof {
            P::lemma_valid();
        }
        let i = other.inverse();
        let inv = i.unwrap();
        let r = self.mul(inv);
        proof {
            let p = P::spec_modulus() as int;
            let a = self@ as int;
            let b = other@ as int;
            let c = inv@ as int;
            lemma_mul_mod_noop_left(a * c, b, p);
            assert((a * c) * b == a * (b * c)) by (nonlinear_arith);
            lemma_mul_mod_noop_right(a, b * c, p);
            lemma_small_mod(a as nat, p as nat);
        }
        r
    }

    pub fn add_assign(&mut self, other: &Self)
        requires
            old(self).wf(),
            other.wf(),
        ensures
            final(self).wf(),
            final(self)@ == add_mod(old(self)@, other@, P::spec_modulus()),
    {
        *self = self.add(*other);
    }

    pub fn sub_assign(&mut self, other: &Self)
        requires
            old(self).wf(),
            other.wf(),
        ensures
            final(self).wf(),
            final(self)@ == sub_mod(old(self)@, other@, P::spec_modulus()),
    {
        *self = self.sub(*other);
    }

    pub fn mul_assign(&mut self, other: &Self)
        requires
            old(self).wf(),
            other.wf(),
        ensures
            final(self).wf(),
            final(self)@ == mul_mod(old(self)@, other@, P::spec_modulus()),
    {
        *self = self.mul(*other);
    }

    pub fn div_assign(&mut self, other: &Self)
        requires
            old(self).wf(),
            other.wf(),
            other@ != 0,
        ensures
            final(self).wf(),
            mul_mod(final(self)@, other@, P::spec_modulus()) == old(self)@,
    {
        *self = self.div(*other);
    }

    pub fn double_in_place(&mut self)
        requires
            old(self).wf(),
        ensures
            final(self).wf(),
            final(self)@ == add_mod(old(self)@, old(self)@, P::spec_modulus()),
    {
        *self = self.double();
    }

    pub fn neg_in_place(&mut self)
        requires
            old(self).wf(),
        ensures
            final(self).wf(),
            final(self)@ == neg_mod(old(self)@, P::spec_modulus()),
    {
        *self = self.neg();
    }

    pub fn square_in_place(&mut self)
        requires
            old(self).wf(),
        ensures
            final(self).wf(),
            final(self)@ == mul_mod(old(self)@, old(self)@, P::spec_modulus()),
    {
        *self = self.square();
    }

    /// Overwrites the limbs with zeros, which leaves the zero element.
    pub fn zeroize(&mut self)
        ensures
            final(self).wf(),
            final(self)@ == 0,
            forall|i: int| 0 <= i < N ==> final(self).0@[i] == 0,
    {
        proof {
            P::lemma_valid();
        }
        zeroize_limbs(&mut self.0);
        proof {
            lemma_limbs_val_zero(self.0@);
            assert(0 * P::spec_r_inv() == 0);
            lemma_small_mod(0, P::spec_modulus());
        }
    }

    /// The reduction of an unsigned word.
    pub fn from_u64(x: u64) -> (r: Self)
        ensures
            r.wf(),
            r@ == x as nat % P::spec_modulus(),
    {
        proof {
            P::lemma_valid();
        }
        Self::new(word_limbs::<N>(x))
    }

    pub fn from_u32(x: u32) -> (r: Self)
        ensures
            r.wf(),
            r@ == x as nat % P::spec_modulus(),
    {
        Self::from_u64(x as u64)
    }

    pub fn from_u16(x: u16) -> (r: Self)
        ensures
            r.wf(),
            r@ == x as nat % P::spec_modulus(),
    {
        Self::from_u64(x as u64)
    }

    pub fn from_u8(x: u8) -> (r: Self)
        ensures
            r.wf(),
            r@ == x as nat % P::spec_modulus(),
    {
        Self::from_u64(x as u64)
    }

    /// `false` is zero and `true` is one.
    pub fn from_bool(x: bool) -> (r: Self)
        ensures
            r.wf(),
            r@ == (if x { 1nat } else { 0nat }),
    {
        proof {
            P::lemma_valid();
            lemma_small_mod(1, P::spec_modulus());
            lemma_small_mod(0, P::spec_modulus());
        }
        Self::from_u64(if x { 1 } else { 0 })
    }

    /// The reduction of a 128-bit unsigned integer.
    pub fn from_u128(x: u128) -> (r: Self)
        ensures
            r.wf(),
            r@ == x as nat % P::spec_modulus(),
    {
        proof {
            P::lemma_valid();
        }
        let hi = (x >> 64u128) as u64;
        let lo = x as u64;
        proof {
            assert(x == hi as nat * limb_base() + lo as nat) by (bit_vector)
                requires
                    hi == (x >> 64u128) as u64,
                    lo == x as u64,
            ;
        }
        let half = Self::from_u64(0x8000_0000_0000_0000u64);
        let base = half.double();
        let r = Self::from_u64(hi).mul(base).add(Self::from_u64(lo));
        proof {
            let p = P::spec_modulus() as int;
            let h = hi as int;
            let l = lo as int;
            let b = limb_base() as int;
            lemma_add_mod_noop(0x8000_0000_0000_0000int, 0x8000_0000_0000_0000int, p);
            lemma_mul_mod_noop(h, b, p);
            lemma_add_mod_noop(h * b, l, p);
        }
        r
    }

    /// Reduces the magnitude: the sign is dropped.
    pub fn from_i128(x: i128) -> (r: Self)
        ensures
            r.wf(),
            r@ == (if x < 0 { -(x as int) } else { x as int }) as nat % P::spec_modulus(),
    {
        let m: u128 = if x >= 0 {
            x as u128
        } else if x == i128::MIN {
            0x8000_0000_0000_0000_0000_0000_0000_0000u128
        } else {
            (-x) as u128
        };
        Self::from_u128(m)
    }

    /// Reduces the magnitude: the sign is dropped.
    pub fn from_i64(x: i64) -> (r: Self)
        ensures
            r.wf(),
            r@ == (if x < 0 { -(x as int) } else { x as int }) as nat % P::spec_modulus(),
    {
        let m: u64 = if x >= 0 {
            x as u64
        } else {
            (-(x as i128)) as u64
        };
        Self::from_u64(m)
    }

    /// Reduces the magnitude: the sign is dropped.
    pub fn from_i32(x: i32) -> (r: Self)
        ensures
            r.wf(),
            r@ == (if x < 0 { -(x as int) } else { x as int }) as nat % P::spec_modulus(),
    {
        Self::from_i64(x as i64)
    }

    /// Reduces the magnitude: the sign is dropped.
    pub fn from_i16(x: i16) -> (r: Self)
        ensures
            r.wf(),
            r@ == (if x < 0 { -(x as int) } else { x as int }) as nat % P::spec_modulus(),
    {
        Self::from_i64(x as i64)
    }

    /// Reduces the magnitude: the sign is dropped.
    pub fn from_i8(x: i8) -> (r: Self)
        ensures
            r.wf(),
            r@ == (if x < 0 { -(x as int) } else { x as int }) as nat % P::spec_modulus(),
    {
        Self::from_i64(x as i64)
    }
}

impl<P: FpConfig<N>, const N: usize> Fp<P, N> {
    /// `self^exp`, the exponent given as little-endian limbs.
    pub fn pow(&self, exp: &[u64]) -> (r: Self)
        requires
            self.wf(),
        ensures
            r.wf(),
            r@ == pow(self@ as int, limbs_val(exp@)) % (P::spec_modulus() as int),
    {
        proof {
            P::lemma_valid();
        }
        let ghost a = self@ as int;
        let ghost p = P::spec_modulus() as int;
        let ghost len = exp@.len() as int;
        let mut res = Self::one();
        proof {
            assert(exp@.subrange(len, len) =~= Seq::<u64>::empty());
            lemma_pow0(a);
            lemma_small_mod(1, p as nat);
        }
        let mut i: usize = exp.len();
        while i > 0
            invariant
                res.wf(),
                i <= exp@.len(),
                len == exp@.len(),
                a == self@,
                p == P::spec_modulus(),
                p > 2,
                self.wf(),
                res@ == pow(a, bits_val(limbs_bits(exp@.subrange(i as int, len)))) % p,
            decreases i,
        {
            i = i - 1;
            let w = exp[i];
            let ghost high = limbs_bits(exp@.subrange(i + 1, len));
            proof {
                lemma_limbs_bits_suffix(exp@, i as int);
                assert(high + word_bits(w).take(0) =~= high);
            }
            let mut k: u64 = 0;
            while k < 64
                invariant
                    res.wf(),
                    k <= 64,
                    a == self@,
                    p == P::spec_modulus(),
                    p > 2,
                    self.wf(),
                    res@ == pow(a, bits_val(high + word_bits(w).take(k as int))) % p,
                decreases 64 - k,
            {
                let ghost pre = high + word_bits(w).take(k as int);
                let ghost v = bits_val(pre);
                let bit = (w >> (63 - k)) & 1u64 == 1u64;
                proof {
                    assert(high + word_bits(w).take(k + 1) =~= pre.push(word_bits(w)[k as int]));
                    lemma_bits_val_push(pre, bit);
                    lemma_pow_adds(a, v, v);
                    lemma_mul_mod_noop(pow(a, v), pow(a, v), p);
                }
                res.square_in_place();
                if bit {
                    res.mul_assign(self);
                    proof {
                        lemma_pow_adds(a, 2 * v, 1);
                        lemma_pow1(a);
                        lemma_mul_mod_noop_left(pow(a, 2 * v), a, p);
                        lemma_small_mod(a as nat, p as nat);
                        assert(2 * v + 1 == v + v + 1);
                    }
                } else {
                    assert(2 * v == v + v);
                }
                k = k + 1;
            }
            proof {
                assert(word_bits(w).take(64) =~= word_bits(w));
            }
        }
        proof {
            assert(exp@.subrange(0, len) =~= exp@);
            lemma_limbs_bits_val(exp@);
        }
        res
    }

    /// A square root, found by Tonelli-Shanks; `None` exactly for the
    /// non-squares.
    pub fn sqrt(&self) -> (r: Option<Self>)
        requires
            self.wf(),
        ensures
            r matches Some(y) ==> y.wf() && mul_mod(y@, y@, P::spec_modulus()) == self@,
            r is Some <==> is_square(self@, P::spec_modulus()),
            self@ == 0 ==> (r matches Some(y) && y@ == 0),
    {
        proof {
            P::lemma_valid();
        }
        if self.is_zero() {
            let z = Self::zero();
            proof {
                lemma_small_mod(0, P::spec_modulus());
                assert(0nat * 0nat == 0);
                assert(mul_mod(0, 0, P::spec_modulus()) == 0);
                assert(is_square(self@, P::spec_modulus()));
            }
            return Some(z);
        }
        let ghost p = P::spec_modulus();
        let ghost a = self@;
        let mut z = Self::new_unchecked(P::two_adic_root_of_unity());
        let tmo2 = P::trace_minus_one_div_two();
        let mut w = self.pow(&tmo2);
        let mut x = w.mul(*self);
        let mut b = x.mul(w);
        let mut v: u32 = P::two_adicity();
        proof {
            let s = P::spec_two_adicity();
            let t = limbs_val(tmo2@);
            let w0 = w@;
            // x^2 == a b
            lemma_initial_square(w0, a, p);
            // z^(2^(s-1)) == -1
            assert(pow2_mod(z@, (v - 1) as nat, p) == p - 1);
            if is_square(a, p) {
                let y = choose|y: nat| y < p && #[trigger] mul_mod(y, y, p) == a;
                lemma_initial_trace::<P, N>(a, y, w0, t, s);
            }
        }
        while !b.is_one()
            invariant
                z.wf(),
                w.wf(),
                x.wf(),
                b.wf(),
                self.wf(),
                a == self@,
                p == P::spec_modulus(),
                p > 2,
                a != 0,
                v >= 1,
                mul_mod(x@, x@, p) == mul_mod(a, b@, p),
                pow2_mod(z@, (v - 1) as nat, p) == p - 1,
                is_square(a, p) ==> pow2_mod(b@, (v - 1) as nat, p) == 1,
            decreases v,
        {
            let mut k: u32 = 0;
            let mut b2k = b;
            proof {
                lemma_pow2_mod_zero(b@, p);
                lemma_small_mod(b@, p);
            }
            while !b2k.is_one() && k < v
                invariant
                    b2k.wf(),
                    b.wf(),
                    k <= v,
                    p == P::spec_modulus(),
                    p > 2,
                    b2k@ == pow2_mod(b@, k as nat, p),
                    forall|i: nat| i < k ==> #[trigger] pow2_mod(b@, i, p) != 1,
                decreases v - k,
            {
                proof {
                    lemma_pow2_mod_step(b@, k as nat, p);
                }
                b2k.square_in_place();
                k = k + 1;
            }
            if k == v {
                proof {
                    if is_square(a, p) {
                        assert(pow2_mod(b@, (v - 1) as nat, p) != 1);
                    }
                }
                return None;
            }
            proof {
                assert(b2k@ == 1);
                if k == 0 {
                    assert(b@ == 1);
                }
                let prev = pow2_mod(b@, (k - 1) as nat, p);
                assert(prev != 1);
                lemma_pow2_mod_step(b@, (k - 1) as nat, p);
                assert((k - 1) as nat + 1 == k as nat);
                lemma_mod_bound(pow(b@ as int, pow2((k - 1) as nat)), p as int);
                lemma_small_mod(1, p);
                assert(mul_mod(1, 1, p) == 1);
                lemma_square_roots::<P, N>(prev, 1);
                lemma_small_mod((p - 1) as nat, p);
                assert(prev == p - 1);
            }
            let j = v - k;
            w = z;
            let mut t: u32 = 1;
            proof {
                lemma_pow2_mod_zero(z@, p);
                lemma_small_mod(z@, p);
            }
            while t < j
                invariant
                    w.wf(),
                    z.wf(),
                    1 <= t <= j,
                    p == P::spec_modulus(),
                    p > 2,
                    w@ == pow2_mod(z@, (t - 1) as nat, p),
                decreases j - t,
            {
                proof {
                    lemma_pow2_mod_step(z@, (t - 1) as nat, p);
                    assert((t - 1) as nat + 1 == t as nat);
                }
                w.square_in_place();
                t = t + 1;
            }
            let ghost (old_b, old_x, old_z) = (b@, x@, z@);
            z = w.square();
            b.mul_assign(&z);
            x.mul_assign(&w);
            proof {
                lemma_pow2_mod_step(old_z, (j - 1) as nat, p);
                assert((j - 1) as nat + 1 == j as nat);
                // x'^2 == a b'
                lemma_scaled_square(old_x, w@, a, old_b, p);
                // z'^(2^(k-1)) == -1
                lemma_pow2_mod_compose(old_z, j as nat, (k - 1) as nat, p);
                assert(j as nat + (k - 1) as nat == (v - 1) as nat);
                // b'^(2^(k-1)) == 1
                if is_square(a, p) {
                    lemma_pow2_mod_product(old_b, z@, (k - 1) as nat, p);
                    lemma_minus_one_squared(p);
                }
            }
            v = k;
        }
        proof {
            assert(b@ == 1);
            lemma_small_mod(a, p);
        }
        if x.square().equals(self) {
            Some(x)
        } else {
            None
        }
    }
}

impl<P: FpConfig<N>, const N: usize> Fp<P, N> {
    /// The element `(sign) * value(limbs)`, the limbs little-endian and at
    /// most `N` of them.
    pub fn from_sign_and_limbs(is_positive: bool, limbs: &[u64]) -> (r: Self)
        requires
            limbs@.len() <= N,
        ensures
            r.wf(),
            r@ == (if is_positive {
                limbs_val(limbs@) % P::spec_modulus()
            } else {
                neg_mod(limbs_val(limbs@) % P::spec_modulus(), P::spec_modulus())
            }),
    {
        let mut repr = zero_limbs::<N>();
        let mut i: usize = 0;
        while i < limbs.len()
            invariant
                i <= limbs@.len(),
                limbs@.len() <= N,
                repr@.len() == N,
                forall|j: int| 0 <= j < i ==> repr@[j] == limbs@[j],
                forall|j: int| i <= j < N ==> repr@[j] == 0,
            decreases limbs@.len() - i,
        {
            repr[i] = limbs[i];
            i = i + 1;
        }
        proof {
            lemma_limbs_val_padded(limbs@, repr@);
        }
        let res = Self::new(repr);
        if is_positive {
            res
        } else {
            res.neg()
        }
    }

    /// Reads an element from its canonical little-endian bytes: the first
    /// `8 N` bytes, eight per limb. `None` when there are fewer bytes or the
    /// integer is not below the modulus.
    pub fn from_random_bytes(bytes: &[u8]) -> (r: Option<Self>)
        ensures
            r is Some <==> (bytes@.len() >= 8 * N && limbs_val(bytes_to_limbs(bytes@, N as nat))
                < P::spec_modulus()),
            r matches Some(v) ==> v.wf() && v@ == limbs_val(bytes_to_limbs(bytes@, N as nat)),
    {
        let len = bytes.len();
        if len / 8 < N {
            return None;
        }
        let mut xl = zero_limbs::<N>();
        let mut i: usize = 0;
        while i < N
            invariant
                i <= N,
                len == bytes@.len(),
                len / 8 >= N,
                xl@.len() == N,
                forall|j: int| 0 <= j < i ==> xl@[j] == #[trigger] bytes_to_limbs(bytes@, N as nat)[j],
            decreases N - i,
        {
            assert(i * 8 + 8 <= len) by (nonlinear_arith)
                requires
                    i < N,
                    len / 8 >= N,
            ;
            xl[i] = word_from_bytes(bytes, i * 8);
            i = i + 1;
        }
        proof {
            assert(xl@ =~= bytes_to_limbs(bytes@, N as nat));
        }
        if Self::new_unchecked(xl).is_geq_modulus() {
            return None;
        }
        let v = Self::new(xl);
        proof {
            lemma_small_mod(limbs_val(xl@), P::spec_modulus());
        }
        Some(v)
    }
}

/// The sum of the elements, from the left.
pub open spec fn sum_of<P: FpConfig<N>, const N: usize>(s: Seq<Fp<P, N>>) -> nat
    decreases s.len(),
{
    if s.len() == 0 {
        0
    } else {
        add_mod(sum_of(s.drop_last()), s.last()@, P::spec_modulus())
    }
}

/// The product of the elements, from the left.
pub open spec fn product_of<P: FpConfig<N>, const N: usize>(s: Seq<Fp<P, N>>) -> nat
    decreases s.len(),
{
    if s.len() == 0 {
        1
    } else {
        mul_mod(product_of(s.drop_last()), s.last()@, P::spec_modulus())
    }
}

impl<P: FpConfig<N>, const N: usize> Fp<P, N> {
    /// The sum of all items; zero for none.
    pub fn sum(items: &[Self]) -> (r: Self)
        requires
            forall|i: int| 0 <= i < items@.len() ==> #[trigger] items@[i].wf(),
        ensures
            r.wf(),
            r@ == sum_of(items@),
    {
        let mut acc = Self::zero();
        let mut i: usize = 0;
        while i < items.len()
            invariant
                i <= items@.len(),
                acc.wf(),
                acc@ == sum_of(items@.subrange(0, i as int)),
                forall|j: int| 0 <= j < items@.len() ==> #[trigger] items@[j].wf(),
            decreases items@.len() - i,
        {
            proof {
                assert(items@.subrange(0, i + 1).drop_last() =~= items@.subrange(0, i as int));
            }
            acc = acc.add(items[i]);
            i = i + 1;
        }
        proof {
            assert(items@.subrange(0, items@.len() as int) =~= items@);
        }
        acc
    }

    /// The product of all items; one for none.
    pub fn product(items: &[Self]) -> (r: Self)
        requires
            forall|i: int| 0 <= i < items@.len() ==> #[trigger] items@[i].wf(),
        ensures
            r.wf(),
            r@ == product_of(items@),
    {
        let mut acc = Self::one();
        let mut i: usize = 0;
        while i < items.len()
            invariant
                i <= items@.len(),
                acc.wf(),
                acc@ == product_of(items@.subrange(0, i as int)),
                forall|j: int| 0 <= j < items@.len() ==> #[trigger] items@[j].wf(),
            decreases items@.len() - i,
        {
            proof {
                assert(items@.subrange(0, i + 1).drop_last() =~= items@.subrange(0, i as int));
            }
            acc = acc.mul(items[i]);
            i = i + 1;
        }
        proof {
            assert(items@.subrange(0, items@.len() as int) =~= items@);
        }
        acc
    }
}

/// The bits of little-endian limbs, least significant first.
pub open spec fn lsb_bits(exp: Seq<u64>) -> Seq<bool> {
    Seq::new(64 * exp.len(), |i: int| (exp[i / 64] >> ((i % 64) as u64)) & 1u64 == 1u64)
}

/// The product of the table entries at the set bits.
pub open spec fn table_product<P: FpConfig<N>, const N: usize>(table: Seq<Fp<P, N>>, bits: Seq<bool>) -> nat
    decreases bits.len(),
{
    if bits.len() == 0 {
        1
    } else {
        let prev = table_product(table, bits.drop_last());
        if bits.last() {
            mul_mod(prev, table[bits.len() - 1]@, P::spec_modulus())
        } else {
            prev
        }
    }
}

impl<P: FpConfig<N>, const N: usize> Fp<P, N> {
    /// `a^exp` from the table `powers_of_2 = [a, a^2, a^4, ...]`: the product
    /// of the entries at the set bits of `exp`; `None` when a set bit has no
    /// entry.
    pub fn pow_with_table(powers_of_2: &[Self], exp: &[u64]) -> (r: Option<Self>)
        requires
            forall|i: int| 0 <= i < powers_of_2@.len() ==> #[trigger] powers_of_2@[i].wf(),
        ensures
            r is None <==> exists|i: int|
                0 <= i < lsb_bits(exp@).len() && #[trigger] lsb_bits(exp@)[i] && i >= powers_of_2@.len(),
            r matches Some(v) ==> v.wf() && v@ == table_product(powers_of_2@, lsb_bits(exp@)),
    {
        let ghost bits = lsb_bits(exp@);
        let mut res = Self::one();
        proof {
            P::lemma_valid();
            lemma_small_mod(1, P::spec_modulus());
            assert(bits.take(0) =~= Seq::<bool>::empty());
        }
        let mut j: usize = 0;
        while j < exp.len()
            invariant
                j <= exp@.len(),
                bits == lsb_bits(exp@),
                res.wf(),
                res@ == table_product(powers_of_2@, bits.take(64 * j)),
                forall|i: int| 0 <= i < 64 * j ==> !(#[trigger] bits[i] && i >= powers_of_2@.len()),
                forall|i: int| 0 <= i < powers_of_2@.len() ==> #[trigger] powers_of_2@[i].wf(),
            decreases exp@.len() - j,
        {
            let w = exp[j];
            let mut k: u64 = 0;
            while k < 64
                invariant
                    k <= 64,
                    j < exp@.len(),
                    w == exp@[j as int],
                    bits == lsb_bits(exp@),
                    res.wf(),
                    res@ == table_product(powers_of_2@, bits.take(64 * j + k)),
                    forall|i: int| 0 <= i < 64 * j + k ==> !(#[trigger] bits[i] && i >= powers_of_2@.len()),
                    forall|i: int| 0 <= i < powers_of_2@.len() ==> #[trigger] powers_of_2@[i].wf(),
                decreases 64 - k,
            {
                let ghost at = 64 * j + k;
                proof {
                    assert(at / 64 == j as int && at % 64 == k as int) by (nonlinear_arith)
                        requires
                            at == 64 * j + k,
                            k < 64,
                    ;
                    assert(bits.take(at + 1).drop_last() =~= bits.take(at));
                    assert(bits.take(at + 1).last() == bits[at]);
                }
                if (w >> k) & 1u64 == 1u64 {
                    let idx: u128 = (j as u128) * 64 + (k as u128);
                    if idx >= powers_of_2.len() as u128 {
                        return None;
                    }
                    res = res.mul(powers_of_2[idx as usize]);
                }
                k = k + 1;
            }
            j = j + 1;
        }
        proof {
            assert(bits.take(64 * exp@.len() as int) =~= bits);
        }
        Some(res)
    }
}

impl<P: FpConfig<N>, const N: usize> PartialEq for Fp<P, N> {
    fn eq(&self, other: &Self) -> (r: bool) {
        self.equals(other)
    }
}

impl<P: FpConfig<N>, const N: usize> vstd::std_specs::cmp::PartialEqSpecImpl for Fp<P, N> {
    open spec fn obeys_eq_spec() -> bool {
        true
    }

    open spec fn eq_spec(&self, other: &Self) -> bool {
        self@ == other@
    }
}

impl<P: FpConfig<N>, const N: usize> Eq for Fp<P, N> {

}

impl<P: FpConfig<N>, const N: usize> PartialOrd for Fp<P, N> {
    fn partial_cmp(&self, other: &Self) -> (r: Option<Ordering>) {
        Some(self.cmp(other))
    }
}

impl<P: FpConfig<N>, const N: usize> vstd::std_specs::cmp::PartialOrdSpecImpl for Fp<P, N> {
    open spec fn obeys_partial_cmp_spec() -> bool {
        true
    }

    open spec fn partial_cmp_spec(&self, other: &Self) -> Option<Ordering> {
        if self@ < other@ {
            Some(Ordering::Less)
        } else if self@ == other@ {
            Some(Ordering::Equal)
        } else {
            Some(Ordering::Greater)
        }
    }
}

/// `(-y)^2 == y^2`.
pub proof fn lemma_neg_square<P: FpConfig<N>, const N: usize>(y: nat)
    requires
        y < P::spec_modulus(),
    ensures
        mul_mod(neg_mod(y, P::spec_modulus()), neg_mod(y, P::spec_modulus()), P::spec_modulus())
            == mul_mod(y, y, P::spec_modulus()),
{
    P::lemma_valid();
    let p = P::spec_modulus() as int;
    let yi = y as int;
    lemma_mul_mod_noop(p - yi, p - yi, p);
    assert((p - yi) * (p - yi) == p * (p - 2 * yi) + yi * yi) by (nonlinear_arith);
    vstd::arithmetic::div_mod::lemma_mod_multiples_vanish(p - 2 * yi, yi * yi, p);
}

/// `-(-y) == y`.
pub proof fn lemma_neg_involutive<P: FpConfig<N>, const N: usize>(y: nat)
    requires
        y < P::spec_modulus(),
    ensures
        neg_mod(neg_mod(y, P::spec_modulus()), P::spec_modulus()) == y,
{
    P::lemma_valid();
    let p = P::spec_modulus();
    if y == 0 {
        lemma_small_mod(0, p);
        vstd::arithmetic::div_mod::lemma_mod_self_0(p as int);
    } else {
        lemma_small_mod((p - y) as nat, p);
        lemma_small_mod(y, p);
    }
}


/// In a field, two values with the same square are equal or opposite.
pub proof fn lemma_square_roots<P: FpConfig<N>, const N: usize>(y: nat, s: nat)
    requires
        y < P::spec_modulus(),
        s < P::spec_modulus(),
        mul_mod(y, y, P::spec_modulus()) == mul_mod(s, s, P::spec_modulus()),
    ensures
        y == s || y == neg_mod(s, P::spec_modulus()),
{
    P::lemma_valid();
    let p = P::spec_modulus() as int;
    let (yi, si) = (y as int, s as int);
    if y != s {
        let d = yi - si;
        lemma_mod_equivalence(yi * yi, si * si, p);
        assert(yi * yi - si * si == (yi + si) * d) by (nonlinear_arith)
            requires
                d == yi - si,
        ;
        let dm = d % p;
        if d > 0 {
            lemma_small_mod(d as nat, p as nat);
        } else {
            lemma_mod_multiples_vanish(1, d, p);
            lemma_small_mod((p + d) as nat, p as nat);
        }
        assert(0 < dm < p);
        assert(has_inverse(dm, p));
        let di = choose|x: int| #[trigger] ((dm * x) % p) == 1;
        lemma_mul_mod_noop_right(yi + si, d, p);
        lemma_mul_mod_noop_left((yi + si) * dm, di, p);
        assert(0 * di == 0);
        lemma_small_mod(0, p as nat);
        assert(((yi + si) * dm) * di == (yi + si) * (dm * di)) by (nonlinear_arith);
        lemma_mul_mod_noop_right(yi + si, dm * di, p);
        assert((yi + si) * 1 == yi + si);
        assert((yi + si) % p == 0);
        if yi + si < p {
            lemma_small_mod((yi + si) as nat, p as nat);
        } else {
            lemma_mod_multiples_vanish(1, yi + si - p, p);
            lemma_small_mod((yi + si - p) as nat, p as nat);
        }
        assert(yi + si == p);
        lemma_small_mod((p - si) as nat, p as nat);
    }
}

/// `v` is a square modulo `p`.
pub open spec fn is_square(v: nat, p: nat) -> bool {
    exists|y: nat| y < p && #[trigger] mul_mod(y, y, p) == v
}

/// `v^(2^k) mod p`.
pub open spec fn pow2_mod(v: nat, k: nat, p: nat) -> nat {
    (pow(v as int, pow2(k)) % (p as int)) as nat
}

proof fn lemma_pow2_mod_zero(v: nat, p: nat)
    requires
        p > 1,
    ensures
        pow2_mod(v, 0, p) == v % p,
{
    vstd::arithmetic::power2::lemma_pow2(0);
    lemma_pow0(2);
    lemma_pow1(v as int);
}

proof fn lemma_pow2_mod_step(v: nat, k: nat, p: nat)
    requires
        p > 1,
    ensures
        pow2_mod(v, k + 1, p) == mul_mod(pow2_mod(v, k, p), pow2_mod(v, k, p), p),
{
    vstd::arithmetic::power2::lemma_pow2_unfold(k + 1);
    let e = pow2(k);
    lemma_pow_adds(v as int, e, e);
    assert(pow2(k + 1) == e + e);
    lemma_pow2_mod_nonneg(v, e);
    lemma_mul_mod_noop(pow(v as int, e), pow(v as int, e), p as int);
    if v == 0 {
        vstd::arithmetic::power2::lemma_pow2_pos(k);
        vstd::arithmetic::power::lemma0_pow(e);
        vstd::arithmetic::power::lemma0_pow(e + e);
    }
}

proof fn lemma_pow2_mod_nonneg(v: nat, e: nat)
    ensures
        pow(v as int, e) >= 0,
    decreases e,
{
    if v > 0 {
        vstd::arithmetic::power::lemma_pow_positive(v as int, e);
    } else if e > 0 {
        vstd::arithmetic::power::lemma0_pow(e);
    } else {
        lemma_pow0(0);
    }
}

proof fn lemma_pow2_mod_product(x: nat, y: nat, k: nat, p: nat)
    requires
        p > 1,
    ensures
        pow2_mod(mul_mod(x, y, p), k, p) == mul_mod(pow2_mod(x, k, p), pow2_mod(y, k, p), p),
{
    let e = pow2(k);
    lemma_pow_mod_noop((x * y) as int, e, p as int);
    vstd::arithmetic::power::lemma_pow_distributes(x as int, y as int, e);
    lemma_pow2_mod_nonneg(x, e);
    lemma_pow2_mod_nonneg(y, e);
    lemma_pow2_mod_nonneg(mul_mod(x, y, p), e);
    lemma_mul_mod_noop(pow(x as int, e), pow(y as int, e), p as int);
}

proof fn lemma_pow2_mod_compose(v: nat, j: nat, k: nat, p: nat)
    requires
        p > 1,
    ensures
        pow2_mod(pow2_mod(v, j, p), k, p) == pow2_mod(v, j + k, p),
{
    lemma_pow2_mod_nonneg(v, pow2(j));
    lemma_pow_mod_noop(pow(v as int, pow2(j)), pow2(k), p as int);
    vstd::arithmetic::power::lemma_pow_multiplies(v as int, pow2(j), pow2(k));
    vstd::arithmetic::power2::lemma_pow2_adds(j, k);
}

/// `(x w)^2 == a (b w^2)` when `x^2 == a b`.
proof fn lemma_scaled_square(x: nat, w: nat, a: nat, b: nat, p: nat)
    requires
        p > 1,
        mul_mod(x, x, p) == mul_mod(a, b, p),
    ensures
        mul_mod(mul_mod(x, w, p), mul_mod(x, w, p), p) == mul_mod(a, mul_mod(b, mul_mod(w, w, p), p), p),
{
    let pi = p as int;
    let (xi, wi, ai, bi) = (x as int, w as int, a as int, b as int);
    let ww = wi * wi;
    lemma_mul_mod_noop(xi * wi, xi * wi, pi);
    assert((xi * wi) * (xi * wi) == (xi * xi) * ww) by (nonlinear_arith)
        requires
            ww == wi * wi,
    ;
    lemma_mul_mod_noop_left(xi * xi, ww, pi);
    lemma_mul_mod_noop_left(ai * bi, ww, pi);
    lemma_mul_mod_noop_right(bi, ww, pi);
    lemma_mul_mod_noop_right(ai, bi * (ww % pi), pi);
    lemma_mul_mod_noop_right(ai, bi * ww, pi);
    assert((ai * bi) * ww == ai * (bi * ww)) by (nonlinear_arith);
}

/// With `x = w a` and `b = x w`: `x^2 == a b`.
proof fn lemma_initial_square(w: nat, a: nat, p: nat)
    requires
        p > 1,
    ensures
        mul_mod(mul_mod(w, a, p), mul_mod(w, a, p), p) == mul_mod(a, mul_mod(mul_mod(w, a, p), w, p), p),
{
    let pi = p as int;
    let (wi, ai) = (w as int, a as int);
    let xx = wi * ai;
    lemma_mul_mod_noop(xx, xx, pi);
    lemma_mod_twice(xx, pi);
    lemma_mul_mod_noop_left(xx, wi, pi);
    lemma_mul_mod_noop_right(ai, xx * wi, pi);
    assert(xx * xx == ai * (xx * wi)) by (nonlinear_arith)
        requires
            xx == wi * ai,
    ;
}

/// When `a = y^2` is a non-zero square, `b = a^(2t + 1)` (computed as
/// `(a^t a) a^t`) has `b^(2^(s-1)) == 1`, by Fermat's little theorem.
proof fn lemma_initial_trace<P: FpConfig<N>, const N: usize>(a: nat, y: nat, w0: nat, t: nat, s: nat)
    requires
        y < P::spec_modulus(),
        mul_mod(y, y, P::spec_modulus()) == a,
        a != 0,
        s >= 1,
        w0 == pow(a as int, t) % (P::spec_modulus() as int),
        (2 * t + 1) * pow2(s) == P::spec_modulus() - 1,
    ensures
        pow2_mod(
            mul_mod(mul_mod(w0, a, P::spec_modulus()), w0, P::spec_modulus()),
            (s - 1) as nat,
            P::spec_modulus(),
        ) == 1,
{
    P::lemma_valid();
    let p = P::spec_modulus();
    let pi = p as int;
    let ai = a as int;
    let big_a = pow(ai, t);
    lemma_pow2_mod_nonneg(a, t);
    // b == a^(2t+1) mod p
    lemma_mul_mod_noop_left(big_a, ai, pi);
    lemma_mod_twice(big_a * ai, pi);
    lemma_mul_mod_noop(big_a * ai, big_a, pi);
    lemma_mod_twice(big_a, pi);
    lemma_pow_adds(ai, t, t);
    lemma_pow_adds(ai, t + t, 1);
    lemma_pow1(ai);
    assert((big_a * ai) * big_a == big_a * big_a * ai) by (nonlinear_arith);
    let e = 2 * t + 1;
    assert(t + t + 1 == e);
    let b = mul_mod(mul_mod(w0, a, p), w0, p);
    assert(b as int == pow(ai, e) % pi);
    // b^(2^(s-1)) == a^((p-1)/2)
    let k = (s - 1) as nat;
    let ek = pow2(k);
    vstd::arithmetic::power2::lemma_pow2_unfold(s);
    assert(k + 1 == s);
    lemma_pow2_mod_nonneg(a, e);
    lemma_pow_mod_noop(pow(ai, e), ek, pi);
    vstd::arithmetic::power::lemma_pow_multiplies(ai, e, ek);
    let h = e * ek;
    assert(2 * h == p - 1) by (nonlinear_arith)
        requires
            h == e * ek,
            e * (2 * ek) == p - 1,
    ;
    // a^h == y^(2h) == y^(p-1) == 1
    let yi = y as int;
    if y == 0 {
        assert(y * y == 0) by (nonlinear_arith)
            requires
                y == 0,
        ;
        lemma_small_mod(0, p);
    }
    assert(y != 0);
    lemma_pow_mod_noop(yi * yi, h, pi);
    vstd::arithmetic::power::lemma_pow_distributes(yi, yi, h);
    lemma_pow_adds(yi, h, h);
    assert(h + h == (p - 1) as nat);
    assert(pow(yi, (p - 1) as nat) % pi == 1);
}

/// `(p - 1)^2 == 1` modulo `p`.
proof fn lemma_minus_one_squared(p: nat)
    requires
        p > 1,
    ensures
        mul_mod((p - 1) as nat, (p - 1) as nat, p) == 1,
{
    let pi = p as int;
    assert((pi - 1) * (pi - 1) == pi * (pi - 2) + 1) by (nonlinear_arith);
    lemma_mod_multiples_vanish(pi - 2, 1, pi);
    lemma_small_mod(1, p);
}

} // verus!
