//! Fixed-width unsigned integers as little-endian arrays of 64-bit limbs, and
//! the Montgomery primitives of the field layer. The limb arithmetic itself is
//! delegated to `crypto_bigint`; what is stated here is the integer meaning of
//! each call.
use vstd::prelude::*;
use vstd::arithmetic::div_mod::*;
use crypto_bigint::modular::montgomery_reduction;
use crypto_bigint::{Limb, Uint};
use core::cmp::Ordering;

verus! {

/// Number of values a single 64-bit limb can take.
pub open spec fn limb_base() -> nat {
    0x1_0000_0000_0000_0000
}

/// Little-endian integer value of a sequence of 64-bit limbs.
pub open spec fn limbs_val(s: Seq<u64>) -> nat
    decreases s.len(),
{
    if s.len() == 0 {
        0
    } else {
        s[0] as nat + limb_base() * limbs_val(s.drop_first())
    }
}

/// The Montgomery radix `2^(64 * n)` of an `n`-limb integer.
pub open spec fn radix(n: nat) -> nat
    decreases n,
{
    if n == 0 {
        1
    } else {
        limb_base() * radix((n - 1) as nat)
    }
}

/// `a` has a multiplicative inverse modulo `p`.
pub open spec fn has_inverse(a: int, p: int) -> bool {
    exists|x: int| #[trigger] ((a * x) % p) == 1
}

/// `p` is an odd modulus that fits in `n` limbs, every non-zero residue of it
/// is invertible and meets Fermat's little theorem (so `p` is prime), and
/// `r_inv` is the inverse of the radix modulo `p`.
pub open spec fn valid_modulus(p: nat, n: nat, r_inv: nat) -> bool {
    &&& n > 0
    &&& p > 2
    &&& p % 2 == 1
    &&& p < radix(n)
    &&& (radix(n) * r_inv) % p == 1
    &&& forall|a: int| 0 < a < p ==> #[trigger] has_inverse(a, p as int)
    &&& forall|a: int| 0 < a < p ==> #[trigger] vstd::arithmetic::power::pow(a, (p - 1) as nat) % (p as int) == 1
}

pub proof fn lemma_limbs_val_bound(s: Seq<u64>)
    ensures
        limbs_val(s) < radix(s.len()),
    decreases s.len(),
{
    if s.len() > 0 {
        lemma_limbs_val_bound(s.drop_first());
        let rest = limbs_val(s.drop_first());
        let rr = radix((s.len() - 1) as nat);
        assert(rest + 1 <= rr);
        assert(s[0] as nat + limb_base() * rest < limb_base() * rr) by (nonlinear_arith)
            requires
                s[0] < limb_base(),
                rest + 1 <= rr,
        ;
    }
}

/// The lowest limb is the value modulo the limb base.
pub proof fn lemma_limbs_val_low(s: Seq<u64>)
    requires
        s.len() > 0,
    ensures
        limbs_val(s) % limb_base() == s[0],
{
    let rest = limbs_val(s.drop_first()) as int;
    lemma_mod_multiples_vanish(rest, s[0] as int, limb_base() as int);
    lemma_small_mod(s[0] as nat, limb_base());
}

/// A sequence whose limbs are all zero stands for zero.
pub proof fn lemma_limbs_val_zero(s: Seq<u64>)
    requires
        forall|i: int| 0 <= i < s.len() ==> s[i] == 0,
    ensures
        limbs_val(s) == 0,
    decreases s.len(),
{
    if s.len() > 0 {
        lemma_limbs_val_zero(s.drop_first());
    }
}

/// A sequence that is zero above its lowest limb stands for that limb.
pub proof fn lemma_limbs_val_single(s: Seq<u64>)
    requires
        s.len() > 0,
        forall|i: int| 1 <= i < s.len() ==> s[i] == 0,
    ensures
        limbs_val(s) == s[0],
{
    lemma_limbs_val_zero(s.drop_first());
}

/// A limb sequence with a non-zero limb above the lowest stands for at least
/// the limb base.
pub proof fn lemma_limbs_val_high(s: Seq<u64>, j: int)
    requires
        1 <= j < s.len(),
        s[j] != 0,
    ensures
        limbs_val(s) >= limb_base(),
{
    lemma_limbs_val_nonzero(s.drop_first(), j - 1);
    let rest = limbs_val(s.drop_first());
    assert(limb_base() * rest >= limb_base()) by (nonlinear_arith)
        requires
            rest >= 1,
    ;
}

/// A limb sequence with a non-zero limb stands for a positive integer.
pub proof fn lemma_limbs_val_nonzero(s: Seq<u64>, j: int)
    requires
        0 <= j < s.len(),
        s[j] != 0,
    ensures
        limbs_val(s) >= 1,
    decreases s.len(),
{
    if j > 0 {
        lemma_limbs_val_nonzero(s.drop_first(), j - 1);
        let rest = limbs_val(s.drop_first());
        assert(limb_base() * rest >= 1) by (nonlinear_arith)
            requires
                rest >= 1,
        ;
    }
}

/// Padding a limb sequence with zero limbs keeps its value.
pub proof fn lemma_limbs_val_padded(s: Seq<u64>, t: Seq<u64>)
    requires
        s.len() <= t.len(),
        forall|j: int| 0 <= j < s.len() ==> t[j] == s[j],
        forall|j: int| s.len() <= j < t.len() ==> t[j] == 0,
    ensures
        limbs_val(t) == limbs_val(s),
    decreases s.len(),
{
    if s.len() == 0 {
        lemma_limbs_val_zero(t);
    } else {
        lemma_limbs_val_padded(s.drop_first(), t.drop_first());
    }
}

/// Limb sequences of one length with one value are equal.
pub proof fn lemma_limbs_val_injective(s: Seq<u64>, t: Seq<u64>)
    requires
        s.len() == t.len(),
        limbs_val(s) == limbs_val(t),
    ensures
        s == t,
    decreases s.len(),
{
    if s.len() == 0 {
        assert(s =~= t);
    } else {
        lemma_limbs_val_low(s);
        lemma_limbs_val_low(t);
        let (rs, rt) = (limbs_val(s.drop_first()), limbs_val(t.drop_first()));
        assert(limb_base() * rs == limb_base() * rt);
        assert(rs == rt) by (nonlinear_arith)
            requires
                limb_base() * rs == limb_base() * rt,
                limb_base() > 0,
        ;
        lemma_limbs_val_injective(s.drop_first(), t.drop_first());
        assert(s =~= seq![s[0]] + s.drop_first());
        assert(t =~= seq![t[0]] + t.drop_first());
    }
}

/// Dividing the Montgomery radix back out: if `r * R == a * b` modulo `p`,
/// then `r * R^-1 == (a * R^-1) * (b * R^-1)` modulo `p`.
pub proof fn lemma_mont_product(a: int, b: int, r: int, rr: int, ri: int, p: int)
    requires
        p > 1,
        (rr * ri) % p == 1,
        (r * rr) % p == (a * b) % p,
    ensures
        (r * ri) % p == (((a * ri) % p) * ((b * ri) % p)) % p,
{
    lemma_mul_mod_noop_right(r * ri, rr * ri, p);
    assert((r * ri) * (rr * ri) == (r * rr) * (ri * ri)) by (nonlinear_arith);
    lemma_mul_mod_noop_left(r * rr, ri * ri, p);
    lemma_mul_mod_noop_left(a * b, ri * ri, p);
    assert((a * b) * (ri * ri) == (a * ri) * (b * ri)) by (nonlinear_arith);
    lemma_mul_mod_noop(a * ri, b * ri, p);
}

/// `x -> x * R^-1 mod p` is additive.
pub proof fn lemma_mont_sum(a: int, b: int, ri: int, p: int)
    requires
        p > 1,
    ensures
        ((((a + b) % p) * ri) % p) == (((a * ri) % p) + ((b * ri) % p)) % p,
{
    lemma_mul_mod_noop_left(a + b, ri, p);
    assert((a + b) * ri == a * ri + b * ri) by (nonlinear_arith);
    lemma_add_mod_noop(a * ri, b * ri, p);
}

/// `x -> x * R^-1 mod p` commutes with negation.
pub proof fn lemma_mont_neg(a: int, ri: int, p: int)
    requires
        p > 1,
        0 <= a < p,
    ensures
        ((((p - a) % p) * ri) % p) == (p - ((a * ri) % p)) % p,
{
    lemma_mul_mod_noop_left(p - a, ri, p);
    assert((p - a) * ri == p * ri + (-(a * ri))) by (nonlinear_arith);
    lemma_mod_multiples_vanish(ri, -(a * ri), p);
    let q = (a * ri) / p;
    let m = (a * ri) % p;
    lemma_fundamental_div_mod(a * ri, p);
    assert(-(a * ri) == p * (-q) + (-m)) by (nonlinear_arith)
        requires
            a * ri == p * q + m,
    ;
    lemma_mod_multiples_vanish(-q, -m, p);
    lemma_mod_multiples_vanish(1, -m, p);
}

/// Relies on `crypto_bigint::Uint::add_mod`: `(a + b) mod p` for `a, b < p`.
#[verifier::external_body]
pub(crate) fn add_mod_limbs<const N: usize>(a: &[u64; N], b: &[u64; N], p: &[u64; N]) -> (r: [u64; N])
    requires
        limbs_val(a@) < limbs_val(p@),
        limbs_val(b@) < limbs_val(p@),
    ensures
        limbs_val(r@) == (limbs_val(a@) + limbs_val(b@)) % limbs_val(p@),
{
    Uint::<N>::from_words(*a).add_mod(&Uint::from_words(*b), &Uint::from_words(*p)).to_words()
}

/// Relies on `crypto_bigint::Uint::neg_mod`: `-a mod p` for `a < p`.
#[verifier::external_body]
pub(crate) fn neg_mod_limbs<const N: usize>(a: &[u64; N], p: &[u64; N]) -> (r: [u64; N])
    requires
        limbs_val(a@) < limbs_val(p@),
    ensures
        limbs_val(r@) == (limbs_val(p@) - limbs_val(a@)) % (limbs_val(p@) as int),
{
    Uint::<N>::from_words(*a).neg_mod(&Uint::from_words(*p)).to_words()
}

/// Relies on `crypto_bigint::Uint::mul_wide`: the full double-width product,
/// low half first.
#[verifier::external_body]
pub(crate) fn mul_wide_limbs<const N: usize>(a: &[u64; N], b: &[u64; N]) -> (r: ([u64; N], [u64; N]))
    ensures
        limbs_val(r.0@) + radix(N as nat) * limbs_val(r.1@) == limbs_val(a@) * limbs_val(b@),
{
    let (lo, hi) = Uint::<N>::from_words(*a).mul_wide(&Uint::<N>::from_words(*b));
    (lo.to_words(), hi.to_words())
}

/// Relies on `crypto_bigint::modular::montgomery_reduction` (REDC): for an odd
/// modulus `p` with `inv == -p^-1 mod 2^64` and a double-width input
/// `t < p * R`, a value below `p` congruent to `t * R^-1`.
#[verifier::external_body]
pub(crate) fn montgomery_reduce_limbs<const N: usize>(
    lo: &[u64; N],
    hi: &[u64; N],
    p: &[u64; N],
    inv: u64,
) -> (r: [u64; N])
    requires
        N > 0,
        limbs_val(p@) % 2 == 1,
        ((p@[0] as int) * (inv as int) + 1) % (limb_base() as int) == 0,
        limbs_val(lo@) + radix(N as nat) * limbs_val(hi@) < limbs_val(p@) * radix(N as nat),
    ensures
        limbs_val(r@) < limbs_val(p@),
        (limbs_val(r@) * radix(N as nat)) % limbs_val(p@) == (limbs_val(lo@) + radix(
            N as nat,
        ) * limbs_val(hi@)) % limbs_val(p@),
{
    let wide = (Uint::<N>::from_words(*lo), Uint::<N>::from_words(*hi));
    montgomery_reduction(&wide, &Uint::from_words(*p), Limb(inv)).to_words()
}

/// Relies on `crypto_bigint::Uint::inv_mod2k_vartime` with `k = 64` on a
/// one-limb integer: for an odd word `w`, its inverse modulo `2^64`.
#[verifier::external_body]
pub(crate) fn inv_word_mod_2_64(w: u64) -> (r: u64)
    requires
        w % 2 == 1,
    ensures
        ((w as int) * (r as int)) % (limb_base() as int) == 1,
{
    Uint::<1>::from_word(w).inv_mod2k_vartime(64).as_words()[0]
}

/// Relies on `crypto_bigint::Uint::const_rem_wide`: the remainder of the
/// double-width integer `lo + R * hi` by a non-zero `p`.
#[verifier::external_body]
pub(crate) fn rem_wide_limbs<const N: usize>(lo: &[u64; N], hi: &[u64; N], p: &[u64; N]) -> (r: [u64; N])
    requires
        limbs_val(p@) > 0,
    ensures
        limbs_val(r@) == (limbs_val(lo@) + radix(N as nat) * limbs_val(hi@)) % limbs_val(p@),
{
    let (rem, _) = Uint::<N>::const_rem_wide((Uint::from_words(*lo), Uint::from_words(*hi)), &Uint::from_words(*p));
    rem.to_words()
}

/// Relies on `crypto_bigint::Uint::inv_odd_mod`: for an odd modulus, reports
/// whether `a` is invertible and, if so, gives an inverse.
#[verifier::external_body]
pub(crate) fn inv_odd_mod_limbs<const N: usize>(a: &[u64; N], p: &[u64; N]) -> (r: ([u64; N], bool))
    requires
        limbs_val(p@) % 2 == 1,
        limbs_val(p@) > 1,
        limbs_val(a@) < limbs_val(p@),
    ensures
        r.1 <==> has_inverse(limbs_val(a@) as int, limbs_val(p@) as int),
        r.1 ==> (limbs_val(a@) * limbs_val(r.0@)) % limbs_val(p@) == 1,
{
    let (v, found) = Uint::<N>::from_words(*a).inv_odd_mod(&Uint::from_words(*p));
    (v.to_words(), bool::from(found))
}

/// Relies on the `Ord` of `crypto_bigint::Uint`: comparison as integers.
#[verifier::external_body]
pub(crate) fn cmp_limbs<const N: usize>(a: &[u64; N], b: &[u64; N]) -> (r: Ordering)
    ensures
        (r == Ordering::Less) == (limbs_val(a@) < limbs_val(b@)),
        (r == Ordering::Equal) == (limbs_val(a@) == limbs_val(b@)),
        (r == Ordering::Greater) == (limbs_val(a@) > limbs_val(b@)),
{
    Uint::<N>::from_words(*a).cmp(&Uint::from_words(*b))
}

/// Relies on `zeroize::Zeroize` for arrays: every limb is overwritten with zero
/// by writes the compiler may not elide.
#[verifier::external_body]
pub(crate) fn zeroize_limbs<const N: usize>(a: &mut [u64; N])
    ensures
        final(a)@.len() == N,
        forall|i: int| 0 <= i < N ==> final(a)@[i] == 0,
{
    zeroize::Zeroize::zeroize(a)
}

/// Montgomery multiplication: for `a, b < p`, a value below `p` congruent to
/// `a * b * R^-1`.
pub fn mont_mul<const N: usize>(a: &[u64; N], b: &[u64; N], p: &[u64; N], inv: u64) -> (r: [u64; N])
    requires
        N > 0,
        limbs_val(p@) % 2 == 1,
        limbs_val(p@) < radix(N as nat),
        ((p@[0] as int) * (inv as int) + 1) % (limb_base() as int) == 0,
        limbs_val(a@) < radix(N as nat),
        limbs_val(b@) < limbs_val(p@),
    ensures
        limbs_val(r@) < limbs_val(p@),
        (limbs_val(r@) * radix(N as nat)) % limbs_val(p@) == (limbs_val(a@) * limbs_val(b@)) % limbs_val(p@),
{
    let (lo, hi) = mul_wide_limbs(a, b);
    proof {
        let va = limbs_val(a@);
        let vb = limbs_val(b@);
        let vp = limbs_val(p@);
        let rr = radix(N as nat);
        assert(va * vb < vp * rr) by (nonlinear_arith)
            requires
                va < rr,
                vb < vp,
        ;
    }
    montgomery_reduce_limbs(&lo, &hi, p, inv)
}

} // verus!
