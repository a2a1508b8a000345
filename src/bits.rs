//! Bit sequences of limb integers, most significant bit first, as read by
//! square-and-multiply and double-and-add.
use vstd::prelude::*;
use crate::limbs::{limb_base, limbs_val};

verus! {

/// The 64 bits of a word, most significant first.
pub open spec fn word_bits(w: u64) -> Seq<bool> {
    Seq::new(64, |k: int| (w >> ((63 - k) as u64)) & 1u64 == 1u64)
}

/// The bits of a little-endian limb sequence, most significant first.
pub open spec fn limbs_bits(s: Seq<u64>) -> Seq<bool>
    decreases s.len(),
{
    if s.len() == 0 {
        Seq::empty()
    } else {
        limbs_bits(s.drop_first()) + word_bits(s[0])
    }
}

/// The integer that a sequence of bits, most significant first, stands for.
pub open spec fn bits_val(b: Seq<bool>) -> nat
    decreases b.len(),
{
    if b.len() == 0 {
        0
    } else {
        2 * bits_val(b.drop_last()) + (if b.last() {
            1nat
        } else {
            0nat
        })
    }
}

/// Appending one bit doubles the value and adds the bit.
pub proof fn lemma_bits_val_push(b: Seq<bool>, x: bool)
    ensures
        bits_val(b.push(x)) == 2 * bits_val(b) + (if x {
            1nat
        } else {
            0nat
        }),
{
    assert(b.push(x).drop_last() =~= b);
}

proof fn lemma_word_bits_prefix(w: u64, k: nat)
    requires
        k <= 64,
    ensures
        bits_val(word_bits(w).take(k as int)) == (w >> ((64 - k) as u64)) as nat,
    decreases k,
{
    if k == 0 {
        assert(word_bits(w).take(0) =~= Seq::<bool>::empty());
        assert(w >> 64u64 == 0) by (bit_vector);
    } else {
        let km = (k - 1) as nat;
        lemma_word_bits_prefix(w, km);
        assert(word_bits(w).take(k as int) =~= word_bits(w).take(km as int).push(word_bits(w)[km as int]));
        lemma_bits_val_push(word_bits(w).take(km as int), word_bits(w)[km as int]);
        let s = (64 - k) as u64;
        assert(w >> s == 2 * (w >> ((s + 1) as u64)) + ((w >> s) & 1u64)) by (bit_vector)
            requires
                s < 64,
        ;
        assert((w >> s) & 1u64 == 0u64 || (w >> s) & 1u64 == 1u64) by (bit_vector);
    }
}

/// The bits of a word stand for the word.
pub proof fn lemma_word_bits_val(w: u64)
    ensures
        bits_val(word_bits(w)) == w,
{
    lemma_word_bits_prefix(w, 64);
    assert(word_bits(w).take(64) =~= word_bits(w));
    assert(w >> 0u64 == w) by (bit_vector);
}

proof fn lemma_bits_val_concat(a: Seq<bool>, b: Seq<bool>)
    ensures
        bits_val(a + b) == bits_val(a) * vstd::arithmetic::power2::pow2(b.len()) + bits_val(b),
    decreases b.len(),
{
    if b.len() == 0 {
        assert(a + b =~= a);
        vstd::arithmetic::power::lemma_pow0(2);
        vstd::arithmetic::power2::lemma_pow2(0);
    } else {
        vstd::arithmetic::power2::lemma_pow2_unfold(b.len());
        let bl = b.drop_last();
        lemma_bits_val_concat(a, bl);
        assert((a + b).drop_last() =~= a + bl);
        assert((a + b).last() == b.last());
        assert((a + b).len() > 0);
        let p = vstd::arithmetic::power2::pow2(bl.len());
        assert(bits_val(a) * (2 * p) + 2 * bits_val(bl) == 2 * (bits_val(a) * p + bits_val(bl)))
            by (nonlinear_arith);
    }
}

/// The bits of a limb sequence stand for its value.
pub proof fn lemma_limbs_bits_val(s: Seq<u64>)
    ensures
        bits_val(limbs_bits(s)) == limbs_val(s),
    decreases s.len(),
{
    if s.len() > 0 {
        lemma_limbs_bits_val(s.drop_first());
        lemma_bits_val_concat(limbs_bits(s.drop_first()), word_bits(s[0]));
        lemma_word_bits_val(s[0]);
        vstd::arithmetic::power2::lemma2_to64();
        assert(vstd::arithmetic::power2::pow2(64) == limb_base());
        assert(word_bits(s[0]).len() == 64);
        let r = limbs_val(s.drop_first());
        assert(r * limb_base() == limb_base() * r) by (nonlinear_arith);
    }
}

/// Taking one more limb from the top of a suffix.
pub proof fn lemma_limbs_bits_suffix(s: Seq<u64>, i: int)
    requires
        0 <= i < s.len(),
    ensures
        limbs_bits(s.subrange(i, s.len() as int)) == limbs_bits(s.subrange(i + 1, s.len() as int))
            + word_bits(s[i]),
{
    assert(s.subrange(i, s.len() as int).drop_first() =~= s.subrange(i + 1, s.len() as int));
}

} // verus!
