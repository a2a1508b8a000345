//! Algebraic laws of the field and of the curve group, stated over the same
//! spec functions that the operations' contracts use.
use vstd::prelude::*;
use vstd::arithmetic::div_mod::{
    lemma_add_mod_noop, lemma_mod_self_0, lemma_mod_twice, lemma_mul_mod_noop, lemma_mul_mod_noop_right,
    lemma_small_mod, lemma_mod_bound,
};
use crate::fp::{Fp, FpConfig, add_mod, mul_mod, neg_mod};
use crate::curve::{
    Jac, SWCurveConfig, SWCurveGenerator, base_modulus, jac_add, jac_double, jac_identity, jac_mul_bits, jac_neg,
    jac_of_affine, represents, in_prime_subgroup, on_curve,
};
use crate::affine::Affine;
use crate::projective::{lemma_inv_product, lemma_unscale};
use crate::bits::{limbs_bits, word_bits};
use crate::encoding::{
    DecodeError, bytes_to_limbs, decode_result, decodes_to, flag_byte, point_flag, well_formed_encoding,
};
use crate::limbs::{has_inverse, limbs_val, lemma_mont_neg};

verus! {

/// Field axioms for reduced values: zero and one are identities, every value
/// has an opposite, every non-zero value an inverse, and addition and
/// multiplication are associative, with multiplication distributing over
/// addition.
pub proof fn lemma_field_axioms<P: FpConfig<N>, const N: usize>(a: nat, b: nat, c: nat)
    requires
        a < P::spec_modulus(),
        b < P::spec_modulus(),
        c < P::spec_modulus(),
    ensures
        add_mod(a, 0, P::spec_modulus()) == a,
        mul_mod(a, 1, P::spec_modulus()) == a,
        add_mod(a, neg_mod(a, P::spec_modulus()), P::spec_modulus()) == 0,
        a != 0 ==> exists|i: nat| i < P::spec_modulus() && #[trigger] mul_mod(a, i, P::spec_modulus()) == 1,
        add_mod(add_mod(a, b, P::spec_modulus()), c, P::spec_modulus()) == add_mod(
            a,
            add_mod(b, c, P::spec_modulus()),
            P::spec_modulus(),
        ),
        mul_mod(mul_mod(a, b, P::spec_modulus()), c, P::spec_modulus()) == mul_mod(
            a,
            mul_mod(b, c, P::spec_modulus()),
            P::spec_modulus(),
        ),
        mul_mod(a, add_mod(b, c, P::spec_modulus()), P::spec_modulus()) == add_mod(
            mul_mod(a, b, P::spec_modulus()),
            mul_mod(a, c, P::spec_modulus()),
            P::spec_modulus(),
        ),
{
    P::lemma_valid();
    let p = P::spec_modulus() as int;
    let (ai, bi, ci) = (a as int, b as int, c as int);
    lemma_small_mod(a, p as nat);
    // opposite
    if a == 0 {
        lemma_mod_self_0(p);
        lemma_small_mod(0, p as nat);
    } else {
        lemma_small_mod((p - ai) as nat, p as nat);
        lemma_mod_self_0(p);
    }
    // inverse
    if a != 0 {
        assert(has_inverse(ai, p));
        let x = choose|x: int| #[trigger] ((ai * x) % p) == 1;
        let i = x % p;
        lemma_mul_mod_noop_right(ai, x, p);
        assert(mul_mod(a, i as nat, p as nat) == 1);
    }
    // associativity of addition
    lemma_add_mod_noop(ai + bi, ci, p);
    lemma_add_mod_noop(ai, bi + ci, p);
    lemma_mod_twice(ai + bi, p);
    lemma_mod_twice(bi + ci, p);
    lemma_small_mod(c, p as nat);
    assert((ai + bi) + ci == ai + (bi + ci));
    // associativity of multiplication
    lemma_mul_mod_noop(ai * bi, ci, p);
    lemma_mul_mod_noop(ai, bi * ci, p);
    lemma_mod_twice(ai * bi, p);
    lemma_mod_twice(bi * ci, p);
    assert((ai * bi) * ci == ai * (bi * ci)) by (nonlinear_arith);
    // distributivity
    lemma_mul_mod_noop(ai, bi + ci, p);
    lemma_mod_twice(bi + ci, p);
    assert(ai * (bi + ci) == ai * bi + ai * ci) by (nonlinear_arith);
    lemma_add_mod_noop(ai * bi, ai * ci, p);
}

/// Reducing an integer below the modulus into the field (an element `e` with
/// `e@ == r mod p`, as `Fp::new` gives) and reading back its canonical limbs
/// (as `Fp::into_bigint` gives) yields the very same limbs.
pub proof fn lemma_montgomery_round_trip<P: FpConfig<N>, const N: usize>(
    r: [u64; N],
    e: Fp<P, N>,
    back: [u64; N],
)
    requires
        limbs_val(r@) < P::spec_modulus(),
        e@ == limbs_val(r@) % P::spec_modulus(),
        limbs_val(back@) == e@,
    ensures
        back == r,
{
    lemma_small_mod(limbs_val(r@), P::spec_modulus());
    crate::limbs::lemma_limbs_val_injective(back@, r@);
    assert(back@ =~= r@);
    vstd::array::axiom_array_ext_equal(back, r);
}

/// The identity is neutral on both sides (a point with `Z = 0` other than
/// `(1, 1, 0)` comes back in that form).
pub proof fn lemma_add_identity<C: SWCurveConfig<N>, const N: usize>(pt: Jac)
    requires
        pt.2 != 0 || pt == jac_identity(),
    ensures
        jac_add::<C, N>(pt, jac_identity()) == pt,
        jac_add::<C, N>(jac_identity(), pt) == pt,
{
}

/// Doubling a point is adding it to itself.
pub proof fn lemma_double_is_self_add<C: SWCurveConfig<N>, const N: usize>(pt: Jac)
    ensures
        jac_add::<C, N>(pt, pt) == jac_double::<C, N>(pt),
{
}

/// A point plus its negation is the identity (a point with `Z = 0`).
pub proof fn lemma_add_neg<C: SWCurveConfig<N>, const N: usize>(pt: Jac)
    requires
        pt.0 < base_modulus::<C, N>(),
        pt.1 < base_modulus::<C, N>(),
        pt.2 < base_modulus::<C, N>(),
    ensures
        jac_add::<C, N>(pt, jac_neg::<C, N>(pt)).2 == 0,
{
    <C::BaseConfig as FpConfig<N>>::lemma_valid();
    let p = base_modulus::<C, N>() as int;
    if pt.2 != 0 {
        let (y, z) = (pt.1 as int, pt.2 as int);
        let t = (y * z) % p;
        let zz = (z * z) % p;
        let s1 = (t * zz) % p;
        let s2 = ((((p - y) % p) * z) % p * zz) % p;
        lemma_mont_neg(y, z, p);
        lemma_mod_bound(y * z, p);
        lemma_mont_neg(t, zz, p);
        if s1 == s2 {
            lemma_mod_bound(t * zz, p);
            if s1 != 0 {
                lemma_small_mod((p - s1) as nat, p as nat);
            }
            assert(s1 == 0);
            assert(has_inverse(z, p));
            let zi = choose|x: int| #[trigger] ((z * x) % p) == 1;
            let zizi = (zi * zi) % p;
            lemma_inv_product(z, zi, z, zi, p);
            assert(zizi * zz == zz * zizi) by (nonlinear_arith);
            lemma_unscale(t, zizi, zz, p);
            assert(0 * zizi == 0);
            lemma_small_mod(0, p as nat);
            assert(t == 0);
        }
    }
}

proof fn lemma_zero_word_bits(k: int)
    requires
        0 <= k < 64,
    ensures
        !word_bits(0)[k],
{
    let sh = (63 - k) as u64;
    assert((0u64 >> sh) & 1u64 == 0u64) by (bit_vector);
}

proof fn lemma_mul_zero_bits<C: SWCurveConfig<N>, const N: usize>(base: Jac, bits: Seq<bool>)
    requires
        forall|k: int| 0 <= k < bits.len() ==> !#[trigger] bits[k],
    ensures
        jac_mul_bits::<C, N>(base, bits) == jac_identity(),
    decreases bits.len(),
{
    if bits.len() > 0 {
        lemma_mul_zero_bits::<C, N>(base, bits.drop_last());
    }
}

proof fn lemma_zero_limbs_bits(s: Seq<u64>)
    requires
        forall|i: int| 0 <= i < s.len() ==> s[i] == 0,
    ensures
        forall|k: int| 0 <= k < limbs_bits(s).len() ==> !#[trigger] limbs_bits(s)[k],
    decreases s.len(),
{
    if s.len() > 0 {
        lemma_zero_limbs_bits(s.drop_first());
        let hi = limbs_bits(s.drop_first());
        assert forall|k: int| 0 <= k < limbs_bits(s).len() implies !#[trigger] limbs_bits(s)[k] by {
            if k >= hi.len() {
                lemma_zero_word_bits(k - hi.len());
            }
        }
    }
}

/// Multiplying any point by zero gives the identity.
pub proof fn lemma_mul_by_zero<C: SWCurveConfig<N>, const N: usize>(base: Jac, scalar: Seq<u64>)
    requires
        limbs_val(scalar) == 0,
    ensures
        jac_mul_bits::<C, N>(base, limbs_bits(scalar)) == jac_identity(),
{
    assert forall|i: int| 0 <= i < scalar.len() implies scalar[i] == 0 by {
        if scalar[i] != 0 {
            crate::limbs::lemma_limbs_val_nonzero(scalar, i);
        }
    }
    lemma_zero_limbs_bits(scalar);
    lemma_mul_zero_bits::<C, N>(base, limbs_bits(scalar));
}

/// Multiplying any point by one gives the point back.
pub proof fn lemma_mul_by_one<C: SWCurveConfig<N>, const N: usize>(base: Jac, scalar: Seq<u64>)
    requires
        limbs_val(scalar) == 1,
    ensures
        jac_mul_bits::<C, N>(base, limbs_bits(scalar)) == base,
{
    assert(scalar.len() > 0);
    assert forall|i: int| 1 <= i < scalar.len() implies scalar[i] == 0 by {
        if scalar[i] != 0 {
            crate::limbs::lemma_limbs_val_high(scalar, i);
        }
    }
    crate::limbs::lemma_limbs_val_single(scalar);
    let rest = scalar.drop_first();
    lemma_zero_limbs_bits(rest);
    let hi = limbs_bits(rest);
    let bits = limbs_bits(scalar);
    assert(bits == hi + word_bits(1));
    assert forall|k: int| 0 <= k < 63 implies !#[trigger] word_bits(1)[k] by {
        let sh = (63 - k) as u64;
        assert(sh >= 1 ==> (1u64 >> sh) & 1u64 == 0u64) by (bit_vector);
    }
    assert(word_bits(1)[63]) by {
        assert((1u64 >> 0u64) & 1u64 == 1u64) by (bit_vector);
    }
    let front = bits.drop_last();
    assert forall|k: int| 0 <= k < front.len() implies !#[trigger] front[k] by {
        if k >= hi.len() {
            assert(front[k] == word_bits(1)[k - hi.len()]);
        } else {
            assert(front[k] == hi[k]);
        }
    }
    lemma_mul_zero_bits::<C, N>(base, front);
}

/// Converting an affine point to projective coordinates and normalizing it
/// again gives the point back.
pub proof fn lemma_coordinate_round_trip<C: SWCurveConfig<N>, const N: usize>(
    a: Affine<C, N>,
    r: Affine<C, N>,
)
    requires
        a.wf(),
        r.wf(),
        a.is_canonical(),
        represents::<C, N>(r, jac_of_affine(a.x@, a.y@, a.infinity)),
    ensures
        r.infinity == a.infinity,
        r.x@ == a.x@,
        r.y@ == a.y@,
{
    <C::BaseConfig as FpConfig<N>>::lemma_valid();
    let p = base_modulus::<C, N>();
    if !a.infinity {
        lemma_small_mod(1, p);
        lemma_small_mod(r.x@, p);
        lemma_small_mod(r.y@, p);
        assert(r.x@ * 1 == r.x@);
        assert(r.y@ * 1 == r.y@);
    }
}

/// The encoding of a valid point is well formed, and the only point it
/// decodes to is the point itself.
proof fn lemma_encoding_of_valid_point<C: SWCurveConfig<N>, const N: usize>(pt: Affine<C, N>, bytes: Seq<u8>)
    requires
        pt.wf(),
        pt.is_canonical(),
        pt.is_on_curve_spec(),
        bytes.len() == 8 * N + 1,
        limbs_val(bytes_to_limbs(bytes, N as nat)) == (if pt.infinity { 0 } else { pt.x@ }),
        bytes[8 * N as int] == flag_byte(point_flag::<C, N>(pt)),
    ensures
        well_formed_encoding::<C, N>(bytes),
        forall|q: Affine<C, N>| #[trigger] decodes_to::<C, N>(bytes, q) ==> q.infinity == pt.infinity
            && q.x@ == pt.x@ && q.y@ == pt.y@,
{
    <C::BaseConfig as FpConfig<N>>::lemma_valid();
    let p = base_modulus::<C, N>();
    if !pt.infinity {
        assert(on_curve::<C, N>(pt.x@, pt.y@));
    }
    assert forall|q: Affine<C, N>| #[trigger] decodes_to::<C, N>(bytes, q) implies q.infinity == pt.infinity
        && q.x@ == pt.x@ && q.y@ == pt.y@ by {
        if !pt.infinity {
            crate::fp::lemma_square_roots::<C::BaseConfig, N>(q.y@, pt.y@);
            crate::fp::lemma_neg_involutive::<C::BaseConfig, N>(pt.y@);
            crate::fp::lemma_neg_involutive::<C::BaseConfig, N>(q.y@);
        }
    }
}

/// Decoding the compressed encoding of a valid point (in the prime-order
/// subgroup when the subgroup is checked) gives that point back.
pub proof fn lemma_compressed_round_trip<C: SWCurveConfig<N>, const N: usize>(
    pt: Affine<C, N>,
    bytes: Seq<u8>,
    check_subgroup: bool,
    r: Result<Affine<C, N>, DecodeError>,
)
    requires
        pt.wf(),
        pt.is_canonical(),
        pt.is_on_curve_spec(),
        check_subgroup ==> in_prime_subgroup::<C, N>(jac_of_affine(pt.x@, pt.y@, pt.infinity)),
        bytes.len() == 8 * N + 1,
        limbs_val(bytes_to_limbs(bytes, N as nat)) == (if pt.infinity { 0 } else { pt.x@ }),
        bytes[8 * N as int] == flag_byte(point_flag::<C, N>(pt)),
        decode_result::<C, N>(bytes, check_subgroup, r),
    ensures
        r matches Ok(q) && q.infinity == pt.infinity && q.x@ == pt.x@ && q.y@ == pt.y@,
{
    lemma_encoding_of_valid_point::<C, N>(pt, bytes);
    if r == Err::<Affine<C, N>, DecodeError>(DecodeError::NotInSubgroup) {
        let q = choose|q: Affine<C, N>|
            #[trigger] decodes_to::<C, N>(bytes, q) && !in_prime_subgroup::<C, N>(jac_of_affine(q.x@, q.y@, q.infinity));
        assert(decodes_to::<C, N>(bytes, q));
    }
}

/// `Affine::from_random_bytes` on the compressed encoding of a valid point
/// gives that point back.
pub proof fn lemma_random_bytes_round_trip<C: SWCurveConfig<N>, const N: usize>(
    pt: Affine<C, N>,
    bytes: Seq<u8>,
    r: Option<Affine<C, N>>,
)
    requires
        pt.wf(),
        pt.is_canonical(),
        pt.is_on_curve_spec(),
        bytes.len() == 8 * N + 1,
        limbs_val(bytes_to_limbs(bytes, N as nat)) == (if pt.infinity { 0 } else { pt.x@ }),
        bytes[8 * N as int] == flag_byte(point_flag::<C, N>(pt)),
        r is Some <==> well_formed_encoding::<C, N>(bytes),
        r matches Some(q) ==> decodes_to::<C, N>(bytes, q),
    ensures
        r matches Some(q) && q.infinity == pt.infinity && q.x@ == pt.x@ && q.y@ == pt.y@,
{
    lemma_encoding_of_valid_point::<C, N>(pt, bytes);
}

/// The subgroup order times the generator is the identity (a point with
/// `Z = 0`), as `Affine::mul_bigint` computes it.
pub proof fn lemma_generator_times_order<C: SWCurveGenerator<N>, const N: usize>(g: Affine<C, N>)
    requires
        (g.x@, g.y@) == C::spec_generator(),
        !g.infinity,
    ensures
        jac_mul_bits::<C, N>(jac_of_affine(g.x@, g.y@, g.infinity), limbs_bits(C::spec_scalar_modulus())).2 == 0,
{
    C::lemma_generator_order();
}

} // verus!
