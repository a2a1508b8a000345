//! Compressed point encoding: the canonical `x` as little-endian 64-bit
//! words, eight bytes each, followed by one flag byte (0: `y` is the smaller
//! root, 1: `y` is the larger root, 2: the point at infinity, with `x = 0`).
use vstd::prelude::*;
use crate::fp::{Fp, FpConfig, neg_mod};
use crate::affine::{Affine, SWFlags};
use crate::curve::{
    SWCurveConfig, base_modulus, has_point_at, in_prime_subgroup, is_in_correct_subgroup_assuming_on_curve,
    jac_of_affine,
};
use crate::limbs::limbs_val;
use crate::bits::limbs_bits;

verus! {

/// Why a compressed encoding was rejected.
#[derive(Clone, Copy, PartialEq, Eq, Structural, Debug)]
pub enum DecodeError {
    /// The input is not `8 N + 1` bytes long.
    WrongLength,
    /// The flag byte is none of 0, 1 and 2.
    UnknownFlag,
    /// The `x` coordinate is not below the modulus.
    CoordinateNotReduced,
    /// The infinity flag comes with a non-zero `x`.
    NonZeroInfinity,
    /// No curve point has this `x` coordinate.
    NoPointAtX,
    /// The point is outside the prime-order subgroup.
    NotInSubgroup,
}

/// The little-endian word of eight bytes.
pub open spec fn word_from_le_bytes(b: Seq<u8>) -> u64 {
    (b[0] as u64) | ((b[1] as u64) << 8u64) | ((b[2] as u64) << 16u64) | ((b[3] as u64) << 24u64) | ((
    b[4] as u64) << 32u64) | ((b[5] as u64) << 40u64) | ((b[6] as u64) << 48u64) | ((b[7] as u64)
        << 56u64)
}

/// The words of a byte string, eight bytes each.
pub open spec fn bytes_to_limbs(b: Seq<u8>, n: nat) -> Seq<u64> {
    Seq::new(n, |i: int| word_from_le_bytes(b.subrange(8 * i, 8 * i + 8)))
}

/// The flag byte of a flag.
pub open spec fn flag_byte(f: SWFlags) -> u8 {
    match f {
        SWFlags::YIsPositive => 0,
        SWFlags::YIsNegative => 1,
        SWFlags::PointAtInfinity => 2,
    }
}

/// The flag of a point: infinity, or which root its `y` is.
pub open spec fn point_flag<C: SWCurveConfig<N>, const N: usize>(pt: Affine<C, N>) -> SWFlags {
    if pt.infinity {
        SWFlags::PointAtInfinity
    } else if pt.y@ <= neg_mod(pt.y@, base_modulus::<C, N>()) {
        SWFlags::YIsPositive
    } else {
        SWFlags::YIsNegative
    }
}

fn word_to_le_bytes(w: u64, out: &mut Vec<u8>)
    ensures
        final(out)@.len() == old(out)@.len() + 8,
        final(out)@.subrange(0, old(out)@.len() as int) == old(out)@,
        word_from_le_bytes(final(out)@.subrange(old(out)@.len() as int, old(out)@.len() as int + 8)) == w,
{
    let b0 = (w & 0xff) as u8;
    let b1 = ((w >> 8u64) & 0xff) as u8;
    let b2 = ((w >> 16u64) & 0xff) as u8;
    let b3 = ((w >> 24u64) & 0xff) as u8;
    let b4 = ((w >> 32u64) & 0xff) as u8;
    let b5 = ((w >> 40u64) & 0xff) as u8;
    let b6 = ((w >> 48u64) & 0xff) as u8;
    let b7 = ((w >> 56u64) & 0xff) as u8;
    let ghost start = out@.len() as int;
    out.push(b0);
    out.push(b1);
    out.push(b2);
    out.push(b3);
    out.push(b4);
    out.push(b5);
    out.push(b6);
    out.push(b7);
    proof {
        let s = out@.subrange(start, start + 8);
        assert(s =~= seq![b0, b1, b2, b3, b4, b5, b6, b7]);
        assert(w == ((((w & 0xff) as u8) as u64) | ((((w >> 8u64) & 0xff) as u8) as u64) << 8u64 | (
        (((w >> 16u64) & 0xff) as u8) as u64) << 16u64 | ((((w >> 24u64) & 0xff) as u8) as u64)
            << 24u64 | ((((w >> 32u64) & 0xff) as u8) as u64) << 32u64 | ((((w >> 40u64) & 0xff) as u8)
            as u64) << 40u64 | ((((w >> 48u64) & 0xff) as u8) as u64) << 48u64 | ((((w >> 56u64)
            & 0xff) as u8) as u64) << 56u64)) by (bit_vector);
        assert(out@.subrange(0, start) =~= old(out)@);
    }
}

/// The little-endian word of the eight bytes from `start`.
pub(crate) fn word_from_bytes(b: &[u8], start: usize) -> (r: u64)
    requires
        start + 8 <= b@.len(),
    ensures
        r == word_from_le_bytes(b@.subrange(start as int, start + 8)),
{
    (b[start] as u64) | ((b[start + 1] as u64) << 8u64) | ((b[start + 2] as u64) << 16u64) | ((b[start
        + 3] as u64) << 24u64) | ((b[start + 4] as u64) << 32u64) | ((b[start + 5] as u64) << 40u64) | ((
    b[start + 6] as u64) << 48u64) | ((b[start + 7] as u64) << 56u64)
}

/// The compressed encoding of a point.
pub fn serialize_compressed<C: SWCurveConfig<N>, const N: usize>(pt: &Affine<C, N>) -> (r: Vec<u8>)
    requires
        pt.wf(),
        N * 8 + 1 <= usize::MAX,
    ensures
        r@.len() == 8 * N + 1,
        limbs_val(bytes_to_limbs(r@, N as nat)) == (if pt.infinity { 0 } else { pt.x@ }),
        r@[8 * N as int] == flag_byte(point_flag::<C, N>(*pt)),
{
    let xl = if pt.infinity {
        Fp::<C::BaseConfig, N>::zero().into_bigint()
    } else {
        pt.x.into_bigint()
    };
    let mut out: Vec<u8> = Vec::new();
    let mut i: usize = 0;
    while i < N
        invariant
            i <= N,
            N * 8 + 1 <= usize::MAX,
            out@.len() == 8 * i,
            forall|j: int| 0 <= j < i ==> word_from_le_bytes(#[trigger] out@.subrange(8 * j, 8 * j + 8)) == xl@[j],
        decreases N - i,
    {
        let ghost before = out@;
        word_to_le_bytes(xl[i], &mut out);
        proof {
            assert forall|j: int| 0 <= j < i + 1 implies word_from_le_bytes(
                #[trigger] out@.subrange(8 * j, 8 * j + 8),
            ) == xl@[j] by {
                if j < i {
                    assert(out@.subrange(8 * j, 8 * j + 8) =~= before.subrange(8 * j, 8 * j + 8));
                }
            }
        }
        i = i + 1;
    }
    let flag = match pt.to_flags() {
        SWFlags::YIsPositive => 0u8,
        SWFlags::YIsNegative => 1u8,
        SWFlags::PointAtInfinity => 2u8,
    };
    let ghost body = out@;
    out.push(flag);
    proof {
        assert(bytes_to_limbs(out@, N as nat) =~= xl@) by {
            assert forall|j: int| 0 <= j < N implies #[trigger] bytes_to_limbs(out@, N as nat)[j] == xl@[j] by {
                assert(out@.subrange(8 * j, 8 * j + 8) =~= body.subrange(8 * j, 8 * j + 8));
            }
        }
    }
    out
}

/// `pt` is a point that the `8 N + 1` bytes stand for: on the curve, with
/// the encoded `x` (or the identity under the infinity flag) and the `y`
/// that the flag selects.
pub open spec fn decodes_to<C: SWCurveConfig<N>, const N: usize>(bytes: Seq<u8>, pt: Affine<C, N>) -> bool {
    let flag = bytes[8 * N as int];
    let xv = limbs_val(bytes_to_limbs(bytes, N as nat));
    &&& pt.wf() && pt.is_canonical() && pt.is_on_curve_spec()
    &&& pt.infinity == (flag == 2)
    &&& !pt.infinity ==> pt.x@ == xv
    &&& flag_byte(point_flag::<C, N>(pt)) == flag || pt.y@ == neg_mod(pt.y@, base_modulus::<C, N>())
}

/// The bytes are a well-formed encoding of some point: the right length, a
/// known flag, a reduced `x` that is zero under the infinity flag and has a
/// curve point otherwise.
pub open spec fn well_formed_encoding<C: SWCurveConfig<N>, const N: usize>(bytes: Seq<u8>) -> bool {
    let flag = bytes[8 * N as int];
    let xv = limbs_val(bytes_to_limbs(bytes, N as nat));
    &&& bytes.len() == 8 * N + 1
    &&& flag <= 2
    &&& xv < base_modulus::<C, N>()
    &&& flag == 2 ==> xv == 0
    &&& flag <= 1 ==> has_point_at::<C, N>(xv)
}

/// The outcome of decoding `bytes`, the subgroup checked when
/// `check_subgroup` holds.
pub open spec fn decode_result<C: SWCurveConfig<N>, const N: usize>(
    bytes: Seq<u8>,
    check_subgroup: bool,
    r: Result<Affine<C, N>, DecodeError>,
) -> bool {
    let p = base_modulus::<C, N>();
    if bytes.len() != 8 * N + 1 {
        r == Err::<Affine<C, N>, DecodeError>(DecodeError::WrongLength)
    } else {
        let flag = bytes[8 * N as int];
        let xv = limbs_val(bytes_to_limbs(bytes, N as nat));
        &&& flag > 2 ==> r == Err::<Affine<C, N>, DecodeError>(DecodeError::UnknownFlag)
        &&& (flag <= 2 && xv >= p) ==> r == Err::<Affine<C, N>, DecodeError>(DecodeError::CoordinateNotReduced)
        &&& (flag == 2 && xv < p && xv != 0) ==> r == Err::<Affine<C, N>, DecodeError>(
            DecodeError::NonZeroInfinity,
        )
        &&& (flag <= 1 && xv < p) ==> (r == Err::<Affine<C, N>, DecodeError>(DecodeError::NoPointAtX)
            <==> !has_point_at::<C, N>(xv))
        &&& (flag <= 2 && xv < p && (flag == 2 ==> xv == 0) && (flag <= 1 ==> has_point_at::<C, N>(xv)))
            ==> (r is Ok || r == Err::<Affine<C, N>, DecodeError>(DecodeError::NotInSubgroup))
        &&& r matches Ok(pt) ==> {
            &&& decodes_to::<C, N>(bytes, pt)
            &&& check_subgroup ==> in_prime_subgroup::<C, N>(jac_of_affine(pt.x@, pt.y@, pt.infinity))
        }
        &&& r == Err::<Affine<C, N>, DecodeError>(DecodeError::NotInSubgroup) ==> {
            &&& check_subgroup
            &&& exists|q: Affine<C, N>|
                #[trigger] decodes_to::<C, N>(bytes, q) && !in_prime_subgroup::<C, N>(
                    jac_of_affine(q.x@, q.y@, q.infinity),
                )
        }
    }
}

/// Decodes a compressed encoding, rejecting malformed input; the subgroup is
/// checked when `check_subgroup` holds.
pub fn deserialize_compressed<C: SWCurveConfig<N>, const N: usize>(bytes: &[u8], check_subgroup: bool) -> (r:
    Result<Affine<C, N>, DecodeError>)
    ensures
        decode_result::<C, N>(bytes@, check_subgroup, r),
{
    proof {
        <C::BaseConfig as FpConfig<N>>::lemma_valid();
    }
    let len = bytes.len();
    if len == 0 || (len - 1) % 8 != 0 || (len - 1) / 8 != N {
        return Err(DecodeError::WrongLength);
    }
    let flag = bytes[len - 1];
    if flag > 2 {
        return Err(DecodeError::UnknownFlag);
    }
    let mut xl = Fp::<C::BaseConfig, N>::zero().0;
    let mut i: usize = 0;
    while i < N
        invariant
            i <= N,
            bytes@.len() == 8 * N + 1,
            len == bytes@.len(),
            xl@.len() == N,
            forall|j: int| 0 <= j < i ==> xl@[j] == #[trigger] bytes_to_limbs(bytes@, N as nat)[j],
        decreases N - i,
    {
        assert(i * 8 + 8 <= 8 * N) by (nonlinear_arith)
            requires
                i < N,
        ;
        xl[i] = word_from_bytes(bytes, i * 8);
        i = i + 1;
    }
    proof {
        assert(xl@ =~= bytes_to_limbs(bytes@, N as nat));
    }
    if Fp::<C::BaseConfig, N>::new_unchecked(xl).is_geq_modulus() {
        return Err(DecodeError::CoordinateNotReduced);
    }
    let x = Fp::<C::BaseConfig, N>::new(xl);
    proof {
        vstd::arithmetic::div_mod::lemma_small_mod(limbs_val(xl@), base_modulus::<C, N>());
    }
    let pt = if flag == 2 {
        if !x.is_zero() {
            return Err(DecodeError::NonZeroInfinity);
        }
        Affine::identity()
    } else {
        match Affine::<C, N>::get_point_from_x_unchecked(x, flag == 1) {
            Some(pt) => pt,
            None => {
                return Err(DecodeError::NoPointAtX);
            },
        }
    };
    proof {
        crate::curve::lemma_mul_identity::<C, N>(limbs_bits(C::spec_scalar_modulus()));
        assert(decodes_to::<C, N>(bytes@, pt));
    }
    if check_subgroup && !is_in_correct_subgroup_assuming_on_curve::<C, N>(&pt) {
        return Err(DecodeError::NotInSubgroup);
    }
    Ok(pt)
}

} // verus!
