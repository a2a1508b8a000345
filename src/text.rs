//! Decimal text of field elements and points.
use vstd::prelude::*;
use crate::fp::{Fp, FpConfig};
use crate::affine::Affine;
use crate::curve::SWCurveConfig;
use crate::limbs::{limb_base, limbs_val, lemma_limbs_val_zero, lemma_limbs_val_nonzero};

verus! {

/// The ASCII decimal digits of `v`, most significant first, without leading
/// zeros (`"0"` for zero).
pub open spec fn decimal(v: nat) -> Seq<u8>
    decreases v,
{
    if v < 10 {
        seq![(48 + v) as u8]
    } else {
        decimal(v / 10).push((48 + v % 10) as u8)
    }
}

/// The characters of ASCII bytes.
pub open spec fn ascii_chars(b: Seq<u8>) -> Seq<char> {
    Seq::new(b.len(), |i: int| b[i] as char)
}

/// Relies on `String::from_utf8`: ASCII bytes are valid UTF-8, one character
/// each.
#[verifier::external_body]
fn ascii_to_string(b: Vec<u8>) -> (r: String)
    requires
        forall|i: int| 0 <= i < b@.len() ==> b@[i] < 128,
    ensures
        r@ == ascii_chars(b@),
{
    match String::from_utf8(b) {
        Ok(s) => s,
        Err(_) => String::new(),
    }
}

/// The value of the limbs from index `i` up.
spec fn suffix_val(s: Seq<u64>, i: int) -> nat {
    limbs_val(s.subrange(i, s.len() as int))
}

proof fn lemma_suffix_step(s: Seq<u64>, i: int)
    requires
        0 <= i < s.len(),
    ensures
        suffix_val(s, i) == s[i] + limb_base() * suffix_val(s, i + 1),
{
    assert(s.subrange(i, s.len() as int).drop_first() =~= s.subrange(i + 1, s.len() as int));
}

/// Divides the limbs by ten in place and returns the remainder.
fn div_rem_10<const N: usize>(a: &mut [u64; N]) -> (r: u64)
    ensures
        r < 10,
        limbs_val(old(a)@) == 10 * limbs_val(final(a)@) + r,
{
    let ghost orig = a@;
    let mut rem: u64 = 0;
    let mut i: usize = N;
    proof {
        assert(orig.subrange(N as int, N as int) =~= Seq::<u64>::empty());
        assert(a@.subrange(N as int, N as int) =~= Seq::<u64>::empty());
    }
    while i > 0
        invariant
            i <= N,
            rem < 10,
            a@.len() == N,
            orig.len() == N,
            forall|j: int| 0 <= j < i ==> a@[j] == orig[j],
            suffix_val(orig, i as int) == 10 * suffix_val(a@, i as int) + rem,
        decreases i,
    {
        i = i - 1;
        let ghost before = a@;
        let cur: u128 = (rem as u128) * 0x1_0000_0000_0000_0000u128 + (a[i] as u128);
        let q = cur / 10;
        let new_rem = (cur % 10) as u64;
        proof {
            assert(q < limb_base()) by (nonlinear_arith)
                requires
                    q == cur / 10,
                    cur < 10 * limb_base(),
            ;
        }
        a[i] = q as u64;
        proof {
            assert(a@.subrange(i + 1, N as int) =~= before.subrange(i + 1, N as int));
            lemma_suffix_step(orig, i as int);
            lemma_suffix_step(a@, i as int);
            let sv = suffix_val(a@, i + 1);
            assert(orig[i as int] + limb_base() * (10 * sv + rem) == 10 * (q + limb_base() * sv)
                + new_rem) by (nonlinear_arith)
                requires
                    cur == rem * limb_base() + orig[i as int],
                    cur == 10 * q + new_rem,
            ;
        }
        rem = new_rem;
    }
    proof {
        assert(orig.subrange(0, N as int) =~= orig);
        assert(a@.subrange(0, N as int) =~= a@);
    }
    rem
}

/// The limbs are all zero.
fn limbs_zero<const N: usize>(a: &[u64; N]) -> (r: bool)
    ensures
        r == (limbs_val(a@) == 0),
{
    let mut i: usize = 0;
    while i < N
        invariant
            i <= N,
            forall|j: int| 0 <= j < i ==> a@[j] == 0,
        decreases N - i,
    {
        if a[i] != 0 {
            proof {
                lemma_limbs_val_nonzero(a@, i as int);
            }
            return false;
        }
        i = i + 1;
    }
    proof {
        lemma_limbs_val_zero(a@);
    }
    true
}

/// The decimal digits of the integer that the limbs stand for.
pub fn limbs_to_decimal<const N: usize>(a: &[u64; N]) -> (r: Vec<u8>)
    ensures
        r@ == decimal(limbs_val(a@)),
{
    let ghost v = limbs_val(a@);
    let mut cur = *a;
    if limbs_zero(&cur) {
        return vec![48u8];
    }
    let mut out: Vec<u8> = Vec::new();
    proof {
        assert(out@ =~= Seq::<u8>::empty());
        assert(decimal(v) + out@ =~= decimal(v));
    }
    while !limbs_zero(&cur)
        invariant
            limbs_val(cur@) == 0 ==> out@ == decimal(v),
            limbs_val(cur@) > 0 ==> decimal(v) == decimal(limbs_val(cur@)) + out@,
        decreases limbs_val(cur@),
    {
        let ghost c = limbs_val(cur@);
        let d = div_rem_10(&mut cur);
        let ghost q = limbs_val(cur@);
        out.insert(0, 48u8 + d as u8);
        proof {
            if q > 0 {
                assert(c / 10 == q && c % 10 == d) by (nonlinear_arith)
                    requires
                        c == 10 * q + d,
                        d < 10,
                ;
                assert(decimal(c) == decimal(q).push((48 + d) as u8));
                assert(decimal(q) + out@ =~= decimal(q).push((48 + d) as u8) + out@.drop_first());
            } else {
                assert(decimal(c) == seq![(48 + d) as u8]);
                assert(out@ =~= seq![(48 + d) as u8] + out@.drop_first());
            }
        }
    }
    out
}

proof fn lemma_decimal_ascii(v: nat)
    ensures
        forall|i: int| 0 <= i < decimal(v).len() ==> 48 <= #[trigger] decimal(v)[i] < 58,
    decreases v,
{
    if v >= 10 {
        lemma_decimal_ascii(v / 10);
        let d = decimal(v / 10);
        assert forall|i: int| 0 <= i < decimal(v).len() implies 48 <= #[trigger] decimal(v)[i] < 58 by {
            if i < d.len() {
                assert(decimal(v)[i] == d[i]);
            } else {
                assert(decimal(v)[i] == (48 + v % 10) as u8);
            }
        }
    } else {
        assert(decimal(v) == seq![(48 + v) as u8]);
    }
}

impl<P: FpConfig<N>, const N: usize> Fp<P, N> {
    /// The canonical integer in decimal, without leading zeros.
    pub fn to_string(&self) -> (r: String)
        ensures
            r@ == ascii_chars(decimal(self@)),
    {
        let digits = limbs_to_decimal(&self.into_bigint());
        proof {
            lemma_decimal_ascii(self@);
        }
        ascii_to_string(digits)
    }
}

/// The text of a point: `infinity`, or `(x, y)` in decimal.
pub open spec fn point_text(infinity: bool, x: nat, y: nat) -> Seq<u8> {
    if infinity {
        seq![105u8, 110, 102, 105, 110, 105, 116, 121]
    } else {
        seq![40u8] + decimal(x) + seq![44u8, 32] + decimal(y) + seq![41u8]
    }
}

impl<C: SWCurveConfig<N>, const N: usize> Affine<C, N> {
    /// `infinity`, or `(x, y)` with the coordinates in decimal.
    pub fn to_string(&self) -> (r: String)
        ensures
            r@ == ascii_chars(point_text(self.infinity, self.x@, self.y@)),
    {
        let mut out: Vec<u8> = Vec::new();
        if self.infinity {
            out = vec![105u8, 110, 102, 105, 110, 105, 116, 121];
            proof {
                assert(out@ =~= point_text(true, self.x@, self.y@));
            }
        } else {
            let mut xs = limbs_to_decimal(&self.x.into_bigint());
            let mut ys = limbs_to_decimal(&self.y.into_bigint());
            let ghost (xd, yd) = (xs@, ys@);
            out.push(40u8);
            out.append(&mut xs);
            out.push(44u8);
            out.push(32u8);
            out.append(&mut ys);
            out.push(41u8);
            proof {
                assert(out@ =~= point_text(false, self.x@, self.y@));
            }
        }
        proof {
            lemma_decimal_ascii(self.x@);
            lemma_decimal_ascii(self.y@);
            assert forall|i: int| 0 <= i < out@.len() implies out@[i] < 128 by {
                if !self.infinity {
                    let xl = decimal(self.x@).len() as int;
                    if 1 <= i < 1 + xl {
                        assert(out@[i] == decimal(self.x@)[i - 1]);
                    } else if 3 + xl <= i < out@.len() - 1 {
                        assert(out@[i] == decimal(self.y@)[i - 3 - xl]);
                    }
                }
            }
        }
        ascii_to_string(out)
    }
}

} // verus!
