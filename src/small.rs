//! Small prime fields and two curves over one of them, of the sizes used to
//! work field and group-law examples by hand.
use vstd::prelude::*;
use vstd::arithmetic::power::pow;
use vstd::arithmetic::power2::{pow2, lemma_pow2};
use crate::fp::{Fp, FpConfig, add_mod, mul_mod, sub_mod};
use crate::affine::Affine;
use crate::curve::{
    Jac, SWCurveConfig, SWCurveGenerator, base_modulus, jac_add, jac_double, lemma_mul_bits_step, lemma_mul_bits_zero_prefix,
};
use crate::bits::{limbs_bits, word_bits};
use crate::limbs::{has_inverse, limb_base, limbs_val, radix};

verus! {

/// The field of integers modulo 17, in a single limb. `2^64 = 1 (mod 17)`,
/// so the Montgomery radix is one.
#[derive(Clone, Copy, Hash, Debug)]
pub struct F17Config;

/// Elements of the field of integers modulo 17.
pub type F17 = Fp<F17Config, 1>;

/// `a^e mod p`, reducing after every factor.
spec fn pow_mod_iter(a: nat, e: nat, p: nat) -> nat
    decreases e,
{
    if e == 0 {
        1nat % p
    } else {
        (pow_mod_iter(a, (e - 1) as nat, p) * a) % p
    }
}

proof fn lemma_pow_mod_iter(a: nat, e: nat, p: nat)
    requires
        p > 1,
    ensures
        pow(a as int, e) % (p as int) == pow_mod_iter(a, e, p) as int,
    decreases e,
{
    reveal(pow);
    if e > 0 {
        lemma_pow_mod_iter(a, (e - 1) as nat, p);
        vstd::arithmetic::div_mod::lemma_mul_mod_noop_left(pow(a as int, (e - 1) as nat), a as int, p as int);
        assert(pow(a as int, e) == a * pow(a as int, (e - 1) as nat));
        assert(a * pow(a as int, (e - 1) as nat) == pow(a as int, (e - 1) as nat) * a) by (nonlinear_arith);
    }
}

/// Fermat's little theorem modulo 17, residue by residue.
#[verifier::rlimit(80)]
proof fn lemma_fermat_17(a: nat)
    requires
        0 < a < 17,
    ensures
        pow_mod_iter(a, 16, 17) == 1,
{
    if a == 1 {
        assert(pow_mod_iter(1, 0, 17) == 1);
        assert(pow_mod_iter(1, 1, 17) == 1);
        assert(pow_mod_iter(1, 2, 17) == 1);
        assert(pow_mod_iter(1, 3, 17) == 1);
        assert(pow_mod_iter(1, 4, 17) == 1);
        assert(pow_mod_iter(1, 5, 17) == 1);
        assert(pow_mod_iter(1, 6, 17) == 1);
        assert(pow_mod_iter(1, 7, 17) == 1);
        assert(pow_mod_iter(1, 8, 17) == 1);
        assert(pow_mod_iter(1, 9, 17) == 1);
        assert(pow_mod_iter(1, 10, 17) == 1);
        assert(pow_mod_iter(1, 11, 17) == 1);
        assert(pow_mod_iter(1, 12, 17) == 1);
        assert(pow_mod_iter(1, 13, 17) == 1);
        assert(pow_mod_iter(1, 14, 17) == 1);
        assert(pow_mod_iter(1, 15, 17) == 1);
        assert(pow_mod_iter(1, 16, 17) == 1);
    } else if a == 2 {
        assert(pow_mod_iter(2, 0, 17) == 1);
        assert(pow_mod_iter(2, 1, 17) == 2);
        assert(pow_mod_iter(2, 2, 17) == 4);
        assert(pow_mod_iter(2, 3, 17) == 8);
        assert(pow_mod_iter(2, 4, 17) == 16);
        assert(pow_mod_iter(2, 5, 17) == 15);
        assert(pow_mod_iter(2, 6, 17) == 13);
        assert(pow_mod_iter(2, 7, 17) == 9);
        assert(pow_mod_iter(2, 8, 17) == 1);
        assert(pow_mod_iter(2, 9, 17) == 2);
        assert(pow_mod_iter(2, 10, 17) == 4);
        assert(pow_mod_iter(2, 11, 17) == 8);
        assert(pow_mod_iter(2, 12, 17) == 16);
        assert(pow_mod_iter(2, 13, 17) == 15);
        assert(pow_mod_iter(2, 14, 17) == 13);
        assert(pow_mod_iter(2, 15, 17) == 9);
        assert(pow_mod_iter(2, 16, 17) == 1);
    } else if a == 3 {
        assert(pow_mod_iter(3, 0, 17) == 1);
        assert(pow_mod_iter(3, 1, 17) == 3);
        assert(pow_mod_iter(3, 2, 17) == 9);
        assert(pow_mod_iter(3, 3, 17) == 10);
        assert(pow_mod_iter(3, 4, 17) == 13);
        assert(pow_mod_iter(3, 5, 17) == 5);
        assert(pow_mod_iter(3, 6, 17) == 15);
        assert(pow_mod_iter(3, 7, 17) == 11);
        assert(pow_mod_iter(3, 8, 17) == 16);
        assert(pow_mod_iter(3, 9, 17) == 14);
        assert(pow_mod_iter(3, 10, 17) == 8);
        assert(pow_mod_iter(3, 11, 17) == 7);
        assert(pow_mod_iter(3, 12, 17) == 4);
        assert(pow_mod_iter(3, 13, 17) == 12);
        assert(pow_mod_iter(3, 14, 17) == 2);
        assert(pow_mod_iter(3, 15, 17) == 6);
        assert(pow_mod_iter(3, 16, 17) == 1);
    } else if a == 4 {
        assert(pow_mod_iter(4, 0, 17) == 1);
        assert(pow_mod_iter(4, 1, 17) == 4);
        assert(pow_mod_iter(4, 2, 17) == 16);
        assert(pow_mod_iter(4, 3, 17) == 13);
        assert(pow_mod_iter(4, 4, 17) == 1);
        assert(pow_mod_iter(4, 5, 17) == 4);
        assert(pow_mod_iter(4, 6, 17) == 16);
        assert(pow_mod_iter(4, 7, 17) == 13);
        assert(pow_mod_iter(4, 8, 17) == 1);
        assert(pow_mod_iter(4, 9, 17) == 4);
        assert(pow_mod_iter(4, 10, 17) == 16);
        assert(pow_mod_iter(4, 11, 17) == 13);
        assert(pow_mod_iter(4, 12, 17) == 1);
        assert(pow_mod_iter(4, 13, 17) == 4);
        assert(pow_mod_iter(4, 14, 17) == 16);
        assert(pow_mod_iter(4, 15, 17) == 13);
        assert(pow_mod_iter(4, 16, 17) == 1);
    } else if a == 5 {
        assert(pow_mod_iter(5, 0, 17) == 1);
        assert(pow_mod_iter(5, 1, 17) == 5);
        assert(pow_mod_iter(5, 2, 17) == 8);
        assert(pow_mod_iter(5, 3, 17) == 6);
        assert(pow_mod_iter(5, 4, 17) == 13);
        assert(pow_mod_iter(5, 5, 17) == 14);
        assert(pow_mod_iter(5, 6, 17) == 2);
        assert(pow_mod_iter(5, 7, 17) == 10);
        assert(pow_mod_iter(5, 8, 17) == 16);
        assert(pow_mod_iter(5, 9, 17) == 12);
        assert(pow_mod_iter(5, 10, 17) == 9);
        assert(pow_mod_iter(5, 11, 17) == 11);
        assert(pow_mod_iter(5, 12, 17) == 4);
        assert(pow_mod_iter(5, 13, 17) == 3);
        assert(pow_mod_iter(5, 14, 17) == 15);
        assert(pow_mod_iter(5, 15, 17) == 7);
        assert(pow_mod_iter(5, 16, 17) == 1);
    } else if a == 6 {
        assert(pow_mod_iter(6, 0, 17) == 1);
        assert(pow_mod_iter(6, 1, 17) == 6);
        assert(pow_mod_iter(6, 2, 17) == 2);
        assert(pow_mod_iter(6, 3, 17) == 12);
        assert(pow_mod_iter(6, 4, 17) == 4);
        assert(pow_mod_iter(6, 5, 17) == 7);
        assert(pow_mod_iter(6, 6, 17) == 8);
        assert(pow_mod_iter(6, 7, 17) == 14);
        assert(pow_mod_iter(6, 8, 17) == 16);
        assert(pow_mod_iter(6, 9, 17) == 11);
        assert(pow_mod_iter(6, 10, 17) == 15);
        assert(pow_mod_iter(6, 11, 17) == 5);
        assert(pow_mod_iter(6, 12, 17) == 13);
        assert(pow_mod_iter(6, 13, 17) == 10);
        assert(pow_mod_iter(6, 14, 17) == 9);
        assert(pow_mod_iter(6, 15, 17) == 3);
        assert(pow_mod_iter(6, 16, 17) == 1);
    } else if a == 7 {
        assert(pow_mod_iter(7, 0, 17) == 1);
        assert(pow_mod_iter(7, 1, 17) == 7);
        assert(pow_mod_iter(7, 2, 17) == 15);
        assert(pow_mod_iter(7, 3, 17) == 3);
        assert(pow_mod_iter(7, 4, 17) == 4);
        assert(pow_mod_iter(7, 5, 17) == 11);
        assert(pow_mod_iter(7, 6, 17) == 9);
        assert(pow_mod_iter(7, 7, 17) == 12);
        assert(pow_mod_iter(7, 8, 17) == 16);
        assert(pow_mod_iter(7, 9, 17) == 10);
        assert(pow_mod_iter(7, 10, 17) == 2);
        assert(pow_mod_iter(7, 11, 17) == 14);
        assert(pow_mod_iter(7, 12, 17) == 13);
        assert(pow_mod_iter(7, 13, 17) == 6);
        assert(pow_mod_iter(7, 14, 17) == 8);
        assert(pow_mod_iter(7, 15, 17) == 5);
        assert(pow_mod_iter(7, 16, 17) == 1);
    } else if a == 8 {
        assert(pow_mod_iter(8, 0, 17) == 1);
        assert(pow_mod_iter(8, 1, 17) == 8);
        assert(pow_mod_iter(8, 2, 17) == 13);
        assert(pow_mod_iter(8, 3, 17) == 2);
        assert(pow_mod_iter(8, 4, 17) == 16);
        assert(pow_mod_iter(8, 5, 17) == 9);
        assert(pow_mod_iter(8, 6, 17) == 4);
        assert(pow_mod_iter(8, 7, 17) == 15);
        assert(pow_mod_iter(8, 8, 17) == 1);
        assert(pow_mod_iter(8, 9, 17) == 8);
        assert(pow_mod_iter(8, 10, 17) == 13);
        assert(pow_mod_iter(8, 11, 17) == 2);
        assert(pow_mod_iter(8, 12, 17) == 16);
        assert(pow_mod_iter(8, 13, 17) == 9);
        assert(pow_mod_iter(8, 14, 17) == 4);
        assert(pow_mod_iter(8, 15, 17) == 15);
        assert(pow_mod_iter(8, 16, 17) == 1);
    } else if a == 9 {
        assert(pow_mod_iter(9, 0, 17) == 1);
        assert(pow_mod_iter(9, 1, 17) == 9);
        assert(pow_mod_iter(9, 2, 17) == 13);
        assert(pow_mod_iter(9, 3, 17) == 15);
        assert(pow_mod_iter(9, 4, 17) == 16);
        assert(pow_mod_iter(9, 5, 17) == 8);
        assert(pow_mod_iter(9, 6, 17) == 4);
        assert(pow_mod_iter(9, 7, 17) == 2);
        assert(pow_mod_iter(9, 8, 17) == 1);
        assert(pow_mod_iter(9, 9, 17) == 9);
        assert(pow_mod_iter(9, 10, 17) == 13);
        assert(pow_mod_iter(9, 11, 17) == 15);
        assert(pow_mod_iter(9, 12, 17) == 16);
        assert(pow_mod_iter(9, 13, 17) == 8);
        assert(pow_mod_iter(9, 14, 17) == 4);
        assert(pow_mod_iter(9, 15, 17) == 2);
        assert(pow_mod_iter(9, 16, 17) == 1);
    } else if a == 10 {
        assert(pow_mod_iter(10, 0, 17) == 1);
        assert(pow_mod_iter(10, 1, 17) == 10);
        assert(pow_mod_iter(10, 2, 17) == 15);
        assert(pow_mod_iter(10, 3, 17) == 14);
        assert(pow_mod_iter(10, 4, 17) == 4);
        assert(pow_mod_iter(10, 5, 17) == 6);
        assert(pow_mod_iter(10, 6, 17) == 9);
        assert(pow_mod_iter(10, 7, 17) == 5);
        assert(pow_mod_iter(10, 8, 17) == 16);
        assert(pow_mod_iter(10, 9, 17) == 7);
        assert(pow_mod_iter(10, 10, 17) == 2);
        assert(pow_mod_iter(10, 11, 17) == 3);
        assert(pow_mod_iter(10, 12, 17) == 13);
        assert(pow_mod_iter(10, 13, 17) == 11);
        assert(pow_mod_iter(10, 14, 17) == 8);
        assert(pow_mod_iter(10, 15, 17) == 12);
        assert(pow_mod_iter(10, 16, 17) == 1);
    } else if a == 11 {
        assert(pow_mod_iter(11, 0, 17) == 1);
        assert(pow_mod_iter(11, 1, 17) == 11);
        assert(pow_mod_iter(11, 2, 17) == 2);
        assert(pow_mod_iter(11, 3, 17) == 5);
        assert(pow_mod_iter(11, 4, 17) == 4);
        assert(pow_mod_iter(11, 5, 17) == 10);
        assert(pow_mod_iter(11, 6, 17) == 8);
        assert(pow_mod_iter(11, 7, 17) == 3);
        assert(pow_mod_iter(11, 8, 17) == 16);
        assert(pow_mod_iter(11, 9, 17) == 6);
        assert(pow_mod_iter(11, 10, 17) == 15);
        assert(pow_mod_iter(11, 11, 17) == 12);
        assert(pow_mod_iter(11, 12, 17) == 13);
        assert(pow_mod_iter(11, 13, 17) == 7);
        assert(pow_mod_iter(11, 14, 17) == 9);
        assert(pow_mod_iter(11, 15, 17) == 14);
        assert(pow_mod_iter(11, 16, 17) == 1);
    } else if a == 12 {
        assert(pow_mod_iter(12, 0, 17) == 1);
        assert(pow_mod_iter(12, 1, 17) == 12);
        assert(pow_mod_iter(12, 2, 17) == 8);
        assert(pow_mod_iter(12, 3, 17) == 11);
        assert(pow_mod_iter(12, 4, 17) == 13);
        assert(pow_mod_iter(12, 5, 17) == 3);
        assert(pow_mod_iter(12, 6, 17) == 2);
        assert(pow_mod_iter(12, 7, 17) == 7);
        assert(pow_mod_iter(12, 8, 17) == 16);
        assert(pow_mod_iter(12, 9, 17) == 5);
        assert(pow_mod_iter(12, 10, 17) == 9);
        assert(pow_mod_iter(12, 11, 17) == 6);
        assert(pow_mod_iter(12, 12, 17) == 4);
        assert(pow_mod_iter(12, 13, 17) == 14);
        assert(pow_mod_iter(12, 14, 17) == 15);
        assert(pow_mod_iter(12, 15, 17) == 10);
        assert(pow_mod_iter(12, 16, 17) == 1);
    } else if a == 13 {
        assert(pow_mod_iter(13, 0, 17) == 1);
        assert(pow_mod_iter(13, 1, 17) == 13);
        assert(pow_mod_iter(13, 2, 17) == 16);
        assert(pow_mod_iter(13, 3, 17) == 4);
        assert(pow_mod_iter(13, 4, 17) == 1);
        assert(pow_mod_iter(13, 5, 17) == 13);
        assert(pow_mod_iter(13, 6, 17) == 16);
        assert(pow_mod_iter(13, 7, 17) == 4);
        assert(pow_mod_iter(13, 8, 17) == 1);
        assert(pow_mod_iter(13, 9, 17) == 13);
        assert(pow_mod_iter(13, 10, 17) == 16);
        assert(pow_mod_iter(13, 11, 17) == 4);
        assert(pow_mod_iter(13, 12, 17) == 1);
        assert(pow_mod_iter(13, 13, 17) == 13);
        assert(pow_mod_iter(13, 14, 17) == 16);
        assert(pow_mod_iter(13, 15, 17) == 4);
        assert(pow_mod_iter(13, 16, 17) == 1);
    } else if a == 14 {
        assert(pow_mod_iter(14, 0, 17) == 1);
        assert(pow_mod_iter(14, 1, 17) == 14);
        assert(pow_mod_iter(14, 2, 17) == 9);
        assert(pow_mod_iter(14, 3, 17) == 7);
        assert(pow_mod_iter(14, 4, 17) == 13);
        assert(pow_mod_iter(14, 5, 17) == 12);
        assert(pow_mod_iter(14, 6, 17) == 15);
        assert(pow_mod_iter(14, 7, 17) == 6);
        assert(pow_mod_iter(14, 8, 17) == 16);
        assert(pow_mod_iter(14, 9, 17) == 3);
        assert(pow_mod_iter(14, 10, 17) == 8);
        assert(pow_mod_iter(14, 11, 17) == 10);
        assert(pow_mod_iter(14, 12, 17) == 4);
        assert(pow_mod_iter(14, 13, 17) == 5);
        assert(pow_mod_iter(14, 14, 17) == 2);
        assert(pow_mod_iter(14, 15, 17) == 11);
        assert(pow_mod_iter(14, 16, 17) == 1);
    } else if a == 15 {
        assert(pow_mod_iter(15, 0, 17) == 1);
        assert(pow_mod_iter(15, 1, 17) == 15);
        assert(pow_mod_iter(15, 2, 17) == 4);
        assert(pow_mod_iter(15, 3, 17) == 9);
        assert(pow_mod_iter(15, 4, 17) == 16);
        assert(pow_mod_iter(15, 5, 17) == 2);
        assert(pow_mod_iter(15, 6, 17) == 13);
        assert(pow_mod_iter(15, 7, 17) == 8);
        assert(pow_mod_iter(15, 8, 17) == 1);
        assert(pow_mod_iter(15, 9, 17) == 15);
        assert(pow_mod_iter(15, 10, 17) == 4);
        assert(pow_mod_iter(15, 11, 17) == 9);
        assert(pow_mod_iter(15, 12, 17) == 16);
        assert(pow_mod_iter(15, 13, 17) == 2);
        assert(pow_mod_iter(15, 14, 17) == 13);
        assert(pow_mod_iter(15, 15, 17) == 8);
        assert(pow_mod_iter(15, 16, 17) == 1);
    } else if a == 16 {
        assert(pow_mod_iter(16, 0, 17) == 1);
        assert(pow_mod_iter(16, 1, 17) == 16);
        assert(pow_mod_iter(16, 2, 17) == 1);
        assert(pow_mod_iter(16, 3, 17) == 16);
        assert(pow_mod_iter(16, 4, 17) == 1);
        assert(pow_mod_iter(16, 5, 17) == 16);
        assert(pow_mod_iter(16, 6, 17) == 1);
        assert(pow_mod_iter(16, 7, 17) == 16);
        assert(pow_mod_iter(16, 8, 17) == 1);
        assert(pow_mod_iter(16, 9, 17) == 16);
        assert(pow_mod_iter(16, 10, 17) == 1);
        assert(pow_mod_iter(16, 11, 17) == 16);
        assert(pow_mod_iter(16, 12, 17) == 1);
        assert(pow_mod_iter(16, 13, 17) == 16);
        assert(pow_mod_iter(16, 14, 17) == 1);
        assert(pow_mod_iter(16, 15, 17) == 16);
        assert(pow_mod_iter(16, 16, 17) == 1);
    }
}

/// Fermat's little theorem modulo 19, residue by residue.
proof fn lemma_fermat_19(a: nat)
    requires
        0 < a < 19,
    ensures
        pow_mod_iter(a, 18, 19) == 1,
{
    if a < 7 {
        lemma_fermat_19_from_1(a);
    } else if a < 13 {
        lemma_fermat_19_from_7(a);
    } else {
        lemma_fermat_19_from_13(a);
    }
}

proof fn lemma_fermat_19_from_1(a: nat)
    requires
        1 <= a < 7,
    ensures
        pow_mod_iter(a, 18, 19) == 1,
{
    if a == 1 {
        assert(pow_mod_iter(1, 0, 19) == 1);
        assert(pow_mod_iter(1, 1, 19) == 1);
        assert(pow_mod_iter(1, 2, 19) == 1);
        assert(pow_mod_iter(1, 3, 19) == 1);
        assert(pow_mod_iter(1, 4, 19) == 1);
        assert(pow_mod_iter(1, 5, 19) == 1);
        assert(pow_mod_iter(1, 6, 19) == 1);
        assert(pow_mod_iter(1, 7, 19) == 1);
        assert(pow_mod_iter(1, 8, 19) == 1);
        assert(pow_mod_iter(1, 9, 19) == 1);
        assert(pow_mod_iter(1, 10, 19) == 1);
        assert(pow_mod_iter(1, 11, 19) == 1);
        assert(pow_mod_iter(1, 12, 19) == 1);
        assert(pow_mod_iter(1, 13, 19) == 1);
        assert(pow_mod_iter(1, 14, 19) == 1);
        assert(pow_mod_iter(1, 15, 19) == 1);
        assert(pow_mod_iter(1, 16, 19) == 1);
        assert(pow_mod_iter(1, 17, 19) == 1);
        assert(pow_mod_iter(1, 18, 19) == 1);
    } else if a == 2 {
        assert(pow_mod_iter(2, 0, 19) == 1);
        assert(pow_mod_iter(2, 1, 19) == 2);
        assert(pow_mod_iter(2, 2, 19) == 4);
        assert(pow_mod_iter(2, 3, 19) == 8);
        assert(pow_mod_iter(2, 4, 19) == 16);
        assert(pow_mod_iter(2, 5, 19) == 13);
        assert(pow_mod_iter(2, 6, 19) == 7);
        assert(pow_mod_iter(2, 7, 19) == 14);
        assert(pow_mod_iter(2, 8, 19) == 9);
        assert(pow_mod_iter(2, 9, 19) == 18);
        assert(pow_mod_iter(2, 10, 19) == 17);
        assert(pow_mod_iter(2, 11, 19) == 15);
        assert(pow_mod_iter(2, 12, 19) == 11);
        assert(pow_mod_iter(2, 13, 19) == 3);
        assert(pow_mod_iter(2, 14, 19) == 6);
        assert(pow_mod_iter(2, 15, 19) == 12);
        assert(pow_mod_iter(2, 16, 19) == 5);
        assert(pow_mod_iter(2, 17, 19) == 10);
        assert(pow_mod_iter(2, 18, 19) == 1);
    } else if a == 3 {
        assert(pow_mod_iter(3, 0, 19) == 1);
        assert(pow_mod_iter(3, 1, 19) == 3);
        assert(pow_mod_iter(3, 2, 19) == 9);
        assert(pow_mod_iter(3, 3, 19) == 8);
        assert(pow_mod_iter(3, 4, 19) == 5);
        assert(pow_mod_iter(3, 5, 19) == 15);
        assert(pow_mod_iter(3, 6, 19) == 7);
        assert(pow_mod_iter(3, 7, 19) == 2);
        assert(pow_mod_iter(3, 8, 19) == 6);
        assert(pow_mod_iter(3, 9, 19) == 18);
        assert(pow_mod_iter(3, 10, 19) == 16);
        assert(pow_mod_iter(3, 11, 19) == 10);
        assert(pow_mod_iter(3, 12, 19) == 11);
        assert(pow_mod_iter(3, 13, 19) == 14);
        assert(pow_mod_iter(3, 14, 19) == 4);
        assert(pow_mod_iter(3, 15, 19) == 12);
        assert(pow_mod_iter(3, 16, 19) == 17);
        assert(pow_mod_iter(3, 17, 19) == 13);
        assert(pow_mod_iter(3, 18, 19) == 1);
    } else if a == 4 {
        assert(pow_mod_iter(4, 0, 19) == 1);
        assert(pow_mod_iter(4, 1, 19) == 4);
        assert(pow_mod_iter(4, 2, 19) == 16);
        assert(pow_mod_iter(4, 3, 19) == 7);
        assert(pow_mod_iter(4, 4, 19) == 9);
        assert(pow_mod_iter(4, 5, 19) == 17);
        assert(pow_mod_iter(4, 6, 19) == 11);
        assert(pow_mod_iter(4, 7, 19) == 6);
        assert(pow_mod_iter(4, 8, 19) == 5);
        assert(pow_mod_iter(4, 9, 19) == 1);
        assert(pow_mod_iter(4, 10, 19) == 4);
        assert(pow_mod_iter(4, 11, 19) == 16);
        assert(pow_mod_iter(4, 12, 19) == 7);
        assert(pow_mod_iter(4, 13, 19) == 9);
        assert(pow_mod_iter(4, 14, 19) == 17);
        assert(pow_mod_iter(4, 15, 19) == 11);
        assert(pow_mod_iter(4, 16, 19) == 6);
        assert(pow_mod_iter(4, 17, 19) == 5);
        assert(pow_mod_iter(4, 18, 19) == 1);
    } else if a == 5 {
        assert(pow_mod_iter(5, 0, 19) == 1);
        assert(pow_mod_iter(5, 1, 19) == 5);
        assert(pow_mod_iter(5, 2, 19) == 6);
        assert(pow_mod_iter(5, 3, 19) == 11);
        assert(pow_mod_iter(5, 4, 19) == 17);
        assert(pow_mod_iter(5, 5, 19) == 9);
        assert(pow_mod_iter(5, 6, 19) == 7);
        assert(pow_mod_iter(5, 7, 19) == 16);
        assert(pow_mod_iter(5, 8, 19) == 4);
        assert(pow_mod_iter(5, 9, 19) == 1);
        assert(pow_mod_iter(5, 10, 19) == 5);
        assert(pow_mod_iter(5, 11, 19) == 6);
        assert(pow_mod_iter(5, 12, 19) == 11);
        assert(pow_mod_iter(5, 13, 19) == 17);
        assert(pow_mod_iter(5, 14, 19) == 9);
        assert(pow_mod_iter(5, 15, 19) == 7);
        assert(pow_mod_iter(5, 16, 19) == 16);
        assert(pow_mod_iter(5, 17, 19) == 4);
        assert(pow_mod_iter(5, 18, 19) == 1);
    } else if a == 6 {
        assert(pow_mod_iter(6, 0, 19) == 1);
        assert(pow_mod_iter(6, 1, 19) == 6);
        assert(pow_mod_iter(6, 2, 19) == 17);
        assert(pow_mod_iter(6, 3, 19) == 7);
        assert(pow_mod_iter(6, 4, 19) == 4);
        assert(pow_mod_iter(6, 5, 19) == 5);
        assert(pow_mod_iter(6, 6, 19) == 11);
        assert(pow_mod_iter(6, 7, 19) == 9);
        assert(pow_mod_iter(6, 8, 19) == 16);
        assert(pow_mod_iter(6, 9, 19) == 1);
        assert(pow_mod_iter(6, 10, 19) == 6);
        assert(pow_mod_iter(6, 11, 19) == 17);
        assert(pow_mod_iter(6, 12, 19) == 7);
        assert(pow_mod_iter(6, 13, 19) == 4);
        assert(pow_mod_iter(6, 14, 19) == 5);
        assert(pow_mod_iter(6, 15, 19) == 11);
        assert(pow_mod_iter(6, 16, 19) == 9);
        assert(pow_mod_iter(6, 17, 19) == 16);
        assert(pow_mod_iter(6, 18, 19) == 1);
    }
}

proof fn lemma_fermat_19_from_7(a: nat)
    requires
        7 <= a < 13,
    ensures
        pow_mod_iter(a, 18, 19) == 1,
{
    if a == 7 {
        assert(pow_mod_iter(7, 0, 19) == 1);
        assert(pow_mod_iter(7, 1, 19) == 7);
        assert(pow_mod_iter(7, 2, 19) == 11);
        assert(pow_mod_iter(7, 3, 19) == 1);
        assert(pow_mod_iter(7, 4, 19) == 7);
        assert(pow_mod_iter(7, 5, 19) == 11);
        assert(pow_mod_iter(7, 6, 19) == 1);
        assert(pow_mod_iter(7, 7, 19) == 7);
        assert(pow_mod_iter(7, 8, 19) == 11);
        assert(pow_mod_iter(7, 9, 19) == 1);
        assert(pow_mod_iter(7, 10, 19) == 7);
        assert(pow_mod_iter(7, 11, 19) == 11);
        assert(pow_mod_iter(7, 12, 19) == 1);
        assert(pow_mod_iter(7, 13, 19) == 7);
        assert(pow_mod_iter(7, 14, 19) == 11);
        assert(pow_mod_iter(7, 15, 19) == 1);
        assert(pow_mod_iter(7, 16, 19) == 7);
        assert(pow_mod_iter(7, 17, 19) == 11);
        assert(pow_mod_iter(7, 18, 19) == 1);
    } else if a == 8 {
        assert(pow_mod_iter(8, 0, 19) == 1);
        assert(pow_mod_iter(8, 1, 19) == 8);
        assert(pow_mod_iter(8, 2, 19) == 7);
        assert(pow_mod_iter(8, 3, 19) == 18);
        assert(pow_mod_iter(8, 4, 19) == 11);
        assert(pow_mod_iter(8, 5, 19) == 12);
        assert(pow_mod_iter(8, 6, 19) == 1);
        assert(pow_mod_iter(8, 7, 19) == 8);
        assert(pow_mod_iter(8, 8, 19) == 7);
        assert(pow_mod_iter(8, 9, 19) == 18);
        assert(pow_mod_iter(8, 10, 19) == 11);
        assert(pow_mod_iter(8, 11, 19) == 12);
        assert(pow_mod_iter(8, 12, 19) == 1);
        assert(pow_mod_iter(8, 13, 19) == 8);
        assert(pow_mod_iter(8, 14, 19) == 7);
        assert(pow_mod_iter(8, 15, 19) == 18);
        assert(pow_mod_iter(8, 16, 19) == 11);
        assert(pow_mod_iter(8, 17, 19) == 12);
        assert(pow_mod_iter(8, 18, 19) == 1);
    } else if a == 9 {
        assert(pow_mod_iter(9, 0, 19) == 1);
        assert(pow_mod_iter(9, 1, 19) == 9);
        assert(pow_mod_iter(9, 2, 19) == 5);
        assert(pow_mod_iter(9, 3, 19) == 7);
        assert(pow_mod_iter(9, 4, 19) == 6);
        assert(pow_mod_iter(9, 5, 19) == 16);
        assert(pow_mod_iter(9, 6, 19) == 11);
        assert(pow_mod_iter(9, 7, 19) == 4);
        assert(pow_mod_iter(9, 8, 19) == 17);
        assert(pow_mod_iter(9, 9, 19) == 1);
        assert(pow_mod_iter(9, 10, 19) == 9);
        assert(pow_mod_iter(9, 11, 19) == 5);
        assert(pow_mod_iter(9, 12, 19) == 7);
        assert(pow_mod_iter(9, 13, 19) == 6);
        assert(pow_mod_iter(9, 14, 19) == 16);
        assert(pow_mod_iter(9, 15, 19) == 11);
        assert(pow_mod_iter(9, 16, 19) == 4);
        assert(pow_mod_iter(9, 17, 19) == 17);
        assert(pow_mod_iter(9, 18, 19) == 1);
    } else if a == 10 {
        assert(pow_mod_iter(10, 0, 19) == 1);
        assert(pow_mod_iter(10, 1, 19) == 10);
        assert(pow_mod_iter(10, 2, 19) == 5);
        assert(pow_mod_iter(10, 3, 19) == 12);
        assert(pow_mod_iter(10, 4, 19) == 6);
        assert(pow_mod_iter(10, 5, 19) == 3);
        assert(pow_mod_iter(10, 6, 19) == 11);
        assert(pow_mod_iter(10, 7, 19) == 15);
        assert(pow_mod_iter(10, 8, 19) == 17);
        assert(pow_mod_iter(10, 9, 19) == 18);
        assert(pow_mod_iter(10, 10, 19) == 9);
        assert(pow_mod_iter(10, 11, 19) == 14);
        assert(pow_mod_iter(10, 12, 19) == 7);
        assert(pow_mod_iter(10, 13, 19) == 13);
        assert(pow_mod_iter(10, 14, 19) == 16);
        assert(pow_mod_iter(10, 15, 19) == 8);
        assert(pow_mod_iter(10, 16, 19) == 4);
        assert(pow_mod_iter(10, 17, 19) == 2);
        assert(pow_mod_iter(10, 18, 19) == 1);
    } else if a == 11 {
        assert(pow_mod_iter(11, 0, 19) == 1);
        assert(pow_mod_iter(11, 1, 19) == 11);
        assert(pow_mod_iter(11, 2, 19) == 7);
        assert(pow_mod_iter(11, 3, 19) == 1);
        assert(pow_mod_iter(11, 4, 19) == 11);
        assert(pow_mod_iter(11, 5, 19) == 7);
        assert(pow_mod_iter(11, 6, 19) == 1);
        assert(pow_mod_iter(11, 7, 19) == 11);
        assert(pow_mod_iter(11, 8, 19) == 7);
        assert(pow_mod_iter(11, 9, 19) == 1);
        assert(pow_mod_iter(11, 10, 19) == 11);
        assert(pow_mod_iter(11, 11, 19) == 7);
        assert(pow_mod_iter(11, 12, 19) == 1);
        assert(pow_mod_iter(11, 13, 19) == 11);
        assert(pow_mod_iter(11, 14, 19) == 7);
        assert(pow_mod_iter(11, 15, 19) == 1);
        assert(pow_mod_iter(11, 16, 19) == 11);
        assert(pow_mod_iter(11, 17, 19) == 7);
        assert(pow_mod_iter(11, 18, 19) == 1);
    } else if a == 12 {
        assert(pow_mod_iter(12, 0, 19) == 1);
        assert(pow_mod_iter(12, 1, 19) == 12);
        assert(pow_mod_iter(12, 2, 19) == 11);
        assert(pow_mod_iter(12, 3, 19) == 18);
        assert(pow_mod_iter(12, 4, 19) == 7);
        assert(pow_mod_iter(12, 5, 19) == 8);
        assert(pow_mod_iter(12, 6, 19) == 1);
        assert(pow_mod_iter(12, 7, 19) == 12);
        assert(pow_mod_iter(12, 8, 19) == 11);
        assert(pow_mod_iter(12, 9, 19) == 18);
        assert(pow_mod_iter(12, 10, 19) == 7);
        assert(pow_mod_iter(12, 11, 19) == 8);
        assert(pow_mod_iter(12, 12, 19) == 1);
        assert(pow_mod_iter(12, 13, 19) == 12);
        assert(pow_mod_iter(12, 14, 19) == 11);
        assert(pow_mod_iter(12, 15, 19) == 18);
        assert(pow_mod_iter(12, 16, 19) == 7);
        assert(pow_mod_iter(12, 17, 19) == 8);
        assert(pow_mod_iter(12, 18, 19) == 1);
    }
}

proof fn lemma_fermat_19_from_13(a: nat)
    requires
        13 <= a < 19,
    ensures
        pow_mod_iter(a, 18, 19) == 1,
{
    if a == 13 {
        assert(pow_mod_iter(13, 0, 19) == 1);
        assert(pow_mod_iter(13, 1, 19) == 13);
        assert(pow_mod_iter(13, 2, 19) == 17);
        assert(pow_mod_iter(13, 3, 19) == 12);
        assert(pow_mod_iter(13, 4, 19) == 4);
        assert(pow_mod_iter(13, 5, 19) == 14);
        assert(pow_mod_iter(13, 6, 19) == 11);
        assert(pow_mod_iter(13, 7, 19) == 10);
        assert(pow_mod_iter(13, 8, 19) == 16);
        assert(pow_mod_iter(13, 9, 19) == 18);
        assert(pow_mod_iter(13, 10, 19) == 6);
        assert(pow_mod_iter(13, 11, 19) == 2);
        assert(pow_mod_iter(13, 12, 19) == 7);
        assert(pow_mod_iter(13, 13, 19) == 15);
        assert(pow_mod_iter(13, 14, 19) == 5);
        assert(pow_mod_iter(13, 15, 19) == 8);
        assert(pow_mod_iter(13, 16, 19) == 9);
        assert(pow_mod_iter(13, 17, 19) == 3);
        assert(pow_mod_iter(13, 18, 19) == 1);
    } else if a == 14 {
        assert(pow_mod_iter(14, 0, 19) == 1);
        assert(pow_mod_iter(14, 1, 19) == 14);
        assert(pow_mod_iter(14, 2, 19) == 6);
        assert(pow_mod_iter(14, 3, 19) == 8);
        assert(pow_mod_iter(14, 4, 19) == 17);
        assert(pow_mod_iter(14, 5, 19) == 10);
        assert(pow_mod_iter(14, 6, 19) == 7);
        assert(pow_mod_iter(14, 7, 19) == 3);
        assert(pow_mod_iter(14, 8, 19) == 4);
        assert(pow_mod_iter(14, 9, 19) == 18);
        assert(pow_mod_iter(14, 10, 19) == 5);
        assert(pow_mod_iter(14, 11, 19) == 13);
        assert(pow_mod_iter(14, 12, 19) == 11);
        assert(pow_mod_iter(14, 13, 19) == 2);
        assert(pow_mod_iter(14, 14, 19) == 9);
        assert(pow_mod_iter(14, 15, 19) == 12);
        assert(pow_mod_iter(14, 16, 19) == 16);
        assert(pow_mod_iter(14, 17, 19) == 15);
        assert(pow_mod_iter(14, 18, 19) == 1);
    } else if a == 15 {
        assert(pow_mod_iter(15, 0, 19) == 1);
        assert(pow_mod_iter(15, 1, 19) == 15);
        assert(pow_mod_iter(15, 2, 19) == 16);
        assert(pow_mod_iter(15, 3, 19) == 12);
        assert(pow_mod_iter(15, 4, 19) == 9);
        assert(pow_mod_iter(15, 5, 19) == 2);
        assert(pow_mod_iter(15, 6, 19) == 11);
        assert(pow_mod_iter(15, 7, 19) == 13);
        assert(pow_mod_iter(15, 8, 19) == 5);
        assert(pow_mod_iter(15, 9, 19) == 18);
        assert(pow_mod_iter(15, 10, 19) == 4);
        assert(pow_mod_iter(15, 11, 19) == 3);
        assert(pow_mod_iter(15, 12, 19) == 7);
        assert(pow_mod_iter(15, 13, 19) == 10);
        assert(pow_mod_iter(15, 14, 19) == 17);
        assert(pow_mod_iter(15, 15, 19) == 8);
        assert(pow_mod_iter(15, 16, 19) == 6);
        assert(pow_mod_iter(15, 17, 19) == 14);
        assert(pow_mod_iter(15, 18, 19) == 1);
    } else if a == 16 {
        assert(pow_mod_iter(16, 0, 19) == 1);
        assert(pow_mod_iter(16, 1, 19) == 16);
        assert(pow_mod_iter(16, 2, 19) == 9);
        assert(pow_mod_iter(16, 3, 19) == 11);
        assert(pow_mod_iter(16, 4, 19) == 5);
        assert(pow_mod_iter(16, 5, 19) == 4);
        assert(pow_mod_iter(16, 6, 19) == 7);
        assert(pow_mod_iter(16, 7, 19) == 17);
        assert(pow_mod_iter(16, 8, 19) == 6);
        assert(pow_mod_iter(16, 9, 19) == 1);
        assert(pow_mod_iter(16, 10, 19) == 16);
        assert(pow_mod_iter(16, 11, 19) == 9);
        assert(pow_mod_iter(16, 12, 19) == 11);
        assert(pow_mod_iter(16, 13, 19) == 5);
        assert(pow_mod_iter(16, 14, 19) == 4);
        assert(pow_mod_iter(16, 15, 19) == 7);
        assert(pow_mod_iter(16, 16, 19) == 17);
        assert(pow_mod_iter(16, 17, 19) == 6);
        assert(pow_mod_iter(16, 18, 19) == 1);
    } else if a == 17 {
        assert(pow_mod_iter(17, 0, 19) == 1);
        assert(pow_mod_iter(17, 1, 19) == 17);
        assert(pow_mod_iter(17, 2, 19) == 4);
        assert(pow_mod_iter(17, 3, 19) == 11);
        assert(pow_mod_iter(17, 4, 19) == 16);
        assert(pow_mod_iter(17, 5, 19) == 6);
        assert(pow_mod_iter(17, 6, 19) == 7);
        assert(pow_mod_iter(17, 7, 19) == 5);
        assert(pow_mod_iter(17, 8, 19) == 9);
        assert(pow_mod_iter(17, 9, 19) == 1);
        assert(pow_mod_iter(17, 10, 19) == 17);
        assert(pow_mod_iter(17, 11, 19) == 4);
        assert(pow_mod_iter(17, 12, 19) == 11);
        assert(pow_mod_iter(17, 13, 19) == 16);
        assert(pow_mod_iter(17, 14, 19) == 6);
        assert(pow_mod_iter(17, 15, 19) == 7);
        assert(pow_mod_iter(17, 16, 19) == 5);
        assert(pow_mod_iter(17, 17, 19) == 9);
        assert(pow_mod_iter(17, 18, 19) == 1);
    } else if a == 18 {
        assert(pow_mod_iter(18, 0, 19) == 1);
        assert(pow_mod_iter(18, 1, 19) == 18);
        assert(pow_mod_iter(18, 2, 19) == 1);
        assert(pow_mod_iter(18, 3, 19) == 18);
        assert(pow_mod_iter(18, 4, 19) == 1);
        assert(pow_mod_iter(18, 5, 19) == 18);
        assert(pow_mod_iter(18, 6, 19) == 1);
        assert(pow_mod_iter(18, 7, 19) == 18);
        assert(pow_mod_iter(18, 8, 19) == 1);
        assert(pow_mod_iter(18, 9, 19) == 18);
        assert(pow_mod_iter(18, 10, 19) == 1);
        assert(pow_mod_iter(18, 11, 19) == 18);
        assert(pow_mod_iter(18, 12, 19) == 1);
        assert(pow_mod_iter(18, 13, 19) == 18);
        assert(pow_mod_iter(18, 14, 19) == 1);
        assert(pow_mod_iter(18, 15, 19) == 18);
        assert(pow_mod_iter(18, 16, 19) == 1);
        assert(pow_mod_iter(18, 17, 19) == 18);
        assert(pow_mod_iter(18, 18, 19) == 1);
    }
}

/// The powers of 3 modulo 17 below 16.
#[verifier::rlimit(40)]
proof fn lemma_order_17()
    ensures
        forall|e: nat| 0 < e < 16 ==> #[trigger] pow_mod_iter(3, e, 17) != 1,
{
    assert(pow_mod_iter(3, 0, 17) == 1);
    assert(pow_mod_iter(3, 1, 17) == 3);
    assert(pow_mod_iter(3, 2, 17) == 9);
    assert(pow_mod_iter(3, 3, 17) == 10);
    assert(pow_mod_iter(3, 4, 17) == 13);
    assert(pow_mod_iter(3, 5, 17) == 5);
    assert(pow_mod_iter(3, 6, 17) == 15);
    assert(pow_mod_iter(3, 7, 17) == 11);
    assert(pow_mod_iter(3, 8, 17) == 16);
    assert(pow_mod_iter(3, 9, 17) == 14);
    assert(pow_mod_iter(3, 10, 17) == 8);
    assert(pow_mod_iter(3, 11, 17) == 7);
    assert(pow_mod_iter(3, 12, 17) == 4);
    assert(pow_mod_iter(3, 13, 17) == 12);
    assert(pow_mod_iter(3, 14, 17) == 2);
    assert(pow_mod_iter(3, 15, 17) == 6);
    assert forall|e: nat| 0 < e < 16 implies #[trigger] pow_mod_iter(3, e, 17) != 1 by {
        if e == 1 {
            assert(pow_mod_iter(3, 1, 17) != 1);
        } else if e == 2 {
            assert(pow_mod_iter(3, 2, 17) != 1);
        } else if e == 3 {
            assert(pow_mod_iter(3, 3, 17) != 1);
        } else if e == 4 {
            assert(pow_mod_iter(3, 4, 17) != 1);
        } else if e == 5 {
            assert(pow_mod_iter(3, 5, 17) != 1);
        } else if e == 6 {
            assert(pow_mod_iter(3, 6, 17) != 1);
        } else if e == 7 {
            assert(pow_mod_iter(3, 7, 17) != 1);
        } else if e == 8 {
            assert(pow_mod_iter(3, 8, 17) != 1);
        } else if e == 9 {
            assert(pow_mod_iter(3, 9, 17) != 1);
        } else if e == 10 {
            assert(pow_mod_iter(3, 10, 17) != 1);
        } else if e == 11 {
            assert(pow_mod_iter(3, 11, 17) != 1);
        } else if e == 12 {
            assert(pow_mod_iter(3, 12, 17) != 1);
        } else if e == 13 {
            assert(pow_mod_iter(3, 13, 17) != 1);
        } else if e == 14 {
            assert(pow_mod_iter(3, 14, 17) != 1);
        } else if e == 15 {
            assert(pow_mod_iter(3, 15, 17) != 1);
        }
    }
}

/// The powers of 2 modulo 19 below 18.
#[verifier::rlimit(40)]
proof fn lemma_order_19()
    ensures
        forall|e: nat| 0 < e < 18 ==> #[trigger] pow_mod_iter(2, e, 19) != 1,
{
    assert(pow_mod_iter(2, 0, 19) == 1);
    assert(pow_mod_iter(2, 1, 19) == 2);
    assert(pow_mod_iter(2, 2, 19) == 4);
    assert(pow_mod_iter(2, 3, 19) == 8);
    assert(pow_mod_iter(2, 4, 19) == 16);
    assert(pow_mod_iter(2, 5, 19) == 13);
    assert(pow_mod_iter(2, 6, 19) == 7);
    assert(pow_mod_iter(2, 7, 19) == 14);
    assert(pow_mod_iter(2, 8, 19) == 9);
    assert(pow_mod_iter(2, 9, 19) == 18);
    assert(pow_mod_iter(2, 10, 19) == 17);
    assert(pow_mod_iter(2, 11, 19) == 15);
    assert(pow_mod_iter(2, 12, 19) == 11);
    assert(pow_mod_iter(2, 13, 19) == 3);
    assert(pow_mod_iter(2, 14, 19) == 6);
    assert(pow_mod_iter(2, 15, 19) == 12);
    assert(pow_mod_iter(2, 16, 19) == 5);
    assert(pow_mod_iter(2, 17, 19) == 10);
    assert forall|e: nat| 0 < e < 18 implies #[trigger] pow_mod_iter(2, e, 19) != 1 by {
        if e == 1 {
            assert(pow_mod_iter(2, 1, 19) != 1);
        } else if e == 2 {
            assert(pow_mod_iter(2, 2, 19) != 1);
        } else if e == 3 {
            assert(pow_mod_iter(2, 3, 19) != 1);
        } else if e == 4 {
            assert(pow_mod_iter(2, 4, 19) != 1);
        } else if e == 5 {
            assert(pow_mod_iter(2, 5, 19) != 1);
        } else if e == 6 {
            assert(pow_mod_iter(2, 6, 19) != 1);
        } else if e == 7 {
            assert(pow_mod_iter(2, 7, 19) != 1);
        } else if e == 8 {
            assert(pow_mod_iter(2, 8, 19) != 1);
        } else if e == 9 {
            assert(pow_mod_iter(2, 9, 19) != 1);
        } else if e == 10 {
            assert(pow_mod_iter(2, 10, 19) != 1);
        } else if e == 11 {
            assert(pow_mod_iter(2, 11, 19) != 1);
        } else if e == 12 {
            assert(pow_mod_iter(2, 12, 19) != 1);
        } else if e == 13 {
            assert(pow_mod_iter(2, 13, 19) != 1);
        } else if e == 14 {
            assert(pow_mod_iter(2, 14, 19) != 1);
        } else if e == 15 {
            assert(pow_mod_iter(2, 15, 19) != 1);
        } else if e == 16 {
            assert(pow_mod_iter(2, 16, 19) != 1);
        } else if e == 17 {
            assert(pow_mod_iter(2, 17, 19) != 1);
        }
    }
}

proof fn lemma_pow2_small()
    ensures
        pow2(0) == 1,
        pow2(1) == 2,
        pow2(3) == 8,
        pow2(4) == 16,
{
    reveal_with_fuel(pow, 5);
    lemma_pow2(0);
    lemma_pow2(1);
    lemma_pow2(3);
    lemma_pow2(4);
}

proof fn lemma_radix_one()
    ensures
        radix(1) == limb_base(),
{
    reveal_with_fuel(radix, 2);
}

proof fn lemma_single_limb(w: u64)
    ensures
        limbs_val(seq![w]) == w,
{
    reveal_with_fuel(limbs_val, 2);
    assert(seq![w].drop_first() =~= Seq::<u64>::empty());
}

impl FpConfig<1> for F17Config {
    open spec fn spec_modulus() -> nat {
        17
    }

    open spec fn spec_r_inv() -> nat {
        1
    }

    open spec fn spec_two_adicity() -> nat {
        4
    }

    fn modulus() -> (r: [u64; 1]) {
        let r = [17u64];
        proof {
            assert(r@ =~= seq![17u64]);
            lemma_single_limb(17);
        }
        r
    }

    fn two_adicity() -> (r: u32) {
        4
    }

    fn trace_minus_one_div_two() -> (r: [u64; 1]) {
        let r = [0u64];
        proof {
            assert(r@ =~= seq![0u64]);
            lemma_single_limb(0);
            lemma_pow2_small();
            assert(limbs_val(r@) == 0);
            assert((2 * 0 + 1) * pow2(4) == 16nat);
        }
        r
    }

    fn two_adic_root_of_unity() -> (r: [u64; 1]) {
        let r = [3u64];
        proof {
            assert(r@ =~= seq![3u64]);
            lemma_single_limb(3);
            lemma_pow2_small();
            reveal_with_fuel(pow, 9);
            assert(pow(3, 8) == 6561);
        }
        r
    }

    fn generator() -> (r: [u64; 1]) {
        let r = [3u64];
        proof {
            assert(r@ =~= seq![3u64]);
            lemma_single_limb(3);
            assert(((limbs_val(r@) * Self::spec_r_inv()) % Self::spec_modulus()) == 3);
            lemma_order_17();
            assert forall|e: nat| 0 < e < Self::spec_modulus() - 1 implies #[trigger] pow(3int, e) % (
            Self::spec_modulus() as int) != 1 by {
                lemma_pow_mod_iter(3, e, 17);
            }
        }
        r
    }

    proof fn lemma_valid() {
        lemma_radix_one();
        assert(radix(1) * 1 == 0x1_0000_0000_0000_0000nat);
        assert((0x1_0000_0000_0000_0000nat * 1) % 17 == 1);
        assert(radix(1) * Self::spec_r_inv() == 0x1_0000_0000_0000_0000nat);
        assert((radix(1) * Self::spec_r_inv()) % Self::spec_modulus() == 1);
        assert forall|a: int| 0 < a < 17 implies #[trigger] pow(a, (Self::spec_modulus() - 1) as nat) % (
        Self::spec_modulus() as int) == 1 by {
            lemma_pow_mod_iter(a as nat, 16, 17);
            lemma_fermat_17(a as nat);
            assert((Self::spec_modulus() - 1) as nat == 16);
        }
        assert forall|a: int| 0 < a < 17 implies #[trigger] has_inverse(a, 17) by {
        if a == 1 {
            assert((1 * 1) % 17 == 1);
            assert(has_inverse(1, 17));
        } else if a == 2 {
            assert((2 * 9) % 17 == 1);
            assert(has_inverse(2, 17));
        } else if a == 3 {
            assert((3 * 6) % 17 == 1);
            assert(has_inverse(3, 17));
        } else if a == 4 {
            assert((4 * 13) % 17 == 1);
            assert(has_inverse(4, 17));
        } else if a == 5 {
            assert((5 * 7) % 17 == 1);
            assert(has_inverse(5, 17));
        } else if a == 6 {
            assert((6 * 3) % 17 == 1);
            assert(has_inverse(6, 17));
        } else if a == 7 {
            assert((7 * 5) % 17 == 1);
            assert(has_inverse(7, 17));
        } else if a == 8 {
            assert((8 * 15) % 17 == 1);
            assert(has_inverse(8, 17));
        } else if a == 9 {
            assert((9 * 2) % 17 == 1);
            assert(has_inverse(9, 17));
        } else if a == 10 {
            assert((10 * 12) % 17 == 1);
            assert(has_inverse(10, 17));
        } else if a == 11 {
            assert((11 * 14) % 17 == 1);
            assert(has_inverse(11, 17));
        } else if a == 12 {
            assert((12 * 10) % 17 == 1);
            assert(has_inverse(12, 17));
        } else if a == 13 {
            assert((13 * 4) % 17 == 1);
            assert(has_inverse(13, 17));
        } else if a == 14 {
            assert((14 * 11) % 17 == 1);
            assert(has_inverse(14, 17));
        } else if a == 15 {
            assert((15 * 8) % 17 == 1);
            assert(has_inverse(15, 17));
        } else if a == 16 {
            assert((16 * 16) % 17 == 1);
            assert(has_inverse(16, 17));
        }
        }
    }
}

/// The field of integers modulo 19, the order of `PrimeOrderCurve`'s group,
/// held in two limbs: `R = 2^128 = 4 (mod 19)`.
#[derive(Clone, Copy, Hash, Debug)]
pub struct F19Config;

/// Elements of the field of integers modulo 19.
pub type F19 = Fp<F19Config, 2>;

proof fn lemma_radix_two()
    ensures
        radix(2) == limb_base() * limb_base(),
{
    reveal_with_fuel(radix, 3);
}

proof fn lemma_two_limbs(lo: u64, hi: u64)
    ensures
        limbs_val(seq![lo, hi]) == lo + limb_base() * hi,
{
    reveal_with_fuel(limbs_val, 3);
    assert(seq![lo, hi].drop_first() =~= seq![hi]);
    assert(seq![hi].drop_first() =~= Seq::<u64>::empty());
}

impl FpConfig<2> for F19Config {
    open spec fn spec_modulus() -> nat {
        19
    }

    open spec fn spec_r_inv() -> nat {
        5
    }

    open spec fn spec_two_adicity() -> nat {
        1
    }

    fn modulus() -> (r: [u64; 2]) {
        let r = [19u64, 0];
        proof {
            assert(r@ =~= seq![19u64, 0]);
            lemma_two_limbs(19, 0);
        }
        r
    }

    fn two_adicity() -> (r: u32) {
        1
    }

    fn trace_minus_one_div_two() -> (r: [u64; 2]) {
        let r = [4u64, 0];
        proof {
            assert(r@ =~= seq![4u64, 0]);
            lemma_two_limbs(4, 0);
            lemma_pow2_small();
            assert(limbs_val(r@) == 4);
            assert((2 * 4 + 1) * pow2(1) == 18nat);
        }
        r
    }

    fn two_adic_root_of_unity() -> (r: [u64; 2]) {
        let r = [15u64, 0];
        proof {
            assert(r@ =~= seq![15u64, 0]);
            lemma_two_limbs(15, 0);
            lemma_pow2_small();
            reveal_with_fuel(pow, 2);
        }
        r
    }

    fn generator() -> (r: [u64; 2]) {
        let r = [8u64, 0];
        proof {
            assert(r@ =~= seq![8u64, 0u64]);
            lemma_two_limbs(8, 0);
            assert(((limbs_val(r@) * Self::spec_r_inv()) % Self::spec_modulus()) == 2);
            lemma_order_19();
            assert forall|e: nat| 0 < e < Self::spec_modulus() - 1 implies #[trigger] pow(2int, e) % (
            Self::spec_modulus() as int) != 1 by {
                lemma_pow_mod_iter(2, e, 19);
            }
        }
        r
    }

    proof fn lemma_valid() {
        lemma_radix_two();
        assert(0x1_0000_0000_0000_0000nat * 0x1_0000_0000_0000_0000nat == 340282366920938463463374607431768211456nat);
        assert((340282366920938463463374607431768211456nat * 5) % 19 == 1);
        assert(radix(2) * 5 == 340282366920938463463374607431768211456nat * 5);
        assert(radix(2) * Self::spec_r_inv() == 340282366920938463463374607431768211456nat * 5);
        assert((radix(2) * Self::spec_r_inv()) % Self::spec_modulus() == 1);
        assert forall|a: int| 0 < a < 19 implies #[trigger] pow(a, (Self::spec_modulus() - 1) as nat) % (
        Self::spec_modulus() as int) == 1 by {
            lemma_pow_mod_iter(a as nat, 18, 19);
            lemma_fermat_19(a as nat);
            assert((Self::spec_modulus() - 1) as nat == 18);
        }
        assert(19 < 0x1_0000_0000_0000_0000nat * 0x1_0000_0000_0000_0000nat);
        assert forall|a: int| 0 < a < 19 implies #[trigger] has_inverse(a, 19) by {
            if a == 1 {
                assert((1 * 1) % 19 == 1);
                assert(has_inverse(1, 19));
            } else if a == 2 {
                assert((2 * 10) % 19 == 1);
                assert(has_inverse(2, 19));
            } else if a == 3 {
                assert((3 * 13) % 19 == 1);
                assert(has_inverse(3, 19));
            } else if a == 4 {
                assert((4 * 5) % 19 == 1);
                assert(has_inverse(4, 19));
            } else if a == 5 {
                assert((5 * 4) % 19 == 1);
                assert(has_inverse(5, 19));
            } else if a == 6 {
                assert((6 * 16) % 19 == 1);
                assert(has_inverse(6, 19));
            } else if a == 7 {
                assert((7 * 11) % 19 == 1);
                assert(has_inverse(7, 19));
            } else if a == 8 {
                assert((8 * 12) % 19 == 1);
                assert(has_inverse(8, 19));
            } else if a == 9 {
                assert((9 * 17) % 19 == 1);
                assert(has_inverse(9, 19));
            } else if a == 10 {
                assert((10 * 2) % 19 == 1);
                assert(has_inverse(10, 19));
            } else if a == 11 {
                assert((11 * 7) % 19 == 1);
                assert(has_inverse(11, 19));
            } else if a == 12 {
                assert((12 * 8) % 19 == 1);
                assert(has_inverse(12, 19));
            } else if a == 13 {
                assert((13 * 3) % 19 == 1);
                assert(has_inverse(13, 19));
            } else if a == 14 {
                assert((14 * 15) % 19 == 1);
                assert(has_inverse(14, 19));
            } else if a == 15 {
                assert((15 * 14) % 19 == 1);
                assert(has_inverse(15, 19));
            } else if a == 16 {
                assert((16 * 6) % 19 == 1);
                assert(has_inverse(16, 19));
            } else if a == 17 {
                assert((17 * 9) % 19 == 1);
                assert(has_inverse(17, 19));
            } else if a == 18 {
                assert((18 * 18) % 19 == 1);
                assert(has_inverse(18, 19));
            }
        }
    }
}

/// `y^2 = x^3 + 2x + 2` over the field modulo 17: 19 points, a prime, so the
/// cofactor is one. The generator is `(5, 1)`.
#[derive(Clone, Copy, Hash, Debug)]
pub struct PrimeOrderCurve;

impl SWCurveConfig<1> for PrimeOrderCurve {
    type BaseConfig = F17Config;

    open spec fn spec_coeff_a() -> nat {
        2
    }

    open spec fn spec_coeff_b() -> nat {
        2
    }

    open spec fn spec_cofactor() -> Seq<u64> {
        seq![1u64]
    }

    open spec fn spec_scalar_modulus() -> Seq<u64> {
        seq![19u64]
    }

    open spec fn spec_generator() -> (nat, nat) {
        (5, 1)
    }

    fn coeff_a() -> (r: F17) {
        F17::from_u64(2)
    }

    fn coeff_b() -> (r: F17) {
        F17::from_u64(2)
    }

    fn generator() -> (r: Affine<Self, 1>) {
        let r = Affine { x: F17::from_u64(5), y: F17::from_u64(1), infinity: false };
        proof {
            assert((1nat * 1) % 17 == 1);
            assert((5nat * 5) % 17 == 8);
            assert((8nat * 5) % 17 == 6);
            assert((5nat * 2) % 17 == 10);
            assert((6nat + 10) % 17 == 16);
            assert((16nat + 2) % 17 == 1);
        }
        r
    }

    fn cofactor() -> (r: Vec<u64>) {
        let r = vec![1u64];
        assert(r@ =~= seq![1u64]);
        r
    }

    fn scalar_modulus() -> (r: Vec<u64>) {
        let r = vec![19u64];
        assert(r@ =~= seq![19u64]);
        r
    }
}

impl SWCurveGenerator<1> for PrimeOrderCurve {
    proof fn lemma_generator_order() {
        let g: Jac = (5, 1, 1);
        reveal_with_fuel(limbs_bits, 2);
        let bits = limbs_bits(seq![19u64]);
        assert(seq![19u64].drop_first() =~= Seq::<u64>::empty());
        assert(bits =~= word_bits(19u64));
        assert forall|i: int| 0 <= i < 59 implies !#[trigger] bits[i] by {
            let sh = (63 - i) as u64;
            assert(sh >= 5 ==> (19u64 >> sh) & 1u64 == 0u64) by (bit_vector);
        }
        lemma_mul_bits_zero_prefix::<Self, 1>(g, bits, 59);
        assert((19u64 >> 4u64) & 1u64 == 1u64) by (bit_vector);
        lemma_mul_bits_step::<Self, 1>(g, bits, 59);
        lemma_prime_curve_step_1();
        lemma_prime_curve_step_2();
        assert((19u64 >> 3u64) & 1u64 == 0u64) by (bit_vector);
        lemma_mul_bits_step::<Self, 1>(g, bits, 60);
        lemma_prime_curve_step_3();
        assert((19u64 >> 2u64) & 1u64 == 0u64) by (bit_vector);
        lemma_mul_bits_step::<Self, 1>(g, bits, 61);
        lemma_prime_curve_step_4();
        assert((19u64 >> 1u64) & 1u64 == 1u64) by (bit_vector);
        lemma_mul_bits_step::<Self, 1>(g, bits, 62);
        lemma_prime_curve_step_5();
        lemma_prime_curve_step_6();
        assert((19u64 >> 0u64) & 1u64 == 1u64) by (bit_vector);
        lemma_mul_bits_step::<Self, 1>(g, bits, 63);
        lemma_prime_curve_step_7();
        lemma_prime_curve_step_8();
        assert(bits.take(64) =~= bits);
    }
}

/// `y^2 = x^3 + 2x + 3` over the field modulo 17: 22 points, a subgroup of
/// prime order 11 and cofactor 2. The generator is `(14, 15)`.
#[derive(Clone, Copy, Hash, Debug)]
pub struct CofactorTwoCurve;

impl SWCurveConfig<1> for CofactorTwoCurve {
    type BaseConfig = F17Config;

    open spec fn spec_coeff_a() -> nat {
        2
    }

    open spec fn spec_coeff_b() -> nat {
        3
    }

    open spec fn spec_cofactor() -> Seq<u64> {
        seq![2u64]
    }

    open spec fn spec_scalar_modulus() -> Seq<u64> {
        seq![11u64]
    }

    open spec fn spec_generator() -> (nat, nat) {
        (14, 15)
    }

    fn coeff_a() -> (r: F17) {
        F17::from_u64(2)
    }

    fn coeff_b() -> (r: F17) {
        F17::from_u64(3)
    }

    fn generator() -> (r: Affine<Self, 1>) {
        let r = Affine { x: F17::from_u64(14), y: F17::from_u64(15), infinity: false };
        proof {
            assert((15nat * 15) % 17 == 4);
            assert((14nat * 14) % 17 == 9);
            assert((9nat * 14) % 17 == 7);
            assert((14nat * 2) % 17 == 11);
            assert((7nat + 11) % 17 == 1);
            assert((1nat + 3) % 17 == 4);
        }
        r
    }

    fn cofactor() -> (r: Vec<u64>) {
        let r = vec![2u64];
        assert(r@ =~= seq![2u64]);
        r
    }

    fn scalar_modulus() -> (r: Vec<u64>) {
        let r = vec![11u64];
        assert(r@ =~= seq![11u64]);
        r
    }
}

impl SWCurveGenerator<1> for CofactorTwoCurve {
    proof fn lemma_generator_order() {
        let g: Jac = (14, 15, 1);
        reveal_with_fuel(limbs_bits, 2);
        let bits = limbs_bits(seq![11u64]);
        assert(seq![11u64].drop_first() =~= Seq::<u64>::empty());
        assert(bits =~= word_bits(11u64));
        assert forall|i: int| 0 <= i < 60 implies !#[trigger] bits[i] by {
            let sh = (63 - i) as u64;
            assert(sh >= 4 ==> (11u64 >> sh) & 1u64 == 0u64) by (bit_vector);
        }
        lemma_mul_bits_zero_prefix::<Self, 1>(g, bits, 60);
        assert((11u64 >> 3u64) & 1u64 == 1u64) by (bit_vector);
        lemma_mul_bits_step::<Self, 1>(g, bits, 60);
        lemma_cofactor_curve_step_1();
        lemma_cofactor_curve_step_2();
        assert((11u64 >> 2u64) & 1u64 == 0u64) by (bit_vector);
        lemma_mul_bits_step::<Self, 1>(g, bits, 61);
        lemma_cofactor_curve_step_3();
        assert((11u64 >> 1u64) & 1u64 == 1u64) by (bit_vector);
        lemma_mul_bits_step::<Self, 1>(g, bits, 62);
        lemma_cofactor_curve_step_4();
        lemma_cofactor_curve_step_5();
        assert((11u64 >> 0u64) & 1u64 == 1u64) by (bit_vector);
        lemma_mul_bits_step::<Self, 1>(g, bits, 63);
        lemma_cofactor_curve_step_6();
        lemma_cofactor_curve_step_7();
        assert(bits.take(64) =~= bits);
    }
}

proof fn lemma_prime_curve_step_1()
    ensures
        jac_double::<PrimeOrderCurve, 1>((1nat, 1nat, 0nat)) == (1nat, 1nat, 0nat),
{
        assert(base_modulus::<PrimeOrderCurve, 1>() == 17);
        assert(mul_mod(1, 1, 17) == 1);
        assert(mul_mod(1, 1, 17) == 1);
        assert(mul_mod(1, 1, 17) == 1);
        assert(mul_mod(0, 0, 17) == 0);
        assert(mul_mod(1, 1, 17) == 1);
        assert(add_mod(1, 1, 17) == 2);
        assert(add_mod(2, 2, 17) == 4);
        assert(add_mod(1, 1, 17) == 2);
        assert(add_mod(2, 1, 17) == 3);
        assert(mul_mod(0, 0, 17) == 0);
        assert(mul_mod(0, 2, 17) == 0);
        assert(add_mod(3, 0, 17) == 3);
        assert(mul_mod(3, 3, 17) == 9);
        assert(add_mod(4, 4, 17) == 8);
        assert(sub_mod(9, 8, 17) == 1);
        assert(add_mod(1, 1, 17) == 2);
        assert(add_mod(2, 2, 17) == 4);
        assert(add_mod(4, 4, 17) == 8);
        assert(sub_mod(4, 1, 17) == 3);
        assert(mul_mod(3, 3, 17) == 9);
        assert(sub_mod(9, 8, 17) == 1);
        assert(mul_mod(1, 0, 17) == 0);
        assert(add_mod(0, 0, 17) == 0);
}

proof fn lemma_prime_curve_step_2()
    ensures
        jac_add::<PrimeOrderCurve, 1>((1nat, 1nat, 0nat), (5nat, 1nat, 1nat)) == (5nat, 1nat, 1nat),
{
        assert(base_modulus::<PrimeOrderCurve, 1>() == 17);

}

proof fn lemma_prime_curve_step_3()
    ensures
        jac_double::<PrimeOrderCurve, 1>((5nat, 1nat, 1nat)) == (7nat, 7nat, 2nat),
{
        assert(base_modulus::<PrimeOrderCurve, 1>() == 17);
        assert(mul_mod(5, 5, 17) == 8);
        assert(mul_mod(1, 1, 17) == 1);
        assert(mul_mod(1, 1, 17) == 1);
        assert(mul_mod(1, 1, 17) == 1);
        assert(mul_mod(5, 1, 17) == 5);
        assert(add_mod(5, 5, 17) == 10);
        assert(add_mod(10, 10, 17) == 3);
        assert(add_mod(8, 8, 17) == 16);
        assert(add_mod(16, 8, 17) == 7);
        assert(mul_mod(1, 1, 17) == 1);
        assert(mul_mod(1, 2, 17) == 2);
        assert(add_mod(7, 2, 17) == 9);
        assert(mul_mod(9, 9, 17) == 13);
        assert(add_mod(3, 3, 17) == 6);
        assert(sub_mod(13, 6, 17) == 7);
        assert(add_mod(1, 1, 17) == 2);
        assert(add_mod(2, 2, 17) == 4);
        assert(add_mod(4, 4, 17) == 8);
        assert(sub_mod(3, 7, 17) == 13);
        assert(mul_mod(9, 13, 17) == 15);
        assert(sub_mod(15, 8, 17) == 7);
        assert(mul_mod(1, 1, 17) == 1);
        assert(add_mod(1, 1, 17) == 2);
}

proof fn lemma_prime_curve_step_4()
    ensures
        jac_double::<PrimeOrderCurve, 1>((7nat, 7nat, 2nat)) == (6nat, 5nat, 11nat),
{
        assert(base_modulus::<PrimeOrderCurve, 1>() == 17);
        assert(mul_mod(7, 7, 17) == 15);
        assert(mul_mod(7, 7, 17) == 15);
        assert(mul_mod(15, 15, 17) == 4);
        assert(mul_mod(2, 2, 17) == 4);
        assert(mul_mod(7, 15, 17) == 3);
        assert(add_mod(3, 3, 17) == 6);
        assert(add_mod(6, 6, 17) == 12);
        assert(add_mod(15, 15, 17) == 13);
        assert(add_mod(13, 15, 17) == 11);
        assert(mul_mod(4, 4, 17) == 16);
        assert(mul_mod(16, 2, 17) == 15);
        assert(add_mod(11, 15, 17) == 9);
        assert(mul_mod(9, 9, 17) == 13);
        assert(add_mod(12, 12, 17) == 7);
        assert(sub_mod(13, 7, 17) == 6);
        assert(add_mod(4, 4, 17) == 8);
        assert(add_mod(8, 8, 17) == 16);
        assert(add_mod(16, 16, 17) == 15);
        assert(sub_mod(12, 6, 17) == 6);
        assert(mul_mod(9, 6, 17) == 3);
        assert(sub_mod(3, 15, 17) == 5);
        assert(mul_mod(7, 2, 17) == 14);
        assert(add_mod(14, 14, 17) == 11);
}

proof fn lemma_prime_curve_step_5()
    ensures
        jac_double::<PrimeOrderCurve, 1>((6nat, 5nat, 11nat)) == (16nat, 14nat, 8nat),
{
        assert(base_modulus::<PrimeOrderCurve, 1>() == 17);
        assert(mul_mod(6, 6, 17) == 2);
        assert(mul_mod(5, 5, 17) == 8);
        assert(mul_mod(8, 8, 17) == 13);
        assert(mul_mod(11, 11, 17) == 2);
        assert(mul_mod(6, 8, 17) == 14);
        assert(add_mod(14, 14, 17) == 11);
        assert(add_mod(11, 11, 17) == 5);
        assert(add_mod(2, 2, 17) == 4);
        assert(add_mod(4, 2, 17) == 6);
        assert(mul_mod(2, 2, 17) == 4);
        assert(mul_mod(4, 2, 17) == 8);
        assert(add_mod(6, 8, 17) == 14);
        assert(mul_mod(14, 14, 17) == 9);
        assert(add_mod(5, 5, 17) == 10);
        assert(sub_mod(9, 10, 17) == 16);
        assert(add_mod(13, 13, 17) == 9);
        assert(add_mod(9, 9, 17) == 1);
        assert(add_mod(1, 1, 17) == 2);
        assert(sub_mod(5, 16, 17) == 6);
        assert(mul_mod(14, 6, 17) == 16);
        assert(sub_mod(16, 2, 17) == 14);
        assert(mul_mod(5, 11, 17) == 4);
        assert(add_mod(4, 4, 17) == 8);
}

proof fn lemma_prime_curve_step_6()
    ensures
        jac_add::<PrimeOrderCurve, 1>((16nat, 14nat, 8nat), (5nat, 1nat, 1nat)) == (7nat, 6nat, 1nat),
{
        assert(base_modulus::<PrimeOrderCurve, 1>() == 17);
        assert(mul_mod(8, 8, 17) == 13);
        assert(mul_mod(1, 1, 17) == 1);
        assert(mul_mod(16, 1, 17) == 16);
        assert(mul_mod(5, 13, 17) == 14);
        assert(mul_mod(14, 1, 17) == 14);
        assert(mul_mod(14, 1, 17) == 14);
        assert(mul_mod(1, 8, 17) == 8);
        assert(mul_mod(8, 13, 17) == 2);
        assert(sub_mod(14, 16, 17) == 15);
        assert(sub_mod(2, 14, 17) == 5);
        assert(mul_mod(15, 15, 17) == 4);
        assert(mul_mod(15, 4, 17) == 9);
        assert(mul_mod(16, 4, 17) == 13);
        assert(mul_mod(5, 5, 17) == 8);
        assert(sub_mod(8, 9, 17) == 16);
        assert(add_mod(13, 13, 17) == 9);
        assert(sub_mod(16, 9, 17) == 7);
        assert(sub_mod(13, 7, 17) == 6);
        assert(mul_mod(5, 6, 17) == 13);
        assert(mul_mod(14, 9, 17) == 7);
        assert(sub_mod(13, 7, 17) == 6);
        assert(mul_mod(8, 1, 17) == 8);
        assert(mul_mod(8, 15, 17) == 1);
}

proof fn lemma_prime_curve_step_7()
    ensures
        jac_double::<PrimeOrderCurve, 1>((7nat, 6nat, 1nat)) == (6nat, 6nat, 12nat),
{
        assert(base_modulus::<PrimeOrderCurve, 1>() == 17);
        assert(mul_mod(7, 7, 17) == 15);
        assert(mul_mod(6, 6, 17) == 2);
        assert(mul_mod(2, 2, 17) == 4);
        assert(mul_mod(1, 1, 17) == 1);
        assert(mul_mod(7, 2, 17) == 14);
        assert(add_mod(14, 14, 17) == 11);
        assert(add_mod(11, 11, 17) == 5);
        assert(add_mod(15, 15, 17) == 13);
        assert(add_mod(13, 15, 17) == 11);
        assert(mul_mod(1, 1, 17) == 1);
        assert(mul_mod(1, 2, 17) == 2);
        assert(add_mod(11, 2, 17) == 13);
        assert(mul_mod(13, 13, 17) == 16);
        assert(add_mod(5, 5, 17) == 10);
        assert(sub_mod(16, 10, 17) == 6);
        assert(add_mod(4, 4, 17) == 8);
        assert(add_mod(8, 8, 17) == 16);
        assert(add_mod(16, 16, 17) == 15);
        assert(sub_mod(5, 6, 17) == 16);
        assert(mul_mod(13, 16, 17) == 4);
        assert(sub_mod(4, 15, 17) == 6);
        assert(mul_mod(6, 1, 17) == 6);
        assert(add_mod(6, 6, 17) == 12);
}

proof fn lemma_prime_curve_step_8()
    ensures
        jac_add::<PrimeOrderCurve, 1>((6nat, 6nat, 12nat), (5nat, 1nat, 1nat)) == (1nat, 1nat, 0nat),
{
        assert(base_modulus::<PrimeOrderCurve, 1>() == 17);
        assert(mul_mod(12, 12, 17) == 8);
        assert(mul_mod(1, 1, 17) == 1);
        assert(mul_mod(6, 1, 17) == 6);
        assert(mul_mod(5, 8, 17) == 6);
        assert(mul_mod(6, 1, 17) == 6);
        assert(mul_mod(6, 1, 17) == 6);
        assert(mul_mod(1, 12, 17) == 12);
        assert(mul_mod(12, 8, 17) == 11);
}

proof fn lemma_cofactor_curve_step_1()
    ensures
        jac_double::<CofactorTwoCurve, 1>((1nat, 1nat, 0nat)) == (1nat, 1nat, 0nat),
{
        assert(base_modulus::<CofactorTwoCurve, 1>() == 17);
        assert(mul_mod(1, 1, 17) == 1);
        assert(mul_mod(1, 1, 17) == 1);
        assert(mul_mod(1, 1, 17) == 1);
        assert(mul_mod(0, 0, 17) == 0);
        assert(mul_mod(1, 1, 17) == 1);
        assert(add_mod(1, 1, 17) == 2);
        assert(add_mod(2, 2, 17) == 4);
        assert(add_mod(1, 1, 17) == 2);
        assert(add_mod(2, 1, 17) == 3);
        assert(mul_mod(0, 0, 17) == 0);
        assert(mul_mod(0, 2, 17) == 0);
        assert(add_mod(3, 0, 17) == 3);
        assert(mul_mod(3, 3, 17) == 9);
        assert(add_mod(4, 4, 17) == 8);
        assert(sub_mod(9, 8, 17) == 1);
        assert(add_mod(1, 1, 17) == 2);
        assert(add_mod(2, 2, 17) == 4);
        assert(add_mod(4, 4, 17) == 8);
        assert(sub_mod(4, 1, 17) == 3);
        assert(mul_mod(3, 3, 17) == 9);
        assert(sub_mod(9, 8, 17) == 1);
        assert(mul_mod(1, 0, 17) == 0);
        assert(add_mod(0, 0, 17) == 0);
}

proof fn lemma_cofactor_curve_step_2()
    ensures
        jac_add::<CofactorTwoCurve, 1>((1nat, 1nat, 0nat), (14nat, 15nat, 1nat)) == (14nat, 15nat, 1nat),
{
        assert(base_modulus::<CofactorTwoCurve, 1>() == 17);

}

proof fn lemma_cofactor_curve_step_3()
    ensures
        jac_double::<CofactorTwoCurve, 1>((14nat, 15nat, 1nat)) == (2nat, 3nat, 13nat),
{
        assert(base_modulus::<CofactorTwoCurve, 1>() == 17);
        assert(mul_mod(14, 14, 17) == 9);
        assert(mul_mod(15, 15, 17) == 4);
        assert(mul_mod(4, 4, 17) == 16);
        assert(mul_mod(1, 1, 17) == 1);
        assert(mul_mod(14, 4, 17) == 5);
        assert(add_mod(5, 5, 17) == 10);
        assert(add_mod(10, 10, 17) == 3);
        assert(add_mod(9, 9, 17) == 1);
        assert(add_mod(1, 9, 17) == 10);
        assert(mul_mod(1, 1, 17) == 1);
        assert(mul_mod(1, 2, 17) == 2);
        assert(add_mod(10, 2, 17) == 12);
        assert(mul_mod(12, 12, 17) == 8);
        assert(add_mod(3, 3, 17) == 6);
        assert(sub_mod(8, 6, 17) == 2);
        assert(add_mod(16, 16, 17) == 15);
        assert(add_mod(15, 15, 17) == 13);
        assert(add_mod(13, 13, 17) == 9);
        assert(sub_mod(3, 2, 17) == 1);
        assert(mul_mod(12, 1, 17) == 12);
        assert(sub_mod(12, 9, 17) == 3);
        assert(mul_mod(15, 1, 17) == 15);
        assert(add_mod(15, 15, 17) == 13);
}

proof fn lemma_cofactor_curve_step_4()
    ensures
        jac_double::<CofactorTwoCurve, 1>((2nat, 3nat, 13nat)) == (1nat, 6nat, 10nat),
{
        assert(base_modulus::<CofactorTwoCurve, 1>() == 17);
        assert(mul_mod(2, 2, 17) == 4);
        assert(mul_mod(3, 3, 17) == 9);
        assert(mul_mod(9, 9, 17) == 13);
        assert(mul_mod(13, 13, 17) == 16);
        assert(mul_mod(2, 9, 17) == 1);
        assert(add_mod(1, 1, 17) == 2);
        assert(add_mod(2, 2, 17) == 4);
        assert(add_mod(4, 4, 17) == 8);
        assert(add_mod(8, 4, 17) == 12);
        assert(mul_mod(16, 16, 17) == 1);
        assert(mul_mod(1, 2, 17) == 2);
        assert(add_mod(12, 2, 17) == 14);
        assert(mul_mod(14, 14, 17) == 9);
        assert(add_mod(4, 4, 17) == 8);
        assert(sub_mod(9, 8, 17) == 1);
        assert(add_mod(13, 13, 17) == 9);
        assert(add_mod(9, 9, 17) == 1);
        assert(add_mod(1, 1, 17) == 2);
        assert(sub_mod(4, 1, 17) == 3);
        assert(mul_mod(14, 3, 17) == 8);
        assert(sub_mod(8, 2, 17) == 6);
        assert(mul_mod(3, 13, 17) == 5);
        assert(add_mod(5, 5, 17) == 10);
}

proof fn lemma_cofactor_curve_step_5()
    ensures
        jac_add::<CofactorTwoCurve, 1>((1nat, 6nat, 10nat), (14nat, 15nat, 1nat)) == (12nat, 15nat, 16nat),
{
        assert(base_modulus::<CofactorTwoCurve, 1>() == 17);
        assert(mul_mod(10, 10, 17) == 15);
        assert(mul_mod(1, 1, 17) == 1);
        assert(mul_mod(1, 1, 17) == 1);
        assert(mul_mod(14, 15, 17) == 6);
        assert(mul_mod(6, 1, 17) == 6);
        assert(mul_mod(6, 1, 17) == 6);
        assert(mul_mod(15, 10, 17) == 14);
        assert(mul_mod(14, 15, 17) == 6);
        assert(sub_mod(6, 1, 17) == 5);
        assert(sub_mod(6, 6, 17) == 0);
        assert(mul_mod(5, 5, 17) == 8);
        assert(mul_mod(5, 8, 17) == 6);
        assert(mul_mod(1, 8, 17) == 8);
        assert(mul_mod(0, 0, 17) == 0);
        assert(sub_mod(0, 6, 17) == 11);
        assert(add_mod(8, 8, 17) == 16);
        assert(sub_mod(11, 16, 17) == 12);
        assert(sub_mod(8, 12, 17) == 13);
        assert(mul_mod(0, 13, 17) == 0);
        assert(mul_mod(6, 6, 17) == 2);
        assert(sub_mod(0, 2, 17) == 15);
        assert(mul_mod(10, 1, 17) == 10);
        assert(mul_mod(10, 5, 17) == 16);
}

proof fn lemma_cofactor_curve_step_6()
    ensures
        jac_double::<CofactorTwoCurve, 1>((12nat, 15nat, 16nat)) == (3nat, 9nat, 4nat),
{
        assert(base_modulus::<CofactorTwoCurve, 1>() == 17);
        assert(mul_mod(12, 12, 17) == 8);
        assert(mul_mod(15, 15, 17) == 4);
        assert(mul_mod(4, 4, 17) == 16);
        assert(mul_mod(16, 16, 17) == 1);
        assert(mul_mod(12, 4, 17) == 14);
        assert(add_mod(14, 14, 17) == 11);
        assert(add_mod(11, 11, 17) == 5);
        assert(add_mod(8, 8, 17) == 16);
        assert(add_mod(16, 8, 17) == 7);
        assert(mul_mod(1, 1, 17) == 1);
        assert(mul_mod(1, 2, 17) == 2);
        assert(add_mod(7, 2, 17) == 9);
        assert(mul_mod(9, 9, 17) == 13);
        assert(add_mod(5, 5, 17) == 10);
        assert(sub_mod(13, 10, 17) == 3);
        assert(add_mod(16, 16, 17) == 15);
        assert(add_mod(15, 15, 17) == 13);
        assert(add_mod(13, 13, 17) == 9);
        assert(sub_mod(5, 3, 17) == 2);
        assert(mul_mod(9, 2, 17) == 1);
        assert(sub_mod(1, 9, 17) == 9);
        assert(mul_mod(15, 16, 17) == 2);
        assert(add_mod(2, 2, 17) == 4);
}

proof fn lemma_cofactor_curve_step_7()
    ensures
        jac_add::<CofactorTwoCurve, 1>((3nat, 9nat, 4nat), (14nat, 15nat, 1nat)) == (1nat, 1nat, 0nat),
{
        assert(base_modulus::<CofactorTwoCurve, 1>() == 17);
        assert(mul_mod(4, 4, 17) == 16);
        assert(mul_mod(1, 1, 17) == 1);
        assert(mul_mod(3, 1, 17) == 3);
        assert(mul_mod(14, 16, 17) == 3);
        assert(mul_mod(9, 1, 17) == 9);
        assert(mul_mod(9, 1, 17) == 9);
        assert(mul_mod(15, 4, 17) == 9);
        assert(mul_mod(9, 16, 17) == 8);
}

} // verus!
