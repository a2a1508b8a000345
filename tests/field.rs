use stylus_crypto::field::{AdditiveGroup, Field};
use stylus_crypto::small::{F17, F19};
use std::cmp::Ordering;

fn val(a: &F17) -> u64 {
    a.into_bigint()[0]
}

fn f(x: u64) -> F17 {
    F17::from_u64(x)
}

#[test]
fn worked_scenario_mod_17() {
    let a = f(9);
    let b = f(10);
    assert_eq!(val(&a.add(b)), 2);
    assert_eq!(val(&a.sub(b)), 16);
    assert_eq!(val(&a.mul(b)), 5);
    assert_eq!(val(&a.square()), 13);
    assert_eq!(val(&b.double()), 3);
    assert!(a.div(b) == a.mul(b.inverse().unwrap()));
    assert_eq!(val(&a.div(b)), 9 * 12 % 17);
    assert!(a == f(26));
}

#[test]
fn new_reduces_modulo_p() {
    assert_eq!(val(&F17::new([40])), 6);
    assert_eq!(val(&F17::new([u64::MAX])), u64::MAX % 17);
    assert!(F17::from_bigint([17]).unwrap().is_zero());
}

#[test]
fn montgomery_round_trip_for_every_residue() {
    for r in 0..17u64 {
        assert_eq!(F17::new([r]).into_bigint(), [r]);
    }
}

#[test]
fn field_axioms_on_all_small_values() {
    let zero = F17::zero();
    let one = F17::one();
    for a in 0..17u64 {
        let fa = f(a);
        assert!(fa.add(zero) == fa);
        assert!(fa.mul(one) == fa);
        assert!(fa.add(fa.neg()).is_zero());
        if a != 0 {
            assert!(fa.mul(fa.inverse().unwrap()).is_one());
        }
        for b in 0..17u64 {
            let fb = f(b);
            let c = f((a * 7 + b * 3) % 17);
            assert!(fa.add(fb).add(c) == fa.add(fb.add(c)));
            assert!(fa.mul(fb).mul(c) == fa.mul(fb.mul(c)));
            assert!(fa.mul(fb.add(c)) == fa.mul(fb).add(fa.mul(c)));
        }
    }
}

#[test]
fn zero_has_no_inverse() {
    assert!(F17::zero().inverse().is_none());
    let mut z = F17::zero();
    assert!(!z.inverse_in_place());
    let mut t = f(3);
    assert!(t.inverse_in_place());
    assert_eq!(val(&t), 6);
}

#[test]
fn negation_and_subtraction() {
    assert!(F17::zero().neg().is_zero());
    assert_eq!(val(&f(5).neg()), 12);
    assert_eq!(val(&f(3).sub(f(5))), 15);
}

#[test]
fn in_place_operations() {
    let mut a = f(9);
    a.add_assign(&f(10));
    assert_eq!(val(&a), 2);
    a.sub_assign(&f(4));
    assert_eq!(val(&a), 15);
    a.mul_assign(&f(2));
    assert_eq!(val(&a), 13);
    a.div_assign(&f(13));
    assert!(a.is_one());
    a.double_in_place();
    assert_eq!(val(&a), 2);
    a.square_in_place();
    assert_eq!(val(&a), 4);
    a.neg_in_place();
    assert_eq!(val(&a), 13);
}

#[test]
fn ordering_follows_canonical_integers() {
    assert_eq!(f(3).cmp(&f(5)), Ordering::Less);
    assert_eq!(f(20).cmp(&f(3)), Ordering::Equal);
    assert_eq!(f(16).cmp(&f(0)), Ordering::Greater);
    assert!(f(2) < f(9));
    assert!(f(16) > f(15));
}

#[test]
fn conversions_from_native_integers() {
    assert_eq!(val(&F17::from_u8(20)), 3);
    assert_eq!(val(&F17::from_u16(1000)), 1000 % 17);
    assert_eq!(val(&F17::from_u32(123_456)), 123_456 % 17);
    assert_eq!(val(&F17::from_u128(u128::MAX)), (u128::MAX % 17) as u64);
    assert_eq!(val(&F17::from_u128((5u128 << 64) + 7)), (((5u128 << 64) + 7) % 17) as u64);
    assert_eq!(val(&F17::from_i8(-5)), 5);
    assert_eq!(val(&F17::from_i16(-20)), 3);
    assert_eq!(val(&F17::from_i32(-1)), 1);
    assert_eq!(val(&F17::from_i64(i64::MIN)), ((1u128 << 63) % 17) as u64);
    assert_eq!(val(&F17::from_i128(i128::MIN)), ((1u128 << 127) % 17) as u64);
    assert!(F17::from_bool(true).is_one());
    assert!(F17::from_bool(false).is_zero());
}

#[test]
fn pow_and_sqrt() {
    assert_eq!(val(&f(3).pow(&[4])), 81 % 17);
    assert!(f(3).pow(&[16]).is_one());
    assert!(f(5).pow(&[0, 0]).is_one());
    assert_eq!(val(&f(2).pow(&[0, 1])), {
        // 2^(2^64) mod 17: 2 has order 8 and 2^64 is a multiple of 8.
        1
    });
    for a in 0..17u64 {
        let fa = f(a);
        let is_square = (0..17u64).any(|y| y * y % 17 == a);
        match fa.sqrt() {
            Some(y) => assert!(y.square() == fa),
            None => assert!(!is_square),
        }
        assert_eq!(fa.sqrt().is_some(), is_square);
    }
}

#[test]
fn modulus_queries() {
    assert_eq!(F17::characteristic(), [17]);
    assert_eq!(F17::extension_degree(), 1);
    assert!(!f(16).is_geq_modulus());
    assert!(F17::new_unchecked([17]).is_geq_modulus());
}

#[test]
fn zeroize_clears_the_limbs() {
    let mut a = f(11);
    a.zeroize();
    assert_eq!(a.0, [0]);
    assert!(a.is_zero());
}

#[test]
fn sign_and_limbs() {
    assert_eq!(val(&F17::from_sign_and_limbs(true, &[20])), 3);
    assert_eq!(val(&F17::from_sign_and_limbs(false, &[20])), 14);
    assert!(F17::from_sign_and_limbs(false, &[]).is_zero());
}

#[test]
fn field_element_from_bytes() {
    assert_eq!(val(&F17::from_random_bytes(&[16, 0, 0, 0, 0, 0, 0, 0]).unwrap()), 16);
    assert_eq!(val(&F17::from_random_bytes(&[3, 0, 0, 0, 0, 0, 0, 0, 99]).unwrap()), 3);
    assert!(F17::from_random_bytes(&[17, 0, 0, 0, 0, 0, 0, 0]).is_none());
    assert!(F17::from_random_bytes(&[0, 0, 0, 0, 0, 0, 0, 1]).is_none());
    assert!(F17::from_random_bytes(&[1, 2, 3]).is_none());
}

#[test]
fn sums_and_products() {
    let items = [f(9), f(10), f(5)];
    assert_eq!(val(&F17::sum(&items)), 24 % 17);
    assert_eq!(val(&F17::product(&items)), 450 % 17);
    assert!(F17::sum(&[]).is_zero());
    assert!(F17::product(&[]).is_one());
}

#[test]
fn pow_from_a_table_of_squares() {
    let a = f(3);
    let table = [a, a.square(), a.square().square(), a.square().square().square()];
    // 11 = 0b1011 uses entries 0, 1 and 3.
    assert!(F17::pow_with_table(&table, &[11]).unwrap() == a.pow(&[11]));
    assert!(F17::pow_with_table(&table, &[0]).unwrap().is_one());
    // bit 4 is set but the table stops at 2^3.
    assert!(F17::pow_with_table(&table, &[16]).is_none());
    assert!(F17::pow_with_table(&table, &[0, 1]).is_none());
}


fn v19(a: &F19) -> u128 {
    let l = a.into_bigint();
    (l[0] as u128) | ((l[1] as u128) << 64)
}

#[test]
fn two_limb_field_arithmetic() {
    for a in 0..19u64 {
        let fa = F19::from_u64(a);
        assert_eq!(F19::new([a, 0]).into_bigint(), [a, 0]);
        for b in 0..19u64 {
            let fb = F19::from_u64(b);
            assert_eq!(v19(&fa.add(fb)), ((a + b) % 19) as u128);
            assert_eq!(v19(&fa.sub(fb)), ((a + 19 - b) % 19) as u128);
            assert_eq!(v19(&fa.mul(fb)), ((a * b) % 19) as u128);
            if b != 0 {
                assert_eq!(v19(&fa.div(fb).mul(fb)), a as u128);
            }
        }
        match fa.inverse() {
            Some(i) => assert!(fa.mul(i).is_one()),
            None => assert_eq!(a, 0),
        }
        let is_square = (0..19u64).any(|y| y * y % 19 == a);
        assert_eq!(fa.sqrt().is_some(), is_square);
        if let Some(y) = fa.sqrt() {
            assert!(y.square() == fa);
        }
    }
}

#[test]
fn two_limb_reduction_of_wide_integers() {
    let x: u128 = (7u128 << 64) + 5;
    assert_eq!(v19(&F19::new([5, 7])), x % 19);
    assert_eq!(v19(&F19::new([u64::MAX, u64::MAX])), u128::MAX % 19);
    assert_eq!(v19(&F19::from_u128(u128::MAX - 3)), (u128::MAX - 3) % 19);
    assert!(F19::new_unchecked([0, 1]).is_geq_modulus());
    assert_eq!(v19(&F19::from_u64(2).pow(&[18])), 1);
    assert_eq!(v19(&F19::from_u64(2).pow(&[5, 0])), 32 % 19);
    assert_eq!(F19::from_u64(18).to_string(), "18");
    assert_eq!(F19::characteristic(), [19, 0]);
}

fn generic_expression<F: Field>(x: F, y: F) -> F {
    // (x + y)^2 - 2x, through the trait surface only
    let mut s = AdditiveGroup::add(x, y);
    Field::square_in_place(&mut s);
    let mut d = AdditiveGroup::double(&x);
    AdditiveGroup::neg_in_place(&mut d);
    AdditiveGroup::add(s, d)
}

#[test]
fn trait_surface_of_prime_fields() {
    let r = generic_expression(f(3), f(4));
    assert_eq!(val(&r), (49 - 6) % 17);
    let r19 = generic_expression(F19::from_u64(3), F19::from_u64(4));
    assert_eq!(v19(&r19), (49 - 6) % 19);
    assert_eq!(<F17 as Field>::characteristic(), vec![17]);
    assert_eq!(<F19 as Field>::characteristic(), vec![19, 0]);
    assert_eq!(<F17 as Field>::extension_degree(), 1);
    assert!(<F17 as Field>::inverse(&<F17 as AdditiveGroup>::zero()).is_none());
    let three = f(3);
    assert!(<F17 as Field>::mul(three, <F17 as Field>::inverse(&three).unwrap()) == <F17 as Field>::one());
    assert_eq!(val(&<F17 as Field>::square(&f(5))), 8);
    let mut t = f(5);
    <F17 as AdditiveGroup>::double_in_place(&mut t);
    assert_eq!(val(&t), 10);
    assert_eq!(val(&<F17 as AdditiveGroup>::neg(f(5))), 12);
}

#[test]
fn equal_elements_hash_alike() {
    let mut set = std::collections::HashSet::new();
    set.insert(f(3));
    set.insert(f(20));
    set.insert(F17::from_i64(-3));
    assert_eq!(set.len(), 1);
    assert!(format!("{:?}", f(1)).len() > 0);
}

#[test]
fn multiplicative_generators() {
    let g = F17::generator();
    assert_eq!(val(&g), 3);
    let mut seen = std::collections::HashSet::new();
    for e in 1..17u64 {
        seen.insert(val(&g.pow(&[e])));
    }
    assert_eq!(seen.len(), 16);
    let h = F19::generator();
    assert_eq!(v19(&h), 2);
    for e in 1..18u64 {
        assert!(!h.pow(&[e]).is_one());
    }
    assert!(h.pow(&[18]).is_one());
}
