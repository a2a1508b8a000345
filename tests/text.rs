use stylus_crypto::affine::Affine;
use stylus_crypto::small::{PrimeOrderCurve, F17};
use stylus_crypto::text::limbs_to_decimal;

#[test]
fn field_elements_print_in_decimal() {
    assert_eq!(F17::from_u64(9).to_string(), "9");
    assert_eq!(F17::from_u64(16).to_string(), "16");
    assert_eq!(F17::from_u64(34).to_string(), "0");
}

#[test]
fn points_print_as_pairs_or_infinity() {
    let g = Affine::<PrimeOrderCurve, 1>::generator();
    assert_eq!(g.to_string(), "(5, 1)");
    let p = Affine::<PrimeOrderCurve, 1>::new_unchecked(F17::from_u64(16), F17::from_u64(13));
    assert_eq!(p.to_string(), "(16, 13)");
    assert_eq!(Affine::<PrimeOrderCurve, 1>::identity().to_string(), "infinity");
}

#[test]
fn multi_limb_decimal() {
    assert_eq!(limbs_to_decimal(&[0u64, 1]), b"18446744073709551616".to_vec());
    assert_eq!(
        limbs_to_decimal(&[u64::MAX, u64::MAX]),
        b"340282366920938463463374607431768211455".to_vec()
    );
    assert_eq!(limbs_to_decimal(&[0u64, 0, 0]), b"0".to_vec());
    assert_eq!(limbs_to_decimal(&[1234567890u64]), b"1234567890".to_vec());
}
