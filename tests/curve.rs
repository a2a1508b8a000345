use stylus_crypto::affine::{Affine, SWFlags};
use stylus_crypto::curve::{
    clear_cofactor, is_in_correct_subgroup_assuming_on_curve, mul_affine, mul_projective, SWCurveConfig,
};
use stylus_crypto::projective::Projective;
use stylus_crypto::encoding::{deserialize_compressed, serialize_compressed, DecodeError};
use stylus_crypto::small::{CofactorTwoCurve, PrimeOrderCurve, F17, F19};

type G1 = Affine<PrimeOrderCurve, 1>;
type Proj = Projective<PrimeOrderCurve, 1>;
type G2 = Affine<CofactorTwoCurve, 1>;

fn f(x: u64) -> F17 {
    F17::from_u64(x)
}

fn coords<C: SWCurveConfig<1, BaseConfig = stylus_crypto::small::F17Config>>(
    p: &Affine<C, 1>,
) -> Option<(u64, u64)> {
    if p.infinity {
        None
    } else {
        Some((p.x.into_bigint()[0], p.y.into_bigint()[0]))
    }
}

fn norm(p: &Proj) -> Option<(u64, u64)> {
    coords(&p.into_affine())
}

/// Multiples k·G of the generator (5, 1), k = 1..=18.
const MULTIPLES: [(u64, u64); 18] = [
    (5, 1), (6, 3), (10, 6), (3, 1), (9, 16), (16, 13), (0, 6), (13, 7), (7, 6),
    (7, 11), (13, 10), (0, 11), (16, 4), (9, 1), (3, 16), (10, 11), (6, 14), (5, 16),
];

fn point(x: u64, y: u64) -> G1 {
    G1::new_unchecked(f(x), f(y))
}

#[test]
fn generator_is_on_curve_and_in_subgroup() {
    let g = G1::generator();
    assert_eq!(coords(&g), Some((5, 1)));
    assert!(g.is_on_curve());
    assert!(g.is_in_correct_subgroup_assuming_on_curve());
    let h = G2::generator();
    assert!(h.is_on_curve());
    assert!(h.is_in_correct_subgroup_assuming_on_curve());
}

#[test]
fn on_curve_checks() {
    assert!(G1::identity().is_on_curve());
    assert!(point(6, 3).is_on_curve());
    assert!(!point(6, 4).is_on_curve());
    let checked = G1::new(f(10), f(6));
    assert_eq!(coords(&checked), Some((10, 6)));
}

#[test]
fn identity_and_default() {
    let id = G1::identity();
    assert!(id.infinity);
    assert!(id.x.is_zero() && id.y.is_zero());
    assert!(G1::zero().infinity);
    assert!(G1::default().infinity);
    assert_eq!(id.xy().is_none(), true);
    let (x, y) = point(5, 1).xy().unwrap();
    assert!(x == f(5) && y == f(1));
}

#[test]
fn ys_from_x_are_sorted_roots_on_the_curve() {
    let mut found = 0;
    for x in 0..17u64 {
        let rhs = (x * x * x + 2 * x + 2) % 17;
        match G1::get_ys_from_x_unchecked(f(x)) {
            Some((s, l)) => {
                found += 1;
                assert!(s <= l);
                assert!(l == s.neg());
                assert!(point(x, s.into_bigint()[0]).is_on_curve());
                assert!(point(x, l.into_bigint()[0]).is_on_curve());
            }
            None => assert!((0..17u64).all(|y| y * y % 17 != rhs)),
        }
    }
    // 18 finite points: one x with a double root would be counted once.
    assert_eq!(found, 9);
    let (s, l) = G1::get_ys_from_x_unchecked(f(5)).unwrap();
    assert_eq!((s.into_bigint()[0], l.into_bigint()[0]), (1, 16));
    assert!(G1::get_ys_from_x_unchecked(f(1)).is_none());
}

#[test]
fn point_from_x_picks_the_requested_root() {
    let larger = G1::get_point_from_x_unchecked(f(5), true).unwrap();
    let smaller = G1::get_point_from_x_unchecked(f(5), false).unwrap();
    assert_eq!(coords(&larger), Some((5, 16)));
    assert_eq!(coords(&smaller), Some((5, 1)));
    assert!(G1::get_point_from_x_unchecked(f(1), true).is_none());
}

#[test]
fn flags_follow_the_root_order() {
    assert_eq!(G1::identity().to_flags(), SWFlags::PointAtInfinity);
    assert_eq!(point(5, 1).to_flags(), SWFlags::YIsPositive);
    assert_eq!(point(5, 16).to_flags(), SWFlags::YIsNegative);
    let order_two = G2::new_unchecked(f(16), f(0));
    assert_eq!(order_two.to_flags(), SWFlags::YIsPositive);
}

#[test]
fn negation() {
    assert_eq!(coords(&point(5, 1).neg()), Some((5, 16)));
    assert!(G1::identity().neg().infinity);
    let p = point(6, 3).into_group();
    assert_eq!(norm(&p.neg()), Some((6, 14)));
}

#[test]
fn group_law_identities() {
    let id = Proj::zero();
    for &(x, y) in MULTIPLES.iter() {
        let p = point(x, y).into_group();
        assert_eq!(norm(&p.add(id)), Some((x, y)));
        assert_eq!(norm(&id.add(p)), Some((x, y)));
        assert!(p.add(p.neg()).is_zero());
        assert_eq!(norm(&p.double()), norm(&p.add(p)));
    }
}

#[test]
fn group_law_matches_the_multiples_table() {
    let g = point(5, 1).into_group();
    let mut acc = Proj::zero();
    for k in 0..18 {
        acc = acc.add(g);
        assert_eq!(norm(&acc), Some(MULTIPLES[k]));
    }
    assert!(acc.add(g).is_zero());
}

#[test]
fn group_law_is_associative_on_samples() {
    for i in 0..18 {
        for j in (0..18).step_by(5) {
            for k in (0..18).step_by(7) {
                let p = point(MULTIPLES[i].0, MULTIPLES[i].1).into_group();
                let q = point(MULTIPLES[j].0, MULTIPLES[j].1).into_group();
                let r = point(MULTIPLES[k].0, MULTIPLES[k].1).into_group();
                assert_eq!(norm(&p.add(q).add(r)), norm(&p.add(q.add(r))));
                let expected = (i + j + k + 3) % 19;
                if expected == 0 {
                    assert!(p.add(q).add(r).is_zero());
                } else {
                    assert_eq!(norm(&p.add(q).add(r)), Some(MULTIPLES[expected - 1]));
                }
            }
        }
    }
}

#[test]
fn affine_addition_and_subtraction() {
    let g = point(5, 1);
    let two_g = point(6, 3);
    assert_eq!(norm(&g.add(g)), Some((6, 3)));
    assert_eq!(norm(&two_g.sub(g)), Some((5, 1)));
    assert!(g.sub(g).is_zero());
    assert_eq!(norm(&g.add_projective(two_g.into_group())), Some((10, 6)));
    assert_eq!(norm(&two_g.sub_projective(g.into_group())), Some((5, 1)));
    assert_eq!(norm(&two_g.into_group().sub(g.into_group())), Some((5, 1)));
}

#[test]
fn scalar_multiplication() {
    let g = G1::generator();
    assert!(g.mul_bigint(&[0]).is_zero());
    assert!(g.mul_bigint(&[0, 0, 0]).is_zero());
    assert_eq!(norm(&g.mul_bigint(&[1])), Some((5, 1)));
    assert_eq!(norm(&g.mul_bigint(&[1, 0])), Some((5, 1)));
    assert!(g.mul_bigint(&[19]).is_zero());
    assert!(g.mul_bigint(&[38]).is_zero());
    for k in 1..19u64 {
        assert_eq!(norm(&g.mul_bigint(&[k])), Some(MULTIPLES[k as usize - 1]));
        assert_eq!(norm(&mul_affine(&g, &[k])), Some(MULTIPLES[k as usize - 1]));
        assert_eq!(norm(&mul_projective(&g.into_group(), &[k])), Some(MULTIPLES[k as usize - 1]));
    }
    // 2^64 mod 19 = 17, so the two-limb scalar [0, 1] gives 17·G.
    assert_eq!(norm(&g.mul_bigint(&[0, 1])), Some(MULTIPLES[16]));
    let h = G2::generator();
    assert!(h.mul_bigint(&[11]).is_zero());
}

#[test]
fn coordinate_round_trip() {
    for &(x, y) in MULTIPLES.iter() {
        let p = point(x, y);
        let back = G1::from_projective(p.into_group());
        assert!(back.x.0 == p.x.0 && back.y.0 == p.y.0 && !back.infinity);
    }
    let id = G1::from_projective(G1::identity().into_group());
    assert!(id.infinity && id.x.is_zero() && id.y.is_zero());
    // A point with Z different from one: (X, Y, Z) = (x z^2, y z^3, z) with z = 3.
    let z = f(3);
    let scaled = Proj { x: f(6).mul(z.square()), y: f(3).mul(z.square().mul(z)), z };
    assert_eq!(norm(&scaled), Some((6, 3)));
}

#[test]
fn subgroup_membership_and_cofactor_clearing() {
    let outside = G2::new_unchecked(f(2), f(7));
    assert!(outside.is_on_curve());
    assert!(!outside.is_in_correct_subgroup_assuming_on_curve());
    assert!(!is_in_correct_subgroup_assuming_on_curve(&outside));
    let cleared = outside.clear_cofactor();
    assert_eq!(coords(&cleared), Some((14, 15)));
    assert!(cleared.is_in_correct_subgroup_assuming_on_curve());
    assert_eq!(coords(&clear_cofactor(&outside)), Some((14, 15)));
    assert_eq!(coords(&outside.mul_by_cofactor_to_group().into_affine()), Some((14, 15)));
    let order_two = G2::new_unchecked(f(16), f(0));
    assert!(order_two.clear_cofactor().infinity);
    // cofactor one: every point passes
    assert!(point(7, 6).is_in_correct_subgroup_assuming_on_curve());
}

#[test]
fn coefficient_helpers() {
    assert_eq!(PrimeOrderCurve::mul_by_a(f(7)).into_bigint(), [14]);
    assert_eq!(PrimeOrderCurve::add_b(f(16)).into_bigint(), [1]);
    assert_eq!(CofactorTwoCurve::add_b(f(16)).into_bigint(), [2]);
}

#[test]
fn affine_zeroize() {
    let mut p = point(5, 1);
    p.zeroize();
    assert_eq!(p.x.0, [0]);
    assert_eq!(p.y.0, [0]);
    assert!(!p.infinity);
}

#[test]
fn compressed_round_trip_for_every_point() {
    let mut pts: Vec<G1> = MULTIPLES.iter().map(|&(x, y)| point(x, y)).collect();
    pts.push(G1::identity());
    for p in pts.iter() {
        let bytes = serialize_compressed(p);
        assert_eq!(bytes.len(), 9);
        let q = deserialize_compressed::<PrimeOrderCurve, 1>(&bytes, true).unwrap();
        assert_eq!(coords(&q), coords(p));
        assert_eq!(q.infinity, p.infinity);
    }
    let bytes = serialize_compressed(&point(5, 16));
    assert_eq!(bytes, vec![5, 0, 0, 0, 0, 0, 0, 0, 1]);
    let bytes = serialize_compressed(&G1::identity());
    assert_eq!(bytes, vec![0, 0, 0, 0, 0, 0, 0, 0, 2]);
}

#[test]
fn compressed_decoding_rejects_bad_input() {
    let d = |b: &[u8]| deserialize_compressed::<PrimeOrderCurve, 1>(b, true).err();
    assert_eq!(d(&[5, 0, 0, 0, 0, 0, 0, 0]), Some(DecodeError::WrongLength));
    assert_eq!(d(&[]), Some(DecodeError::WrongLength));
    assert_eq!(d(&[5, 0, 0, 0, 0, 0, 0, 0, 3]), Some(DecodeError::UnknownFlag));
    assert_eq!(d(&[17, 0, 0, 0, 0, 0, 0, 0, 0]), Some(DecodeError::CoordinateNotReduced));
    assert_eq!(d(&[0, 0, 0, 0, 0, 0, 0, 1, 0]), Some(DecodeError::CoordinateNotReduced));
    assert_eq!(d(&[1, 0, 0, 0, 0, 0, 0, 0, 0]), Some(DecodeError::NoPointAtX));
    assert_eq!(d(&[4, 0, 0, 0, 0, 0, 0, 0, 2]), Some(DecodeError::NonZeroInfinity));
    let outside = serialize_compressed(&G2::new_unchecked(f(2), f(7)));
    assert_eq!(
        deserialize_compressed::<CofactorTwoCurve, 1>(&outside, true).err(),
        Some(DecodeError::NotInSubgroup)
    );
    let q = deserialize_compressed::<CofactorTwoCurve, 1>(&outside, false).unwrap();
    assert_eq!(coords(&q), Some((2, 7)));
}

#[test]
fn projective_equality_ignores_scaling() {
    let z = f(5);
    let p = point(6, 3).into_group();
    let scaled = Proj { x: f(6).mul(z.square()), y: f(3).mul(z.square().mul(z)), z };
    assert!(p.equals(&scaled));
    assert!(point(6, 3).equals_projective(&scaled));
    assert!(!point(6, 14).equals_projective(&scaled));
    assert!(Proj::zero().equals(&G1::identity().into_group()));
    assert!(!Proj::zero().equals(&p));
}

#[test]
fn multiplication_by_a_scalar_field_element() {
    let g = G1::generator();
    assert_eq!(norm(&g.mul_scalar(F17::from_u64(3))), Some(MULTIPLES[2]));
    assert!(g.mul_scalar(F17::zero()).is_zero());
}

#[test]
fn point_from_random_bytes() {
    let p = G1::from_random_bytes(&[5, 0, 0, 0, 0, 0, 0, 0, 1]).unwrap();
    assert_eq!(coords(&p), Some((5, 16)));
    assert!(G1::from_random_bytes(&[0, 0, 0, 0, 0, 0, 0, 0, 2]).unwrap().infinity);
    assert!(G1::from_random_bytes(&[1, 0, 0, 0, 0, 0, 0, 0, 0]).is_none());
    assert!(G1::from_random_bytes(&[1, 0]).is_none());
}

#[test]
fn multiplication_by_scalar_field_elements_of_two_limbs() {
    let g = G1::generator();
    for k in 0..19u64 {
        let r = g.mul_scalar(F19::from_u64(k));
        if k == 0 {
            assert!(r.is_zero());
        } else {
            assert_eq!(norm(&r), Some(MULTIPLES[k as usize - 1]));
        }
    }
    assert!(g.mul_scalar(F19::from_u64(19)).is_zero());
}

/// Every finite point of the cofactor-two curve.
fn cofactor_curve_points() -> Vec<G2> {
    let mut pts = Vec::new();
    for x in 0..17u64 {
        for y in 0..17u64 {
            if (y * y) % 17 == (x * x * x + 2 * x + 3) % 17 {
                pts.push(G2::new_unchecked(f(x), f(y)));
            }
        }
    }
    pts
}

#[test]
fn cleared_cofactor_lands_on_the_curve_in_the_subgroup() {
    let pts = cofactor_curve_points();
    assert_eq!(pts.len(), 21);
    for p in pts.iter() {
        let c = p.clear_cofactor();
        assert!(c.is_on_curve());
        assert!(c.is_in_correct_subgroup_assuming_on_curve());
    }
}

#[test]
fn scalar_multiplication_is_repeated_addition() {
    for p in cofactor_curve_points().iter() {
        let mut acc = Projective::<CofactorTwoCurve, 1>::zero();
        for n in 0..25u64 {
            let by_bits = p.mul_bigint(&[n]);
            assert!(by_bits.equals(&acc));
            acc = acc.add(p.into_group());
        }
    }
}

#[test]
fn group_law_is_associative_on_every_triple_of_the_cofactor_curve() {
    let pts = cofactor_curve_points();
    for a in pts.iter() {
        for b in pts.iter() {
            for c in pts.iter() {
                let (pa, pb, pc) = (a.into_group(), b.into_group(), c.into_group());
                assert!(pa.add(pb).add(pc).equals(&pa.add(pb.add(pc))));
            }
        }
    }
}

#[test]
fn every_point_survives_the_compressed_round_trip() {
    let mut pts = cofactor_curve_points();
    pts.push(G2::identity());
    for p in pts.iter() {
        let bytes = serialize_compressed(p);
        let q = deserialize_compressed::<CofactorTwoCurve, 1>(&bytes, false).unwrap();
        assert!(q == *p);
        let r = G2::from_random_bytes(&bytes).unwrap();
        assert!(r == *p);
        let checked = deserialize_compressed::<CofactorTwoCurve, 1>(&bytes, true);
        assert_eq!(checked.is_ok(), p.is_in_correct_subgroup_assuming_on_curve());
    }
    // every x with no curve point is rejected
    for x in 0..17u64 {
        let has_point = (0..17u64).any(|y| (y * y) % 17 == (x * x * x + 2 * x + 3) % 17);
        let bytes = [x as u8, 0, 0, 0, 0, 0, 0, 0, 0];
        let d = deserialize_compressed::<CofactorTwoCurve, 1>(&bytes, false);
        assert_eq!(d.err() == Some(DecodeError::NoPointAtX), !has_point);
        assert_eq!(G2::from_random_bytes(&bytes).is_some(), has_point);
    }
}
