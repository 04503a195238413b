use ark_bls12_381::Fq;
use ark_ff::biginteger::BigInteger384;
use ark_ff::{PrimeField, UniformRand};
use freivald::{check_matrix_dimensions, Fe, Freivald, FreivaldError, Matrix};
use ndarray::{Array2, Axis};
use rand::SeedableRng;
use rand_chacha::ChaCha8Rng;

fn fe(v: u64) -> Fe {
    Fe::from_u64(v)
}

fn fq_to_fe(x: &Fq) -> Fe {
    Fe::from_limbs(x.into_repr().0).unwrap()
}

fn fe_to_fq(e: &Fe) -> Fq {
    Fq::from_repr(BigInteger384(e.limbs())).unwrap()
}

fn small(rows: &[&[u64]]) -> Matrix {
    Matrix::from_rows(rows.iter().map(|r| r.iter().map(|&v| fe(v)).collect()).collect()).unwrap()
}

fn from_array(a: &Array2<Fq>) -> Matrix {
    let rows = a.axis_iter(Axis(0)).map(|row| row.iter().map(fq_to_fe).collect()).collect();
    Matrix::from_rows(rows).unwrap()
}

fn create_matrix(rng_seed: u64, size: usize, dot_self: bool) -> Array2<Fq> {
    let rng = &mut ChaCha8Rng::seed_from_u64(rng_seed);
    let mut c = Array2::<Fq>::zeros((size, size));
    for mut row in c.axis_iter_mut(Axis(0)) {
        for col in row.iter_mut() {
            *col = Fq::rand(rng);
        }
    }
    if dot_self {
        return c.dot(&c);
    }
    c
}

#[test]
fn freivald_verify_multiple_iterations() {
    let a = create_matrix(1, 200, false);
    let a_dot_a = create_matrix(1, 200, true);
    let freivald = Freivald::new(a_dot_a.nrows(), 2).unwrap();
    assert!(freivald.verify(&from_array(&a), &from_array(&a), &from_array(&a_dot_a)));
}

#[test]
fn random_wrong_product_rejected() {
    let a = from_array(&create_matrix(1, 40, false));
    let b = from_array(&create_matrix(2, 40, false));
    let a_dot_a = from_array(&create_matrix(1, 40, true));
    let freivald = Freivald::new(40, 1).unwrap();
    assert!(!freivald.verify(&a, &b, &a_dot_a));
    assert!(freivald.verify(&a, &a, &a_dot_a));
}

#[test]
fn small_product_accepted() {
    let a = small(&[&[1, 2], &[3, 4]]);
    let b = small(&[&[5, 6], &[7, 8]]);
    let c = small(&[&[19, 22], &[43, 50]]);
    assert!(Freivald::new(2, 1).unwrap().verify(&a, &b, &c));
    assert!(Freivald::new(2, 4).unwrap().verify(&a, &b, &c));
}

#[test]
fn small_perturbed_product_rejected() {
    let a = small(&[&[1, 2], &[3, 4]]);
    let b = small(&[&[5, 6], &[7, 8]]);
    let c = small(&[&[19, 22], &[43, 51]]);
    assert!(!Freivald::new(2, 1).unwrap().verify(&a, &b, &c));
    assert!(!Freivald::new(2, 4).unwrap().verify(&a, &b, &c));
    let seeded = Freivald::from_seeds(2, &vec![fe(2)]).unwrap();
    assert!(!seeded.verify(&a, &b, &c));
}

#[test]
fn zero_matrices_accepted() {
    let z = small(&[&[0, 0, 0], &[0, 0, 0], &[0, 0, 0]]);
    for k in 1..5 {
        assert!(Freivald::new(3, k).unwrap().verify(&z, &z, &z));
    }
}

#[test]
fn identity_times_b_is_b() {
    let i = small(&[&[1, 0, 0], &[0, 1, 0], &[0, 0, 1]]);
    let b = small(&[&[4, 9, 2], &[3, 5, 7], &[8, 1, 6]]);
    assert!(Freivald::new(3, 3).unwrap().verify(&i, &b, &b));
}

#[test]
fn negated_off_diagonal_entry_rejected() {
    let a = small(&[&[1, 2], &[3, 4]]);
    let b = small(&[&[5, 6], &[7, 8]]);
    let minus_22 = fq_to_fe(&(-Fq::from(22u64)));
    let c = Matrix::from_rows(vec![vec![fe(19), minus_22], vec![fe(43), fe(50)]]).unwrap();
    assert!(!Freivald::new(2, 1).unwrap().verify(&a, &b, &c));
    assert!(!Freivald::new(2, 3).unwrap().verify(&a, &b, &c));
}

#[test]
fn independent_stores_agree() {
    let a = small(&[&[1, 2], &[3, 4]]);
    let b = small(&[&[5, 6], &[7, 8]]);
    let good = small(&[&[19, 22], &[43, 50]]);
    let bad = small(&[&[19, 22], &[43, 51]]);
    let x1 = Freivald::new(2, 2).unwrap();
    let x2 = Freivald::new(2, 2).unwrap();
    assert!(x1.verify(&a, &b, &good));
    assert!(x2.verify(&a, &b, &good));
    assert!(!x1.verify(&a, &b, &bad));
    assert!(!x2.verify(&a, &b, &bad));
}

#[test]
fn both_orders_accepted() {
    let a = small(&[&[1, 2], &[3, 4]]);
    let b = small(&[&[5, 6], &[7, 8]]);
    let ab = small(&[&[19, 22], &[43, 50]]);
    let ba = small(&[&[23, 34], &[31, 46]]);
    let x = Freivald::new(2, 3).unwrap();
    assert!(x.verify(&a, &b, &ab));
    assert!(x.verify(&b, &a, &ba));
    assert!(!x.verify(&b, &a, &ab));
}

#[test]
fn repeated_calls_agree() {
    let a = small(&[&[1, 2], &[3, 4]]);
    let b = small(&[&[5, 6], &[7, 8]]);
    let bad = small(&[&[19, 22], &[43, 51]]);
    let x = Freivald::new(2, 2).unwrap();
    let first = x.verify(&a, &b, &bad);
    for _ in 0..3 {
        assert_eq!(x.verify(&a, &b, &bad), first);
    }
}

#[test]
fn scalar_case() {
    let x = Freivald::new(1, 2).unwrap();
    assert!(x.verify(&small(&[&[3]]), &small(&[&[4]]), &small(&[&[12]])));
    assert!(!x.verify(&small(&[&[3]]), &small(&[&[4]]), &small(&[&[13]])));
}

#[test]
fn zero_seed_compares_first_columns_only() {
    let x = Freivald::from_seeds(2, &vec![fe(0)]).unwrap();
    assert_eq!(x.challenge(0).clone(), vec![fe(1), fe(0)]);
    let a = small(&[&[1, 2], &[3, 4]]);
    let b = small(&[&[5, 6], &[7, 8]]);
    let wrong_second_column = small(&[&[19, 0], &[43, 0]]);
    assert!(x.verify(&a, &b, &wrong_second_column));
    let wrong_first_column = small(&[&[18, 22], &[43, 50]]);
    assert!(!x.verify(&a, &b, &wrong_first_column));
}

#[test]
fn challenges_are_geometric() {
    let x = Freivald::from_seeds(4, &vec![fe(3), fe(1), fe(10)]).unwrap();
    assert_eq!(x.dimension(), 4);
    assert_eq!(x.trials(), 3);
    assert_eq!(x.challenge(0).clone(), vec![fe(1), fe(3), fe(9), fe(27)]);
    assert_eq!(x.challenge(1).clone(), vec![fe(1), fe(1), fe(1), fe(1)]);
    assert_eq!(x.challenge(2).clone(), vec![fe(1), fe(10), fe(100), fe(1000)]);
}

#[test]
fn random_challenges_are_geometric() {
    let x = Freivald::new(5, 3).unwrap();
    assert_eq!(x.dimension(), 5);
    assert_eq!(x.trials(), 3);
    for j in 0..3 {
        let v = x.challenge(j);
        assert_eq!(v.len(), 5);
        assert_eq!(v[0], fe(1));
        let r = fe_to_fq(&v[1]);
        for i in 0..4 {
            assert_eq!(fe_to_fq(&v[i + 1]), fe_to_fq(&v[i]) * r);
        }
    }
    assert!(x.challenge(0) != x.challenge(1) || x.challenge(1) != x.challenge(2));
}

#[test]
fn first_mismatch_stops_at_first_failing_trial() {
    let a = small(&[&[1, 2], &[3, 4]]);
    let b = small(&[&[5, 6], &[7, 8]]);
    let wrong_second_column = small(&[&[19, 0], &[43, 0]]);
    let x = Freivald::from_seeds(2, &vec![fe(0), fe(2), fe(5)]).unwrap();
    assert_eq!(x.first_mismatch(&a, &b, &wrong_second_column), Some(1));
    assert!(!x.verify(&a, &b, &wrong_second_column));
    let good = small(&[&[19, 22], &[43, 50]]);
    assert_eq!(x.first_mismatch(&a, &b, &good), None);
}

#[test]
fn invalid_dimensions_refused() {
    assert_eq!(Freivald::new(0, 1).err(), Some(FreivaldError::InvalidDimension));
    assert_eq!(Freivald::new(2, 0).err(), Some(FreivaldError::InvalidDimension));
    assert_eq!(Freivald::from_seeds(0, &vec![fe(2)]).err(), Some(FreivaldError::InvalidDimension));
    assert_eq!(Freivald::from_seeds(2, &vec![]).err(), Some(FreivaldError::InvalidDimension));
}

#[test]
fn verify_once_checks_product() {
    let a = small(&[&[1, 2], &[3, 4]]);
    let b = small(&[&[5, 6], &[7, 8]]);
    assert!(Freivald::verify_once(&a, &b, &small(&[&[19, 22], &[43, 50]])));
    assert!(!Freivald::verify_once(&a, &b, &small(&[&[19, 22], &[43, 51]])));
    let empty = Matrix::from_rows(vec![]).unwrap();
    assert!(Freivald::verify_once(&empty, &empty, &empty));
}

#[test]
fn matrix_vector_product() {
    let a = small(&[&[1, 2], &[3, 4]]);
    assert_eq!(a.mul_vec(&vec![fe(5), fe(6)]), vec![fe(17), fe(39)]);
    let p_minus_1 = fq_to_fe(&(-Fq::from(1u64)));
    let m = Matrix::from_rows(vec![vec![p_minus_1, fe(2)]]).unwrap();
    assert_eq!(m.mul_vec(&vec![p_minus_1, fe(3)]), vec![fe(7)]);
}

#[test]
fn ragged_rows_refused() {
    assert!(Matrix::from_rows(vec![vec![fe(1), fe(2)], vec![fe(3)]]).is_none());
    let m = Matrix::from_rows(vec![vec![fe(1), fe(2), fe(3)]]).unwrap();
    assert_eq!((m.nrows(), m.ncols()), (1, 3));
}

#[test]
fn dimension_check() {
    let a = small(&[&[1, 2], &[3, 4]]);
    let r = small(&[&[1, 2]]);
    assert!(check_matrix_dimensions(&a, &a, &a, 2));
    assert!(!check_matrix_dimensions(&a, &a, &a, 3));
    assert!(!check_matrix_dimensions(&a, &r, &a, 2));
}

#[test]
fn limbs_below_modulus_only() {
    let p = [
        0xb9fe_ffff_ffff_aaab,
        0x1eab_fffe_b153_ffff,
        0x6730_d2a0_f6b0_f624,
        0x6477_4b84_f385_12bf,
        0x4b1b_a7b6_434b_acd7,
        0x1a01_11ea_397f_e69a,
    ];
    assert!(Fe::from_limbs(p).is_none());
    assert!(Fe::from_limbs([u64::MAX; 6]).is_none());
    let mut below = p;
    below[0] -= 1;
    let e = Fe::from_limbs(below).unwrap();
    assert_eq!(e.limbs(), below);
    assert_eq!(e, fq_to_fe(&(-Fq::from(1u64))));
    assert_eq!(fe(7).limbs(), [7, 0, 0, 0, 0, 0]);
    assert_eq!(Fe::zero(), fe(0));
}
