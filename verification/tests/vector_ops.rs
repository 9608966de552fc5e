use vector_operations::error::VecError;
use vector_operations::rational::Rational;
use vector_operations::vector::Vector;

fn ints(nums: Vec<i32>) -> Vector {
    Vector::new(nums, 1)
}

#[test]
fn add_zero_of_same_cardinality_is_identity() {
    let v = Vector::new(vec![3, -4], 2);
    let zero = ints(vec![0, 0]);
    let r = v.add(&zero).unwrap();
    assert!(r.equals(&v));
    assert_eq!(r.coords(), &vec![3, -4]);
}

#[test]
fn subtract_after_add_recovers_first_addend() {
    let a = ints(vec![1, 2]);
    let b = ints(vec![3, 4]);
    let sum = a.add(&b).unwrap();
    let back = sum.subtract(&b).unwrap();
    assert!(back.equals(&a));
    assert_eq!(back.coords(), &vec![1, 2]);
    assert_eq!(back.denominator(), 1);
}

#[test]
fn decompose_components_sum_to_original() {
    let a = ints(vec![3, 4]);
    let onto = ints(vec![1, 1]);
    let (vn, vp) = a.decompose(&onto).unwrap();
    let sum = vn.add(&vp).unwrap();
    assert!(sum.equals(&a));
    assert_eq!(vp.coords(), &vec![7, 7]);
    assert_eq!(vp.denominator(), 2);
    assert_eq!(vn.coords(), &vec![-1, 1]);
    assert_eq!(vn.denominator(), 2);
}

#[test]
fn dot_product_is_commutative() {
    let a = ints(vec![1, 2]);
    let b = ints(vec![3, 4]);
    let ab = a.dot_product(&b).unwrap();
    let ba = b.dot_product(&a).unwrap();
    assert!(ab.equals(&ba));
    assert_eq!(ab.num(), 11);
    assert_eq!(ab.den(), 1);
}

#[test]
fn dot_product_equalizes_dimensions() {
    let a = ints(vec![1, 2, 5]);
    let b = ints(vec![3, 4]);
    let ab = a.dot_product(&b).unwrap();
    assert_eq!(ab.num(), 11);
    assert_eq!(ab.den(), 1);
}

#[test]
fn cross_product_is_anti_commutative_in_three_dimensions() {
    let a = ints(vec![1, 2, 3]);
    let b = ints(vec![4, 5, 6]);
    let ab = a.cross_product(&b).unwrap();
    let ba = b.cross_product(&a).unwrap();
    assert_eq!(ab.coords(), &vec![-3, 6, -3]);
    let neg = ba.scale(&Rational::new(-1, 1)).unwrap();
    assert!(ab.equals(&neg));
}

#[test]
fn cross_product_embeds_planar_operands() {
    let a = ints(vec![1, 2]);
    let b = ints(vec![3, 4]);
    let ab = a.cross_product(&b).unwrap();
    assert_eq!(ab.coords(), &vec![0, 0, -2]);
    assert_eq!(ab.denominator(), 1);
}

#[test]
fn cross_product_rejects_unsupported_cardinalities() {
    let two = ints(vec![1, 2]);
    let three = ints(vec![1, 2, 3]);
    let four = ints(vec![1, 2, 3, 4]);
    assert!(matches!(two.cross_product(&three), Err(VecError::UnsupportedCardinality)));
    assert!(matches!(three.cross_product(&two), Err(VecError::UnsupportedCardinality)));
    assert!(matches!(four.cross_product(&four), Err(VecError::UnsupportedCardinality)));
}

#[test]
fn add_equalizes_dimensions() {
    let a = ints(vec![1, 2]);
    let b = ints(vec![1, 2, 3]);
    let r = a.add(&b).unwrap();
    assert_eq!(r.coords(), &vec![2, 4, 3]);
    assert_eq!(r.denominator(), 1);
}

#[test]
fn subtract_equalizes_dimensions() {
    let a = ints(vec![1, 2, 3]);
    let b = ints(vec![1, 2]);
    let r = a.subtract(&b).unwrap();
    assert_eq!(r.coords(), &vec![0, 0, 3]);
}

#[test]
fn modulus_of_three_four_is_five() {
    let v = ints(vec![3, 4]);
    let m = v.modulus().unwrap();
    assert_eq!(m.num(), 5);
    assert_eq!(m.den(), 1);
}

#[test]
fn modulus_of_zero_vector_is_zero() {
    let v = ints(vec![0, 0, 0]);
    let m = v.modulus().unwrap();
    assert_eq!(m.num(), 0);
    assert_eq!(m.den(), 1);
}

#[test]
fn modulus_rounds_down_between_squares() {
    let v = ints(vec![1, 1]);
    let m = v.modulus().unwrap();
    assert_eq!(m.num(), 1);
    assert_eq!(m.den(), 1);
}

#[test]
fn unit_of_three_four_has_denominator_five() {
    let v = ints(vec![3, 4]);
    let u = v.unit().unwrap();
    assert_eq!(u.coords(), &vec![3, 4]);
    assert_eq!(u.denominator(), 5);
}

#[test]
fn unit_of_zero_vector_is_degenerate() {
    let v = ints(vec![0, 0]);
    assert!(matches!(v.unit(), Err(VecError::DegenerateReference)));
}

#[test]
fn projection_onto_perpendicular_axis_is_zero_not_failure() {
    let a = ints(vec![2, 0]);
    let onto = ints(vec![0, 5]);
    let p = a.projected_at(&onto).unwrap();
    assert!(p.equals(&ints(vec![0, 0])));
}

#[test]
fn projection_onto_zero_vector_has_no_result() {
    let a = ints(vec![1, 2]);
    let zero = ints(vec![0, 0]);
    assert!(matches!(a.projected_at(&zero), Err(VecError::DegenerateReference)));
}

#[test]
fn projection_onto_parallel_vector_is_identity() {
    let a = ints(vec![2, 2]);
    let onto = ints(vec![5, 5]);
    let p = a.projected_at(&onto).unwrap();
    assert!(p.equals(&a));
}

#[test]
fn decompose_against_zero_vector_has_no_result() {
    let a = ints(vec![1, 2]);
    let zero = ints(vec![0, 0]);
    assert!(matches!(a.decompose(&zero), Err(VecError::DegenerateReference)));
}

#[test]
fn reflection_mirrors_across_reference() {
    let a = ints(vec![1, -1]);
    let across = ints(vec![0, 1]);
    let r = a.reflected_at(&across).unwrap();
    assert!(r.equals(&ints(vec![1, 1])));
}

#[test]
fn reflection_across_zero_vector_has_no_result() {
    let a = ints(vec![1, -1]);
    let zero = ints(vec![0, 0]);
    assert!(matches!(a.reflected_at(&zero), Err(VecError::DegenerateReference)));
}

#[test]
fn reaction_with_unit_coefficients_is_specular() {
    let a = ints(vec![1, -1]);
    let surface = ints(vec![0, 1]);
    let one = Rational::new(1, 1);
    let r = a.parameterized_reaction(&one, &surface, &one).unwrap();
    assert!(r.equals(&ints(vec![1, 1])));
    assert_eq!(r.coords(), &vec![1, 1]);
    assert_eq!(r.denominator(), 1);
}

#[test]
fn reaction_coefficients_scale_components_independently() {
    let a = ints(vec![1, -1]);
    let surface = ints(vec![0, 1]);
    let alpha = Rational::new(1, 2);
    let beta = Rational::new(3, 1);
    let r = a.parameterized_reaction(&alpha, &surface, &beta).unwrap();
    assert!(r.equals(&Vector::new(vec![1, 6], 2)));
}

#[test]
fn reaction_against_zero_vector_has_no_result() {
    let a = ints(vec![1, -1]);
    let zero = ints(vec![0, 0]);
    let one = Rational::new(1, 1);
    assert!(matches!(a.parameterized_reaction(&one, &zero, &one), Err(VecError::DegenerateReference)));
}

#[test]
fn scale_by_zero_gives_zero_vector_of_same_cardinality() {
    let v = ints(vec![4, -7, 9]);
    let r = v.scale(&Rational::new(0, 1)).unwrap();
    assert_eq!(r.cardinality(), 3);
    assert!(r.equals(&ints(vec![0, 0, 0])));
}

#[test]
fn scale_multiplies_each_coordinate() {
    let v = Vector::new(vec![4, -6], 2);
    let r = v.scale(&Rational::new(3, 2)).unwrap();
    assert_eq!(r.coords(), &vec![12, -18]);
    assert_eq!(r.denominator(), 4);
    assert!(r.equals(&Vector::new(vec![6, -9], 2)));
}

#[test]
fn normal_vec_of_three_four() {
    let v = ints(vec![3, 4]);
    let n = v.normal_vec().unwrap();
    assert_eq!(n.coords(), &vec![3, -4]);
    assert_eq!(n.denominator(), 5);
}

#[test]
fn normal_vec_of_zero_vector_has_no_result() {
    let v = ints(vec![0, 0]);
    assert!(matches!(v.normal_vec(), Err(VecError::DegenerateReference)));
}

#[test]
fn normal_vec_of_empty_vector_has_no_result() {
    let v = ints(vec![]);
    assert!(matches!(v.normal_vec(), Err(VecError::DegenerateReference)));
}

#[test]
fn signal_in_r_probes_one_indexed_coordinate() {
    let v = ints(vec![0, 0, 5]);
    assert!(v.signal_in_r(3));
    assert!(!v.signal_in_r(1));
    assert!(!v.signal_in_r(4));
    let w = ints(vec![-1]);
    assert!(!w.signal_in_r(1));
}

#[test]
fn cardinality_counts_coordinates() {
    assert_eq!(ints(vec![]).cardinality(), 0);
    assert_eq!(ints(vec![1, 2, 3]).cardinality(), 3);
}

#[test]
fn empty_vectors_behave_as_zero_dimensional() {
    let e = ints(vec![]);
    let sum = e.add(&e).unwrap();
    assert_eq!(sum.cardinality(), 0);
    let d = e.dot_product(&e).unwrap();
    assert_eq!(d.num(), 0);
    let m = e.modulus().unwrap();
    assert_eq!(m.num(), 0);
    let padded = e.add(&ints(vec![7])).unwrap();
    assert_eq!(padded.coords(), &vec![7]);
}

#[test]
fn add_reports_numeric_range_overflow() {
    let a = ints(vec![i32::MAX]);
    let r = a.add(&a);
    assert!(matches!(r, Err(VecError::NumericRange)));
}

#[test]
fn scale_reports_numeric_range_overflow() {
    let v = ints(vec![2]);
    let r = v.scale(&Rational::new(i32::MAX, 1));
    assert!(matches!(r, Err(VecError::NumericRange)));
}

#[test]
fn dot_product_reports_numeric_range_overflow() {
    let a = ints(vec![i32::MAX, i32::MAX]);
    let r = a.dot_product(&a);
    assert!(matches!(r, Err(VecError::NumericRange)));
}

#[test]
fn rational_equality_is_value_equality() {
    let half = Rational::new(1, 2);
    let two_quarters = Rational::new(2, 4);
    let third = Rational::new(1, 3);
    assert!(half.equals(&two_quarters));
    assert!(!half.equals(&third));
}

#[test]
fn vector_equality_pads_trailing_zeros() {
    let a = ints(vec![1, 2]);
    let b = ints(vec![1, 2, 0]);
    let c = ints(vec![1, 2, 3]);
    assert!(a.equals(&b));
    assert!(!a.equals(&c));
}

#[test]
fn duplicate_is_identical() {
    let v = Vector::new(vec![5, -6], 7);
    let w = v.duplicate();
    assert_eq!(w.coords(), &vec![5, -6]);
    assert_eq!(w.denominator(), 7);
}
