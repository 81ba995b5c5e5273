use matrix::Field;
use matrix::Vector;
use matrix::abs;

#[test]
fn add_two_vectors() {
    let mut u = Vector::<i64>::new(vec![2, 3]);
    let v = Vector::<i64>::new(vec![5, 7]);
    u.add(&v);
    assert_eq!(u, Vector::new(vec![7, 10]));
}

#[test]
fn sub_two_vectors() {
    let mut u = Vector::<i64>::new(vec![2, 3]);
    let v = Vector::<i64>::new(vec![5, 7]);
    u.sub(&v);
    assert_eq!(u, Vector::new(vec![-3, -4]));
}

#[test]
fn add_then_sub_restores() {
    let mut u = Vector::<i64>::new(vec![4, -9, 17]);
    let v = Vector::<i64>::new(vec![-3, 6, 100]);
    u.add(&v);
    u.sub(&v);
    assert_eq!(u, Vector::new(vec![4, -9, 17]));
}

#[test]
fn scale_vector() {
    let mut u = Vector::<i64>::new(vec![2, 3]);
    u.scl(2);
    assert_eq!(u, Vector::new(vec![4, 6]));
}

#[test]
fn componentwise_mul() {
    let u = Vector::<i64>::new(vec![2, -3, 4]);
    let v = Vector::<i64>::new(vec![5, 7, -1]);
    assert_eq!(u.mul(v), Vector::new(vec![10, -21, -4]));
}

#[test]
fn componentwise_div_truncates() {
    let u = Vector::<i64>::new(vec![7, -7, 6]);
    let v = Vector::<i64>::new(vec![2, 2, 3]);
    assert_eq!(u.div(v), Vector::new(vec![3, -3, 2]));
}

#[test]
fn dot_products() {
    let u = Vector::<i64>::new(vec![0, 0]);
    let v = Vector::<i64>::new(vec![1, 1]);
    assert_eq!(u.dot(&v), 0);

    let u = Vector::<i64>::new(vec![1, 1]);
    let v = Vector::<i64>::new(vec![1, 1]);
    assert_eq!(u.dot(&v), 2);

    let u = Vector::<i64>::new(vec![-1, 6]);
    let v = Vector::<i64>::new(vec![3, 2]);
    assert_eq!(u.dot(&v), 9);
}

#[test]
fn dot_is_symmetric() {
    let u = Vector::<i64>::new(vec![3, -8, 21, 5]);
    let v = Vector::<i64>::new(vec![-2, 7, 0, 11]);
    assert_eq!(u.dot(&v), v.dot(&u));
}

#[test]
fn norm_1_sums_absolute_values() {
    let u = Vector::<i64>::new(vec![1, 2, 3]);
    assert_eq!(u.norm_1(), 6);
    let u = Vector::<i64>::new(vec![-1, -2]);
    assert_eq!(u.norm_1(), 3);
    let u = Vector::<i64>::new(vec![0, 0, 0]);
    assert_eq!(u.norm_1(), 0);
}

#[test]
fn norm_inf_is_true_maximum() {
    // The maximum must be taken over all components, not read off the last
    // visited one.
    let u = Vector::<i64>::new(vec![1, -5, 3]);
    assert_eq!(u.norm_inf(), 5);
    let u = Vector::<i64>::new(vec![1, 2, 3]);
    assert_eq!(u.norm_inf(), 3);
    let u = Vector::<i64>::new(vec![-1, -2]);
    assert_eq!(u.norm_inf(), 2);
    let u = Vector::<i64>::new(vec![0, 0, 0]);
    assert_eq!(u.norm_inf(), 0);
}

#[test]
fn euclidean_norm_from_dot() {
    // The verified core accumulates the sum of squares; the square root is
    // ordinary floating point outside it.
    let u = Vector::<i64>::new(vec![1, 2, 3]);
    let n = (u.dot(&u) as f64).sqrt();
    assert!((n - 3.7416573867739413).abs() < 1e-9);

    let z = Vector::<i64>::new(vec![0, 0, 0]);
    assert_eq!((z.dot(&z) as f64).sqrt(), 0.0);

    let u = Vector::<i64>::new(vec![-1, -2]);
    let n = (u.dot(&u) as f64).sqrt();
    assert!((n - 2.23606797749979).abs() < 1e-9);
}

#[test]
fn angle_cosine_from_dot_and_norms() {
    let u = Vector::<i64>::new(vec![1, 0]);
    let v = Vector::<i64>::new(vec![0, 1]);
    let cos = u.dot(&v) as f64 / ((u.dot(&u) as f64).sqrt() * (v.dot(&v) as f64).sqrt());
    assert_eq!(cos, 0.0);

    let u = Vector::<i64>::new(vec![1, 2, 3]);
    let v = Vector::<i64>::new(vec![4, 5, 6]);
    let cos = u.dot(&v) as f64 / ((u.dot(&u) as f64).sqrt() * (v.dot(&v) as f64).sqrt());
    assert!((cos - 0.9746318461970762).abs() < 1e-9);
}

#[test]
fn linear_combination_identity() {
    let u = Vector::<i64>::new(vec![12, -7, 30]);
    let r = Vector::linear_combination(&[u.clone()], &[1]);
    assert_eq!(r, u);
}

#[test]
fn linear_combination_of_basis() {
    let e1 = Vector::<i64>::new(vec![1, 0, 0]);
    let e2 = Vector::<i64>::new(vec![0, 1, 0]);
    let e3 = Vector::<i64>::new(vec![0, 0, 1]);
    let r = Vector::linear_combination(&[e1, e2, e3], &[10, -2, 4]);
    assert_eq!(r, Vector::new(vec![10, -2, 4]));
}

#[test]
fn linear_combination_of_two() {
    let v1 = Vector::<i64>::new(vec![1, 2, 3]);
    let v2 = Vector::<i64>::new(vec![0, 10, -100]);
    let r = Vector::linear_combination(&[v1, v2], &[10, -2]);
    assert_eq!(r, Vector::new(vec![10, 0, 230]));
}

#[test]
fn cross_products() {
    let u = Vector::<i64>::new(vec![0, 0, 1]);
    let v = Vector::<i64>::new(vec![1, 0, 0]);
    assert_eq!(Vector::cross_product(&u, &v), Vector::new(vec![0, 1, 0]));

    let u = Vector::<i64>::new(vec![1, 2, 3]);
    let v = Vector::<i64>::new(vec![4, 5, 6]);
    assert_eq!(Vector::cross_product(&u, &v), Vector::new(vec![-3, 6, -3]));

    let u = Vector::<i64>::new(vec![4, 2, -3]);
    let v = Vector::<i64>::new(vec![-2, -5, 16]);
    assert_eq!(Vector::cross_product(&u, &v), Vector::new(vec![17, -58, -16]));
}

#[test]
fn data_gives_the_components() {
    let u = Vector::<i64>::new(vec![8, -1, 6]);
    assert_eq!(*u.data(), vec![8, -1, 6]);
}

#[test]
fn data_mut_writes_through() {
    let mut u = Vector::<i64>::new(vec![8, -1, 6]);
    u.data_mut()[1] = 42;
    assert_eq!(u, Vector::new(vec![8, 42, 6]));
}

#[test]
fn abs_tie_break() {
    assert_eq!(abs(-5i64), 5);
    assert_eq!(abs(3i64), 3);
    assert_eq!(abs(0i64), 0);
    // With wrapping negation, the most negative value is its own negation,
    // and the tie keeps the value itself.
    assert_eq!(abs(i64::MIN), i64::MIN);
}

#[test]
fn scalar_field_wraps() {
    assert_eq!(i64::MAX.plus(1), i64::MIN);
    assert_eq!(i64::MIN.minus(1), i64::MAX);
    assert_eq!(3i64.times(-4), -12);
    assert_eq!(7i64.over(2), 3);
    assert_eq!((-7i64).over(2), -3);
    assert_eq!(5i64.fma(6, 7), 37);
    assert_eq!(4i64.negate(), -4);
    assert_eq!(i64::zero(), 0);
    assert_eq!(i64::one(), 1);
    assert!(2i64.le(3));
    assert!(!3i64.le(2));
}
