use matrix::Matrix;
use matrix::Vector;
use matrix::lerp;

#[test]
fn scalar_lerp_boundaries() {
    assert_eq!(lerp(0i64, 1, 0), 0);
    assert_eq!(lerp(0i64, 1, 1), 1);
    assert_eq!(lerp(21i64, 42, 0), 21);
    assert_eq!(lerp(21i64, 42, 1), 42);
}

#[test]
fn scalar_lerp_extrapolates() {
    // t is not clamped: coefficients outside the unit interval extrapolate.
    assert_eq!(lerp(2i64, 10, 3), 26);
    assert_eq!(lerp(5i64, 3, -2), 9);
}

#[test]
fn vector_lerp_boundaries() {
    let u = Vector::<i64>::new(vec![2, 1]);
    let v = Vector::<i64>::new(vec![4, 2]);
    assert_eq!(Vector::lerp(&u, &v, 0), u);
    assert_eq!(Vector::lerp(&u, &v, 1), v);
}

#[test]
fn vector_lerp_matches_scalar_lerp() {
    let u = Vector::<i64>::new(vec![2, 1, -6]);
    let v = Vector::<i64>::new(vec![4, 2, 30]);
    let t = 5i64;
    let r = Vector::lerp(&u, &v, t);
    for i in 0..3 {
        assert_eq!(r.data()[i], lerp(u.data()[i], v.data()[i], t));
    }
}

#[test]
fn matrix_lerp_boundaries() {
    let u = Matrix::<i64>::new(vec![vec![2, 1], vec![3, 4]]);
    let v = Matrix::<i64>::new(vec![vec![20, 10], vec![30, 40]]);
    assert_eq!(Matrix::lerp(&u, &v, 0), u);
    assert_eq!(Matrix::lerp(&u, &v, 1), v);
}

#[test]
fn matrix_lerp_entrywise() {
    let u = Matrix::<i64>::new(vec![vec![2, 1], vec![3, 4]]);
    let v = Matrix::<i64>::new(vec![vec![20, 10], vec![30, 40]]);
    assert_eq!(
        Matrix::lerp(&u, &v, 2),
        Matrix::new(vec![vec![38, 19], vec![57, 76]])
    );
}
