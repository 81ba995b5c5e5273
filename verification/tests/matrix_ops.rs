use matrix::Matrix;
use matrix::Vector;

#[test]
fn add_two_matrices() {
    let mut u = Matrix::<i64>::new(vec![vec![1, 2], vec![3, 4]]);
    let v = Matrix::<i64>::new(vec![vec![7, 4], vec![-2, 2]]);
    u.add(&v);
    assert_eq!(u, Matrix::new(vec![vec![8, 6], vec![1, 6]]));
}

#[test]
fn sub_two_matrices() {
    let mut u = Matrix::<i64>::new(vec![vec![1, 2], vec![3, 4]]);
    let v = Matrix::<i64>::new(vec![vec![7, 4], vec![-2, 2]]);
    u.sub(&v);
    assert_eq!(u, Matrix::new(vec![vec![-6, -2], vec![5, 2]]));
}

#[test]
fn add_then_sub_restores_matrix() {
    let mut u = Matrix::<i64>::new(vec![vec![9, -4], vec![0, 13]]);
    let v = Matrix::<i64>::new(vec![vec![-1, 20], vec![7, 7]]);
    u.add(&v);
    u.sub(&v);
    assert_eq!(u, Matrix::new(vec![vec![9, -4], vec![0, 13]]));
}

#[test]
fn scale_matrix() {
    let mut u = Matrix::<i64>::new(vec![vec![1, 2], vec![3, 4]]);
    u.scl(2);
    assert_eq!(u, Matrix::new(vec![vec![2, 4], vec![6, 8]]));
}

#[test]
fn identity_times_vector() {
    let u = Matrix::<i64>::new(vec![vec![1, 0], vec![0, 1]]);
    let v = Vector::<i64>::new(vec![4, 2]);
    assert_eq!(u.mul_vec(&v), Vector::new(vec![4, 2]));
}

#[test]
fn matrix_times_vector() {
    let u = Matrix::<i64>::new(vec![vec![2, 0], vec![0, 2]]);
    let v = Vector::<i64>::new(vec![4, 2]);
    assert_eq!(u.mul_vec(&v), Vector::new(vec![8, 4]));

    let u = Matrix::<i64>::new(vec![vec![2, -2], vec![-2, 2]]);
    let v = Vector::<i64>::new(vec![4, 2]);
    assert_eq!(u.mul_vec(&v), Vector::new(vec![4, -4]));

    let u = Matrix::<i64>::new(vec![vec![2, -2], vec![-2, 2], vec![2, -2]]);
    let v = Vector::<i64>::new(vec![4, 2]);
    assert_eq!(u.mul_vec(&v), Vector::new(vec![4, -4, 4]));
}

#[test]
fn identity_times_identity() {
    let u = Matrix::<i64>::new(vec![vec![1, 0], vec![0, 1]]);
    let v = Matrix::<i64>::new(vec![vec![1, 0], vec![0, 1]]);
    assert_eq!(u.mul_mat(&v), Matrix::new(vec![vec![1, 0], vec![0, 1]]));
}

#[test]
fn identity_times_matrix() {
    let u = Matrix::<i64>::new(vec![vec![1, 0], vec![0, 1]]);
    let v = Matrix::<i64>::new(vec![vec![2, 1], vec![4, 2]]);
    assert_eq!(u.mul_mat(&v), Matrix::new(vec![vec![2, 1], vec![4, 2]]));
}

#[test]
fn rectangular_matrix_product() {
    // A 3x2 matrix times a 2x3 matrix is 3x3; the first two columns are the
    // widely quoted values, the third follows from the same row-times-column
    // rule.
    let u = Matrix::<i64>::new(vec![vec![3, -5], vec![6, 8], vec![6, 8]]);
    let v = Matrix::<i64>::new(vec![vec![2, 1, 1], vec![4, 2, 1]]);
    let r = u.mul_mat(&v);
    assert_eq!(
        r,
        Matrix::new(vec![vec![-14, -7, -2], vec![44, 22, 14], vec![44, 22, 14]])
    );
}

#[test]
fn matrix_linear_combination() {
    let m1 = Matrix::<i64>::new(vec![vec![0, 2], vec![1, 1]]);
    let m2 = Matrix::<i64>::new(vec![vec![3, 0], vec![1, 1]]);
    let r = Matrix::linear_combination(&[m1, m2], &[2, -1]);
    assert_eq!(r, Matrix::new(vec![vec![-3, 4], vec![1, 1]]));
}

#[test]
fn matrix_combination_identity() {
    let m = Matrix::<i64>::new(vec![vec![5, -2], vec![8, 0]]);
    let r = Matrix::linear_combination(&[m.clone()], &[1]);
    assert_eq!(r, m);
}

#[test]
fn transpose_rectangular() {
    let u = Matrix::<i64>::new(vec![vec![1, 2], vec![3, 4], vec![5, 6]]);
    assert_eq!(u.transpose(), Matrix::new(vec![vec![1, 3, 5], vec![2, 4, 6]]));
}

#[test]
fn transpose_twice_restores() {
    let u = Matrix::<i64>::new(vec![vec![1, 2, 3], vec![4, 5, 6]]);
    assert_eq!(u.transpose().transpose(), u);
}

#[test]
fn transpose_keeps_zero_width_shapes() {
    // A matrix with rows of length zero still remembers that it has zero
    // columns, so the transpose mirrors the shape exactly and transposing
    // twice restores it.
    let m = Matrix::<i64>::new(vec![vec![], vec![], vec![]]);
    assert_eq!(m.data().len(), 3);
    assert_eq!(m.col_count(), 0);

    let r = m.transpose();
    assert_eq!(r.data().len(), 0);
    assert_eq!(r.col_count(), 3);

    let s = r.transpose();
    assert_eq!(s, m);
}

#[test]
fn product_with_zero_inner_dimension() {
    // A 2x0 matrix times a 0x3 matrix is the 2x3 zero matrix: every entry
    // is an empty accumulation.
    let a = Matrix::<i64>::new(vec![vec![], vec![]]);
    let b = Matrix::<i64>::new(vec![vec![], vec![], vec![]]).transpose();
    assert_eq!(b.data().len(), 0);
    assert_eq!(b.col_count(), 3);

    let r = a.mul_mat(&b);
    assert_eq!(r, Matrix::new(vec![vec![0, 0, 0], vec![0, 0, 0]]));
    assert_eq!(r.col_count(), 3);
}

#[test]
fn col_count_of_ordinary_matrix() {
    let m = Matrix::<i64>::new(vec![vec![1, 2, 3], vec![4, 5, 6]]);
    assert_eq!(m.col_count(), 3);
    assert_eq!(m.transpose().col_count(), 2);
}

#[test]
fn trace_of_square_matrices() {
    let u = Matrix::<i64>::new(vec![vec![1, 2], vec![3, 4]]);
    assert_eq!(u.trace(), 5);

    let u = Matrix::<i64>::new(vec![vec![2, -5, 0], vec![4, 3, 7], vec![-2, 3, 4]]);
    assert_eq!(u.trace(), 9);
}

#[test]
fn row_echelon_placeholder_returns_zeros() {
    // The reduction itself is a documented gap: the placeholder returns the
    // all-zero matrix of the same shape, whatever the input.
    let u = Matrix::<i64>::new(vec![vec![1, 2], vec![3, 4], vec![5, 6]]);
    assert_eq!(
        u.row_echelon(),
        Matrix::new(vec![vec![0, 0], vec![0, 0], vec![0, 0]])
    );
}
