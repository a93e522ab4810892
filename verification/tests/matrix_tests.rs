use matrix_algebra::group::{Group, Operation, OperationType};
use matrix_algebra::matrix::{Matrix, MatrixError};
use matrix_algebra::scalars::{Gf2, Z64};

fn zmat(rows: Vec<Vec<i64>>) -> Matrix<Z64> {
    let mut grid: Vec<Vec<Z64>> = Vec::new();
    for row in rows {
        let mut r: Vec<Z64> = Vec::new();
        for v in row {
            r.push(Z64(v));
        }
        grid.push(r);
    }
    Matrix::from_vec(grid).unwrap()
}

fn bmat(rows: Vec<Vec<bool>>) -> Matrix<Gf2> {
    let mut grid: Vec<Vec<Gf2>> = Vec::new();
    for row in rows {
        let mut r: Vec<Gf2> = Vec::new();
        for v in row {
            r.push(Gf2(v));
        }
        grid.push(r);
    }
    Matrix::from_vec(grid).unwrap()
}

fn assert_zmat(m: &Matrix<Z64>, expect: Vec<Vec<i64>>) {
    assert_eq!(m.rows(), expect.len());
    assert_eq!(m.cols(), expect[0].len());
    for (i, row) in expect.iter().enumerate() {
        for (j, v) in row.iter().enumerate() {
            assert_eq!(m.get(i, j).0, *v);
        }
    }
}

#[test]
fn add_and_mul_integers() {
    let a = zmat(vec![vec![1, 2], vec![3, 4]]);
    let b = zmat(vec![vec![5, 6], vec![7, 8]]);
    let sum = a.add(&b);
    assert_zmat(&sum, vec![vec![6, 8], vec![10, 12]]);
    let prod = a.mul(&b);
    assert_zmat(&prod, vec![vec![19, 22], vec![43, 50]]);
    let d = a.det();
    assert_eq!(d.0, -2);
}

#[test]
fn sub_integers() {
    let a = zmat(vec![vec![1, 2], vec![3, 4]]);
    let b = zmat(vec![vec![5, 6], vec![7, 8]]);
    let diff = b.sub(&a);
    assert_zmat(&diff, vec![vec![4, 4], vec![4, 4]]);
}

#[test]
fn mul_identity_three() {
    let idm: Matrix<Z64> = Matrix::new_mul_identity(3);
    assert_zmat(&idm, vec![vec![1, 0, 0], vec![0, 1, 0], vec![0, 0, 1]]);
}

#[test]
fn add_identity_grid() {
    let z: Matrix<Z64> = Matrix::new_add_identity((2, 3));
    assert_zmat(&z, vec![vec![0, 0, 0], vec![0, 0, 0]]);
    assert!(z.is_zero());
}

#[test]
fn rectangular_product_shapes() {
    let a = zmat(vec![vec![1, 2, 3], vec![4, 5, 6]]);
    let b = zmat(vec![vec![7, 8], vec![9, 10], vec![11, 12]]);
    let p = a.mul_checked(&b).unwrap();
    assert_zmat(&p, vec![vec![58, 64], vec![139, 154]]);
    let c = zmat(vec![vec![1, 0], vec![0, 1]]);
    assert!(matches!(a.mul_checked(&c), Err(MatrixError::Shape)));
}

#[test]
fn ragged_grid_is_refused() {
    let grid = vec![vec![Z64(1), Z64(2)], vec![Z64(3)]];
    assert!(matches!(Matrix::from_vec(grid), Err(MatrixError::Shape)));
    let empty: Vec<Vec<Z64>> = Vec::new();
    assert!(matches!(Matrix::from_vec(empty), Err(MatrixError::Shape)));
    let empty_row: Vec<Vec<Z64>> = vec![Vec::new()];
    assert!(matches!(Matrix::from_vec(empty_row), Err(MatrixError::Shape)));
}

#[test]
fn add_shape_mismatch() {
    let a = zmat(vec![vec![1, 2]]);
    let b = zmat(vec![vec![1], vec![2]]);
    assert!(matches!(a.add_checked(&b), Err(MatrixError::Shape)));
}

#[test]
fn add_commutes_and_associates() {
    let a = zmat(vec![vec![1, -2], vec![30, 4]]);
    let b = zmat(vec![vec![9, 8], vec![-7, 6]]);
    let c = zmat(vec![vec![2, 2], vec![3, 3]]);
    let ab = a.add(&b);
    let ba = b.add(&a);
    assert!(ab.same(&ba));
    let left = a.add(&b).add(&c);
    let right = a.add(&b.add(&c));
    assert!(left.same(&right));
}

#[test]
fn identity_is_neutral_for_product() {
    let a = zmat(vec![vec![1, 2], vec![3, 4]]);
    let idm: Matrix<Z64> = Matrix::new_mul_identity(2);
    assert!(a.mul(&idm).same(&a));
    assert!(idm.mul(&a).same(&a));
}

#[test]
fn pow_small_exponents() {
    let a = zmat(vec![vec![1, 2], vec![3, 4]]);
    let p0 = a.pow(0);
    assert_zmat(&p0, vec![vec![1, 0], vec![0, 1]]);
    let p1 = a.pow(1);
    assert!(p1.same(&a));
    let p2 = a.pow(2);
    assert!(p2.same(&a.mul(&a)));
    assert_zmat(&p2, vec![vec![7, 10], vec![15, 22]]);
}

#[test]
fn pow_shape_and_capability_errors() {
    let wide = zmat(vec![vec![1, 2, 3], vec![4, 5, 6]]);
    assert!(matches!(wide.pow_checked(2), Err(MatrixError::Shape)));
    // Integers modulo 2^64 have no exact division, so inversion is refused.
    let a = zmat(vec![vec![1, 2], vec![3, 4]]);
    assert!(matches!(a.pow_checked(-1), Err(MatrixError::Capability)));
}

#[test]
fn det_checked_shape_error() {
    let wide = zmat(vec![vec![1, 2, 3], vec![4, 5, 6]]);
    assert!(matches!(wide.det_checked(), Err(MatrixError::Shape)));
}

#[test]
fn det_three_by_three() {
    let a = zmat(vec![vec![2, 0, 1], vec![1, 1, 0], vec![0, 3, 1]]);
    assert_eq!(a.det_checked().unwrap().0, 5);
}

#[test]
fn det_of_identity_is_one() {
    let id4: Matrix<Z64> = Matrix::new_mul_identity(4);
    assert_eq!(id4.det().0, 1);
    let id3: Matrix<Gf2> = Matrix::new_mul_identity(3);
    assert!(id3.det().0);
}

#[test]
fn det_of_zero_row_is_zero() {
    let a = zmat(vec![vec![1, 2, 3], vec![0, 0, 0], vec![7, 8, 9]]);
    assert_eq!(a.det().0, 0);
    let b = bmat(vec![vec![false, false], vec![true, true]]);
    assert!(!b.det().0);
}

#[test]
fn inverse_over_gf2() {
    let a = bmat(vec![vec![true, false], vec![true, true]]);
    assert!(a.det().0);
    let inv = a.pow_checked(-1).unwrap();
    // This matrix is its own inverse over the two-element field.
    assert!(inv.same(&a));
    let idm: Matrix<Gf2> = Matrix::new_mul_identity(2);
    assert!(a.mul(&inv).same(&idm));
    assert!(inv.mul(&a).same(&idm));
}

#[test]
fn singular_matrix_has_no_inverse() {
    let s = bmat(vec![vec![true, true], vec![true, true]]);
    assert!(!s.det().0);
    assert!(matches!(s.pow_checked(-1), Err(MatrixError::Singular)));
}

#[test]
fn division_over_gf2() {
    let a = bmat(vec![vec![true, false], vec![true, true]]);
    let q = a.div_checked(&a).unwrap();
    let idm: Matrix<Gf2> = Matrix::new_mul_identity(2);
    assert!(q.same(&idm));
    let s = bmat(vec![vec![true, true], vec![true, true]]);
    assert!(matches!(a.div_checked(&s), Err(MatrixError::Singular)));
    let z = zmat(vec![vec![1, 2], vec![3, 4]]);
    assert!(matches!(z.div_checked(&z), Err(MatrixError::Capability)));
}

#[test]
fn indexing_and_mutation() {
    let mut a = zmat(vec![vec![1, 2], vec![3, 4]]);
    assert_eq!(a.get(1, 0).0, 3);
    assert!(matches!(a.get_checked(2, 0), Err(MatrixError::Bounds)));
    assert!(matches!(a.get_checked(0, 5), Err(MatrixError::Bounds)));
    a.set(0, 1, Z64(42));
    assert_eq!(a.get(0, 1).0, 42);
    assert_eq!(a.get(0, 0).0, 1);
    assert_eq!(a.rows(), 2);
    assert_eq!(a.cols(), 2);
    assert!(a.square());
}

#[test]
fn assign_forms() {
    let mut a = zmat(vec![vec![1, 2], vec![3, 4]]);
    let b = zmat(vec![vec![5, 6], vec![7, 8]]);
    a.add_assign(&b);
    assert_zmat(&a, vec![vec![6, 8], vec![10, 12]]);
    a.sub_assign(&b);
    assert_zmat(&a, vec![vec![1, 2], vec![3, 4]]);
    a.mul_assign(&b);
    assert_zmat(&a, vec![vec![19, 22], vec![43, 50]]);
    let mut g = bmat(vec![vec![true, true], vec![false, true]]);
    let h = bmat(vec![vec![true, false], vec![true, true]]);
    g.div_assign(&h);
    // g * h^-1, where h is its own inverse.
    assert!(!g.get(0, 0).0 && g.get(0, 1).0);
    assert!(g.get(1, 0).0 && g.get(1, 1).0);
}

#[test]
fn dup_makes_an_equal_copy() {
    let a = zmat(vec![vec![1, 2], vec![3, 4]]);
    let c = a.dup();
    assert!(c.same(&a));
    assert!(!c.same(&zmat(vec![vec![1, 2], vec![3, 5]])));
}

#[test]
fn wrapping_arithmetic_on_elements() {
    let a = zmat(vec![vec![i64::MAX]]);
    let b = zmat(vec![vec![1]]);
    let s = a.add(&b);
    assert_eq!(s.get(0, 0).0, i64::MIN);
}

#[test]
fn group_interface_on_scalars() {
    let e = Z64::empty();
    assert_eq!(e.zero().0, 0);
    assert_eq!(e.identity(OperationType::Add).unwrap().0, 0);
    assert_eq!(e.identity(OperationType::Mul).unwrap().0, 1);
    assert!(e.identity(OperationType::Div).is_none());
    assert!(Z64::supports(OperationType::Sub));
    assert!(!Z64::supports(OperationType::Div));
    match e.operation(OperationType::Mul) {
        Some(Operation::Closed(one)) => assert_eq!(one.0, 1),
        _ => panic!("multiplication must be a closed operation on integers"),
    }
    assert!(e.operation(OperationType::Div).is_none());
    let g = Gf2::empty();
    assert!(Gf2::supports(OperationType::Div));
    assert!(g.identity(OperationType::Div).unwrap().0);
    let sum = Z64::op(OperationType::Add, &Z64(2), &Z64(40));
    assert_eq!(sum.0, 42);
    assert!(Z64(0).is_zero());
    assert!(!Z64(3).is_zero());
    assert!(Z64(5).same(&Z64(5)));
    assert!(!Z64(5).same(&Z64(6)));
}

#[test]
fn matrix_is_itself_a_group() {
    // A matrix of matrices: the group structure nests.
    let a = zmat(vec![vec![1, 2], vec![3, 4]]);
    let b = zmat(vec![vec![5, 6], vec![7, 8]]);
    let c = zmat(vec![vec![10, 0], vec![0, 10]]);
    let d = zmat(vec![vec![0, 1], vec![1, 0]]);
    assert!(<Matrix<Z64> as Group>::supports(OperationType::Add));
    assert!(!<Matrix<Z64> as Group>::supports(OperationType::Mul));
    let outer_a = Matrix::from_vec(vec![vec![a.dup(), b.dup()]]).unwrap();
    let outer_b = Matrix::from_vec(vec![vec![c.dup(), d.dup()]]).unwrap();
    let outer_sum = <Matrix<Matrix<Z64>> as Group>::op(OperationType::Add, &outer_a, &outer_b);
    assert!(outer_sum.get(0, 0).same(&a.add(&c)));
    assert!(outer_sum.get(0, 1).same(&b.add(&d)));
    // The zero of a matrix group matches its receiver's shape.
    let z = outer_a.zero();
    assert!(z.get(0, 0).is_zero());
    assert_eq!(z.rows(), 1);
    assert_eq!(z.cols(), 2);
    // The matrix group identity for addition is the zero matrix.
    let ident = outer_a.identity(OperationType::Add).unwrap();
    assert!(ident.is_zero());
    assert!(outer_a.identity(OperationType::Mul).is_none());
    match outer_a.operation(OperationType::Sub) {
        Some(Operation::Closed(e)) => assert!(e.is_zero()),
        _ => panic!("subtraction must be a closed operation on matrices"),
    }
}

#[test]
fn determinant_of_nested_matrix_needs_multiplication() {
    let a = zmat(vec![vec![1, 2], vec![3, 4]]);
    let outer = Matrix::from_vec(vec![
        vec![a.dup(), a.dup()],
        vec![a.dup(), a.dup()],
    ])
    .unwrap();
    // A matrix group offers no multiplication, so a 2x2 determinant over it
    // is a capability error.
    assert!(matches!(outer.det_checked(), Err(MatrixError::Capability)));
    // A single-cell determinant needs no operation at all.
    let single = Matrix::from_vec(vec![vec![a.dup()]]).unwrap();
    assert!(single.det_checked().unwrap().same(&a));
}

#[test]
fn row_access_and_replacement() {
    let mut a = zmat(vec![vec![1, 2], vec![3, 4]]);
    let r = a.row(1);
    assert_eq!(r.len(), 2);
    assert_eq!(r[0].0, 3);
    assert_eq!(r[1].0, 4);
    a.set_row(0, vec![Z64(9), Z64(8)]);
    assert_zmat(&a, vec![vec![9, 8], vec![3, 4]]);
}

#[test]
fn inverse_of_permutation_matrix() {
    // A cyclic permutation over the two-element field; its inverse is the
    // opposite cycle (the transpose).
    let a = bmat(vec![
        vec![false, true, false],
        vec![false, false, true],
        vec![true, false, false],
    ]);
    assert!(a.det().0);
    let inv = a.pow(-1);
    let expect = bmat(vec![
        vec![false, false, true],
        vec![true, false, false],
        vec![false, true, false],
    ]);
    assert!(inv.same(&expect));
    let idm: Matrix<Gf2> = Matrix::new_mul_identity(3);
    assert!(a.mul(&inv).same(&idm));
    assert!(inv.mul(&a).same(&idm));
}

#[test]
fn single_cell_matrices() {
    let m = zmat(vec![vec![7]]);
    assert!(m.square());
    assert_eq!(m.det().0, 7);
    let g = bmat(vec![vec![true]]);
    let inv = g.pow(-1);
    assert!(inv.get(0, 0).0);
    assert!(g.mul(&inv).same(&Matrix::new_mul_identity(1)));
}

#[test]
fn pow_three() {
    let a = zmat(vec![vec![1, 1], vec![0, 1]]);
    let p3 = a.pow(3);
    assert_zmat(&p3, vec![vec![1, 3], vec![0, 1]]);
}
