use matrix::Matrix;

#[test]
fn it_works() {
}

#[test]
fn test_new() {
    let x = Matrix::new(2, 3, &[-2, -1, 0, 1, 2, 3]);
    println!("{:?}", x.size().0);
    println!("{:?}", x.size().1);
    println!("{:?}", x.data());
    assert_eq!(x.size().0, 2 as usize);
    assert_eq!(x.size().1, 3 as usize);
    assert_eq!(x.data()[0], -2);
}

#[test]
fn test_new_empty() {
    let x: Matrix<i32> = Matrix::new_empty(2, 3);
    assert_eq!(x.size().0, 2);
    assert_eq!(x.size().1, 3);
}

#[test]
fn test_data() {
    let x = Matrix::new(2, 3, &[-2, -1, 0, 1, 2, 3]);
    let shared_ref = x.data();
    assert_eq!(x.data()[0], shared_ref[0]);
}

#[test]
fn test_mut_data() {
    let mut x = Matrix::new(2, 3, &[-2, -1, 0, 1, 2, 3]);
    let data = x.mut_data();
    data[0] = 5;
    assert_eq!(data[0], 5);
}

#[test]
fn test_size() {
    let x = Matrix::new(2, 3, &[-2, -1, 0, 1, 2, 3]);
    let y = x.size();
    assert_eq!(y.0, 2);
    assert_eq!(y.1, 3);
}

#[test]
fn test_add() {
    let x: Matrix<i64> = Matrix::new(2, 3, &[-2, -1, 0, 1, 2, 3]);
    let y: Matrix<i64> = Matrix::new(2, 3, &[1, 1, 1, 1, 1, 1]);
    let z = x.add(y);
    assert_eq!(*z.data(), [-1, 0, 1, 2, 3, 4]);
}

#[test]
fn test_sub() {
    let x: Matrix<i64> = Matrix::new(2, 3, &[-2, -1, 0, 1, 2, 3]);
    let y: Matrix<i64> = Matrix::new(2, 3, &[1, 1, 1, 1, 1, 1]);
    let z = x.sub(y);
    assert_eq!(*z.data(), [-3, -2, -1, 0, 1, 2]);
}

#[test]
fn test_fmt() {
    let x: Matrix<i64> = Matrix::new(2, 3, &[-2, -1, 0, 1, 2, 3]);
    assert_eq!(x.to_text(), "-2 -1 0\n1 2 3\n");
}

#[test]
fn test_mul() {
    let x: Matrix<i64> = Matrix::new(3, 3, &[1, 2, 3, 4, 5, 6, 7, 8, 9]);
    let y: Matrix<i64> = Matrix::new(3, 3, &[9, 8, 7, 2, 2, 2, 1, 1, 1]);
    let z = x.mul(y);
    assert_eq!(*z.data(), [16, 15, 14, 52, 48, 44, 88, 81, 74]);
}

#[test]
fn test_mul2() {
    let x: Matrix<i64> = Matrix::new(2, 2, &[2, 1, 3, 1]);
    let y: Matrix<i64> = Matrix::new(2, 3, &[1, 2, 3, 3, 2, 1]);
    let z = x.mul(y);
    assert_eq!(*z.data(), [5, 6, 7, 6, 8, 10]);
}

#[test]
fn test_mul3() {
    let x: Matrix<i64> = Matrix::new(1, 1, &[2]);
    let y: Matrix<i64> = Matrix::new(1, 1, &[1]);
    let z = x.mul(y);
    assert_eq!(*z.data(), [2]);
}

#[test]
fn new_copies_values_in_order() {
    let x: Matrix<i64> = Matrix::new(2, 2, &[7, -8, 9, -10]);
    assert_eq!(x.size(), (2, 2));
    assert_eq!(*x.data(), [7, -8, 9, -10]);
}

#[test]
fn new_empty_has_empty_storage() {
    let x: Matrix<i64> = Matrix::new_empty(4, 5);
    assert_eq!(x.size(), (4, 5));
    assert!(x.data().is_empty());
}

#[test]
fn addition_is_commutative() {
    let vals_a: [i64; 4] = [3, -1, 0, 12];
    let vals_b: [i64; 4] = [-7, 4, 2, 2];
    let left = Matrix::new(2, 2, &vals_a).add(Matrix::new(2, 2, &vals_b));
    let right = Matrix::new(2, 2, &vals_b).add(Matrix::new(2, 2, &vals_a));
    assert_eq!(left.size(), right.size());
    assert_eq!(*left.data(), *right.data());
}

#[test]
fn sub_then_add_restores_operand() {
    let vals_a: [i64; 6] = [5, -3, 8, 0, 11, -4];
    let vals_b: [i64; 6] = [2, 2, -6, 1, -1, 9];
    let diff = Matrix::new(2, 3, &vals_a).sub(Matrix::new(2, 3, &vals_b));
    let back = diff.add(Matrix::new(2, 3, &vals_b));
    assert_eq!(back.size(), (2, 3));
    assert_eq!(*back.data(), vals_a);
}

#[test]
fn checked_add_rejects_shape_mismatch() {
    let x: Matrix<i64> = Matrix::new(1, 3, &[-2, -1, 0]);
    let y: Matrix<i64> = Matrix::new(2, 3, &[1, 1, 1, 1, 1, 1]);
    assert!(x.checked_add(y).is_none());
}

#[test]
fn checked_sub_rejects_shape_mismatch() {
    let x: Matrix<i64> = Matrix::new(1, 3, &[-2, -1, 0]);
    let y: Matrix<i64> = Matrix::new(2, 3, &[1, 1, 1, 1, 1, 1]);
    assert!(x.checked_sub(y).is_none());
}

#[test]
fn checked_mul_rejects_inner_mismatch() {
    let x: Matrix<i64> = Matrix::new(2, 3, &[1, 2, 3, 4, 5, 6]);
    let y: Matrix<i64> = Matrix::new(2, 2, &[1, 0, 0, 1]);
    assert!(x.checked_mul(y).is_none());
}

#[test]
fn checked_ops_accept_matching_shapes() {
    let sum = Matrix::new(1, 2, &[1i64, 2]).checked_add(Matrix::new(1, 2, &[10, 20]));
    assert_eq!(*sum.unwrap().data(), [11, 22]);
    let diff = Matrix::new(1, 2, &[1i64, 2]).checked_sub(Matrix::new(1, 2, &[10, 20]));
    assert_eq!(*diff.unwrap().data(), [-9, -18]);
    let prod = Matrix::new(1, 2, &[1i64, 2]).checked_mul(Matrix::new(2, 1, &[10, 20]));
    assert_eq!(*prod.unwrap().data(), [50]);
}

#[test]
fn mul_shapes_follow_operands() {
    let x: Matrix<i64> = Matrix::new(3, 2, &[1, 0, 0, 1, 1, 1]);
    let y: Matrix<i64> = Matrix::new(2, 4, &[1, 2, 3, 4, 5, 6, 7, 8]);
    let z = x.mul(y);
    assert_eq!(z.size(), (3, 4));
    assert_eq!(*z.data(), [1, 2, 3, 4, 5, 6, 7, 8, 6, 8, 10, 12]);
}

#[test]
fn mut_data_edits_show_through_data() {
    let mut x: Matrix<i64> = Matrix::new(2, 3, &[-2, -1, 0, 1, 2, 3]);
    x.mut_data()[0] = 5;
    assert_eq!(x.data()[0], 5);
    assert_eq!(*x.data(), [5, -1, 0, 1, 2, 3]);
}

#[test]
fn mut_data_populates_an_empty_matrix() {
    let mut x: Matrix<i64> = Matrix::new_empty(1, 2);
    let storage = x.mut_data();
    storage.push(4);
    storage.push(-9);
    assert_eq!(x.size(), (1, 2));
    assert_eq!(*x.data(), [4, -9]);
    assert_eq!(x.to_text(), "4 -9\n");
}

#[test]
fn text_of_single_cell_and_zero() {
    let x: Matrix<i64> = Matrix::new(1, 1, &[0]);
    assert_eq!(x.to_text(), "0\n");
}

#[test]
fn text_of_multi_digit_entries() {
    let x: Matrix<i64> = Matrix::new(2, 2, &[10, -105, 9999, 7]);
    assert_eq!(x.to_text(), "10 -105\n9999 7\n");
}

#[test]
fn text_of_extreme_values() {
    let x: Matrix<i64> = Matrix::new(1, 2, &[i64::MIN, i64::MAX]);
    assert_eq!(x.to_text(), "-9223372036854775808 9223372036854775807\n");
}

#[test]
fn text_of_single_column() {
    let x: Matrix<i64> = Matrix::new(3, 1, &[1, -2, 3]);
    assert_eq!(x.to_text(), "1\n-2\n3\n");
}
