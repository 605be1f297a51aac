use gradnet::matrix::{Matrix, MatrixError};

fn bits(values: &[f64]) -> Vec<u64> {
    values.iter().map(|v| v.to_bits()).collect()
}

#[test]
fn matrix_multiply_2_x_2() {
    let result = bits(&[14.0, 19.0, 24.0, 33.0]);

    let mut m1 = Matrix::allocate(2, 2);
    Matrix::fill_vec(&mut m1, bits(&[2.0, 3.0, 4.0, 5.0])).unwrap();

    let mut m2 = Matrix::allocate(2, 2);
    Matrix::fill_vec(&mut m2, bits(&[1.0, 2.0, 4.0, 5.0])).unwrap();

    let mut dest = Matrix::allocate(2, 2);

    Matrix::multiply(&mut dest, &m1, &m2).unwrap();

    assert_eq!(dest.data, result);
}

#[test]
fn matrix_add_2_x_2() {
    let result = bits(&[3.0, 4.0, 0.0, 2.0]);

    let mut m1 = Matrix::allocate(2, 2);
    Matrix::fill_vec(&mut m1, bits(&[1.0, 5.0, -4.0, 3.0])).unwrap();

    let mut m2 = Matrix::allocate(2, 2);
    Matrix::fill_vec(&mut m2, bits(&[2.0, -1.0, 4.0, -1.0])).unwrap();

    Matrix::add(&mut m1, &m2).unwrap();

    assert_eq!(m1.data, result);
}

#[test]
fn multiply_then_add_zero_is_no_op() {
    let mut m1 = Matrix::allocate(2, 2);
    Matrix::fill_vec(&mut m1, bits(&[2.0, 3.0, 4.0, 5.0])).unwrap();
    let mut m2 = Matrix::allocate(2, 2);
    Matrix::fill_vec(&mut m2, bits(&[1.0, 2.0, 4.0, 5.0])).unwrap();
    let mut dest = Matrix::allocate(2, 2);
    Matrix::multiply(&mut dest, &m1, &m2).unwrap();

    let snapshot = dest.data.clone();
    let mut zero = Matrix::allocate(2, 2);
    Matrix::fill(&mut zero, 0.0f64.to_bits());
    Matrix::add(&mut dest, &zero).unwrap();

    assert_eq!(dest.data, snapshot);
    assert_eq!(dest.rows, 2);
    assert_eq!(dest.cols, 2);
}

#[test]
fn write_then_read_round_trip() {
    // A matrix wider in stride than in columns, as a sliced view would be.
    let mut m = Matrix { rows: 2, cols: 2, stride: 3, data: bits(&[0.0; 6]) };
    let values: [[f64; 2]; 2] = [[7.5, -1.25], [3.0, 42.0]];
    for r in 0..2 {
        for c in 0..2 {
            Matrix::set_at(&mut m, r, c, values[r][c].to_bits());
        }
    }
    for r in 0..2 {
        for c in 0..2 {
            assert_eq!(Matrix::get_at(&m, r, c), values[r][c].to_bits());
        }
    }
    // The position outside the logical cells is untouched.
    assert_eq!(m.data[2], 0.0f64.to_bits());
}

#[test]
fn fill_vec_keeps_row_major_order() {
    let values = bits(&[5.0, 1.0, 9.0, 2.0, 7.0, 3.0]);
    let mut m = Matrix::allocate(2, 3);
    Matrix::fill_vec(&mut m, values.clone()).unwrap();
    for r in 0..2 {
        for c in 0..3 {
            assert_eq!(Matrix::get_at(&m, r, c), values[r * 3 + c]);
        }
    }
    assert_eq!(m.data, values);
}

#[test]
fn copy_is_idempotent() {
    let mut source = Matrix::allocate(2, 2);
    Matrix::fill_vec(&mut source, bits(&[1.5, -2.5, 3.5, -4.5])).unwrap();
    let mut dest = Matrix { rows: 2, cols: 2, stride: 3, data: bits(&[9.0; 6]) };

    Matrix::copy(&mut dest, &source).unwrap();
    let after_first = dest.data.clone();
    Matrix::copy(&mut dest, &source).unwrap();

    assert_eq!(dest.data, after_first);
    assert_eq!(dest.stride, 3);
    // The gap position keeps its old scalar through both copies.
    assert_eq!(dest.data[2], 9.0f64.to_bits());
}

#[test]
fn fill_vec_rejects_wrong_length() {
    let mut m = Matrix::allocate(2, 2);
    let res = Matrix::fill_vec(&mut m, bits(&[1.0, 2.0, 3.0]));
    assert_eq!(res, Err(MatrixError::ShapeMismatch));
    assert_eq!(m.data.len(), 0);
}

#[test]
fn copy_rejects_shape_mismatch() {
    let mut dest = Matrix::allocate(2, 2);
    Matrix::fill(&mut dest, 1.0f64.to_bits());
    let snapshot = dest.data.clone();
    let mut source = Matrix::allocate(2, 3);
    Matrix::fill(&mut source, 2.0f64.to_bits());
    assert_eq!(Matrix::copy(&mut dest, &source), Err(MatrixError::ShapeMismatch));
    assert_eq!(dest.data, snapshot);
}

#[test]
fn add_rejects_shape_mismatch() {
    let mut m1 = Matrix::allocate(2, 2);
    Matrix::fill(&mut m1, 1.0f64.to_bits());
    let mut m2 = Matrix::allocate(3, 2);
    Matrix::fill(&mut m2, 2.0f64.to_bits());
    assert_eq!(Matrix::add(&mut m1, &m2), Err(MatrixError::ShapeMismatch));
}

#[test]
fn multiply_rejects_incompatible_operands() {
    let mut m1 = Matrix::allocate(2, 3);
    Matrix::fill(&mut m1, 1.0f64.to_bits());
    let mut m2 = Matrix::allocate(2, 2);
    Matrix::fill(&mut m2, 2.0f64.to_bits());
    let mut dest = Matrix::allocate(2, 2);
    assert_eq!(Matrix::multiply(&mut dest, &m1, &m2), Err(MatrixError::ShapeMismatch));
    assert_eq!(dest.data.len(), 0);
}

#[test]
fn multiply_accumulates_into_destination() {
    let mut m1 = Matrix::allocate(1, 1);
    Matrix::fill_vec(&mut m1, bits(&[2.0])).unwrap();
    let mut m2 = Matrix::allocate(1, 1);
    Matrix::fill_vec(&mut m2, bits(&[3.0])).unwrap();
    let mut dest = Matrix::allocate(1, 1);
    Matrix::multiply(&mut dest, &m1, &m2).unwrap();
    assert_eq!(f64::from_bits(Matrix::get_at(&dest, 0, 0)), 6.0);
    // The destination is an accumulator: a second product adds on.
    Matrix::multiply(&mut dest, &m1, &m2).unwrap();
    assert_eq!(f64::from_bits(Matrix::get_at(&dest, 0, 0)), 12.0);
}

#[test]
fn row_extracts_a_deep_copy_with_source_stride() {
    let table = bits(&[0.0, 0.0, 0.0, 1.0, 0.0, 1.0, 0.0, 1.0, 1.0, 1.0, 1.0, 0.0]);
    let inputs = Matrix { rows: 4, cols: 2, stride: 3, data: table };
    let row = Matrix::row(&inputs, 2);
    assert_eq!(row.rows, 1);
    assert_eq!(row.cols, 2);
    assert_eq!(row.stride, 3);
    assert_eq!(row.data, bits(&[0.0, 1.0]));
}

#[test]
fn sigmoid_applies_logistic_function_in_place() {
    let mut m = Matrix::allocate(1, 2);
    Matrix::fill_vec(&mut m, bits(&[0.0, 2.0])).unwrap();
    Matrix::sigmoid(&mut m);
    assert_eq!(f64::from_bits(Matrix::get_at(&m, 0, 0)), 0.5);
    let expected = 1.0 / (1.0 + (-2.0f64).exp());
    assert!((f64::from_bits(Matrix::get_at(&m, 0, 1)) - expected).abs() < 1e-9);
}

#[test]
fn fill_random_stays_in_range() {
    let mut m = Matrix::allocate(3, 4);
    Matrix::fill_random(&mut m, Some((-2.0f64).to_bits()), Some(2.0f64.to_bits()));
    assert_eq!(m.data.len(), 12);
    for &cell in m.data.iter() {
        let v = f64::from_bits(cell);
        assert!(v >= -2.0 && v <= 2.0);
    }
    let mut d = Matrix::allocate(2, 2);
    Matrix::fill_random(&mut d, None, None);
    for &cell in d.data.iter() {
        let v = f64::from_bits(cell);
        assert!(v >= 0.0 && v <= 10.0);
    }
}

#[test]
fn fill_writes_constant_everywhere() {
    let mut m = Matrix::allocate(3, 2);
    Matrix::fill(&mut m, 1.25f64.to_bits());
    assert_eq!(m.data, bits(&[1.25; 6]));
    assert_eq!(Matrix::at(2, 2, 1), 5);
}
