//! The matrix container: construction, cell access, and the random
//! constructor's bounds.

use matmul::Matrix;

#[test]
fn zeros_has_shape_and_zero_cells() {
    let m = Matrix::zeros(3, 2);
    assert_eq!(m.row_count(), 3);
    assert_eq!(m.col_count(), 2);
    for i in 0..3 {
        for j in 0..2 {
            assert_eq!(f64::from_bits(m.at(i, j)), 0.0);
        }
    }
}

#[test]
fn set_writes_one_cell_and_leaves_the_rest() {
    let mut m = Matrix::zeros(2, 3);
    m.set(1, 2, 6.75f64.to_bits());
    m.set(0, 0, (-2.5f64).to_bits());
    assert_eq!(f64::from_bits(m.at(1, 2)), 6.75);
    assert_eq!(f64::from_bits(m.at(0, 0)), -2.5);
    assert_eq!(f64::from_bits(m.at(0, 1)), 0.0);
    assert_eq!(f64::from_bits(m.at(1, 1)), 0.0);
    m.set(1, 2, 1.5f64.to_bits());
    assert_eq!(f64::from_bits(m.at(1, 2)), 1.5);
}

#[test]
fn random_cells_lie_in_zero_to_ten() {
    let m = Matrix::random(6, 6);
    assert_eq!(m.row_count(), 6);
    assert_eq!(m.col_count(), 6);
    for i in 0..6 {
        for j in 0..6 {
            let v = f64::from_bits(m.at(i, j));
            assert!(v >= 0.0, "cell ({i}, {j}) = {v} below 0");
            assert!(v < 10.0, "cell ({i}, {j}) = {v} not below 10");
        }
    }
}

#[test]
fn random_cells_vary_and_reach_ordinary_magnitudes() {
    let m = Matrix::random(4, 4);
    let first = m.at(0, 0);
    let mut all_equal = true;
    let mut some_sizable = false;
    for i in 0..4 {
        for j in 0..4 {
            if m.at(i, j) != first {
                all_equal = false;
            }
            if f64::from_bits(m.at(i, j)) >= 0.001 {
                some_sizable = true;
            }
        }
    }
    assert!(!all_equal, "all sixteen random cells are identical");
    assert!(some_sizable, "no random cell reached 0.001");
}
