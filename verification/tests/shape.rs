use multihawk::shape::{check_branching_dimensions, rows_have_len, DimensionError};

#[test]
fn rows_have_len_checks_every_row() {
    let rows: Vec<Vec<f64>> = vec![vec![0.1, 0.3], vec![0.05, 0.2]];
    assert!(rows_have_len(&rows, 2));
    assert!(!rows_have_len(&rows, 3));
    let ragged: Vec<Vec<f64>> = vec![vec![0.1, 0.3], vec![0.05]];
    assert!(!rows_have_len(&ragged, 2));
    let empty: Vec<Vec<f64>> = Vec::new();
    assert!(rows_have_len(&empty, 5));
}

#[test]
fn branching_dimensions_accepted() {
    let alpha = vec![vec![0.2, 0.1], vec![0.0, 0.1]];
    assert_eq!(check_branching_dimensions(2, &alpha), Ok(()));
}

#[test]
fn branching_dimensions_empty_baseline() {
    let alpha: Vec<Vec<f64>> = Vec::new();
    assert_eq!(check_branching_dimensions(0, &alpha), Err(DimensionError::EmptyBaseline));
}

#[test]
fn branching_dimensions_alpha_not_square() {
    let alpha = vec![vec![0.2, 0.1], vec![0.0]];
    assert_eq!(check_branching_dimensions(2, &alpha), Err(DimensionError::AlphaShape));
    let alpha = vec![vec![0.2, 0.1], vec![0.0, 0.1]];
    assert_eq!(check_branching_dimensions(3, &alpha), Err(DimensionError::AlphaShape));
    let alpha = vec![vec![0.2], vec![0.0]];
    assert_eq!(check_branching_dimensions(2, &alpha), Err(DimensionError::AlphaShape));
}
