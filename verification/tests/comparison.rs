use meta_service::comparison::BooleanSimdLt;
use meta_service::comparison::ComparisonLtImpl;

#[test]
fn binary_less_than_is_lexicographic() {
    assert!(ComparisonLtImpl::eval_binary(b"abc", b"abd"));
    assert!(!ComparisonLtImpl::eval_binary(b"abd", b"abc"));
    assert!(ComparisonLtImpl::eval_binary(b"ab", b"abc"));
    assert!(!ComparisonLtImpl::eval_binary(b"abc", b"ab"));
    assert!(!ComparisonLtImpl::eval_binary(b"abc", b"abc"));
    assert!(ComparisonLtImpl::eval_binary(b"", b"a"));
    assert!(!ComparisonLtImpl::eval_binary(b"", b""));
    assert!(!ComparisonLtImpl::eval_binary(b"a", b""));
    assert!(ComparisonLtImpl::eval_binary(&[1, 255], &[2]));
}

#[test]
fn binary_less_than_agrees_with_slices() {
    let values: Vec<Vec<u8>> =
        vec![vec![], vec![0], vec![0, 0], vec![0, 1], vec![1], vec![1, 0], vec![255], vec![2, 3, 4]];
    for l in values.iter() {
        for r in values.iter() {
            assert_eq!(ComparisonLtImpl::eval_binary(l, r), l < r);
        }
    }
}

#[test]
fn boolean_columns_compare_row_by_row() {
    let lhs = vec![false, false, true, true];
    let rhs = vec![false, true, false, true];
    assert_eq!(BooleanSimdLt::vector_vector(&lhs, &rhs), vec![false, true, false, false]);
    assert_eq!(BooleanSimdLt::vector_vector(&vec![], &vec![]), Vec::<bool>::new());
}

#[test]
fn boolean_column_against_a_value() {
    let col = vec![false, true, false];
    assert_eq!(BooleanSimdLt::vector_const(&col, true), vec![true, false, true]);
    assert_eq!(BooleanSimdLt::vector_const(&col, false), vec![false, false, false]);
    assert_eq!(BooleanSimdLt::const_vector(false, &col), vec![false, true, false]);
    assert_eq!(BooleanSimdLt::const_vector(true, &col), vec![false, false, false]);
}
