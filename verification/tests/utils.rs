use gridkit::utils::{
    filter_by_regex, max_column, max_row, min_column, min_row, modulus, pad, rotate,
    split_by_regex, sum_column, sum_row, to_2d_numeric, to_numeric,
};

const DELIMITERS: &str = ",|\\.|\\|| ";
const SINGLE_LINE: &str = "1,2.3|4 5";
const FILTERED_SINGLE_LINE: &str = "12345";
const SPLIT_SINGLE_LINE: [&str; 5] = ["1", "2", "3", "4", "5"];
const NUMERIC_SINGLE_LINE: [i32; 5] = [1, 2, 3, 4, 5];

#[test]
fn filter_string() {
    assert_eq!(filter_by_regex(SINGLE_LINE, DELIMITERS).unwrap(), FILTERED_SINGLE_LINE);
}

#[test]
fn split_string() {
    assert_eq!(split_by_regex(SINGLE_LINE, DELIMITERS).unwrap(), SPLIT_SINGLE_LINE.to_vec());
}

#[test]
fn numeric_conversions() {
    assert_eq!(to_numeric::<i32>(&SPLIT_SINGLE_LINE).unwrap(), NUMERIC_SINGLE_LINE.to_vec());
    assert_eq!(
        to_2d_numeric::<i32>(&[vec!["1", "1"], vec!["2", "2"], vec!["3", "3"]]).unwrap(),
        &[vec![1, 1], vec![2, 2], vec![3, 3]]
    );
}

#[test]
fn grid_summation() {
    let grid = &[vec![1, 2, 3], vec![4, 5, 6], vec![7, 8, 9]];

    assert_eq!(sum_column(grid, 0), Some(12));
    assert_eq!(sum_column(grid, 1), Some(15));
    assert_eq!(sum_column(grid, 2), Some(18));

    assert_eq!(sum_row(grid, 0), Some(6));
    assert_eq!(sum_row(grid, 1), Some(15));
    assert_eq!(sum_row(grid, 2), Some(24));
}

#[test]
fn grid_min_max() {
    let grid = &[vec![1, 2], vec![5, 4]];

    assert_eq!(min_column(grid, 0), Some(1));
    assert_eq!(max_column(grid, 0), Some(5));

    assert_eq!(min_row(grid, 0), Some(1));
    assert_eq!(max_row(grid, 0), Some(2));
}

#[test]
fn grid_rotate() {
    let grid = &[vec![1, 2, 3], vec![4, 5, 6], vec![7, 8, 9]];

    assert_eq!(rotate(grid), vec![vec![1, 4, 7], vec![2, 5, 8], vec![3, 6, 9]])
}

#[test]
fn mathematical_modulus() {
    let a = 7;
    let b = -7;

    assert_eq!(modulus(a, 5), 2);
    assert_eq!(modulus(b, 5), 3);
}

#[test]
fn padding() {
    assert_eq!(
        pad("aa\naa", '#'),
        Some(vec![
            vec!['#', '#', '#', '#'],
            vec!['#', 'a', 'a', '#'],
            vec!['#', 'a', 'a', '#'],
            vec!['#', '#', '#', '#']
        ])
    );
}

#[test]
fn empty_grid() {
    let grid: &[Vec<i32>] = &[];
    assert_eq!(sum_column(grid, 0), None);
}

#[test]
fn out_of_bounds() {
    let grid = &[vec![1, 2]];
    assert_eq!(sum_column(grid, 5), None);
    assert_eq!(sum_row(grid, 5), None);
}

#[test]
fn pad_empty() {
    assert_eq!(pad("", '#'), None);
}
