use gridkit::error::{ParseError, PatternError};
use gridkit::pattern::Matcher;
use gridkit::text::{lines_of, parse_number};
use gridkit::utils::{
    filter_by_regex, filter_compiled, max_column, max_row, min_column, min_row, modulus, pad,
    pad_lines, rotate, split_2d_by_regex, split_2d_compiled, split_by_regex, split_compiled,
    sum_column, sum_row, to_2d_numeric, to_numeric,
};

#[test]
fn rotating_twice_gives_the_grid_again() {
    let grid = vec![vec![1, 2, 3], vec![4, 5, 6]];
    let once = rotate(&grid);
    assert_eq!(once, vec![vec![1, 4], vec![2, 5], vec![3, 6]]);
    assert_eq!(rotate(&once), grid);
}

#[test]
fn rotating_a_ragged_grid_loses_nothing() {
    let grid = vec![vec![1, 2, 3], vec![4], vec![5, 6]];
    assert_eq!(rotate(&grid), vec![vec![1, 4, 5], vec![2, 6], vec![3]]);
}

#[test]
fn rotating_rows_without_cells_gives_no_rows() {
    let none: Vec<Vec<u8>> = Vec::new();
    assert_eq!(rotate(&none), none);
    let hollow: Vec<Vec<u8>> = vec![vec![], vec![]];
    assert_eq!(rotate(&hollow), none);
}

#[test]
fn padding_adds_two_to_each_dimension() {
    let padded = pad("abc\ndef", '.').unwrap();
    assert_eq!(padded.len(), 4);
    for row in &padded {
        assert_eq!(row.len(), 5);
    }
    assert_eq!(padded[1][1], 'a');
    assert_eq!(padded[1][3], 'c');
    assert_eq!(padded[2][2], 'e');
    assert_eq!(padded[0], vec!['.'; 5]);
    assert_eq!(padded[3], vec!['.'; 5]);
    assert_eq!(padded[1][0], '.');
    assert_eq!(padded[2][4], '.');
}

#[test]
fn padding_keeps_ragged_lines_ragged() {
    assert_eq!(
        pad("\nab\n", '#'),
        Some(vec![vec!['#', '#'], vec!['#', '#'], vec!['#', 'a', 'b', '#'], vec!['#', '#']])
    );
}

#[test]
fn padding_nothing_gives_nothing() {
    assert_eq!(pad("", '#'), None);
    assert_eq!(pad("\n", '#'), None);
    assert_eq!(pad("\n\r\n\n", '#'), None);
    assert_eq!(pad_lines(&[], '#'), None);
    assert_eq!(pad_lines(&[vec![], vec![]], '#'), None);
}

#[test]
fn padding_lines_frames_what_it_is_given() {
    assert_eq!(
        pad_lines(&[vec!['x']], ' '),
        Some(vec![vec![' ', ' ', ' '], vec![' ', 'x', ' '], vec![' ', ' ', ' ']])
    );
}

#[test]
fn lines_end_with_a_line_feed_or_with_both() {
    let text = "ab\r\ncd\n\nef\r";
    let lines: Vec<String> = lines_of(text).into_iter().map(|l| l.into_iter().collect()).collect();
    assert_eq!(lines, vec!["ab", "cd", "", "ef\r"]);
    assert_eq!(lines, text.lines().collect::<Vec<_>>());
}

#[test]
fn both_ways_to_lines_agree() {
    for text in ["", "\n", "a", "a\n", "a\r\n", "\r\n\r\n", "a\rb\nc", "x\n\ny", "\r", "a\n\r"] {
        let rows = split_2d_by_regex(text, "#").unwrap();
        let lines = lines_of(text);
        assert_eq!(rows.len(), lines.len());
        for (row, line) in rows.iter().zip(lines.iter()) {
            assert_eq!(row.len(), 1);
            assert_eq!(row[0].chars().collect::<Vec<char>>(), *line);
        }
    }
}

#[test]
fn modulus_is_never_negative_for_a_positive_divisor() {
    for a in -20i32..=20 {
        for b in 1i32..=7 {
            let m = modulus(a, b);
            assert!(0 <= m && m < b);
            assert_eq!(m, a.rem_euclid(b));
        }
    }
    assert_eq!(modulus(7u8, 5u8), 2);
    assert_eq!(modulus(-1i64, 1_000_000_007), 1_000_000_006);
}

#[test]
fn modulus_follows_the_sign_of_the_divisor() {
    assert_eq!(modulus(7, -5), -3);
    assert_eq!(modulus(-7, -5), -2);
    assert_eq!(modulus(10, -5), 0);
}

#[test]
fn aggregates_of_nothing_are_absent() {
    let empty: Vec<Vec<i32>> = Vec::new();
    assert_eq!(sum_column(&empty, 0), None);
    assert_eq!(sum_row(&empty, 0), None);
    assert_eq!(min_column(&empty, 0), None);
    assert_eq!(max_column(&empty, 0), None);
    assert_eq!(min_row(&empty, 0), None);
    assert_eq!(max_row(&empty, 0), None);

    let grid = vec![vec![1, 2], vec![3, 4]];
    assert_eq!(sum_column(&grid, 2), None);
    assert_eq!(min_column(&grid, 2), None);
    assert_eq!(max_column(&grid, 2), None);
    assert_eq!(sum_row(&grid, 2), None);
    assert_eq!(min_row(&grid, 2), None);
    assert_eq!(max_row(&grid, 2), None);
}

#[test]
fn a_row_without_cells_sums_to_zero_and_has_no_extremes() {
    let grid: Vec<Vec<i32>> = vec![vec![], vec![5]];
    assert_eq!(sum_row(&grid, 0), Some(0));
    assert_eq!(min_row(&grid, 0), None);
    assert_eq!(max_row(&grid, 0), None);
    assert_eq!(sum_column(&grid, 0), None);
}

#[test]
fn a_column_needs_a_cell_in_every_row() {
    let grid = vec![vec![1, 2, 3], vec![4], vec![5, 6]];
    assert_eq!(sum_column(&grid, 0), Some(10));
    assert_eq!(min_column(&grid, 0), Some(1));
    assert_eq!(max_column(&grid, 0), Some(5));
    assert_eq!(sum_column(&grid, 1), None);
    assert_eq!(min_column(&grid, 1), None);
    assert_eq!(max_column(&grid, 2), None);
}

#[test]
fn extremes_are_found_wherever_they_stand() {
    let grid = vec![vec![3i8, -9, 7], vec![-2, 8, 7], vec![5, 0, -128]];
    assert_eq!(min_row(&grid, 0), Some(-9));
    assert_eq!(max_row(&grid, 0), Some(7));
    assert_eq!(min_row(&grid, 2), Some(-128));
    assert_eq!(max_row(&grid, 1), Some(8));
    assert_eq!(min_column(&grid, 1), Some(-9));
    assert_eq!(max_column(&grid, 1), Some(8));
    assert_eq!(min_column(&grid, 2), Some(-128));
    assert_eq!(max_column(&grid, 2), Some(7));
    assert_eq!(sum_column(&grid, 0), Some(6));
    assert_eq!(sum_row(&grid, 2), Some(-123));
}

#[test]
fn split_then_parse() {
    let tokens = split_by_regex("1,2.3|4 5", ",|\\.|\\|| ").unwrap();
    assert_eq!(tokens, vec!["1", "2", "3", "4", "5"]);
    assert_eq!(to_numeric::<i32>(&tokens), Ok(vec![1, 2, 3, 4, 5]));
}

#[test]
fn empty_tokens_are_kept() {
    assert_eq!(split_by_regex(",a,,b,", ",").unwrap(), vec!["", "a", "", "b", ""]);
    assert_eq!(split_by_regex("", ",").unwrap(), vec![""]);
    assert_eq!(split_by_regex("abc", ",").unwrap(), vec!["abc"]);
}

#[test]
fn filter_is_split_put_together() {
    for text in ["1,2.3|4 5", ",a,,b,", "", "no match here", "a1b22c333"] {
        for pattern in [",|\\.|\\|| ", "[0-9]+", ",", "x*"] {
            let rest = filter_by_regex(text, pattern).unwrap();
            let parts = split_by_regex(text, pattern).unwrap();
            assert_eq!(rest, parts.concat());
        }
    }
    assert_eq!(filter_by_regex("a1b22c333", "[0-9]+").unwrap(), "abc");
}

#[test]
fn lines_are_split_one_by_one() {
    assert_eq!(
        split_2d_by_regex("1,1\n2.2\n3 3", ",|\\.|\\|| ").unwrap(),
        vec![vec!["1", "1"], vec!["2", "2"], vec!["3", "3"]]
    );
    assert_eq!(
        split_2d_by_regex("a b\r\n\nc", "\\s").unwrap(),
        vec![vec!["a", "b"], vec![""], vec!["c"]]
    );
    let none: Vec<Vec<&str>> = Vec::new();
    assert_eq!(split_2d_by_regex("", ",").unwrap(), none);
}

#[test]
fn a_matcher_is_compiled_once_and_used_often() {
    let matcher = Matcher::new("-+").unwrap();
    assert_eq!(matcher.split("a--b-c"), vec!["a", "b", "c"]);
    assert_eq!(matcher.filter("a--b-c"), "abc");
    assert_eq!(matcher.split_lines("a-b\nc"), vec![vec!["a", "b"], vec!["c"]]);
}

#[test]
fn a_malformed_pattern_is_reported() {
    assert!(matches!(split_by_regex("abc", "("), Err(PatternError::Syntax(_))));
    assert!(matches!(filter_by_regex("abc", "[a"), Err(PatternError::Syntax(_))));
    assert!(matches!(split_2d_by_regex("abc", "a{2,1}"), Err(PatternError::Syntax(_))));
    assert!(matches!(Matcher::new("\\"), Err(PatternError::Syntax(_))));
}

#[test]
fn a_pattern_that_grows_too_big_is_reported() {
    match split_by_regex("abc", "\\w{1000}") {
        Err(PatternError::TooBig(limit)) => assert!(limit > 0),
        other => panic!("{:?}", other),
    }
}

#[test]
fn the_first_bad_token_is_reported() {
    assert_eq!(
        to_numeric::<i32>(&["1", "x", "3", "y"]),
        Err(ParseError { row: 0, index: 1, token: "x".to_string() })
    );
    assert_eq!(
        to_2d_numeric::<u8>(&[vec!["1", "2"], vec![], vec!["3", "256", "-"]]),
        Err(ParseError { row: 2, index: 1, token: "256".to_string() })
    );
    let none: Vec<i64> = Vec::new();
    assert_eq!(to_numeric::<i64>(&[]), Ok(none));
}

#[test]
fn numbers_are_read_as_the_standard_library_reads_them() {
    let tokens = [
        "0", "7", "+7", "-7", "007", "-0", "+0", "", "+", "-", "++1", "--1", "+-1", " 1", "1 ",
        "1_000", "0x10", "1.0", "127", "128", "-128", "-129", "255", "256", "32767", "-32768",
        "65535", "65536", "2147483647", "2147483648", "-2147483648", "-2147483649",
        "18446744073709551615", "18446744073709551616", "9223372036854775807",
        "-9223372036854775808", "-9223372036854775809",
        "170141183460469231731687303715884105727", "170141183460469231731687303715884105728",
        "-170141183460469231731687303715884105728", "-170141183460469231731687303715884105729",
        "340282366920938463463374607431768211455", "340282366920938463463374607431768211456",
        "0000000000000000000000000000000000000000000000000000000000000000000000000000012",
        "99999999999999999999999999999999999999999999999999999", "٣", "1a",
    ];
    for token in tokens {
        assert_eq!(parse_number::<i8>(token), token.parse::<i8>().ok());
        assert_eq!(parse_number::<i16>(token), token.parse::<i16>().ok());
        assert_eq!(parse_number::<i32>(token), token.parse::<i32>().ok());
        assert_eq!(parse_number::<i64>(token), token.parse::<i64>().ok());
        assert_eq!(parse_number::<i128>(token), token.parse::<i128>().ok());
        assert_eq!(parse_number::<isize>(token), token.parse::<isize>().ok());
        assert_eq!(parse_number::<u8>(token), token.parse::<u8>().ok());
        assert_eq!(parse_number::<u16>(token), token.parse::<u16>().ok());
        assert_eq!(parse_number::<u32>(token), token.parse::<u32>().ok());
        assert_eq!(parse_number::<u64>(token), token.parse::<u64>().ok());
        assert_eq!(parse_number::<u128>(token), token.parse::<u128>().ok());
        assert_eq!(parse_number::<usize>(token), token.parse::<usize>().ok());
    }
    assert_eq!(parse_number::<i32>("-12"), Some(-12));
    assert_eq!(parse_number::<u32>("-12"), None);
}

#[test]
fn a_compiled_pattern_always_gives_a_result() {
    assert_eq!(split_compiled(Matcher::new(","), "a,b"), Ok(vec!["a", "b"]));
    assert_eq!(filter_compiled(Matcher::new(","), "a,b"), Ok("ab".to_string()));
    assert_eq!(
        split_2d_compiled(Matcher::new(","), "a,b\nc"),
        Ok(vec![vec!["a", "b"], vec!["c"]])
    );
}

#[test]
fn an_error_of_compiling_is_handed_on() {
    assert_eq!(split_compiled(Err(PatternError::Other), "a,b"), Err(PatternError::Other));
    assert_eq!(filter_compiled(Err(PatternError::TooBig(7)), "a,b"), Err(PatternError::TooBig(7)));
    assert_eq!(
        split_2d_compiled(Err(PatternError::Syntax("bad".to_string())), "a,b"),
        Err(PatternError::Syntax("bad".to_string()))
    );
    assert!(matches!(split_compiled(Matcher::new("("), "a"), Err(PatternError::Syntax(_))));
}

#[test]
fn an_attempt_to_compile_becomes_a_matcher_or_a_report() {
    let kept = Matcher::from_compiled(Ok(Matcher::new("-").unwrap()));
    assert_eq!(kept.unwrap().split("a-b"), vec!["a", "b"]);

    let malformed = regex::Regex::new("(").unwrap_err();
    let message = malformed.to_string();
    match Matcher::from_compiled(Err(malformed)) {
        Err(PatternError::Syntax(reported)) => assert_eq!(reported, message),
        _ => panic!("a malformed pattern gave no syntax error"),
    }
}
