use befunge::arith::{
    checked_difference, checked_product, checked_quotient, checked_remainder, checked_sum,
    low_byte_of,
};
use befunge::decimal::{parse_decimal, write_decimal};
use befunge::error::ExecutionError;
use befunge::grid::{Grid, COLS, OUTSIDE, ROWS};
use befunge::input::Input;

fn chars(text: &str) -> Vec<char> {
    text.chars().collect()
}

fn written(value: i32) -> String {
    let mut out: Vec<char> = Vec::new();
    write_decimal(value, &mut out);
    out.iter().collect()
}

fn grid_of(source: &[&str]) -> Grid {
    let lines: Vec<String> = source.iter().map(|line| String::from(*line)).collect();
    Grid::new(&lines)
}

fn input_of(text: &str) -> Input {
    let mut input = Input::default();
    input.feed(text);
    input
}

#[test]
fn write_decimal_gives_the_numeral() {
    assert_eq!("0", written(0));
    assert_eq!("7", written(7));
    assert_eq!("10", written(10));
    assert_eq!("-1", written(-1));
    assert_eq!("1234567890", written(1234567890));
    assert_eq!("2147483647", written(i32::MAX));
    assert_eq!("-2147483648", written(i32::MIN));
}

#[test]
fn write_decimal_appends() {
    let mut out = chars("n=");
    write_decimal(-12, &mut out);
    write_decimal(34, &mut out);
    assert_eq!(chars("n=-1234"), out);
}

#[test]
fn parse_decimal_reads_numerals() {
    assert_eq!(Some(0), parse_decimal(&chars("0")));
    assert_eq!(Some(42), parse_decimal(&chars("42")));
    assert_eq!(Some(42), parse_decimal(&chars("+42")));
    assert_eq!(Some(-42), parse_decimal(&chars("-42")));
    assert_eq!(Some(7), parse_decimal(&chars("007")));
    assert_eq!(Some(i32::MAX), parse_decimal(&chars("2147483647")));
    assert_eq!(Some(i32::MIN), parse_decimal(&chars("-2147483648")));
    assert_eq!(Some(i32::MAX), parse_decimal(&chars("+00000000000000000002147483647")));
}

#[test]
fn parse_decimal_refuses_what_is_no_numeral() {
    for text in [
        "", "+", "-", "--1", "+-1", "1-", "1+1", " 1", "1 ", "1\n", "0x10", "1e3", "1.0", "one",
        "٣", "2147483648", "-2147483649", "99999999999999999999999999", "-99999999999999999999",
    ] {
        assert_eq!(None, parse_decimal(&chars(text)), "{:?}", text);
    }
}

#[test]
fn parse_decimal_agrees_with_the_standard_library() {
    for text in ["12", "-12", "+12", "", "-", "+", "0012", "12a", "2147483647", "2147483648", "-2147483648", "-2147483649", "- 1", "٣"] {
        assert_eq!(text.parse::<i32>().ok(), parse_decimal(&chars(text)), "{:?}", text);
    }
}

#[test]
fn what_is_written_is_read_back() {
    for value in [0, 1, -1, 9, 10, 99, 100, -100, 123456, i32::MAX, i32::MIN, i32::MIN + 1] {
        assert_eq!(Some(value), parse_decimal(&chars(&written(value))));
        assert_eq!(value.to_string(), written(value));
    }
}

#[test]
fn checked_arithmetic_gives_the_result_where_it_fits() {
    assert_eq!(Ok(5), checked_sum(2, 3));
    assert_eq!(Ok(-1), checked_difference(2, 3));
    assert_eq!(Ok(6), checked_product(2, 3));
    assert_eq!(Ok(3), checked_quotient(7, 2));
    assert_eq!(Ok(1), checked_remainder(7, 2));
    assert_eq!(Ok(i32::MIN), checked_sum(i32::MIN + 5, -5));
    assert_eq!(Ok(i32::MAX), checked_difference(-1, i32::MIN));
    assert_eq!(Ok(i32::MIN), checked_quotient(i32::MIN, 1));
    assert_eq!(Ok(i32::MAX), checked_quotient(-i32::MAX, -1));
}

#[test]
fn checked_arithmetic_reports_what_does_not_fit() {
    assert_eq!(Err(ExecutionError::Overflow), checked_sum(i32::MAX, 1));
    assert_eq!(Err(ExecutionError::Overflow), checked_sum(i32::MIN, -1));
    assert_eq!(Err(ExecutionError::Overflow), checked_difference(0, i32::MIN));
    assert_eq!(Err(ExecutionError::Overflow), checked_product(i32::MIN, -1));
    assert_eq!(Err(ExecutionError::Overflow), checked_quotient(i32::MIN, -1));
    assert_eq!(Err(ExecutionError::DivisionByZero), checked_quotient(1, 0));
    assert_eq!(Err(ExecutionError::DivisionByZero), checked_quotient(0, 0));
    assert_eq!(Err(ExecutionError::DivisionByZero), checked_remainder(1, 0));
}

#[test]
fn quotient_and_remainder_make_up_the_dividend() {
    for b in [-9, -8, -1, 0, 1, 8, 9, i32::MAX, i32::MIN + 1] {
        for a in [-4, -3, -1, 1, 3, 4, i32::MAX, i32::MIN] {
            let q = checked_quotient(b, a).unwrap() as i64;
            let r = checked_remainder(b, a).unwrap() as i64;
            assert_eq!(b as i64, (a as i64) * q + r);
            assert!(r.abs() < (a as i64).abs());
            assert!(r == 0 || (r < 0) == (b < 0));
        }
    }
    assert_eq!(Ok(0), checked_remainder(i32::MIN, -1));
    assert_eq!(Ok(-2), checked_remainder(i32::MIN, 3));
}

#[test]
fn low_byte_of_keeps_eight_bits() {
    assert_eq!(0, low_byte_of(0));
    assert_eq!(65, low_byte_of(65));
    assert_eq!(255, low_byte_of(255));
    assert_eq!(0, low_byte_of(256));
    assert_eq!(1, low_byte_of(257));
    assert_eq!(255, low_byte_of(-1));
    assert_eq!(0, low_byte_of(-256));
    assert_eq!(1, low_byte_of(-255));
    assert_eq!(255, low_byte_of(i32::MAX));
    assert_eq!(0, low_byte_of(i32::MIN));
    for v in [-70000, -513, -3, 12, 300, 123456] {
        assert_eq!(v as u8, low_byte_of(v));
    }
}

#[test]
fn grid_holds_the_text_and_spaces() {
    let grid = grid_of(&["12", "", "abc"]);
    assert_eq!('1', grid.get(0, 0));
    assert_eq!('2', grid.get(0, 1));
    assert_eq!(' ', grid.get(0, 2));
    assert_eq!(' ', grid.get(1, 0));
    assert_eq!('c', grid.get(2, 2));
    assert_eq!(' ', grid.get(24, 79));
    assert_eq!(25, ROWS);
    assert_eq!(80, COLS);
}

#[test]
fn grid_of_no_text_is_all_spaces() {
    let grid = grid_of(&[]);
    let rows = grid.rows();
    assert_eq!(25, rows.len());
    for row in rows {
        assert_eq!(vec![' '; 80], row);
    }
}

#[test]
fn grid_takes_characters_beyond_ascii() {
    let grid = grid_of(&["é€\u{1F600}x"]);
    assert_eq!('é', grid.get(0, 0));
    assert_eq!('€', grid.get(0, 1));
    assert_eq!('\u{1F600}', grid.get(0, 2));
    assert_eq!('x', grid.get(0, 3));
    assert_eq!(' ', grid.get(0, 4));
}

#[test]
fn grid_drops_what_is_beyond_the_canvas() {
    let wide: String = ('a'..='z').cycle().take(200).collect();
    let mut lines: Vec<&str> = vec![wide.as_str(); 40];
    lines[24] = "last";
    lines[25] = "dropped";
    let grid = grid_of(&lines);
    assert_eq!('a', grid.get(0, 0));
    assert_eq!('b', grid.get(0, 79));
    assert_eq!('b', grid.get(23, 79));
    assert_eq!('l', grid.get(24, 0));
    assert_eq!(' ', grid.get(24, 4));
    assert_eq!(OUTSIDE, grid.get(25, 0));
    assert_eq!(OUTSIDE, grid.get(0, 80));
}

#[test]
fn grid_get_outside_yields_the_sentinel() {
    let grid = grid_of(&["abc"]);
    assert_eq!('\0', OUTSIDE);
    for (row, col) in [
        (-1, 0),
        (0, -1),
        (25, 0),
        (0, 80),
        (25, 80),
        (i32::MAX, 0),
        (0, i32::MAX),
        (i32::MIN, i32::MIN),
        (-1, 80),
    ] {
        assert_eq!(OUTSIDE, grid.get(row, col));
        assert_eq!(0, grid.get(row, col) as u32);
    }
}

#[test]
fn grid_put_writes_one_cell() {
    let mut grid = grid_of(&["abc", "def"]);
    let before = grid.rows();
    grid.put(1, 1, b'X');
    let after = grid.rows();
    assert_eq!('X', grid.get(1, 1));
    for row in 0..25 {
        for col in 0..80 {
            if (row, col) != (1, 1) {
                assert_eq!(before[row][col], after[row][col]);
            }
        }
    }
    grid.put(24, 79, 0);
    assert_eq!('\0', grid.get(24, 79));
    grid.put(0, 0, 255);
    assert_eq!('\u{FF}', grid.get(0, 0));
}

#[test]
fn grid_put_outside_changes_nothing() {
    let mut grid = grid_of(&["abc", "def"]);
    let before = grid.rows();
    for (row, col) in [(-1, 0), (0, -1), (25, 0), (0, 80), (i32::MAX, i32::MAX), (i32::MIN, 3)] {
        grid.put(row, col, b'X');
    }
    assert_eq!(before, grid.rows());
}

#[test]
fn input_is_read_in_the_order_fed() {
    let mut input = input_of("ab");
    input.feed("c");
    assert_eq!(Some('a'), input.read_char());
    assert_eq!(Some('b'), input.read_char());
    input.feed("d");
    assert_eq!(Some('c'), input.read_char());
    assert_eq!(Some('d'), input.read_char());
    assert_eq!(None, input.read_char());
    assert_eq!(None, input.read_char());
    assert!(input.is_empty());
}

#[test]
fn input_read_line_stops_at_the_line_feed() {
    let mut input = input_of("one\ntwo\n\nlast");
    assert_eq!(chars("one"), input.read_line());
    assert_eq!(chars("two"), input.read_line());
    assert_eq!(chars(""), input.read_line());
    assert!(!input.is_empty());
    assert_eq!(chars("last"), input.read_line());
    assert!(input.is_empty());
    assert_eq!(chars(""), input.read_line());
    assert!(input.is_empty());
}

#[test]
fn input_peek_line_leaves_the_line() {
    let mut input = input_of("one\ntwo");
    assert_eq!(chars("one"), input.peek_line());
    assert_eq!(chars("one"), input.peek_line());
    input.skip_line();
    assert_eq!(chars("two"), input.peek_line());
    input.skip_line();
    assert!(input.is_empty());
    assert_eq!(chars(""), input.peek_line());
    input.skip_line();
    assert!(input.is_empty());
}

#[test]
fn input_read_line_keeps_the_carriage_return() {
    let mut input = input_of("one\r\ntwo");
    assert_eq!(chars("one\r"), input.read_line());
    assert_eq!(Some('t'), input.read_char());
}

#[test]
fn input_holds_line_looks_for_a_line_feed() {
    let mut input = Input::default();
    assert!(!input.holds_line());
    assert!(input.is_empty());
    input.feed("12");
    assert!(!input.holds_line());
    input.feed("\n");
    assert!(input.holds_line());
    input.feed("3");
    assert!(input.holds_line());
    assert_eq!(chars("12"), input.read_line());
    assert!(!input.holds_line());
    assert!(!input.is_empty());
}
