use easechat::reader::{read_number, read_string, try_read_number, try_read_string};
use std::collections::VecDeque;

fn chars(s: &str) -> VecDeque<char> {
    s.chars().collect()
}

fn rest(text: &VecDeque<char>) -> String {
    text.iter().collect()
}

#[test]
fn read_number_reads_length_prefix() {
    let mut text = chars("16|eafc5479a7e9f012");
    assert_eq!(read_number(&mut text), 16);
    assert_eq!(rest(&text), "eafc5479a7e9f012");
}

#[test]
fn read_number_skips_leading_non_digits() {
    let mut text = chars("|7|c/lobby");
    assert_eq!(read_number(&mut text), 7);
    assert_eq!(rest(&text), "c/lobby");
}

#[test]
fn read_number_at_end_of_text() {
    let mut text = chars("x2140083600");
    assert_eq!(read_number(&mut text), 2140083600);
    assert_eq!(rest(&text), "");
}

#[test]
fn read_number_without_digits_is_zero_and_consumes_all() {
    let mut text = chars("abc|");
    assert_eq!(read_number(&mut text), 0);
    assert!(text.is_empty());
}

#[test]
fn read_number_largest_u64() {
    let mut text = chars("18446744073709551615|x");
    assert_eq!(read_number(&mut text), u64::MAX);
    assert_eq!(rest(&text), "x");
}

#[test]
fn try_read_number_overflow_is_none() {
    let mut text = chars("18446744073709551616|x");
    assert_eq!(try_read_number(&mut text), None);
}

#[test]
fn read_string_reads_field() {
    let mut text = chars("7|c/lobby|10|helloworld");
    assert_eq!(read_string(&mut text), "c/lobby");
    assert_eq!(read_string(&mut text), "helloworld");
    assert!(text.is_empty());
}

#[test]
fn read_string_short_text_takes_what_is_left() {
    let mut text = chars("10|abc");
    assert_eq!(read_string(&mut text), "abc");
    assert!(text.is_empty());
}

#[test]
fn read_string_field_may_hold_digits_and_bars() {
    let mut text = chars("5|1|2|3|rest");
    assert_eq!(read_string(&mut text), "1|2|3");
    assert_eq!(rest(&text), "|rest");
}

#[test]
fn try_read_string_overflow_is_none() {
    let mut text = chars("99999999999999999999|abc");
    assert!(try_read_string(&mut text).is_none());
}
