use easechat::frame::relay_frame;
use easechat::reader::read_string;
use std::collections::VecDeque;

#[test]
fn relay_frame_layout() {
    assert_eq!(relay_frame("ep1", "c/lobby", "helloworld"), "1r|3|ep1|7|c/lobby|10|helloworld");
}

#[test]
fn relay_frame_empty_fields() {
    assert_eq!(relay_frame("", "", ""), "1r|0||0||0|");
}

#[test]
fn relay_frame_counts_bytes() {
    // 'é' takes two bytes in UTF-8.
    assert_eq!(relay_frame("a", "b", "é"), "1r|1|a|1|b|2|é");
}

#[test]
fn relay_frame_reads_back() {
    let frame = relay_frame("eafc5479a7e9f012", "c/lobby", "hello | 42 world");
    let mut text: VecDeque<char> = frame.chars().collect();
    assert_eq!(text.pop_front(), Some('1'));
    assert_eq!(text.pop_front(), Some('r'));
    assert_eq!(read_string(&mut text), "eafc5479a7e9f012");
    assert_eq!(read_string(&mut text), "c/lobby");
    assert_eq!(read_string(&mut text), "hello | 42 world");
    assert!(text.is_empty());
}
