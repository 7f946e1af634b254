use easechat::console::{parse_command, ConsoleCommand};
use easechat::legacy;

fn cmd(s: &str) -> ConsoleCommand {
    let v: Vec<char> = s.chars().collect();
    parse_command(&v)
}

#[test]
fn quit_commands() {
    assert_eq!(cmd("q\n"), ConsoleCommand::Quit);
    assert_eq!(cmd("  exit \r\n"), ConsoleCommand::Quit);
}

#[test]
fn list_commands() {
    assert_eq!(cmd("l\n"), ConsoleCommand::List);
    assert_eq!(cmd("\tlist"), ConsoleCommand::List);
}

#[test]
fn other_lines_are_ignored() {
    assert_eq!(cmd(""), ConsoleCommand::Ignore);
    assert_eq!(cmd("   \n"), ConsoleCommand::Ignore);
    assert_eq!(cmd("quit"), ConsoleCommand::Ignore);
    assert_eq!(cmd("l i"), ConsoleCommand::Ignore);
    assert_eq!(cmd("Q"), ConsoleCommand::Ignore);
}

#[test]
fn unicode_white_space_is_trimmed() {
    assert_eq!(cmd("\u{3000}q\u{a0}"), ConsoleCommand::Quit);
}

#[test]
fn legacy_console_knows_only_q() {
    let v: Vec<char> = " q \n".chars().collect();
    assert_eq!(legacy::parse_command(&v), ConsoleCommand::Quit);
    let v: Vec<char> = "exit".chars().collect();
    assert_eq!(legacy::parse_command(&v), ConsoleCommand::Ignore);
}
