use std::cmp::Ordering;

use bunyan_view::{LevelError, LogLevel};

#[test]
fn named_levels_decode_from_their_codes() {
    assert_eq!(LogLevel::from_code(10), Ok(LogLevel::Trace));
    assert_eq!(LogLevel::from_code(20), Ok(LogLevel::Debug));
    assert_eq!(LogLevel::from_code(30), Ok(LogLevel::Info));
    assert_eq!(LogLevel::from_code(40), Ok(LogLevel::Warn));
    assert_eq!(LogLevel::from_code(50), Ok(LogLevel::Error));
    assert_eq!(LogLevel::from_code(60), Ok(LogLevel::Fatal));
}

#[test]
fn other_codes_in_range_become_custom() {
    assert_eq!(LogLevel::from_code(15), Ok(LogLevel::Custom(15)));
    assert_eq!(LogLevel::from_code(35), Ok(LogLevel::Custom(35)));
    assert_eq!(LogLevel::from_code(0), Ok(LogLevel::Custom(0)));
    assert_eq!(LogLevel::from_code(255), Ok(LogLevel::Custom(255)));
}

#[test]
fn out_of_range_codes_are_rejected() {
    assert_eq!(LogLevel::from_code(256), Err(LevelError::InvalidLevelCode));
    assert_eq!(LogLevel::from_code(-1), Err(LevelError::InvalidLevelCode));
}

#[test]
fn names_parse_case_insensitively() {
    assert_eq!(LogLevel::from_name("trace"), Ok(LogLevel::Trace));
    assert_eq!(LogLevel::from_name("TRACE"), Ok(LogLevel::Trace));
    assert_eq!(LogLevel::from_name("Debug"), Ok(LogLevel::Debug));
    assert_eq!(LogLevel::from_name("Info"), Ok(LogLevel::Info));
    assert_eq!(LogLevel::from_name("wArN"), Ok(LogLevel::Warn));
    assert_eq!(LogLevel::from_name("ERROR"), Ok(LogLevel::Error));
    assert_eq!(LogLevel::from_name("FaTaL"), Ok(LogLevel::Fatal));
}

#[test]
fn unknown_names_are_rejected() {
    assert_eq!(LogLevel::from_name("bogus"), Err(LevelError::InvalidLevelName));
    assert_eq!(LogLevel::from_name(""), Err(LevelError::InvalidLevelName));
    assert_eq!(LogLevel::from_name("warning"), Err(LevelError::InvalidLevelName));
}

#[test]
fn named_levels_order_by_code() {
    assert!(LogLevel::Trace < LogLevel::Debug);
    assert!(LogLevel::Debug < LogLevel::Info);
    assert!(LogLevel::Info < LogLevel::Warn);
    assert!(LogLevel::Warn < LogLevel::Error);
    assert!(LogLevel::Error < LogLevel::Fatal);
}

#[test]
fn custom_levels_interleave_with_named_ones() {
    assert!(LogLevel::Custom(35) > LogLevel::Info);
    assert!(LogLevel::Custom(35) < LogLevel::Warn);
    assert!(LogLevel::Custom(15) > LogLevel::Trace);
    assert!(LogLevel::Custom(15) < LogLevel::Debug);
    assert!(LogLevel::Custom(35) > LogLevel::Custom(15));
}

#[test]
fn custom_level_with_a_named_code_compares_equal() {
    assert_eq!(LogLevel::Custom(30).partial_cmp(&LogLevel::Info), Some(Ordering::Equal));
}

#[test]
fn codes_round_trip() {
    assert_eq!(LogLevel::Info.code(), 30);
    assert_eq!(LogLevel::Custom(7).code(), 7);
    assert_eq!(LogLevel::from_code(i64::from(LogLevel::Fatal.code())), Ok(LogLevel::Fatal));
}
