use duck_summarizer::count::{is_whitespace_char, parse_count, DEFAULT_COUNT};
use std::str::FromStr;

fn by_the_standard_library(argument: &str, capacity: usize) -> Option<usize> {
    let trimmed = argument.trim();
    if trimmed.is_empty() {
        Some(100)
    } else {
        match usize::from_str(trimmed) {
            Ok(n) if n > 0 && n <= capacity => Some(n),
            _ => None,
        }
    }
}

#[test]
fn invalid_counts_are_rejected() {
    assert_eq!(parse_count("abc", 1000), None);
    assert_eq!(parse_count("0", 1000), None);
    assert_eq!(parse_count("1001", 1000), None);
}

#[test]
fn blank_count_is_the_default() {
    assert_eq!(DEFAULT_COUNT, 100);
    assert_eq!(parse_count("", 1000), Some(100));
    assert_eq!(parse_count("   ", 1000), Some(100));
    assert_eq!(parse_count("\t\n", 1000), Some(100));
    assert_eq!(parse_count("", 3), Some(100));
}

#[test]
fn counts_within_the_capacity_are_accepted() {
    assert_eq!(parse_count("1", 1000), Some(1));
    assert_eq!(parse_count("2", 3), Some(2));
    assert_eq!(parse_count("3", 3), Some(3));
    assert_eq!(parse_count("4", 3), None);
    assert_eq!(parse_count("100", 1000), Some(100));
    assert_eq!(parse_count("1000", 1000), Some(1000));
    assert_eq!(parse_count("18446744073709551615", usize::MAX), Some(usize::MAX));
}

#[test]
fn white_space_around_the_count_is_set_aside() {
    assert_eq!(parse_count(" 5 ", 1000), Some(5));
    assert_eq!(parse_count("\t42\r\n", 1000), Some(42));
    assert_eq!(parse_count("\u{3000}7\u{a0}", 1000), Some(7));
    assert_eq!(parse_count("5 5", 1000), None);
    assert_eq!(parse_count("5\u{200b}", 1000), None);
}

#[test]
fn one_plus_sign_and_leading_zeros_are_accepted() {
    assert_eq!(parse_count("+5", 1000), Some(5));
    assert_eq!(parse_count("00012", 1000), Some(12));
    assert_eq!(parse_count("+007", 1000), Some(7));
    assert_eq!(parse_count("0000000000000000000000000000000000000001000", 1000), Some(1000));
    assert_eq!(parse_count("+", 1000), None);
    assert_eq!(parse_count("++5", 1000), None);
    assert_eq!(parse_count("+ 5", 1000), None);
    assert_eq!(parse_count("5+", 1000), None);
    assert_eq!(parse_count("+0", 1000), None);
    assert_eq!(parse_count("000", 1000), None);
}

#[test]
fn what_is_no_decimal_number_is_rejected() {
    for argument in [
        "-1", "-0", "1.5", "1e3", "0x10", "ten", "1_000", "1,000", "٣", "１２", "½", "5a", "a5",
        "99999999999999999999999999999999999999999999", "18446744073709551616",
    ] {
        assert_eq!(parse_count(argument, 1000), None, "argument {:?}", argument);
        assert_eq!(parse_count(argument, usize::MAX), None, "argument {:?}", argument);
    }
}

#[test]
fn zero_capacity_accepts_no_number() {
    assert_eq!(parse_count("1", 0), None);
    assert_eq!(parse_count("0", 0), None);
    assert_eq!(parse_count("", 0), Some(100));
}

#[test]
fn counts_are_read_as_the_standard_library_reads_them() {
    let pieces = ["", " ", "\t", "\u{85}", "\u{2003}", "+", "-", "0", "1", "7", "10", "999", "1000", "1001", "x", "\u{feff}"];
    for a in pieces {
        for b in pieces {
            for c in pieces {
                let argument = format!("{}{}{}", a, b, c);
                for capacity in [0, 1, 9, 1000, usize::MAX] {
                    assert_eq!(
                        parse_count(&argument, capacity),
                        by_the_standard_library(&argument, capacity),
                        "argument {:?}, capacity {}",
                        argument,
                        capacity
                    );
                }
            }
        }
    }
}

#[test]
fn white_space_is_what_the_standard_library_takes_for_it() {
    for code in 0..=0x10FFFF_u32 {
        if let Some(c) = char::from_u32(code) {
            assert_eq!(is_whitespace_char(c), c.is_whitespace(), "character {:?}", c);
        }
    }
}
