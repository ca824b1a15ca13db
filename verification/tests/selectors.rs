use ocl_plotter::selector::{parse_selector, Selector, SelectorError};
use ocl_plotter::text::{append_decimal, chars_of, parse_number};

fn decimal(n: u64) -> String {
    let mut text = String::from("n=");
    append_decimal(&mut text, n);
    text
}

fn number(s: &str) -> Option<usize> {
    let chars = chars_of(s);
    parse_number(&chars, 0, chars.len())
}

#[test]
fn decimal_notation() {
    assert_eq!(decimal(0), "n=0");
    assert_eq!(decimal(9), "n=9");
    assert_eq!(decimal(10), "n=10");
    assert_eq!(decimal(90210), "n=90210");
    assert_eq!(decimal(u64::MAX), format!("n={}", u64::MAX));
}

#[test]
fn numbers_read_as_std_reads_them() {
    for s in [
        "0", "7", "007", "+7", "+", "-", "-7", "", " 7", "7 ", "1_000", "12a", "++1", "1+", "\u{0663}",
        "18446744073709551615", "18446744073709551616", "99999999999999999999999",
    ] {
        assert_eq!(number(s), s.parse::<usize>().ok(), "{:?}", s);
    }
}

#[test]
fn part_of_a_text_is_read() {
    let chars = chars_of("ab123cd");
    assert_eq!(parse_number(&chars, 2, 5), Some(123));
    assert_eq!(parse_number(&chars, 2, 6), None);
}

#[test]
fn selectors_name_platform_and_device() {
    assert_eq!(parse_selector("0:0"), Ok(Selector { platform: 0, device: 0 }));
    assert_eq!(parse_selector("1:23"), Ok(Selector { platform: 1, device: 23 }));
    assert_eq!(parse_selector("+1:02"), Ok(Selector { platform: 1, device: 2 }));
}

#[test]
fn further_fields_are_ignored() {
    assert_eq!(parse_selector("1:2:3"), parse_selector("1:2"));
    assert_eq!(parse_selector("1:2:"), Ok(Selector { platform: 1, device: 2 }));
    assert_eq!(parse_selector("1:2:no number"), Ok(Selector { platform: 1, device: 2 }));
}

#[test]
fn texts_that_are_no_selector() {
    assert_eq!(parse_selector(""), Err(SelectorError::Platform));
    assert_eq!(parse_selector(":1"), Err(SelectorError::Platform));
    assert_eq!(parse_selector("x"), Err(SelectorError::Platform));
    assert_eq!(parse_selector("x:y"), Err(SelectorError::Platform));
    assert_eq!(parse_selector("1"), Err(SelectorError::MissingDevice));
    assert_eq!(parse_selector("1:"), Err(SelectorError::Device));
    assert_eq!(parse_selector("1: 2"), Err(SelectorError::Device));
    assert_eq!(parse_selector("1::2"), Err(SelectorError::Device));
    assert_eq!(parse_selector("1:99999999999999999999"), Err(SelectorError::Device));
}

#[test]
fn listed_numbers_select() {
    for (platform, device) in [(0usize, 0usize), (3, 12), (usize::MAX, 7)] {
        let gpu = format!("{}:{}", platform, device);
        assert_eq!(parse_selector(&gpu), Ok(Selector { platform, device }));
    }
}
