use size_formatter::decimal::parse_u64;
use size_formatter::size::{Filesize, SizeError};

fn args(items: &[&str]) -> Vec<String> {
    items.iter().map(|s| s.to_string()).collect()
}

fn bytes_of(items: &[&str]) -> Result<u64, SizeError> {
    Filesize::parse_input(&args(items))?.to_bytes()
}

#[test]
fn plain_amount_is_bytes() {
    let size = Filesize::parse_input(&args(&["prog", "256"])).unwrap();
    assert_eq!(size, Filesize::Bytes(256));
    assert_eq!(size.to_bytes(), Ok(256));
}

#[test]
fn megabytes_amount() {
    let size = Filesize::parse_input(&args(&["prog", "256", "mb"])).unwrap();
    assert_eq!(size, Filesize::Megabytes(256));
    assert_eq!(size.to_bytes(), Ok(256_000_000));
}

#[test]
fn unknown_unit_falls_back_to_bytes() {
    let size = Filesize::parse_input(&args(&["prog", "5", "xyz"])).unwrap();
    assert_eq!(size, Filesize::Bytes(5));
    assert_eq!(size.to_bytes(), Ok(5));
}

#[test]
fn missing_amount_is_insufficient_arguments() {
    assert_eq!(
        Filesize::parse_input(&args(&["prog"])),
        Err(SizeError::InsufficientArguments)
    );
    assert_eq!(
        Filesize::parse_input(&args(&[])),
        Err(SizeError::InsufficientArguments)
    );
}

#[test]
fn non_numeric_amount_is_invalid() {
    assert_eq!(
        Filesize::parse_input(&args(&["prog", "notanumber"])),
        Err(SizeError::InvalidAmount)
    );
}

#[test]
fn each_unit_multiplies_the_amount() {
    assert_eq!(bytes_of(&["prog", "7"]), Ok(7));
    assert_eq!(bytes_of(&["prog", "7", "kb"]), Ok(7_000));
    assert_eq!(bytes_of(&["prog", "7", "mb"]), Ok(7_000_000));
    assert_eq!(bytes_of(&["prog", "7", "gb"]), Ok(7_000_000_000));
    assert_eq!(bytes_of(&["prog", "7", "tb"]), Ok(7_000_000_000_000));
}

#[test]
fn units_are_case_sensitive() {
    assert_eq!(
        Filesize::parse_input(&args(&["prog", "3", "KB"])),
        Ok(Filesize::Bytes(3))
    );
    assert_eq!(
        Filesize::parse_input(&args(&["prog", "3", "k"])),
        Ok(Filesize::Bytes(3))
    );
    assert_eq!(
        Filesize::parse_input(&args(&["prog", "3", "kbb"])),
        Ok(Filesize::Bytes(3))
    );
}

#[test]
fn extra_arguments_are_ignored() {
    assert_eq!(
        Filesize::parse_input(&args(&["prog", "4", "gb", "tb", "x"])),
        Ok(Filesize::Gigabytes(4))
    );
}

#[test]
fn zero_amount() {
    assert_eq!(bytes_of(&["prog", "0", "tb"]), Ok(0));
}

#[test]
fn largest_amount_in_bytes() {
    assert_eq!(
        bytes_of(&["prog", "18446744073709551615"]),
        Ok(u64::MAX)
    );
}

#[test]
fn amount_beyond_u64_is_invalid() {
    assert_eq!(
        Filesize::parse_input(&args(&["prog", "18446744073709551616"])),
        Err(SizeError::InvalidAmount)
    );
}

#[test]
fn byte_count_overflow_is_reported() {
    assert_eq!(
        bytes_of(&["prog", "18446744073709551615", "kb"]),
        Err(SizeError::AmountOverflow)
    );
    assert_eq!(
        bytes_of(&["prog", "18446744", "tb"]),
        Ok(18_446_744_000_000_000_000)
    );
    assert_eq!(
        bytes_of(&["prog", "18446745", "tb"]),
        Err(SizeError::AmountOverflow)
    );
}

#[test]
fn amount_text_forms() {
    assert_eq!(parse_u64("+5"), Some(5));
    assert_eq!(parse_u64("007"), Some(7));
    assert_eq!(parse_u64(""), None);
    assert_eq!(parse_u64("+"), None);
    assert_eq!(parse_u64("-5"), None);
    assert_eq!(parse_u64(" 5"), None);
    assert_eq!(parse_u64("5 "), None);
    assert_eq!(parse_u64("1e3"), None);
    assert_eq!(parse_u64("++5"), None);
    assert_eq!(parse_u64("\u{ff11}"), None);
}

#[test]
fn amount_text_agrees_with_std() {
    for text in ["0", "42", "+42", "-0", "", "18446744073709551615", "18446744073709551616", "9x"] {
        assert_eq!(parse_u64(text), text.parse::<u64>().ok());
    }
}
