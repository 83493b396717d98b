use std::num::NonZeroU32;
use surge::rate::{checked_parse_rate, fits, is_usable, parse_rate, rate_limit, rate_of, RateError};

#[test]
fn plain_number_counts_bytes() {
    assert_eq!(parse_rate("500"), Ok(500));
    assert_eq!(parse_rate("0"), Ok(0));
    assert_eq!(parse_rate("+7"), Ok(7));
    assert_eq!(parse_rate("0012"), Ok(12));
    assert_eq!(parse_rate("18446744073709551615"), Ok(u64::MAX));
}

#[test]
fn units_multiply() {
    assert_eq!(parse_rate("500K"), Ok(512_000));
    assert_eq!(parse_rate("10M"), Ok(10_485_760));
    assert_eq!(parse_rate("2G"), Ok(2_147_483_648));
    assert_eq!(rate_of("3G"), Ok(3_221_225_472));
}

#[test]
fn case_and_white_space_do_not_matter() {
    assert_eq!(parse_rate("500k"), Ok(512_000));
    assert_eq!(parse_rate("10m"), Ok(10_485_760));
    assert_eq!(parse_rate(" \t1g\n"), Ok(1_073_741_824));
    assert_eq!(parse_rate("\u{3000}5K\u{a0}"), Ok(5_120));
}

#[test]
fn what_is_no_number_is_refused() {
    for text in ["", "K", "M", "G", "ten", "1.5M", "-1", "10 M", "5KB", "1_000", "+", "\u{212a}", "1\u{212a}", "ß", "1T"] {
        assert_eq!(parse_rate(text), Err(RateError::InvalidNumber), "{}", text);
    }
    assert_eq!(parse_rate("18446744073709551616"), Err(RateError::InvalidNumber));
    assert_eq!(RateError::InvalidNumber.message(), "Invalid rate number");
}

#[test]
fn lower_case_units_need_the_upper_case_form() {
    assert_eq!(rate_of("5k"), Err(RateError::InvalidNumber));
    assert_eq!(rate_of("5K"), Ok(5_120));
}

#[test]
fn rates_beyond_64_bits_give_nothing() {
    assert_eq!(checked_parse_rate("18014398509481984K"), None);
    assert_eq!(checked_parse_rate("18014398509481983k"), Some(Ok(18_446_744_073_709_550_592)));
    assert_eq!(checked_parse_rate("17179869184G"), None);
    assert_eq!(checked_parse_rate("x"), Some(Err(RateError::InvalidNumber)));
    assert!(!fits("18014398509481984K"));
    assert!(fits("K"));
}

#[test]
fn limiter_counts_in_32_bits() {
    let limit = rate_limit(10_485_760);
    assert_eq!(limit.burst, 10_485_760);
    assert_eq!(limit.quota.burst_size().get(), 10_485_760);
    assert_eq!(rate_limit(5 * 1024 * 1024 * 1024).burst, 1024 * 1024 * 1024);
    assert_eq!(
        rate_limit(1000).quota,
        governor::Quota::per_second(NonZeroU32::new(1000).unwrap())
    );
    assert_eq!(rate_limit(1000).quota.replenish_interval(), std::time::Duration::from_millis(1));
}

#[test]
fn case_and_blanks_make_no_difference_to_any_text() {
    for text in ["10m", "10M", " 3Kg", "ß5k", "5ﬁ", "\u{212a}1k", "１K", "x\u{3a3}m", "7", "Gk", "20000000000g"] {
        let answer = checked_parse_rate(text);
        assert_eq!(checked_parse_rate(&text.to_ascii_lowercase()), answer);
        assert_eq!(checked_parse_rate(&text.to_ascii_uppercase()), answer);
        assert_eq!(checked_parse_rate(text.trim()), answer);
        assert_eq!(checked_parse_rate(&format!(" {} ", text)), answer);
    }
}

#[test]
fn upper_casing_ignores_ascii_case() {
    for c in (0..=0x10ffffu32).filter_map(char::from_u32) {
        let text = format!("aZ{}kM", c);
        assert_eq!(text.to_ascii_lowercase().to_uppercase(), text.to_uppercase());
        assert_eq!(text.to_ascii_uppercase().to_uppercase(), text.to_uppercase());
    }
}

#[test]
fn rates_without_cells_are_not_usable() {
    assert!(!is_usable("0"));
    assert!(!is_usable("4G"));
    assert!(!is_usable("17179869184G"));
    assert!(is_usable("10M"));
    assert!(is_usable("5G"));
    assert!(is_usable("no number"));
}
