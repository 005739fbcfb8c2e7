use zy::timeparse::parse_cache_time;
use zy::timeparse::parse_u16;
use zy::timeparse::parse_u32;
use zy::timeparse::whole_seconds;
use zy::timeparse::CacheTimeError;
use zy::timeparse::NumberError;

/// Parses the raw string with the real duration parser and classifies the
/// outcome, as the hosting binary does.
fn parse(s: &str) -> Result<u32, CacheTimeError> {
    let parsed = match humantime::parse_duration(s) {
        Ok(d) => Ok((d.as_secs(), d.subsec_nanos())),
        Err(humantime::DurationError::UnknownUnit { unit, .. }) => Err(Some(unit)),
        Err(_) => Err(None),
    };
    parse_cache_time(s, parsed)
}

#[test]
fn bare_seconds_parse() {
    assert_eq!(parse("10"), Ok(10));
    assert_eq!(parse("0"), Ok(0));
}

#[test]
fn hours_parse_to_seconds() {
    assert_eq!(parse("1h"), Ok(3_600));
    assert_eq!(parse("2h"), Ok(7_200));
    assert_eq!(parse("1h30m"), Ok(5_400));
}

#[test]
fn fractional_seconds_are_rejected() {
    assert_eq!(parse("1500ms"), Err(CacheTimeError::Fractional));
    assert_eq!(parse("1s 500ms"), Err(CacheTimeError::Fractional));
}

#[test]
fn huge_durations_are_too_large() {
    assert_eq!(parse("200years"), Err(CacheTimeError::TooLarge));
}

#[test]
fn huge_bare_numbers_are_too_large() {
    assert_eq!(parse("99999999999"), Err(CacheTimeError::TooLarge));
}

#[test]
fn garbage_is_invalid() {
    assert_eq!(parse("abc"), Err(CacheTimeError::Invalid));
    assert_eq!(parse(""), Err(CacheTimeError::Invalid));
    assert_eq!(parse("10q"), Err(CacheTimeError::Invalid));
    assert_eq!(parse("-5"), Err(CacheTimeError::Invalid));
}

#[test]
fn classification_is_exact_on_given_outcomes() {
    assert_eq!(parse_cache_time("10", Err(Some(String::new()))), Ok(10));
    assert_eq!(
        parse_cache_time("10q", Err(Some("q".to_string()))),
        Err(CacheTimeError::Invalid)
    );
    assert_eq!(parse_cache_time("", Err(None)), Err(CacheTimeError::Invalid));
    assert_eq!(parse_cache_time("1h", Ok((3_600, 0))), Ok(3_600));
    assert_eq!(
        parse_cache_time("1s 500ms", Ok((1, 500_000_000))),
        Err(CacheTimeError::Fractional)
    );
    assert_eq!(
        parse_cache_time("200years", Ok((6_311_520_000, 0))),
        Err(CacheTimeError::TooLarge)
    );
}

#[test]
fn u32_parses_decimals() {
    assert_eq!(parse_u32("0"), Ok(0));
    assert_eq!(parse_u32("17"), Ok(17));
    assert_eq!(parse_u32("+17"), Ok(17));
    assert_eq!(parse_u32("4294967295"), Ok(u32::MAX));
}

#[test]
fn u32_detects_overflow() {
    assert_eq!(parse_u32("4294967296"), Err(NumberError::Overflow));
    assert_eq!(parse_u32("99999999999999999999"), Err(NumberError::Overflow));
}

#[test]
fn u32_rejects_non_digits() {
    assert_eq!(parse_u32(""), Err(NumberError::Invalid));
    assert_eq!(parse_u32("+"), Err(NumberError::Invalid));
    assert_eq!(parse_u32("12a"), Err(NumberError::Invalid));
    assert_eq!(parse_u32("-5"), Err(NumberError::Invalid));
    assert_eq!(parse_u32(" 5"), Err(NumberError::Invalid));
}

#[test]
fn whole_seconds_narrows_durations() {
    assert_eq!(whole_seconds(3_600, 0), Ok(3_600));
    assert_eq!(whole_seconds(1, 500_000_000), Err(CacheTimeError::Fractional));
    assert_eq!(whole_seconds(4_294_967_296, 0), Err(CacheTimeError::TooLarge));
    assert_eq!(whole_seconds(4_294_967_295, 0), Ok(u32::MAX));
}

#[test]
fn u16_has_the_smaller_bound() {
    assert_eq!(parse_u16("3000"), Ok(3_000));
    assert_eq!(parse_u16("65535"), Ok(u16::MAX));
    assert_eq!(parse_u16("65536"), Err(NumberError::Overflow));
    assert_eq!(parse_u16("port"), Err(NumberError::Invalid));
}
