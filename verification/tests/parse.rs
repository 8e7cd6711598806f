use sleepp::{
    count_significant_digits, duration_from_parse, parse_human_duration, read_human_duration, Duration,
    MAX_SIGNIFICANT_DIGITS,
};

#[test]
fn reads_human_durations() {
    assert_eq!(parse_human_duration("1m30s"), Ok(Duration::from_secs(90)));
    assert_eq!(parse_human_duration("2h5m"), Ok(Duration::from_secs(7500)));
    assert_eq!(parse_human_duration("2h5m10s"), Ok(Duration::from_secs(7510)));
    assert_eq!(parse_human_duration("1h 12min 5s"), Ok(Duration::from_secs(4325)));
    assert_eq!(parse_human_duration("4.2s"), Ok(Duration::new(4, 200_000_000)));
    assert_eq!(parse_human_duration("32ms"), Ok(Duration::new(0, 32_000_000)));
    assert_eq!(parse_human_duration("0"), Ok(Duration::zero()));
}

#[test]
fn rejects_malformed_durations() {
    assert_eq!(
        parse_human_duration("abc"),
        Err("Invalid duration 'abc': expected number at 0".to_string())
    );
    assert_eq!(parse_human_duration(""), Err("Invalid duration '': value was empty".to_string()));
    assert_eq!(
        parse_human_duration("10"),
        Err("Invalid duration '10': time unit needed, for example 10sec or 10ms".to_string())
    );
    assert_eq!(
        parse_human_duration("5x"),
        Err("Invalid duration '5x': unknown time unit \"x\", supported units: ns, us/µs, ms, sec, min, hours, days, weeks, months, years (and few variations)".to_string())
    );
}

#[test]
fn parser_result_becomes_duration_or_message() {
    assert_eq!(duration_from_parse("x", Ok((3, 5))), Ok(Duration::new(3, 5)));
    assert_eq!(
        duration_from_parse("1q", Err("bad".to_string())),
        Err("Invalid duration '1q': bad".to_string())
    );
}

#[test]
fn counts_significant_digits() {
    assert_eq!(count_significant_digits(""), 0);
    assert_eq!(count_significant_digits("1h 12min 5s"), 4);
    assert_eq!(count_significant_digits("4.2µs"), 2);
    assert_eq!(count_significant_digits("١٢"), 0);
    assert_eq!(count_significant_digits("000000000001s"), 1);
    assert_eq!(count_significant_digits("0.05s"), 1);
    assert_eq!(count_significant_digits("1 0 0s"), 3);
    assert_eq!(count_significant_digits("10m 007s"), 3);
    assert_eq!(count_significant_digits("0s0m"), 0);
}

#[test]
fn reads_only_texts_with_few_significant_digits() {
    assert_eq!(MAX_SIGNIFICANT_DIGITS, 11);
    assert_eq!(read_human_duration("1m30s"), Some(Ok(Duration::from_secs(90))));
    assert_eq!(read_human_duration("000000000001s"), Some(Ok(Duration::from_secs(1))));
    assert_eq!(read_human_duration("1 0 0s"), Some(Ok(Duration::from_secs(100))));
    assert_eq!(read_human_duration("99999999999y"), Some(Ok(Duration::from_secs(99_999_999_999 * 31_557_600))));
    assert_eq!(
        read_human_duration("x"),
        Some(Err("Invalid duration 'x': expected number at 0".to_string()))
    );
    assert_eq!(read_human_duration("18446744073709551615s 1000ms"), None);
    assert_eq!(read_human_duration("5124095576030431h15s1000ms"), None);
    assert_eq!(read_human_duration("123456789012s"), None);
}
