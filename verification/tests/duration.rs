use std::time::Duration;

use actor_runtime::duration::{parse_duration_secs, parse_duration_with_unit, DurationFormatError};

#[test]
fn test_parse_duration_with_unit() {
    assert_eq!(parse_duration_with_unit("8s"), Ok(Duration::from_secs(8)));
    assert_eq!(parse_duration_with_unit("5m"), Ok(Duration::from_secs(5 * 60)));
    assert_eq!(
        parse_duration_with_unit("2h"),
        Ok(Duration::from_secs(2 * 60 * 60))
    );
    assert_eq!(
        parse_duration_with_unit("3d"),
        Ok(Duration::from_secs(3 * 60 * 60 * 24))
    );

    assert!(parse_duration_with_unit("").is_err());
    assert!(parse_duration_with_unit("a2d").is_err());
    assert!(parse_duration_with_unit("3 d").is_err());
    assert!(parse_duration_with_unit("3").is_err());
    assert!(parse_duration_with_unit("1h30").is_err());
}

#[test]
fn parse_duration_edges() {
    assert_eq!(parse_duration_secs("0s"), Ok(0));
    assert_eq!(parse_duration_secs("999d"), Ok(999 * 86400));
    assert_eq!(parse_duration_secs("007m"), Ok(7 * 60));
    assert_eq!(parse_duration_secs("123h"), Ok(123 * 3600));
    assert_eq!(parse_duration_secs("1000s"), Err(DurationFormatError));
    assert_eq!(parse_duration_secs("s"), Err(DurationFormatError));
    assert_eq!(parse_duration_secs("1S"), Err(DurationFormatError));
    assert_eq!(parse_duration_secs("1s\n"), Err(DurationFormatError));
    assert_eq!(parse_duration_secs("-1s"), Err(DurationFormatError));
    assert_eq!(parse_duration_secs("\u{663}s"), Err(DurationFormatError));
    assert_eq!(
        DurationFormatError.message(),
        "Invalid duration format: `[0-9]+[smhd]`"
    );
}
