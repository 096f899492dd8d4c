use polymarket_rs::decimal::Dec;
use polymarket_rs::error::Error;
use polymarket_rs::time::Timestamp;
use polymarket_rs::types::serde_helpers::{
    deserialize_decimal, deserialize_number_from_string, deserialize_optional_datetime,
    DecimalRepr, StringOrNumber,
};
use polymarket_rs::utils::{
    clock_outcome, get_current_unix_time, get_current_unix_time_secs, whole_seconds,
};

#[test]
fn a_number_is_taken_as_it_is() {
    assert_eq!(deserialize_number_from_string(StringOrNumber::Number(42)).unwrap(), 42);
    assert_eq!(deserialize_number_from_string(StringOrNumber::Number(0)).unwrap(), 0);
}

#[test]
fn a_number_is_read_from_text() {
    let read = |s: &str| deserialize_number_from_string(StringOrNumber::String(s.to_string()));
    assert_eq!(read("1700000000").unwrap(), 1_700_000_000);
    assert_eq!(read("+7").unwrap(), 7);
    assert_eq!(read("007").unwrap(), 7);
    assert_eq!(read("18446744073709551615").unwrap(), u64::MAX);
    for bad in ["", "+", "-1", "1_000", " 1", "1.0", "18446744073709551616", "++1"] {
        assert!(matches!(read(bad), Err(Error::InvalidParameter(_))), "{:?}", bad);
    }
}

#[test]
fn a_decimal_is_read_from_text_or_a_whole_number() {
    let d = deserialize_decimal(DecimalRepr::Str("0.0001".to_string())).unwrap();
    assert_eq!((d.mantissa(), d.scale()), (1, 4));
    let d = deserialize_decimal(DecimalRepr::U64(u64::MAX)).unwrap();
    assert_eq!((d.mantissa(), d.scale()), (18_446_744_073_709_551_615, 0));
    let d = deserialize_decimal(DecimalRepr::I64(-5)).unwrap();
    assert_eq!((d.mantissa(), d.scale()), (-5, 0));
    assert_eq!(d, Dec::new(-50, 1));
    assert!(matches!(
        deserialize_decimal(DecimalRepr::Str("a lot".to_string())),
        Err(Error::InvalidParameter(_))
    ));
}

#[test]
fn an_optional_instant_is_read_from_optional_text() {
    assert_eq!(deserialize_optional_datetime(None).unwrap(), None);
    assert_eq!(
        deserialize_optional_datetime(Some("2024-12-29T22:38:10Z".to_string())).unwrap(),
        Some(Timestamp::new(1_735_511_890, 0))
    );
    assert!(matches!(
        deserialize_optional_datetime(Some("soon".to_string())),
        Err(Error::InvalidParameter(_))
    ));
}

#[test]
fn the_clock_gives_seconds_and_nanoseconds() {
    let (secs, nanos) = get_current_unix_time().unwrap();
    assert!(secs > 1_577_836_800);
    assert!(nanos < 1_000_000_000);
    assert!(get_current_unix_time_secs().unwrap() >= secs);
}

#[test]
fn each_error_has_its_description() {
    assert_eq!(Error::MissingField("tick_size".to_string()).describe(), "missing field");
    assert_eq!(Error::InvalidParameter("x".to_string()).describe(), "invalid parameter");
    assert_eq!(Error::Config("x".to_string()).describe(), "configuration error");
    assert_eq!(
        Error::InsufficientLiquidity(Dec::new(1, 0)).describe(),
        "insufficient liquidity"
    );
    assert_eq!(Error::SigningFailure("x".to_string()).describe(), "signing failure");
    assert_eq!(Error::UnknownTickSize(Dec::new(1, 0)).describe(), "unknown tick size");
}

#[test]
fn a_reading_of_the_clock_is_kept_as_it_was_read() {
    assert_eq!(clock_outcome(Some((1_700_000_000, 123))).unwrap(), (1_700_000_000, 123));
    assert_eq!(clock_outcome(Some((0, 0))).unwrap(), (0, 0));
    assert!(matches!(clock_outcome(None), Err(Error::Config(_))));
}

#[test]
fn the_whole_seconds_of_a_time_drop_the_nanoseconds() {
    assert_eq!(whole_seconds(Ok((1_700_000_000, 999_999_999))).unwrap(), 1_700_000_000);
    assert_eq!(whole_seconds(Ok((u64::MAX, 0))).unwrap(), u64::MAX);
    match whole_seconds(Err(Error::Config("no clock".to_string()))) {
        Err(Error::Config(reason)) => assert_eq!(reason, "no clock"),
        other => panic!("expected Config, got {:?}", other),
    }
}

#[test]
fn an_instant_is_made_of_a_reading_within_range() {
    assert_eq!(
        Timestamp::from_unix_time(1_700_000_000, 5).unwrap(),
        Timestamp::new(1_700_000_000, 5)
    );
    assert_eq!(
        Timestamp::from_unix_time(9_223_372_036_854_775_807, 0).unwrap(),
        Timestamp::new(i64::MAX, 0)
    );
    assert!(matches!(
        Timestamp::from_unix_time(9_223_372_036_854_775_808, 0),
        Err(Error::Config(_))
    ));
}
