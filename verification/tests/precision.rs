use influxdb3::InfluxDBError;
use influxdb3::TimestampPrecision;

#[test]
fn precision_tokens_parse() {
    assert_eq!(
        TimestampPrecision::try_from("ns").unwrap(),
        TimestampPrecision::Nanoseconds
    );
    assert_eq!(
        TimestampPrecision::try_from("nanosecond").unwrap(),
        TimestampPrecision::Nanoseconds
    );
    assert_eq!(
        TimestampPrecision::try_from("us").unwrap(),
        TimestampPrecision::Microseconds
    );
    assert_eq!(
        TimestampPrecision::try_from("microsecond").unwrap(),
        TimestampPrecision::Microseconds
    );
    assert_eq!(
        TimestampPrecision::try_from("ms").unwrap(),
        TimestampPrecision::Milliseconds
    );
    assert_eq!(
        TimestampPrecision::try_from("s").unwrap(),
        TimestampPrecision::Seconds
    );
    assert_eq!(
        TimestampPrecision::try_from("second").unwrap(),
        TimestampPrecision::Seconds
    );
    match TimestampPrecision::try_from("minutes") {
        Err(InfluxDBError::InvalidTimestampPrecision(t)) => assert_eq!(t, "minutes"),
        _ => panic!("expected the token to be rejected"),
    }
}

#[test]
fn precision_token_forms() {
    assert_eq!(TimestampPrecision::Nanoseconds.v2_str(), "ns");
    assert_eq!(TimestampPrecision::Microseconds.v2_str(), "Âµs");
    assert_eq!(TimestampPrecision::Milliseconds.v2_str(), "ms");
    assert_eq!(TimestampPrecision::Seconds.v2_str(), "s");
    assert_eq!(TimestampPrecision::Nanoseconds.v3_str(), "nanosecond");
    assert_eq!(TimestampPrecision::Microseconds.v3_str(), "microsecond");
    assert_eq!(TimestampPrecision::Milliseconds.v3_str(), "millisecond");
    assert_eq!(TimestampPrecision::Seconds.v3_str(), "second");
}

#[test]
fn truncation_is_exact_at_each_precision() {
    let nanos: i64 = 1_500_000_001_999;
    assert_eq!(
        TimestampPrecision::Nanoseconds.process_timestamp(nanos),
        1_500_000_001_999
    );
    assert_eq!(
        TimestampPrecision::Microseconds.process_timestamp(nanos),
        1_500_000_001
    );
    assert_eq!(
        TimestampPrecision::Milliseconds.process_timestamp(nanos),
        1_500_000
    );
    assert_eq!(TimestampPrecision::Seconds.process_timestamp(nanos), 1_500);
}

#[test]
fn truncation_floors_negative_instants() {
    assert_eq!(TimestampPrecision::Microseconds.process_timestamp(-1), -1);
    assert_eq!(TimestampPrecision::Seconds.process_timestamp(-1), -1);
    assert_eq!(
        TimestampPrecision::Seconds.process_timestamp(-1_500_000_000),
        -2
    );
    assert_eq!(
        TimestampPrecision::Milliseconds.process_timestamp(-999_999),
        -1
    );
}

#[test]
fn coarse_precision_matches_direct_conversion() {
    // Truncating to microseconds and dividing on matches truncating the
    // nanosecond instant directly at each coarser precision.
    let cases: [i64; 6] = [0, 1, 999, 1_500_000_001_999, -1, -1_999_999_999];
    for nanos in cases {
        let micros = TimestampPrecision::Microseconds.process_timestamp(nanos);
        let millis = TimestampPrecision::Milliseconds.process_timestamp(nanos);
        let secs = TimestampPrecision::Seconds.process_timestamp(nanos);
        assert_eq!(micros.div_euclid(1000), millis);
        assert_eq!(millis.div_euclid(1000), secs);
        assert_eq!(micros.div_euclid(1_000_000), secs);
    }
}
