use influxdb3::InfluxDBError;
use influxdb3::TagName;
use influxdb3::parse_bool;
use influxdb3::to_snake_case;
use influxdb3::validate_name;

#[test]
fn valid_tag_names_round_trip() {
    let cases = ["a", "host", "Host-1", "x_y-z", "0abc", "A"];
    for name in cases {
        let tag = TagName::try_from(name).unwrap();
        assert_eq!(tag.as_ref(), name);
    }
}

#[test]
fn invalid_tag_names_are_rejected() {
    let cases = ["", "_abc", "-abc", "a b", "a=b", "a,b", "héllo", "a\"b"];
    for name in cases {
        match TagName::try_from(name) {
            Err(InfluxDBError::InvalidTagName(s)) => assert_eq!(s, name),
            _ => panic!("expected the name to be rejected"),
        }
    }
}

#[test]
fn validator_accepts_and_rejects() {
    assert!(validate_name("abc"));
    assert!(validate_name("a-b_c9"));
    assert!(validate_name("9lives"));
    assert!(!validate_name(""));
    assert!(!validate_name("_lead"));
    assert!(!validate_name("-lead"));
    assert!(!validate_name("has space"));
    assert!(!validate_name("naïve"));
}

#[test]
fn parse_bool_is_case_insensitive() {
    assert_eq!(parse_bool("true"), Ok(true));
    assert_eq!(parse_bool("TRUE"), Ok(true));
    assert_eq!(parse_bool("T"), Ok(true));
    assert_eq!(parse_bool("1"), Ok(true));
    assert_eq!(parse_bool("false"), Ok(false));
    assert_eq!(parse_bool("False"), Ok(false));
    assert_eq!(parse_bool("f"), Ok(false));
    assert_eq!(parse_bool("0"), Ok(false));
    assert_eq!(parse_bool("yes"), Err("yes"));
    assert_eq!(parse_bool(""), Err(""));
}

#[test]
fn snake_case_rendering() {
    assert_eq!(to_snake_case("CpuMetric"), "cpu_metric");
    assert_eq!(to_snake_case("HTTPServer"), "httpserver");
    assert_eq!(to_snake_case("already_snake"), "already_snake");
    assert_eq!(to_snake_case("AbC"), "ab_c");
    assert_eq!(to_snake_case(""), "");
    assert_eq!(to_snake_case("X"), "x");
}
