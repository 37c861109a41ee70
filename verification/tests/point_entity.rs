use influxdb3::InfluxDBError;
use influxdb3::Point;
use influxdb3::PointValue;
use influxdb3::TagMap;
use influxdb3::TagName;

#[test]
fn setters_and_getters_round_trip() {
    let mut p = Point::new_with_measurement("weather");
    assert_eq!(p.get_measurement(), "weather");
    p.set_measurement("climate");
    assert_eq!(p.get_measurement(), "climate");
    p.set_timestamp(42);
    assert_eq!(p.get_timestamp(), 42);
    p.set_tag("city", "berlin").unwrap();
    assert!(p.has_tag("city"));
    assert_eq!(p.get_tag("city").unwrap(), "berlin");
    p.set_field("temp", 21i64);
    let temp: Option<i64> = p.get_field("temp").unwrap();
    assert_eq!(temp, Some(21));
    let missing: Option<i64> = p.get_field("absent").unwrap();
    assert_eq!(missing, None);
}

#[test]
fn tag_updates_replace_in_place_and_remove() {
    let mut p = Point::new_with_measurement("m");
    p.set_tag("a", "1").unwrap();
    p.set_tag("b", "2").unwrap();
    p.set_tag("a", "3").unwrap();
    let names = p.get_tag_names();
    assert_eq!(names.len(), 2);
    assert_eq!(names[0].as_ref(), "a");
    assert_eq!(names[1].as_ref(), "b");
    assert_eq!(p.get_tag("a").unwrap(), "3");
    p.remove_tag("a");
    assert!(!p.has_tag("a"));
    assert!(p.has_tag("b"));
    p.remove_tag("never-there");
    assert!(p.has_tag("b"));
}

#[test]
fn invalid_tag_name_is_a_typed_error() {
    let mut p = Point::new_with_measurement("m");
    match p.set_tag("bad name", "v") {
        Err(InfluxDBError::InvalidTagName(s)) => assert_eq!(s, "bad name"),
        _ => panic!("expected the tag name to be rejected"),
    }
    assert!(!p.has_tag("bad name"));
}

#[test]
fn invalid_field_name_is_silently_dropped() {
    let mut p = Point::new_with_measurement("m");
    p.set_field("bad name", 1i64);
    assert!(p.is_empty());
    assert!(p.get_field_value("bad name").is_none());
    p.set_field("fine", 1i64);
    assert!(!p.is_empty());
}

#[test]
fn field_updates_and_removal() {
    let mut p = Point::new_with_measurement("m");
    p.set_field("x", 1i64);
    p.set_field("y", 2i64);
    p.set_field("x", 3i64);
    let names = p.get_field_names();
    assert_eq!(names, vec!["x", "y"]);
    assert!(matches!(p.get_field_value("x"), Some(PointValue::Integer(3))));
    p.remove_field("x");
    assert_eq!(p.get_field_names(), vec!["y"]);
    p.remove_field("gone");
    assert_eq!(p.get_field_names(), vec!["y"]);
}

#[test]
fn typed_field_access_rejects_wrong_types() {
    let mut p = Point::new_with_measurement("m");
    p.set_field("flag", true);
    let wrong: Result<Option<i64>, InfluxDBError> = p.get_field("flag");
    assert!(wrong.is_err());
    let right: Option<bool> = p.get_field("flag").unwrap();
    assert_eq!(right, Some(true));
}

#[test]
fn point_from_components_folds_duplicate_fields() {
    let mut tags = TagMap::new();
    tags.insert(TagName::try_from("env").unwrap(), String::from("dev"));
    let fields = vec![
        (String::from("a"), PointValue::Integer(1)),
        (String::from("b"), PointValue::Integer(2)),
        (String::from("a"), PointValue::Integer(9)),
    ];
    let p = Point::new("m", tags, fields, 5);
    assert_eq!(p.get_timestamp(), 5);
    assert_eq!(p.get_tag("env").unwrap(), "dev");
    assert_eq!(p.get_field_names(), vec!["a", "b"]);
    assert!(matches!(p.get_field_value("a"), Some(PointValue::Integer(9))));
}

#[test]
fn cloned_points_serialize_identically() {
    let mut p = Point::new_with_measurement("m");
    p.set_timestamp(1);
    p.set_tag("t", "v").unwrap();
    p.set_field("f", 2u64);
    let q = p.clone();
    let defaults = TagMap::new();
    let mut b1 = Vec::new();
    let mut b2 = Vec::new();
    p.serialize(&mut b1, influxdb3::TimestampPrecision::Nanoseconds, &defaults);
    q.serialize(&mut b2, influxdb3::TimestampPrecision::Nanoseconds, &defaults);
    assert_eq!(b1, b2);
}
