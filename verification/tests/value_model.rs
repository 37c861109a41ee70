use influxdb3::Decode;
use influxdb3::Encode;
use influxdb3::FloatValue;
use influxdb3::InfluxDBError;
use influxdb3::PointValue;
use influxdb3::Timestamp;

#[test]
fn roundtrip_signed_integers() {
    assert_eq!(i8::decode(&(-5i8).encode()).unwrap(), -5i8);
    assert_eq!(i16::decode(&(-300i16).encode()).unwrap(), -300i16);
    assert_eq!(i32::decode(&(70000i32).encode()).unwrap(), 70000i32);
    assert_eq!(i64::decode(&(i64::MIN).encode()).unwrap(), i64::MIN);
}

#[test]
fn roundtrip_unsigned_integers() {
    assert_eq!(u8::decode(&(200u8).encode()).unwrap(), 200u8);
    assert_eq!(u16::decode(&(60000u16).encode()).unwrap(), 60000u16);
    assert_eq!(u32::decode(&(4000000000u32).encode()).unwrap(), 4000000000u32);
    assert_eq!(u64::decode(&(u64::MAX).encode()).unwrap(), u64::MAX);
}

#[test]
fn roundtrip_bool_string_timestamp() {
    assert_eq!(bool::decode(&true.encode()).unwrap(), true);
    assert_eq!(String::decode(&String::from("hello").encode()).unwrap(), "hello");
    let t = Timestamp { nanos: 1234567890 };
    assert_eq!(Timestamp::decode(&t.encode()).unwrap(), t);
}

#[test]
fn roundtrip_float_bits() {
    let v: f64 = 2.5;
    let fv = FloatValue { bits: v.to_bits(), text: v.to_string() };
    let decoded = FloatValue::decode(&fv.encode()).unwrap();
    assert_eq!(decoded.bits, 2.5f64.to_bits());
    assert_eq!(decoded.text, "2.5");
    assert_eq!(f64::from_bits(decoded.bits), 2.5);
}

#[test]
fn roundtrip_optional_targets() {
    let some: Option<i64> = Some(7);
    assert_eq!(Option::<i64>::decode(&some.encode()).unwrap(), Some(7));
    let none: Option<i64> = None;
    assert_eq!(Option::<i64>::decode(&none.encode()).unwrap(), None);
    let name: Option<String> = Some(String::from("x"));
    assert_eq!(Option::<String>::decode(&name.encode()).unwrap().unwrap(), "x");
}

#[test]
fn decode_rejects_wrong_variant() {
    assert!(matches!(
        i64::decode(&PointValue::UInteger(1)),
        Err(InfluxDBError::InvalidPointValueConversion(_))
    ));
    assert!(matches!(
        u64::decode(&PointValue::Integer(1)),
        Err(InfluxDBError::InvalidPointValueConversion(_))
    ));
    assert!(matches!(
        bool::decode(&PointValue::Integer(0)),
        Err(InfluxDBError::InvalidPointValueConversion(_))
    ));
    assert!(matches!(
        String::decode(&PointValue::Boolean(true)),
        Err(InfluxDBError::InvalidPointValueConversion(_))
    ));
    assert!(matches!(
        Timestamp::decode(&PointValue::Integer(5)),
        Err(InfluxDBError::InvalidPointValueConversion(_))
    ));
}

#[test]
fn decode_rejects_out_of_range_narrowing() {
    assert!(matches!(
        i8::decode(&PointValue::Integer(128)),
        Err(InfluxDBError::InvalidPointValueConversion(_))
    ));
    assert!(i8::decode(&PointValue::Integer(127)).is_ok());
    assert!(matches!(
        i16::decode(&PointValue::Integer(-32769)),
        Err(InfluxDBError::InvalidPointValueConversion(_))
    ));
    assert!(matches!(
        u8::decode(&PointValue::UInteger(256)),
        Err(InfluxDBError::InvalidPointValueConversion(_))
    ));
    assert!(matches!(
        u32::decode(&PointValue::UInteger(4294967296)),
        Err(InfluxDBError::InvalidPointValueConversion(_))
    ));
}

#[test]
fn get_value_passes_null_through() {
    let r: Option<i64> = PointValue::Null.get_value().unwrap();
    assert_eq!(r, None);
    let r: Option<i64> = PointValue::Integer(9).get_value().unwrap();
    assert_eq!(r, Some(9));
    let r: Result<Option<bool>, InfluxDBError> = PointValue::Integer(9).get_value();
    assert!(r.is_err());
}

#[test]
fn serialize_value_wire_forms() {
    assert_eq!(PointValue::Null.serialize(), b"");
    assert_eq!(PointValue::Integer(5).serialize(), b"5i");
    assert_eq!(PointValue::Integer(-7).serialize(), b"-7i");
    assert_eq!(
        PointValue::Integer(i64::MIN).serialize(),
        b"-9223372036854775808i"
    );
    assert_eq!(PointValue::UInteger(7).serialize(), b"7u");
    assert_eq!(PointValue::Boolean(true).serialize(), b"t");
    assert_eq!(PointValue::Boolean(false).serialize(), b"f");
    assert_eq!(PointValue::Timestamp(-123).serialize(), b"-123");
    assert_eq!(PointValue::Timestamp(0).serialize(), b"0");
    let fv = FloatValue { bits: 2.5f64.to_bits(), text: 2.5f64.to_string() };
    assert_eq!(PointValue::Float(fv).serialize(), b"2.5");
}

#[test]
fn serialize_string_escapes_quotes_and_backslashes() {
    let v = PointValue::String(String::from("a\"b\\c"));
    assert_eq!(v.serialize(), b"\"a\\\"b\\\\c\"");
    let plain = PointValue::String(String::from("plain"));
    assert_eq!(plain.serialize(), b"\"plain\"");
}
