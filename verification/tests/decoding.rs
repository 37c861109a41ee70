use influxdb3::Column;
use influxdb3::ColumnValues;
use influxdb3::ColumnarBatch;
use influxdb3::FloatValue;
use influxdb3::InfluxDBError;
use influxdb3::PointStream;
use influxdb3::PointValue;
use influxdb3::TimeUnit;
use influxdb3::get_point;

fn float_cell(v: f64) -> Option<FloatValue> {
    Some(FloatValue { bits: v.to_bits(), text: v.to_string() })
}

fn scenario_batch() -> ColumnarBatch {
    let time = Column {
        name: String::from("time"),
        column_type: Some(String::from("iox::column_type::timestamp")),
        values: ColumnValues::Timestamp(TimeUnit::Nanosecond, vec![Some(100), Some(200)]),
    };
    let host = Column {
        name: String::from("host"),
        column_type: Some(String::from("iox::column_type::tag")),
        values: ColumnValues::Utf8(vec![Some(String::from("h1")), Some(String::from("h2"))]),
    };
    let cpu = Column {
        name: String::from("cpu_pct"),
        column_type: Some(String::from("iox::column_type::field::float")),
        values: ColumnValues::Float64(vec![float_cell(0.5), float_cell(0.75)]),
    };
    ColumnarBatch::new(vec![time, host, cpu], 2).unwrap()
}

#[test]
fn decode_two_rows_with_time_tag_and_float_field() {
    let batch = scenario_batch();
    let p0 = get_point(&batch, 0).unwrap();
    assert_eq!(p0.get_timestamp(), 100);
    assert_eq!(p0.get_tag("host").unwrap(), "h1");
    match p0.get_field_value("cpu_pct").unwrap() {
        PointValue::Float(f) => assert_eq!(f64::from_bits(f.bits), 0.5),
        _ => panic!("expected a float field"),
    }
    // The time column lands on the point's timestamp, never as a field.
    assert!(p0.get_field_value("time").is_none());
    let p1 = get_point(&batch, 1).unwrap();
    assert_eq!(p1.get_timestamp(), 200);
    assert_eq!(p1.get_tag("host").unwrap(), "h2");
    match p1.get_field_value("cpu_pct").unwrap() {
        PointValue::Float(f) => assert_eq!(f64::from_bits(f.bits), 0.75),
        _ => panic!("expected a float field"),
    }
}

#[test]
fn stream_drains_batches_then_awaits() {
    let mut stream = PointStream::new();
    assert!(stream.is_awaiting());
    assert!(stream.next_buffered().is_none());
    stream.accept_batch(scenario_batch());
    assert!(!stream.is_awaiting());
    let p0 = stream.next_buffered().unwrap().unwrap();
    assert_eq!(p0.get_timestamp(), 100);
    let p1 = stream.next_buffered().unwrap().unwrap();
    assert_eq!(p1.get_timestamp(), 200);
    assert!(stream.is_awaiting());
    assert!(stream.next_buffered().is_none());
}

#[test]
fn stream_skips_empty_batch() {
    let mut stream = PointStream::new();
    stream.accept_batch(ColumnarBatch::new(Vec::new(), 0).unwrap());
    assert!(stream.next_buffered().is_none());
    assert!(stream.is_awaiting());
}

#[test]
fn unsupported_column_type_fails_the_row() {
    let bad = Column {
        name: String::from("amount"),
        column_type: None,
        values: ColumnValues::Unsupported(String::from("Decimal128(10, 2)")),
    };
    let batch = ColumnarBatch::new(vec![bad], 1).unwrap();
    match get_point(&batch, 0) {
        Err(InfluxDBError::InvalidPointValue(name, ty)) => {
            assert_eq!(name, "amount");
            assert_eq!(ty, "Decimal128(10, 2)");
        },
        _ => panic!("expected an unsupported column type error"),
    }
}

#[test]
fn null_tags_are_dropped_but_null_fields_kept() {
    let tag = Column {
        name: String::from("host"),
        column_type: Some(String::from("iox::column_type::tag")),
        values: ColumnValues::Utf8(vec![None]),
    };
    let field = Column {
        name: String::from("reading"),
        column_type: None,
        values: ColumnValues::Int64(vec![None]),
    };
    let batch = ColumnarBatch::new(vec![tag, field], 1).unwrap();
    let p = get_point(&batch, 0).unwrap();
    assert!(!p.has_tag("host"));
    assert!(matches!(p.get_field_value("reading"), Some(PointValue::Null)));
}

#[test]
fn measurement_column_sets_the_measurement() {
    let meas = Column {
        name: String::from("measurement"),
        column_type: None,
        values: ColumnValues::Utf8(vec![Some(String::from("cpu")), None]),
    };
    let field = Column {
        name: String::from("v"),
        column_type: None,
        values: ColumnValues::Boolean(vec![Some(true), Some(false)]),
    };
    let batch = ColumnarBatch::new(vec![meas, field], 2).unwrap();
    let p0 = get_point(&batch, 0).unwrap();
    assert_eq!(p0.get_measurement(), "cpu");
    assert!(p0.get_field_value("measurement").is_none());
    // A null measurement cell falls through to the field path instead.
    let p1 = get_point(&batch, 1).unwrap();
    assert_eq!(p1.get_measurement(), "");
    assert!(matches!(p1.get_field_value("measurement"), Some(PointValue::Null)));
}

#[test]
fn timestamp_units_scale_to_nanoseconds() {
    let col = Column {
        name: String::from("time"),
        column_type: Some(String::from("iox::column_type::timestamp")),
        values: ColumnValues::Timestamp(TimeUnit::Second, vec![Some(3)]),
    };
    let batch = ColumnarBatch::new(vec![col], 1).unwrap();
    assert_eq!(get_point(&batch, 0).unwrap().get_timestamp(), 3_000_000_000);
    let col = Column {
        name: String::from("time"),
        column_type: Some(String::from("iox::column_type::timestamp")),
        values: ColumnValues::Timestamp(TimeUnit::Millisecond, vec![Some(-7)]),
    };
    let batch = ColumnarBatch::new(vec![col], 1).unwrap();
    assert_eq!(get_point(&batch, 0).unwrap().get_timestamp(), -7_000_000);
}

#[test]
fn out_of_range_timestamp_fails_the_row() {
    let col = Column {
        name: String::from("time"),
        column_type: Some(String::from("iox::column_type::timestamp")),
        values: ColumnValues::Timestamp(TimeUnit::Second, vec![Some(i64::MAX)]),
    };
    let batch = ColumnarBatch::new(vec![col], 1).unwrap();
    assert!(matches!(
        get_point(&batch, 0),
        Err(InfluxDBError::InvalidPointValueConversion(_))
    ));
}

#[test]
fn mismatched_column_length_is_rejected() {
    let col = Column {
        name: String::from("v"),
        column_type: None,
        values: ColumnValues::Int64(vec![Some(1)]),
    };
    assert!(ColumnarBatch::new(vec![col], 2).is_err());
}

#[test]
fn typed_field_classifications_become_fields() {
    let ints = Column {
        name: String::from("n"),
        column_type: Some(String::from("iox::column_type::field::integer")),
        values: ColumnValues::Int64(vec![Some(42)]),
    };
    let words = Column {
        name: String::from("w"),
        column_type: Some(String::from("iox::column_type::field::string")),
        values: ColumnValues::Utf8(vec![Some(String::from("hi"))]),
    };
    let counts = Column {
        name: String::from("c"),
        column_type: Some(String::from("iox::column_type::field::uinteger")),
        values: ColumnValues::UInt64(vec![Some(9)]),
    };
    let batch = ColumnarBatch::new(vec![ints, words, counts], 1).unwrap();
    let p = get_point(&batch, 0).unwrap();
    assert!(matches!(p.get_field_value("n"), Some(PointValue::Integer(42))));
    assert!(matches!(p.get_field_value("c"), Some(PointValue::UInteger(9))));
    match p.get_field_value("w").unwrap() {
        PointValue::String(s) => assert_eq!(s, "hi"),
        _ => panic!("expected a string field"),
    }
}

#[test]
fn tag_column_with_non_string_value_fails_the_row() {
    let col = Column {
        name: String::from("host"),
        column_type: Some(String::from("iox::column_type::tag")),
        values: ColumnValues::Int64(vec![Some(1)]),
    };
    let batch = ColumnarBatch::new(vec![col], 1).unwrap();
    assert!(matches!(
        get_point(&batch, 0),
        Err(InfluxDBError::InvalidPointValueConversion(_))
    ));
}
