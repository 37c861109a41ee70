use influxdb3::FieldDef;
use influxdb3::FieldType;
use influxdb3::InfluxDBError;
use influxdb3::PointValue;
use influxdb3::RecordValue;
use influxdb3::SchemaError;
use influxdb3::StructDef;
use influxdb3::parse_fields;
use influxdb3::parse_struct;
use influxdb3::point_to_record;
use influxdb3::record_to_point;
use influxdb3::validate_from_point;

fn plain_field(name: &str) -> FieldDef {
    FieldDef {
        name: String::from(name),
        is_time: false,
        is_tag: false,
        rename: None,
        use_default: false,
        ignore: false,
    }
}

fn cpu_schema() -> StructDef {
    let mut time = plain_field("time");
    time.is_time = false;
    let mut host = plain_field("host");
    host.is_tag = true;
    StructDef {
        name: String::from("CpuMetric"),
        measurement: None,
        fields: vec![time, host, plain_field("usage")],
    }
}

#[test]
fn two_time_fields_fail_at_build_time() {
    let mut marked = plain_field("stamp");
    marked.is_time = true;
    let defs = vec![plain_field("time"), marked];
    assert!(matches!(
        parse_fields(&defs),
        Err(SchemaError::MultipleTimeFields)
    ));
}

#[test]
fn a_field_both_named_time_and_marked_time_counts_twice() {
    let mut d = plain_field("time");
    d.is_time = true;
    assert!(matches!(
        parse_fields(&vec![d]),
        Err(SchemaError::MultipleTimeFields)
    ));
}

#[test]
fn roles_resolve_from_names_and_markers() {
    let mut host = plain_field("host");
    host.is_tag = true;
    let infos = parse_fields(&vec![plain_field("time"), host, plain_field("usage")]).unwrap();
    assert_eq!(infos[0].field_type, FieldType::Time);
    assert_eq!(infos[1].field_type, FieldType::Tag);
    assert_eq!(infos[2].field_type, FieldType::Field);
}

#[test]
fn ignored_tag_or_time_is_rejected() {
    let mut d = plain_field("host");
    d.is_tag = true;
    d.ignore = true;
    d.use_default = true;
    match parse_fields(&vec![d]) {
        Err(SchemaError::IgnoredFieldTagOrTime(name)) => assert_eq!(name, "host"),
        _ => panic!("expected the ignored tag to be rejected"),
    }
}

#[test]
fn measurement_defaults_to_snake_case_type_name() {
    let info = parse_struct(cpu_schema()).unwrap();
    assert_eq!(info.measurement, "cpu_metric");
    let mut with_override = cpu_schema();
    with_override.measurement = Some(String::from("cpu"));
    assert_eq!(parse_struct(with_override).unwrap().measurement, "cpu");
}

#[test]
fn from_point_validations() {
    let schema = parse_struct(cpu_schema()).unwrap();
    assert!(validate_from_point(&schema).is_ok());

    let mut ignored = plain_field("note");
    ignored.ignore = true;
    let mut def = cpu_schema();
    def.fields.push(ignored);
    let schema = parse_struct(def).unwrap();
    match validate_from_point(&schema) {
        Err(SchemaError::IgnoredFieldNotDefault(name)) => assert_eq!(name, "note"),
        _ => panic!("expected the ignored field to need use-default"),
    }

    let no_time = StructDef {
        name: String::from("Bare"),
        measurement: None,
        fields: vec![plain_field("usage")],
    };
    let schema = parse_struct(no_time).unwrap();
    assert!(matches!(
        validate_from_point(&schema),
        Err(SchemaError::MissingTimeField)
    ));
}

#[test]
fn record_converts_to_point_and_back() {
    let schema = parse_struct(cpu_schema()).unwrap();
    let values = vec![
        RecordValue::Time(12345),
        RecordValue::Tag(String::from("h1")),
        RecordValue::Field(PointValue::Integer(88)),
    ];
    let point = record_to_point(&schema, &values).unwrap();
    assert_eq!(point.get_measurement(), "cpu_metric");
    assert_eq!(point.get_timestamp(), 12345);
    assert_eq!(point.get_tag("host").unwrap(), "h1");
    assert!(matches!(point.get_field_value("usage"), Some(PointValue::Integer(88))));

    let back = point_to_record(&schema, &point).unwrap();
    assert!(matches!(back[0], RecordValue::Time(12345)));
    match &back[1] {
        RecordValue::Tag(s) => assert_eq!(s, "h1"),
        _ => panic!("expected the tag back"),
    }
    assert!(matches!(back[2], RecordValue::Field(PointValue::Integer(88))));
}

#[test]
fn renames_apply_on_the_point_side() {
    let mut usage = plain_field("usage_pct");
    usage.rename = Some(String::from("usage"));
    let def = StructDef {
        name: String::from("M"),
        measurement: Some(String::from("m")),
        fields: vec![plain_field("time"), usage],
    };
    let schema = parse_struct(def).unwrap();
    let values = vec![RecordValue::Time(1), RecordValue::Field(PointValue::Boolean(true))];
    let point = record_to_point(&schema, &values).unwrap();
    assert!(point.get_field_value("usage").is_some());
    assert!(point.get_field_value("usage_pct").is_none());
}

#[test]
fn missing_required_tag_and_field_fail_with_names() {
    let schema = parse_struct(cpu_schema()).unwrap();
    let mut bare = influxdb3::Point::new_with_measurement("cpu_metric");
    bare.set_field("usage", 1i64);
    match point_to_record(&schema, &bare) {
        Err(InfluxDBError::Other(m)) => assert_eq!(m, "Missing required tag: host"),
        _ => panic!("expected the missing tag to be named"),
    }
    let mut tagged = influxdb3::Point::new_with_measurement("cpu_metric");
    tagged.set_tag("host", "h1").unwrap();
    match point_to_record(&schema, &tagged) {
        Err(InfluxDBError::Other(m)) => assert_eq!(m, "Missing required field: usage"),
        _ => panic!("expected the missing field to be named"),
    }
}

#[test]
fn use_default_and_ignore_substitute_placeholders() {
    let mut opt = plain_field("note");
    opt.use_default = true;
    let mut skipped = plain_field("cache");
    skipped.ignore = true;
    skipped.use_default = true;
    let def = StructDef {
        name: String::from("M"),
        measurement: Some(String::from("m")),
        fields: vec![plain_field("time"), opt, skipped],
    };
    let schema = parse_struct(def).unwrap();
    let point = influxdb3::Point::new_with_measurement("m");
    let back = point_to_record(&schema, &point).unwrap();
    assert!(matches!(back[1], RecordValue::Default));
    assert!(matches!(back[2], RecordValue::Default));
}

#[test]
fn invalid_tag_name_in_schema_fails_conversion() {
    let mut bad = plain_field("bad tag");
    bad.is_tag = true;
    let def = StructDef {
        name: String::from("M"),
        measurement: Some(String::from("m")),
        fields: vec![plain_field("time"), bad],
    };
    let schema = parse_struct(def).unwrap();
    let values = vec![RecordValue::Time(1), RecordValue::Tag(String::from("x"))];
    match record_to_point(&schema, &values) {
        Err(InfluxDBError::InvalidTagName(name)) => assert_eq!(name, "bad tag"),
        _ => panic!("expected the tag name to be rejected"),
    }
}
