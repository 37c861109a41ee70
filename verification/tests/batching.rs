use influxdb3::Batcher;
use influxdb3::FloatValue;
use influxdb3::Point;
use influxdb3::PointValue;
use influxdb3::TagMap;
use influxdb3::TagName;
use influxdb3::TimestampPrecision;

fn cpu_point(ts: i64) -> Point {
    let mut p = Point::new_with_measurement("cpu");
    p.set_timestamp(ts);
    let fv = FloatValue { bits: 2.5f64.to_bits(), text: 2.5f64.to_string() };
    p.set_field("value", PointValue::Float(fv));
    p
}

#[test]
fn three_points_one_buffer_with_default_tag() {
    let mut tags = TagMap::new();
    tags.insert(TagName::try_from("env").unwrap(), String::from("prod"));
    let mut batcher = Batcher::new(TimestampPrecision::Nanoseconds, &tags);
    batcher.add_point(cpu_point(1000)).unwrap();
    batcher.add_point(cpu_point(2000)).unwrap();
    batcher.add_point(cpu_point(3000)).unwrap();
    let buffers = batcher.finalize();
    assert_eq!(buffers.len(), 1);
    let expected = "cpu,env=prod value=2.5 1000\n\
                    cpu,env=prod value=2.5 2000\n\
                    cpu,env=prod value=2.5 3000\n";
    assert_eq!(buffers[0], expected.as_bytes());
}

#[test]
fn line_count_threshold_seals_at_ten_thousand() {
    let tags = TagMap::new();
    let mut batcher = Batcher::new(TimestampPrecision::Nanoseconds, &tags);
    for _ in 0..10001 {
        let mut p = Point::new_with_measurement("m");
        p.set_timestamp(0);
        p.set_field("v", true);
        batcher.add_point(p).unwrap();
    }
    let buffers = batcher.finalize();
    assert_eq!(buffers.len(), 2);
    let first_lines = buffers[0].iter().filter(|b| **b == b'\n').count();
    let second_lines = buffers[1].iter().filter(|b| **b == b'\n').count();
    assert_eq!(first_lines, 10000);
    assert_eq!(second_lines, 1);
    assert_eq!(buffers[1], b"m v=t 0\n");
}

#[test]
fn byte_threshold_seals_after_large_point() {
    let tags = TagMap::new();
    let mut batcher = Batcher::new(TimestampPrecision::Nanoseconds, &tags);
    let big = "a".repeat(10 * 1024 * 1024);
    for _ in 0..2 {
        let mut p = Point::new_with_measurement("m");
        p.set_timestamp(0);
        p.set_field("v", big.as_str());
        batcher.add_point(p).unwrap();
    }
    let buffers = batcher.finalize();
    assert_eq!(buffers.len(), 2);
    // The threshold check runs only after a whole point is in: no line is split.
    assert_eq!(buffers[0].last(), Some(&b'\n'));
    assert_eq!(buffers[1].last(), Some(&b'\n'));
}

#[test]
fn concatenated_buffers_reproduce_all_lines_in_order() {
    let tags = TagMap::new();
    let mut batcher = Batcher::new(TimestampPrecision::Nanoseconds, &tags);
    let mut expected: Vec<u8> = Vec::new();
    for i in 0..25000i64 {
        let mut p = Point::new_with_measurement("m");
        p.set_timestamp(i);
        p.set_field("n", i);
        expected.extend_from_slice(format!("m n={}i {}\n", i, i).as_bytes());
        batcher.add_point(p).unwrap();
    }
    let buffers = batcher.finalize();
    assert_eq!(buffers.len(), 3);
    let mut joined: Vec<u8> = Vec::new();
    for b in &buffers {
        joined.extend_from_slice(b);
    }
    assert_eq!(joined, expected);
}

#[test]
fn add_points_serializes_in_sequence_order() {
    let tags = TagMap::new();
    let mut batcher = Batcher::new(TimestampPrecision::Seconds, &tags);
    let mut points = Vec::new();
    for i in 0..3i64 {
        let mut p = Point::new_with_measurement("s");
        p.set_timestamp(i * 1_000_000_000);
        p.set_field("k", i as u64);
        points.push(p);
    }
    batcher.add_points(points).unwrap();
    let buffers = batcher.finalize();
    assert_eq!(buffers.len(), 1);
    assert_eq!(buffers[0], b"s k=0u 0\ns k=1u 1\ns k=2u 2\n");
}

#[test]
fn point_serializer_emits_own_tags_after_default_tags() {
    let mut defaults = TagMap::new();
    defaults.insert(TagName::try_from("env").unwrap(), String::from("prod"));
    let mut p = Point::new_with_measurement("cpu");
    p.set_timestamp(7);
    p.set_tag("host", "h1").unwrap();
    p.set_field("ok", false);
    let mut buf = Vec::new();
    p.serialize(&mut buf, TimestampPrecision::Nanoseconds, &defaults);
    assert_eq!(buf, b"cpu,env=prod,host=h1 ok=f 7\n");
}

#[test]
fn empty_field_set_keeps_the_lone_space() {
    let defaults = TagMap::new();
    let mut p = Point::new_with_measurement("m");
    p.set_timestamp(1);
    let mut buf = Vec::new();
    p.serialize(&mut buf, TimestampPrecision::Nanoseconds, &defaults);
    assert_eq!(buf, b"m  1\n");
}
