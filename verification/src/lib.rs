//! A typed client core for the InfluxDB 3 time-series database.
//!
//! The crate converts typed records into the line-protocol wire format for
//! writes and decodes columnar query results back into typed points.  The
//! pieces with real invariants live here, verified: the tagged value model
//! with its conversion capabilities, the point entity and its serializer,
//! the write-side batcher, the columnar decoder with its pull state machine,
//! and the schema-mapping builder that validates record descriptions and
//! drives the two conversions.

mod batch_writer;
mod error;
mod num;
mod options;
mod point;
mod point_stream;
mod point_value;
mod schema;
mod tag_name;
mod util;

pub use crate::batch_writer::Batcher;
pub use crate::error::InfluxDBError;
pub use crate::error::SchemaError;
pub use crate::options::QueryType;
pub use crate::options::TimestampPrecision;
pub use crate::point::FromPoint;
pub use crate::point::Point;
pub use crate::point::PointView;
pub use crate::point::ToPoint;
pub use crate::point_stream::Column;
pub use crate::point_stream::ColumnValues;
pub use crate::point_stream::ColumnarBatch;
pub use crate::point_stream::PointStream;
pub use crate::point_stream::TimeUnit;
pub use crate::point_stream::get_point;
pub use crate::point_value::Decode;
pub use crate::point_value::Encode;
pub use crate::point_value::FloatValue;
pub use crate::point_value::PointValue;
pub use crate::point_value::Timestamp;
pub use crate::point_value::ValueView;
pub use crate::schema::FieldDef;
pub use crate::schema::FieldInfo;
pub use crate::schema::FieldType;
pub use crate::schema::RecordValue;
pub use crate::schema::StructDef;
pub use crate::schema::StructInfo;
pub use crate::schema::parse_fields;
pub use crate::schema::parse_struct;
pub use crate::schema::point_to_record;
pub use crate::schema::record_to_point;
pub use crate::schema::validate_from_point;
pub use crate::tag_name::TagMap;
pub use crate::tag_name::TagName;
pub use crate::util::parse_bool;
pub use crate::util::to_snake_case;
pub use crate::util::validate_name;
