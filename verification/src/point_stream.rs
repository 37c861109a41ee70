//! The read-side decoder: reconstructs typed points from a columnar batch,
//! and the two-state pull machine that drains buffered batches row by row.

use vstd::prelude::*;
use vstd::string::StringExecFns;
use vstd::utf8::encode_utf8;

use crate::error::InfluxDBError;
use crate::point::Point;
use crate::point::PointView;
use crate::point::spec_fmap_insert;
use crate::point_value::FloatValue;
use crate::point_value::PointValue;
use crate::point_value::ValueView;
use crate::tag_name::spec_tmap_insert;
use crate::tag_name::valid_tag_text;
use crate::util::spec_valid_name;
use crate::util::str_eq;

verus! {

/// The resolution a timestamp column stores its values at.
#[derive(Debug, Clone, Copy, PartialEq, Eq, Structural)]
pub enum TimeUnit {
    Second,
    Millisecond,
    Microsecond,
    Nanosecond,
}

/// The cells of one column, by physical type.  A column whose physical
/// type is none of these is `Unsupported` and carries a rendering of that
/// type; a `Null`-typed column has no storage, every cell reads as null.
#[derive(Debug)]
pub enum ColumnValues {
    Null,
    Boolean(Vec<Option<bool>>),
    Float64(Vec<Option<FloatValue>>),
    Int64(Vec<Option<i64>>),
    UInt64(Vec<Option<u64>>),
    Utf8(Vec<Option<String>>),
    Timestamp(TimeUnit, Vec<Option<i64>>),
    Unsupported(String),
}

/// The mathematical model of one column's cells.
pub ghost enum ColumnValuesView {
    Null,
    Boolean(Seq<Option<bool>>),
    Float64(Seq<Option<(u64, Seq<char>)>>),
    Int64(Seq<Option<i64>>),
    UInt64(Seq<Option<u64>>),
    Utf8(Seq<Option<Seq<char>>>),
    Timestamp(TimeUnit, Seq<Option<i64>>),
    Unsupported(Seq<char>),
}

impl View for ColumnValues {
    type V = ColumnValuesView;

    open spec fn view(&self) -> ColumnValuesView {
        match self {
            ColumnValues::Null => ColumnValuesView::Null,
            ColumnValues::Boolean(v) => ColumnValuesView::Boolean(v.deep_view()),
            ColumnValues::Float64(v) => ColumnValuesView::Float64(v.deep_view()),
            ColumnValues::Int64(v) => ColumnValuesView::Int64(v.deep_view()),
            ColumnValues::UInt64(v) => ColumnValuesView::UInt64(v.deep_view()),
            ColumnValues::Utf8(v) => ColumnValuesView::Utf8(v.deep_view()),
            ColumnValues::Timestamp(u, v) => ColumnValuesView::Timestamp(*u, v.deep_view()),
            ColumnValues::Unsupported(t) => ColumnValuesView::Unsupported(t@),
        }
    }
}

/// One named column: its name, the classification string from its
/// metadata (if any), and its cells.
#[derive(Debug)]
pub struct Column {
    /// The column name.
    pub name: String,
    /// The classification attached in the column metadata.
    pub column_type: Option<String>,
    /// The cells.
    pub values: ColumnValues,
}

/// The mathematical model of one column.
pub ghost struct ColumnView {
    pub name: Seq<char>,
    pub column_type: Option<Seq<char>>,
    pub values: ColumnValuesView,
}

impl View for Column {
    type V = ColumnView;

    open spec fn view(&self) -> ColumnView {
        ColumnView {
            name: self.name@,
            column_type: match self.column_type {
                Option::None => None,
                Option::Some(s) => Some(s@),
            },
            values: self.values@,
        }
    }
}

/// The model of a column list.
pub open spec fn spec_columns_view(cols: Seq<Column>) -> Seq<ColumnView> {
    cols.map_values(|c: Column| c@)
}

/// The mathematical model of a columnar batch.
pub ghost struct BatchView {
    pub columns: Seq<ColumnView>,
    pub num_rows: int,
}

/// True when the cells store exactly `rows` values (cells without
/// storage hold any row count).
pub open spec fn spec_values_wf(v: ColumnValuesView, rows: int) -> bool {
    match v {
        ColumnValuesView::Null => true,
        ColumnValuesView::Boolean(s) => s.len() == rows,
        ColumnValuesView::Float64(s) => s.len() == rows,
        ColumnValuesView::Int64(s) => s.len() == rows,
        ColumnValuesView::UInt64(s) => s.len() == rows,
        ColumnValuesView::Utf8(s) => s.len() == rows,
        ColumnValuesView::Timestamp(u, s) => s.len() == rows,
        ColumnValuesView::Unsupported(t) => true,
    }
}

/// True when a column stores exactly `rows` cells.
pub open spec fn spec_col_wf(c: ColumnView, rows: int) -> bool {
    spec_values_wf(c.values, rows)
}

/// A table-shaped unit of query-result data: named, typed columns that
/// all hold the same number of rows.
#[derive(Debug)]
pub struct ColumnarBatch {
    columns: Vec<Column>,
    num_rows: usize,
}

impl View for ColumnarBatch {
    type V = BatchView;

    closed spec fn view(&self) -> BatchView {
        BatchView { columns: spec_columns_view(self.columns@), num_rows: self.num_rows as int }
    }
}

fn column_matches(values: &ColumnValues, rows: usize) -> (r: bool)
    ensures
        r == spec_values_wf(values@, rows as int),
{
    match values {
        ColumnValues::Null => true,
        ColumnValues::Boolean(v) => v.len() == rows,
        ColumnValues::Float64(v) => v.len() == rows,
        ColumnValues::Int64(v) => v.len() == rows,
        ColumnValues::UInt64(v) => v.len() == rows,
        ColumnValues::Utf8(v) => v.len() == rows,
        ColumnValues::Timestamp(_, v) => v.len() == rows,
        ColumnValues::Unsupported(_) => true,
    }
}

impl ColumnarBatch {
    #[verifier::type_invariant]
    spec fn type_inv(self) -> bool {
        forall|i: int|
            0 <= i < self@.columns.len() ==> spec_col_wf(
                #[trigger] self@.columns[i],
                self@.num_rows,
            )
    }

    /// Assembles a batch from its columns and row count.  Succeeds exactly
    /// when every column with storage holds `num_rows` cells; otherwise
    /// the batch is rejected with a typed error.
    pub fn new(columns: Vec<Column>, num_rows: usize) -> (r: Result<ColumnarBatch, InfluxDBError>)
        ensures
            ({
                let cols = spec_columns_view(columns@);
                if forall|i: int| 0 <= i < cols.len() ==> spec_col_wf(#[trigger] cols[i], num_rows as int) {
                    r matches Ok(b) && b@ == (BatchView { columns: cols, num_rows: num_rows as int })
                } else {
                    r is Err
                }
            }),
    {
        let n = columns.len();
        let mut i: usize = 0;
        while i < n
            invariant
                n == columns@.len(),
                i <= n,
                forall|j: int|
                    0 <= j < i ==> spec_col_wf(
                        #[trigger] spec_columns_view(columns@)[j],
                        num_rows as int,
                    ),
            decreases n - i,
        {
            let ok = column_matches(&columns[i].values, num_rows);
            if !ok {
                proof {
                    let cols = spec_columns_view(columns@);
                    assert(!spec_col_wf(cols[i as int], num_rows as int));
                }
                return Err(
                    InfluxDBError::Other(String::from_str("column length does not match row count")),
                );
            }
            proof {
                let cols = spec_columns_view(columns@);
                assert(spec_col_wf(cols[i as int], num_rows as int));
            }
            i += 1;
        }
        Ok(ColumnarBatch { columns, num_rows })
    }

    /// The number of rows.
    pub fn num_rows(&self) -> (r: usize)
        ensures
            r == self@.num_rows,
    {
        self.num_rows
    }
}

/// The classification a column carries in its metadata.
#[derive(Debug, Clone, Copy, PartialEq, Eq, Structural)]
pub enum ColumnType {
    Integer,
    UInteger,
    Float,
    String,
    Boolean,
    Tag,
    Timestamp,
    Unknown,
}

/// The classification named by a metadata string; a missing or
/// unrecognised string classifies as unknown.
pub open spec fn spec_classify(meta: Option<Seq<char>>) -> ColumnType {
    match meta {
        None => ColumnType::Unknown,
        Some(s) => {
            if s == "iox::column_type::field::integer"@ {
                ColumnType::Integer
            } else if s == "iox::column_type::field::uinteger"@ {
                ColumnType::UInteger
            } else if s == "iox::column_type::field::float"@ {
                ColumnType::Float
            } else if s == "iox::column_type::field::string"@ {
                ColumnType::String
            } else if s == "iox::column_type::field::boolean"@ {
                ColumnType::Boolean
            } else if s == "iox::column_type::tag"@ {
                ColumnType::Tag
            } else if s == "iox::column_type::timestamp"@ {
                ColumnType::Timestamp
            } else {
                ColumnType::Unknown
            }
        },
    }
}

fn classify(meta: &Option<String>) -> (r: ColumnType)
    ensures
        r == spec_classify(
            match *meta {
                Option::None => None,
                Option::Some(s) => Some(s@),
            },
        ),
{
    match meta {
        None => ColumnType::Unknown,
        Some(s) => {
            let t = s.as_str();
            if str_eq(t, "iox::column_type::field::integer") {
                ColumnType::Integer
            } else if str_eq(t, "iox::column_type::field::uinteger") {
                ColumnType::UInteger
            } else if str_eq(t, "iox::column_type::field::float") {
                ColumnType::Float
            } else if str_eq(t, "iox::column_type::field::string") {
                ColumnType::String
            } else if str_eq(t, "iox::column_type::field::boolean") {
                ColumnType::Boolean
            } else if str_eq(t, "iox::column_type::tag") {
                ColumnType::Tag
            } else if str_eq(t, "iox::column_type::timestamp") {
                ColumnType::Timestamp
            } else {
                ColumnType::Unknown
            }
        },
    }
}

/// A stored timestamp scaled to nanoseconds, when the result fits the
/// nanosecond range.
pub open spec fn spec_scale_nanos(unit: TimeUnit, t: int) -> Option<int> {
    let f: int = match unit {
        TimeUnit::Second => 1000000000,
        TimeUnit::Millisecond => 1000000,
        TimeUnit::Microsecond => 1000,
        TimeUnit::Nanosecond => 1,
    };
    if i64::MIN <= t * f <= i64::MAX {
        Some(t * f)
    } else {
        None
    }
}

fn scale_nanos(unit: TimeUnit, t: i64) -> (r: Option<i64>)
    ensures
        match spec_scale_nanos(unit, t as int) {
            Some(n) => r matches Some(m) && m as int == n,
            None => r is None,
        },
{
    match unit {
        TimeUnit::Second => t.checked_mul(1000000000),
        TimeUnit::Millisecond => t.checked_mul(1000000),
        TimeUnit::Microsecond => t.checked_mul(1000),
        TimeUnit::Nanosecond => Some(t),
    }
}

/// The tagged value stored in one cell: a null cell or null-typed column
/// reads as the null value; a timestamp cell is scaled to nanoseconds.
/// Nothing comes back for an unsupported column, or for a timestamp
/// outside the nanosecond range.
pub open spec fn spec_cell_value(c: ColumnView, row: int) -> Option<ValueView> {
    match c.values {
        ColumnValuesView::Null => Some(ValueView::Null),
        ColumnValuesView::Boolean(cells) => Some(
            match cells[row] {
                Option::None => ValueView::Null,
                Option::Some(b) => ValueView::Boolean(b),
            },
        ),
        ColumnValuesView::Float64(cells) => Some(
            match cells[row] {
                Option::None => ValueView::Null,
                Option::Some(f) => ValueView::Float(f.0, f.1),
            },
        ),
        ColumnValuesView::Int64(cells) => Some(
            match cells[row] {
                Option::None => ValueView::Null,
                Option::Some(n) => ValueView::Integer(n),
            },
        ),
        ColumnValuesView::UInt64(cells) => Some(
            match cells[row] {
                Option::None => ValueView::Null,
                Option::Some(n) => ValueView::UInteger(n),
            },
        ),
        ColumnValuesView::Utf8(cells) => Some(
            match cells[row] {
                Option::None => ValueView::Null,
                Option::Some(s) => ValueView::String(s),
            },
        ),
        ColumnValuesView::Timestamp(unit, cells) => match cells[row] {
            Option::None => Some(ValueView::Null),
            Option::Some(t) => match spec_scale_nanos(unit, t as int) {
                Some(n) => Some(ValueView::Timestamp(n as i64)),
                None => None,
            },
        },
        ColumnValuesView::Unsupported(t) => None,
    }
}

/// Extracts the tagged value of one cell.
fn get_cell_value(col: &Column, row: usize) -> (r: Result<PointValue, InfluxDBError>)
    requires
        match col@.values {
            ColumnValuesView::Null => true,
            ColumnValuesView::Unsupported(t) => true,
            ColumnValuesView::Boolean(s) => row < s.len(),
            ColumnValuesView::Float64(s) => row < s.len(),
            ColumnValuesView::Int64(s) => row < s.len(),
            ColumnValuesView::UInt64(s) => row < s.len(),
            ColumnValuesView::Utf8(s) => row < s.len(),
            ColumnValuesView::Timestamp(u, s) => row < s.len(),
        },
    ensures
        match spec_cell_value(col@, row as int) {
            Some(v) => r matches Ok(pv) && pv@ == v,
            None => match col@.values {
                ColumnValuesView::Unsupported(t) => r matches Err(
                    InfluxDBError::InvalidPointValue(n, ty),
                ) && n@ == col@.name && ty@ == t,
                _ => r matches Err(InfluxDBError::InvalidPointValueConversion(m)),
            },
        },
{
    match &col.values {
        ColumnValues::Null => Ok(PointValue::Null),
        ColumnValues::Boolean(cells) => match &cells[row] {
            None => Ok(PointValue::Null),
            Some(b) => Ok(PointValue::Boolean(*b)),
        },
        ColumnValues::Float64(cells) => match &cells[row] {
            None => Ok(PointValue::Null),
            Some(f) => Ok(PointValue::Float(f.clone())),
        },
        ColumnValues::Int64(cells) => match &cells[row] {
            None => Ok(PointValue::Null),
            Some(n) => Ok(PointValue::Integer(*n)),
        },
        ColumnValues::UInt64(cells) => match &cells[row] {
            None => Ok(PointValue::Null),
            Some(n) => Ok(PointValue::UInteger(*n)),
        },
        ColumnValues::Utf8(cells) => match &cells[row] {
            None => Ok(PointValue::Null),
            Some(s) => Ok(PointValue::String(s.clone())),
        },
        ColumnValues::Timestamp(unit, cells) => match &cells[row] {
            None => Ok(PointValue::Null),
            Some(t) => match scale_nanos(*unit, *t) {
                Some(n) => Ok(PointValue::Timestamp(n)),
                None => Err(
                    InfluxDBError::InvalidPointValueConversion(
                        String::from_str("Timestamp out of range"),
                    ),
                ),
            },
        },
        ColumnValues::Unsupported(t) => Err(
            InfluxDBError::InvalidPointValue(col.name.clone(), t.clone()),
        ),
    }
}

/// True when a text column is the reserved measurement column.
pub open spec fn spec_is_measurement_col(c: ColumnView) -> bool {
    (c.values is Utf8) && (c.name == "measurement"@ || c.name == "iox::measurement"@)
}

/// How one cell's value lands on the point being rebuilt: a non-null
/// reserved measurement column sets the measurement; a timestamp-typed
/// column named `time` with unknown classification, or any
/// timestamp-classified column, sets the time; a tag-classified column
/// with a non-null value sets a tag; everything else becomes a field
/// under the column name, nulls included, with a name the validator
/// rejects silently dropped.
pub open spec fn spec_route_cell(c: ColumnView, v: ValueView, acc: PointView) -> PointView {
    if spec_is_measurement_col(c) && (v matches ValueView::String(s)) {
        PointView { measurement: v->String_0, ..acc }
    } else {
        match spec_classify(c.column_type) {
            ColumnType::Unknown => {
                if (c.values is Timestamp) && c.name == "time"@ {
                    match v {
                        ValueView::Timestamp(n) => PointView { time: n, ..acc },
                        _ => acc,
                    }
                } else {
                    spec_set_field_routed(acc, c.name, v)
                }
            },
            ColumnType::Tag => match v {
                ValueView::String(s) => PointView {
                    tags: spec_tmap_insert(acc.tags, c.name, s),
                    ..acc
                },
                _ => acc,
            },
            ColumnType::Timestamp => match v {
                ValueView::Timestamp(n) => PointView { time: n, ..acc },
                _ => acc,
            },
            _ => spec_set_field_routed(acc, c.name, v),
        }
    }
}

/// A field set while rebuilding a point: silently dropped when the name
/// fails the validator.
pub open spec fn spec_set_field_routed(acc: PointView, name: Seq<char>, v: ValueView) -> PointView {
    if spec_valid_name(encode_utf8(name)) {
        PointView { fields: spec_fmap_insert(acc.fields, name, v), ..acc }
    } else {
        acc
    }
}

/// Whether applying one column's cell succeeds, and the updated point
/// when it does.  Applying fails on an unsupported column, an
/// out-of-range timestamp cell, a tag column whose non-null value is not
/// text, a tag column whose name fails the validator, or a
/// timestamp-classified column whose non-null value is not a timestamp.
pub open spec fn spec_apply_column(c: ColumnView, row: int, acc: PointView) -> Option<PointView> {
    match spec_cell_value(c, row) {
        None => None,
        Some(v) => {
            if spec_is_measurement_col(c) && (v matches ValueView::String(s)) {
                Some(spec_route_cell(c, v, acc))
            } else {
                match spec_classify(c.column_type) {
                    ColumnType::Tag => match v {
                        ValueView::Null => Some(acc),
                        ValueView::String(s) => if valid_tag_text(c.name) {
                            Some(spec_route_cell(c, v, acc))
                        } else {
                            None
                        },
                        _ => None,
                    },
                    ColumnType::Timestamp => match v {
                        ValueView::Null => Some(acc),
                        ValueView::Timestamp(n) => Some(spec_route_cell(c, v, acc)),
                        _ => None,
                    },
                    _ => Some(spec_route_cell(c, v, acc)),
                }
            }
        },
    }
}

/// The error a failing column surfaces: its name and physical type for an
/// unsupported column, a typed name error for an invalid tag name, and a
/// conversion error otherwise.
pub open spec fn spec_column_err(c: ColumnView, row: int, e: InfluxDBError) -> bool {
    match c.values {
        ColumnValuesView::Unsupported(t) => e matches InfluxDBError::InvalidPointValue(n, ty)
            && n@ == c.name && ty@ == t,
        _ => {
            if spec_cell_value(c, row) is None {
                e matches InfluxDBError::InvalidPointValueConversion(m)
            } else if spec_classify(c.column_type) == ColumnType::Tag && (spec_cell_value(c, row)
                matches Some(ValueView::String(s))) && !valid_tag_text(c.name) {
                e matches InfluxDBError::InvalidTagName(n) && n@ == c.name
            } else {
                e matches InfluxDBError::InvalidPointValueConversion(m)
            }
        },
    }
}

/// The point rebuilt from one row, processing the columns left to right
/// from `acc`; the first failing column aborts the row.
pub open spec fn spec_decode_row_from(cols: Seq<ColumnView>, row: int, acc: PointView) -> Result<
    PointView,
    ColumnView,
>
    decreases cols.len(),
{
    if cols.len() == 0 {
        Ok(acc)
    } else {
        match spec_apply_column(cols[0], row, acc) {
            Some(acc2) => spec_decode_row_from(cols.drop_first(), row, acc2),
            None => Err(cols[0]),
        }
    }
}

/// The empty point a row reconstruction starts from.
pub open spec fn spec_empty_point() -> PointView {
    PointView {
        measurement: Seq::empty(),
        tags: Seq::empty(),
        fields: Seq::empty(),
        time: 0,
    }
}

/// The point rebuilt from one row of a batch, or the column that made the
/// row fail.
pub open spec fn spec_decode_row(cols: Seq<ColumnView>, row: int) -> Result<PointView, ColumnView> {
    spec_decode_row_from(cols, row, spec_empty_point())
}

/// True when `res` is what decoding one row of the batch must produce:
/// the reconstructed point, or the first failing column's error.
pub open spec fn spec_row_result(
    b: BatchView,
    row: int,
    res: Result<Point, InfluxDBError>,
) -> bool {
    match spec_decode_row(b.columns, row) {
        Ok(p) => res matches Ok(pt) && pt@ == p,
        Err(c) => res matches Err(e) && spec_column_err(c, row, e),
    }
}

/// Rebuilds the typed point of one row: for each column, classify it,
/// then set the measurement, the time, a tag or a field as the
/// classification directs.
pub fn get_point(batch: &ColumnarBatch, row: usize) -> (r: Result<Point, InfluxDBError>)
    requires
        row < batch@.num_rows,
    ensures
        spec_row_result(batch@, row as int, r),
{
    proof {
        use_type_invariant(batch);
    }
    let mut point = Point::default();
    let ghost cols = batch@.columns;
    let n = batch.columns.len();
    proof {
        assert(cols.subrange(0, n as int) =~= cols);
        assert(point@ == spec_empty_point());
    }
    let mut i: usize = 0;
    while i < n
        invariant
            n == cols.len(),
            i <= n,
            cols == spec_columns_view(batch.columns@),
            row < batch@.num_rows,
            forall|k: int| 0 <= k < cols.len() ==> spec_col_wf(#[trigger] cols[k], batch@.num_rows),
            spec_decode_row_from(cols.subrange(i as int, n as int), row as int, point@)
                == spec_decode_row(cols, row as int),
        decreases n - i,
    {
        let col = &batch.columns[i];
        let ghost c = cols[i as int];
        let ghost acc0 = point@;
        proof {
            assert(cols.subrange(i as int, n as int)[0] == c);
            assert(cols.subrange(i as int, n as int).drop_first() =~= cols.subrange(
                i as int + 1,
                n as int,
            ));
        }
        let class = classify(&col.column_type);
        let value = match get_cell_value(col, row) {
            Ok(v) => v,
            Err(e) => {
                proof {
                    assert(spec_apply_column(c, row as int, acc0) is None);
                    assert(spec_decode_row(cols, row as int) == Err::<PointView, ColumnView>(c));
                }
                return Err(e);
            },
        };
        let is_meas = match &col.values {
            ColumnValues::Utf8(_) => str_eq(col.name.as_str(), "measurement") || str_eq(
                col.name.as_str(),
                "iox::measurement",
            ),
            _ => false,
        };
        let mut handled = false;
        if is_meas {
            match &value {
                PointValue::String(s) => {
                    point.set_measurement(s.as_str());
                    handled = true;
                },
                _ => {},
            }
        }
        if !handled {
            match class {
                ColumnType::Unknown => {
                    let is_time_col = match &col.values {
                        ColumnValues::Timestamp(_, _) => str_eq(col.name.as_str(), "time"),
                        _ => false,
                    };
                    if is_time_col {
                        match &value {
                            PointValue::Timestamp(ts) => {
                                point.set_timestamp(*ts);
                            },
                            _ => {},
                        }
                    } else {
                        point.set_field(col.name.as_str(), value);
                    }
                },
                ColumnType::Tag => {
                    match value {
                        PointValue::Null => {},
                        PointValue::String(s) => {
                            match point.set_tag(col.name.as_str(), s.as_str()) {
                                Ok(_) => {},
                                Err(e) => {
                                    proof {
                                        assert(spec_apply_column(c, row as int, acc0) is None);
                                        assert(spec_decode_row(cols, row as int) == Err::<
                                            PointView,
                                            ColumnView,
                                        >(c));
                                    }
                                    return Err(e);
                                },
                            }
                        },
                        _ => {
                            proof {
                                assert(spec_apply_column(c, row as int, acc0) is None);
                                assert(spec_decode_row(cols, row as int) == Err::<
                                    PointView,
                                    ColumnView,
                                >(c));
                            }
                            return Err(
                                InfluxDBError::InvalidPointValueConversion(
                                    String::from_str("PointValue is not a String"),
                                ),
                            );
                        },
                    }
                },
                ColumnType::Timestamp => {
                    match &value {
                        PointValue::Null => {},
                        PointValue::Timestamp(ts) => {
                            point.set_timestamp(*ts);
                        },
                        _ => {
                            proof {
                                assert(spec_apply_column(c, row as int, acc0) is None);
                                assert(spec_decode_row(cols, row as int) == Err::<
                                    PointView,
                                    ColumnView,
                                >(c));
                            }
                            return Err(
                                InfluxDBError::InvalidPointValueConversion(
                                    String::from_str("PointValue is not a Timestamp"),
                                ),
                            );
                        },
                    }
                },
                _ => {
                    point.set_field(col.name.as_str(), value);
                },
            }
        }
        proof {
            assert(spec_apply_column(c, row as int, acc0) == Some(point@));
        }
        i += 1;
    }
    proof {
        assert(cols.subrange(n as int, n as int) =~= Seq::<ColumnView>::empty());
    }
    Ok(point)
}

/// The model of the pull machine's state.
pub ghost enum StreamView {
    Draining(BatchView, int),
    Awaiting,
}

#[derive(Debug)]
enum StreamState {
    Draining(ColumnarBatch, usize),
    Awaiting,
}

/// The two-state pull machine over buffered columnar batches.  In
/// `Draining` it holds a batch and a row cursor and yields one decoded
/// point per step; once the cursor reaches the row count it returns to
/// `Awaiting`, where the caller must supply the next batch from its
/// source (or stop, when the source is exhausted).  Suspension on the
/// source happens only at that edge, never mid-row.
#[derive(Debug)]
pub struct PointStream {
    state: StreamState,
}

impl View for PointStream {
    type V = StreamView;

    closed spec fn view(&self) -> StreamView {
        match self.state {
            StreamState::Draining(b, i) => StreamView::Draining(b@, i as int),
            StreamState::Awaiting => StreamView::Awaiting,
        }
    }
}

impl PointStream {
    /// A fresh stream, awaiting its first batch.
    pub fn new() -> (r: PointStream)
        ensures
            r@ is Awaiting,
    {
        PointStream { state: StreamState::Awaiting }
    }

    /// True when the stream needs the next batch before it can yield.
    pub fn is_awaiting(&self) -> (r: bool)
        ensures
            r == (self@ is Awaiting),
    {
        match &self.state {
            StreamState::Awaiting => true,
            StreamState::Draining(_, _) => false,
        }
    }

    /// Buffers the next batch and resets the cursor.
    pub fn accept_batch(&mut self, batch: ColumnarBatch)
        requires
            old(self)@ is Awaiting,
        ensures
            final(self)@ == StreamView::Draining(batch@, 0),
    {
        self.state = StreamState::Draining(batch, 0);
    }

    /// Yields the next buffered row's point, or the row's error, and
    /// advances the cursor; consuming the last row returns the stream to
    /// `Awaiting`.  Yields nothing when no buffered row is left: the
    /// caller must then pull the next batch from its source.
    pub fn next_buffered(&mut self) -> (r: Option<Result<Point, InfluxDBError>>)
        ensures
            match old(self)@ {
                StreamView::Awaiting => r is None && final(self)@ is Awaiting,
                StreamView::Draining(b, i) => {
                    if i < b.num_rows {
                        (r matches Some(res) && spec_row_result(b, i, res)) && (final(self)@ == (
                        if i + 1 < b.num_rows {
                            StreamView::Draining(b, i + 1)
                        } else {
                            StreamView::Awaiting
                        }))
                    } else {
                        r is None && final(self)@ is Awaiting
                    }
                },
            },
    {
        let mut state = StreamState::Awaiting;
        std::mem::swap(&mut state, &mut self.state);
        match state {
            StreamState::Awaiting => None,
            StreamState::Draining(batch, i) => {
                if i < batch.num_rows() {
                    let result = get_point(&batch, i);
                    if i + 1 < batch.num_rows() {
                        self.state = StreamState::Draining(batch, i + 1);
                    }
                    Some(result)
                } else {
                    None
                }
            },
        }
    }
}

} // verus!
