//! The schema-mapping builder: a record type's annotated field list is
//! validated once, then drives the two conversions between typed records
//! and points.  Validation failures are fatal before any conversion runs,
//! mirroring generation-time errors.

use vstd::prelude::*;
use vstd::string::StringExecFns;

use crate::error::InfluxDBError;
use crate::error::SchemaError;
use crate::point::Point;
use crate::point::PointView;
use crate::point::spec_fmap_get;
use crate::point_stream::spec_set_field_routed;
use crate::point_value::PointValue;
use crate::point_value::ValueView;
use crate::tag_name::spec_tmap_get;
use crate::tag_name::spec_tmap_insert;
use crate::tag_name::valid_tag_text;
use crate::util::spec_to_snake_case;
use crate::util::to_snake_case;

verus! {

/// The role a record field plays on the point.
#[derive(Debug, Clone, Copy, PartialEq, Eq, Structural)]
pub enum FieldType {
    Time,
    Tag,
    Field,
}

/// One record field as its annotations describe it: the field name, the
/// role markers, an optional rename, and the use-default and ignore
/// markers.
#[derive(Debug)]
pub struct FieldDef {
    /// The record field's name.
    pub name: String,
    /// Marked as the time field.
    pub is_time: bool,
    /// Marked as a tag.
    pub is_tag: bool,
    /// The point-side name to use instead of the field name.
    pub rename: Option<String>,
    /// Substitute a default value when absent from the point.
    pub use_default: bool,
    /// Never read from or written to the point.
    pub ignore: bool,
}

/// The model of one annotated field.
pub ghost struct FieldDefView {
    pub name: Seq<char>,
    pub is_time: bool,
    pub is_tag: bool,
    pub rename: Option<Seq<char>>,
    pub use_default: bool,
    pub ignore: bool,
}

impl View for FieldDef {
    type V = FieldDefView;

    open spec fn view(&self) -> FieldDefView {
        FieldDefView {
            name: self.name@,
            is_time: self.is_time,
            is_tag: self.is_tag,
            rename: match self.rename {
                Option::None => None,
                Option::Some(s) => Some(s@),
            },
            use_default: self.use_default,
            ignore: self.ignore,
        }
    }
}

/// The model of an annotated field list.
pub open spec fn spec_defs_view(v: Seq<FieldDef>) -> Seq<FieldDefView> {
    v.map_values(|d: FieldDef| d@)
}

/// One record field with its role resolved.
#[derive(Debug)]
pub struct FieldInfo {
    /// The record field's name.
    pub name: String,
    /// The resolved role.
    pub field_type: FieldType,
    /// The point-side name to use instead of the field name.
    pub rename: Option<String>,
    /// Substitute a default value when absent from the point.
    pub use_default: bool,
    /// Never read from or written to the point.
    pub ignore: bool,
}

/// The model of one resolved field.
pub ghost struct FieldInfoView {
    pub name: Seq<char>,
    pub field_type: FieldType,
    pub rename: Option<Seq<char>>,
    pub use_default: bool,
    pub ignore: bool,
}

impl View for FieldInfo {
    type V = FieldInfoView;

    open spec fn view(&self) -> FieldInfoView {
        FieldInfoView {
            name: self.name@,
            field_type: self.field_type,
            rename: match self.rename {
                Option::None => None,
                Option::Some(s) => Some(s@),
            },
            use_default: self.use_default,
            ignore: self.ignore,
        }
    }
}

/// The model of a resolved field list.
pub open spec fn spec_infos_view(v: Seq<FieldInfo>) -> Seq<FieldInfoView> {
    v.map_values(|f: FieldInfo| f@)
}

/// The point-side name of a field: its rename when present, else the
/// record field's own name.
pub open spec fn spec_effective_name(f: FieldInfoView) -> Seq<char> {
    match f.rename {
        Some(r) => r,
        None => f.name,
    }
}

/// A validation failure while resolving an annotated field list.
pub ghost enum SchemaIssue {
    MultipleTime,
    IgnoredTagOrTime(Seq<char>),
}

/// The resolved role of one annotated field: an explicit time marker
/// wins, then an explicit tag marker, then the reserved name `time`;
/// everything else is a plain field.
pub open spec fn spec_resolve_field(d: FieldDefView) -> FieldInfoView {
    FieldInfoView {
        name: d.name,
        field_type: if d.is_time {
            FieldType::Time
        } else if d.is_tag {
            FieldType::Tag
        } else if d.name == "time"@ {
            FieldType::Time
        } else {
            FieldType::Field
        },
        rename: d.rename,
        use_default: d.use_default,
        ignore: d.ignore,
    }
}

/// How many time designations one field contributes: one for the
/// reserved name `time`, one for an explicit time marker.
pub open spec fn spec_time_increment(d: FieldDefView) -> int {
    (if d.name == "time"@ {
        1int
    } else {
        0int
    }) + (if d.is_time {
        1int
    } else {
        0int
    })
}

/// Resolves an annotated field list, given how many time designations
/// were seen before it.  An ignored field marked tag or time is rejected;
/// so is a second time designation.
pub open spec fn spec_parse_fields_from(defs: Seq<FieldDefView>, count: int) -> Result<
    Seq<FieldInfoView>,
    SchemaIssue,
>
    decreases defs.len(),
{
    if defs.len() == 0 {
        Ok(Seq::empty())
    } else {
        let d = defs[0];
        let count1 = count + spec_time_increment(d);
        if d.ignore && (d.is_tag || d.is_time) {
            Err(SchemaIssue::IgnoredTagOrTime(d.name))
        } else {
            let info = spec_resolve_field(d);
            if info.field_type == FieldType::Time && count1 > 1 {
                Err(SchemaIssue::MultipleTime)
            } else {
                match spec_parse_fields_from(defs.drop_first(), count1) {
                    Ok(rest) => Ok(seq![info] + rest),
                    Err(e) => Err(e),
                }
            }
        }
    }
}

/// Resolves an annotated field list.
pub open spec fn spec_parse_fields(defs: Seq<FieldDefView>) -> Result<
    Seq<FieldInfoView>,
    SchemaIssue,
> {
    spec_parse_fields_from(defs, 0)
}

/// Resolves an annotated field list, validating its annotations: exactly
/// one field may be designated as the time field (by the name `time` or
/// an explicit marker), and an ignored field cannot also be a tag or the
/// time field.
pub fn parse_fields(defs: &Vec<FieldDef>) -> (r: Result<Vec<FieldInfo>, SchemaError>)
    ensures
        match spec_parse_fields(spec_defs_view(defs@)) {
            Ok(infos) => r matches Ok(v) && spec_infos_view(v@) == infos,
            Err(SchemaIssue::MultipleTime) => r matches Err(SchemaError::MultipleTimeFields),
            Err(SchemaIssue::IgnoredTagOrTime(n)) => r matches Err(
                SchemaError::IgnoredFieldTagOrTime(s),
            ) && s@ == n,
        },
{
    let ghost all = spec_defs_view(defs@);
    let mut out: Vec<FieldInfo> = Vec::new();
    let mut count: usize = 0;
    let ghost mut gcount: int = 0;
    let n = defs.len();
    proof {
        assert(all.subrange(0, n as int) =~= all);
        assert(spec_infos_view(out@) =~= Seq::<FieldInfoView>::empty());
    }
    let mut i: usize = 0;
    while i < n
        invariant
            n == all.len(),
            i <= n,
            all == spec_defs_view(defs@),
            count <= 2,
            count as int == (if gcount <= 2 {
                gcount
            } else {
                2int
            }),
            match spec_parse_fields_from(all.subrange(i as int, n as int), gcount) {
                Ok(tail) => spec_parse_fields(all) == Ok::<Seq<FieldInfoView>, SchemaIssue>(
                    spec_infos_view(out@) + tail,
                ),
                Err(e) => spec_parse_fields(all) == Err::<Seq<FieldInfoView>, SchemaIssue>(e),
            },
        decreases n - i,
    {
        let d = &defs[i];
        proof {
            assert(all[i as int] == d@);
            assert(all.subrange(i as int, n as int)[0] == all[i as int]);
            assert(all.subrange(i as int, n as int).drop_first() =~= all.subrange(
                i as int + 1,
                n as int,
            ));
        }
        let name_is_time = crate::util::str_eq(d.name.as_str(), "time");
        let inc: usize = (if name_is_time {
            1
        } else {
            0
        }) + (if d.is_time {
            1
        } else {
            0
        });
        let ghost gcount1 = gcount + spec_time_increment(all[i as int]);
        count = count + inc;
        if count > 2 {
            count = 2;
        }
        proof {
            assert(inc as int == spec_time_increment(all[i as int]));
            assert(count as int == (if gcount1 <= 2 {
                gcount1
            } else {
                2int
            }));
        }
        if d.ignore && (d.is_tag || d.is_time) {
            proof {
                assert(spec_parse_fields_from(all.subrange(i as int, n as int), gcount)
                    == Err::<Seq<FieldInfoView>, SchemaIssue>(
                    SchemaIssue::IgnoredTagOrTime(all[i as int].name),
                ));
            }
            return Err(SchemaError::IgnoredFieldTagOrTime(d.name.clone()));
        }
        let field_type = if d.is_time {
            FieldType::Time
        } else if d.is_tag {
            FieldType::Tag
        } else if name_is_time {
            FieldType::Time
        } else {
            FieldType::Field
        };
        let is_time_type = match field_type {
            FieldType::Time => true,
            _ => false,
        };
        if is_time_type && count > 1 {
            proof {
                assert(gcount1 > 1);
                assert(spec_parse_fields_from(all.subrange(i as int, n as int), gcount)
                    == Err::<Seq<FieldInfoView>, SchemaIssue>(SchemaIssue::MultipleTime));
            }
            return Err(SchemaError::MultipleTimeFields);
        }
        let rename = match &d.rename {
            Some(s) => Some(s.clone()),
            None => None,
        };
        let info = FieldInfo {
            name: d.name.clone(),
            field_type,
            rename,
            use_default: d.use_default,
            ignore: d.ignore,
        };
        proof {
            assert(info@ == spec_resolve_field(all[i as int]));
        }
        let ghost outv0 = spec_infos_view(out@);
        out.push(info);
        proof {
            let d0 = all[i as int];
            let r0 = spec_resolve_field(d0);
            assert(!(d0.ignore && (d0.is_tag || d0.is_time)));
            assert((count > 1) == (gcount1 > 1));
            assert(!(r0.field_type == FieldType::Time && gcount1 > 1));
            assert(spec_infos_view(out@) =~= outv0.push(r0));
            match spec_parse_fields_from(all.subrange(i as int + 1, n as int), gcount1) {
                Ok(tail) => {
                    assert(spec_parse_fields_from(all.subrange(i as int, n as int), gcount)
                        == Ok::<Seq<FieldInfoView>, SchemaIssue>(seq![r0] + tail));
                    assert(outv0.push(r0) + tail =~= outv0 + (seq![r0] + tail));
                },
                Err(e) => {
                    assert(spec_parse_fields_from(all.subrange(i as int, n as int), gcount)
                        == Err::<Seq<FieldInfoView>, SchemaIssue>(e));
                },
            }
            gcount = gcount1;
        }
        i += 1;
    }
    proof {
        assert(all.subrange(n as int, n as int) =~= Seq::<FieldDefView>::empty());
        assert(spec_infos_view(out@) + Seq::<FieldInfoView>::empty() =~= spec_infos_view(out@));
    }
    Ok(out)
}

/// A record type's description: its type name, an optional measurement
/// override, and its annotated fields.
#[derive(Debug)]
pub struct StructDef {
    /// The record type's name.
    pub name: String,
    /// The measurement name override.
    pub measurement: Option<String>,
    /// The annotated fields.
    pub fields: Vec<FieldDef>,
}

/// A validated record description: the measurement its points carry and
/// the resolved fields.
#[derive(Debug)]
pub struct StructInfo {
    /// The measurement name: the override, or the type name in snake case.
    pub measurement: String,
    /// The resolved fields.
    pub fields: Vec<FieldInfo>,
}

/// Resolves a record description: the measurement is the override when
/// given, else the snake-case rendering of the type name, and the fields
/// are validated as `parse_fields` does.
pub fn parse_struct(def: StructDef) -> (r: Result<StructInfo, SchemaError>)
    ensures
        ({
            let m = match def.measurement {
                Option::None => spec_to_snake_case(def.name@),
                Option::Some(s) => s@,
            };
            match spec_parse_fields(spec_defs_view(def.fields@)) {
                Ok(infos) => r matches Ok(si) && spec_infos_view(si.fields@) == infos
                    && si.measurement@ == m,
                Err(SchemaIssue::MultipleTime) => r matches Err(SchemaError::MultipleTimeFields),
                Err(SchemaIssue::IgnoredTagOrTime(n)) => r matches Err(
                    SchemaError::IgnoredFieldTagOrTime(s),
                ) && s@ == n,
            }
        }),
{
    let measurement = match def.measurement {
        Some(m) => m,
        None => to_snake_case(def.name.as_str()),
    };
    match parse_fields(&def.fields) {
        Ok(fields) => Ok(StructInfo { measurement, fields }),
        Err(e) => Err(e),
    }
}

/// The first ignored field that is not also marked use-default.
pub open spec fn spec_first_bad_ignore(fs: Seq<FieldInfoView>) -> Option<Seq<char>>
    decreases fs.len(),
{
    if fs.len() == 0 {
        None
    } else if fs[0].ignore && !fs[0].use_default {
        Some(fs[0].name)
    } else {
        spec_first_bad_ignore(fs.drop_first())
    }
}

/// True when some field is the time field.
pub open spec fn spec_has_time(fs: Seq<FieldInfoView>) -> bool {
    exists|i: int| 0 <= i < fs.len() && (#[trigger] fs[i]).field_type == FieldType::Time
}

proof fn lemma_first_bad_ignore_at(fs: Seq<FieldInfoView>, i: int)
    requires
        0 <= i < fs.len(),
        fs[i].ignore && !fs[i].use_default,
        forall|j: int| 0 <= j < i ==> !((#[trigger] fs[j]).ignore && !fs[j].use_default),
    ensures
        spec_first_bad_ignore(fs) == Some(fs[i].name),
    decreases i,
{
    if i > 0 {
        lemma_first_bad_ignore_at(fs.drop_first(), i - 1);
    }
}

proof fn lemma_first_bad_ignore_none(fs: Seq<FieldInfoView>)
    requires
        forall|j: int| 0 <= j < fs.len() ==> !((#[trigger] fs[j]).ignore && !fs[j].use_default),
    ensures
        spec_first_bad_ignore(fs) is None,
    decreases fs.len(),
{
    if fs.len() > 0 {
        lemma_first_bad_ignore_none(fs.drop_first());
    }
}

/// Checks the validations the point-to-record conversion adds: every
/// ignored field must also be marked use-default, and the record must
/// designate a time field.
pub fn validate_from_point(schema: &StructInfo) -> (r: Result<(), SchemaError>)
    ensures
        ({
            let fs = spec_infos_view(schema.fields@);
            match spec_first_bad_ignore(fs) {
                Some(n) => r matches Err(SchemaError::IgnoredFieldNotDefault(s)) && s@ == n,
                None => {
                    if spec_has_time(fs) {
                        r matches Ok(u)
                    } else {
                        r matches Err(SchemaError::MissingTimeField)
                    }
                },
            }
        }),
{
    let ghost fs = spec_infos_view(schema.fields@);
    let n = schema.fields.len();
    let mut i: usize = 0;
    while i < n
        invariant
            n == schema.fields@.len(),
            i <= n,
            fs == spec_infos_view(schema.fields@),
            forall|j: int| 0 <= j < i ==> !((#[trigger] fs[j]).ignore && !fs[j].use_default),
        decreases n - i,
    {
        let f = &schema.fields[i];
        if f.ignore && !f.use_default {
            proof {
                lemma_first_bad_ignore_at(fs, i as int);
            }
            return Err(SchemaError::IgnoredFieldNotDefault(f.name.clone()));
        }
        i += 1;
    }
    proof {
        lemma_first_bad_ignore_none(fs);
    }
    let mut i: usize = 0;
    while i < n
        invariant
            n == schema.fields@.len(),
            i <= n,
            fs == spec_infos_view(schema.fields@),
            spec_first_bad_ignore(fs) is None,
            forall|j: int| 0 <= j < i ==> (#[trigger] fs[j]).field_type != FieldType::Time,
        decreases n - i,
    {
        let is_time = match schema.fields[i].field_type {
            FieldType::Time => true,
            _ => false,
        };
        if is_time {
            proof {
                assert(fs[i as int].field_type == FieldType::Time);
            }
            return Ok(());
        }
        i += 1;
    }
    Err(SchemaError::MissingTimeField)
}

/// What one record field carries into or out of a conversion: the time
/// instant, a tag's text, a field's tagged value, or a type-default
/// placeholder for an absent defaulted field.
#[derive(Debug)]
pub enum RecordValue {
    Time(i64),
    Tag(String),
    Field(PointValue),
    Default,
}

/// The model of one record value.
pub ghost enum RecordValueView {
    Time(i64),
    Tag(Seq<char>),
    Field(ValueView),
    Default,
}

impl View for RecordValue {
    type V = RecordValueView;

    open spec fn view(&self) -> RecordValueView {
        match self {
            RecordValue::Time(t) => RecordValueView::Time(*t),
            RecordValue::Tag(s) => RecordValueView::Tag(s@),
            RecordValue::Field(v) => RecordValueView::Field(v@),
            RecordValue::Default => RecordValueView::Default,
        }
    }
}

/// The model of a record value list.
pub open spec fn spec_record_values_view(v: Seq<RecordValue>) -> Seq<RecordValueView> {
    v.map_values(|x: RecordValue| x@)
}

/// True when the values line up with the fields: one value per field,
/// each of the kind its field's role calls for.
pub open spec fn spec_values_match_fields(
    fs: Seq<FieldInfoView>,
    vs: Seq<RecordValueView>,
) -> bool {
    &&& vs.len() == fs.len()
    &&& forall|i: int|
        0 <= i < fs.len() ==> match (#[trigger] fs[i]).field_type {
            FieldType::Time => vs[i] is Time,
            FieldType::Tag => vs[i] is Tag,
            FieldType::Field => vs[i] is Field,
        }
}

/// The record-to-point fold from one intermediate point: each non-ignored
/// field sets the time, a tag (failing on a tag name the validator
/// rejects) or a field (silently dropped on a rejected name).  Returns
/// the point and whether some field set the time.
pub open spec fn spec_record_to_point_from(
    fs: Seq<FieldInfoView>,
    vs: Seq<RecordValueView>,
    acc: PointView,
    has_time: bool,
) -> Result<(PointView, bool), Seq<char>>
    decreases fs.len(),
{
    if fs.len() == 0 {
        Ok((acc, has_time))
    } else {
        let f = fs[0];
        let name = spec_effective_name(f);
        let next: Option<(PointView, bool)> = if f.ignore {
            Some((acc, has_time))
        } else {
            match f.field_type {
                FieldType::Time => match vs[0] {
                    RecordValueView::Time(t) => Some((PointView { time: t, ..acc }, true)),
                    _ => Some((acc, has_time)),
                },
                FieldType::Tag => match vs[0] {
                    RecordValueView::Tag(s) => if valid_tag_text(name) {
                        Some(
                            (PointView { tags: spec_tmap_insert(acc.tags, name, s), ..acc }, has_time),
                        )
                    } else {
                        None
                    },
                    _ => Some((acc, has_time)),
                },
                FieldType::Field => match vs[0] {
                    RecordValueView::Field(w) => Some(
                        (spec_set_field_routed(acc, name, w), has_time),
                    ),
                    _ => Some((acc, has_time)),
                },
            }
        };
        match next {
            None => Err(name),
            Some((acc2, ht2)) => spec_record_to_point_from(
                fs.drop_first(),
                vs.drop_first(),
                acc2,
                ht2,
            ),
        }
    }
}

/// The point a record converts to: the schema's measurement, then each
/// field folded in order; the error is the rejected tag name, if any.
pub open spec fn spec_record_to_point(
    measurement: Seq<char>,
    fs: Seq<FieldInfoView>,
    vs: Seq<RecordValueView>,
) -> Result<(PointView, bool), Seq<char>> {
    spec_record_to_point_from(
        fs,
        vs,
        PointView { measurement, tags: Seq::empty(), fields: Seq::empty(), time: 0 },
        false,
    )
}

/// Converts a record's values into a point under a schema: the
/// measurement is the schema's, each non-ignored field lands as its role
/// directs, and when no field sets the time the point keeps the current
/// time it was created with.  An invalid tag name is rejected with a
/// typed error.
pub fn record_to_point(schema: &StructInfo, values: &Vec<RecordValue>) -> (r: Result<
    Point,
    InfluxDBError,
>)
    requires
        spec_values_match_fields(
            spec_infos_view(schema.fields@),
            spec_record_values_view(values@),
        ),
    ensures
        ({
            let fs = spec_infos_view(schema.fields@);
            let vs = spec_record_values_view(values@);
            match spec_record_to_point(schema.measurement@, fs, vs) {
                Ok((p, ht)) => r matches Ok(pt) && pt@.measurement == p.measurement && pt@.tags
                    == p.tags && pt@.fields == p.fields && (ht ==> pt@.time == p.time),
                Err(name) => r matches Err(InfluxDBError::InvalidTagName(s)) && s@ == name,
            }
        }),
{
    let ghost fs = spec_infos_view(schema.fields@);
    let ghost vs = spec_record_values_view(values@);
    let mut point = Point::new_with_measurement(schema.measurement.as_str());
    let ghost mut acc = PointView {
        measurement: schema.measurement@,
        tags: Seq::empty(),
        fields: Seq::empty(),
        time: 0,
    };
    let ghost mut ht = false;
    let n = schema.fields.len();
    proof {
        assert(point@.tags =~= acc.tags);
        assert(point@.fields =~= acc.fields);
        assert(fs.subrange(0, n as int) =~= fs);
        assert(vs.subrange(0, n as int) =~= vs);
    }
    let mut i: usize = 0;
    while i < n
        invariant
            n == fs.len(),
            i <= n,
            fs == spec_infos_view(schema.fields@),
            vs == spec_record_values_view(values@),
            spec_values_match_fields(fs, vs),
            point@.measurement == acc.measurement,
            point@.tags == acc.tags,
            point@.fields == acc.fields,
            ht ==> point@.time == acc.time,
            spec_record_to_point_from(
                fs.subrange(i as int, n as int),
                vs.subrange(i as int, n as int),
                acc,
                ht,
            ) == spec_record_to_point(schema.measurement@, fs, vs),
        decreases n - i,
    {
        let f = &schema.fields[i];
        let v = &values[i];
        proof {
            assert(fs.subrange(i as int, n as int)[0] == fs[i as int]);
            assert(vs.subrange(i as int, n as int)[0] == vs[i as int]);
            assert(fs.subrange(i as int, n as int).drop_first() =~= fs.subrange(
                i as int + 1,
                n as int,
            ));
            assert(vs.subrange(i as int, n as int).drop_first() =~= vs.subrange(
                i as int + 1,
                n as int,
            ));
        }
        if !f.ignore {
            let name = match &f.rename {
                Some(rn) => rn.as_str(),
                None => f.name.as_str(),
            };
            proof {
                assert(name@ == spec_effective_name(fs[i as int]));
            }
            match f.field_type {
                FieldType::Time => {
                    match v {
                        RecordValue::Time(t) => {
                            point.set_timestamp(*t);
                            proof {
                                acc = PointView { time: *t, ..acc };
                                ht = true;
                            }
                        },
                        _ => {},
                    }
                },
                FieldType::Tag => {
                    match v {
                        RecordValue::Tag(s) => {
                            match point.set_tag(name, s.as_str()) {
                                Ok(_) => {
                                    proof {
                                        acc = PointView {
                                            tags: spec_tmap_insert(acc.tags, name@, s@),
                                            ..acc
                                        };
                                    }
                                },
                                Err(e) => {
                                    return Err(e);
                                },
                            }
                        },
                        _ => {},
                    }
                },
                FieldType::Field => {
                    match v {
                        RecordValue::Field(w) => {
                            point.set_field(name, w.clone());
                            proof {
                                acc = spec_set_field_routed(acc, name@, w@);
                            }
                        },
                        _ => {},
                    }
                },
            }
        }
        i += 1;
    }
    proof {
        assert(fs.subrange(n as int, n as int) =~= Seq::<FieldInfoView>::empty());
        assert(vs.subrange(n as int, n as int) =~= Seq::<RecordValueView>::empty());
    }
    Ok(point)
}

/// A failure while rebuilding a record from a point.
pub ghost enum ExtractIssue {
    MissingTag(Seq<char>),
    MissingField(Seq<char>),
}

/// The point-to-record fold: the time field reads the point's time; a
/// tag or field is read under its point-side name, substituting the
/// default placeholder when marked use-default and absent, and failing
/// when required and absent; an ignored field is never read at all.
pub open spec fn spec_point_to_record_from(fs: Seq<FieldInfoView>, p: PointView) -> Result<
    Seq<RecordValueView>,
    ExtractIssue,
>
    decreases fs.len(),
{
    if fs.len() == 0 {
        Ok(Seq::empty())
    } else {
        let f = fs[0];
        let name = spec_effective_name(f);
        let item: Result<RecordValueView, ExtractIssue> = match f.field_type {
            FieldType::Time => Ok(RecordValueView::Time(p.time)),
            FieldType::Tag => if f.ignore {
                Ok(RecordValueView::Default)
            } else {
                match spec_tmap_get(p.tags, name) {
                    Some(s) => Ok(RecordValueView::Tag(s)),
                    None => if f.use_default {
                        Ok(RecordValueView::Default)
                    } else {
                        Err(ExtractIssue::MissingTag(name))
                    },
                }
            },
            FieldType::Field => if f.ignore {
                Ok(RecordValueView::Default)
            } else {
                match spec_fmap_get(p.fields, name) {
                    Some(v) => Ok(RecordValueView::Field(v)),
                    None => if f.use_default {
                        Ok(RecordValueView::Default)
                    } else {
                        Err(ExtractIssue::MissingField(name))
                    },
                }
            },
        };
        match item {
            Err(e) => Err(e),
            Ok(rv) => match spec_point_to_record_from(fs.drop_first(), p) {
                Ok(rest) => Ok(seq![rv] + rest),
                Err(e) => Err(e),
            },
        }
    }
}

/// Rebuilds a record's values from a point under a schema, with the
/// required-versus-optional split: a field or tag without use-default
/// must be present or the conversion fails naming it; one with
/// use-default substitutes the default placeholder on absence; an
/// ignored field is never read from the point.
pub fn point_to_record(schema: &StructInfo, point: &Point) -> (r: Result<
    Vec<RecordValue>,
    InfluxDBError,
>)
    ensures
        ({
            let fs = spec_infos_view(schema.fields@);
            match spec_point_to_record_from(fs, point@) {
                Ok(vs) => r matches Ok(v) && spec_record_values_view(v@) == vs,
                Err(ExtractIssue::MissingTag(name)) => r matches Err(InfluxDBError::Other(m)) && m@
                    == "Missing required tag: "@ + name,
                Err(ExtractIssue::MissingField(name)) => r matches Err(InfluxDBError::Other(m))
                    && m@ == "Missing required field: "@ + name,
            }
        }),
{
    let ghost fs = spec_infos_view(schema.fields@);
    let mut out: Vec<RecordValue> = Vec::new();
    let n = schema.fields.len();
    proof {
        assert(fs.subrange(0, n as int) =~= fs);
        assert(spec_record_values_view(out@) =~= Seq::<RecordValueView>::empty());
    }
    let mut i: usize = 0;
    while i < n
        invariant
            n == fs.len(),
            i <= n,
            fs == spec_infos_view(schema.fields@),
            match spec_point_to_record_from(fs.subrange(i as int, n as int), point@) {
                Ok(rest) => spec_point_to_record_from(fs, point@) == Ok::<
                    Seq<RecordValueView>,
                    ExtractIssue,
                >(spec_record_values_view(out@) + rest),
                Err(e) => spec_point_to_record_from(fs, point@) == Err::<
                    Seq<RecordValueView>,
                    ExtractIssue,
                >(e),
            },
        decreases n - i,
    {
        let f = &schema.fields[i];
        let name = match &f.rename {
            Some(rn) => rn.as_str(),
            None => f.name.as_str(),
        };
        proof {
            assert(fs.subrange(i as int, n as int)[0] == fs[i as int]);
            assert(fs.subrange(i as int, n as int).drop_first() =~= fs.subrange(
                i as int + 1,
                n as int,
            ));
            assert(name@ == spec_effective_name(fs[i as int]));
        }
        let ghost out0 = spec_record_values_view(out@);
        let rv: RecordValue = match f.field_type {
            FieldType::Time => RecordValue::Time(point.get_timestamp()),
            FieldType::Tag => {
                if f.ignore {
                    RecordValue::Default
                } else {
                    match point.get_tag(name) {
                        Some(s) => RecordValue::Tag(s.clone()),
                        None => {
                            if f.use_default {
                                RecordValue::Default
                            } else {
                                return Err(
                                    InfluxDBError::Other(
                                        String::from_str("Missing required tag: ").concat(name),
                                    ),
                                );
                            }
                        },
                    }
                }
            },
            FieldType::Field => {
                if f.ignore {
                    RecordValue::Default
                } else {
                    match point.get_field_value(name) {
                        Some(v) => RecordValue::Field(v.clone()),
                        None => {
                            if f.use_default {
                                RecordValue::Default
                            } else {
                                return Err(
                                    InfluxDBError::Other(
                                        String::from_str("Missing required field: ").concat(name),
                                    ),
                                );
                            }
                        },
                    }
                }
            },
        };
        out.push(rv);
        proof {
            match spec_point_to_record_from(fs.subrange(i as int + 1, n as int), point@) {
                Ok(rest) => {
                    assert(spec_record_values_view(out@) =~= out0.push(
                        spec_record_values_view(out@)[out@.len() - 1],
                    ));
                    assert(out0 + (seq![spec_record_values_view(out@)[out@.len() - 1]] + rest)
                        =~= spec_record_values_view(out@) + rest);
                },
                Err(e) => {},
            }
        }
        i += 1;
    }
    proof {
        assert(fs.subrange(n as int, n as int) =~= Seq::<FieldInfoView>::empty());
        assert(spec_record_values_view(out@) + Seq::<RecordValueView>::empty()
            =~= spec_record_values_view(out@));
    }
    Ok(out)
}

} // verus!
