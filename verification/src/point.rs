//! The point entity: measurement name, tag map, field mapping and
//! timestamp, with its line-protocol serializer.

use vstd::prelude::*;
use vstd::string::StringExecFns;
use vstd::string::StringSliceAdditionalSpecFns;
use vstd::utf8::encode_utf8;

use crate::error::InfluxDBError;
use crate::num::push_i64_dec;
use crate::num::spec_i64_dec;
use crate::options::spec_process_timestamp;
use crate::options::TimestampPrecision;
use crate::point_value::Decode;
use crate::point_value::Encode;
use crate::point_value::PointValue;
use crate::point_value::spec_value_bytes;
use crate::point_value::ValueView;
use crate::tag_name::TagMap;
use crate::tag_name::TagName;
use crate::util::spec_valid_name;
use crate::util::str_eq;
use crate::util::validate_name;

verus! {

/// The mathematical model of a point.
pub ghost struct PointView {
    pub measurement: Seq<char>,
    pub tags: Seq<(Seq<char>, Seq<char>)>,
    pub fields: Seq<(Seq<char>, ValueView)>,
    pub time: i64,
}

/// The model of a field list, keyed by field name.
pub open spec fn spec_fields_view(v: Seq<(String, PointValue)>) -> Seq<(Seq<char>, ValueView)> {
    v.map_values(|e: (String, PointValue)| (e.0@, e.1@))
}

/// True when no two fields share a name.
pub open spec fn spec_fields_wf(m: Seq<(Seq<char>, ValueView)>) -> bool {
    forall|i: int, j: int|
        0 <= i < m.len() && 0 <= j < m.len() && i != j ==> (#[trigger] m[i]).0 != (
        #[trigger] m[j]).0
}

/// The value under a name: the first entry whose name matches.
pub open spec fn spec_fmap_get(m: Seq<(Seq<char>, ValueView)>, k: Seq<char>) -> Option<ValueView>
    decreases m.len(),
{
    if m.len() == 0 {
        None
    } else if m[0].0 == k {
        Some(m[0].1)
    } else {
        spec_fmap_get(m.drop_first(), k)
    }
}

/// The mapping with `v` under `k`: an entry with the same name is replaced
/// in place, a new name is appended.
pub open spec fn spec_fmap_insert(
    m: Seq<(Seq<char>, ValueView)>,
    k: Seq<char>,
    v: ValueView,
) -> Seq<(Seq<char>, ValueView)>
    decreases m.len(),
{
    if m.len() == 0 {
        seq![(k, v)]
    } else if m[0].0 == k {
        seq![(k, v)] + m.drop_first()
    } else {
        seq![m[0]] + spec_fmap_insert(m.drop_first(), k, v)
    }
}

/// The mapping without the entry under `k`, if any.
pub open spec fn spec_fmap_remove(m: Seq<(Seq<char>, ValueView)>, k: Seq<char>) -> Seq<
    (Seq<char>, ValueView),
>
    decreases m.len(),
{
    if m.len() == 0 {
        m
    } else if m[0].0 == k {
        m.drop_first()
    } else {
        seq![m[0]] + spec_fmap_remove(m.drop_first(), k)
    }
}

proof fn lemma_fmap_get_at(m: Seq<(Seq<char>, ValueView)>, k: Seq<char>, i: int)
    requires
        0 <= i < m.len(),
        m[i].0 == k,
        forall|j: int| 0 <= j < i ==> (#[trigger] m[j]).0 != k,
    ensures
        spec_fmap_get(m, k) == Some(m[i].1),
    decreases i,
{
    if i > 0 {
        lemma_fmap_get_at(m.drop_first(), k, i - 1);
    }
}

proof fn lemma_fmap_get_none(m: Seq<(Seq<char>, ValueView)>, k: Seq<char>)
    requires
        forall|j: int| 0 <= j < m.len() ==> (#[trigger] m[j]).0 != k,
    ensures
        spec_fmap_get(m, k) is None,
    decreases m.len(),
{
    if m.len() > 0 {
        lemma_fmap_get_none(m.drop_first(), k);
    }
}

proof fn lemma_fmap_insert_at(m: Seq<(Seq<char>, ValueView)>, k: Seq<char>, v: ValueView, i: int)
    requires
        0 <= i < m.len(),
        m[i].0 == k,
        forall|j: int| 0 <= j < i ==> (#[trigger] m[j]).0 != k,
    ensures
        spec_fmap_insert(m, k, v) == m.update(i, (k, v)),
    decreases i,
{
    if i == 0 {
        assert(seq![(k, v)] + m.drop_first() =~= m.update(0, (k, v)));
    } else {
        lemma_fmap_insert_at(m.drop_first(), k, v, i - 1);
        assert(seq![m[0]] + m.drop_first().update(i - 1, (k, v)) =~= m.update(i, (k, v)));
    }
}

proof fn lemma_fmap_insert_none(m: Seq<(Seq<char>, ValueView)>, k: Seq<char>, v: ValueView)
    requires
        forall|j: int| 0 <= j < m.len() ==> (#[trigger] m[j]).0 != k,
    ensures
        spec_fmap_insert(m, k, v) == m.push((k, v)),
    decreases m.len(),
{
    if m.len() == 0 {
        assert(seq![(k, v)] =~= m.push((k, v)));
    } else {
        lemma_fmap_insert_none(m.drop_first(), k, v);
        assert(seq![m[0]] + m.drop_first().push((k, v)) =~= m.push((k, v)));
    }
}

proof fn lemma_fmap_remove_at(m: Seq<(Seq<char>, ValueView)>, k: Seq<char>, i: int)
    requires
        0 <= i < m.len(),
        m[i].0 == k,
        forall|j: int| 0 <= j < i ==> (#[trigger] m[j]).0 != k,
    ensures
        spec_fmap_remove(m, k) == m.subrange(0, i) + m.subrange(i + 1, m.len() as int),
    decreases i,
{
    if i == 0 {
        assert(m.drop_first() =~= m.subrange(0, 0) + m.subrange(1, m.len() as int));
    } else {
        lemma_fmap_remove_at(m.drop_first(), k, i - 1);
        assert(seq![m[0]] + (m.drop_first().subrange(0, i - 1) + m.drop_first().subrange(
            i,
            m.len() - 1,
        )) =~= m.subrange(0, i) + m.subrange(i + 1, m.len() as int));
    }
}

proof fn lemma_fmap_remove_none(m: Seq<(Seq<char>, ValueView)>, k: Seq<char>)
    requires
        forall|j: int| 0 <= j < m.len() ==> (#[trigger] m[j]).0 != k,
    ensures
        spec_fmap_remove(m, k) == m,
    decreases m.len(),
{
    if m.len() > 0 {
        lemma_fmap_remove_none(m.drop_first(), k);
        assert(seq![m[0]] + m.drop_first() =~= m);
    }
}

/// Looks up the first entry under a name.
fn fields_find(fields: &Vec<(String, PointValue)>, key: &str) -> (r: Option<usize>)
    ensures
        ({
            let m = spec_fields_view(fields@);
            match r {
                Some(i) => 0 <= i < m.len() && m[i as int].0 == key@ && (forall|j: int|
                    0 <= j < i ==> (#[trigger] m[j]).0 != key@),
                None => forall|j: int| 0 <= j < m.len() ==> (#[trigger] m[j]).0 != key@,
            }
        }),
{
    let n = fields.len();
    let mut i: usize = 0;
    while i < n
        invariant
            n == fields@.len(),
            i <= n,
            forall|j: int|
                0 <= j < i ==> (#[trigger] spec_fields_view(fields@)[j]).0 != key@,
        decreases n - i,
    {
        if str_eq(fields[i].0.as_str(), key) {
            proof {
                assert(spec_fields_view(fields@)[i as int].0 == key@);
            }
            return Some(i);
        }
        i += 1;
    }
    None
}

/// A single write or read unit: a measurement name, indexed tags, valued
/// fields and a nanosecond-resolution timestamp.  Field names are unique;
/// iteration order of tags and fields is their insertion order.
#[derive(Debug)]
pub struct Point {
    measurement_name: String,
    tags: TagMap,
    fields: Vec<(String, PointValue)>,
    time: i64,
}

impl View for Point {
    type V = PointView;

    closed spec fn view(&self) -> PointView {
        PointView {
            measurement: self.measurement_name@,
            tags: self.tags@,
            fields: spec_fields_view(self.fields@),
            time: self.time,
        }
    }
}

impl Clone for Point {
    fn clone(&self) -> (r: Self)
        ensures
            r@ == self@,
    {
        proof {
            use_type_invariant(self);
        }
        let mut fields: Vec<(String, PointValue)> = Vec::new();
        let n = self.fields.len();
        let mut i: usize = 0;
        while i < n
            invariant
                n == self.fields@.len(),
                i <= n,
                fields@.len() == i,
                forall|j: int| 0 <= j < i ==> #[trigger] fields@[j] == self.fields@[j],
                spec_fields_wf(spec_fields_view(self.fields@)),
            decreases n - i,
        {
            let e = &self.fields[i];
            let name = e.0.clone();
            let value = e.1.clone();
            fields.push((name, value));
            i += 1;
        }
        proof {
            assert(fields@ =~= self.fields@);
        }
        Point {
            measurement_name: self.measurement_name.clone(),
            tags: self.tags.clone(),
            fields,
            time: self.time,
        }
    }
}

impl Default for Point {
    /// The empty point: no measurement, no tags, no fields, epoch time.
    fn default() -> (r: Self)
        ensures
            r@ == (PointView {
                measurement: Seq::<char>::empty(),
                tags: Seq::<(Seq<char>, Seq<char>)>::empty(),
                fields: Seq::<(Seq<char>, ValueView)>::empty(),
                time: 0,
            }),
    {
        let r = Point {
            measurement_name: String::new(),
            tags: TagMap::new(),
            fields: Vec::new(),
            time: 0,
        };
        proof {
            assert(r@.fields =~= Seq::<(Seq<char>, ValueView)>::empty());
        }
        r
    }
}

/// Relies on `chrono::Utc::now` with `DateTime::timestamp_nanos_opt`: the
/// current instant as nanoseconds since the Unix epoch, where that count
/// is representable.
#[verifier::external_body]
pub(crate) fn now_nanos() -> Option<i64> {
    chrono::Utc::now().timestamp_nanos_opt()
}

impl Point {
    #[verifier::type_invariant]
    spec fn type_inv(self) -> bool {
        spec_fields_wf(spec_fields_view(self.fields@))
    }

    /// A fresh point with the given measurement name, no tags or fields,
    /// and the current time.
    pub fn new_with_measurement(measurement_name: &str) -> (r: Self)
        ensures
            r@.measurement == measurement_name@,
            r@.tags == Seq::<(Seq<char>, Seq<char>)>::empty(),
            r@.fields == Seq::<(Seq<char>, ValueView)>::empty(),
    {
        let time = match now_nanos() {
            Some(n) => n,
            None => 0,
        };
        Point {
            measurement_name: String::from_str(measurement_name),
            tags: TagMap::new(),
            fields: Vec::new(),
            time,
        }
    }

    /// A point built from its components.  Field pairs are folded in
    /// insertion order: a repeated name overwrites the earlier value.
    pub fn new(
        measurement_name: &str,
        tags: TagMap,
        fields: Vec<(String, PointValue)>,
        timestamp: i64,
    ) -> (r: Self)
        ensures
            r@.measurement == measurement_name@,
            r@.tags == tags@,
            r@.fields == spec_collect_fields(spec_fields_view(fields@)),
            r@.time == timestamp,
    {
        let ghost pairs = spec_fields_view(fields@);
        let mut rest = fields;
        let mut acc: Vec<(String, PointValue)> = Vec::new();
        let n = rest.len();
        let mut i: usize = 0;
        while i < n
            invariant
                n == pairs.len(),
                i <= n,
                spec_fields_view(rest@) == pairs.subrange(i as int, n as int),
                spec_fields_view(acc@) == spec_collect_fields(pairs.subrange(0, i as int)),
                spec_fields_wf(spec_fields_view(acc@)),
            decreases n - i,
        {
            proof {
                assert(spec_fields_view(rest@).len() == rest@.len());
                assert(pairs.subrange(i as int, n as int).len() == n - i);
                assert(spec_fields_view(rest@)[0] == pairs[i as int]);
            }
            let ghost r0 = rest@;
            let e = rest.remove(0);
            proof {
                assert(rest@ =~= r0.drop_first());
                assert forall|j: int| 0 <= j < rest@.len() implies spec_fields_view(rest@)[j]
                    == pairs[i as int + 1 + j] by {
                    assert(rest@[j] == r0[j + 1]);
                    assert(spec_fields_view(r0)[j + 1] == pairs.subrange(i as int, n as int)[j
                        + 1]);
                };
                assert(spec_fields_view(rest@) =~= pairs.subrange(i as int + 1, n as int));
                assert((e.0@, e.1@) == pairs[i as int]);
            }
            fields_insert(&mut acc, e.0, e.1);
            proof {
                assert(pairs.subrange(0, i as int + 1).drop_last() =~= pairs.subrange(0, i as int));
                assert(pairs.subrange(0, i as int + 1).last() == pairs[i as int]);
            }
            i += 1;
        }
        proof {
            assert(pairs.subrange(0, n as int) =~= pairs);
        }
        Point {
            measurement_name: String::from_str(measurement_name),
            tags,
            fields: acc,
            time: timestamp,
        }
    }

    /// The measurement name.
    pub fn get_measurement(&self) -> (r: &str)
        ensures
            r@ == self@.measurement,
    {
        self.measurement_name.as_str()
    }

    /// Replaces the measurement name.
    pub fn set_measurement(&mut self, name: &str)
        ensures
            final(self)@ == (PointView { measurement: name@, ..old(self)@ }),
    {
        proof {
            use_type_invariant(&*self);
        }
        self.measurement_name = String::from_str(name);
    }

    /// The timestamp, as nanoseconds since the Unix epoch.
    pub fn get_timestamp(&self) -> (r: i64)
        ensures
            r == self@.time,
    {
        self.time
    }

    /// Replaces the timestamp, given as nanoseconds since the Unix epoch.
    pub fn set_timestamp(&mut self, nanos: i64)
        ensures
            final(self)@ == (PointView { time: nanos, ..old(self)@ }),
    {
        proof {
            use_type_invariant(&*self);
        }
        self.time = nanos;
    }

    /// Sets a tag.  The name must pass the validator; an invalid name is
    /// rejected with a typed error and the point is unchanged.
    pub fn set_tag(&mut self, key: &str, value: &str) -> (r: Result<(), InfluxDBError>)
        ensures
            ({
                let p = old(self)@;
                if crate::tag_name::valid_tag_text(key@) {
                    r matches Ok(u) && final(self)@ == (PointView {
                        tags: crate::tag_name::spec_tmap_insert(p.tags, key@, value@),
                        ..p
                    })
                } else {
                    (r matches Err(InfluxDBError::InvalidTagName(s)) && s@ == key@) && final(self)@
                        == p
                }
            }),
    {
        proof {
            use_type_invariant(&*self);
        }
        match TagName::try_from(key) {
            Ok(name) => {
                let mut tags = TagMap::new();
                std::mem::swap(&mut tags, &mut self.tags);
                tags.insert(name, String::from_str(value));
                self.tags = tags;
                Ok(())
            },
            Err(e) => Err(e),
        }
    }

    /// The value of a tag, if the name is present.
    pub fn get_tag(&self, key: &str) -> (r: Option<&String>)
        ensures
            match crate::tag_name::spec_tmap_get(self@.tags, key@) {
                Some(v) => r matches Some(s) && s@ == v,
                None => r is None,
            },
    {
        self.tags.get(key)
    }

    /// True when the tag name is present.
    pub fn has_tag(&self, key: &str) -> (r: bool)
        ensures
            r == (crate::tag_name::spec_tmap_get(self@.tags, key@) is Some),
    {
        self.tags.contains_key(key)
    }

    /// Removes a tag, if present.
    pub fn remove_tag(&mut self, key: &str)
        ensures
            final(self)@ == (PointView {
                tags: crate::tag_name::spec_tmap_remove(old(self)@.tags, key@),
                ..old(self)@
            }),
    {
        proof {
            use_type_invariant(&*self);
        }
        let mut tags = TagMap::new();
        std::mem::swap(&mut tags, &mut self.tags);
        tags.remove(key);
        self.tags = tags;
    }

    /// The tag names, in iteration order.
    pub fn get_tag_names(&self) -> (r: Vec<TagName>)
        ensures
            r@.len() == self@.tags.len(),
            forall|j: int| 0 <= j < r@.len() ==> (#[trigger] r@[j])@ == self@.tags[j].0,
    {
        self.tags.keys()
    }

    /// Reads a field through the `Decode` capability.  Returns nothing
    /// when the name is absent; a present value must decode to the
    /// requested type.
    pub fn get_field<T: Decode>(&self, key: &str) -> (r: Result<Option<T>, InfluxDBError>)
        ensures
            match spec_fmap_get(self@.fields, key@) {
                None => r matches Ok(o) && o is None,
                Some(v) => match T::spec_decode(v) {
                    Some(x) => r matches Ok(o) && o matches Some(y) && y.deep_view() == x,
                    None => r is Err,
                },
            },
    {
        match fields_find(&self.fields, key) {
            Some(i) => {
                proof {
                    lemma_fmap_get_at(self@.fields, key@, i as int);
                }
                match T::decode(&self.fields[i].1) {
                    Ok(x) => Ok(Some(x)),
                    Err(e) => Err(e),
                }
            },
            None => {
                proof {
                    lemma_fmap_get_none(self@.fields, key@);
                }
                Ok(None)
            },
        }
    }

    /// The raw tagged value under a field name, if the name is present.
    pub fn get_field_value(&self, key: &str) -> (r: Option<&PointValue>)
        ensures
            match spec_fmap_get(self@.fields, key@) {
                Some(v) => r matches Some(pv) && pv@ == v,
                None => r is None,
            },
    {
        match fields_find(&self.fields, key) {
            Some(i) => {
                proof {
                    lemma_fmap_get_at(self@.fields, key@, i as int);
                }
                Some(&self.fields[i].1)
            },
            None => {
                proof {
                    lemma_fmap_get_none(self@.fields, key@);
                }
                None
            },
        }
    }

    /// Sets a field through the `Encode` capability.  A name the
    /// validator rejects is silently dropped: the point is unchanged and
    /// no error is raised.
    pub fn set_field<T: Encode>(&mut self, key: &str, value: T)
        ensures
            ({
                let p = old(self)@;
                if spec_valid_name(encode_utf8(key@)) {
                    final(self)@ == (PointView {
                        fields: spec_fmap_insert(
                            p.fields,
                            key@,
                            T::spec_encode(value.deep_view()),
                        ),
                        ..p
                    })
                } else {
                    final(self)@ == p
                }
            }),
    {
        if !validate_name(key) {
            return ;
        }
        let encoded = value.encode();
        proof {
            use_type_invariant(&*self);
        }
        let mut fields: Vec<(String, PointValue)> = Vec::new();
        std::mem::swap(&mut fields, &mut self.fields);
        fields_insert(&mut fields, String::from_str(key), encoded);
        self.fields = fields;
    }

    /// Removes a field, if present.
    pub fn remove_field(&mut self, key: &str)
        ensures
            final(self)@ == (PointView {
                fields: spec_fmap_remove(old(self)@.fields, key@),
                ..old(self)@
            }),
    {
        proof {
            use_type_invariant(&*self);
        }
        let mut fields: Vec<(String, PointValue)> = Vec::new();
        std::mem::swap(&mut fields, &mut self.fields);
        fields_remove(&mut fields, key);
        self.fields = fields;
    }

    /// The field names, in iteration order.
    pub fn get_field_names(&self) -> (r: Vec<String>)
        ensures
            r@.len() == self@.fields.len(),
            forall|j: int| 0 <= j < r@.len() ==> (#[trigger] r@[j])@ == self@.fields[j].0,
    {
        let mut out: Vec<String> = Vec::new();
        let n = self.fields.len();
        let mut i: usize = 0;
        while i < n
            invariant
                n == self.fields@.len(),
                i <= n,
                out@.len() == i,
                forall|j: int| 0 <= j < i ==> (#[trigger] out@[j])@ == self@.fields[j].0,
            decreases n - i,
        {
            out.push(self.fields[i].0.clone());
            i += 1;
        }
        out
    }

    /// True when the point has no fields.
    pub fn is_empty(&self) -> (r: bool)
        ensures
            r == (self@.fields.len() == 0),
    {
        self.fields.is_empty()
    }

    /// Appends this point's line-protocol record to a buffer: the
    /// measurement, the default tags then the point's own tags each
    /// prefixed with a comma, a space, the comma-separated fields, a
    /// space, the timestamp at the given precision, and a newline.
    pub fn serialize(&self, buf: &mut Vec<u8>, precision: TimestampPrecision, default_tags: &TagMap)
        ensures
            final(buf)@ == old(buf)@ + spec_point_line(self@, precision, default_tags@),
    {
        buf.extend_from_slice(self.measurement_name.as_str().as_bytes());
        push_tag_entries(buf, default_tags);
        push_tag_entries(buf, &self.tags);
        buf.push(0x20);
        let ghost fs = self@.fields;
        let ghost mid = buf@;
        let n = self.fields.len();
        let mut i: usize = 0;
        while i < n
            invariant
                n == self.fields@.len(),
                i <= n,
                fs == spec_fields_view(self.fields@),
                buf@ == mid + spec_fields_bytes(fs.subrange(0, i as int)),
            decreases n - i,
        {
            if i > 0 {
                buf.push(0x2c);
            }
            buf.extend_from_slice(self.fields[i].0.as_str().as_bytes());
            buf.push(0x3d);
            self.fields[i].1.push_serialized(buf);
            proof {
                let pre = fs.subrange(0, i as int);
                assert(fs.subrange(0, i as int + 1) =~= pre.push(fs[i as int]));
                lemma_fields_bytes_snoc(pre, fs[i as int]);
                assert(buf@ =~= mid + spec_fields_bytes(fs.subrange(0, i as int + 1)));
            }
            i += 1;
        }
        proof {
            assert(fs.subrange(0, n as int) =~= fs);
        }
        buf.push(0x20);
        let ts = precision.process_timestamp(self.time);
        push_i64_dec(buf, ts);
        buf.push(0x0a);
        proof {
            assert(final(buf)@ =~= old(buf)@ + spec_point_line(self@, precision, default_tags@));
        }
    }
}

/// The pairs folded into a field mapping in order: a repeated name
/// overwrites the earlier value.
pub open spec fn spec_collect_fields(pairs: Seq<(Seq<char>, ValueView)>) -> Seq<
    (Seq<char>, ValueView),
>
    decreases pairs.len(),
{
    if pairs.len() == 0 {
        Seq::empty()
    } else {
        spec_fmap_insert(
            spec_collect_fields(pairs.drop_last()),
            pairs.last().0,
            pairs.last().1,
        )
    }
}

/// Sets the value under a name in a field list, keeping names unique.
fn fields_insert(fields: &mut Vec<(String, PointValue)>, key: String, value: PointValue)
    requires
        spec_fields_wf(spec_fields_view(old(fields)@)),
    ensures
        spec_fields_view(final(fields)@) == spec_fmap_insert(
            spec_fields_view(old(fields)@),
            key@,
            value@,
        ),
        spec_fields_wf(spec_fields_view(final(fields)@)),
{
    let ghost m = spec_fields_view(fields@);
    match fields_find(fields, key.as_str()) {
        Some(i) => {
            proof {
                lemma_fmap_insert_at(m, key@, value@, i as int);
            }
            fields.remove(i);
            fields.insert(i, (key, value));
            proof {
                let u = m.update(i as int, (key@, value@));
                assert(spec_fields_view(fields@) =~= u);
                assert forall|a: int| 0 <= a < u.len() implies (#[trigger] u[a]).0 == m[a].0 by {
                    if a == i as int {
                        assert(m[a].0 == key@);
                    }
                };
                assert(spec_fields_wf(u));
            }
        },
        None => {
            proof {
                lemma_fmap_insert_none(m, key@, value@);
            }
            fields.push((key, value));
            proof {
                let u = m.push((key@, value@));
                assert(spec_fields_view(fields@) =~= u);
                assert(forall|a: int| 0 <= a < m.len() ==> #[trigger] u[a] == m[a]);
                assert forall|a: int, b: int|
                    0 <= a < u.len() && 0 <= b < u.len() && a != b implies (#[trigger] u[a]).0 != (
                #[trigger] u[b]).0 by {
                    if a < m.len() && b < m.len() {
                    } else if a < m.len() {
                        assert(u[b].0 == key@ && u[a].0 == m[a].0);
                    } else {
                        assert(u[a].0 == key@ && u[b].0 == m[b].0);
                    }
                };
                assert(spec_fields_wf(u));
            }
        },
    }
}

/// Removes the entry under a name from a field list, if present.
fn fields_remove(fields: &mut Vec<(String, PointValue)>, key: &str)
    requires
        spec_fields_wf(spec_fields_view(old(fields)@)),
    ensures
        spec_fields_view(final(fields)@) == spec_fmap_remove(spec_fields_view(old(fields)@), key@),
        spec_fields_wf(spec_fields_view(final(fields)@)),
{
    let ghost m = spec_fields_view(fields@);
    match fields_find(fields, key) {
        Some(i) => {
            proof {
                lemma_fmap_remove_at(m, key@, i as int);
            }
            fields.remove(i);
            proof {
                let u = m.subrange(0, i as int) + m.subrange(i as int + 1, m.len() as int);
                assert(spec_fields_view(fields@) =~= u);
                assert(forall|a: int|
                    0 <= a < u.len() ==> #[trigger] u[a] == (if a < i as int {
                        m[a]
                    } else {
                        m[a + 1]
                    }));
                assert forall|a: int, b: int|
                    0 <= a < u.len() && 0 <= b < u.len() && a != b implies (#[trigger] u[a]).0 != (
                #[trigger] u[b]).0 by {
                    let a0 = if a < i as int {
                        a
                    } else {
                        a + 1
                    };
                    let b0 = if b < i as int {
                        b
                    } else {
                        b + 1
                    };
                    assert(u[a] == m[a0] && u[b] == m[b0] && a0 != b0);
                };
                assert(spec_fields_wf(u));
            }
        },
        None => {
            proof {
                lemma_fmap_remove_none(m, key@);
            }
        },
    }
}

/// The serialized form of one tag list: each entry as
/// `,name=value`.
pub open spec fn spec_tags_bytes(ts: Seq<(Seq<char>, Seq<char>)>) -> Seq<u8>
    decreases ts.len(),
{
    if ts.len() == 0 {
        Seq::empty()
    } else {
        seq![0x2cu8] + encode_utf8(ts[0].0) + seq![0x3du8] + encode_utf8(ts[0].1)
            + spec_tags_bytes(ts.drop_first())
    }
}

/// The serialized form of one field entry: `name=value`.
pub open spec fn spec_field_one(f: (Seq<char>, ValueView)) -> Seq<u8> {
    encode_utf8(f.0) + seq![0x3du8] + spec_value_bytes(f.1)
}

/// The serialized form of the field list: entries separated by commas,
/// with no leading or trailing comma.
pub open spec fn spec_fields_bytes(fs: Seq<(Seq<char>, ValueView)>) -> Seq<u8>
    decreases fs.len(),
{
    if fs.len() == 0 {
        Seq::empty()
    } else if fs.len() == 1 {
        spec_field_one(fs[0])
    } else {
        spec_field_one(fs[0]) + seq![0x2cu8] + spec_fields_bytes(fs.drop_first())
    }
}

/// The full line-protocol record of a point:
/// `measurement[,tag=value...] field=value[,field=value...] timestamp\n`,
/// with the caller's default tags before the point's own tags.
pub open spec fn spec_point_line(
    p: PointView,
    precision: TimestampPrecision,
    default_tags: Seq<(Seq<char>, Seq<char>)>,
) -> Seq<u8> {
    encode_utf8(p.measurement) + spec_tags_bytes(default_tags) + spec_tags_bytes(p.tags)
        + seq![0x20u8] + spec_fields_bytes(p.fields) + seq![0x20u8] + spec_i64_dec(
        spec_process_timestamp(precision, p.time as int),
    ) + seq![0x0au8]
}

proof fn lemma_tags_bytes_snoc(ts: Seq<(Seq<char>, Seq<char>)>, x: (Seq<char>, Seq<char>))
    ensures
        spec_tags_bytes(ts.push(x)) == spec_tags_bytes(ts) + (seq![0x2cu8] + encode_utf8(x.0)
            + seq![0x3du8] + encode_utf8(x.1)),
    decreases ts.len(),
{
    if ts.len() == 0 {
        assert(ts.push(x)[0] == x);
        assert(ts.push(x).drop_first() =~= ts);
        assert(spec_tags_bytes(ts.push(x)) =~= spec_tags_bytes(ts) + (seq![0x2cu8] + encode_utf8(
            x.0,
        ) + seq![0x3du8] + encode_utf8(x.1)));
    } else {
        assert(ts.push(x)[0] == ts[0]);
        assert(ts.push(x).drop_first() =~= ts.drop_first().push(x));
        lemma_tags_bytes_snoc(ts.drop_first(), x);
        assert(spec_tags_bytes(ts.push(x)) =~= spec_tags_bytes(ts) + (seq![0x2cu8] + encode_utf8(
            x.0,
        ) + seq![0x3du8] + encode_utf8(x.1)));
    }
}

proof fn lemma_fields_bytes_snoc(fs: Seq<(Seq<char>, ValueView)>, x: (Seq<char>, ValueView))
    ensures
        spec_fields_bytes(fs.push(x)) == if fs.len() == 0 {
            spec_field_one(x)
        } else {
            spec_fields_bytes(fs) + seq![0x2cu8] + spec_field_one(x)
        },
    decreases fs.len(),
{
    if fs.len() == 0 {
        assert(fs.push(x)[0] == x);
        assert(spec_fields_bytes(fs.push(x)) =~= spec_field_one(x));
    } else {
        assert(fs.push(x)[0] == fs[0]);
        assert(fs.push(x).drop_first() =~= fs.drop_first().push(x));
        lemma_fields_bytes_snoc(fs.drop_first(), x);
        if fs.len() == 1 {
            assert(fs.drop_first().len() == 0);
            assert(spec_fields_bytes(fs.push(x)) =~= spec_fields_bytes(fs) + seq![0x2cu8]
                + spec_field_one(x));
        } else {
            assert(spec_fields_bytes(fs.push(x)) =~= spec_fields_bytes(fs) + seq![0x2cu8]
                + spec_field_one(x));
        }
    }
}

/// Appends each tag entry as `,name=value`.
fn push_tag_entries(buf: &mut Vec<u8>, tags: &TagMap)
    ensures
        final(buf)@ == old(buf)@ + spec_tags_bytes(tags@),
{
    let n = tags.len();
    let mut i: usize = 0;
    while i < n
        invariant
            n == tags@.len(),
            i <= n,
            buf@ == old(buf)@ + spec_tags_bytes(tags@.subrange(0, i as int)),
        decreases n - i,
    {
        let (name, value) = tags.entry_at(i);
        buf.push(0x2c);
        buf.extend_from_slice(name.as_ref().as_bytes());
        buf.push(0x3d);
        buf.extend_from_slice(value.as_str().as_bytes());
        proof {
            let pre = tags@.subrange(0, i as int);
            assert(tags@.subrange(0, i as int + 1) =~= pre.push(tags@[i as int]));
            lemma_tags_bytes_snoc(pre, tags@[i as int]);
            assert(buf@ =~= old(buf)@ + spec_tags_bytes(tags@.subrange(0, i as int + 1)));
        }
        i += 1;
    }
    proof {
        assert(tags@.subrange(0, n as int) =~= tags@);
    }
}

/// The capability of turning a typed record into a point.
pub trait ToPoint: Sized {
    /// The point model the record converts to.
    spec fn spec_to_point(self) -> PointView;

    /// Converts the record into a point.
    fn to_point(self) -> (p: Point)
        ensures
            p@ == self.spec_to_point(),
    ;
}

impl ToPoint for Point {
    open spec fn spec_to_point(self) -> PointView {
        self@
    }

    fn to_point(self) -> (p: Point) {
        self
    }
}

/// The capability of rebuilding a typed record from a point.  Conversion
/// may fail when a required field or tag is missing or does not parse.
pub trait FromPoint: Sized {
    /// Rebuilds the record from a point.
    fn from_point(point: Point) -> Result<Self, InfluxDBError>;
}

} // verus!
