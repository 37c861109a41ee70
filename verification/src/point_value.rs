//! The tagged value model: the closed union of field values a point can
//! carry, its line-protocol rendering, and the two conversion capabilities
//! (typed value to tagged value, and back).

use vstd::prelude::*;
use vstd::string::StringExecFns;
use vstd::string::StringSliceAdditionalSpecFns;
use vstd::utf8::encode_utf8;

use crate::error::InfluxDBError;
use crate::num::push_i64_dec;
use crate::num::push_u64_dec;
use crate::num::spec_i64_dec;
use crate::num::spec_u64_dec;

verus! {

/// A float value as the verified core carries it: the IEEE 754 bit pattern
/// together with its decimal rendering.  Floating-point arithmetic and
/// formatting stay outside the core; whoever constructs the value supplies
/// both parts.
#[derive(Debug)]
pub struct FloatValue {
    /// The IEEE 754 double-precision bit pattern.
    pub bits: u64,
    /// The decimal rendering of the value, as the platform's default
    /// formatting produces it.
    pub text: String,
}

impl DeepView for FloatValue {
    type V = (u64, Seq<char>);

    open spec fn deep_view(&self) -> (u64, Seq<char>) {
        (self.bits, self.text@)
    }
}

impl Clone for FloatValue {
    fn clone(&self) -> (r: Self)
        ensures
            r == *self,
    {
        FloatValue { bits: self.bits, text: self.text.clone() }
    }
}

/// A nanosecond-resolution instant, counted from the Unix epoch in UTC.
#[derive(Debug, Clone, Copy, PartialEq, Eq, Structural, Hash)]
pub struct Timestamp {
    /// Nanoseconds since the Unix epoch.
    pub nanos: i64,
}

impl View for Timestamp {
    type V = Timestamp;

    open spec fn view(&self) -> Timestamp {
        *self
    }
}

impl DeepView for Timestamp {
    type V = Timestamp;

    open spec fn deep_view(&self) -> Timestamp {
        *self
    }
}

/// The mathematical model of a tagged value.
pub ghost enum ValueView {
    Null,
    Float(u64, Seq<char>),
    Integer(i64),
    UInteger(u64),
    Boolean(bool),
    String(Seq<char>),
    Timestamp(i64),
}

/// The closed union of values a point's field can hold.  The variant
/// determines both the serialized suffix and the decode target type;
/// conversions are variant-exact.
#[derive(Debug)]
pub enum PointValue {
    Null,
    Float(FloatValue),
    Integer(i64),
    UInteger(u64),
    Boolean(bool),
    String(String),
    Timestamp(i64),
}

impl View for PointValue {
    type V = ValueView;

    open spec fn view(&self) -> ValueView {
        match self {
            PointValue::Null => ValueView::Null,
            PointValue::Float(f) => ValueView::Float(f.bits, f.text@),
            PointValue::Integer(n) => ValueView::Integer(*n),
            PointValue::UInteger(n) => ValueView::UInteger(*n),
            PointValue::Boolean(b) => ValueView::Boolean(*b),
            PointValue::String(s) => ValueView::String(s@),
            PointValue::Timestamp(n) => ValueView::Timestamp(*n),
        }
    }
}

impl DeepView for PointValue {
    type V = ValueView;

    open spec fn deep_view(&self) -> ValueView {
        self.view()
    }
}

impl Clone for PointValue {
    fn clone(&self) -> (r: Self)
        ensures
            r == *self,
    {
        match self {
            PointValue::Null => PointValue::Null,
            PointValue::Float(f) => PointValue::Float(f.clone()),
            PointValue::Integer(n) => PointValue::Integer(*n),
            PointValue::UInteger(n) => PointValue::UInteger(*n),
            PointValue::Boolean(b) => PointValue::Boolean(*b),
            PointValue::String(s) => PointValue::String(s.clone()),
            PointValue::Timestamp(n) => PointValue::Timestamp(*n),
        }
    }
}

/// The bytes with every backslash and double quote preceded by a
/// backslash, as string field values are escaped on the wire.
pub open spec fn spec_escape_bytes(s: Seq<u8>) -> Seq<u8>
    decreases s.len(),
{
    if s.len() == 0 {
        Seq::empty()
    } else {
        (if s[0] == 0x5c || s[0] == 0x22 {
            seq![0x5cu8, s[0]]
        } else {
            seq![s[0]]
        }) + spec_escape_bytes(s.drop_first())
    }
}

/// Escaping distributes over concatenation.
proof fn lemma_escape_concat(a: Seq<u8>, b: Seq<u8>)
    ensures
        spec_escape_bytes(a + b) == spec_escape_bytes(a) + spec_escape_bytes(b),
    decreases a.len(),
{
    if a.len() == 0 {
        assert(a + b =~= b);
        assert(spec_escape_bytes(a) + spec_escape_bytes(b) =~= spec_escape_bytes(b));
    } else {
        assert((a + b).drop_first() =~= a.drop_first() + b);
        lemma_escape_concat(a.drop_first(), b);
        assert(spec_escape_bytes(a + b) =~= spec_escape_bytes(a) + spec_escape_bytes(b));
    }
}

/// The wire rendering of a tagged value: floats by their stored decimal
/// text; integers with an `i` suffix; unsigned integers with a `u` suffix;
/// booleans as `t` or `f`; strings double-quoted with backslash and quote
/// escaped; timestamps as the nanosecond count; nulls as nothing.
pub open spec fn spec_value_bytes(v: ValueView) -> Seq<u8> {
    match v {
        ValueView::Null => Seq::empty(),
        ValueView::Float(bits, text) => encode_utf8(text),
        ValueView::Integer(n) => spec_i64_dec(n as int) + seq![0x69u8],
        ValueView::UInteger(n) => spec_u64_dec(n as int) + seq![0x75u8],
        ValueView::Boolean(b) => if b {
            seq![0x74u8]
        } else {
            seq![0x66u8]
        },
        ValueView::String(s) => seq![0x22u8] + spec_escape_bytes(encode_utf8(s)) + seq![0x22u8],
        ValueView::Timestamp(n) => spec_i64_dec(n as int),
    }
}

/// Appends the escaped bytes of a string field value.
fn push_escaped(out: &mut Vec<u8>, s: &str)
    ensures
        final(out)@ == old(out)@ + spec_escape_bytes(s.spec_bytes()),
{
    let bytes = s.as_bytes();
    let n = bytes.len();
    let mut i: usize = 0;
    while i < n
        invariant
            n == bytes@.len(),
            i <= n,
            bytes@ == s.spec_bytes(),
            out@ == old(out)@ + spec_escape_bytes(bytes@.subrange(0, i as int)),
        decreases n - i,
    {
        let b = bytes[i];
        if b == 0x5c || b == 0x22 {
            out.push(0x5c);
        }
        out.push(b);
        proof {
            let pre = bytes@.subrange(0, i as int);
            let one = seq![bytes@[i as int]];
            assert(bytes@.subrange(0, i as int + 1) =~= pre + one);
            lemma_escape_concat(pre, one);
            assert(one.drop_first().len() == 0);
            assert(spec_escape_bytes(one.drop_first()) =~= Seq::empty());
            assert(spec_escape_bytes(one) =~= (if one[0] == 0x5c || one[0] == 0x22 {
                seq![0x5cu8, one[0]]
            } else {
                seq![one[0]]
            }));
            assert(out@ =~= old(out)@ + spec_escape_bytes(bytes@.subrange(0, i as int + 1)));
        }
        i += 1;
    }
    proof {
        assert(bytes@.subrange(0, n as int) =~= bytes@);
    }
}

impl PointValue {
    /// Appends this value's wire rendering to a buffer.
    pub fn push_serialized(&self, out: &mut Vec<u8>)
        ensures
            final(out)@ == old(out)@ + spec_value_bytes(self@),
    {
        match self {
            PointValue::Null => {
                proof {
                    assert(out@ =~= old(out)@ + spec_value_bytes(self@));
                }
            },
            PointValue::Float(f) => {
                out.extend_from_slice(f.text.as_str().as_bytes());
            },
            PointValue::Integer(n) => {
                push_i64_dec(out, *n);
                out.push(0x69);
                proof {
                    assert(out@ =~= old(out)@ + spec_value_bytes(self@));
                }
            },
            PointValue::UInteger(n) => {
                push_u64_dec(out, *n);
                out.push(0x75);
                proof {
                    assert(out@ =~= old(out)@ + spec_value_bytes(self@));
                }
            },
            PointValue::Boolean(b) => {
                out.push(if *b {
                    0x74
                } else {
                    0x66
                });
                proof {
                    assert(out@ =~= old(out)@ + spec_value_bytes(self@));
                }
            },
            PointValue::String(s) => {
                out.push(0x22);
                push_escaped(out, s.as_str());
                out.push(0x22);
                proof {
                    assert(out@ =~= old(out)@ + spec_value_bytes(self@));
                }
            },
            PointValue::Timestamp(n) => {
                push_i64_dec(out, *n);
            },
        }
    }

    /// This value's wire rendering.
    pub fn serialize(&self) -> (r: Vec<u8>)
        ensures
            r@ == spec_value_bytes(self@),
    {
        let mut out: Vec<u8> = Vec::new();
        self.push_serialized(&mut out);
        out
    }

    /// Typed access through the `Decode` capability: a null yields
    /// nothing, bypassing the target type's fallibility; any other value
    /// must decode to the requested type.
    pub fn get_value<T: Decode>(&self) -> (r: Result<Option<T>, InfluxDBError>)
        ensures
            match self@ {
                ValueView::Null => r matches Ok(o) && o is None,
                _ => match T::spec_decode(self@) {
                    Some(x) => r matches Ok(o) && o matches Some(y) && y.deep_view() == x,
                    None => r is Err,
                },
            },
    {
        match self {
            PointValue::Null => Ok(None),
            _ => match T::decode(self) {
                Ok(x) => Ok(Some(x)),
                Err(e) => Err(e),
            },
        }
    }
}

/// The capability of rendering a typed value as a tagged value.  Encoding
/// is total: every typed value has a tagged form.
pub trait Encode: Sized + DeepView {
    /// The tagged value model a typed value encodes to.
    spec fn spec_encode(v: Self::V) -> ValueView;

    /// Encodes the value.
    fn encode(self) -> (r: PointValue)
        ensures
            r@ == Self::spec_encode(self.deep_view()),
    ;
}

/// The capability of reading a typed value back out of a tagged value.
/// Decoding is variant-exact: it fails whenever the stored variant does
/// not match the requested type, or a narrowing conversion is out of
/// range, and never silently coerces.
pub trait Decode: Sized + DeepView {
    /// The typed model a tagged value decodes to, or nothing when the
    /// variant does not match or the value is out of range.
    spec fn spec_decode(v: ValueView) -> Option<Self::V>;

    /// Decodes the value.
    fn decode(v: &PointValue) -> (r: Result<Self, InfluxDBError>)
        ensures
            match Self::spec_decode(v@) {
                Some(x) => r matches Ok(y) && y.deep_view() == x,
                None => r is Err,
            },
    ;
}

impl Encode for () {
    open spec fn spec_encode(v: ()) -> ValueView {
        ValueView::Null
    }

    fn encode(self) -> (r: PointValue) {
        PointValue::Null
    }
}

impl Encode for i8 {
    open spec fn spec_encode(v: i8) -> ValueView {
        ValueView::Integer(v as i64)
    }

    fn encode(self) -> (r: PointValue) {
        PointValue::Integer(self as i64)
    }
}

impl Encode for i16 {
    open spec fn spec_encode(v: i16) -> ValueView {
        ValueView::Integer(v as i64)
    }

    fn encode(self) -> (r: PointValue) {
        PointValue::Integer(self as i64)
    }
}

impl Encode for i32 {
    open spec fn spec_encode(v: i32) -> ValueView {
        ValueView::Integer(v as i64)
    }

    fn encode(self) -> (r: PointValue) {
        PointValue::Integer(self as i64)
    }
}

impl Encode for i64 {
    open spec fn spec_encode(v: i64) -> ValueView {
        ValueView::Integer(v)
    }

    fn encode(self) -> (r: PointValue) {
        PointValue::Integer(self)
    }
}

impl Encode for u8 {
    open spec fn spec_encode(v: u8) -> ValueView {
        ValueView::UInteger(v as u64)
    }

    fn encode(self) -> (r: PointValue) {
        PointValue::UInteger(self as u64)
    }
}

impl Encode for u16 {
    open spec fn spec_encode(v: u16) -> ValueView {
        ValueView::UInteger(v as u64)
    }

    fn encode(self) -> (r: PointValue) {
        PointValue::UInteger(self as u64)
    }
}

impl Encode for u32 {
    open spec fn spec_encode(v: u32) -> ValueView {
        ValueView::UInteger(v as u64)
    }

    fn encode(self) -> (r: PointValue) {
        PointValue::UInteger(self as u64)
    }
}

impl Encode for u64 {
    open spec fn spec_encode(v: u64) -> ValueView {
        ValueView::UInteger(v)
    }

    fn encode(self) -> (r: PointValue) {
        PointValue::UInteger(self)
    }
}

impl Encode for bool {
    open spec fn spec_encode(v: bool) -> ValueView {
        ValueView::Boolean(v)
    }

    fn encode(self) -> (r: PointValue) {
        PointValue::Boolean(self)
    }
}

impl Encode for &str {
    open spec fn spec_encode(v: Seq<char>) -> ValueView {
        ValueView::String(v)
    }

    fn encode(self) -> (r: PointValue) {
        PointValue::String(String::from_str(self))
    }
}

impl Encode for String {
    open spec fn spec_encode(v: Seq<char>) -> ValueView {
        ValueView::String(v)
    }

    fn encode(self) -> (r: PointValue) {
        PointValue::String(self)
    }
}

impl Encode for FloatValue {
    open spec fn spec_encode(v: (u64, Seq<char>)) -> ValueView {
        ValueView::Float(v.0, v.1)
    }

    fn encode(self) -> (r: PointValue) {
        PointValue::Float(self)
    }
}

impl Encode for Timestamp {
    open spec fn spec_encode(v: Timestamp) -> ValueView {
        ValueView::Timestamp(v.nanos)
    }

    fn encode(self) -> (r: PointValue) {
        PointValue::Timestamp(self.nanos)
    }
}

impl Encode for PointValue {
    open spec fn spec_encode(v: ValueView) -> ValueView {
        v
    }

    fn encode(self) -> (r: PointValue) {
        self
    }
}

impl<T: Encode> Encode for Option<T> {
    open spec fn spec_encode(v: Option<T::V>) -> ValueView {
        match v {
            Option::None => ValueView::Null,
            Option::Some(x) => T::spec_encode(x),
        }
    }

    fn encode(self) -> (r: PointValue) {
        match self {
            Option::None => PointValue::Null,
            Option::Some(x) => x.encode(),
        }
    }
}

impl Decode for i8 {
    open spec fn spec_decode(v: ValueView) -> Option<i8> {
        match v {
            ValueView::Integer(n) => if -128 <= n <= 127 {
                Some(n as i8)
            } else {
                None
            },
            _ => None,
        }
    }

    fn decode(v: &PointValue) -> (r: Result<Self, InfluxDBError>) {
        match v {
            PointValue::Integer(n) => {
                if -128 <= *n && *n <= 127 {
                    Ok(*n as i8)
                } else {
                    Err(
                        InfluxDBError::InvalidPointValueConversion(
                            String::from_str("Value out of range for i8"),
                        ),
                    )
                }
            },
            _ => Err(
                InfluxDBError::InvalidPointValueConversion(
                    String::from_str("PointValue is not an Integer"),
                ),
            ),
        }
    }
}

impl Decode for i16 {
    open spec fn spec_decode(v: ValueView) -> Option<i16> {
        match v {
            ValueView::Integer(n) => if -32768 <= n <= 32767 {
                Some(n as i16)
            } else {
                None
            },
            _ => None,
        }
    }

    fn decode(v: &PointValue) -> (r: Result<Self, InfluxDBError>) {
        match v {
            PointValue::Integer(n) => {
                if -32768 <= *n && *n <= 32767 {
                    Ok(*n as i16)
                } else {
                    Err(
                        InfluxDBError::InvalidPointValueConversion(
                            String::from_str("Value out of range for i16"),
                        ),
                    )
                }
            },
            _ => Err(
                InfluxDBError::InvalidPointValueConversion(
                    String::from_str("PointValue is not an Integer"),
                ),
            ),
        }
    }
}

impl Decode for i32 {
    open spec fn spec_decode(v: ValueView) -> Option<i32> {
        match v {
            ValueView::Integer(n) => if -0x80000000 <= n <= 0x7fffffff {
                Some(n as i32)
            } else {
                None
            },
            _ => None,
        }
    }

    fn decode(v: &PointValue) -> (r: Result<Self, InfluxDBError>) {
        match v {
            PointValue::Integer(n) => {
                if -0x80000000 <= *n && *n <= 0x7fffffff {
                    Ok(*n as i32)
                } else {
                    Err(
                        InfluxDBError::InvalidPointValueConversion(
                            String::from_str("Value out of range for i32"),
                        ),
                    )
                }
            },
            _ => Err(
                InfluxDBError::InvalidPointValueConversion(
                    String::from_str("PointValue is not an Integer"),
                ),
            ),
        }
    }
}

impl Decode for i64 {
    open spec fn spec_decode(v: ValueView) -> Option<i64> {
        match v {
            ValueView::Integer(n) => Some(n),
            _ => None,
        }
    }

    fn decode(v: &PointValue) -> (r: Result<Self, InfluxDBError>) {
        match v {
            PointValue::Integer(n) => Ok(*n),
            _ => Err(
                InfluxDBError::InvalidPointValueConversion(
                    String::from_str("PointValue is not an Integer"),
                ),
            ),
        }
    }
}

impl Decode for u8 {
    open spec fn spec_decode(v: ValueView) -> Option<u8> {
        match v {
            ValueView::UInteger(n) => if n <= 255 {
                Some(n as u8)
            } else {
                None
            },
            _ => None,
        }
    }

    fn decode(v: &PointValue) -> (r: Result<Self, InfluxDBError>) {
        match v {
            PointValue::UInteger(n) => {
                if *n <= 255 {
                    Ok(*n as u8)
                } else {
                    Err(
                        InfluxDBError::InvalidPointValueConversion(
                            String::from_str("Value out of range for u8"),
                        ),
                    )
                }
            },
            _ => Err(
                InfluxDBError::InvalidPointValueConversion(
                    String::from_str("PointValue is not a UInteger"),
                ),
            ),
        }
    }
}

impl Decode for u16 {
    open spec fn spec_decode(v: ValueView) -> Option<u16> {
        match v {
            ValueView::UInteger(n) => if n <= 65535 {
                Some(n as u16)
            } else {
                None
            },
            _ => None,
        }
    }

    fn decode(v: &PointValue) -> (r: Result<Self, InfluxDBError>) {
        match v {
            PointValue::UInteger(n) => {
                if *n <= 65535 {
                    Ok(*n as u16)
                } else {
                    Err(
                        InfluxDBError::InvalidPointValueConversion(
                            String::from_str("Value out of range for u16"),
                        ),
                    )
                }
            },
            _ => Err(
                InfluxDBError::InvalidPointValueConversion(
                    String::from_str("PointValue is not a UInteger"),
                ),
            ),
        }
    }
}

impl Decode for u32 {
    open spec fn spec_decode(v: ValueView) -> Option<u32> {
        match v {
            ValueView::UInteger(n) => if n <= 0xffffffff {
                Some(n as u32)
            } else {
                None
            },
            _ => None,
        }
    }

    fn decode(v: &PointValue) -> (r: Result<Self, InfluxDBError>) {
        match v {
            PointValue::UInteger(n) => {
                if *n <= 0xffffffff {
                    Ok(*n as u32)
                } else {
                    Err(
                        InfluxDBError::InvalidPointValueConversion(
                            String::from_str("Value out of range for u32"),
                        ),
                    )
                }
            },
            _ => Err(
                InfluxDBError::InvalidPointValueConversion(
                    String::from_str("PointValue is not a UInteger"),
                ),
            ),
        }
    }
}

impl Decode for u64 {
    open spec fn spec_decode(v: ValueView) -> Option<u64> {
        match v {
            ValueView::UInteger(n) => Some(n),
            _ => None,
        }
    }

    fn decode(v: &PointValue) -> (r: Result<Self, InfluxDBError>) {
        match v {
            PointValue::UInteger(n) => Ok(*n),
            _ => Err(
                InfluxDBError::InvalidPointValueConversion(
                    String::from_str("PointValue is not a UInteger"),
                ),
            ),
        }
    }
}

impl Decode for bool {
    open spec fn spec_decode(v: ValueView) -> Option<bool> {
        match v {
            ValueView::Boolean(b) => Some(b),
            _ => None,
        }
    }

    fn decode(v: &PointValue) -> (r: Result<Self, InfluxDBError>) {
        match v {
            PointValue::Boolean(b) => Ok(*b),
            _ => Err(
                InfluxDBError::InvalidPointValueConversion(
                    String::from_str("PointValue is not a Boolean"),
                ),
            ),
        }
    }
}

impl Decode for String {
    open spec fn spec_decode(v: ValueView) -> Option<Seq<char>> {
        match v {
            ValueView::String(s) => Some(s),
            _ => None,
        }
    }

    fn decode(v: &PointValue) -> (r: Result<Self, InfluxDBError>) {
        match v {
            PointValue::String(s) => Ok(s.clone()),
            _ => Err(
                InfluxDBError::InvalidPointValueConversion(
                    String::from_str("PointValue is not a String"),
                ),
            ),
        }
    }
}

impl Decode for FloatValue {
    open spec fn spec_decode(v: ValueView) -> Option<(u64, Seq<char>)> {
        match v {
            ValueView::Float(bits, text) => Some((bits, text)),
            _ => None,
        }
    }

    fn decode(v: &PointValue) -> (r: Result<Self, InfluxDBError>) {
        match v {
            PointValue::Float(f) => Ok(f.clone()),
            _ => Err(
                InfluxDBError::InvalidPointValueConversion(
                    String::from_str("PointValue is not a Float"),
                ),
            ),
        }
    }
}

impl Decode for Timestamp {
    open spec fn spec_decode(v: ValueView) -> Option<Timestamp> {
        match v {
            ValueView::Timestamp(n) => Some(Timestamp { nanos: n }),
            _ => None,
        }
    }

    fn decode(v: &PointValue) -> (r: Result<Self, InfluxDBError>) {
        match v {
            PointValue::Timestamp(n) => Ok(Timestamp { nanos: *n }),
            _ => Err(
                InfluxDBError::InvalidPointValueConversion(
                    String::from_str("PointValue is not a Timestamp"),
                ),
            ),
        }
    }
}

impl<T: Decode> Decode for Option<T> {
    open spec fn spec_decode(v: ValueView) -> Option<Option<T::V>> {
        match v {
            ValueView::Null => Some(Option::None),
            _ => match T::spec_decode(v) {
                Some(x) => Some(Option::Some(x)),
                None => None,
            },
        }
    }

    fn decode(v: &PointValue) -> (r: Result<Self, InfluxDBError>) {
        match v {
            PointValue::Null => Ok(None),
            _ => match T::decode(v) {
                Ok(x) => Ok(Some(x)),
                Err(e) => Err(e),
            },
        }
    }
}

/// Decoding an encoded value returns the original, for every supported
/// target type, both bare and behind an optional target (where a missing
/// value passes through the null variant).  That decoding rejects any
/// other variant is stated by each `spec_decode` definition and by the
/// `ensures` of `decode`.
pub proof fn lemma_decode_encode_round_trip()
    ensures
        forall|x: i8| #[trigger] <i8 as Decode>::spec_decode(<i8 as Encode>::spec_encode(x))
            == Some(x),
        forall|x: i16| #[trigger] <i16 as Decode>::spec_decode(<i16 as Encode>::spec_encode(x))
            == Some(x),
        forall|x: i32| #[trigger] <i32 as Decode>::spec_decode(<i32 as Encode>::spec_encode(x))
            == Some(x),
        forall|x: i64| #[trigger] <i64 as Decode>::spec_decode(<i64 as Encode>::spec_encode(x))
            == Some(x),
        forall|x: u8| #[trigger] <u8 as Decode>::spec_decode(<u8 as Encode>::spec_encode(x))
            == Some(x),
        forall|x: u16| #[trigger] <u16 as Decode>::spec_decode(<u16 as Encode>::spec_encode(x))
            == Some(x),
        forall|x: u32| #[trigger] <u32 as Decode>::spec_decode(<u32 as Encode>::spec_encode(x))
            == Some(x),
        forall|x: u64| #[trigger] <u64 as Decode>::spec_decode(<u64 as Encode>::spec_encode(x))
            == Some(x),
        forall|x: bool| #[trigger] <bool as Decode>::spec_decode(<bool as Encode>::spec_encode(x))
            == Some(x),
        forall|x: Seq<char>|
            #[trigger] <String as Decode>::spec_decode(<String as Encode>::spec_encode(x)) == Some(
                x,
            ),
        forall|x: (u64, Seq<char>)|
            #[trigger] <FloatValue as Decode>::spec_decode(<FloatValue as Encode>::spec_encode(x))
                == Some(x),
        forall|x: Timestamp|
            #[trigger] <Timestamp as Decode>::spec_decode(<Timestamp as Encode>::spec_encode(x))
                == Some(x),
        forall|x: Option<i64>|
            #[trigger] <Option<i64> as Decode>::spec_decode(
                <Option<i64> as Encode>::spec_encode(x),
            ) == Some(x),
        forall|x: Option<u64>|
            #[trigger] <Option<u64> as Decode>::spec_decode(
                <Option<u64> as Encode>::spec_encode(x),
            ) == Some(x),
        forall|x: Option<bool>|
            #[trigger] <Option<bool> as Decode>::spec_decode(
                <Option<bool> as Encode>::spec_encode(x),
            ) == Some(x),
        forall|x: Option<Seq<char>>|
            #[trigger] <Option<String> as Decode>::spec_decode(
                <Option<String> as Encode>::spec_encode(x),
            ) == Some(x),
{
}

} // verus!
