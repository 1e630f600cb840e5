//! Values that cross the Rust/Java boundary, and their typing.
use vstd::prelude::*;
use vstd::utf8::encode_utf8;
use crate::types::{ScalarEnc, JavaType, primitive_enc, boxed_enc};

verus! {

/// A value passed to or returned from a snippet's `run` method.
///
/// `float` and `double` values are held as their IEEE-754 bit patterns
/// (`f32::to_bits` / `f64::to_bits`), which is exactly what crosses the wire.
#[derive(PartialEq, Debug)]
pub enum JavaValue {
    Byte(i8),
    Short(i16),
    Int(i32),
    Long(i64),
    Float(u32),
    Double(u64),
    Boolean(bool),
    Char(char),
    Str(String),
    /// A Java array or `List`.
    List(Vec<JavaValue>),
    /// A Java `Optional`.
    Opt(Option<Box<JavaValue>>),
}

/// The mathematical model of a [`JavaValue`].
pub enum JValue {
    Byte(i8),
    Short(i16),
    Int(i32),
    Long(i64),
    Float(u32),
    Double(u64),
    Boolean(bool),
    Char(char),
    Str(Seq<char>),
    List(Seq<JValue>),
    Opt(Option<Box<JValue>>),
}

/// The model of a value.
pub open spec fn value_view(v: JavaValue) -> JValue
    decreases v,
{
    match v {
        JavaValue::Byte(x) => JValue::Byte(x),
        JavaValue::Short(x) => JValue::Short(x),
        JavaValue::Int(x) => JValue::Int(x),
        JavaValue::Long(x) => JValue::Long(x),
        JavaValue::Float(x) => JValue::Float(x),
        JavaValue::Double(x) => JValue::Double(x),
        JavaValue::Boolean(x) => JValue::Boolean(x),
        JavaValue::Char(x) => JValue::Char(x),
        JavaValue::Str(s) => JValue::Str(s@),
        JavaValue::List(vs) => JValue::List(
            Seq::new(
                vs@.len(),
                |i: int|
                    if 0 <= i < vs@.len() {
                        value_view(vs@[i])
                    } else {
                        JValue::Boolean(false)
                    },
            ),
        ),
        JavaValue::Opt(o) => JValue::Opt(
            match o {
                Some(x) => Some(Box::new(value_view(*x))),
                None => None,
            },
        ),
    }
}

impl View for JavaValue {
    type V = JValue;

    open spec fn view(&self) -> JValue {
        value_view(*self)
    }
}

/// Largest length a Java array, list or string can have on the wire.
pub open spec fn java_max_len() -> int {
    0x7fff_ffff
}

/// A `char` that fits in one Java `char` (a UTF-16 code unit).
pub open spec fn in_bmp(c: char) -> bool {
    (c as u32) <= 0xffff
}

/// Whether `v` is a value of the scalar encoding `e`.
pub open spec fn has_scalar_type(v: JValue, e: ScalarEnc) -> bool {
    match (e, v) {
        (ScalarEnc::Byte, JValue::Byte(_)) => true,
        (ScalarEnc::Short, JValue::Short(_)) => true,
        (ScalarEnc::Int, JValue::Int(_)) => true,
        (ScalarEnc::Long, JValue::Long(_)) => true,
        (ScalarEnc::Float, JValue::Float(_)) => true,
        (ScalarEnc::Double, JValue::Double(_)) => true,
        (ScalarEnc::Boolean, JValue::Boolean(_)) => true,
        (ScalarEnc::Char, JValue::Char(c)) => in_bmp(c),
        (ScalarEnc::Str, JValue::Str(s)) => encode_utf8(s).len() <= java_max_len(),
        _ => false,
    }
}

/// Whether `v` is a value of Java type `t` that Java can hold: its chars are
/// UTF-16 code units and its arrays, lists and strings are no longer than
/// Java allows.
pub open spec fn has_type(v: JValue, t: JavaType) -> bool
    decreases t,
{
    match t {
        JavaType::Primitive(p) => has_scalar_type(v, primitive_enc(p)),
        JavaType::Boxed(b) => has_scalar_type(v, boxed_enc(b)),
        JavaType::Array(inner) => match v {
            JValue::List(vs) => vs.len() <= java_max_len() && forall|i: int|
                0 <= i < vs.len() ==> has_type(#[trigger] vs[i], *inner),
            _ => false,
        },
        JavaType::List(inner) => match v {
            JValue::List(vs) => vs.len() <= java_max_len() && forall|i: int|
                0 <= i < vs.len() ==> has_type(#[trigger] vs[i], *inner),
            _ => false,
        },
        JavaType::Optional(inner) => match v {
            JValue::Opt(None) => true,
            JValue::Opt(Some(x)) => has_type(*x, *inner),
            _ => false,
        },
    }
}

} // verus!
