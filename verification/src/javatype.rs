//! The typed-value model: the one-byte Java field-type codes, their fixed
//! wire widths, and the decoding of a single value of each type.
//!
//! The `Object` type reads a 4-byte slot value, not a session-width
//! identifier: that asymmetry is part of the wire format and is preserved
//! exactly.

use vstd::prelude::*;

use crate::errors::{Error, UnknownTagError};
use crate::slice::Slice;
use crate::wire::{
    sread_i16, sread_i32, sread_i64, sread_i8, sread_le_u32, sread_le_u64, sread_u16, sread_u32,
    sread_u8,
};

verus! {

/// The enumerated Java field types a class dump or primitive array can
/// carry.
#[derive(Debug, Copy, Clone, PartialEq, Eq, Structural)]
pub enum JavaType {
    Object,
    Boolean,
    Char,
    Float,
    Double,
    Byte,
    Short,
    Int,
    Long,
}

/// The field type a one-byte type tag selects, if any.
pub open spec fn jtype_of_tag(tag: u8) -> Option<JavaType> {
    match tag {
        2u8 => Some(JavaType::Object),
        4u8 => Some(JavaType::Boolean),
        5u8 => Some(JavaType::Char),
        6u8 => Some(JavaType::Float),
        7u8 => Some(JavaType::Double),
        8u8 => Some(JavaType::Byte),
        9u8 => Some(JavaType::Short),
        10u8 => Some(JavaType::Int),
        11u8 => Some(JavaType::Long),
        _ => None,
    }
}

/// The one-byte tag that selects each field type.
pub open spec fn tag_of_jtype(ty: JavaType) -> u8 {
    match ty {
        JavaType::Object => 2u8,
        JavaType::Boolean => 4u8,
        JavaType::Char => 5u8,
        JavaType::Float => 6u8,
        JavaType::Double => 7u8,
        JavaType::Byte => 8u8,
        JavaType::Short => 9u8,
        JavaType::Int => 10u8,
        JavaType::Long => 11u8,
    }
}

/// The fixed wire width of one value of each field type.
pub open spec fn jtype_width(ty: JavaType) -> int {
    match ty {
        JavaType::Object => 4,
        JavaType::Boolean => 1,
        JavaType::Char => 2,
        JavaType::Float => 4,
        JavaType::Double => 8,
        JavaType::Byte => 1,
        JavaType::Short => 2,
        JavaType::Int => 4,
        JavaType::Long => 8,
    }
}

impl JavaType {
    /// The field type selected by a one-byte type tag; any byte outside
    /// the set the format defines is `UnknownJavaType`.
    pub fn from_tag(value: u8) -> (r: Result<JavaType, Error>)
        ensures
            match jtype_of_tag(value) {
                Some(t) => r == Ok::<JavaType, Error>(t),
                None => r == Err::<JavaType, Error>(Error::UnknownJavaType(value)),
            },
    {
        match value {
            2u8 => Ok(JavaType::Object),
            4u8 => Ok(JavaType::Boolean),
            5u8 => Ok(JavaType::Char),
            6u8 => Ok(JavaType::Float),
            7u8 => Ok(JavaType::Double),
            8u8 => Ok(JavaType::Byte),
            9u8 => Ok(JavaType::Short),
            10u8 => Ok(JavaType::Int),
            11u8 => Ok(JavaType::Long),
            ty => Err(Error::UnknownJavaType(ty)),
        }
    }

    /// The wire width of one value of this type, in bytes.
    pub fn width(&self) -> (r: usize)
        ensures
            r == jtype_width(*self),
    {
        match self {
            JavaType::Object => 4,
            JavaType::Boolean => 1,
            JavaType::Char => 2,
            JavaType::Float => 4,
            JavaType::Double => 8,
            JavaType::Byte => 1,
            JavaType::Short => 2,
            JavaType::Int => 4,
            JavaType::Long => 8,
        }
    }

    /// The one-byte tag that selects this type on the wire.
    pub fn tag(&self) -> (r: u8)
        ensures
            r == tag_of_jtype(*self),
    {
        match self {
            JavaType::Object => 2,
            JavaType::Boolean => 4,
            JavaType::Char => 5,
            JavaType::Float => 6,
            JavaType::Double => 7,
            JavaType::Byte => 8,
            JavaType::Short => 9,
            JavaType::Int => 10,
            JavaType::Long => 11,
        }
    }
}

/// The wire width selected by a one-byte type tag, or the tag wrapped in
/// `UnknownTagError` when it selects no type.
pub fn get_type_size(field_type: u8) -> (r: Result<usize, UnknownTagError>)
    ensures
        match jtype_of_tag(field_type) {
            Some(t) => r matches Ok(s) && s == jtype_width(t),
            None => r == Err::<usize, UnknownTagError>(UnknownTagError { tag: field_type }),
        },
{
    match JavaType::from_tag(field_type) {
        Ok(t) => Ok(t.width()),
        Err(_) => Err(UnknownTagError { tag: field_type }),
    }
}

/// One decoded scalar, tagged with its field type. The `Float` and
/// `Double` variants hold the little-endian IEEE-754 bit pattern exactly
/// as read from the wire.
#[derive(Debug, Copy, Clone, PartialEq, Eq, Structural)]
pub enum JavaValue {
    Object(u32),
    Boolean(bool),
    Char(u16),
    Float(u32),
    Double(u64),
    Byte(i8),
    Short(i16),
    Int(i32),
    Long(i64),
}

/// One value of type `ty` read at position `p`: exactly the type's fixed
/// width is consumed.
pub open spec fn sparse_java_value(b: Seq<u8>, p: int, ty: JavaType) -> Result<
    (JavaValue, int),
    Error,
>
    recommends
        0 <= p <= b.len(),
{
    match ty {
        JavaType::Object => match sread_u32(b, p) {
            Ok((v, q)) => Ok((JavaValue::Object(v), q)),
            Err(e) => Err(e),
        },
        JavaType::Boolean => match sread_u8(b, p) {
            Ok((v, q)) => Ok((JavaValue::Boolean(v != 0), q)),
            Err(e) => Err(e),
        },
        JavaType::Char => match sread_u16(b, p) {
            Ok((v, q)) => Ok((JavaValue::Char(v), q)),
            Err(e) => Err(e),
        },
        JavaType::Float => match sread_le_u32(b, p) {
            Ok((v, q)) => Ok((JavaValue::Float(v), q)),
            Err(e) => Err(e),
        },
        JavaType::Double => match sread_le_u64(b, p) {
            Ok((v, q)) => Ok((JavaValue::Double(v), q)),
            Err(e) => Err(e),
        },
        JavaType::Byte => match sread_i8(b, p) {
            Ok((v, q)) => Ok((JavaValue::Byte(v), q)),
            Err(e) => Err(e),
        },
        JavaType::Short => match sread_i16(b, p) {
            Ok((v, q)) => Ok((JavaValue::Short(v), q)),
            Err(e) => Err(e),
        },
        JavaType::Int => match sread_i32(b, p) {
            Ok((v, q)) => Ok((JavaValue::Int(v), q)),
            Err(e) => Err(e),
        },
        JavaType::Long => match sread_i64(b, p) {
            Ok((v, q)) => Ok((JavaValue::Long(v), q)),
            Err(e) => Err(e),
        },
    }
}

/// One type tag followed by one value of that type, as constant-pool and
/// static-field entries store them.
pub open spec fn sparse_typed_value(b: Seq<u8>, p: int) -> Result<(JavaValue, int), Error>
    recommends
        0 <= p <= b.len(),
{
    match sread_u8(b, p) {
        Err(e) => Err(e),
        Ok((t, q)) => match jtype_of_tag(t) {
            None => Err(Error::UnknownJavaType(t)),
            Some(ty) => sparse_java_value(b, q, ty),
        },
    }
}

impl JavaValue {
    /// One value of the given type, read from the cursor.
    pub fn parse(s: &mut Slice, ty: JavaType) -> (r: Result<JavaValue, Error>)
        requires
            old(s).wf(),
        ensures
            final(s).wf(),
            final(s).bytes() == old(s).bytes(),
            final(s).idw() == old(s).idw(),
            match sparse_java_value(old(s).bytes(), old(s).pos(), ty) {
                Ok((v, q)) => r == Ok::<JavaValue, Error>(v) && final(s).pos() == q,
                Err(e) => r == Err::<JavaValue, Error>(e) && final(s).pos() == old(s).pos(),
            },
    {
        match ty {
            JavaType::Object => Ok(JavaValue::Object(s.read_u32()?)),
            JavaType::Boolean => Ok(JavaValue::Boolean(s.read_u8()? != 0)),
            JavaType::Char => Ok(JavaValue::Char(s.read_u16()?)),
            JavaType::Float => Ok(JavaValue::Float(s.read_f32_bits()?)),
            JavaType::Double => Ok(JavaValue::Double(s.read_f64_bits()?)),
            JavaType::Byte => Ok(JavaValue::Byte(s.read_i8()?)),
            JavaType::Short => Ok(JavaValue::Short(s.read_i16()?)),
            JavaType::Int => Ok(JavaValue::Int(s.read_i32()?)),
            JavaType::Long => Ok(JavaValue::Long(s.read_i64()?)),
        }
    }

    /// One type tag followed by one value of that type.
    pub fn parse_with_type(s: &mut Slice) -> (r: Result<JavaValue, Error>)
        requires
            old(s).wf(),
        ensures
            final(s).wf(),
            final(s).bytes() == old(s).bytes(),
            final(s).idw() == old(s).idw(),
            old(s).pos() <= final(s).pos(),
            match sparse_typed_value(old(s).bytes(), old(s).pos()) {
                Ok((v, q)) => r == Ok::<JavaValue, Error>(v) && final(s).pos() == q,
                Err(e) => r == Err::<JavaValue, Error>(e),
            },
    {
        let tag = s.read_u8()?;
        let ty = JavaType::from_tag(tag)?;
        Self::parse(s, ty)
    }
}

} // verus!
