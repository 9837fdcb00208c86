//! Attribute values: the generic tagged value used when ingesting external
//! input, the validated value a record stores, and the coercion between them.

use vstd::prelude::*;

use crate::schema::TypeTag;

verus! {

/// A generic tagged value, used transiently when ingesting external input
/// before it is checked against the schema.  Floating-point numbers are
/// carried as their IEEE-754 bit pattern.
#[derive(Debug, PartialEq, Eq)]
pub enum AttributeValue {
    Null,
    Bool(bool),
    Int(i64),
    UInt(u64),
    Float(u64),
    Text(String),
    Array(Vec<AttributeValue>),
    Object(Vec<(String, AttributeValue)>),
}

/// A value validated against the schema, as stored in an attribute record.
/// Floating-point numbers are carried as their IEEE-754 bit pattern.
#[derive(Debug, PartialEq, Eq)]
pub enum TypedValue {
    Bool(bool),
    Int(i64),
    UInt(u64),
    Float(u64),
    Text(String),
}

/// The mathematical model of a [`TypedValue`]: the same shape, with the
/// string field abstracted to its character sequence.
pub enum TypedValueModel {
    Bool(bool),
    Int(i64),
    UInt(u64),
    Float(u64),
    Text(Seq<char>),
}

impl View for TypedValue {
    type V = TypedValueModel;

    open spec fn view(&self) -> TypedValueModel {
        match self {
            TypedValue::Bool(b) => TypedValueModel::Bool(*b),
            TypedValue::Int(i) => TypedValueModel::Int(*i),
            TypedValue::UInt(u) => TypedValueModel::UInt(*u),
            TypedValue::Float(bits) => TypedValueModel::Float(*bits),
            TypedValue::Text(s) => TypedValueModel::Text(s@),
        }
    }
}

impl Clone for TypedValue {
    fn clone(&self) -> (r: Self)
        ensures
            r == *self,
    {
        match self {
            TypedValue::Bool(b) => TypedValue::Bool(*b),
            TypedValue::Int(i) => TypedValue::Int(*i),
            TypedValue::UInt(u) => TypedValue::UInt(*u),
            TypedValue::Float(bits) => TypedValue::Float(*bits),
            TypedValue::Text(s) => TypedValue::Text(s.clone()),
        }
    }
}

/// Whether a stored value agrees with a field's type tag.  A `Float64`
/// field is deliberately permissive: it accepts any numeric value, which
/// keeps its flavour.
pub open spec fn fits_tag(tag: TypeTag, v: TypedValue) -> bool {
    match tag {
        TypeTag::Float64 => v is Int || v is UInt || v is Float,
        TypeTag::Int64 => v is Int,
        TypeTag::UInt64 => v is UInt,
        TypeTag::Bool => v is Bool,
        TypeTag::Text => v is Text,
    }
}

/// The coercion of an ingested value to a field's type: `None` when the
/// value's dynamic type cannot be coerced (such an entry is silently
/// dropped, never an error).
///
/// - a `Float64` field accepts any number, keeping its numeric flavour;
/// - an `Int64` field accepts a signed integer, or an unsigned one that
///   fits;
/// - a `UInt64` field accepts an unsigned integer, or a non-negative signed
///   one;
/// - `Bool` and `Text` fields accept exactly their own kind;
/// - null, arrays and objects are never accepted.
pub open spec fn spec_coerce(tag: TypeTag, v: AttributeValue) -> Option<TypedValue> {
    match tag {
        TypeTag::Float64 => match v {
            AttributeValue::Int(i) => Some(TypedValue::Int(i)),
            AttributeValue::UInt(u) => Some(TypedValue::UInt(u)),
            AttributeValue::Float(bits) => Some(TypedValue::Float(bits)),
            _ => None,
        },
        TypeTag::Int64 => match v {
            AttributeValue::Int(i) => Some(TypedValue::Int(i)),
            AttributeValue::UInt(u) => if u <= i64::MAX as u64 {
                Some(TypedValue::Int(u as i64))
            } else {
                None
            },
            _ => None,
        },
        TypeTag::UInt64 => match v {
            AttributeValue::UInt(u) => Some(TypedValue::UInt(u)),
            AttributeValue::Int(i) => if i >= 0 {
                Some(TypedValue::UInt(i as u64))
            } else {
                None
            },
            _ => None,
        },
        TypeTag::Bool => match v {
            AttributeValue::Bool(b) => Some(TypedValue::Bool(b)),
            _ => None,
        },
        TypeTag::Text => match v {
            AttributeValue::Text(s) => Some(TypedValue::Text(s)),
            _ => None,
        },
    }
}

/// A coerced value always agrees with the tag it was coerced to.
pub proof fn lemma_coerce_fits(tag: TypeTag, v: AttributeValue)
    ensures
        spec_coerce(tag, v) matches Some(tv) ==> fits_tag(tag, tv),
{
}

/// Coerces an ingested value to a field's type; see [`spec_coerce`].
pub fn coerce(tag: TypeTag, v: AttributeValue) -> (r: Option<TypedValue>)
    ensures
        r == spec_coerce(tag, v),
{
    match tag {
        TypeTag::Float64 => match v {
            AttributeValue::Int(i) => Some(TypedValue::Int(i)),
            AttributeValue::UInt(u) => Some(TypedValue::UInt(u)),
            AttributeValue::Float(bits) => Some(TypedValue::Float(bits)),
            _ => None,
        },
        TypeTag::Int64 => match v {
            AttributeValue::Int(i) => Some(TypedValue::Int(i)),
            AttributeValue::UInt(u) => if u <= i64::MAX as u64 {
                Some(TypedValue::Int(u as i64))
            } else {
                None
            },
            _ => None,
        },
        TypeTag::UInt64 => match v {
            AttributeValue::UInt(u) => Some(TypedValue::UInt(u)),
            AttributeValue::Int(i) => if i >= 0 {
                Some(TypedValue::UInt(i as u64))
            } else {
                None
            },
            _ => None,
        },
        TypeTag::Bool => match v {
            AttributeValue::Bool(b) => Some(TypedValue::Bool(b)),
            _ => None,
        },
        TypeTag::Text => match v {
            AttributeValue::Text(s) => Some(TypedValue::Text(s)),
            _ => None,
        },
    }
}

} // verus!
