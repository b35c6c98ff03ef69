//! Scalar values, one kind per type tag.

use crate::tag::TypeTag;
use vstd::prelude::*;

verus! {

/// One scalar value. Each variant holds a value of the native kind that the tag of the same
/// name stands for; a floating-point value is held as its bit pattern.
#[derive(Debug, PartialEq, Eq)]
pub enum Value {
    Bool(bool),
    I8(i8),
    I16(i16),
    I32(i32),
    I64(i64),
    U8(u8),
    U16(u16),
    U32(u32),
    U64(u64),
    /// The bits of a 32-bit floating-point number.
    F32(u32),
    /// The bits of a 64-bit floating-point number.
    F64(u64),
    Bytes(Vec<u8>),
    Str(String),
}

/// The mathematical value of a [`Value`].
pub enum ValueView {
    Bool(bool),
    I8(i8),
    I16(i16),
    I32(i32),
    I64(i64),
    U8(u8),
    U16(u16),
    U32(u32),
    U64(u64),
    F32(u32),
    F64(u64),
    Bytes(Seq<u8>),
    Str(Seq<char>),
}

impl ValueView {
    /// The kind of the value.
    pub open spec fn tag(self) -> TypeTag {
        match self {
            ValueView::Bool(_) => TypeTag::Bool,
            ValueView::I8(_) => TypeTag::I8,
            ValueView::I16(_) => TypeTag::I16,
            ValueView::I32(_) => TypeTag::I32,
            ValueView::I64(_) => TypeTag::I64,
            ValueView::U8(_) => TypeTag::U8,
            ValueView::U16(_) => TypeTag::U16,
            ValueView::U32(_) => TypeTag::U32,
            ValueView::U64(_) => TypeTag::U64,
            ValueView::F32(_) => TypeTag::F32,
            ValueView::F64(_) => TypeTag::F64,
            ValueView::Bytes(_) => TypeTag::Bytes,
            ValueView::Str(_) => TypeTag::Str,
        }
    }
}

impl View for Value {
    type V = ValueView;

    open spec fn view(&self) -> ValueView {
        match self {
            Value::Bool(v) => ValueView::Bool(*v),
            Value::I8(v) => ValueView::I8(*v),
            Value::I16(v) => ValueView::I16(*v),
            Value::I32(v) => ValueView::I32(*v),
            Value::I64(v) => ValueView::I64(*v),
            Value::U8(v) => ValueView::U8(*v),
            Value::U16(v) => ValueView::U16(*v),
            Value::U32(v) => ValueView::U32(*v),
            Value::U64(v) => ValueView::U64(*v),
            Value::F32(bits) => ValueView::F32(*bits),
            Value::F64(bits) => ValueView::F64(*bits),
            Value::Bytes(v) => ValueView::Bytes(v@),
            Value::Str(v) => ValueView::Str(v@),
        }
    }
}

impl Clone for Value {
    /// A copy that holds the same value.
    fn clone(&self) -> (copy: Self)
        ensures
            copy@ == self@,
    {
        match self {
            Value::Bool(v) => Value::Bool(*v),
            Value::I8(v) => Value::I8(*v),
            Value::I16(v) => Value::I16(*v),
            Value::I32(v) => Value::I32(*v),
            Value::I64(v) => Value::I64(*v),
            Value::U8(v) => Value::U8(*v),
            Value::U16(v) => Value::U16(*v),
            Value::U32(v) => Value::U32(*v),
            Value::U64(v) => Value::U64(*v),
            Value::F32(bits) => Value::F32(*bits),
            Value::F64(bits) => Value::F64(*bits),
            Value::Bytes(v) => {
                let copy = v.clone();
                assert(copy@ =~= v@);
                Value::Bytes(copy)
            },
            Value::Str(v) => Value::Str(v.clone()),
        }
    }
}

impl Value {
    /// The kind of the value.
    pub fn tag(&self) -> (tag: TypeTag)
        ensures
            tag == self@.tag(),
    {
        match self {
            Value::Bool(_) => TypeTag::Bool,
            Value::I8(_) => TypeTag::I8,
            Value::I16(_) => TypeTag::I16,
            Value::I32(_) => TypeTag::I32,
            Value::I64(_) => TypeTag::I64,
            Value::U8(_) => TypeTag::U8,
            Value::U16(_) => TypeTag::U16,
            Value::U32(_) => TypeTag::U32,
            Value::U64(_) => TypeTag::U64,
            Value::F32(_) => TypeTag::F32,
            Value::F64(_) => TypeTag::F64,
            Value::Bytes(_) => TypeTag::Bytes,
            Value::Str(_) => TypeTag::Str,
        }
    }
}

} // verus!
