//! The protocol triad: what a backend implements so that companions can run against it.
//!
//! The library only calls these methods. It decides nothing about how a backend lays a value
//! out, and it promises nothing about what a backend answers.

use crate::tag::TypeTag;
use crate::value::Value;
use std::fmt::Display;
use vstd::prelude::*;

verus! {

/// An error that can occur when reading or writing a type from a store.
pub trait Error: Sized {
    /// Creates a new custom `Error` with the given `msg`.
    fn custom<T>(msg: T) -> Self where T: Display;
}

/// Takes the values of a record, scalar by scalar and field by field.
pub trait Writer {
    type Error;

    /// Writes a `bool` value.
    fn write_bool(&mut self, v: bool) -> Result<(), Self::Error>;

    /// Writes a `i8` value.
    fn write_i8(&mut self, v: i8) -> Result<(), Self::Error>;

    /// Writes a `i16` value.
    fn write_i16(&mut self, v: i16) -> Result<(), Self::Error>;

    /// Writes a `i32` value.
    fn write_i32(&mut self, v: i32) -> Result<(), Self::Error>;

    /// Writes a `i64` value.
    fn write_i64(&mut self, v: i64) -> Result<(), Self::Error>;

    /// Writes a `u8` value.
    fn write_u8(&mut self, v: u8) -> Result<(), Self::Error>;

    /// Writes a `u16` value.
    fn write_u16(&mut self, v: u16) -> Result<(), Self::Error>;

    /// Writes a `u32` value.
    fn write_u32(&mut self, v: u32) -> Result<(), Self::Error>;

    /// Writes a `u64` value.
    fn write_u64(&mut self, v: u64) -> Result<(), Self::Error>;

    /// Writes a 32-bit floating-point value, given as its bits.
    fn write_f32(&mut self, bits: u32) -> Result<(), Self::Error>;

    /// Writes a 64-bit floating-point value, given as its bits.
    fn write_f64(&mut self, bits: u64) -> Result<(), Self::Error>;

    /// Writes a raw byte slice.
    fn write_bytes(&mut self, v: &[u8]) -> Result<(), Self::Error>;

    /// Writes a `&str`.
    fn write_str(&mut self, v: &str) -> Result<(), Self::Error>;

    /// Writes a field with the key `key` and the value `value`.
    fn write_field(&mut self, key: &str, value: &Value) -> Result<(), Self::Error>;
}

/// Gives the values of a record back, scalar by scalar and field by field.
pub trait Reader {
    type Error: Error;

    fn read_bool(&mut self) -> Result<bool, Self::Error>;

    fn read_i8(&mut self) -> Result<i8, Self::Error>;

    fn read_i16(&mut self) -> Result<i16, Self::Error>;

    fn read_i32(&mut self) -> Result<i32, Self::Error>;

    fn read_i64(&mut self) -> Result<i64, Self::Error>;

    fn read_u8(&mut self) -> Result<u8, Self::Error>;

    fn read_u16(&mut self) -> Result<u16, Self::Error>;

    fn read_u32(&mut self) -> Result<u32, Self::Error>;

    fn read_u64(&mut self) -> Result<u64, Self::Error>;

    /// Reads a 32-bit floating-point value, given as its bits.
    fn read_f32(&mut self) -> Result<u32, Self::Error>;

    /// Reads a 64-bit floating-point value, given as its bits.
    fn read_f64(&mut self) -> Result<u64, Self::Error>;

    fn read_byte_buf(&mut self) -> Result<Vec<u8>, Self::Error>;

    fn read_string(&mut self) -> Result<String, Self::Error>;

    /// Reads the field with the key `key`, whose declared kind is `ty`.
    fn read_field(&mut self, key: &str, ty: TypeTag) -> Result<Value, Self::Error>;
}

/// Takes the shape of a record: the kinds of its fields, with no value.
pub trait TypeWriter {
    type Error;

    fn write_bool(&mut self) -> Result<(), Self::Error>;

    fn write_i8(&mut self) -> Result<(), Self::Error>;

    fn write_i16(&mut self) -> Result<(), Self::Error>;

    fn write_i32(&mut self) -> Result<(), Self::Error>;

    fn write_i64(&mut self) -> Result<(), Self::Error>;

    fn write_u8(&mut self) -> Result<(), Self::Error>;

    fn write_u16(&mut self) -> Result<(), Self::Error>;

    fn write_u32(&mut self) -> Result<(), Self::Error>;

    fn write_u64(&mut self) -> Result<(), Self::Error>;

    fn write_f32(&mut self) -> Result<(), Self::Error>;

    fn write_f64(&mut self) -> Result<(), Self::Error>;

    fn write_bytes(&mut self) -> Result<(), Self::Error>;

    fn write_str(&mut self) -> Result<(), Self::Error>;

    /// Describes a field with the key `key`, whose declared kind is `ty`.
    fn write_field(&mut self, key: &str, ty: TypeTag) -> Result<(), Self::Error>;
}

} // verus!
