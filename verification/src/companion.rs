//! The companion contracts: the three roles that come with every record type.
//!
//! The derivation engine makes one implementation of each role for a declared record. A role can
//! also be implemented by hand, for a record type that is not derived.

use crate::protocol::Reader;
use crate::protocol::TypeWriter;
use crate::protocol::Writer;
use crate::session::ReadSession;
use crate::session::TypeSession;
use crate::session::WriteSession;
use vstd::prelude::*;

verus! {

/// A descriptor for a record type.
///
/// `DataDescriptor` describes the format of the records of the type without containing any data
/// itself.
pub trait DataDescriptor {
    /// Returns the identifier of the data.
    fn ident(&self) -> &str;

    /// Serializes the format of the data into the [`TypeWriter`].
    fn write<W>(&self, writer: &mut TypeSession<W>) -> Result<(), W::Error> where W: TypeWriter;
}

/// A query type for a record type.
///
/// `DataQuery` is used to filter the records of the type.
pub trait DataQuery {
    /// Serializes the query into the [`Writer`].
    fn write<W>(&self, writer: &mut WriteSession<W>) -> Result<(), W::Error> where W: Writer;
}

/// A record type whose records can be stored: it writes a record to a backend and reads one
/// back.
pub trait StoreData {
    /// The records of the type.
    type Data;

    type Descriptor: DataDescriptor;

    type Query: DataQuery;

    /// Serializes the record `data` into the [`Writer`].
    fn write<W>(&self, data: &Self::Data, writer: &mut WriteSession<W>) -> Result<
        (),
        W::Error,
    > where W: Writer;

    /// Deserializes a new record from the [`Reader`].
    fn read<R>(&self, reader: &mut ReadSession<R>) -> Result<Self::Data, R::Error> where
        R: Reader,
    ;
}

} // verus!
