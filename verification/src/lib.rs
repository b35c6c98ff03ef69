//! Record companions: a schema descriptor, a partial-field query and a field-by-field codec,
//! derived from one declaration of a record and run against any backend.
//!
//! A record is declared once, as a [`derive::DeriveInput`]: an identifier, attributes and named
//! fields. [`expand_macro`] derives its three companions from that declaration:
//!
//! - a [`descriptor::DataDescriptorImpl`], which describes the fields of the record to a
//!   [`TypeWriter`] and knows the name under which the record is stored;
//! - a [`query::DataQueryImpl`], which writes the fields that were set, and only those, to a
//!   [`Writer`];
//! - a [`storedata::StoreDataImpl`], which makes [`storedata::Record`]s, writes them to a
//!   [`Writer`] and reads them back from a [`Reader`].
//!
//! A backend implements the three protocol traits and is free in everything else. The
//! companions reach it through a session ([`TypeSession`], [`WriteSession`], [`ReadSession`]),
//! which notes every call. Their contracts say which calls are made and in which order, and how
//! the answers of the backend decide the result.
//!
//! ## Container attributes
//!
//! - `#[datastore(name = "name")]`
//!
//! Change the unique identifier of the data to the specified `name`. By default the name is
//! inferred by the local identifier of the type.

pub mod attrs;
pub mod bounds;
pub mod companion;
pub mod derive;
pub mod descriptor;
pub mod field;
pub mod protocol;
pub mod query;
pub mod session;
pub mod state;
pub mod storedata;
pub mod syntax;
pub mod tag;
pub mod text;
pub mod value;

pub use attrs::Attr;
pub use attrs::Attrs;
pub use companion::DataDescriptor;
pub use companion::DataQuery;
pub use companion::StoreData;
pub use derive::expand_macro;
pub use protocol::Error;
pub use protocol::Reader;
pub use protocol::TypeWriter;
pub use protocol::Writer;
pub use session::ReadSession;
pub use session::TypeSession;
pub use session::WriteSession;
pub use state::State;
pub use tag::TypeTag;
pub use value::Value;
