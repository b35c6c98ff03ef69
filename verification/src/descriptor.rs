//! The descriptor companion: the schema of a record, with no instance data.

use crate::companion::DataDescriptor;
use crate::field::copy_bounds;
use crate::field::copy_fields;
use crate::field::shapes;
use crate::field::Field;
use crate::protocol::TypeWriter;
use crate::session::added;
use crate::session::reports;
use crate::session::FieldShape;
use crate::session::TypeSession;
use crate::tag::TypeTag;
use vstd::prelude::*;

verus! {

/// The descriptor derived for one record type. It holds the name under which the record is
/// stored and the shape of the record, and nothing of any instance: it can be used any number
/// of times, and every use describes the same shape.
#[derive(Debug)]
pub struct DataDescriptorImpl {
    ident: String,
    name: String,
    fields: Vec<Field>,
    bounds: Vec<TypeTag>,
}

/// The mathematical value of a [`DataDescriptorImpl`].
pub struct DescriptorView {
    /// The identifier of the companion itself.
    pub ident: Seq<char>,
    /// The resolved name of the record.
    pub name: Seq<char>,
    /// The fields of the record, in declaration order.
    pub shape: Seq<FieldShape>,
    /// The kinds that a backend must support.
    pub bounds: Seq<TypeTag>,
}

impl View for DataDescriptorImpl {
    type V = DescriptorView;

    closed spec fn view(&self) -> DescriptorView {
        DescriptorView {
            ident: self.ident@,
            name: self.name@,
            shape: shapes(self.fields@),
            bounds: self.bounds@,
        }
    }
}

impl Clone for DataDescriptorImpl {
    /// A copy that describes the same record.
    fn clone(&self) -> (copy: Self)
        ensures
            copy@ == self@,
    {
        DataDescriptorImpl {
            ident: self.ident.clone(),
            name: self.name.clone(),
            fields: copy_fields(&self.fields),
            bounds: copy_bounds(&self.bounds),
        }
    }
}

impl DataDescriptorImpl {
    /// The descriptor called `ident`, of the record that is stored as `name` and has the fields
    /// `fields`, which need the kinds `bounds` of a backend.
    pub(crate) fn new(ident: String, name: String, fields: Vec<Field>, bounds: Vec<TypeTag>) -> (d:
        Self)
        ensures
            d@ == (DescriptorView {
                ident: ident@,
                name: name@,
                shape: shapes(fields@),
                bounds: bounds@,
            }),
    {
        DataDescriptorImpl { ident, name, fields, bounds }
    }

    /// The identifier of the companion itself.
    pub fn companion_ident(&self) -> (ident: &str)
        ensures
            ident@ == self@.ident,
    {
        self.ident.as_str()
    }

    /// The fields of the record, in declaration order.
    pub fn fields(&self) -> (fields: &Vec<Field>)
        ensures
            shapes(fields@) == self@.shape,
    {
        &self.fields
    }

    /// The kinds that a backend must support to store the record.
    pub fn bounds(&self) -> (bounds: &Vec<TypeTag>)
        ensures
            bounds@ == self@.bounds,
    {
        &self.bounds
    }
}

impl DataDescriptor for DataDescriptorImpl {
    /// Returns the identifier of the data: the resolved name of the record.
    fn ident(&self) -> (name: &str)
        ensures
            name@ == self@.name,
    {
        self.name.as_str()
    }

    /// Serializes the format of the record into the backend: one `write_field` for each field,
    /// in declaration order, with the field's name and kind. The first error ends the run and is
    /// handed back as the backend gave it. A record without fields describes nothing and
    /// succeeds.
    fn write<W>(&self, writer: &mut TypeSession<W>) -> (r: Result<(), W::Error>) where
        W: TypeWriter,

        ensures
            old(writer).fields().is_prefix_of(final(writer).fields()),
            reports(added(old(writer).fields(), final(writer).fields()), self@.shape, r),
            final(writer).tags() == old(writer).tags(),
    {
        let ghost before = writer.fields();
        let ghost shape = self@.shape;
        let mut i: usize = 0;
        while i < self.fields.len()
            invariant
                i <= self.fields.len(),
                shape == shapes(self.fields@),
                before == old(writer).fields(),
                before.is_prefix_of(writer.fields()),
                added(before, writer.fields()).len() == i,
                forall|k: int|
                    0 <= k < i ==> {
                        &&& (#[trigger] added(before, writer.fields())[k]).call == shape[k]
                        &&& added(before, writer.fields())[k].outcome is Ok
                    },
                writer.tags() == old(writer).tags(),
            decreases self.fields.len() - i,
        {
            let ghost so_far = writer.fields();
            let r = writer.write_field(self.fields[i].name.as_str(), self.fields[i].ty);
            proof {
                let now = writer.fields();
                assert forall|k: int| 0 <= k < i implies added(before, now)[k] == added(
                    before,
                    so_far,
                )[k] by {}
                assert(added(before, now)[i as int].call == shape[i as int]);
                assert(added(before, now)[i as int].outcome == r);
            }
            match r {
                Ok(_) => {},
                Err(e) => {
                    return Err(e);
                },
            }
            i += 1;
        }
        Ok(())
    }
}

} // verus!
