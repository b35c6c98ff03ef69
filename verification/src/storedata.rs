//! The store-data companion: the codec of a record type, and the records it handles.

use crate::companion::StoreData;
use crate::descriptor::DataDescriptorImpl;
use crate::field::copy_bounds;
use crate::field::copy_fields;
use crate::field::shapes;
use crate::field::Field;
use crate::protocol::Error;
use crate::protocol::Reader;
use crate::protocol::Writer;
use crate::query::DataQueryImpl;
use crate::session::added;
use crate::session::in_order;
use crate::session::reports;
use crate::session::Attempt;
use crate::session::FieldShape;
use crate::session::FieldValue;
use crate::session::ReadSession;
use crate::session::WriteSession;
use crate::tag::TypeTag;
use crate::value::Value;
use crate::value::ValueView;
use vstd::prelude::*;
use vstd::string::StringExecFns;

verus! {

/// A materialized record: one value for each field of its type, in declaration order.
#[derive(Debug, PartialEq, Eq)]
pub struct Record {
    fields: Vec<Field>,
    values: Vec<Value>,
}

/// The mathematical value of a [`Record`].
pub struct RecordView {
    /// The fields of the record's type, in declaration order.
    pub shape: Seq<FieldShape>,
    /// The value of each field, in declaration order.
    pub values: Seq<ValueView>,
}

/// The views of `values`, in the same order.
pub open spec fn value_views(values: Seq<Value>) -> Seq<ValueView> {
    Seq::new(values.len(), |i: int| values[i]@)
}

/// `values` holds one value for each field of `shape`, each of its field's kind.
pub open spec fn conforms(shape: Seq<FieldShape>, values: Seq<ValueView>) -> bool {
    &&& values.len() == shape.len()
    &&& forall|i: int| 0 <= i < values.len() ==> (#[trigger] values[i]).tag() == shape[i].ty
}

impl RecordView {
    /// Every field has a value, and each value is of its field's kind.
    pub open spec fn wf(self) -> bool {
        conforms(self.shape, self.values)
    }

    /// What writing the record emits: every field's name with its value, in declaration order.
    pub open spec fn emission(self) -> Seq<FieldValue> {
        Seq::new(
            self.shape.len(),
            |i: int| FieldValue { key: self.shape[i].key, value: self.values[i] },
        )
    }
}

impl View for Record {
    type V = RecordView;

    closed spec fn view(&self) -> RecordView {
        RecordView { shape: shapes(self.fields@), values: value_views(self.values@) }
    }
}

/// The message of the error that is raised when a backend answers the read of the field called
/// `key` with a value of another kind than the field's.
pub open spec fn unexpected_type(key: Seq<char>) -> Seq<char> {
    "unexpected type for field "@ + key
}

/// `e` is an error that the backend's [`Error::custom`] made of the message `msg`.
pub open spec fn raised<E: Error>(msg: Seq<char>, e: E) -> bool {
    exists|s: String| s@ == msg && #[trigger] call_ensures(E::custom::<String>, (s,), e)
}

/// The backend answered the read with a value of the kind that was asked for.
pub open spec fn fits<E>(attempt: Attempt<FieldShape, ValueView, E>) -> bool {
    attempt.outcome matches Ok(v) && v.tag() == attempt.call.ty
}

/// `r` is what reading a record of the fields `shape` gives when the reads `attempts` were
/// made. The fields are read in declaration order, and the run goes on while each answer is a
/// value of its field's kind. When every field was answered so, `r` is the record of those
/// values. Else `r` is the error that ended the run: the backend's own, unchanged, or, for a
/// value of another kind, the error that the backend made of [`unexpected_type`].
pub open spec fn decodes<E: Error>(
    attempts: Seq<Attempt<FieldShape, ValueView, E>>,
    shape: Seq<FieldShape>,
    r: Result<Record, E>,
) -> bool {
    &&& in_order(attempts, shape)
    &&& forall|i: int| 0 <= i < attempts.len() - 1 ==> fits(#[trigger] attempts[i])
    &&& match r {
        Ok(record) => {
            &&& attempts.len() == shape.len()
            &&& record@.shape == shape
            &&& record@.values.len() == shape.len()
            &&& record@.wf()
            &&& forall|i: int|
                0 <= i < attempts.len() ==> (#[trigger] attempts[i]).outcome == Ok::<
                    ValueView,
                    E,
                >(record@.values[i])
        },
        Err(e) => {
            &&& attempts.len() > 0
            &&& match attempts.last().outcome {
                Ok(v) => v.tag() != attempts.last().call.ty && raised(
                    unexpected_type(attempts.last().call.key),
                    e,
                ),
                Err(given) => e == given,
            }
        },
    }
}

/// The reads `read` were answered from a channel that lost nothing of what `written` put into
/// it: where the `i`-th read asks for the key of the `i`-th field written, it is answered with
/// the value written there.
pub open spec fn lossless<F, E>(
    written: Seq<Attempt<FieldValue, (), F>>,
    read: Seq<Attempt<FieldShape, ValueView, E>>,
) -> bool {
    forall|i: int|
        0 <= i < read.len() && i < written.len() && (#[trigger] read[i]).call.key
            == written[i].call.key ==> read[i].outcome == Ok::<ValueView, E>(
            written[i].call.value,
        )
}

/// Reading gives back what was written: when a record was written in full and its type's codec
/// reads from a channel that lost nothing of it, the codec gives a record equal to the one
/// written.
pub proof fn lemma_round_trip<F, E: Error>(
    x: RecordView,
    written: Seq<Attempt<FieldValue, (), F>>,
    read: Seq<Attempt<FieldShape, ValueView, E>>,
    r: Result<Record, E>,
)
    requires
        x.wf(),
        reports(written, x.emission(), Ok::<(), F>(())),
        lossless(written, read),
        decodes(read, x.shape, r),
    ensures
        r matches Ok(y) && y@ == x,
{
    assert forall|i: int| 0 <= i < read.len() implies (#[trigger] read[i]).outcome == Ok::<
        ValueView,
        E,
    >(x.values[i]) && fits(read[i]) by {
        assert(read[i].call == x.shape[i]);
        assert(written[i].call == x.emission()[i]);
        assert(x.values[i].tag() == x.shape[i].ty);
    }
    match r {
        Ok(y) => {
            assert forall|i: int| 0 <= i < x.values.len() implies y@.values[i] == x.values[i] by {
                assert(read[i].outcome == Ok::<ValueView, E>(y@.values[i]));
            }
            assert(y@.values =~= x.values);
        },
        Err(e) => {
            assert(fits(read.last()));
        },
    }
}

impl Clone for Record {
    /// A copy that holds the same values for the same fields.
    fn clone(&self) -> (copy: Self)
        ensures
            copy@ == self@,
    {
        proof {
            use_type_invariant(self);
        }
        let mut values: Vec<Value> = Vec::new();
        let mut i: usize = 0;
        while i < self.values.len()
            invariant
                i <= self.values.len(),
                values@.len() == i,
                forall|k: int| 0 <= k < i ==> (#[trigger] values@[k])@ == self.values@[k]@,
            decreases self.values.len() - i,
        {
            values.push(self.values[i].clone());
            i += 1;
        }
        let fields = copy_fields(&self.fields);
        proof {
            assert(value_views(values@) =~= value_views(self.values@));
        }
        Record { fields, values }
    }
}

impl Record {
    /// Every field has a value, and each value is of its field's kind.
    #[verifier::type_invariant]
    spec fn inv(self) -> bool {
        self@.wf()
    }

    /// The fields of the record's type, in declaration order.
    pub fn fields(&self) -> (fields: &Vec<Field>)
        ensures
            shapes(fields@) == self@.shape,
    {
        &self.fields
    }

    /// The value of each field, in declaration order.
    pub fn values(&self) -> (values: &Vec<Value>)
        ensures
            value_views(values@) == self@.values,
    {
        &self.values
    }

    /// Serializes the record into the backend: one `write_field` for each field, in declaration
    /// order, with the field's name and value. The first error ends the run and is handed back
    /// as the backend gave it.
    pub fn write<W: Writer>(&self, writer: &mut WriteSession<W>) -> (r: Result<(), W::Error>)
        ensures
            self@.wf(),
            old(writer).fields().is_prefix_of(final(writer).fields()),
            reports(added(old(writer).fields(), final(writer).fields()), self@.emission(), r),
            final(writer).scalars() == old(writer).scalars(),
    {
        proof {
            use_type_invariant(self);
        }
        let ghost before = writer.fields();
        let ghost plan = self@.emission();
        let mut i: usize = 0;
        while i < self.fields.len()
            invariant
                i <= self.fields.len(),
                self@.wf(),
                self.values@.len() == self.fields@.len(),
                plan == self@.emission(),
                before == old(writer).fields(),
                before.is_prefix_of(writer.fields()),
                added(before, writer.fields()).len() == i,
                forall|k: int|
                    0 <= k < i ==> {
                        &&& (#[trigger] added(before, writer.fields())[k]).call == plan[k]
                        &&& added(before, writer.fields())[k].outcome is Ok
                    },
                writer.scalars() == old(writer).scalars(),
            decreases self.fields.len() - i,
        {
            let ghost so_far = writer.fields();
            let r = writer.write_field(self.fields[i].name.as_str(), &self.values[i]);
            proof {
                let now = writer.fields();
                assert forall|k: int| 0 <= k < i implies added(before, now)[k] == added(
                    before,
                    so_far,
                )[k] by {}
                assert(added(before, now)[i as int].call == plan[i as int]);
                assert(added(before, now)[i as int].outcome == r);
            }
            match r {
                Ok(_) => {},
                Err(e) => {
                    return Err(e);
                },
            }
            i += 1;
        }
        Ok(())
    }
}

/// The codec derived for one record type: it makes records of the type, and reads them back
/// from a backend.
#[derive(Debug)]
pub struct StoreDataImpl {
    ident: String,
    descriptor: String,
    query: String,
    fields: Vec<Field>,
    bounds: Vec<TypeTag>,
}

/// The mathematical value of a [`StoreDataImpl`].
pub struct StoreDataView {
    /// The identifier of the record type.
    pub ident: Seq<char>,
    /// The identifier of the descriptor companion.
    pub descriptor: Seq<char>,
    /// The identifier of the query companion.
    pub query: Seq<char>,
    /// The fields of the record, in declaration order.
    pub shape: Seq<FieldShape>,
    /// The kinds that a backend must support.
    pub bounds: Seq<TypeTag>,
}

impl View for StoreDataImpl {
    type V = StoreDataView;

    closed spec fn view(&self) -> StoreDataView {
        StoreDataView {
            ident: self.ident@,
            descriptor: self.descriptor@,
            query: self.query@,
            shape: shapes(self.fields@),
            bounds: self.bounds@,
        }
    }
}

impl Clone for StoreDataImpl {
    /// A copy that handles the same record type.
    fn clone(&self) -> (copy: Self)
        ensures
            copy@ == self@,
    {
        StoreDataImpl {
            ident: self.ident.clone(),
            descriptor: self.descriptor.clone(),
            query: self.query.clone(),
            fields: copy_fields(&self.fields),
            bounds: copy_bounds(&self.bounds),
        }
    }
}

impl StoreDataImpl {
    /// The codec of the record type `ident` with the fields `fields`, whose companions are
    /// called `descriptor` and `query`.
    pub(crate) fn new(
        ident: String,
        descriptor: String,
        query: String,
        fields: Vec<Field>,
        bounds: Vec<TypeTag>,
    ) -> (s: Self)
        ensures
            s@ == (StoreDataView {
                ident: ident@,
                descriptor: descriptor@,
                query: query@,
                shape: shapes(fields@),
                bounds: bounds@,
            }),
    {
        StoreDataImpl { ident, descriptor, query, fields, bounds }
    }

    /// The identifier of the record type.
    pub fn ident(&self) -> (ident: &str)
        ensures
            ident@ == self@.ident,
    {
        self.ident.as_str()
    }

    /// The identifier of the descriptor companion.
    pub fn descriptor_ident(&self) -> (ident: &str)
        ensures
            ident@ == self@.descriptor,
    {
        self.descriptor.as_str()
    }

    /// The identifier of the query companion.
    pub fn query_ident(&self) -> (ident: &str)
        ensures
            ident@ == self@.query,
    {
        self.query.as_str()
    }

    /// The kinds that a backend must support to store the record.
    pub fn bounds(&self) -> (bounds: &Vec<TypeTag>)
        ensures
            bounds@ == self@.bounds,
    {
        &self.bounds
    }

    /// Makes the record that holds `values`, the `i`-th as the value of the `i`-th field. There
    /// is such a record only if `values` holds one value for each field, each of its field's
    /// kind.
    pub fn record(&self, values: Vec<Value>) -> (record: Option<Record>)
        ensures
            record is Some <==> conforms(self@.shape, value_views(values@)),
            record matches Some(x) ==> x@ == (RecordView {
                shape: self@.shape,
                values: value_views(values@),
            }),
    {
        if values.len() != self.fields.len() {
            return None;
        }
        let mut i: usize = 0;
        while i < values.len()
            invariant
                i <= values.len(),
                values@.len() == self.fields@.len(),
                forall|k: int|
                    0 <= k < i ==> (#[trigger] value_views(values@)[k]).tag() == shapes(
                        self.fields@,
                    )[k].ty,
            decreases values.len() - i,
        {
            if values[i].tag() != self.fields[i].ty {
                assert(value_views(values@)[i as int].tag() != shapes(self.fields@)[i as int].ty);
                return None;
            }
            i += 1;
        }
        let fields = copy_fields(&self.fields);
        Some(Record { fields, values })
    }
}

impl StoreData for StoreDataImpl {
    type Data = Record;

    type Descriptor = DataDescriptorImpl;

    type Query = DataQueryImpl;

    /// Serializes the record `data` into the backend, as [`Record::write`] does.
    fn write<W>(&self, data: &Record, writer: &mut WriteSession<W>) -> (r: Result<
        (),
        W::Error,
    >) where W: Writer

        ensures
            data@.wf(),
            old(writer).fields().is_prefix_of(final(writer).fields()),
            reports(added(old(writer).fields(), final(writer).fields()), data@.emission(), r),
            final(writer).scalars() == old(writer).scalars(),
    {
        data.write(writer)
    }

    /// Deserializes a record from the backend: one `read_field` for each field, in declaration
    /// order, with the field's name and kind. The record is made only after every field was
    /// read. The first error ends the run and is handed back as the backend gave it; a value of
    /// another kind than its field's ends the run with a custom error of the backend.
    fn read<R>(&self, reader: &mut ReadSession<R>) -> (r: Result<Record, R::Error>) where
        R: Reader,

        ensures
            old(reader).fields().is_prefix_of(final(reader).fields()),
            decodes(added(old(reader).fields(), final(reader).fields()), self@.shape, r),
            final(reader).scalars() == old(reader).scalars(),
    {
        let ghost before = reader.fields();
        let ghost shape = self@.shape;
        let mut values: Vec<Value> = Vec::new();
        let mut i: usize = 0;
        while i < self.fields.len()
            invariant
                i <= self.fields.len(),
                shape == shapes(self.fields@),
                before == old(reader).fields(),
                before.is_prefix_of(reader.fields()),
                added(before, reader.fields()).len() == i,
                values@.len() == i,
                forall|k: int|
                    0 <= k < i ==> {
                        &&& (#[trigger] added(before, reader.fields())[k]).call == shape[k]
                        &&& added(before, reader.fields())[k].outcome == Ok::<
                            ValueView,
                            R::Error,
                        >(values@[k]@)
                        &&& values@[k]@.tag() == shape[k].ty
                    },
                reader.scalars() == old(reader).scalars(),
            decreases self.fields.len() - i,
        {
            let ghost so_far = reader.fields();
            let r = reader.read_field(self.fields[i].name.as_str(), self.fields[i].ty);
            proof {
                let now = reader.fields();
                assert forall|k: int| 0 <= k < i implies added(before, now)[k] == added(
                    before,
                    so_far,
                )[k] by {}
                assert(added(before, now)[i as int].call == shape[i as int]);
            }
            match r {
                Ok(value) => {
                    if value.tag() != self.fields[i].ty {
                        let mut msg = String::from_str("unexpected type for field ");
                        msg.append(self.fields[i].name.as_str());
                        return Err(R::Error::custom(msg));
                    }
                    values.push(value);
                },
                Err(e) => {
                    return Err(e);
                },
            }
            i += 1;
        }
        let fields = copy_fields(&self.fields);
        proof {
            let attempts = added(before, reader.fields());
            assert forall|k: int| 0 <= k < value_views(values@).len() implies (
            #[trigger] value_views(values@)[k]).tag() == shapes(fields@)[k].ty by {
                assert(attempts[k].call == shape[k]);
            }
        }
        let record = Record { fields, values };
        proof {
            let attempts = added(before, reader.fields());
            assert(record@.shape == shape);
            assert(record@.values == value_views(values@));
            assert forall|k: int| 0 <= k < record@.values.len() implies (
            #[trigger] record@.values[k]).tag() == shape[k].ty by {
                assert(attempts[k].call == shape[k]);
            }
            assert forall|k: int| 0 <= k < attempts.len() implies (
            #[trigger] attempts[k]).outcome == Ok::<ValueView, R::Error>(record@.values[k]) by {}
            assert forall|k: int| 0 <= k < attempts.len() - 1 implies fits(
                #[trigger] attempts[k],
            ) by {}
        }
        Ok(record)
    }
}

} // verus!
