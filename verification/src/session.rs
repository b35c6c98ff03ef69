//! Sessions: a backend together with the record of what was asked of it.
//!
//! A companion talks to a backend only through a session. The session passes each call on
//! unchanged and notes, as ghost state, the call and what the backend answered. The contracts of
//! the companions are stated over those notes: they say which calls were made, in which order,
//! and how the answers decide the result. Nothing is assumed of the backend itself.

use crate::protocol::Reader;
use crate::protocol::TypeWriter;
use crate::protocol::Writer;
use crate::tag::TypeTag;
use crate::value::Value;
use crate::value::ValueView;
use vstd::prelude::*;

verus! {

/// One call made in a session, and what the backend answered.
pub struct Attempt<C, T, E> {
    pub call: C,
    pub outcome: Result<T, E>,
}

/// A field as a shape: its key and its declared kind.
pub struct FieldShape {
    pub key: Seq<char>,
    pub ty: TypeTag,
}

/// A field as a value: its key and what it holds.
pub struct FieldValue {
    pub key: Seq<char>,
    pub value: ValueView,
}

/// What a backend answered to a read, with the value taken by its view.
pub open spec fn outcome_view<E>(r: Result<Value, E>) -> Result<ValueView, E> {
    match r {
        Ok(v) => Ok(v@),
        Err(e) => Err(e),
    }
}

/// The calls of `after` that follow those of `before`.
pub open spec fn added<A>(before: Seq<A>, after: Seq<A>) -> Seq<A> {
    after.skip(before.len() as int)
}

/// `attempts` are calls of `calls`, in order and from the first on, each but the last answered
/// with success: the run went on while the backend accepted, and no further.
pub open spec fn in_order<C, T, E>(attempts: Seq<Attempt<C, T, E>>, calls: Seq<C>) -> bool {
    &&& attempts.len() <= calls.len()
    &&& forall|i: int| 0 <= i < attempts.len() ==> (#[trigger] attempts[i]).call == calls[i]
    &&& forall|i: int| 0 <= i < attempts.len() - 1 ==> (#[trigger] attempts[i]).outcome is Ok
}

/// `r` is what a run of `calls` reports when it made `attempts`: success when every call was
/// made and accepted, else the error of the call that was refused, as the backend gave it.
pub open spec fn reports<C, E>(
    attempts: Seq<Attempt<C, (), E>>,
    calls: Seq<C>,
    r: Result<(), E>,
) -> bool {
    &&& in_order(attempts, calls)
    &&& match r {
        Ok(_) => attempts.len() == calls.len() && (attempts.len() > 0 ==> attempts.last().outcome
            is Ok),
        Err(e) => attempts.len() > 0 && attempts.last().outcome == Err::<(), E>(e),
    }
}

/// Runs of the same calls ask the same of every backend, every time: as far as two runs both
/// went, they made the same calls in the same order.
pub proof fn lemma_runs_agree<C, T, E, F>(
    first: Seq<Attempt<C, T, E>>,
    second: Seq<Attempt<C, T, F>>,
    calls: Seq<C>,
)
    requires
        in_order(first, calls),
        in_order(second, calls),
    ensures
        forall|i: int|
            0 <= i < first.len() && i < second.len() ==> (#[trigger] first[i]).call
                == second[i].call,
{
    assert forall|i: int| 0 <= i < first.len() && i < second.len() implies (
    #[trigger] first[i]).call == second[i].call by {
        assert(first[i].call == calls[i]);
        assert(second[i].call == calls[i]);
    }
}

/// A session in which the shape of a record is described to a backend.
pub struct TypeSession<'a, W: TypeWriter> {
    sink: &'a mut W,
    tags: Ghost<Seq<Attempt<TypeTag, (), W::Error>>>,
    fields: Ghost<Seq<Attempt<FieldShape, (), W::Error>>>,
}

impl<'a, W: TypeWriter> TypeSession<'a, W> {
    /// The kinds announced so far, one entry for each tag-write.
    pub closed spec fn tags(&self) -> Seq<Attempt<TypeTag, (), W::Error>> {
        self.tags@
    }

    /// The fields described so far, one entry for each call of `write_field`.
    pub closed spec fn fields(&self) -> Seq<Attempt<FieldShape, (), W::Error>> {
        self.fields@
    }

    /// Opens a session on `sink`, in which nothing has been described yet.
    pub fn new(sink: &'a mut W) -> (session: Self)
        ensures
            session.tags().len() == 0,
            session.fields().len() == 0,
    {
        TypeSession { sink, tags: Ghost(Seq::empty()), fields: Ghost(Seq::empty()) }
    }

    /// Describes a field with the key `key` and the kind `ty`: one call of the backend's
    /// `write_field`, whose answer is handed back unchanged.
    pub fn write_field(&mut self, key: &str, ty: TypeTag) -> (r: Result<(), W::Error>)
        ensures
            final(self).fields() == old(self).fields().push(
                Attempt { call: FieldShape { key: key@, ty }, outcome: r },
            ),
            final(self).tags() == old(self).tags(),
    {
        let r = self.sink.write_field(key, ty);
        self.fields = Ghost(
            self.fields@.push(Attempt { call: FieldShape { key: key@, ty }, outcome: r }),
        );
        r
    }
}

/// A session in which the values of a record are written to a backend.
pub struct WriteSession<'a, W: Writer> {
    sink: &'a mut W,
    scalars: Ghost<Seq<Attempt<ValueView, (), W::Error>>>,
    fields: Ghost<Seq<Attempt<FieldValue, (), W::Error>>>,
}

impl<'a, W: Writer> WriteSession<'a, W> {
    /// The scalars written so far, one entry for each tag-write.
    pub closed spec fn scalars(&self) -> Seq<Attempt<ValueView, (), W::Error>> {
        self.scalars@
    }

    /// The fields written so far, one entry for each call of `write_field`.
    pub closed spec fn fields(&self) -> Seq<Attempt<FieldValue, (), W::Error>> {
        self.fields@
    }

    /// Opens a session on `sink`, in which nothing has been written yet.
    pub fn new(sink: &'a mut W) -> (session: Self)
        ensures
            session.scalars().len() == 0,
            session.fields().len() == 0,
    {
        WriteSession { sink, scalars: Ghost(Seq::empty()), fields: Ghost(Seq::empty()) }
    }

    /// Writes a field with the key `key` and the value `value`: one call of the backend's
    /// `write_field`, whose answer is handed back unchanged.
    pub fn write_field(&mut self, key: &str, value: &Value) -> (r: Result<(), W::Error>)
        ensures
            final(self).fields() == old(self).fields().push(
                Attempt { call: FieldValue { key: key@, value: value@ }, outcome: r },
            ),
            final(self).scalars() == old(self).scalars(),
    {
        let r = self.sink.write_field(key, value);
        self.fields = Ghost(
            self.fields@.push(
                Attempt { call: FieldValue { key: key@, value: value@ }, outcome: r },
            ),
        );
        r
    }
}

/// A session in which the values of a record are read from a backend.
pub struct ReadSession<'a, R: Reader> {
    source: &'a mut R,
    scalars: Ghost<Seq<Attempt<TypeTag, ValueView, R::Error>>>,
    fields: Ghost<Seq<Attempt<FieldShape, ValueView, R::Error>>>,
}

impl<'a, R: Reader> ReadSession<'a, R> {
    /// The scalars asked for so far, one entry for each tag-read.
    pub closed spec fn scalars(&self) -> Seq<Attempt<TypeTag, ValueView, R::Error>> {
        self.scalars@
    }

    /// The fields asked for so far, one entry for each call of `read_field`.
    pub closed spec fn fields(&self) -> Seq<Attempt<FieldShape, ValueView, R::Error>> {
        self.fields@
    }

    /// Opens a session on `source`, in which nothing has been read yet.
    pub fn new(source: &'a mut R) -> (session: Self)
        ensures
            session.scalars().len() == 0,
            session.fields().len() == 0,
    {
        ReadSession { source, scalars: Ghost(Seq::empty()), fields: Ghost(Seq::empty()) }
    }

    /// Reads the field with the key `key`, declared with the kind `ty`: one call of the
    /// backend's `read_field`, whose answer is handed back unchanged. The backend alone decides
    /// what it answers, so the value may be of another kind than `ty`.
    pub fn read_field(&mut self, key: &str, ty: TypeTag) -> (r: Result<Value, R::Error>)
        ensures
            final(self).fields() == old(self).fields().push(
                Attempt { call: FieldShape { key: key@, ty }, outcome: outcome_view(r) },
            ),
            final(self).scalars() == old(self).scalars(),
    {
        let r = self.source.read_field(key, ty);
        self.fields = Ghost(
            self.fields@.push(
                Attempt { call: FieldShape { key: key@, ty }, outcome: outcome_view(r) },
            ),
        );
        r
    }
}

impl TypeTag {
    /// Reports this kind to a backend: exactly one tag-write, the one of this kind, whose answer
    /// is handed back unchanged.
    pub fn write_type<W: TypeWriter>(self, writer: &mut TypeSession<W>) -> (r: Result<
        (),
        W::Error,
    >)
        ensures
            final(writer).tags() == old(writer).tags().push(Attempt { call: self, outcome: r }),
            final(writer).fields() == old(writer).fields(),
    {
        let r = match self {
            TypeTag::Bool => writer.sink.write_bool(),
            TypeTag::I8 => writer.sink.write_i8(),
            TypeTag::I16 => writer.sink.write_i16(),
            TypeTag::I32 => writer.sink.write_i32(),
            TypeTag::I64 => writer.sink.write_i64(),
            TypeTag::U8 => writer.sink.write_u8(),
            TypeTag::U16 => writer.sink.write_u16(),
            TypeTag::U32 => writer.sink.write_u32(),
            TypeTag::U64 => writer.sink.write_u64(),
            TypeTag::F32 => writer.sink.write_f32(),
            TypeTag::F64 => writer.sink.write_f64(),
            TypeTag::Bytes => writer.sink.write_bytes(),
            TypeTag::Str => writer.sink.write_str(),
        };
        writer.tags = Ghost(writer.tags@.push(Attempt { call: self, outcome: r }));
        r
    }

    /// Reads one scalar of this kind from a backend: exactly one tag-read, the one of this kind.
    /// A value that comes back is of this kind; an error is handed back unchanged.
    pub fn read<R: Reader>(self, reader: &mut ReadSession<R>) -> (r: Result<Value, R::Error>)
        ensures
            final(reader).scalars() == old(reader).scalars().push(
                Attempt { call: self, outcome: outcome_view(r) },
            ),
            final(reader).fields() == old(reader).fields(),
            r matches Ok(v) ==> v@.tag() == self,
    {
        let r = match self {
            TypeTag::Bool => match reader.source.read_bool() {
                Ok(v) => Ok(Value::Bool(v)),
                Err(e) => Err(e),
            },
            TypeTag::I8 => match reader.source.read_i8() {
                Ok(v) => Ok(Value::I8(v)),
                Err(e) => Err(e),
            },
            TypeTag::I16 => match reader.source.read_i16() {
                Ok(v) => Ok(Value::I16(v)),
                Err(e) => Err(e),
            },
            TypeTag::I32 => match reader.source.read_i32() {
                Ok(v) => Ok(Value::I32(v)),
                Err(e) => Err(e),
            },
            TypeTag::I64 => match reader.source.read_i64() {
                Ok(v) => Ok(Value::I64(v)),
                Err(e) => Err(e),
            },
            TypeTag::U8 => match reader.source.read_u8() {
                Ok(v) => Ok(Value::U8(v)),
                Err(e) => Err(e),
            },
            TypeTag::U16 => match reader.source.read_u16() {
                Ok(v) => Ok(Value::U16(v)),
                Err(e) => Err(e),
            },
            TypeTag::U32 => match reader.source.read_u32() {
                Ok(v) => Ok(Value::U32(v)),
                Err(e) => Err(e),
            },
            TypeTag::U64 => match reader.source.read_u64() {
                Ok(v) => Ok(Value::U64(v)),
                Err(e) => Err(e),
            },
            TypeTag::F32 => match reader.source.read_f32() {
                Ok(bits) => Ok(Value::F32(bits)),
                Err(e) => Err(e),
            },
            TypeTag::F64 => match reader.source.read_f64() {
                Ok(bits) => Ok(Value::F64(bits)),
                Err(e) => Err(e),
            },
            TypeTag::Bytes => match reader.source.read_byte_buf() {
                Ok(v) => Ok(Value::Bytes(v)),
                Err(e) => Err(e),
            },
            TypeTag::Str => match reader.source.read_string() {
                Ok(v) => Ok(Value::Str(v)),
                Err(e) => Err(e),
            },
        };
        reader.scalars = Ghost(
            reader.scalars@.push(Attempt { call: self, outcome: outcome_view(r) }),
        );
        r
    }
}

impl Value {
    /// Writes this scalar to a backend: exactly one tag-write, the one of the value's kind,
    /// whose answer is handed back unchanged.
    pub fn write<W: Writer>(&self, writer: &mut WriteSession<W>) -> (r: Result<(), W::Error>)
        ensures
            final(writer).scalars() == old(writer).scalars().push(
                Attempt { call: self@, outcome: r },
            ),
            final(writer).fields() == old(writer).fields(),
    {
        let r = match self {
            Value::Bool(v) => writer.sink.write_bool(*v),
            Value::I8(v) => writer.sink.write_i8(*v),
            Value::I16(v) => writer.sink.write_i16(*v),
            Value::I32(v) => writer.sink.write_i32(*v),
            Value::I64(v) => writer.sink.write_i64(*v),
            Value::U8(v) => writer.sink.write_u8(*v),
            Value::U16(v) => writer.sink.write_u16(*v),
            Value::U32(v) => writer.sink.write_u32(*v),
            Value::U64(v) => writer.sink.write_u64(*v),
            Value::F32(bits) => writer.sink.write_f32(*bits),
            Value::F64(bits) => writer.sink.write_f64(*bits),
            Value::Bytes(v) => writer.sink.write_bytes(v.as_slice()),
            Value::Str(v) => writer.sink.write_str(v.as_str()),
        };
        writer.scalars = Ghost(writer.scalars@.push(Attempt { call: self@, outcome: r }));
        r
    }
}

} // verus!
