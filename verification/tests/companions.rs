use std::fmt::Display;

use datastore::derive::{expand_macro, Attribute, DeriveInput, Expansion, FieldDecl};
use datastore::{
    DataDescriptor, DataQuery, Error, ReadSession, Reader, StoreData, TypeSession, TypeTag,
    TypeWriter, Value, WriteSession, Writer,
};

/// The error of the sinks below: a backend failure, or a custom message.
#[derive(Clone, Debug, PartialEq, Eq)]
enum Failure {
    Refused(usize),
    Custom(String),
}

impl Error for Failure {
    fn custom<T: Display>(msg: T) -> Self {
        Failure::Custom(msg.to_string())
    }
}

/// A sink that keeps every field it is given, in order, and refuses the call with the number
/// `refuse_at`, counted from zero.
struct Channel {
    shapes: Vec<(String, TypeTag)>,
    fields: Vec<(String, Value)>,
    scalars: Vec<Value>,
    tags: Vec<TypeTag>,
    calls: usize,
    refuse_at: Option<usize>,
}

impl Channel {
    fn new() -> Self {
        Channel {
            shapes: Vec::new(),
            fields: Vec::new(),
            scalars: Vec::new(),
            tags: Vec::new(),
            calls: 0,
            refuse_at: None,
        }
    }

    fn refusing(call: usize) -> Self {
        let mut channel = Channel::new();
        channel.refuse_at = Some(call);
        channel
    }

    fn take_call(&mut self) -> Result<(), Failure> {
        let call = self.calls;
        self.calls += 1;
        if self.refuse_at == Some(call) {
            Err(Failure::Refused(call))
        } else {
            Ok(())
        }
    }

    fn tag(&mut self, tag: TypeTag) -> Result<(), Failure> {
        self.tags.push(tag);
        Ok(())
    }

    fn scalar(&mut self, value: Value) -> Result<(), Failure> {
        self.scalars.push(value);
        Ok(())
    }
}

impl TypeWriter for Channel {
    type Error = Failure;

    fn write_bool(&mut self) -> Result<(), Failure> {
        self.tag(TypeTag::Bool)
    }

    fn write_i8(&mut self) -> Result<(), Failure> {
        self.tag(TypeTag::I8)
    }

    fn write_i16(&mut self) -> Result<(), Failure> {
        self.tag(TypeTag::I16)
    }

    fn write_i32(&mut self) -> Result<(), Failure> {
        self.tag(TypeTag::I32)
    }

    fn write_i64(&mut self) -> Result<(), Failure> {
        self.tag(TypeTag::I64)
    }

    fn write_u8(&mut self) -> Result<(), Failure> {
        self.tag(TypeTag::U8)
    }

    fn write_u16(&mut self) -> Result<(), Failure> {
        self.tag(TypeTag::U16)
    }

    fn write_u32(&mut self) -> Result<(), Failure> {
        self.tag(TypeTag::U32)
    }

    fn write_u64(&mut self) -> Result<(), Failure> {
        self.tag(TypeTag::U64)
    }

    fn write_f32(&mut self) -> Result<(), Failure> {
        self.tag(TypeTag::F32)
    }

    fn write_f64(&mut self) -> Result<(), Failure> {
        self.tag(TypeTag::F64)
    }

    fn write_bytes(&mut self) -> Result<(), Failure> {
        self.tag(TypeTag::Bytes)
    }

    fn write_str(&mut self) -> Result<(), Failure> {
        self.tag(TypeTag::Str)
    }

    fn write_field(&mut self, key: &str, ty: TypeTag) -> Result<(), Failure> {
        self.take_call()?;
        self.shapes.push((key.to_owned(), ty));
        Ok(())
    }
}

impl Writer for Channel {
    type Error = Failure;

    fn write_bool(&mut self, v: bool) -> Result<(), Failure> {
        self.scalar(Value::Bool(v))
    }

    fn write_i8(&mut self, v: i8) -> Result<(), Failure> {
        self.scalar(Value::I8(v))
    }

    fn write_i16(&mut self, v: i16) -> Result<(), Failure> {
        self.scalar(Value::I16(v))
    }

    fn write_i32(&mut self, v: i32) -> Result<(), Failure> {
        self.scalar(Value::I32(v))
    }

    fn write_i64(&mut self, v: i64) -> Result<(), Failure> {
        self.scalar(Value::I64(v))
    }

    fn write_u8(&mut self, v: u8) -> Result<(), Failure> {
        self.scalar(Value::U8(v))
    }

    fn write_u16(&mut self, v: u16) -> Result<(), Failure> {
        self.scalar(Value::U16(v))
    }

    fn write_u32(&mut self, v: u32) -> Result<(), Failure> {
        self.scalar(Value::U32(v))
    }

    fn write_u64(&mut self, v: u64) -> Result<(), Failure> {
        self.scalar(Value::U64(v))
    }

    fn write_f32(&mut self, bits: u32) -> Result<(), Failure> {
        self.scalar(Value::F32(bits))
    }

    fn write_f64(&mut self, bits: u64) -> Result<(), Failure> {
        self.scalar(Value::F64(bits))
    }

    fn write_bytes(&mut self, v: &[u8]) -> Result<(), Failure> {
        self.scalar(Value::Bytes(v.to_vec()))
    }

    fn write_str(&mut self, v: &str) -> Result<(), Failure> {
        self.scalar(Value::Str(v.to_owned()))
    }

    fn write_field(&mut self, key: &str, value: &Value) -> Result<(), Failure> {
        self.take_call()?;
        self.fields.push((key.to_owned(), value.clone()));
        Ok(())
    }
}

/// A source that answers the reads of fields from what a channel holds, first written first,
/// and the reads of scalars from a list of its own.
struct Replay {
    fields: Vec<(String, Value)>,
    scalars: Vec<Value>,
    asked: Vec<(String, TypeTag)>,
}

impl Replay {
    fn of(channel: Channel) -> Self {
        Replay {
            fields: channel.fields,
            scalars: channel.scalars,
            asked: Vec::new(),
        }
    }

    fn next_scalar(&mut self) -> Result<Value, Failure> {
        if self.scalars.is_empty() {
            Err(Failure::Refused(0))
        } else {
            Ok(self.scalars.remove(0))
        }
    }
}

impl Reader for Replay {
    type Error = Failure;

    fn read_bool(&mut self) -> Result<bool, Failure> {
        match self.next_scalar()? {
            Value::Bool(v) => Ok(v),
            _ => Err(Failure::Refused(1)),
        }
    }

    fn read_i8(&mut self) -> Result<i8, Failure> {
        match self.next_scalar()? {
            Value::I8(v) => Ok(v),
            _ => Err(Failure::Refused(1)),
        }
    }

    fn read_i16(&mut self) -> Result<i16, Failure> {
        match self.next_scalar()? {
            Value::I16(v) => Ok(v),
            _ => Err(Failure::Refused(1)),
        }
    }

    fn read_i32(&mut self) -> Result<i32, Failure> {
        match self.next_scalar()? {
            Value::I32(v) => Ok(v),
            _ => Err(Failure::Refused(1)),
        }
    }

    fn read_i64(&mut self) -> Result<i64, Failure> {
        match self.next_scalar()? {
            Value::I64(v) => Ok(v),
            _ => Err(Failure::Refused(1)),
        }
    }

    fn read_u8(&mut self) -> Result<u8, Failure> {
        match self.next_scalar()? {
            Value::U8(v) => Ok(v),
            _ => Err(Failure::Refused(1)),
        }
    }

    fn read_u16(&mut self) -> Result<u16, Failure> {
        match self.next_scalar()? {
            Value::U16(v) => Ok(v),
            _ => Err(Failure::Refused(1)),
        }
    }

    fn read_u32(&mut self) -> Result<u32, Failure> {
        match self.next_scalar()? {
            Value::U32(v) => Ok(v),
            _ => Err(Failure::Refused(1)),
        }
    }

    fn read_u64(&mut self) -> Result<u64, Failure> {
        match self.next_scalar()? {
            Value::U64(v) => Ok(v),
            _ => Err(Failure::Refused(1)),
        }
    }

    fn read_f32(&mut self) -> Result<u32, Failure> {
        match self.next_scalar()? {
            Value::F32(bits) => Ok(bits),
            _ => Err(Failure::Refused(1)),
        }
    }

    fn read_f64(&mut self) -> Result<u64, Failure> {
        match self.next_scalar()? {
            Value::F64(bits) => Ok(bits),
            _ => Err(Failure::Refused(1)),
        }
    }

    fn read_byte_buf(&mut self) -> Result<Vec<u8>, Failure> {
        match self.next_scalar()? {
            Value::Bytes(v) => Ok(v),
            _ => Err(Failure::Refused(1)),
        }
    }

    fn read_string(&mut self) -> Result<String, Failure> {
        match self.next_scalar()? {
            Value::Str(v) => Ok(v),
            _ => Err(Failure::Refused(1)),
        }
    }

    fn read_field(&mut self, key: &str, ty: TypeTag) -> Result<Value, Failure> {
        self.asked.push((key.to_owned(), ty));
        if self.fields.is_empty() {
            return Err(Failure::Refused(self.asked.len() - 1));
        }
        let (written, value) = self.fields.remove(0);
        if written == key {
            Ok(value)
        } else {
            Err(Failure::Refused(self.asked.len() - 1))
        }
    }
}

fn declaration(ident: &str, name: Option<&str>, fields: &[(&str, &str)]) -> DeriveInput {
    let mut attrs = vec![Attribute {
        path: "derive".to_owned(),
        tokens: "(Clone, Debug)".to_owned(),
    }];
    if let Some(name) = name {
        attrs.push(Attribute {
            path: "datastore".to_owned(),
            tokens: format!("(name = {:?})", name),
        });
    }
    DeriveInput {
        ident: ident.to_owned(),
        attrs,
        fields: fields
            .iter()
            .map(|(ident, ty)| FieldDecl {
                ident: (*ident).to_owned(),
                ty: (*ty).to_owned(),
            })
            .collect(),
    }
}

fn companions(ident: &str, name: Option<&str>, fields: &[(&str, &str)]) -> Expansion {
    expand_macro(&declaration(ident, name, fields)).unwrap()
}

fn person() -> Expansion {
    companions("Person", Some("people"), &[("id", "i64"), ("name", "String")])
}

fn all_kinds() -> Expansion {
    companions(
        "Everything",
        None,
        &[
            ("a", "bool"),
            ("b", "i8"),
            ("c", "i16"),
            ("d", "i32"),
            ("e", "i64"),
            ("f", "u8"),
            ("g", "u16"),
            ("h", "u32"),
            ("i", "u64"),
            ("j", "f32"),
            ("k", "f64"),
            ("l", "Vec < u8 >"),
            ("m", "String"),
        ],
    )
}

fn all_values() -> Vec<Value> {
    vec![
        Value::Bool(true),
        Value::I8(-8),
        Value::I16(-16),
        Value::I32(-32),
        Value::I64(-64),
        Value::U8(8),
        Value::U16(16),
        Value::U32(32),
        Value::U64(64),
        Value::F32(1.5f32.to_bits()),
        Value::F64((-2.25f64).to_bits()),
        Value::Bytes(vec![0, 1, 255]),
        Value::Str("text".to_owned()),
    ]
}

fn described(x: &Expansion) -> Vec<(String, TypeTag)> {
    let mut channel = Channel::new();
    x.descriptor
        .write(&mut TypeSession::new(&mut channel))
        .unwrap();
    channel.shapes
}

fn owned(pairs: &[(&str, TypeTag)]) -> Vec<(String, TypeTag)> {
    pairs.iter().map(|(k, t)| ((*k).to_owned(), *t)).collect()
}

#[test]
fn empty_record_describes_nothing() {
    let x = companions("Empty", None, &[]);
    assert_eq!(x.descriptor.ident(), "Empty");
    assert_eq!(described(&x), vec![]);
    assert!(x.descriptor.fields().is_empty());
    assert!(x.descriptor.bounds().is_empty());
}

#[test]
fn empty_record_writes_and_reads_nothing() {
    let x = companions("Empty", None, &[]);
    let record = x.storedata.record(vec![]).unwrap();
    let mut channel = Channel::refusing(0);
    assert_eq!(record.write(&mut WriteSession::new(&mut channel)), Ok(()));
    assert_eq!(channel.calls, 0);
    let mut replay = Replay::of(channel);
    let back = x.storedata.read(&mut ReadSession::new(&mut replay)).unwrap();
    assert_eq!(back, record);
    assert!(replay.asked.is_empty());
    let mut channel = Channel::refusing(0);
    assert_eq!(x.query.write(&mut WriteSession::new(&mut channel)), Ok(()));
    assert_eq!(channel.calls, 0);
}

#[test]
fn single_field_is_described() {
    let x = companions("P", None, &[("x", "u8")]);
    assert_eq!(described(&x), owned(&[("x", TypeTag::U8)]));
}

#[test]
fn ten_numeric_fields_are_described_in_order() {
    let x = companions(
        "Numbers",
        None,
        &[
            ("f1", "u8"),
            ("f2", "u16"),
            ("f3", "u32"),
            ("f4", "u64"),
            ("f5", "i8"),
            ("f6", "i16"),
            ("f7", "i32"),
            ("f8", "i64"),
            ("f9", "f32"),
            ("f10", "f64"),
        ],
    );
    assert_eq!(
        described(&x),
        owned(&[
            ("f1", TypeTag::U8),
            ("f2", TypeTag::U16),
            ("f3", TypeTag::U32),
            ("f4", TypeTag::U64),
            ("f5", TypeTag::I8),
            ("f6", TypeTag::I16),
            ("f7", TypeTag::I32),
            ("f8", TypeTag::I64),
            ("f9", TypeTag::F32),
            ("f10", TypeTag::F64),
        ])
    );
}

#[test]
fn person_is_stored_as_people_and_queried_by_id() {
    let x = person();
    assert_eq!(x.descriptor.ident(), "people");
    let query = x.query.set("id", Value::I64(5));
    let mut channel = Channel::new();
    query.write(&mut WriteSession::new(&mut channel)).unwrap();
    assert_eq!(channel.fields, vec![("id".to_owned(), Value::I64(5))]);
}

#[test]
fn descriptor_can_be_written_again_and_again() {
    let x = person();
    let first = described(&x);
    let second = described(&x);
    assert_eq!(first, owned(&[("id", TypeTag::I64), ("name", TypeTag::Str)]));
    assert_eq!(first, second);
    let mut channel = Channel::new();
    let twice = x.descriptor.clone();
    twice.write(&mut TypeSession::new(&mut channel)).unwrap();
    x.descriptor
        .write(&mut TypeSession::new(&mut channel))
        .unwrap();
    assert_eq!(channel.shapes.len(), 4);
    assert_eq!(channel.shapes[0..2], channel.shapes[2..4]);
}

#[test]
fn companions_are_named_after_the_record() {
    let x = person();
    assert_eq!(x.storedata.ident(), "Person");
    assert_eq!(x.storedata.descriptor_ident(), "PersonDescriptor");
    assert_eq!(x.storedata.query_ident(), "PersonQuery");
    assert_eq!(x.descriptor.companion_ident(), "PersonDescriptor");
    assert_eq!(x.query.companion_ident(), "PersonQuery");
}

#[test]
fn name_defaults_to_the_identifier() {
    let x = companions("Person", None, &[("id", "i64")]);
    assert_eq!(x.descriptor.ident(), "Person");
}

#[test]
fn fresh_query_writes_nothing() {
    let x = all_kinds();
    let mut channel = Channel::refusing(0);
    assert_eq!(x.query.write(&mut WriteSession::new(&mut channel)), Ok(()));
    assert!(channel.fields.is_empty());
    assert_eq!(channel.calls, 0);
}

#[test]
fn query_writes_the_set_fields_in_declaration_order() {
    let x = all_kinds();
    let query = x
        .query
        .set("m", Value::Str("z".to_owned()))
        .set("c", Value::I16(7))
        .set("j", Value::F32(0.5f32.to_bits()));
    let mut channel = Channel::new();
    query.write(&mut WriteSession::new(&mut channel)).unwrap();
    assert_eq!(
        channel.fields,
        vec![
            ("c".to_owned(), Value::I16(7)),
            ("j".to_owned(), Value::F32(0x3f00_0000)),
            ("m".to_owned(), Value::Str("z".to_owned())),
        ]
    );
}

#[test]
fn query_with_every_field_set_writes_every_field() {
    let x = all_kinds();
    let names = ["a", "b", "c", "d", "e", "f", "g", "h", "i", "j", "k", "l", "m"];
    let mut query = x.query;
    for (name, value) in names.iter().zip(all_values()).rev() {
        query = query.set(name, value);
    }
    let mut channel = Channel::new();
    query.write(&mut WriteSession::new(&mut channel)).unwrap();
    let expected: Vec<(String, Value)> = names
        .iter()
        .map(|n| (*n).to_owned())
        .zip(all_values())
        .collect();
    assert_eq!(channel.fields, expected);
}

#[test]
fn setting_a_field_twice_keeps_the_later_value() {
    let query = person().query.set("id", Value::I64(1)).set("id", Value::I64(2));
    let mut channel = Channel::new();
    query.write(&mut WriteSession::new(&mut channel)).unwrap();
    assert_eq!(channel.fields, vec![("id".to_owned(), Value::I64(2))]);
}

#[test]
fn setters_commute() {
    let one = person()
        .query
        .set("id", Value::I64(9))
        .set("name", Value::Str("n".to_owned()));
    let other = person()
        .query
        .set("name", Value::Str("n".to_owned()))
        .set("id", Value::I64(9));
    let mut a = Channel::new();
    let mut b = Channel::new();
    one.write(&mut WriteSession::new(&mut a)).unwrap();
    other.write(&mut WriteSession::new(&mut b)).unwrap();
    assert_eq!(a.fields, b.fields);
    assert_eq!(a.fields.len(), 2);
}

#[test]
fn query_ignores_unknown_fields_and_values_of_another_kind() {
    let query = person()
        .query
        .set("age", Value::I64(5))
        .set("id", Value::U8(5))
        .set("name", Value::Bytes(vec![1]));
    let mut channel = Channel::new();
    query.write(&mut WriteSession::new(&mut channel)).unwrap();
    assert!(channel.fields.is_empty());
}

#[test]
fn query_clone_keeps_the_slots() {
    let query = person().query.set("name", Value::Str("x".to_owned()));
    let copy = query.clone();
    let mut a = Channel::new();
    let mut b = Channel::new();
    query.write(&mut WriteSession::new(&mut a)).unwrap();
    copy.write(&mut WriteSession::new(&mut b)).unwrap();
    assert_eq!(a.fields, vec![("name".to_owned(), Value::Str("x".to_owned()))]);
    assert_eq!(a.fields, b.fields);
}

#[test]
fn record_round_trips_through_a_lossless_channel() {
    let x = all_kinds();
    let record = x.storedata.record(all_values()).unwrap();
    let mut channel = Channel::new();
    record.write(&mut WriteSession::new(&mut channel)).unwrap();
    assert_eq!(channel.fields.len(), 13);
    assert_eq!(channel.fields[0], ("a".to_owned(), Value::Bool(true)));
    assert_eq!(channel.fields[12], ("m".to_owned(), Value::Str("text".to_owned())));
    let mut replay = Replay::of(channel);
    let back = x.storedata.read(&mut ReadSession::new(&mut replay)).unwrap();
    assert_eq!(back, record);
    assert_eq!(back.values(), &all_values());
    assert_eq!(replay.asked[0], ("a".to_owned(), TypeTag::Bool));
    assert_eq!(replay.asked[12], ("m".to_owned(), TypeTag::Str));
    assert_eq!(replay.asked.len(), 13);
}

#[test]
fn person_round_trips() {
    let x = person();
    let record = x
        .storedata
        .record(vec![Value::I64(5), Value::Str("Ada".to_owned())])
        .unwrap();
    let mut channel = Channel::new();
    record.write(&mut WriteSession::new(&mut channel)).unwrap();
    assert_eq!(
        channel.fields,
        vec![
            ("id".to_owned(), Value::I64(5)),
            ("name".to_owned(), Value::Str("Ada".to_owned())),
        ]
    );
    let mut replay = Replay::of(channel);
    let back = x.storedata.read(&mut ReadSession::new(&mut replay)).unwrap();
    assert_eq!(back, record);
    assert_eq!(back.clone(), record);
    assert_eq!(back.fields().len(), 2);
    assert_eq!(back.fields()[1].name, "name");
    assert_eq!(back.fields()[1].ty, TypeTag::Str);
}

#[test]
fn record_needs_one_value_of_the_right_kind_for_each_field() {
    let x = person();
    assert!(x.storedata.record(vec![]).is_none());
    assert!(x.storedata.record(vec![Value::I64(5)]).is_none());
    assert!(x
        .storedata
        .record(vec![Value::I32(5), Value::Str("Ada".to_owned())])
        .is_none());
    assert!(x
        .storedata
        .record(vec![Value::Str("Ada".to_owned()), Value::I64(5)])
        .is_none());
    assert!(x
        .storedata
        .record(vec![
            Value::I64(5),
            Value::Str("Ada".to_owned()),
            Value::Bool(true)
        ])
        .is_none());
    assert!(x
        .storedata
        .record(vec![Value::I64(5), Value::Str("Ada".to_owned())])
        .is_some());
}

#[test]
fn descriptor_stops_at_the_first_error() {
    let x = all_kinds();
    let mut channel = Channel::refusing(2);
    let r = x.descriptor.write(&mut TypeSession::new(&mut channel));
    assert_eq!(r, Err(Failure::Refused(2)));
    assert_eq!(
        channel.shapes,
        owned(&[("a", TypeTag::Bool), ("b", TypeTag::I8)])
    );
    assert_eq!(channel.calls, 3);
}

#[test]
fn record_write_stops_at_the_first_error() {
    let x = all_kinds();
    let record = x.storedata.record(all_values()).unwrap();
    let mut channel = Channel::refusing(0);
    let r = record.write(&mut WriteSession::new(&mut channel));
    assert_eq!(r, Err(Failure::Refused(0)));
    assert!(channel.fields.is_empty());
    assert_eq!(channel.calls, 1);
    let mut channel = Channel::refusing(12);
    let r = record.write(&mut WriteSession::new(&mut channel));
    assert_eq!(r, Err(Failure::Refused(12)));
    assert_eq!(channel.fields.len(), 12);
    assert_eq!(channel.calls, 13);
}

#[test]
fn query_write_stops_at_the_first_error() {
    let query = person()
        .query
        .set("id", Value::I64(1))
        .set("name", Value::Str("n".to_owned()));
    let mut channel = Channel::refusing(1);
    let r = query.write(&mut WriteSession::new(&mut channel));
    assert_eq!(r, Err(Failure::Refused(1)));
    assert_eq!(channel.fields, vec![("id".to_owned(), Value::I64(1))]);
}

#[test]
fn read_hands_the_error_of_the_backend_back() {
    let x = person();
    let mut channel = Channel::new();
    channel.fields.push(("id".to_owned(), Value::I64(5)));
    let mut replay = Replay::of(channel);
    let r = x.storedata.read(&mut ReadSession::new(&mut replay));
    assert_eq!(r, Err(Failure::Refused(1)));
    assert_eq!(
        replay.asked,
        owned(&[("id", TypeTag::I64), ("name", TypeTag::Str)])
    );
}

#[test]
fn read_stops_at_the_first_error() {
    let x = all_kinds();
    let mut replay = Replay::of(Channel::new());
    let r = x.storedata.read(&mut ReadSession::new(&mut replay));
    assert_eq!(r, Err(Failure::Refused(0)));
    assert_eq!(replay.asked, owned(&[("a", TypeTag::Bool)]));
}

#[test]
fn read_refuses_a_value_of_another_kind() {
    let x = person();
    let mut channel = Channel::new();
    channel.fields.push(("id".to_owned(), Value::I64(5)));
    channel.fields.push(("name".to_owned(), Value::U8(1)));
    let mut replay = Replay::of(channel);
    let r = x.storedata.read(&mut ReadSession::new(&mut replay));
    assert_eq!(
        r,
        Err(Failure::Custom("unexpected type for field name".to_owned()))
    );
    let mut channel = Channel::new();
    channel.fields.push(("id".to_owned(), Value::I32(5)));
    channel.fields.push(("name".to_owned(), Value::Str("x".to_owned())));
    let mut replay = Replay::of(channel);
    let r = x.storedata.read(&mut ReadSession::new(&mut replay));
    assert_eq!(
        r,
        Err(Failure::Custom("unexpected type for field id".to_owned()))
    );
    assert_eq!(replay.asked.len(), 1);
}

#[test]
fn scalars_issue_one_tag_write_of_their_kind() {
    let mut channel = Channel::new();
    for value in all_values() {
        value.write(&mut WriteSession::new(&mut channel)).unwrap();
    }
    assert_eq!(channel.scalars, all_values());
    assert!(channel.fields.is_empty());
    let kinds: Vec<TypeTag> = all_values().iter().map(|v| v.tag()).collect();
    for kind in kinds.iter() {
        kind.write_type(&mut TypeSession::new(&mut channel)).unwrap();
    }
    assert_eq!(channel.tags, kinds);
    assert!(channel.shapes.is_empty());
    assert_eq!(
        kinds,
        vec![
            TypeTag::Bool,
            TypeTag::I8,
            TypeTag::I16,
            TypeTag::I32,
            TypeTag::I64,
            TypeTag::U8,
            TypeTag::U16,
            TypeTag::U32,
            TypeTag::U64,
            TypeTag::F32,
            TypeTag::F64,
            TypeTag::Bytes,
            TypeTag::Str,
        ]
    );
}

#[test]
fn scalars_are_read_back_by_kind() {
    let mut channel = Channel::new();
    channel.scalars = all_values();
    let mut replay = Replay::of(channel);
    for value in all_values() {
        let read = value.tag().read(&mut ReadSession::new(&mut replay));
        assert_eq!(read, Ok(value));
    }
    let read = TypeTag::U8.read(&mut ReadSession::new(&mut replay));
    assert_eq!(read, Err(Failure::Refused(0)));
    replay.scalars.push(Value::U8(1));
    let read = TypeTag::I8.read(&mut ReadSession::new(&mut replay));
    assert_eq!(read, Err(Failure::Refused(1)));
}

#[test]
fn repeated_kinds_give_one_requirement_each() {
    let x = companions(
        "Point",
        None,
        &[
            ("x", "i32"),
            ("y", "i32"),
            ("label", "String"),
            ("z", "i32"),
            ("note", "String"),
            ("flag", "bool"),
        ],
    );
    let expected = vec![TypeTag::I32, TypeTag::Str, TypeTag::Bool];
    assert_eq!(x.descriptor.bounds(), &expected);
    assert_eq!(x.query.bounds(), &expected);
    assert_eq!(x.storedata.bounds(), &expected);
}
