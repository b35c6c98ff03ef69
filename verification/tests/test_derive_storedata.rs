use std::collections::HashMap;
use std::convert::Infallible;

use datastore::derive::{expand_macro, Attribute, DeriveInput, FieldDecl};
use datastore::descriptor::DataDescriptorImpl;
use datastore::{DataDescriptor, TypeSession, TypeTag, TypeWriter};

/// A sink that keeps the kind of each field under the field's key.
#[derive(Debug)]
struct Shapes {
    typ: TypeTag,
    values: HashMap<String, TypeTag>,
}

impl Shapes {
    fn new() -> Self {
        Self {
            typ: TypeTag::Bool,
            values: HashMap::new(),
        }
    }
}

impl TypeWriter for Shapes {
    type Error = Infallible;

    fn write_bool(&mut self) -> Result<(), Self::Error> {
        self.typ = TypeTag::Bool;
        Ok(())
    }

    fn write_i8(&mut self) -> Result<(), Self::Error> {
        self.typ = TypeTag::I8;
        Ok(())
    }

    fn write_i16(&mut self) -> Result<(), Self::Error> {
        self.typ = TypeTag::I16;
        Ok(())
    }

    fn write_i32(&mut self) -> Result<(), Self::Error> {
        self.typ = TypeTag::I32;
        Ok(())
    }

    fn write_i64(&mut self) -> Result<(), Self::Error> {
        self.typ = TypeTag::I64;
        Ok(())
    }

    fn write_u8(&mut self) -> Result<(), Self::Error> {
        self.typ = TypeTag::U8;
        Ok(())
    }

    fn write_u16(&mut self) -> Result<(), Self::Error> {
        self.typ = TypeTag::U16;
        Ok(())
    }

    fn write_u32(&mut self) -> Result<(), Self::Error> {
        self.typ = TypeTag::U32;
        Ok(())
    }

    fn write_u64(&mut self) -> Result<(), Self::Error> {
        self.typ = TypeTag::U64;
        Ok(())
    }

    fn write_f32(&mut self) -> Result<(), Self::Error> {
        self.typ = TypeTag::F32;
        Ok(())
    }

    fn write_f64(&mut self) -> Result<(), Self::Error> {
        self.typ = TypeTag::F64;
        Ok(())
    }

    fn write_bytes(&mut self) -> Result<(), Self::Error> {
        self.typ = TypeTag::Bytes;
        Ok(())
    }

    fn write_str(&mut self) -> Result<(), Self::Error> {
        self.typ = TypeTag::Str;
        Ok(())
    }

    fn write_field(&mut self, key: &str, ty: TypeTag) -> Result<(), Self::Error> {
        ty.write_type(&mut TypeSession::new(self))?;
        self.values.insert(key.to_owned(), self.typ);
        Ok(())
    }
}

fn record(ident: &str, attrs: Vec<Attribute>, fields: &[(&str, &str)]) -> DeriveInput {
    DeriveInput {
        ident: ident.to_owned(),
        attrs,
        fields: fields
            .iter()
            .map(|(ident, ty)| FieldDecl {
                ident: (*ident).to_owned(),
                ty: (*ty).to_owned(),
            })
            .collect(),
    }
}

fn descriptor(input: &DeriveInput) -> DataDescriptorImpl {
    expand_macro(input).unwrap().descriptor
}

fn name(input: &DeriveInput) -> String {
    descriptor(input).ident().to_owned()
}

fn fields(input: &DeriveInput, expected: &[(&str, TypeTag)]) {
    let mut writer = Shapes::new();
    descriptor(input)
        .write(&mut TypeSession::new(&mut writer))
        .unwrap();

    for (key, val) in expected {
        match writer.values.remove(*key) {
            Some(found) => {
                if found != *val {
                    panic!(
                        "unexpected type {:?} at {:?} (expected {:?})",
                        found, key, val
                    );
                }
            }
            None => panic!("missing field {:?} (expected {:?})", key, val),
        }
    }

    if !writer.values.is_empty() {
        for (key, val) in writer.values.into_iter() {
            println!("unexpected field {:?} with type {:?} remaining", key, val);
        }

        panic!("not all fields consumed");
    }
}

#[test]
fn test_storedata_struct_0() {
    let some_data = record("SomeData", vec![], &[]);

    assert_eq!(name(&some_data), "SomeData");
    fields(&some_data, &[]);
}

#[test]
fn test_storedata_struct_1() {
    let some_data = record("SomeData", vec![], &[("x", "u8")]);

    fields(&some_data, &[("x", TypeTag::U8)]);
}

#[test]
fn test_storedata_struct_many() {
    let some_data = record(
        "SomeData",
        vec![],
        &[
            ("f1", "u8"),
            ("f2", "u16"),
            ("f3", "u32"),
            ("f4", "u64"),
            ("f5", "i8"),
            ("f6", "i16"),
            ("f7", "i32"),
            ("f8", "i64"),
            ("f9", "f32"),
            ("f10", "f64"),
        ],
    );

    fields(
        &some_data,
        &[
            ("f1", TypeTag::U8),
            ("f2", TypeTag::U16),
            ("f3", TypeTag::U32),
            ("f4", TypeTag::U64),
            ("f5", TypeTag::I8),
            ("f6", TypeTag::I16),
            ("f7", TypeTag::I32),
            ("f8", TypeTag::I64),
            ("f9", TypeTag::F32),
            ("f10", TypeTag::F64),
        ],
    );
}

#[test]
fn test_storedata_name() {
    let some_data = record("SomeData", vec![], &[]);

    assert_eq!(name(&some_data), "SomeData");

    let some_data2 = record(
        "SomeData2",
        vec![Attribute {
            path: "datastore".to_owned(),
            tokens: "(name = \"name\")".to_owned(),
        }],
        &[],
    );

    assert_eq!(name(&some_data2), "name");
}
