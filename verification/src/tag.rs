//! The type tag model: the closed set of scalar kinds, and the values of those kinds.

use crate::text::str_eq;
use vstd::prelude::*;

verus! {

/// The closed set of scalar kinds that a field can resolve to.
///
/// Each native scalar kind has exactly one tag, and two tags are equal only if they are the same
/// variant: no kind widens or coerces into another.
#[derive(Clone, Copy, Debug, PartialEq, Eq, Hash, Structural)]
pub enum TypeTag {
    Bool,
    I8,
    I16,
    I32,
    I64,
    U8,
    U16,
    U32,
    U64,
    F32,
    F64,
    Bytes,
    Str,
}

impl TypeTag {
    /// The name of the native scalar kind that the tag stands for.
    pub open spec fn spec_scalar_name(self) -> Seq<char> {
        match self {
            TypeTag::Bool => "bool"@,
            TypeTag::I8 => "i8"@,
            TypeTag::I16 => "i16"@,
            TypeTag::I32 => "i32"@,
            TypeTag::I64 => "i64"@,
            TypeTag::U8 => "u8"@,
            TypeTag::U16 => "u16"@,
            TypeTag::U32 => "u32"@,
            TypeTag::U64 => "u64"@,
            TypeTag::F32 => "f32"@,
            TypeTag::F64 => "f64"@,
            TypeTag::Bytes => "Vec<u8>"@,
            TypeTag::Str => "String"@,
        }
    }

    /// The tag of the native scalar kind called `name`, if `name` names one.
    pub open spec fn spec_from_scalar_name(name: Seq<char>) -> Option<TypeTag> {
        if name == "bool"@ {
            Some(TypeTag::Bool)
        } else if name == "i8"@ {
            Some(TypeTag::I8)
        } else if name == "i16"@ {
            Some(TypeTag::I16)
        } else if name == "i32"@ {
            Some(TypeTag::I32)
        } else if name == "i64"@ {
            Some(TypeTag::I64)
        } else if name == "u8"@ {
            Some(TypeTag::U8)
        } else if name == "u16"@ {
            Some(TypeTag::U16)
        } else if name == "u32"@ {
            Some(TypeTag::U32)
        } else if name == "u64"@ {
            Some(TypeTag::U64)
        } else if name == "f32"@ {
            Some(TypeTag::F32)
        } else if name == "f64"@ {
            Some(TypeTag::F64)
        } else if name == "Vec<u8>"@ {
            Some(TypeTag::Bytes)
        } else if name == "String"@ {
            Some(TypeTag::Str)
        } else {
            None
        }
    }

    /// The name of the native scalar kind that the tag stands for.
    pub fn scalar_name(self) -> (name: &'static str)
        ensures
            name@ == self.spec_scalar_name(),
    {
        match self {
            TypeTag::Bool => "bool",
            TypeTag::I8 => "i8",
            TypeTag::I16 => "i16",
            TypeTag::I32 => "i32",
            TypeTag::I64 => "i64",
            TypeTag::U8 => "u8",
            TypeTag::U16 => "u16",
            TypeTag::U32 => "u32",
            TypeTag::U64 => "u64",
            TypeTag::F32 => "f32",
            TypeTag::F64 => "f64",
            TypeTag::Bytes => "Vec<u8>",
            TypeTag::Str => "String",
        }
    }

    /// Resolves the name of a native scalar kind to its tag. Any other name resolves to `None`:
    /// a type of that name cannot be the type of a field.
    pub fn from_scalar_name(name: &str) -> (tag: Option<TypeTag>)
        ensures
            tag == TypeTag::spec_from_scalar_name(name@),
    {
        if str_eq(name, "bool") {
            Some(TypeTag::Bool)
        } else if str_eq(name, "i8") {
            Some(TypeTag::I8)
        } else if str_eq(name, "i16") {
            Some(TypeTag::I16)
        } else if str_eq(name, "i32") {
            Some(TypeTag::I32)
        } else if str_eq(name, "i64") {
            Some(TypeTag::I64)
        } else if str_eq(name, "u8") {
            Some(TypeTag::U8)
        } else if str_eq(name, "u16") {
            Some(TypeTag::U16)
        } else if str_eq(name, "u32") {
            Some(TypeTag::U32)
        } else if str_eq(name, "u64") {
            Some(TypeTag::U64)
        } else if str_eq(name, "f32") {
            Some(TypeTag::F32)
        } else if str_eq(name, "f64") {
            Some(TypeTag::F64)
        } else if str_eq(name, "Vec<u8>") {
            Some(TypeTag::Bytes)
        } else if str_eq(name, "String") {
            Some(TypeTag::Str)
        } else {
            None
        }
    }
}

/// Makes the characters of every scalar kind's name known.
pub proof fn reveal_scalar_names()
    ensures
        "bool"@ == seq!['b', 'o', 'o', 'l'],
        "i8"@ == seq!['i', '8'],
        "i16"@ == seq!['i', '1', '6'],
        "i32"@ == seq!['i', '3', '2'],
        "i64"@ == seq!['i', '6', '4'],
        "u8"@ == seq!['u', '8'],
        "u16"@ == seq!['u', '1', '6'],
        "u32"@ == seq!['u', '3', '2'],
        "u64"@ == seq!['u', '6', '4'],
        "f32"@ == seq!['f', '3', '2'],
        "f64"@ == seq!['f', '6', '4'],
        "Vec<u8>"@ == seq!['V', 'e', 'c', '<', 'u', '8', '>'],
        "String"@ == seq!['S', 't', 'r', 'i', 'n', 'g'],
{
    reveal_strlit("bool");
    reveal_strlit("i8");
    reveal_strlit("i16");
    reveal_strlit("i32");
    reveal_strlit("i64");
    reveal_strlit("u8");
    reveal_strlit("u16");
    reveal_strlit("u32");
    reveal_strlit("u64");
    reveal_strlit("f32");
    reveal_strlit("f64");
    reveal_strlit("Vec<u8>");
    reveal_strlit("String");
    assert("bool"@ =~= seq!['b', 'o', 'o', 'l']);
    assert("i8"@ =~= seq!['i', '8']);
    assert("i16"@ =~= seq!['i', '1', '6']);
    assert("i32"@ =~= seq!['i', '3', '2']);
    assert("i64"@ =~= seq!['i', '6', '4']);
    assert("u8"@ =~= seq!['u', '8']);
    assert("u16"@ =~= seq!['u', '1', '6']);
    assert("u32"@ =~= seq!['u', '3', '2']);
    assert("u64"@ =~= seq!['u', '6', '4']);
    assert("f32"@ =~= seq!['f', '3', '2']);
    assert("f64"@ =~= seq!['f', '6', '4']);
    assert("Vec<u8>"@ =~= seq!['V', 'e', 'c', '<', 'u', '8', '>']);
    assert("String"@ =~= seq!['S', 't', 'r', 'i', 'n', 'g']);
}

/// Names and tags correspond one to one: a tag's name resolves back to the tag, and a name
/// resolves to a tag only if it is that tag's name.
pub proof fn lemma_scalar_names_bijective(tag: TypeTag, name: Seq<char>)
    ensures
        TypeTag::spec_from_scalar_name(tag.spec_scalar_name()) == Some(tag),
        TypeTag::spec_from_scalar_name(name) == Some(tag) <==> name == tag.spec_scalar_name(),
{
    reveal_scalar_names();
    let own = tag.spec_scalar_name();
    assert(own.len() >= 2);
    assert(TypeTag::spec_from_scalar_name(own) == Some(tag)) by {
        assert(own[0] == own[0]);
        assert(own[1] == own[1]);
        if own.len() > 2 {
            assert(own[2] == own[2]);
        }
    }
}

} // verus!
