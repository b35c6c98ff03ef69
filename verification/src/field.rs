//! The fields of a record, as they were declared.

use crate::session::FieldShape;
use crate::tag::TypeTag;
use vstd::prelude::*;

verus! {

/// One field of a record: its name and the kind of value it holds.
#[derive(Debug, PartialEq, Eq)]
pub struct Field {
    pub name: String,
    pub ty: TypeTag,
}

impl View for Field {
    type V = FieldShape;

    open spec fn view(&self) -> FieldShape {
        FieldShape { key: self.name@, ty: self.ty }
    }
}

impl Clone for Field {
    /// A copy with the same name and kind.
    fn clone(&self) -> (copy: Self)
        ensures
            copy@ == self@,
    {
        Field { name: self.name.clone(), ty: self.ty }
    }
}

/// The shapes of `fields`, in the same order.
pub open spec fn shapes(fields: Seq<Field>) -> Seq<FieldShape> {
    Seq::new(fields.len(), |i: int| fields[i]@)
}

/// The characters of each of `idents`, in the same order.
pub open spec fn names(idents: Seq<String>) -> Seq<Seq<char>> {
    Seq::new(idents.len(), |i: int| idents[i]@)
}

/// The field list that a list of names and a list of kinds declare together: the `i`-th field has
/// the `i`-th name and the `i`-th kind. A name or a kind without a partner declares nothing.
pub open spec fn declared(idents: Seq<Seq<char>>, types: Seq<TypeTag>) -> Seq<FieldShape> {
    Seq::new(
        if idents.len() <= types.len() {
            idents.len()
        } else {
            types.len()
        },
        |i: int| FieldShape { key: idents[i], ty: types[i] },
    )
}

/// Pairs each name with the kind at the same place.
pub(crate) fn declare(idents: &[String], types: &[TypeTag]) -> (fields: Vec<Field>)
    ensures
        shapes(fields@) == declared(names(idents@), types@),
{
    let n = if idents.len() <= types.len() {
        idents.len()
    } else {
        types.len()
    };
    let mut fields: Vec<Field> = Vec::new();
    let mut i: usize = 0;
    while i < n
        invariant
            i <= n,
            n <= idents.len(),
            n <= types.len(),
            fields@.len() == i,
            forall|k: int|
                0 <= k < i ==> (#[trigger] fields@[k])@ == (FieldShape {
                    key: idents@[k]@,
                    ty: types@[k],
                }),
        decreases n - i,
    {
        fields.push(Field { name: idents[i].clone(), ty: types[i] });
        i += 1;
    }
    proof {
        assert(shapes(fields@) =~= declared(names(idents@), types@));
    }
    fields
}

/// A copy of `fields`.
pub(crate) fn copy_fields(fields: &Vec<Field>) -> (copy: Vec<Field>)
    ensures
        shapes(copy@) == shapes(fields@),
{
    let mut copy: Vec<Field> = Vec::new();
    let mut i: usize = 0;
    while i < fields.len()
        invariant
            i <= fields.len(),
            copy@.len() == i,
            forall|k: int| 0 <= k < i ==> (#[trigger] copy@[k])@ == fields@[k]@,
        decreases fields.len() - i,
    {
        copy.push(fields[i].clone());
        i += 1;
    }
    proof {
        assert(shapes(copy@) =~= shapes(fields@));
    }
    copy
}

/// A copy of `bounds`.
pub(crate) fn copy_bounds(bounds: &Vec<TypeTag>) -> (copy: Vec<TypeTag>)
    ensures
        copy@ == bounds@,
{
    let mut copy: Vec<TypeTag> = Vec::new();
    let mut i: usize = 0;
    while i < bounds.len()
        invariant
            i <= bounds.len(),
            copy@ == bounds@.take(i as int),
        decreases bounds.len() - i,
    {
        copy.push(bounds[i]);
        proof {
            assert(copy@ =~= bounds@.take(i + 1));
        }
        i += 1;
    }
    proof {
        assert(bounds@.take(i as int) == bounds@);
    }
    copy
}

} // verus!
