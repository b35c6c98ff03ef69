//! The derivation engine: from one declaration of a record to its three companions.

use crate::attrs::first_name;
use crate::attrs::parsed;
use crate::attrs::Attr;
use crate::attrs::AttrView;
use crate::attrs::Attrs;
use crate::attrs::ParseError;
use crate::attrs::ParseErrorView;
use crate::bounds::distinct;
use crate::bounds::expand_trait_bounds;
use crate::bounds::lemma_distinct_len;
use crate::bounds::lemma_distinct_no_duplicates;
use crate::bounds::lemma_distinct_same_kinds;
use crate::descriptor::DataDescriptorImpl;
use crate::descriptor::DescriptorView;
use crate::field::declare;
use crate::field::declared;
use crate::field::names;
use crate::query::lemma_emits_one_for_each_set_slot;
use crate::query::lemma_unset_emits_nothing;
use crate::query::set_count;
use crate::query::DataQueryImpl;
use crate::query::QueryView;
use crate::session::reports;
use crate::session::Attempt;
use crate::session::FieldShape;
use crate::session::FieldValue;
use crate::storedata::StoreDataImpl;
use crate::storedata::StoreDataView;
use crate::tag::TypeTag;
use crate::text::joined;
use crate::text::squeeze;
use crate::text::squeezed;
use crate::text::str_view;
use crate::text::str_eq;
use crate::value::ValueView;
use vstd::prelude::*;
use vstd::string::StringExecFns;

verus! {

/// One attribute on a record declaration: its path, and the tokens that follow the path.
#[derive(Clone, Debug, PartialEq, Eq)]
pub struct Attribute {
    pub path: String,
    pub tokens: String,
}

/// One field of a record declaration: its name, and its type as it was written.
#[derive(Clone, Debug, PartialEq, Eq)]
pub struct FieldDecl {
    pub ident: String,
    pub ty: String,
}

/// The declaration of a record: its identifier, its attributes and its named fields, each list
/// in the order in which it was written.
#[derive(Clone, Debug, PartialEq, Eq)]
pub struct DeriveInput {
    pub ident: String,
    pub attrs: Vec<Attribute>,
    pub fields: Vec<FieldDecl>,
}

/// Why a declaration has no companions.
#[derive(Clone, Debug, PartialEq, Eq)]
pub enum DeriveError {
    /// An attribute of the library gives no option.
    Attribute(ParseError),
    /// The type of a field is no scalar kind, so values of it can be neither read nor written.
    UnsupportedType { field: String, ty: String },
}

/// The mathematical value of a [`DeriveError`].
pub enum DeriveErrorView {
    Attribute(ParseErrorView),
    UnsupportedType { field: Seq<char>, ty: Seq<char> },
}

impl View for DeriveError {
    type V = DeriveErrorView;

    open spec fn view(&self) -> DeriveErrorView {
        match self {
            DeriveError::Attribute(e) => DeriveErrorView::Attribute(e@),
            DeriveError::UnsupportedType { field, ty } => DeriveErrorView::UnsupportedType {
                field: field@,
                ty: ty@,
            },
        }
    }
}

impl DeriveErrorView {
    /// The text of the error.
    pub open spec fn message(self) -> Seq<char> {
        match self {
            DeriveErrorView::Attribute(e) => e.message(),
            DeriveErrorView::UnsupportedType { field, ty } => "unsupported type "@ + ty
                + " of field "@ + field,
        }
    }
}

impl DeriveError {
    /// The text of the error.
    pub fn message(&self) -> (text: String)
        ensures
            text@ == self@.message(),
    {
        match self {
            DeriveError::Attribute(e) => e.message(),
            DeriveError::UnsupportedType { field, ty } => {
                let mut text = String::from_str("unsupported type ");
                text.append(ty.as_str());
                text.append(" of field ");
                text.append(field.as_str());
                text
            },
        }
    }
}

/// The three companions of one record type.
#[derive(Debug)]
pub struct Expansion {
    pub storedata: StoreDataImpl,
    pub descriptor: DataDescriptorImpl,
    pub query: DataQueryImpl,
}

impl Clone for Expansion {
    /// Copies of the three companions.
    fn clone(&self) -> (copy: Self)
        ensures
            copy.storedata@ == self.storedata@,
            copy.descriptor@ == self.descriptor@,
            copy.query@ == self.query@,
    {
        Expansion {
            storedata: self.storedata.clone(),
            descriptor: self.descriptor.clone(),
            query: self.query.clone(),
        }
    }
}

/// The path of the attributes that hold the library's options.
pub open spec fn own_path() -> Seq<char> {
    "datastore"@
}

/// The options that `attrs` give. Only the attributes of the library's own path are read, in
/// the order in which they were written, and the first that gives no option decides.
pub open spec fn options(attrs: Seq<Attribute>) -> Result<Seq<AttrView>, ParseErrorView>
    decreases attrs.len(),
{
    if attrs.len() == 0 {
        Ok(Seq::empty())
    } else {
        match options(attrs.drop_last()) {
            Err(e) => Err(e),
            Ok(earlier) => {
                if attrs.last().path@ == own_path() {
                    match parsed(attrs.last().tokens@) {
                        Ok(attr) => Ok(earlier.push(attr)),
                        Err(e) => Err(e),
                    }
                } else {
                    Ok(earlier)
                }
            },
        }
    }
}

/// `fields`, with the type of each resolved to its kind. The first field whose type is no
/// scalar kind decides: it is given back with the type as it was written.
pub open spec fn resolved(fields: Seq<FieldDecl>) -> Result<Seq<FieldShape>, DeriveErrorView>
    decreases fields.len(),
{
    if fields.len() == 0 {
        Ok(Seq::empty())
    } else {
        match resolved(fields.drop_last()) {
            Err(e) => Err(e),
            Ok(earlier) => match TypeTag::spec_from_scalar_name(squeezed(fields.last().ty@)) {
                Some(ty) => Ok(earlier.push(FieldShape { key: fields.last().ident@, ty })),
                None => Err(
                    DeriveErrorView::UnsupportedType {
                        field: fields.last().ident@,
                        ty: fields.last().ty@,
                    },
                ),
            },
        }
    }
}

/// The kinds of `shape`, in the same order.
pub open spec fn kinds(shape: Seq<FieldShape>) -> Seq<TypeTag> {
    Seq::new(shape.len(), |i: int| shape[i].ty)
}

/// The name under which a record is stored: the override where there is one, else the record's
/// own identifier.
pub open spec fn resolved_name(ident: Seq<char>, name: Option<Seq<char>>) -> Seq<char> {
    match name {
        Some(name) => name,
        None => ident,
    }
}

/// The identifier of the descriptor companion of the record type `ident`.
pub open spec fn descriptor_ident(ident: Seq<char>) -> Seq<char> {
    ident + "Descriptor"@
}

/// The identifier of the query companion of the record type `ident`.
pub open spec fn query_ident(ident: Seq<char>) -> Seq<char> {
    ident + "Query"@
}

/// The codec of the record type `ident` with the fields `shape`.
pub open spec fn storedata_of(ident: Seq<char>, shape: Seq<FieldShape>) -> StoreDataView {
    StoreDataView {
        ident,
        descriptor: descriptor_ident(ident),
        query: query_ident(ident),
        shape,
        bounds: distinct(kinds(shape)),
    }
}

/// The descriptor of the record type `ident` with the fields `shape` and the name override
/// `name`.
pub open spec fn descriptor_of(
    ident: Seq<char>,
    shape: Seq<FieldShape>,
    name: Option<Seq<char>>,
) -> DescriptorView {
    DescriptorView {
        ident: descriptor_ident(ident),
        name: resolved_name(ident, name),
        shape,
        bounds: distinct(kinds(shape)),
    }
}

/// The fresh query of the record type `ident` with the fields `shape`: no slot is set.
pub open spec fn query_of(ident: Seq<char>, shape: Seq<FieldShape>) -> QueryView {
    QueryView {
        ident: query_ident(ident),
        shape,
        slots: Seq::new(shape.len(), |i: int| None::<ValueView>),
        bounds: distinct(kinds(shape)),
    }
}

/// What [`expand_macro`] gives for a declaration: its companions, or the first error in it. The
/// attributes are read before the fields.
pub open spec fn expansion(input: DeriveInput) -> Result<
    (StoreDataView, DescriptorView, QueryView),
    DeriveErrorView,
> {
    match options(input.attrs@) {
        Err(e) => Err(DeriveErrorView::Attribute(e)),
        Ok(attrs) => match resolved(input.fields@) {
            Err(e) => Err(e),
            Ok(shape) => Ok(
                (
                    storedata_of(input.ident@, shape),
                    descriptor_of(input.ident@, shape, first_name(attrs)),
                    query_of(input.ident@, shape),
                ),
            ),
        },
    }
}

/// `r`, with the companions or the error taken by their views.
pub open spec fn expansion_view(r: Result<Expansion, DeriveError>) -> Result<
    (StoreDataView, DescriptorView, QueryView),
    DeriveErrorView,
> {
    match r {
        Ok(x) => Ok((x.storedata@, x.descriptor@, x.query@)),
        Err(e) => Err(e@),
    }
}

/// The kinds of the fields that `idents` and `types` declare are the first of `types`.
proof fn lemma_kinds_of_declared(idents: Seq<Seq<char>>, types: Seq<TypeTag>)
    requires
        idents.len() == types.len(),
    ensures
        kinds(declared(idents, types)) == types,
{
    assert(kinds(declared(idents, types)) =~= types);
}

/// Derives the three companions of the record that `input` declares.
///
/// The options are read from the attributes of the library's own path, then the type of each
/// field is resolved to its kind. The first attribute that gives no option, else the first
/// field of an unsupported type, is the error. Else each companion is derived from the same
/// fields, in declaration order, and the descriptor is given the name that the options give.
pub fn expand_macro(input: &DeriveInput) -> (r: Result<Expansion, DeriveError>)
    ensures
        expansion_view(r) == expansion(*input),
        r matches Ok(x) ==> x.query@.wf(),
{
    // Parse global attributes
    let mut attrs = Attrs::new();
    let mut i: usize = 0;
    while i < input.attrs.len()
        invariant
            i <= input.attrs.len(),
            options(input.attrs@.take(i as int)) == Ok::<Seq<AttrView>, ParseErrorView>(attrs@),
        decreases input.attrs.len() - i,
    {
        proof {
            let next = input.attrs@.take(i + 1);
            assert(next.drop_last() == input.attrs@.take(i as int));
            assert(next.last() == input.attrs@[i as int]);
        }
        let attr = &input.attrs[i];
        if str_eq(attr.path.as_str(), "datastore") {
            let parsed = Attr::parse(attr.tokens.as_str());
            proof {
                lemma_options_stay_failed(input.attrs@, i + 1);
            }
            match parsed {
                Ok(attr) => {
                    attrs.push(attr);
                },
                Err(e) => {
                    return Err(DeriveError::Attribute(e));
                },
            }
        }
        i += 1;
    }
    proof {
        assert(input.attrs@.take(i as int) == input.attrs@);
    }

    let mut types: Vec<TypeTag> = Vec::new();
    let mut idents: Vec<String> = Vec::new();
    proof {
        assert(input.fields@.take(0) =~= Seq::<FieldDecl>::empty());
        assert(declared(names(idents@), types@) =~= Seq::<FieldShape>::empty());
    }
    let mut k: usize = 0;
    while k < input.fields.len()
        invariant
            k <= input.fields.len(),
            options(input.attrs@) == Ok::<Seq<AttrView>, ParseErrorView>(attrs@),
            types@.len() == k,
            idents@.len() == k,
            resolved(input.fields@.take(k as int)) == Ok::<Seq<FieldShape>, DeriveErrorView>(
                declared(names(idents@), types@),
            ),
        decreases input.fields.len() - k,
    {
        proof {
            let next = input.fields@.take(k + 1);
            assert(next.drop_last() == input.fields@.take(k as int));
            assert(next.last() == input.fields@[k as int]);
            lemma_resolved_stays_failed(input.fields@, k + 1);
        }
        let field = &input.fields[k];
        let ghost earlier = declared(names(idents@), types@);
        match TypeTag::from_scalar_name(squeeze(field.ty.as_str()).as_str()) {
            Some(ty) => {
                types.push(ty);
                idents.push(field.ident.clone());
                proof {
                    assert(declared(names(idents@), types@) =~= earlier.push(
                        FieldShape { key: field.ident@, ty },
                    ));
                }
            },
            None => {
                return Err(
                    DeriveError::UnsupportedType {
                        field: field.ident.clone(),
                        ty: field.ty.clone(),
                    },
                );
            },
        }
        k += 1;
    }
    proof {
        assert(input.fields@.take(k as int) == input.fields@);
        lemma_kinds_of_declared(names(idents@), types@);
    }

    let storedata = expand_storedata_impl(
        input.ident.as_str(),
        idents.as_slice(),
        types.as_slice(),
    );
    let descriptor = expand_datadescriptor_impl(
        input.ident.as_str(),
        idents.as_slice(),
        types.as_slice(),
        attrs.name(),
    );
    let query = expand_dataquery_impl(input.ident.as_str(), idents.as_slice(), types.as_slice());

    Ok(Expansion { storedata, descriptor, query })
}

/// Once a start of `attrs` gives an error, every longer start gives the same error.
pub proof fn lemma_options_stay_failed(attrs: Seq<Attribute>, n: int)
    requires
        0 <= n <= attrs.len(),
    ensures
        options(attrs.take(n)) is Err ==> options(attrs) == options(attrs.take(n)),
    decreases attrs.len() - n,
{
    if n == attrs.len() {
        assert(attrs.take(n) == attrs);
    } else {
        assert(attrs.drop_last().take(n) == attrs.take(n));
        lemma_options_stay_failed(attrs.drop_last(), n);
    }
}

/// Once a start of `fields` gives an error, every longer start gives the same error.
pub proof fn lemma_resolved_stays_failed(fields: Seq<FieldDecl>, n: int)
    requires
        0 <= n <= fields.len(),
    ensures
        resolved(fields.take(n)) is Err ==> resolved(fields) == resolved(fields.take(n)),
    decreases fields.len() - n,
{
    if n == fields.len() {
        assert(fields.take(n) == fields);
    } else {
        assert(fields.drop_last().take(n) == fields.take(n));
        lemma_resolved_stays_failed(fields.drop_last(), n);
    }
}

/// Attributes of other paths give no option.
pub proof fn lemma_no_options(attrs: Seq<Attribute>)
    requires
        forall|k: int| 0 <= k < attrs.len() ==> (#[trigger] attrs[k]).path@ != own_path(),
    ensures
        options(attrs) == Ok::<Seq<AttrView>, ParseErrorView>(Seq::empty()),
    decreases attrs.len(),
{
    if attrs.len() > 0 {
        assert(attrs.last() == attrs[attrs.len() - 1]);
        assert forall|k: int| 0 <= k < attrs.drop_last().len() implies (
        #[trigger] attrs.drop_last()[k]).path@ != own_path() by {
            assert(attrs.drop_last()[k] == attrs[k]);
        }
        lemma_no_options(attrs.drop_last());
    }
}

/// The first option is that of the first attribute of the library's own path.
pub proof fn lemma_first_option(attrs: Seq<Attribute>, i: int)
    requires
        options(attrs) is Ok,
        0 <= i < attrs.len(),
        attrs[i].path@ == own_path(),
        forall|k: int| 0 <= k < i ==> (#[trigger] attrs[k]).path@ != own_path(),
    ensures
        options(attrs)->Ok_0.len() > 0,
        parsed(attrs[i].tokens@) == Ok::<AttrView, ParseErrorView>(options(attrs)->Ok_0[0]),
    decreases attrs.len(),
{
    let front = attrs.drop_last();
    if i == attrs.len() - 1 {
        assert forall|k: int| 0 <= k < front.len() implies (#[trigger] front[k]).path@
            != own_path() by {
            assert(front[k] == attrs[k]);
        }
        lemma_no_options(front);
    } else {
        assert(front[i] == attrs[i]);
        assert forall|k: int| 0 <= k < i implies (#[trigger] front[k]).path@ != own_path() by {
            assert(front[k] == attrs[k]);
        }
        lemma_first_option(front, i);
    }
}

/// Resolving keeps every field, in declaration order, each with its name and with the kind
/// that its type names.
pub proof fn lemma_resolved_in_order(fields: Seq<FieldDecl>)
    requires
        resolved(fields) is Ok,
    ensures
        resolved(fields)->Ok_0.len() == fields.len(),
        forall|i: int|
            0 <= i < fields.len() ==> {
                &&& (#[trigger] resolved(fields)->Ok_0[i]).key == fields[i].ident@
                &&& TypeTag::spec_from_scalar_name(squeezed(fields[i].ty@)) == Some(
                    resolved(fields)->Ok_0[i].ty,
                )
            },
    decreases fields.len(),
{
    if fields.len() > 0 {
        lemma_resolved_in_order(fields.drop_last());
        let earlier = resolved(fields.drop_last())->Ok_0;
        let all = resolved(fields)->Ok_0;
        assert forall|i: int| 0 <= i < fields.len() implies {
            &&& (#[trigger] all[i]).key == fields[i].ident@
            &&& TypeTag::spec_from_scalar_name(squeezed(fields[i].ty@)) == Some(all[i].ty)
        } by {
            if i < fields.len() - 1 {
                assert(all[i] == earlier[i]);
                assert(fields.drop_last()[i] == fields[i]);
            }
        }
    }
}

/// Declaration-order determinism: when the descriptor derived from a declaration is written
/// in full, the backend has been given exactly the declared fields, in declaration order, each
/// with its name and with the kind that its type names. A declaration without fields gives the
/// backend nothing. Every run of the same descriptor gives the same.
pub proof fn lemma_describes_in_declaration_order<E>(
    input: DeriveInput,
    attempts: Seq<Attempt<FieldShape, (), E>>,
)
    requires
        expansion(input) is Ok,
        reports(attempts, expansion(input)->Ok_0.1.shape, Ok::<(), E>(())),
    ensures
        attempts.len() == input.fields@.len(),
        forall|i: int|
            0 <= i < attempts.len() ==> {
                &&& (#[trigger] attempts[i]).call.key == input.fields@[i].ident@
                &&& TypeTag::spec_from_scalar_name(squeezed(input.fields@[i].ty@)) == Some(
                    attempts[i].call.ty,
                )
                &&& attempts[i].outcome is Ok
            },
{
    lemma_resolved_in_order(input.fields@);
    let shape = resolved(input.fields@)->Ok_0;
    assert forall|i: int| 0 <= i < attempts.len() implies {
        &&& (#[trigger] attempts[i]).call.key == input.fields@[i].ident@
        &&& TypeTag::spec_from_scalar_name(squeezed(input.fields@[i].ty@)) == Some(
            attempts[i].call.ty,
        )
        &&& attempts[i].outcome is Ok
    } by {
        assert(attempts[i].call == shape[i]);
        if i == attempts.len() - 1 {
            assert(attempts[i] == attempts.last());
        }
    }
}

/// Query partiality, at the start: the query derived from a declaration has no slot set and
/// emits nothing.
pub proof fn lemma_fresh_query_emits_nothing(input: DeriveInput)
    requires
        expansion(input) is Ok,
    ensures
        expansion(input)->Ok_0.2.wf(),
        set_count(expansion(input)->Ok_0.2.slots) == 0,
        expansion(input)->Ok_0.2.emission() == Seq::<FieldValue>::empty(),
{
    let query = expansion(input)->Ok_0.2;
    lemma_unset_emits_nothing(query.shape, query.slots);
    lemma_emits_one_for_each_set_slot(query.shape, query.slots);
}

/// Capability de-duplication: the companions derived from a declaration require each kind
/// that a field is of, and no other, and require it once, however many fields are of it.
pub proof fn lemma_one_requirement_for_each_kind(input: DeriveInput, ty: TypeTag)
    requires
        expansion(input) is Ok,
    ensures
        expansion(input)->Ok_0.1.bounds.no_duplicates(),
        expansion(input)->Ok_0.1.bounds.len() <= input.fields@.len(),
        expansion(input)->Ok_0.1.bounds.contains(ty) <==> exists|i: int|
            0 <= i < input.fields@.len() && TypeTag::spec_from_scalar_name(
                squeezed((#[trigger] input.fields@[i]).ty@),
            ) == Some(ty),
        expansion(input)->Ok_0.0.bounds == expansion(input)->Ok_0.1.bounds,
        expansion(input)->Ok_0.2.bounds == expansion(input)->Ok_0.1.bounds,
{
    let shape = resolved(input.fields@)->Ok_0;
    let types = kinds(shape);
    lemma_resolved_in_order(input.fields@);
    lemma_distinct_no_duplicates(types);
    lemma_distinct_len(types);
    lemma_distinct_same_kinds(types, ty);
    if types.contains(ty) {
        let i = choose|i: int| 0 <= i < types.len() && types[i] == ty;
        assert(shape[i].ty == ty);
        assert(TypeTag::spec_from_scalar_name(squeezed(input.fields@[i].ty@)) == Some(ty));
    }
    if exists|i: int|
        0 <= i < input.fields@.len() && TypeTag::spec_from_scalar_name(
            squeezed((#[trigger] input.fields@[i]).ty@),
        ) == Some(ty) {
        let i = choose|i: int|
            0 <= i < input.fields@.len() && TypeTag::spec_from_scalar_name(
                squeezed((#[trigger] input.fields@[i]).ty@),
            ) == Some(ty);
        assert(shape[i].ty == ty);
        assert(types[i] == ty);
    }
}

/// Name resolution without an override: a record whose declaration has no attribute of the
/// library's own path is stored under its own identifier.
pub proof fn lemma_name_defaults_to_ident(input: DeriveInput)
    requires
        expansion(input) is Ok,
        forall|k: int|
            0 <= k < input.attrs@.len() ==> (#[trigger] input.attrs@[k]).path@ != own_path(),
    ensures
        expansion(input)->Ok_0.1.name == input.ident@,
{
    lemma_no_options(input.attrs@);
}

/// Name resolution with an override: a record whose first attribute of the library's own path
/// is `name = "X"` is stored under the name `X`.
pub proof fn lemma_name_follows_override(input: DeriveInput, i: int, name: Seq<char>)
    requires
        expansion(input) is Ok,
        0 <= i < input.attrs@.len(),
        input.attrs@[i].path@ == own_path(),
        forall|k: int| 0 <= k < i ==> (#[trigger] input.attrs@[k]).path@ != own_path(),
        parsed(input.attrs@[i].tokens@) == Ok::<AttrView, ParseErrorView>(AttrView::Name(name)),
    ensures
        expansion(input)->Ok_0.1.name == name,
{
    lemma_first_option(input.attrs@, i);
}

/// Derives the codec of the record type `ident`, whose `i`-th field is called `idents[i]` and
/// is of the kind `types[i]`.
pub fn expand_storedata_impl(ident: &str, idents: &[String], types: &[TypeTag]) -> (s:
    StoreDataImpl)
    ensures
        s@ == (StoreDataView {
            ident: ident@,
            descriptor: descriptor_ident(ident@),
            query: query_ident(ident@),
            shape: declared(names(idents@), types@),
            bounds: distinct(types@),
        }),
{
    let trait_bounds = expand_trait_bounds(types);
    let fields = declare(idents, types);
    let descriptor_ident = joined(ident, "Descriptor");
    let query_ident = joined(ident, "Query");
    StoreDataImpl::new(String::from_str(ident), descriptor_ident, query_ident, fields, trait_bounds)
}

/// Derives the descriptor of the record type `ident`, whose `i`-th field is called `idents[i]`
/// and is of the kind `types[i]`. The record is stored as `name` where there is one, else under
/// its own identifier.
pub fn expand_datadescriptor_impl(
    ident: &str,
    idents: &[String],
    types: &[TypeTag],
    name: Option<String>,
) -> (d: DataDescriptorImpl)
    ensures
        d@ == (DescriptorView {
            ident: descriptor_ident(ident@),
            name: resolved_name(ident@, str_view(name)),
            shape: declared(names(idents@), types@),
            bounds: distinct(types@),
        }),
{
    let trait_bounds = expand_trait_bounds(types);
    let datadescriptor_ident = joined(ident, "Descriptor");
    let fields = declare(idents, types);
    let name = match name {
        Some(name) => name,
        _ => String::from_str(ident),
    };
    DataDescriptorImpl::new(datadescriptor_ident, name, fields, trait_bounds)
}

/// Derives the query of the record type `ident`, whose `i`-th field is called `idents[i]` and
/// is of the kind `types[i]`: one slot for each field, none of them set.
pub fn expand_dataquery_impl(ident: &str, idents: &[String], types: &[TypeTag]) -> (q:
    DataQueryImpl)
    ensures
        q@ == (QueryView {
            ident: query_ident(ident@),
            shape: declared(names(idents@), types@),
            slots: Seq::new(
                declared(names(idents@), types@).len(),
                |i: int| None::<ValueView>,
            ),
            bounds: distinct(types@),
        }),
        q@.wf(),
{
    let trait_bounds = expand_trait_bounds(types);
    let dataquery_ident = joined(ident, "Query");
    let fields = declare(idents, types);
    DataQueryImpl::new(dataquery_ident, fields, trait_bounds)
}

} // verus!
