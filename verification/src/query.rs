//! The query companion: a filter over some of the fields of a record.

use crate::companion::DataQuery;
use crate::field::copy_bounds;
use crate::field::copy_fields;
use crate::field::shapes;
use crate::field::Field;
use crate::protocol::Writer;
use crate::session::added;
use crate::session::reports;
use crate::session::FieldShape;
use crate::session::FieldValue;
use crate::session::WriteSession;
use crate::tag::TypeTag;
use crate::text::str_eq;
use crate::value::Value;
use crate::value::ValueView;
use vstd::prelude::*;

verus! {

/// The query derived for one record type: one slot for each field, each either unset or set to
/// a value of the field's kind. A query starts with every slot unset.
#[derive(Debug)]
pub struct DataQueryImpl {
    ident: String,
    fields: Vec<Field>,
    slots: Vec<Option<Value>>,
    bounds: Vec<TypeTag>,
}

/// The mathematical value of a [`DataQueryImpl`].
pub struct QueryView {
    /// The identifier of the companion itself.
    pub ident: Seq<char>,
    /// The fields of the record, in declaration order.
    pub shape: Seq<FieldShape>,
    /// The slot of each field, in declaration order.
    pub slots: Seq<Option<ValueView>>,
    /// The kinds that a backend must support.
    pub bounds: Seq<TypeTag>,
}

/// The views of `slots`, in the same order.
pub open spec fn slot_views(slots: Seq<Option<Value>>) -> Seq<Option<ValueView>> {
    Seq::new(
        slots.len(),
        |i: int|
            match slots[i] {
                Some(v) => Some(v@),
                None => None,
            },
    )
}

/// `i` is the place of the first field of `shape` that is called `name`.
pub open spec fn is_first_named(shape: Seq<FieldShape>, name: Seq<char>, i: int) -> bool {
    &&& 0 <= i < shape.len()
    &&& shape[i].key == name
    &&& forall|k: int| 0 <= k < i ==> (#[trigger] shape[k]).key != name
}

/// What a query with the slots `slots` over the fields `shape` emits: for each set slot, in
/// declaration order, the field's name with the value of the slot. An unset slot emits nothing.
pub open spec fn emitted(shape: Seq<FieldShape>, slots: Seq<Option<ValueView>>) -> Seq<FieldValue>
    decreases slots.len(),
{
    if slots.len() == 0 {
        Seq::empty()
    } else {
        let earlier = emitted(shape, slots.drop_last());
        match slots.last() {
            Some(value) => earlier.push(FieldValue { key: shape[slots.len() - 1].key, value }),
            None => earlier,
        }
    }
}

/// The number of set slots among `slots`.
pub open spec fn set_count(slots: Seq<Option<ValueView>>) -> nat
    decreases slots.len(),
{
    if slots.len() == 0 {
        0
    } else {
        set_count(slots.drop_last()) + if slots.last() is Some {
            1nat
        } else {
            0nat
        }
    }
}

impl QueryView {
    /// Every field has a slot, and a set slot holds a value of its field's kind.
    pub open spec fn wf(self) -> bool {
        &&& self.slots.len() == self.shape.len()
        &&& forall|i: int|
            0 <= i < self.slots.len() ==> ((#[trigger] self.slots[i]) matches Some(v)
                ==> v.tag() == self.shape[i].ty)
    }

    /// Whether `value` can be set for `name`: the first field called `name` is of the value's
    /// kind.
    pub open spec fn admits(self, name: Seq<char>, value: ValueView) -> bool {
        exists|i: int| is_first_named(self.shape, name, i) && self.shape[i].ty == value.tag()
    }

    /// The query after `value` was set for the field called `name`.
    pub open spec fn set(self, name: Seq<char>, value: ValueView) -> QueryView {
        if self.admits(name, value) {
            let i = choose|i: int|
                is_first_named(self.shape, name, i) && self.shape[i].ty == value.tag();
            QueryView { slots: self.slots.update(i, Some(value)), ..self }
        } else {
            self
        }
    }

    /// What writing the query emits.
    pub open spec fn emission(self) -> Seq<FieldValue> {
        emitted(self.shape, self.slots)
    }
}

impl View for DataQueryImpl {
    type V = QueryView;

    closed spec fn view(&self) -> QueryView {
        QueryView {
            ident: self.ident@,
            shape: shapes(self.fields@),
            slots: slot_views(self.slots@),
            bounds: self.bounds@,
        }
    }
}

/// What a query emits for the first `n` of its slots is the start of what it emits in all.
pub proof fn lemma_emitted_prefix(shape: Seq<FieldShape>, slots: Seq<Option<ValueView>>, n: int)
    requires
        0 <= n <= slots.len(),
    ensures
        emitted(shape, slots.take(n)).is_prefix_of(emitted(shape, slots)),
    decreases slots.len() - n,
{
    if n == slots.len() {
        assert(slots.take(n) == slots);
    } else {
        lemma_emitted_prefix(shape, slots.drop_last(), n);
        assert(slots.drop_last().take(n) == slots.take(n));
    }
}

/// A query in which no slot is set emits nothing.
pub proof fn lemma_unset_emits_nothing(shape: Seq<FieldShape>, slots: Seq<Option<ValueView>>)
    requires
        forall|i: int| 0 <= i < slots.len() ==> (#[trigger] slots[i]) is None,
    ensures
        emitted(shape, slots) == Seq::<FieldValue>::empty(),
    decreases slots.len(),
{
    if slots.len() > 0 {
        assert(slots.last() is None);
        lemma_unset_emits_nothing(shape, slots.drop_last());
    }
}

/// A query emits one field for each set slot: with `k` of its slots set, exactly `k`.
pub proof fn lemma_emits_one_for_each_set_slot(
    shape: Seq<FieldShape>,
    slots: Seq<Option<ValueView>>,
)
    ensures
        emitted(shape, slots).len() == set_count(slots),
    decreases slots.len(),
{
    if slots.len() > 0 {
        lemma_emits_one_for_each_set_slot(shape, slots.drop_last());
    }
}

/// What a query emits follows the declaration order and holds the values that were set: the
/// field of a set slot comes with the value of the slot, after exactly the fields of the set
/// slots before it, whichever slots those are.
pub proof fn lemma_emits_in_declaration_order(
    shape: Seq<FieldShape>,
    slots: Seq<Option<ValueView>>,
    i: int,
)
    requires
        0 <= i < slots.len(),
        slots[i] is Some,
    ensures
        set_count(slots.take(i)) < emitted(shape, slots).len(),
        emitted(shape, slots)[set_count(slots.take(i)) as int] == (FieldValue {
            key: shape[i].key,
            value: slots[i]->Some_0,
        }),
{
    let upto = slots.take(i + 1);
    assert(upto.drop_last() == slots.take(i));
    assert(upto.last() == slots[i]);
    lemma_emits_one_for_each_set_slot(shape, slots.take(i));
    lemma_emitted_prefix(shape, slots, i + 1);
    let rank = set_count(slots.take(i)) as int;
    assert(emitted(shape, upto)[rank] == emitted(shape, slots)[rank]);
}

/// Setting a field fills the slot of that field and leaves every other slot as it was.
pub proof fn lemma_set_fills_one_slot(q: QueryView, name: Seq<char>, value: ValueView, i: int)
    requires
        q.wf(),
        is_first_named(q.shape, name, i),
        q.shape[i].ty == value.tag(),
    ensures
        q.set(name, value).slots == q.slots.update(i, Some(value)),
        q.set(name, value).shape == q.shape,
        q.set(name, value).wf(),
{
    let j = choose|j: int| is_first_named(q.shape, name, j) && q.shape[j].ty == value.tag();
    if j < i {
        assert(q.shape[j].key != name);
    }
    if i < j {
        assert(q.shape[i].key != name);
    }
}

/// Filling a slot that was unset adds one to the number of set slots; filling a slot that was
/// set keeps the number.
pub proof fn lemma_set_count_after_update(
    slots: Seq<Option<ValueView>>,
    i: int,
    value: ValueView,
)
    requires
        0 <= i < slots.len(),
    ensures
        set_count(slots.update(i, Some(value))) == set_count(slots) + if slots[i] is None {
            1nat
        } else {
            0nat
        },
    decreases slots.len(),
{
    let filled = slots.update(i, Some(value));
    if i == slots.len() - 1 {
        assert(filled.drop_last() == slots.drop_last());
    } else {
        assert(filled.drop_last() == slots.drop_last().update(i, Some(value)));
        lemma_set_count_after_update(slots.drop_last(), i, value);
    }
}

/// Setting a field that was unset makes the query emit one field more.
pub proof fn lemma_set_emits_one_more(q: QueryView, name: Seq<char>, value: ValueView, i: int)
    requires
        q.wf(),
        is_first_named(q.shape, name, i),
        q.shape[i].ty == value.tag(),
        q.slots[i] is None,
    ensures
        q.set(name, value).emission().len() == q.emission().len() + 1,
{
    lemma_set_fills_one_slot(q, name, value, i);
    lemma_set_count_after_update(q.slots, i, value);
    lemma_emits_one_for_each_set_slot(q.shape, q.slots);
    lemma_emits_one_for_each_set_slot(q.shape, q.set(name, value).slots);
}

/// A value that cannot be set leaves the query as it was.
pub proof fn lemma_set_keeps_wf(q: QueryView, name: Seq<char>, value: ValueView)
    requires
        q.wf(),
    ensures
        q.set(name, value).wf(),
        q.set(name, value).shape == q.shape,
        !q.admits(name, value) ==> q.set(name, value) == q,
{
    if q.admits(name, value) {
        let i = choose|i: int| is_first_named(q.shape, name, i) && q.shape[i].ty == value.tag();
        lemma_set_fills_one_slot(q, name, value, i);
    }
}

/// The setters of two fields of different names can be called in either order.
pub proof fn lemma_set_commutes(
    q: QueryView,
    a: Seq<char>,
    x: ValueView,
    b: Seq<char>,
    y: ValueView,
)
    requires
        q.wf(),
        a != b,
    ensures
        q.set(a, x).set(b, y) == q.set(b, y).set(a, x),
{
    lemma_set_keeps_wf(q, a, x);
    lemma_set_keeps_wf(q, b, y);
    let qa = q.set(a, x);
    let qb = q.set(b, y);
    assert(qa.admits(b, y) == q.admits(b, y));
    assert(qb.admits(a, x) == q.admits(a, x));
    if q.admits(a, x) && q.admits(b, y) {
        let i = choose|i: int| is_first_named(q.shape, a, i) && q.shape[i].ty == x.tag();
        let j = choose|j: int| is_first_named(q.shape, b, j) && q.shape[j].ty == y.tag();
        lemma_set_fills_one_slot(q, a, x, i);
        lemma_set_fills_one_slot(q, b, y, j);
        lemma_set_fills_one_slot(qa, b, y, j);
        lemma_set_fills_one_slot(qb, a, x, i);
        assert(i != j);
        assert(qa.set(b, y).slots =~= qb.set(a, x).slots);
    }
}

impl Clone for DataQueryImpl {
    /// A copy with the same slots set to the same values.
    fn clone(&self) -> (copy: Self)
        ensures
            copy@ == self@,
    {
        proof {
            use_type_invariant(self);
        }
        let mut slots: Vec<Option<Value>> = Vec::new();
        let mut i: usize = 0;
        while i < self.slots.len()
            invariant
                i <= self.slots.len(),
                slots@.len() == i,
                forall|k: int|
                    0 <= k < i ==> (#[trigger] slot_views(slots@)[k]) == slot_views(
                        self.slots@,
                    )[k],
            decreases self.slots.len() - i,
        {
            let ghost earlier = slots@;
            let slot = match &self.slots[i] {
                Some(value) => Some(value.clone()),
                None => None,
            };
            slots.push(slot);
            proof {
                assert forall|k: int| 0 <= k < i + 1 implies (#[trigger] slot_views(slots@)[k])
                    == slot_views(self.slots@)[k] by {
                    if k < i {
                        assert(slot_views(slots@)[k] == slot_views(earlier)[k]);
                    }
                }
            }
            i += 1;
        }
        let fields = copy_fields(&self.fields);
        proof {
            assert(slot_views(slots@) =~= slot_views(self.slots@));
        }
        DataQueryImpl {
            ident: self.ident.clone(),
            fields,
            slots,
            bounds: copy_bounds(&self.bounds),
        }
    }
}

impl DataQueryImpl {
    /// Every field has a slot, and a set slot holds a value of its field's kind.
    #[verifier::type_invariant]
    spec fn inv(self) -> bool {
        self@.wf()
    }

    /// The query called `ident` over the fields `fields`, with every slot unset.
    pub(crate) fn new(ident: String, fields: Vec<Field>, bounds: Vec<TypeTag>) -> (q: Self)
        ensures
            q@ == (QueryView {
                ident: ident@,
                shape: shapes(fields@),
                slots: Seq::new(fields@.len(), |i: int| None::<ValueView>),
                bounds: bounds@,
            }),
            q@.wf(),
    {
        let mut slots: Vec<Option<Value>> = Vec::new();
        let mut i: usize = 0;
        while i < fields.len()
            invariant
                i <= fields.len(),
                slots@.len() == i,
                forall|k: int| 0 <= k < i ==> (#[trigger] slots@[k]) is None,
            decreases fields.len() - i,
        {
            slots.push(None);
            i += 1;
        }
        proof {
            assert(slot_views(slots@) =~= Seq::new(fields@.len(), |i: int| None::<ValueView>));
            assert(shapes(fields@).len() == slots@.len());
        }
        DataQueryImpl { ident, fields, slots, bounds }
    }

    /// The identifier of the companion itself.
    pub fn companion_ident(&self) -> (ident: &str)
        ensures
            ident@ == self@.ident,
    {
        self.ident.as_str()
    }

    /// The kinds that a backend must support to store the record.
    pub fn bounds(&self) -> (bounds: &Vec<TypeTag>)
        ensures
            bounds@ == self@.bounds,
    {
        &self.bounds
    }

    /// Sets the slot of the field called `name` to `value` and hands the query back, so that
    /// calls can be chained. Where several fields share the name, the first is meant. Where no
    /// field is called `name`, or the field is of another kind than `value`, the query comes back
    /// unchanged.
    pub fn set(self, name: &str, value: Value) -> (q: Self)
        ensures
            q@ == self@.set(name@, value@),
            q@.wf(),
    {
        proof {
            use_type_invariant(&self);
        }
        assert(slot_views(self.slots@).len() == self.slots@.len());
        let mut i: usize = 0;
        while i < self.fields.len()
            invariant
                i <= self.fields.len(),
                self@.wf(),
                self.slots@.len() == self.fields@.len(),
                forall|k: int| 0 <= k < i ==> (#[trigger] shapes(self.fields@)[k]).key != name@,
            decreases self.fields.len() - i,
        {
            if str_eq(self.fields[i].name.as_str(), name) {
                let ghost shape = shapes(self.fields@);
                assert(is_first_named(shape, name@, i as int));
                assert forall|j: int| is_first_named(shape, name@, j) implies j == i by {
                    if j < i {
                        assert(shape[j].key != name@);
                    }
                    if i < j {
                        assert(shape[i as int].key == name@);
                    }
                }
                if self.fields[i].ty == value.tag() {
                    let DataQueryImpl { ident, fields, mut slots, bounds } = self;
                    let ghost old_slots = slots@;
                    let ghost v = value@;
                    slots.set(i, Some(value));
                    proof {
                        assert(slot_views(slots@) =~= slot_views(old_slots).update(
                            i as int,
                            Some(v),
                        ));
                        assert(shapes(fields@) == shape);
                        assert forall|k: int| 0 <= k < slot_views(slots@).len() implies ((
                        #[trigger] slot_views(slots@)[k]) matches Some(w) ==> w.tag()
                            == shape[k].ty) by {
                            if k != i {
                                assert(slot_views(slots@)[k] == slot_views(old_slots)[k]);
                            }
                        }
                    }
                    return DataQueryImpl { ident, fields, slots, bounds };
                } else {
                    return self;
                }
            }
            i += 1;
        }
        self
    }
}

impl DataQuery for DataQueryImpl {
    /// Serializes the query into the backend: one `write_field` for each set slot, in
    /// declaration order, with the field's name and the value of the slot. Unset slots are
    /// passed over. The first error ends the run and is handed back as the backend gave it.
    fn write<W>(&self, writer: &mut WriteSession<W>) -> (r: Result<(), W::Error>) where
        W: Writer,

        ensures
            self@.wf(),
            old(writer).fields().is_prefix_of(final(writer).fields()),
            reports(added(old(writer).fields(), final(writer).fields()), self@.emission(), r),
            final(writer).scalars() == old(writer).scalars(),
    {
        proof {
            use_type_invariant(self);
        }
        let ghost before = writer.fields();
        let ghost shape = self@.shape;
        let ghost slots = self@.slots;
        let mut i: usize = 0;
        while i < self.slots.len()
            invariant
                i <= self.slots.len(),
                self@.wf(),
                shape == self@.shape,
                slots == self@.slots,
                slots == slot_views(self.slots@),
                shape == shapes(self.fields@),
                before == old(writer).fields(),
                before.is_prefix_of(writer.fields()),
                added(before, writer.fields()).len() == emitted(shape, slots.take(i as int)).len(),
                forall|k: int|
                    0 <= k < added(before, writer.fields()).len() ==> {
                        &&& (#[trigger] added(before, writer.fields())[k]).call == emitted(
                            shape,
                            slots.take(i as int),
                        )[k]
                        &&& added(before, writer.fields())[k].outcome is Ok
                    },
                writer.scalars() == old(writer).scalars(),
            decreases self.slots.len() - i,
        {
            proof {
                lemma_emitted_prefix(shape, slots, i as int);
                lemma_emitted_prefix(shape, slots, i + 1);
                assert(slots.take(i + 1).drop_last() == slots.take(i as int));
                assert(slots.take(i + 1).last() == slots[i as int]);
            }
            match &self.slots[i] {
                Some(value) => {
                    let ghost so_far = writer.fields();
                    let r = writer.write_field(self.fields[i].name.as_str(), value);
                    proof {
                        let now = writer.fields();
                        assert forall|k: int| 0 <= k < added(before, so_far).len() implies added(
                            before,
                            now,
                        )[k] == added(before, so_far)[k] by {}
                        let n = added(before, so_far).len() as int;
                        assert(added(before, now)[n].outcome == r);
                        assert(added(before, now)[n].call == emitted(shape, slots.take(i + 1))[n]);
                    }
                    match r {
                        Ok(_) => {},
                        Err(e) => {
                            return Err(e);
                        },
                    }
                },
                None => {},
            }
            i += 1;
        }
        proof {
            assert(slots.take(i as int) == slots);
        }
        Ok(())
    }
}

} // verus!
