//! The capability aggregator: which kinds a backend must be able to read and write so that a
//! record can be stored in it.

use crate::tag::TypeTag;
use vstd::prelude::*;

verus! {

/// The kinds of `types`, each once, in the order in which they first occur.
pub open spec fn distinct(types: Seq<TypeTag>) -> Seq<TypeTag>
    decreases types.len(),
{
    if types.len() == 0 {
        Seq::empty()
    } else {
        let earlier = distinct(types.drop_last());
        if earlier.contains(types.last()) {
            earlier
        } else {
            earlier.push(types.last())
        }
    }
}

/// The place at which `ty` first occurs in `types`, for a `ty` that occurs there.
pub open spec fn first_index(types: Seq<TypeTag>, ty: TypeTag) -> int
    decreases types.len(),
{
    if types.len() == 0 {
        0
    } else if types.drop_last().contains(ty) {
        first_index(types.drop_last(), ty)
    } else {
        types.len() - 1
    }
}

/// Whether `ty` is among `types`.
fn contains(types: &Vec<TypeTag>, ty: TypeTag) -> (found: bool)
    ensures
        found == types@.contains(ty),
{
    let mut i: usize = 0;
    while i < types.len()
        invariant
            i <= types.len(),
            forall|k: int| 0 <= k < i ==> types@[k] != ty,
        decreases types.len() - i,
    {
        if types[i] == ty {
            return true;
        }
        i += 1;
    }
    false
}

/// Collects the kinds that the fields of a record refer to into the list of requirements on a
/// backend: one requirement for each kind, however many fields are of that kind, in the order in
/// which the kinds first occur.
pub fn expand_trait_bounds(types: &[TypeTag]) -> (bounds: Vec<TypeTag>)
    ensures
        bounds@ == distinct(types@),
{
    let mut bounds: Vec<TypeTag> = Vec::new();
    let mut i: usize = 0;
    while i < types.len()
        invariant
            i <= types.len(),
            bounds@ == distinct(types@.take(i as int)),
        decreases types.len() - i,
    {
        let ty = types[i];
        proof {
            let next = types@.take(i + 1);
            assert(next.drop_last() == types@.take(i as int));
            assert(next.last() == ty);
        }
        if !contains(&bounds, ty) {
            bounds.push(ty);
        }
        i += 1;
    }
    proof {
        assert(types@.take(i as int) == types@);
    }
    bounds
}

/// Aggregation neither loses nor invents a kind: a kind is required exactly if some field is of
/// that kind.
pub proof fn lemma_distinct_same_kinds(types: Seq<TypeTag>, ty: TypeTag)
    ensures
        distinct(types).contains(ty) <==> types.contains(ty),
    decreases types.len(),
{
    if types.len() > 0 {
        let front = types.drop_last();
        lemma_distinct_same_kinds(front, ty);
        let earlier = distinct(front);
        if types.contains(ty) {
            let k = choose|k: int| 0 <= k < types.len() && types[k] == ty;
            if k < front.len() {
                assert(front[k] == ty);
            }
        }
        if front.contains(ty) {
            let k = choose|k: int| 0 <= k < front.len() && front[k] == ty;
            assert(types[k] == ty);
        }
        if !earlier.contains(types.last()) {
            let all = earlier.push(types.last());
            assert(all.last() == types.last());
            if earlier.contains(ty) {
                let k = choose|k: int| 0 <= k < earlier.len() && earlier[k] == ty;
                assert(all[k] == ty);
            }
            if all.contains(ty) {
                let k = choose|k: int| 0 <= k < all.len() && all[k] == ty;
                if k < earlier.len() {
                    assert(earlier[k] == ty);
                }
            }
        }
        assert(types[types.len() - 1] == types.last());
    }
}

/// A kind that several fields share yields one requirement, not one for each field.
pub proof fn lemma_distinct_no_duplicates(types: Seq<TypeTag>)
    ensures
        distinct(types).no_duplicates(),
    decreases types.len(),
{
    if types.len() > 0 {
        lemma_distinct_no_duplicates(types.drop_last());
    }
}

/// Aggregation never yields more requirements than there are fields.
pub proof fn lemma_distinct_len(types: Seq<TypeTag>)
    ensures
        distinct(types).len() <= types.len(),
    decreases types.len(),
{
    if types.len() > 0 {
        lemma_distinct_len(types.drop_last());
    }
}

/// A list in which no kind occurs twice is its own aggregate.
pub proof fn lemma_distinct_fixed(types: Seq<TypeTag>)
    requires
        types.no_duplicates(),
    ensures
        distinct(types) == types,
    decreases types.len(),
{
    if types.len() > 0 {
        let front = types.drop_last();
        lemma_distinct_fixed(front);
        lemma_distinct_same_kinds(front, types.last());
        if front.contains(types.last()) {
            let k = choose|k: int| 0 <= k < front.len() && front[k] == types.last();
            assert(types[k] == types[types.len() - 1]);
        }
        assert(front.push(types.last()) == types);
    }
}

/// Aggregating twice is aggregating once.
pub proof fn lemma_distinct_idempotent(types: Seq<TypeTag>)
    ensures
        distinct(distinct(types)) == distinct(types),
{
    lemma_distinct_no_duplicates(types);
    lemma_distinct_fixed(distinct(types));
}

/// Where a kind occurs in `types`, `first_index` is the first place at which it does.
pub proof fn lemma_first_index(types: Seq<TypeTag>, ty: TypeTag)
    requires
        types.contains(ty),
    ensures
        0 <= first_index(types, ty) < types.len(),
        types[first_index(types, ty)] == ty,
        forall|k: int| 0 <= k < first_index(types, ty) ==> types[k] != ty,
    decreases types.len(),
{
    let front = types.drop_last();
    if front.contains(ty) {
        lemma_first_index(front, ty);
        assert forall|k: int| 0 <= k < first_index(types, ty) implies types[k] != ty by {
            assert(front[k] == types[k]);
        }
    } else {
        let k = choose|k: int| 0 <= k < types.len() && types[k] == ty;
        if k < front.len() {
            assert(front[k] == ty);
        }
        assert forall|k: int| 0 <= k < types.len() - 1 implies types[k] != ty by {
            assert(front[k] == types[k]);
            if front[k] == ty {
                assert(front.contains(ty));
            }
        }
    }
}

/// The requirements come in the order in which the kinds first occur among the fields.
pub proof fn lemma_distinct_keeps_order(types: Seq<TypeTag>, i: int, j: int)
    requires
        0 <= i < j < distinct(types).len(),
    ensures
        first_index(types, distinct(types)[i]) < first_index(types, distinct(types)[j]),
    decreases types.len(),
{
    let front = types.drop_last();
    let earlier = distinct(front);
    let all = distinct(types);
    lemma_distinct_same_kinds(front, all[i]);
    assert(earlier[i] == all[i]);
    assert(front.contains(all[i]));
    if j < earlier.len() {
        lemma_distinct_same_kinds(front, all[j]);
        assert(earlier[j] == all[j]);
        lemma_distinct_keeps_order(front, i, j);
    } else {
        lemma_distinct_same_kinds(front, all[j]);
        lemma_first_index(front, all[i]);
    }
}

} // verus!
