//! The index from entry names to positions in the archive, kept in an
//! `indexmap::IndexMap`.

use vstd::prelude::*;
use indexmap::IndexMap;

verus! {

/// `indexmap::IndexMap`, a hash table that keeps its entries in the order of their
/// insertion.
#[verifier::external_type_specification]
#[verifier::external_body]
#[verifier::reject_recursive_types(K)]
#[verifier::reject_recursive_types(V)]
#[verifier::reject_recursive_types(S)]
pub struct ExIndexMap<K, V, S>(IndexMap<K, V, S>);

/// The index from names to positions.
pub type NameIndex = IndexMap<String, usize>;

/// The position that the index holds for each name in it.
pub uninterp spec fn name_index_map(index: NameIndex) -> Map<Seq<char>, usize>;

/// The names of the index, in the order in which the index keeps them: that in which
/// each was entered first.
pub uninterp spec fn name_index_order(index: NameIndex) -> Seq<Seq<char>>;

/// True when `name` is one of `names`.
pub open spec fn names_listed(names: Seq<String>, name: Seq<char>) -> bool {
    exists|i: int| 0 <= i < names.len() && (#[trigger] names[i])@ == name
}

/// Makes an empty index with `IndexMap::with_capacity`.
#[verifier::external_body]
pub(crate) fn name_index_new(capacity: usize) -> (index: NameIndex)
    ensures
        name_index_map(index).dom() == Set::<Seq<char>>::empty(),
        name_index_order(index).len() == 0,
{
    IndexMap::with_capacity(capacity)
}

/// Enters a name with `IndexMap::insert`: the name then stands for `position`, whether
/// or not it stood for another before, and every other name stands for what it did. A
/// name that was in the index keeps its place in the order, and a new one comes last.
#[verifier::external_body]
pub(crate) fn name_index_insert(index: &mut NameIndex, name: String, position: usize)
    ensures
        name_index_map(*final(index)) == name_index_map(*old(index)).insert(name@, position),
        name_index_order(*final(index)) == (if name_index_map(*old(index)).dom().contains(name@) {
            name_index_order(*old(index))
        } else {
            name_index_order(*old(index)).push(name@)
        }),
{
    index.insert(name, position);
}

/// Looks a name up with `IndexMap::get`.
#[verifier::external_body]
pub(crate) fn name_index_get(index: &NameIndex, name: &str) -> (r: Option<usize>)
    ensures
        r == (if name_index_map(*index).dom().contains(name@) {
            Some(name_index_map(*index)[name@])
        } else {
            None
        }),
{
    index.get(name).copied()
}

/// Copies the names out of `IndexMap::keys`: the names of the index in its order.
#[verifier::external_body]
pub(crate) fn name_index_keys(index: &NameIndex) -> (r: Vec<String>)
    ensures
        r@.len() == name_index_order(*index).len(),
        forall|i: int| 0 <= i < r@.len() ==> (#[trigger] r@[i])@ == name_index_order(*index)[i],
{
    index.keys().cloned().collect()
}

} // verus!
