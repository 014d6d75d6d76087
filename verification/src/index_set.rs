//! Insertion-ordered sets of UUIDs, kept in `indexmap::IndexSet`.
use vstd::prelude::*;
use indexmap::IndexSet;

verus! {

/// `indexmap::IndexSet`, carried opaquely.
#[verifier::external_type_specification]
#[verifier::external_body]
#[verifier::reject_recursive_types(T)]
#[verifier::reject_recursive_types(S)]
pub struct ExIndexSet<T, S>(IndexSet<T, S>);

/// The items of an index set of UUIDs, in insertion order.
pub uninterp spec fn uuid_set_items(s: IndexSet<u128>) -> Seq<u128>;

/// `IndexSet::new()`: claimed to be empty.
#[verifier::external_body]
pub(crate) fn uuid_set_new() -> (r: IndexSet<u128>)
    ensures
        uuid_set_items(r) == Seq::<u128>::empty(),
{
    IndexSet::new()
}

/// `IndexSet::insert`: claimed, as the crate documents, to append an absent value and
/// return `true`, and to leave the set as it was and return `false` when the value is there.
#[verifier::external_body]
pub(crate) fn uuid_set_insert(s: &mut IndexSet<u128>, value: u128) -> (added: bool)
    ensures
        added == !uuid_set_items(*old(s)).contains(value),
        uuid_set_items(*final(s)) == if added {
            uuid_set_items(*old(s)).push(value)
        } else {
            uuid_set_items(*old(s))
        },
{
    s.insert(value)
}

/// `IndexSet::get_index_of`: claimed to give the position of the value, if it is there.
#[verifier::external_body]
pub(crate) fn uuid_set_index_of(s: &IndexSet<u128>, value: u128) -> (r: Option<usize>)
    ensures
        match r {
            Some(i) => i < uuid_set_items(*s).len() && uuid_set_items(*s)[i as int] == value,
            None => !uuid_set_items(*s).contains(value),
        },
{
    s.get_index_of(&value)
}

} // verus!
