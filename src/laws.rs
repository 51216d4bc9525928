//! Laws that relate the list operations to one another, stated over the
//! element sequences that the operations' own contracts speak of.
use vstd::prelude::*;

use crate::list::List;

verus! {

/// A list built from nothing by `add(items)` holds exactly `items`, in their
/// order, and so has as many elements as `items`.
pub proof fn add_to_empty_keeps_order<T>(items: Seq<T>)
    ensures
        Seq::<T>::empty() + items == items,
        (Seq::<T>::empty() + items).len() == items.len(),
{
    assert(Seq::<T>::empty() + items =~= items);
}

/// Reversing a list twice gives back its elements in their first order, and
/// reversing keeps the number of elements.
pub proof fn reverse_twice_is_identity<T>(list: List<T>)
    ensures
        list@.reverse().reverse() == list@,
        list@.reverse().len() == list@.len(),
{
    assert(list@.reverse().reverse() =~= list@);
}

/// Appending `b` to `a` gives `a`'s elements followed by `b`'s, as many as
/// both together; appending to an empty list gives `b`'s elements alone.
pub proof fn append_concatenates<T>(a: List<T>, b: List<T>)
    ensures
        (a@ + b@).len() == a@.len() + b@.len(),
        forall|i: int| 0 <= i < a@.len() ==> #[trigger] (a@ + b@)[i] == a@[i],
        forall|i: int| 0 <= i < b@.len() ==> (a@ + b@)[a@.len() + i] == #[trigger] b@[i],
        a@.len() == 0 ==> a@ + b@ == b@,
{
    if a@.len() == 0 {
        assert(a@ + b@ =~= b@);
    }
}

} // verus!
