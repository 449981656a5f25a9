//! Emptying a vector in a given order.
use vstd::prelude::*;

verus! {

/// Empties `slots` and returns what it held, newest first.
pub(crate) fn take_newest_first<T>(slots: &mut Vec<T>) -> (taken: Vec<T>)
    ensures
        final(slots)@ == Seq::<T>::empty(),
        taken@ == old(slots)@.reverse(),
{
    let mut taken: Vec<T> = Vec::new();
    let ghost all = slots@;
    loop
        invariant
            slots@.len() + taken@.len() == all.len(),
            slots@ == all.take(slots@.len() as int),
            forall|i: int| 0 <= i < taken@.len() ==> taken@[i] == all[all.len() - 1 - i],
        ensures
            slots@.len() == 0,
            taken@.len() == all.len(),
            forall|i: int| 0 <= i < taken@.len() ==> taken@[i] == all[all.len() - 1 - i],
        decreases slots@.len(),
    {
        match slots.pop() {
            Some(slot) => {
                taken.push(slot);
            },
            None => {
                break ;
            },
        }
    }
    assert(taken@ =~= all.reverse());
    assert(slots@ =~= Seq::<T>::empty());
    taken
}

/// What `items` held, oldest first, as a stack: `pop` gives the oldest.
pub(crate) fn oldest_on_top<T>(items: Vec<T>) -> (stack: Vec<T>)
    ensures
        stack@ == items@.reverse(),
{
    let mut items = items;
    take_newest_first(&mut items)
}

} // verus!
