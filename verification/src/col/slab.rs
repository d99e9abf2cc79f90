//! The storage behind the list: boxed elements kept in numbered slots.
//!
//! An element keeps the slot it was given for as long as it is stored, so a [`BoxRef`] handed out
//! for it stays good until the element is taken out again. Slots that have been vacated are
//! remembered and handed out again before the storage grows.

use vstd::prelude::*;

verus! {

/// A reference to an element in the list
///
/// It names the slot that holds the element and implies no ownership.
#[derive(Clone, Copy, Debug, PartialEq, Eq, Structural)]
pub struct BoxRef {
    pub(crate) slot: usize,
}

/// Boxed elements in numbered slots, together with the slots that are vacant.
pub struct Slab<T> {
    slots: Vec<Option<Box<T>>>,
    free: Vec<usize>,
}

impl<T> View for Slab<T> {
    type V = Map<BoxRef, T>;

    /// The stored elements, each under the reference that was handed out for it.
    closed spec fn view(&self) -> Map<BoxRef, T> {
        Map::new(
            |r: BoxRef| r.slot < self.slots.len() && self.slots[r.slot as int] is Some,
            |r: BoxRef| *self.slots[r.slot as int]->0,
        )
    }
}

impl<T> Slab<T> {
    /// Every remembered slot is vacant and remembered once, and the slots that are not
    /// remembered are as many as the elements stored.
    pub closed spec fn wf(&self) -> bool {
        &&& forall|k: int|
            0 <= k < self.free.len() ==> (#[trigger] self.free[k]) < self.slots.len()
                && self.slots[self.free[k] as int] is None
        &&& forall|j: int, k: int|
            0 <= j < k < self.free.len() ==> self.free[j] != self.free[k]
        &&& self@.dom().finite()
        &&& self@.dom().len() + self.free.len() == self.slots.len()
    }

    /// Creates a slab that holds nothing
    pub fn new() -> (slab: Self)
        ensures
            slab.wf(),
            slab@ == Map::<BoxRef, T>::empty(),
    {
        let slab = Slab { slots: Vec::new(), free: Vec::new() };
        assert(slab@ =~= Map::<BoxRef, T>::empty());
        slab
    }

    /// Returns the number of stored elements
    pub fn len(&self) -> (n: usize)
        requires
            self.wf(),
        ensures
            n == self@.dom().len(),
    {
        self.slots.len() - self.free.len()
    }

    /// Stores `item` and returns the reference under which it can be found
    pub fn insert(&mut self, item: Box<T>) -> (r: BoxRef)
        requires
            old(self).wf(),
        ensures
            final(self).wf(),
            !old(self)@.contains_key(r),
            final(self)@ == old(self)@.insert(r, *item),
            final(self)@.dom().len() == old(self)@.dom().len() + 1,
    {
        let r = match self.free.pop() {
            Some(slot) => {
                self.slots[slot] = Some(item);
                BoxRef { slot }
            },
            None => {
                self.slots.push(Some(item));
                BoxRef { slot: self.slots.len() - 1 }
            },
        };
        assert(self@ =~= old(self)@.insert(r, *item));
        r
    }

    /// Takes the element under `r` out of the slab
    pub fn remove(&mut self, r: BoxRef) -> (item: Box<T>)
        requires
            old(self).wf(),
            old(self)@.contains_key(r),
        ensures
            final(self).wf(),
            *item == old(self)@[r],
            final(self)@ == old(self)@.remove(r),
            final(self)@.dom().len() == old(self)@.dom().len() - 1,
    {
        let item = self.slots[r.slot].take();
        self.free.push(r.slot);
        assert(self@ =~= old(self)@.remove(r));
        item.unwrap()
    }

    /// Returns the element under `r`
    pub fn get(&self, r: BoxRef) -> (item: &T)
        requires
            self@.contains_key(r),
        ensures
            *item == self@[r],
    {
        let item: &Box<T> = self.slots[r.slot].as_ref().unwrap();
        &**item
    }

    /// Returns the element under `r` for the caller to change in place
    pub fn get_mut(&mut self, r: BoxRef) -> (item: &mut T)
        requires
            old(self).wf(),
            old(self)@.contains_key(r),
        ensures
            *item == old(self)@[r],
            final(self)@ == old(self)@.insert(r, *final(item)),
            final(self)@.dom() == old(self)@.dom(),
            final(self).wf(),
    {
        let item: &mut Box<T> = self.slots[r.slot].as_mut().unwrap();
        &mut **item
    }
}

} // verus!
