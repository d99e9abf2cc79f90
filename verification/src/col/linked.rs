//! The default way to make a value an element of a list.

use vstd::prelude::*;

use crate::col::boxlist::BoxItem;
use crate::col::slab::BoxRef;

verus! {

/// A value together with the two links that a list needs
pub struct Linked<V> {
    /// The value
    pub value: V,
    /// The next element
    pub next: Option<BoxRef>,
    /// The previous element
    pub prev: Option<BoxRef>,
}

impl<V> Linked<V> {
    /// Creates an element with the given value that is not linked to any other
    pub fn new(value: V) -> (item: Self)
        ensures
            item.value == value,
            item.next is None,
            item.prev is None,
    {
        Linked { value, next: None, prev: None }
    }
}

impl<V> BoxItem for Linked<V> {
    type Payload = V;

    open spec fn payload(&self) -> V {
        self.value
    }

    open spec fn next_link(&self) -> Option<BoxRef> {
        self.next
    }

    open spec fn prev_link(&self) -> Option<BoxRef> {
        self.prev
    }

    fn next(&self) -> (next: Option<BoxRef>) {
        self.next
    }

    fn set_next(&mut self, next: Option<BoxRef>) {
        self.next = next;
    }

    fn prev(&self) -> (prev: Option<BoxRef>) {
        self.prev
    }

    fn set_prev(&mut self, prev: Option<BoxRef>) {
        self.prev = prev;
    }
}

} // verus!
