//! A doubly linked list that links the user objects directly.
//!
//! The links are part of the elements: an element says which element comes next and which one
//! comes before, and the list sets these links as elements come and go. The list takes the
//! elements as boxes and hands them back as boxes; it allocates no node for an element, and
//! moving an element to the back changes a few links and nothing else.
//!
//! The contracts speak of a list by three sequences, each from the first element to the last:
//! the payloads of the elements (the view), the references to the elements and the elements as
//! they are stored. A list has to be well-formed for its operations to be called. It stays so
//! as long as nobody but the list changes the links of its elements.

use vstd::prelude::*;

use crate::col::slab::{BoxRef, Slab};

verus! {

/// The trait for the list elements
///
/// An element carries its payload and two links. The links belong to the list that holds the
/// element: the list is the only one to set them, and it relies on finding them as it left them.
pub trait BoxItem: Sized {
    /// What the element stands for, apart from its links
    type Payload;

    /// The payload of the element
    spec fn payload(&self) -> Self::Payload;

    /// The link to the next element
    spec fn next_link(&self) -> Option<BoxRef>;

    /// The link to the previous element
    spec fn prev_link(&self) -> Option<BoxRef>;

    /// Returns the next element
    fn next(&self) -> (next: Option<BoxRef>)
        ensures
            next == self.next_link(),
    ;

    /// Sets the next element to `next`
    fn set_next(&mut self, next: Option<BoxRef>)
        ensures
            final(self).next_link() == next,
            final(self).prev_link() == old(self).prev_link(),
            final(self).payload() == old(self).payload(),
    ;

    /// Returns the previous element
    fn prev(&self) -> (prev: Option<BoxRef>)
        ensures
            prev == self.prev_link(),
    ;

    /// Sets the previous element to `prev`
    fn set_prev(&mut self, prev: Option<BoxRef>)
        ensures
            final(self).prev_link() == prev,
            final(self).next_link() == old(self).next_link(),
            final(self).payload() == old(self).payload(),
    ;
}

/// The link that the element at position `i` of `refs` has to its successor
pub open spec fn next_in(refs: Seq<BoxRef>, i: int) -> Option<BoxRef> {
    if i + 1 < refs.len() {
        Some(refs[i + 1])
    } else {
        None
    }
}

/// The link that the element at position `i` of `refs` has to its predecessor
pub open spec fn prev_in(refs: Seq<BoxRef>, i: int) -> Option<BoxRef> {
    if i > 0 {
        Some(refs[i - 1])
    } else {
        None
    }
}

/// The first of `refs`, if there is one
spec fn first_of(refs: Seq<BoxRef>) -> Option<BoxRef> {
    if refs.len() > 0 {
        Some(refs[0])
    } else {
        None
    }
}

/// The last of `refs`, if there is one
spec fn last_of(refs: Seq<BoxRef>) -> Option<BoxRef> {
    if refs.len() > 0 {
        Some(refs[refs.len() - 1])
    } else {
        None
    }
}

/// A doubly linked list that does not allocate nodes, which embed the user object, but directly
/// links the user objects
///
/// In consequence, objects can be moved between lists by just changing a few links. The list
/// owns the elements that it holds: they are handed over when they are pushed and handed back
/// when they are popped or removed. What is left in a list that goes out of scope is released
/// with it, every element once; [`BoxList::clear`] releases the elements in their order.
pub struct BoxList<T: BoxItem> {
    slab: Slab<T>,
    head: Option<BoxRef>,
    tail: Option<BoxRef>,
    chain: Ghost<Seq<BoxRef>>,
}

impl<T: BoxItem> View for BoxList<T> {
    type V = Seq<T::Payload>;

    /// The payloads of the elements, from the first to the last
    open spec fn view(&self) -> Seq<T::Payload> {
        Seq::new(self.items().len(), |i: int| self.items()[i].payload())
    }
}

impl<T: BoxItem> BoxList<T> {
    /// The references to the elements, from the first to the last
    pub closed spec fn refs(&self) -> Seq<BoxRef> {
        self.chain@
    }

    /// The elements as they are stored, from the first to the last
    pub closed spec fn items(&self) -> Seq<T> {
        Seq::new(self.chain@.len(), |i: int| self.slab@[self.chain@[i]])
    }

    /// The elements are the ones that the storage holds, each of them once
    spec fn owns(&self) -> bool {
        &&& self.slab.wf()
        &&& self.chain@.len() == self.slab@.dom().len()
        &&& self.chain@.no_duplicates()
        &&& forall|i: int| 0 <= i < self.chain@.len() ==> self.slab@.contains_key(#[trigger] self.chain@[i])
        &&& self.head == first_of(self.chain@)
        &&& self.tail == last_of(self.chain@)
    }

    /// The element at position `i` is linked to its two neighbours
    spec fn linked(&self, i: int) -> bool {
        &&& self.slab@[self.chain@[i]].next_link() == next_in(self.chain@, i)
        &&& self.slab@[self.chain@[i]].prev_link() == prev_in(self.chain@, i)
    }

    /// The list owns its elements, and following the links from the head visits them in order
    /// and ends at the tail, as following them back from the tail does in reverse.
    pub closed spec fn wf(&self) -> bool {
        &&& self.owns()
        &&& forall|i: int| 0 <= i < self.chain@.len() ==> #[trigger] self.linked(i)
    }

    /// What a well-formed list guarantees of its references and links
    pub proof fn lemma_wf(&self)
        requires
            self.wf(),
        ensures
            self.items().len() == self.refs().len(),
            self@.len() == self.refs().len(),
            self.refs().no_duplicates(),
            forall|i: int|
                0 <= i < self.refs().len() ==> (#[trigger] self.items()[i]).next_link() == next_in(
                    self.refs(),
                    i,
                ),
            forall|i: int|
                0 <= i < self.refs().len() ==> (#[trigger] self.items()[i]).prev_link() == prev_in(
                    self.refs(),
                    i,
                ),
    {
        assert forall|i: int| 0 <= i < self.refs().len() implies (#[trigger] self.items()[i]).next_link()
            == next_in(self.refs(), i) && self.items()[i].prev_link() == prev_in(self.refs(), i) by {
            assert(self.linked(i));
        }
    }

    /// A list stays well-formed when one of its elements is replaced by one with the same
    /// links
    proof fn lemma_replace(pre: Self, post: Self, at: int)
        requires
            pre.wf(),
            0 <= at < pre.chain@.len(),
            post.chain@ == pre.chain@,
            post.head == pre.head,
            post.tail == pre.tail,
            post.slab.wf(),
            post.slab@ == pre.slab@.insert(pre.chain@[at], post.slab@[pre.chain@[at]]),
        ensures
            post.items() == pre.items().update(at, post.slab@[pre.chain@[at]]),
            post.slab@[pre.chain@[at]].next_link() == pre.slab@[pre.chain@[at]].next_link()
                && post.slab@[pre.chain@[at]].prev_link() == pre.slab@[pre.chain@[at]].prev_link()
                ==> post.wf(),
    {
        assert(post.items() =~= pre.items().update(at, post.slab@[pre.chain@[at]]));
        assert(post.slab@.dom() =~= pre.slab@.dom());
        if post.slab@[pre.chain@[at]].next_link() == pre.slab@[pre.chain@[at]].next_link()
            && post.slab@[pre.chain@[at]].prev_link() == pre.slab@[pre.chain@[at]].prev_link() {
            assert forall|i: int| 0 <= i < post.chain@.len() implies #[trigger] post.linked(i) by {
                assert(pre.linked(i));
            }
        }
    }

    /// `post` is `pre` with the element at position `at` replaced
    spec fn replaced(pre: Self, post: Self, at: int) -> bool {
        &&& post.chain@ == pre.chain@
        &&& post.head == pre.head
        &&& post.tail == pre.tail
        &&& post.slab.wf()
        &&& post.slab@ == pre.slab@.insert(pre.chain@[at], post.slab@[pre.chain@[at]])
    }

    /// What [`Self::lemma_replace`] says, for whatever the element is replaced with
    proof fn lemma_replace_any(pre: Self, at: int)
        requires
            pre.wf(),
            0 <= at < pre.chain@.len(),
        ensures
            forall|post: Self|
                Self::replaced(pre, post, at) ==> #[trigger] post.items() == pre.items().update(
                    at,
                    post.slab@[pre.chain@[at]],
                ),
            forall|post: Self|
                Self::replaced(pre, post, at) && post.slab@[pre.chain@[at]].next_link()
                    == pre.slab@[pre.chain@[at]].next_link() && post.slab@[pre.chain@[at]].prev_link()
                    == pre.slab@[pre.chain@[at]].prev_link() ==> #[trigger] post.wf(),
    {
        assert forall|post: Self| Self::replaced(pre, post, at) implies #[trigger] post.items()
            == pre.items().update(at, post.slab@[pre.chain@[at]]) by {
            Self::lemma_replace(pre, post, at);
        }
        assert forall|post: Self|
            Self::replaced(pre, post, at) && post.slab@[pre.chain@[at]].next_link()
                == pre.slab@[pre.chain@[at]].next_link() && post.slab@[pre.chain@[at]].prev_link()
                == pre.slab@[pre.chain@[at]].prev_link() implies #[trigger] post.wf() by {
            Self::lemma_replace(pre, post, at);
        }
    }

    /// Creates an empty list
    pub fn new() -> (list: Self)
        ensures
            list.wf(),
            list@ == Seq::<T::Payload>::empty(),
            list.refs() == Seq::<BoxRef>::empty(),
    {
        BoxList { slab: Slab::new(), head: None, tail: None, chain: Ghost(Seq::empty()) }
    }

    /// Returns the number of elements
    pub fn len(&self) -> (len: usize)
        requires
            self.wf(),
        ensures
            len == self@.len(),
    {
        self.slab.len()
    }

    /// Returns true if the list is empty
    pub fn is_empty(&self) -> (empty: bool)
        requires
            self.wf(),
        ensures
            empty == (self@.len() == 0),
    {
        self.head.is_none()
    }

    /// Returns a reference to the first element
    pub fn front(&self) -> (front: Option<&T>)
        requires
            self.wf(),
        ensures
            self@.len() == 0 ==> front is None,
            self@.len() > 0 ==> front == Some(&self.items()[0]),
    {
        match self.head {
            None => None,
            Some(head) => {
                assert(self.slab@.contains_key(self.chain@[0]));
                Some(self.slab.get(head))
            },
        }
    }

    /// Returns a reference to the last element
    pub fn back(&self) -> (back: Option<&T>)
        requires
            self.wf(),
        ensures
            self@.len() == 0 ==> back is None,
            self@.len() > 0 ==> back == Some(&self.items()[self@.len() - 1]),
    {
        match self.tail {
            None => None,
            Some(tail) => {
                assert(self.slab@.contains_key(self.chain@[self.chain@.len() - 1]));
                Some(self.slab.get(tail))
            },
        }
    }

    /// Inserts the given element at the front of the list and returns the reference to it
    #[verifier::spinoff_prover]
    pub fn push_front(&mut self, item: Box<T>) -> (r: BoxRef)
        requires
            old(self).wf(),
        ensures
            final(self).wf(),
            final(self)@ == seq![item.payload()] + old(self)@,
            final(self).refs() == seq![r] + old(self).refs(),
            !old(self).refs().contains(r),
    {
        let ghost before = self.chain@;
        let mut item = item;
        item.set_next(self.head);
        item.set_prev(None);
        let r = self.slab.insert(item);
        match self.head {
            None => {
                self.tail = Some(r);
            },
            Some(head) => {
                assert(self.slab@.contains_key(before[0]));
                self.slab.get_mut(head).set_prev(Some(r));
            },
        }
        self.head = Some(r);
        self.chain = Ghost(seq![r] + before);
        proof {
            let after = self.chain@;
            assert forall|i: int| 0 <= i < after.len() implies self.slab@.contains_key(
                #[trigger] after[i],
            ) && self.linked(i) by {
                if i > 0 {
                    assert(after[i] == before[i - 1]);
                    assert(old(self).linked(i - 1));
                }
            }
            assert(self@ =~= seq![item.payload()] + old(self)@);
        }
        r
    }

    /// Inserts the given element at the end of the list and returns the reference to it
    #[verifier::spinoff_prover]
    pub fn push_back(&mut self, item: Box<T>) -> (r: BoxRef)
        requires
            old(self).wf(),
        ensures
            final(self).wf(),
            final(self)@ == old(self)@.push(item.payload()),
            final(self).refs() == old(self).refs().push(r),
            !old(self).refs().contains(r),
    {
        let ghost before = self.chain@;
        let mut item = item;
        item.set_next(None);
        item.set_prev(self.tail);
        let r = self.slab.insert(item);
        match self.tail {
            None => {
                self.head = Some(r);
            },
            Some(tail) => {
                assert(self.slab@.contains_key(before[before.len() - 1]));
                self.slab.get_mut(tail).set_next(Some(r));
            },
        }
        self.tail = Some(r);
        self.chain = Ghost(before.push(r));
        proof {
            let after = self.chain@;
            assert forall|i: int| 0 <= i < after.len() implies self.slab@.contains_key(
                #[trigger] after[i],
            ) && self.linked(i) by {
                if i < before.len() {
                    assert(after[i] == before[i]);
                    assert(old(self).linked(i));
                }
            }
            assert(self@ =~= old(self)@.push(item.payload()));
        }
        r
    }

    /// Takes the element at position `at` out of the chain, joins its two neighbours and
    /// returns it with both links cleared
    #[verifier::spinoff_prover]
    fn unlink(&mut self, r: BoxRef, at: Ghost<int>) -> (item: Box<T>)
        requires
            old(self).wf(),
            0 <= at@ < old(self).chain@.len(),
            old(self).chain@[at@] == r,
        ensures
            final(self).wf(),
            final(self).chain@ == old(self).chain@.remove(at@),
            final(self)@ == old(self)@.remove(at@),
            item.payload() == old(self)@[at@],
            item.next_link() is None,
            item.prev_link() is None,
    {
        let ghost before = self.chain@;
        let ghost at = at@;
        assert(self.linked(at));
        let mut item = self.slab.remove(r);
        let prev = item.prev();
        let next = item.next();
        match prev {
            None => {
                self.head = next;
            },
            Some(p) => {
                assert(self.slab@.contains_key(before[at - 1]));
                self.slab.get_mut(p).set_next(next);
            },
        }
        match next {
            None => {
                self.tail = prev;
            },
            Some(n) => {
                assert(self.slab@.contains_key(before[at + 1]));
                self.slab.get_mut(n).set_prev(prev);
            },
        }
        item.set_next(None);
        item.set_prev(None);
        self.chain = Ghost(before.remove(at));
        proof {
            let after = self.chain@;
            assert forall|i: int| 0 <= i < after.len() implies self.slab@.contains_key(
                #[trigger] after[i],
            ) && self.linked(i) by {
                let j = if i < at { i } else { i + 1 };
                assert(after[i] == before[j]);
                assert(old(self).linked(j));
                assert(before[j] != before[at]);
                if at > 0 && j != at - 1 {
                    assert(before[j] != before[at - 1]);
                }
                if at + 1 < before.len() && j != at + 1 {
                    assert(before[j] != before[at + 1]);
                }
            }
            assert forall|i: int, j: int|
                0 <= i < after.len() && 0 <= j < after.len() && i != j implies after[i]
                != after[j] by {
                let i0 = if i < at { i } else { i + 1 };
                let j0 = if j < at { j } else { j + 1 };
                assert(after[i] == before[i0] && after[j] == before[j0]);
            }
            assert(self@ =~= old(self)@.remove(at));
        }
        item
    }

    /// Removes the first element of the list and returns it
    pub fn pop_front(&mut self) -> (item: Option<Box<T>>)
        requires
            old(self).wf(),
        ensures
            final(self).wf(),
            match item {
                None => old(self)@.len() == 0 && final(self)@ == old(self)@ && final(self).refs()
                    == old(self).refs(),
                Some(item) => old(self)@.len() > 0 && item.payload() == old(self)@[0]
                    && item.next_link() is None && item.prev_link() is None && final(self)@ == old(
                    self,
                )@.drop_first() && final(self).refs() == old(self).refs().drop_first(),
            },
    {
        match self.head {
            None => None,
            Some(head) => {
                let item = self.unlink(head, Ghost(0));
                assert(old(self)@.remove(0) =~= old(self)@.drop_first());
                assert(old(self).chain@.remove(0) =~= old(self).chain@.drop_first());
                Some(item)
            },
        }
    }

    /// Removes the last element of the list and returns it
    pub fn pop_back(&mut self) -> (item: Option<Box<T>>)
        requires
            old(self).wf(),
        ensures
            final(self).wf(),
            match item {
                None => old(self)@.len() == 0 && final(self)@ == old(self)@ && final(self).refs()
                    == old(self).refs(),
                Some(item) => old(self)@.len() > 0 && item.payload() == old(self)@.last()
                    && item.next_link() is None && item.prev_link() is None && final(self)@ == old(
                    self,
                )@.drop_last() && final(self).refs() == old(self).refs().drop_last(),
            },
    {
        match self.tail {
            None => None,
            Some(tail) => {
                let ghost last = self.chain@.len() - 1;
                let item = self.unlink(tail, Ghost(last));
                assert(old(self)@.remove(last) =~= old(self)@.drop_last());
                assert(old(self).chain@.remove(last) =~= old(self).chain@.drop_last());
                Some(item)
            },
        }
    }

    /// Moves the given element from the current position in the list to the back of the list
    ///
    /// The element has to be part of this list. Its reference and those of the other elements
    /// stay as they are.
    #[verifier::spinoff_prover]
    pub fn move_to_back(&mut self, item: BoxRef)
        requires
            old(self).wf(),
            old(self).refs().contains(item),
        ensures
            final(self).wf(),
            final(self)@ == old(self)@.remove(old(self).refs().index_of(item)).push(
                old(self)@[old(self).refs().index_of(item)],
            ),
            final(self).refs() == old(self).refs().remove(old(self).refs().index_of(item)).push(
                item,
            ),
            old(self).refs().last() == item ==> *final(self) == *old(self),
    {
        let ghost before = self.chain@;
        let ghost at = before.index_of(item);
        let ghost last = before.len() - 1;
        assert(self.linked(at));
        assert(self.linked(last));
        assert(self.slab@.contains_key(before[at]));
        assert(self.slab@.contains_key(before[last]));

        // already at the back?
        let tail = self.tail.unwrap();
        if tail.slot == item.slot {
            assert(self@ =~= old(self)@.remove(at).push(old(self)@[at]));
            assert(before =~= before.remove(at).push(item));
            return ;
        }
        // remove us from the list

        let us = self.slab.get(item);
        let prev = us.prev();
        let next = us.next();
        match prev {
            Some(p) => {
                assert(self.slab@.contains_key(before[at - 1]));
                self.slab.get_mut(p).set_next(next);
            },
            None => {
                self.head = next;
            },
        }
        // it's not at the back, so there is a next element
        assert(self.slab@.contains_key(before[at + 1]));
        self.slab.get_mut(next.unwrap()).set_prev(prev);

        // let the current tail's next point to us
        self.slab.get_mut(tail).set_next(Some(item));

        // add us to the end
        let us = self.slab.get_mut(item);
        us.set_prev(Some(tail));
        us.set_next(None);
        self.tail = Some(item);
        self.chain = Ghost(before.remove(at).push(item));
        proof {
            let after = self.chain@;
            assert forall|i: int| 0 <= i < after.len() implies self.slab@.contains_key(
                #[trigger] after[i],
            ) && self.linked(i) by {
                let j = if i < at {
                    i
                } else if i < last {
                    i + 1
                } else {
                    at
                };
                assert(after[i] == before[j]);
                assert(old(self).linked(j));
                if j != at {
                    assert(before[j] != before[at]);
                }
                if j != last {
                    assert(before[j] != before[last]);
                }
                if at > 0 && j != at - 1 {
                    assert(before[j] != before[at - 1]);
                }
                if j != at + 1 {
                    assert(before[j] != before[at + 1]);
                }
            }
            assert forall|i: int, j: int|
                0 <= i < after.len() && 0 <= j < after.len() && i != j implies after[i]
                != after[j] by {
                let i0 = if i < at {
                    i
                } else if i < last {
                    i + 1
                } else {
                    at
                };
                let j0 = if j < at {
                    j
                } else if j < last {
                    j + 1
                } else {
                    at
                };
                assert(after[i] == before[i0] && after[j] == before[j0]);
            }
            assert(self@ =~= old(self)@.remove(at).push(old(self)@[at]));
        }
    }

    /// Returns a mutable reference to the first element
    ///
    /// The list stays well-formed if the element keeps its links.
    pub fn front_mut(&mut self) -> (front: Option<&mut T>)
        requires
            old(self).wf(),
        ensures
            front is None ==> old(self)@.len() == 0 && *final(self) == *old(self),
            front is Some ==> old(self)@.len() > 0 && *front.unwrap() == old(self).items()[0],
            front is Some ==> final(self).refs() == old(self).refs(),
            front is Some ==> final(self).items() == old(self).items().update(
                0,
                *final(front.unwrap()),
            ),
            front is Some && final(front.unwrap()).next_link() == front.unwrap().next_link()
                && final(front.unwrap()).prev_link() == front.unwrap().prev_link()
                ==> final(self).wf(),
    {
        match self.head {
            None => None,
            Some(head) => {
                assert(self.slab@.contains_key(self.chain@[0]));
                proof {
                    Self::lemma_replace_any(*self, 0);
                }
                Some(self.slab.get_mut(head))
            },
        }
    }

    /// Returns a mutable reference to the last element
    ///
    /// The list stays well-formed if the element keeps its links.
    pub fn back_mut(&mut self) -> (back: Option<&mut T>)
        requires
            old(self).wf(),
        ensures
            back is None ==> old(self)@.len() == 0 && *final(self) == *old(self),
            back is Some ==> old(self)@.len() > 0 && *back.unwrap() == old(self).items().last(),
            back is Some ==> final(self).refs() == old(self).refs(),
            back is Some ==> final(self).items() == old(self).items().update(
                old(self)@.len() - 1,
                *final(back.unwrap()),
            ),
            back is Some && final(back.unwrap()).next_link() == back.unwrap().next_link()
                && final(back.unwrap()).prev_link() == back.unwrap().prev_link()
                ==> final(self).wf(),
    {
        match self.tail {
            None => None,
            Some(tail) => {
                assert(self.slab@.contains_key(self.chain@[self.chain@.len() - 1]));
                proof {
                    Self::lemma_replace_any(*self, self.chain@.len() - 1);
                }
                Some(self.slab.get_mut(tail))
            },
        }
    }

    /// Removes all elements from the list and releases them, the first one first
    pub fn clear(&mut self)
        requires
            old(self).wf(),
        ensures
            final(self).wf(),
            final(self)@ == Seq::<T::Payload>::empty(),
            final(self).refs() == Seq::<BoxRef>::empty(),
    {
        loop
            invariant
                self.wf(),
            ensures
                self.wf(),
                self.chain@.len() == 0,
            decreases self.chain@.len(),
        {
            match self.pop_front() {
                Some(_) => {},
                None => {
                    break ;
                },
            }
        }
        assert(self.chain@ =~= Seq::<BoxRef>::empty());
    }

    /// Returns an iterator for the list
    pub fn iter(&self) -> (it: BoxListIter<'_, T>)
        requires
            self.wf(),
        ensures
            it.wf(),
            it.remaining() == self.items(),
    {
        let it = BoxListIter { list: self, head: self.head, pos: Ghost(0) };
        assert(it.remaining() =~= self.items());
        it
    }

    /// Returns a mutable iterator for the list
    pub fn iter_mut(&mut self) -> (it: BoxListIterMut<'_, T>)
        requires
            old(self).wf(),
        ensures
            it.wf(),
            *it.list == *old(self),
            it.pos@ == 0,
            *final(it.list) == *final(self),
    {
        BoxListIterMut { head: self.head, list: self, pos: Ghost(0) }
    }

    /// Removes the first item for which `predicate` is true.
    #[verifier::loop_isolation(false)]
    pub fn remove_if<P>(&mut self, predicate: P) -> (item: Option<Box<T>>) where P: Fn(&T) -> bool
        requires
            old(self).wf(),
            forall|i: int|
                0 <= i < old(self).items().len() ==> call_requires(
                    predicate,
                    (&#[trigger] old(self).items()[i],),
                ),
        ensures
            final(self).wf(),
            match item {
                None => {
                    &&& final(self)@ == old(self)@
                    &&& final(self).refs() == old(self).refs()
                    &&& forall|i: int|
                        0 <= i < old(self).items().len() ==> call_ensures(
                            predicate,
                            (&#[trigger] old(self).items()[i],),
                            false,
                        )
                },
                Some(item) => exists|at: int|
                    {
                        &&& 0 <= at < old(self).items().len()
                        &&& call_ensures(predicate, (&old(self).items()[at],), true)
                        &&& forall|i: int|
                            0 <= i < at ==> call_ensures(
                                predicate,
                                (&#[trigger] old(self).items()[i],),
                                false,
                            )
                        &&& item.payload() == old(self)@[at]
                        &&& item.next_link() is None
                        &&& item.prev_link() is None
                        &&& final(self)@ == old(self)@.remove(at)
                        &&& final(self).refs() == old(self).refs().remove(at)
                    },
            },
    {
        let mut it = self.iter_mut();
        let ghost end = *final(it.list);
        loop
            invariant
                it.wf(),
                *final(it.list) == end,
                it.list.items() == old(self).items(),
                it.list.refs() == old(self).refs(),
                forall|i: int|
                    0 <= i < old(self).items().len() ==> call_requires(
                        predicate,
                        (&#[trigger] old(self).items()[i],),
                    ),
                forall|i: int|
                    0 <= i < it.pos@ ==> call_ensures(
                        predicate,
                        (&#[trigger] old(self).items()[i],),
                        false,
                    ),
            decreases old(self).items().len() - it.pos@,
        {
            match it.next() {
                Some(v) => {
                    if predicate(&*v) {
                        return it.remove();
                    }
                },
                None => {
                    return None;
                },
            }
        }
    }

    /// Turns the list into an iterator that hands out the elements themselves, the first one
    /// first
    pub fn into_iter(self) -> (it: BoxListIntoIter<T>)
        requires
            self.wf(),
        ensures
            it.wf(),
            it@ == self@,
    {
        BoxListIntoIter { list: self }
    }
}

impl<T: BoxItem> Default for BoxList<T> {
    /// Creates an empty list
    fn default() -> (list: Self)
        ensures
            list.wf(),
            list@ == Seq::<T::Payload>::empty(),
            list.refs() == Seq::<BoxRef>::empty(),
    {
        Self::new()
    }
}

/// The iterator for BoxList
pub struct BoxListIter<'a, T: BoxItem> {
    list: &'a BoxList<T>,
    head: Option<BoxRef>,
    pos: Ghost<int>,
}

impl<'a, T: BoxItem> BoxListIter<'a, T> {
    /// The iterator stands at a position of a well-formed list
    pub closed spec fn wf(&self) -> bool {
        &&& self.list.wf()
        &&& 0 <= self.pos@ <= self.list.chain@.len()
        &&& self.head == next_in(self.list.chain@, self.pos@ - 1)
    }

    /// The elements that are still to come, in the order in which they come
    pub closed spec fn remaining(&self) -> Seq<T> {
        self.list.items().skip(self.pos@)
    }

    /// Returns the element at the position of the iterator and moves on to the next one
    pub fn next(&mut self) -> (item: Option<&'a T>)
        requires
            old(self).wf(),
        ensures
            final(self).wf(),
            match item {
                None => old(self).remaining().len() == 0 && final(self).remaining() == old(
                    self,
                ).remaining(),
                Some(item) => old(self).remaining().len() > 0 && *item == old(self).remaining()[0]
                    && final(self).remaining() == old(self).remaining().drop_first(),
            },
    {
        match self.head {
            None => None,
            Some(head) => {
                let ghost pos = self.pos@;
                assert(self.list.linked(pos));
                assert(self.list.slab@.contains_key(self.list.chain@[pos]));
                let item = self.list.slab.get(head);
                self.head = item.next();
                self.pos = Ghost(pos + 1);
                assert(self.remaining() =~= old(self).remaining().drop_first());
                Some(item)
            },
        }
    }
}

/// The owning iterator for BoxList
pub struct BoxListIntoIter<T: BoxItem> {
    list: BoxList<T>,
}

impl<T: BoxItem> View for BoxListIntoIter<T> {
    type V = Seq<T::Payload>;

    /// The payloads of the elements that are still to come, in the order in which they come
    closed spec fn view(&self) -> Seq<T::Payload> {
        self.list@
    }
}

impl<T: BoxItem> BoxListIntoIter<T> {
    /// The list that the iterator drains is well-formed
    pub closed spec fn wf(&self) -> bool {
        self.list.wf()
    }

    /// Hands out the first of the elements that are left
    pub fn next(&mut self) -> (item: Option<Box<T>>)
        requires
            old(self).wf(),
        ensures
            final(self).wf(),
            match item {
                None => old(self)@.len() == 0 && final(self)@ == old(self)@,
                Some(item) => old(self)@.len() > 0 && item.payload() == old(self)@[0]
                    && item.next_link() is None && item.prev_link() is None && final(self)@ == old(
                    self,
                )@.drop_first(),
            },
    {
        self.list.pop_front()
    }

    /// Returns the number of elements that are left, as the lower and the upper bound
    pub fn size_hint(&self) -> (hint: (usize, Option<usize>))
        requires
            self.wf(),
        ensures
            hint.0 == self@.len(),
            hint.1 == Some(hint.0),
    {
        let len = self.list.len();
        (len, Some(len))
    }
}

/// The mutable iterator for BoxList
///
/// It stands between two elements of the list: the ones before it have been handed out, the
/// ones after it are still to come. Its fields are open for the contracts to speak of the list
/// behind the iterator; whoever changes them has to see that the iterator is well-formed again.
pub struct BoxListIterMut<'a, T: BoxItem> {
    /// The list that is walked
    pub list: &'a mut BoxList<T>,
    /// The element that comes next
    pub head: Option<BoxRef>,
    /// The number of elements before the iterator
    pub pos: Ghost<int>,
}

impl<'a, T: BoxItem> BoxListIterMut<'a, T> {
    /// The iterator stands at a position of a well-formed list
    pub open spec fn wf(&self) -> bool {
        &&& self.list.wf()
        &&& 0 <= self.pos@ <= self.list.refs().len()
        &&& self.head == next_in(self.list.refs(), self.pos@ - 1)
    }

    /// Returns the element at the position of the iterator and moves on to the next one
    ///
    /// The list stays well-formed if the element keeps its links.
    pub fn next(&mut self) -> (item: Option<&mut T>)
        requires
            old(self).wf(),
        ensures
            *final(final(self).list) == *final(old(self).list),
            final(self).list.refs() == old(self).list.refs(),
            item is None ==> old(self).pos@ == old(self).list@.len() && final(self).pos@ == old(
                self,
            ).pos@ && *final(self).list == *old(self).list && final(self).head == old(self).head,
            item is Some ==> old(self).pos@ < old(self).list@.len() && final(self).pos@ == old(
                self,
            ).pos@ + 1 && final(self).head == next_in(old(self).list.refs(), old(self).pos@),
            item is Some ==> *item.unwrap() == old(self).list.items()[old(self).pos@],
            item is Some ==> final(self).list.items() == old(self).list.items().update(
                old(self).pos@,
                *final(item.unwrap()),
            ),
            item is Some && final(item.unwrap()).next_link() == item.unwrap().next_link()
                && final(item.unwrap()).prev_link() == item.unwrap().prev_link()
                ==> final(self).list.wf(),
    {
        match self.head {
            None => None,
            Some(head) => {
                let ghost pos = self.pos@;
                assert(self.list.linked(pos));
                assert(self.list.slab@.contains_key(self.list.chain@[pos]));
                proof {
                    BoxList::lemma_replace_any(*self.list, pos);
                }
                let item = self.list.slab.get_mut(head);
                self.head = item.next();
                self.pos = Ghost(pos + 1);
                Some(item)
            },
        }
    }

    /// The position of the element that [`Self::remove`] takes out of a list of `len` elements
    /// when `pos` of them are before the iterator: the one that was handed out last, or the
    /// last one of the list if none is before the iterator
    pub open spec fn target(pos: int, len: int) -> int {
        if pos == 0 {
            len - 1
        } else {
            pos - 1
        }
    }

    /// Removes the element before the iterator from the list and returns it; where the iterator
    /// stands at the start or at the end of the list, this is the last element of the list
    ///
    /// # Examples
    ///
    /// ```text
    /// before remove: 1 2 3 4 5
    ///                  ^
    /// after remove : 1 3 4 5
    ///                ^
    /// ```
    #[verifier::spinoff_prover]
    pub fn remove(&mut self) -> (item: Option<Box<T>>)
        requires
            old(self).wf(),
        ensures
            final(self).wf(),
            *final(final(self).list) == *final(old(self).list),
            match item {
                None => old(self).list@.len() == 0 && final(self).list@ == old(self).list@
                    && final(self).list.refs() == old(self).list.refs() && final(self).pos@ == 0,
                Some(item) => {
                    let at = Self::target(old(self).pos@, old(self).list@.len() as int);
                    &&& old(self).list@.len() > 0
                    &&& item.payload() == old(self).list@[at]
                    &&& item.next_link() is None
                    &&& item.prev_link() is None
                    &&& final(self).list@ == old(self).list@.remove(at)
                    &&& final(self).list.refs() == old(self).list.refs().remove(at)
                    &&& final(self).pos@ == if old(self).pos@ == 0 {
                        0
                    } else {
                        old(self).pos@ - 1
                    }
                },
            },
    {
        let ghost pos = self.pos@;
        let ghost len = self.list.chain@.len() as int;
        match self.head {
            // if we already walked at the list-end, remove the last element
            None => {
                let item = self.list.pop_back();
                proof {
                    if len > 0 {
                        assert(old(self).list@.drop_last() =~= old(self).list@.remove(len - 1));
                        assert(old(self).list.chain@.drop_last() =~= old(self).list.chain@.remove(
                            len - 1,
                        ));
                    }
                }
                self.pos = Ghost(self.list.chain@.len() as int);
                item
            },
            // otherwise, check if there is an element before us to remove
            Some(head) => {
                assert(self.list.linked(pos));
                assert(self.list.slab@.contains_key(self.list.chain@[pos]));
                match self.list.slab.get(head).prev() {
                    None => {
                        let item = self.list.pop_back();
                        assert(old(self).list@.drop_last() =~= old(self).list@.remove(len - 1));
                        assert(old(self).list.chain@.drop_last() =~= old(self).list.chain@.remove(
                            len - 1,
                        ));
                        if self.list.is_empty() {
                            self.head = None;
                        }
                        item
                    },
                    Some(prev) => {
                        let item = self.list.unlink(prev, Ghost(pos - 1));
                        self.pos = Ghost(pos - 1);
                        Some(item)
                    },
                }
            },
        }
    }
}

} // verus!
