use std::cell::RefCell;
use std::rc::Rc;

use base::col::{BoxItem, BoxList, BoxRef, Linked};

fn list_of(values: &[u32]) -> BoxList<Linked<u32>> {
    let mut list = BoxList::new();
    for v in values {
        list.push_back(Box::new(Linked::new(*v)));
    }
    list
}

fn values(list: &BoxList<Linked<u32>>) -> Vec<u32> {
    let mut out = Vec::new();
    let mut it = list.iter();
    while let Some(item) = it.next() {
        out.push(item.value);
    }
    out
}

/// Walks the list from the tail to the head over the links of the elements
fn values_backwards(list: &mut BoxList<Linked<u32>>) -> Vec<u32> {
    let mut out = Vec::new();
    while let Some(item) = list.pop_back() {
        out.push(item.value);
    }
    out
}

#[test]
fn new_list_is_empty() {
    let list: BoxList<Linked<u32>> = BoxList::new();
    assert_eq!(list.len(), 0);
    assert!(list.is_empty());
    assert!(list.front().is_none());
    assert!(list.back().is_none());
    assert!(list.iter().next().is_none());
}

#[test]
fn default_list_is_empty() {
    let mut list: BoxList<Linked<u32>> = Default::default();
    assert_eq!(list.len(), 0);
    assert!(list.is_empty());
    assert!(list.pop_front().is_none());
    assert!(list.pop_back().is_none());
    assert!(list.front_mut().is_none());
    assert!(list.back_mut().is_none());
}

#[test]
fn push_back_keeps_order() {
    for n in 0..20u32 {
        let items: Vec<u32> = (0..n).map(|i| i * 7 + 1).collect();
        let list = list_of(&items);
        assert_eq!(list.len(), n as usize);
        assert_eq!(list.is_empty(), n == 0);
        assert_eq!(values(&list), items);
    }
}

#[test]
fn push_front_reverses_order() {
    for n in 0..20u32 {
        let items: Vec<u32> = (0..n).map(|i| i * 3 + 2).collect();
        let mut list = BoxList::new();
        for v in &items {
            list.push_front(Box::new(Linked::new(*v)));
        }
        assert_eq!(list.len(), n as usize);
        let mut expected = items.clone();
        expected.reverse();
        assert_eq!(values(&list), expected);
    }
}

#[test]
fn push_back_then_pop_front() {
    let mut list = BoxList::new();
    list.push_back(Box::new(Linked::new(10u32)));
    list.push_back(Box::new(Linked::new(20u32)));
    assert_eq!(list.pop_front().map(|i| i.value), Some(10));
    assert_eq!(list.pop_front().map(|i| i.value), Some(20));
    assert!(list.pop_front().is_none());
    assert!(list.is_empty());
    assert_eq!(list.len(), 0);
}

#[test]
fn push_front_then_pop_back_of_one() {
    let mut list = BoxList::new();
    list.push_front(Box::new(Linked::new(42u32)));
    assert_eq!(list.len(), 1);
    assert_eq!(list.front().map(|i| i.value), Some(42));
    assert_eq!(list.back().map(|i| i.value), Some(42));
    let item = list.pop_back().unwrap();
    assert_eq!(item.value, 42);
    assert!(list.is_empty());
    assert_eq!(list.len(), 0);
    assert!(list.front().is_none());
    assert!(list.back().is_none());
}

#[test]
fn popped_elements_are_unlinked() {
    let mut list = list_of(&[1, 2, 3]);
    let first = list.pop_front().unwrap();
    assert!(first.next().is_none());
    assert!(first.prev().is_none());
    let last = list.pop_back().unwrap();
    assert!(last.next().is_none());
    assert!(last.prev().is_none());
    let only = list.pop_back().unwrap();
    assert_eq!(only.value, 2);
    assert!(only.next().is_none());
    assert!(only.prev().is_none());
}

#[test]
fn links_follow_the_order() {
    let mut list = BoxList::new();
    let a = list.push_back(Box::new(Linked::new(1u32)));
    let b = list.push_back(Box::new(Linked::new(2u32)));
    let c = list.push_back(Box::new(Linked::new(3u32)));
    let mut it = list.iter();
    let first = it.next().unwrap();
    assert_eq!(first.prev(), None);
    assert_eq!(first.next(), Some(b));
    let second = it.next().unwrap();
    assert_eq!(second.prev(), Some(a));
    assert_eq!(second.next(), Some(c));
    let third = it.next().unwrap();
    assert_eq!(third.prev(), Some(b));
    assert_eq!(third.next(), None);
    assert!(it.next().is_none());
    assert!(it.next().is_none());
}

#[test]
fn iter_restarts() {
    let list = list_of(&[5, 6, 7]);
    assert_eq!(values(&list), vec![5, 6, 7]);
    assert_eq!(values(&list), vec![5, 6, 7]);
    let mut one = list.iter();
    let mut two = list.iter();
    assert_eq!(one.next().map(|i| i.value), Some(5));
    assert_eq!(one.next().map(|i| i.value), Some(6));
    assert_eq!(two.next().map(|i| i.value), Some(5));
}

#[test]
fn move_to_back_of_tail_changes_nothing() {
    for n in 1..6u32 {
        let mut list = BoxList::new();
        let mut refs: Vec<BoxRef> = Vec::new();
        for v in 0..n {
            refs.push(list.push_back(Box::new(Linked::new(v))));
        }
        let before = values(&list);
        let front = list.front().map(|i| i.value);
        let back = list.back().map(|i| i.value);
        list.move_to_back(refs[(n - 1) as usize]);
        assert_eq!(values(&list), before);
        assert_eq!(list.len(), n as usize);
        assert_eq!(list.front().map(|i| i.value), front);
        assert_eq!(list.back().map(|i| i.value), back);
        assert_eq!(list.back().unwrap().next(), None);
    }
}

#[test]
fn move_to_back_of_head() {
    let mut list = BoxList::new();
    let a = list.push_back(Box::new(Linked::new(1u32)));
    list.push_back(Box::new(Linked::new(2u32)));
    list.push_back(Box::new(Linked::new(3u32)));
    list.move_to_back(a);
    assert_eq!(values(&list), vec![2, 3, 1]);
    assert_eq!(list.len(), 3);
    assert_eq!(list.front().map(|i| i.value), Some(2));
    assert_eq!(list.back().map(|i| i.value), Some(1));
    assert_eq!(list.front().unwrap().prev(), None);
    assert_eq!(list.back().unwrap().next(), None);
    assert_eq!(values_backwards(&mut list), vec![1, 3, 2]);
}

#[test]
fn move_to_back_of_inner_element() {
    let mut list = BoxList::new();
    list.push_back(Box::new(Linked::new(1u32)));
    let b = list.push_back(Box::new(Linked::new(2u32)));
    let c = list.push_back(Box::new(Linked::new(3u32)));
    list.push_back(Box::new(Linked::new(4u32)));
    list.move_to_back(b);
    assert_eq!(values(&list), vec![1, 3, 4, 2]);
    list.move_to_back(c);
    assert_eq!(values(&list), vec![1, 4, 2, 3]);
    list.move_to_back(b);
    assert_eq!(values(&list), vec![1, 4, 3, 2]);
    assert_eq!(list.len(), 4);
    assert_eq!(values_backwards(&mut list), vec![2, 3, 4, 1]);
}

#[test]
fn move_to_back_of_two() {
    let mut list = BoxList::new();
    let a = list.push_back(Box::new(Linked::new(1u32)));
    let b = list.push_back(Box::new(Linked::new(2u32)));
    list.move_to_back(a);
    assert_eq!(values(&list), vec![2, 1]);
    list.move_to_back(b);
    assert_eq!(values(&list), vec![1, 2]);
    list.move_to_back(b);
    assert_eq!(values(&list), vec![1, 2]);
}

#[test]
fn references_stay_good_when_slots_are_used_again() {
    let mut list = BoxList::new();
    let a = list.push_back(Box::new(Linked::new(1u32)));
    let b = list.push_back(Box::new(Linked::new(2u32)));
    assert_eq!(list.pop_front().map(|i| i.value), Some(1));
    let c = list.push_back(Box::new(Linked::new(3u32)));
    let d = list.push_front(Box::new(Linked::new(4u32)));
    assert_ne!(b, c);
    assert_ne!(b, d);
    assert_ne!(c, d);
    let _ = a;
    assert_eq!(values(&list), vec![4, 2, 3]);
    list.move_to_back(b);
    assert_eq!(values(&list), vec![4, 3, 2]);
    list.move_to_back(d);
    assert_eq!(values(&list), vec![3, 2, 4]);
    list.move_to_back(c);
    assert_eq!(values(&list), vec![2, 4, 3]);
}

#[test]
fn remove_if_in_the_middle() {
    let mut list = list_of(&[1, 2, 3]);
    let item = list.remove_if(|x| x.value == 2).unwrap();
    assert_eq!(item.value, 2);
    assert!(item.next().is_none());
    assert!(item.prev().is_none());
    assert_eq!(values(&list), vec![1, 3]);
    assert_eq!(list.front().map(|i| i.value), Some(1));
    assert_eq!(list.back().map(|i| i.value), Some(3));
    assert_eq!(list.len(), 2);
    assert_eq!(values_backwards(&mut list), vec![3, 1]);
}

#[test]
fn remove_if_at_the_head() {
    let mut list = list_of(&[1, 2, 3]);
    assert_eq!(list.remove_if(|x| x.value == 1).map(|i| i.value), Some(1));
    assert_eq!(values(&list), vec![2, 3]);
    assert_eq!(list.front().map(|i| i.value), Some(2));
    assert_eq!(list.front().unwrap().prev(), None);
    assert_eq!(list.len(), 2);
}

#[test]
fn remove_if_at_the_tail() {
    let mut list = list_of(&[1, 2, 3]);
    assert_eq!(list.remove_if(|x| x.value == 3).map(|i| i.value), Some(3));
    assert_eq!(values(&list), vec![1, 2]);
    assert_eq!(list.back().map(|i| i.value), Some(2));
    assert_eq!(list.back().unwrap().next(), None);
    assert_eq!(list.len(), 2);
}

#[test]
fn remove_if_takes_the_first_match() {
    let mut list = list_of(&[1, 4, 2, 6, 8]);
    assert_eq!(list.remove_if(|x| x.value % 2 == 0).map(|i| i.value), Some(4));
    assert_eq!(values(&list), vec![1, 2, 6, 8]);
    assert_eq!(list.remove_if(|x| x.value % 2 == 0).map(|i| i.value), Some(2));
    assert_eq!(values(&list), vec![1, 6, 8]);
}

#[test]
fn remove_if_without_match() {
    let mut list = list_of(&[1, 2, 3]);
    assert!(list.remove_if(|x| x.value == 9).is_none());
    assert_eq!(values(&list), vec![1, 2, 3]);
    assert_eq!(list.len(), 3);
    let mut empty: BoxList<Linked<u32>> = BoxList::new();
    assert!(empty.remove_if(|_| true).is_none());
    assert!(empty.is_empty());
}

#[test]
fn remove_if_of_the_only_element() {
    let mut list = list_of(&[7]);
    assert_eq!(list.remove_if(|x| x.value == 7).map(|i| i.value), Some(7));
    assert!(list.is_empty());
    assert!(list.front().is_none());
    assert!(list.back().is_none());
}

#[test]
fn iter_mut_remove_after_first() {
    let mut list = list_of(&[1, 2, 3]);
    let mut it = list.iter_mut();
    assert_eq!(it.next().map(|i| i.value), Some(1));
    let removed = it.remove().unwrap();
    assert_eq!(removed.value, 1);
    assert!(removed.next().is_none());
    assert!(removed.prev().is_none());
    assert_eq!(it.next().map(|i| i.value), Some(2));
    assert_eq!(it.next().map(|i| i.value), Some(3));
    assert!(it.next().is_none());
    assert_eq!(values(&list), vec![2, 3]);
    assert_eq!(list.len(), 2);
    assert_eq!(list.front().unwrap().prev(), None);
}

#[test]
fn iter_mut_remove_in_the_middle() {
    let mut list = list_of(&[1, 2, 3, 4, 5]);
    let mut it = list.iter_mut();
    assert_eq!(it.next().map(|i| i.value), Some(1));
    assert_eq!(it.next().map(|i| i.value), Some(2));
    assert_eq!(it.remove().map(|i| i.value), Some(2));
    assert_eq!(it.next().map(|i| i.value), Some(3));
    assert_eq!(it.next().map(|i| i.value), Some(4));
    assert_eq!(it.next().map(|i| i.value), Some(5));
    assert!(it.next().is_none());
    assert_eq!(values(&list), vec![1, 3, 4, 5]);
    assert_eq!(values_backwards(&mut list), vec![5, 4, 3, 1]);
}

#[test]
fn iter_mut_remove_twice_goes_back() {
    let mut list = list_of(&[1, 2, 3, 4]);
    let mut it = list.iter_mut();
    assert_eq!(it.next().map(|i| i.value), Some(1));
    assert_eq!(it.next().map(|i| i.value), Some(2));
    assert_eq!(it.next().map(|i| i.value), Some(3));
    assert_eq!(it.remove().map(|i| i.value), Some(3));
    assert_eq!(it.remove().map(|i| i.value), Some(2));
    assert_eq!(it.next().map(|i| i.value), Some(4));
    assert!(it.next().is_none());
    assert_eq!(values(&list), vec![1, 4]);
}

#[test]
fn iter_mut_remove_at_the_end_takes_the_tail() {
    let mut list = list_of(&[1, 2, 3]);
    let mut it = list.iter_mut();
    while it.next().is_some() {}
    assert_eq!(it.remove().map(|i| i.value), Some(3));
    assert!(it.next().is_none());
    assert_eq!(it.remove().map(|i| i.value), Some(2));
    assert_eq!(it.remove().map(|i| i.value), Some(1));
    assert!(it.remove().is_none());
    assert!(list.is_empty());
}

#[test]
fn iter_mut_remove_at_the_start_takes_the_tail() {
    let mut list = list_of(&[1, 2, 3]);
    let mut it = list.iter_mut();
    assert_eq!(it.remove().map(|i| i.value), Some(3));
    assert_eq!(it.next().map(|i| i.value), Some(1));
    assert_eq!(it.next().map(|i| i.value), Some(2));
    assert!(it.next().is_none());
    assert_eq!(values(&list), vec![1, 2]);
    assert_eq!(list.back().unwrap().next(), None);
}

#[test]
fn iter_mut_remove_at_the_start_of_one() {
    let mut list = list_of(&[1]);
    let mut it = list.iter_mut();
    assert_eq!(it.remove().map(|i| i.value), Some(1));
    assert!(it.next().is_none());
    assert!(it.remove().is_none());
    assert!(list.is_empty());
    assert_eq!(list.len(), 0);
}

#[test]
fn iter_mut_remove_on_empty_list() {
    let mut list: BoxList<Linked<u32>> = BoxList::new();
    let mut it = list.iter_mut();
    assert!(it.remove().is_none());
    assert!(it.next().is_none());
    assert!(it.remove().is_none());
    assert!(list.is_empty());
}

#[test]
fn iter_mut_changes_values() {
    let mut list = list_of(&[1, 2, 3]);
    let mut it = list.iter_mut();
    while let Some(item) = it.next() {
        item.value *= 10;
    }
    assert_eq!(values(&list), vec![10, 20, 30]);
    assert_eq!(values_backwards(&mut list), vec![30, 20, 10]);
}

#[test]
fn front_mut_and_back_mut_change_values() {
    let mut list = list_of(&[1, 2, 3]);
    list.front_mut().unwrap().value = 100;
    list.back_mut().unwrap().value = 300;
    assert_eq!(values(&list), vec![100, 2, 300]);
    assert_eq!(list.front().map(|i| i.value), Some(100));
    assert_eq!(list.back().map(|i| i.value), Some(300));
    assert_eq!(list.len(), 3);
}

#[test]
fn into_iter_round_trip() {
    for n in 0..20u32 {
        let items: Vec<u32> = (0..n).map(|i| i * i).collect();
        let list = list_of(&items);
        let mut it = list.into_iter();
        assert_eq!(it.size_hint(), (n as usize, Some(n as usize)));
        let mut out = Vec::new();
        while let Some(item) = it.next() {
            assert!(item.next().is_none());
            assert!(item.prev().is_none());
            out.push(item.value);
        }
        assert_eq!(out, items);
        assert_eq!(it.size_hint(), (0, Some(0)));
        assert!(it.next().is_none());
    }
}

#[test]
fn size_hint_counts_down() {
    let mut it = list_of(&[1, 2, 3]).into_iter();
    assert_eq!(it.size_hint(), (3, Some(3)));
    it.next();
    assert_eq!(it.size_hint(), (2, Some(2)));
    it.next();
    it.next();
    assert_eq!(it.size_hint(), (0, Some(0)));
}

#[test]
fn clear_empties_the_list() {
    let mut list = list_of(&[1, 2, 3]);
    list.clear();
    assert!(list.is_empty());
    assert_eq!(list.len(), 0);
    assert!(list.front().is_none());
    assert!(list.back().is_none());
    list.push_back(Box::new(Linked::new(9)));
    assert_eq!(values(&list), vec![9]);
    list.clear();
    list.clear();
    assert!(list.is_empty());
}

#[test]
fn mixed_pushes_and_pops() {
    let mut list = BoxList::new();
    list.push_back(Box::new(Linked::new(2u32)));
    list.push_front(Box::new(Linked::new(1u32)));
    list.push_back(Box::new(Linked::new(3u32)));
    list.push_front(Box::new(Linked::new(0u32)));
    assert_eq!(values(&list), vec![0, 1, 2, 3]);
    assert_eq!(list.pop_back().map(|i| i.value), Some(3));
    assert_eq!(list.pop_front().map(|i| i.value), Some(0));
    list.push_back(Box::new(Linked::new(7u32)));
    assert_eq!(values(&list), vec![1, 2, 7]);
    assert_eq!(list.len(), 3);
    assert_eq!(values_backwards(&mut list), vec![7, 2, 1]);
    assert!(list.is_empty());
}

/// An element that counts how often one of its kind is made and destroyed, and notes the order
/// in which they are destroyed
struct Counted {
    id: u32,
    log: Rc<RefCell<Vec<u32>>>,
    next: Option<BoxRef>,
    prev: Option<BoxRef>,
}

impl Counted {
    fn new(id: u32, made: &Rc<RefCell<u32>>, log: &Rc<RefCell<Vec<u32>>>) -> Box<Self> {
        *made.borrow_mut() += 1;
        Box::new(Counted { id, log: log.clone(), next: None, prev: None })
    }
}

impl Drop for Counted {
    fn drop(&mut self) {
        self.log.borrow_mut().push(self.id);
    }
}

impl BoxItem for Counted {
    type Payload = u32;

    fn payload(&self) -> u32 {
        self.id
    }

    fn next_link(&self) -> Option<BoxRef> {
        self.next
    }

    fn prev_link(&self) -> Option<BoxRef> {
        self.prev
    }

    fn next(&self) -> Option<BoxRef> {
        self.next
    }

    fn set_next(&mut self, next: Option<BoxRef>) {
        self.next = next;
    }

    fn prev(&self) -> Option<BoxRef> {
        self.prev
    }

    fn set_prev(&mut self, prev: Option<BoxRef>) {
        self.prev = prev;
    }
}

#[test]
fn clear_destroys_each_element_once_from_the_front() {
    let made = Rc::new(RefCell::new(0u32));
    let log = Rc::new(RefCell::new(Vec::new()));
    let mut list = BoxList::new();
    list.push_back(Counted::new(2, &made, &log));
    list.push_back(Counted::new(3, &made, &log));
    list.push_front(Counted::new(1, &made, &log));
    // make the order of the list differ from the order in which the elements came
    let popped = list.pop_front().unwrap();
    assert_eq!(popped.id, 1);
    list.push_back(popped);
    assert!(log.borrow().is_empty());
    list.clear();
    assert_eq!(*made.borrow(), 3);
    assert_eq!(*log.borrow(), vec![2, 3, 1]);
    assert!(list.is_empty());
    drop(list);
    assert_eq!(log.borrow().len(), 3);
}

#[test]
fn teardown_destroys_each_element_once() {
    let made = Rc::new(RefCell::new(0u32));
    let log = Rc::new(RefCell::new(Vec::new()));
    {
        let mut list = BoxList::new();
        for id in 0..10 {
            list.push_back(Counted::new(id, &made, &log));
        }
        let gone = list.pop_front();
        assert_eq!(log.borrow().len(), 0);
        drop(gone);
        assert_eq!(*log.borrow(), vec![0]);
        let moved = list.remove_if(|x| x.id == 5).unwrap();
        list.push_front(moved);
        assert_eq!(list.len(), 9);
    }
    assert_eq!(*made.borrow(), 10);
    let mut destroyed = log.borrow().clone();
    destroyed.sort();
    assert_eq!(destroyed, (0..10).collect::<Vec<u32>>());
}

#[test]
fn draining_destroys_nothing_twice() {
    let made = Rc::new(RefCell::new(0u32));
    let log = Rc::new(RefCell::new(Vec::new()));
    let mut list = BoxList::new();
    for id in 0..4 {
        list.push_back(Counted::new(id, &made, &log));
    }
    let mut it = list.into_iter();
    let first = it.next().unwrap();
    assert_eq!(first.id, 0);
    drop(first);
    assert_eq!(*log.borrow(), vec![0]);
    drop(it);
    let mut destroyed = log.borrow().clone();
    destroyed.sort();
    assert_eq!(destroyed, vec![0, 1, 2, 3]);
    assert_eq!(*made.borrow(), 4);
}

#[test]
fn own_element_type_is_linked_like_the_default_one() {
    let made = Rc::new(RefCell::new(0u32));
    let log = Rc::new(RefCell::new(Vec::new()));
    let mut list = BoxList::new();
    let a = list.push_back(Counted::new(1, &made, &log));
    let b = list.push_back(Counted::new(2, &made, &log));
    assert_eq!(list.front().unwrap().next(), Some(b));
    assert_eq!(list.back().unwrap().prev(), Some(a));
    list.move_to_back(a);
    assert_eq!(list.front().map(|i| i.id), Some(2));
    assert_eq!(list.back().map(|i| i.id), Some(1));
    assert_eq!(list.front().unwrap().next(), Some(a));
    assert_eq!(list.back().unwrap().prev(), Some(b));
}

#[test]
fn linked_new_has_no_links() {
    let mut item = Linked::new(5u8);
    assert_eq!(item.value, 5);
    assert!(item.next().is_none());
    assert!(item.prev().is_none());
    let mut list = BoxList::new();
    let r = list.push_back(Box::new(Linked::new(1u8)));
    item.set_next(Some(r));
    assert_eq!(item.next(), Some(r));
    assert!(item.prev().is_none());
    item.set_prev(Some(r));
    item.set_next(None);
    assert!(item.next().is_none());
    assert_eq!(item.prev(), Some(r));
    assert_eq!(item.value, 5);
}
