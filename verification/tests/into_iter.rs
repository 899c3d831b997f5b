use dynarray::array::Array;
use dynarray::into_iter::IntoIter;
use std::cell::Cell;
use std::rc::Rc;

struct Counted {
    id: u32,
    drops: Rc<Cell<usize>>,
}

impl Drop for Counted {
    fn drop(&mut self) {
        self.drops.set(self.drops.get() + 1);
    }
}

fn counted_array(n: u32, drops: &Rc<Cell<usize>>) -> Array<Counted> {
    let mut arr: Array<Counted> = Array::new();
    for id in 0..n {
        arr.push(Counted { id, drops: Rc::clone(drops) });
    }
    arr
}

#[test]
fn alternating_front_and_back() {
    let mut arr: Array<&str> = Array::new();
    arr.push("a");
    arr.push("b");
    arr.push("c");
    let mut iter: IntoIter<&str> = arr.into_iter();
    assert_eq!(iter.size_hint(), (3, Some(3)));
    assert_eq!(iter.next(), Some("a"));
    assert_eq!(iter.next_back(), Some("c"));
    assert_eq!(iter.size_hint(), (1, Some(1)));
    assert_eq!(iter.next(), Some("b"));
    assert_eq!(iter.size_hint(), (0, Some(0)));
    assert_eq!(iter.next(), None);
    assert_eq!(iter.next_back(), None);
    assert_eq!(iter.size_hint(), (0, Some(0)));
}

#[test]
fn front_to_back_order() {
    let mut arr: Array<u32> = Array::new();
    for i in 0..20u32 {
        arr.push(i);
    }
    let mut iter = arr.into_iter();
    for i in 0..20u32 {
        assert_eq!(iter.size_hint(), (20 - i as usize, Some(20 - i as usize)));
        assert_eq!(iter.next(), Some(i));
    }
    assert_eq!(iter.next(), None);
}

#[test]
fn back_to_front_order() {
    let mut arr: Array<u32> = Array::new();
    for i in 0..20u32 {
        arr.push(i);
    }
    let mut iter = arr.into_iter();
    for i in (0..20u32).rev() {
        assert_eq!(iter.next_back(), Some(i));
    }
    assert_eq!(iter.next_back(), None);
    assert_eq!(iter.next(), None);
}

#[test]
fn iterator_over_empty_array() {
    let fresh: Array<u8> = Array::new();
    let mut iter = fresh.into_iter();
    assert_eq!(iter.size_hint(), (0, Some(0)));
    assert_eq!(iter.next(), None);
    assert_eq!(iter.next_back(), None);

    let mut used: Array<u8> = Array::new();
    used.push(1);
    assert_eq!(used.pop(), Some(1));
    let mut iter = used.into_iter();
    assert_eq!(iter.size_hint(), (0, Some(0)));
    assert_eq!(iter.next(), None);
}

#[test]
fn iterator_clear_drops_what_is_left() {
    let drops = Rc::new(Cell::new(0usize));
    let mut iter = counted_array(5, &drops).into_iter();
    let first = iter.next();
    assert_eq!(first.as_ref().map(|c| c.id), Some(0));
    iter.clear();
    assert_eq!(drops.get(), 4);
    assert_eq!(iter.size_hint(), (0, Some(0)));
    assert!(iter.next().is_none());
    assert!(iter.next_back().is_none());
    drop(iter);
    assert_eq!(drops.get(), 4);
    drop(first);
    assert_eq!(drops.get(), 5);
}

#[test]
fn dropping_a_partly_used_iterator_drops_the_rest_once() {
    let drops = Rc::new(Cell::new(0usize));
    let mut iter = counted_array(3, &drops).into_iter();
    let first = iter.next();
    assert_eq!(first.as_ref().map(|c| c.id), Some(0));
    assert_eq!(drops.get(), 0);
    drop(iter);
    assert_eq!(drops.get(), 2);
    drop(first);
    assert_eq!(drops.get(), 3);
}

#[test]
fn dropping_an_array_drops_each_element_once() {
    let drops = Rc::new(Cell::new(0usize));
    let mut arr = counted_array(10, &drops);
    let popped = arr.pop();
    let removed = arr.remove(2);
    assert_eq!(popped.as_ref().map(|c| c.id), Some(9));
    assert_eq!(removed.id, 2);
    assert_eq!(drops.get(), 0);
    drop(arr);
    assert_eq!(drops.get(), 8);
    drop(popped);
    drop(removed);
    assert_eq!(drops.get(), 10);
}

#[test]
fn array_clear_drops_each_element_once() {
    let drops = Rc::new(Cell::new(0usize));
    let mut arr = counted_array(9, &drops);
    arr.clear();
    assert_eq!(drops.get(), 9);
    drop(arr);
    assert_eq!(drops.get(), 9);
}

#[test]
fn turning_into_an_iterator_drops_nothing() {
    let drops = Rc::new(Cell::new(0usize));
    let arr = counted_array(4, &drops);
    let mut iter = arr.into_iter();
    assert_eq!(drops.get(), 0);
    let last = iter.next_back();
    assert_eq!(last.as_ref().map(|c| c.id), Some(3));
    drop(last);
    assert_eq!(drops.get(), 1);
    drop(iter);
    assert_eq!(drops.get(), 4);
}
