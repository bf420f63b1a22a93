use std::cell::Cell;
use std::rc::Rc;

use mbedtls_crl::list::{MbedtlsBox, MbedtlsList};

fn list_of(vals: &[u64]) -> MbedtlsList<u64> {
    let mut l = MbedtlsList::new();
    for v in vals {
        l.push(MbedtlsBox::new(*v));
    }
    l
}

fn contents(l: &MbedtlsList<u64>) -> Vec<u64> {
    let mut out = Vec::new();
    let mut it = l.iter();
    while let Some(node) = it.next() {
        out.push(*node.get());
    }
    out
}

/// A payload that counts how often it is released.
struct Probe {
    released: Rc<Cell<usize>>,
}

impl Drop for Probe {
    fn drop(&mut self) {
        self.released.set(self.released.get() + 1);
    }
}

#[test]
fn new_list_is_empty() {
    let l: MbedtlsList<u64> = MbedtlsList::new();
    assert!(l.is_empty());
    assert_eq!(l.iter().count(), 0);
}

#[test]
fn push_counts_and_drains_fifo() {
    let mut l = list_of(&[10, 20, 30, 40]);
    assert!(!l.is_empty());
    assert_eq!(l.iter().count(), 4);
    let mut popped = Vec::new();
    while let Some(node) = l.pop_front() {
        assert!(node.list_next().is_none());
        popped.push(*node.get());
    }
    assert_eq!(popped, vec![10, 20, 30, 40]);
    assert!(l.is_empty());
}

#[test]
fn pop_front_on_empty_gives_none() {
    let mut l: MbedtlsList<u64> = MbedtlsList::new();
    assert!(l.pop_front().is_none());
    assert!(l.pop_back().is_none());
    assert!(l.is_empty());
}

#[test]
fn pop_back_then_push_restores() {
    let mut l = list_of(&[1, 2, 3]);
    let last = l.pop_back().unwrap();
    assert_eq!(*last.get(), 3);
    assert!(last.list_next().is_none());
    assert_eq!(contents(&l), vec![1, 2]);
    l.push(last);
    assert_eq!(contents(&l), vec![1, 2, 3]);
}

#[test]
fn pop_back_on_single_element_empties() {
    let mut l = list_of(&[7]);
    let only = l.pop_back().unwrap();
    assert_eq!(*only.get(), 7);
    assert!(l.is_empty());
}

#[test]
fn append_concatenates_in_order() {
    let mut l1 = list_of(&[1, 2, 3]);
    let l2 = list_of(&[4, 5]);
    l1.append(l2);
    assert_eq!(contents(&l1), vec![1, 2, 3, 4, 5]);
    assert_eq!(l1.iter().count(), 5);
}

#[test]
fn append_onto_empty_takes_other() {
    let mut l1: MbedtlsList<u64> = MbedtlsList::new();
    l1.append(list_of(&[8, 9]));
    assert_eq!(contents(&l1), vec![8, 9]);
    let mut l3 = list_of(&[1]);
    l3.append(MbedtlsList::new());
    assert_eq!(contents(&l3), vec![1]);
}

#[test]
fn push_of_a_chain_appends_the_whole_chain() {
    let mut donor = list_of(&[5, 6]);
    let mut l = list_of(&[4]);
    // a record taken off the front keeps nothing after it
    let five = donor.pop_front().unwrap();
    l.push(five);
    assert_eq!(contents(&l), vec![4, 5]);
    assert_eq!(contents(&donor), vec![6]);
}

#[test]
fn drain_then_push_round_trips() {
    let mut l = list_of(&[3, 1, 4, 1, 5]);
    let mut popped = Vec::new();
    while let Some(node) = l.pop_front() {
        popped.push(node);
    }
    for node in popped {
        l.push(node);
    }
    assert_eq!(contents(&l), vec![3, 1, 4, 1, 5]);
}

#[test]
fn iter_walks_front_to_back_through_links() {
    let l = list_of(&[1, 2, 3]);
    let mut it = l.iter();
    let first = it.next().unwrap();
    assert_eq!(*first.get(), 1);
    assert_eq!(*first.list_next().unwrap().get(), 2);
    assert_eq!(it.count(), 2);
}

#[test]
fn three_records_scenario() {
    let (a, b, c) = (MbedtlsBox::new(0xA), MbedtlsBox::new(0xB), MbedtlsBox::new(0xC));
    let mut l = MbedtlsList::new();
    l.push(a);
    l.push(b);
    l.push(c);
    assert_eq!(contents(&l), vec![0xA, 0xB, 0xC]);
    assert_eq!(*l.pop_back().unwrap().get(), 0xC);
    assert_eq!(contents(&l), vec![0xA, 0xB]);
    assert_eq!(*l.pop_front().unwrap().get(), 0xA);
    assert_eq!(contents(&l), vec![0xB]);
}

#[test]
fn dropping_a_list_releases_every_record_once() {
    let released = Rc::new(Cell::new(0));
    let mut l = MbedtlsList::new();
    for _ in 0..5 {
        l.push(MbedtlsBox::new(Probe { released: released.clone() }));
    }
    let popped = l.pop_back().unwrap();
    assert_eq!(released.get(), 0);
    drop(l);
    assert_eq!(released.get(), 4);
    drop(popped);
    assert_eq!(released.get(), 5);
}

#[test]
fn dropping_a_long_list() {
    let mut l = MbedtlsList::new();
    for v in 0..1000u64 {
        l.push(MbedtlsBox::new(v));
    }
    assert_eq!(l.iter().count(), 1000);
    drop(l);
}

#[test]
fn get_mut_changes_only_the_payload() {
    let mut l = list_of(&[1, 2]);
    let mut front = l.pop_front().unwrap();
    *front.get_mut() = 100;
    assert_eq!(*front.get(), 100);
    l.push(front);
    assert_eq!(contents(&l), vec![2, 100]);
}

#[test]
fn iter_mut_changes_payloads_in_place() {
    let mut l = list_of(&[1, 2, 3]);
    let mut it = l.iter_mut();
    while let Some(v) = it.next() {
        *v *= 10;
    }
    assert_eq!(contents(&l), vec![10, 20, 30]);
    let mut empty: MbedtlsList<u64> = MbedtlsList::new();
    assert!(empty.iter_mut().next().is_none());
}
