use escale_core::ring::Ring;
use escale_core::ring_iter::RingIter;
use escale_core::ring_state::{Error, Overwriting, Saturating};

#[test]
fn sat_empty_pop_errors() {
    let mut r: Ring<i32, 2, Saturating> = Default::default();
    assert_eq!(r.pop(), Err(Error::Empty));
    assert_eq!(r.pop_front(), Err(Error::Empty));
}

#[test]
fn owr_empty_pop_errors() {
    let mut r: Ring<i32, 2, Overwriting> = Default::default();
    assert_eq!(r.pop(), Err(Error::Empty));
    assert_eq!(r.pop_front(), Err(Error::Empty));
}

#[test]
fn sat_push_pop_back() {
    let mut r: Ring<i32, 2, Saturating> = Default::default();
    assert_eq!(r.push(1), Ok(()));
    assert_eq!(r.push(2), Ok(()));
    assert_eq!(r.push(3), Err(Error::Full));
    assert_eq!(r.pop(), Ok(2));
    assert_eq!(r.pop(), Ok(1));
}

#[test]
fn owr_push_pop_back() {
    let mut r: Ring<i32, 2, Overwriting> = Default::default();
    assert_eq!(r.push(1), Ok(None));
    assert_eq!(r.push(2), Ok(None));
    assert_eq!(r.push(3), Ok(Some(1)));
    assert_eq!(r.pop(), Ok(3));
    assert_eq!(r.pop(), Ok(2));
}

#[test]
fn sat_push_pop_front() {
    let mut r: Ring<i32, 2, Saturating> = Default::default();
    assert_eq!(r.push_front(1), Ok(()));
    assert_eq!(r.push_front(2), Ok(()));
    assert_eq!(r.push_front(3), Err(Error::Full));
    // the buffer reads [2, 1] front to back, so the back is 1
    assert_eq!(r.pop(), Ok(1));
    assert_eq!(r.pop(), Ok(2));
}

#[test]
fn owr_push_pop_front() {
    let mut r: Ring<i32, 2, Overwriting> = Default::default();
    assert_eq!(r.push_front(1), Ok(None));
    assert_eq!(r.push_front(2), Ok(None));
    // the buffer reads [2, 1]; pushing 3 at the front displaces the back
    assert_eq!(r.push_front(3), Ok(Some(1)));
    assert_eq!(r.pop(), Ok(2));
    assert_eq!(r.pop(), Ok(3));
}

#[test]
fn sat_index() {
    let mut r: Ring<i32, 2, Saturating> = Default::default();
    assert_eq!(r.push_front(1), Ok(()));
    assert_eq!(r.push_front(2), Ok(()));
    // each push_front inserts at the front: the buffer reads [2, 1]
    assert_eq!(*r.index(0), 2);
    assert_eq!(*r.index(1), 1);
}

#[test]
fn owr_index() {
    let mut r: Ring<i32, 2, Overwriting> = Default::default();
    assert_eq!(r.push_front(1), Ok(None));
    assert_eq!(r.push_front(2), Ok(None));
    assert_eq!(*r.index(0), 2);
    assert_eq!(*r.index(1), 1);
}

#[test]
fn sat_index_mut() {
    let mut r: Ring<i32, 2, Saturating> = Default::default();
    assert_eq!(r.push_front(1), Ok(()));
    assert_eq!(r.push_front(2), Ok(()));
    *r.index_mut(0) = 10;
    *r.index_mut(1) = 20;
    assert_eq!(*r.index(0), 10);
    assert_eq!(*r.index(1), 20);
}

#[test]
fn owr_index_mut() {
    let mut r: Ring<i32, 2, Overwriting> = Default::default();
    assert_eq!(r.push_front(1), Ok(None));
    assert_eq!(r.push_front(2), Ok(None));
    *r.index_mut(0) = 10;
    *r.index_mut(1) = 20;
    assert_eq!(*r.index(0), 10);
    assert_eq!(*r.index(1), 20);
}

#[test]
fn sat_retain_drop_all() {
    let mut r: Ring<i32, 2, Saturating> = Default::default();
    assert_eq!(r.push_front(1), Ok(()));
    assert_eq!(r.push_front(2), Ok(()));
    r.retain(|_| false);
    assert!(r.is_empty());
}

#[test]
fn owr_retain_drop_all() {
    let mut r: Ring<i32, 2, Overwriting> = Default::default();
    assert_eq!(r.push_front(1), Ok(None));
    assert_eq!(r.push_front(2), Ok(None));
    r.retain(|_| false);
    assert!(r.is_empty());
}

#[test]
fn retain_keep_all_is_identity() {
    let mut r: Ring<i32, 4, Saturating> = Default::default();
    assert_eq!(r.push(1), Ok(()));
    assert_eq!(r.push(2), Ok(()));
    assert_eq!(r.push(3), Ok(()));
    r.retain(|_| true);
    assert_eq!(r.count(), 3);
    assert_eq!(*r.index(0), 1);
    assert_eq!(*r.index(1), 2);
    assert_eq!(*r.index(2), 3);
    // a second pass changes nothing either
    r.retain(|_| true);
    assert_eq!(r.count(), 3);
    assert_eq!(*r.index(0), 1);
    assert_eq!(*r.index(1), 2);
    assert_eq!(*r.index(2), 3);
}

#[test]
fn retain_keeps_order_after_wraparound() {
    let mut r: Ring<i32, 3, Saturating> = Default::default();
    assert_eq!(r.push(9), Ok(()));
    assert_eq!(r.pop_front(), Ok(9));
    assert_eq!(r.push(1), Ok(()));
    assert_eq!(r.push(2), Ok(()));
    assert_eq!(r.push(3), Ok(()));
    r.retain(|v| *v % 2 == 1);
    assert_eq!(r.count(), 2);
    assert_eq!(*r.index(0), 1);
    assert_eq!(*r.index(1), 3);
}

#[test]
fn iter() {
    let mut r: Ring<u32, 2, Saturating> = Default::default();
    r.push(0).unwrap();
    r.pop_front().unwrap();
    r.push(1).unwrap();
    r.push(2).unwrap();
    let mut i = RingIter::new(&r);
    assert_eq!(i.next(), Some(&1));
    assert_eq!(i.next(), Some(&2));
    assert_eq!(i.next(), None);
}

#[test]
fn capacity_two_fill_and_drain() {
    let mut r: Ring<i32, 2, Saturating> = Default::default();
    assert_eq!(r.push(1), Ok(()));
    assert_eq!(r.push(2), Ok(()));
    assert!(r.is_full());
    assert_eq!(r.pop(), Ok(2));
    assert_eq!(r.pop(), Ok(1));
    assert_eq!(r.pop(), Err(Error::Empty));
}

#[test]
fn sat_never_exceeds_capacity_and_full_push_mutates_nothing() {
    let mut r: Ring<i32, 3, Saturating> = Default::default();
    for v in 1..=3 {
        assert_eq!(r.push(v), Ok(()));
        assert!(r.count() <= 3);
    }
    assert_eq!(r.push(4), Err(Error::Full));
    assert_eq!(r.count(), 3);
    assert_eq!(*r.index(0), 1);
    assert_eq!(*r.index(1), 2);
    assert_eq!(*r.index(2), 3);
}

#[test]
fn owr_keeps_most_recent_in_order() {
    let mut r: Ring<i32, 3, Overwriting> = Default::default();
    assert_eq!(r.push(1), Ok(None));
    assert_eq!(r.push(2), Ok(None));
    assert_eq!(r.push(3), Ok(None));
    // the fourth push returns the first-pushed element as displaced
    assert_eq!(r.push(4), Ok(Some(1)));
    assert_eq!(r.count(), 3);
    assert_eq!(*r.index(0), 2);
    assert_eq!(*r.index(1), 3);
    assert_eq!(*r.index(2), 4);
}

#[test]
fn zero_capacity_is_full_and_rejects() {
    let mut r: Ring<i32, 0, Saturating> = Default::default();
    assert!(r.is_full());
    assert!(!r.is_empty());
    assert_eq!(r.count(), 0);
    assert_eq!(r.push(1), Err(Error::Full));
    assert_eq!(r.pop(), Err(Error::Empty));
}

#[test]
fn first_and_last_track_the_ends() {
    let mut r: Ring<i32, 3, Saturating> = Default::default();
    assert_eq!(r.first(), None);
    assert_eq!(r.last(), None);
    r.push(7).unwrap();
    r.push(8).unwrap();
    assert_eq!(r.first(), Some(&7));
    assert_eq!(r.last(), Some(&8));
}

#[test]
fn sat_append_stops_at_capacity() {
    let mut r: Ring<i32, 3, Saturating> = Default::default();
    r.push(1).unwrap();
    assert_eq!(r.append(vec![2, 3, 4]), Err(Error::Full));
    assert_eq!(r.count(), 3);
    assert_eq!(*r.index(0), 1);
    assert_eq!(*r.index(1), 2);
    assert_eq!(*r.index(2), 3);
}

#[test]
fn owr_append_keeps_last_n() {
    let mut r: Ring<i32, 3, Overwriting> = Default::default();
    r.append(vec![1, 2, 3, 4, 5]);
    assert_eq!(r.count(), 3);
    assert_eq!(*r.index(0), 3);
    assert_eq!(*r.index(1), 4);
    assert_eq!(*r.index(2), 5);
}

#[test]
fn last_mut_edits_the_back() {
    let mut r: Ring<i32, 3, Saturating> = Default::default();
    assert_eq!(r.last_mut(), None);
    r.push(1).unwrap();
    r.push(2).unwrap();
    if let Some(v) = r.last_mut() {
        *v = 20;
    }
    assert_eq!(r.pop(), Ok(20));
    assert_eq!(r.pop(), Ok(1));
}
