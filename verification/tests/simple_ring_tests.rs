use escale_core::simple_ring::SimpleRing;

#[test]
fn simple_ring_default_works() {
    let ring = SimpleRing::<i32, 3>::default();
    assert_eq!(ring.data, vec![0; 3]);
}

#[test]
fn new_ring_is_not_filled() {
    assert_eq!(SimpleRing::<i32, 3>::default().is_filled(), false);
}

#[test]
fn underfilled_ring_is_not_filled() {
    let mut ring = SimpleRing::<i32, 3>::default();
    ring.push(1);
    ring.push(2);
    assert_eq!(ring.is_filled(), false);
}

#[test]
fn filled_ring_is_filled() {
    let mut ring = SimpleRing::<i32, 3>::default();
    ring.push(1);
    ring.push(2);
    ring.push(3);
    assert_eq!(ring.is_filled(), true);
}

#[test]
fn overfilled_ring_is_filled() {
    let mut ring = SimpleRing::<i32, 3>::default();
    ring.push(1);
    ring.push(2);
    ring.push(3);
    ring.push(4);
    assert_eq!(ring.is_filled(), true);
}

#[test]
fn simple_ring_iter_works() {
    let mut ring = SimpleRing::<i32, 3>::default();
    ring.push(4);
    ring.push(5);
    ring.push(6);
    ring.push(7);
    assert_eq!(ring.iter(), vec![5, 6, 7]);
}

#[test]
fn simple_ring_into_iter_works() {
    let mut ring = SimpleRing::<i32, 3>::default();
    ring.push(4);
    ring.push(5);
    ring.push(6);
    ring.push(7);
    let mut y = 5;
    for x in ring.iter() {
        assert_eq!(x, y);
        y += 1;
    }
}

#[test]
fn reset_unfills_and_clears() {
    let mut ring = SimpleRing::<i32, 3>::default();
    ring.push(1);
    ring.push(2);
    ring.push(3);
    assert!(ring.is_filled());
    ring.reset(9);
    assert!(!ring.is_filled());
    assert_eq!(ring.data, vec![9, 9, 9]);
}
