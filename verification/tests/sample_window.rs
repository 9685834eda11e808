use escale_core::window::Ring;

#[test]
fn ring_default_works() {
    let ring = Ring::<i32, 3>::default();
    assert_eq!(ring.data, vec![0; 3]);
}

#[test]
fn new_works() {
    let ring = Ring::new(vec![1, 2, 3]);
    let _: &Ring<i32, 3> = &ring;
    assert_eq!(ring.data, vec![1, 2, 3]);
}

#[test]
fn ring_iter_works() {
    let mut ring: Ring<i32, 3> = Ring::new(vec![1, 2, 3]);
    ring.push(4);
    ring.push(5);
    ring.push(6);
    ring.push(7);
    assert_eq!(ring.iter(), vec![5, 6, 7]);
}

#[test]
fn ring_into_iter_works() {
    let mut ring: Ring<i32, 3> = Ring::new(vec![1, 2, 3]);
    ring.push(4);
    ring.push(5);
    ring.push(6);
    ring.push(7);
    let mut y = 5;
    for x in ring.iter() {
        assert_eq!(x, y);
        y += 1;
    }
}

#[test]
fn window_push_keeps_most_recent() {
    let mut ring: Ring<i32, 2> = Ring::new(vec![0, 0]);
    ring.push(1);
    assert_eq!(ring.iter(), vec![0, 1]);
    ring.push(2);
    assert_eq!(ring.iter(), vec![1, 2]);
    ring.push(3);
    assert_eq!(ring.iter(), vec![2, 3]);
}
