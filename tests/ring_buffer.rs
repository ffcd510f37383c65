use corvus::RingBuffer;

#[test]
fn push() {
    let mut rb = RingBuffer::<usize>::default();
    rb.push(5);
    assert_eq!(5, rb.sample());
}

#[test]
fn push_three() {
    let mut rb = RingBuffer::<usize>::default();
    rb.push(5);
    rb.push(2);
    rb.push(10);
    assert_eq!(10, rb.sample());
    assert_eq!(vec![10, 2, 5], rb.get_recent(3));
}

#[test]
fn push_ten() {
    let mut rb = RingBuffer::<usize>::default();
    assert_eq!(0, rb.size());
    rb.push(1);
    rb.push(2);
    rb.push(3);
    assert_eq!(3, rb.size());
    rb.push(4);
    rb.push(5);
    rb.push(6);
    assert_eq!(6, rb.size());
    rb.push(7);
    rb.push(8);
    rb.push(9);
    rb.push(10);
    assert_eq!(6, rb.size());
    assert_eq!(10, rb.sample());
    assert_eq!(vec![10, 9, 8], rb.get_recent(3));
    assert_eq!(vec![10, 9, 8, 7, 6, 5], rb.get_recent(10));
}

#[test]
fn recent_before_full_holds_defaults() {
    let mut rb = RingBuffer::<usize>::default();
    rb.push(7);
    assert_eq!(vec![7, 0], rb.get_recent(2));
    assert_eq!(Vec::<usize>::new(), rb.get_recent(0));
}
