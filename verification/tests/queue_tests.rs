use vex_rt::error::Error;
use vex_rt::queue::Queue;

#[test]
fn new_queue_is_empty() {
    let q: Queue<u32> = Queue::new(3);
    assert_eq!(q.waiting(), 0);
    assert_eq!(q.available(), 3);
    assert_eq!(q.peek(), None);
}

#[test]
fn append_and_recv_are_first_in_first_out() {
    let mut q: Queue<u32> = Queue::new(3);
    assert_eq!(q.append(1), Ok(()));
    assert_eq!(q.append(2), Ok(()));
    assert_eq!(q.append(3), Ok(()));
    assert_eq!(q.waiting(), 3);
    assert_eq!(q.available(), 0);
    assert_eq!(q.recv(), Some(1));
    assert_eq!(q.recv(), Some(2));
    assert_eq!(q.recv(), Some(3));
    assert_eq!(q.recv(), None);
}

#[test]
fn prepend_jumps_the_queue() {
    let mut q: Queue<u32> = Queue::new(3);
    assert_eq!(q.append(1), Ok(()));
    assert_eq!(q.prepend(9), Ok(()));
    assert_eq!(q.peek(), Some(9));
    assert_eq!(q.waiting(), 2);
    assert_eq!(q.recv(), Some(9));
    assert_eq!(q.recv(), Some(1));
}

#[test]
fn a_full_queue_hands_the_item_back() {
    let mut q: Queue<u8> = Queue::new(1);
    assert_eq!(q.append(7), Ok(()));
    assert_eq!(q.append(8), Err(8));
    assert_eq!(q.prepend(9), Err(9));
    assert_eq!(q.peek(), Some(7));
    let mut none: Queue<u8> = Queue::new(0);
    assert_eq!(none.append(1), Err(1));
}

#[test]
fn peek_leaves_the_item_and_clear_deletes_all() {
    let mut q: Queue<u8> = Queue::new(4);
    q.append(1).unwrap();
    q.append(2).unwrap();
    assert_eq!(q.peek(), Some(1));
    assert_eq!(q.peek(), Some(1));
    assert_eq!(q.waiting(), 2);
    q.clear();
    assert_eq!(q.waiting(), 0);
    assert_eq!(q.available(), 4);
    assert_eq!(q.recv(), None);
}

#[test]
fn queue_try_new_passes_on_the_kernels_failure() {
    match Queue::<u8>::try_new(2, Err(Error::System(12))) {
        Err(Error::System(n)) => assert_eq!(n, 12),
        _ => panic!("expected the kernel's error"),
    }
    let q = Queue::<u8>::try_new(2, Ok(())).expect("created");
    assert_eq!(q.available(), 2);
}
