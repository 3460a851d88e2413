use vex_rt::error::Error;
use vex_rt::semaphore::{Semaphore, SemaphoreError};

#[test]
fn new_semaphore_starts_at_its_initial_count() {
    let s = Semaphore::new(5, 2);
    assert_eq!(s.count(), 2);
}

#[test]
fn poll_takes_a_unit_or_reports_none() {
    let mut s = Semaphore::new(3, 1);
    assert!(s.poll());
    assert_eq!(s.count(), 0);
    assert!(!s.poll());
    assert_eq!(s.count(), 0);
}

#[test]
fn wait_times_out_on_an_empty_counter() {
    let mut s = Semaphore::new(3, 1);
    assert_eq!(s.wait(), Ok(()));
    assert_eq!(s.wait(), Err(SemaphoreError::TimedOut));
    assert_eq!(s.count(), 0);
}

#[test]
fn post_raises_the_counter_up_to_its_bound() {
    let mut s = Semaphore::new(2, 0);
    assert_eq!(s.post(), Ok(()));
    assert_eq!(s.post(), Ok(()));
    assert_eq!(s.count(), 2);
    assert_eq!(s.post(), Err(SemaphoreError::Full));
    assert_eq!(s.count(), 2);
    assert_eq!(s.wait(), Ok(()));
    assert_eq!(s.count(), 1);
}

#[test]
fn try_new_passes_on_failure_and_clamps_the_start() {
    match Semaphore::try_new(4, 1, Err(Error::System(12))) {
        Err(Error::System(n)) => assert_eq!(n, 12),
        _ => panic!("expected the kernel's error"),
    }
    assert_eq!(Semaphore::try_new(4, 1, Ok(())).unwrap().count(), 1);
    assert_eq!(Semaphore::try_new(4, 9, Ok(())).unwrap().count(), 4);
    assert_eq!(Semaphore::try_new(u32::MAX, 0, Ok(())).unwrap().count(), 0);
}
