use vex_rt::error::Error;
use vex_rt::mutex::Mutex;
use vex_rt::task::Task;

#[test]
fn new_mutex_is_free_and_holds_its_data() {
    let mut m = Mutex::new(41u32);
    assert_eq!(m.holder(), None);
    assert!(m.is_available_to(Task(1)));
    let g = m.lock(Task(1));
    assert_eq!(*m.get(&g), 41);
    m.unlock(g);
    assert_eq!(m.holder(), None);
}

#[test]
fn only_one_task_holds_the_mutex() {
    let mut m = Mutex::new(0u8);
    let g = m.lock(Task(1));
    assert_eq!(g.task(), Task(1));
    assert_eq!(m.holder(), Some(Task(1)));
    assert!(m.poll(Task(2)).is_none());
    assert!(!m.is_available_to(Task(2)));
    assert_eq!(m.holder(), Some(Task(1)));
    m.unlock(g);
    let g2 = m.poll(Task(2)).expect("free after release");
    assert_eq!(m.holder(), Some(Task(2)));
    assert!(m.admits(&g2));
}

#[test]
fn the_holder_may_take_the_mutex_again() {
    let mut m = Mutex::new(());
    let g1 = m.lock(Task(5));
    let g2 = m.poll(Task(5)).expect("recursive acquisition");
    m.unlock(g2);
    assert_eq!(m.holder(), Some(Task(5)));
    assert!(m.poll(Task(6)).is_none());
    m.unlock(g1);
    assert_eq!(m.holder(), None);
    assert!(m.poll(Task(6)).is_some());
}

#[test]
fn replace_swaps_the_protected_value() {
    let mut m = Mutex::new(String::from("a"));
    let g = m.lock(Task(1));
    let before = m.replace(&g, String::from("b"));
    assert_eq!(before, "a");
    assert_eq!(m.get(&g), "b");
    m.unlock(g);
}

#[test]
fn try_new_passes_on_the_kernels_failure() {
    match Mutex::try_new(1u8, Err(Error::System(12))) {
        Err(Error::System(n)) => assert_eq!(n, 12),
        _ => panic!("expected the kernel's error"),
    }
    let mut m = Mutex::try_new(1u8, Ok(())).expect("created");
    assert_eq!(m.holder(), None);
    let g = m.lock(Task(1));
    assert_eq!(*m.get(&g), 1);
}
