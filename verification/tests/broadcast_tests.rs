use vex_rt::broadcast::Broadcast;
use vex_rt::select::Selectable;
use vex_rt::sleep::GenericSleep;
use vex_rt::task::Task;

#[test]
fn three_signals_wake_a_sleeping_waiter_once() {
    let mut source = Broadcast::new();
    let listener = source.listen();
    let event = listener.select(&mut source, Task(1));
    assert_eq!(source.signal(), vec![Task(1)]);
    assert_eq!(source.signal(), vec![Task(1)]);
    assert_eq!(source.signal(), vec![Task(1)]);
    assert_eq!(source.generation(), 3);
    let listener = event.poll(&mut source).ok().expect("signaled since");
    assert_eq!(listener.seen, 3);
    let event = listener.select(&mut source, Task(1));
    let event = match event.poll(&mut source) {
        Ok(_) => panic!("nothing new since the waiter caught up"),
        Err(back) => back,
    };
    assert!(matches!(event.sleep(&source), GenericSleep::NotifyTake(None)));
    source.signal();
    assert_eq!(event.poll(&mut source).ok().map(|l| l.seen), Some(4));
}

#[test]
fn a_signal_is_not_used_up_by_one_waiter() {
    let mut source = Broadcast::new();
    let a = source.listen().select(&mut source, Task(1));
    let b = source.listen().select(&mut source, Task(2));
    assert_eq!(source.signal(), vec![Task(1), Task(2)]);
    assert!(a.poll(&mut source).is_ok());
    assert!(b.poll(&mut source).is_ok());
    assert!(source.signal().is_empty());
}

#[test]
fn a_waiter_that_has_seen_everything_stays_pending() {
    let mut source = Broadcast::new();
    source.signal();
    let listener = source.listen();
    assert_eq!(listener.seen, 1);
    let event = listener.select(&mut source, Task(1));
    let event = match event.poll(&mut source) {
        Ok(_) => panic!("nothing new"),
        Err(back) => back,
    };
    assert_eq!(event.listener.seen, 1);
    event.abandon(&mut source);
    assert!(source.signal().is_empty());
}

#[test]
fn a_signaled_source_is_ready_at_once() {
    let mut source = Broadcast::new();
    let event = source.listen().select(&mut source, Task(1));
    assert!(matches!(event.sleep(&source), GenericSleep::NotifyTake(None)));
    source.signal();
    match event.sleep(&source) {
        GenericSleep::Timestamp(t) => assert_eq!(t.as_millis(), 0),
        _ => panic!("there was a signal"),
    }
}

#[test]
fn the_generation_count_starts_over_after_its_largest_value() {
    let mut source = Broadcast::new();
    assert_eq!(source.generation(), 0);
    source.signal();
    assert_eq!(source.generation(), 1);
}
