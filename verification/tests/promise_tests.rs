use vex_rt::promise::Promise;
use vex_rt::select::Selectable;
use vex_rt::sleep::GenericSleep;
use vex_rt::task::Task;

#[test]
fn second_fulfill_is_refused_and_the_first_value_stays() {
    let mut p: Promise<u32> = Promise::new();
    assert!(!p.is_fulfilled());
    assert_eq!(p.get(), None);
    assert_eq!(p.fulfill(5), Ok(vec![]));
    assert_eq!(p.fulfill(6), Err(6));
    assert_eq!(p.get(), Some(&5));
    assert_eq!(p.fulfill(7), Err(7));
    assert_eq!(p.get(), Some(&5));
    assert!(p.is_fulfilled());
}

#[test]
fn waiters_in_flight_and_later_all_see_the_first_value() {
    let mut p: Promise<u32> = Promise::new();
    let early = p.wait(Task(1));
    assert!(matches!(early.sleep(&p), GenericSleep::NotifyTake(None)));
    let early = match early.poll(&mut p) {
        Ok(()) => panic!("nothing was promised yet"),
        Err(back) => back,
    };
    let other = p.wait(Task(2));
    assert_eq!(p.fulfill(9), Ok(vec![Task(1), Task(2)]));
    assert_eq!(p.fulfill(10), Err(10));
    assert!(early.poll(&mut p).is_ok());
    assert_eq!(p.get(), Some(&9));
    assert!(other.poll(&mut p).is_ok());
    assert_eq!(p.get(), Some(&9));
    let late = p.wait(Task(3));
    assert!(late.poll(&mut p).is_ok());
    assert_eq!(p.get(), Some(&9));
    assert_eq!(p.get(), Some(&9));
}

#[test]
fn an_abandoned_wait_is_not_woken() {
    let mut p: Promise<u32> = Promise::new();
    let a = p.wait(Task(1));
    let _b = p.wait(Task(2));
    let _again = p.wait(Task(2));
    a.abandon(&mut p);
    assert_eq!(p.fulfill(1), Ok(vec![Task(2)]));
}

#[test]
fn a_fulfilled_promise_is_ready_at_once() {
    let mut p: Promise<u32> = Promise::new();
    let waiting = p.wait(Task(1));
    p.fulfill(1).unwrap();
    match waiting.sleep(&p) {
        GenericSleep::Timestamp(t) => assert_eq!(t.as_millis(), 0),
        _ => panic!("the value is there"),
    }
}
