use vex_rt::instant::Instant;
use vex_rt::select::Selectable;
use vex_rt::sleep::GenericSleep;
use vex_rt::timer::Loop;

#[test]
fn new_loop_starts_now_with_the_given_period() {
    let l = Loop::new(25, Instant::from_millis(400));
    assert_eq!(l.last_time, 400);
    assert_eq!(l.delta, 25);
    let l = Loop::new((1u128 << 32) + 3, Instant::from_millis(0));
    assert_eq!(l.delta, 3);
}

#[test]
fn delay_moves_on_by_one_period() {
    let mut l = Loop::new(25, Instant::from_millis(400));
    assert_eq!(l.delay(), Instant::from_millis(425));
    assert_eq!(l.last_time, 425);
    assert_eq!(l.delay(), Instant::from_millis(450));
    assert_eq!(l.delta, 25);
}

#[test]
fn next_is_ready_once_the_period_has_passed() {
    let l = Loop::new(25, Instant::from_millis(400));
    let event = l.next();
    match event.sleep(&Instant::from_millis(401)) {
        GenericSleep::Timestamp(t) => assert_eq!(t.as_millis(), 425),
        _ => panic!("a loop waits for a timestamp"),
    }
    let mut early = Instant::from_millis(424);
    let event = match event.poll(&mut early) {
        Ok(_) => panic!("the round is not due"),
        Err(back) => back,
    };
    assert_eq!(event.cycle.last_time, 400);
    let mut due = Instant::from_millis(425);
    let l = event.poll(&mut due).ok().expect("the round is due");
    assert_eq!(l.last_time, 425);
    let mut late = Instant::from_millis(999);
    let l = l.next().poll(&mut late).ok().expect("the round is overdue");
    assert_eq!(l.last_time, 450);
}
