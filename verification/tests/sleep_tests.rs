use vex_rt::instant::Instant;
use vex_rt::sleep::{GenericSleep, SleepRequest, TIMEOUT_MAX};

fn deadline(s: GenericSleep) -> (bool, Option<u32>) {
    match s {
        GenericSleep::NotifyTake(v) => (true, v.map(|i| i.as_millis())),
        GenericSleep::Timestamp(v) => (false, Some(v.as_millis())),
    }
}

fn samples() -> Vec<GenericSleep> {
    vec![
        GenericSleep::NotifyTake(None),
        GenericSleep::NotifyTake(Some(Instant::from_millis(0))),
        GenericSleep::NotifyTake(Some(Instant::from_millis(17))),
        GenericSleep::NotifyTake(Some(Instant::from_millis(u32::MAX))),
        GenericSleep::Timestamp(Instant::from_millis(0)),
        GenericSleep::Timestamp(Instant::from_millis(5)),
        GenericSleep::Timestamp(Instant::from_millis(17)),
        GenericSleep::Timestamp(Instant::from_millis(u32::MAX)),
    ]
}

#[test]
fn combine_two_timestamps_gives_the_earlier_timestamp() {
    let a = GenericSleep::Timestamp(Instant::from_millis(40));
    let b = GenericSleep::Timestamp(Instant::from_millis(25));
    assert_eq!(deadline(a.combine(b)), (false, Some(25)));
    assert_eq!(deadline(b.combine(a)), (false, Some(25)));
}

#[test]
fn combine_with_notify_gives_notify_with_minimum() {
    let a = GenericSleep::NotifyTake(Some(Instant::from_millis(40)));
    let b = GenericSleep::Timestamp(Instant::from_millis(25));
    assert_eq!(deadline(a.combine(b)), (true, Some(25)));
    let c = GenericSleep::NotifyTake(None);
    assert_eq!(deadline(c.combine(b)), (true, Some(25)));
    assert_eq!(deadline(c.combine(c)), (true, None));
    assert_eq!(deadline(a.combine(c)), (true, Some(40)));
}

#[test]
fn combine_is_commutative_on_samples() {
    for a in samples() {
        for b in samples() {
            assert_eq!(deadline(a.combine(b)), deadline(b.combine(a)));
        }
    }
}

#[test]
fn combine_is_associative_on_samples() {
    for a in samples() {
        for b in samples() {
            for c in samples() {
                assert_eq!(
                    deadline(a.combine(b).combine(c)),
                    deadline(a.combine(b.combine(c)))
                );
            }
        }
    }
}

#[test]
fn combine_deadline_is_no_later_than_either() {
    for a in samples() {
        for b in samples() {
            let r = a.combine(b).timeout().map(|i| i.as_millis());
            if let (Some(x), Some(y)) = (a.timeout(), b.timeout()) {
                let z = r.unwrap();
                assert!(z <= x.as_millis() && z <= y.as_millis());
                assert_eq!(z, x.as_millis().min(y.as_millis()));
            }
        }
    }
}

#[test]
fn timeout_reads_the_instant() {
    assert!(GenericSleep::NotifyTake(None).timeout().is_none());
    assert_eq!(
        GenericSleep::NotifyTake(Some(Instant::from_millis(3))).timeout(),
        Some(Instant::from_millis(3))
    );
    assert_eq!(
        GenericSleep::Timestamp(Instant::from_millis(9)).timeout(),
        Some(Instant::from_millis(9))
    );
}

#[test]
fn sleep_request_for_notify_without_deadline_waits_without_limit() {
    match GenericSleep::NotifyTake(None).sleep(Instant::from_millis(100)) {
        SleepRequest::NotifyTake { timeout } => assert_eq!(timeout, TIMEOUT_MAX),
        _ => panic!("expected a notification wait"),
    }
}

#[test]
fn sleep_request_for_notify_with_deadline_waits_for_the_rest() {
    let s = GenericSleep::NotifyTake(Some(Instant::from_millis(250)));
    match s.sleep(Instant::from_millis(100)) {
        SleepRequest::NotifyTake { timeout } => assert_eq!(timeout, 150),
        _ => panic!("expected a notification wait"),
    }
    match s.sleep(Instant::from_millis(300)) {
        SleepRequest::NotifyTake { timeout } => assert_eq!(timeout, 0),
        _ => panic!("expected a notification wait"),
    }
}

#[test]
fn sleep_request_for_timestamp_delays_or_does_nothing() {
    let s = GenericSleep::Timestamp(Instant::from_millis(250));
    match s.sleep(Instant::from_millis(100)) {
        SleepRequest::Delay { millis } => assert_eq!(millis, 150),
        _ => panic!("expected a delay"),
    }
    assert!(matches!(
        s.sleep(Instant::from_millis(251)),
        SleepRequest::Nothing
    ));
    match s.sleep(Instant::from_millis(250)) {
        SleepRequest::Delay { millis } => assert_eq!(millis, 0),
        _ => panic!("expected a delay"),
    }
}

#[test]
fn woken_reports_notifications_only_for_notify_sleeps() {
    assert_eq!(GenericSleep::NotifyTake(None).woken(3), 3);
    assert_eq!(GenericSleep::NotifyTake(None).woken(0), 0);
    assert_eq!(GenericSleep::Timestamp(Instant::from_millis(1)).woken(3), 0);
}

#[test]
fn a_ready_sleep_never_blocks_alone_or_combined() {
    let ready = GenericSleep::ready();
    for now in [0u32, 1, 77, u32::MAX] {
        let now = Instant::from_millis(now);
        for other in samples() {
            for s in [ready, ready.combine(other), other.combine(ready)] {
                match s.sleep(now) {
                    SleepRequest::NotifyTake { timeout } => assert_eq!(timeout, 0),
                    SleepRequest::Delay { millis } => assert_eq!(millis, 0),
                    SleepRequest::Nothing => {}
                }
            }
        }
    }
}
