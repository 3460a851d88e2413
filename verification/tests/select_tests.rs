use vex_rt::channel::channel;
use vex_rt::context::ContextTree;
use vex_rt::instant::Instant;
use vex_rt::promise::Promise;
use vex_rt::select::{
    on_first, on_second, select_either, select_map, select_merge, select_option, Branches,
    Selectable, Selection,
};
use vex_rt::sleep::{GenericSleep, SleepRequest};
use vex_rt::task::Task;
use vex_rt::timer::{Loop, LoopSelect};

fn blocks(r: SleepRequest) -> bool {
    match r {
        SleepRequest::NotifyTake { timeout } => timeout > 0,
        SleepRequest::Delay { millis } => millis > 0,
        SleepRequest::Nothing => false,
    }
}

#[test]
fn ready_branch_fires_once_and_the_selection_never_blocks() {
    let mut tree = ContextTree::new();
    let ctx = tree.new_global();
    let never = tree.done(ctx, Task(1));
    let cycle = Loop::new(10, Instant::from_millis(100));
    let now = Instant::from_millis(110);
    let mut world = (now, tree);
    let events = Branches {
        head: on_first(cycle.next()),
        rest: on_second(never),
    };
    let selection = Selection::begin(events);
    let deadline = selection.sleep(&world).expect("waiting");
    assert!(!blocks(deadline.sleep(now)));
    let selection = selection.pass(&mut world);
    let (result, selection) = selection.take();
    let mut bodies_run = 0;
    match result {
        Some(Ok(next)) => {
            bodies_run += 1;
            assert_eq!(next.last_time, 110);
            assert_eq!(next.delta, 10);
        }
        _ => panic!("the ready branch must fire"),
    }
    let (again, selection) = selection.take();
    assert!(again.is_none());
    assert!(matches!(selection, Selection::Done));
    assert!(selection.sleep(&world).is_none());
    let selection = selection.pass(&mut world);
    assert!(matches!(selection, Selection::Done));
    assert_eq!(bodies_run, 1);
}

#[test]
fn cancelled_context_fires_its_branch_without_blocking() {
    let mut tree = ContextTree::new();
    let ctx = tree.new_global();
    tree.cancel(ctx);
    let done = tree.done(ctx, Task(1));
    let mut promise: Promise<u8> = Promise::new();
    let never = promise.wait(Task(1));
    let mut world = (promise, tree);
    let events = Branches {
        head: on_first(never),
        rest: on_second(done),
    };
    let selection = Selection::begin(events);
    let deadline = selection.sleep(&world).expect("waiting");
    for now in [0u32, 1, 500, u32::MAX] {
        assert!(!blocks(deadline.sleep(Instant::from_millis(now))));
    }
    let selection = selection.pass(&mut world);
    match selection.take() {
        (Some(Err(())), Selection::Done) => {}
        _ => panic!("the cancellation branch must fire"),
    }
    assert!(!world.0.is_fulfilled());
}

#[test]
fn a_selection_with_nothing_ready_goes_on_waiting() {
    let mut tree = ContextTree::new();
    let ctx = tree.new_global();
    let done = tree.done(ctx, Task(1));
    let cycle = Loop::new(10, Instant::from_millis(100));
    let mut world = (Instant::from_millis(105), tree);
    let events = Branches {
        head: on_first(cycle.next()),
        rest: on_second(done),
    };
    let selection = Selection::begin(events);
    match selection.sleep(&world) {
        Some(GenericSleep::NotifyTake(Some(t))) => assert_eq!(t.as_millis(), 110),
        _ => panic!("expected the combined deadline"),
    }
    let selection = selection.pass(&mut world);
    assert!(matches!(selection, Selection::Waiting(_)));
    let (nothing, selection) = selection.take();
    assert!(nothing.is_none());
    world.0 = Instant::from_millis(110);
    let selection = selection.pass(&mut world);
    assert!(matches!(selection, Selection::Matched(Ok(_))));
}

#[test]
fn leftmost_branch_wins_when_both_are_ready() {
    let a = Loop::new(5, Instant::from_millis(0)).next();
    let b = Loop::new(7, Instant::from_millis(0)).next();
    let mut now = Instant::from_millis(50);
    match select_either(a, b).poll(&mut now) {
        Ok(next) => assert_eq!(next.delta, 5),
        Err(_) => panic!("both were ready"),
    }
    match select_either(b, a).poll(&mut now) {
        Ok(next) => assert_eq!(next.delta, 7),
        Err(_) => panic!("both were ready"),
    }
    let mut early = Instant::from_millis(6);
    match select_either(b, a).poll(&mut early) {
        Ok(next) => assert_eq!(next.delta, 5),
        Err(_) => panic!("the second was ready"),
    }
    let mut too_early = Instant::from_millis(3);
    match select_either(a, b).poll(&mut too_early) {
        Ok(_) => panic!("neither was ready"),
        Err(back) => {
            assert_eq!(back.fst.cycle.delta, 5);
            assert_eq!(back.snd.cycle.delta, 7);
        }
    }
}

#[test]
fn either_sleeps_until_the_earlier_deadline() {
    let a = Loop::new(5, Instant::from_millis(0)).next();
    let b = Loop::new(7, Instant::from_millis(0)).next();
    let now = Instant::from_millis(1);
    match select_either(b, a).sleep(&now) {
        GenericSleep::Timestamp(t) => assert_eq!(t.as_millis(), 5),
        _ => panic!("two timestamps give a timestamp"),
    }
}

#[test]
fn map_transforms_success_and_keeps_the_pending_event() {
    let a = Loop::new(5, Instant::from_millis(0)).next();
    let mut now = Instant::from_millis(9);
    match select_map(a, |next: Loop| next.last_time + 1).poll(&mut now) {
        Ok(v) => assert_eq!(v, 6),
        Err(_) => panic!("the event was ready"),
    }
    let mut early = Instant::from_millis(2);
    let mapped = select_map(a, |next: Loop| next.last_time + 1);
    match mapped.sleep(&early) {
        GenericSleep::Timestamp(t) => assert_eq!(t.as_millis(), 5),
        _ => panic!("the deadline is the event's"),
    }
    let back = match mapped.poll(&mut early) {
        Ok(_) => panic!("the event was not ready"),
        Err(back) => back,
    };
    assert_eq!(back.event.cycle.last_time, 0);
    let mut later = Instant::from_millis(5);
    assert_eq!(back.poll(&mut later).ok(), Some(6));
}

#[test]
fn merge_folds_two_branches_into_one_result() {
    let a = Loop::new(5, Instant::from_millis(0)).next();
    let b = Loop::new(7, Instant::from_millis(0)).next();
    let mut now = Instant::from_millis(6);
    let merged = select_merge(b, |_l: Loop| "seven", a, |_l: Loop| "five");
    assert_eq!(merged.poll(&mut now).ok(), Some("five"));
    let mut later = Instant::from_millis(8);
    let merged = select_merge(b, |_l: Loop| "seven", a, |_l: Loop| "five");
    assert_eq!(merged.poll(&mut later).ok(), Some("seven"));
}

#[test]
fn an_absent_event_is_never_ready() {
    let mut now = Instant::from_millis(1000);
    let absent = select_option::<LoopSelect>(None);
    assert!(matches!(absent.sleep(&now), GenericSleep::NotifyTake(None)));
    let absent = match absent.poll(&mut now) {
        Ok(_) => panic!("there is no event"),
        Err(back) => back,
    };
    assert!(absent.event.is_none());
    let present = select_option(Some(Loop::new(5, Instant::from_millis(0)).next()));
    assert_eq!(present.poll(&mut now).ok().map(|l| l.last_time), Some(5));
}

#[test]
fn nested_branches_tag_the_branch_that_fired() {
    let a = Loop::new(50, Instant::from_millis(0)).next();
    let b = Loop::new(20, Instant::from_millis(0)).next();
    let c = Loop::new(10, Instant::from_millis(0)).next();
    let events = || Branches {
        head: a,
        rest: Branches { head: b, rest: c },
    };
    let mut now = Instant::from_millis(12);
    match events().poll(&mut now) {
        Ok(Err(Err(l))) => assert_eq!(l.delta, 10),
        _ => panic!("the third branch was the only one ready"),
    }
    let mut now = Instant::from_millis(25);
    match events().poll(&mut now) {
        Ok(Err(Ok(l))) => assert_eq!(l.delta, 20),
        _ => panic!("the second branch is left of the third"),
    }
    let mut now = Instant::from_millis(60);
    match events().poll(&mut now) {
        Ok(Ok(l)) => assert_eq!(l.delta, 50),
        _ => panic!("the first branch is leftmost"),
    }
}

struct Countdown(u32);

impl Selectable for Countdown {
    type Output = &'static str;
    type World = ();

    fn poll(self, _world: &mut ()) -> Result<&'static str, Self> {
        if self.0 == 0 {
            Ok("lift-off")
        } else {
            Err(Countdown(self.0 - 1))
        }
    }

    fn sleep(&self, _world: &()) -> GenericSleep {
        GenericSleep::Timestamp(Instant::from_millis(self.0))
    }

    fn abandon(self, _world: &mut ()) {}
}

#[test]
fn an_event_of_the_callers_own_takes_part_in_a_selection() {
    let mut world = ();
    let mut selection = Selection::begin(select_either(Countdown(2), Countdown(5)));
    let mut passes = 0;
    while let Selection::Waiting(_) = selection {
        match selection.sleep(&world) {
            Some(GenericSleep::Timestamp(t)) => assert_eq!(t.as_millis(), 2 - passes),
            _ => panic!("two timestamps give a timestamp"),
        }
        selection = selection.pass(&mut world);
        passes += 1;
    }
    assert_eq!(passes, 3);
    assert_eq!(selection.take().0, Some("lift-off"));
}

#[test]
fn a_receive_that_loses_the_race_settles_its_debt() {
    let (mut cell, tx, rx) = channel::<u32>();
    let mut tree = ContextTree::new();
    let ctx = tree.new_global();
    let done = tree.done(ctx, Task(2));
    let receive = rx.select(&mut cell, Task(2));
    let slot = receive.slot;
    let send = tx.select(&mut cell, Task(1), 5);
    let (flight, notified) = send.publish(&mut cell);
    assert_eq!(notified, vec![Task(2)]);
    assert!(!cell.acknowledged());
    assert_eq!(tree.cancel(ctx), vec![Task(2)]);
    let mut world = (tree, cell);
    let events = Branches {
        head: on_first(done),
        rest: on_second(receive),
    };
    let selection = Selection::begin(events).pass(&mut world);
    assert!(matches!(selection, Selection::Matched(Ok(()))));
    let (_tree, mut cell) = world;
    assert!(!cell.holds(slot));
    assert!(cell.acknowledged());
    match flight.complete(&mut cell) {
        Err(back) => assert_eq!(back.value, 5),
        Ok(()) => panic!("the receive was given up before it took the value"),
    }
}

#[test]
fn the_losers_of_a_race_leave_the_waiters() {
    let mut tree = ContextTree::new();
    let ctx = tree.new_global();
    let done = tree.done(ctx, Task(3));
    let mut promise: Promise<u8> = Promise::new();
    let wait = promise.wait(Task(3));
    promise.fulfill(1).unwrap();
    let mut world = (promise, tree);
    let events = Branches {
        head: on_first(wait),
        rest: on_second(done),
    };
    let selection = Selection::begin(events).pass(&mut world);
    assert!(matches!(selection, Selection::Matched(Ok(()))));
    assert!(world.1.cancel(ctx).is_empty());
}

#[test]
fn an_abandoned_selection_gives_up_all_its_branches() {
    let (mut cell, _tx, rx) = channel::<u32>();
    let mut tree = ContextTree::new();
    let ctx = tree.new_global();
    let done = tree.done(ctx, Task(2));
    let receive = rx.select(&mut cell, Task(2));
    let slot = receive.slot;
    let mut world = (tree, cell);
    let events = Branches {
        head: on_first(done),
        rest: on_second(receive),
    };
    let selection = Selection::begin(events).pass(&mut world);
    assert!(matches!(selection, Selection::Waiting(_)));
    selection.abandon(&mut world);
    assert!(!world.1.holds(slot));
    assert_eq!(world.1.receiver_count(), 0);
    assert!(world.0.cancel(ctx).is_empty());
}
