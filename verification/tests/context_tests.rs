use vex_rt::context::{ContextTree, ContextWrapper};
use vex_rt::select::Selectable;
use vex_rt::sleep::GenericSleep;
use vex_rt::task::Task;

#[test]
fn cancelling_a_node_cancels_everything_below_it_and_nothing_else() {
    let mut tree = ContextTree::new();
    let root = tree.new_global();
    let a = tree.new_child(root);
    let b = tree.new_child(root);
    let a1 = tree.new_child(a);
    let a2 = tree.new_child(a1);
    let other = tree.new_global();
    tree.cancel(a);
    assert!(!tree.is_cancelled(root));
    assert!(tree.is_cancelled(a));
    assert!(tree.is_cancelled(a1));
    assert!(tree.is_cancelled(a2));
    assert!(!tree.is_cancelled(b));
    assert!(!tree.is_cancelled(other));
    tree.cancel(root);
    assert!(tree.is_cancelled(root));
    assert!(tree.is_cancelled(b));
    assert!(!tree.is_cancelled(other));
}

#[test]
fn cancel_is_idempotent_and_wakes_only_the_first_time() {
    let mut tree = ContextTree::new();
    let root = tree.new_global();
    let _event = tree.done(root, Task(4));
    assert_eq!(tree.cancel(root), vec![Task(4)]);
    assert!(tree.cancel(root).is_empty());
    assert!(tree.is_cancelled(root));
}

#[test]
fn a_child_of_a_cancelled_parent_starts_cancelled() {
    let mut tree = ContextTree::new();
    let root = tree.new_global();
    tree.cancel(root);
    let child = tree.new_child(root);
    assert!(tree.is_cancelled(child));
    assert!(tree.contains(child));
}

#[test]
fn done_resolves_once_the_context_is_cancelled() {
    let mut tree = ContextTree::new();
    let root = tree.new_global();
    let child = tree.new_child(root);
    let event = tree.done(child, Task(1));
    assert!(matches!(event.sleep(&tree), GenericSleep::NotifyTake(None)));
    let event = match event.poll(&mut tree) {
        Ok(()) => panic!("not cancelled yet"),
        Err(back) => back,
    };
    assert_eq!(tree.cancel(root), vec![Task(1)]);
    assert!(event.poll(&mut tree).is_ok());
    assert!(tree.cancel(child).is_empty());
}

#[test]
fn an_abandoned_done_is_not_woken() {
    let mut tree = ContextTree::new();
    let root = tree.new_global();
    let event = tree.done(root, Task(1));
    event.abandon(&mut tree);
    assert!(tree.cancel(root).is_empty());
}

#[test]
fn replace_cancels_the_prior_context_before_installing_the_next() {
    let mut tree = ContextTree::new();
    let mut slot = ContextWrapper::new();
    assert_eq!(slot.active(), None);
    let (first, wake) = slot.replace(&mut tree);
    assert!(wake.is_empty());
    assert_eq!(slot.active(), Some(first));
    assert!(!tree.is_cancelled(first));
    let below = tree.new_child(first);
    let _wait = tree.done(below, Task(8));
    let (second, wake) = slot.replace(&mut tree);
    assert_eq!(wake, vec![Task(8)]);
    assert!(tree.is_cancelled(first));
    assert!(tree.is_cancelled(below));
    assert!(!tree.is_cancelled(second));
    assert_eq!(slot.active(), Some(second));
    assert_ne!(first, second);
}

#[test]
fn a_cancelled_context_is_ready_at_once() {
    let mut tree = ContextTree::new();
    let root = tree.new_global();
    let event = tree.done(root, Task(1));
    tree.cancel(root);
    match event.sleep(&tree) {
        GenericSleep::Timestamp(t) => assert_eq!(t.as_millis(), 0),
        _ => panic!("the context is cancelled"),
    }
}
