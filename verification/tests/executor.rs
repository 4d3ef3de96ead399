//! The bounded executor machinery on its own: the dispatcher's concurrency
//! bound and fail-fast dispatch, and the slot table's order-preserving
//! collection under scrambled completion orders.

use llmchain::Document;
use llmchain::LoadError;
use llmchain::executor::Dispatcher;
use llmchain::executor::SlotTable;

fn doc(path: &str, content: &str, md5: &str) -> Document {
    Document {
        path: path.to_string(),
        content: content.to_string(),
        content_md5: md5.to_string(),
    }
}

/// With a bound of 2 and 5 tasks of one simulated delay each, the run
/// takes three rounds of virtual time — the bound is real — and no more
/// than 2 tasks are ever in flight.
#[test]
fn bounded_pool_takes_three_rounds_for_five_tasks() {
    let delay: u64 = 10;
    let mut dispatcher = Dispatcher::new(5, 2);
    let mut clock: u64 = 0;
    let mut inflight: Vec<(usize, u64)> = Vec::new();
    let mut max_inflight: usize = 0;
    let mut started: Vec<usize> = Vec::new();

    loop {
        while let Some(task) = dispatcher.start() {
            started.push(task);
            inflight.push((task, clock + delay));
        }
        assert!(dispatcher.active() <= dispatcher.bound());
        if inflight.len() > max_inflight {
            max_inflight = inflight.len();
        }
        if inflight.is_empty() {
            break;
        }
        // All delays are equal, so the earliest finisher is the front.
        let (_, finish_at) = inflight.remove(0);
        clock = finish_at;
        dispatcher.finish(true);
    }

    assert!(dispatcher.is_done());
    assert_eq!(started, vec![0, 1, 2, 3, 4]);
    assert_eq!(max_inflight, 2);
    assert_eq!(clock, 30);
}

/// Dispatch order follows task order even while completions interleave.
#[test]
fn dispatch_order_is_task_order() {
    let mut dispatcher = Dispatcher::new(4, 2);
    assert_eq!(dispatcher.start(), Some(0));
    assert_eq!(dispatcher.start(), Some(1));
    assert_eq!(dispatcher.start(), None);
    dispatcher.finish(true);
    assert_eq!(dispatcher.start(), Some(2));
    dispatcher.finish(true);
    dispatcher.finish(true);
    assert_eq!(dispatcher.start(), Some(3));
    dispatcher.finish(true);
    assert!(dispatcher.is_done());
}

/// After a reported failure the dispatcher never hands out another task,
/// whatever capacity remains; in-flight tasks may still report back.
#[test]
fn no_dispatch_after_failure() {
    let mut dispatcher = Dispatcher::new(5, 2);
    assert_eq!(dispatcher.start(), Some(0));
    assert_eq!(dispatcher.start(), Some(1));
    dispatcher.finish(false);
    assert!(dispatcher.has_failed());
    assert_eq!(dispatcher.start(), None);
    dispatcher.finish(true);
    assert_eq!(dispatcher.start(), None);
    assert!(dispatcher.is_done());
}

/// Filling slots in a scrambled completion order still collects documents
/// in task order.
#[test]
fn collection_order_is_task_order() {
    let mut slots = SlotTable::new(3);
    slots.put(2, Ok(vec![doc("c", "third", "m3")]));
    slots.put(0, Ok(vec![doc("a", "first", "m1")]));
    slots.put(1, Ok(vec![doc("b", "second", "m2")]));
    let documents = slots.collect().unwrap();
    assert_eq!(
        documents,
        vec![
            doc("a", "first", "m1"),
            doc("b", "second", "m2"),
            doc("c", "third", "m3"),
        ]
    );
}

/// When several tasks failed, collection surfaces the failure earliest in
/// task order, not the one reported first.
#[test]
fn collection_prefers_earliest_failure() {
    let mut slots = SlotTable::new(3);
    slots.put(2, Err(LoadError::Parse("late".to_string())));
    slots.put(1, Err(LoadError::Parse("early".to_string())));
    slots.put(0, Ok(vec![doc("a", "ok", "m")]));
    let outcome = slots.collect();
    assert_eq!(outcome, Err(LoadError::Parse("early".to_string())));
}

/// A run cut short by a failure leaves later slots empty; collection still
/// returns the failure.
#[test]
fn collection_with_undispatched_tail() {
    let mut slots = SlotTable::new(4);
    slots.put(0, Ok(vec![doc("a", "ok", "m")]));
    slots.put(1, Err(LoadError::Parse("boom".to_string())));
    let outcome = slots.collect();
    assert_eq!(outcome, Err(LoadError::Parse("boom".to_string())));
}
