//! Work items.

use std::sync::atomic::{AtomicUsize, Ordering};
use std::sync::Arc;

use drm_tyr::error::{Error, EBUSY, ENOMEM};
use drm_tyr::workqueue::devm_work::{self, ManagedDelayedWork, ManagedWork, ScopedDelayedWork};
use drm_tyr::workqueue::scoped::{ScopedQueue, ScopedWork, ScopedWorkItem, ScopedWorkRef};
use drm_tyr::workqueue::{Cancel, Device, Queue, RawWorkItem, Request, WorkTable};

/// A work item that queues itself again until it has been executed three times.
struct RequeueWork {
    counter: u32,
    queue: Arc<ScopedQueue>,
}

impl ScopedWorkItem for RequeueWork {
    fn run(work: &mut ScopedWorkRef<Self>, table: &mut WorkTable) {
        let before = work.deref().counter;
        work.deref_mut().counter += 1;
        if before < 2 {
            let queue = work.deref().queue.clone();
            assert!(queue.deref().is_in(table));
            queue.deref().enqueue_scoped(table, work);
        }
    }
}

#[test]
fn work_requeues_itself() {
    let mut table = WorkTable::new();
    let queue = Arc::new(ScopedQueue::new(&mut table, "requeue_wq", Ok(())).ok().unwrap());
    let mut work = ScopedWork::new(
        &mut table,
        "RequeueWork",
        Ok(RequeueWork { counter: 0, queue: queue.clone() }),
    )
    .ok()
    .unwrap();

    assert!(queue.enqueue(&mut table, &work));
    while work.run(&mut table) {}

    assert_eq!(work.deref().deref().counter, 3);
    assert!(queue.drain(&table).is_none());
}

#[test]
fn pending_work_is_queued_once() {
    let mut table = WorkTable::new();
    let queue = ScopedQueue::new(&mut table, "example_wq", Ok(())).ok().unwrap();
    let work = ScopedWork::new(&mut table, "MyWork", Ok(42u32)).ok().unwrap();
    assert_eq!(*work.deref().deref(), 42);
    assert!(queue.enqueue(&mut table, &work));
    assert!(!queue.enqueue(&mut table, &work));
    assert_eq!(queue.drain(&table), Some(work.raw_get()));
    assert_eq!(work.cancel(&mut table), Cancel::Done);
    assert!(queue.drain(&table).is_none());
    assert!(!table.begin(work.raw_get()));
    // Cancelled work may be queued again.
    assert!(queue.enqueue(&mut table, &work));
}

#[test]
fn ordered_queue_runs_one_item_at_a_time() {
    let mut table = WorkTable::new();
    let ordered = Queue::new(&mut table, "ordered", true);
    let unordered = Queue::new(&mut table, "unordered", false);
    let a = ScopedWork::new(&mut table, "a", Ok(())).ok().unwrap();
    let b = ScopedWork::new(&mut table, "b", Ok(())).ok().unwrap();
    let c = ScopedWork::new(&mut table, "c", Ok(())).ok().unwrap();
    let d = ScopedWork::new(&mut table, "d", Ok(())).ok().unwrap();
    assert!(ordered.enqueue_scoped(&mut table, &a));
    assert!(ordered.enqueue_scoped(&mut table, &b));
    assert!(unordered.enqueue_scoped(&mut table, &c));
    assert!(unordered.enqueue_scoped(&mut table, &d));
    assert!(table.begin(a.raw_get()));
    assert!(!table.begin(b.raw_get()));
    assert!(table.begin(c.raw_get()));
    assert!(table.begin(d.raw_get()));
    table.end(a.raw_get());
    assert!(table.begin(b.raw_get()));
}

#[test]
fn cancelled_work_cannot_requeue_itself() {
    let mut table = WorkTable::new();
    let queue = Queue::new(&mut table, "queue", false);
    let work = ScopedWork::new(&mut table, "work", Ok(())).ok().unwrap();
    assert!(queue.enqueue_scoped(&mut table, &work));
    assert!(table.begin(work.raw_get()));
    assert!(queue.enqueue_scoped(&mut table, &work));
    assert_eq!(work.cancel(&mut table), Cancel::Wait);
    assert!(!table.is_pending(work.raw_get()));
    assert!(!queue.enqueue_scoped(&mut table, &work));
    table.end(work.raw_get());
    assert_eq!(work.cancel(&mut table), Cancel::Done);
    assert!(!table.is_running(work.raw_get()));
}

#[test]
fn work_without_data_is_not_made() {
    let mut table = WorkTable::new();
    let work = ScopedWork::<u32>::new(&mut table, "work", Err(Error::from_errno(ENOMEM)));
    assert_eq!(work.err().map(|e| e.to_errno()), Some(ENOMEM));
    let queue = ScopedQueue::new(&mut table, "queue", Err(Error::from_errno(ENOMEM)));
    assert_eq!(queue.err().map(|e| e.to_errno()), Some(ENOMEM));
}

/// A handler that remembers the device it was called with, and counts the calls.
struct Handler {
    seen: AtomicUsize,
    calls: AtomicUsize,
}

impl Handler {
    fn new() -> Self {
        Handler { seen: AtomicUsize::new(0), calls: AtomicUsize::new(0) }
    }
}

impl devm_work::ScopedWorkItem for Handler {
    fn run(&self, dev: &Device, _table: &mut WorkTable) {
        self.seen.store(dev.id, Ordering::Relaxed);
        self.calls.fetch_add(1, Ordering::Relaxed);
    }
}

fn handler<E>() -> Result<Handler, E> {
    Ok(Handler::new())
}

/// A handler that is shared with the test.
struct Shared(Arc<Handler>);

impl devm_work::ScopedWorkItem for Shared {
    fn run(&self, dev: &Device, table: &mut WorkTable) {
        self.0.run(dev, table)
    }
}

#[test]
fn handler_is_called_once_with_its_device() {
    let mut table = WorkTable::new();
    let queue = Queue::new(&mut table, "queue", false);
    let seen = Arc::new(Handler::new());
    let dev = Device { id: 7 };
    let work: ManagedWork<Shared, 0> =
        ManagedWork::new(&mut table, "work", &dev, Ok(Shared(seen.clone())), Ok(())).unwrap_ok();
    assert!(work.enqueue(&mut table, &queue));
    assert!(!work.clone().enqueue(&mut table, &queue));
    assert!(work.run(&mut table));
    assert_eq!(seen.seen.load(Ordering::Relaxed), 7);
    assert_eq!(seen.calls.load(Ordering::Relaxed), 1);
    assert!(!table.is_running(work.number()));
    // Nothing is pending any more, so there is nothing to execute.
    assert!(!work.run(&mut table));
    assert_eq!(seen.calls.load(Ordering::Relaxed), 1);
    assert!(work.enqueue(&mut table, &queue));
    assert!(work.run(&mut table));
    assert_eq!(seen.calls.load(Ordering::Relaxed), 2);

    let scoped: devm_work::ScopedWork<Shared, 0> =
        devm_work::ScopedWork::new(&mut table, "scoped", &Device { id: 8 }, shared(&seen))
            .unwrap_ok();
    assert!(!scoped.execute(&mut table));
    assert!(scoped.enqueue(&mut table, &queue));
    assert!(scoped.execute(&mut table));
    assert_eq!(seen.seen.load(Ordering::Relaxed), 8);
    assert_eq!(seen.calls.load(Ordering::Relaxed), 3);

    let delayed: ScopedDelayedWork<Shared, 0> =
        ScopedDelayedWork::new(&mut table, "work", "timer", &Device { id: 9 }, shared(&seen))
            .unwrap_ok();
    assert!(delayed.enqueue_delayed(&mut table, &queue, 2));
    assert!(!delayed.execute(&mut table));
    table.advance(2);
    assert!(delayed.execute(&mut table));
    assert_eq!(seen.seen.load(Ordering::Relaxed), 9);
    assert_eq!(seen.calls.load(Ordering::Relaxed), 4);
}

fn shared(handler: &Arc<Handler>) -> Result<Shared, Error> {
    Ok(Shared(handler.clone()))
}

/// A handler that queues an item, if it has a queue for that in the table.
struct Feeder {
    queue: Queue,
    item: ScopedWork<()>,
}

impl devm_work::ScopedWorkItem for Feeder {
    fn run(&self, _dev: &Device, table: &mut WorkTable) {
        if self.queue.is_in(table) {
            self.queue.enqueue_scoped(table, &self.item);
        }
    }
}

#[test]
fn handler_queues_other_work() {
    let mut table = WorkTable::new();
    let queue = Queue::new(&mut table, "queue", true);
    let item = ScopedWork::new(&mut table, "item", Ok(())).ok().unwrap();
    let number = item.raw_get();
    let target = Queue::new(&mut table, "target", true);
    let feeder = Feeder { queue: target, item };
    let work: ManagedWork<Feeder, 0> =
        ManagedWork::new(&mut table, "feeder", &Device { id: 1 }, Ok(feeder), Ok(())).unwrap_ok();
    assert!(work.enqueue(&mut table, &queue));
    assert!(work.run(&mut table));
    assert!(table.is_pending(number));
    assert!(table.begin(number));
}

#[test]
fn queue_is_in_the_table_it_was_made_in() {
    let mut table = WorkTable::new();
    let first = Queue::new(&mut table, "first", false);
    let second = Queue::new(&mut table, "second", true);
    assert!(first.is_in(&table) && second.is_in(&table));
    assert!(!first.is_in(&WorkTable::new()));
}

/// Which of `items` may start now; those that may are started and ended again.
fn started(table: &mut WorkTable, items: &[usize]) -> Vec<bool> {
    let mut res = Vec::new();
    for item in items {
        let begun = table.begin(*item);
        if begun {
            table.end(*item);
        }
        res.push(begun);
    }
    res
}

#[test]
fn ordered_queue_runs_in_the_order_of_queueing() {
    let mut table = WorkTable::new();
    let ordered = Queue::new(&mut table, "ordered", true);
    let unordered = Queue::new(&mut table, "unordered", false);
    let a = ScopedWork::new(&mut table, "a", Ok(())).ok().unwrap();
    let b = ScopedWork::new(&mut table, "b", Ok(())).ok().unwrap();
    let c = ScopedWork::new(&mut table, "c", Ok(())).ok().unwrap();
    let (x, y, z) = (a.raw_get(), b.raw_get(), c.raw_get());
    // The number of an item does not matter.
    assert!(ordered.enqueue_scoped(&mut table, &c));
    assert!(ordered.enqueue_scoped(&mut table, &a));
    assert!(ordered.enqueue_scoped(&mut table, &b));
    assert_eq!(started(&mut table, &[x, y, z]), vec![false, false, true]);
    assert_eq!(started(&mut table, &[y, x, z]), vec![false, true, false]);
    // An item that queues again goes to the end, as does one that was cancelled.
    assert!(ordered.enqueue_scoped(&mut table, &a));
    assert_eq!(started(&mut table, &[x]), vec![false]);
    assert_eq!(b.cancel(&mut table), Cancel::Done);
    assert!(ordered.enqueue_scoped(&mut table, &b));
    assert_eq!(started(&mut table, &[y, x, y]), vec![false, true, true]);
    // Other queues are in no order.
    assert!(unordered.enqueue_scoped(&mut table, &a));
    assert!(unordered.enqueue_scoped(&mut table, &b));
    assert!(ordered.enqueue_scoped(&mut table, &c));
    assert_eq!(started(&mut table, &[z, y, x]), vec![true, true, true]);
}

#[test]
fn delayed_item_waits_its_turn_on_an_ordered_queue() {
    let mut table = WorkTable::new();
    let ordered = Queue::new(&mut table, "ordered", true);
    let dev = Device { id: 1 };
    let late: ScopedDelayedWork<Handler, 0> =
        ScopedDelayedWork::new(&mut table, "late", "timer", &dev, handler::<Error>()).unwrap_ok();
    let soon: ScopedDelayedWork<Handler, 0> =
        ScopedDelayedWork::new(&mut table, "soon", "timer", &dev, handler::<Error>()).unwrap_ok();
    let now = ScopedWork::new(&mut table, "now", Ok(())).ok().unwrap();
    let (l, s, n) = (late.number(), soon.number(), now.raw_get());
    assert!(late.enqueue_delayed(&mut table, &ordered, 20));
    assert!(soon.enqueue_delayed(&mut table, &ordered, 10));
    // An item that is still delayed keeps no other from starting.
    assert!(ordered.enqueue_scoped(&mut table, &now));
    assert_eq!(started(&mut table, &[l, s, n]), vec![false, false, true]);
    table.advance(15);
    assert!(ordered.enqueue_scoped(&mut table, &now));
    assert_eq!(started(&mut table, &[l, n, s, n]), vec![false, false, true, true]);
    // Two items whose delays have passed start in the order in which they did.
    assert!(soon.enqueue_delayed(&mut table, &ordered, 1));
    table.advance(100);
    assert_eq!(started(&mut table, &[l, s, l]), vec![false, true, true]);
    // A delay of nothing is no delay.
    assert!(soon.enqueue_delayed(&mut table, &ordered, 0));
    assert!(ordered.enqueue_scoped(&mut table, &now));
    assert_eq!(started(&mut table, &[n, s, n]), vec![false, true, true]);
}

#[test]
fn detaching_keeps_the_order_of_the_rest() {
    let mut table = WorkTable::new();
    let ordered = Queue::new(&mut table, "ordered", true);
    let mine = Device { id: 1 };
    let other = Device { id: 2 };
    let a: ManagedWork<Handler, 0> =
        ManagedWork::new(&mut table, "a", &mine, handler(), Ok(())).unwrap_ok();
    let b: ManagedWork<Handler, 0> =
        ManagedWork::new(&mut table, "b", &other, handler(), Ok(())).unwrap_ok();
    let c: ManagedWork<Handler, 0> =
        ManagedWork::new(&mut table, "c", &other, handler(), Ok(())).unwrap_ok();
    assert!(c.enqueue(&mut table, &ordered));
    assert!(a.enqueue(&mut table, &ordered));
    assert!(b.enqueue(&mut table, &ordered));
    assert_eq!(table.detach(&mine), Cancel::Done);
    assert!(!a.run(&mut table) && !b.run(&mut table));
    assert!(c.run(&mut table));
    assert!(b.run(&mut table));
}

/// The value of a result whose error may be of any type.
trait UnwrapOk<T> {
    fn unwrap_ok(self) -> T;
}

impl<T, E> UnwrapOk<T> for Result<T, E> {
    fn unwrap_ok(self) -> T {
        match self {
            Ok(value) => value,
            Err(_) => panic!("an error came in place of the value"),
        }
    }
}

#[test]
fn scoped_work_is_queued_and_cancelled() {
    let mut table = WorkTable::new();
    let queue = Queue::new(&mut table, "queue", false);
    let dev = Device { id: 1 };
    let work: devm_work::ScopedWork<Handler, 0> =
        devm_work::ScopedWork::new(&mut table, "work", &dev, handler::<Error>()).unwrap_ok();
    assert!(work.enqueue(&mut table, &queue));
    assert!(!work.enqueue(&mut table, &queue));
    let request = Request { queue: queue.number(), delay: None };
    assert_eq!(table.request(work.number()), Some(request));
    assert_eq!(work.cancel(&mut table), Cancel::Done);
    assert_eq!(table.request(work.number()), None);
    let refused: Result<devm_work::ScopedWork<Handler, 0>, u8> =
        devm_work::ScopedWork::new(&mut table, "work", &dev, Err(5));
    assert_eq!(refused.err(), Some(5));
}

#[test]
fn delayed_work_keeps_its_delay() {
    let mut table = WorkTable::new();
    let queue = Queue::new(&mut table, "queue", false);
    let dev = Device { id: 1 };
    let work: ScopedDelayedWork<Handler, 0> =
        ScopedDelayedWork::new(&mut table, "work", "timer", &dev, handler::<Error>()).unwrap_ok();
    assert!(work.enqueue_delayed(&mut table, &queue, 250));
    let request = Request { queue: queue.number(), delay: Some(250) };
    assert_eq!(table.request(work.number()), Some(request));
    // What was asked for first stands.
    assert!(!work.enqueue(&mut table, &queue));
    assert!(!work.enqueue_delayed(&mut table, &queue, 1));
    assert_eq!(table.request(work.number()), Some(request));
    assert_eq!(work.cancel(&mut table), Cancel::Done);
    assert!(work.enqueue(&mut table, &queue));
    assert_eq!(
        table.request(work.number()),
        Some(Request { queue: queue.number(), delay: None })
    );
}

#[test]
fn managed_work_is_cancelled_when_its_device_goes() {
    let mut table = WorkTable::new();
    let queue = Queue::new(&mut table, "queue", false);
    let mine = Device { id: 1 };
    let other = Device { id: 2 };
    let work: ManagedWork<Handler, 0> =
        ManagedWork::new(&mut table, "a", &mine, handler(), Ok(())).unwrap_ok();
    let delayed: ManagedDelayedWork<Handler, 0> =
        ManagedDelayedWork::new(&mut table, "b", "t", &mine, handler(), Ok(())).unwrap_ok();
    let stays: ManagedWork<Handler, 0> =
        ManagedWork::new(&mut table, "c", &other, handler(), Ok(())).unwrap_ok();
    assert!(work.enqueue(&mut table, &queue));
    assert!(delayed.enqueue_delayed(&mut table, &queue, 10));
    assert!(stays.enqueue(&mut table, &queue));
    assert!(table.begin(work.number()));

    // One callback is being run, and has to end first.
    assert_eq!(table.detach(&mine), Cancel::Wait);
    assert!(!table.is_pending(delayed.number()));
    assert!(table.is_pending(stays.number()));
    assert!(!work.enqueue(&mut table, &queue));
    table.end(work.number());
    assert_eq!(table.detach(&mine), Cancel::Done);
    assert!(!table.is_pending(work.number()) && !table.is_running(work.number()));
    assert!(table.is_pending(stays.number()));
}

#[test]
fn work_that_cannot_be_managed_is_not_made() {
    let mut table = WorkTable::new();
    let dev = Device { id: 1 };
    let no_room = Err(Error::from_errno(ENOMEM));
    let res: Result<ManagedWork<Handler, 0>, Error> =
        ManagedWork::new(&mut table, "a", &dev, handler(), no_room);
    assert_eq!(res.err().map(|e| e.to_errno()), Some(ENOMEM));
    let res: Result<ManagedDelayedWork<Handler, 0>, Error> = ManagedDelayedWork::new(
        &mut table,
        "a",
        "t",
        &dev,
        Err(Error::from_errno(EBUSY)),
        Ok(()),
    );
    assert_eq!(res.err().map(|e| e.to_errno()), Some(EBUSY));
}

#[test]
fn scoped_work_becomes_managed() {
    let mut table = WorkTable::new();
    let queue = Queue::new(&mut table, "queue", false);
    let dev = Device { id: 3 };
    let work: devm_work::ScopedWork<Handler, 0> =
        devm_work::ScopedWork::new(&mut table, "work", &dev, handler::<Error>()).unwrap_ok();
    let managed = Arc::new(work).into_managed(&mut table, Ok(())).unwrap_ok();
    assert!(managed.enqueue(&mut table, &queue));
    assert_eq!(table.detach(&dev), Cancel::Done);
    assert!(!table.is_pending(managed.number()));

    let delayed: ScopedDelayedWork<Handler, 0> =
        ScopedDelayedWork::new(&mut table, "work", "timer", &dev, handler::<Error>()).unwrap_ok();
    let managed = Arc::new(delayed).into_managed(&mut table, Ok(())).unwrap_ok();
    assert!(managed.enqueue(&mut table, &queue));
    assert!(managed.run(&mut table));
    assert!(managed.enqueue(&mut table, &queue));
    assert_eq!(table.detach(&dev), Cancel::Done);
    assert!(!table.is_pending(managed.number()));
}

#[test]
fn delayed_work_does_not_start_before_its_delay() {
    let mut table = WorkTable::new();
    let queue = Queue::new(&mut table, "queue", false);
    let dev = Device { id: 1 };
    let work: ManagedDelayedWork<Handler, 0> =
        ManagedDelayedWork::new(&mut table, "work", "timer", &dev, handler(), Ok(())).unwrap_ok();
    table.advance(1000);
    assert!(work.enqueue_delayed(&mut table, &queue, 250));
    assert!(!table.begin(work.number()));
    table.advance(249);
    assert!(!table.begin(work.number()));
    // Queueing it again does not start the delay anew.
    assert!(!work.enqueue_delayed(&mut table, &queue, 500));
    table.advance(1);
    assert_eq!(table.now(), 1250);
    assert!(table.begin(work.number()));
    table.end(work.number());

    // Without a delay it may start at once.
    assert!(work.enqueue(&mut table, &queue));
    assert!(table.begin(work.number()));
    table.end(work.number());
    assert!(work.enqueue_delayed(&mut table, &queue, 0));
    assert!(table.begin(work.number()));
}

#[test]
fn item_that_cannot_be_managed_is_handed_back() {
    let mut table = WorkTable::new();
    let queue = Queue::new(&mut table, "queue", false);
    let dev = Device { id: 1 };
    let work: devm_work::ScopedWork<Handler, 0> =
        devm_work::ScopedWork::new(&mut table, "work", &dev, handler::<Error>()).unwrap_ok();
    let work = Arc::new(work);
    assert!(work.enqueue(&mut table, &queue));
    assert!(table.begin(work.number()));
    let refused = work.clone().into_managed(&mut table, Err(Error::from_errno(ENOMEM)));
    let refused = refused.err().unwrap();
    assert_eq!(refused.error.to_errno(), ENOMEM);
    // The callback is being run, and has to be waited for.
    assert_eq!(refused.cancel, Cancel::Wait);
    assert!(!work.enqueue(&mut table, &queue));
    table.end(work.number());
    assert_eq!(refused.work.cancel(&mut table), Cancel::Done);
    // After that the item can be queued again.
    assert!(work.enqueue(&mut table, &queue));

    let delayed: ScopedDelayedWork<Handler, 0> =
        ScopedDelayedWork::new(&mut table, "work", "timer", &dev, handler::<Error>()).unwrap_ok();
    let delayed = Arc::new(delayed);
    assert!(delayed.enqueue_delayed(&mut table, &queue, 5));
    let refused = delayed.into_managed(&mut table, Err(Error::from_errno(EBUSY))).err().unwrap();
    assert_eq!(refused.error.to_errno(), EBUSY);
    assert_eq!(refused.cancel, Cancel::Done);
    assert!(!table.is_pending(refused.work.number()));
}
