//! Device-bound work items.

use super::{Cancel, Device, Queue, Request, WorkTable, Works};
use crate::error::Error;
use std::sync::Arc;
use vstd::prelude::*;

verus! {

/// Work item tied to a device's bound lifetime.
///
/// An implementation says with [`ScopedWorkItem::can_run`] what its callback needs,
/// and with [`ScopedWorkItem::ran`] what one call of it does.
pub trait ScopedWorkItem: Send + Sync {
    /// Whether the callback may be called with `dev` and `table`: always, unless it
    /// says otherwise.
    open spec fn can_run(&self, dev: Device, table: Works) -> bool {
        true
    }

    /// Whether one call of the callback with `dev` may turn `pre_table` into
    /// `post_table`. Unless it says otherwise, it may do anything.
    open spec fn ran(&self, dev: Device, pre_table: Works, post_table: Works) -> bool {
        true
    }

    /// Runs the work item while the device is still guaranteed to be bound. What is
    /// being executed before the call, this item with it, still is when it returns.
    fn run(&self, dev: &Device, table: &mut WorkTable)
        requires
            old(table)@.wf(),
            self.can_run(*dev, old(table)@),
        ensures
            final(table)@.wf(),
            old(table)@.goes_on(final(table)@),
            self.ran(*dev, old(table)@, final(table)@),
    ;
}

/// A work item that could not be registered with its device, and was cancelled.
pub struct NotManaged<W> {
    /// Why it could not be registered.
    pub error: Error,
    /// How far the cancellation has come. Where the callback is being run, the item
    /// is to be cancelled again after it has ended.
    pub cancel: Cancel,
    /// The item.
    pub work: Arc<W>,
}

/// Pointer to a scoped work item.
pub struct ScopedWorkPointer<'a, T: ScopedWorkItem, const ID: u64>(&'a ScopedWork<T, ID>);

impl<'a, T: ScopedWorkItem, const ID: u64> ScopedWorkPointer<'a, T, ID> {
    /// The item pointed to.
    pub closed spec fn item(self) -> ScopedWork<T, ID> {
        *self.0
    }

    /// Hands the item's number to `queue_work_on`, and returns what that
    /// returns.
    pub fn __enqueue<F: FnOnce(&mut WorkTable, usize) -> bool>(
        self,
        table: &mut WorkTable,
        queue_work_on: F,
    ) -> (res: bool)
        requires
            forall|t: &mut WorkTable|
                *t == *old(table) ==> #[trigger] call_requires(
                    queue_work_on,
                    (t, self.item().work()),
                ),
        ensures
            exists|t: &mut WorkTable|
                *t == *old(table) && *final(t) == *final(table) && #[trigger] call_ensures(
                    queue_work_on,
                    (t, self.item().work()),
                    res,
                ),
    {
        assert(self.item().work() == self.0.work);
        queue_work_on(table, self.0.work)
    }

    /// Calls the item's handler, once.
    pub fn run(self, table: &mut WorkTable)
        requires
            old(table)@.wf(),
            self.item().handler().can_run(self.item().dev(), old(table)@),
        ensures
            final(table)@.wf(),
            old(table)@.goes_on(final(table)@),
            self.item().handler().ran(self.item().dev(), old(table)@, final(table)@),
    {
        ScopedWork::run(self, table)
    }
}

/// Work item tied to a device binding scope.
///
/// `ScopedWork` is intended to be embedded in driver data whose lifetime is
/// tied to `dev`. Before it goes away, it is cancelled with
/// [`ScopedWork::cancel`], which takes pending work back and waits for a
/// running callback to finish.
pub struct ScopedWork<T: ScopedWorkItem, const ID: u64> {
    dev: Device,
    handler: T,
    name: &'static str,
    work: usize,
}

impl<T: ScopedWorkItem, const ID: u64> ScopedWork<T, ID> {
    /// The device.
    pub closed spec fn dev(self) -> Device {
        self.dev
    }

    /// The handler.
    pub closed spec fn handler(self) -> T {
        self.handler
    }

    /// The name of the work item.
    pub closed spec fn name(self) -> &'static str {
        self.name
    }

    /// The number of the work item.
    pub closed spec fn work(self) -> usize {
        self.work
    }

    /// Whether this item stands in `works`.
    pub open spec fn stands_in(self, works: Works) -> bool {
        self.work() < works.works.len()
    }

    /// Creates a new scoped work item.
    ///
    /// Where there is no handler, the error that came in its place is returned.
    pub fn new<E>(
        table: &mut WorkTable,
        name: &'static str,
        dev: &Device,
        handler: Result<T, E>,
    ) -> (res: Result<Self, E>)
        requires
            old(table)@.wf(),
        ensures
            final(table)@.wf(),
            match handler {
                Err(e) => {
                    &&& res matches Err(f) && f == e
                    &&& final(table)@ == old(table)@
                },
                Ok(h) => res matches Ok(item) && {
                    &&& item.dev() == *dev
                    &&& item.handler() == h
                    &&& item.name() == name
                    &&& item.work() == old(table)@.works.len()
                    &&& final(table)@ == old(table)@.with_idle_work()
                },
            },
    {
        match handler {
            Err(e) => Err(e),
            Ok(handler) => {
                let work: usize = table.add_work();
                Ok(ScopedWork { dev: *dev, handler, name, work })
            },
        }
    }

    /// The number of the work item.
    pub fn number(&self) -> (res: usize)
        ensures
            res == self.work(),
    {
        self.work
    }

    /// Calls the handler of the item that `this` points to, once.
    fn run(this: ScopedWorkPointer<'_, T, ID>, table: &mut WorkTable)
        requires
            old(table)@.wf(),
            this.item().handler().can_run(this.item().dev(), old(table)@),
        ensures
            final(table)@.wf(),
            old(table)@.goes_on(final(table)@),
            this.item().handler().ran(this.item().dev(), old(table)@, final(table)@),
    {
        this.0.handler.run(&this.0.dev, table);
    }

    /// Executes the item from start to end, if it may start: its handler is called
    /// once, with the device that the item was made with.
    ///
    /// Returns whether it was executed.
    pub fn execute(&self, table: &mut WorkTable) -> (res: bool)
        requires
            old(table)@.wf(),
            self.stands_in(old(table)@),
            old(table)@.can_begin(self.work() as int) ==> self.handler().can_run(
                self.dev(),
                old(table)@.begun(self.work() as int),
            ),
        ensures
            final(table)@.wf(),
            self.stands_in(final(table)@),
            res == old(table)@.can_begin(self.work() as int),
            !res ==> final(table)@ == old(table)@,
            res ==> exists|mid: Works|
                #[trigger] self.handler().ran(
                    self.dev(),
                    old(table)@.begun(self.work() as int),
                    mid,
                ) && old(table)@.begun(self.work() as int).goes_on(mid) && final(table)@
                    == mid.ended(self.work() as int),
    {
        if !table.begin(self.work) {
            return false;
        }
        let ghost begun = table@;
        ScopedWorkPointer(self).run(table);
        assert(begun.has(self.work as int) && begun.running(self.work as int));
        table.end(self.work);
        true
    }

    /// Enqueues the work item on the given queue.
    ///
    /// Returns `false` if the work item is already pending.
    pub fn enqueue(&self, table: &mut WorkTable, queue: &Queue) -> (res: bool)
        requires
            old(table)@.wf(),
            self.stands_in(old(table)@),
            queue.stands_in(old(table)@),
        ensures
            final(table)@.wf(),
            res == old(table)@.can_queue(self.work() as int),
            final(table)@ == old(table)@.queued(
                self.work() as int,
                Request { queue: queue.id(), delay: None },
            ),
    {
        let request = Request { queue: queue.number(), delay: None };
        ScopedWorkPointer(self).__enqueue(
            table,
            |t: &mut WorkTable, work: usize| -> (queued: bool)
                requires
                    old(t)@.wf(),
                    old(t)@.knows(work, request),
                ensures
                    final(t)@.wf(),
                    queued == old(t)@.can_queue(work as int),
                    final(t)@ == old(t)@.queued(work as int, request)
                { t.queue_work(work, request) },
        )
    }

    /// Cancels the item: pending work is taken back, and a running callback has
    /// to be waited for.
    pub fn cancel(&self, table: &mut WorkTable) -> (res: Cancel)
        requires
            old(table)@.wf(),
            self.stands_in(old(table)@),
        ensures
            final(table)@.wf(),
            final(table)@ == old(table)@.cancelled(self.work() as int),
            res is Wait <==> old(table)@.running(self.work() as int),
    {
        table.cancel_work(self.work)
    }

    /// Converts an allocated scoped work item into a device-managed work item.
    ///
    /// The returned work item is cancelled during driver detach.
    ///
    /// `room` says whether the item can be registered with the device; if not,
    /// the item is cancelled and handed back with the error.
    pub fn into_managed(self: Arc<Self>, table: &mut WorkTable, room: Result<(), Error>) -> (res: Result<
        ManagedWork<T, ID>,
        NotManaged<Self>,
    >)
        requires
            old(table)@.wf(),
            self.stands_in(old(table)@),
        ensures
            final(table)@.wf(),
            match room {
                Ok(_) => {
                    &&& res matches Ok(managed) && managed.item() == *self
                    &&& final(table)@ == old(table)@.registered(self.dev(), self.work())
                },
                Err(e) => {
                    &&& res matches Err(f) && f.error == e && *f.work == *self && (
                    f.cancel is Wait <==> old(table)@.running(self.work() as int))
                    &&& final(table)@ == old(table)@.cancelled(self.work() as int)
                },
            },
    {
        let dev = self.dev;
        match ManagedWorkRegistration::register(table, &dev, self.clone(), room) {
            Ok(()) => Ok(ManagedWork { inner: self }),
            Err(e) => Err(e),
        }
    }
}

struct ManagedWorkRegistration<T: ScopedWorkItem, const ID: u64> {
    inner: Arc<ScopedWork<T, ID>>,
}

impl<T: ScopedWorkItem, const ID: u64> ManagedWorkRegistration<T, ID> {
    /// Has `work` cancelled when `dev` is detached.
    fn register(
        table: &mut WorkTable,
        dev: &Device,
        work: Arc<ScopedWork<T, ID>>,
        room: Result<(), Error>,
    ) -> (res: Result<(), NotManaged<ScopedWork<T, ID>>>)
        requires
            old(table)@.wf(),
            work.stands_in(old(table)@),
        ensures
            final(table)@.wf(),
            match room {
                Ok(_) => {
                    &&& res is Ok
                    &&& final(table)@ == old(table)@.registered(*dev, work.work())
                },
                Err(e) => {
                    &&& res matches Err(f) && f.error == e && *f.work == *work && (
                    f.cancel is Wait <==> old(table)@.running(work.work() as int))
                    &&& final(table)@ == old(table)@.cancelled(work.work() as int)
                },
            },
    {
        let registration = ManagedWorkRegistration { inner: work };
        match room {
            Ok(()) => {
                table.add_devres(*dev, registration.inner.work);
                Ok(())
            },
            Err(error) => {
                let cancel = registration.cancel(table);
                Err(NotManaged { error, cancel, work: registration.inner })
            },
        }
    }

    /// Cancels the registered item.
    fn cancel(&self, table: &mut WorkTable) -> (res: Cancel)
        requires
            old(table)@.wf(),
            self.inner.stands_in(old(table)@),
        ensures
            final(table)@.wf(),
            final(table)@ == old(table)@.cancelled(self.inner.work() as int),
            res is Wait <==> old(table)@.running(self.inner.work() as int),
    {
        self.inner.cancel(table)
    }
}

/// Device-managed work item that is cancelled during driver detach.
pub struct ManagedWork<T: ScopedWorkItem, const ID: u64> {
    inner: Arc<ScopedWork<T, ID>>,
}

impl<T: ScopedWorkItem, const ID: u64> ManagedWork<T, ID> {
    /// The work item.
    pub closed spec fn item(self) -> ScopedWork<T, ID> {
        *self.inner
    }

    /// Creates a new device-managed work item.
    ///
    /// Where there is no handler, or where there is no room to register the
    /// item, the error that came in its place is returned.
    pub fn new(
        table: &mut WorkTable,
        name: &'static str,
        dev: &Device,
        handler: Result<T, Error>,
        room: Result<(), Error>,
    ) -> (res: Result<Self, Error>)
        requires
            old(table)@.wf(),
        ensures
            final(table)@.wf(),
            match (handler, room) {
                (Err(e), _) => {
                    &&& res matches Err(f) && f == e
                    &&& final(table)@ == old(table)@
                },
                (Ok(_), Err(e)) => {
                    &&& res matches Err(f) && f == e
                    &&& final(table)@ == old(table)@.with_idle_work()
                },
                (Ok(h), Ok(_)) => {
                    &&& res matches Ok(managed) && {
                        &&& managed.item().handler() == h
                        &&& managed.item().dev() == *dev
                        &&& managed.item().name() == name
                        &&& managed.item().work() == old(table)@.works.len()
                    }
                    &&& final(table)@ == old(table)@.with_idle_work().registered(
                        *dev,
                        old(table)@.works.len() as usize,
                    )
                },
            },
    {
        match ScopedWork::new(table, name, dev, handler) {
            Err(e) => Err(e),
            Ok(scoped) => {
                let res = Arc::new(scoped).into_managed(table, room);
                assert(room is Err ==> table@.works =~= old(table)@.with_idle_work().works);
                match res {
                    Ok(managed) => Ok(managed),
                    // The item was idle, so there is nothing to wait for.
                    Err(not_managed) => Err(not_managed.error),
                }
            },
        }
    }

    /// The number of the work item.
    pub fn number(&self) -> (res: usize)
        ensures
            res == self.item().work(),
    {
        self.inner.number()
    }

    /// Enqueues the work item on the given queue.
    ///
    /// Returns `false` if the work item is already pending.
    pub fn enqueue(&self, table: &mut WorkTable, queue: &Queue) -> (res: bool)
        requires
            old(table)@.wf(),
            self.item().stands_in(old(table)@),
            queue.stands_in(old(table)@),
        ensures
            final(table)@.wf(),
            res == old(table)@.can_queue(self.item().work() as int),
            final(table)@ == old(table)@.queued(
                self.item().work() as int,
                Request { queue: queue.id(), delay: None },
            ),
    {
        self.inner.enqueue(table, queue)
    }

    /// Executes the item from start to end, if it may start: its handler is called
    /// once, with the device that the item was made with.
    ///
    /// Returns whether it was executed.
    pub fn run(&self, table: &mut WorkTable) -> (res: bool)
        requires
            old(table)@.wf(),
            self.item().stands_in(old(table)@),
            old(table)@.can_begin(self.item().work() as int) ==> self.item().handler().can_run(
                self.item().dev(),
                old(table)@.begun(self.item().work() as int),
            ),
        ensures
            final(table)@.wf(),
            self.item().stands_in(final(table)@),
            res == old(table)@.can_begin(self.item().work() as int),
            !res ==> final(table)@ == old(table)@,
            res ==> exists|mid: Works|
                #[trigger] self.item().handler().ran(
                    self.item().dev(),
                    old(table)@.begun(self.item().work() as int),
                    mid,
                ) && old(table)@.begun(self.item().work() as int).goes_on(mid) && final(table)@
                    == mid.ended(self.item().work() as int),
    {
        self.inner.execute(table)
    }
}

impl<T: ScopedWorkItem, const ID: u64> Clone for ManagedWork<T, ID> {
    /// Another handle of the same item.
    fn clone(&self) -> (res: Self)
        ensures
            res.item() == self.item(),
    {
        ManagedWork { inner: self.inner.clone() }
    }
}

/// Pointer to a scoped delayed work item.
pub struct ScopedDelayedWorkPointer<'a, T: ScopedWorkItem, const ID: u64>(&'a ScopedDelayedWork<T, ID>);

impl<'a, T: ScopedWorkItem, const ID: u64> ScopedDelayedWorkPointer<'a, T, ID> {
    /// The item pointed to.
    pub closed spec fn item(self) -> ScopedDelayedWork<T, ID> {
        *self.0
    }

    /// Hands the item's number to `queue_work_on`, and returns what that
    /// returns.
    pub fn __enqueue<F: FnOnce(&mut WorkTable, usize) -> bool>(
        self,
        table: &mut WorkTable,
        queue_work_on: F,
    ) -> (res: bool)
        requires
            forall|t: &mut WorkTable|
                *t == *old(table) ==> #[trigger] call_requires(
                    queue_work_on,
                    (t, self.item().work()),
                ),
        ensures
            exists|t: &mut WorkTable|
                *t == *old(table) && *final(t) == *final(table) && #[trigger] call_ensures(
                    queue_work_on,
                    (t, self.item().work()),
                    res,
                ),
    {
        assert(self.item().work() == self.0.work);
        queue_work_on(table, self.0.work)
    }

    /// Calls the item's handler, once.
    pub fn run(self, table: &mut WorkTable)
        requires
            old(table)@.wf(),
            self.item().handler().can_run(self.item().dev(), old(table)@),
        ensures
            final(table)@.wf(),
            old(table)@.goes_on(final(table)@),
            self.item().handler().ran(self.item().dev(), old(table)@, final(table)@),
    {
        ScopedDelayedWork::run(self, table)
    }
}

/// Delayed work item tied to a device binding scope.
///
/// `ScopedDelayedWork` is intended to be embedded in driver data whose lifetime is
/// tied to `dev`. Before it goes away, it is cancelled with
/// [`ScopedDelayedWork::cancel`], which takes pending work back and waits for a
/// running callback to finish.
pub struct ScopedDelayedWork<T: ScopedWorkItem, const ID: u64> {
    dev: Device,
    handler: T,
    work_name: &'static str,
    timer_name: &'static str,
    work: usize,
}

impl<T: ScopedWorkItem, const ID: u64> ScopedDelayedWork<T, ID> {
    /// The device.
    pub closed spec fn dev(self) -> Device {
        self.dev
    }

    /// The handler.
    pub closed spec fn handler(self) -> T {
        self.handler
    }

    /// The name of the work item.
    pub closed spec fn work_name(self) -> &'static str {
        self.work_name
    }

    /// The name of the timer.
    pub closed spec fn timer_name(self) -> &'static str {
        self.timer_name
    }

    /// The number of the work item.
    pub closed spec fn work(self) -> usize {
        self.work
    }

    /// Whether this item stands in `works`.
    pub open spec fn stands_in(self, works: Works) -> bool {
        self.work() < works.works.len()
    }

    /// Creates a new scoped delayed work item.
    ///
    /// Where there is no handler, the error that came in its place is returned.
    pub fn new<E>(
        table: &mut WorkTable,
        work_name: &'static str,
        timer_name: &'static str,
        dev: &Device,
        handler: Result<T, E>,
    ) -> (res: Result<Self, E>)
        requires
            old(table)@.wf(),
        ensures
            final(table)@.wf(),
            match handler {
                Err(e) => {
                    &&& res matches Err(f) && f == e
                    &&& final(table)@ == old(table)@
                },
                Ok(h) => res matches Ok(item) && {
                    &&& item.dev() == *dev
                    &&& item.handler() == h
                    &&& item.work_name() == work_name
                    &&& item.timer_name() == timer_name
                    &&& item.work() == old(table)@.works.len()
                    &&& final(table)@ == old(table)@.with_idle_work()
                },
            },
    {
        match handler {
            Err(e) => Err(e),
            Ok(handler) => {
                let work: usize = table.add_work();
                Ok(ScopedDelayedWork { dev: *dev, handler, work_name, timer_name, work })
            },
        }
    }

    /// The number of the work item.
    pub fn number(&self) -> (res: usize)
        ensures
            res == self.work(),
    {
        self.work
    }

    /// Calls the handler of the item that `this` points to, once.
    fn run(this: ScopedDelayedWorkPointer<'_, T, ID>, table: &mut WorkTable)
        requires
            old(table)@.wf(),
            this.item().handler().can_run(this.item().dev(), old(table)@),
        ensures
            final(table)@.wf(),
            old(table)@.goes_on(final(table)@),
            this.item().handler().ran(this.item().dev(), old(table)@, final(table)@),
    {
        this.0.handler.run(&this.0.dev, table);
    }

    /// Executes the item from start to end, if it may start: its handler is called
    /// once, with the device that the item was made with.
    ///
    /// Returns whether it was executed.
    pub fn execute(&self, table: &mut WorkTable) -> (res: bool)
        requires
            old(table)@.wf(),
            self.stands_in(old(table)@),
            old(table)@.can_begin(self.work() as int) ==> self.handler().can_run(
                self.dev(),
                old(table)@.begun(self.work() as int),
            ),
        ensures
            final(table)@.wf(),
            self.stands_in(final(table)@),
            res == old(table)@.can_begin(self.work() as int),
            !res ==> final(table)@ == old(table)@,
            res ==> exists|mid: Works|
                #[trigger] self.handler().ran(
                    self.dev(),
                    old(table)@.begun(self.work() as int),
                    mid,
                ) && old(table)@.begun(self.work() as int).goes_on(mid) && final(table)@
                    == mid.ended(self.work() as int),
    {
        if !table.begin(self.work) {
            return false;
        }
        let ghost begun = table@;
        ScopedDelayedWorkPointer(self).run(table);
        assert(begun.has(self.work as int) && begun.running(self.work as int));
        table.end(self.work);
        true
    }

    /// Enqueues the delayed work item immediately on the given queue.
    ///
    /// Returns `false` if the work item is already pending.
    pub fn enqueue(&self, table: &mut WorkTable, queue: &Queue) -> (res: bool)
        requires
            old(table)@.wf(),
            self.stands_in(old(table)@),
            queue.stands_in(old(table)@),
        ensures
            final(table)@.wf(),
            res == old(table)@.can_queue(self.work() as int),
            final(table)@ == old(table)@.queued(
                self.work() as int,
                Request { queue: queue.id(), delay: None },
            ),
    {
        let request = Request { queue: queue.number(), delay: None };
        ScopedDelayedWorkPointer(self).__enqueue(
            table,
            |t: &mut WorkTable, work: usize| -> (queued: bool)
                requires
                    old(t)@.wf(),
                    old(t)@.knows(work, request),
                ensures
                    final(t)@.wf(),
                    queued == old(t)@.can_queue(work as int),
                    final(t)@ == old(t)@.queued(work as int, request)
                { t.queue_work(work, request) },
        )
    }

    /// Enqueues the delayed work item on the given queue after `delay` jiffies.
    ///
    /// Returns `false` if the work item is already pending.
    pub fn enqueue_delayed(&self, table: &mut WorkTable, queue: &Queue, delay: u64) -> (res: bool)
        requires
            old(table)@.wf(),
            self.stands_in(old(table)@),
            queue.stands_in(old(table)@),
        ensures
            final(table)@.wf(),
            res == old(table)@.can_queue(self.work() as int),
            final(table)@ == old(table)@.queued(
                self.work() as int,
                Request { queue: queue.id(), delay: Some(delay) },
            ),
    {
        let request = Request { queue: queue.number(), delay: Some(delay) };
        ScopedDelayedWorkPointer(self).__enqueue(
            table,
            |t: &mut WorkTable, work: usize| -> (queued: bool)
                requires
                    old(t)@.wf(),
                    old(t)@.knows(work, request),
                ensures
                    final(t)@.wf(),
                    queued == old(t)@.can_queue(work as int),
                    final(t)@ == old(t)@.queued(work as int, request)
                { t.queue_work(work, request) },
        )
    }

    /// Cancels the item: pending work is taken back, and a running callback has
    /// to be waited for.
    pub fn cancel(&self, table: &mut WorkTable) -> (res: Cancel)
        requires
            old(table)@.wf(),
            self.stands_in(old(table)@),
        ensures
            final(table)@.wf(),
            final(table)@ == old(table)@.cancelled(self.work() as int),
            res is Wait <==> old(table)@.running(self.work() as int),
    {
        table.cancel_work(self.work)
    }

    /// Converts an allocated scoped delayed work item into a device-managed delayed work item.
    ///
    /// The returned work item is cancelled during driver detach.
    ///
    /// `room` says whether the item can be registered with the device; if not,
    /// the item is cancelled and handed back with the error.
    pub fn into_managed(self: Arc<Self>, table: &mut WorkTable, room: Result<(), Error>) -> (res: Result<
        ManagedDelayedWork<T, ID>,
        NotManaged<Self>,
    >)
        requires
            old(table)@.wf(),
            self.stands_in(old(table)@),
        ensures
            final(table)@.wf(),
            match room {
                Ok(_) => {
                    &&& res matches Ok(managed) && managed.item() == *self
                    &&& final(table)@ == old(table)@.registered(self.dev(), self.work())
                },
                Err(e) => {
                    &&& res matches Err(f) && f.error == e && *f.work == *self && (
                    f.cancel is Wait <==> old(table)@.running(self.work() as int))
                    &&& final(table)@ == old(table)@.cancelled(self.work() as int)
                },
            },
    {
        let dev = self.dev;
        match ManagedDelayedWorkRegistration::register(table, &dev, self.clone(), room) {
            Ok(()) => Ok(ManagedDelayedWork { inner: self }),
            Err(e) => Err(e),
        }
    }
}

struct ManagedDelayedWorkRegistration<T: ScopedWorkItem, const ID: u64> {
    inner: Arc<ScopedDelayedWork<T, ID>>,
}

impl<T: ScopedWorkItem, const ID: u64> ManagedDelayedWorkRegistration<T, ID> {
    /// Has `work` cancelled when `dev` is detached.
    fn register(
        table: &mut WorkTable,
        dev: &Device,
        work: Arc<ScopedDelayedWork<T, ID>>,
        room: Result<(), Error>,
    ) -> (res: Result<(), NotManaged<ScopedDelayedWork<T, ID>>>)
        requires
            old(table)@.wf(),
            work.stands_in(old(table)@),
        ensures
            final(table)@.wf(),
            match room {
                Ok(_) => {
                    &&& res is Ok
                    &&& final(table)@ == old(table)@.registered(*dev, work.work())
                },
                Err(e) => {
                    &&& res matches Err(f) && f.error == e && *f.work == *work && (
                    f.cancel is Wait <==> old(table)@.running(work.work() as int))
                    &&& final(table)@ == old(table)@.cancelled(work.work() as int)
                },
            },
    {
        let registration = ManagedDelayedWorkRegistration { inner: work };
        match room {
            Ok(()) => {
                table.add_devres(*dev, registration.inner.work);
                Ok(())
            },
            Err(error) => {
                let cancel = registration.cancel(table);
                Err(NotManaged { error, cancel, work: registration.inner })
            },
        }
    }

    /// Cancels the registered item.
    fn cancel(&self, table: &mut WorkTable) -> (res: Cancel)
        requires
            old(table)@.wf(),
            self.inner.stands_in(old(table)@),
        ensures
            final(table)@.wf(),
            final(table)@ == old(table)@.cancelled(self.inner.work() as int),
            res is Wait <==> old(table)@.running(self.inner.work() as int),
    {
        self.inner.cancel(table)
    }
}

/// Device-managed delayed work item that is cancelled during driver detach.
pub struct ManagedDelayedWork<T: ScopedWorkItem, const ID: u64> {
    inner: Arc<ScopedDelayedWork<T, ID>>,
}

impl<T: ScopedWorkItem, const ID: u64> ManagedDelayedWork<T, ID> {
    /// The work item.
    pub closed spec fn item(self) -> ScopedDelayedWork<T, ID> {
        *self.inner
    }

    /// Creates a new device-managed delayed work item.
    ///
    /// Where there is no handler, or where there is no room to register the
    /// item, the error that came in its place is returned.
    pub fn new(
        table: &mut WorkTable,
        work_name: &'static str,
        timer_name: &'static str,
        dev: &Device,
        handler: Result<T, Error>,
        room: Result<(), Error>,
    ) -> (res: Result<Self, Error>)
        requires
            old(table)@.wf(),
        ensures
            final(table)@.wf(),
            match (handler, room) {
                (Err(e), _) => {
                    &&& res matches Err(f) && f == e
                    &&& final(table)@ == old(table)@
                },
                (Ok(_), Err(e)) => {
                    &&& res matches Err(f) && f == e
                    &&& final(table)@ == old(table)@.with_idle_work()
                },
                (Ok(h), Ok(_)) => {
                    &&& res matches Ok(managed) && {
                        &&& managed.item().handler() == h
                        &&& managed.item().dev() == *dev
                        &&& managed.item().work_name() == work_name
                        &&& managed.item().timer_name() == timer_name
                        &&& managed.item().work() == old(table)@.works.len()
                    }
                    &&& final(table)@ == old(table)@.with_idle_work().registered(
                        *dev,
                        old(table)@.works.len() as usize,
                    )
                },
            },
    {
        match ScopedDelayedWork::new(table, work_name, timer_name, dev, handler) {
            Err(e) => Err(e),
            Ok(scoped) => {
                let res = Arc::new(scoped).into_managed(table, room);
                assert(room is Err ==> table@.works =~= old(table)@.with_idle_work().works);
                match res {
                    Ok(managed) => Ok(managed),
                    // The item was idle, so there is nothing to wait for.
                    Err(not_managed) => Err(not_managed.error),
                }
            },
        }
    }

    /// The number of the work item.
    pub fn number(&self) -> (res: usize)
        ensures
            res == self.item().work(),
    {
        self.inner.number()
    }

    /// Enqueues the delayed work item immediately on the given queue.
    ///
    /// Returns `false` if the work item is already pending.
    pub fn enqueue(&self, table: &mut WorkTable, queue: &Queue) -> (res: bool)
        requires
            old(table)@.wf(),
            self.item().stands_in(old(table)@),
            queue.stands_in(old(table)@),
        ensures
            final(table)@.wf(),
            res == old(table)@.can_queue(self.item().work() as int),
            final(table)@ == old(table)@.queued(
                self.item().work() as int,
                Request { queue: queue.id(), delay: None },
            ),
    {
        self.inner.enqueue(table, queue)
    }

    /// Enqueues the delayed work item on the given queue after `delay` jiffies.
    ///
    /// Returns `false` if the work item is already pending.
    pub fn enqueue_delayed(&self, table: &mut WorkTable, queue: &Queue, delay: u64) -> (res: bool)
        requires
            old(table)@.wf(),
            self.item().stands_in(old(table)@),
            queue.stands_in(old(table)@),
        ensures
            final(table)@.wf(),
            res == old(table)@.can_queue(self.item().work() as int),
            final(table)@ == old(table)@.queued(
                self.item().work() as int,
                Request { queue: queue.id(), delay: Some(delay) },
            ),
    {
        self.inner.enqueue_delayed(table, queue, delay)
    }

    /// Executes the item from start to end, if it may start: its handler is called
    /// once, with the device that the item was made with.
    ///
    /// Returns whether it was executed.
    pub fn run(&self, table: &mut WorkTable) -> (res: bool)
        requires
            old(table)@.wf(),
            self.item().stands_in(old(table)@),
            old(table)@.can_begin(self.item().work() as int) ==> self.item().handler().can_run(
                self.item().dev(),
                old(table)@.begun(self.item().work() as int),
            ),
        ensures
            final(table)@.wf(),
            self.item().stands_in(final(table)@),
            res == old(table)@.can_begin(self.item().work() as int),
            !res ==> final(table)@ == old(table)@,
            res ==> exists|mid: Works|
                #[trigger] self.item().handler().ran(
                    self.item().dev(),
                    old(table)@.begun(self.item().work() as int),
                    mid,
                ) && old(table)@.begun(self.item().work() as int).goes_on(mid) && final(table)@
                    == mid.ended(self.item().work() as int),
    {
        self.inner.execute(table)
    }
}

impl<T: ScopedWorkItem, const ID: u64> Clone for ManagedDelayedWork<T, ID> {
    /// Another handle of the same item.
    fn clone(&self) -> (res: Self)
        ensures
            res.item() == self.item(),
    {
        ManagedDelayedWork { inner: self.inner.clone() }
    }
}

} // verus!
