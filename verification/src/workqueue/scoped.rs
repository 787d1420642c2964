//! Lifetime-scoped workqueues and work items.
//!
//! Provides [`ScopedQueue`] and [`ScopedWork`] for work items that may borrow
//! data.
//!
//! A [`ScopedQueue`] is drained before borrowed data goes out of scope: see
//! [`ScopedQueue::drain`].
//!
//! A [`ScopedWork`] wraps a work item that is cancelled before it goes away, so
//! ownership of the data is not transferred to the workqueue: see
//! [`ScopedWork::cancel`].

use super::{Cancel, Queue, RawWorkItem, WorkTable, Works};
use crate::error::Error;
use vstd::prelude::*;

verus! {

/// An owned workqueue that can enqueue work items.
///
/// A `ScopedQueue` must not outlive data borrowed by its work items.
pub struct ScopedQueue {
    inner: Queue,
}

impl ScopedQueue {
    /// The underlying queue.
    pub closed spec fn queue(self) -> Queue {
        self.inner
    }

    /// Creates an ordered scoped workqueue.
    ///
    /// `room` says whether the queue can be built; if not, its error is
    /// returned.
    pub fn new(table: &mut WorkTable, name: &'static str, room: Result<(), Error>) -> (res: Result<
        Self,
        Error,
    >)
        requires
            old(table)@.wf(),
        ensures
            final(table)@.wf(),
            match room {
                Ok(_) => {
                    &&& res matches Ok(queue) && {
                        &&& queue.queue().id() == old(table)@.queues.len()
                        &&& queue.queue().name() == name
                        &&& final(table)@.drained(queue.queue().id() as int)
                    }
                    &&& final(table)@ == (Works {
                        queues: old(table)@.queues.push(true),
                        ..old(table)@
                    })
                },
                Err(e) => {
                    &&& res matches Err(f) && f == e
                    &&& final(table)@ == old(table)@
                },
            },
    {
        match room {
            Ok(()) => Ok(ScopedQueue { inner: Queue::new(table, name, true) }),
            Err(e) => Err(e),
        }
    }

    /// The underlying queue.
    pub fn deref(&self) -> (res: &Queue)
        ensures
            *res == self.queue(),
    {
        &self.inner
    }

    /// Enqueues a work item on this scoped queue.
    ///
    /// Returns `false` if the work item is already pending.
    pub fn enqueue<W: RawWorkItem>(&self, table: &mut WorkTable, work: &W) -> (res: bool)
        requires
            old(table)@.wf(),
            work.work_id() < old(table)@.works.len(),
            self.queue().stands_in(old(table)@),
        ensures
            final(table)@.wf(),
            res == old(table)@.can_queue(work.work_id() as int),
            final(table)@ == old(table)@.queued(
                work.work_id() as int,
                super::Request { queue: self.queue().id(), delay: None },
            ),
    {
        self.inner.enqueue_scoped(table, work)
    }

    /// An item that has to be run, or whose callback has to end, before the
    /// queue may go away; none once the queue is drained.
    pub fn drain(&self, table: &WorkTable) -> (res: Option<usize>)
        ensures
            res is None <==> table@.drained(self.queue().id() as int),
            res matches Some(w) ==> w < table@.works.len() && table@.uses_queue(
                w as int,
                self.queue().id() as int,
            ),
    {
        table.find_user(self.inner.number())
    }
}

/// Trait for types that can be used as scoped work items.
///
/// Implementers define the work function that executes when the item is dequeued by a workqueue
/// thread. The callback receives a reference to the containing [`ScopedWorkRef`], which provides
/// access to the inner data and can be used to re-enqueue the work item.
///
/// An implementation says with [`ScopedWorkItem::can_run`] what its work function
/// needs, and with [`ScopedWorkItem::ran`] what one call of it does.
pub trait ScopedWorkItem: Sized {
    /// Whether the work function may be called with `work` and `table`: always, unless
    /// it says otherwise.
    open spec fn can_run(work: ScopedWorkRef<Self>, table: Works) -> bool {
        true
    }

    /// Whether the work function may turn `pre` and `pre_table` into `post` and
    /// `post_table`. Unless it says otherwise, it may do anything.
    open spec fn ran(
        pre: ScopedWorkRef<Self>,
        pre_table: Works,
        post: ScopedWorkRef<Self>,
        post_table: Works,
    ) -> bool {
        true
    }

    /// Called when the work item is executed. The item stays the same item. What is
    /// being executed before the call, this item with it, still is when it returns.
    fn run(work: &mut ScopedWorkRef<Self>, table: &mut WorkTable)
        requires
            old(table)@.wf(),
            old(work).stands_in(old(table)@),
            old(table)@.running(old(work).work() as int),
            Self::can_run(*old(work), old(table)@),
        ensures
            final(table)@.wf(),
            final(work).work() == old(work).work(),
            old(table)@.goes_on(final(table)@),
            Self::ran(*old(work), old(table)@, *final(work), final(table)@),
    ;
}

/// The work function's view of a [`ScopedWork`] item.
///
/// The work function callback receives `&mut ScopedWorkRef<T>`, which gives access to the data and
/// can be passed to queue enqueue methods for re-enqueueing from within the work function.
pub struct ScopedWorkRef<T> {
    work: usize,
    name: &'static str,
    data: T,
}

impl<T> ScopedWorkRef<T> {
    /// The number of the work item.
    pub closed spec fn work(self) -> usize {
        self.work
    }

    /// The name of the work item.
    pub closed spec fn name(self) -> &'static str {
        self.name
    }

    /// The inner data.
    pub closed spec fn data(self) -> T {
        self.data
    }

    /// Whether this item stands in `works`.
    pub open spec fn stands_in(self, works: Works) -> bool {
        self.work() < works.works.len()
    }

    /// The inner data.
    pub fn deref(&self) -> (res: &T)
        ensures
            *res == self.data(),
    {
        &self.data
    }

    /// The inner data, to change it.
    pub fn deref_mut(&mut self) -> (res: &mut T)
        ensures
            *res == old(self).data(),
            *final(res) == final(self).data(),
            final(self).work() == old(self).work(),
            final(self).name() == old(self).name(),
    {
        &mut self.data
    }
}

impl<T> RawWorkItem for ScopedWorkRef<T> {
    open spec fn work_id(&self) -> usize {
        self.work()
    }

    fn raw_get(&self) -> (res: usize) {
        self.work
    }
}

/// A scoped work item that is cancelled before it goes away.
///
/// `ScopedWork<T>` contains a work item and the user data `T`. [`ScopedWork::cancel`] makes sure
/// that the work function is not running when the data is dropped.
pub struct ScopedWork<T> {
    inner: ScopedWorkRef<T>,
}

impl<T> RawWorkItem for ScopedWork<T> {
    open spec fn work_id(&self) -> usize {
        self.inner().work()
    }

    fn raw_get(&self) -> (res: usize) {
        self.inner.raw_get()
    }
}

impl<T> ScopedWork<T> {
    /// The item as its work function sees it.
    pub closed spec fn inner(self) -> ScopedWorkRef<T> {
        self.inner
    }

    /// Creates a new scoped work item.
    ///
    /// Where there is no data, the error that came in its place is returned.
    pub fn new(table: &mut WorkTable, name: &'static str, init: Result<T, Error>) -> (res: Result<
        Self,
        Error,
    >)
        requires
            old(table)@.wf(),
        ensures
            final(table)@.wf(),
            match init {
                Err(e) => {
                    &&& res matches Err(f) && f == e
                    &&& final(table)@ == old(table)@
                },
                Ok(data) => {
                    &&& res matches Ok(item) && {
                        &&& item.inner().work() == old(table)@.works.len()
                        &&& item.inner().name() == name
                        &&& item.inner().data() == data
                    }
                    &&& final(table)@ == old(table)@.with_idle_work()
                },
            },
    {
        match init {
            Err(e) => Err(e),
            Ok(data) => {
                let work: usize = table.add_work();
                Ok(ScopedWork { inner: ScopedWorkRef { work, name, data } })
            },
        }
    }

    /// The item as its work function sees it.
    pub fn deref(&self) -> (res: &ScopedWorkRef<T>)
        ensures
            *res == self.inner(),
    {
        &self.inner
    }

    /// The item as its work function sees it, to change it.
    pub fn deref_mut(&mut self) -> (res: &mut ScopedWorkRef<T>)
        ensures
            *res == old(self).inner(),
            *final(res) == final(self).inner(),
    {
        &mut self.inner
    }

    /// Cancels the item: pending work is taken back, and a running work function
    /// has to be waited for.
    pub fn cancel(&self, table: &mut WorkTable) -> (res: Cancel)
        requires
            old(table)@.wf(),
            self.inner().stands_in(old(table)@),
        ensures
            final(table)@.wf(),
            final(table)@ == old(table)@.cancelled(self.inner().work() as int),
            res is Wait <==> old(table)@.running(self.inner().work() as int),
    {
        table.cancel_work(self.inner.work)
    }
}

impl<T: ScopedWorkItem> ScopedWork<T> {
    /// Executes the work item from start to end, if it may start: its work function
    /// is called once.
    ///
    /// Returns whether it was executed.
    pub fn run(&mut self, table: &mut WorkTable) -> (res: bool)
        requires
            old(table)@.wf(),
            old(self).inner().stands_in(old(table)@),
            old(table)@.can_begin(old(self).inner().work() as int) ==> T::can_run(
                old(self).inner(),
                old(table)@.begun(old(self).inner().work() as int),
            ),
        ensures
            final(table)@.wf(),
            final(self).inner().work() == old(self).inner().work(),
            final(self).inner().stands_in(final(table)@),
            res == old(table)@.can_begin(old(self).inner().work() as int),
            !res ==> final(table)@ == old(table)@ && *final(self) == *old(self),
            res ==> exists|mid: Works|
                #[trigger] T::ran(
                    old(self).inner(),
                    old(table)@.begun(old(self).inner().work() as int),
                    final(self).inner(),
                    mid,
                ) && old(table)@.begun(old(self).inner().work() as int).goes_on(mid)
                    && final(table)@ == mid.ended(old(self).inner().work() as int),
    {
        if !table.begin(self.inner.work) {
            return false;
        }
        let ghost begun = table@;
        T::run(&mut self.inner, table);
        assert(begun.has(self.inner.work as int) && begun.running(self.inner.work as int));
        table.end(self.inner.work);
        true
    }
}

} // verus!
