//! Work items and the queues that run them.
//!
//! The state of all work items stands in a [`WorkTable`]. Whoever runs the
//! queues reports to it when the callback of an item starts and ends, and how much
//! time has passed.

pub mod devm_work;
pub mod history;
pub mod item_laws;
pub mod laws;
pub mod scoped;

use vstd::prelude::*;

verus! {

/// What was asked for when a work item was queued. Any CPU may run it.
#[derive(Clone, Copy, Debug, PartialEq, Eq, Structural)]
pub struct Request {
    /// The number of the queue.
    pub queue: usize,
    /// The time to wait before the item is due, in jiffies; none where the item
    /// was queued to be run at once.
    pub delay: Option<u64>,
}

impl Request {
    /// How many jiffies pass before the item gets to the queue.
    pub open spec fn wait(self) -> int {
        match self.delay {
            Some(delay) => delay as int,
            None => 0,
        }
    }

    /// Whether the item gets to the queue without a delay.
    pub open spec fn at_once(self) -> bool {
        self.wait() == 0
    }

    /// How many jiffies pass before the item gets to the queue.
    fn jiffies(&self) -> (res: u64)
        ensures
            res == self.wait(),
    {
        match self.delay {
            Some(delay) => delay,
            None => 0,
        }
    }
}

/// The state of one work item.
#[derive(Clone, Copy, Debug, PartialEq, Eq, Structural)]
pub struct WorkState {
    /// What is pending, if anything is: the callback has not started yet.
    pub pending: Option<Request>,
    /// When what is pending was queued, by the clock of the table.
    pub since: u64,
    /// The number of the queue from which the callback is being run.
    pub running: Option<usize>,
    /// Whether someone waits for the callback to end, so that nothing may be
    /// queued any more.
    pub canceling: bool,
}

/// A device, while it is bound to its driver.
#[derive(Clone, Copy, Debug, PartialEq, Eq, Structural)]
pub struct Device {
    /// The number of the device.
    pub id: usize,
}

/// A work item that is to be cancelled when a device is detached.
#[derive(Clone, Copy, Debug, PartialEq, Eq, Structural)]
pub struct Registration {
    /// The device.
    pub dev: Device,
    /// The number of the work item.
    pub work: usize,
}

/// The contents of a [`WorkTable`].
#[verifier::ext_equal]
pub struct Works {
    /// The work items, by number.
    pub works: Seq<WorkState>,
    /// Whether the queues are ordered, by number: an ordered queue runs one
    /// item at a time, in the order in which they got there.
    pub queues: Seq<bool>,
    /// What is to be cancelled when devices are detached.
    pub devres: Seq<Registration>,
    /// The numbers of the items that are pending, in the order in which they were
    /// queued.
    pub order: Seq<usize>,
    /// The time, in jiffies.
    pub now: u64,
}

/// Whether `u` comes before `w` in `order`.
pub open spec fn comes_before(order: Seq<usize>, u: int, w: int) -> bool {
    exists|i: int, j: int|
        0 <= i < j < order.len() && #[trigger] order[i] == u && #[trigger] order[j] == w
}

/// `order` without `w`.
pub open spec fn without(order: Seq<usize>, w: int) -> Seq<usize> {
    if order.contains(w as usize) {
        order.remove(order.index_of(w as usize))
    } else {
        order
    }
}

impl Works {
    /// Whether there is an item `w`.
    pub open spec fn has(self, w: int) -> bool {
        0 <= w < self.works.len()
    }

    /// Whether there are an item `work` and the queue that `request` is for.
    pub open spec fn knows(self, work: usize, request: Request) -> bool {
        work < self.works.len() && request.queue < self.queues.len()
    }

    /// Whether item `w` waits for its callback to be started.
    pub open spec fn pending(self, w: int) -> bool {
        self.works[w].pending is Some
    }

    /// Whether the callback of item `w` is being run.
    pub open spec fn running(self, w: int) -> bool {
        self.works[w].running is Some
    }

    /// Whether item `w` can be queued: it is not pending, and nobody is about to
    /// cancel it.
    pub open spec fn can_queue(self, w: int) -> bool {
        !self.pending(w) && !self.works[w].canceling
    }

    /// Whether an item is pending on queue `q` or being run from it.
    pub open spec fn uses_queue(self, w: int, q: int) -> bool {
        ||| self.works[w].pending matches Some(request) && request.queue == q
        ||| self.works[w].running == Some(q as usize)
    }

    /// Whether nothing is pending on queue `q` and nothing is run from it.
    pub open spec fn drained(self, q: int) -> bool {
        forall|w: int| 0 <= w < self.works.len() ==> !#[trigger] self.uses_queue(w, q)
    }

    /// Whether queue `q` runs an item.
    pub open spec fn busy(self, q: int) -> bool {
        exists|w: int|
            0 <= w < self.works.len() && (#[trigger] self.works[w]).running == Some(q as usize)
    }

    /// Whether what is pending of item `w` is due: the delay that was asked for, if
    /// any, has passed.
    pub open spec fn due(self, w: int) -> bool {
        self.works[w].pending matches Some(request) && (request.delay matches Some(delay)
            ==> self.works[w].since + delay <= self.now)
    }

    /// When item `w`, which is pending, gets to its queue: when it was queued, or
    /// later if it was queued with a delay.
    pub open spec fn arrival(self, w: int) -> int {
        self.works[w].since + self.works[w].pending->Some_0.wait()
    }

    /// Whether item `u` has got to its queue, where item `w` is pending too, before
    /// item `w`. Of two items that get there at one time, one of them after a delay,
    /// neither is ahead of the other.
    pub open spec fn ahead(self, u: int, w: int) -> bool {
        &&& u != w
        &&& self.due(u)
        &&& self.pending(w)
        &&& self.works[u].pending->Some_0.queue == self.works[w].pending->Some_0.queue
        &&& {
            ||| self.arrival(u) < self.arrival(w)
            ||| self.works[u].pending->Some_0.at_once() && self.works[w].pending->Some_0.at_once()
                && comes_before(self.order, u, w)
        }
    }

    /// Whether no item is ahead of item `w`.
    pub open spec fn first(self, w: int) -> bool {
        forall|u: int| self.has(u) ==> !#[trigger] self.ahead(u, w)
    }

    /// Whether the callback of item `w` may start: the item is pending and due, its
    /// callback is not being run, and if its queue is ordered, no other
    /// callback is being run from there and no other item got there before it.
    pub open spec fn can_begin(self, w: int) -> bool {
        &&& self.due(w)
        &&& self.works[w].pending matches Some(request) && (self.queues[request.queue as int]
            ==> !self.busy(request.queue as int) && self.first(w))
        &&& !self.running(w)
    }

    /// Whether no item and no queue of this table is gone from `post`, and every
    /// callback that is being run still is.
    pub open spec fn goes_on(self, post: Self) -> bool {
        &&& post.works.len() >= self.works.len()
        &&& self.queues.is_prefix_of(post.queues)
        &&& forall|w: int|
            #![trigger post.works[w]]
            self.has(w) && self.running(w) ==> post.works[w].running == self.works[w].running
    }

    /// Every request is for a known queue and was made in the past, every callback is
    /// run from a known queue, and every registration is of a known item. An item that
    /// is being cancelled is not pending. No two callbacks are run from one ordered
    /// queue. The items in order are those that are pending, each of them once, the
    /// one that was queued first before the others.
    pub open spec fn wf(self) -> bool {
        &&& self.works.len() <= usize::MAX
        &&& forall|w: int|
            0 <= w < self.works.len() ==> ((#[trigger] self.works[w]).pending matches Some(request)
                ==> request.queue < self.queues.len() && self.works[w].since <= self.now)
        &&& forall|w: int|
            0 <= w < self.works.len() ==> ((#[trigger] self.works[w]).running matches Some(q)
                ==> q < self.queues.len())
        &&& forall|w: int|
            0 <= w < self.works.len() && (#[trigger] self.works[w]).canceling
                ==> self.works[w].pending is None
        &&& forall|v: int, w: int|
            0 <= v < w < self.works.len() && (#[trigger] self.works[v]).running is Some && (
            #[trigger] self.works[w]).running == self.works[v].running
                ==> !self.queues[self.works[v].running->Some_0 as int]
        &&& forall|i: int|
            0 <= i < self.devres.len() ==> (#[trigger] self.devres[i]).work < self.works.len()
        &&& forall|i: int|
            0 <= i < self.order.len() ==> (#[trigger] self.order[i]) < self.works.len()
                && self.pending(self.order[i] as int)
        &&& forall|w: usize|
            w < self.works.len() && self.pending(w as int) ==> #[trigger] self.order.contains(w)
        &&& self.order.no_duplicates()
        &&& forall|i: int, j: int|
            0 <= i < j < self.order.len() ==> self.works[#[trigger] self.order[i] as int].since
                <= self.works[#[trigger] self.order[j] as int].since
    }

    /// Whether one of the first `n` registrations is for item `w` to be cancelled
    /// when `dev` is detached.
    pub open spec fn managed_among(self, n: int, w: int, dev: Device) -> bool {
        exists|i: int|
            0 <= i < n && (#[trigger] self.devres[i]).dev == dev && self.devres[i].work == w
    }

    /// Whether item `w` is to be cancelled when `dev` is detached.
    pub open spec fn managed_by(self, w: int, dev: Device) -> bool {
        self.managed_among(self.devres.len() as int, w, dev)
    }

    /// The table after item `work` was registered with `dev`.
    pub open spec fn registered(self, dev: Device, work: usize) -> Self {
        Works { devres: self.devres.push(Registration { dev, work }), ..self }
    }

    /// The table with one more item, which is idle.
    pub open spec fn with_idle_work(self) -> Self {
        Works {
            works: self.works.push(
                WorkState { pending: None, since: 0, running: None, canceling: false },
            ),
            ..self
        }
    }

    /// The table with item `w` in state `state`.
    pub open spec fn with_work(self, w: int, state: WorkState) -> Self {
        Works { works: self.works.update(w, state), ..self }
    }

    /// The table after an attempt to queue item `w`: the request is recorded
    /// unless the item cannot be queued.
    pub open spec fn queued(self, w: int, request: Request) -> Self {
        if self.can_queue(w) {
            Works {
                order: self.order.push(w as usize),
                ..self.with_work(
                    w,
                    WorkState { pending: Some(request), since: self.now, ..self.works[w] },
                )
            }
        } else {
            self
        }
    }

    /// The table after `jiffies` have passed.
    pub open spec fn later(self, jiffies: u64) -> Self {
        Works { now: (self.now + jiffies) as u64, ..self }
    }

    /// The table after the callback of item `w` was started.
    pub open spec fn begun(self, w: int) -> Self {
        Works {
            order: without(self.order, w),
            ..self.with_work(
                w,
                WorkState {
                    pending: None,
                    running: Some(self.works[w].pending->Some_0.queue),
                    ..self.works[w]
                },
            )
        }
    }

    /// The table after the callback of item `w` ended.
    pub open spec fn ended(self, w: int) -> Self {
        self.with_work(w, WorkState { running: None, ..self.works[w] })
    }

    /// The table after item `w` was cancelled: it is not pending any more, and
    /// while its callback is being run, it cannot be queued until it is cancelled
    /// again after that has ended.
    pub open spec fn cancelled(self, w: int) -> Self {
        Works {
            order: without(self.order, w),
            ..self.with_work(
                w,
                WorkState { pending: None, canceling: self.running(w), ..self.works[w] },
            )
        }
    }
}

/// Taking an item out of an order leaves the others as they were.
proof fn lemma_without(order: Seq<usize>, x: usize)
    requires
        order.no_duplicates(),
    ensures
        without(order, x as int).no_duplicates(),
        forall|y: usize| #[trigger]
            without(order, x as int).contains(y) <==> order.contains(y) && y != x,
        forall|u: int, w: int| #[trigger]
            comes_before(without(order, x as int), u, w) <==> comes_before(order, u, w) && u != x
                && w != x,
        forall|i: int, j: int|
            0 <= i < j < without(order, x as int).len() ==> comes_before(
                order,
                #[trigger] without(order, x as int)[i] as int,
                #[trigger] without(order, x as int)[j] as int,
            ),
{
    let post = without(order, x as int);
    if order.contains(x) {
        let k = order.index_of(x);
        assert(0 <= k < order.len() && order[k] == x);
        assert forall|i: int| 0 <= i < post.len() implies #[trigger] post[i] == (if i < k {
            order[i]
        } else {
            order[i + 1]
        }) by {}
        assert forall|y: usize| #[trigger]
            post.contains(y) <==> order.contains(y) && y != x by {
            if order.contains(y) && y != x {
                let i = order.index_of(y);
                assert(order[i] == y);
                if i < k {
                    assert(post[i] == y);
                } else {
                    assert(post[i - 1] == y);
                }
            }
        }
        assert forall|u: int, w: int| #[trigger]
            comes_before(post, u, w) <==> comes_before(order, u, w) && u != x && w != x by {
            if comes_before(post, u, w) {
                let (i, j) = choose|i: int, j: int|
                    0 <= i < j < post.len() && #[trigger] post[i] == u && #[trigger] post[j] == w;
                let i2 = if i < k {
                    i
                } else {
                    i + 1
                };
                let j2 = if j < k {
                    j
                } else {
                    j + 1
                };
                assert(order[i2] == u && order[j2] == w);
            }
            if comes_before(order, u, w) && u != x && w != x {
                let (i, j) = choose|i: int, j: int|
                    0 <= i < j < order.len() && #[trigger] order[i] == u && #[trigger] order[j] == w;
                let i2 = if i < k {
                    i
                } else {
                    i - 1
                };
                let j2 = if j < k {
                    j
                } else {
                    j - 1
                };
                assert(post[i2] == u && post[j2] == w);
            }
        }
    } else {
        assert forall|u: int, w: int| #[trigger]
            comes_before(post, u, w) implies u != x && w != x by {
            let (i, j) = choose|i: int, j: int|
                0 <= i < j < post.len() && #[trigger] post[i] == u && #[trigger] post[j] == w;
            assert(order.contains(order[i]) && order.contains(order[j]));
        }
    }
    assert forall|i: int, j: int| 0 <= i < j < post.len() implies comes_before(
        order,
        #[trigger] post[i] as int,
        #[trigger] post[j] as int,
    ) by {
        assert(comes_before(post, post[i] as int, post[j] as int));
    }
}

impl Works {
    /// What a change to item `w` has to heed to keep the table in order, if `order` is
    /// what the order of the pending items becomes.
    proof fn lemma_with_work_wf(self, w: int, state: WorkState, order: Seq<usize>)
        requires
            self.wf(),
            0 <= w < self.works.len(),
            state.pending matches Some(request) ==> request.queue < self.queues.len()
                && state.since <= self.now,
            state.canceling ==> state.pending is None,
            ({
                ||| state.running is None
                ||| state.running == self.works[w].running
                ||| state.running matches Some(q) && q < self.queues.len() && (
                self.queues[q as int] ==> !self.busy(q as int))
            }),
            ({
                ||| state.pending is None && order == without(self.order, w)
                ||| state.pending is Some && !self.pending(w) && state.since == self.now && order
                    == self.order.push(w as usize)
                ||| state.pending == self.works[w].pending && state.since == self.works[w].since
                    && order == self.order
            }),
        ensures
            (Works { order, ..self.with_work(w, state) }).wf(),
    {
        let post = Works { order, ..self.with_work(w, state) };
        assert forall|x: int| 0 <= x < post.works.len() && x != w implies #[trigger] post.works[x]
            == self.works[x] by {}
        assert forall|v: int, x: int|
            0 <= v < x < post.works.len() && (#[trigger] post.works[v]).running is Some && (
            #[trigger] post.works[x]).running
                == post.works[v].running implies !post.queues[post.works[v].running->Some_0 as int] by {
            let q = post.works[v].running->Some_0;
            if v == w {
                assert(self.works[x].running == Some(q));
            } else if x == w {
                assert(self.works[v].running == Some(q));
            } else {
                assert(self.works[v].running == self.works[x].running);
            }
        }
        lemma_without(self.order, w as usize);
        if state.pending is None && order == without(self.order, w) {
            self.lemma_order_without(w, post);
        } else if state.pending is Some && !self.pending(w) {
            self.lemma_order_with(w, post);
        }
    }

    /// The order of the pending items after item `w` was taken out.
    proof fn lemma_order_without(self, w: int, post: Self)
        requires
            self.wf(),
            0 <= w < self.works.len(),
            post.works.len() == self.works.len(),
            forall|x: int|
                0 <= x < post.works.len() && x != w ==> #[trigger] post.works[x] == self.works[x],
            post.works[w].pending is None,
            post.order == without(self.order, w),
        ensures
            forall|i: int|
                0 <= i < post.order.len() ==> (#[trigger] post.order[i]) < post.works.len()
                    && post.pending(post.order[i] as int),
            forall|x: usize|
                x < post.works.len() && post.pending(x as int) ==> #[trigger] post.order.contains(x),
            post.order.no_duplicates(),
            forall|i: int, j: int|
                0 <= i < j < post.order.len() ==> post.works[#[trigger] post.order[i] as int].since
                    <= post.works[#[trigger] post.order[j] as int].since,
    {
        lemma_without(self.order, w as usize);
        assert forall|i: int| 0 <= i < post.order.len() implies (#[trigger] post.order[i])
            < post.works.len() && post.pending(post.order[i] as int) by {
            let x = post.order[i];
            assert(post.order.contains(x));
            let k = self.order.index_of(x);
            assert(self.order[k] == x);
        }
        assert forall|i: int, j: int|
            0 <= i < j < post.order.len() implies post.works[#[trigger] post.order[i] as int].since
            <= post.works[#[trigger] post.order[j] as int].since by {
            let u = post.order[i];
            let v = post.order[j];
            assert(comes_before(self.order, u as int, v as int));
            assert(post.order.contains(u) && post.order.contains(v));
            let (k, l) = choose|k: int, l: int|
                0 <= k < l < self.order.len() && #[trigger] self.order[k] == u
                    && #[trigger] self.order[l] == v;
            assert(self.works[self.order[k] as int].since <= self.works[self.order[l] as int].since);
        }
    }

    /// The order of the pending items after item `w` was queued.
    proof fn lemma_order_with(self, w: int, post: Self)
        requires
            self.wf(),
            0 <= w < self.works.len(),
            post.works.len() == self.works.len(),
            forall|x: int|
                0 <= x < post.works.len() && x != w ==> #[trigger] post.works[x] == self.works[x],
            !self.pending(w),
            post.works[w].pending is Some,
            post.works[w].since == self.now,
            post.order == self.order.push(w as usize),
        ensures
            forall|i: int|
                0 <= i < post.order.len() ==> (#[trigger] post.order[i]) < post.works.len()
                    && post.pending(post.order[i] as int),
            forall|x: usize|
                x < post.works.len() && post.pending(x as int) ==> #[trigger] post.order.contains(x),
            post.order.no_duplicates(),
            forall|i: int, j: int|
                0 <= i < j < post.order.len() ==> post.works[#[trigger] post.order[i] as int].since
                    <= post.works[#[trigger] post.order[j] as int].since,
    {
        let n = self.order.len() as int;
        assert forall|i: int| 0 <= i < n implies #[trigger] post.order[i] == self.order[i]
            && self.order[i] != w by {
            assert(self.pending(self.order[i] as int));
        }
        assert forall|x: usize|
            x < post.works.len() && post.pending(x as int) implies #[trigger] post.order.contains(
            x,
        ) by {
            if x == w {
                assert(post.order[n] == x);
            } else {
                assert(self.order.contains(x));
                let k = self.order.index_of(x);
                assert(post.order[k] == x);
            }
        }
        assert forall|i: int, j: int|
            0 <= i < j < post.order.len() implies post.works[#[trigger] post.order[i] as int].since
            <= post.works[#[trigger] post.order[j] as int].since by {
            assert(post.order[i] == self.order[i]);
            if j < n {
                assert(post.order[j] == self.order[j]);
            }
        }
    }
}

/// How far a cancellation has come.
#[derive(Clone, Copy, Debug, PartialEq, Eq, Structural)]
pub enum Cancel {
    /// The item is neither pending nor running.
    Done,
    /// The callback is being run: the cancellation is to be repeated after it
    /// has ended.
    Wait,
}

/// The state of all work items.
pub struct WorkTable {
    works: Vec<WorkState>,
    queues: Vec<bool>,
    devres: Vec<Registration>,
    order: Vec<usize>,
    now: u64,
}

impl View for WorkTable {
    type V = Works;

    closed spec fn view(&self) -> Works {
        Works {
            works: self.works@,
            queues: self.queues@,
            devres: self.devres@,
            order: self.order@,
            now: self.now,
        }
    }
}

impl WorkTable {
    /// A table without items and queues.
    pub fn new() -> (res: Self)
        ensures
            res@.wf(),
            res@.works.len() == 0,
            res@.queues.len() == 0,
            res@.devres.len() == 0,
            res@.order.len() == 0,
            res@.now == 0,
    {
        WorkTable {
            works: Vec::new(),
            queues: Vec::new(),
            devres: Vec::new(),
            order: Vec::new(),
            now: 0,
        }
    }

    /// Adds an idle work item.
    fn add_work(&mut self) -> (id: usize)
        requires
            old(self)@.wf(),
        ensures
            final(self)@.wf(),
            id == old(self)@.works.len(),
            final(self)@ == old(self)@.with_idle_work(),
    {
        self.works.push(WorkState { pending: None, since: 0, running: None, canceling: false });
        let id: usize = self.works.len() - 1;
        proof {
            let before = old(self)@;
            assert(self@ == before.with_idle_work());
            assert forall|i: int| 0 <= i < self@.order.len() implies (#[trigger] self@.order[i])
                < self@.works.len() && self@.pending(self@.order[i] as int) by {
                assert(before.pending(before.order[i] as int));
            }
            assert forall|w: usize|
                w < self@.works.len() && self@.pending(
                    w as int,
                ) implies #[trigger] self@.order.contains(w) by {
                assert(before.pending(w as int));
            }
        }
        id
    }

    /// Adds a queue on which nothing is pending.
    fn add_queue(&mut self, ordered: bool) -> (id: usize)
        requires
            old(self)@.wf(),
        ensures
            final(self)@.wf(),
            id == old(self)@.queues.len(),
            final(self)@ == (Works { queues: old(self)@.queues.push(ordered), ..old(self)@ }),
            final(self)@.drained(id as int),
    {
        let id: usize = self.queues.len();
        self.queues.push(ordered);
        id
    }

    /// Adds a registration.
    fn add_devres(&mut self, dev: Device, work: usize)
        requires
            old(self)@.wf(),
            work < old(self)@.works.len(),
        ensures
            final(self)@.wf(),
            final(self)@ == old(self)@.registered(dev, work),
    {
        self.devres.push(Registration { dev, work });
        assert(self@ == old(self)@.registered(dev, work));
    }

    /// Queues item `work`.
    ///
    /// Returns `false`, and changes nothing, if the item is already pending or
    /// is being cancelled.
    fn queue_work(&mut self, work: usize, request: Request) -> (res: bool)
        requires
            old(self)@.wf(),
            old(self)@.knows(work, request),
        ensures
            final(self)@.wf(),
            res == old(self)@.can_queue(work as int),
            final(self)@ == old(self)@.queued(work as int, request),
    {
        let state = self.works[work];
        if state.pending.is_some() || state.canceling {
            return false;
        }
        proof {
            self@.lemma_with_work_wf(
                work as int,
                WorkState { pending: Some(request), since: self.now, ..state },
                self@.order.push(work),
            );
        }
        self.order.push(work);
        self.works[work] = WorkState {
            pending: Some(request),
            since: self.now,
            running: state.running,
            canceling: state.canceling,
        };
        true
    }

    /// Reports that `jiffies` have passed.
    pub fn advance(&mut self, jiffies: u64)
        requires
            old(self)@.wf(),
            old(self)@.now + jiffies <= u64::MAX,
        ensures
            final(self)@.wf(),
            final(self)@ == old(self)@.later(jiffies),
    {
        self.now = self.now + jiffies;
        assert(self@ == old(self)@.later(jiffies));
    }

    /// The time, in jiffies since the table was made.
    pub fn now(&self) -> (res: u64)
        ensures
            res == self@.now,
    {
        self.now
    }

    /// Reports that the callback of item `work` is about to start.
    ///
    /// Returns whether it may. If it may not, nothing changes and the callback
    /// is not to be called.
    pub fn begin(&mut self, work: usize) -> (res: bool)
        requires
            old(self)@.wf(),
            work < old(self)@.works.len(),
        ensures
            final(self)@.wf(),
            res == old(self)@.can_begin(work as int),
            res ==> final(self)@ == old(self)@.begun(work as int),
            !res ==> final(self)@ == old(self)@,
    {
        let state = self.works[work];
        if state.running.is_some() {
            return false;
        }
        match state.pending {
            None => false,
            Some(request) => {
                if let Some(delay) = request.delay {
                    if self.now - state.since < delay {
                        return false;
                    }
                }
                if self.queues[request.queue] && (self.is_busy(request.queue) || !self.is_first(
                    work,
                )) {
                    return false;
                }
                proof {
                    self@.lemma_with_work_wf(
                        work as int,
                        WorkState { pending: None, running: Some(request.queue), ..state },
                        without(self@.order, work as int),
                    );
                }
                self.unlist(work);
                self.works[work] = WorkState {
                    pending: None,
                    since: state.since,
                    running: Some(request.queue),
                    canceling: state.canceling,
                };
                true
            },
        }
    }

    /// Where item `work`, which is pending, stands in the order.
    fn position(&self, work: usize) -> (res: usize)
        requires
            self@.wf(),
            work < self@.works.len(),
            self@.pending(work as int),
        ensures
            res < self@.order.len(),
            self@.order[res as int] == work,
    {
        assert(self@.order.contains(work));
        let len: usize = self.order.len();
        let mut i: usize = 0;
        while self.order[i] != work
            invariant
                i < len,
                len == self.order@.len(),
                self.order@.contains(work),
                forall|j: int| 0 <= j < i ==> self.order@[j] != work,
            decreases len - i,
        {
            proof {
                let k = self.order@.index_of(work);
                assert(self.order@[k] == work);
            }
            i += 1;
        }
        i
    }

    /// Takes item `work` out of the order.
    fn unlist(&mut self, work: usize)
        requires
            old(self)@.order.no_duplicates(),
        ensures
            final(self)@ == (Works { order: without(old(self)@.order, work as int), ..old(self)@ }),
    {
        let mut i: usize = 0;
        while i < self.order.len()
            invariant
                i <= self.order@.len(),
                self.order@.no_duplicates(),
                self@ == old(self)@,
                forall|j: int| 0 <= j < i ==> self.order@[j] != work,
            decreases self.order@.len() - i,
        {
            if self.order[i] == work {
                assert(self.order@.contains(work));
                assert(self.order@.index_of(work) == i);
                let _ = self.order.remove(i);
                return ;
            }
            i += 1;
        }
        assert(!self.order@.contains(work));
    }

    /// Whether no item got to the queue of item `work`, which is pending, before it.
    fn is_first(&self, work: usize) -> (res: bool)
        requires
            self@.wf(),
            work < self@.works.len(),
            self@.pending(work as int),
        ensures
            res == self@.first(work as int),
    {
        let place: usize = self.position(work);
        let mut u: usize = 0;
        while u < self.works.len()
            invariant
                self@.wf(),
                u <= self@.works.len(),
                work < self@.works.len(),
                self@.pending(work as int),
                place < self@.order.len(),
                self@.order[place as int] == work,
                forall|v: int| 0 <= v < u ==> !#[trigger] self@.ahead(v, work as int),
            decreases self@.works.len() - u,
        {
            if self.is_ahead(u, work, place) {
                assert(self@.has(u as int));
                return false;
            }
            u += 1;
        }
        true
    }

    /// Whether item `u` has got to the queue of item `work` before it; `place` is
    /// where the latter stands in the order.
    fn is_ahead(&self, u: usize, work: usize, place: usize) -> (res: bool)
        requires
            self@.wf(),
            u < self@.works.len(),
            work < self@.works.len(),
            self@.pending(work as int),
            place < self@.order.len(),
            self@.order[place as int] == work,
        ensures
            res == self@.ahead(u as int, work as int),
    {
        let mine = self.works[work];
        let other = self.works[u];
        match (other.pending, mine.pending) {
            (Some(theirs), Some(ours)) => {
                if u == work || theirs.queue != ours.queue {
                    return false;
                }
                let arrived: u128 = other.since as u128 + theirs.jiffies() as u128;
                if arrived > self.now as u128 {
                    return false;
                }
                let before = self.position(u) < place;
                proof {
                    assert(before ==> comes_before(self@.order, u as int, work as int));
                    if comes_before(self@.order, u as int, work as int) {
                        let (i, j) = choose|i: int, j: int|
                            0 <= i < j < self@.order.len() && #[trigger] self@.order[i] == u
                                && #[trigger] self@.order[j] == work;
                        assert(j == place);
                    }
                }
                let arrives: u128 = mine.since as u128 + ours.jiffies() as u128;
                arrived < arrives || (theirs.jiffies() == 0 && ours.jiffies() == 0 && before)
            },
            _ => false,
        }
    }

    /// Whether queue `queue` runs an item.
    fn is_busy(&self, queue: usize) -> (res: bool)
        ensures
            res == self@.busy(queue as int),
    {
        let mut w: usize = 0;
        while w < self.works.len()
            invariant
                w <= self@.works.len(),
                forall|v: int| 0 <= v < w ==> (#[trigger] self@.works[v]).running != Some(queue),
            decreases self@.works.len() - w,
        {
            if self.works[w].running == Some(queue) {
                return true;
            }
            w += 1;
        }
        false
    }

    /// Reports that the callback of item `work` has ended.
    pub fn end(&mut self, work: usize)
        requires
            old(self)@.wf(),
            work < old(self)@.works.len(),
            old(self)@.running(work as int),
        ensures
            final(self)@.wf(),
            final(self)@ == old(self)@.ended(work as int),
    {
        let state = self.works[work];
        proof {
            self@.lemma_with_work_wf(
                work as int,
                WorkState { running: None, ..state },
                self@.order,
            );
        }
        self.works[work] = WorkState {
            pending: state.pending,
            since: state.since,
            running: None,
            canceling: state.canceling,
        };
    }

    /// Cancels item `work`: it is taken off its queue, and if its callback is
    /// being run, that has to end first.
    fn cancel_work(&mut self, work: usize) -> (res: Cancel)
        requires
            old(self)@.wf(),
            work < old(self)@.works.len(),
        ensures
            final(self)@.wf(),
            final(self)@ == old(self)@.cancelled(work as int),
            res is Wait <==> old(self)@.running(work as int),
    {
        let state = self.works[work];
        proof {
            self@.lemma_with_work_wf(
                work as int,
                WorkState { pending: None, canceling: state.running is Some, ..state },
                without(self@.order, work as int),
            );
        }
        self.unlist(work);
        self.works[work] = WorkState {
            pending: None,
            since: state.since,
            running: state.running,
            canceling: state.running.is_some(),
        };
        if state.running.is_some() {
            Cancel::Wait
        } else {
            Cancel::Done
        }
    }

    /// Detaches `dev`: every item that was registered with it is cancelled, and
    /// the registrations are gone.
    ///
    /// Says to wait if the callback of one of them is being run: its registration
    /// stays, and `dev` is to be detached again after the callback has ended.
    pub fn detach(&mut self, dev: &Device) -> (res: Cancel)
        requires
            old(self)@.wf(),
        ensures
            final(self)@.wf(),
            final(self)@.queues == old(self)@.queues,
            final(self)@.now == old(self)@.now,
            final(self)@.works.len() == old(self)@.works.len(),
            forall|w: int|
                0 <= w < old(self)@.works.len() ==> #[trigger] final(self)@.works[w] == (
                if old(self)@.managed_by(w, *dev) {
                    old(self)@.cancelled(w).works[w]
                } else {
                    old(self)@.works[w]
                }),
            forall|u: int, w: int| #[trigger]
                comes_before(final(self)@.order, u, w) <==> comes_before(old(self)@.order, u, w)
                    && !old(self)@.managed_by(u, *dev) && !old(self)@.managed_by(w, *dev),
            final(self)@.devres == old(self)@.devres.filter(
                |r: Registration| r.dev != *dev || old(self)@.running(r.work as int),
            ),
            res is Wait <==> exists|w: int|
                0 <= w < old(self)@.works.len() && #[trigger] old(self)@.managed_by(w, *dev)
                    && old(self)@.running(w),
            res is Done ==> forall|w: int|
                0 <= w < old(self)@.works.len() && #[trigger] old(self)@.managed_by(w, *dev)
                    ==> !final(self)@.pending(w) && !final(self)@.running(w),
    {
        let ghost before = self@;
        let ghost stays = |r: Registration| r.dev != *dev || before.running(r.work as int);
        let mut kept: Vec<Registration> = Vec::new();
        let mut res = Cancel::Done;
        let mut i: usize = 0;
        assert(before.devres.take(0) =~= Seq::empty());
        while i < self.devres.len()
            invariant
                i <= before.devres.len(),
                before.wf(),
                self@.wf(),
                self@.devres == before.devres,
                self@.queues == before.queues,
                self@.now == before.now,
                self@.works.len() == before.works.len(),
                stays == |r: Registration| r.dev != *dev || before.running(r.work as int),
                kept@ == before.devres.take(i as int).filter(stays),
                forall|w: int|
                    0 <= w < before.works.len() ==> #[trigger] self@.works[w] == (
                    if before.managed_among(i as int, w, *dev) {
                        before.cancelled(w).works[w]
                    } else {
                        before.works[w]
                    }),
                forall|u: int, w: int| #[trigger]
                    comes_before(self@.order, u, w) <==> comes_before(before.order, u, w)
                        && !before.managed_among(i as int, u, *dev) && !before.managed_among(
                        i as int,
                        w,
                        *dev,
                    ),
                res is Wait <==> exists|w: int|
                    0 <= w < before.works.len() && #[trigger] before.managed_among(
                        i as int,
                        w,
                        *dev,
                    ) && before.running(w),
            decreases before.devres.len() - i,
        {
            let registration = self.devres[i];
            let ghost x = registration.work as int;
            let ghost mid = self@;
            proof {
                let prefix = before.devres.take(i + 1);
                assert(prefix.drop_last() =~= before.devres.take(i as int));
                reveal(Seq::filter);
                assert forall|w: int| #[trigger]
                    before.managed_among(i + 1, w, *dev) == (before.managed_among(
                        i as int,
                        w,
                        *dev,
                    ) || (registration.dev == *dev && x == w)) by {
                    if registration.dev == *dev && x == w {
                        assert(before.devres[i as int].work == w);
                    }
                }
            }
            if registration.dev == *dev {
                proof {
                    lemma_without(self@.order, registration.work);
                }
                let cancel = self.cancel_work(registration.work);
                assert(before.managed_among(i + 1, x, *dev));
                assert(self@.works[x] == before.cancelled(x).works[x]);
                assert(forall|w: int|
                    0 <= w < before.works.len() && w != x ==> #[trigger] self@.works[w]
                        == mid.works[w]);
                match cancel {
                    Cancel::Wait => {
                        res = Cancel::Wait;
                        kept.push(registration);
                    },
                    Cancel::Done => (),
                }
            } else {
                kept.push(registration);
            }
            proof {
                assert forall|w: int|
                    before.managed_among(i as int, w, *dev) implies #[trigger] before.managed_among(
                    i + 1,
                    w,
                    *dev,
                ) by {}
                if res is Wait {
                    if registration.dev == *dev && before.running(x) {
                        assert(before.managed_among(i + 1, x, *dev) && before.running(x));
                    } else {
                        let w = choose|w: int|
                            0 <= w < before.works.len() && #[trigger] before.managed_among(
                                i as int,
                                w,
                                *dev,
                            ) && before.running(w);
                        assert(before.managed_among(i + 1, w, *dev) && before.running(w));
                    }
                }
            }
            i += 1;
        }
        assert(before.devres.take(i as int) =~= before.devres);
        self.devres = kept;
        proof {
            lemma_filtered_known(before.devres, stays, before.works.len() as int);
            assert forall|w: int| #[trigger] before.managed_by(w, *dev) implies before.managed_among(
                i as int,
                w,
                *dev,
            ) by {}
            if res is Wait {
                let w = choose|w: int|
                    0 <= w < before.works.len() && #[trigger] before.managed_among(
                        i as int,
                        w,
                        *dev,
                    ) && before.running(w);
                assert(before.managed_by(w, *dev) && before.running(w));
            }
        }
        res
    }

    /// Whether item `work` is pending.
    pub fn is_pending(&self, work: usize) -> (res: bool)
        requires
            work < self@.works.len(),
        ensures
            res == self@.pending(work as int),
    {
        self.works[work].pending.is_some()
    }

    /// Whether the callback of item `work` is being run.
    pub fn is_running(&self, work: usize) -> (res: bool)
        requires
            work < self@.works.len(),
        ensures
            res == self@.running(work as int),
    {
        self.works[work].running.is_some()
    }

    /// An item that is pending on queue `queue` or being run from it; none where
    /// the queue is drained.
    fn find_user(&self, queue: usize) -> (res: Option<usize>)
        ensures
            res is None <==> self@.drained(queue as int),
            res matches Some(w) ==> w < self@.works.len() && self@.uses_queue(
                w as int,
                queue as int,
            ),
    {
        let mut w: usize = 0;
        while w < self.works.len()
            invariant
                w <= self@.works.len(),
                forall|v: int| 0 <= v < w ==> !#[trigger] self@.uses_queue(v, queue as int),
            decreases self@.works.len() - w,
        {
            let state = self.works[w];
            let pending = match state.pending {
                Some(request) => request.queue == queue,
                None => false,
            };
            if pending || state.running == Some(queue) {
                assert(self@.uses_queue(w as int, queue as int));
                return Some(w);
            }
            w += 1;
        }
        None
    }

    /// What was asked for when item `work` was queued, if it is pending.
    pub fn request(&self, work: usize) -> (res: Option<Request>)
        requires
            work < self@.works.len(),
        ensures
            res == self@.works[work as int].pending,
    {
        self.works[work].pending
    }
}

/// Something that a queue can run.
pub trait RawWorkItem {
    /// The number of the work item.
    spec fn work_id(&self) -> usize;

    /// The number of the work item.
    fn raw_get(&self) -> (res: usize)
        ensures
            res == self.work_id(),
    ;
}

/// A queue that runs work items.
pub struct Queue {
    id: usize,
    name: &'static str,
}

impl Queue {
    /// The number of the queue.
    pub closed spec fn id(self) -> usize {
        self.id
    }

    /// The name of the queue.
    pub closed spec fn name(self) -> &'static str {
        self.name
    }

    /// Whether this queue stands in `works`.
    pub open spec fn stands_in(self, works: Works) -> bool {
        self.id() < works.queues.len()
    }

    /// A queue that runs any number of items at a time, if `ordered` is
    /// `false`, or one at a time, if it is `true`.
    pub fn new(table: &mut WorkTable, name: &'static str, ordered: bool) -> (res: Self)
        requires
            old(table)@.wf(),
        ensures
            final(table)@.wf(),
            res.id() == old(table)@.queues.len(),
            res.name() == name,
            final(table)@ == (Works { queues: old(table)@.queues.push(ordered), ..old(table)@ }),
            final(table)@.drained(res.id() as int),
    {
        Queue { id: table.add_queue(ordered), name }
    }

    /// The number of the queue.
    pub fn number(&self) -> (res: usize)
        ensures
            res == self.id(),
    {
        self.id
    }

    /// Whether this queue stands in `table`.
    pub fn is_in(&self, table: &WorkTable) -> (res: bool)
        ensures
            res == self.stands_in(table@),
    {
        self.id < table.queues.len()
    }

    /// Enqueues a work item on this queue.
    ///
    /// Returns `false` if the work item is already pending.
    pub fn enqueue_scoped<W: RawWorkItem>(&self, table: &mut WorkTable, work: &W) -> (res: bool)
        requires
            old(table)@.wf(),
            work.work_id() < old(table)@.works.len(),
            self.stands_in(old(table)@),
        ensures
            final(table)@.wf(),
            res == old(table)@.can_queue(work.work_id() as int),
            final(table)@ == old(table)@.queued(
                work.work_id() as int,
                Request { queue: self.id(), delay: None },
            ),
    {
        table.queue_work(work.raw_get(), Request { queue: self.id, delay: None })
    }
}

impl Works {
    /// An item that was queued to be run at once is due at once, and one that was
    /// queued with a delay is due when the delay has passed.
    pub proof fn law_work_becomes_due(self, w: int, request: Request, jiffies: u64)
        requires
            0 <= w < self.works.len(),
            self.can_queue(w),
            self.now + jiffies <= u64::MAX,
        ensures
            self.queued(w, request).later(jiffies).due(w) <==> match request.delay {
                None => true,
                Some(delay) => delay <= jiffies,
            },
    {
    }

    /// A work item that was cancelled is not pending. While its callback is
    /// still being run, it cannot be queued again, not even by the callback
    /// itself; once that has ended, the cancellation is complete and the item is
    /// neither pending nor running.
    pub proof fn law_cancelled_work_is_quiet(self, w: int, request: Request)
        requires
            self.wf(),
            0 <= w < self.works.len(),
        ensures
            self.cancelled(w).wf(),
            !self.cancelled(w).pending(w),
            !self.cancelled(w).can_begin(w),
            self.running(w) ==> self.cancelled(w).queued(w, request) == self.cancelled(w),
            !self.running(w) ==> !self.cancelled(w).running(w),
            self.running(w) ==> {
                let after = self.cancelled(w).ended(w).cancelled(w);
                &&& !after.pending(w)
                &&& !after.running(w)
                &&& !after.works[w].canceling
            },
    {
        let state = self.works[w];
        self.lemma_with_work_wf(
            w,
            WorkState { pending: None, canceling: self.running(w), ..state },
            without(self.order, w),
        );
    }

    /// An item that is pending cannot be queued a second time: what was asked
    /// for first stands.
    pub proof fn law_pending_work_is_queued_once(self, w: int, first: Request, second: Request)
        requires
            0 <= w < self.works.len(),
            self.can_queue(w),
        ensures
            self.queued(w, first).pending(w),
            self.queued(w, first).works[w].pending == Some(first),
            self.queued(w, first).queued(w, second) == self.queued(w, first),
    {
    }

    /// An item that was registered with a device is among those that are cancelled
    /// when the device is detached; no other item becomes one of them.
    pub proof fn law_registered_work_is_managed(self, dev: Device, work: usize, w: int, other: Device)
        ensures
            self.registered(dev, work).managed_by(work as int, dev),
            w != work || other != dev ==> (self.registered(dev, work).managed_by(w, other)
                <==> self.managed_by(w, other)),
    {
        let post = self.registered(dev, work);
        let n = self.devres.len() as int;
        assert(post.devres[n] == (Registration { dev, work }));
        if self.managed_by(w, other) {
            let i = choose|i: int|
                0 <= i < n && (#[trigger] self.devres[i]).dev == other && self.devres[i].work == w;
            assert(post.devres[i] == self.devres[i]);
        }
        if post.managed_by(w, other) && (w != work || other != dev) {
            let i = choose|i: int|
                0 <= i < n + 1 && (#[trigger] post.devres[i]).dev == other && post.devres[i].work
                    == w;
            assert(post.devres[i] == self.devres[i]);
        }
    }

    /// A callback that is being run may queue its own item again. The item is pending
    /// after the callback has ended, and may then start again: when it is due on a queue
    /// that is not ordered, and on an ordered one if no other item uses that.
    pub proof fn law_work_may_requeue_itself(self, w: int, request: Request)
        requires
            self.wf(),
            0 <= w < self.works.len(),
            self.can_begin(w),
            request.queue < self.queues.len(),
        ensures
            self.begun(w).can_queue(w),
            !self.begun(w).queued(w, request).can_begin(w),
            self.begun(w).queued(w, request).ended(w).pending(w),
            !self.begun(w).queued(w, request).ended(w).running(w),
            self.begun(w).queued(w, request).ended(w).due(w) <==> request.at_once(),
            request.at_once() && (self.queues[request.queue as int] ==> forall|u: int|
                self.has(u) && u != w ==> !#[trigger] self.uses_queue(u, request.queue as int))
                ==> self.begun(w).queued(w, request).ended(w).can_begin(w),
    {
        let post = self.begun(w).queued(w, request).ended(w);
        let q = request.queue as int;
        if request.at_once() && self.queues[q] && (forall|u: int|
            self.has(u) && u != w ==> !#[trigger] self.uses_queue(u, q)) {
            assert forall|u: int| self.has(u) && u != w implies post.works[u] == self.works[u]
                && !#[trigger] post.uses_queue(u, q) by {
                assert(!self.uses_queue(u, q));
            }
            assert forall|u: int| post.has(u) implies !#[trigger] post.ahead(u, w) by {
                assert(u != w ==> !post.uses_queue(u, q));
            }
            assert(!post.busy(q)) by {
                if post.busy(q) {
                    let u = choose|u: int|
                        0 <= u < post.works.len() && (#[trigger] post.works[u]).running == Some(
                            request.queue,
                        );
                    assert(u != w ==> !post.uses_queue(u, q));
                }
            }
        }
    }

    /// An ordered queue runs one item at a time.
    pub proof fn law_ordered_queue_runs_one_item(self, q: usize, v: int, w: int)
        requires
            self.wf(),
            q < self.queues.len(),
            self.queues[q as int],
            0 <= v < self.works.len(),
            0 <= w < self.works.len(),
            self.works[v].running == Some(q),
            self.works[w].running == Some(q),
        ensures
            v == w,
    {
    }

    /// Where an item is due on a queue, there is one there that is due and that nothing
    /// is ahead of. Unless its callback is being run already, or another one from that
    /// queue, it may start.
    pub proof fn law_queue_has_a_first_item(self, q: usize, w: int) -> (first: int)
        requires
            self.wf(),
            self.has(w),
            self.due(w),
            self.works[w].pending->Some_0.queue == q,
        ensures
            self.has(first),
            self.due(first),
            self.works[first].pending->Some_0.queue == q,
            self.first(first),
            !self.busy(q as int) && !self.running(first) ==> self.can_begin(first),
        decreases self.arrival(w), self.order.index_of(w as usize),
    {
        if self.first(w) {
            w
        } else {
            let u = choose|u: int| self.has(u) && #[trigger] self.ahead(u, w);
            assert(self.order.contains(u as usize) && self.order.contains(w as usize));
            assert(self.order[self.order.index_of(u as usize)] == u);
            assert(self.order[self.order.index_of(w as usize)] == w);
            if self.arrival(u) >= self.arrival(w) {
                let (i, j) = choose|i: int, j: int|
                    0 <= i < j < self.order.len() && #[trigger] self.order[i] == u
                        && #[trigger] self.order[j] == w;
                assert(self.works[self.order[i] as int].since
                    <= self.works[self.order[j] as int].since);
            }
            self.law_queue_has_a_first_item(q, u)
        }
    }

    /// Nothing starts on a drained queue.
    pub proof fn law_drained_queue_starts_nothing(self, q: int, w: int)
        requires
            self.drained(q),
            0 <= w < self.works.len(),
            self.can_begin(w),
        ensures
            self.works[w].pending->Some_0.queue != q,
    {
        assert(!self.uses_queue(w, q));
    }
}

/// What is left of the registrations is of known items too.
proof fn lemma_filtered_known(
    devres: Seq<Registration>,
    keep: spec_fn(Registration) -> bool,
    n: int,
)
    requires
        forall|i: int| 0 <= i < devres.len() ==> (#[trigger] devres[i]).work < n,
    ensures
        forall|i: int|
            0 <= i < devres.filter(keep).len() ==> (#[trigger] devres.filter(keep)[i]).work < n,
    decreases devres.len(),
{
    reveal(Seq::filter);
    if devres.len() > 0 {
        let front = devres.drop_last();
        assert forall|i: int| 0 <= i < front.len() implies (#[trigger] front[i]).work < n by {
            assert(devres[i].work < n);
        }
        lemma_filtered_known(front, keep, n);
        assert(devres[devres.len() - 1].work < n);
        assert forall|i: int| 0 <= i < devres.filter(keep).len() implies (
        #[trigger] devres.filter(keep)[i]).work < n by {
            if i < front.filter(keep).len() {
                assert(front.filter(keep)[i].work < n);
            }
        }
    }
}

} // verus!
