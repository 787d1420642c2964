//! What queueing, starting, ending and cancelling do to work items, said of the items
//! one by one, and how they follow upon one another.

use super::{Cancel, Device, Queue, RawWorkItem, Registration, Request, WorkTable, Works};
use vstd::prelude::*;

verus! {

impl Works {
    /// An item can be queued exactly if it is neither pending nor being cancelled. It is
    /// then pending as it was asked for, since now, and last in the order; its callback
    /// goes on if it is being run. Otherwise nothing changes.
    pub proof fn law_queueing_makes_pending(self, w: int, request: Request)
        requires
            self.has(w),
            self.works.len() <= usize::MAX,
        ensures
            self.can_queue(w) <==> self.works[w].pending is None && !self.works[w].canceling,
            !self.can_queue(w) ==> self.queued(w, request) == self,
            self.can_queue(w) ==> {
                let post = self.queued(w, request);
                &&& post.works[w].pending == Some(request)
                &&& post.works[w].since == self.now
                &&& post.works[w].running == self.works[w].running
                &&& !post.works[w].canceling
                &&& post.order.len() == self.order.len() + 1
                &&& post.order.last() == w
                &&& post.order.drop_last() == self.order
            },
    {
        if self.can_queue(w) {
            assert(self.queued(w, request).order.drop_last() =~= self.order);
        }
    }

    /// Starting a callback takes the item off its queue and has it run from there. It is
    /// out of the order, in which the others stay as they were.
    pub proof fn law_starting_runs_what_was_pending(self, w: int, u: int, v: int)
        requires
            self.wf(),
            self.has(w),
            self.can_begin(w),
        ensures
            self.works[w].pending matches Some(request) && self.begun(w).works[w].running == Some(
                request.queue,
            ),
            self.begun(w).works[w].pending is None,
            self.begun(w).works[w].canceling == self.works[w].canceling,
            super::comes_before(self.begun(w).order, u, v) <==> super::comes_before(
                self.order,
                u,
                v,
            ) && u != w && v != w,
            !self.begun(w).order.contains(w as usize),
    {
        super::lemma_without(self.order, w as usize);
    }

    /// Ending a callback leaves the item pending if it was queued meanwhile, and being
    /// cancelled if it is.
    pub proof fn law_ending_keeps_what_is_pending(self, w: int)
        requires
            self.has(w),
        ensures
            self.ended(w).works[w].running is None,
            self.ended(w).works[w].pending == self.works[w].pending,
            self.ended(w).works[w].since == self.works[w].since,
            self.ended(w).works[w].canceling == self.works[w].canceling,
            self.ended(w).order == self.order,
    {
    }

    /// Cancelling takes back what is pending, lets a callback that is being run go on, and
    /// keeps the item from being queued exactly as long as that is so. It is out of the
    /// order, in which the others stay as they were.
    pub proof fn law_cancelling_takes_back(self, w: int, u: int, v: int)
        requires
            self.wf(),
            self.has(w),
        ensures
            self.cancelled(w).works[w].pending is None,
            self.cancelled(w).works[w].running == self.works[w].running,
            self.cancelled(w).works[w].canceling <==> self.works[w].running is Some,
            super::comes_before(self.cancelled(w).order, u, v) <==> super::comes_before(
                self.order,
                u,
                v,
            ) && u != w && v != w,
            !self.cancelled(w).order.contains(w as usize),
    {
        super::lemma_without(self.order, w as usize);
    }

    /// Whatever is done to one item, no other item changes, and neither do the queues,
    /// the registrations or the time.
    pub proof fn law_other_items_are_left_alone(self, w: int, request: Request, other: int)
        requires
            self.has(w),
            self.has(other),
            other != w,
        ensures
            self.queued(w, request).works[other] == self.works[other],
            self.begun(w).works[other] == self.works[other],
            self.ended(w).works[other] == self.works[other],
            self.cancelled(w).works[other] == self.works[other],
            self.queued(w, request).works.len() == self.works.len(),
            self.begun(w).works.len() == self.works.len(),
            self.ended(w).works.len() == self.works.len(),
            self.cancelled(w).works.len() == self.works.len(),
    {
    }

    /// Queueing, starting, ending and cancelling leave the queues, the registrations and
    /// the time alone.
    pub proof fn law_items_do_not_touch_the_rest(self, w: int, request: Request)
        ensures
            self.queued(w, request).queues == self.queues,
            self.begun(w).queues == self.queues,
            self.ended(w).queues == self.queues,
            self.cancelled(w).queues == self.queues,
            self.queued(w, request).devres == self.devres,
            self.begun(w).devres == self.devres,
            self.ended(w).devres == self.devres,
            self.cancelled(w).devres == self.devres,
            self.queued(w, request).now == self.now,
            self.begun(w).now == self.now,
            self.ended(w).now == self.now,
            self.cancelled(w).now == self.now,
    {
    }

    /// Time goes by as it is reported and changes nothing else; two spans add up.
    pub proof fn law_time_goes_by(self, a: u64, b: u64)
        requires
            self.now + a + b <= u64::MAX,
        ensures
            self.later(a).now == self.now + a,
            self.later(a).works == self.works,
            self.later(a).queues == self.queues,
            self.later(a).devres == self.devres,
            self.later(a).order == self.order,
            self.later(a).later(b) == self.later((a + b) as u64),
    {
    }

    /// The callback of an item may start exactly if the item is pending, the delay that it
    /// was queued with, if any, has passed, its callback is not being run, and where its
    /// queue is ordered, none is being run from there and no item is ahead of it.
    pub proof fn law_callback_starts_when_it_may(self, w: int)
        requires
            self.wf(),
            self.has(w),
        ensures
            self.can_begin(w) <==> self.works[w].running is None && match self.works[w].pending {
                None => false,
                Some(request) => {
                    &&& match request.delay {
                        None => true,
                        Some(delay) => self.works[w].since + delay <= self.now,
                    }
                    &&& self.queues[request.queue as int] ==> (forall|v: int|
                        self.has(v) ==> (#[trigger] self.works[v]).running != Some(request.queue))
                        && (forall|u: int| self.has(u) ==> !#[trigger] self.ahead(u, w))
                },
            },
    {
        if let Some(request) = self.works[w].pending {
            assert(self.busy(request.queue as int) <==> exists|v: int|
                self.has(v) && (#[trigger] self.works[v]).running == Some(request.queue));
        }
    }

    /// Of two items that are pending on one queue, the first is ahead of the second exactly
    /// if it is due and got there earlier: its delay, counted from when it was queued, ended
    /// before the other's does, or both were queued without a delay, it before the other.
    pub proof fn law_earlier_item_is_ahead(self, u: int, w: int, a: Request, b: Request)
        requires
            self.has(u),
            self.has(w),
            u != w,
            self.works[u].pending == Some(a),
            self.works[w].pending == Some(b),
            a.queue == b.queue,
        ensures
            ({
                let x = match a.delay {
                    Some(delay) => delay as int,
                    None => 0,
                };
                let y = match b.delay {
                    Some(delay) => delay as int,
                    None => 0,
                };
                self.works[u].since <= self.now ==> (self.ahead(u, w) <==> self.works[u].since + x
                    <= self.now && (self.works[u].since + x < self.works[w].since + y || (x == 0
                    && y == 0 && exists|i: int, j: int|
                    0 <= i < j < self.order.len() && #[trigger] self.order[i] == u
                        && #[trigger] self.order[j] == w)))
            }),
    {
    }

    /// Only items that are pending on one queue are ahead of one another, and no two are
    /// ahead of each other.
    pub proof fn law_ahead_is_one_way(self, u: int, w: int)
        requires
            self.wf(),
            self.has(u),
            self.has(w),
            self.ahead(u, w),
        ensures
            u != w,
            self.works[u].pending matches Some(a) && self.works[w].pending matches Some(b)
                && a.queue == b.queue,
            !self.ahead(w, u),
    {
        if self.ahead(w, u) {
            if super::comes_before(self.order, u, w) {
                let (i, j) = choose|i: int, j: int|
                    0 <= i < j < self.order.len() && #[trigger] self.order[i] == u
                        && #[trigger] self.order[j] == w;
                assert(self.works[self.order[i] as int].since
                    <= self.works[self.order[j] as int].since);
            }
            if super::comes_before(self.order, w, u) {
                let (i, j) = choose|i: int, j: int|
                    0 <= i < j < self.order.len() && #[trigger] self.order[i] == w
                        && #[trigger] self.order[j] == u;
                assert(self.works[self.order[i] as int].since
                    <= self.works[self.order[j] as int].since);
            }
        }
    }

    /// A queue is drained exactly if no item is pending on it and none is run from it.
    pub proof fn law_drained_queue_is_unused(self, q: usize)
        ensures
            self.drained(q as int) <==> forall|w: int|
                self.has(w) ==> (#[trigger] self.works[w]).running != Some(q) && (
                self.works[w].pending matches Some(request) ==> request.queue != q),
    {
        if self.drained(q as int) {
            assert forall|w: int| self.has(w) implies (#[trigger] self.works[w]).running != Some(q)
                && (self.works[w].pending matches Some(request) ==> request.queue != q) by {
                assert(!self.uses_queue(w, q as int));
            }
        }
    }

    /// A new item is idle, so that it can be queued and cannot start; the others are as
    /// they were.
    pub proof fn law_new_item_is_idle(self, other: int)
        requires
            self.has(other),
        ensures
            ({
                let post = self.with_idle_work();
                let w = self.works.len() as int;
                &&& post.works.len() == w + 1
                &&& post.works[w].pending is None
                &&& post.works[w].running is None
                &&& !post.works[w].canceling
                &&& post.can_queue(w)
                &&& !post.can_begin(w)
                &&& post.works[other] == self.works[other]
                &&& post.queues == self.queues && post.devres == self.devres
                &&& post.order == self.order && post.now == self.now
            }),
    {
    }

    /// An item is to be cancelled with a device exactly if it was registered with it, and
    /// a registration changes no item.
    pub proof fn law_registration_is_kept(self, dev: Device, work: usize, w: int)
        ensures
            self.managed_by(w, dev) <==> exists|i: int|
                0 <= i < self.devres.len() && #[trigger] self.devres[i] == (Registration {
                    dev,
                    work: w as usize,
                }) && self.devres[i].work == w,
            self.registered(dev, work).devres.last() == (Registration { dev, work }),
            self.registered(dev, work).devres.drop_last() == self.devres,
            self.registered(dev, work).works == self.works,
            self.registered(dev, work).queues == self.queues,
            self.registered(dev, work).order == self.order,
            self.registered(dev, work).now == self.now,
    {
        assert(self.registered(dev, work).devres.drop_last() =~= self.devres);
        if self.managed_by(w, dev) {
            let i = choose|i: int|
                0 <= i < self.devres.len() && (#[trigger] self.devres[i]).dev == dev
                    && self.devres[i].work == w;
            assert(self.devres[i] == (Registration { dev, work: w as usize }));
        }
    }

    /// An item that was queued and cancelled before its callback started is as it was, but
    /// for the time at which it was queued.
    pub proof fn law_cancelling_undoes_queueing(self, w: int, request: Request)
        requires
            self.wf(),
            self.has(w),
            self.can_queue(w),
            self.works[w].running is None,
        ensures
            ({
                let post = self.queued(w, request).cancelled(w);
                &&& post.works[w].pending is None
                &&& post.works[w].running is None
                &&& post.can_queue(w)
                &&& post.order == self.order
            }),
    {
        let mid = self.queued(w, request);
        let n = self.order.len() as int;
        assert(mid.order[n] == w);
        assert(mid.order.contains(w as usize));
        assert forall|i: int| 0 <= i < n implies #[trigger] mid.order[i] != w by {
            assert(self.pending(self.order[i] as int));
        }
        assert(mid.order.index_of(w as usize) == n);
        assert(mid.cancelled(w).order =~= self.order);
    }

    /// What was queued, started and ended is idle again, and can be queued anew.
    pub proof fn law_item_goes_full_circle(self, w: int, request: Request)
        requires
            self.wf(),
            self.has(w),
            self.can_queue(w),
            self.queued(w, request).can_begin(w),
        ensures
            ({
                let post = self.queued(w, request).begun(w).ended(w);
                &&& post.works[w].pending is None
                &&& post.works[w].running is None
                &&& post.can_queue(w)
                &&& !post.can_begin(w)
            }),
    {
    }

    /// A callback may go on from one table to another exactly if items and queues are only
    /// added, and whatever is being run is still run from its queue.
    pub proof fn law_running_callbacks_go_on(self, post: Self, w: int, q: int)
        requires
            self.goes_on(post),
        ensures
            post.works.len() >= self.works.len(),
            post.queues.len() >= self.queues.len(),
            0 <= q < self.queues.len() ==> post.queues[q] == self.queues[q],
            self.has(w) && self.works[w].running is Some ==> post.works[w].running
                == self.works[w].running,
    {
        assert(post.works[w] == post.works[w]);
    }
}

/// An item that was queued with a delay waits for it, and one without does not.
pub proof fn law_request_waits_for_its_delay(queue: usize, delay: u64)
    ensures
        (Request { queue, delay: Some(delay) }).wait() == delay,
        (Request { queue, delay: None }).wait() == 0,
        (Request { queue, delay: None }).at_once(),
        (Request { queue, delay: Some(delay) }).at_once() <==> delay == 0,
{
}

impl Works {
    /// An item is pending while something is asked for it, and running while its callback
    /// is being run from a queue.
    pub proof fn law_items_are_pending_or_running(self, w: int)
        ensures
            self.has(w) <==> 0 <= w < self.works.len(),
            self.pending(w) <==> self.works[w].pending is Some,
            self.running(w) <==> self.works[w].running is Some,
    {
    }
}

/// What the calls on a table of work items do: time goes by as reported, a callback starts
/// exactly if it may, from the queue that was asked for, and its end leaves what was
/// queued meanwhile. What is pending and what is running is told as it is.
pub proof fn law_calls_on_the_table(work: usize)
    ensures
        forall|res: WorkTable| #[trigger]
            call_ensures(WorkTable::new, (), res) ==> res@.works.len() == 0 && res@.queues.len()
                == 0 && res@.devres.len() == 0 && res@.order.len() == 0 && res@.now == 0,
        forall|t: &mut WorkTable, jiffies: u64, res: ()|
            t@.now + jiffies <= u64::MAX && #[trigger] call_ensures(
                WorkTable::advance,
                (t, jiffies),
                res,
            ) ==> final(t)@.now == t@.now + jiffies && final(t)@.works == t@.works && final(
                t
            )@.order == t@.order && final(t)@.queues == t@.queues && final(t)@.devres == t@.devres,
        forall|t: WorkTable, res: u64| #[trigger]
            call_ensures(WorkTable::now, (&t,), res) ==> res == t@.now,
        forall|t: &mut WorkTable, res: bool|
            work < t@.works.len() && #[trigger] call_ensures(WorkTable::begin, (t, work), res) ==> {
                &&& res <==> t@.can_begin(work as int)
                &&& !res ==> final(t)@ == t@
                &&& res ==> (t@.works[work as int].pending matches Some(request) && {
                    &&& final(t)@.works[work as int].running == Some(request.queue)
                    &&& final(t)@.works[work as int].pending is None
                    &&& final(t)@.works[work as int].canceling == t@.works[work as int].canceling
                })
                &&& forall|u: int|
                    0 <= u < t@.works.len() && u != work ==> #[trigger] final(t)@.works[u]
                        == t@.works[u]
                &&& final(t)@.queues == t@.queues && final(t)@.now == t@.now
            },
        forall|t: &mut WorkTable, res: ()|
            work < t@.works.len() && #[trigger] call_ensures(WorkTable::end, (t, work), res) ==> {
                &&& final(t)@.works[work as int].running is None
                &&& final(t)@.works[work as int].pending == t@.works[work as int].pending
                &&& final(t)@.works[work as int].since == t@.works[work as int].since
                &&& final(t)@.works[work as int].canceling == t@.works[work as int].canceling
                &&& forall|u: int|
                    0 <= u < t@.works.len() && u != work ==> #[trigger] final(t)@.works[u]
                        == t@.works[u]
                &&& final(t)@.order == t@.order
                &&& final(t)@.queues == t@.queues && final(t)@.now == t@.now
            },
        forall|t: WorkTable, res: bool| #[trigger]
            call_ensures(WorkTable::is_pending, (&t, work), res) ==> (res
                <==> t@.works[work as int].pending is Some),
        forall|t: WorkTable, res: bool| #[trigger]
            call_ensures(WorkTable::is_running, (&t, work), res) ==> (res
                <==> t@.works[work as int].running is Some),
        forall|t: WorkTable, res: Option<Request>| #[trigger]
            call_ensures(WorkTable::request, (&t, work), res) ==> res
                == t@.works[work as int].pending,
{
}

/// Detaching a device takes back what is pending of every item that was registered with
/// it, and of no other item. It is done exactly if no callback of these is being run;
/// what is being run goes on, its item cannot be queued, and it stays registered. Other
/// devices' items and registrations are left alone.
pub proof fn law_call_of_detach(dev: Device, w: int, i: int)
    ensures
        forall|t: &mut WorkTable, res: Cancel|
            0 <= w < t@.works.len() && 0 <= i < t@.devres.len() && t@.devres[i].dev == dev
                && t@.devres[i].work == w && #[trigger] call_ensures(
                WorkTable::detach,
                (t, &dev),
                res,
            ) ==> {
                &&& final(t)@.works[w].pending is None
                &&& final(t)@.works[w].running == t@.works[w].running
                &&& final(t)@.works[w].canceling <==> t@.works[w].running is Some
                &&& t@.works[w].running is Some ==> res is Wait
            },
        forall|t: &mut WorkTable, res: Cancel|
            0 <= w < t@.works.len() && (forall|k: int|
                0 <= k < t@.devres.len() ==> !((#[trigger] t@.devres[k]).dev == dev
                    && t@.devres[k].work == w)) && #[trigger] call_ensures(
                WorkTable::detach,
                (t, &dev),
                res,
            ) ==> final(t)@.works[w] == t@.works[w],
        forall|t: &mut WorkTable, res: Cancel|
            (forall|k: int|
                0 <= k < t@.devres.len() && (#[trigger] t@.devres[k]).dev == dev
                    ==> t@.works[t@.devres[k].work as int].running is None) && #[trigger] call_ensures(
                WorkTable::detach,
                (t, &dev),
                res,
            ) ==> res is Done,
        forall|t: &mut WorkTable, res: Cancel| #[trigger]
            call_ensures(WorkTable::detach, (t, &dev), res) ==> {
                &&& final(t)@.devres == t@.devres.filter(
                    |r: Registration| r.dev != dev || t@.works[r.work as int].running is Some,
                )
                &&& final(t)@.queues == t@.queues && final(t)@.now == t@.now
                &&& final(t)@.works.len() == t@.works.len()
            },
{
    assert forall|t: &mut WorkTable, res: Cancel|
        0 <= w < t@.works.len() && 0 <= i < t@.devres.len() && t@.devres[i].dev == dev
            && t@.devres[i].work == w && #[trigger] call_ensures(
            WorkTable::detach,
            (t, &dev),
            res,
        ) implies {
        &&& final(t)@.works[w].pending is None
        &&& final(t)@.works[w].running == t@.works[w].running
        &&& final(t)@.works[w].canceling <==> t@.works[w].running is Some
        &&& t@.works[w].running is Some ==> res is Wait
    } by {
        assert(t@.managed_by(w, dev));
    }
    assert forall|t: &mut WorkTable, res: Cancel|
        0 <= w < t@.works.len() && (forall|k: int|
            0 <= k < t@.devres.len() ==> !((#[trigger] t@.devres[k]).dev == dev && t@.devres[k].work
                == w)) && #[trigger] call_ensures(
            WorkTable::detach,
            (t, &dev),
            res,
        ) implies final(t)@.works[w] == t@.works[w] by {
        assert(!t@.managed_by(w, dev));
    }
    assert forall|t: &mut WorkTable, res: Cancel| #[trigger]
        call_ensures(WorkTable::detach, (t, &dev), res) implies final(t)@.devres
        == t@.devres.filter(
        |r: Registration| r.dev != dev || t@.works[r.work as int].running is Some,
    ) by {
        assert((|r: Registration| r.dev != dev || t@.running(r.work as int)) =~= (|r: Registration|
            r.dev != dev || t@.works[r.work as int].running is Some));
    }
}

/// What the calls of a queue do: a new queue has a number of its own and is as ordered as
/// it was asked to be; an item that is queued there is pending on it from now on, behind
/// all others, unless it is pending already or being cancelled.
pub proof fn law_calls_of_a_queue<W: RawWorkItem>(queue: Queue, work: W)
    ensures
        forall|t: &mut WorkTable, name: &'static str, ordered: bool, res: Queue| #[trigger]
            call_ensures(Queue::new, (t, name, ordered), res) ==> {
                &&& res.id() == t@.queues.len() && res.name() == name
                &&& final(t)@.queues == t@.queues.push(ordered)
                &&& final(t)@.works == t@.works && final(t)@.order == t@.order
                &&& final(t)@.now == t@.now && final(t)@.devres == t@.devres
            },
        forall|t: WorkTable, res: bool| #[trigger]
            call_ensures(Queue::is_in, (&queue, &t), res) ==> (res <==> queue.id()
                < t@.queues.len()),
        forall|t: &mut WorkTable, res: bool|
            work.work_id() < t@.works.len() && #[trigger] call_ensures(
                Queue::enqueue_scoped::<W>,
                (&queue, t, &work),
                res,
            ) ==> {
                let w = work.work_id() as int;
                let free = t@.works[w].pending is None && !t@.works[w].canceling;
                &&& res <==> free
                &&& !free ==> final(t)@ == t@
                &&& free ==> final(t)@.works[w].pending == Some(
                    Request { queue: queue.id(), delay: None },
                ) && final(t)@.works[w].since == t@.now && final(t)@.works[w].running
                    == t@.works[w].running && final(t)@.order == t@.order.push(w as usize)
                &&& forall|u: int|
                    0 <= u < t@.works.len() && u != w ==> #[trigger] final(t)@.works[u]
                        == t@.works[u]
                &&& final(t)@.queues == t@.queues && final(t)@.now == t@.now
            },
{
}

} // verus!
