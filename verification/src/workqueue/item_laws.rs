//! What the calls of device-bound and of scoped work items do.

use super::devm_work::{
    ManagedDelayedWork, ManagedWork, NotManaged, ScopedDelayedWork, ScopedWork, ScopedWorkItem,
};
use super::scoped::{self, ScopedQueue};
use super::{Cancel, Device, Queue, RawWorkItem, Registration, Request, WorkTable, Works};
use crate::error::Error;
use std::sync::Arc;
use vstd::prelude::*;

verus! {

/// What the calls of a work item of a device do: it is made idle, with its handler, device
/// and names, or not at all where there is no handler; it is queued as it was asked for;
/// cancelling takes it back; and it becomes managed if there is room, or is cancelled and
/// handed back.
pub proof fn law_calls_of_scoped_work<T: ScopedWorkItem, const ID: u64, E>(item: ScopedWork<T, ID>)
    ensures
        forall|t: &mut WorkTable, name: &'static str, dev: Device, handler: Result<T, E>, res: Result<
            ScopedWork<T, ID>,
            E,
        >| #[trigger]
            call_ensures(ScopedWork::<T, ID>::new::<E>, (t, name, &dev, handler), res)
                ==> match handler {
                Err(e) => (res matches Err(f) && f == e) && final(t)@ == t@,
                Ok(h) => res matches Ok(item) && {
                    &&& item.handler() == h && item.dev() == dev && item.name() == name
                    &&& item.work() == t@.works.len()
                    &&& final(t)@.works.len() == t@.works.len() + 1
                    &&& final(t)@.works[item.work() as int].pending is None
                    &&& final(t)@.works[item.work() as int].running is None
                    &&& !final(t)@.works[item.work() as int].canceling
                    &&& final(t)@.devres == t@.devres
                },
            },
        forall|t: &mut WorkTable, queue: Queue, res: bool|
            item.work() < t@.works.len() && #[trigger] call_ensures(
                ScopedWork::<T, ID>::enqueue,
                (&item, t, &queue),
                res,
            ) ==> {
                let w = item.work() as int;
                let free = t@.works[w].pending is None && !t@.works[w].canceling;
                &&& res <==> free
                &&& !free ==> final(t)@ == t@
                &&& free ==> final(t)@.works[w].pending == Some(
                    Request { queue: queue.id(), delay: None },
                ) && final(t)@.works[w].since == t@.now && final(t)@.works[w].running
                    == t@.works[w].running && final(t)@.order == t@.order.push(w as usize)
                &&& forall|u: int|
                    0 <= u < t@.works.len() && u != w ==> #[trigger] final(t)@.works[u]
                        == t@.works[u]
                &&& final(t)@.queues == t@.queues && final(t)@.now == t@.now
            },
        forall|t: &mut WorkTable, res: Cancel|
            item.work() < t@.works.len() && #[trigger] call_ensures(
                ScopedWork::<T, ID>::cancel,
                (&item, t),
                res,
            ) ==> {
                let w = item.work() as int;
                &&& res is Wait <==> t@.works[w].running is Some
                &&& final(t)@.works[w].pending is None
                &&& final(t)@.works[w].running == t@.works[w].running
                &&& final(t)@.works[w].canceling <==> t@.works[w].running is Some
            },
        forall|work: Arc<ScopedWork<T, ID>>, t: &mut WorkTable, room: Result<(), Error>, res: Result<
            ManagedWork<T, ID>,
            NotManaged<ScopedWork<T, ID>>,
        >|
            work.work() < t@.works.len() && #[trigger] call_ensures(
                ScopedWork::<T, ID>::into_managed,
                (work, t, room),
                res,
            ) ==> match room {
                Ok(_) => res matches Ok(managed) && {
                    &&& managed.item() == *work
                    &&& final(t)@.devres == t@.devres.push(
                        Registration { dev: work.dev(), work: work.work() },
                    )
                    &&& final(t)@.works == t@.works
                },
                Err(e) => res matches Err(f) && {
                    &&& f.error == e && *f.work == *work
                    &&& f.cancel is Wait <==> t@.works[work.work() as int].running is Some
                    &&& final(t)@.works[work.work() as int].pending is None
                    &&& final(t)@.devres == t@.devres
                },
            },
{
}

/// One execution of the item calls its handler once, with its device, between the start and
/// the end of the callback; if the callback may not start, nothing is done.
pub proof fn law_execution_of_scoped_work<T: ScopedWorkItem, const ID: u64>(item: ScopedWork<T, ID>)
    ensures
        forall|t: &mut WorkTable, res: bool| #[trigger]
            call_ensures(ScopedWork::<T, ID>::execute, (&item, t), res) ==> {
                &&& res <==> t@.can_begin(item.work() as int)
                &&& !res ==> final(t)@ == t@
                &&& res ==> exists|mid: Works| #[trigger]
                    item.handler().ran(item.dev(), t@.begun(item.work() as int), mid) && final(t)@
                        == mid.ended(item.work() as int)
            },
{
}

/// What the calls of a managed item do: it is made, registered with its device and idle,
/// or not at all where there is no handler or no room; it is queued and executed as the
/// item that it manages.
pub proof fn law_calls_of_managed_scoped_work<T: ScopedWorkItem, const ID: u64>(item: ManagedWork<T, ID>)
    ensures
        forall|t: &mut WorkTable, name: &'static str, dev: Device, handler: Result<T, Error>, room: Result<
            (),
            Error,
        >, res: Result<ManagedWork<T, ID>, Error>| #[trigger]
            call_ensures(ManagedWork::<T, ID>::new, (t, name, &dev, handler, room), res) ==> {
                &&& handler matches Err(e) ==> (res matches Err(f) && f == e) && final(t)@ == t@
                &&& handler is Ok ==> (room matches Err(e) ==> (res matches Err(f) && f == e)
                    && final(t)@.devres == t@.devres)
                &&& handler matches Ok(h) ==> (room is Ok ==> (res matches Ok(m) && {
                    &&& m.item().handler() == h && m.item().dev() == dev
                    &&& m.item().name() == name
                    &&& m.item().work() == t@.works.len()
                    &&& final(t)@.works[m.item().work() as int].pending is None
                    &&& final(t)@.works[m.item().work() as int].running is None
                    &&& final(t)@.devres == t@.devres.push(
                        Registration { dev, work: m.item().work() },
                    )
                }))
            },
        forall|t: &mut WorkTable, queue: Queue, res: bool|
            item.item().work() < t@.works.len() && #[trigger] call_ensures(
                ManagedWork::<T, ID>::enqueue,
                (&item, t, &queue),
                res,
            ) ==> {
                let w = item.item().work() as int;
                let free = t@.works[w].pending is None && !t@.works[w].canceling;
                &&& res <==> free
                &&& !free ==> final(t)@ == t@
                &&& free ==> final(t)@.works[w].pending == Some(
                    Request { queue: queue.id(), delay: None },
                ) && final(t)@.works[w].since == t@.now && final(t)@.works[w].running
                    == t@.works[w].running && final(t)@.order == t@.order.push(w as usize)
                &&& forall|u: int|
                    0 <= u < t@.works.len() && u != w ==> #[trigger] final(t)@.works[u]
                        == t@.works[u]
                &&& final(t)@.queues == t@.queues && final(t)@.now == t@.now
            },
        forall|t: &mut WorkTable, res: bool| #[trigger]
            call_ensures(ManagedWork::<T, ID>::run, (&item, t), res) ==> {
                let managed = item.item();
                &&& res <==> t@.can_begin(managed.work() as int)
                &&& !res ==> final(t)@ == t@
                &&& res ==> exists|mid: Works| #[trigger]
                    managed.handler().ran(managed.dev(), t@.begun(managed.work() as int), mid)
                        && final(t)@ == mid.ended(managed.work() as int)
            },
{
}

/// What the calls of a delayed work item of a device do: it is made idle, with its handler, device
/// and names, or not at all where there is no handler; it is queued as it was asked for;
/// cancelling takes it back; and it becomes managed if there is room, or is cancelled and
/// handed back.
pub proof fn law_calls_of_scoped_delayed_work<T: ScopedWorkItem, const ID: u64, E>(item: ScopedDelayedWork<T, ID>)
    ensures
        forall|t: &mut WorkTable, work_name: &'static str, timer_name: &'static str, dev: Device, handler: Result<T, E>, res: Result<
            ScopedDelayedWork<T, ID>,
            E,
        >| #[trigger]
            call_ensures(ScopedDelayedWork::<T, ID>::new::<E>, (t, work_name, timer_name, &dev, handler), res)
                ==> match handler {
                Err(e) => (res matches Err(f) && f == e) && final(t)@ == t@,
                Ok(h) => res matches Ok(item) && {
                    &&& item.handler() == h && item.dev() == dev && item.work_name() == work_name && item.timer_name() == timer_name
                    &&& item.work() == t@.works.len()
                    &&& final(t)@.works.len() == t@.works.len() + 1
                    &&& final(t)@.works[item.work() as int].pending is None
                    &&& final(t)@.works[item.work() as int].running is None
                    &&& !final(t)@.works[item.work() as int].canceling
                    &&& final(t)@.devres == t@.devres
                },
            },
        forall|t: &mut WorkTable, queue: Queue, res: bool|
            item.work() < t@.works.len() && #[trigger] call_ensures(
                ScopedDelayedWork::<T, ID>::enqueue,
                (&item, t, &queue),
                res,
            ) ==> {
                let w = item.work() as int;
                let free = t@.works[w].pending is None && !t@.works[w].canceling;
                &&& res <==> free
                &&& !free ==> final(t)@ == t@
                &&& free ==> final(t)@.works[w].pending == Some(
                    Request { queue: queue.id(), delay: None },
                ) && final(t)@.works[w].since == t@.now && final(t)@.works[w].running
                    == t@.works[w].running && final(t)@.order == t@.order.push(w as usize)
                &&& forall|u: int|
                    0 <= u < t@.works.len() && u != w ==> #[trigger] final(t)@.works[u]
                        == t@.works[u]
                &&& final(t)@.queues == t@.queues && final(t)@.now == t@.now
            },
        forall|t: &mut WorkTable, queue: Queue, delay: u64, res: bool|
            item.work() < t@.works.len() && #[trigger] call_ensures(
                ScopedDelayedWork::<T, ID>::enqueue_delayed,
                (&item, t, &queue, delay),
                res,
            ) ==> {
                let w = item.work() as int;
                let free = t@.works[w].pending is None && !t@.works[w].canceling;
                &&& res <==> free
                &&& !free ==> final(t)@ == t@
                &&& free ==> final(t)@.works[w].pending == Some(
                    Request { queue: queue.id(), delay: Some(delay) },
                ) && final(t)@.works[w].since == t@.now && final(t)@.works[w].running
                    == t@.works[w].running && final(t)@.order == t@.order.push(w as usize)
                &&& forall|u: int|
                    0 <= u < t@.works.len() && u != w ==> #[trigger] final(t)@.works[u]
                        == t@.works[u]
                &&& final(t)@.queues == t@.queues && final(t)@.now == t@.now
            },
        forall|t: &mut WorkTable, res: Cancel|
            item.work() < t@.works.len() && #[trigger] call_ensures(
                ScopedDelayedWork::<T, ID>::cancel,
                (&item, t),
                res,
            ) ==> {
                let w = item.work() as int;
                &&& res is Wait <==> t@.works[w].running is Some
                &&& final(t)@.works[w].pending is None
                &&& final(t)@.works[w].running == t@.works[w].running
                &&& final(t)@.works[w].canceling <==> t@.works[w].running is Some
            },
        forall|work: Arc<ScopedDelayedWork<T, ID>>, t: &mut WorkTable, room: Result<(), Error>, res: Result<
            ManagedDelayedWork<T, ID>,
            NotManaged<ScopedDelayedWork<T, ID>>,
        >|
            work.work() < t@.works.len() && #[trigger] call_ensures(
                ScopedDelayedWork::<T, ID>::into_managed,
                (work, t, room),
                res,
            ) ==> match room {
                Ok(_) => res matches Ok(managed) && {
                    &&& managed.item() == *work
                    &&& final(t)@.devres == t@.devres.push(
                        Registration { dev: work.dev(), work: work.work() },
                    )
                    &&& final(t)@.works == t@.works
                },
                Err(e) => res matches Err(f) && {
                    &&& f.error == e && *f.work == *work
                    &&& f.cancel is Wait <==> t@.works[work.work() as int].running is Some
                    &&& final(t)@.works[work.work() as int].pending is None
                    &&& final(t)@.devres == t@.devres
                },
            },
{
}

/// One execution of the item calls its handler once, with its device, between the start and
/// the end of the callback; if the callback may not start, nothing is done.
pub proof fn law_execution_of_scoped_delayed_work<T: ScopedWorkItem, const ID: u64>(item: ScopedDelayedWork<T, ID>)
    ensures
        forall|t: &mut WorkTable, res: bool| #[trigger]
            call_ensures(ScopedDelayedWork::<T, ID>::execute, (&item, t), res) ==> {
                &&& res <==> t@.can_begin(item.work() as int)
                &&& !res ==> final(t)@ == t@
                &&& res ==> exists|mid: Works| #[trigger]
                    item.handler().ran(item.dev(), t@.begun(item.work() as int), mid) && final(t)@
                        == mid.ended(item.work() as int)
            },
{
}

/// What the calls of a managed delayed item do: it is made, registered with its device and idle,
/// or not at all where there is no handler or no room; it is queued and executed as the
/// item that it manages.
pub proof fn law_calls_of_managed_scoped_delayed_work<T: ScopedWorkItem, const ID: u64>(item: ManagedDelayedWork<T, ID>)
    ensures
        forall|t: &mut WorkTable, work_name: &'static str, timer_name: &'static str, dev: Device, handler: Result<T, Error>, room: Result<
            (),
            Error,
        >, res: Result<ManagedDelayedWork<T, ID>, Error>| #[trigger]
            call_ensures(ManagedDelayedWork::<T, ID>::new, (t, work_name, timer_name, &dev, handler, room), res) ==> {
                &&& handler matches Err(e) ==> (res matches Err(f) && f == e) && final(t)@ == t@
                &&& handler is Ok ==> (room matches Err(e) ==> (res matches Err(f) && f == e)
                    && final(t)@.devres == t@.devres)
                &&& handler matches Ok(h) ==> (room is Ok ==> (res matches Ok(m) && {
                    &&& m.item().handler() == h && m.item().dev() == dev
                    &&& m.item().work_name() == work_name && m.item().timer_name() == timer_name
                    &&& m.item().work() == t@.works.len()
                    &&& final(t)@.works[m.item().work() as int].pending is None
                    &&& final(t)@.works[m.item().work() as int].running is None
                    &&& final(t)@.devres == t@.devres.push(
                        Registration { dev, work: m.item().work() },
                    )
                }))
            },
        forall|t: &mut WorkTable, queue: Queue, res: bool|
            item.item().work() < t@.works.len() && #[trigger] call_ensures(
                ManagedDelayedWork::<T, ID>::enqueue,
                (&item, t, &queue),
                res,
            ) ==> {
                let w = item.item().work() as int;
                let free = t@.works[w].pending is None && !t@.works[w].canceling;
                &&& res <==> free
                &&& !free ==> final(t)@ == t@
                &&& free ==> final(t)@.works[w].pending == Some(
                    Request { queue: queue.id(), delay: None },
                ) && final(t)@.works[w].since == t@.now && final(t)@.works[w].running
                    == t@.works[w].running && final(t)@.order == t@.order.push(w as usize)
                &&& forall|u: int|
                    0 <= u < t@.works.len() && u != w ==> #[trigger] final(t)@.works[u]
                        == t@.works[u]
                &&& final(t)@.queues == t@.queues && final(t)@.now == t@.now
            },
        forall|t: &mut WorkTable, queue: Queue, delay: u64, res: bool|
            item.item().work() < t@.works.len() && #[trigger] call_ensures(
                ManagedDelayedWork::<T, ID>::enqueue_delayed,
                (&item, t, &queue, delay),
                res,
            ) ==> {
                let w = item.item().work() as int;
                let free = t@.works[w].pending is None && !t@.works[w].canceling;
                &&& res <==> free
                &&& !free ==> final(t)@ == t@
                &&& free ==> final(t)@.works[w].pending == Some(
                    Request { queue: queue.id(), delay: Some(delay) },
                ) && final(t)@.works[w].since == t@.now && final(t)@.works[w].running
                    == t@.works[w].running && final(t)@.order == t@.order.push(w as usize)
                &&& forall|u: int|
                    0 <= u < t@.works.len() && u != w ==> #[trigger] final(t)@.works[u]
                        == t@.works[u]
                &&& final(t)@.queues == t@.queues && final(t)@.now == t@.now
            },
        forall|t: &mut WorkTable, res: bool| #[trigger]
            call_ensures(ManagedDelayedWork::<T, ID>::run, (&item, t), res) ==> {
                let managed = item.item();
                &&& res <==> t@.can_begin(managed.work() as int)
                &&& !res ==> final(t)@ == t@
                &&& res ==> exists|mid: Works| #[trigger]
                    managed.handler().ran(managed.dev(), t@.begun(managed.work() as int), mid)
                        && final(t)@ == mid.ended(managed.work() as int)
            },
{
}

/// What the calls of a scoped queue do: it is made ordered, if there is room; an item is
/// queued on it as on any queue; and it is drained exactly if no item is pending on it or
/// run from it.
pub proof fn law_calls_of_a_scoped_queue<W: RawWorkItem>(queue: ScopedQueue, work: W)
    ensures
        forall|t: &mut WorkTable, name: &'static str, room: Result<(), Error>, res: Result<
            ScopedQueue,
            Error,
        >| #[trigger]
            call_ensures(ScopedQueue::new, (t, name, room), res) ==> match room {
                Ok(_) => res matches Ok(q) && {
                    &&& q.queue().id() == t@.queues.len() && q.queue().name() == name
                    &&& final(t)@.queues == t@.queues.push(true)
                    &&& final(t)@.works == t@.works
                },
                Err(e) => (res matches Err(f) && f == e) && final(t)@ == t@,
            },
        forall|t: &mut WorkTable, res: bool|
            work.work_id() < t@.works.len() && #[trigger] call_ensures(
                ScopedQueue::enqueue::<W>,
                (&queue, t, &work),
                res,
            ) ==> {
                let w = work.work_id() as int;
                let free = t@.works[w].pending is None && !t@.works[w].canceling;
                &&& res <==> free
                &&& !free ==> final(t)@ == t@
                &&& free ==> final(t)@.works[w].pending == Some(
                    Request { queue: queue.queue().id(), delay: None },
                ) && final(t)@.works[w].since == t@.now && final(t)@.works[w].running
                    == t@.works[w].running && final(t)@.order == t@.order.push(w as usize)
                &&& forall|u: int|
                    0 <= u < t@.works.len() && u != w ==> #[trigger] final(t)@.works[u]
                        == t@.works[u]
                &&& final(t)@.queues == t@.queues && final(t)@.now == t@.now
            },
        forall|t: WorkTable, res: Option<usize>| #[trigger]
            call_ensures(ScopedQueue::drain, (&queue, &t), res) ==> {
                &&& res is None <==> t@.drained(queue.queue().id() as int)
                &&& res matches Some(w) ==> w < t@.works.len() && (t@.works[w as int].running
                    == Some(queue.queue().id()) || (t@.works[w as int].pending matches Some(request)
                    && request.queue == queue.queue().id()))
            },
{
}

/// What the calls of a scoped item do: it is made idle, with its data and name, or not at
/// all where there is no data; and cancelling takes it back.
pub proof fn law_calls_of_a_scoped_item<T>(item: scoped::ScopedWork<T>)
    ensures
        forall|t: &mut WorkTable, name: &'static str, init: Result<T, Error>, res: Result<
            scoped::ScopedWork<T>,
            Error,
        >| #[trigger]
            call_ensures(scoped::ScopedWork::<T>::new, (t, name, init), res) ==> match init {
                Err(e) => (res matches Err(f) && f == e) && final(t)@ == t@,
                Ok(data) => res matches Ok(made) && {
                    &&& made.inner().data() == data && made.inner().name() == name
                    &&& made.inner().work() == t@.works.len()
                    &&& final(t)@.works.len() == t@.works.len() + 1
                    &&& final(t)@.works[made.inner().work() as int].pending is None
                    &&& final(t)@.works[made.inner().work() as int].running is None
                    &&& !final(t)@.works[made.inner().work() as int].canceling
                },
            },
        forall|t: &mut WorkTable, res: Cancel|
            item.inner().work() < t@.works.len() && #[trigger] call_ensures(
                scoped::ScopedWork::<T>::cancel,
                (&item, t),
                res,
            ) ==> {
                let w = item.inner().work() as int;
                &&& res is Wait <==> t@.works[w].running is Some
                &&& final(t)@.works[w].pending is None
                &&& final(t)@.works[w].running == t@.works[w].running
                &&& final(t)@.works[w].canceling <==> t@.works[w].running is Some
            },
{
}

/// One execution of a scoped item calls its work function once, between the start and the
/// end of the callback; if the callback may not start, nothing is done.
pub proof fn law_execution_of_a_scoped_item<T: scoped::ScopedWorkItem>()
    ensures
        forall|item: &mut scoped::ScopedWork<T>, t: &mut WorkTable, res: bool| #[trigger]
            call_ensures(scoped::ScopedWork::<T>::run, (item, t), res) ==> {
                &&& res <==> t@.can_begin(item.inner().work() as int)
                &&& !res ==> final(t)@ == t@ && *final(item) == *item
                &&& res ==> exists|mid: Works| #[trigger]
                    T::ran(
                        item.inner(),
                        t@.begun(item.inner().work() as int),
                        final(item).inner(),
                        mid,
                    ) && final(t)@ == mid.ended(item.inner().work() as int)
                &&& final(item).inner().work() == item.inner().work()
            },
{
}

} // verus!
