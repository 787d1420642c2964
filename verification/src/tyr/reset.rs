//! Provides asynchronous reset handling for the Tyr DRM driver via [`ResetHandle`].
//!
//! [`ResetHandle::schedule`] queues reset work on a dedicated ordered
//! [`ScopedQueue`] and avoids duplicate pending reset requests.
//!
//! # High-level Execution Flow
//!
//! ```text
//! +------+  schedule()  +---------+  reset_work()  +------------+
//! | Idle |------------->| Pending |--------------->| InProgress |
//! +------+              +---------+                +------------+
//!    ^                                             |
//!    |               work complete                 |
//!    +---------------------------------------------+
//!
//! Teardown transitions any state to ShuttingDown, then drains pending and
//! running work.
//! ```

pub mod hw_gate;
pub mod pass;

use super::io::{Poll, RegOp};
use super::regs::{
    GPU_CMD, GPU_CMD_SOFT_RESET, GPU_IRQ_CLEAR, GPU_IRQ_RAWSTAT, GPU_IRQ_RAWSTAT_RESET_COMPLETED,
};
use crate::error::Error;
use crate::workqueue::scoped::{ScopedQueue, ScopedWork};
use crate::workqueue::{Cancel, RawWorkItem, Request, WorkTable, Works};
use vstd::prelude::*;

pub use hw_gate::HwGate;
pub use pass::{run_reset, ResetPass};

verus! {

/// Lifecycle state of the reset worker.
#[derive(Clone, Copy, Debug, PartialEq, Eq, Structural)]
pub enum ResetState {
    /// Hardware is available and no reset request exists.
    Idle,
    /// Reset work item is queued and waiting to be claimed by the worker.
    Pending,
    /// Worker has claimed the request and is resetting hardware.
    InProgress,
    /// Teardown has started and no new reset request may start.
    ShuttingDown,
}

/// `state` after an attempt to move it from `from` to `to`.
pub open spec fn transition(state: ResetState, from: ResetState, to: ResetState) -> ResetState {
    if state == from {
        to
    } else {
        state
    }
}

/// One step of a thread that takes part in resetting the GPU.
pub enum ResetStep {
    /// A thread attempts to make a request.
    Request,
    /// A thread that has made a request queues the work.
    Enqueue,
    /// The worker takes the work from the queue.
    Start,
    /// The worker attempts to claim the request.
    Claim,
    /// The worker has reset the hardware.
    Complete,
    /// The worker leaves the work function.
    Leave,
    /// Teardown starts.
    ShutDown,
}

/// `state` after `step`.
pub open spec fn state_after(state: ResetState, step: ResetStep) -> ResetState {
    match step {
        ResetStep::Request => transition(state, ResetState::Idle, ResetState::Pending),
        ResetStep::Claim => transition(state, ResetState::Pending, ResetState::InProgress),
        ResetStep::Complete => transition(state, ResetState::InProgress, ResetState::Idle),
        ResetStep::ShutDown => ResetState::ShuttingDown,
        _ => state,
    }
}

/// Internal reset orchestrator.
pub struct Controller {
    /// State shared by reset schedulers and the worker.
    state: ResetState,
}

impl Controller {
    /// The state.
    pub closed spec fn state(self) -> ResetState {
        self.state
    }

    /// Creates a reset controller.
    pub fn new() -> (res: Self)
        ensures
            res.state() is Idle,
    {
        Controller { state: ResetState::Idle }
    }

    /// Attempts to transition the reset state from `from` to `to`.
    pub fn try_transition(&mut self, from: ResetState, to: ResetState) -> (res: bool)
        ensures
            res == (old(self).state() == from),
            final(self).state() == transition(old(self).state(), from, to),
    {
        if self.state == from {
            self.state = to;
            true
        } else {
            false
        }
    }

    /// Starts to process one scheduled reset request, and says whether there is
    /// one.
    ///
    /// If the pending reset cannot be claimed, the worker returns immediately.
    /// Otherwise it waits for earlier hardware accesses to complete, issues the
    /// reset, and then reports to [`Controller::reset_work_done`].
    pub fn reset_work(&mut self) -> (res: bool)
        ensures
            res == (old(self).state() is Pending),
            final(self).state() == state_after(old(self).state(), ResetStep::Claim),
    {
        self.try_transition(ResetState::Pending, ResetState::InProgress)
    }

    /// Ends the processing of a reset request, whatever the reset came to, and
    /// says whether another request may be made now.
    pub fn reset_work_done(&mut self, result: Result<(), Error>) -> (res: bool)
        ensures
            res == (old(self).state() is InProgress),
            final(self).state() == state_after(old(self).state(), ResetStep::Complete),
    {
        self.try_transition(ResetState::InProgress, ResetState::Idle)
    }

    /// Stops new reset requests.
    pub fn shut_down(&mut self)
        ensures
            final(self).state() == state_after(old(self).state(), ResetStep::ShutDown),
            final(self).state() is ShuttingDown,
    {
        self.state = ResetState::ShuttingDown;
    }

    /// The state.
    pub fn current(&self) -> (res: ResetState)
        ensures
            res == self.state(),
    {
        self.state
    }
}

/// User-facing handle for scheduling resets.
///
/// Before the handle goes away, [`ResetHandle::shut_down`] stops new requests,
/// and queued or in-flight reset work is drained.
pub struct ResetHandle {
    controller: ScopedWork<Controller>,
    wq: ScopedQueue,
}

impl ResetHandle {
    /// The state.
    pub closed spec fn state(self) -> ResetState {
        self.controller.inner().data().state()
    }

    /// The number of the work item.
    pub closed spec fn work(self) -> usize {
        self.controller.inner().work()
    }

    /// The number of the queue.
    pub closed spec fn queue(self) -> usize {
        self.wq.queue().id()
    }

    /// Whether the work item and the queue stand in `works`.
    pub open spec fn stands_in(self, works: Works) -> bool {
        &&& works.wf()
        &&& self.work() < works.works.len()
        &&& self.queue() < works.queues.len()
    }

    /// Creates [`ResetHandle`].
    ///
    /// `room` says whether the queue can be built; if not, its error is
    /// returned.
    pub fn new(table: &mut WorkTable, room: Result<(), Error>) -> (res: Result<Self, Error>)
        requires
            old(table)@.wf(),
        ensures
            final(table)@.wf(),
            match room {
                Ok(_) => {
                    &&& res matches Ok(handle) && {
                        &&& handle.stands_in(final(table)@)
                        &&& handle.state() is Idle
                        &&& handle.work() == old(table)@.works.len()
                        &&& handle.queue() == old(table)@.queues.len()
                    }
                    &&& final(table)@ == (Works {
                        queues: old(table)@.queues.push(true),
                        ..old(table)@.with_idle_work()
                    })
                },
                Err(e) => {
                    &&& res matches Err(f) && f == e
                    &&& final(table)@ == old(table)@.with_idle_work()
                },
            },
    {
        match ScopedWork::new(table, "tyr::reset", Ok(Controller::new())) {
            Err(e) => Err(e),
            Ok(controller) => match ScopedQueue::new(table, "tyr-reset-wq", room) {
                Err(e) => Err(e),
                Ok(wq) => Ok(ResetHandle { controller, wq }),
            },
        }
    }

    /// Schedules a GPU reset on the dedicated workqueue.
    ///
    /// If a reset is already pending or in progress the call is a no-op.
    pub fn schedule(&mut self, table: &mut WorkTable)
        requires
            old(self).stands_in(old(table)@),
        ensures
            final(self).stands_in(final(table)@),
            final(self).work() == old(self).work(),
            final(self).queue() == old(self).queue(),
            final(self).state() == state_after(old(self).state(), ResetStep::Request),
            final(table)@ == (if old(self).state() is Idle {
                old(table)@.queued(
                    old(self).work() as int,
                    Request { queue: old(self).queue(), delay: None },
                )
            } else {
                old(table)@
            }),
    {
        if self.controller.deref_mut().deref_mut().try_transition(
            ResetState::Idle,
            ResetState::Pending,
        ) {
            let _ = self.wq.enqueue(table, &self.controller);
        }
    }

    /// Starts the reset work on behalf of the worker, and says whether hardware
    /// has to be reset.
    pub fn reset_work(&mut self) -> (res: bool)
        ensures
            final(self).work() == old(self).work(),
            final(self).queue() == old(self).queue(),
            res == (old(self).state() is Pending),
            final(self).state() == state_after(old(self).state(), ResetStep::Claim),
    {
        self.controller.deref_mut().deref_mut().reset_work()
    }

    /// Ends the reset work on behalf of the worker.
    pub fn reset_work_done(&mut self, result: Result<(), Error>) -> (res: bool)
        ensures
            final(self).work() == old(self).work(),
            final(self).queue() == old(self).queue(),
            res == (old(self).state() is InProgress),
            final(self).state() == state_after(old(self).state(), ResetStep::Complete),
    {
        self.controller.deref_mut().deref_mut().reset_work_done(result)
    }

    /// Stops new reset requests, before queued and running work is drained.
    pub fn shut_down(&mut self)
        ensures
            final(self).work() == old(self).work(),
            final(self).queue() == old(self).queue(),
            final(self).state() == state_after(old(self).state(), ResetStep::ShutDown),
            final(self).state() is ShuttingDown,
    {
        self.controller.deref_mut().deref_mut().shut_down()
    }

    /// Cancels the reset work: what is queued is taken back, and what is running
    /// has to be waited for.
    pub fn cancel(&self, table: &mut WorkTable) -> (res: Cancel)
        requires
            self.stands_in(old(table)@),
        ensures
            self.stands_in(final(table)@),
            final(table)@ == old(table)@.cancelled(self.work() as int),
            res is Wait <==> old(table)@.running(self.work() as int),
    {
        self.controller.cancel(table)
    }

    /// An item that has to end before the queue may go away; none once the queue
    /// is drained.
    pub fn drain(&self, table: &WorkTable) -> (res: Option<usize>)
        ensures
            res is None <==> table@.drained(self.queue() as int),
            res matches Some(w) ==> w < table@.works.len() && table@.uses_queue(
                w as int,
                self.queue() as int,
            ),
    {
        self.wq.drain(table)
    }

    /// The number of the work item.
    pub fn number(&self) -> (res: usize)
        ensures
            res == self.work(),
    {
        self.controller.raw_get()
    }

    /// The state.
    pub fn current(&self) -> (res: ResetState)
        ensures
            res == self.state(),
    {
        self.controller.deref().deref().current()
    }
}

/// The accesses that issue a soft reset and wait for its completion.
pub open spec fn soft_reset_ops() -> Seq<RegOp> {
    seq![
        RegOp::Write { offset: 0x24, value: GPU_IRQ_RAWSTAT_RESET_COMPLETED },
        RegOp::Write { offset: 0x30, value: GPU_CMD_SOFT_RESET },
        RegOp::Wait(
            Poll {
                offset: 0x20,
                mask: GPU_IRQ_RAWSTAT_RESET_COMPLETED,
                set: true,
                sleep_ms: 1,
                timeout_ms: 100,
            },
        ),
    ]
}

/// Issues a soft reset command and waits for reset-complete IRQ status.
pub fn issue_soft_reset() -> (res: Vec<RegOp>)
    ensures
        res@ == soft_reset_ops(),
{
    let mut ops: Vec<RegOp> = Vec::new();
    // Clear any stale reset-complete IRQ state before issuing a new soft reset.
    ops.push(GPU_IRQ_CLEAR.write(GPU_IRQ_RAWSTAT_RESET_COMPLETED));

    ops.push(GPU_CMD.write(GPU_CMD_SOFT_RESET));

    ops.push(
        RegOp::Wait(
            Poll {
                offset: GPU_IRQ_RAWSTAT.offset(),
                mask: GPU_IRQ_RAWSTAT_RESET_COMPLETED,
                set: true,
                sleep_ms: 1,
                timeout_ms: 100,
            },
        ),
    );
    assert(ops@ =~= soft_reset_ops());
    ops
}

/// What the worker is doing.
pub enum Worker {
    /// It has no item.
    Off,
    /// It has taken the reset work from the queue.
    Started,
    /// It has claimed a request and is resetting hardware.
    Resetting,
    /// It is about to leave the work function.
    Leaving,
}

/// The threads that schedule resets, the queue and the worker, as they share
/// the state. The steps of several threads may come in any order.
pub struct ResetWorld {
    /// The state.
    pub state: ResetState,
    /// How many threads have made a request and not queued the work yet.
    pub promised: nat,
    /// Whether the work is queued.
    pub queued: bool,
    /// What the worker is doing.
    pub worker: Worker,
}

impl ResetWorld {
    /// No request exists.
    pub open spec fn idle() -> Self {
        ResetWorld { state: ResetState::Idle, promised: 0, queued: false, worker: Worker::Off }
    }

    /// How many requests are on their way to the worker.
    pub open spec fn underway(self) -> int {
        self.promised + (if self.queued {
            1int
        } else {
            0
        }) + (if self.worker is Started {
            1int
        } else {
            0
        })
    }

    /// Whether `step` can be taken.
    pub open spec fn enabled(self, step: ResetStep) -> bool {
        match step {
            ResetStep::Request => true,
            ResetStep::Enqueue => self.promised > 0,
            ResetStep::Start => self.queued && self.worker is Off,
            ResetStep::Claim => self.worker is Started,
            ResetStep::Complete => self.worker is Resetting,
            ResetStep::Leave => self.worker is Leaving,
            ResetStep::ShutDown => true,
        }
    }

    /// The world after `step`.
    pub open spec fn step(self, step: ResetStep) -> Self {
        match step {
            ResetStep::Request => ResetWorld {
                state: state_after(self.state, step),
                promised: if self.state is Idle {
                    self.promised + 1
                } else {
                    self.promised
                },
                ..self
            },
            ResetStep::Enqueue => ResetWorld {
                promised: (self.promised - 1) as nat,
                queued: true,
                ..self
            },
            ResetStep::Start => ResetWorld { queued: false, worker: Worker::Started, ..self },
            ResetStep::Claim => ResetWorld {
                state: state_after(self.state, step),
                worker: if self.state is Pending {
                    Worker::Resetting
                } else {
                    Worker::Leaving
                },
                ..self
            },
            ResetStep::Complete => ResetWorld {
                state: state_after(self.state, step),
                worker: Worker::Leaving,
                ..self
            },
            ResetStep::Leave => ResetWorld { worker: Worker::Off, ..self },
            ResetStep::ShutDown => ResetWorld { state: state_after(self.state, step), ..self },
        }
    }

    /// What holds whatever steps were taken.
    pub open spec fn inv(self) -> bool {
        match self.state {
            ResetState::Idle => self.underway() == 0 && !(self.worker is Resetting),
            ResetState::Pending => self.underway() == 1 && !(self.worker is Resetting),
            ResetState::InProgress => self.underway() == 0 && self.worker is Resetting,
            ResetState::ShuttingDown => self.underway() <= 1,
        }
    }
}

/// Whatever the order of the threads' steps, a pending request is on its way to
/// the worker exactly once, so it is neither lost nor duplicated, and no request
/// is on its way while none is pending. Hardware is being reset exactly while
/// the state says so, until teardown starts.
pub proof fn law_request_is_delivered_once(world: ResetWorld, step: ResetStep)
    requires
        world.inv(),
        world.enabled(step),
    ensures
        ResetWorld::idle().inv(),
        world.step(step).inv(),
        world.step(step).state is Pending ==> world.step(step).underway() == 1,
        world.step(step).state is Idle ==> world.step(step).underway() == 0,
        !(world.step(step).state is ShuttingDown) ==> (world.step(step).worker is Resetting
            <==> world.step(step).state is InProgress),
{
}

/// Whether `state` and item `work` of `works` are what `world` has of them.
pub open spec fn agrees(state: ResetState, works: Works, work: int, world: ResetWorld) -> bool {
    &&& world.state == state
    &&& world.queued == works.pending(work)
    &&& world.worker is Off <==> !works.running(work)
}

/// What the handle and the table of work items do is what the threads do:
/// scheduling a reset while none is requested is a request and the queueing that
/// it owes, and the callback of the reset work starts and ends as the worker does.
pub proof fn law_work_follows_the_threads(
    state: ResetState,
    works: Works,
    work: int,
    request: Request,
    world: ResetWorld,
)
    requires
        works.wf(),
        0 <= work < works.works.len(),
        world.inv(),
        agrees(state, works, work, world),
    ensures
        state is Idle && works.can_queue(work) ==> agrees(
            state_after(state, ResetStep::Request),
            works.queued(work, request),
            work,
            world.step(ResetStep::Request).step(ResetStep::Enqueue),
        ),
        works.can_begin(work) ==> world.enabled(ResetStep::Start) && agrees(
            state,
            works.begun(work),
            work,
            world.step(ResetStep::Start),
        ),
        world.enabled(ResetStep::Leave) ==> works.running(work) && agrees(
            state,
            works.ended(work),
            work,
            world.step(ResetStep::Leave),
        ),
        world.enabled(ResetStep::Claim) ==> agrees(
            state_after(state, ResetStep::Claim),
            works,
            work,
            world.step(ResetStep::Claim),
        ),
        world.enabled(ResetStep::Complete) ==> agrees(
            state_after(state, ResetStep::Complete),
            works,
            work,
            world.step(ResetStep::Complete),
        ),
        agrees(
            state_after(state, ResetStep::ShutDown),
            works,
            work,
            world.step(ResetStep::ShutDown),
        ),
{
}

/// A request is a no-op while another one is pending or in progress.
pub proof fn law_duplicate_request_is_ignored(world: ResetWorld)
    requires
        world.inv(),
        world.state is Pending || world.state is InProgress,
    ensures
        world.step(ResetStep::Request) == world,
{
}

/// Once teardown has started, it is never taken back, no request is made and no
/// reset starts; a reset that is running comes to its end.
pub proof fn law_teardown_stops_resets(world: ResetWorld, step: ResetStep)
    requires
        world.inv(),
        world.enabled(step),
        world.state is ShuttingDown,
    ensures
        world.step(step).state is ShuttingDown,
        world.step(step).underway() <= world.underway(),
        world.step(step).worker is Resetting ==> world.worker is Resetting,
        world.step(ResetStep::Request) == world,
{
}

/// A request that the worker has served makes room for the next one: claimed and
/// completed, the state is idle again.
pub proof fn law_served_request_makes_room(world: ResetWorld)
    requires
        world.inv(),
        world.state is Pending,
        world.worker is Started,
    ensures
        ({
            let claimed = world.step(ResetStep::Claim);
            &&& claimed.state is InProgress
            &&& claimed.enabled(ResetStep::Complete)
            &&& claimed.step(ResetStep::Complete).state is Idle
        }),
{
}

/// From every state, teardown leads to shutting down and touches nothing else. A
/// request that is made after it changes nothing and promises no work.
pub proof fn law_teardown_shuts_down_from_every_state(world: ResetWorld)
    ensures
        world.step(ResetStep::ShutDown).state is ShuttingDown,
        world.step(ResetStep::ShutDown).promised == world.promised,
        world.step(ResetStep::ShutDown).queued == world.queued,
        world.step(ResetStep::ShutDown).worker == world.worker,
        world.step(ResetStep::ShutDown).step(ResetStep::Request) == world.step(
            ResetStep::ShutDown,
        ),
        state_after(world.state, ResetStep::ShutDown) is ShuttingDown,
        state_after(
            state_after(world.state, ResetStep::ShutDown),
            ResetStep::Request,
        ) is ShuttingDown,
        world.enabled(ResetStep::ShutDown),
{
}

/// The state moves only from idle to pending, by a request; from pending to in progress,
/// by a claim; from in progress to idle, by a completion; and from anywhere to shutting
/// down, by teardown.
pub proof fn law_state_moves_along_the_flow(state: ResetState, step: ResetStep)
    ensures
        step is Request && state is Idle ==> state_after(state, step) is Pending,
        step is Claim && state is Pending ==> state_after(state, step) is InProgress,
        step is Complete && state is InProgress ==> state_after(state, step) is Idle,
        step is ShutDown ==> state_after(state, step) is ShuttingDown,
        state_after(state, step) != state ==> {
            ||| step is Request && state is Idle
            ||| step is Claim && state is Pending
            ||| step is Complete && state is InProgress
            ||| step is ShutDown
        },
{
}

/// An attempt to move the state takes effect exactly if the state is the expected one,
/// and a second attempt of the same finds it moved.
pub proof fn law_transition_is_taken_once(state: ResetState, from: ResetState, to: ResetState)
    ensures
        state == from ==> transition(state, from, to) == to,
        state != from ==> transition(state, from, to) == state,
        from != to ==> transition(transition(state, from, to), from, to) == transition(
            state,
            from,
            to,
        ),
{
}

/// Every step of a thread changes its own part: requests are promised, promises are
/// queued, the worker takes what is queued, and a claim of a pending request has it
/// reset the hardware, until that is complete.
pub proof fn law_steps_carry_the_request(world: ResetWorld)
    requires
        world.inv(),
    ensures
        ({
            let post = world.step(ResetStep::Request);
            &&& post.promised == world.promised + (if world.state is Idle {
                1int
            } else {
                0
            })
            &&& post.queued == world.queued && post.worker == world.worker
        }),
        world.enabled(ResetStep::Enqueue) ==> {
            let post = world.step(ResetStep::Enqueue);
            &&& post.promised + 1 == world.promised && post.queued
            &&& post.state == world.state && post.worker == world.worker
        },
        world.enabled(ResetStep::Start) ==> {
            let post = world.step(ResetStep::Start);
            &&& world.queued && world.worker is Off && !post.queued && post.worker is Started
            &&& post.state == world.state && post.promised == world.promised
        },
        world.enabled(ResetStep::Claim) ==> {
            let post = world.step(ResetStep::Claim);
            &&& world.worker is Started
            &&& post.worker is Resetting <==> world.state is Pending
            &&& post.worker is Leaving <==> !(world.state is Pending)
            &&& post.promised == world.promised && post.queued == world.queued
        },
        world.enabled(ResetStep::Complete) ==> {
            let post = world.step(ResetStep::Complete);
            &&& world.worker is Resetting && post.worker is Leaving
            &&& post.promised == world.promised && post.queued == world.queued
        },
        world.enabled(ResetStep::Leave) ==> {
            let post = world.step(ResetStep::Leave);
            &&& world.worker is Leaving && post.worker is Off && post.state == world.state
            &&& post.promised == world.promised && post.queued == world.queued
        },
        ResetWorld::idle().state is Idle && ResetWorld::idle().promised == 0
            && !ResetWorld::idle().queued && ResetWorld::idle().worker is Off,
{
}

/// A request that is pending is not stuck: there is always a step that brings it nearer
/// to its end.
pub proof fn law_pending_request_is_not_stuck(world: ResetWorld)
    requires
        world.inv(),
        world.state is Pending || world.state is InProgress,
    ensures
        world.promised > 0 || (world.queued && world.worker is Off) || !(world.worker is Off),
        world.promised > 0 ==> world.enabled(ResetStep::Enqueue),
        world.queued && world.worker is Off ==> world.enabled(ResetStep::Start),
        world.worker is Started ==> world.enabled(ResetStep::Claim),
        world.worker is Resetting ==> world.enabled(ResetStep::Complete),
        world.worker is Leaving ==> world.enabled(ResetStep::Leave),
{
}

/// Whether each of `steps` turns the world at its place into the next one, starting
/// without a request.
pub open spec fn reset_history(worlds: Seq<ResetWorld>, steps: Seq<ResetStep>) -> bool {
    &&& worlds.len() == steps.len() + 1
    &&& worlds[0] == ResetWorld::idle()
    &&& forall|t: int|
        #![trigger steps[t]]
        0 <= t < steps.len() ==> worlds[t].enabled(steps[t]) && worlds[t + 1] == worlds[t].step(
            steps[t],
        )
}

/// At every time of a history the invariant holds.
proof fn lemma_history_keeps_inv(worlds: Seq<ResetWorld>, steps: Seq<ResetStep>, t: int)
    requires
        reset_history(worlds, steps),
        0 <= t < worlds.len(),
    ensures
        worlds[t].inv(),
    decreases t,
{
    if t > 0 {
        lemma_history_keeps_inv(worlds, steps, t - 1);
        assert(worlds[t - 1].enabled(steps[t - 1]));
        law_request_is_delivered_once(worlds[t - 1], steps[t - 1]);
    }
}

/// Whenever teardown starts, from then on the state is shutting down, no work is
/// promised that was not before, and no reset starts.
pub proof fn law_teardown_is_final(
    worlds: Seq<ResetWorld>,
    steps: Seq<ResetStep>,
    s: int,
    u: int,
)
    requires
        reset_history(worlds, steps),
        0 <= s < u < worlds.len(),
        steps[s] is ShutDown,
    ensures
        worlds[u].state is ShuttingDown,
        worlds[u].promised <= worlds[s].promised,
        worlds[u].underway() <= worlds[s].underway(),
        worlds[u].worker is Resetting ==> worlds[s].worker is Resetting,
    decreases u - s,
{
    assert(worlds[u - 1].enabled(steps[u - 1]));
    if u > s + 1 {
        law_teardown_is_final(worlds, steps, s, u - 1);
        lemma_history_keeps_inv(worlds, steps, u - 1);
    }
}

/// Hardware is reset only for a request: over any history, when the worker starts to
/// reset hardware, the state has been pending, and it is in progress then.
pub proof fn law_reset_follows_a_request(worlds: Seq<ResetWorld>, steps: Seq<ResetStep>, t: int)
    requires
        reset_history(worlds, steps),
        0 <= t < steps.len(),
        !(worlds[t].worker is Resetting),
        worlds[t + 1].worker is Resetting,
    ensures
        steps[t] is Claim,
        worlds[t].state is Pending,
        worlds[t + 1].state is InProgress,
{
    assert(worlds[t].enabled(steps[t]));
}

/// The accesses of a soft reset: the flag that reports its completion is cleared, the
/// command is given, and then the same flag is waited for, for a limited time.
pub proof fn law_soft_reset_waits_for_its_own_completion()
    ensures
        soft_reset_ops().len() == 3,
        soft_reset_ops()[0] matches RegOp::Write { offset, value } && offset == 0x24 && value
            == 0x100,
        soft_reset_ops()[1] matches RegOp::Write { offset, value } && offset == 0x30 && value
            == 0x101,
        soft_reset_ops()[2] matches RegOp::Wait(poll) && poll.offset == 0x20 && poll.mask == 0x100
            && poll.set && 0 < poll.timeout_ms == 100 && poll.sleep_ms == 1,
{
}

/// What the calls of a controller do to its state.
pub proof fn law_calls_of_a_controller()
    ensures
        forall|c: Controller| #[trigger]
            call_ensures(Controller::new, (), c) ==> c.state() is Idle,
        forall|c: &mut Controller, from: ResetState, to: ResetState, res: bool| #[trigger]
            call_ensures(Controller::try_transition, (c, from, to), res) ==> {
                &&& res <==> c.state() == from
                &&& final(c).state() == if res {
                    to
                } else {
                    c.state()
                }
            },
        forall|c: &mut Controller, res: bool| #[trigger]
            call_ensures(Controller::reset_work, (c,), res) ==> {
                &&& res <==> c.state() is Pending
                &&& res ==> final(c).state() is InProgress
                &&& !res ==> final(c).state() == c.state()
            },
        forall|c: &mut Controller, result: Result<(), Error>, res: bool| #[trigger]
            call_ensures(Controller::reset_work_done, (c, result), res) ==> {
                &&& res <==> c.state() is InProgress
                &&& res ==> final(c).state() is Idle
                &&& !res ==> final(c).state() == c.state()
            },
        forall|c: &mut Controller, res: ()| #[trigger]
            call_ensures(Controller::shut_down, (c,), res) ==> final(c).state() is ShuttingDown,
        forall|c: Controller, res: ResetState| #[trigger]
            call_ensures(Controller::current, (&c,), res) ==> res == c.state(),
{
}

/// What the calls of a handle do: a request is taken, and its work queued, exactly while
/// the handle is idle; the worker claims what is pending and makes room for the next
/// request when it is done, well or not; and from shutting down on, nothing is queued.
pub proof fn law_calls_of_a_handle()
    ensures
        forall|h: &mut ResetHandle, t: &mut WorkTable, res: ()| #[trigger]
            call_ensures(ResetHandle::schedule, (h, t), res) ==> {
                &&& h.state() is Idle ==> final(h).state() is Pending
                &&& !(h.state() is Idle) ==> final(h).state() == h.state() && final(t)@ == t@
                &&& h.state() is Idle && h.stands_in(t@) && t@.works[h.work() as int].pending is None
                    && !t@.works[h.work() as int].canceling ==> final(t)@.works[h.work() as int].pending == Some(
                    Request { queue: h.queue(), delay: None },
                )
                &&& final(h).work() == h.work() && final(h).queue() == h.queue()
            },
        forall|h: &mut ResetHandle, res: bool| #[trigger]
            call_ensures(ResetHandle::reset_work, (h,), res) ==> {
                &&& res <==> h.state() is Pending
                &&& res ==> final(h).state() is InProgress
                &&& !res ==> final(h).state() == h.state()
                &&& final(h).work() == h.work() && final(h).queue() == h.queue()
            },
        forall|h: &mut ResetHandle, result: Result<(), Error>, res: bool| #[trigger]
            call_ensures(ResetHandle::reset_work_done, (h, result), res) ==> {
                &&& res <==> h.state() is InProgress
                &&& res ==> final(h).state() is Idle
                &&& !res ==> final(h).state() == h.state()
                &&& final(h).work() == h.work() && final(h).queue() == h.queue()
            },
        forall|h: &mut ResetHandle, res: ()| #[trigger]
            call_ensures(ResetHandle::shut_down, (h,), res) ==> final(h).state() is ShuttingDown
                && final(h).work() == h.work() && final(h).queue() == h.queue(),
        forall|h: ResetHandle, res: ResetState| #[trigger]
            call_ensures(ResetHandle::current, (&h,), res) ==> res == h.state(),
{
}

/// After a handle was shut down, scheduling a reset leaves it so and queues nothing.
pub proof fn law_schedule_after_shut_down()
    ensures
        forall|h: &mut ResetHandle, r: (), k: &mut ResetHandle, t: &mut WorkTable, s: ()|
            #[trigger] call_ensures(ResetHandle::shut_down, (h,), r) && *k == *final(h)
                && #[trigger] call_ensures(ResetHandle::schedule, (k, t), s) ==> final(k).state() is ShuttingDown && final(t)@ == t@,
{
}

/// A handle starts idle, with a work item and an ordered queue of its own that were not
/// there before; its work can be taken back, and its queue is drained when nothing is
/// pending on it or run from it.
pub proof fn law_handle_has_its_own_work()
    ensures
        forall|t: &mut WorkTable, room: Result<(), Error>, res: Result<ResetHandle, Error>|
            t@.wf() && #[trigger] call_ensures(ResetHandle::new, (t, room), res) ==> match room {
                Ok(_) => res matches Ok(h) && {
                    &&& h.state() is Idle
                    &&& h.work() == t@.works.len() && h.queue() == t@.queues.len()
                    &&& final(t)@.works.len() == t@.works.len() + 1
                    &&& final(t)@.works[h.work() as int].pending is None
                    &&& final(t)@.works[h.work() as int].running is None
                    &&& !final(t)@.works[h.work() as int].canceling
                    &&& final(t)@.queues.len() == t@.queues.len() + 1
                    &&& final(t)@.queues[h.queue() as int]
                },
                Err(e) => res matches Err(f) && f == e,
            },
        forall|h: ResetHandle, t: &mut WorkTable, res: Cancel|
            h.stands_in(t@) && #[trigger] call_ensures(ResetHandle::cancel, (&h, t), res) ==> {
                &&& res is Wait <==> t@.works[h.work() as int].running is Some
                &&& final(t)@.works[h.work() as int].pending is None
                &&& final(t)@.works[h.work() as int].running == t@.works[h.work() as int].running
            },
        forall|h: ResetHandle, t: WorkTable, res: Option<usize>| #[trigger]
            call_ensures(ResetHandle::drain, (&h, &t), res) ==> {
                &&& res is None ==> forall|w: int|
                    0 <= w < t@.works.len() ==> (#[trigger] t@.works[w]).running != Some(h.queue())
                        && (t@.works[w].pending matches Some(request) ==> request.queue
                        != h.queue())
                &&& res matches Some(w) ==> w < t@.works.len() && (t@.works[w as int].running
                    == Some(h.queue()) || (t@.works[w as int].pending matches Some(request)
                    && request.queue == h.queue()))
            },
{
    assert forall|h: ResetHandle, t: WorkTable, res: Option<usize>| #[trigger]
        call_ensures(ResetHandle::drain, (&h, &t), res) && res is None implies forall|w: int|
        0 <= w < t@.works.len() ==> (#[trigger] t@.works[w]).running != Some(h.queue()) && (
        t@.works[w].pending matches Some(request) ==> request.queue != h.queue()) by {
        t@.law_drained_queue_is_unused(h.queue());
        assert(forall|w: int| 0 <= w < t@.works.len() ==> t@.has(w));
    }
}

/// The accesses that a soft reset is issued with.
pub proof fn law_call_of_soft_reset()
    ensures
        forall|ops: Vec<RegOp>| #[trigger]
            call_ensures(issue_soft_reset, (), ops) ==> {
                &&& ops@.len() == 3
                &&& ops@[0] == (RegOp::Write { offset: 0x24, value: 0x100 })
                &&& ops@[1] == (RegOp::Write { offset: 0x30, value: 0x101 })
                &&& ops@[2] matches RegOp::Wait(poll) && poll.offset == 0x20 && poll.mask == 0x100
                    && poll.set
            },
{
}

} // verus!
