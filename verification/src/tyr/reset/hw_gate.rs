//! Hardware-access gate for the GPU reset cycle.
//!
//! A [`HwGate`] coordinates reset-sensitive hardware access with reset. Readers
//! are admitted as long as it is open. The reset worker shuts it, waits for the
//! readers that were admitted, and then has the hardware to itself until it opens
//! it again.
//!
//! Where one of them has to wait, it is told so, and tries again when another
//! has left.

use vstd::prelude::*;

verus! {

/// How far the hardware gate is shut.
#[derive(Clone, Copy, Debug, PartialEq, Eq, Structural)]
pub enum GatePhase {
    /// Readers are admitted.
    Open,
    /// No reader is admitted, and those inside are waited for.
    Draining,
    /// No reader is inside.
    Closed,
}

/// Synchronizes GPU hardware access with reset.
pub struct HwGate {
    phase: GatePhase,
    /// The number of readers that are inside.
    readers: u64,
}

/// Shared hardware access that blocks reset until it is given back with
/// [`HwGate::leave`].
#[must_use]
pub struct HwAccessGuard {
    _entered: (),
}

/// The hardware gate shut against new readers, on its way to [`HwClosedGuard`].
#[must_use]
pub struct HwDrainGuard {
    _shut: (),
}

/// Exclusive hardware access for the reset worker that blocks new hardware
/// accesses until it is given back with [`HwGate::open`].
#[must_use]
pub struct HwClosedGuard {
    _closed: (),
}

/// What waiting for the readers inside has come to.
pub enum Drain {
    /// They have all left.
    Closed(HwClosedGuard),
    /// Some are still inside.
    Wait(HwDrainGuard),
}

/// One thing that may happen at a gate.
pub enum GateStep {
    /// A reader enters.
    Enter,
    /// A reader leaves.
    Leave,
    /// The reset worker shuts the hardware gate.
    Shut,
    /// The reset worker finds all readers gone.
    Drained,
    /// The reset worker opens the hardware gate.
    Open,
}

impl HwGate {
    /// How far the hardware gate is shut.
    pub closed spec fn phase(self) -> GatePhase {
        self.phase
    }

    /// The number of readers that are inside.
    pub closed spec fn readers(self) -> nat {
        self.readers as nat
    }

    /// Nobody is inside while the hardware gate is closed.
    pub open spec fn wf(self) -> bool {
        self.phase() is Closed ==> self.readers() == 0
    }

    /// Whether nothing differs from `pre`.
    pub open spec fn same(self, pre: Self) -> bool {
        self.phase() == pre.phase() && self.readers() == pre.readers()
    }

    /// Whether `step` turns `pre` into this one.
    pub open spec fn follows(self, pre: Self, step: GateStep) -> bool {
        match step {
            GateStep::Enter => {
                &&& pre.phase() is Open
                &&& self.phase() is Open
                &&& self.readers() == pre.readers() + 1
            },
            GateStep::Leave => {
                &&& pre.readers() > 0
                &&& self.phase() == pre.phase()
                &&& self.readers() == pre.readers() - 1
            },
            GateStep::Shut => {
                &&& pre.phase() is Open
                &&& self.phase() is Draining
                &&& self.readers() == pre.readers()
            },
            GateStep::Drained => {
                &&& pre.phase() is Draining
                &&& pre.readers() == 0
                &&& self.phase() is Closed
                &&& self.readers() == pre.readers()
            },
            GateStep::Open => {
                &&& pre.phase() is Closed
                &&& self.phase() is Open
                &&& self.readers() == pre.readers()
            },
        }
    }

    /// Creates an open hardware-access gate.
    pub fn new() -> (res: Self)
        ensures
            res.wf(),
            res.phase() is Open,
            res.readers() == 0,
    {
        HwGate { phase: GatePhase::Open, readers: 0 }
    }

    /// Enters a reset-sensitive hardware-access section.
    ///
    /// Returns none, and changes nothing, where the hardware gate is not open: the reader
    /// has to wait for it.
    pub fn access(&mut self) -> (res: Option<HwAccessGuard>)
        requires
            old(self).wf(),
            old(self).readers() < u64::MAX,
        ensures
            final(self).wf(),
            res is Some <==> old(self).phase() is Open,
            res is Some ==> final(self).follows(*old(self), GateStep::Enter),
            res is None ==> final(self).same(*old(self)),
    {
        match self.phase {
            GatePhase::Open => {
                self.readers += 1;
                Some(HwAccessGuard { _entered: () })
            },
            _ => None,
        }
    }

    /// Leaves a reset-sensitive hardware-access section.
    pub fn leave(&mut self, guard: HwAccessGuard)
        requires
            old(self).wf(),
            old(self).readers() > 0,
        ensures
            final(self).wf(),
            final(self).follows(*old(self), GateStep::Leave),
            final(self).readers() + 1 == old(self).readers(),
            final(self).phase() == old(self).phase(),
    {
        self.readers -= 1;
    }

    /// Stops new readers for the reset worker.
    ///
    /// Returns none, and changes nothing, where another one has shut the hardware gate.
    pub fn close(&mut self) -> (res: Option<HwDrainGuard>)
        requires
            old(self).wf(),
        ensures
            final(self).wf(),
            res is Some <==> old(self).phase() is Open,
            res is Some ==> final(self).follows(*old(self), GateStep::Shut),
            res is None ==> final(self).same(*old(self)),
    {
        match self.phase {
            GatePhase::Open => {
                self.phase = GatePhase::Draining;
                Some(HwDrainGuard { _shut: () })
            },
            _ => None,
        }
    }

    /// Sees whether the readers that were admitted before the hardware gate was shut
    /// have left.
    pub fn synchronize(&mut self, guard: HwDrainGuard) -> (res: Drain)
        requires
            old(self).wf(),
            old(self).phase() is Draining,
        ensures
            final(self).wf(),
            res is Closed <==> old(self).readers() == 0,
            res is Closed ==> final(self).follows(*old(self), GateStep::Drained),
            res is Wait ==> final(self).same(*old(self)),
    {
        if self.readers == 0 {
            self.phase = GatePhase::Closed;
            Drain::Closed(HwClosedGuard { _closed: () })
        } else {
            Drain::Wait(guard)
        }
    }

    /// Opens the hardware gate after a reset.
    pub fn open(&mut self, guard: HwClosedGuard)
        requires
            old(self).wf(),
            old(self).phase() is Closed,
        ensures
            final(self).wf(),
            final(self).follows(*old(self), GateStep::Open),
    {
        self.phase = GatePhase::Open;
    }

    /// How far the hardware gate is shut.
    pub fn state(&self) -> (res: GatePhase)
        ensures
            res == self.phase(),
    {
        self.phase
    }

    /// The number of readers that are inside.
    pub fn inside(&self) -> (res: u64)
        ensures
            res == self.readers(),
    {
        self.readers
    }
}

/// A reset and a reset-sensitive access never happen at the same time: whatever
/// happens at a hardware gate, nobody is inside while it is closed, and nobody
/// enters from the moment it is shut until it is opened again.
pub proof fn law_reset_excludes_access(pre: HwGate, step: GateStep, post: HwGate)
    requires
        pre.wf(),
        post.follows(pre, step),
    ensures
        post.wf(),
        !(pre.phase() is Open) ==> post.readers() <= pre.readers(),
        pre.phase() is Closed && !(step is Open) ==> post.phase() is Closed,
{
}

/// A gate that is shut can always be closed once the readers inside have left, so
/// reset is not kept waiting by readers that come later.
pub proof fn law_shut_gate_drains(pre: HwGate, post: HwGate)
    requires
        pre.wf(),
        pre.phase() is Draining,
        post.follows(pre, GateStep::Leave),
    ensures
        post.phase() is Draining,
        post.readers() < pre.readers(),
        forall|next: HwGate| !#[trigger] next.follows(post, GateStep::Enter),
{
}

/// A reader that leaves undoes its entering: the hardware gate is as it was.
pub proof fn law_leaving_undoes_entering(pre: HwGate, mid: HwGate, post: HwGate)
    requires
        mid.follows(pre, GateStep::Enter),
        post.follows(mid, GateStep::Leave),
    ensures
        post.phase() == pre.phase(),
        post.readers() == pre.readers(),
        post.same(pre),
{
}

/// Every reader that leaves is one less inside, whatever the phase, and leaves the phase
/// alone.
pub proof fn law_leaving_counts(pre: HwGate, post: HwGate)
    requires
        post.follows(pre, GateStep::Leave),
    ensures
        post.readers() + 1 == pre.readers(),
        post.phase() == pre.phase(),
{
}

/// Entering is for an open gate, and one more is inside then.
pub proof fn law_entering_counts(pre: HwGate, post: HwGate)
    requires
        post.follows(pre, GateStep::Enter),
    ensures
        pre.phase() is Open,
        post.phase() is Open,
        post.readers() == pre.readers() + 1,
{
}

/// The reset worker takes the hardware gate from open over draining to closed and back
/// to open, and moves no reader; it is closed only when nobody is inside.
pub proof fn law_worker_turns_the_gate(pre: HwGate, step: GateStep, post: HwGate)
    requires
        post.follows(pre, step),
        !(step is Enter),
        !(step is Leave),
    ensures
        post.readers() == pre.readers(),
        step is Shut <==> pre.phase() is Open && post.phase() is Draining,
        step is Drained <==> pre.phase() is Draining && post.phase() is Closed,
        step is Open <==> pre.phase() is Closed && post.phase() is Open,
        post.phase() is Closed ==> post.readers() == 0,
{
}

/// A gate that is the same has the same phase and the same readers inside.
pub proof fn law_same_gate(pre: HwGate, post: HwGate)
    ensures
        post.same(pre) <==> post.phase() == pre.phase() && post.readers() == pre.readers(),
        pre.wf() <==> (pre.phase() is Closed ==> pre.readers() == 0),
{
}

/// Whether each of `steps` turns the hardware gate at its place into the next one.
pub open spec fn gate_history(gates: Seq<HwGate>, steps: Seq<GateStep>) -> bool {
    &&& gates.len() == steps.len() + 1
    &&& forall|t: int|
        #![trigger steps[t]]
        0 <= t < steps.len() ==> gates[t + 1].follows(gates[t], steps[t])
}

/// How many of the first `t` of `steps` are those of readers that enter.
pub open spec fn entered(steps: Seq<GateStep>, t: int) -> int
    decreases t,
{
    if t <= 0 {
        0
    } else {
        entered(steps, t - 1) + if steps[t - 1] is Enter {
            1int
        } else {
            0
        }
    }
}

/// How many of the first `t` of `steps` are those of readers that leave.
pub open spec fn left(steps: Seq<GateStep>, t: int) -> int
    decreases t,
{
    if t <= 0 {
        0
    } else {
        left(steps, t - 1) + if steps[t - 1] is Leave {
            1int
        } else {
            0
        }
    }
}

/// Over any history, those inside are those that have entered and not left. A gate
/// whose readers have all left has nobody inside, so that it can be closed.
pub proof fn law_readers_are_counted(gates: Seq<HwGate>, steps: Seq<GateStep>, t: int)
    requires
        gate_history(gates, steps),
        0 <= t < gates.len(),
    ensures
        gates[t].readers() == gates[0].readers() + entered(steps, t) - left(steps, t),
        gates[0].readers() == 0 && entered(steps, t) == left(steps, t) ==> gates[t].readers() == 0,
    decreases t,
{
    if t > 0 {
        law_readers_are_counted(gates, steps, t - 1);
        assert(gates[t - 1 + 1].follows(gates[t - 1], steps[t - 1]));
    }
}

/// What the calls at a hardware gate do: a reader is let in exactly while it is open and
/// is inside from then until it leaves, the worker shuts an open gate, has it closed
/// exactly when nobody is inside, and opens it again. Who is not let in, or waits,
/// changes nothing.
pub proof fn law_calls_at_the_gate()
    ensures
        forall|gate: HwGate| #[trigger]
            call_ensures(HwGate::new, (), gate) ==> gate.phase() is Open && gate.readers() == 0,
        forall|gate: &mut HwGate, res: Option<HwAccessGuard>| #[trigger]
            call_ensures(HwGate::access, (gate,), res) ==> {
                &&& res is Some <==> gate.phase() is Open
                &&& final(gate).phase() == gate.phase()
                &&& final(gate).readers() == gate.readers() + if res is Some {
                    1int
                } else {
                    0
                }
            },
        forall|gate: &mut HwGate, guard: HwAccessGuard, res: ()| #[trigger]
            call_ensures(HwGate::leave, (gate, guard), res) ==> final(gate).phase() == gate.phase()
                && final(gate).readers() + 1 == gate.readers(),
        forall|gate: &mut HwGate, res: Option<HwDrainGuard>| #[trigger]
            call_ensures(HwGate::close, (gate,), res) ==> {
                &&& res is Some <==> gate.phase() is Open
                &&& res is Some ==> final(gate).phase() is Draining
                &&& res is None ==> final(gate).phase() == gate.phase()
                &&& final(gate).readers() == gate.readers()
            },
        forall|gate: &mut HwGate, guard: HwDrainGuard, res: Drain| #[trigger]
            call_ensures(HwGate::synchronize, (gate, guard), res) ==> {
                &&& res is Closed <==> gate.readers() == 0
                &&& res is Closed ==> final(gate).phase() is Closed
                &&& res is Wait ==> final(gate).phase() == gate.phase()
                &&& final(gate).readers() == gate.readers()
            },
        forall|gate: &mut HwGate, guard: HwClosedGuard, res: ()| #[trigger]
            call_ensures(HwGate::open, (gate, guard), res) ==> final(gate).phase() is Open
                && final(gate).readers() == gate.readers(),
        forall|gate: HwGate, res: GatePhase| #[trigger]
            call_ensures(HwGate::state, (&gate,), res) ==> res == gate.phase(),
        forall|gate: HwGate, res: u64| #[trigger]
            call_ensures(HwGate::inside, (&gate,), res) ==> res == gate.readers(),
{
}

} // verus!
