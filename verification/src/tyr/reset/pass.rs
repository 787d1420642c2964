//! One synchronous GPU reset pass.
//!
//! A pass shuts the hardware gate, waits for the readers inside, resets the GPU
//! behind it, and opens it again, whatever the reset came to.

use super::hw_gate::{Drain, GateStep, HwClosedGuard, HwDrainGuard, HwGate};
use crate::error::Error;
use vstd::prelude::*;

verus! {

/// How far one synchronous GPU reset pass has come.
pub enum ResetPass {
    /// The hardware gate is to be shut.
    CloseGate,
    /// The readers inside are to be waited for.
    Drain(HwDrainGuard),
    /// A GPU soft reset is to be triggered, and its completion waited for.
    SoftReset(HwClosedGuard),
    /// L2 is to be powered back on.
    PowerOn(HwClosedGuard),
    /// The pass has ended, and the hardware gate is open again.
    Done(Result<(), Error>),
}

/// Starts one synchronous GPU reset pass.
///
/// On success, the GPU is left in a state suitable for reinitialization.
///
/// The sequence is as follows:
///   - Close the hardware gate.
///   - Trigger a GPU soft reset.
///   - Wait for the reset-complete IRQ status.
///   - Power L2 back on.
///   - Open the hardware gate.
pub fn run_reset() -> (res: ResetPass)
    ensures
        res is CloseGate,
{
    ResetPass::CloseGate
}

impl ResetPass {
    /// Whether `gate` is as far shut as the pass has come.
    pub open spec fn holds(self, gate: HwGate) -> bool {
        match self {
            ResetPass::CloseGate => true,
            ResetPass::Drain(_) => gate.phase() is Draining,
            ResetPass::SoftReset(_) => gate.phase() is Closed,
            ResetPass::PowerOn(_) => gate.phase() is Closed,
            ResetPass::Done(_) => true,
        }
    }

    /// Whether the pass is at `next`, and `gate` turned into `post`, after the step at
    /// hand came to `outcome`.
    ///
    /// A gate that another one has shut, and readers inside, are waited for. Where
    /// the soft reset fails, L2 is left alone. The pass ends with the error of the
    /// step that failed, and opens the hardware gate in any case.
    pub open spec fn goes_on(
        self,
        gate: HwGate,
        outcome: Result<(), Error>,
        next: Self,
        post: HwGate,
    ) -> bool {
        match self {
            ResetPass::CloseGate => if gate.phase() is Open {
                next is Drain && post.follows(gate, GateStep::Shut)
            } else {
                next is CloseGate && post.same(gate)
            },
            ResetPass::Drain(_) => if gate.readers() == 0 {
                next is SoftReset && post.follows(gate, GateStep::Drained)
            } else {
                next is Drain && post.same(gate)
            },
            ResetPass::SoftReset(_) => match outcome {
                Ok(_) => next is PowerOn && post.same(gate),
                Err(e) => next == ResetPass::Done(Err(e)) && post.follows(gate, GateStep::Open),
            },
            ResetPass::PowerOn(_) => next == ResetPass::Done(outcome) && post.follows(
                gate,
                GateStep::Open,
            ),
            ResetPass::Done(_) => next == self && post.same(gate),
        }
    }

    /// Goes on after the step at hand came to `outcome`, which does not matter for the
    /// steps that only the hardware gate has a part in.
    pub fn next(self, gate: &mut HwGate, outcome: Result<(), Error>) -> (res: Self)
        requires
            old(gate).wf(),
            self.holds(*old(gate)),
        ensures
            final(gate).wf(),
            res.holds(*final(gate)),
            self.goes_on(*old(gate), outcome, res, *final(gate)),
    {
        match self {
            ResetPass::CloseGate => match gate.close() {
                Some(guard) => ResetPass::Drain(guard),
                None => ResetPass::CloseGate,
            },
            ResetPass::Drain(guard) => match gate.synchronize(guard) {
                Drain::Closed(guard) => ResetPass::SoftReset(guard),
                Drain::Wait(guard) => ResetPass::Drain(guard),
            },
            ResetPass::SoftReset(guard) => match outcome {
                Ok(()) => ResetPass::PowerOn(guard),
                Err(e) => {
                    gate.open(guard);
                    ResetPass::Done(Err(e))
                },
            },
            ResetPass::PowerOn(guard) => {
                gate.open(guard);
                ResetPass::Done(outcome)
            },
            ResetPass::Done(result) => ResetPass::Done(result),
        }
    }
}

/// A reset pass and the hardware gate at one time.
pub struct Scene {
    /// The pass.
    pub pass: ResetPass,
    /// The hardware gate.
    pub gate: HwGate,
}

/// What happens in a scene.
pub enum PassEvent {
    /// The pass goes on after a step that came to this.
    GoOn(Result<(), Error>),
    /// A reader enters.
    Enter,
    /// A reader leaves.
    Leave,
}

impl Scene {
    /// Whether `event` turns this scene into `post`.
    pub open spec fn turns_into(self, event: PassEvent, post: Self) -> bool {
        match event {
            PassEvent::GoOn(outcome) => self.pass.goes_on(self.gate, outcome, post.pass, post.gate),
            PassEvent::Enter => post.gate.follows(self.gate, GateStep::Enter) && post.pass
                == self.pass,
            PassEvent::Leave => post.gate.follows(self.gate, GateStep::Leave) && post.pass
                == self.pass,
        }
    }
}

/// Whether `scenes` are those of a reset pass, during which readers come and go.
pub open spec fn reset_pass(scenes: Seq<Scene>, events: Seq<PassEvent>) -> bool {
    &&& scenes.len() == events.len() + 1
    &&& scenes[0].pass is CloseGate
    &&& scenes[0].gate.wf()
    &&& forall|t: int|
        #![trigger events[t]]
        0 <= t < events.len() ==> scenes[t].turns_into(events[t], scenes[t + 1])
}

/// At every time of a pass, the hardware gate is as far shut as the pass has come.
proof fn lemma_pass_holds_gate(scenes: Seq<Scene>, events: Seq<PassEvent>, t: int)
    requires
        reset_pass(scenes, events),
        0 <= t < scenes.len(),
    ensures
        scenes[t].gate.wf(),
        scenes[t].pass.holds(scenes[t].gate),
    decreases t,
{
    if t > 0 {
        lemma_pass_holds_gate(scenes, events, t - 1);
        assert(scenes[t - 1].turns_into(events[t - 1], scenes[t]));
    }
}

/// The hardware is only reset and powered on behind a closed gate, with no reader
/// inside, however readers come and go.
pub proof fn law_hardware_is_reset_behind_a_closed_gate(
    scenes: Seq<Scene>,
    events: Seq<PassEvent>,
    t: int,
)
    requires
        reset_pass(scenes, events),
        0 <= t < scenes.len(),
        scenes[t].pass is SoftReset || scenes[t].pass is PowerOn,
    ensures
        scenes[t].gate.phase() is Closed,
        scenes[t].gate.readers() == 0,
{
    lemma_pass_holds_gate(scenes, events, t);
}

/// When a pass ends, the hardware gate is open, whether the pass succeeded or failed.
/// The pass ends right after the soft reset failed, with its error, or after L2 was to
/// be powered on, with what that came to.
pub proof fn law_pass_reopens_gate(scenes: Seq<Scene>, events: Seq<PassEvent>, t: int)
    requires
        reset_pass(scenes, events),
        0 <= t < events.len(),
        !(scenes[t].pass is Done),
        scenes[t + 1].pass is Done,
    ensures
        scenes[t].gate.phase() is Closed,
        scenes[t + 1].gate.phase() is Open,
        events[t] matches PassEvent::GoOn(outcome) && scenes[t + 1].pass == ResetPass::Done(outcome)
            && (scenes[t].pass is PowerOn || (scenes[t].pass is SoftReset && outcome is Err)),
{
    lemma_pass_holds_gate(scenes, events, t);
    assert(scenes[t].turns_into(events[t], scenes[t + 1]));
}

/// L2 is only powered on after a soft reset that went well, so a pass that succeeds
/// has done both.
pub proof fn law_power_follows_a_good_reset(
    scenes: Seq<Scene>,
    events: Seq<PassEvent>,
    t: int,
) -> (s: int)
    requires
        reset_pass(scenes, events),
        0 <= t < scenes.len(),
        scenes[t].pass is PowerOn,
    ensures
        0 <= s < t,
        scenes[s].pass is SoftReset,
        events[s] matches PassEvent::GoOn(outcome) && outcome is Ok,
    decreases t,
{
    assert(scenes[t - 1].turns_into(events[t - 1], scenes[t]));
    if scenes[t - 1].pass is PowerOn {
        law_power_follows_a_good_reset(scenes, events, t - 1)
    } else {
        t - 1
    }
}

/// A pass goes on as soon as it can: it shuts an open gate, closes one that everybody
/// has left, and powers on after a soft reset that went well. As long as it waits,
/// nothing changes. It moves no reader, and it opens the hardware gate exactly when it
/// ends.
pub proof fn law_pass_goes_on_when_it_can(
    pass: ResetPass,
    gate: HwGate,
    outcome: Result<(), Error>,
    next: ResetPass,
    post: HwGate,
)
    requires
        gate.wf(),
        pass.holds(gate),
        pass.goes_on(gate, outcome, next, post),
    ensures
        post.readers() == gate.readers(),
        pass is CloseGate ==> (next is Drain <==> gate.phase() is Open) && (next is CloseGate
            <==> !(gate.phase() is Open)),
        pass is CloseGate && gate.phase() is Open ==> post.phase() is Draining,
        pass is Drain ==> gate.phase() is Draining && (next is SoftReset <==> gate.readers() == 0)
            && (next is Drain <==> gate.readers() > 0),
        pass is Drain && gate.readers() == 0 ==> post.phase() is Closed,
        pass is SoftReset && outcome is Ok ==> next is PowerOn,
        pass is SoftReset ==> (outcome matches Err(e) ==> next == ResetPass::Done(Err(e))),
        pass is PowerOn ==> next == ResetPass::Done(outcome),
        pass is Done ==> next == pass && post.phase() == gate.phase(),
        pass is SoftReset || pass is PowerOn ==> gate.phase() is Closed && (post.phase() is Open
            <==> next is Done) && (post.phase() is Closed <==> !(next is Done)),
        (pass is CloseGate && next is CloseGate) || (pass is Drain && next is Drain)
            ==> post.phase() == gate.phase(),
{
}

/// What a pass that has ended came to stays.
pub proof fn law_pass_result_stands(scenes: Seq<Scene>, events: Seq<PassEvent>, t: int, u: int)
    requires
        reset_pass(scenes, events),
        0 <= t <= u < scenes.len(),
        scenes[t].pass is Done,
    ensures
        scenes[u].pass == scenes[t].pass,
    decreases u - t,
{
    if t < u {
        law_pass_result_stands(scenes, events, t, u - 1);
        assert(scenes[u - 1].turns_into(events[u - 1], scenes[u]));
    }
}

/// A pass succeeds exactly if the soft reset and the powering on did: where the pass
/// has ended well, both have come to success before, in that order.
pub proof fn law_good_pass_did_both(scenes: Seq<Scene>, events: Seq<PassEvent>, t: int) -> (res: (
    int,
    int,
))
    requires
        reset_pass(scenes, events),
        0 <= t < scenes.len(),
        scenes[t].pass matches ResetPass::Done(result) && result is Ok,
    ensures
        0 <= res.0 < res.1 < t,
        scenes[res.0].pass is SoftReset,
        events[res.0] matches PassEvent::GoOn(outcome) && outcome is Ok,
        scenes[res.1].pass is PowerOn,
        events[res.1] matches PassEvent::GoOn(outcome) && outcome is Ok,
    decreases t,
{
    assert(scenes[t - 1].turns_into(events[t - 1], scenes[t]));
    if scenes[t - 1].pass is Done {
        law_good_pass_did_both(scenes, events, t - 1)
    } else {
        let reset = law_power_follows_a_good_reset(scenes, events, t - 1);
        (reset, t - 1)
    }
}

/// What a call of [`ResetPass::next`] comes to, whatever the pass and the hardware gate.
pub proof fn law_call_of_next()
    ensures
        forall|pass: ResetPass| #[trigger]
            call_ensures(run_reset, (), pass) ==> pass is CloseGate,
        forall|pass: ResetPass, gate: &mut HwGate, outcome: Result<(), Error>, res: ResetPass|
            pass.holds(*gate) && #[trigger] call_ensures(
                ResetPass::next,
                (pass, gate, outcome),
                res,
            ) ==> {
                &&& final(gate).readers() == gate.readers()
                &&& pass is CloseGate ==> (gate.phase() is Open <==> res is Drain)
                &&& pass is CloseGate ==> (!(gate.phase() is Open) <==> res is CloseGate)
                &&& pass is Drain ==> (gate.readers() == 0 <==> res is SoftReset)
                &&& pass is Drain ==> (gate.readers() > 0 <==> res is Drain)
                &&& pass is SoftReset && outcome is Ok ==> res is PowerOn
                &&& pass is SoftReset ==> (outcome matches Err(e) ==> res == ResetPass::Done(
                    Err(e),
                ))
                &&& pass is PowerOn ==> res == ResetPass::Done(outcome)
                &&& pass is Done ==> res == pass
                &&& res is Drain ==> final(gate).phase() is Draining
                &&& res is SoftReset || res is PowerOn ==> final(gate).phase() is Closed
                &&& res is Done && !(pass is Done) ==> final(gate).phase() is Open
            },
{
}

} // verus!
