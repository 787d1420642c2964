//! The platform driver: in which order a device is brought up, and in which
//! order it is torn down.

use super::regs::IO_SIZE;
use crate::error::{Error, ENODEV};
use vstd::prelude::*;

verus! {

/// What userspace learns of the driver.
#[derive(Clone, Copy, Debug, PartialEq, Eq)]
pub struct DriverInfo {
    /// The major version.
    pub major: i32,
    /// The minor version.
    pub minor: i32,
    /// The patch level.
    pub patchlevel: i32,
    /// The name.
    pub name: &'static str,
    /// The description.
    pub desc: &'static str,
}

/// What userspace learns of the Tyr driver.
///
/// It goes by the name "panthor", which is the one that the userspace stack knows.
pub fn info() -> (res: DriverInfo)
    ensures
        res.major == 1,
        res.minor == 5,
        res.patchlevel == 0,
        res.name@ == "panthor"@,
        res.desc@ == "ARM Mali Tyr DRM driver"@,
{
    DriverInfo {
        major: 1,
        minor: 5,
        patchlevel: 0,
        name: "panthor",
        desc: "ARM Mali Tyr DRM driver",
    }
}

/// Whether the driver serves devices that a device tree calls `compatible`.
pub open spec fn serves(compatible: Seq<char>) -> bool {
    compatible == "rockchip,rk3588-mali"@ || compatible == "arm,mali-valhall-csf"@
}

/// The devices that the driver serves, as a device tree calls them.
pub fn of_table() -> (res: Vec<&'static str>)
    ensures
        res@.len() == 2,
        res@[0]@ == "rockchip,rk3588-mali"@,
        res@[1]@ == "arm,mali-valhall-csf"@,
        forall|compatible: Seq<char>|
            serves(compatible) <==> exists|i: int|
                0 <= i < res@.len() && (#[trigger] res@[i])@ == compatible,
{
    let mut table: Vec<&'static str> = Vec::new();
    table.push("rockchip,rk3588-mali");
    table.push("arm,mali-valhall-csf");
    assert(table@[0]@ == "rockchip,rk3588-mali"@);
    assert(table@[1]@ == "arm,mali-valhall-csf"@);
    table
}

/// A clock of the GPU.
#[derive(Clone, Copy, Debug, PartialEq, Eq, Structural)]
pub enum Clock {
    /// The clock of the cores.
    Core,
    /// The clock of the stacks.
    Stacks,
    /// The clock of the core group.
    Coregroup,
}

impl Clock {
    /// The name that the platform has for it.
    pub fn name(&self) -> (res: &'static str)
        ensures
            res@ == match *self {
                Clock::Core => "core"@,
                Clock::Stacks => "stacks"@,
                Clock::Coregroup => "coregroup"@,
            },
    {
        match *self {
            Clock::Core => "core",
            Clock::Stacks => "stacks",
            Clock::Coregroup => "coregroup",
        }
    }

    /// Whether a platform may do without it.
    pub fn is_optional(&self) -> (res: bool)
        ensures
            res == !(*self is Core),
    {
        match *self {
            Clock::Core => false,
            _ => true,
        }
    }
}

/// A regulator of the GPU.
#[derive(Clone, Copy, Debug, PartialEq, Eq, Structural)]
pub enum Supply {
    /// The supply of the GPU.
    Mali,
    /// The supply of its memories.
    Sram,
}

impl Supply {
    /// The name that the platform has for it.
    pub fn name(&self) -> (res: &'static str)
        ensures
            res@ == match *self {
                Supply::Mali => "mali"@,
                Supply::Sram => "sram"@,
            },
    {
        match *self {
            Supply::Mali => "mali",
            Supply::Sram => "sram",
        }
    }
}

/// What the driver goes by of what the hardware says of itself.
#[derive(Clone, Copy, Debug, PartialEq, Eq, Structural)]
pub struct GpuInfo {
    /// The number of bits in a physical address.
    pub pa_bits: u32,
    /// The address spaces that are present, one bit each.
    pub as_present: u32,
}

/// What is to be done next to bring a device up.
#[derive(Clone, Copy, Debug, PartialEq, Eq)]
pub enum Probe {
    /// Get a clock.
    GetClock(Clock),
    /// Prepare and enable a clock.
    EnableClock(Clock),
    /// Get a regulator, enabled.
    GetRegulator(Supply),
    /// Ask for the I/O region with the given index.
    RequestIo(u32),
    /// Map so many bytes of that region, and put the mapping behind a gate.
    MapIo(usize),
    /// Run a reset pass.
    Reset,
    /// Read what the hardware says of itself, past the hardware gate.
    ReadGpuInfo,
    /// Set the DMA mask to physical addresses of `pa_bits`.
    SetDmaMask(GpuInfo),
    /// Create the DRM device, not registered yet.
    CreateDevice(GpuInfo),
    /// Create the MMU with the address spaces `as_present`.
    CreateMmu(GpuInfo),
    /// Load the firmware.
    CreateFirmware(GpuInfo),
    /// Boot the firmware.
    BootFirmware(GpuInfo),
    /// Enable the firmware's global interface.
    EnableGlobalInterface(GpuInfo),
    /// Register the device, together with a new reset handle, the firmware, the
    /// clocks and the regulators.
    Register(GpuInfo),
    /// Nothing: the device is up, or an error has stopped the bring-up.
    Finished(Result<(), Error>),
}

/// What a step came to.
#[derive(Clone, Copy, Debug, PartialEq, Eq)]
pub enum Reply {
    /// It was done, or it failed.
    Done(Result<(), Error>),
    /// Whether there is such an I/O region.
    Found(bool),
    /// What the hardware says of itself.
    Gpu(GpuInfo),
}

impl Reply {
    /// Whether this is the kind of reply that `step` gets.
    pub open spec fn answers(self, step: Probe) -> bool {
        match step {
            Probe::RequestIo(_) => self is Found,
            Probe::ReadGpuInfo => self is Gpu,
            Probe::Finished(_) => false,
            _ => self is Done,
        }
    }

    /// The error that stops the bring-up, if there is one.
    pub open spec fn failure(self) -> Option<int> {
        match self {
            Reply::Done(Err(e)) => Some(e.code()),
            Reply::Found(false) => Some(ENODEV as int),
            _ => None,
        }
    }
}

impl Probe {
    /// The place of a step in the bring-up.
    pub open spec fn place(self) -> int {
        match self {
            Probe::GetClock(Clock::Core) => 0,
            Probe::GetClock(Clock::Stacks) => 1,
            Probe::GetClock(Clock::Coregroup) => 2,
            Probe::EnableClock(Clock::Core) => 3,
            Probe::EnableClock(Clock::Stacks) => 4,
            Probe::EnableClock(Clock::Coregroup) => 5,
            Probe::GetRegulator(Supply::Mali) => 6,
            Probe::GetRegulator(Supply::Sram) => 7,
            Probe::RequestIo(_) => 8,
            Probe::MapIo(_) => 9,
            Probe::Reset => 10,
            Probe::ReadGpuInfo => 11,
            Probe::SetDmaMask(_) => 12,
            Probe::CreateDevice(_) => 13,
            Probe::CreateMmu(_) => 14,
            Probe::CreateFirmware(_) => 15,
            Probe::BootFirmware(_) => 16,
            Probe::EnableGlobalInterface(_) => 17,
            Probe::Register(_) => 18,
            Probe::Finished(_) => 19,
        }
    }

    /// What the hardware was found to say of itself, once that was read.
    pub open spec fn gpu(self) -> Option<GpuInfo> {
        match self {
            Probe::SetDmaMask(gpu) => Some(gpu),
            Probe::CreateDevice(gpu) => Some(gpu),
            Probe::CreateMmu(gpu) => Some(gpu),
            Probe::CreateFirmware(gpu) => Some(gpu),
            Probe::BootFirmware(gpu) => Some(gpu),
            Probe::EnableGlobalInterface(gpu) => Some(gpu),
            Probe::Register(gpu) => Some(gpu),
            _ => None,
        }
    }

    /// The step asks for the first I/O region and for all of the registers.
    pub open spec fn wf(self) -> bool {
        match self {
            Probe::RequestIo(index) => index == 0,
            Probe::MapIo(size) => size == IO_SIZE,
            _ => true,
        }
    }

    /// Whether `res` is what is to be done after this step came to `reply`: a step
    /// that failed ends the bring-up with its error, and a missing I/O region ends
    /// it with `ENODEV`; otherwise the next step in order is due.
    pub open spec fn advances(self, reply: Reply, res: Probe) -> bool {
        &&& res.wf()
        &&& match reply.failure() {
            Some(code) => res matches Probe::Finished(Err(e)) && e.code() == code,
            None => {
                &&& res.place() == self.place() + 1
                &&& res matches Probe::Finished(result) ==> result is Ok
                &&& self.gpu() is Some && !(res is Finished) ==> res.gpu() == self.gpu()
                &&& reply matches Reply::Gpu(gpu) ==> res.gpu() == Some(gpu)
            },
        }
    }

    /// Starts to bring a device up.
    pub fn start() -> (res: Self)
        ensures
            res == Probe::GetClock(Clock::Core),
            res.wf(),
    {
        Probe::GetClock(Clock::Core)
    }

    /// The step that follows one that was done.
    fn following(self, seen: Option<GpuInfo>) -> (res: Self)
        requires
            self.wf(),
            !(self is Finished),
            self is ReadGpuInfo ==> seen is Some,
        ensures
            res.wf(),
            res.place() == self.place() + 1,
            res matches Probe::Finished(result) ==> result is Ok,
            self.gpu() is Some && !(res is Finished) ==> res.gpu() == self.gpu(),
            self is ReadGpuInfo ==> res.gpu() == seen,
    {
        match self {
            Probe::GetClock(Clock::Core) => Probe::GetClock(Clock::Stacks),
            Probe::GetClock(Clock::Stacks) => Probe::GetClock(Clock::Coregroup),
            Probe::GetClock(Clock::Coregroup) => Probe::EnableClock(Clock::Core),
            Probe::EnableClock(Clock::Core) => Probe::EnableClock(Clock::Stacks),
            Probe::EnableClock(Clock::Stacks) => Probe::EnableClock(Clock::Coregroup),
            Probe::EnableClock(Clock::Coregroup) => Probe::GetRegulator(Supply::Mali),
            Probe::GetRegulator(Supply::Mali) => Probe::GetRegulator(Supply::Sram),
            Probe::GetRegulator(Supply::Sram) => Probe::RequestIo(0),
            Probe::RequestIo(_) => Probe::MapIo(IO_SIZE),
            Probe::MapIo(_) => Probe::Reset,
            Probe::Reset => Probe::ReadGpuInfo,
            Probe::ReadGpuInfo => match seen {
                Some(gpu) => Probe::SetDmaMask(gpu),
                None => Probe::ReadGpuInfo,
            },
            Probe::SetDmaMask(gpu) => Probe::CreateDevice(gpu),
            Probe::CreateDevice(gpu) => Probe::CreateMmu(gpu),
            Probe::CreateMmu(gpu) => Probe::CreateFirmware(gpu),
            Probe::CreateFirmware(gpu) => Probe::BootFirmware(gpu),
            Probe::BootFirmware(gpu) => Probe::EnableGlobalInterface(gpu),
            Probe::EnableGlobalInterface(gpu) => Probe::Register(gpu),
            _ => Probe::Finished(Ok(())),
        }
    }

    /// Goes on with the bring-up after the step at hand came to `reply`: a step
    /// that failed ends it with its error, and a missing I/O region ends it with
    /// `ENODEV`.
    pub fn next(self, reply: Reply) -> (res: Self)
        requires
            self.wf(),
            reply.answers(self),
        ensures
            self.advances(reply, res),
            reply matches Reply::Done(Err(e)) ==> res == Probe::Finished(Err(e)),
    {
        match reply {
            Reply::Done(Err(e)) => Probe::Finished(Err(e)),
            Reply::Found(false) => Probe::Finished(Err(Error::from_errno(ENODEV))),
            Reply::Gpu(gpu) => self.following(Some(gpu)),
            _ => self.following(None),
        }
    }
}

impl Probe {
    /// Whether the regulator is on when this step is taken.
    pub open spec fn powered(self, supply: Supply) -> bool {
        !(self is Finished) && Probe::GetRegulator(supply).place() < self.place()
    }

    /// The regulators that are to be disabled where this step fails, in order: those
    /// that are on by then. They are disabled in the reverse of the order in which
    /// they were got.
    ///
    /// Where the registration fails, both are on, and the order is left to it.
    pub fn unwind(&self) -> (res: Vec<Supply>)
        ensures
            res@.no_duplicates(),
            forall|supply: Supply| #[trigger] res@.contains(supply) <==> self.powered(supply),
            !(*self is Register) ==> forall|i: int, j: int|
                0 <= i < j < res@.len() ==> Probe::GetRegulator(#[trigger] res@[i]).place()
                    > Probe::GetRegulator(#[trigger] res@[j]).place(),
    {
        let mut supplies: Vec<Supply> = Vec::new();
        match *self {
            Probe::GetClock(_) => (),
            Probe::EnableClock(_) => (),
            Probe::GetRegulator(Supply::Mali) => (),
            Probe::Finished(_) => (),
            Probe::GetRegulator(Supply::Sram) => {
                supplies.push(Supply::Mali);
                assert(supplies@[0] == Supply::Mali);
            },
            _ => {
                supplies.push(Supply::Sram);
                supplies.push(Supply::Mali);
                assert(supplies@[0] == Supply::Sram);
                assert(supplies@[1] == Supply::Mali);
            },
        }
        supplies
    }
}

/// What is to be done when a device goes away.
#[derive(Clone, Copy, Debug, PartialEq, Eq, Structural)]
pub enum Teardown {
    /// Stop new reset requests.
    ShutDownReset,
    /// Cancel the reset work, and wait for it.
    CancelReset,
    /// Drain the reset workqueue, and destroy it.
    DestroyResetQueue,
    /// Release the firmware.
    ReleaseFirmware,
    /// Disable and unprepare a clock.
    DisableClock(Clock),
    /// Disable a regulator.
    DisableRegulator(Supply),
}

/// The clocks of the GPU, in the order in which they are disabled.
pub open spec fn clocks() -> Seq<Clock> {
    seq![Clock::Core, Clock::Stacks, Clock::Coregroup]
}

/// What is to be done when a device goes away, in order.
pub open spec fn teardown_order() -> Seq<Teardown> {
    seq![
        Teardown::ShutDownReset,
        Teardown::CancelReset,
        Teardown::DestroyResetQueue,
        Teardown::ReleaseFirmware,
    ] + clocks().map_values(|clock: Clock| Teardown::DisableClock(clock)) + seq![
        Teardown::DisableRegulator(Supply::Mali),
        Teardown::DisableRegulator(Supply::Sram),
    ]
}

/// What is to be done when a registered device goes away, in order.
///
/// Queued and running reset work is drained before clocks and regulators are
/// released.
pub fn teardown() -> (res: Vec<Teardown>)
    ensures
        res@ == teardown_order(),
{
    let mut steps: Vec<Teardown> = Vec::new();
    steps.push(Teardown::ShutDownReset);
    steps.push(Teardown::CancelReset);
    steps.push(Teardown::DestroyResetQueue);
    steps.push(Teardown::ReleaseFirmware);
    steps.push(Teardown::DisableClock(Clock::Core));
    steps.push(Teardown::DisableClock(Clock::Stacks));
    steps.push(Teardown::DisableClock(Clock::Coregroup));
    steps.push(Teardown::DisableRegulator(Supply::Mali));
    steps.push(Teardown::DisableRegulator(Supply::Sram));
    assert(steps@ =~= teardown_order());
    steps
}

/// New requests are stopped, and the reset work and its queue are drained, before
/// any clock or regulator is released.
pub proof fn law_reset_is_drained_first(i: int, j: int)
    requires
        0 <= i < teardown_order().len(),
        0 <= j < teardown_order().len(),
        teardown_order()[i] is ShutDownReset || teardown_order()[i] is CancelReset
            || teardown_order()[i] is DestroyResetQueue,
        teardown_order()[j] is DisableClock || teardown_order()[j] is DisableRegulator
            || teardown_order()[j] is ReleaseFirmware,
    ensures
        i < j,
{
}

/// Every clock that the bring-up enables is disabled by the teardown, once.
pub proof fn law_every_clock_is_disabled(clock: Clock)
    ensures
        exists|i: int|
            0 <= i < teardown_order().len() && #[trigger] teardown_order()[i]
                == Teardown::DisableClock(clock),
        forall|i: int, j: int|
            0 <= i < teardown_order().len() && 0 <= j < teardown_order().len()
                && teardown_order()[i] == Teardown::DisableClock(clock) && teardown_order()[j]
                == Teardown::DisableClock(clock) ==> i == j,
{
    let i: int = match clock {
        Clock::Core => 4,
        Clock::Stacks => 5,
        Clock::Coregroup => 6,
    };
    assert(teardown_order()[i] == Teardown::DisableClock(clock));
}

/// Whether `steps` is a bring-up in which each step came to the reply beside it.
pub open spec fn brings_up(steps: Seq<Probe>, replies: Seq<Reply>) -> bool {
    &&& steps.len() == replies.len() + 1
    &&& steps[0] == Probe::GetClock(Clock::Core)
    &&& forall|i: int|
        #![trigger replies[i]]
        0 <= i < replies.len() ==> replies[i].answers(steps[i]) && steps[i].advances(
            replies[i],
            steps[i + 1],
        )
}

/// The steps of a bring-up come in their order, and none but the last fails.
proof fn lemma_steps_in_order(steps: Seq<Probe>, replies: Seq<Reply>, i: int)
    requires
        brings_up(steps, replies),
        0 <= i < replies.len(),
    ensures
        steps[i].place() == i,
        i + 1 < replies.len() ==> replies[i].failure() is None,
    decreases i,
{
    if i > 0 {
        lemma_steps_in_order(steps, replies, i - 1);
        assert(replies[i - 1].answers(steps[i - 1]));
    }
    assert(replies[i].answers(steps[i]));
    if i + 1 < replies.len() {
        assert(replies[i + 1].answers(steps[i + 1]));
    }
}

/// A bring-up takes its steps in order and leaves none out: the registers are
/// touched only when all clocks are enabled and both regulators are on, and the
/// device is registered only after it was reset and its firmware was booted. It
/// succeeds exactly if every step did, and otherwise reports the error of the
/// step that failed, which is the last one that was tried.
pub proof fn law_bring_up_takes_every_step(steps: Seq<Probe>, replies: Seq<Reply>)
    requires
        brings_up(steps, replies),
        steps.last() is Finished,
    ensures
        forall|i: int| 0 <= i < replies.len() ==> (#[trigger] steps[i]).place() == i,
        forall|i: int|
            0 <= i < replies.len() - 1 ==> (#[trigger] replies[i]).failure() is None,
        replies.len() > 0,
        match steps.last() {
            Probe::Finished(Ok(_)) => replies.len() == 19 && replies.last().failure() is None,
            Probe::Finished(Err(e)) => replies.last().failure() == Some(e.code()),
            _ => false,
        },
{
    assert forall|i: int| 0 <= i < replies.len() implies (#[trigger] steps[i]).place() == i by {
        lemma_steps_in_order(steps, replies, i);
    }
    assert forall|i: int| 0 <= i < replies.len() - 1 implies (
    #[trigger] replies[i]).failure() is None by {
        lemma_steps_in_order(steps, replies, i);
    }
    let last = replies.len() - 1;
    assert(replies[last].answers(steps[last]));
    assert(steps[last + 1] == steps.last());
}

/// The regulators that are on when a step of a bring-up fails are those that were
/// got in the course of it, so disabling them leaves none on.
pub proof fn law_failed_bring_up_knows_its_regulators(
    steps: Seq<Probe>,
    replies: Seq<Reply>,
    supply: Supply,
)
    requires
        brings_up(steps, replies),
        replies.len() > 0,
        replies.last().failure() is Some,
    ensures
        steps[replies.len() - 1].powered(supply) <==> exists|i: int|
            0 <= i < replies.len() && #[trigger] steps[i] == Probe::GetRegulator(supply)
                && replies[i].failure() is None,
{
    let last = replies.len() - 1;
    let place = Probe::GetRegulator(supply).place();
    lemma_steps_in_order(steps, replies, last);
    assert(replies[last].answers(steps[last]));
    if place < last {
        lemma_steps_in_order(steps, replies, place);
        assert(steps[place] == Probe::GetRegulator(supply));
    }
    if exists|i: int|
        0 <= i < replies.len() && #[trigger] steps[i] == Probe::GetRegulator(supply)
            && replies[i].failure() is None {
        let i = choose|i: int|
            0 <= i < replies.len() && #[trigger] steps[i] == Probe::GetRegulator(supply)
                && replies[i].failure() is None;
        lemma_steps_in_order(steps, replies, i);
    }
}

/// A step that came to an error ends the bring-up with that very error, whatever its
/// number and whichever step it was; a missing I/O region ends it with `ENODEV`; and
/// nothing else ends it with an error.
pub proof fn law_error_ends_the_bring_up(step: Probe, reply: Reply, res: Probe)
    requires
        step.advances(reply, res),
    ensures
        reply matches Reply::Done(Err(e)) ==> res == Probe::Finished(Err(e)),
        reply == Reply::Found(false) ==> (res matches Probe::Finished(Err(e)) && e.code() == -19),
        (res matches Probe::Finished(Err(_))) ==> (reply matches Reply::Done(Err(_))) || reply
            == Reply::Found(false),
{
    if let Reply::Done(Err(e)) = reply {
        if let Probe::Finished(Err(f)) = res {
            Error::law_code_identifies(e, f);
        }
    }
}

/// The steps of a bring-up of hardware that says `gpu` of itself, in order: the clocks
/// are got and then enabled, the regulators are got, the registers are mapped, the GPU
/// is reset before it is asked what it is, the device and its MMU are made, and the
/// firmware is loaded, booted and enabled before the device is registered.
pub open spec fn bring_up(gpu: GpuInfo) -> Seq<Probe> {
    seq![
        Probe::GetClock(Clock::Core),
        Probe::GetClock(Clock::Stacks),
        Probe::GetClock(Clock::Coregroup),
        Probe::EnableClock(Clock::Core),
        Probe::EnableClock(Clock::Stacks),
        Probe::EnableClock(Clock::Coregroup),
        Probe::GetRegulator(Supply::Mali),
        Probe::GetRegulator(Supply::Sram),
        Probe::RequestIo(0),
        Probe::MapIo(0x200000),
        Probe::Reset,
        Probe::ReadGpuInfo,
        Probe::SetDmaMask(gpu),
        Probe::CreateDevice(gpu),
        Probe::CreateMmu(gpu),
        Probe::CreateFirmware(gpu),
        Probe::BootFirmware(gpu),
        Probe::EnableGlobalInterface(gpu),
        Probe::Register(gpu),
        Probe::Finished(Ok(())),
    ]
}

/// A reply of success to each step brings up the next one of a bring-up of the hardware
/// that was found, and what was found is kept to the end.
pub proof fn law_success_leads_to_the_next_step(
    step: Probe,
    reply: Reply,
    res: Probe,
    gpu: GpuInfo,
    i: int,
)
    requires
        0 <= i < 19,
        step == bring_up(gpu)[i],
        reply.answers(step),
        step.advances(reply, res),
        reply == Reply::Done(Ok(())) || reply == Reply::Found(true) || reply == Reply::Gpu(gpu),
    ensures
        res == bring_up(gpu)[i + 1],
{
    if let Probe::Finished(Ok(unit)) = res {
        assert(unit == ());
    }
}

/// A bring-up that has ended well has taken every step of `bring_up`, for the hardware
/// that it found, and each of them came to success: every reply was that something was
/// done, found or read.
pub proof fn law_good_bring_up_had_good_replies(
    steps: Seq<Probe>,
    replies: Seq<Reply>,
    i: int,
)
    requires
        brings_up(steps, replies),
        steps.last() matches Probe::Finished(result) && result is Ok,
        0 <= i < replies.len(),
    ensures
        replies.len() == 19,
        replies[11] is Gpu,
        steps == bring_up(replies[11]->Gpu_0),
        i == 8 ==> replies[i] == Reply::Found(true),
        i == 11 ==> replies[i] is Gpu,
        i != 8 && i != 11 ==> (replies[i] matches Reply::Done(result) && result is Ok),
{
    law_bring_up_takes_every_step(steps, replies);
    assert(steps[19] == steps.last());
    lemma_replies(steps, replies, i);
    lemma_replies(steps, replies, 11);
    let gpu = replies[11]->Gpu_0;
    assert forall|k: int| 0 <= k < 20 implies steps[k] == bring_up(gpu)[k] by {
        lemma_bring_up_prefix(steps, replies, k);
    }
    assert(steps =~= bring_up(gpu));
}

/// The replies of a bring-up that has ended well are all good.
proof fn lemma_replies(steps: Seq<Probe>, replies: Seq<Reply>, i: int)
    requires
        brings_up(steps, replies),
        steps.last() matches Probe::Finished(result) && result is Ok,
        0 <= i < replies.len(),
        replies.len() == 19,
    ensures
        steps[i].place() == i,
        !(replies[i] matches Reply::Done(Err(_))),
        replies[i] != Reply::Found(false),
        replies[i].answers(steps[i]),
        steps[i].advances(replies[i], steps[i + 1]),
        i == 8 <==> replies[i] is Found,
        i == 11 <==> replies[i] is Gpu,
{
    lemma_steps_in_order(steps, replies, i);
    assert(replies[i].answers(steps[i]));
    law_error_ends_the_bring_up(steps[i], replies[i], steps[i + 1]);
    if i + 1 < replies.len() {
        assert(replies[i + 1].answers(steps[i + 1]));
    } else {
        assert(steps[i + 1] == steps.last());
    }
}

/// The steps of a bring-up that has ended well are those of `bring_up`.
proof fn lemma_bring_up_prefix(steps: Seq<Probe>, replies: Seq<Reply>, k: int)
    requires
        brings_up(steps, replies),
        steps.last() matches Probe::Finished(result) && result is Ok,
        replies.len() == 19,
        0 <= k < 20,
    ensures
        steps[k] == bring_up(replies[11]->Gpu_0)[k],
    decreases k,
{
    if k > 0 {
        let gpu = replies[11]->Gpu_0;
        lemma_bring_up_prefix(steps, replies, k - 1);
        lemma_replies(steps, replies, k - 1);
        let reply = replies[k - 1];
        if let Reply::Done(Ok(unit)) = reply {
            assert(unit == ());
        }
        if let Reply::Found(found) = reply {
            assert(found);
        }
        law_success_leads_to_the_next_step(steps[k - 1], reply, steps[k], gpu, k - 1);
    }
}

/// A bring-up that has ended with an error ended with the reply to its last step: that
/// step came to this error, or found no I/O region, and all steps before it went well.
pub proof fn law_failed_bring_up_reports_its_last_step(
    steps: Seq<Probe>,
    replies: Seq<Reply>,
    error: Error,
    i: int,
)
    requires
        brings_up(steps, replies),
        steps.last() == Probe::Finished(Err(error)),
        0 <= i < replies.len(),
    ensures
        replies.last() == Reply::Done(Err(error)) || (replies.last() == Reply::Found(false)
            && error.code() == -19),
        i + 1 < replies.len() ==> !(replies[i] matches Reply::Done(Err(_))) && replies[i]
            != Reply::Found(false),
{
    let last = replies.len() - 1;
    assert(replies[last].answers(steps[last]));
    assert(steps[last + 1] == steps.last());
    law_error_ends_the_bring_up(steps[last], replies[last], steps[last + 1]);
    assert(replies[i].answers(steps[i]));
    law_error_ends_the_bring_up(steps[i], replies[i], steps[i + 1]);
    if i + 1 < replies.len() {
        assert(replies[i + 1].answers(steps[i + 1]));
    }
}

/// A bring-up that fails after a regulator was got has to disable it, and one that fails
/// before, or where getting it failed, does not.
pub proof fn law_powered_regulators_were_got(supply: Supply, gpu: GpuInfo, i: int)
    requires
        0 <= i < 19,
    ensures
        supply is Mali ==> (bring_up(gpu)[i].powered(supply) <==> i > 6),
        supply is Sram ==> (bring_up(gpu)[i].powered(supply) <==> i > 7),
{
}

/// What is done when a device goes away: new resets are stopped before the reset work
/// is cancelled, which is before its queue goes, the firmware after that, and then what
/// keeps the hardware going; all clocks before any regulator. Nothing is done twice.
pub proof fn law_teardown_goes_from_work_to_power(i: int, j: int)
    requires
        0 <= i < j < teardown_order().len(),
    ensures
        teardown_order().len() == 9,
        teardown_order()[i] != teardown_order()[j],
        teardown_order()[0] is ShutDownReset,
        teardown_order()[1] is CancelReset,
        teardown_order()[2] is DestroyResetQueue,
        teardown_order()[3] is ReleaseFirmware,
        teardown_order()[i] is DisableRegulator ==> teardown_order()[j] is DisableRegulator,
        teardown_order()[j] is DisableClock ==> !(teardown_order()[i] is DisableRegulator),
        4 <= i < 7 <==> teardown_order()[i] is DisableClock,
{
}

/// Every regulator that the bring-up gets is disabled by the teardown.
pub proof fn law_every_regulator_is_disabled(supply: Supply)
    ensures
        exists|i: int|
            0 <= i < teardown_order().len() && #[trigger] teardown_order()[i]
                == Teardown::DisableRegulator(supply),
{
    let i: int = match supply {
        Supply::Mali => 7,
        Supply::Sram => 8,
    };
    assert(teardown_order()[i] == Teardown::DisableRegulator(supply));
}

/// What a call of [`Probe::next`] comes to: an error is handed on as it is, a missing I/O
/// region is `ENODEV`, and success brings up the next step for the hardware that was
/// found.
pub proof fn law_call_of_next(gpu: GpuInfo, i: int)
    requires
        0 <= i < 19,
    ensures
        forall|step: Probe| #[trigger]
            call_ensures(Probe::start, (), step) ==> step == bring_up(gpu)[0],
        forall|step: Probe, e: Error, res: Probe| #[trigger]
            call_ensures(Probe::next, (step, Reply::Done(Err(e))), res) ==> res == Probe::Finished(
                Err(e),
            ),
        forall|step: Probe, res: Probe| #[trigger]
            call_ensures(Probe::next, (step, Reply::Found(false)), res) ==> (
            res matches Probe::Finished(Err(e)) && e.code() == -19),
        forall|reply: Reply, res: Probe|
            reply.answers(bring_up(gpu)[i]) && (reply == Reply::Done(Ok(())) || reply
                == Reply::Found(true) || reply == Reply::Gpu(gpu)) && #[trigger] call_ensures(
                Probe::next,
                (bring_up(gpu)[i], reply),
                res,
            ) ==> res == bring_up(gpu)[i + 1],
{
    assert forall|reply: Reply, res: Probe|
        reply.answers(bring_up(gpu)[i]) && (reply == Reply::Done(Ok(())) || reply == Reply::Found(
            true,
        ) || reply == Reply::Gpu(gpu)) && #[trigger] call_ensures(
            Probe::next,
            (bring_up(gpu)[i], reply),
            res,
        ) implies res == bring_up(gpu)[i + 1] by {
        law_success_leads_to_the_next_step(bring_up(gpu)[i], reply, res, gpu, i);
    }
}

/// What is disabled where a step of the bring-up fails: nothing before a regulator was
/// got, then that one, and later both, the one that was got last first.
pub proof fn law_call_of_unwind(gpu: GpuInfo, i: int)
    requires
        0 <= i < 19,
    ensures
        forall|res: Vec<Supply>| #[trigger]
            call_ensures(Probe::unwind, (&bring_up(gpu)[i],), res) ==> {
                &&& i <= 6 ==> res@.len() == 0
                &&& i == 7 ==> res@ == seq![Supply::Mali]
                &&& 7 < i < 18 ==> res@ == seq![Supply::Sram, Supply::Mali]
                &&& i == 18 ==> res@.len() == 2 && res@.contains(Supply::Mali) && res@.contains(
                    Supply::Sram,
                )
            },
{
    let step = bring_up(gpu)[i];
    assert forall|res: Vec<Supply>| #[trigger]
        call_ensures(Probe::unwind, (&step,), res) implies {
        &&& i <= 6 ==> res@.len() == 0
        &&& i == 7 ==> res@ == seq![Supply::Mali]
        &&& 7 < i < 18 ==> res@ == seq![Supply::Sram, Supply::Mali]
        &&& i == 18 ==> res@.len() == 2 && res@.contains(Supply::Mali) && res@.contains(
            Supply::Sram,
        )
    } by {
        lemma_two_supplies(res@);
        assert(res@.contains(Supply::Mali) <==> step.powered(Supply::Mali));
        assert(res@.contains(Supply::Sram) <==> step.powered(Supply::Sram));
        if i == 7 {
            assert(res@ =~= seq![Supply::Mali]);
        }
        if 7 < i < 18 {
            let a = res@.index_of(Supply::Sram);
            let b = res@.index_of(Supply::Mali);
            assert(res@[a] == Supply::Sram && res@[b] == Supply::Mali);
            assert(res@ =~= seq![Supply::Sram, Supply::Mali]);
        }
    }
}

/// A list of regulators without duplicates has as many as there are in it.
proof fn lemma_two_supplies(supplies: Seq<Supply>)
    requires
        supplies.no_duplicates(),
    ensures
        supplies.len() <= 2,
        supplies.len() == 2 <==> supplies.contains(Supply::Mali) && supplies.contains(Supply::Sram),
        supplies.len() == 0 <==> !supplies.contains(Supply::Mali) && !supplies.contains(
            Supply::Sram,
        ),
        supplies.len() == 1 ==> supplies.contains(supplies[0]),
        forall|i: int| 0 <= i < supplies.len() ==> supplies.contains(#[trigger] supplies[i]),
{
    if supplies.len() > 0 {
        assert(supplies.contains(supplies[0]));
    }
    if supplies.len() > 1 {
        assert(supplies.contains(supplies[1]));
        assert(supplies[0] != supplies[1]);
    }
    if supplies.len() > 2 {
        assert(supplies[0] != supplies[2] && supplies[1] != supplies[2]);
    }
    if supplies.len() == 1 && supplies.contains(Supply::Mali) && supplies.contains(Supply::Sram) {
        let i = supplies.index_of(Supply::Mali);
        let j = supplies.index_of(Supply::Sram);
        assert(supplies[i] == Supply::Mali && supplies[j] == Supply::Sram);
    }
}

/// What is done, in order, when a device goes away, and which clocks a platform may do
/// without.
pub proof fn law_calls_on_the_way_out()
    ensures
        forall|res: Vec<Teardown>| #[trigger]
            call_ensures(teardown, (), res) ==> res@ == seq![
                Teardown::ShutDownReset,
                Teardown::CancelReset,
                Teardown::DestroyResetQueue,
                Teardown::ReleaseFirmware,
                Teardown::DisableClock(Clock::Core),
                Teardown::DisableClock(Clock::Stacks),
                Teardown::DisableClock(Clock::Coregroup),
                Teardown::DisableRegulator(Supply::Mali),
                Teardown::DisableRegulator(Supply::Sram),
            ],
        forall|clock: Clock, res: bool| #[trigger]
            call_ensures(Clock::is_optional, (&clock,), res) ==> (res <==> clock != Clock::Core),
{
    assert(teardown_order() =~= seq![
        Teardown::ShutDownReset,
        Teardown::CancelReset,
        Teardown::DestroyResetQueue,
        Teardown::ReleaseFirmware,
        Teardown::DisableClock(Clock::Core),
        Teardown::DisableClock(Clock::Stacks),
        Teardown::DisableClock(Clock::Coregroup),
        Teardown::DisableRegulator(Supply::Mali),
        Teardown::DisableRegulator(Supply::Sram),
    ]);
}

} // verus!
