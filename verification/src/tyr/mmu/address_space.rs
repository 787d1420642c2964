//! GPU address space management and hardware operations.
//!
//! This module decides how GPU hardware address spaces are configured, how
//! commands are submitted to them, and how page table update regions are
//! locked. Each operation is a sequence of register accesses, to be performed
//! in order until one fails.

use super::super::io::{Poll, RegOp};
use super::super::regs::{
    self, as_command, as_lockaddr_hi, as_lockaddr_lo, as_memattr_hi, as_memattr_lo, as_status,
    as_transcfg_hi, as_transcfg_lo, as_transtab_hi, as_transtab_lo, AS_COMMAND_FLUSH_MEM,
    AS_COMMAND_FLUSH_PT, AS_COMMAND_LOCK, AS_COMMAND_UPDATE, AS_STATUS_ACTIVE,
    AS_TRANSCFG_ADRMODE_UNMAPPED, MAX_AS_REGISTERS,
};
use super::super::slot::{Seat, SlotOperations};
use super::lock_region::{self, lock_region};
use crate::error::{Error, EINVAL};
use core::ops::Range;
use vstd::prelude::*;

verus! {

/// Hardware address space configuration registers.
///
/// Contains the values to be written to the GPU's AS registers when
/// activating this address space.
#[derive(Clone, Copy, Debug, PartialEq, Eq, Structural)]
pub struct AddressSpaceConfig {
    pub transcfg: u64,
    pub transtab: u64,
    pub memattr: u64,
}

/// What the hardware slot of a VM keeps of it: its configuration, and the number
/// of the page table that must not go away while the MMU points to it.
#[derive(Clone, Copy, Debug, PartialEq, Eq, Structural)]
pub struct AsBinding {
    pub as_config: AddressSpaceConfig,
    pub page_table: usize,
}

/// Any resource/information that is needed to make a VM active.
pub struct VmAsData {
    /// Tracks this VM's binding to a hardware address space slot.
    as_seat: Seat,
    /// Hardware configuration for this address space.
    as_config: AddressSpaceConfig,
    /// Number of the page table.
    page_table: usize,
}

impl VmAsData {
    /// The VM's claim on a hardware address space slot.
    pub closed spec fn seat(self) -> Seat {
        self.as_seat
    }

    /// What a slot keeps of the VM.
    pub closed spec fn binding(self) -> AsBinding {
        AsBinding { as_config: self.as_config, page_table: self.page_table }
    }

    /// A VM that has no slot yet.
    pub fn new(as_config: AddressSpaceConfig, page_table: usize) -> (res: Self)
        ensures
            res.seat() is NoSeat,
            res.binding() == (AsBinding { as_config, page_table }),
    {
        VmAsData { as_seat: Seat::NoSeat, as_config, page_table }
    }

    /// What a slot keeps of the VM.
    pub fn to_binding(&self) -> (res: AsBinding)
        ensures
            res == self.binding(),
    {
        AsBinding { as_config: self.as_config, page_table: self.page_table }
    }

    /// The VM's claim on a hardware address space slot.
    pub fn as_seat(&self) -> (res: &Seat)
        ensures
            *res == self.seat(),
    {
        &self.as_seat
    }

    /// The VM's claim on a hardware address space slot, to change it.
    pub(super) fn as_seat_mut(&mut self) -> (res: &mut Seat)
        ensures
            *res == old(self).seat(),
            *final(res) == final(self).seat(),
            final(self).binding() == old(self).binding(),
    {
        &mut self.as_seat
    }
}

/// The low half of `x`.
pub open spec fn low_word(x: u64) -> u32 {
    (x % 0x1_0000_0000) as u32
}

/// The high half of `x`.
pub open spec fn high_word(x: u64) -> u32 {
    (x / 0x1_0000_0000) as u32
}

/// Writing `value` to the register `offset` bytes into those of address space
/// `as_nr`.
pub open spec fn write_op(as_nr: int, offset: int, value: u32) -> RegOp {
    RegOp::Write { offset: (0x2400 + 64 * as_nr + offset) as usize, value }
}

/// Waiting until address space `as_nr` has no command in progress.
pub open spec fn wait_op(as_nr: int) -> RegOp {
    RegOp::Wait(
        Poll {
            offset: (0x2400 + 64 * as_nr + 0x28) as usize,
            mask: AS_STATUS_ACTIVE,
            set: false,
            sleep_ms: 0,
            timeout_ms: 10,
        },
    )
}

/// Sending command `cmd` to address space `as_nr`.
pub open spec fn send_ops(as_nr: int, cmd: u32) -> Seq<RegOp> {
    seq![wait_op(as_nr), write_op(as_nr, 0x18, cmd)]
}

/// Sending command `cmd` to address space `as_nr` and waiting for it to end.
pub open spec fn send_and_wait_ops(as_nr: int, cmd: u32) -> Seq<RegOp> {
    seq![wait_op(as_nr), write_op(as_nr, 0x18, cmd), wait_op(as_nr)]
}

/// Making address space `as_nr` translate as `config` says.
pub open spec fn enable_ops(as_nr: int, config: AddressSpaceConfig) -> Seq<RegOp> {
    seq![
        write_op(as_nr, 0x0, low_word(config.transtab)),
        write_op(as_nr, 0x4, high_word(config.transtab)),
        write_op(as_nr, 0x30, low_word(config.transcfg)),
        write_op(as_nr, 0x34, high_word(config.transcfg)),
        write_op(as_nr, 0x8, low_word(config.memattr)),
        write_op(as_nr, 0xc, high_word(config.memattr)),
    ] + send_and_wait_ops(as_nr, AS_COMMAND_UPDATE)
}

/// Making address space `as_nr` translate nothing, after a flush.
pub open spec fn disable_ops(as_nr: int) -> Seq<RegOp> {
    send_and_wait_ops(as_nr, AS_COMMAND_FLUSH_MEM) + seq![
        write_op(as_nr, 0x0, 0),
        write_op(as_nr, 0x4, 0),
        write_op(as_nr, 0x8, 0),
        write_op(as_nr, 0xc, 0),
        write_op(as_nr, 0x30, AS_TRANSCFG_ADRMODE_UNMAPPED as u32),
        write_op(as_nr, 0x34, 0),
    ] + send_and_wait_ops(as_nr, AS_COMMAND_UPDATE)
}

/// Locking the region of address space `as_nr` that `value` names.
pub open spec fn lock_ops(as_nr: int, value: u64) -> Seq<RegOp> {
    seq![write_op(as_nr, 0x10, low_word(value)), write_op(as_nr, 0x14, high_word(value))]
        + send_ops(as_nr, AS_COMMAND_LOCK)
}

/// The accesses that make a slot forget the VM in it. Each of the two
/// sequences is abandoned where one of its accesses fails, and the failure is
/// not reported.
pub struct EvictOps {
    /// Flushes the page tables.
    pub flush: Vec<RegOp>,
    /// Disables the address space, to be performed after `flush` in any case.
    pub disable: Vec<RegOp>,
}

impl EvictOps {
    /// Whether there is nothing to do.
    pub open spec fn none(self) -> bool {
        self.flush@.len() == 0 && self.disable@.len() == 0
    }

    /// Whether these accesses make slot `slot_idx` forget the VM in it. There are
    /// none where the registers cannot be accessed any more, or where the hardware
    /// does not have the slot.
    pub open spec fn evicts(
        self,
        spaces: AddressSpaceManager,
        slot_idx: usize,
        accessible: bool,
    ) -> bool {
        if accessible && spaces.has(slot_idx) {
            &&& self.flush@ == send_ops(slot_idx as int, AS_COMMAND_FLUSH_PT)
            &&& self.disable@ == disable_ops(slot_idx as int)
        } else {
            self.none()
        }
    }

    /// Nothing to do.
    pub fn new() -> (res: Self)
        ensures
            res.none(),
    {
        EvictOps { flush: Vec::new(), disable: Vec::new() }
    }
}

/// Splits a 64-bit register value in two words, the low one first.
fn split(value: u64) -> (res: (u32, u32))
    ensures
        res.0 == low_word(value),
        res.1 == high_word(value),
{
    assert((value & 0xffffffff) as u32 == value % 0x1_0000_0000) by (bit_vector);
    assert((value >> 32) as u32 == value / 0x1_0000_0000) by (bit_vector);
    ((value & 0xffffffff) as u32, (value >> 32) as u32)
}

/// Decides on the operations of the hardware address spaces.
#[derive(Clone, Copy, Debug, PartialEq, Eq)]
pub struct AddressSpaceManager {
    /// Bitmask of available address space slots from the GPU_AS_PRESENT register.
    as_present: u32,
    /// What performing the accesses that enable an address space came to, if they were
    /// performed.
    performed: Option<Result<(), Error>>,
}

impl SlotOperations for AddressSpaceManager {
    type SlotData = AsBinding;

    /// A slot that the hardware has is active if enabling its address space went
    /// well. The outcome serves for one activation, and without one there is none.
    open spec fn activated(
        pre: Self,
        slot_idx: int,
        slot_data: AsBinding,
        post: Self,
        res: Result<(), Error>,
    ) -> bool {
        &&& post.present() == pre.present()
        &&& post.performed() is None
        &&& match pre.performed() {
            Some(outcome) if pre.has(slot_idx as usize) => res == outcome,
            _ => res matches Err(e) && e.code() == EINVAL,
        }
    }

    /// Eviction always succeeds.
    open spec fn evicted(
        pre: Self,
        slot_idx: int,
        slot_data: AsBinding,
        post: Self,
        res: Result<(), Error>,
    ) -> bool {
        post == pre && res is Ok
    }

    fn activate(&mut self, slot_idx: usize, slot_data: &AsBinding) -> (res: Result<(), Error>) {
        let performed = self.performed;
        self.performed = None;
        if let Err(e) = self.validate_as_slot(slot_idx) {
            return Err(e);
        }
        match performed {
            Some(outcome) => outcome,
            None => Err(Error::from_errno(EINVAL)),
        }
    }

    fn evict(&mut self, slot_idx: usize, slot_data: &AsBinding) -> (res: Result<(), Error>) {
        Ok(())
    }
}

impl AddressSpaceManager {
    /// Bitmask of the address spaces that the hardware has.
    pub closed spec fn present(self) -> u32 {
        self.as_present
    }

    /// What performing the accesses that enable an address space came to, if they were
    /// performed.
    pub closed spec fn performed(self) -> Option<Result<(), Error>> {
        self.performed
    }

    /// Whether the hardware has address space `as_nr`.
    pub open spec fn has(self, as_nr: usize) -> bool {
        as_nr < MAX_AS_REGISTERS && self.present() & (1u32 << as_nr) != 0
    }

    /// Manages the address spaces in `as_present`.
    pub fn new(as_present: u32) -> (res: Self)
        ensures
            res.present() == as_present,
            res.performed() is None,
    {
        AddressSpaceManager { as_present, performed: None }
    }

    /// Takes note of what performing the accesses that enable an address space
    /// came to.
    pub fn perform(&mut self, outcome: Result<(), Error>)
        ensures
            final(self).present() == old(self).present(),
            final(self).performed() == Some(outcome),
    {
        self.performed = Some(outcome);
    }

    /// Forgets what was performed.
    pub fn forget(&mut self)
        ensures
            final(self).present() == old(self).present(),
            final(self).performed() is None,
    {
        self.performed = None;
    }

    /// Fails with `EINVAL` unless the hardware has address space `as_nr`.
    pub fn validate_as_slot(&self, as_nr: usize) -> (res: Result<(), Error>)
        ensures
            res is Ok <==> self.has(as_nr),
            res matches Err(e) ==> e.code() == EINVAL,
    {
        if as_nr >= MAX_AS_REGISTERS {
            return Err(Error::from_errno(EINVAL));
        }
        if (self.as_present & (1u32 << as_nr)) == 0 {
            return Err(Error::from_errno(EINVAL));
        }
        Ok(())
    }

    fn as_wait_ready(&self, as_nr: usize, ops: &mut Vec<RegOp>) -> (res: Result<(), Error>)
        requires
            as_nr < MAX_AS_REGISTERS,
        ensures
            res is Ok,
            final(ops)@ == old(ops)@.push(wait_op(as_nr as int)),
    {
        proof {
            regs::lemma_as_base(as_nr);
        }
        ops.push(
            RegOp::Wait(
                Poll {
                    offset: as_status(as_nr)?.offset(),
                    mask: AS_STATUS_ACTIVE,
                    set: false,
                    sleep_ms: 0,
                    timeout_ms: 10,
                },
            ),
        );
        Ok(())
    }

    fn as_send_cmd(&self, as_nr: usize, cmd: u32, ops: &mut Vec<RegOp>) -> (res: Result<(), Error>)
        requires
            as_nr < MAX_AS_REGISTERS,
        ensures
            res is Ok,
            final(ops)@ == old(ops)@ + send_ops(as_nr as int, cmd),
    {
        proof {
            regs::lemma_as_base(as_nr);
        }
        self.as_wait_ready(as_nr, ops)?;
        ops.push(as_command(as_nr)?.write(cmd));
        Ok(())
    }

    fn as_send_cmd_and_wait(&self, as_nr: usize, cmd: u32, ops: &mut Vec<RegOp>) -> (res: Result<
        (),
        Error,
    >)
        requires
            as_nr < MAX_AS_REGISTERS,
        ensures
            res is Ok,
            final(ops)@ == old(ops)@ + send_and_wait_ops(as_nr as int, cmd),
    {
        self.as_send_cmd(as_nr, cmd, ops)?;
        self.as_wait_ready(as_nr, ops)?;
        Ok(())
    }

    /// The accesses that make address space `as_nr` translate as `as_config`
    /// says.
    pub fn as_enable(&self, as_nr: usize, as_config: &AddressSpaceConfig) -> (res: Result<
        Vec<RegOp>,
        Error,
    >)
        ensures
            res is Ok <==> self.has(as_nr),
            res matches Ok(ops) ==> ops@ == enable_ops(as_nr as int, *as_config),
            res matches Err(e) ==> e.code() == EINVAL,
    {
        if let Err(e) = self.validate_as_slot(as_nr) {
            return Err(e);
        }
        proof {
            regs::lemma_as_base(as_nr);
        }
        let (transtab_lo, transtab_hi) = split(as_config.transtab);
        let (transcfg_lo, transcfg_hi) = split(as_config.transcfg);
        let (memattr_lo, memattr_hi) = split(as_config.memattr);

        let mut ops: Vec<RegOp> = Vec::new();
        ops.push(as_transtab_lo(as_nr)?.write(transtab_lo));
        ops.push(as_transtab_hi(as_nr)?.write(transtab_hi));

        ops.push(as_transcfg_lo(as_nr)?.write(transcfg_lo));
        ops.push(as_transcfg_hi(as_nr)?.write(transcfg_hi));

        ops.push(as_memattr_lo(as_nr)?.write(memattr_lo));
        ops.push(as_memattr_hi(as_nr)?.write(memattr_hi));

        self.as_send_cmd_and_wait(as_nr, AS_COMMAND_UPDATE, &mut ops)?;
        assert(ops@ =~= enable_ops(as_nr as int, *as_config));
        Ok(ops)
    }

    /// The accesses that flush address space `as_nr` and make it translate
    /// nothing.
    pub fn as_disable(&self, as_nr: usize) -> (res: Result<Vec<RegOp>, Error>)
        ensures
            res is Ok <==> self.has(as_nr),
            res matches Ok(ops) ==> ops@ == disable_ops(as_nr as int),
            res matches Err(e) ==> e.code() == EINVAL,
    {
        if let Err(e) = self.validate_as_slot(as_nr) {
            return Err(e);
        }
        proof {
            regs::lemma_as_base(as_nr);
        }
        let mut ops: Vec<RegOp> = Vec::new();
        // Flush the address space before disabling it.
        self.as_send_cmd_and_wait(as_nr, AS_COMMAND_FLUSH_MEM, &mut ops)?;

        ops.push(as_transtab_lo(as_nr)?.write(0));
        ops.push(as_transtab_hi(as_nr)?.write(0));

        ops.push(as_memattr_lo(as_nr)?.write(0));
        ops.push(as_memattr_hi(as_nr)?.write(0));

        ops.push(as_transcfg_lo(as_nr)?.write(AS_TRANSCFG_ADRMODE_UNMAPPED as u32));
        ops.push(as_transcfg_hi(as_nr)?.write(0));

        self.as_send_cmd_and_wait(as_nr, AS_COMMAND_UPDATE, &mut ops)?;
        assert(ops@ =~= disable_ops(as_nr as int));
        Ok(ops)
    }

    /// The accesses that lock the smallest lockable block around `region` for
    /// an update of the page tables.
    pub fn as_start_update(&self, as_nr: usize, region: &Range<u64>) -> (res: Result<
        Vec<RegOp>,
        Error,
    >)
        requires
            self.has(as_nr) ==> region.end > 0,
        ensures
            res is Ok <==> self.has(as_nr),
            res matches Ok(ops) ==> ops@ == lock_ops(
                as_nr as int,
                lock_region::lock_value(region.start as int, region.end - 1) as u64,
            ),
            res matches Err(e) ==> e.code() == EINVAL,
    {
        if let Err(e) = self.validate_as_slot(as_nr) {
            return Err(e);
        }
        proof {
            regs::lemma_as_base(as_nr);
        }
        let (region_lo, region_hi) = split(lock_region(region)?);

        let mut ops: Vec<RegOp> = Vec::new();
        ops.push(as_lockaddr_lo(as_nr)?.write(region_lo));
        ops.push(as_lockaddr_hi(as_nr)?.write(region_hi));

        self.as_send_cmd(as_nr, AS_COMMAND_LOCK, &mut ops)?;
        Ok(ops)
    }

    /// The accesses that end an update: the page tables are flushed, which
    /// unlocks the region.
    pub fn as_end_update(&self, as_nr: usize) -> (res: Result<Vec<RegOp>, Error>)
        ensures
            res is Ok <==> self.has(as_nr),
            res matches Ok(ops) ==> ops@ == send_and_wait_ops(as_nr as int, AS_COMMAND_FLUSH_PT),
            res matches Err(e) ==> e.code() == EINVAL,
    {
        if let Err(e) = self.validate_as_slot(as_nr) {
            return Err(e);
        }
        let mut ops: Vec<RegOp> = Vec::new();
        self.as_send_cmd_and_wait(as_nr, AS_COMMAND_FLUSH_PT, &mut ops)?;
        assert(ops@ =~= send_and_wait_ops(as_nr as int, AS_COMMAND_FLUSH_PT));
        Ok(ops)
    }

    /// The accesses that flush the page tables, without waiting for the end.
    pub fn as_flush(&self, as_nr: usize) -> (res: Result<Vec<RegOp>, Error>)
        ensures
            res is Ok <==> self.has(as_nr),
            res matches Ok(ops) ==> ops@ == send_ops(as_nr as int, AS_COMMAND_FLUSH_PT),
            res matches Err(e) ==> e.code() == EINVAL,
    {
        if let Err(e) = self.validate_as_slot(as_nr) {
            return Err(e);
        }
        let mut ops: Vec<RegOp> = Vec::new();
        self.as_send_cmd(as_nr, AS_COMMAND_FLUSH_PT, &mut ops)?;
        assert(ops@ =~= send_ops(as_nr as int, AS_COMMAND_FLUSH_PT));
        Ok(ops)
    }

    /// The accesses that activate hardware slot `slot_idx` for a VM.
    pub fn activate_ops(&self, slot_idx: usize, slot_data: &AsBinding) -> (res: Result<
        Vec<RegOp>,
        Error,
    >)
        ensures
            res is Ok <==> self.has(slot_idx),
            res matches Ok(ops) ==> ops@ == enable_ops(slot_idx as int, slot_data.as_config),
            res matches Err(e) ==> e.code() == EINVAL,
    {
        self.as_enable(slot_idx, &slot_data.as_config)
    }

    /// The accesses that evict the VM in hardware slot `slot_idx`. There are
    /// none where the registers cannot be accessed any more, or where there is
    /// no such slot. Eviction itself always succeeds.
    pub fn evict_ops(&self, slot_idx: usize, accessible: bool) -> (res: EvictOps)
        ensures
            res.evicts(*self, slot_idx, accessible),
    {
        let mut ops = EvictOps::new();
        if accessible {
            if let Ok(flush) = self.as_flush(slot_idx) {
                ops.flush = flush;
            }
            if let Ok(disable) = self.as_disable(slot_idx) {
                ops.disable = disable;
            }
        }
        ops
    }

    /// The accesses that lock a region for page table updates, if the VM has an
    /// active slot.
    pub fn start_vm_update(&self, seat: &Seat, region: &Range<u64>) -> (res: Result<
        Vec<RegOp>,
        Error,
    >)
        requires
            *seat matches Seat::Active(info) ==> self.has(info.slot() as usize) ==> region.end > 0,
        ensures
            match *seat {
                Seat::Active(info) => {
                    &&& res is Ok <==> self.has(info.slot() as usize)
                    &&& res matches Ok(ops) ==> ops@ == lock_ops(
                        info.slot(),
                        lock_region::lock_value(region.start as int, region.end - 1) as u64,
                    )
                    &&& res matches Err(e) ==> e.code() == EINVAL
                },
                _ => res matches Ok(ops) && ops@.len() == 0,
            },
    {
        match seat.slot() {
            Some(slot) => self.as_start_update(slot as usize, region),
            None => Ok(Vec::new()),
        }
    }

    /// The accesses that end page table updates, if the VM has an active slot.
    pub fn end_vm_update(&self, seat: &Seat) -> (res: Result<Vec<RegOp>, Error>)
        ensures
            match *seat {
                Seat::Active(info) => {
                    &&& res is Ok <==> self.has(info.slot() as usize)
                    &&& res matches Ok(ops) ==> ops@ == send_and_wait_ops(
                        info.slot(),
                        AS_COMMAND_FLUSH_PT,
                    )
                    &&& res matches Err(e) ==> e.code() == EINVAL
                },
                _ => res matches Ok(ops) && ops@.len() == 0,
            },
    {
        match seat.slot() {
            Some(slot) => self.as_end_update(slot as usize),
            None => Ok(Vec::new()),
        }
    }

    /// The accesses that flush the page tables of a VM, if it has an active
    /// slot.
    pub fn flush_vm(&self, seat: &Seat) -> (res: Result<Vec<RegOp>, Error>)
        ensures
            match *seat {
                Seat::Active(info) => {
                    &&& res is Ok <==> self.has(info.slot() as usize)
                    &&& res matches Ok(ops) ==> ops@ == send_ops(
                        info.slot(),
                        AS_COMMAND_FLUSH_PT,
                    )
                    &&& res matches Err(e) ==> e.code() == EINVAL
                },
                _ => res matches Ok(ops) && ops@.len() == 0,
            },
    {
        match seat.slot() {
            Some(slot) => self.as_flush(slot as usize),
            None => Ok(Vec::new()),
        }
    }
}

/// The register that an access is to.
pub open spec fn op_offset(op: RegOp) -> int {
    match op {
        RegOp::Read { offset } => offset as int,
        RegOp::Write { offset, value } => offset as int,
        RegOp::Wait(poll) => poll.offset as int,
    }
}

/// Whether every command is sent right after a wait for the one before it, and
/// every access is to a register of address space `as_nr`.
pub open spec fn well_ordered(as_nr: int, ops: Seq<RegOp>) -> bool {
    &&& forall|i: int|
        0 <= i < ops.len() ==> 0x2400 + 64 * as_nr <= op_offset(#[trigger] ops[i]) < 0x2400 + 64
            * as_nr + 64
    &&& forall|i: int|
        0 <= i < ops.len() && op_offset(#[trigger] ops[i]) == 0x2400 + 64 * as_nr + 0x18 ==> 0 < i
            && ops[i - 1] == wait_op(as_nr)
}

/// Whatever is done to an address space, it is only sent a command once it has
/// no other in progress, and no other address space is touched.
pub proof fn law_commands_wait_their_turn(as_nr: int, config: AddressSpaceConfig, value: u64)
    requires
        0 <= as_nr < MAX_AS_REGISTERS,
    ensures
        well_ordered(as_nr, enable_ops(as_nr, config)),
        well_ordered(as_nr, disable_ops(as_nr)),
        well_ordered(as_nr, lock_ops(as_nr, value)),
        well_ordered(as_nr, send_ops(as_nr, AS_COMMAND_FLUSH_PT)),
        well_ordered(as_nr, send_and_wait_ops(as_nr, AS_COMMAND_FLUSH_PT)),
{
}

/// The two words that a 64-bit value is written in hold all of it.
pub proof fn law_words_hold_value(value: u64)
    ensures
        high_word(value) * 0x1_0000_0000 + low_word(value) == value,
{
}

/// Disabling an address space leaves nothing of the configuration that enabling
/// it wrote: every register that the one writes, the other writes too.
pub proof fn law_disable_covers_enable(as_nr: int, config: AddressSpaceConfig, i: int)
    requires
        0 <= as_nr < MAX_AS_REGISTERS,
        0 <= i < enable_ops(as_nr, config).len(),
        enable_ops(as_nr, config)[i] is Write,
    ensures
        exists|j: int|
            0 <= j < disable_ops(as_nr).len() && #[trigger] disable_ops(as_nr)[j] is Write
                && op_offset(disable_ops(as_nr)[j]) == op_offset(enable_ops(as_nr, config)[i]),
{
    let ops = disable_ops(as_nr);
    assert(ops[3] is Write && ops[4] is Write && ops[5] is Write && ops[6] is Write && ops[7] is Write
        && ops[8] is Write && ops[10] is Write);
}

} // verus!
