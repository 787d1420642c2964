//! The register file of the GPU: where the registers are, and what their bits
//! mean.
//!
//! Not all the registers and fields are used. Nevertheless, it is useful to
//! have most of them defined.

use super::io::RegOp;
use crate::error::Error;
use vstd::prelude::*;

verus! {

/// A register at a fixed offset.
pub struct Register<const OFFSET: usize>;

impl<const OFFSET: usize> Register<OFFSET> {
    /// Where the register is.
    pub open spec fn at(self) -> int {
        OFFSET as int
    }

    /// Where the register is.
    pub fn offset(&self) -> (res: usize)
        ensures
            res == OFFSET,
    {
        OFFSET
    }

    /// The access that reads the register.
    pub fn read(&self) -> (res: RegOp)
        ensures
            res == (RegOp::Read { offset: OFFSET }),
    {
        RegOp::Read { offset: OFFSET }
    }

    /// The access that writes `value` to the register.
    pub fn write(&self, value: u32) -> (res: RegOp)
        ensures
            res == (RegOp::Write { offset: OFFSET, value }),
    {
        RegOp::Write { offset: OFFSET, value }
    }
}

pub const GPU_ID: Register<0x0> = Register;

pub const GPU_L2_FEATURES: Register<0x4> = Register;

pub const GPU_CORE_FEATURES: Register<0x8> = Register;

pub const GPU_CSF_ID: Register<0x1c> = Register;

pub const GPU_REVID: Register<0x280> = Register;

pub const GPU_TILER_FEATURES: Register<0xc> = Register;

pub const GPU_MEM_FEATURES: Register<0x10> = Register;

pub const GPU_MMU_FEATURES: Register<0x14> = Register;

/// Bitmask of the address spaces that the hardware has.
pub const GPU_AS_PRESENT: Register<0x18> = Register;

pub const GPU_IRQ_RAWSTAT: Register<0x20> = Register;

pub const GPU_IRQ_CLEAR: Register<0x24> = Register;

pub const GPU_IRQ_MASK: Register<0x28> = Register;

pub const GPU_IRQ_STAT: Register<0x2c> = Register;

pub const GPU_CMD: Register<0x30> = Register;

pub const GPU_THREAD_FEATURES: Register<0xac> = Register;

pub const GPU_THREAD_MAX_THREADS: Register<0xa0> = Register;

pub const GPU_THREAD_MAX_WORKGROUP_SIZE: Register<0xa4> = Register;

pub const GPU_THREAD_MAX_BARRIER_SIZE: Register<0xa8> = Register;

pub const GPU_TEXTURE_FEATURES0: Register<0xb0> = Register;

pub const GPU_SHADER_PRESENT_LO: Register<0x100> = Register;

pub const GPU_SHADER_PRESENT_HI: Register<0x104> = Register;

pub const GPU_TILER_PRESENT_LO: Register<0x110> = Register;

pub const GPU_TILER_PRESENT_HI: Register<0x114> = Register;

pub const GPU_L2_PRESENT_LO: Register<0x120> = Register;

pub const GPU_L2_PRESENT_HI: Register<0x124> = Register;

pub const L2_READY_LO: Register<0x160> = Register;

pub const L2_READY_HI: Register<0x164> = Register;

pub const L2_PWRON_LO: Register<0x1a0> = Register;

pub const L2_PWRON_HI: Register<0x1a4> = Register;

pub const L2_PWRTRANS_LO: Register<0x220> = Register;

pub const L2_PWRTRANS_HI: Register<0x204> = Register;

pub const L2_PWRACTIVE_LO: Register<0x260> = Register;

pub const L2_PWRACTIVE_HI: Register<0x264> = Register;

pub const MCU_CONTROL: Register<0x700> = Register;

pub const MCU_STATUS: Register<0x704> = Register;

pub const GPU_COHERENCY_FEATURES: Register<0x300> = Register;

pub const JOB_IRQ_RAWSTAT: Register<0x1000> = Register;

pub const JOB_IRQ_CLEAR: Register<0x1004> = Register;

pub const JOB_IRQ_MASK: Register<0x1008> = Register;

pub const JOB_IRQ_STAT: Register<0x100c> = Register;

pub const MMU_IRQ_RAWSTAT: Register<0x2000> = Register;

pub const MMU_IRQ_CLEAR: Register<0x2004> = Register;

pub const MMU_IRQ_MASK: Register<0x2008> = Register;

pub const MMU_IRQ_STAT: Register<0x200c> = Register;

pub const GPU_IRQ_RAWSTAT_FAULT: u32 = 1;

pub const GPU_IRQ_RAWSTAT_PROTECTED_FAULT: u32 = 2;

/// A reset has completed.
pub const GPU_IRQ_RAWSTAT_RESET_COMPLETED: u32 = 0x100;

pub const GPU_IRQ_RAWSTAT_POWER_CHANGED_SINGLE: u32 = 0x200;

pub const GPU_IRQ_RAWSTAT_POWER_CHANGED_ALL: u32 = 0x400;

pub const GPU_IRQ_RAWSTAT_CLEAN_CACHES_COMPLETED: u32 = 0x20000;

pub const GPU_IRQ_RAWSTAT_DOORBELL_STATUS: u32 = 0x40000;

pub const GPU_IRQ_RAWSTAT_MCU_STATUS: u32 = 0x80000;

/// Resets the GPU once its jobs have ended.
pub const GPU_CMD_SOFT_RESET: u32 = 0x101;

/// Resets the GPU at once.
pub const GPU_CMD_HARD_RESET: u32 = 0x201;

pub const MCU_CONTROL_ENABLE: u32 = 1;

pub const MCU_CONTROL_AUTO: u32 = 2;

pub const MCU_CONTROL_DISABLE: u32 = 0;

pub const MCU_STATUS_DISABLED: u32 = 0;

pub const MCU_STATUS_ENABLED: u32 = 1;

pub const MCU_STATUS_HALT: u32 = 2;

pub const MCU_STATUS_FATAL: u32 = 3;

pub const JOB_IRQ_GLOBAL_IF: u32 = 0x80000000;

/// The address space translates nothing.
pub const AS_TRANSCFG_ADRMODE_UNMAPPED: u64 = 1;

pub const AS_TRANSCFG_ADRMODE_AARCH64_4K: u64 = 6;

pub const AS_TRANSCFG_PTW_MEMATTR_WB: u64 = 0x2000000;

pub const AS_TRANSCFG_PTW_RA: u64 = 0x40000000;

pub const AS_MEMATTR_AARCH64_SH_MIDGARD_INNER: u32 = 0;

pub const AS_MEMATTR_AARCH64_INNER_OUTER_NC: u32 = 0x40;

pub const AS_MEMATTR_AARCH64_INNER_OUTER_WB: u32 = 0x80;

/// Makes the address space take up its configuration registers.
pub const AS_COMMAND_UPDATE: u32 = 1;

/// Locks the region that the lock address registers name.
pub const AS_COMMAND_LOCK: u32 = 2;

/// Flushes the page table caches.
pub const AS_COMMAND_FLUSH_PT: u32 = 4;

/// Flushes the page table and data caches.
pub const AS_COMMAND_FLUSH_MEM: u32 = 5;

/// An address space command is in progress.
pub const AS_STATUS_ACTIVE: u32 = 1;

/// Size of the smallest region that can be locked, in bytes.
pub const AS_LOCK_REGION_MIN_SIZE: u32 = 0x8000;

/// Maximum number of hardware address space slots.
/// The actual number of slots available is usually much lower.
pub const MAX_AS_REGISTERS: usize = 32;

/// Size of the register file, in bytes.
pub const IO_SIZE: usize = 0x200000;

const MMU_BASE: usize = 0x2400;

const MMU_AS_SHIFT: usize = 6;

/// The number of input address bits, as the translation configuration has it.
pub fn as_transcfg_ina_bits(x: u64) -> (res: u64)
    ensures
        res == x << 6,
        x < 0x400_0000_0000_0000 ==> res == x * 64,
{
    assert(x < 0x400_0000_0000_0000 ==> x << 6 == x * 64) by (bit_vector);
    x << 6
}

/// Explicit allocation on write and on read for inner caches, as the memory
/// attributes have it.
pub fn as_memattr_aarch64_inner_alloc_expl(w: bool, r: bool) -> (res: u32)
    ensures
        res == 12 + (if w {
            1int
        } else {
            0
        }) + (if r {
            2int
        } else {
            0
        }),
{
    let w_bit: u32 = if w {
        1
    } else {
        0
    };
    let r_bit: u32 = if r {
        1
    } else {
        0
    };
    assert((3u32 << 2) | w_bit | (r_bit << 1) == 12 + w_bit + 2 * r_bit) by (bit_vector)
        requires
            w_bit <= 1,
            r_bit <= 1,
    ;
    (3u32 << 2) | w_bit | (r_bit << 1)
}

/// Where the registers of address space `as_nr` start. Bits of the number that
/// the shift moves out are lost.
pub open spec fn as_base(as_nr: usize) -> int {
    0x2400 + (as_nr << 6usize)
}

/// The registers of address space `as_nr` start 64 bytes after those of the
/// one before it.
pub proof fn lemma_as_base(as_nr: usize)
    requires
        as_nr < MAX_AS_REGISTERS,
    ensures
        as_base(as_nr) == 0x2400 + 64 * as_nr,
{
    assert(as_nr < 32 ==> as_nr << 6usize == 64 * as_nr) by (bit_vector);
}

fn mmu_as(as_nr: usize) -> (res: usize)
    requires
        as_base(as_nr) <= usize::MAX,
    ensures
        res == as_base(as_nr),
{
    MMU_BASE + (as_nr << MMU_AS_SHIFT)
}

/// A register of one address space.
#[derive(Clone, Copy, Debug, PartialEq, Eq, Structural)]
pub struct AsRegister(usize);

impl AsRegister {
    /// Where the register is.
    pub closed spec fn at(self) -> int {
        self.0 as int
    }

    fn new(as_nr: usize, offset: usize) -> (res: Result<Self, Error>)
        requires
            as_base(as_nr) + offset <= usize::MAX,
        ensures
            res matches Ok(reg) && reg.at() == as_base(as_nr) + offset,
    {
        Ok(AsRegister(mmu_as(as_nr) + offset))
    }

    /// Where the register is.
    pub fn offset(&self) -> (res: usize)
        ensures
            res == self.at(),
    {
        self.0
    }

    /// The access that reads the register.
    pub fn read(&self) -> (res: RegOp)
        ensures
            res == (RegOp::Read { offset: self.at() as usize }),
    {
        RegOp::Read { offset: self.0 }
    }

    /// The access that writes `value` to the register.
    pub fn write(&self, value: u32) -> (res: RegOp)
        ensures
            res == (RegOp::Write { offset: self.at() as usize, value }),
    {
        RegOp::Write { offset: self.0, value }
    }
}

/// The low word of the translation table base register of address space `as_nr`.
pub fn as_transtab_lo(as_nr: usize) -> (res: Result<AsRegister, Error>)
    requires
        as_base(as_nr) + 0x0 <= usize::MAX,
    ensures
        res matches Ok(reg) && reg.at() == as_base(as_nr) + 0x0,
{
    AsRegister::new(as_nr, 0x0)
}

/// The high word of the translation table base register of address space `as_nr`.
pub fn as_transtab_hi(as_nr: usize) -> (res: Result<AsRegister, Error>)
    requires
        as_base(as_nr) + 0x4 <= usize::MAX,
    ensures
        res matches Ok(reg) && reg.at() == as_base(as_nr) + 0x4,
{
    AsRegister::new(as_nr, 0x4)
}

/// The low word of the memory attributes register of address space `as_nr`.
pub fn as_memattr_lo(as_nr: usize) -> (res: Result<AsRegister, Error>)
    requires
        as_base(as_nr) + 0x8 <= usize::MAX,
    ensures
        res matches Ok(reg) && reg.at() == as_base(as_nr) + 0x8,
{
    AsRegister::new(as_nr, 0x8)
}

/// The high word of the memory attributes register of address space `as_nr`.
pub fn as_memattr_hi(as_nr: usize) -> (res: Result<AsRegister, Error>)
    requires
        as_base(as_nr) + 0xc <= usize::MAX,
    ensures
        res matches Ok(reg) && reg.at() == as_base(as_nr) + 0xc,
{
    AsRegister::new(as_nr, 0xc)
}

/// The low word of the region to lock register of address space `as_nr`.
pub fn as_lockaddr_lo(as_nr: usize) -> (res: Result<AsRegister, Error>)
    requires
        as_base(as_nr) + 0x10 <= usize::MAX,
    ensures
        res matches Ok(reg) && reg.at() == as_base(as_nr) + 0x10,
{
    AsRegister::new(as_nr, 0x10)
}

/// The high word of the region to lock register of address space `as_nr`.
pub fn as_lockaddr_hi(as_nr: usize) -> (res: Result<AsRegister, Error>)
    requires
        as_base(as_nr) + 0x14 <= usize::MAX,
    ensures
        res matches Ok(reg) && reg.at() == as_base(as_nr) + 0x14,
{
    AsRegister::new(as_nr, 0x14)
}

/// The command register of address space `as_nr`.
pub fn as_command(as_nr: usize) -> (res: Result<AsRegister, Error>)
    requires
        as_base(as_nr) + 0x18 <= usize::MAX,
    ensures
        res matches Ok(reg) && reg.at() == as_base(as_nr) + 0x18,
{
    AsRegister::new(as_nr, 0x18)
}

/// The status register of address space `as_nr`.
pub fn as_status(as_nr: usize) -> (res: Result<AsRegister, Error>)
    requires
        as_base(as_nr) + 0x28 <= usize::MAX,
    ensures
        res matches Ok(reg) && reg.at() == as_base(as_nr) + 0x28,
{
    AsRegister::new(as_nr, 0x28)
}

/// The low word of the translation configuration register of address space `as_nr`.
pub fn as_transcfg_lo(as_nr: usize) -> (res: Result<AsRegister, Error>)
    requires
        as_base(as_nr) + 0x30 <= usize::MAX,
    ensures
        res matches Ok(reg) && reg.at() == as_base(as_nr) + 0x30,
{
    AsRegister::new(as_nr, 0x30)
}

/// The high word of the translation configuration register of address space `as_nr`.
pub fn as_transcfg_hi(as_nr: usize) -> (res: Result<AsRegister, Error>)
    requires
        as_base(as_nr) + 0x34 <= usize::MAX,
    ensures
        res matches Ok(reg) && reg.at() == as_base(as_nr) + 0x34,
{
    AsRegister::new(as_nr, 0x34)
}

/// The registers of different address spaces do not overlap, and those of
/// every address space lie in the register file.
pub proof fn law_as_registers_are_apart(a: usize, x: int, b: usize, y: int)
    requires
        a < MAX_AS_REGISTERS,
        b < MAX_AS_REGISTERS,
        0 <= x < 64,
        0 <= y < 64,
        a != b || x != y,
    ensures
        as_base(a) + x != as_base(b) + y,
        as_base(a) + x < IO_SIZE,
{
    lemma_as_base(a);
    lemma_as_base(b);
}

/// The registers of an address space start 64 bytes after those of the one before it,
/// whatever its number, as long as they can be addressed.
pub proof fn law_address_spaces_are_64_bytes_apart(as_nr: usize)
    requires
        as_nr < 0x200_0000,
    ensures
        as_base(0) == 0x2400,
        as_base(as_nr) == 0x2400 + 64 * as_nr,
        as_base((as_nr + 1) as usize) == as_base(as_nr) + 64,
{
    assert(as_nr < 0x200_0000 ==> as_nr << 6usize == 64 * as_nr) by (bit_vector);
    let next = (as_nr + 1) as usize;
    assert(next <= 0x200_0000 ==> next << 6usize == 64 * next) by (bit_vector);
    assert(0usize << 6usize == 0) by (bit_vector);
}

/// A wide register is in two words, the high one right after the low one. (The high word
/// that reports the transitions of L2 is elsewhere.)
pub proof fn law_high_word_follows_the_low_one()
    ensures
        GPU_SHADER_PRESENT_HI.at() == GPU_SHADER_PRESENT_LO.at() + 4,
        GPU_TILER_PRESENT_HI.at() == GPU_TILER_PRESENT_LO.at() + 4,
        GPU_L2_PRESENT_HI.at() == GPU_L2_PRESENT_LO.at() + 4,
        L2_READY_HI.at() == L2_READY_LO.at() + 4,
        L2_PWRON_HI.at() == L2_PWRON_LO.at() + 4,
        L2_PWRACTIVE_HI.at() == L2_PWRACTIVE_LO.at() + 4,
{
}

/// The interrupt registers of each of the three blocks come one after the other, from
/// the start of the block or, for the GPU itself, from 0x20: raw status, clear, mask and
/// status.
pub proof fn law_interrupt_registers_come_in_order()
    ensures
        GPU_IRQ_RAWSTAT.at() == 0x20,
        GPU_IRQ_CLEAR.at() == GPU_IRQ_RAWSTAT.at() + 4,
        GPU_IRQ_MASK.at() == GPU_IRQ_CLEAR.at() + 4,
        GPU_IRQ_STAT.at() == GPU_IRQ_MASK.at() + 4,
        JOB_IRQ_RAWSTAT.at() == 0x1000,
        JOB_IRQ_CLEAR.at() == JOB_IRQ_RAWSTAT.at() + 4,
        JOB_IRQ_MASK.at() == JOB_IRQ_CLEAR.at() + 4,
        JOB_IRQ_STAT.at() == JOB_IRQ_MASK.at() + 4,
        MMU_IRQ_RAWSTAT.at() == 0x2000,
        MMU_IRQ_CLEAR.at() == MMU_IRQ_RAWSTAT.at() + 4,
        MMU_IRQ_MASK.at() == MMU_IRQ_CLEAR.at() + 4,
        MMU_IRQ_STAT.at() == MMU_IRQ_MASK.at() + 4,
{
}

/// Every register at a fixed offset.
pub open spec fn fixed_registers() -> Seq<int> {
    seq![
        GPU_ID.at(),
        GPU_L2_FEATURES.at(),
        GPU_CORE_FEATURES.at(),
        GPU_TILER_FEATURES.at(),
        GPU_MEM_FEATURES.at(),
        GPU_MMU_FEATURES.at(),
        GPU_AS_PRESENT.at(),
        GPU_CSF_ID.at(),
        GPU_IRQ_RAWSTAT.at(),
        GPU_IRQ_CLEAR.at(),
        GPU_IRQ_MASK.at(),
        GPU_IRQ_STAT.at(),
        GPU_CMD.at(),
        GPU_THREAD_MAX_THREADS.at(),
        GPU_THREAD_MAX_WORKGROUP_SIZE.at(),
        GPU_THREAD_MAX_BARRIER_SIZE.at(),
        GPU_THREAD_FEATURES.at(),
        GPU_TEXTURE_FEATURES0.at(),
        GPU_SHADER_PRESENT_LO.at(),
        GPU_SHADER_PRESENT_HI.at(),
        GPU_TILER_PRESENT_LO.at(),
        GPU_TILER_PRESENT_HI.at(),
        GPU_L2_PRESENT_LO.at(),
        GPU_L2_PRESENT_HI.at(),
        L2_READY_LO.at(),
        L2_READY_HI.at(),
        L2_PWRON_LO.at(),
        L2_PWRON_HI.at(),
        L2_PWRTRANS_HI.at(),
        L2_PWRTRANS_LO.at(),
        L2_PWRACTIVE_LO.at(),
        L2_PWRACTIVE_HI.at(),
        GPU_REVID.at(),
        GPU_COHERENCY_FEATURES.at(),
        MCU_CONTROL.at(),
        MCU_STATUS.at(),
        JOB_IRQ_RAWSTAT.at(),
        JOB_IRQ_CLEAR.at(),
        JOB_IRQ_MASK.at(),
        JOB_IRQ_STAT.at(),
        MMU_IRQ_RAWSTAT.at(),
        MMU_IRQ_CLEAR.at(),
        MMU_IRQ_MASK.at(),
        MMU_IRQ_STAT.at(),
    ]
}

/// The registers at fixed offsets are where no other one is, each in a word of its own
/// below those of the address spaces.
pub proof fn law_fixed_registers_are_apart(i: int, j: int)
    requires
        0 <= i < j < fixed_registers().len(),
    ensures
        fixed_registers()[i] < fixed_registers()[j],
        fixed_registers()[i] % 4 == 0,
        fixed_registers()[j] % 4 == 0,
        fixed_registers()[j] < as_base(0),
{
    assert(0usize << 6usize == 0) by (bit_vector);
}

/// The flags of the GPU interrupts, the commands of the GPU and of its address spaces,
/// and the states of the microcontroller are told apart.
pub proof fn law_flags_and_commands_differ()
    ensures
        GPU_IRQ_RAWSTAT_FAULT & GPU_IRQ_RAWSTAT_PROTECTED_FAULT == 0,
        GPU_IRQ_RAWSTAT_FAULT + GPU_IRQ_RAWSTAT_PROTECTED_FAULT == 3,
        GPU_IRQ_RAWSTAT_RESET_COMPLETED == 0x100,
        GPU_IRQ_RAWSTAT_POWER_CHANGED_SINGLE == 2 * GPU_IRQ_RAWSTAT_RESET_COMPLETED,
        GPU_IRQ_RAWSTAT_POWER_CHANGED_ALL == 2 * GPU_IRQ_RAWSTAT_POWER_CHANGED_SINGLE,
        GPU_IRQ_RAWSTAT_CLEAN_CACHES_COMPLETED == 0x20000,
        GPU_IRQ_RAWSTAT_DOORBELL_STATUS == 2 * GPU_IRQ_RAWSTAT_CLEAN_CACHES_COMPLETED,
        GPU_IRQ_RAWSTAT_MCU_STATUS == 2 * GPU_IRQ_RAWSTAT_DOORBELL_STATUS,
        GPU_CMD_SOFT_RESET == 0x101,
        GPU_CMD_HARD_RESET == GPU_CMD_SOFT_RESET + 0x100,
        MCU_CONTROL_DISABLE < MCU_CONTROL_ENABLE < MCU_CONTROL_AUTO == 2,
        MCU_STATUS_DISABLED < MCU_STATUS_ENABLED < MCU_STATUS_HALT < MCU_STATUS_FATAL == 3,
        JOB_IRQ_GLOBAL_IF == 0x8000_0000,
        AS_COMMAND_UPDATE == 1,
        AS_COMMAND_LOCK == 2,
        AS_COMMAND_FLUSH_PT == 4,
        AS_COMMAND_FLUSH_MEM == 5,
        AS_STATUS_ACTIVE == 1,
        AS_TRANSCFG_ADRMODE_UNMAPPED == 1,
        AS_TRANSCFG_ADRMODE_AARCH64_4K == 6,
        AS_TRANSCFG_PTW_MEMATTR_WB == 0x200_0000,
        AS_TRANSCFG_PTW_RA == 0x4000_0000,
        AS_MEMATTR_AARCH64_SH_MIDGARD_INNER == 0,
        AS_MEMATTR_AARCH64_INNER_OUTER_NC == 0x40,
        AS_MEMATTR_AARCH64_INNER_OUTER_WB == 2 * AS_MEMATTR_AARCH64_INNER_OUTER_NC,
        AS_LOCK_REGION_MIN_SIZE == 0x8000,
        MAX_AS_REGISTERS == 32,
        IO_SIZE == 0x20_0000,
{
    assert(1u32 & 2u32 == 0) by (bit_vector);
}

/// Each register of an address space is where the hardware has it, and is read and
/// written there.
pub proof fn law_calls_of_address_space_registers(as_nr: usize)
    requires
        as_nr < 0x200_0000,
    ensures
        forall|res: Result<AsRegister, Error>| #[trigger]
            call_ensures(as_transtab_lo, (as_nr,), res) ==> (res matches Ok(reg) && reg.at() == 0x2400 + 64
                * as_nr + 0x0),
        forall|res: Result<AsRegister, Error>| #[trigger]
            call_ensures(as_transtab_hi, (as_nr,), res) ==> (res matches Ok(reg) && reg.at() == 0x2400 + 64
                * as_nr + 0x4),
        forall|res: Result<AsRegister, Error>| #[trigger]
            call_ensures(as_memattr_lo, (as_nr,), res) ==> (res matches Ok(reg) && reg.at() == 0x2400 + 64
                * as_nr + 0x8),
        forall|res: Result<AsRegister, Error>| #[trigger]
            call_ensures(as_memattr_hi, (as_nr,), res) ==> (res matches Ok(reg) && reg.at() == 0x2400 + 64
                * as_nr + 0xc),
        forall|res: Result<AsRegister, Error>| #[trigger]
            call_ensures(as_lockaddr_lo, (as_nr,), res) ==> (res matches Ok(reg) && reg.at() == 0x2400 + 64
                * as_nr + 0x10),
        forall|res: Result<AsRegister, Error>| #[trigger]
            call_ensures(as_lockaddr_hi, (as_nr,), res) ==> (res matches Ok(reg) && reg.at() == 0x2400 + 64
                * as_nr + 0x14),
        forall|res: Result<AsRegister, Error>| #[trigger]
            call_ensures(as_command, (as_nr,), res) ==> (res matches Ok(reg) && reg.at() == 0x2400 + 64
                * as_nr + 0x18),
        forall|res: Result<AsRegister, Error>| #[trigger]
            call_ensures(as_status, (as_nr,), res) ==> (res matches Ok(reg) && reg.at() == 0x2400 + 64
                * as_nr + 0x28),
        forall|res: Result<AsRegister, Error>| #[trigger]
            call_ensures(as_transcfg_lo, (as_nr,), res) ==> (res matches Ok(reg) && reg.at() == 0x2400 + 64
                * as_nr + 0x30),
        forall|res: Result<AsRegister, Error>| #[trigger]
            call_ensures(as_transcfg_hi, (as_nr,), res) ==> (res matches Ok(reg) && reg.at() == 0x2400 + 64
                * as_nr + 0x34),
        forall|reg: AsRegister, res: usize| #[trigger]
            call_ensures(AsRegister::offset, (&reg,), res) ==> res == reg.at(),
        forall|reg: AsRegister, res: RegOp| #[trigger]
            call_ensures(AsRegister::read, (&reg,), res) ==> (res matches RegOp::Read { offset }
                && offset == reg.at() as usize),
        forall|reg: AsRegister, value: u32, res: RegOp| #[trigger]
            call_ensures(AsRegister::write, (&reg, value), res) ==> (res matches RegOp::Write {
                offset,
                value: v,
            } && offset == reg.at() as usize && v == value),
{
    law_address_spaces_are_64_bytes_apart(as_nr);
}

/// A register at a fixed offset is read and written there.
pub proof fn law_calls_of_fixed_registers<const OFFSET: usize>(reg: Register<OFFSET>)
    ensures
        forall|res: usize| #[trigger]
            call_ensures(Register::<OFFSET>::offset, (&reg,), res) ==> res == OFFSET,
        forall|res: RegOp| #[trigger]
            call_ensures(Register::<OFFSET>::read, (&reg,), res) ==> res == (RegOp::Read {
                offset: OFFSET,
            }),
        forall|value: u32, res: RegOp| #[trigger]
            call_ensures(Register::<OFFSET>::write, (&reg, value), res) ==> res == (RegOp::Write {
                offset: OFFSET,
                value,
            }),
{
}

/// The fields that the memory attributes and the translation configuration are made of.
pub proof fn law_calls_that_make_fields()
    ensures
        forall|x: u64, res: u64|
            x < 0x400_0000_0000_0000 && #[trigger] call_ensures(as_transcfg_ina_bits, (x,), res)
                ==> res == 64 * x,
        forall|w: bool, r: bool, res: u32| #[trigger]
            call_ensures(as_memattr_aarch64_inner_alloc_expl, (w, r), res) ==> {
                &&& res / 4 == 3
                &&& res % 2 == 1 <==> w
                &&& (res / 2) % 2 == 1 <==> r
            },
{
}

} // verus!
