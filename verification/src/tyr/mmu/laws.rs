//! What the accesses to an address space leave in its registers, and which slots VMs
//! get with them.
//!
//! The registers of address space `n` start at `0x2400 + 64 * n`: the translation table
//! at 0x0, the memory attributes at 0x8, the region to lock at 0x10 and the translation
//! configuration at 0x30, each in a low and a high word, the command at 0x18 and the
//! status at 0x28.

use super::super::io::RegOp;
use super::super::slot::{Candidate, Seat, SlotOperations, SlotTable};
use super::address_space::{
    self, AddressSpaceConfig, AddressSpaceManager, AsBinding, EvictOps, VmAsData,
};
use super::{lock_region, Mmu, VmPlan};
use crate::error::Error;
use core::ops::Range;
use vstd::arithmetic::power2::*;
use vstd::prelude::*;

verus! {

/// What the register at `offset` holds after the first `n` of `ops` were performed, if
/// one of them wrote to it.
pub open spec fn register_after(ops: Seq<RegOp>, n: int, offset: int) -> Option<u32>
    decreases n,
{
    if n <= 0 {
        None
    } else {
        match ops[n - 1] {
            RegOp::Write { offset: at, value } if at == offset => Some(value),
            _ => register_after(ops, n - 1, offset),
        }
    }
}

/// The 64-bit value that the register at `offset` and the one after it hold after the
/// first `n` of `ops` were performed, if both were written.
pub open spec fn wide_register_after(ops: Seq<RegOp>, n: int, offset: int) -> Option<int> {
    match (register_after(ops, n, offset), register_after(ops, n, offset + 4)) {
        (Some(low), Some(high)) => Some(high * 0x1_0000_0000 + low),
        _ => None,
    }
}

/// Whether `op` gives command `cmd` to address space `as_nr`.
pub open spec fn gives_command(op: RegOp, as_nr: int, cmd: u32) -> bool {
    op matches RegOp::Write { offset, value } && offset == 0x2400 + 64 * as_nr + 0x18 && value
        == cmd
}

/// Whether `op` is to the command register of address space `as_nr`.
pub open spec fn is_command(op: RegOp, as_nr: int) -> bool {
    op matches RegOp::Write { offset, .. } && offset == 0x2400 + 64 * as_nr + 0x18
}

/// Whether `op` waits, ten milliseconds at the most, until address space `as_nr` shows
/// that it has no command in progress.
pub open spec fn awaits_idle(op: RegOp, as_nr: int) -> bool {
    op matches RegOp::Wait(poll) && {
        &&& poll.offset == 0x2400 + 64 * as_nr + 0x28
        &&& poll.mask == 1
        &&& !poll.set
        &&& poll.sleep_ms == 0
        &&& poll.timeout_ms == 10
    }
}

/// When the command comes that makes an address space take up its configuration, the
/// registers hold the whole configuration, bit by bit. It is the only command, it is
/// given when none is in progress, and it is waited for.
pub proof fn law_enable_programs_the_configuration(as_nr: int, config: AddressSpaceConfig, i: int)
    requires
        0 <= as_nr < 32,
        0 <= i < address_space::enable_ops(as_nr, config).len(),
    ensures
        ({
            let ops = address_space::enable_ops(as_nr, config);
            let base = 0x2400 + 64 * as_nr;
            &&& ops.len() == 9
            &&& gives_command(ops[7], as_nr, 1)
            &&& is_command(ops[i], as_nr) <==> i == 7
            &&& wide_register_after(ops, 7, base) == Some(config.transtab as int)
            &&& wide_register_after(ops, 7, base + 0x8) == Some(config.memattr as int)
            &&& wide_register_after(ops, 7, base + 0x30) == Some(config.transcfg as int)
            &&& i < 6 ==> ops[i] is Write
            &&& awaits_idle(ops[6], as_nr)
            &&& awaits_idle(ops[8], as_nr)
        }),
{
    reveal_with_fuel(register_after, 10);
}

/// Two configurations are written in the same way only if they are the same.
pub proof fn law_enable_tells_configurations_apart(
    as_nr: int,
    a: AddressSpaceConfig,
    b: AddressSpaceConfig,
)
    requires
        0 <= as_nr < 32,
        address_space::enable_ops(as_nr, a) == address_space::enable_ops(as_nr, b),
    ensures
        a == b,
{
    law_enable_programs_the_configuration(as_nr, a, 0);
    law_enable_programs_the_configuration(as_nr, b, 0);
}

/// Disabling an address space first has all its caches flushed, and waits for that.
/// Only then are the registers cleared: when the command comes that makes it take up
/// its configuration, they hold no table, no attributes, and a configuration that
/// translates nothing. Each of the two commands is given when none is in progress, and
/// is waited for.
pub proof fn law_disable_flushes_and_clears(as_nr: int, i: int)
    requires
        0 <= as_nr < 32,
        0 <= i < address_space::disable_ops(as_nr).len(),
    ensures
        ({
            let ops = address_space::disable_ops(as_nr);
            let base = 0x2400 + 64 * as_nr;
            &&& ops.len() == 12
            &&& awaits_idle(ops[0], as_nr)
            &&& gives_command(ops[1], as_nr, 5)
            &&& awaits_idle(ops[2], as_nr)
            &&& 3 <= i < 9 ==> ops[i] is Write
            &&& wide_register_after(ops, 10, base) == Some(0int)
            &&& wide_register_after(ops, 10, base + 0x8) == Some(0int)
            &&& wide_register_after(ops, 10, base + 0x30) == Some(1int)
            &&& awaits_idle(ops[9], as_nr)
            &&& gives_command(ops[10], as_nr, 1)
            &&& awaits_idle(ops[11], as_nr)
            &&& is_command(ops[i], as_nr) <==> i == 1 || i == 10
        }),
{
    reveal_with_fuel(register_after, 12);
}

/// When the command comes that locks a region, the registers hold the whole value that
/// names it. The command is given when none is in progress.
pub proof fn law_lock_names_the_region(as_nr: int, value: u64, i: int)
    requires
        0 <= as_nr < 32,
        0 <= i < address_space::lock_ops(as_nr, value).len(),
    ensures
        ({
            let ops = address_space::lock_ops(as_nr, value);
            &&& ops.len() == 4
            &&& wide_register_after(ops, 2, 0x2400 + 64 * as_nr + 0x10) == Some(value as int)
            &&& awaits_idle(ops[2], as_nr)
            &&& gives_command(ops[3], as_nr, 2)
            &&& is_command(ops[i], as_nr) <==> i == 3
        }),
{
    reveal_with_fuel(register_after, 4);
}

/// A command that is sent is the one that was asked for. It is given when none is in
/// progress, and where its end is waited for, that comes last.
pub proof fn law_command_is_sent(as_nr: int, cmd: u32)
    requires
        0 <= as_nr < 32,
    ensures
        ({
            let ops = address_space::send_ops(as_nr, cmd);
            &&& ops.len() == 2
            &&& awaits_idle(ops[0], as_nr)
            &&& gives_command(ops[1], as_nr, cmd)
        }),
        ({
            let ops = address_space::send_and_wait_ops(as_nr, cmd);
            &&& ops.len() == 3
            &&& awaits_idle(ops[0], as_nr)
            &&& gives_command(ops[1], as_nr, cmd)
            &&& awaits_idle(ops[2], as_nr)
        }),
{
}

/// The hardware has the address spaces whose bits are set in the mask, and no others.
pub proof fn law_address_spaces_are_bits(spaces: AddressSpaceManager, as_nr: usize)
    ensures
        spaces.has(as_nr) <==> as_nr < 32 && (spaces.present() as int / pow2(as_nr as nat) as int)
            % 2 == 1,
{
    let present = spaces.present();
    if as_nr < 32 {
        let shift = as_nr as u32;
        vstd::bits::lemma_u32_shr_is_div(present, shift);
        assert(present & (1u32 << as_nr) != 0 <==> (present >> shift) % 2 == 1) by (bit_vector)
            requires
                as_nr < 32,
                shift == as_nr,
        ;
    }
}

/// Evicting a slot that the hardware has, while the registers can be accessed, flushes
/// its page tables and then disables its address space; otherwise nothing is accessed.
pub proof fn law_eviction_flushes_and_disables(
    evict: EvictOps,
    spaces: AddressSpaceManager,
    slot_idx: usize,
    accessible: bool,
)
    requires
        evict.evicts(spaces, slot_idx, accessible),
    ensures
        accessible && spaces.has(slot_idx) ==> {
            &&& evict.flush@.len() == 2
            &&& awaits_idle(evict.flush@[0], slot_idx as int)
            &&& gives_command(evict.flush@[1], slot_idx as int, 4)
            &&& evict.disable@ == address_space::disable_ops(slot_idx as int)
            &&& evict.disable@.len() == 12
        },
        !accessible || !spaces.has(slot_idx) ==> evict.flush@.len() == 0 && evict.disable@.len()
            == 0,
{
    law_address_spaces_are_bits(spaces, slot_idx);
    if slot_idx < 32 {
        law_command_is_sent(slot_idx as int, 4);
        assert(address_space::disable_ops(slot_idx as int).len() == 12);
    }
}

/// Activating a slot comes to what performing its accesses came to, and fails with
/// `EINVAL` where the hardware does not have the slot or nothing was performed. The
/// outcome is used up, and the hardware has what it had.
pub proof fn law_activation_reports_its_accesses(
    pre: AddressSpaceManager,
    slot_idx: int,
    binding: AsBinding,
    post: AddressSpaceManager,
    res: Result<(), Error>,
)
    requires
        0 <= slot_idx <= usize::MAX,
        AddressSpaceManager::activated(pre, slot_idx, binding, post, res),
    ensures
        pre.has(slot_idx as usize) ==> (pre.performed() matches Some(outcome) ==> res == outcome),
        !pre.has(slot_idx as usize) || pre.performed() is None ==> (res matches Err(e) && e.code()
            == -22),
        post.performed() is None,
        post.present() == pre.present(),
{
}

/// Eviction always succeeds, and changes nothing of what is known of the hardware.
pub proof fn law_eviction_succeeds(
    pre: AddressSpaceManager,
    slot_idx: int,
    binding: AsBinding,
    post: AddressSpaceManager,
    res: Result<(), Error>,
)
    requires
        AddressSpaceManager::evicted(pre, slot_idx, binding, post, res),
    ensures
        res is Ok,
        post == pre,
{
}

/// The plan for giving a VM a slot: a VM that still has its slot needs no access, one
/// that is offered a free slot has it programmed with its configuration, and one that
/// is offered an idle slot has that very slot evicted before. A slot that the hardware
/// does not have is refused with `EINVAL`, and where there is none to offer, the answer
/// is `EBUSY`.
pub proof fn law_plan_programs_the_offered_slot(
    spaces: AddressSpaceManager,
    binding: AsBinding,
    accessible: bool,
    offer: Candidate,
    plan: Result<VmPlan, Error>,
)
    requires
        super::planned(spaces, binding, accessible, offer, plan),
    ensures
        offer is Full ==> (plan matches Err(e) && e.code() == -16),
        offer is Own ==> (plan matches Ok(p) && p.enable@.len() == 0 && p.evict.flush@.len() == 0
            && p.evict.disable@.len() == 0),
        offer matches Candidate::Free(i) ==> {
            &&& !spaces.has(i) ==> (plan matches Err(e) && e.code() == -22)
            &&& spaces.has(i) ==> (plan matches Ok(p) && p.evict.flush@.len() == 0
                && p.evict.disable@.len() == 0 && p.enable@ == address_space::enable_ops(
                i as int,
                binding.as_config,
            ))
        },
        offer matches Candidate::Idle(i) ==> {
            &&& !spaces.has(i) ==> (plan matches Err(e) && e.code() == -22)
            &&& spaces.has(i) ==> (plan matches Ok(p) && p.enable@ == address_space::enable_ops(
                i as int,
                binding.as_config,
            ) && (accessible ==> p.evict.flush@ == address_space::send_ops(i as int, 4)
                && p.evict.disable@ == address_space::disable_ops(i as int)) && (!accessible
                ==> p.evict.flush@.len() == 0 && p.evict.disable@.len() == 0))
        },
{
}

/// What giving a VM a slot comes to: it succeeds exactly if the VM has its slot still,
/// or is offered one that the hardware has and the accesses went well; an error of
/// theirs is handed on.
pub proof fn law_activation_comes_to_its_accesses(
    spaces: AddressSpaceManager,
    pre: SlotTable<AsBinding>,
    binding: AsBinding,
    performed: Result<(), Error>,
    offer: Candidate,
    post: SlotTable<AsBinding>,
    seat: Seat,
    res: Result<(), Error>,
)
    requires
        super::activated(spaces, pre, binding, performed, offer, post, seat, res),
    ensures
        offer is Full ==> (res matches Err(e) && e.code() == -16),
        offer is Own ==> res is Ok,
        (offer matches Candidate::Free(i) && !spaces.has(i)) || (offer matches Candidate::Idle(i)
            && !spaces.has(i)) ==> (res matches Err(e) && e.code() == -22),
        (offer matches Candidate::Free(i) && spaces.has(i)) || (offer matches Candidate::Idle(i)
            && spaces.has(i)) ==> match performed {
            Ok(_) => res is Ok,
            Err(e) => res matches Err(f) && f.code() == e.code(),
        },
{
}

/// What giving a VM a slot leaves behind: on success the VM is active in the slot that
/// it was offered, which records its configuration and page table under the next
/// sequence number. Otherwise it has no slot, and an idle slot that it was offered is
/// free. No other slot changes in any case.
pub proof fn law_activation_changes_the_offered_slot(
    spaces: AddressSpaceManager,
    pre: SlotTable<AsBinding>,
    binding: AsBinding,
    performed: Result<(), Error>,
    offer: Candidate,
    i: usize,
    post: SlotTable<AsBinding>,
    seat: Seat,
    res: Result<(), Error>,
    other: int,
)
    requires
        super::activated(spaces, pre, binding, performed, offer, post, seat, res),
        offer == Candidate::Own(i) || offer == Candidate::Free(i) || offer == Candidate::Idle(i)
            || offer is Full,
        i < pre.slots.len(),
        0 <= pre.next < u64::MAX,
        0 <= other < pre.slots.len(),
    ensures
        post.slots.len() == pre.slots.len(),
        post.count == pre.count,
        other != i || offer is Full ==> post.slots[other] == pre.slots[other],
        res is Ok ==> {
            &&& post.next == pre.next + 1
            &&& post.slots[i as int] is Active
            &&& post.slots[i as int].info()->Some_0.slot_data == binding
            &&& post.slots[i as int].info()->Some_0.seqno == pre.next
            &&& seat matches Seat::Active(info) && info.slot() == i && info.seqno() == pre.next
        },
        res is Err ==> {
            &&& post.next == pre.next
            &&& seat is NoSeat
            &&& offer is Idle ==> post.slots[i as int] is Free
            &&& !(offer is Idle) ==> post == pre
        },
{
}

/// The number of address spaces is that of the bits set in the mask: halving the mask
/// takes its lowest bit away, and an empty mask has none.
pub proof fn law_bits_are_counted(x: nat)
    ensures
        super::bits_set(0) == 0,
        super::bits_set(2 * x) == super::bits_set(x),
        super::bits_set(2 * x + 1) == super::bits_set(x) + 1,
{
    assert((2 * x) / 2 == x && (2 * x) % 2 == 0);
    assert((2 * x + 1) / 2 == x && (2 * x + 1) % 2 == 1);
}

/// Whether the hardware has address space `as_nr`: its bit is set in the mask.
pub open spec fn is_present(spaces: AddressSpaceManager, as_nr: int) -> bool {
    0 <= as_nr < 32 && (spaces.present() as int / pow2(as_nr as nat) as int) % 2 == 1
}

/// What the calls that plan accesses to an address space come to: they fail with
/// `EINVAL` exactly if the hardware does not have it. Otherwise they are the accesses
/// that program the configuration, clear it after a flush, lock the region, or flush the
/// page tables and wait for that or not.
pub proof fn law_calls_for_an_address_space(
    spaces: AddressSpaceManager,
    as_nr: usize,
    config: AddressSpaceConfig,
)
    ensures
        forall|res: Result<(), Error>| #[trigger]
            call_ensures(AddressSpaceManager::validate_as_slot, (&spaces, as_nr), res) ==> {
                &&& res is Ok <==> is_present(spaces, as_nr as int)
                &&& res matches Err(e) ==> e.code() == -22
            },
        forall|res: Result<Vec<RegOp>, Error>| #[trigger]
            call_ensures(AddressSpaceManager::as_enable, (&spaces, as_nr, &config), res) ==> {
                &&& res is Ok <==> is_present(spaces, as_nr as int)
                &&& res matches Err(e) ==> e.code() == -22
                &&& res matches Ok(ops) ==> {
                    let base = 0x2400 + 64 * as_nr;
                    &&& ops@.len() == 9
                    &&& wide_register_after(ops@, 7, base) == Some(config.transtab as int)
                    &&& wide_register_after(ops@, 7, base + 0x8) == Some(config.memattr as int)
                    &&& wide_register_after(ops@, 7, base + 0x30) == Some(config.transcfg as int)
                    &&& awaits_idle(ops@[6], as_nr as int)
                    &&& gives_command(ops@[7], as_nr as int, 1)
                    &&& awaits_idle(ops@[8], as_nr as int)
                }
            },
        forall|res: Result<Vec<RegOp>, Error>| #[trigger]
            call_ensures(AddressSpaceManager::as_disable, (&spaces, as_nr), res) ==> {
                &&& res is Ok <==> is_present(spaces, as_nr as int)
                &&& res matches Err(e) ==> e.code() == -22
                &&& res matches Ok(ops) ==> {
                    let base = 0x2400 + 64 * as_nr;
                    &&& ops@.len() == 12
                    &&& awaits_idle(ops@[0], as_nr as int)
                    &&& gives_command(ops@[1], as_nr as int, 5)
                    &&& awaits_idle(ops@[2], as_nr as int)
                    &&& wide_register_after(ops@, 10, base) == Some(0int)
                    &&& wide_register_after(ops@, 10, base + 0x8) == Some(0int)
                    &&& wide_register_after(ops@, 10, base + 0x30) == Some(1int)
                    &&& awaits_idle(ops@[9], as_nr as int)
                    &&& gives_command(ops@[10], as_nr as int, 1)
                    &&& awaits_idle(ops@[11], as_nr as int)
                }
            },
        forall|res: Result<Vec<RegOp>, Error>| #[trigger]
            call_ensures(AddressSpaceManager::as_end_update, (&spaces, as_nr), res) ==> {
                &&& res is Ok <==> is_present(spaces, as_nr as int)
                &&& res matches Err(e) ==> e.code() == -22
                &&& res matches Ok(ops) ==> ops@.len() == 3 && awaits_idle(ops@[0], as_nr as int)
                    && gives_command(ops@[1], as_nr as int, 4) && awaits_idle(ops@[2], as_nr as int)
            },
        forall|res: Result<Vec<RegOp>, Error>| #[trigger]
            call_ensures(AddressSpaceManager::as_flush, (&spaces, as_nr), res) ==> {
                &&& res is Ok <==> is_present(spaces, as_nr as int)
                &&& res matches Err(e) ==> e.code() == -22
                &&& res matches Ok(ops) ==> ops@.len() == 2 && awaits_idle(ops@[0], as_nr as int)
                    && gives_command(ops@[1], as_nr as int, 4)
            },
{
    law_address_spaces_are_bits(spaces, as_nr);
    if as_nr < 32 {
        law_enable_programs_the_configuration(as_nr as int, config, 0);
        law_disable_flushes_and_clears(as_nr as int, 0);
        law_command_is_sent(as_nr as int, 4);
    }
}

/// Locking a region for an update writes the value that names the smallest block around
/// it, whole, before the command that locks it.
pub proof fn law_call_of_start_update(
    spaces: AddressSpaceManager,
    as_nr: usize,
    start: u64,
    end: u64,
)
    requires
        end > 0,
    ensures
        forall|res: Result<Vec<RegOp>, Error>| #[trigger]
            call_ensures(
                AddressSpaceManager::as_start_update,
                (&spaces, as_nr, &Range { start, end }),
                res,
            ) ==> {
                &&& res is Ok <==> is_present(spaces, as_nr as int)
                &&& res matches Err(e) ==> e.code() == -22
                &&& res matches Ok(ops) ==> {
                    &&& ops@.len() == 4
                    &&& wide_register_after(ops@, 2, 0x2400 + 64 * as_nr + 0x10) == Some(
                        lock_region::lock_value(start as int, end - 1),
                    )
                    &&& awaits_idle(ops@[2], as_nr as int)
                    &&& gives_command(ops@[3], as_nr as int, 2)
                }
            },
{
    law_address_spaces_are_bits(spaces, as_nr);
    lock_region::law_lock_value_reads_back(start, (end - 1) as u64, 0);
    if as_nr < 32 {
        let value = lock_region::lock_value(start as int, end - 1) as u64;
        law_lock_names_the_region(as_nr as int, value, 0);
    }
}

/// A VM's accesses go by its seat: only an active one has an address space to flush, to
/// lock or to unlock, and it is that of its slot. For any other seat nothing is accessed.
pub proof fn law_calls_go_by_the_seat(spaces: AddressSpaceManager, seat: Seat, region: Range<u64>)
    ensures
        forall|res: Result<Vec<RegOp>, Error>| #[trigger]
            call_ensures(AddressSpaceManager::flush_vm, (&spaces, &seat), res) ==> match seat {
                Seat::Active(info) => {
                    &&& res is Ok <==> spaces.has(info.slot() as usize)
                    &&& res matches Err(e) ==> e.code() == -22
                    &&& res matches Ok(ops) ==> ops@ == address_space::send_ops(info.slot(), 4)
                },
                _ => res matches Ok(ops) && ops@.len() == 0,
            },
        forall|res: Result<Vec<RegOp>, Error>| #[trigger]
            call_ensures(AddressSpaceManager::end_vm_update, (&spaces, &seat), res) ==> match seat {
                Seat::Active(info) => {
                    &&& res is Ok <==> spaces.has(info.slot() as usize)
                    &&& res matches Err(e) ==> e.code() == -22
                    &&& res matches Ok(ops) ==> ops@ == address_space::send_and_wait_ops(
                        info.slot(),
                        4,
                    )
                },
                _ => res matches Ok(ops) && ops@.len() == 0,
            },
        forall|res: Result<Vec<RegOp>, Error>| #[trigger]
            call_ensures(
                AddressSpaceManager::start_vm_update,
                (&spaces, &seat, &region),
                res,
            ) ==> match seat {
                Seat::Active(info) => {
                    &&& res is Ok <==> spaces.has(info.slot() as usize)
                    &&& res matches Err(e) ==> e.code() == -22
                    &&& res matches Ok(ops) ==> ops@ == address_space::lock_ops(
                        info.slot(),
                        lock_region::lock_value(region.start as int, region.end - 1) as u64,
                    )
                },
                _ => res matches Ok(ops) && ops@.len() == 0,
            },
        forall|slot_idx: usize, accessible: bool, res: EvictOps| #[trigger]
            call_ensures(
                AddressSpaceManager::evict_ops,
                (&spaces, slot_idx, accessible),
                res,
            ) ==> res.evicts(spaces, slot_idx, accessible),
        forall|slot_idx: usize, binding: AsBinding, res: Result<Vec<RegOp>, Error>| #[trigger]
            call_ensures(AddressSpaceManager::activate_ops, (&spaces, slot_idx, &binding), res)
                ==> {
                &&& res is Ok <==> spaces.has(slot_idx)
                &&& res matches Err(e) ==> e.code() == -22
                &&& res matches Ok(ops) ==> ops@ == address_space::enable_ops(
                    slot_idx as int,
                    binding.as_config,
                )
            },
{
}

/// The same holds of a VM of the MMU.
pub proof fn law_vm_calls_go_by_the_seat(mmu: Mmu, vm: VmAsData, region: Range<u64>)
    ensures
        forall|res: Result<Vec<RegOp>, Error>| #[trigger]
            call_ensures(Mmu::flush_vm, (&mmu, &vm), res) ==> match vm.seat() {
                Seat::Active(info) => {
                    &&& res is Ok <==> mmu.address_spaces().has(info.slot() as usize)
                    &&& res matches Err(e) ==> e.code() == -22
                    &&& res matches Ok(ops) ==> ops@ == address_space::send_ops(info.slot(), 4)
                },
                _ => res matches Ok(ops) && ops@.len() == 0,
            },
        forall|res: Result<Vec<RegOp>, Error>| #[trigger]
            call_ensures(Mmu::end_vm_update, (&mmu, &vm), res) ==> match vm.seat() {
                Seat::Active(info) => {
                    &&& res is Ok <==> mmu.address_spaces().has(info.slot() as usize)
                    &&& res matches Err(e) ==> e.code() == -22
                    &&& res matches Ok(ops) ==> ops@ == address_space::send_and_wait_ops(
                        info.slot(),
                        4,
                    )
                },
                _ => res matches Ok(ops) && ops@.len() == 0,
            },
        forall|res: Result<Vec<RegOp>, Error>| #[trigger]
            call_ensures(Mmu::start_vm_update, (&mmu, &vm, &region), res) ==> match vm.seat() {
                Seat::Active(info) => {
                    &&& res is Ok <==> mmu.address_spaces().has(info.slot() as usize)
                    &&& res matches Err(e) ==> e.code() == -22
                    &&& res matches Ok(ops) ==> ops@ == address_space::lock_ops(
                        info.slot(),
                        lock_region::lock_value(region.start as int, region.end - 1) as u64,
                    )
                },
                _ => res matches Ok(ops) && ops@.len() == 0,
            },
{
}

/// What the calls that give and take slots come to: a plan and an activation go by the
/// slot that the VM is offered. Taking a slot back frees it, plans its eviction, and
/// leaves the VM without one; where it has none any more, nothing is done.
pub proof fn law_calls_that_move_vms()
    ensures
        forall|as_present: u32, res: Result<Mmu, Error>| #[trigger]
            call_ensures(Mmu::new, (as_present,), res) ==> {
                &&& res is Ok <==> as_present != 0
                &&& res matches Err(e) ==> e.code() == -22
                &&& res matches Ok(mmu) ==> mmu.address_spaces().present() == as_present
                    && mmu.slots()@.count == super::bits_set(as_present as nat)
                    && mmu.slots()@.next == 1
            },
        forall|mmu: Mmu, vm: VmAsData, accessible: bool, offer: Candidate, res: Result<
            VmPlan,
            Error,
        >|
            mmu.wf() && #[trigger] mmu.slots()@.offers(vm.seat(), offer) && #[trigger] call_ensures(
                Mmu::plan_activation,
                (&mmu, &vm, accessible),
                res,
            ) ==> super::planned(mmu.address_spaces(), vm.binding(), accessible, offer, res),
        forall|mmu: &mut Mmu, vm: &mut VmAsData, performed: Result<(), Error>, offer: Candidate,
            res: Result<(), Error>|
            #[trigger] mmu.slots()@.offers(vm.seat(), offer) && #[trigger] call_ensures(
                Mmu::activate_vm,
                (mmu, vm, performed),
                res,
            ) ==> super::activated(
                mmu.address_spaces(),
                mmu.slots()@,
                vm.binding(),
                performed,
                offer,
                final(mmu).slots()@,
                final(vm).seat(),
                res,
            ) && final(vm).binding() == vm.binding() && final(mmu).address_spaces().present()
                == mmu.address_spaces().present(),
        forall|mmu: Mmu, vm: VmAsData, accessible: bool, res: EvictOps| #[trigger]
            call_ensures(Mmu::plan_deactivation, (&mmu, &vm, accessible), res) ==> {
                &&& !mmu.slots()@.bound(vm.seat()) ==> res.flush@.len() == 0 && res.disable@.len()
                    == 0
                &&& mmu.slots()@.bound(vm.seat()) ==> (vm.seat().info() matches Some(info)
                    && res.evicts(mmu.address_spaces(), info.slot() as usize, accessible))
            },
        forall|mmu: &mut Mmu, vm: &mut VmAsData, res: Result<(), Error>| #[trigger]
            call_ensures(Mmu::deactivate_vm, (mmu, vm), res) ==> {
                &&& res is Ok
                &&& final(vm).seat() is NoSeat
                &&& final(vm).binding() == vm.binding()
                &&& !mmu.slots()@.bound(vm.seat()) ==> final(mmu).slots()@ == mmu.slots()@
                &&& mmu.slots()@.bound(vm.seat()) ==> (vm.seat().info() matches Some(info)
                    && final(mmu).slots()@ == mmu.slots()@.freed(info.slot()))
            },
        forall|mmu: Mmu, vm: VmAsData, res: bool| #[trigger]
            call_ensures(Mmu::accepts_vm, (&mmu, &vm), res) ==> (res <==> mmu.slots()@.accepts(
                vm.seat(),
            )),
        forall|mmu: Mmu, res: u64| #[trigger]
            call_ensures(Mmu::next_seqno, (&mmu,), res) ==> res == mmu.slots()@.next,
{
    assert forall|mmu: Mmu, vm: VmAsData, accessible: bool, offer: Candidate, res: Result<
        VmPlan,
        Error,
    >|
        mmu.wf() && #[trigger] mmu.slots()@.offers(vm.seat(), offer) && #[trigger] call_ensures(
            Mmu::plan_activation,
            (&mmu, &vm, accessible),
            res,
        ) implies super::planned(
        mmu.address_spaces(),
        vm.binding(),
        accessible,
        offer,
        res,
    ) by {
        let offered = choose|o: Candidate| #[trigger]
            mmu.slots()@.offers(vm.seat(), o) && super::planned(
                mmu.address_spaces(),
                vm.binding(),
                accessible,
                o,
                res,
            );
        mmu.slots()@.law_offer_is_unique(vm.seat(), offered, offer);
    }
}

/// A new VM has no slot and keeps its configuration and page table.
pub proof fn law_calls_of_vm_data()
    ensures
        forall|as_config: AddressSpaceConfig, page_table: usize, res: VmAsData| #[trigger]
            call_ensures(VmAsData::new, (as_config, page_table), res) ==> {
                &&& res.seat() is NoSeat
                &&& res.binding().as_config == as_config
                &&& res.binding().page_table == page_table
            },
        forall|vm: VmAsData, res: AsBinding| #[trigger]
            call_ensures(VmAsData::to_binding, (&vm,), res) ==> res == vm.binding(),
        forall|vm: VmAsData, res: &Seat| #[trigger]
            call_ensures(VmAsData::as_seat, (&vm,), res) ==> *res == vm.seat(),
        forall|as_present: u32, res: AddressSpaceManager| #[trigger]
            call_ensures(AddressSpaceManager::new, (as_present,), res) ==> res.present()
                == as_present && res.performed() is None,
        forall|spaces: &mut AddressSpaceManager, outcome: Result<(), Error>, res: ()| #[trigger]
            call_ensures(AddressSpaceManager::perform, (spaces, outcome), res) ==> final(
                spaces
            ).performed() == Some(outcome) && final(spaces).present() == spaces.present(),
        forall|spaces: &mut AddressSpaceManager, res: ()| #[trigger]
            call_ensures(AddressSpaceManager::forget, (spaces,), res) ==> final(spaces).performed()
                is None && final(spaces).present() == spaces.present(),
{
}

} // verus!
