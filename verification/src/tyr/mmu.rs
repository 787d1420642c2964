//! Memory Management Unit (MMU) driver for the Tyr GPU.
//!
//! This module manages GPU address spaces and virtual memory operations through
//! hardware MMU slots. It provides functionality for flushing page tables and
//! managing VM updates for active address spaces.
//!
//! The [`Mmu`] uses a [`SlotManager`] to track which address spaces are
//! currently active in hardware slots, and an [`AddressSpaceManager`] to decide
//! on the hardware operations.

pub mod address_space;
pub mod laws;
pub mod lock_region;

use super::io::RegOp;
use super::regs::{AS_COMMAND_FLUSH_PT, MAX_AS_REGISTERS};
use super::slot::{Candidate, Seat, SlotManager, SlotTable};
use crate::error::{Error, EBUSY, EINVAL};
use address_space::{AddressSpaceManager, AsBinding, EvictOps, VmAsData};
use core::ops::Range;
use vstd::arithmetic::power2::*;
use vstd::prelude::*;

verus! {

/// Assigns hardware address space slots to VMs.
pub type AsSlotManager = SlotManager<AddressSpaceManager, MAX_AS_REGISTERS>;

/// The number of bits set in `x`.
pub open spec fn bits_set(x: nat) -> nat
    decreases x,
{
    if x == 0 {
        0
    } else {
        x % 2 + bits_set(x / 2)
    }
}

/// A number below `2^k` has at most `k` bits set.
proof fn lemma_bits_set_bound(x: nat, k: nat)
    requires
        x < pow2(k),
    ensures
        bits_set(x) <= k,
        bits_set(x) == 0 <==> x == 0,
    decreases k,
{
    if k == 0 {
        lemma2_to64();
    } else if x != 0 {
        lemma_pow2_unfold(k);
        lemma_bits_set_bound(x / 2, (k - 1) as nat);
    }
}

/// The number of bits set in `x`.
fn count_ones(x: u32) -> (res: u32)
    ensures
        res == bits_set(x as nat),
        res <= 32,
        res == 0 <==> x == 0,
{
    proof {
        lemma2_to64();
        lemma_bits_set_bound(x as nat, 32);
    }
    let mut rest: u32 = x;
    let mut count: u32 = 0;
    while rest != 0
        invariant
            count + bits_set(rest as nat) == bits_set(x as nat),
            bits_set(x as nat) <= 32,
        decreases rest,
    {
        count = count + rest % 2;
        rest = rest / 2;
    }
    count
}

/// The accesses that make a VM active in a slot.
pub struct VmPlan {
    /// Makes the slot forget the VM that was idle in it.
    pub evict: EvictOps,
    /// Makes the address space of the slot translate as the VM needs it. An
    /// activation fails where one of these accesses fails.
    pub enable: Vec<RegOp>,
}

/// Whether `plan` holds the accesses that make a VM with `binding` active in the
/// slot that it is offered: none where the slot is still its own. Fails with
/// `EINVAL` where the hardware does not have the slot, and with `EBUSY` where
/// there is none.
pub open spec fn planned(
    spaces: AddressSpaceManager,
    binding: AsBinding,
    accessible: bool,
    offer: Candidate,
    plan: Result<VmPlan, Error>,
) -> bool {
    match offer {
        Candidate::Own(_) => plan matches Ok(plan) && plan.evict.none() && plan.enable@.len() == 0,
        Candidate::Free(i) => {
            &&& plan is Ok <==> spaces.has(i)
            &&& plan matches Ok(plan) ==> {
                &&& plan.evict.none()
                &&& plan.enable@ == address_space::enable_ops(i as int, binding.as_config)
            }
            &&& plan matches Err(e) ==> e.code() == EINVAL
        },
        Candidate::Idle(i) => {
            &&& plan is Ok <==> spaces.has(i)
            &&& plan matches Ok(plan) ==> {
                &&& plan.evict.evicts(spaces, i, accessible)
                &&& plan.enable@ == address_space::enable_ops(i as int, binding.as_config)
            }
            &&& plan matches Err(e) ==> e.code() == EINVAL
        },
        Candidate::Full => plan matches Err(e) && e.code() == EBUSY,
    }
}

/// What activating a VM with `binding` comes to and does to the slots and to the
/// VM's seat, where performing the accesses of its plan came to `performed`: the
/// VM is active in the slot that it was offered, or it has none. In the latter case
/// an idle slot that it was offered is free, and no other slot has changed.
pub open spec fn activated(
    spaces: AddressSpaceManager,
    pre: SlotTable<AsBinding>,
    binding: AsBinding,
    performed: Result<(), Error>,
    offer: Candidate,
    post: SlotTable<AsBinding>,
    seat: Seat,
    res: Result<(), Error>,
) -> bool {
    let slot = match offer {
        Candidate::Own(i) => Ok(i),
        Candidate::Free(i) => settle(spaces, i, performed),
        Candidate::Idle(i) => settle(spaces, i, performed),
        Candidate::Full => Err(EBUSY as int),
    };
    match slot {
        Ok(i) => {
            &&& res is Ok
            &&& post == pre.record(i as int, binding)
            &&& seat.active_in(i as int, pre.next)
        },
        Err(code) => {
            &&& res matches Err(e) && e.code() == code
            &&& post == match offer {
                Candidate::Idle(i) => pre.freed(i as int),
                _ => pre,
            }
            &&& seat is NoSeat
        },
    }
}

/// Slot `i`, if the hardware has it and performing the accesses went well.
pub open spec fn settle(
    spaces: AddressSpaceManager,
    i: usize,
    performed: Result<(), Error>,
) -> Result<usize, int> {
    if !spaces.has(i) {
        Err(EINVAL as int)
    } else {
        match performed {
            Ok(_) => Ok(i),
            Err(e) => Err(e.code()),
        }
    }
}

/// Manages the allocation of hardware MMU slots to GPU address spaces.
///
/// Tracks which address spaces are currently active in hardware slots and
/// coordinates address space operations like flushing and VM updates.
pub struct Mmu {
    as_manager: AsSlotManager,
}

impl Mmu {
    /// The slots and the VMs in them.
    pub closed spec fn slots(self) -> AsSlotManager {
        self.as_manager
    }

    /// The decisions on hardware operations.
    pub open spec fn address_spaces(self) -> AddressSpaceManager {
        self.slots().manager()
    }

    /// Whether the records of the slots agree with one another, and no outcome of
    /// accesses is left over.
    pub open spec fn wf(self) -> bool {
        self.slots().wf() && self.address_spaces().performed() is None
    }

    /// Manages the address spaces in `as_present`, with as many slots as there
    /// are bits set in it. Fails with `EINVAL` where there are none.
    pub fn new(as_present: u32) -> (res: Result<Self, Error>)
        ensures
            res is Ok <==> as_present != 0,
            res matches Err(e) ==> e.code() == EINVAL,
            res matches Ok(mmu) ==> {
                &&& mmu.wf()
                &&& mmu.address_spaces().present() == as_present
                &&& mmu.slots()@.count == bits_set(as_present as nat)
                &&& mmu.slots()@.next == 1
                &&& forall|i: int|
                    0 <= i < MAX_AS_REGISTERS ==> #[trigger] mmu.slots()@.slots[i] is Free
            },
    {
        let slot_count: usize = count_ones(as_present) as usize;
        match SlotManager::new(AddressSpaceManager::new(as_present), slot_count) {
            Ok(as_manager) => Ok(Mmu { as_manager }),
            Err(e) => Err(e),
        }
    }

    /// Whether the slot that the VM was given, if any, is one of this MMU's.
    pub fn accepts_vm(&self, vm: &VmAsData) -> (res: bool)
        requires
            self.wf(),
        ensures
            res == self.slots()@.accepts(vm.seat()),
    {
        self.as_manager.accepts_seat(vm.as_seat())
    }

    /// The sequence number that the next activation gets.
    pub fn next_seqno(&self) -> (res: u64)
        ensures
            res == self.slots()@.next,
    {
        self.as_manager.next_seqno()
    }

    /// The accesses that give the VM a hardware slot: those of `evict` are to be
    /// performed whatever they come to, and then those of `enable`. What the
    /// latter come to goes to [`Mmu::activate_vm`].
    ///
    /// `accessible` says whether the registers can still be accessed.
    pub fn plan_activation(&self, vm: &VmAsData, accessible: bool) -> (res: Result<VmPlan, Error>)
        requires
            self.wf(),
            self.slots()@.accepts(vm.seat()),
        ensures
            forall|offer: Candidate| #[trigger]
                self.slots()@.offers(vm.seat(), offer) ==> planned(
                    self.address_spaces(),
                    vm.binding(),
                    accessible,
                    offer,
                    res,
                ),
            exists|offer: Candidate| #[trigger]
                self.slots()@.offers(vm.seat(), offer) && planned(
                    self.address_spaces(),
                    vm.binding(),
                    accessible,
                    offer,
                    res,
                ),
    {
        let offer = self.as_manager.candidate(vm.as_seat());
        proof {
            assert forall|other: Candidate| #[trigger]
                self.slots()@.offers(vm.seat(), other) implies other == offer by {
                self.slots()@.law_offer_is_unique(vm.seat(), other, offer);
            }
        }
        let spaces = self.as_manager.deref();
        match offer {
            Candidate::Own(_) => Ok(VmPlan { evict: EvictOps::new(), enable: Vec::new() }),
            Candidate::Free(slot_idx) => match spaces.activate_ops(slot_idx, &vm.to_binding()) {
                Ok(enable) => Ok(VmPlan { evict: EvictOps::new(), enable }),
                Err(e) => Err(e),
            },
            Candidate::Idle(slot_idx) => match spaces.activate_ops(slot_idx, &vm.to_binding()) {
                Ok(enable) => Ok(
                    VmPlan { evict: spaces.evict_ops(slot_idx, accessible), enable },
                ),
                Err(e) => Err(e),
            },
            Candidate::Full => Err(Error::from_errno(EBUSY)),
        }
    }

    /// Gives the VM a hardware slot, where performing the accesses that
    /// [`Mmu::plan_activation`] plans came to `performed`.
    pub fn activate_vm(&mut self, vm: &mut VmAsData, performed: Result<(), Error>) -> (res: Result<
        (),
        Error,
    >)
        requires
            old(self).wf(),
            old(self).slots()@.accepts(old(vm).seat()),
            old(self).slots()@.next < u64::MAX,
        ensures
            final(self).wf(),
            final(self).address_spaces().present() == old(self).address_spaces().present(),
            final(vm).binding() == old(vm).binding(),
            final(self).slots()@.accepts(final(vm).seat()),
            forall|offer: Candidate| #[trigger]
                old(self).slots()@.offers(old(vm).seat(), offer) ==> activated(
                    old(self).address_spaces(),
                    old(self).slots()@,
                    old(vm).binding(),
                    performed,
                    offer,
                    final(self).slots()@,
                    final(vm).seat(),
                    res,
                ),
    {
        proof {
            self.as_manager@.lemma_allocation_cases();
        }
        let binding = vm.to_binding();
        self.as_manager.deref_mut().perform(performed);
        let res = self.as_manager.activate(vm.as_seat_mut(), binding);
        self.as_manager.deref_mut().forget();
        res
    }

    /// The accesses that take the VM's hardware slot back, if it has one. They are
    /// to be performed whatever they come to.
    ///
    /// `accessible` says whether the registers can still be accessed.
    pub fn plan_deactivation(&self, vm: &VmAsData, accessible: bool) -> (res: EvictOps)
        requires
            self.wf(),
            self.slots()@.accepts(vm.seat()),
        ensures
            match self.slots()@.checked(vm.seat()).info() {
                Some(info) => res.evicts(
                    self.address_spaces(),
                    info.slot() as usize,
                    accessible,
                ),
                None => res.none(),
            },
    {
        match self.as_manager.candidate(vm.as_seat()) {
            Candidate::Own(slot_idx) => self.as_manager.deref().evict_ops(slot_idx, accessible),
            _ => EvictOps::new(),
        }
    }

    /// Takes the VM's hardware slot back.
    pub fn deactivate_vm(&mut self, vm: &mut VmAsData) -> (res: Result<(), Error>)
        requires
            old(self).wf(),
            old(self).slots()@.accepts(old(vm).seat()),
        ensures
            res is Ok,
            final(self).wf(),
            final(self).address_spaces() == old(self).address_spaces(),
            final(vm).binding() == old(vm).binding(),
            final(vm).seat() is NoSeat,
            final(self).slots()@ == match old(self).slots()@.checked(old(vm).seat()).info() {
                Some(info) => old(self).slots()@.freed(info.slot()),
                None => old(self).slots()@,
            },
    {
        self.as_manager.evict(vm.as_seat_mut())
    }

    /// The accesses that flush the page tables of a VM, if it has an active
    /// slot.
    pub fn flush_vm(&self, vm: &VmAsData) -> (res: Result<Vec<RegOp>, Error>)
        ensures
            match vm.seat() {
                Seat::Active(info) => {
                    &&& res is Ok <==> self.address_spaces().has(info.slot() as usize)
                    &&& res matches Ok(ops) ==> ops@ == address_space::send_ops(
                        info.slot(),
                        AS_COMMAND_FLUSH_PT,
                    )
                    &&& res matches Err(e) ==> e.code() == EINVAL
                },
                _ => res matches Ok(ops) && ops@.len() == 0,
            },
    {
        self.as_manager.deref().flush_vm(vm.as_seat())
    }

    /// The accesses that lock a region for page table updates, if the VM has an
    /// active slot.
    pub fn start_vm_update(&self, vm: &VmAsData, region: &Range<u64>) -> (res: Result<
        Vec<RegOp>,
        Error,
    >)
        requires
            vm.seat() matches Seat::Active(info) ==> self.address_spaces().has(
                info.slot() as usize,
            ) ==> region.end > 0,
        ensures
            match vm.seat() {
                Seat::Active(info) => {
                    &&& res is Ok <==> self.address_spaces().has(info.slot() as usize)
                    &&& res matches Ok(ops) ==> ops@ == address_space::lock_ops(
                        info.slot(),
                        lock_region::lock_value(region.start as int, region.end - 1) as u64,
                    )
                    &&& res matches Err(e) ==> e.code() == EINVAL
                },
                _ => res matches Ok(ops) && ops@.len() == 0,
            },
    {
        self.as_manager.deref().start_vm_update(vm.as_seat(), region)
    }

    /// The accesses that end page table updates, if the VM has an active slot.
    pub fn end_vm_update(&self, vm: &VmAsData) -> (res: Result<Vec<RegOp>, Error>)
        ensures
            match vm.seat() {
                Seat::Active(info) => {
                    &&& res is Ok <==> self.address_spaces().has(info.slot() as usize)
                    &&& res matches Ok(ops) ==> ops@ == address_space::send_and_wait_ops(
                        info.slot(),
                        AS_COMMAND_FLUSH_PT,
                    )
                    &&& res matches Err(e) ==> e.code() == EINVAL
                },
                _ => res matches Ok(ops) && ops@.len() == 0,
            },
    {
        self.as_manager.deref().end_vm_update(vm.as_seat())
    }
}

/// A VM that was activated in a slot that was not its own is active in the slot
/// whose address space was made to translate as the VM needs it, and the slot keeps
/// the VM's configuration and page table.
pub proof fn law_activation_programs_its_slot(
    spaces: AddressSpaceManager,
    pre: SlotTable<AsBinding>,
    binding: AsBinding,
    accessible: bool,
    performed: Result<(), Error>,
    offer: Candidate,
    plan: VmPlan,
    post: SlotTable<AsBinding>,
    seat: Seat,
)
    requires
        pre.wf(),
        pre.offers(Seat::NoSeat, offer),
        planned(spaces, binding, accessible, offer, Ok(plan)),
        activated(spaces, pre, binding, performed, offer, post, seat, Ok(())),
    ensures
        seat matches Seat::Active(info) && {
            &&& plan.enable@ == address_space::enable_ops(info.slot(), binding.as_config)
            &&& post.slots[info.slot()] is Active
            &&& post.slots[info.slot()].info()->Some_0.slot_data == binding
        },
        performed is Ok,
{
}

/// Where the hardware numbers its address spaces without gaps, every slot of
/// the MMU is one that the hardware has.
pub proof fn law_contiguous_slots_are_present(as_space: AddressSpaceManager, n: u32, slot: usize)
    requires
        1 <= n <= 32,
        as_space.present() == pow2(n as nat) - 1,
        slot < bits_set(as_space.present() as nat),
    ensures
        bits_set(as_space.present() as nat) == n,
        as_space.has(slot),
{
    lemma_bits_of_mask(n as nat);
    let present = as_space.present();
    if n == 32 {
        lemma2_to64();
        assert(present & (1u32 << slot) != 0) by (bit_vector)
            requires
                present == 0xffff_ffffu32,
                slot < 32,
        ;
    } else {
        lemma2_to64();
        lemma_pow2_strictly_increases(n as nat, 32);
        vstd::bits::lemma_u32_shl_is_mul(1u32, n);
        assert(present & (1u32 << slot) != 0) by (bit_vector)
            requires
                present == (1u32 << n) - 1,
                slot < n,
                n < 32,
        ;
    }
}

/// A mask of `n` low bits has `n` bits set.
proof fn lemma_bits_of_mask(n: nat)
    ensures
        bits_set((pow2(n) - 1) as nat) == n,
    decreases n,
{
    lemma_pow2_pos(n);
    if n == 0 {
        lemma2_to64();
    } else {
        lemma_pow2_unfold(n);
        lemma_pow2_pos((n - 1) as nat);
        lemma_bits_of_mask((n - 1) as nat);
        assert((pow2(n) - 1) / 2 == pow2((n - 1) as nat) - 1);
    }
}

} // verus!
