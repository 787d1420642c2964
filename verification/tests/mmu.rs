//! Address spaces of the GPU.

use drm_tyr::error::{Error, EBUSY, EINVAL, ETIMEDOUT};
use drm_tyr::tyr::io::{Poll, RegOp};
use drm_tyr::tyr::mmu::address_space::{AddressSpaceConfig, AddressSpaceManager, VmAsData};
use drm_tyr::tyr::mmu::lock_region::{genmask_checked_u64, lock_region};
use drm_tyr::tyr::mmu::{AsSlotManager, Mmu};
use drm_tyr::tyr::regs::{
    as_command, as_memattr_aarch64_inner_alloc_expl, as_status, as_transcfg_hi,
    as_transcfg_ina_bits, AS_LOCK_REGION_MIN_SIZE, GPU_CMD, GPU_ID, MAX_AS_REGISTERS,
};
use drm_tyr::tyr::slot::{Candidate, Seat, SlotManager};

const CONFIG: AddressSpaceConfig = AddressSpaceConfig {
    transcfg: 0x1111_2222_3333_4444,
    transtab: 0x5555_6666_7777_8888,
    memattr: 0x9999_aaaa_bbbb_cccc,
};

fn write(offset: usize, value: u32) -> RegOp {
    RegOp::Write { offset, value }
}

fn ready(offset: usize) -> RegOp {
    RegOp::Wait(Poll { offset, mask: 1, set: false, sleep_ms: 0, timeout_ms: 10 })
}

fn code<T>(res: Result<T, Error>) -> i32 {
    match res {
        Ok(_) => 0,
        Err(e) => e.to_errno(),
    }
}

#[test]
fn registers_are_where_they_are() {
    assert_eq!(GPU_ID.read(), RegOp::Read { offset: 0 });
    assert_eq!(GPU_CMD.write(0x101), write(0x30, 0x101));
    assert_eq!(as_command(0).unwrap().offset(), 0x2418);
    assert_eq!(as_status(1).unwrap().offset(), 0x2468);
    assert_eq!(as_transcfg_hi(31).unwrap().offset(), 0x2400 + 31 * 64 + 0x34);
    assert_eq!(as_status(2).unwrap().read(), RegOp::Read { offset: 0x24a8 });
    assert_eq!(MAX_AS_REGISTERS, 32);
    assert_eq!(AS_LOCK_REGION_MIN_SIZE, 32768);
}

#[test]
fn register_fields_are_composed() {
    assert_eq!(as_transcfg_ina_bits(7), 448);
    assert_eq!(as_transcfg_ina_bits(1 << 63), 0);
    assert_eq!(as_memattr_aarch64_inner_alloc_expl(false, false), 12);
    assert_eq!(as_memattr_aarch64_inner_alloc_expl(true, false), 13);
    assert_eq!(as_memattr_aarch64_inner_alloc_expl(false, true), 14);
    assert_eq!(as_memattr_aarch64_inner_alloc_expl(true, true), 15);
}

#[test]
fn poll_looks_at_its_bits() {
    let poll = Poll { offset: 0, mask: 6, set: true, sleep_ms: 0, timeout_ms: 0 };
    assert!(poll.done(2));
    assert!(poll.done(4));
    assert!(!poll.done(1));
    let poll = Poll { set: false, ..poll };
    assert!(poll.done(1));
    assert!(!poll.done(2));
}

#[test]
fn address_space_has_to_be_present() {
    let spaces = AddressSpaceManager::new(0b101);
    assert_eq!(code(spaces.validate_as_slot(0)), 0);
    assert_eq!(code(spaces.validate_as_slot(1)), EINVAL);
    assert_eq!(code(spaces.validate_as_slot(2)), 0);
    assert_eq!(code(spaces.validate_as_slot(31)), EINVAL);
    assert_eq!(code(spaces.validate_as_slot(32)), EINVAL);
    assert_eq!(code(spaces.validate_as_slot(64)), EINVAL);
    assert_eq!(code(AddressSpaceManager::new(1 << 31).validate_as_slot(31)), 0);
    assert_eq!(code(spaces.as_enable(1, &CONFIG)), EINVAL);
    assert_eq!(code(spaces.as_disable(1)), EINVAL);
    assert_eq!(code(spaces.as_start_update(1, &(0..4096))), EINVAL);
    assert_eq!(code(spaces.as_end_update(1)), EINVAL);
    assert_eq!(code(spaces.as_flush(1)), EINVAL);
}

#[test]
fn enabling_writes_the_configuration() {
    let spaces = AddressSpaceManager::new(0xff);
    let base = 0x2400 + 3 * 64;
    assert_eq!(
        spaces.as_enable(3, &CONFIG).unwrap(),
        vec![
            write(base, 0x7777_8888),
            write(base + 0x4, 0x5555_6666),
            write(base + 0x30, 0x3333_4444),
            write(base + 0x34, 0x1111_2222),
            write(base + 0x8, 0xbbbb_cccc),
            write(base + 0xc, 0x9999_aaaa),
            ready(base + 0x28),
            write(base + 0x18, 1),
            ready(base + 0x28),
        ]
    );
}

#[test]
fn disabling_flushes_first() {
    let spaces = AddressSpaceManager::new(0xff);
    let base = 0x2400;
    let disable = vec![
        ready(base + 0x28),
        write(base + 0x18, 5),
        ready(base + 0x28),
        write(base, 0),
        write(base + 0x4, 0),
        write(base + 0x8, 0),
        write(base + 0xc, 0),
        write(base + 0x30, 1),
        write(base + 0x34, 0),
        ready(base + 0x28),
        write(base + 0x18, 1),
        ready(base + 0x28),
    ];
    assert_eq!(spaces.as_disable(0).unwrap(), disable);

    let evict = spaces.evict_ops(0, true);
    assert_eq!(evict.flush, vec![ready(base + 0x28), write(base + 0x18, 4)]);
    assert_eq!(evict.disable, disable);
    let evict = spaces.evict_ops(0, false);
    assert!(evict.flush.is_empty() && evict.disable.is_empty());
    let evict = spaces.evict_ops(8, true);
    assert!(evict.flush.is_empty() && evict.disable.is_empty());
}

#[test]
fn update_locks_and_then_flushes() {
    let spaces = AddressSpaceManager::new(0xff);
    let base = 0x2440;
    assert_eq!(
        spaces.as_start_update(1, &(0x5_1234_5000..0x5_1234_6000)).unwrap(),
        vec![
            write(base + 0x10, 0x1234_400e),
            write(base + 0x14, 0x5),
            ready(base + 0x28),
            write(base + 0x18, 2),
        ]
    );
    assert_eq!(
        spaces.as_end_update(1).unwrap(),
        vec![ready(base + 0x28), write(base + 0x18, 4), ready(base + 0x28)]
    );
    assert_eq!(spaces.as_flush(1).unwrap(), vec![ready(base + 0x28), write(base + 0x18, 4)]);
}

#[test]
fn lock_region_is_the_smallest_block() {
    // A page is locked in a block of the smallest size.
    assert_eq!(lock_region(&(0x1000..0x2000)), Ok(14));
    assert_eq!(lock_region(&(0x1234_5000..0x1234_6000)), Ok(0x1234_400e));
    // A region that fills a block is locked in that block.
    assert_eq!(lock_region(&(0x1_0000..0x2_0000)), Ok(0x1_000f));
    assert_eq!(lock_region(&(0..0x1_0000_0000)), Ok(31));
    // Two pages around a boundary need the block around the boundary.
    assert_eq!(lock_region(&(0x7fff_f000..0x8000_1000)), Ok(0x1f));
    assert_eq!(lock_region(&(0x7000..0x9000)), Ok(0x400f & !0x7fff | 15));
    // Blocks at the top of the address space.
    assert_eq!(lock_region(&(1 << 63..(1 << 63) + 0x1000)), Ok((1 << 63) | 14));
    assert_eq!(lock_region(&(0..u64::MAX)), Ok(63));
    // An empty region is locked from the address before its end.
    assert_eq!(lock_region(&(0x8000..0x8000)), Ok(0x800f & !0x7fff | 15));
}

#[test]
fn genmask_sets_a_range_of_bits() {
    assert_eq!(genmask_checked_u64(0, 0), Some(1));
    assert_eq!(genmask_checked_u64(4, 7), Some(0xf0));
    assert_eq!(genmask_checked_u64(14, 63), Some(0xffff_ffff_ffff_c000));
    assert_eq!(genmask_checked_u64(0, 63), Some(u64::MAX));
    assert_eq!(genmask_checked_u64(63, 63), Some(1 << 63));
    assert_eq!(genmask_checked_u64(8, 7), None);
    assert_eq!(genmask_checked_u64(0, 64), None);
    assert_eq!(genmask_checked_u64(u32::MAX, u32::MAX), None);
}

/// Activates a VM, and returns the accesses that this takes.
fn activate(mmu: &mut Mmu, vm: &mut VmAsData) -> Result<Vec<RegOp>, Error> {
    let mut ops = Vec::new();
    let performed = match mmu.plan_activation(vm, true) {
        Ok(plan) => {
            ops.extend(plan.evict.flush);
            ops.extend(plan.evict.disable);
            ops.extend(plan.enable);
            Ok(())
        }
        Err(e) => Err(e),
    };
    mmu.activate_vm(vm, performed)?;
    Ok(ops)
}

#[test]
fn mmu_needs_an_address_space() {
    assert_eq!(code(Mmu::new(0)), EINVAL);
    assert_eq!(code(Mmu::new(u32::MAX)), 0);
}

#[test]
fn mmu_has_as_many_slots_as_address_spaces() {
    let mut mmu = Mmu::new(0b11).ok().unwrap();
    let spaces = AddressSpaceManager::new(0b11);
    let mut a = VmAsData::new(CONFIG, 1);
    let mut b = VmAsData::new(CONFIG, 2);
    let mut c = VmAsData::new(CONFIG, 3);
    assert_eq!(activate(&mut mmu, &mut a), spaces.as_enable(0, &CONFIG));
    assert_eq!(activate(&mut mmu, &mut b), spaces.as_enable(1, &CONFIG));
    assert_eq!(code(activate(&mut mmu, &mut c)), EBUSY);
    assert_eq!(a.as_seat().slot(), Some(0));
    assert_eq!(b.as_seat().slot(), Some(1));
    // A VM that is active keeps its slot, and nothing is accessed.
    assert_eq!(activate(&mut mmu, &mut a), Ok(vec![]));

    let evict = mmu.plan_deactivation(&a, true);
    assert_eq!(evict.flush, spaces.as_flush(0).unwrap());
    assert_eq!(evict.disable, spaces.as_disable(0).unwrap());
    assert_eq!(code(mmu.deactivate_vm(&mut a)), 0);
    assert_eq!(a.as_seat().slot(), None);
    assert!(mmu.plan_deactivation(&a, true).flush.is_empty());
    assert_eq!(activate(&mut mmu, &mut c), spaces.as_enable(0, &CONFIG));
    assert_eq!(c.as_seat().slot(), Some(0));
}

#[test]
fn failed_accesses_leave_the_vm_without_a_slot() {
    let mut mmu = Mmu::new(0b1).ok().unwrap();
    let mut vm = VmAsData::new(CONFIG, 1);
    assert!(mmu.plan_activation(&vm, true).is_ok());
    let failed = mmu.activate_vm(&mut vm, Err(Error::from_errno(ETIMEDOUT)));
    assert_eq!(code(failed), ETIMEDOUT);
    assert_eq!(vm.as_seat().slot(), None);
    // The slot is still free.
    assert_eq!(code(activate(&mut mmu, &mut vm)), 0);
    assert_eq!(vm.as_seat().slot(), Some(0));
}

#[test]
fn slot_that_is_not_present_is_refused() {
    // One address space is present, but not the first one.
    let mut mmu = Mmu::new(0b10).ok().unwrap();
    let mut vm = VmAsData::new(CONFIG, 1);
    assert_eq!(code(mmu.plan_activation(&vm, true)), EINVAL);
    assert_eq!(code(mmu.activate_vm(&mut vm, Ok(()))), EINVAL);
    assert_eq!(vm.as_seat().slot(), None);
}

#[test]
fn idle_slot_is_evicted_before_it_is_reused() {
    let mut slots: AsSlotManager =
        SlotManager::new(AddressSpaceManager::new(0b1), 1).ok().unwrap();
    let binding = VmAsData::new(CONFIG, 1).to_binding();
    let mut a = Seat::default();
    let mut b = Seat::default();
    assert_eq!(slots.candidate(&a), Candidate::Free(0));
    // Nothing was accessed yet, so nothing can be active.
    assert_eq!(code(slots.activate(&mut a, binding)), EINVAL);
    assert_eq!(slots.candidate(&a), Candidate::Free(0));
    slots.deref_mut().perform(Ok(()));
    assert_eq!(code(slots.activate(&mut a, binding)), 0);
    assert_eq!(slots.candidate(&a), Candidate::Own(0));
    assert_eq!(slots.candidate(&b), Candidate::Full);
    assert_eq!(code(slots.idle(&mut a)), 0);
    assert_eq!(slots.candidate(&a), Candidate::Own(0));
    assert_eq!(slots.candidate(&b), Candidate::Idle(0));
    slots.deref_mut().perform(Err(Error::from_errno(ETIMEDOUT)));
    assert_eq!(code(slots.activate(&mut b, binding)), ETIMEDOUT);
    // The idle seat has lost its slot, which is free.
    assert_eq!(slots.candidate(&a), Candidate::Free(0));
    assert_eq!(slots.candidate(&b), Candidate::Free(0));
    slots.deref_mut().perform(Ok(()));
    assert_eq!(code(slots.activate(&mut b, binding)), 0);
    assert_eq!(slots.candidate(&a), Candidate::Full);
    // The accesses served for that activation, and not for another one.
    assert_eq!(code(slots.evict(&mut b)), 0);
    assert_eq!(code(slots.activate(&mut a, binding)), EINVAL);
    slots.deref_mut().perform(Ok(()));
    slots.deref_mut().forget();
    assert_eq!(code(slots.activate(&mut a, binding)), EINVAL);
}

#[test]
fn mmu_tells_its_vms_from_others() {
    let mut mmu = Mmu::new(0b1).ok().unwrap();
    let mut vm = VmAsData::new(CONFIG, 1);
    assert!(mmu.accepts_vm(&vm));
    assert_eq!(mmu.next_seqno(), 1);
    assert_eq!(code(activate(&mut mmu, &mut vm)), 0);
    assert_eq!(mmu.next_seqno(), 2);
    assert!(mmu.accepts_vm(&vm));
    assert_eq!(code(activate(&mut mmu, &mut vm)), 0);
    assert_eq!(mmu.next_seqno(), 3);
    // A VM that got its slot elsewhere is taken for one without a slot.
    let mut other = Mmu::new(0b111).ok().unwrap();
    let mut second = VmAsData::new(CONFIG, 2);
    let mut third = VmAsData::new(CONFIG, 3);
    assert_eq!(code(activate(&mut other, &mut vm)), 0);
    assert_eq!(code(activate(&mut other, &mut second)), 0);
    assert_eq!(code(activate(&mut other, &mut third)), 0);
    assert_eq!(third.as_seat().slot(), Some(2));
    assert!(mmu.accepts_vm(&third));
    assert_eq!(code(mmu.deactivate_vm(&mut third)), 0);
    assert_eq!(third.as_seat().slot(), None);
}

#[test]
fn updates_of_an_inactive_vm_touch_nothing() {
    let mut mmu = Mmu::new(0b11).ok().unwrap();
    let mut vm = VmAsData::new(CONFIG, 1);
    assert_eq!(mmu.start_vm_update(&vm, &(0..4096)), Ok(vec![]));
    assert_eq!(mmu.end_vm_update(&vm), Ok(vec![]));
    assert_eq!(mmu.flush_vm(&vm), Ok(vec![]));

    assert_eq!(code(activate(&mut mmu, &mut vm)), 0);
    let spaces = AddressSpaceManager::new(0b11);
    assert_eq!(mmu.start_vm_update(&vm, &(0..4096)), spaces.as_start_update(0, &(0..4096)));
    assert_eq!(mmu.end_vm_update(&vm), spaces.as_end_update(0));
    assert_eq!(mmu.flush_vm(&vm), spaces.as_flush(0));
    assert_eq!(vm.to_binding().page_table, 1);
}
