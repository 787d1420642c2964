//! Bringing a device up and tearing it down.

use drm_tyr::error::{Error, EBUSY, ENODEV};
use drm_tyr::tyr::driver::{
    info, of_table, teardown, Clock, GpuInfo, Probe, Reply, Supply, Teardown,
};

const GPU: GpuInfo = GpuInfo { pa_bits: 40, as_present: 0xff };

/// The reply of a step that goes well.
fn good(step: Probe) -> Reply {
    match step {
        Probe::RequestIo(_) => Reply::Found(true),
        Probe::ReadGpuInfo => Reply::Gpu(GPU),
        _ => Reply::Done(Ok(())),
    }
}

#[test]
fn bring_up_takes_every_step_in_order() {
    let mut steps: Vec<Probe> = Vec::new();
    let mut step = Probe::start();
    while !matches!(step, Probe::Finished(_)) {
        steps.push(step);
        step = step.next(good(step));
    }
    assert_eq!(step, Probe::Finished(Ok(())));
    assert_eq!(
        steps,
        vec![
            Probe::GetClock(Clock::Core),
            Probe::GetClock(Clock::Stacks),
            Probe::GetClock(Clock::Coregroup),
            Probe::EnableClock(Clock::Core),
            Probe::EnableClock(Clock::Stacks),
            Probe::EnableClock(Clock::Coregroup),
            Probe::GetRegulator(Supply::Mali),
            Probe::GetRegulator(Supply::Sram),
            Probe::RequestIo(0),
            Probe::MapIo(0x200000),
            Probe::Reset,
            Probe::ReadGpuInfo,
            Probe::SetDmaMask(GPU),
            Probe::CreateDevice(GPU),
            Probe::CreateMmu(GPU),
            Probe::CreateFirmware(GPU),
            Probe::BootFirmware(GPU),
            Probe::EnableGlobalInterface(GPU),
            Probe::Register(GPU),
        ]
    );
}

#[test]
fn bring_up_stops_at_the_first_error() {
    let error = Error::from_errno(EBUSY);
    let mut step = Probe::start();
    while !matches!(step, Probe::Finished(_)) {
        // Every step that can fail ends the bring-up with its error.
        if !matches!(step, Probe::RequestIo(_) | Probe::ReadGpuInfo) {
            assert_eq!(step.next(Reply::Done(Err(error))), Probe::Finished(Err(error)));
        }
        step = step.next(good(step));
    }
}

#[test]
fn missing_io_region_is_no_device() {
    let failed = Probe::RequestIo(0).next(Reply::Found(false));
    assert_eq!(failed, Probe::Finished(Err(Error::from_errno(ENODEV))));
}

#[test]
fn reset_is_drained_before_power_goes() {
    assert_eq!(
        teardown(),
        vec![
            Teardown::ShutDownReset,
            Teardown::CancelReset,
            Teardown::DestroyResetQueue,
            Teardown::ReleaseFirmware,
            Teardown::DisableClock(Clock::Core),
            Teardown::DisableClock(Clock::Stacks),
            Teardown::DisableClock(Clock::Coregroup),
            Teardown::DisableRegulator(Supply::Mali),
            Teardown::DisableRegulator(Supply::Sram),
        ]
    );
}

#[test]
fn driver_is_known_by_its_names() {
    let info = info();
    assert_eq!((info.major, info.minor, info.patchlevel), (1, 5, 0));
    assert_eq!(info.name, "panthor");
    assert_eq!(info.desc, "ARM Mali Tyr DRM driver");
    assert_eq!(of_table(), vec!["rockchip,rk3588-mali", "arm,mali-valhall-csf"]);
}

#[test]
fn clocks_and_regulators_are_known_by_their_names() {
    assert_eq!(Clock::Core.name(), "core");
    assert_eq!(Clock::Stacks.name(), "stacks");
    assert_eq!(Clock::Coregroup.name(), "coregroup");
    assert!(!Clock::Core.is_optional());
    assert!(Clock::Stacks.is_optional());
    assert!(Clock::Coregroup.is_optional());
    assert_eq!(Supply::Mali.name(), "mali");
    assert_eq!(Supply::Sram.name(), "sram");
}

#[test]
fn failed_bring_up_disables_its_regulators() {
    let mut step = Probe::start();
    let mut on: Vec<Supply> = Vec::new();
    while !matches!(step, Probe::Finished(_)) {
        // What was got last is disabled first.
        let expected: Vec<Supply> = on.iter().rev().copied().collect();
        assert_eq!(step.unwind(), expected);
        if let Probe::GetRegulator(supply) = step {
            on.push(supply);
        }
        step = step.next(good(step));
    }
    assert_eq!(on, vec![Supply::Mali, Supply::Sram]);
    assert!(step.unwind().is_empty());
}
