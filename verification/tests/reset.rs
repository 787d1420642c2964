//! GPU reset.

use drm_tyr::error::{Error, ENOMEM, ETIMEDOUT};
use drm_tyr::tyr::io::{Poll, RegOp};
use drm_tyr::tyr::reset::hw_gate::{Drain, GatePhase, HwGate};
use drm_tyr::tyr::reset::{
    issue_soft_reset, run_reset, Controller, ResetHandle, ResetPass, ResetState,
};
use drm_tyr::workqueue::{Cancel, WorkTable};

#[test]
fn soft_reset_clears_commands_and_waits() {
    assert_eq!(
        issue_soft_reset(),
        vec![
            RegOp::Write { offset: 0x24, value: 0x100 },
            RegOp::Write { offset: 0x30, value: 0x101 },
            RegOp::Wait(Poll {
                offset: 0x20,
                mask: 0x100,
                set: true,
                sleep_ms: 1,
                timeout_ms: 100,
            }),
        ]
    );
}

/// A pass that has closed `gate`, which nobody is inside of.
fn closed(gate: &mut HwGate) -> ResetPass {
    run_reset().next(gate, Ok(())).next(gate, Ok(()))
}

#[test]
fn reset_pass_closes_resets_and_powers_on() {
    let mut gate = HwGate::new();
    let pass = run_reset();
    assert!(matches!(pass, ResetPass::CloseGate));
    let pass = pass.next(&mut gate, Ok(()));
    assert!(matches!(pass, ResetPass::Drain(_)));
    assert_eq!(gate.state(), GatePhase::Draining);
    let pass = pass.next(&mut gate, Ok(()));
    assert!(matches!(pass, ResetPass::SoftReset(_)));
    assert_eq!(gate.state(), GatePhase::Closed);
    let pass = pass.next(&mut gate, Ok(()));
    assert!(matches!(pass, ResetPass::PowerOn(_)));
    assert_eq!(gate.state(), GatePhase::Closed);
    let pass = pass.next(&mut gate, Ok(()));
    assert!(matches!(pass, ResetPass::Done(Ok(()))));
    assert_eq!(gate.state(), GatePhase::Open);
}

#[test]
fn reset_pass_stops_at_the_first_error_and_opens_up() {
    let error = Error::from_errno(ETIMEDOUT);
    let mut gate = HwGate::new();
    let pass = closed(&mut gate).next(&mut gate, Err(error));
    assert!(matches!(pass, ResetPass::Done(Err(e)) if e == error));
    assert_eq!(gate.state(), GatePhase::Open);
    let pass = closed(&mut gate).next(&mut gate, Ok(())).next(&mut gate, Err(error));
    assert!(matches!(pass, ResetPass::Done(Err(e)) if e == error));
    assert_eq!(gate.state(), GatePhase::Open);
    let pass = pass.next(&mut gate, Ok(()));
    assert!(matches!(pass, ResetPass::Done(Err(e)) if e == error));
}

#[test]
fn reset_pass_waits_for_readers_and_other_passes() {
    let mut gate = HwGate::new();
    let reader = gate.access().unwrap();
    let first = run_reset().next(&mut gate, Ok(()));
    let second = run_reset().next(&mut gate, Ok(()));
    assert!(matches!(second, ResetPass::CloseGate));
    let first = first.next(&mut gate, Ok(()));
    assert!(matches!(first, ResetPass::Drain(_)));
    gate.leave(reader);
    let first = first.next(&mut gate, Ok(()));
    assert!(matches!(first, ResetPass::SoftReset(_)));
    let first = first.next(&mut gate, Err(Error::from_errno(ETIMEDOUT)));
    assert!(matches!(first, ResetPass::Done(_)));
    assert!(matches!(second.next(&mut gate, Ok(())), ResetPass::Drain(_)));
}

#[test]
fn controller_moves_only_from_the_expected_state() {
    let mut controller = Controller::new();
    assert_eq!(controller.current(), ResetState::Idle);
    assert!(!controller.try_transition(ResetState::Pending, ResetState::InProgress));
    assert_eq!(controller.current(), ResetState::Idle);
    assert!(!controller.reset_work());
    assert!(controller.try_transition(ResetState::Idle, ResetState::Pending));
    assert!(controller.reset_work());
    assert_eq!(controller.current(), ResetState::InProgress);
    // A failed reset ends the request as well.
    assert!(controller.reset_work_done(Err(Error::from_errno(ETIMEDOUT))));
    assert_eq!(controller.current(), ResetState::Idle);
    assert!(!controller.reset_work_done(Ok(())));
}

#[test]
fn scheduled_reset_runs_once() {
    let mut table = WorkTable::new();
    let mut reset = ResetHandle::new(&mut table, Ok(())).ok().unwrap();
    assert!(reset.drain(&table).is_none());

    // Requests while one is pending are ignored.
    reset.schedule(&mut table);
    reset.schedule(&mut table);
    assert_eq!(reset.current(), ResetState::Pending);
    assert!(table.is_pending(reset.number()));
    assert_eq!(reset.drain(&table), Some(reset.number()));

    assert!(table.begin(reset.number()));
    assert!(reset.reset_work());
    // Requests while one is in progress are ignored.
    reset.schedule(&mut table);
    assert_eq!(reset.current(), ResetState::InProgress);
    assert!(!table.is_pending(reset.number()));

    assert!(reset.reset_work_done(Ok(())));
    // A request may come before the worker has left.
    reset.schedule(&mut table);
    assert!(table.is_pending(reset.number()));
    assert!(!table.begin(reset.number()));
    table.end(reset.number());
    assert!(table.begin(reset.number()));
    assert!(reset.reset_work());
}

#[test]
fn teardown_stops_resets() {
    let mut table = WorkTable::new();
    let mut reset = ResetHandle::new(&mut table, Ok(())).ok().unwrap();
    reset.schedule(&mut table);
    reset.shut_down();
    reset.schedule(&mut table);
    assert_eq!(reset.current(), ResetState::ShuttingDown);

    // Work that was queued before is not claimed any more.
    assert!(table.begin(reset.number()));
    assert!(!reset.reset_work());
    assert_eq!(reset.cancel(&mut table), Cancel::Wait);
    table.end(reset.number());
    assert_eq!(reset.cancel(&mut table), Cancel::Done);
    assert!(reset.drain(&table).is_none());
}

#[test]
fn teardown_lets_a_running_reset_end() {
    let mut table = WorkTable::new();
    let mut reset = ResetHandle::new(&mut table, Ok(())).ok().unwrap();
    reset.schedule(&mut table);
    assert!(table.begin(reset.number()));
    assert!(reset.reset_work());
    reset.shut_down();
    assert!(!reset.reset_work_done(Ok(())));
    assert_eq!(reset.current(), ResetState::ShuttingDown);
}

#[test]
fn reset_handle_needs_its_queue() {
    let mut table = WorkTable::new();
    let res = ResetHandle::new(&mut table, Err(Error::from_errno(ENOMEM)));
    assert_eq!(res.err().map(|e| e.to_errno()), Some(ENOMEM));
}

#[test]
fn gate_waits_for_readers_and_keeps_others_out() {
    let mut gate = HwGate::new();
    let first = gate.access().unwrap();
    let second = gate.access().unwrap();
    assert_eq!(gate.inside(), 2);

    let shut = gate.close().unwrap();
    assert_eq!(gate.state(), GatePhase::Draining);
    assert!(gate.access().is_none());
    assert!(gate.close().is_none());

    gate.leave(first);
    let shut = match gate.synchronize(shut) {
        Drain::Wait(shut) => shut,
        Drain::Closed(_) => panic!("a reader is inside"),
    };
    gate.leave(second);
    let closed = match gate.synchronize(shut) {
        Drain::Closed(closed) => closed,
        Drain::Wait(_) => panic!("no reader is inside"),
    };
    assert_eq!(gate.state(), GatePhase::Closed);
    assert!(gate.access().is_none());

    gate.open(closed);
    assert_eq!(gate.state(), GatePhase::Open);
    assert!(gate.access().is_some());
}
