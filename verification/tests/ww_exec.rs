//! The execution helper on top of wound-wait mutexes.

use std::cell::Cell;

use drm_tyr::error::{Error, EDEADLK, EINVAL, ENOMEM};
use drm_tyr::sync::ww_mutex::exec::{ExecContext, Pass};
use drm_tyr::sync::ww_mutex::{Class, LockTable, Mutex, Progress};

/// The outcome of an attempt that does not have to wait.
fn now<G>(progress: Progress<G>) -> Result<G, Error> {
    match progress {
        Progress::Done(res) => res,
        Progress::Wait => panic!("the mutex is held"),
    }
}

/// The outcome of passes that are not to be repeated.
fn done<Z>(pass: Pass<Z>) -> Result<Z, Error> {
    match pass {
        Pass::Done(res) => res,
        Pass::Retry => panic!("no pass is left"),
    }
}

#[test]
fn test_exec_context_basic_lock_unlock() -> Result<(), Error> {
    let mut locks = LockTable::new();
    let class = Class::new_unpinned(&mut locks, "exec_ctx_basic", false);

    let mut mutex = Mutex::new(&mut locks, 10, &class);
    let mut ctx = ExecContext::new(&mut locks, &class, Ok(()))?;

    now(ctx.lock(&mut locks, &mutex, Ok(())))?;
    ctx.with_locked(&mut mutex, |v| {
        assert_eq!(*v, 10);
    })?;

    ctx.release_all_locks(&mut locks);
    assert!(!mutex.is_locked(&locks));

    Ok(())
}

#[test]
fn test_exec_context_with_locked_mutates_data() -> Result<(), Error> {
    let mut locks = LockTable::new();
    let class = Class::new_unpinned(&mut locks, "exec_ctx_with_locked", false);

    let mut mutex = Mutex::new(&mut locks, 5, &class);
    let mut ctx = ExecContext::new(&mut locks, &class, Ok(()))?;

    now(ctx.lock(&mut locks, &mutex, Ok(())))?;

    ctx.with_locked(&mut mutex, |v| {
        assert_eq!(*v, 5);
        // Increment the value.
        *v += 7;
    })?;

    ctx.with_locked(&mut mutex, |v| {
        // Check that mutation took effect.
        assert_eq!(*v, 12);
    })?;

    Ok(())
}

#[test]
fn test_lock_all_success() -> Result<(), Error> {
    let mut locks = LockTable::new();
    let class = Class::new_unpinned(&mut locks, "lock_all_ok", false);

    let mut mutex1 = Mutex::new(&mut locks, 1, &class);
    let mut mutex2 = Mutex::new(&mut locks, 2, &class);
    let raw1 = Mutex::from_raw(&locks, mutex1.number());
    let raw2 = Mutex::from_raw(&locks, mutex2.number());
    let mut ctx = ExecContext::new(&mut locks, &class, Ok(()))?;

    let res = done(ctx.lock_all(
        &mut locks,
        1,
        |ctx, locks| {
            now(ctx.lock(locks, &raw1, Ok(())))?;
            now(ctx.lock(locks, &raw2, Ok(())))?;
            Ok(())
        },
        |ctx, _locks| {
            ctx.with_locked(&mut mutex1, |v| *v += 10)?;
            ctx.with_locked(&mut mutex2, |v| *v += 20)?;
            Ok((
                ctx.with_locked(&mut mutex1, |v| *v)?,
                ctx.with_locked(&mut mutex2, |v| *v)?,
            ))
        },
        || Ok(()),
    ))?;

    assert_eq!(res, (11, 22));
    assert!(!mutex1.is_locked(&locks));
    assert!(!mutex2.is_locked(&locks));

    Ok(())
}

#[test]
fn test_with_different_input_type() -> Result<(), Error> {
    let mut locks = LockTable::new();
    let class = Class::new_unpinned(&mut locks, "lock_all_ok", false);

    let mut mutex1 = Mutex::new(&mut locks, 1, &class);
    let mut mutex2 = Mutex::new(&mut locks, "hello", &class);
    let raw1 = Mutex::from_raw(&locks, mutex1.number());
    let raw2 = Mutex::from_raw(&locks, mutex2.number());
    let mut ctx = ExecContext::new(&mut locks, &class, Ok(()))?;

    done(ctx.lock_all(
        &mut locks,
        1,
        |ctx, locks| {
            now(ctx.lock(locks, &raw1, Ok(())))?;
            now(ctx.lock(locks, &raw2, Ok(())))?;
            Ok(())
        },
        |ctx, _locks| {
            ctx.with_locked(&mut mutex1, |v| assert_eq!(*v, 1))?;
            ctx.with_locked(&mut mutex2, |v| assert_eq!(*v, "hello"))?;
            Ok(())
        },
        || Ok(()),
    ))?;

    Ok(())
}

#[test]
fn test_lock_all_retries_on_deadlock() -> Result<(), Error> {
    let mut locks = LockTable::new();
    let class = Class::new_unpinned(&mut locks, "lock_all_retry", false);

    let mut mutex = Mutex::new(&mut locks, 99, &class);
    let raw = Mutex::from_raw(&locks, mutex.number());
    let mut ctx = ExecContext::new(&mut locks, &class, Ok(()))?;
    let first_try = Cell::new(true);

    let res = done(ctx.lock_all(
        &mut locks,
        u64::MAX,
        |ctx, locks| {
            if first_try.get() {
                first_try.set(false);
                // Simulate deadlock on first attempt.
                return Err(Error::from_errno(EDEADLK));
            }
            now(ctx.lock(locks, &raw, Ok(())))
        },
        |ctx, _locks| {
            ctx.with_locked(&mut mutex, |v| {
                *v += 1;
                *v
            })
        },
        || Ok(()),
    ))?;

    assert_eq!(res, 100);
    Ok(())
}

#[test]
fn test_with_locked_on_unlocked_mutex() -> Result<(), Error> {
    let mut locks = LockTable::new();
    let class = Class::new_unpinned(&mut locks, "with_unlocked_mutex", false);

    let mut mutex = Mutex::new(&mut locks, 5, &class);
    let ctx = ExecContext::new(&mut locks, &class, Ok(()))?;

    let ecode = ctx.with_locked(&mut mutex, |_v| {}).unwrap_err();
    assert_eq!(Error::from_errno(EINVAL), ecode);

    Ok(())
}

#[test]
fn deadlock_lets_go_of_what_was_locked() {
    let mut locks = LockTable::new();
    let class = Class::new_unpinned(&mut locks, "deadlock", false);
    let mutex1 = Mutex::new(&mut locks, 0, &class);
    let mutex2 = Mutex::new(&mut locks, 0, &class);
    let passes = Cell::new(0);
    let mut ctx = ExecContext::new(&mut locks, &class, Ok(())).unwrap();

    let res = ctx.lock_all(
        &mut locks,
        3,
        |ctx, locks| {
            passes.set(passes.get() + 1);
            // Nothing is left of the pass before.
            assert!(!mutex1.is_locked(locks));
            now(ctx.lock(locks, &mutex1, Ok(())))?;
            // The lock primitive refuses the second mutex.
            ctx.lock_replied(locks, &mutex2, EDEADLK, Ok(()))
        },
        |_ctx, _locks| Ok(()),
        || Ok(()),
    );

    assert!(matches!(res, Pass::Retry));
    assert_eq!(passes.get(), 3);
    assert!(!mutex1.is_locked(&locks));
    assert!(!mutex2.is_locked(&locks));
}

#[test]
fn failed_reset_ends_the_passes() {
    let mut locks = LockTable::new();
    let class = Class::new_unpinned(&mut locks, "no_room", false);
    let mutex = Mutex::new(&mut locks, 0, &class);
    let mut ctx = ExecContext::new(&mut locks, &class, Ok(())).unwrap();
    let res: Pass<()> = ctx.lock_all(
        &mut locks,
        5,
        |ctx, locks| {
            now(ctx.lock(locks, &mutex, Ok(())))?;
            Err(Error::from_errno(EDEADLK))
        },
        |_ctx, _locks| Ok(()),
        || Err(Error::from_errno(ENOMEM)),
    );
    assert_eq!(done(res).unwrap_err().to_errno(), ENOMEM);
    assert!(!mutex.is_locked(&locks));
}

#[test]
fn other_errors_are_passed_on_and_keep_the_locks() {
    let mut locks = LockTable::new();
    let class = Class::new_unpinned(&mut locks, "other_error", false);
    let mutex = Mutex::new(&mut locks, 0, &class);
    let mut ctx = ExecContext::new(&mut locks, &class, Ok(())).unwrap();
    let res: Pass<()> = ctx.lock_all(
        &mut locks,
        5,
        |ctx, locks| {
            now(ctx.lock(locks, &mutex, Ok(())))?;
            Err(Error::from_errno(EINVAL))
        },
        |_ctx, _locks| Ok(()),
        || Ok(()),
    );
    assert_eq!(done(res).unwrap_err().to_errno(), EINVAL);
    assert!(mutex.is_locked(&locks));
    ctx.release_all_locks(&mut locks);
    assert!(!mutex.is_locked(&locks));
}

#[test]
fn locks_are_released_when_the_work_fails() {
    let mut locks = LockTable::new();
    let class = Class::new_unpinned(&mut locks, "work_fails", false);
    let mutex = Mutex::new(&mut locks, 0, &class);
    let mut ctx = ExecContext::new(&mut locks, &class, Ok(())).unwrap();
    let res: Pass<()> = ctx.lock_all(
        &mut locks,
        1,
        |ctx, locks| now(ctx.lock(locks, &mutex, Ok(()))),
        |_ctx, _locks| Err(Error::from_errno(EDEADLK)),
        || Ok(()),
    );
    // A deadlock of the work on the locked values is no reason to try again.
    assert_eq!(done(res).unwrap_err().to_errno(), EDEADLK);
    assert!(!mutex.is_locked(&locks));
}

#[test]
fn guard_without_room_is_given_up() {
    let mut locks = LockTable::new();
    let class = Class::new_unpinned(&mut locks, "guard_room", false);
    let mut mutex = Mutex::new(&mut locks, 0, &class);
    let mut ctx = ExecContext::new(&mut locks, &class, Ok(())).unwrap();
    let no_room = Err(Error::from_errno(ENOMEM));
    assert_eq!(now(ctx.lock(&mut locks, &mutex, no_room)).unwrap_err().to_errno(), ENOMEM);
    assert!(!mutex.is_locked(&locks));
    assert!(ctx.with_locked(&mut mutex, |_v| {}).is_err());
}

#[test]
fn context_without_room_is_not_made() {
    let mut locks = LockTable::new();
    let class = Class::new_unpinned(&mut locks, "ctx_room", false);
    let res = ExecContext::new(&mut locks, &class, Err(Error::from_errno(ENOMEM)));
    assert_eq!(res.err().map(|e| e.to_errno()), Some(ENOMEM));
}

#[test]
fn contexts_do_not_share_a_mutex() {
    let mut locks = LockTable::new();
    let class = Class::new_unpinned(&mut locks, "two_contexts", false);
    let mutex = Mutex::new(&mut locks, 0, &class);
    let mut first = ExecContext::new(&mut locks, &class, Ok(())).unwrap();
    let mut second = ExecContext::new(&mut locks, &class, Ok(())).unwrap();
    now(first.lock(&mut locks, &mutex, Ok(()))).unwrap();
    assert!(matches!(second.lock(&mut locks, &mutex, Ok(())), Progress::Wait));
    first.release_all_locks(&mut locks);
    assert!(second.lock_replied(&mut locks, &mutex, 0, Ok(())).is_ok());
    assert!(mutex.is_locked(&locks));
}

#[test]
fn cleanup_after_a_deadlock_frees_the_locks() {
    let mut locks = LockTable::new();
    let class = Class::new_unpinned(&mut locks, "cleanup", false);
    let mutex = Mutex::new(&mut locks, 0, &class);
    let mut ctx = ExecContext::new(&mut locks, &class, Ok(())).unwrap();
    now(ctx.lock(&mut locks, &mutex, Ok(()))).unwrap();
    assert!(ctx.cleanup_on_deadlock(&mut locks, Ok(())).is_ok());
    assert!(!mutex.is_locked(&locks));
    now(ctx.lock(&mut locks, &mutex, Ok(()))).unwrap();
    let no_room = Err(Error::from_errno(ENOMEM));
    assert_eq!(ctx.cleanup_on_deadlock(&mut locks, no_room).unwrap_err().to_errno(), ENOMEM);
    assert!(!mutex.is_locked(&locks));
}
