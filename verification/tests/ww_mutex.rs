//! Wound-wait mutexes and acquire contexts.

use drm_tyr::error::{Error, EALREADY, EBUSY, EDEADLK, EINTR, EINVAL};
use drm_tyr::sync::ww_mutex::{
    lock_common, AcquireCtx, Class, LockKind, LockTable, Mutex, MutexGuard, Progress,
};

/// The outcome of an attempt that does not have to wait.
fn now<G>(progress: Progress<G>) -> Result<G, Error> {
    match progress {
        Progress::Done(res) => res,
        Progress::Wait => panic!("the mutex is held"),
    }
}

fn code<G>(res: Result<G, Error>) -> i32 {
    match res {
        Ok(_) => 0,
        Err(e) => e.to_errno(),
    }
}

fn wound_wait_class(locks: &mut LockTable) -> Class {
    Class::new_unpinned(locks, "TEST_WOUND_WAIT_CLASS", false)
}

fn wait_die_class(locks: &mut LockTable) -> Class {
    Class::new_unpinned(locks, "TEST_WAIT_DIE_CLASS", true)
}

#[test]
fn test_ww_mutex_basic_lock_unlock() -> Result<(), Error> {
    let mut locks = LockTable::new();
    let class = wound_wait_class(&mut locks);
    let mut mutex = Mutex::new(&mut locks, 42, &class);
    let ctx = AcquireCtx::new(&mut locks, &class);

    let guard = now(ctx.lock(&mut locks, &mutex))?;
    assert_eq!(*guard.deref(&mutex), 42);

    // Drop the lock.
    guard.unlock(&mut locks);

    let guard = now(ctx.lock(&mut locks, &mutex))?;
    *guard.deref_mut(&mut mutex) = 100;
    assert_eq!(*guard.deref(&mutex), 100);

    Ok(())
}

#[test]
fn test_ww_mutex_trylock() -> Result<(), Error> {
    let mut locks = LockTable::new();
    let class = wait_die_class(&mut locks);
    let mutex = Mutex::new(&mut locks, 123, &class);
    let ctx = AcquireCtx::new(&mut locks, &class);

    // `try_lock` on unlocked mutex should succeed.
    let guard = ctx.try_lock(&mut locks, &mutex)?;
    assert_eq!(*guard.deref(&mutex), 123);

    // Now it should fail immediately as it's already locked.
    assert!(ctx.try_lock(&mut locks, &mutex).is_err());

    Ok(())
}

#[test]
fn test_ww_mutex_is_locked() -> Result<(), Error> {
    let mut locks = LockTable::new();
    let class = wound_wait_class(&mut locks);
    let mutex = Mutex::new(&mut locks, "hello", &class);
    let ctx = AcquireCtx::new(&mut locks, &class);

    // Should not be locked initially.
    assert!(!mutex.is_locked(&locks));

    let guard = now(ctx.lock(&mut locks, &mutex))?;
    assert!(mutex.is_locked(&locks));

    guard.unlock(&mut locks);
    assert!(!mutex.is_locked(&locks));

    Ok(())
}

#[test]
fn test_ww_acquire_context_done() -> Result<(), Error> {
    let mut locks = LockTable::new();
    let class = wait_die_class(&mut locks);
    let mutex1 = Mutex::new(&mut locks, 1, &class);
    let mutex2 = Mutex::new(&mut locks, 2, &class);
    let ctx = AcquireCtx::new(&mut locks, &class);

    // Acquire multiple mutexes with the same context.
    let guard1 = now(ctx.lock(&mut locks, &mutex1))?;
    let guard2 = now(ctx.lock(&mut locks, &mutex2))?;

    assert_eq!(*guard1.deref(&mutex1), 1);
    assert_eq!(*guard2.deref(&mutex2), 2);

    ctx.done(&mut locks);

    // We shouldn't be able to lock once it's `done`.
    assert!(now(ctx.lock(&mut locks, &mutex1)).is_err());
    assert!(now(ctx.lock(&mut locks, &mutex2)).is_err());

    Ok(())
}

#[test]
fn test_mutex_without_ctx() -> Result<(), Error> {
    let mut locks = LockTable::new();
    let class = wound_wait_class(&mut locks);
    let mutex = Mutex::new(&mut locks, 100, &class);
    let guard = now(mutex.lock(&mut locks))?;

    assert_eq!(*guard.deref(&mutex), 100);
    assert!(mutex.is_locked(&locks));

    guard.unlock(&mut locks);

    assert!(!mutex.is_locked(&locks));

    Ok(())
}

#[test]
fn test_guard_from_raw_with_unlocked_mutex() -> Result<(), Error> {
    let mut locks = LockTable::new();
    let class = wound_wait_class(&mut locks);
    let mutex = Mutex::new(&mut locks, (), &class);

    assert!(!mutex.is_locked(&locks));

    match MutexGuard::from_raw(&locks, mutex.number()) {
        // Should fail with `EINVAL` because the mutex is not locked.
        Err(e) => assert_eq!(e, Error::from_errno(EINVAL)),
        _ => unreachable!(),
    };

    Ok(())
}

#[test]
fn guard_from_raw_takes_over_a_locked_mutex() {
    let mut locks = LockTable::new();
    let class = wound_wait_class(&mut locks);
    let mutex = Mutex::new(&mut locks, (), &class);
    let guard = now(mutex.lock(&mut locks)).unwrap();
    let number = guard.number();
    let taken_over = MutexGuard::from_raw(&locks, number).unwrap();
    assert_eq!(taken_over.number(), mutex.number());
    taken_over.unlock(&mut locks);
    assert!(!mutex.is_locked(&locks));
}

#[test]
fn held_mutex_has_to_be_waited_for() {
    let mut locks = LockTable::new();
    let class = wound_wait_class(&mut locks);
    let mutex = Mutex::new(&mut locks, 0, &class);
    let first = AcquireCtx::new(&mut locks, &class);
    let second = AcquireCtx::new(&mut locks, &class);
    let guard = now(first.lock(&mut locks, &mutex)).unwrap();

    assert!(matches!(second.lock(&mut locks, &mutex), Progress::Wait));
    assert!(matches!(second.lock_interruptible(&mut locks, &mutex), Progress::Wait));
    assert!(matches!(second.lock_slow(&mut locks, &mutex), Progress::Wait));
    assert!(matches!(second.lock_slow_interruptible(&mut locks, &mutex), Progress::Wait));
    assert!(matches!(mutex.lock(&mut locks), Progress::Wait));
    assert!(matches!(mutex.lock_interruptible(&mut locks), Progress::Wait));
    assert!(matches!(mutex.lock_slow(&mut locks), Progress::Wait));
    assert!(matches!(mutex.lock_slow_interruptible(&mut locks), Progress::Wait));
    assert_eq!(code(second.try_lock(&mut locks, &mutex)), EBUSY);
    assert_eq!(code(mutex.try_lock(&mut locks)), EBUSY);

    guard.unlock(&mut locks);
    assert!(second.lock_slow_interruptible(&mut locks, &mutex).is_granted());
}

/// Whether an attempt got the mutex.
trait Granted {
    fn is_granted(&self) -> bool;
}

impl<G> Granted for Progress<G> {
    fn is_granted(&self) -> bool {
        matches!(self, Progress::Done(Ok(_)))
    }
}

#[test]
fn free_mutex_is_handed_out_in_every_way() {
    let mut locks = LockTable::new();
    let class = wound_wait_class(&mut locks);
    let mutex = Mutex::new(&mut locks, 0, &class);

    now(mutex.lock_interruptible(&mut locks)).unwrap().unlock(&mut locks);
    now(mutex.lock_slow(&mut locks)).unwrap().unlock(&mut locks);
    now(mutex.lock_slow_interruptible(&mut locks)).unwrap().unlock(&mut locks);
    mutex.try_lock(&mut locks).unwrap().unlock(&mut locks);
    let ctx = AcquireCtx::new(&mut locks, &class);
    now(ctx.lock_interruptible(&mut locks, &mutex)).unwrap().unlock(&mut locks);
    now(ctx.lock_slow(&mut locks, &mutex)).unwrap().unlock(&mut locks);
    assert!(!mutex.is_locked(&locks));
}

#[test]
fn context_that_holds_a_mutex_gets_ealready() {
    let mut locks = LockTable::new();
    let class = wound_wait_class(&mut locks);
    let mutex = Mutex::new(&mut locks, 0, &class);
    let ctx = AcquireCtx::new(&mut locks, &class);
    let _guard = now(ctx.lock(&mut locks, &mutex)).unwrap();
    assert_eq!(code(now(ctx.lock(&mut locks, &mutex))), EALREADY);
}

#[test]
fn ended_context_gets_no_free_mutex() {
    let mut locks = LockTable::new();
    let class = wound_wait_class(&mut locks);
    let mutex = Mutex::new(&mut locks, 0, &class);
    let ctx = AcquireCtx::new(&mut locks, &class);
    ctx.done(&mut locks);
    assert_eq!(code(now(ctx.lock(&mut locks, &mutex))), EINVAL);
    assert_eq!(code(ctx.try_lock(&mut locks, &mutex)), EINVAL);
    assert!(!mutex.is_locked(&locks));
}

#[test]
fn mutex_of_another_class_is_refused() {
    let mut locks = LockTable::new();
    let class = wound_wait_class(&mut locks);
    let other = wait_die_class(&mut locks);
    let mutex = Mutex::new(&mut locks, 0, &class);
    let ctx = AcquireCtx::new(&mut locks, &other);
    assert_eq!(code(now(ctx.lock(&mut locks, &mutex))), EINVAL);
    assert_eq!(code(now(ctx.lock_slow(&mut locks, &mutex))), EINVAL);
    assert_eq!(code(ctx.try_lock(&mut locks, &mutex)), EINVAL);

    // The same is answered where the mutex is held.
    let guard = now(mutex.lock(&mut locks)).unwrap();
    assert_eq!(code(now(ctx.lock(&mut locks, &mutex))), EINVAL);
    guard.unlock(&mut locks);
    assert!(!mutex.is_locked(&locks));
}

#[test]
fn replies_of_the_lock_primitive_are_read_by_kind() {
    let mut locks = LockTable::new();
    let class = wound_wait_class(&mut locks);
    let mutex = Mutex::new(&mut locks, 0, &class);
    let ctx = AcquireCtx::new(&mut locks, &class);
    let mut reply = |kind: LockKind, ret: i32| -> i32 {
        match lock_common(&mut locks, &mutex, Some(&ctx), kind, ret) {
            Ok(guard) => {
                assert!(mutex.is_locked(&locks));
                guard.unlock(&mut locks);
                0
            }
            Err(e) => e.to_errno(),
        }
    };

    assert_eq!(reply(LockKind::Regular, 0), 0);
    assert_eq!(reply(LockKind::Regular, EDEADLK), EDEADLK);
    assert_eq!(reply(LockKind::Interruptible, EINTR), EINTR);
    assert_eq!(reply(LockKind::SlowInterruptible, EINTR), EINTR);
    // The slow path has no way to fail.
    assert_eq!(reply(LockKind::Slow, EDEADLK), 0);
    // Without blocking, zero means that the mutex is busy.
    assert_eq!(reply(LockKind::Try, 0), EBUSY);
    assert_eq!(reply(LockKind::Try, 1), 0);
    assert_eq!(reply(LockKind::Try, EDEADLK), EDEADLK);
    // A number that is no error number becomes `EINVAL`.
    assert_eq!(reply(LockKind::Regular, -5000), EINVAL);
}

#[test]
fn classes_record_their_algorithm() {
    let mut locks = LockTable::new();
    let ww = wound_wait_class(&mut locks);
    let wd = wait_die_class(&mut locks);
    assert!(!ww.is_wait_die());
    assert!(wd.is_wait_die());
    assert_eq!(ww.number(), 0);
    assert_eq!(wd.number(), 1);
    assert!(Class::from_raw(&locks, 1).is_wait_die());
    assert!(!Class::from_raw(&locks, 0).is_wait_die());
}
