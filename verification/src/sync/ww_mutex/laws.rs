//! What attempts to lock a mutex come to, and what they leave of the lock words.

use super::{
    AcquireCtx, Class, Holder, LockKind, LockTable, Locks, Mutex, MutexGuard, Progress,
};
use crate::error::Error;
use vstd::prelude::*;

verus! {

/// A mutex that is held is waited for: a blocking attempt without a context, or under
/// one of the mutex's class that has not ended and does not hold the mutex itself,
/// comes to a wait. On the slow path a context waits in any case.
pub proof fn law_held_mutex_is_waited_for(
    pre: Locks,
    m: int,
    ctx: Option<usize>,
    kind: LockKind,
    post: Locks,
    res: Progress<MutexGuard>,
)
    requires
        super::attempted(pre, m, ctx, kind, post, res),
        pre.words[m].holder is Some,
        !(kind is Try),
        ctx matches Some(c) ==> {
            &&& pre.ctxs[c as int].class == pre.words[m].class
            &&& kind is Slow || (!pre.ctxs[c as int].done && pre.words[m].holder != Some(
                Holder::Ctx(c),
            ))
        },
    ensures
        res is Wait,
        post == pre,
{
}

/// An attempt that does not block is refused a held mutex with `EBUSY`.
pub proof fn law_held_mutex_is_busy(
    pre: Locks,
    m: int,
    ctx: Option<usize>,
    post: Locks,
    res: Progress<MutexGuard>,
)
    requires
        super::attempted(pre, m, ctx, LockKind::Try, post, res),
        pre.words[m].holder is Some,
        ctx matches Some(c) ==> pre.ctxs[c as int].class == pre.words[m].class,
    ensures
        res matches Progress::Done(Err(e)) && e.code() == -16,
        post == pre,
{
}

/// Only the context that holds a mutex is refused with `EALREADY`, and it is, unless it
/// takes the slow path or does not block.
pub proof fn law_only_the_holder_has_it_already(
    pre: Locks,
    m: int,
    ctx: Option<usize>,
    kind: LockKind,
    post: Locks,
    res: Progress<MutexGuard>,
)
    requires
        super::attempted(pre, m, ctx, kind, post, res),
    ensures
        (res matches Progress::Done(Err(e)) && e.code() == -114) <==> (ctx matches Some(c)
            && pre.ctxs[c as int].class == pre.words[m].class && pre.words[m].holder == Some(
            Holder::Ctx(c),
        ) && !(kind is Slow) && !(kind is Try)),
{
}

/// `EINVAL` is answered to a context of another class, and to one that has ended, which
/// wants a free mutex or one that it would wait for; and to nobody else.
pub proof fn law_wrong_context_is_invalid(
    pre: Locks,
    m: int,
    ctx: Option<usize>,
    kind: LockKind,
    post: Locks,
    res: Progress<MutexGuard>,
)
    requires
        super::attempted(pre, m, ctx, kind, post, res),
    ensures
        (res matches Progress::Done(Err(e)) && e.code() == -22) <==> (ctx matches Some(c) && {
            ||| pre.ctxs[c as int].class != pre.words[m].class
            ||| pre.ctxs[c as int].done && !(kind is Slow) && match pre.words[m].holder {
                None => true,
                Some(holder) => !(kind is Try) && holder != Holder::Ctx(c),
            }
        }),
{
}

/// A mutex is handed out exactly if it is free, and its context, if there is one, is of
/// its class and has not ended or takes the slow path. The lock word then names who
/// asked for it, and nothing else has changed; in all other cases nothing has.
pub proof fn law_only_a_free_mutex_is_granted(
    pre: Locks,
    m: int,
    ctx: Option<usize>,
    kind: LockKind,
    post: Locks,
    res: Progress<MutexGuard>,
    other: int,
)
    requires
        super::attempted(pre, m, ctx, kind, post, res),
        0 <= m < pre.words.len(),
        0 <= other < pre.words.len(),
    ensures
        (res matches Progress::Done(Ok(_))) <==> pre.words[m].holder is None && (ctx matches Some(c)
            ==> pre.ctxs[c as int].class == pre.words[m].class && (!pre.ctxs[c as int].done
            || kind is Slow)),
        !(res matches Progress::Done(Ok(_))) ==> post == pre,
        res matches Progress::Done(Ok(guard)) ==> {
            &&& guard.mutex() == m
            &&& post.words[m].class == pre.words[m].class
            &&& ctx is None ==> post.words[m].holder == Some(Holder::Plain)
            &&& ctx matches Some(c) ==> post.words[m].holder == Some(Holder::Ctx(c))
            &&& other != m ==> post.words[other] == pre.words[other]
            &&& post.words.len() == pre.words.len()
            &&& post.ctxs == pre.ctxs
            &&& post.classes == pre.classes
        },
{
}

/// Who was told to wait gets the mutex with the same attempt once it was let go.
pub proof fn law_wait_ends_with_the_mutex(
    pre: Locks,
    m: int,
    ctx: Option<usize>,
    kind: LockKind,
    mid: Locks,
    res: Progress<MutexGuard>,
    post: Locks,
    retried: Progress<MutexGuard>,
)
    requires
        0 <= m < pre.words.len(),
        super::attempted(pre, m, ctx, kind, mid, res),
        res is Wait,
        super::attempted(mid.unlocked(m), m, ctx, kind, post, retried),
    ensures
        retried matches Progress::Done(Ok(guard)) && guard.mutex() == m,
        ctx is None ==> post.words[m].holder == Some(Holder::Plain),
        ctx matches Some(c) ==> post.words[m].holder == Some(Holder::Ctx(c)),
{
}

/// As long as a mutex is held, no attempt to lock it changes anything, and making the
/// same attempt again gets the same answer.
pub proof fn law_attempts_on_a_held_mutex_change_nothing(
    pre: Locks,
    m: int,
    ctx: Option<usize>,
    kind: LockKind,
    post: Locks,
    res: Progress<MutexGuard>,
    again: Locks,
    second: Progress<MutexGuard>,
)
    requires
        pre.words[m].holder is Some,
        super::attempted(pre, m, ctx, kind, post, res),
        super::attempted(post, m, ctx, kind, again, second),
    ensures
        again == pre,
        res is Wait <==> second is Wait,
        res matches Progress::Done(Err(e)) ==> (second matches Progress::Done(Err(f)) && f.code()
            == e.code()),
{
}

/// The reply of the lock primitive: a negative number is the error itself, if it is an
/// error number. An attempt that does not block reports a busy mutex by zero, and the
/// slow path cannot fail.
pub proof fn law_reply_is_read_by_kind(kind: LockKind, ret: int)
    ensures
        kind is Slow ==> super::refusal(kind, ret) is None,
        ret > 0 ==> super::refusal(kind, ret) is None,
        ret == 0 && !(kind is Try) ==> super::refusal(kind, ret) is None,
        ret == 0 && kind is Try ==> super::refusal(kind, ret) == Some(-16int),
        -4095 <= ret < 0 && !(kind is Slow) ==> super::refusal(kind, ret) == Some(ret),
        ret < -4095 && !(kind is Slow) ==> super::refusal(kind, ret) == Some(-22int),
{
}

/// What the lock primitive replies at once is read as the answer that the state of the
/// mutex and the context calls for: success exactly for a free mutex, and no reply at
/// all exactly where the mutex is waited for.
pub proof fn law_prompt_reply_fits_the_mutex(
    locks: Locks,
    m: int,
    ctx: Option<usize>,
    kind: LockKind,
)
    ensures
        ({
            let reply = super::prompt_reply(locks, m, ctx, kind);
            let holder = locks.words[m].holder;
            let ended = ctx matches Some(c) && locks.ctxs[c as int].done;
            let own = ctx matches Some(c) && holder == Some(Holder::Ctx(c));
            &&& reply is None <==> holder is Some && !(kind is Try) && (kind is Slow || (!own
                && !ended))
            &&& (reply matches Some(ret) && super::refusal(kind, ret) is None) <==> holder is None
                && (kind is Slow || !ended)
            &&& (reply matches Some(ret) && super::refusal(kind, ret) == Some(-16int))
                <==> holder is Some && kind is Try
            &&& (reply matches Some(ret) && super::refusal(kind, ret) == Some(-114int)) <==> own
                && !(kind is Slow) && !(kind is Try)
            &&& (reply matches Some(ret) && super::refusal(kind, ret) == Some(-22int)) <==> ended
                && !(kind is Slow) && (holder is None || (!(kind is Try) && !own))
        }),
{
}

/// Letting a mutex go frees it and leaves every other mutex, and all else, as it was.
pub proof fn law_unlock_frees_one_mutex(pre: Locks, m: int, other: int)
    requires
        0 <= m < pre.words.len(),
        0 <= other < pre.words.len(),
    ensures
        pre.unlocked(m).words[m].holder is None,
        pre.unlocked(m).words[m].class == pre.words[m].class,
        other != m ==> pre.unlocked(m).words[other] == pre.words[other],
        pre.unlocked(m).words.len() == pre.words.len(),
        pre.unlocked(m).ctxs == pre.ctxs,
        pre.unlocked(m).classes == pre.classes,
{
}

/// Letting several mutexes go frees each of them and leaves every other mutex, and all
/// else, as it was.
pub proof fn law_release_frees_its_mutexes(pre: Locks, mutexes: Seq<int>, i: int, other: int)
    requires
        0 <= i < mutexes.len(),
        0 <= mutexes[i] < pre.words.len(),
        0 <= other < pre.words.len(),
    ensures
        pre.released(mutexes).words[mutexes[i]].holder is None,
        pre.released(mutexes).words[other].class == pre.words[other].class,
        (forall|k: int| 0 <= k < mutexes.len() ==> #[trigger] mutexes[k] != other)
            ==> pre.released(mutexes).words[other] == pre.words[other],
        pre.released(mutexes).words.len() == pre.words.len(),
        pre.released(mutexes).ctxs == pre.ctxs,
        pre.released(mutexes).classes == pre.classes,
{
    assert(mutexes.contains(mutexes[i]));
}

/// A mutex that is handed out is recorded for its holder, and no other mutex is.
pub proof fn law_grant_records_the_holder(pre: Locks, m: int, holder: Holder, other: int)
    requires
        0 <= m < pre.words.len(),
        0 <= other < pre.words.len(),
    ensures
        pre.granted(m, holder).words[m].holder == Some(holder),
        pre.granted(m, holder).words[m].class == pre.words[m].class,
        other != m ==> pre.granted(m, holder).words[other] == pre.words[other],
        pre.granted(m, holder).words.len() == pre.words.len(),
        pre.granted(m, holder).ctxs == pre.ctxs,
        pre.granted(m, holder).classes == pre.classes,
{
}

/// What a mutex was locked under tells contexts apart, and a context from none.
pub proof fn law_holders_are_told_apart(a: Option<usize>, b: Option<usize>)
    ensures
        Locks::holder_under(a) == Locks::holder_under(b) <==> a == b,
        a is None ==> Locks::holder_under(a) == Holder::Plain,
        a matches Some(c) ==> Locks::holder_under(a) == Holder::Ctx(c),
{
}

/// A mutex is locked exactly if someone holds it, under a context or not.
pub proof fn law_locked_mutex_has_a_holder(locks: Locks, m: int)
    ensures
        locks.locked(m) <==> locks.words[m].holder is Some,
        locks.words[m].holder == Some(Holder::Plain) ==> locks.locked(m),
        forall|c: usize| locks.words[m].holder == Some(Holder::Ctx(c)) ==> locks.locked(m),
{
}

/// An attempt is made under the context that it was given, and under none without one.
pub proof fn law_attempt_names_its_context(ctx: AcquireCtx)
    ensures
        super::acquire_ctx::number_of(Some(&ctx)) == Some(ctx.id()),
        super::acquire_ctx::number_of(None) is None,
{
}

/// Every way to lock a mutex without a context is an attempt of its kind under none: the
/// plain one blocks, the slow ones take the slow path, the interruptible ones can be
/// interrupted, and the one that tries does not block.
pub proof fn law_calls_without_a_context<T>(mutex: Mutex<T>)
    ensures
        forall|t: &mut LockTable, res: Progress<MutexGuard>| #[trigger]
            call_ensures(Mutex::<T>::lock, (&mutex, t), res) ==> super::attempted(
                t@,
                mutex.id(),
                None,
                LockKind::Regular,
                final(t)@,
                res,
            ),
        forall|t: &mut LockTable, res: Progress<MutexGuard>| #[trigger]
            call_ensures(Mutex::<T>::lock_interruptible, (&mutex, t), res) ==> super::attempted(
                t@,
                mutex.id(),
                None,
                LockKind::Interruptible,
                final(t)@,
                res,
            ),
        forall|t: &mut LockTable, res: Progress<MutexGuard>| #[trigger]
            call_ensures(Mutex::<T>::lock_slow, (&mutex, t), res) ==> super::attempted(
                t@,
                mutex.id(),
                None,
                LockKind::Slow,
                final(t)@,
                res,
            ),
        forall|t: &mut LockTable, res: Progress<MutexGuard>| #[trigger]
            call_ensures(Mutex::<T>::lock_slow_interruptible, (&mutex, t), res) ==> super::attempted(
                t@,
                mutex.id(),
                None,
                LockKind::SlowInterruptible,
                final(t)@,
                res,
            ),
        forall|t: &mut LockTable, res: Result<MutexGuard, Error>| #[trigger]
            call_ensures(Mutex::<T>::try_lock, (&mutex, t), res) ==> super::attempted(
                t@,
                mutex.id(),
                None,
                LockKind::Try,
                final(t)@,
                Progress::Done(res),
            ),
{
}

/// Every way to lock a mutex under a context is an attempt of its kind under that one.
pub proof fn law_calls_under_a_context<T>(ctx: AcquireCtx, mutex: Mutex<T>)
    ensures
        forall|t: &mut LockTable, res: Progress<MutexGuard>| #[trigger]
            call_ensures(AcquireCtx::lock::<T>, (&ctx, t, &mutex), res) ==> super::attempted(
                t@,
                mutex.id(),
                Some(ctx.id()),
                LockKind::Regular,
                final(t)@,
                res,
            ),
        forall|t: &mut LockTable, res: Progress<MutexGuard>| #[trigger]
            call_ensures(AcquireCtx::lock_interruptible::<T>, (&ctx, t, &mutex), res) ==> super::attempted(
                t@,
                mutex.id(),
                Some(ctx.id()),
                LockKind::Interruptible,
                final(t)@,
                res,
            ),
        forall|t: &mut LockTable, res: Progress<MutexGuard>| #[trigger]
            call_ensures(AcquireCtx::lock_slow::<T>, (&ctx, t, &mutex), res) ==> super::attempted(
                t@,
                mutex.id(),
                Some(ctx.id()),
                LockKind::Slow,
                final(t)@,
                res,
            ),
        forall|t: &mut LockTable, res: Progress<MutexGuard>| #[trigger]
            call_ensures(AcquireCtx::lock_slow_interruptible::<T>, (&ctx, t, &mutex), res) ==> super::attempted(
                t@,
                mutex.id(),
                Some(ctx.id()),
                LockKind::SlowInterruptible,
                final(t)@,
                res,
            ),
        forall|t: &mut LockTable, res: Result<MutexGuard, Error>| #[trigger]
            call_ensures(AcquireCtx::try_lock::<T>, (&ctx, t, &mutex), res) ==> super::attempted(
                t@,
                mutex.id(),
                Some(ctx.id()),
                LockKind::Try,
                final(t)@,
                Progress::Done(res),
            ),
{
}

/// Two threads and one mutex: whoever locks a mutex that another one has locked without a
/// context waits, and gets it after that one let it go.
pub proof fn law_second_thread_waits<T>(mutex: Mutex<T>)
    ensures
        forall|
            a: &mut LockTable,
            first: Progress<MutexGuard>,
            b: &mut LockTable,
            second: Progress<MutexGuard>,
        |
            #[trigger] call_ensures(Mutex::<T>::lock, (&mutex, a), first)
                && (first matches Progress::Done(Ok(_))) && mutex.stands_in(a@) && *b == *final(a)
                && #[trigger] call_ensures(Mutex::<T>::lock, (&mutex, b), second)
                ==> second is Wait && final(b)@ == final(a)@,
        forall|
            b: &mut LockTable,
            second: Progress<MutexGuard>,
            c: &mut LockTable,
            guard: MutexGuard,
            done: (),
            d: &mut LockTable,
            third: Progress<MutexGuard>,
        |
            #[trigger] call_ensures(Mutex::<T>::lock, (&mutex, b), second) && second is Wait
                && mutex.stands_in(b@) && *c == *final(b) && guard.mutex() == mutex.id()
                && #[trigger] call_ensures(MutexGuard::unlock, (guard, c), done) && *d == *final(c)
                && #[trigger] call_ensures(Mutex::<T>::lock, (&mutex, d), third)
                ==> third matches Progress::Done(Ok(_)),
{
}

/// What the reply of the lock primitive comes to, whatever the kind of the attempt: a
/// context of another class is refused first; a refusal changes nothing, and success
/// hands the mutex to the context, or to none.
pub proof fn law_call_of_lock_common<T>(mutex: Mutex<T>, kind: LockKind, ret: i32)
    ensures
        forall|t: &mut LockTable, ctx: Option<&AcquireCtx>, res: Result<MutexGuard, Error>|
            mutex.stands_in(t@) && #[trigger] call_ensures(
                super::lock_common::<T>,
                (t, &mutex, ctx, kind, ret),
                res,
            ) ==> {
                let word = t@.words[mutex.id()];
                let after = final(t)@.words[mutex.id()];
                let stranger = ctx matches Some(c) && t@.ctxs[c.id() as int].class != word.class;
                let success = match kind {
                    LockKind::Slow => true,
                    LockKind::Try => ret > 0,
                    _ => ret >= 0,
                };
                &&& res is Ok <==> !stranger && success
                &&& res is Err ==> final(t)@ == t@
                &&& stranger ==> (res matches Err(e) && e.code() == -22)
                &&& !stranger && !success && -4095 <= ret < 0 ==> (res matches Err(e) && e.code()
                    == ret)
                &&& !stranger && !success && ret < -4095 ==> (res matches Err(e) && e.code()
                    == -22)
                &&& !stranger && !success && ret == 0 ==> (res matches Err(e) && e.code() == -16)
                &&& res matches Ok(guard) ==> {
                    &&& guard.mutex() == mutex.id()
                    &&& after.class == word.class
                    &&& ctx is None ==> after.holder == Some(Holder::Plain)
                    &&& ctx matches Some(c) ==> after.holder == Some(Holder::Ctx(c.id()))
                    &&& final(t)@.ctxs == t@.ctxs
                    &&& forall|m: int|
                        0 <= m < t@.words.len() && m != mutex.id() ==> #[trigger] final(t)@.words[m]
                            == t@.words[m]
                }
            },
{
}

/// A new mutex is free, of its class, and the last one; the others are as they were.
pub proof fn law_new_mutex_is_free<T>(data: T, class: Class)
    ensures
        forall|t: &mut LockTable, res: Mutex<T>| #[trigger]
            call_ensures(Mutex::<T>::new, (t, data, &class), res) ==> {
                &&& res.data() == data
                &&& res.id() == t@.words.len()
                &&& final(t)@.words.len() == t@.words.len() + 1
                &&& final(t)@.words[res.id()].holder is None
                &&& final(t)@.words[res.id()].class == class.id()
                &&& forall|m: int|
                    0 <= m < t@.words.len() ==> #[trigger] final(t)@.words[m] == t@.words[m]
                &&& final(t)@.ctxs == t@.ctxs && final(t)@.classes == t@.classes
            },
{
}

/// Whether a mutex is locked, whether there is a guard for it, and what the guard gives
/// access to, goes by whether someone holds it; letting it go frees it and nothing else.
pub proof fn law_calls_of_a_guard<T>(mutex: Mutex<T>)
    ensures
        forall|t: LockTable, res: bool| #[trigger]
            call_ensures(Mutex::<T>::is_locked, (&mutex, &t), res) ==> (res
                <==> t@.words[mutex.id()].holder is Some),
        forall|t: LockTable, id: usize, res: Result<MutexGuard, Error>| #[trigger]
            call_ensures(MutexGuard::from_raw, (&t, id), res) ==> {
                &&& res is Ok <==> t@.words[id as int].holder is Some
                &&& res matches Ok(guard) ==> guard.mutex() == id
                &&& res matches Err(e) ==> e.code() == -22
            },
        forall|guard: MutexGuard, res: &T| #[trigger]
            call_ensures(MutexGuard::deref::<T>, (&guard, &mutex), res) ==> *res == mutex.data(),
        forall|guard: MutexGuard, t: &mut LockTable, res: ()|
            0 <= guard.mutex() < t@.words.len() && #[trigger] call_ensures(
                MutexGuard::unlock,
                (guard, t),
                res,
            ) ==> {
                &&& final(t)@.words.len() == t@.words.len()
                &&& final(t)@.words[guard.mutex()].holder is None
                &&& final(t)@.words[guard.mutex()].class == t@.words[guard.mutex()].class
                &&& forall|m: int|
                    0 <= m < t@.words.len() && m != guard.mutex() ==> #[trigger] final(t)@.words[m]
                        == t@.words[m]
                &&& final(t)@.ctxs == t@.ctxs && final(t)@.classes == t@.classes
            },
{
}

/// A new context is of its class and has not ended; ending it says so of it and of no
/// other context, and changes no mutex.
pub proof fn law_calls_of_a_context(class: Class)
    ensures
        forall|t: &mut LockTable, res: AcquireCtx| #[trigger]
            call_ensures(AcquireCtx::new, (t, &class), res) ==> {
                &&& res.id() == t@.ctxs.len()
                &&& final(t)@.ctxs.len() == t@.ctxs.len() + 1
                &&& final(t)@.ctxs[res.id() as int].class == class.id()
                &&& !final(t)@.ctxs[res.id() as int].done
                &&& forall|c: int|
                    0 <= c < t@.ctxs.len() ==> #[trigger] final(t)@.ctxs[c] == t@.ctxs[c]
                &&& final(t)@.words == t@.words && final(t)@.classes == t@.classes
            },
        forall|ctx: AcquireCtx, t: &mut LockTable, res: ()|
            ctx.stands_in(t@) && #[trigger] call_ensures(AcquireCtx::done, (&ctx, t), res) ==> {
                &&& final(t)@.ctxs.len() == t@.ctxs.len()
                &&& final(t)@.ctxs[ctx.id() as int].done
                &&& final(t)@.ctxs[ctx.id() as int].class == t@.ctxs[ctx.id() as int].class
                &&& forall|c: int|
                    0 <= c < t@.ctxs.len() && c != ctx.id() ==> #[trigger] final(t)@.ctxs[c]
                        == t@.ctxs[c]
                &&& final(t)@.words == t@.words && final(t)@.classes == t@.classes
            },
{
}

/// A class is recorded with its name and its algorithm, under a number of its own, and
/// is found again by that.
pub proof fn law_calls_of_a_class()
    ensures
        forall|t: &mut LockTable, name: &'static str, is_wait_die: bool, res: Class| #[trigger]
            call_ensures(Class::new_unpinned, (t, name, is_wait_die), res) ==> {
                &&& res.id() == t@.classes.len()
                &&& final(t)@.classes.len() == t@.classes.len() + 1
                &&& final(t)@.classes[res.id() as int] == res.inner()
                &&& res.inner().stamp == 0
                &&& res.inner().acquire_name == name && res.inner().mutex_name == name
                &&& res.inner().is_wait_die == 1 <==> is_wait_die
                &&& res.inner().is_wait_die <= 1
                &&& final(t)@.words == t@.words && final(t)@.ctxs == t@.ctxs
            },
        forall|t: LockTable, id: usize, res: Class| #[trigger]
            call_ensures(Class::from_raw, (&t, id), res) ==> res.id() == id && res.inner()
                == t@.classes[id as int],
        forall|class: Class, res: bool| #[trigger]
            call_ensures(Class::is_wait_die, (&class,), res) ==> (res <==> class.inner().is_wait_die
                != 0),
{
}

} // verus!
