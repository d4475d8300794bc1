//! Bounded acquisition of a lock by a thread that must not wait.
use std::sync::{Mutex, MutexGuard, TryLockError};
use vstd::prelude::*;

verus! {

/// Fixed callback-side acquisition attempts; this stays bounded and never parks the audio thread.
/// The spin hints give short decoder queue writes time to finish without risking an unbounded wait.
pub const CALLBACK_LOCK_TRY_ATTEMPTS: usize = 64;

/// The standard library's mutual exclusion lock.
#[verifier::external_type_specification]
#[verifier::external_body]
#[verifier::reject_recursive_types(T)]
pub struct ExMutex<T: ?Sized>(Mutex<T>);

/// The standard library's scoped lock of a [`Mutex`].
#[verifier::external_type_specification]
#[verifier::external_body]
#[verifier::reject_recursive_types(T)]
pub struct ExMutexGuard<'a, T: ?Sized + 'a>(MutexGuard<'a, T>);

/// How one attempt to take a lock went.
#[verifier::reject_recursive_types(T)]
pub enum LockAttempt<'a, T> {
    Acquired(MutexGuard<'a, T>),
    /// Somebody else holds the lock.
    WouldBlock,
    /// Somebody panicked while holding the lock.
    Poisoned,
}

/// What follows an attempt.
#[derive(Clone, Copy, Debug, PartialEq, Eq, Structural)]
pub enum LockStep {
    /// The lock is held.
    Held,
    /// Try again, after a short pause.
    Retry,
    /// Go on without the lock.
    GiveUp,
}

/// What follows the attempt with this number, counted from zero: an attempt that found the lock
/// taken is repeated until none is left, and a poisoned lock is never taken.
pub open spec fn step_after(attempt: int, acquired: bool, would_block: bool) -> LockStep {
    if acquired {
        LockStep::Held
    } else if would_block && attempt + 1 < CALLBACK_LOCK_TRY_ATTEMPTS {
        LockStep::Retry
    } else {
        LockStep::GiveUp
    }
}

pub fn lock_step(attempt: usize, acquired: bool, would_block: bool) -> (step: LockStep)
    requires
        attempt < CALLBACK_LOCK_TRY_ATTEMPTS,
    ensures
        step == step_after(attempt as int, acquired, would_block),
{
    if acquired {
        LockStep::Held
    } else if would_block && attempt + 1 < CALLBACK_LOCK_TRY_ATTEMPTS {
        LockStep::Retry
    } else {
        LockStep::GiveUp
    }
}

/// What follows the attempt with this number, and the guard to go on with: the one that the attempt
/// acquired, or none.
pub fn settle_attempt<'a, T>(number: usize, attempt: LockAttempt<'a, T>) -> (settled: (
    LockStep,
    Option<MutexGuard<'a, T>>,
))
    requires
        number < CALLBACK_LOCK_TRY_ATTEMPTS,
    ensures
        settled.0 == step_after(number as int, attempt is Acquired, attempt is WouldBlock),
        settled.1 == guard_of(attempt),
{
    match attempt {
        LockAttempt::Acquired(guard) => (lock_step(number, true, false), Some(guard)),
        LockAttempt::WouldBlock => (lock_step(number, false, true), None),
        LockAttempt::Poisoned => (lock_step(number, false, false), None),
    }
}

/// Attempts to take the lock once, without waiting. This is [`Mutex::try_lock`], whose three
/// outcomes are told apart. Which of them comes depends on the other threads, so nothing is said
/// of it; that a guard which comes holds `mutex`, and no other lock, is left unsaid too. `_number`
/// tells the attempts of one acquisition apart; the lock does not read it.
#[verifier::external_body]
fn attempt_lock<'a, T>(mutex: &'a Mutex<T>, _number: usize) -> (attempt: LockAttempt<'a, T>) {
    match mutex.try_lock() {
        Ok(guard) => LockAttempt::Acquired(guard),
        Err(TryLockError::WouldBlock) => LockAttempt::WouldBlock,
        Err(TryLockError::Poisoned(_)) => LockAttempt::Poisoned,
    }
}

/// Hints to the processor that the thread spins. This is [`std::hint::spin_loop`], which returns
/// nothing.
#[verifier::external_body]
fn spin() {
    std::hint::spin_loop();
}

/// Whether the attempt with this number to take the lock can have gone this way.
pub closed spec fn can_give<'a, T>(
    mutex: &'a Mutex<T>,
    number: int,
    attempt: LockAttempt<'a, T>,
) -> bool {
    call_ensures(attempt_lock::<T>, (mutex, number as usize), attempt)
}

/// The guard that an attempt acquired.
pub open spec fn guard_of<'a, T>(attempt: LockAttempt<'a, T>) -> Option<MutexGuard<'a, T>> {
    match attempt {
        LockAttempt::Acquired(guard) => Some(guard),
        _ => None,
    }
}

/// What follows each of a row of attempts.
pub open spec fn step_of<'a, T>(attempts: Seq<LockAttempt<'a, T>>, i: int) -> LockStep {
    step_after(i, attempts[i] is Acquired, attempts[i] is WouldBlock)
}

/// Whether a row of attempts is a whole one that ends with `guard`: each but the last is to be
/// repeated, and the last is not.
pub open spec fn ends_with<'a, T>(
    attempts: Seq<LockAttempt<'a, T>>,
    guard: Option<MutexGuard<'a, T>>,
) -> bool {
    &&& 0 < attempts.len() <= CALLBACK_LOCK_TRY_ATTEMPTS
    &&& forall|i: int|
        0 <= i < attempts.len() - 1 ==> #[trigger] step_of(attempts, i) == LockStep::Retry
    &&& step_of(attempts, attempts.len() - 1) != LockStep::Retry
    &&& guard == guard_of(attempts.last())
}

/// Attempts until an attempt is not to be repeated.
fn retry<'a, T, F: Fn(&'a Mutex<T>, usize) -> LockAttempt<'a, T>>(
    attempt_once: F,
    mutex: &'a Mutex<T>,
) -> (guard: Option<MutexGuard<'a, T>>)
    requires
        forall|number: usize| #[trigger] call_requires(attempt_once, (mutex, number)),
    ensures
        exists|attempts: Seq<LockAttempt<'a, T>>| #[trigger]
            ends_with(attempts, guard) && forall|i: int|
                0 <= i < attempts.len() ==> call_ensures(
                    attempt_once,
                    (mutex, i as usize),
                    #[trigger] attempts[i],
                ),
{
    let ghost mut attempts: Seq<LockAttempt<'a, T>> = Seq::empty();
    let mut number: usize = 0;
    loop
        invariant
            forall|number: usize| #[trigger] call_requires(attempt_once, (mutex, number)),
            number < CALLBACK_LOCK_TRY_ATTEMPTS,
            attempts.len() == number,
            forall|i: int|
                0 <= i < number ==> #[trigger] step_of(attempts, i) == LockStep::Retry,
            forall|i: int|
                0 <= i < number ==> call_ensures(
                    attempt_once,
                    (mutex, i as usize),
                    #[trigger] attempts[i],
                ),
        decreases CALLBACK_LOCK_TRY_ATTEMPTS - number,
    {
        let attempt = attempt_once(mutex, number);
        let ghost before = attempts;
        proof {
            attempts = attempts.push(attempt);
            assert forall|i: int| 0 <= i < number implies #[trigger] step_of(attempts, i)
                == LockStep::Retry by {
                assert(step_of(before, i) == LockStep::Retry);
            }
        }
        let (step, guard) = settle_attempt(number, attempt);
        assert(step == step_of(attempts, number as int));
        match step {
            LockStep::Held | LockStep::GiveUp => {
                assert(ends_with(attempts, guard));
                return guard;
            },
            LockStep::Retry => spin(),
        }
        number += 1;
    }
}

/// Takes the lock within a bounded number of attempts, or goes on without it. Whether it is taken
/// depends on the other threads: the result is that of the last of a row of attempts on `mutex`,
/// each made in its turn. The row ends as soon as one does not find the lock taken, and with the
/// last that is allowed in any case.
pub fn try_lock_callback<'a, T>(mutex: &'a Mutex<T>) -> (guard: Option<MutexGuard<'a, T>>)
    ensures
        exists|attempts: Seq<LockAttempt<'a, T>>| #[trigger]
            ends_with(attempts, guard) && forall|i: int|
                0 <= i < attempts.len() ==> can_give(mutex, i, #[trigger] attempts[i]),
{
    retry(attempt_lock, mutex)
}

/// A lock that was acquired is held; one that is taken is tried again until the sixty-fourth attempt;
/// a poisoned one is given up at once.
pub proof fn law_attempts_are_bounded(attempt: int)
    requires
        0 <= attempt,
    ensures
        step_after(attempt, true, false) is Held,
        attempt < 63 ==> step_after(attempt, false, true) is Retry,
        attempt >= 63 ==> step_after(attempt, false, true) is GiveUp,
        step_after(attempt, false, false) is GiveUp,
{
}

/// Every row of attempts ends with what its last attempt gave, and every attempt before that found
/// the lock taken.
pub proof fn law_rows_end_with_their_last_attempt<'a, T>(
    attempts: Seq<LockAttempt<'a, T>>,
    guard: Option<MutexGuard<'a, T>>,
    i: int,
)
    requires
        ends_with(attempts, guard),
    ensures
        1 <= attempts.len() <= 64,
        0 <= i < attempts.len() - 1 ==> attempts[i] is WouldBlock,
        guard is Some <==> attempts.last() is Acquired,
        attempts.last() matches LockAttempt::Acquired(held) ==> guard == Some(held),
        attempts.last() is WouldBlock ==> attempts.len() == 64,
{
    if 0 <= i < attempts.len() - 1 {
        assert(step_of(attempts, i) == LockStep::Retry);
    }
}

} // verus!
