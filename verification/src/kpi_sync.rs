//! Locks, interrupt nesting, completions and atomic counters of the Linux
//! kernel interface, as the values they hold and the steps that change them.
//! The C entry points apply these steps atomically; here each step is a
//! function on plain values.
use vstd::prelude::*;

verus! {

pub const MUTEX_UNLOCKED: u8 = 0;

pub const MUTEX_LOCKED: u8 = 1;

// ---- Locks ----
/// Taking a lock moves it from unlocked to locked; a lock in any other state
/// cannot be taken.
pub open spec fn acquire_spec(state: u8) -> Option<u8> {
    if state == MUTEX_UNLOCKED {
        Some(MUTEX_LOCKED)
    } else {
        None
    }
}

/// One attempt at taking a lock: the state it leaves, or `None` where the
/// lock is held.
pub fn lock_acquire_step(state: u8) -> (r: Option<u8>)
    ensures
        r == acquire_spec(state),
{
    if state == MUTEX_UNLOCKED {
        Some(MUTEX_LOCKED)
    } else {
        None
    }
}

/// A sleeping lock of the kernel interface.
#[derive(Clone, Copy, Debug, PartialEq, Eq, Structural)]
pub struct LinuxMutex {
    pub state: u8,
}

/// A fresh, unlocked mutex.
pub fn mutex_init() -> (r: LinuxMutex)
    ensures
        r.state == MUTEX_UNLOCKED,
{
    LinuxMutex { state: MUTEX_UNLOCKED }
}

/// Takes the mutex if it is free: 1 and locked where it was unlocked, 0 and
/// unchanged otherwise.
pub fn mutex_trylock(m: &mut LinuxMutex) -> (r: i32)
    ensures
        acquire_spec(old(m).state) matches Some(s) ==> r == 1 && final(m).state == s,
        acquire_spec(old(m).state) is None ==> r == 0 && *final(m) == *old(m),
{
    match lock_acquire_step(m.state) {
        Some(s) => {
            m.state = s;
            1
        },
        None => 0,
    }
}

/// Releases the mutex.
pub fn mutex_unlock(m: &mut LinuxMutex)
    ensures
        final(m).state == MUTEX_UNLOCKED,
{
    m.state = MUTEX_UNLOCKED;
}

/// Whether the mutex is held.
pub fn mutex_is_locked(m: &LinuxMutex) -> (r: bool)
    ensures
        r == (m.state == MUTEX_LOCKED),
{
    m.state == MUTEX_LOCKED
}

/// A spinning lock of the kernel interface: 0 when free, 1 when held.
#[derive(Clone, Copy, Debug, PartialEq, Eq, Structural)]
pub struct Spinlock {
    pub locked: u8,
}

/// A fresh, free spinlock.
pub fn spin_lock_init() -> (r: Spinlock)
    ensures
        r.locked == MUTEX_UNLOCKED,
{
    Spinlock { locked: MUTEX_UNLOCKED }
}

/// One attempt at taking a spinlock: true, and held, where it was free.
pub fn spin_try_acquire(lock: &mut Spinlock) -> (r: bool)
    ensures
        acquire_spec(old(lock).locked) matches Some(s) ==> r && final(lock).locked == s,
        acquire_spec(old(lock).locked) is None ==> !r && *final(lock) == *old(lock),
{
    match lock_acquire_step(lock.locked) {
        Some(s) => {
            lock.locked = s;
            true
        },
        None => false,
    }
}

/// Releases a spinlock.
pub fn spin_unlock(lock: &mut Spinlock)
    ensures
        final(lock).locked == MUTEX_UNLOCKED,
{
    lock.locked = MUTEX_UNLOCKED;
}

/// A held lock cannot be taken again, and a released one can.
pub proof fn lemma_lock_exclusive(state: u8)
    ensures
        acquire_spec(state) matches Some(s) ==> acquire_spec(s) is None,
        acquire_spec(MUTEX_UNLOCKED) == Some(MUTEX_LOCKED),
{
}

// ---- Interrupt nesting ----
/// Disabling interrupts (or saving them) adds one level of nesting, wrapping
/// at the top of the counter.
pub open spec fn irq_disable_spec(depth: u32) -> u32 {
    if depth == u32::MAX {
        0
    } else {
        (depth + 1) as u32
    }
}

/// The nesting after one more level of disabled interrupts.
pub fn irq_disable_step(depth: u32) -> (r: u32)
    ensures
        r == irq_disable_spec(depth),
{
    if depth == u32::MAX {
        0
    } else {
        depth + 1
    }
}

/// The nesting after interrupts are enabled once: one level less, never
/// below none.
pub fn irq_enable_step(depth: u32) -> (r: u32)
    ensures
        r == if depth == 0 {
            0
        } else {
            depth - 1
        },
{
    depth.saturating_sub(1)
}

/// The flags a save hands back: the nesting before it.
pub fn irq_saved_flags(depth: u32) -> (r: u64)
    ensures
        r == depth,
{
    depth as u64
}

/// The nesting that restoring `flags` sets: their low 32 bits.
pub fn irq_restore_depth(flags: u64) -> (r: u32)
    ensures
        r == flags % 0x1_0000_0000,
{
    let r = flags as u32;
    assert(r == flags % 0x1_0000_0000) by (bit_vector)
        requires
            r == flags as u32,
    ;
    r
}

/// Whether interrupts count as disabled at this nesting.
pub fn irqs_disabled_at(depth: u32) -> (r: bool)
    ensures
        r == (depth > 0),
{
    depth > 0
}

/// Disabling then enabling interrupts returns to the nesting before, and
/// interrupts are disabled in between.
pub proof fn lemma_irq_disable_then_enable(depth: u32)
    requires
        depth < u32::MAX,
    ensures
        irq_disable_spec(depth) > 0,
        irq_disable_spec(depth) - 1 == depth,
{
}

/// Restoring the flags a save handed back returns to the nesting the save
/// found.
pub proof fn lemma_irq_save_then_restore(depth: u32)
    ensures
        (depth as u64) % 0x1_0000_0000 == depth,
{
}

// ---- Completions ----
/// A completion: 0 while pending, non-zero once completed (255 when every
/// waiter is released).
#[derive(Clone, Copy, Debug, PartialEq, Eq, Structural)]
pub struct Completion {
    pub done: u8,
}

/// A fresh, pending completion.
pub fn init_completion() -> (r: Completion)
    ensures
        r.done == 0,
{
    Completion { done: 0 }
}

/// Marks the completion done.
pub fn complete(c: &mut Completion)
    ensures
        final(c).done == 1,
{
    c.done = 1;
}

/// Marks the completion done for every waiter.
pub fn complete_all(c: &mut Completion)
    ensures
        final(c).done == u8::MAX,
{
    c.done = u8::MAX;
}

/// Makes the completion pending again.
pub fn reinit_completion(c: &mut Completion)
    ensures
        final(c).done == 0,
{
    c.done = 0;
}

/// Whether a waiter on the completion may go on.
pub fn completion_done(c: &Completion) -> (r: bool)
    ensures
        r == (c.done != 0),
{
    c.done != 0
}

/// What a timed wait does next.
#[derive(Clone, Copy, Debug, PartialEq, Eq, Structural)]
pub enum WaitStep {
    /// The completion is done: the wait returns 1.
    Completed,
    /// The time is up: the wait returns 0.
    TimedOut,
    /// Neither: the waiter yields and looks again.
    Waiting,
}

/// A timed wait's decision: done wins over an expired deadline.
pub fn completion_wait_step(done: u8, expired: bool) -> (r: WaitStep)
    ensures
        done != 0 ==> r == WaitStep::Completed,
        done == 0 && expired ==> r == WaitStep::TimedOut,
        done == 0 && !expired ==> r == WaitStep::Waiting,
{
    if done != 0 {
        WaitStep::Completed
    } else if expired {
        WaitStep::TimedOut
    } else {
        WaitStep::Waiting
    }
}

/// The value a timed wait returns once it has decided.
pub fn wait_result(step: WaitStep) -> (r: i32)
    ensures
        r == if step == WaitStep::Completed {
            1i32
        } else {
            0i32
        },
{
    match step {
        WaitStep::Completed => 1,
        _ => 0,
    }
}

// ---- Atomic counters ----
/// A 32-bit sum as the counter stores it: wrapped into the `i32` range.
pub open spec fn wrap_i32(x: int) -> i32 {
    if x > i32::MAX {
        (x - 0x1_0000_0000) as i32
    } else if x < i32::MIN {
        (x + 0x1_0000_0000) as i32
    } else {
        x as i32
    }
}

/// The counter after adding `i`, wrapping.
pub fn counter_add_step(value: i32, i: i32) -> (r: i32)
    ensures
        r == wrap_i32(value + i),
{
    value.wrapping_add(i)
}

/// The counter after subtracting `i`, wrapping.
pub fn counter_sub_step(value: i32, i: i32) -> (r: i32)
    ensures
        r == wrap_i32(value - i),
{
    value.wrapping_sub(i)
}

/// The counter after a compare-and-exchange: `new` where it held
/// `expected`.
pub fn counter_cmpxchg_step(value: i32, expected: i32, new: i32) -> (r: i32)
    ensures
        r == if value == expected {
            new
        } else {
            value
        },
{
    if value == expected {
        new
    } else {
        value
    }
}

/// An atomic counter of the kernel interface.
#[derive(Clone, Copy, Debug, PartialEq, Eq, Structural)]
pub struct AtomicT {
    pub value: i32,
}

/// Sets the counter.
pub fn atomic_set(v: &mut AtomicT, i: i32)
    ensures
        final(v).value == i,
{
    v.value = i;
}

/// Reads the counter.
pub fn atomic_read(v: &AtomicT) -> (r: i32)
    ensures
        r == v.value,
{
    v.value
}

/// Adds `i`, wrapping.
pub fn atomic_add(i: i32, v: &mut AtomicT)
    ensures
        final(v).value == wrap_i32(old(v).value + i),
{
    v.value = counter_add_step(v.value, i);
}

/// Subtracts `i`, wrapping.
pub fn atomic_sub(i: i32, v: &mut AtomicT)
    ensures
        final(v).value == wrap_i32(old(v).value - i),
{
    v.value = counter_sub_step(v.value, i);
}

/// Adds one, wrapping.
pub fn atomic_inc(v: &mut AtomicT)
    ensures
        final(v).value == wrap_i32(old(v).value + 1),
{
    atomic_add(1, v);
}

/// Subtracts one, wrapping.
pub fn atomic_dec(v: &mut AtomicT)
    ensures
        final(v).value == wrap_i32(old(v).value - 1),
{
    atomic_sub(1, v);
}

/// Adds one and tells whether the counter reached zero (1) or not (0).
pub fn atomic_inc_and_test(v: &mut AtomicT) -> (r: i32)
    requires
        old(v).value < i32::MAX,
    ensures
        final(v).value == old(v).value + 1,
        r == if old(v).value + 1 == 0 {
            1i32
        } else {
            0i32
        },
{
    let prev = v.value;
    v.value = counter_add_step(prev, 1);
    if prev + 1 == 0 {
        1
    } else {
        0
    }
}

/// Subtracts one and tells whether the counter reached zero (1) or not (0).
pub fn atomic_dec_and_test(v: &mut AtomicT) -> (r: i32)
    requires
        old(v).value > i32::MIN,
    ensures
        final(v).value == old(v).value - 1,
        r == if old(v).value - 1 == 0 {
            1i32
        } else {
            0i32
        },
{
    let prev = v.value;
    v.value = counter_sub_step(prev, 1);
    if prev - 1 == 0 {
        1
    } else {
        0
    }
}

/// Adds `i` and returns the new value.
pub fn atomic_add_return(i: i32, v: &mut AtomicT) -> (r: i32)
    requires
        i32::MIN <= old(v).value + i <= i32::MAX,
    ensures
        r == old(v).value + i,
        final(v).value == r,
{
    let prev = v.value;
    v.value = counter_add_step(prev, i);
    prev + i
}

/// Subtracts `i` and returns the new value.
pub fn atomic_sub_return(i: i32, v: &mut AtomicT) -> (r: i32)
    requires
        i32::MIN <= old(v).value - i <= i32::MAX,
    ensures
        r == old(v).value - i,
        final(v).value == r,
{
    let prev = v.value;
    v.value = counter_sub_step(prev, i);
    prev - i
}

/// Stores `new` and returns the value before.
pub fn atomic_xchg(v: &mut AtomicT, new: i32) -> (r: i32)
    ensures
        r == old(v).value,
        final(v).value == new,
{
    let prev = v.value;
    v.value = new;
    prev
}

/// Stores `new` where the counter holds `expected`, and returns the value before
/// either way.
pub fn atomic_cmpxchg(v: &mut AtomicT, expected: i32, new: i32) -> (r: i32)
    ensures
        r == old(v).value,
        final(v).value == if old(v).value == expected {
            new
        } else {
            old(v).value
        },
{
    let prev = v.value;
    v.value = counter_cmpxchg_step(prev, expected, new);
    prev
}

/// Adding and then subtracting the same amount leaves the counter as it
/// was, wrapping or not.
pub proof fn lemma_add_then_sub(value: i32, i: i32)
    ensures
        wrap_i32(wrap_i32(value + i) - i) == value,
{
}

} // verus!
