//! Kernel timers of the Linux interface: whether a timer is pending, the
//! generation that tells a scheduled callback whether it is still wanted,
//! and the millisecond clock the expiry times are measured on.
use vstd::prelude::*;

verus! {

/// A timer's bookkeeping: the generation of its latest scheduling or
/// cancellation, and whether a callback is pending.
#[derive(Clone, Copy, Debug, PartialEq, Eq, Structural)]
pub struct TimerState {
    pub generation: u64,
    pub active: bool,
}

/// The next generation, wrapping at the top of the counter.
pub open spec fn next_generation(g: u64) -> u64 {
    if g == u64::MAX {
        0
    } else {
        (g + 1) as u64
    }
}

fn bump(g: u64) -> (r: u64)
    ensures
        r == next_generation(g),
{
    if g == u64::MAX {
        0
    } else {
        g + 1
    }
}

/// A timer that was just set up: nothing pending.
pub fn setup_timer() -> (r: TimerState)
    ensures
        r == (TimerState { generation: 0, active: false }),
{
    TimerState { generation: 0, active: false }
}

/// Schedules the timer: it becomes pending under a new generation, which
/// the scheduled callback carries. Returns whether it was pending (1) or
/// not (0), and that generation.
pub fn mod_timer(t: &mut TimerState) -> (r: (i32, u64))
    ensures
        final(t).active,
        final(t).generation == next_generation(old(t).generation),
        r.0 == if old(t).active {
            1i32
        } else {
            0i32
        },
        r.1 == final(t).generation,
{
    let was = t.active;
    t.active = true;
    t.generation = bump(t.generation);
    (if was {
        1
    } else {
        0
    }, t.generation)
}

/// Cancels the timer: nothing pending, and a new generation so that a
/// callback already scheduled does nothing. Returns whether it was pending.
pub fn del_timer(t: &mut TimerState) -> (r: i32)
    ensures
        !final(t).active,
        final(t).generation == next_generation(old(t).generation),
        r == if old(t).active {
            1i32
        } else {
            0i32
        },
{
    let was = t.active;
    t.active = false;
    t.generation = bump(t.generation);
    if was {
        1
    } else {
        0
    }
}

/// Whether a callback is pending (1) or not (0).
pub fn timer_pending(t: &TimerState) -> (r: i32)
    ensures
        r == if t.active {
            1i32
        } else {
            0i32
        },
{
    if t.active {
        1
    } else {
        0
    }
}

/// What a scheduled callback does when its delay has passed.
#[derive(Clone, Copy, Debug, PartialEq, Eq, Structural)]
pub enum FireStep {
    /// The timer was cancelled or scheduled again since: nothing.
    Skip,
    /// There is no function to call: the timer stops being pending.
    Deactivate,
    /// The function is called.
    Run,
}

/// The decision of a callback scheduled under `generation`.
pub open spec fn fire_spec(t: TimerState, generation: u64, has_function: bool) -> FireStep {
    if !t.active || t.generation != generation {
        FireStep::Skip
    } else if !has_function {
        FireStep::Deactivate
    } else {
        FireStep::Run
    }
}

/// Decides what a callback scheduled under `generation` does.
pub fn timer_fire_step(t: &TimerState, generation: u64, has_function: bool) -> (r: FireStep)
    ensures
        r == fire_spec(*t, generation, has_function),
{
    if !t.active || t.generation != generation {
        FireStep::Skip
    } else if !has_function {
        FireStep::Deactivate
    } else {
        FireStep::Run
    }
}

/// After the function ran: the timer stops being pending unless it was
/// scheduled again meanwhile.
pub fn timer_after_run(t: &mut TimerState, generation: u64)
    ensures
        final(t).generation == old(t).generation,
        final(t).active == (old(t).active && old(t).generation != generation),
{
    if t.generation == generation {
        t.active = false;
    }
}

/// How long a callback waits: the milliseconds until `expires`, none where
/// that time has passed.
pub fn timer_delay(expires: u64, now: u64) -> (r: u64)
    ensures
        r == if expires > now {
            expires - now
        } else {
            0
        },
{
    expires.saturating_sub(now)
}

/// The millisecond clock from a monotonic time reading: 0 where the reading
/// failed or is negative, else the seconds in milliseconds plus the whole
/// milliseconds of the nanoseconds, saturating.
pub fn jiffies_from(read_ok: bool, sec: i64, nsec: i64) -> (r: u64)
    ensures
        r == if !read_ok || sec < 0 || nsec < 0 {
            0
        } else if sec * 1000 + nsec / 1_000_000 > u64::MAX {
            u64::MAX as int
        } else {
            sec * 1000 + nsec / 1_000_000
        },
{
    if !read_ok || sec < 0 || nsec < 0 {
        return 0;
    }
    let s = sec as u64;
    let ms: u64 = if s > u64::MAX / 1000 {
        u64::MAX
    } else {
        s * 1000
    };
    let sub = (nsec as u64) / 1_000_000;
    proof {
        assert(sub <= 9_223_372_036_854);
    }
    ms.saturating_add(sub)
}

/// A callback scheduled before the timer is cancelled or scheduled again
/// never runs.
pub proof fn lemma_stale_callback_skipped(t: TimerState, has_function: bool)
    ensures
        ({
            let g = next_generation(t.generation);
            let scheduled = TimerState { generation: g, active: true };
            let cancelled = TimerState { generation: next_generation(g), active: false };
            let again = TimerState { generation: next_generation(g), active: true };
            &&& fire_spec(scheduled, g, has_function) != FireStep::Skip
            &&& fire_spec(cancelled, g, has_function) == FireStep::Skip
            &&& fire_spec(again, g, has_function) == FireStep::Skip
        }),
{
}

} // verus!
