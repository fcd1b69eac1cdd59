//! Performance timer of the supervisor.
//!
//! Converts between microseconds and ticks of the hardware counter, and decides how long a
//! wait goes on.

use vstd::prelude::*;

verus! {

/// The frequency of the performance counter in Hz, once it has been set.
pub struct PerfTimer {
    /// The cached frequency.
    cached: Option<u64>,
}

impl PerfTimer {
    /// The cached frequency, if it has been set.
    pub closed spec fn cache(&self) -> Option<u64> {
        self.cached
    }

    /// The frequency, 0 if it has not been set or is not known.
    pub open spec fn hz(&self) -> u64 {
        match self.cache() {
            Some(f) => f,
            None => 0,
        }
    }

    /// Creates a timer whose frequency has not been set.
    pub fn new() -> (r: Self)
        ensures
            r.cache() is None,
    {
        PerfTimer { cached: None }
    }
}

/// Initializes the performance timer with a frequency value.
///
/// A platform frequency other than 0 is used as it is; otherwise the detected one is.
/// Calling this more than once is harmless: later calls change nothing.
pub fn init(timer: &mut PerfTimer, platform_frequency: u64, detected_frequency: u64)
    ensures
        final(timer).cache() == match old(timer).cache() {
            Some(f) => Some(f),
            None => if platform_frequency != 0 {
                Some(platform_frequency)
            } else {
                Some(detected_frequency)
            },
        },
{
    if timer.cached.is_none() {
        let freq: u64 = if platform_frequency != 0 {
            platform_frequency
        } else {
            detected_frequency
        };
        timer.cached = Some(freq);
    }
}

/// Returns the cached frequency in Hz, or 0 if it has not been set or is not known.
pub fn frequency(timer: &PerfTimer) -> (r: u64)
    ensures
        r == timer.hz(),
{
    match timer.cached {
        Some(f) => f,
        None => 0,
    }
}

/// The ticks of a duration: `hz * us / 1_000_000`, in 64 bits.
pub open spec fn ticks_of(hz: u64, us: u64) -> int {
    (hz * us / 1_000_000) % 0x1_0000_0000_0000_0000
}

/// Converts a duration in microseconds to the equivalent tick count, or to `None` if the
/// frequency is not known.
pub fn us_to_ticks(timer: &PerfTimer, us: u64) -> (r: Option<u64>)
    ensures
        match r {
            Some(t) => timer.hz() != 0 && t == ticks_of(timer.hz(), us),
            None => timer.hz() == 0,
        },
{
    let freq: u64 = frequency(timer);
    if freq == 0 {
        return None;
    }
    assert(freq * us <= 0xffff_ffff_ffff_ffff * 0xffff_ffff_ffff_ffff) by (nonlinear_arith)
        requires
            freq <= 0xffff_ffff_ffff_ffff,
            us <= 0xffff_ffff_ffff_ffff,
    ;
    let product: u128 = freq as u128 * us as u128;
    let ticks: u128 = product / 1_000_000;
    assert(ticks as u64 == ticks % 0x1_0000_0000_0000_0000) by (bit_vector);
    Some(ticks as u64)
}

/// A wait with a time limit.
#[derive(Debug, Clone, Copy, PartialEq, Eq, Structural)]
pub enum SpinWait {
    /// The wait ends when this many ticks have passed since its start.
    Ticks { start: u64, deadline: u64 },
    /// The counter has no known frequency: the wait ends after this many more looks.
    Iterations { left: u64 },
}

/// Begins a wait of `timeout_us` microseconds. Without a known frequency it is limited to
/// ten looks for each microsecond.
pub fn begin_wait(timer: &PerfTimer, timeout_us: u64, now: u64) -> (r: SpinWait)
    ensures
        r == if timer.hz() != 0 {
            SpinWait::Ticks { start: now, deadline: ticks_of(timer.hz(), timeout_us) as u64 }
        } else {
            SpinWait::Iterations {
                left: if timeout_us * 10 > u64::MAX {
                    u64::MAX
                } else {
                    (timeout_us * 10) as u64
                },
            }
        },
{
    match us_to_ticks(timer, timeout_us) {
        Some(deadline) => SpinWait::Ticks { start: now, deadline },
        None => SpinWait::Iterations {
            left: match timeout_us.checked_mul(10) {
                Some(left) => left,
                None => u64::MAX,
            },
        },
    }
}

/// The ticks from `start` to `now` on a counter that wraps.
pub open spec fn elapsed(start: u64, now: u64) -> int {
    if now >= start {
        now - start
    } else {
        now - start + 0x1_0000_0000_0000_0000
    }
}

/// What a look says: `Some(true)` when what is waited for has come about, `Some(false)` when
/// the time is up, and `None` when the wait goes on.
pub open spec fn look_says(wait: SpinWait, condition: bool, now: u64) -> Option<bool> {
    match wait {
        SpinWait::Ticks { start, deadline } => if condition {
            Some(true)
        } else if elapsed(start, now) >= deadline {
            Some(false)
        } else {
            None
        },
        SpinWait::Iterations { left } => if left == 0 {
            Some(false)
        } else if condition {
            Some(true)
        } else if left == 1 {
            Some(false)
        } else {
            None
        },
    }
}

/// The wait after a look: a limited number of looks gets smaller.
pub open spec fn after_look(wait: SpinWait, condition: bool) -> SpinWait {
    match wait {
        SpinWait::Iterations { left } => if left > 0 && !condition {
            SpinWait::Iterations { left: (left - 1) as u64 }
        } else {
            wait
        },
        _ => wait,
    }
}

/// One look of a wait. `condition` says whether what is waited for has come about, and `now`
/// is the counter after that look.
///
/// Returns `Some(true)` when it has, `Some(false)` when the time is up, and `None` when the
/// wait goes on. What has come about is seen in time even at the last look, except that a
/// wait without any looks left does not look.
pub fn spin_until(wait: &mut SpinWait, condition: bool, now: u64) -> (r: Option<bool>)
    ensures
        r == look_says(*old(wait), condition, now),
        *final(wait) == after_look(*old(wait), condition),
{
    match *wait {
        SpinWait::Ticks { start, deadline } => {
            if condition {
                return Some(true);
            }
            if now.wrapping_sub(start) >= deadline {
                return Some(false);
            }
            None
        },
        SpinWait::Iterations { left } => {
            if left == 0 {
                return Some(false);
            }
            if condition {
                return Some(true);
            }
            *wait = SpinWait::Iterations { left: left - 1 };
            if left == 1 {
                Some(false)
            } else {
                None
            }
        },
    }
}

/// What has come about is seen, whatever the time, by every wait that looks at all.
pub proof fn law_condition_is_seen(wait: SpinWait, now: u64)
    requires
        wait != (SpinWait::Iterations { left: 0 }),
    ensures
        look_says(wait, true, now) == Some(true),
{
}

/// A wait that counts its looks comes to an end: a look after which it goes on leaves fewer.
pub proof fn law_counted_wait_ends(left: u64, condition: bool, now: u64)
    requires
        look_says(SpinWait::Iterations { left }, condition, now) is None,
    ensures
        after_look(SpinWait::Iterations { left }, condition) matches SpinWait::Iterations {
            left: fewer,
        } && fewer < left,
{
}

/// A wait by the clock ends at the first look from the deadline on.
pub proof fn law_timed_wait_ends(start: u64, deadline: u64, condition: bool, now: u64)
    requires
        elapsed(start, now) >= deadline,
    ensures
        look_says(SpinWait::Ticks { start, deadline }, condition, now) is Some,
{
}

/// The ticks of a time are the whole ticks that the frequency gives in it.
pub proof fn law_ticks_of(hz: u64, us: u64)
    requires
        hz * us < 1_000_000 * 0x1_0000_0000_0000_0000,
    ensures
        ticks_of(hz, us) * 1_000_000 <= hz * us,
        hz * us < (ticks_of(hz, us) + 1) * 1_000_000,
{
    let x = hz * us;
    assert(0 <= x) by (nonlinear_arith)
        requires
            x == hz * us,
    ;
    assert(0 <= x / 1_000_000 < 0x1_0000_0000_0000_0000);
}

/// The time that has gone by takes the counter from its start to now, over its end if need be.
pub proof fn law_elapsed(start: u64, now: u64)
    ensures
        0 <= elapsed(start, now) < 0x1_0000_0000_0000_0000,
        (start + elapsed(start, now)) % 0x1_0000_0000_0000_0000 == now,
{
}

/// What a look at a condition says. With a timer: that it is met, as soon as it is; that it is not,
/// once the time is up; and before that nothing. Without one: as many looks are taken as there are
/// left, and the last of them says that the condition is not met if it is not.
pub proof fn law_look_decision(start: u64, deadline: u64, left: u64, condition: bool, now: u64)
    ensures
        ({
            let timed = SpinWait::Ticks { start, deadline };
            &&& condition ==> look_says(timed, condition, now) == Some(true)
            &&& !condition && elapsed(start, now) >= deadline ==> look_says(timed, condition, now)
                == Some(false)
            &&& !condition && elapsed(start, now) < deadline ==> look_says(
                timed,
                condition,
                now,
            ) is None
            &&& after_look(timed, condition) == timed
        }),
        ({
            let counted = SpinWait::Iterations { left };
            &&& left == 0 ==> look_says(counted, condition, now) == Some(false)
            &&& left > 0 && condition ==> look_says(counted, condition, now) == Some(true)
            &&& left == 1 && !condition ==> look_says(counted, condition, now) == Some(false)
            &&& left > 1 && !condition ==> look_says(counted, condition, now) is None
            &&& left > 0 && !condition ==> after_look(counted, condition) == (
            SpinWait::Iterations { left: (left - 1) as u64 })
            &&& left == 0 || condition ==> after_look(counted, condition) == counted
        }),
{
}

/// The frequency is the one that has been set, and 0 before.
pub proof fn law_frequency(timer: &PerfTimer)
    ensures
        timer.cache() matches Some(f) ==> timer.hz() == f,
        timer.cache() is None ==> timer.hz() == 0,
{
}

} // verus!
