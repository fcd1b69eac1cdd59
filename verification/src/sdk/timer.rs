//! Timer functionality: the frequency of the performance counter.
//!
//! Reading the counter, the CPUID leaves, and the ACPI PM timer is the platform's. What the
//! values say is here.

use vstd::prelude::*;

verus! {

/// Architecture-specific timer functionality, which the platform provides.
pub trait ArchTimerFunctionality {
    /// Value of the counter (ticks).
    fn cpu_count(&self) -> (r: u64);

    /// Value in Hz of how often the counter increments.
    fn perf_frequency(&self) -> (r: u64);

    /// Value that the performance counter starts with.
    fn cpu_count_start(&self) -> (r: u64)
        default_ensures
            r == 0,
    {
        0
    }

    /// Value that the performance counter ends with before it rolls over.
    fn cpu_count_end(&self) -> (r: u64)
        default_ensures
            r == u64::MAX,
    {
        u64::MAX
    }
}

/// What CPUID leaf 0x15 says of the time stamp counter.
#[derive(Debug, Clone, Copy, PartialEq, Eq, Structural)]
pub struct TscLeaf {
    /// Denominator of the ratio of the counter to the crystal clock.
    pub eax: u32,
    /// Numerator of the ratio.
    pub ebx: u32,
    /// Frequency of the crystal clock in Hz.
    pub ecx: u32,
}

/// Determines the performance counter frequency in Hz from CPUID leaf 0x15, as
/// `ecx * ebx / eax`, or else from leaf 0x16, whose EAX is a frequency in MHz. Returns 0 if the
/// frequency cannot be determined.
pub fn arch_perf_frequency(leaf_15: TscLeaf, leaf_16_eax: u32) -> (r: u64)
    ensures
        r == if leaf_15.eax != 0 && leaf_15.ebx != 0 && leaf_15.ecx != 0 {
            leaf_15.ecx * leaf_15.ebx / leaf_15.eax as int
        } else {
            leaf_16_eax * 1_000_000
        },
{
    if leaf_15.eax != 0 && leaf_15.ebx != 0 && leaf_15.ecx != 0 {
        let ecx: u64 = leaf_15.ecx as u64;
        let ebx: u64 = leaf_15.ebx as u64;
        assert(ecx * ebx <= 0xffff_ffff * 0xffff_ffff) by (nonlinear_arith)
            requires
                ecx <= 0xffff_ffff,
                ebx <= 0xffff_ffff,
        ;
        return (ecx * ebx) / leaf_15.eax as u64;
    }
    if leaf_16_eax != 0 {
        return (leaf_16_eax as u64) * 1_000_000;
    }
    0
}

/// Standard ACPI PM timer frequency: 3.579545 MHz.
pub const ACPI_PM_TIMER_FREQUENCY: u64 = 3_579_545;

/// How often the PM timer is read at most in each of the two waits.
pub const MAX_WAIT_CYCLES: usize = 1_000_000;

/// How many PM timer ticks are measured: about 50 ms.
pub const TARGET_TICKS: u32 = 178_977;

/// The ticks from `start` to `end` on a 32-bit timer that wraps.
pub open spec fn pm_ticks(start: u32, end: u32) -> int {
    if end >= start {
        end - start
    } else {
        end - start + 0x1_0000_0000
    }
}

/// A calibration of the time stamp counter by the PM timer.
#[derive(Debug, Clone, Copy, PartialEq, Eq, Structural)]
pub enum Calibration {
    /// Waits for an edge of the PM timer, to avoid partial intervals.
    Edge { start_pm: u32, cycles_left: usize },
    /// The edge has come, or the wait for it is over: the counter is to be read.
    ReadStart { start_pm: u32 },
    /// Waits for the ticks to be measured.
    Interval { start_pm: u32, start_tsc: u64, cycles_left: usize },
    /// The ticks have passed: the counter is to be read.
    ReadEnd { start_pm: u32, start_tsc: u64, end_pm: u32 },
    /// The frequency is known.
    Done(u64),
}

/// The calibration after the PM timer has been read as `pm`.
pub open spec fn after_pm(state: Calibration, pm: u32) -> Calibration {
    match state {
        Calibration::Edge { start_pm, cycles_left } => if pm != start_pm {
            Calibration::ReadStart { start_pm: pm }
        } else if cycles_left <= 1 {
            Calibration::ReadStart { start_pm }
        } else {
            Calibration::Edge { start_pm, cycles_left: (cycles_left - 1) as usize }
        },
        Calibration::Interval { start_pm, start_tsc, cycles_left } => if pm_ticks(start_pm, pm)
            >= TARGET_TICKS {
            Calibration::ReadEnd { start_pm, start_tsc, end_pm: pm }
        } else if cycles_left <= 1 {
            Calibration::Done(ACPI_PM_TIMER_FREQUENCY)
        } else {
            Calibration::Interval {
                start_pm,
                start_tsc,
                cycles_left: (cycles_left - 1) as usize,
            }
        },
        _ => state,
    }
}

/// Begins a calibration, with the first reading of the PM timer.
pub fn calibrate_tsc_from_pm_timer(pm: u32) -> (r: Calibration)
    ensures
        r == (Calibration::Edge { start_pm: pm, cycles_left: MAX_WAIT_CYCLES }),
{
    Calibration::Edge { start_pm: pm, cycles_left: MAX_WAIT_CYCLES }
}

/// Goes on with a calibration when the PM timer has been read. A wait for the ticks that takes
/// too long ends with the frequency of the PM timer, for want of a better one.
pub fn pm_timer_read(state: &Calibration, pm: u32) -> (r: Calibration)
    ensures
        r == after_pm(*state, pm),
{
    match *state {
        Calibration::Edge { start_pm, cycles_left } => {
            if pm != start_pm {
                return Calibration::ReadStart { start_pm: pm };
            }
            if cycles_left <= 1 {
                return Calibration::ReadStart { start_pm };
            }
            Calibration::Edge { start_pm, cycles_left: cycles_left - 1 }
        },
        Calibration::Interval { start_pm, start_tsc, cycles_left } => {
            if pm.wrapping_sub(start_pm) >= TARGET_TICKS {
                return Calibration::ReadEnd { start_pm, start_tsc, end_pm: pm };
            }
            if cycles_left <= 1 {
                return Calibration::Done(ACPI_PM_TIMER_FREQUENCY);
            }
            Calibration::Interval { start_pm, start_tsc, cycles_left: cycles_left - 1 }
        },
        other => other,
    }
}

/// The time that `ticks` of the PM timer take, in nanoseconds.
pub open spec fn pm_nanoseconds(ticks: int) -> int {
    ticks * 1_000_000_000 / ACPI_PM_TIMER_FREQUENCY as int
}

/// The frequency of a counter that has made `delta_tsc` ticks while the PM timer made
/// `delta_pm`.
pub open spec fn tsc_frequency(delta_tsc: int, delta_pm: int) -> int {
    delta_tsc * 1_000_000_000 / pm_nanoseconds(delta_pm)
}

/// Goes on with a calibration when the time stamp counter has been read.
pub fn tsc_read(state: &Calibration, tsc: u64) -> (r: Calibration)
    requires
        *state matches Calibration::ReadEnd { start_pm, start_tsc, end_pm } ==> {
            &&& start_tsc <= tsc
            &&& (tsc - start_tsc) * 1_000_000_000 <= u64::MAX
            &&& pm_ticks(start_pm, end_pm) >= TARGET_TICKS
        },
    ensures
        r == match *state {
            Calibration::ReadStart { start_pm } => Calibration::Interval {
                start_pm,
                start_tsc: tsc,
                cycles_left: MAX_WAIT_CYCLES,
            },
            Calibration::ReadEnd { start_pm, start_tsc, end_pm } => Calibration::Done(
                tsc_frequency(tsc - start_tsc, pm_ticks(start_pm, end_pm)) as u64,
            ),
            other => other,
        },
{
    match *state {
        Calibration::ReadStart { start_pm } => Calibration::Interval {
            start_pm,
            start_tsc: tsc,
            cycles_left: MAX_WAIT_CYCLES,
        },
        Calibration::ReadEnd { start_pm, start_tsc, end_pm } => {
            let delta_pm: u64 = end_pm.wrapping_sub(start_pm) as u64;
            let delta_time_ns: u64 = (delta_pm * 1_000_000_000) / ACPI_PM_TIMER_FREQUENCY;
            let delta_tsc: u64 = tsc - start_tsc;
            Calibration::Done((delta_tsc * 1_000_000_000) / delta_time_ns)
        },
        other => other,
    }
}

/// A counter is measured as faster the more ticks it makes in the same time.
pub proof fn law_frequency_monotonic(slow: int, fast: int, delta_pm: int)
    requires
        0 <= slow <= fast,
        delta_pm >= TARGET_TICKS,
    ensures
        tsc_frequency(slow, delta_pm) <= tsc_frequency(fast, delta_pm),
{
    let ns = pm_nanoseconds(delta_pm);
    assert(ns > 0);
    vstd::arithmetic::div_mod::lemma_div_is_ordered(
        slow * 1_000_000_000,
        fast * 1_000_000_000,
        ns,
    );
}

/// Reading the timer that many times ends each wait: the number of readings left gets smaller
/// until the wait is over.
pub proof fn law_waits_end(state: Calibration, pm: u32)
    ensures
        state matches Calibration::Edge { start_pm, cycles_left } ==> match after_pm(state, pm) {
            Calibration::Edge { cycles_left: left, .. } => left < cycles_left,
            Calibration::ReadStart { .. } => true,
            _ => false,
        },
        state matches Calibration::Interval { start_pm, start_tsc, cycles_left } ==> match after_pm(
            state,
            pm,
        ) {
            Calibration::Interval { cycles_left: left, .. } => left < cycles_left,
            Calibration::ReadEnd { .. } => true,
            Calibration::Done(_) => true,
            _ => false,
        },
{
}

/// The ticks of the timer between two reads take it from the first to the second, over its end if
/// need be.
pub proof fn law_pm_ticks(start: u32, end: u32)
    ensures
        0 <= pm_ticks(start, end) < 0x1_0000_0000,
        (start + pm_ticks(start, end)) % 0x1_0000_0000 == end,
{
}

/// What a read of the timer leads to: the calibration begins when the timer changes, or after all
/// the reads that it waits for that; it ends when enough ticks have gone by, and gives up after as
/// many reads without that. Until then it reads on.
pub proof fn law_timer_read_decision(
    start_pm: u32,
    start_tsc: u64,
    cycles_left: usize,
    pm: u32,
)
    ensures
        ({
            let edge = after_pm(Calibration::Edge { start_pm, cycles_left }, pm);
            &&& pm != start_pm ==> edge == (Calibration::ReadStart { start_pm: pm })
            &&& pm == start_pm && cycles_left <= 1 ==> edge == (Calibration::ReadStart { start_pm })
            &&& pm == start_pm && cycles_left > 1 ==> edge == (Calibration::Edge {
                start_pm,
                cycles_left: (cycles_left - 1) as usize,
            })
        }),
        ({
            let next = after_pm(Calibration::Interval { start_pm, start_tsc, cycles_left }, pm);
            let enough = pm_ticks(start_pm, pm) >= TARGET_TICKS;
            &&& enough ==> next == (Calibration::ReadEnd { start_pm, start_tsc, end_pm: pm })
            &&& !enough && cycles_left <= 1 ==> next == Calibration::Done(ACPI_PM_TIMER_FREQUENCY)
            &&& !enough && cycles_left > 1 ==> next == (Calibration::Interval {
                start_pm,
                start_tsc,
                cycles_left: (cycles_left - 1) as usize,
            })
        }),
{
}

/// The frequency is that of the counter in the time of the timer: the time is the whole nanoseconds
/// of its ticks, and the frequency the whole counts in a second at that rate.
pub proof fn law_measured_frequency(delta_tsc: int, delta_pm: int)
    requires
        0 <= delta_tsc,
        delta_pm >= TARGET_TICKS,
    ensures
        pm_nanoseconds(delta_pm) * 3_579_545 <= delta_pm * 1_000_000_000,
        delta_pm * 1_000_000_000 < (pm_nanoseconds(delta_pm) + 1) * 3_579_545,
        tsc_frequency(delta_tsc, delta_pm) * pm_nanoseconds(delta_pm) <= delta_tsc * 1_000_000_000,
        delta_tsc * 1_000_000_000 < (tsc_frequency(delta_tsc, delta_pm) + 1) * pm_nanoseconds(
            delta_pm,
        ),
{
    let ns = pm_nanoseconds(delta_pm);
    let x = delta_tsc * 1_000_000_000;
    assert(ns > 0);
    vstd::arithmetic::div_mod::lemma_fundamental_div_mod(x, ns);
    let f = x / ns;
    assert(f * ns == ns * f) by (nonlinear_arith);
    assert((f + 1) * ns == ns * f + ns) by (nonlinear_arith);
}

/// The timer ticks 3579545 times in a second, and a twentieth of a second is measured.
pub proof fn law_timer_numbers()
    ensures
        ACPI_PM_TIMER_FREQUENCY == 3_579_545,
        TARGET_TICKS == ACPI_PM_TIMER_FREQUENCY / 20,
{
}

} // verus!
