//! Host health samples: CPU usage from cumulative tick counters and clamped
//! resource usage figures.

use vstd::prelude::*;

verus! {

/// Used and total bytes of one resource (memory or disk).
#[derive(Debug, Clone, Copy, Default, PartialEq, Eq)]
pub struct ResourceUsage {
    pub used_bytes: u64,
    pub total_bytes: u64,
}

impl ResourceUsage {
    /// A usage figure is only meaningful with a non-zero total; the used
    /// amount is clamped to the total.
    pub fn new(used_bytes: u64, total_bytes: u64) -> (res: Option<Self>)
        ensures
            total_bytes == 0 ==> res is None,
            total_bytes > 0 ==> res == Some(ResourceUsage {
                used_bytes: if used_bytes <= total_bytes { used_bytes } else { total_bytes },
                total_bytes,
            }),
    {
        if total_bytes > 0 {
            let used = if used_bytes <= total_bytes { used_bytes } else { total_bytes };
            Some(ResourceUsage { used_bytes: used, total_bytes })
        } else {
            None
        }
    }
}

/// Battery charge percentage and, when known, whether it is charging.
#[derive(Debug, Clone, Copy, Default, PartialEq, Eq)]
pub struct BatteryHealth {
    pub percentage: u8,
    pub charging: Option<bool>,
}

/// One health sample as reported to clients.
#[derive(Debug, Clone, Copy, Default, PartialEq, Eq)]
pub struct HealthSnapshot {
    pub cpu_usage_percentage: Option<u8>,
    pub battery: Option<BatteryHealth>,
    pub ram: Option<ResourceUsage>,
    pub disk: Option<ResourceUsage>,
}

/// Cumulative busy and total CPU ticks.
#[derive(Debug, Clone, Copy, PartialEq, Eq)]
pub struct CpuTimes {
    pub busy: u64,
    pub total: u64,
}

/// Raw figures read from the host by the platform layer.
#[derive(Debug, Clone, Copy, Default, PartialEq, Eq)]
pub struct PlatformHealthProbe {
    pub cpu_times: Option<CpuTimes>,
    pub battery: Option<BatteryHealth>,
    pub ram: Option<ResourceUsage>,
    pub disk: Option<ResourceUsage>,
}

/// The busy share of the ticks elapsed between two samples, clamped to the
/// elapsed total.
pub open spec fn spec_cpu_busy(p: CpuTimes, c: CpuTimes) -> int {
    let total = c.total - p.total;
    let busy_raw = c.busy - p.busy;
    if busy_raw <= total { busy_raw } else { total }
}

/// Whether two samples describe forward-moving counters with elapsed time.
pub open spec fn spec_cpu_advanced(p: CpuTimes, c: CpuTimes) -> bool {
    c.total >= p.total && c.busy >= p.busy && c.total != p.total
}

/// The rounding sum `busy * 100 + total / 2` fits in `u64` (on larger inputs
/// the computation overflows).
pub open spec fn cpu_percentage_in_range(previous: Option<CpuTimes>, current: Option<CpuTimes>) -> bool {
    match (previous, current) {
        (Some(p), Some(c)) => spec_cpu_advanced(p, c) ==> spec_cpu_busy(p, c) * 100 + (c.total - p.total) / 2 <= u64::MAX,
        _ => true,
    }
}

/// The CPU percentage between two samples, rounded half up and capped at 100.
pub open spec fn spec_cpu_percentage(previous: Option<CpuTimes>, current: Option<CpuTimes>) -> Option<u8> {
    match (previous, current) {
        (Some(p), Some(c)) => {
            if !spec_cpu_advanced(p, c) {
                None
            } else {
                let total = c.total - p.total;
                let pct = (spec_cpu_busy(p, c) * 100 + total / 2) / total;
                Some((if pct <= 100 { pct } else { 100 }) as u8)
            }
        },
        _ => None,
    }
}

/// Usage between two cumulative samples; `None` unless both exist and the
/// counters moved forward.
pub fn cpu_usage_percentage(previous: Option<CpuTimes>, current: Option<CpuTimes>) -> (res: Option<u8>)
    requires
        cpu_percentage_in_range(previous, current),
    ensures
        res == spec_cpu_percentage(previous, current),
{
    let previous = match previous {
        Some(p) => p,
        None => return None,
    };
    let current = match current {
        Some(c) => c,
        None => return None,
    };
    let total = match current.total.checked_sub(previous.total) {
        Some(t) => t,
        None => return None,
    };
    let busy_raw = match current.busy.checked_sub(previous.busy) {
        Some(b) => b,
        None => return None,
    };
    let busy = if busy_raw <= total { busy_raw } else { total };
    if total == 0 {
        return None;
    }
    let pct = (busy * 100 + total / 2) / total;
    let capped = if pct <= 100 { pct } else { 100 };
    Some(capped as u8)
}

/// Keeps the previous CPU sample so the next snapshot can report a delta.
#[derive(Debug, Default)]
pub struct HealthSampler {
    previous_cpu_times: Option<CpuTimes>,
}

impl HealthSampler {
    /// The CPU sample this sampler compares the next probe against.
    pub closed spec fn previous(&self) -> Option<CpuTimes> {
        self.previous_cpu_times
    }

    pub fn new() -> (res: Self)
        ensures
            res.previous() is None,
    {
        HealthSampler { previous_cpu_times: None }
    }

    /// The CPU sample the next probe is compared against.
    pub fn previous_cpu_times(&self) -> (r: Option<CpuTimes>)
        ensures
            r == self.previous(),
    {
        self.previous_cpu_times
    }

    /// Turns one platform probe into a snapshot, remembering its CPU sample
    /// (a probe without CPU figures keeps the earlier sample).
    pub fn sample_from(&mut self, probe: PlatformHealthProbe) -> (res: HealthSnapshot)
        requires
            cpu_percentage_in_range(old(self).previous(), probe.cpu_times),
        ensures
            res == (HealthSnapshot {
                cpu_usage_percentage: spec_cpu_percentage(old(self).previous(), probe.cpu_times),
                battery: probe.battery,
                ram: probe.ram,
                disk: probe.disk,
            }),
            final(self).previous() == (if probe.cpu_times is Some {
                probe.cpu_times
            } else {
                old(self).previous()
            }),
    {
        let cpu = cpu_usage_percentage(self.previous_cpu_times, probe.cpu_times);
        if probe.cpu_times.is_some() {
            self.previous_cpu_times = probe.cpu_times;
        }
        HealthSnapshot { cpu_usage_percentage: cpu, battery: probe.battery, ram: probe.ram, disk: probe.disk }
    }
}

} // verus!
