//! The data model: one complete reading of host metrics.
//!
//! Fractional quantities are held in fixed point so that every field is a
//! plain integer: load averages in hundredths (a stored 150 is a load of
//! 1.50), CPU categories in hundredths of a percent of the sampling window
//! (a stored 5000 is 50%).

use vstd::prelude::*;

verus! {

/// System load averaged over 1, 5 and 15 minutes, each in hundredths.
#[derive(Clone, Copy, Debug, PartialEq, Eq, Structural)]
pub struct Loadavg {
    pub one: u64,
    pub five: u64,
    pub fifteen: u64,
}

pub ghost struct LoadavgV {
    pub one: nat,
    pub five: nat,
    pub fifteen: nat,
}

impl View for Loadavg {
    type V = LoadavgV;

    open spec fn view(&self) -> LoadavgV {
        LoadavgV { one: self.one as nat, five: self.five as nat, fifteen: self.fifteen as nat }
    }
}

impl Loadavg {
    /// The substitute used when the load-average lookup fails.
    pub fn zeroed() -> (r: Loadavg)
        ensures
            r@ == spec_zero_loadavg(),
    {
        Loadavg { one: 0, five: 0, fifteen: 0 }
    }
}

pub open spec fn spec_zero_loadavg() -> LoadavgV {
    LoadavgV { one: 0, five: 0, fifteen: 0 }
}

/// One sampled CPU load distribution: the share of the sampling window each
/// category received, in hundredths of a percent.
#[derive(Clone, Copy, Debug, PartialEq, Eq, Structural)]
pub struct CpuLoadSample {
    pub user: u32,
    pub nice: u32,
    pub system: u32,
    pub interrupt: u32,
    pub idle: u32,
}

pub ghost struct CpuLoadSampleV {
    pub user: nat,
    pub nice: nat,
    pub system: nat,
    pub interrupt: nat,
    pub idle: nat,
}

impl View for CpuLoadSample {
    type V = CpuLoadSampleV;

    open spec fn view(&self) -> CpuLoadSampleV {
        CpuLoadSampleV {
            user: self.user as nat,
            nice: self.nice as nat,
            system: self.system as nat,
            interrupt: self.interrupt as nat,
            idle: self.idle as nat,
        }
    }
}

/// The platform-specific memory sub-breakdown, every category a byte count.
#[derive(Clone, Copy, Debug, PartialEq, Eq, Structural)]
pub struct PlatformMemory {
    pub total: u64,
    pub active: u64,
    pub inactive: u64,
    pub wired: u64,
    pub free: u64,
    pub purgeable: u64,
    pub speculative: u64,
    pub compressor: u64,
    pub throttled: u64,
    pub external: u64,
    pub internal: u64,
    pub uncompressed_in_compressor: u64,
}

pub ghost struct PlatformMemoryV {
    pub total: nat,
    pub active: nat,
    pub inactive: nat,
    pub wired: nat,
    pub free: nat,
    pub purgeable: nat,
    pub speculative: nat,
    pub compressor: nat,
    pub throttled: nat,
    pub external: nat,
    pub internal: nat,
    pub uncompressed_in_compressor: nat,
}

impl View for PlatformMemory {
    type V = PlatformMemoryV;

    open spec fn view(&self) -> PlatformMemoryV {
        PlatformMemoryV {
            total: self.total as nat,
            active: self.active as nat,
            inactive: self.inactive as nat,
            wired: self.wired as nat,
            free: self.free as nat,
            purgeable: self.purgeable as nat,
            speculative: self.speculative as nat,
            compressor: self.compressor as nat,
            throttled: self.throttled as nat,
            external: self.external as nat,
            internal: self.internal as nat,
            uncompressed_in_compressor: self.uncompressed_in_compressor as nat,
        }
    }
}

/// Total and free memory in bytes, with the platform sub-breakdown.
#[derive(Clone, Copy, Debug, PartialEq, Eq, Structural)]
pub struct MemorySnapshot {
    pub total: u64,
    pub free: u64,
    pub platform_memory: PlatformMemory,
}

pub ghost struct MemorySnapshotV {
    pub total: nat,
    pub free: nat,
    pub platform_memory: PlatformMemoryV,
}

impl View for MemorySnapshot {
    type V = MemorySnapshotV;

    open spec fn view(&self) -> MemorySnapshotV {
        MemorySnapshotV {
            total: self.total as nat,
            free: self.free as nat,
            platform_memory: self.platform_memory@,
        }
    }
}

/// The memory field of a snapshot, wrapping one `MemorySnapshot`.
#[derive(Clone, Copy, Debug, PartialEq, Eq, Structural)]
pub struct MemoryWrapper {
    pub memory_usage: MemorySnapshot,
}

pub ghost struct MemoryWrapperV {
    pub memory_usage: MemorySnapshotV,
}

impl View for MemoryWrapper {
    type V = MemoryWrapperV;

    open spec fn view(&self) -> MemoryWrapperV {
        MemoryWrapperV { memory_usage: self.memory_usage@ }
    }
}

pub open spec fn spec_zero_platform_memory() -> PlatformMemoryV {
    PlatformMemoryV {
        total: 0,
        active: 0,
        inactive: 0,
        wired: 0,
        free: 0,
        purgeable: 0,
        speculative: 0,
        compressor: 0,
        throttled: 0,
        external: 0,
        internal: 0,
        uncompressed_in_compressor: 0,
    }
}

pub open spec fn spec_zero_memory() -> MemoryWrapperV {
    MemoryWrapperV {
        memory_usage: MemorySnapshotV { total: 0, free: 0, platform_memory: spec_zero_platform_memory() },
    }
}

impl MemoryWrapper {
    /// The fully zeroed memory value used by the fallback snapshot.
    pub fn zeroed() -> (r: MemoryWrapper)
        ensures
            r@ == spec_zero_memory(),
    {
        MemoryWrapper {
            memory_usage: MemorySnapshot {
                total: 0,
                free: 0,
                platform_memory: PlatformMemory {
                    total: 0,
                    active: 0,
                    inactive: 0,
                    wired: 0,
                    free: 0,
                    purgeable: 0,
                    speculative: 0,
                    compressor: 0,
                    throttled: 0,
                    external: 0,
                    internal: 0,
                    uncompressed_in_compressor: 0,
                },
            },
        }
    }
}

/// One complete host snapshot. Always fully populated: on failure the fields
/// hold zeroes and the `"Error"` sentinel instead of being absent.
#[derive(Clone, Debug, PartialEq, Eq)]
pub struct Stats {
    pub loadavg: Loadavg,
    pub cpu_usage: String,
    pub memory_usage: MemoryWrapper,
}

pub ghost struct StatsV {
    pub loadavg: LoadavgV,
    pub cpu_usage: Seq<char>,
    pub memory_usage: MemoryWrapperV,
}

impl View for Stats {
    type V = StatsV;

    open spec fn view(&self) -> StatsV {
        StatsV {
            loadavg: self.loadavg@,
            cpu_usage: self.cpu_usage@,
            memory_usage: self.memory_usage@,
        }
    }
}

/// A snapshot together with the success flag the JSON route reports.
#[derive(Clone, Debug, PartialEq, Eq)]
pub struct StatsResponse {
    pub result: bool,
    pub data: Stats,
}

pub ghost struct StatsResponseV {
    pub result: bool,
    pub data: StatsV,
}

impl View for StatsResponse {
    type V = StatsResponseV;

    open spec fn view(&self) -> StatsResponseV {
        StatsResponseV { result: self.result, data: self.data@ }
    }
}

/// Outcome of one aggregate CPU sampling attempt, as the platform reader
/// reports it: the opening call failed, the closing call failed, or a
/// sample was measured.
#[derive(Clone, Copy, Debug, PartialEq, Eq, Structural)]
pub enum CpuSampleOutcome {
    BeginFailed,
    FinishFailed,
    Sampled(CpuLoadSample),
}

/// The one failure the snapshot builder reports to its caller: the memory
/// read failed after CPU sampling had succeeded.
#[derive(Clone, Copy, Debug, PartialEq, Eq, Structural)]
pub enum AcquisitionError {
    MemoryUnavailable,
}

} // verus!
