//! The snapshot builder: turns the platform reader's outcomes into one
//! complete `Stats` value, degrading to the zero/error fallback when CPU
//! sampling fails, to a zero load average when only that lookup fails, and
//! reporting an error only when the memory read fails after a good sample.

use vstd::prelude::*;
use vstd::string::StringExecFns;
use vstd::string::StrSliceExecFns;
use crate::stats::{
    AcquisitionError, CpuLoadSample, CpuLoadSampleV, CpuSampleOutcome, Loadavg, MemorySnapshot,
    MemoryWrapper, MemoryWrapperV, Stats, StatsResponse, StatsV, spec_zero_loadavg,
    spec_zero_memory,
};
use crate::numfmt::{percent_to_string, spec_percent};

verus! {

/// The text a successful sample is shown as, mirroring the reader's
/// category order: user, nice, system, interrupt, idle.
pub open spec fn spec_cpu_usage(c: CpuLoadSampleV) -> Seq<char> {
    "CPU load: "@ + spec_percent(c.user) + "% user, "@ + spec_percent(c.nice) + "% nice, "@
        + spec_percent(c.system) + "% system, "@ + spec_percent(c.interrupt) + "% intr, "@
        + spec_percent(c.idle) + "% idle "@
}

/// Formats a sampled CPU load distribution as the snapshot's usage text.
pub fn cpu_usage_string(c: &CpuLoadSample) -> (r: String)
    ensures
        r@ == spec_cpu_usage(c@),
{
    let mut s = String::from_str("CPU load: ");
    let p_user = percent_to_string(c.user);
    s.append(p_user.as_str());
    s.append("% user, ");
    let p_nice = percent_to_string(c.nice);
    s.append(p_nice.as_str());
    s.append("% nice, ");
    let p_system = percent_to_string(c.system);
    s.append(p_system.as_str());
    s.append("% system, ");
    let p_interrupt = percent_to_string(c.interrupt);
    s.append(p_interrupt.as_str());
    s.append("% intr, ");
    let p_idle = percent_to_string(c.idle);
    s.append(p_idle.as_str());
    s.append("% idle ");
    s
}

/// The sentinel text standing in for the CPU breakdown when sampling failed.
pub open spec fn spec_error_sentinel() -> Seq<char> {
    "Error"@
}

/// A usage text never equals the sentinel: it begins with the fixed
/// "CPU load: " prefix and so is longer than "Error".
pub proof fn lemma_cpu_usage_not_error(c: CpuLoadSampleV)
    ensures
        spec_cpu_usage(c) != spec_error_sentinel(),
{
    reveal_strlit("CPU load: ");
    reveal_strlit("Error");
    assert(spec_cpu_usage(c).len() >= 10);
}

/// The fallback snapshot: zero load average, zero memory, sentinel text.
pub open spec fn spec_fallback_stats() -> StatsV {
    StatsV {
        loadavg: spec_zero_loadavg(),
        cpu_usage: spec_error_sentinel(),
        memory_usage: spec_zero_memory(),
    }
}

/// Builds the complete zero/error fallback snapshot.
pub fn fallback_stats() -> (r: Stats)
    ensures
        r@ == spec_fallback_stats(),
{
    Stats {
        loadavg: Loadavg::zeroed(),
        cpu_usage: String::from_str("Error"),
        memory_usage: MemoryWrapper::zeroed(),
    }
}

/// What a fully successful snapshot holds, given the readings.
pub open spec fn spec_full_stats(c: CpuLoadSampleV, load: Option<Loadavg>, m: MemorySnapshot) -> StatsV {
    StatsV {
        loadavg: match load {
            Option::Some(l) => l@,
            Option::None => spec_zero_loadavg(),
        },
        cpu_usage: spec_cpu_usage(c),
        memory_usage: MemoryWrapperV { memory_usage: m@ },
    }
}

/// Produces exactly one snapshot from the platform reader's outcomes.
///
/// CPU-sampling failure (either end of the window) is absorbed into the
/// fallback snapshot; a failed load-average lookup only zeroes that field;
/// a failed memory read after a good sample is the one error reported.
pub fn build_snapshot(cpu: CpuSampleOutcome, load: Option<Loadavg>, mem: Option<MemorySnapshot>) -> (r:
    Result<Stats, AcquisitionError>)
    ensures
        !(cpu is Sampled) ==> (r matches Ok(s) && s@ == spec_fallback_stats()),
        cpu is Sampled && mem is None ==> r == Result::<Stats, AcquisitionError>::Err(
            AcquisitionError::MemoryUnavailable,
        ),
        cpu matches CpuSampleOutcome::Sampled(c) ==> mem matches Some(m) ==> (r matches Ok(s)
            && s@ == spec_full_stats(c@, load, m)),
        (cpu is Sampled && mem is Some) ==> (r matches Ok(s) && s@.cpu_usage
            != spec_error_sentinel()),
{
    match cpu {
        CpuSampleOutcome::BeginFailed => Ok(fallback_stats()),
        CpuSampleOutcome::FinishFailed => Ok(fallback_stats()),
        CpuSampleOutcome::Sampled(c) => match mem {
            Option::None => Err(AcquisitionError::MemoryUnavailable),
            Option::Some(m) => {
                let loadavg = match load {
                    Option::Some(l) => l,
                    Option::None => Loadavg::zeroed(),
                };
                let cpu_usage = cpu_usage_string(&c);
                proof {
                    lemma_cpu_usage_not_error(c@);
                }
                Ok(Stats { loadavg, cpu_usage, memory_usage: MemoryWrapper { memory_usage: m } })
            },
        },
    }
}

/// Wraps a snapshot for the JSON route: the flag is false exactly when the
/// snapshot carries the error sentinel.
pub fn make_stats_response(data: Stats) -> (r: StatsResponse)
    ensures
        r.result <==> data@.cpu_usage != spec_error_sentinel(),
        r.data == data,
{
    let has_error = str_equal(data.cpu_usage.as_str(), "Error");
    StatsResponse { result: !has_error, data }
}

/// Character-for-character string comparison.
fn str_equal(a: &str, b: &str) -> (r: bool)
    ensures
        r <==> a@ == b@,
{
    let n = a.unicode_len();
    let m = b.unicode_len();
    if n != m {
        proof {
            assert(a@ != b@);
        }
        return false;
    }
    let mut i: usize = 0;
    while i < n
        invariant
            0 <= i <= n,
            n == a@.len(),
            n == b@.len(),
            forall|t: int| 0 <= t < i ==> a@[t] == b@[t],
        decreases n - i,
    {
        if a.get_char(i) != b.get_char(i) {
            proof {
                assert(a@ != b@);
            }
            return false;
        }
        i += 1;
    }
    proof {
        assert(a@ =~= b@);
    }
    true
}

} // verus!
