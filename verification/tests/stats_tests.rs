use hoststats::json::{response_to_json, stats_to_json};
use hoststats::numfmt::{hundredths_to_string, percent_to_string, u64_to_string};
use hoststats::parse::{parse_response, parse_stats};
use hoststats::snapshot::{build_snapshot, cpu_usage_string, fallback_stats, make_stats_response};
use hoststats::stats::{
    AcquisitionError, CpuLoadSample, CpuSampleOutcome, Loadavg, MemorySnapshot, MemoryWrapper,
    PlatformMemory, Stats, StatsResponse,
};

fn sample_half_user() -> CpuLoadSample {
    // user 50%, nice 0%, system 30%, interrupt 0%, idle 20%, in hundredths
    // of a percent.
    CpuLoadSample { user: 5000, nice: 0, system: 3000, interrupt: 0, idle: 2000 }
}

fn some_memory() -> MemorySnapshot {
    MemorySnapshot {
        total: 17179869184,
        free: 4294967296,
        platform_memory: PlatformMemory {
            total: 17179869184,
            active: 123,
            inactive: 456,
            wired: 789,
            free: 4294967296,
            purgeable: 1,
            speculative: 2,
            compressor: 3,
            throttled: 0,
            external: 5,
            internal: 6,
            uncompressed_in_compressor: 7,
        },
    }
}

fn zero_memory() -> MemoryWrapper {
    MemoryWrapper {
        memory_usage: MemorySnapshot {
            total: 0,
            free: 0,
            platform_memory: PlatformMemory {
                total: 0,
                active: 0,
                inactive: 0,
                wired: 0,
                free: 0,
                purgeable: 0,
                speculative: 0,
                compressor: 0,
                throttled: 0,
                external: 0,
                internal: 0,
                uncompressed_in_compressor: 0,
            },
        },
    }
}

#[test]
fn test_snapshot_scenario_half_user() {
    let load = Loadavg { one: 100, five: 80, fifteen: 50 };
    let r = build_snapshot(
        CpuSampleOutcome::Sampled(sample_half_user()),
        Some(load),
        Some(some_memory()),
    );
    let stats = r.expect("a successful sample must give a snapshot");
    assert!(stats
        .cpu_usage
        .contains("50% user, 0% nice, 30% system, 0% intr, 20% idle"));
    assert_eq!(
        stats.cpu_usage,
        "CPU load: 50% user, 0% nice, 30% system, 0% intr, 20% idle "
    );
    assert_eq!(stats.loadavg, Loadavg { one: 100, five: 80, fifteen: 50 });
    assert_eq!(stats.memory_usage.memory_usage, some_memory());
}

#[test]
fn test_begin_failure_gives_full_fallback() {
    let r = build_snapshot(CpuSampleOutcome::BeginFailed, None, None);
    let stats = r.expect("cpu failure is absorbed, not reported");
    assert_eq!(stats.cpu_usage, "Error");
    assert_eq!(stats.loadavg, Loadavg { one: 0, five: 0, fifteen: 0 });
    assert_eq!(stats.memory_usage, zero_memory());
    assert_eq!(stats, fallback_stats());

    let resp = make_stats_response(stats);
    assert!(!resp.result);
    let body = response_to_json(&resp);
    assert!(body.contains("\"result\":false"));
}

#[test]
fn test_finish_failure_gives_full_fallback() {
    let r = build_snapshot(CpuSampleOutcome::FinishFailed, None, None);
    let stats = r.expect("cpu failure is absorbed, not reported");
    assert_eq!(stats, fallback_stats());
    assert_eq!(stats.cpu_usage, "Error");
}

#[test]
fn test_loadavg_failure_degrades_partially() {
    let r = build_snapshot(
        CpuSampleOutcome::Sampled(sample_half_user()),
        None,
        Some(some_memory()),
    );
    let stats = r.expect("load-average failure is absorbed");
    assert_ne!(stats.cpu_usage, "Error");
    assert!(stats.cpu_usage.contains("50% user"));
    assert_eq!(stats.loadavg, Loadavg { one: 0, five: 0, fifteen: 0 });
    assert_eq!(stats.memory_usage.memory_usage, some_memory());
}

#[test]
fn test_memory_failure_is_reported() {
    let load = Loadavg { one: 100, five: 80, fifteen: 50 };
    let r = build_snapshot(CpuSampleOutcome::Sampled(sample_half_user()), Some(load), None);
    assert_eq!(r, Err(AcquisitionError::MemoryUnavailable));
}

#[test]
fn test_response_flag_iff_error_sentinel() {
    let fallback = fallback_stats();
    let resp = make_stats_response(fallback);
    assert!(!resp.result);

    let good = Stats {
        loadavg: Loadavg { one: 1, five: 2, fifteen: 3 },
        cpu_usage: cpu_usage_string(&sample_half_user()),
        memory_usage: zero_memory(),
    };
    let resp2 = make_stats_response(good);
    assert!(resp2.result);
}

#[test]
fn test_cpu_categories_sum_to_hundred_percent() {
    let c = sample_half_user();
    let sum = c.user + c.nice + c.system + c.interrupt + c.idle;
    // The five categories cover the whole sampling window: 100% within
    // the 1% rounding tolerance, in hundredths of a percent.
    assert!(9900 <= sum && sum <= 10100);
    assert_eq!(sum, 10000);
}

#[test]
fn test_percent_formatting() {
    assert_eq!(percent_to_string(0), "0");
    assert_eq!(percent_to_string(5), "0.05");
    assert_eq!(percent_to_string(50), "0.5");
    assert_eq!(percent_to_string(70), "0.7");
    assert_eq!(percent_to_string(3333), "33.33");
    assert_eq!(percent_to_string(5000), "50");
    assert_eq!(percent_to_string(10000), "100");
}

#[test]
fn test_hundredths_formatting() {
    assert_eq!(hundredths_to_string(0), "0.0");
    assert_eq!(hundredths_to_string(80), "0.8");
    assert_eq!(hundredths_to_string(100), "1.0");
    assert_eq!(hundredths_to_string(123), "1.23");
    assert_eq!(hundredths_to_string(12345), "123.45");
}

#[test]
fn test_u64_formatting() {
    assert_eq!(u64_to_string(0), "0");
    assert_eq!(u64_to_string(42), "42");
    assert_eq!(u64_to_string(u64::MAX), "18446744073709551615");
}

#[test]
fn test_stats_json_shape() {
    let stats = Stats {
        loadavg: Loadavg { one: 100, five: 80, fifteen: 50 },
        cpu_usage: "Error".to_string(),
        memory_usage: zero_memory(),
    };
    let body = stats_to_json(&stats);
    let expected = "{\"loadavg\":{\"one\":1.0,\"five\":0.8,\"fifteen\":0.5},\"cpu_usage\":\"Error\",\"memory_usage\":{\"memory_usage\":{\"total\":0,\"free\":0,\"platform_memory\":{\"total\":0,\"active\":0,\"inactive\":0,\"wired\":0,\"free\":0,\"purgeable\":0,\"speculative\":0,\"compressor\":0,\"throttled\":0,\"external\":0,\"internal\":0,\"uncompressed_in_compressor\":0}}}}";
    assert_eq!(body, expected);
}

#[test]
fn test_stats_json_round_trip() {
    let stats = build_snapshot(
        CpuSampleOutcome::Sampled(sample_half_user()),
        Some(Loadavg { one: 107, five: 83, fifteen: 51 }),
        Some(some_memory()),
    )
    .expect("snapshot");
    let body = stats_to_json(&stats);
    let parsed = parse_stats(body.as_str()).expect("own rendering must read back");
    assert_eq!(parsed, stats);
}

#[test]
fn test_fallback_json_round_trip() {
    let stats = fallback_stats();
    let body = stats_to_json(&stats);
    let parsed = parse_stats(body.as_str()).expect("own rendering must read back");
    assert_eq!(parsed, stats);
}

#[test]
fn test_response_json_round_trip() {
    let stats = build_snapshot(
        CpuSampleOutcome::Sampled(sample_half_user()),
        Some(Loadavg { one: 100, five: 80, fifteen: 50 }),
        Some(some_memory()),
    )
    .expect("snapshot");
    let resp = make_stats_response(stats);
    assert!(resp.result);
    let body = response_to_json(&resp);
    let parsed = parse_response(body.as_str()).expect("own rendering must read back");
    assert_eq!(parsed, resp);
}

#[test]
fn test_parse_rejects_other_text() {
    assert_eq!(parse_stats("nonsense"), None);
    assert_eq!(parse_stats(""), None);
    assert_eq!(parse_response("{\"result\":maybe}"), None);
    // A correct body with trailing text is not a snapshot.
    let stats = fallback_stats();
    let mut body = stats_to_json(&stats);
    body.push(' ');
    assert_eq!(parse_stats(body.as_str()), None);
}

#[test]
fn test_parse_exact_text() {
    let body = "{\"loadavg\":{\"one\":1.5,\"five\":0.75,\"fifteen\":0.5},\"cpu_usage\":\"Error\",\"memory_usage\":{\"memory_usage\":{\"total\":10,\"free\":5,\"platform_memory\":{\"total\":10,\"active\":1,\"inactive\":2,\"wired\":3,\"free\":5,\"purgeable\":0,\"speculative\":0,\"compressor\":0,\"throttled\":0,\"external\":0,\"internal\":0,\"uncompressed_in_compressor\":4}}}}";
    let parsed = parse_stats(body).expect("well-formed body");
    assert_eq!(parsed.loadavg, Loadavg { one: 150, five: 75, fifteen: 50 });
    assert_eq!(parsed.cpu_usage, "Error");
    assert_eq!(parsed.memory_usage.memory_usage.total, 10);
    assert_eq!(parsed.memory_usage.memory_usage.platform_memory.uncompressed_in_compressor, 4);
}

#[test]
fn test_response_struct_shape() {
    let resp = StatsResponse { result: true, data: fallback_stats() };
    assert!(resp.result);
    assert_eq!(resp.data.cpu_usage, "Error");
}
