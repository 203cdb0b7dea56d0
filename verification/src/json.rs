//! Rendering a snapshot as the JSON the stats route serves.
//!
//! The shape is fixed: `{"result":B,"data":{"loadavg":{"one":L,"five":L,
//! "fifteen":L},"cpu_usage":"...","memory_usage":{"memory_usage":{"total":N,
//! "free":N,"platform_memory":{...}}}}}`, load averages with a decimal
//! point, byte counts as plain integers.

use vstd::prelude::*;
use vstd::string::StringExecFns;
use crate::numfmt::{spec_digits, spec_hundredths, u64_to_string, hundredths_to_string};
use crate::stats::{
    Loadavg, LoadavgV, MemorySnapshot, MemorySnapshotV, MemoryWrapper, MemoryWrapperV,
    PlatformMemory, PlatformMemoryV, Stats, StatsResponse, StatsResponseV, StatsV,
};

verus! {

/// A string is embedded in JSON verbatim; that is faithful only when it
/// holds no quote and no backslash. Every string the snapshot builder
/// produces satisfies this.
pub open spec fn json_string_safe(s: Seq<char>) -> bool {
    forall|i: int| 0 <= i < s.len() ==> s[i] != '"' && s[i] != '\\'
}

pub proof fn lemma_safe_concat(a: Seq<char>, b: Seq<char>)
    requires
        json_string_safe(a),
        json_string_safe(b),
    ensures
        json_string_safe(a + b),
{
    assert forall|i: int| 0 <= i < (a + b).len() implies (a + b)[i] != '"' && (a + b)[i]
        != '\\' by {
        if i < a.len() {
            assert((a + b)[i] == a[i]);
        } else {
            assert((a + b)[i] == b[i - a.len()]);
        }
    }
}

pub proof fn lemma_digits_safe(n: nat)
    ensures
        json_string_safe(spec_digits(n)),
{
    crate::numfmt::lemma_spec_digits_all_digits(n);
    assert forall|i: int| 0 <= i < spec_digits(n).len() implies spec_digits(n)[i] != '"'
        && spec_digits(n)[i] != '\\' by {
        assert(crate::numfmt::is_digit_char(spec_digits(n)[i]));
    }
}

pub proof fn lemma_percent_safe(bp: nat)
    ensures
        json_string_safe(crate::numfmt::spec_percent(bp)),
{
    lemma_digits_safe(bp / 100);
    if bp % 100 == 0 {
    } else if bp % 10 == 0 {
        let tail = seq!['.', crate::numfmt::digit_char((bp / 10) % 10)];
        crate::numfmt::lemma_digit_char_val((bp / 10) % 10);
        assert(json_string_safe(tail));
        lemma_safe_concat(spec_digits(bp / 100), tail);
    } else {
        let tail = seq![
            '.',
            crate::numfmt::digit_char((bp / 10) % 10),
            crate::numfmt::digit_char(bp % 10),
        ];
        crate::numfmt::lemma_digit_char_val((bp / 10) % 10);
        crate::numfmt::lemma_digit_char_val(bp % 10);
        assert(json_string_safe(tail));
        lemma_safe_concat(spec_digits(bp / 100), tail);
    }
}

/// Law: the usage text of any successful sample, and the error sentinel,
/// embed faithfully in JSON: neither holds a quote or a backslash. With
/// the round-trip laws this extends them to every snapshot the builder
/// can produce.
pub proof fn lemma_snapshot_text_json_safe(c: crate::stats::CpuLoadSampleV)
    ensures
        json_string_safe(crate::snapshot::spec_cpu_usage(c)),
        json_string_safe(crate::snapshot::spec_error_sentinel()),
{
    reveal_strlit("CPU load: ");
    reveal_strlit("% user, ");
    reveal_strlit("% nice, ");
    reveal_strlit("% system, ");
    reveal_strlit("% intr, ");
    reveal_strlit("% idle ");
    reveal_strlit("Error");
    assert(json_string_safe("CPU load: "@));
    assert(json_string_safe("% user, "@));
    assert(json_string_safe("% nice, "@));
    assert(json_string_safe("% system, "@));
    assert(json_string_safe("% intr, "@));
    assert(json_string_safe("% idle "@));
    assert(json_string_safe("Error"@));
    lemma_percent_safe(c.user);
    lemma_percent_safe(c.nice);
    lemma_percent_safe(c.system);
    lemma_percent_safe(c.interrupt);
    lemma_percent_safe(c.idle);
    lemma_safe_concat("CPU load: "@, crate::numfmt::spec_percent(c.user));
    lemma_safe_concat("CPU load: "@ + crate::numfmt::spec_percent(c.user), "% user, "@);
    let s1 = "CPU load: "@ + crate::numfmt::spec_percent(c.user) + "% user, "@;
    lemma_safe_concat(s1, crate::numfmt::spec_percent(c.nice));
    lemma_safe_concat(s1 + crate::numfmt::spec_percent(c.nice), "% nice, "@);
    let s2 = s1 + crate::numfmt::spec_percent(c.nice) + "% nice, "@;
    lemma_safe_concat(s2, crate::numfmt::spec_percent(c.system));
    lemma_safe_concat(s2 + crate::numfmt::spec_percent(c.system), "% system, "@);
    let s3 = s2 + crate::numfmt::spec_percent(c.system) + "% system, "@;
    lemma_safe_concat(s3, crate::numfmt::spec_percent(c.interrupt));
    lemma_safe_concat(s3 + crate::numfmt::spec_percent(c.interrupt), "% intr, "@);
    let s4 = s3 + crate::numfmt::spec_percent(c.interrupt) + "% intr, "@;
    lemma_safe_concat(s4, crate::numfmt::spec_percent(c.idle));
    lemma_safe_concat(s4 + crate::numfmt::spec_percent(c.idle), "% idle "@);
}

pub open spec fn spec_json_loadavg(l: LoadavgV) -> Seq<char> {
    "{\"one\":"@ + spec_hundredths(l.one) + ",\"five\":"@ + spec_hundredths(l.five)
        + ",\"fifteen\":"@ + spec_hundredths(l.fifteen) + "}"@
}

pub open spec fn spec_json_platform_memory(p: PlatformMemoryV) -> Seq<char> {
    "{\"total\":"@ + spec_digits(p.total) + ",\"active\":"@ + spec_digits(p.active)
        + ",\"inactive\":"@ + spec_digits(p.inactive) + ",\"wired\":"@ + spec_digits(p.wired)
        + ",\"free\":"@ + spec_digits(p.free) + ",\"purgeable\":"@ + spec_digits(p.purgeable)
        + ",\"speculative\":"@ + spec_digits(p.speculative) + ",\"compressor\":"@
        + spec_digits(p.compressor) + ",\"throttled\":"@ + spec_digits(p.throttled)
        + ",\"external\":"@ + spec_digits(p.external) + ",\"internal\":"@
        + spec_digits(p.internal) + ",\"uncompressed_in_compressor\":"@
        + spec_digits(p.uncompressed_in_compressor) + "}"@
}

pub open spec fn spec_json_memory(m: MemorySnapshotV) -> Seq<char> {
    "{\"total\":"@ + spec_digits(m.total) + ",\"free\":"@ + spec_digits(m.free)
        + ",\"platform_memory\":"@ + spec_json_platform_memory(m.platform_memory) + "}"@
}

pub open spec fn spec_json_memory_wrapper(w: MemoryWrapperV) -> Seq<char> {
    "{\"memory_usage\":"@ + spec_json_memory(w.memory_usage) + "}"@
}

pub open spec fn spec_json_stats(s: StatsV) -> Seq<char> {
    "{\"loadavg\":"@ + spec_json_loadavg(s.loadavg) + ",\"cpu_usage\":\""@ + s.cpu_usage
        + "\",\"memory_usage\":"@ + spec_json_memory_wrapper(s.memory_usage) + "}"@
}

pub open spec fn spec_json_response(v: StatsResponseV) -> Seq<char> {
    "{\"result\":"@ + (if v.result {
        "true"@
    } else {
        "false"@
    }) + ",\"data\":"@ + spec_json_stats(v.data) + "}"@
}

pub fn loadavg_to_json(l: &Loadavg) -> (r: String)
    ensures
        r@ == spec_json_loadavg(l@),
{
    let mut s = String::from_str("{\"one\":");
    let h_one = hundredths_to_string(l.one);
    s.append(h_one.as_str());
    s.append(",\"five\":");
    let h_five = hundredths_to_string(l.five);
    s.append(h_five.as_str());
    s.append(",\"fifteen\":");
    let h_fifteen = hundredths_to_string(l.fifteen);
    s.append(h_fifteen.as_str());
    s.append("}");
    s
}

pub fn platform_memory_to_json(p: &PlatformMemory) -> (r: String)
    ensures
        r@ == spec_json_platform_memory(p@),
{
    let mut s = String::from_str("{\"total\":");
    let d_total = u64_to_string(p.total);
    s.append(d_total.as_str());
    s.append(",\"active\":");
    let d_active = u64_to_string(p.active);
    s.append(d_active.as_str());
    s.append(",\"inactive\":");
    let d_inactive = u64_to_string(p.inactive);
    s.append(d_inactive.as_str());
    s.append(",\"wired\":");
    let d_wired = u64_to_string(p.wired);
    s.append(d_wired.as_str());
    s.append(",\"free\":");
    let d_free = u64_to_string(p.free);
    s.append(d_free.as_str());
    s.append(",\"purgeable\":");
    let d_purgeable = u64_to_string(p.purgeable);
    s.append(d_purgeable.as_str());
    s.append(",\"speculative\":");
    let d_speculative = u64_to_string(p.speculative);
    s.append(d_speculative.as_str());
    s.append(",\"compressor\":");
    let d_compressor = u64_to_string(p.compressor);
    s.append(d_compressor.as_str());
    s.append(",\"throttled\":");
    let d_throttled = u64_to_string(p.throttled);
    s.append(d_throttled.as_str());
    s.append(",\"external\":");
    let d_external = u64_to_string(p.external);
    s.append(d_external.as_str());
    s.append(",\"internal\":");
    let d_internal = u64_to_string(p.internal);
    s.append(d_internal.as_str());
    s.append(",\"uncompressed_in_compressor\":");
    let d_uic = u64_to_string(p.uncompressed_in_compressor);
    s.append(d_uic.as_str());
    s.append("}");
    s
}

pub fn memory_to_json(m: &MemorySnapshot) -> (r: String)
    ensures
        r@ == spec_json_memory(m@),
{
    let mut s = String::from_str("{\"total\":");
    let d_total = u64_to_string(m.total);
    s.append(d_total.as_str());
    s.append(",\"free\":");
    let d_free = u64_to_string(m.free);
    s.append(d_free.as_str());
    s.append(",\"platform_memory\":");
    let pm = platform_memory_to_json(&m.platform_memory);
    s.append(pm.as_str());
    s.append("}");
    s
}

pub fn memory_wrapper_to_json(w: &MemoryWrapper) -> (r: String)
    ensures
        r@ == spec_json_memory_wrapper(w@),
{
    let mut s = String::from_str("{\"memory_usage\":");
    let mem = memory_to_json(&w.memory_usage);
    s.append(mem.as_str());
    s.append("}");
    s
}

/// Renders one snapshot as the `data` object of the stats route.
pub fn stats_to_json(st: &Stats) -> (r: String)
    ensures
        r@ == spec_json_stats(st@),
{
    let mut s = String::from_str("{\"loadavg\":");
    let la = loadavg_to_json(&st.loadavg);
    s.append(la.as_str());
    s.append(",\"cpu_usage\":\"");
    s.append(st.cpu_usage.as_str());
    s.append("\",\"memory_usage\":");
    let mw = memory_wrapper_to_json(&st.memory_usage);
    s.append(mw.as_str());
    s.append("}");
    s
}

/// Renders the whole body of the JSON route: the success flag and the data.
pub fn response_to_json(v: &StatsResponse) -> (r: String)
    ensures
        r@ == spec_json_response(v@),
{
    let mut s = String::from_str("{\"result\":");
    if v.result {
        s.append("true");
    } else {
        s.append("false");
    }
    s.append(",\"data\":");
    let st = stats_to_json(&v.data);
    s.append(st.as_str());
    s.append("}");
    s
}

} // verus!
