//! Reading a snapshot back out of its JSON rendering.
//!
//! The readers consume exactly the shape `json` produces: each one takes
//! the remaining text and yields the value read and the text left over.
//! The round-trip laws at the bottom state that rendering then reading
//! restores every field.

use vstd::prelude::*;
use vstd::arithmetic::div_mod::lemma_mod_breakdown;
use crate::numfmt::{
    digit_char, digit_val, is_digit_char, spec_digits, spec_hundredths,
    lemma_digit_char_val, lemma_spec_digits_all_digits, lemma_spec_digits_len,
};
use crate::stats::{
    LoadavgV, MemorySnapshotV, MemoryWrapperV, PlatformMemoryV, StatsResponseV, StatsV,
};
use crate::json::{
    json_string_safe, spec_json_loadavg, spec_json_memory, spec_json_memory_wrapper,
    spec_json_platform_memory, spec_json_response, spec_json_stats,
};

verus! {

/// Strips `lit` off the front of `s`.
pub open spec fn p_lit(s: Seq<char>, lit: Seq<char>) -> Option<Seq<char>> {
    if lit.len() <= s.len() && s.take(lit.len() as int) == lit {
        Some(s.skip(lit.len() as int))
    } else {
        None
    }
}

/// How many decimal digits stand at the front of `s`.
pub open spec fn count_digits(s: Seq<char>) -> nat
    decreases s.len(),
{
    if s.len() == 0 || !is_digit_char(s[0]) {
        0
    } else {
        (1 + count_digits(s.skip(1))) as nat
    }
}

/// The value of a digit run, folded onto an accumulator from the left.
pub open spec fn fold_digits(s: Seq<char>, acc: nat) -> nat
    decreases s.len(),
{
    if s.len() == 0 {
        acc
    } else {
        fold_digits(s.skip(1), acc * 10 + digit_val(s[0]))
    }
}

/// Reads a decimal integer that fits in a `u64`.
pub open spec fn p_u64(s: Seq<char>) -> Option<(nat, Seq<char>)> {
    let k = count_digits(s);
    if k == 0 {
        None
    } else {
        let v = fold_digits(s.take(k as int), 0);
        if v > u64::MAX {
            None
        } else {
            Some((v, s.skip(k as int)))
        }
    }
}

/// Reads a number with a decimal point and one or two fraction digits,
/// as a count of hundredths.
pub open spec fn p_hundredths(s: Seq<char>) -> Option<(nat, Seq<char>)> {
    match p_u64(s) {
        None => None,
        Some((ip, r)) => if r.len() > 0 && r[0] == '.' {
            let r2 = r.skip(1);
            let k = count_digits(r2);
            if k == 1 {
                let v = ip * 100 + digit_val(r2[0]) * 10;
                if v > u64::MAX {
                    None
                } else {
                    Some((v, r2.skip(1)))
                }
            } else if k == 2 {
                let v = ip * 100 + digit_val(r2[0]) * 10 + digit_val(r2[1]);
                if v > u64::MAX {
                    None
                } else {
                    Some((v, r2.skip(2)))
                }
            } else {
                None
            }
        } else {
            None
        },
    }
}

/// Reads `true` or `false`.
pub open spec fn p_bool(s: Seq<char>) -> Option<(bool, Seq<char>)> {
    match p_lit(s, "true"@) {
        Some(r) => Some((true, r)),
        None => match p_lit(s, "false"@) {
            Some(r) => Some((false, r)),
            None => None,
        },
    }
}

/// How many characters stand before the first quote.
pub open spec fn count_to_quote(s: Seq<char>) -> nat
    decreases s.len(),
{
    if s.len() == 0 || s[0] == '"' {
        0
    } else {
        (1 + count_to_quote(s.skip(1))) as nat
    }
}

/// Reads a string body up to and over its closing quote.
pub open spec fn p_string_body(s: Seq<char>) -> Option<(Seq<char>, Seq<char>)> {
    let k = count_to_quote(s);
    if k < s.len() {
        Some((s.take(k as int), s.skip(k as int + 1)))
    } else {
        None
    }
}

pub proof fn lemma_assoc(a: Seq<char>, b: Seq<char>, c: Seq<char>)
    ensures
        (a + b) + c == a + (b + c),
{
    assert((a + b) + c =~= a + (b + c));
}

pub proof fn lemma_p_lit(lit: Seq<char>, rest: Seq<char>)
    ensures
        p_lit(lit + rest, lit) == Some(rest),
{
    let s = lit + rest;
    assert(s.take(lit.len() as int) =~= lit);
    assert(s.skip(lit.len() as int) =~= rest);
}

pub proof fn lemma_count_digits_concat(a: Seq<char>, b: Seq<char>)
    requires
        forall|i: int| 0 <= i < a.len() ==> is_digit_char(#[trigger] a[i]),
        b.len() == 0 || !is_digit_char(b[0]),
    ensures
        count_digits(a + b) == a.len(),
    decreases a.len(),
{
    if a.len() == 0 {
        assert(a + b =~= b);
    } else {
        assert((a + b)[0] == a[0]);
        assert((a + b).skip(1) =~= a.skip(1) + b);
        lemma_count_digits_concat(a.skip(1), b);
    }
}

pub proof fn lemma_fold_concat(a: Seq<char>, b: Seq<char>, acc: nat)
    ensures
        fold_digits(a + b, acc) == fold_digits(b, fold_digits(a, acc)),
    decreases a.len(),
{
    if a.len() == 0 {
        assert(a + b =~= b);
    } else {
        assert((a + b)[0] == a[0]);
        assert((a + b).skip(1) =~= a.skip(1) + b);
        lemma_fold_concat(a.skip(1), b, acc * 10 + digit_val(a[0]));
    }
}

pub open spec fn pow10(k: nat) -> nat
    decreases k,
{
    if k == 0 {
        1
    } else {
        10 * pow10((k - 1) as nat)
    }
}

pub proof fn lemma_fold_single(c: char, acc: nat)
    ensures
        fold_digits(seq![c], acc) == acc * 10 + digit_val(c),
{
    assert(seq![c].skip(1) =~= Seq::<char>::empty());
    assert(fold_digits(Seq::<char>::empty(), acc * 10 + digit_val(c)) == acc * 10 + digit_val(
        c,
    ));
}

pub proof fn lemma_fold_spec_digits(n: nat, acc: nat)
    ensures
        fold_digits(spec_digits(n), acc) == acc * pow10(spec_digits(n).len()) + n,
    decreases n,
{
    if n < 10 {
        lemma_digit_char_val(n);
        assert(spec_digits(n) == seq![digit_char(n)]);
        lemma_fold_single(digit_char(n), acc);
        assert(fold_digits(spec_digits(n), acc) == acc * 10 + n);
        assert(pow10(0) == 1);
        assert(pow10(1) == 10);
    } else {
        let a = spec_digits(n / 10);
        let d = seq![digit_char(n % 10)];
        let la = a.len();
        lemma_digit_char_val(n % 10);
        lemma_fold_concat(a, d, acc);
        lemma_fold_spec_digits(n / 10, acc);
        lemma_fold_single(digit_char(n % 10), fold_digits(a, acc));
        assert(fold_digits(d, fold_digits(a, acc)) == fold_digits(a, acc) * 10 + n % 10);
        assert(fold_digits(a, acc) == acc * pow10(la) + n / 10);
        assert((acc * pow10(la) + n / 10) * 10 == acc * pow10(la) * 10 + (n / 10) * 10);
        assert(acc * pow10(la) * 10 == acc * (pow10(la) * 10)) by (nonlinear_arith);
        assert(pow10(la) * 10 == pow10((la + 1) as nat));
        assert(spec_digits(n).len() == la + 1);
        assert((n / 10) * 10 + n % 10 == n);
    }
}

/// Folding more digits never shrinks the accumulator.
pub proof fn lemma_fold_ge(s: Seq<char>, acc: nat)
    ensures
        fold_digits(s, acc) >= acc,
    decreases s.len(),
{
    if s.len() > 0 {
        lemma_fold_ge(s.skip(1), acc * 10 + digit_val(s[0]));
    }
}

/// Reading a rendered integer restores it, whatever follows, as long as
/// what follows does not begin with another digit.
pub proof fn lemma_p_u64_round(n: nat, rest: Seq<char>)
    requires
        n <= u64::MAX,
        rest.len() == 0 || !is_digit_char(rest[0]),
    ensures
        p_u64(spec_digits(n) + rest) == Some((n, rest)),
{
    let a = spec_digits(n);
    let s = a + rest;
    lemma_spec_digits_all_digits(n);
    lemma_spec_digits_len(n);
    lemma_count_digits_concat(a, rest);
    assert(count_digits(s) == a.len());
    assert(s.take(a.len() as int) =~= a);
    lemma_fold_spec_digits(n, 0);
    assert(fold_digits(a, 0) == n);
    assert(s.skip(a.len() as int) =~= rest);
}

/// Reading a rendered hundredths value restores it.
pub proof fn lemma_p_hundredths_round(v: nat, rest: Seq<char>)
    requires
        v <= u64::MAX,
        rest.len() == 0 || !is_digit_char(rest[0]),
    ensures
        p_hundredths(spec_hundredths(v) + rest) == Some((v, rest)),
{
    let ip = v / 100;
    let d1 = digit_char((v / 10) % 10);
    let d2 = digit_char(v % 10);
    lemma_digit_char_val((v / 10) % 10);
    lemma_digit_char_val(v % 10);
    lemma_mod_breakdown(v as int, 10, 10);
    assert(v % 100 == ((v / 10) % 10) * 10 + v % 10);
    if v % 10 == 0 {
        let tail = seq!['.', d1] + rest;
        assert(spec_hundredths(v) + rest =~= spec_digits(ip) + tail);
        assert(!is_digit_char('.'));
        lemma_p_u64_round(ip, tail);
        let r = tail.skip(1);
        assert(r =~= seq![d1] + rest);
        assert(r[0] == d1);
        assert(is_digit_char(d1));
        if rest.len() == 0 {
            assert(r.skip(1) =~= rest);
            assert(count_digits(r) == 1) by {
                lemma_count_digits_concat(seq![d1], rest);
            }
        } else {
            assert(r.skip(1) =~= rest);
            assert(count_digits(r) == 1) by {
                lemma_count_digits_concat(seq![d1], rest);
            }
        }
        assert(ip * 100 + digit_val(r[0]) * 10 == v);
    } else {
        let tail = seq!['.', d1, d2] + rest;
        assert(spec_hundredths(v) + rest =~= spec_digits(ip) + tail);
        assert(!is_digit_char('.'));
        lemma_p_u64_round(ip, tail);
        let r = tail.skip(1);
        assert(r =~= seq![d1, d2] + rest);
        assert(r[0] == d1);
        assert(r[1] == d2);
        assert(count_digits(r) == 2) by {
            lemma_count_digits_concat(seq![d1, d2], rest);
        }
        assert(r.skip(2) =~= rest);
        assert(ip * 100 + digit_val(r[0]) * 10 + digit_val(r[1]) == v);
    }
}

pub proof fn lemma_count_to_quote_concat(a: Seq<char>, b: Seq<char>)
    requires
        forall|i: int| 0 <= i < a.len() ==> #[trigger] a[i] != '"',
        b.len() > 0 && b[0] == '"',
    ensures
        count_to_quote(a + b) == a.len(),
    decreases a.len(),
{
    if a.len() == 0 {
        assert(a + b =~= b);
    } else {
        assert((a + b)[0] == a[0]);
        assert((a + b).skip(1) =~= a.skip(1) + b);
        lemma_count_to_quote_concat(a.skip(1), b);
    }
}

/// Reading a rendered string body restores it when it holds no quote.
pub proof fn lemma_p_string_body_round(content: Seq<char>, rest: Seq<char>)
    requires
        forall|i: int| 0 <= i < content.len() ==> #[trigger] content[i] != '"',
    ensures
        p_string_body(content + seq!['"'] + rest) == Some((content, rest)),
{
    let s = content + seq!['"'] + rest;
    assert(s =~= content + (seq!['"'] + rest));
    lemma_count_to_quote_concat(content, seq!['"'] + rest);
    assert(count_to_quote(s) == content.len());
    assert(s.take(content.len() as int) =~= content);
    assert(s.skip(content.len() as int + 1) =~= rest);
}

/// A key (or other fixed text) followed by an integer.
pub open spec fn p_u64_field(s: Seq<char>, key: Seq<char>) -> Option<(nat, Seq<char>)> {
    match p_lit(s, key) {
        None => None,
        Some(r) => p_u64(r),
    }
}

/// A key followed by a number in hundredths.
pub open spec fn p_hundredths_field(s: Seq<char>, key: Seq<char>) -> Option<(nat, Seq<char>)> {
    match p_lit(s, key) {
        None => None,
        Some(r) => p_hundredths(r),
    }
}

pub proof fn lemma_u64_field_round(key: Seq<char>, v: nat, tail: Seq<char>)
    requires
        v <= u64::MAX,
        tail.len() == 0 || !is_digit_char(tail[0]),
    ensures
        p_u64_field(key + (spec_digits(v) + tail), key) == Some((v, tail)),
{
    lemma_p_lit(key, spec_digits(v) + tail);
    lemma_p_u64_round(v, tail);
}

pub proof fn lemma_hundredths_field_round(key: Seq<char>, v: nat, tail: Seq<char>)
    requires
        v <= u64::MAX,
        tail.len() == 0 || !is_digit_char(tail[0]),
    ensures
        p_hundredths_field(key + (spec_hundredths(v) + tail), key) == Some((v, tail)),
{
    lemma_p_lit(key, spec_hundredths(v) + tail);
    lemma_p_hundredths_round(v, tail);
}

/// Reading a rendered boolean restores it.
pub proof fn lemma_p_bool_round(b: bool, rest: Seq<char>)
    ensures
        p_bool((if b { "true"@ } else { "false"@ }) + rest) == Some((b, rest)),
{
    reveal_strlit("true");
    reveal_strlit("false");
    if b {
        lemma_p_lit("true"@, rest);
    } else {
        let s = "false"@ + rest;
        assert(p_lit(s, "true"@) is None) by {
            if "true"@.len() <= s.len() {
                assert(s.take("true"@.len() as int)[0] == 'f');
            }
        }
        lemma_p_lit("false"@, rest);
    }
}

/// Reads the load-average object.
pub open spec fn p_loadavg(s: Seq<char>) -> Option<(LoadavgV, Seq<char>)> {
    match p_hundredths_field(s, "{\"one\":"@) {
        None => None,
        Some((one, r1)) => match p_hundredths_field(r1, ",\"five\":"@) {
            None => None,
            Some((five, r2)) => match p_hundredths_field(r2, ",\"fifteen\":"@) {
                None => None,
                Some((fifteen, r3)) => match p_lit(r3, "}"@) {
                    None => None,
                    Some(r4) => Some((LoadavgV { one, five, fifteen }, r4)),
                },
            },
        },
    }
}

/// Reads the platform memory sub-breakdown object.
pub open spec fn p_platform_memory(s: Seq<char>) -> Option<(PlatformMemoryV, Seq<char>)> {
    match p_u64_field(s, "{\"total\":"@) {
        None => None,
        Some((total, r1)) => match p_u64_field(r1, ",\"active\":"@) {
            None => None,
            Some((active, r2)) => match p_u64_field(r2, ",\"inactive\":"@) {
                None => None,
                Some((inactive, r3)) => match p_u64_field(r3, ",\"wired\":"@) {
                    None => None,
                    Some((wired, r4)) => match p_u64_field(r4, ",\"free\":"@) {
                        None => None,
                        Some((free, r5)) => match p_u64_field(r5, ",\"purgeable\":"@) {
                            None => None,
                            Some((purgeable, r6)) => match p_u64_field(r6, ",\"speculative\":"@) {
                                None => None,
                                Some((speculative, r7)) => match p_u64_field(
                                    r7,
                                    ",\"compressor\":"@,
                                ) {
                                    None => None,
                                    Some((compressor, r8)) => match p_u64_field(
                                        r8,
                                        ",\"throttled\":"@,
                                    ) {
                                        None => None,
                                        Some((throttled, r9)) => match p_u64_field(
                                            r9,
                                            ",\"external\":"@,
                                        ) {
                                            None => None,
                                            Some((external, r10)) => match p_u64_field(
                                                r10,
                                                ",\"internal\":"@,
                                            ) {
                                                None => None,
                                                Some((internal, r11)) => match p_u64_field(
                                                    r11,
                                                    ",\"uncompressed_in_compressor\":"@,
                                                ) {
                                                    None => None,
                                                    Some((uic, r12)) => match p_lit(r12, "}"@) {
                                                        None => None,
                                                        Some(r13) => Some(
                                                            (
                                                                PlatformMemoryV {
                                                                    total,
                                                                    active,
                                                                    inactive,
                                                                    wired,
                                                                    free,
                                                                    purgeable,
                                                                    speculative,
                                                                    compressor,
                                                                    throttled,
                                                                    external,
                                                                    internal,
                                                                    uncompressed_in_compressor: uic,
                                                                },
                                                                r13,
                                                            ),
                                                        ),
                                                    },
                                                },
                                            },
                                        },
                                    },
                                },
                            },
                        },
                    },
                },
            },
        },
    }
}

/// Reads the memory object.
pub open spec fn p_memory(s: Seq<char>) -> Option<(MemorySnapshotV, Seq<char>)> {
    match p_u64_field(s, "{\"total\":"@) {
        None => None,
        Some((total, r1)) => match p_u64_field(r1, ",\"free\":"@) {
            None => None,
            Some((free, r2)) => match p_lit(r2, ",\"platform_memory\":"@) {
                None => None,
                Some(r3) => match p_platform_memory(r3) {
                    None => None,
                    Some((platform_memory, r4)) => match p_lit(r4, "}"@) {
                        None => None,
                        Some(r5) => Some((MemorySnapshotV { total, free, platform_memory }, r5)),
                    },
                },
            },
        },
    }
}

/// Reads the memory wrapper object.
pub open spec fn p_memory_wrapper(s: Seq<char>) -> Option<(MemoryWrapperV, Seq<char>)> {
    match p_lit(s, "{\"memory_usage\":"@) {
        None => None,
        Some(r1) => match p_memory(r1) {
            None => None,
            Some((memory_usage, r2)) => match p_lit(r2, "}"@) {
                None => None,
                Some(r3) => Some((MemoryWrapperV { memory_usage }, r3)),
            },
        },
    }
}

/// Reads one whole snapshot object.
pub open spec fn p_stats(s: Seq<char>) -> Option<(StatsV, Seq<char>)> {
    match p_lit(s, "{\"loadavg\":"@) {
        None => None,
        Some(r1) => match p_loadavg(r1) {
            None => None,
            Some((loadavg, r2)) => match p_lit(r2, ",\"cpu_usage\":\""@) {
                None => None,
                Some(r3) => match p_string_body(r3) {
                    None => None,
                    Some((cpu_usage, r4)) => match p_lit(r4, ",\"memory_usage\":"@) {
                        None => None,
                        Some(r5) => match p_memory_wrapper(r5) {
                            None => None,
                            Some((memory_usage, r6)) => match p_lit(r6, "}"@) {
                                None => None,
                                Some(r7) => Some((StatsV { loadavg, cpu_usage, memory_usage }, r7)),
                            },
                        },
                    },
                },
            },
        },
    }
}

/// Reads the whole response body.
pub open spec fn p_response(s: Seq<char>) -> Option<(StatsResponseV, Seq<char>)> {
    match p_lit(s, "{\"result\":"@) {
        None => None,
        Some(r1) => match p_bool(r1) {
            None => None,
            Some((result, r2)) => match p_lit(r2, ",\"data\":"@) {
                None => None,
                Some(r3) => match p_stats(r3) {
                    None => None,
                    Some((data, r4)) => match p_lit(r4, "}"@) {
                        None => None,
                        Some(r5) => Some((StatsResponseV { result, data }, r5)),
                    },
                },
            },
        },
    }
}

/// A whole text that is exactly one snapshot object.
pub open spec fn spec_parse_stats(s: Seq<char>) -> Option<StatsV> {
    match p_stats(s) {
        Some((v, rest)) => if rest.len() == 0 {
            Some(v)
        } else {
            None
        },
        None => None,
    }
}

/// A whole text that is exactly one response body.
pub open spec fn spec_parse_response(s: Seq<char>) -> Option<StatsResponseV> {
    match p_response(s) {
        Some((v, rest)) => if rest.len() == 0 {
            Some(v)
        } else {
            None
        },
        None => None,
    }
}

/// The bounds under which a load average can be rendered: each value fits
/// the machine word it is stored in.
pub open spec fn loadavg_v_valid(l: LoadavgV) -> bool {
    l.one <= u64::MAX && l.five <= u64::MAX && l.fifteen <= u64::MAX
}

pub open spec fn platform_memory_v_valid(p: PlatformMemoryV) -> bool {
    p.total <= u64::MAX && p.active <= u64::MAX && p.inactive <= u64::MAX && p.wired <= u64::MAX
        && p.free <= u64::MAX && p.purgeable <= u64::MAX && p.speculative <= u64::MAX
        && p.compressor <= u64::MAX && p.throttled <= u64::MAX && p.external <= u64::MAX
        && p.internal <= u64::MAX && p.uncompressed_in_compressor <= u64::MAX
}

pub open spec fn memory_wrapper_v_valid(w: MemoryWrapperV) -> bool {
    w.memory_usage.total <= u64::MAX && w.memory_usage.free <= u64::MAX
        && platform_memory_v_valid(w.memory_usage.platform_memory)
}

pub open spec fn stats_v_valid(s: StatsV) -> bool {
    loadavg_v_valid(s.loadavg) && memory_wrapper_v_valid(s.memory_usage)
}

pub proof fn lemma_p_loadavg_round(l: LoadavgV, rest: Seq<char>)
    requires
        loadavg_v_valid(l),
    ensures
        p_loadavg(spec_json_loadavg(l) + rest) == Some((l, rest)),
{
    reveal_strlit("{\"one\":");
    reveal_strlit(",\"five\":");
    reveal_strlit(",\"fifteen\":");
    reveal_strlit("}");
    let t3 = "}"@ + rest;
    let t2 = ",\"fifteen\":"@ + (spec_hundredths(l.fifteen) + t3);
    let t1 = ",\"five\":"@ + (spec_hundredths(l.five) + t2);
    assert(spec_json_loadavg(l) + rest =~= "{\"one\":"@ + (spec_hundredths(l.one) + t1));
    assert(!is_digit_char(t1[0]));
    assert(!is_digit_char(t2[0]));
    assert(!is_digit_char(t3[0]));
    lemma_hundredths_field_round("{\"one\":"@, l.one, t1);
    lemma_hundredths_field_round(",\"five\":"@, l.five, t2);
    lemma_hundredths_field_round(",\"fifteen\":"@, l.fifteen, t3);
    lemma_p_lit("}"@, rest);
}

#[verifier::rlimit(100)]
pub proof fn lemma_p_platform_memory_round(p: PlatformMemoryV, rest: Seq<char>)
    requires
        platform_memory_v_valid(p),
    ensures
        p_platform_memory(spec_json_platform_memory(p) + rest) == Some((p, rest)),
{
    reveal_strlit("{\"total\":");
    reveal_strlit(",\"active\":");
    reveal_strlit(",\"inactive\":");
    reveal_strlit(",\"wired\":");
    reveal_strlit(",\"free\":");
    reveal_strlit(",\"purgeable\":");
    reveal_strlit(",\"speculative\":");
    reveal_strlit(",\"compressor\":");
    reveal_strlit(",\"throttled\":");
    reveal_strlit(",\"external\":");
    reveal_strlit(",\"internal\":");
    reveal_strlit(",\"uncompressed_in_compressor\":");
    reveal_strlit("}");
    let t12 = "}"@ + rest;
    let t11 = ",\"uncompressed_in_compressor\":"@ + (spec_digits(p.uncompressed_in_compressor)
        + t12);
    let t10 = ",\"internal\":"@ + (spec_digits(p.internal) + t11);
    let t9 = ",\"external\":"@ + (spec_digits(p.external) + t10);
    let t8 = ",\"throttled\":"@ + (spec_digits(p.throttled) + t9);
    let t7 = ",\"compressor\":"@ + (spec_digits(p.compressor) + t8);
    let t6 = ",\"speculative\":"@ + (spec_digits(p.speculative) + t7);
    let t5 = ",\"purgeable\":"@ + (spec_digits(p.purgeable) + t6);
    let t4 = ",\"free\":"@ + (spec_digits(p.free) + t5);
    let t3 = ",\"wired\":"@ + (spec_digits(p.wired) + t4);
    let t2 = ",\"inactive\":"@ + (spec_digits(p.inactive) + t3);
    let t1 = ",\"active\":"@ + (spec_digits(p.active) + t2);
    let a0 = "{\"total\":"@ + spec_digits(p.total);
    let a1 = a0 + ",\"active\":"@ + spec_digits(p.active);
    let a2 = a1 + ",\"inactive\":"@ + spec_digits(p.inactive);
    let a3 = a2 + ",\"wired\":"@ + spec_digits(p.wired);
    let a4 = a3 + ",\"free\":"@ + spec_digits(p.free);
    let a5 = a4 + ",\"purgeable\":"@ + spec_digits(p.purgeable);
    let a6 = a5 + ",\"speculative\":"@ + spec_digits(p.speculative);
    let a7 = a6 + ",\"compressor\":"@ + spec_digits(p.compressor);
    let a8 = a7 + ",\"throttled\":"@ + spec_digits(p.throttled);
    let a9 = a8 + ",\"external\":"@ + spec_digits(p.external);
    let a10 = a9 + ",\"internal\":"@ + spec_digits(p.internal);
    let a11 = a10 + ",\"uncompressed_in_compressor\":"@ + spec_digits(
        p.uncompressed_in_compressor,
    );
    assert(spec_json_platform_memory(p) == a11 + "}"@);
    lemma_assoc(a11, "}"@, rest);
    lemma_assoc(a10 + ",\"uncompressed_in_compressor\":"@, spec_digits(
        p.uncompressed_in_compressor,
    ), t12);
    lemma_assoc(a10, ",\"uncompressed_in_compressor\":"@, spec_digits(
        p.uncompressed_in_compressor,
    ) + t12);
    lemma_assoc(a9 + ",\"internal\":"@, spec_digits(p.internal), t11);
    lemma_assoc(a9, ",\"internal\":"@, spec_digits(p.internal) + t11);
    lemma_assoc(a8 + ",\"external\":"@, spec_digits(p.external), t10);
    lemma_assoc(a8, ",\"external\":"@, spec_digits(p.external) + t10);
    lemma_assoc(a7 + ",\"throttled\":"@, spec_digits(p.throttled), t9);
    lemma_assoc(a7, ",\"throttled\":"@, spec_digits(p.throttled) + t9);
    lemma_assoc(a6 + ",\"compressor\":"@, spec_digits(p.compressor), t8);
    lemma_assoc(a6, ",\"compressor\":"@, spec_digits(p.compressor) + t8);
    lemma_assoc(a5 + ",\"speculative\":"@, spec_digits(p.speculative), t7);
    lemma_assoc(a5, ",\"speculative\":"@, spec_digits(p.speculative) + t7);
    lemma_assoc(a4 + ",\"purgeable\":"@, spec_digits(p.purgeable), t6);
    lemma_assoc(a4, ",\"purgeable\":"@, spec_digits(p.purgeable) + t6);
    lemma_assoc(a3 + ",\"free\":"@, spec_digits(p.free), t5);
    lemma_assoc(a3, ",\"free\":"@, spec_digits(p.free) + t5);
    lemma_assoc(a2 + ",\"wired\":"@, spec_digits(p.wired), t4);
    lemma_assoc(a2, ",\"wired\":"@, spec_digits(p.wired) + t4);
    lemma_assoc(a1 + ",\"inactive\":"@, spec_digits(p.inactive), t3);
    lemma_assoc(a1, ",\"inactive\":"@, spec_digits(p.inactive) + t3);
    lemma_assoc(a0 + ",\"active\":"@, spec_digits(p.active), t2);
    lemma_assoc(a0, ",\"active\":"@, spec_digits(p.active) + t2);
    lemma_assoc("{\"total\":"@, spec_digits(p.total), t1);
    assert(spec_json_platform_memory(p) + rest == "{\"total\":"@ + (spec_digits(p.total) + t1));
    assert(!is_digit_char(t1[0]));
    assert(!is_digit_char(t2[0]));
    assert(!is_digit_char(t3[0]));
    assert(!is_digit_char(t4[0]));
    assert(!is_digit_char(t5[0]));
    assert(!is_digit_char(t6[0]));
    assert(!is_digit_char(t7[0]));
    assert(!is_digit_char(t8[0]));
    assert(!is_digit_char(t9[0]));
    assert(!is_digit_char(t10[0]));
    assert(!is_digit_char(t11[0]));
    assert(!is_digit_char(t12[0]));
    lemma_u64_field_round("{\"total\":"@, p.total, t1);
    lemma_u64_field_round(",\"active\":"@, p.active, t2);
    lemma_u64_field_round(",\"inactive\":"@, p.inactive, t3);
    lemma_u64_field_round(",\"wired\":"@, p.wired, t4);
    lemma_u64_field_round(",\"free\":"@, p.free, t5);
    lemma_u64_field_round(",\"purgeable\":"@, p.purgeable, t6);
    lemma_u64_field_round(",\"speculative\":"@, p.speculative, t7);
    lemma_u64_field_round(",\"compressor\":"@, p.compressor, t8);
    lemma_u64_field_round(",\"throttled\":"@, p.throttled, t9);
    lemma_u64_field_round(",\"external\":"@, p.external, t10);
    lemma_u64_field_round(",\"internal\":"@, p.internal, t11);
    lemma_u64_field_round(",\"uncompressed_in_compressor\":"@, p.uncompressed_in_compressor, t12);
    lemma_p_lit("}"@, rest);
}

pub proof fn lemma_p_memory_round(m: MemorySnapshotV, rest: Seq<char>)
    requires
        m.total <= u64::MAX,
        m.free <= u64::MAX,
        platform_memory_v_valid(m.platform_memory),
    ensures
        p_memory(spec_json_memory(m) + rest) == Some((m, rest)),
{
    reveal_strlit("{\"total\":");
    reveal_strlit(",\"free\":");
    reveal_strlit(",\"platform_memory\":");
    reveal_strlit("}");
    let t3 = "}"@ + rest;
    let t2 = ",\"platform_memory\":"@ + (spec_json_platform_memory(m.platform_memory) + t3);
    let t1 = ",\"free\":"@ + (spec_digits(m.free) + t2);
    assert(spec_json_memory(m) + rest =~= "{\"total\":"@ + (spec_digits(m.total) + t1));
    assert(!is_digit_char(t1[0]));
    assert(!is_digit_char(t2[0]));
    lemma_u64_field_round("{\"total\":"@, m.total, t1);
    lemma_u64_field_round(",\"free\":"@, m.free, t2);
    lemma_p_lit(",\"platform_memory\":"@, spec_json_platform_memory(m.platform_memory) + t3);
    lemma_p_platform_memory_round(m.platform_memory, t3);
    lemma_p_lit("}"@, rest);
}

pub proof fn lemma_p_memory_wrapper_round(w: MemoryWrapperV, rest: Seq<char>)
    requires
        memory_wrapper_v_valid(w),
    ensures
        p_memory_wrapper(spec_json_memory_wrapper(w) + rest) == Some((w, rest)),
{
    let t1 = "}"@ + rest;
    assert(spec_json_memory_wrapper(w) + rest =~= "{\"memory_usage\":"@ + (spec_json_memory(
        w.memory_usage,
    ) + t1));
    lemma_p_lit("{\"memory_usage\":"@, spec_json_memory(w.memory_usage) + t1);
    lemma_p_memory_round(w.memory_usage, t1);
    lemma_p_lit("}"@, rest);
}

#[verifier::rlimit(100)]
pub proof fn lemma_p_stats_round(v: StatsV, rest: Seq<char>)
    requires
        stats_v_valid(v),
        json_string_safe(v.cpu_usage),
    ensures
        p_stats(spec_json_stats(v) + rest) == Some((v, rest)),
{
    reveal_strlit(",\"cpu_usage\":\"");
    reveal_strlit("\",\"memory_usage\":");
    reveal_strlit(",\"memory_usage\":");
    let t4 = "}"@ + rest;
    let t3 = ",\"memory_usage\":"@ + (spec_json_memory_wrapper(v.memory_usage) + t4);
    let t2 = v.cpu_usage + (seq!['"'] + t3);
    let t1 = ",\"cpu_usage\":\""@ + t2;
    assert("\",\"memory_usage\":"@ =~= seq!['"'] + ",\"memory_usage\":"@);
    assert(spec_json_stats(v) + rest =~= "{\"loadavg\":"@ + (spec_json_loadavg(v.loadavg) + t1));
    lemma_p_lit("{\"loadavg\":"@, spec_json_loadavg(v.loadavg) + t1);
    lemma_p_loadavg_round(v.loadavg, t1);
    lemma_p_lit(",\"cpu_usage\":\""@, t2);
    assert(t2 =~= v.cpu_usage + seq!['"'] + t3);
    lemma_p_string_body_round(v.cpu_usage, t3);
    lemma_p_lit(",\"memory_usage\":"@, spec_json_memory_wrapper(v.memory_usage) + t4);
    lemma_p_memory_wrapper_round(v.memory_usage, t4);
    lemma_p_lit("}"@, rest);
}

#[verifier::rlimit(100)]
pub proof fn lemma_p_response_round(v: StatsResponseV, rest: Seq<char>)
    requires
        stats_v_valid(v.data),
        json_string_safe(v.data.cpu_usage),
    ensures
        p_response(spec_json_response(v) + rest) == Some((v, rest)),
{
    let t3 = "}"@ + rest;
    let t2 = ",\"data\":"@ + (spec_json_stats(v.data) + t3);
    let t1 = (if v.result {
        "true"@
    } else {
        "false"@
    }) + t2;
    assert(spec_json_response(v) + rest =~= "{\"result\":"@ + t1);
    lemma_p_lit("{\"result\":"@, t1);
    lemma_p_bool_round(v.result, t2);
    lemma_p_lit(",\"data\":"@, spec_json_stats(v.data) + t3);
    lemma_p_stats_round(v.data, t3);
    lemma_p_lit("}"@, rest);
}

proof fn lemma_count_digits_segment(s: Seq<char>, i: int, k: int)
    requires
        0 <= i <= k <= s.len(),
        forall|t: int| i <= t < k ==> is_digit_char(#[trigger] s[t]),
        k == s.len() || !is_digit_char(s[k]),
    ensures
        count_digits(s.skip(i)) == k - i,
{
    let seg = s.subrange(i, k);
    assert(s.skip(i) =~= seg + s.skip(k));
    assert(forall|t: int| 0 <= t < k - i ==> is_digit_char(#[trigger] seg[t]));
    if k < s.len() {
        assert(s.skip(k)[0] == s[k]);
    }
    lemma_count_digits_concat(seg, s.skip(k));
}

proof fn lemma_count_to_quote_segment(s: Seq<char>, i: int, k: int)
    requires
        0 <= i <= k <= s.len(),
        forall|t: int| i <= t < k ==> #[trigger] s[t] != '"',
        k < s.len() && s[k] == '"',
    ensures
        count_to_quote(s.skip(i)) == k - i,
{
    let seg = s.subrange(i, k);
    assert(s.skip(i) =~= seg + s.skip(k));
    assert(forall|t: int| 0 <= t < k - i ==> #[trigger] seg[t] != '"');
    assert(s.skip(k)[0] == s[k]);
    lemma_count_to_quote_concat(seg, s.skip(k));
}

/// Scans past the run of decimal digits that starts at `i`.
fn scan_digits(s: &str, i: usize) -> (k: usize)
    requires
        i <= s@.len(),
    ensures
        i <= k <= s@.len(),
        count_digits(s@.skip(i as int)) == k - i,
        forall|t: int| i <= t < k ==> is_digit_char(#[trigger] s@[t]),
{
    let n = s.unicode_len();
    let mut k: usize = i;
    loop
        invariant
            i <= k <= n,
            n == s@.len(),
            forall|t: int| i <= t < k ==> is_digit_char(#[trigger] s@[t]),
        decreases n - k,
    {
        if k >= n {
            proof {
                lemma_count_digits_segment(s@, i as int, k as int);
            }
            return k;
        }
        let c = s.get_char(k);
        let u = c as u32;
        if u < 48 || u > 57 {
            proof {
                lemma_count_digits_segment(s@, i as int, k as int);
            }
            return k;
        }
        k += 1;
    }
}

/// Reads the decimal integer that starts at `i`.
fn parse_u64_at(s: &str, i: usize) -> (r: Option<(u64, usize)>)
    requires
        i <= s@.len(),
    ensures
        match r {
            Some(vj) => i < vj.1 <= s@.len() && p_u64(s@.skip(i as int)) == Some(
                (vj.0 as nat, s@.skip(vj.1 as int)),
            ),
            None => p_u64(s@.skip(i as int)) is None,
        },
{
    let k = scan_digits(s, i);
    if k == i {
        return None;
    }
    let ghost seg = s@.subrange(i as int, k as int);
    let mut v: u64 = 0;
    let mut t: usize = i;
    proof {
        assert(s@.subrange(i as int, i as int) =~= Seq::<char>::empty());
    }
    while t < k
        invariant
            i <= t <= k <= s@.len(),
            i < k,
            count_digits(s@.skip(i as int)) == k - i,
            forall|q: int| i <= q < k ==> is_digit_char(#[trigger] s@[q]),
            v as nat == fold_digits(s@.subrange(i as int, t as int), 0),
        decreases k - t,
    {
        let c = s.get_char(t);
        let u = c as u32;
        let d = (u - 48) as u64;
        proof {
            let pre = s@.subrange(i as int, t as int);
            let cur = s@.subrange(i as int, t + 1 as int);
            assert(cur =~= pre + seq![s@[t as int]]);
            lemma_fold_concat(pre, seq![s@[t as int]], 0);
            lemma_fold_single(s@[t as int], fold_digits(pre, 0));
            assert(fold_digits(cur, 0) == v as nat * 10 + d as nat);
        }
        if v > (u64::MAX - d) / 10 {
            proof {
                let cur = s@.subrange(i as int, t + 1 as int);
                let seg2 = s@.subrange(i as int, k as int);
                assert(v as nat * 10 + d as nat > u64::MAX);
                assert(seg2 =~= cur + s@.subrange(t + 1 as int, k as int));
                lemma_fold_concat(cur, s@.subrange(t + 1 as int, k as int), 0);
                lemma_fold_ge(s@.subrange(t + 1 as int, k as int), fold_digits(cur, 0));
                assert(fold_digits(seg2, 0) > u64::MAX);
                assert(s@.skip(i as int).take((k - i) as int) =~= seg2);
            }
            return None;
        }
        v = v * 10 + d;
        t += 1;
    }
    proof {
        assert(s@.skip(i as int).take((k - i) as int) =~= seg);
        assert(s@.skip(i as int).skip((k - i) as int) =~= s@.skip(k as int));
    }
    Some((v, k))
}

/// Reads the hundredths-valued number that starts at `i`.
fn parse_hundredths_at(s: &str, i: usize) -> (r: Option<(u64, usize)>)
    requires
        i <= s@.len(),
    ensures
        match r {
            Some(vj) => i < vj.1 <= s@.len() && p_hundredths(s@.skip(i as int)) == Some(
                (vj.0 as nat, s@.skip(vj.1 as int)),
            ),
            None => p_hundredths(s@.skip(i as int)) is None,
        },
{
    let (ip, j) = match parse_u64_at(s, i) {
        None => {
            return None;
        },
        Some(x) => x,
    };
    let n = s.unicode_len();
    proof {
        assert(s@.skip(j as int).len() == n - j);
    }
    if j >= n {
        return None;
    }
    let c = s.get_char(j);
    proof {
        assert(s@.skip(j as int)[0] == s@[j as int]);
    }
    if c != '.' {
        return None;
    }
    proof {
        assert(s@.skip(j as int).skip(1) =~= s@.skip(j + 1 as int));
    }
    let k2 = scan_digits(s, j + 1);
    let cnt = k2 - (j + 1);
    if cnt == 1 {
        let c0 = s.get_char(j + 1);
        let d0 = (c0 as u32 - 48) as u64;
        let fr = d0 * 10;
        proof {
            assert(s@.skip(j + 1 as int)[0] == s@[j + 1 as int]);
            assert(digit_val(s@[j + 1 as int]) == d0 as nat);
        }
        if ip > (u64::MAX - fr) / 100 {
            proof {
                assert(ip as nat * 100 + fr as nat > u64::MAX);
            }
            return None;
        }
        proof {
            assert(ip as nat * 100 + fr as nat <= u64::MAX);
            assert(s@.skip(j + 1 as int).skip(1) =~= s@.skip(k2 as int));
        }
        Some((ip * 100 + fr, k2))
    } else if cnt == 2 {
        let c0 = s.get_char(j + 1);
        let d0 = (c0 as u32 - 48) as u64;
        let c1 = s.get_char(j + 2);
        let d1 = (c1 as u32 - 48) as u64;
        let fr = d0 * 10 + d1;
        proof {
            assert(s@.skip(j + 1 as int)[0] == s@[j + 1 as int]);
            assert(s@.skip(j + 1 as int)[1] == s@[j + 2 as int]);
            assert(digit_val(s@[j + 1 as int]) == d0 as nat);
            assert(digit_val(s@[j + 2 as int]) == d1 as nat);
        }
        if ip > (u64::MAX - fr) / 100 {
            proof {
                assert(ip as nat * 100 + fr as nat > u64::MAX);
            }
            return None;
        }
        proof {
            assert(ip as nat * 100 + fr as nat <= u64::MAX);
            assert(s@.skip(j + 1 as int).skip(2) =~= s@.skip(k2 as int));
        }
        Some((ip * 100 + fr, k2))
    } else {
        None
    }
}

/// Checks that `lit` stands at `i` and steps over it.
fn expect_lit(s: &str, i: usize, lit: &str) -> (r: Option<usize>)
    requires
        i <= s@.len(),
    ensures
        match r {
            Some(j) => i <= j <= s@.len() && p_lit(s@.skip(i as int), lit@) == Some(
                s@.skip(j as int),
            ),
            None => p_lit(s@.skip(i as int), lit@) is None,
        },
{
    let n = s.unicode_len();
    let m = lit.unicode_len();
    if m > n - i {
        return None;
    }
    let mut j: usize = 0;
    while j < m
        invariant
            0 <= j <= m,
            i <= s@.len(),
            m <= s@.len() - i,
            n == s@.len(),
            m == lit@.len(),
            forall|t: int| 0 <= t < j ==> s@.skip(i as int)[t] == lit@[t],
        decreases m - j,
    {
        let a = s.get_char(i + j);
        let b = lit.get_char(j);
        proof {
            assert(s@.skip(i as int)[j as int] == s@[i + j as int]);
        }
        if a != b {
            proof {
                let ss = s@.skip(i as int);
                assert(ss.take(m as int)[j as int] == ss[j as int]);
                assert(ss.take(m as int) != lit@);
            }
            return None;
        }
        j += 1;
    }
    proof {
        let ss = s@.skip(i as int);
        assert(ss.take(m as int) =~= lit@);
        assert(ss.skip(m as int) =~= s@.skip((i + m) as int));
    }
    Some(i + m)
}

/// Reads `true` or `false` at `i`.
fn parse_bool_at(s: &str, i: usize) -> (r: Option<(bool, usize)>)
    requires
        i <= s@.len(),
    ensures
        match r {
            Some(bj) => i <= bj.1 <= s@.len() && p_bool(s@.skip(i as int)) == Some(
                (bj.0, s@.skip(bj.1 as int)),
            ),
            None => p_bool(s@.skip(i as int)) is None,
        },
{
    match expect_lit(s, i, "true") {
        Some(j) => {
            return Some((true, j));
        },
        None => {},
    }
    match expect_lit(s, i, "false") {
        Some(j) => {
            return Some((false, j));
        },
        None => {},
    }
    None
}

/// Reads a string body at `i`, up to and over its closing quote.
fn parse_string_body_at(s: &str, i: usize) -> (r: Option<(String, usize)>)
    requires
        i <= s@.len(),
    ensures
        match r {
            Some(cj) => i < cj.1 <= s@.len() && p_string_body(s@.skip(i as int)) == Some(
                (cj.0@, s@.skip(cj.1 as int)),
            ),
            None => p_string_body(s@.skip(i as int)) is None,
        },
{
    let n = s.unicode_len();
    let mut k: usize = i;
    loop
        invariant
            i <= k <= n,
            n == s@.len(),
            forall|t: int| i <= t < k ==> #[trigger] s@[t] != '"',
        decreases n - k,
    {
        if k >= n {
            proof {
                let ss = s@.skip(i as int);
                let seg = s@.subrange(i as int, k as int);
                assert(ss =~= seg + s@.skip(k as int));
                assert(s@.skip(k as int).len() == 0);
                assert(ss =~= seg);
                assert(forall|t: int| 0 <= t < ss.len() ==> #[trigger] ss[t] != '"');
                lemma_count_to_quote_all(ss);
            }
            return None;
        }
        let c = s.get_char(k);
        if c == '"' {
            proof {
                lemma_count_to_quote_segment(s@, i as int, k as int);
            }
            let content = s.substring_char(i, k).to_owned();
            proof {
                assert(s@.skip(i as int).take((k - i) as int) =~= s@.subrange(i as int, k as int));
                assert(s@.skip(i as int).skip((k - i) as int + 1) =~= s@.skip((k + 1) as int));
            }
            return Some((content, k + 1));
        }
        k += 1;
    }
}

/// A text with no quote at all has no string body.
proof fn lemma_count_to_quote_all(s: Seq<char>)
    requires
        forall|t: int| 0 <= t < s.len() ==> #[trigger] s[t] != '"',
    ensures
        count_to_quote(s) == s.len(),
    decreases s.len(),
{
    if s.len() > 0 {
        lemma_count_to_quote_all(s.skip(1));
    }
}

fn parse_loadavg_at(s: &str, i: usize) -> (r: Option<(crate::stats::Loadavg, usize)>)
    requires
        i <= s@.len(),
    ensures
        match r {
            Some(lj) => i <= lj.1 <= s@.len() && p_loadavg(s@.skip(i as int)) == Some(
                (lj.0@, s@.skip(lj.1 as int)),
            ),
            None => p_loadavg(s@.skip(i as int)) is None,
        },
{
    let j1 = match expect_lit(s, i, "{\"one\":") {
        None => {
            return None;
        },
        Some(j) => j,
    };
    let (one, j2) = match parse_hundredths_at(s, j1) {
        None => {
            return None;
        },
        Some(x) => x,
    };
    let j3 = match expect_lit(s, j2, ",\"five\":") {
        None => {
            return None;
        },
        Some(j) => j,
    };
    let (five, j4) = match parse_hundredths_at(s, j3) {
        None => {
            return None;
        },
        Some(x) => x,
    };
    let j5 = match expect_lit(s, j4, ",\"fifteen\":") {
        None => {
            return None;
        },
        Some(j) => j,
    };
    let (fifteen, j6) = match parse_hundredths_at(s, j5) {
        None => {
            return None;
        },
        Some(x) => x,
    };
    let j7 = match expect_lit(s, j6, "}") {
        None => {
            return None;
        },
        Some(j) => j,
    };
    Some((crate::stats::Loadavg { one, five, fifteen }, j7))
}

#[verifier::rlimit(100)]
fn parse_platform_memory_at(s: &str, i: usize) -> (r: Option<(crate::stats::PlatformMemory, usize)>)
    requires
        i <= s@.len(),
    ensures
        match r {
            Some(pj) => i <= pj.1 <= s@.len() && p_platform_memory(s@.skip(i as int)) == Some(
                (pj.0@, s@.skip(pj.1 as int)),
            ),
            None => p_platform_memory(s@.skip(i as int)) is None,
        },
{
    let j1 = match expect_lit(s, i, "{\"total\":") {
        None => {
            return None;
        },
        Some(j) => j,
    };
    let (total, j2) = match parse_u64_at(s, j1) {
        None => {
            return None;
        },
        Some(x) => x,
    };
    let j3 = match expect_lit(s, j2, ",\"active\":") {
        None => {
            return None;
        },
        Some(j) => j,
    };
    let (active, j4) = match parse_u64_at(s, j3) {
        None => {
            return None;
        },
        Some(x) => x,
    };
    let j5 = match expect_lit(s, j4, ",\"inactive\":") {
        None => {
            return None;
        },
        Some(j) => j,
    };
    let (inactive, j6) = match parse_u64_at(s, j5) {
        None => {
            return None;
        },
        Some(x) => x,
    };
    let j7 = match expect_lit(s, j6, ",\"wired\":") {
        None => {
            return None;
        },
        Some(j) => j,
    };
    let (wired, j8) = match parse_u64_at(s, j7) {
        None => {
            return None;
        },
        Some(x) => x,
    };
    let j9 = match expect_lit(s, j8, ",\"free\":") {
        None => {
            return None;
        },
        Some(j) => j,
    };
    let (free, j10) = match parse_u64_at(s, j9) {
        None => {
            return None;
        },
        Some(x) => x,
    };
    let j11 = match expect_lit(s, j10, ",\"purgeable\":") {
        None => {
            return None;
        },
        Some(j) => j,
    };
    let (purgeable, j12) = match parse_u64_at(s, j11) {
        None => {
            return None;
        },
        Some(x) => x,
    };
    let j13 = match expect_lit(s, j12, ",\"speculative\":") {
        None => {
            return None;
        },
        Some(j) => j,
    };
    let (speculative, j14) = match parse_u64_at(s, j13) {
        None => {
            return None;
        },
        Some(x) => x,
    };
    let j15 = match expect_lit(s, j14, ",\"compressor\":") {
        None => {
            return None;
        },
        Some(j) => j,
    };
    let (compressor, j16) = match parse_u64_at(s, j15) {
        None => {
            return None;
        },
        Some(x) => x,
    };
    let j17 = match expect_lit(s, j16, ",\"throttled\":") {
        None => {
            return None;
        },
        Some(j) => j,
    };
    let (throttled, j18) = match parse_u64_at(s, j17) {
        None => {
            return None;
        },
        Some(x) => x,
    };
    let j19 = match expect_lit(s, j18, ",\"external\":") {
        None => {
            return None;
        },
        Some(j) => j,
    };
    let (external, j20) = match parse_u64_at(s, j19) {
        None => {
            return None;
        },
        Some(x) => x,
    };
    let j21 = match expect_lit(s, j20, ",\"internal\":") {
        None => {
            return None;
        },
        Some(j) => j,
    };
    let (internal, j22) = match parse_u64_at(s, j21) {
        None => {
            return None;
        },
        Some(x) => x,
    };
    let j23 = match expect_lit(s, j22, ",\"uncompressed_in_compressor\":") {
        None => {
            return None;
        },
        Some(j) => j,
    };
    let (uic, j24) = match parse_u64_at(s, j23) {
        None => {
            return None;
        },
        Some(x) => x,
    };
    let j25 = match expect_lit(s, j24, "}") {
        None => {
            return None;
        },
        Some(j) => j,
    };
    Some(
        (
            crate::stats::PlatformMemory {
                total,
                active,
                inactive,
                wired,
                free,
                purgeable,
                speculative,
                compressor,
                throttled,
                external,
                internal,
                uncompressed_in_compressor: uic,
            },
            j25,
        ),
    )
}

fn parse_memory_at(s: &str, i: usize) -> (r: Option<(crate::stats::MemorySnapshot, usize)>)
    requires
        i <= s@.len(),
    ensures
        match r {
            Some(mj) => i <= mj.1 <= s@.len() && p_memory(s@.skip(i as int)) == Some(
                (mj.0@, s@.skip(mj.1 as int)),
            ),
            None => p_memory(s@.skip(i as int)) is None,
        },
{
    let j1 = match expect_lit(s, i, "{\"total\":") {
        None => {
            return None;
        },
        Some(j) => j,
    };
    let (total, j2) = match parse_u64_at(s, j1) {
        None => {
            return None;
        },
        Some(x) => x,
    };
    let j3 = match expect_lit(s, j2, ",\"free\":") {
        None => {
            return None;
        },
        Some(j) => j,
    };
    let (free, j4) = match parse_u64_at(s, j3) {
        None => {
            return None;
        },
        Some(x) => x,
    };
    let j5 = match expect_lit(s, j4, ",\"platform_memory\":") {
        None => {
            return None;
        },
        Some(j) => j,
    };
    let (platform_memory, j6) = match parse_platform_memory_at(s, j5) {
        None => {
            return None;
        },
        Some(x) => x,
    };
    let j7 = match expect_lit(s, j6, "}") {
        None => {
            return None;
        },
        Some(j) => j,
    };
    Some((crate::stats::MemorySnapshot { total, free, platform_memory }, j7))
}

fn parse_memory_wrapper_at(s: &str, i: usize) -> (r: Option<(crate::stats::MemoryWrapper, usize)>)
    requires
        i <= s@.len(),
    ensures
        match r {
            Some(wj) => i <= wj.1 <= s@.len() && p_memory_wrapper(s@.skip(i as int)) == Some(
                (wj.0@, s@.skip(wj.1 as int)),
            ),
            None => p_memory_wrapper(s@.skip(i as int)) is None,
        },
{
    let j1 = match expect_lit(s, i, "{\"memory_usage\":") {
        None => {
            return None;
        },
        Some(j) => j,
    };
    let (memory_usage, j2) = match parse_memory_at(s, j1) {
        None => {
            return None;
        },
        Some(x) => x,
    };
    let j3 = match expect_lit(s, j2, "}") {
        None => {
            return None;
        },
        Some(j) => j,
    };
    Some((crate::stats::MemoryWrapper { memory_usage }, j3))
}

fn parse_stats_at(s: &str, i: usize) -> (r: Option<(crate::stats::Stats, usize)>)
    requires
        i <= s@.len(),
    ensures
        match r {
            Some(sj) => i <= sj.1 <= s@.len() && p_stats(s@.skip(i as int)) == Some(
                (sj.0@, s@.skip(sj.1 as int)),
            ),
            None => p_stats(s@.skip(i as int)) is None,
        },
{
    let j1 = match expect_lit(s, i, "{\"loadavg\":") {
        None => {
            return None;
        },
        Some(j) => j,
    };
    let (loadavg, j2) = match parse_loadavg_at(s, j1) {
        None => {
            return None;
        },
        Some(x) => x,
    };
    let j3 = match expect_lit(s, j2, ",\"cpu_usage\":\"") {
        None => {
            return None;
        },
        Some(j) => j,
    };
    let (cpu_usage, j4) = match parse_string_body_at(s, j3) {
        None => {
            return None;
        },
        Some(x) => x,
    };
    let j5 = match expect_lit(s, j4, ",\"memory_usage\":") {
        None => {
            return None;
        },
        Some(j) => j,
    };
    let (memory_usage, j6) = match parse_memory_wrapper_at(s, j5) {
        None => {
            return None;
        },
        Some(x) => x,
    };
    let j7 = match expect_lit(s, j6, "}") {
        None => {
            return None;
        },
        Some(j) => j,
    };
    Some((crate::stats::Stats { loadavg, cpu_usage, memory_usage }, j7))
}

fn parse_response_at(s: &str, i: usize) -> (r: Option<(crate::stats::StatsResponse, usize)>)
    requires
        i <= s@.len(),
    ensures
        match r {
            Some(vj) => i <= vj.1 <= s@.len() && p_response(s@.skip(i as int)) == Some(
                (vj.0@, s@.skip(vj.1 as int)),
            ),
            None => p_response(s@.skip(i as int)) is None,
        },
{
    let j1 = match expect_lit(s, i, "{\"result\":") {
        None => {
            return None;
        },
        Some(j) => j,
    };
    let (result, j2) = match parse_bool_at(s, j1) {
        None => {
            return None;
        },
        Some(x) => x,
    };
    let j3 = match expect_lit(s, j2, ",\"data\":") {
        None => {
            return None;
        },
        Some(j) => j,
    };
    let (data, j4) = match parse_stats_at(s, j3) {
        None => {
            return None;
        },
        Some(x) => x,
    };
    let j5 = match expect_lit(s, j4, "}") {
        None => {
            return None;
        },
        Some(j) => j,
    };
    Some((crate::stats::StatsResponse { result, data }, j5))
}

/// Reads a whole text that is exactly one rendered snapshot.
pub fn parse_stats(s: &str) -> (r: Option<crate::stats::Stats>)
    ensures
        match r {
            Some(st) => spec_parse_stats(s@) == Some(st@),
            None => spec_parse_stats(s@) is None,
        },
{
    proof {
        assert(s@.skip(0) =~= s@);
    }
    match parse_stats_at(s, 0) {
        None => None,
        Some((st, j)) => {
            let n = s.unicode_len();
            if j == n {
                proof {
                    assert(s@.skip(j as int).len() == 0);
                }
                Some(st)
            } else {
                proof {
                    assert(s@.skip(j as int).len() > 0);
                }
                None
            }
        },
    }
}

/// Reads a whole text that is exactly one rendered response body.
pub fn parse_response(s: &str) -> (r: Option<crate::stats::StatsResponse>)
    ensures
        match r {
            Some(v) => spec_parse_response(s@) == Some(v@),
            None => spec_parse_response(s@) is None,
        },
{
    proof {
        assert(s@.skip(0) =~= s@);
    }
    match parse_response_at(s, 0) {
        None => None,
        Some((v, j)) => {
            let n = s.unicode_len();
            if j == n {
                proof {
                    assert(s@.skip(j as int).len() == 0);
                }
                Some(v)
            } else {
                proof {
                    assert(s@.skip(j as int).len() > 0);
                }
                None
            }
        },
    }
}

/// Law: rendering a snapshot as JSON and reading it back restores every
/// field, for any snapshot whose usage text holds no quote and no
/// backslash (the builder never produces one that does).
pub proof fn lemma_stats_json_round_trip(v: StatsV)
    requires
        stats_v_valid(v),
        json_string_safe(v.cpu_usage),
    ensures
        spec_parse_stats(spec_json_stats(v)) == Some(v),
{
    lemma_p_stats_round(v, Seq::<char>::empty());
    assert(spec_json_stats(v) + Seq::<char>::empty() =~= spec_json_stats(v));
}

/// Law: rendering a whole response body and reading it back restores the
/// flag and every field of the snapshot, under the same conditions.
pub proof fn lemma_response_json_round_trip(v: StatsResponseV)
    requires
        stats_v_valid(v.data),
        json_string_safe(v.data.cpu_usage),
    ensures
        spec_parse_response(spec_json_response(v)) == Some(v),
{
    lemma_p_response_round(v, Seq::<char>::empty());
    assert(spec_json_response(v) + Seq::<char>::empty() =~= spec_json_response(v));
}

/// Law: the fallback snapshot survives the JSON round trip.
pub proof fn lemma_fallback_round_trip()
    ensures
        spec_parse_stats(spec_json_stats(crate::snapshot::spec_fallback_stats())) == Some(
            crate::snapshot::spec_fallback_stats(),
        ),
{
    let c = crate::stats::CpuLoadSampleV { user: 0, nice: 0, system: 0, interrupt: 0, idle: 0 };
    crate::json::lemma_snapshot_text_json_safe(c);
    lemma_stats_json_round_trip(crate::snapshot::spec_fallback_stats());
}

/// Law: every successful snapshot the builder can produce survives the
/// JSON round trip, whatever the sample, load average and memory reading
/// were.
pub proof fn lemma_built_snapshot_round_trip(
    c: crate::stats::CpuLoadSampleV,
    load: Option<crate::stats::Loadavg>,
    m: crate::stats::MemorySnapshot,
)
    ensures
        spec_parse_stats(spec_json_stats(crate::snapshot::spec_full_stats(c, load, m))) == Some(
            crate::snapshot::spec_full_stats(c, load, m),
        ),
{
    crate::json::lemma_snapshot_text_json_safe(c);
    lemma_stats_json_round_trip(crate::snapshot::spec_full_stats(c, load, m));
}

} // verus!
