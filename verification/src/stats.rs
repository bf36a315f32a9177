//! The aggregator: turns a collected sample set into throughput, write rate
//! and tail-latency statistics.
//!
//! Latencies are whole microseconds. Throughput and write rate are reported
//! in fixed point, since the statistics must be exact: MiB/s scaled by 10^6
//! and writes/s scaled by 10^3.

use vstd::prelude::*;
use vstd::relations::{sorted_by, total_ordering};
use vstd::seq_lib::lemma_sorted_unique;
use crate::config::ConfigCell;
use crate::errors::BenchError;

verus! {

/// The ascending order on sample durations.
pub open spec fn duration_le() -> spec_fn(u64, u64) -> bool {
    |a: u64, b: u64| a <= b
}

/// The sample durations sorted in ascending order.
pub open spec fn sorted_samples(s: Seq<u64>) -> Seq<u64> {
    s.sort_by(duration_le())
}

/// The zero-based index of the p50 (median) sample among `n` sorted samples:
/// floor(n / 2), the simple nearest-rank method without interpolation.
pub open spec fn p50_index(n: int) -> int {
    n / 2
}

/// The zero-based index of the p90 sample among `n` sorted samples:
/// floor(n * 0.9).
pub open spec fn p90_index(n: int) -> int {
    (n * 9) / 10
}

/// The zero-based index of the p99 sample among `n` sorted samples:
/// floor(n * 0.99).
pub open spec fn p99_index(n: int) -> int {
    (n * 99) / 100
}

/// Throughput in MiB/s scaled by 10^6:
/// (bytes / 2^20) / (duration in seconds), with duration in microseconds.
pub open spec fn throughput_mibps_e6(total_bytes: int, duration_micros: int) -> int {
    (total_bytes * 1000000000000) / (1048576 * duration_micros)
}

/// Writes per second scaled by 10^3, with duration in microseconds.
pub open spec fn writes_per_sec_e3(total_writes: int, duration_micros: int) -> int {
    (total_writes * 1000000000) / duration_micros
}

/// The statistics derived from one run over one configuration cell.
/// Immutable once produced.
#[derive(Clone, Copy, Debug)]
pub struct RunResult {
    pub cell: ConfigCell,
    /// MiB per second, scaled by 10^6.
    pub throughput_mibps_e6: u128,
    /// Writes per second, scaled by 10^3.
    pub writes_per_sec_e3: u128,
    pub p50_micros: u64,
    pub p90_micros: u64,
    pub p99_micros: u64,
}

/// The fixed-point throughput is exact to within one unit in the last place:
/// for a run that wrote `total_bytes` bytes over `duration_micros` measured
/// microseconds — a synthetic run of `n` writes of exactly `s` bytes has
/// `total_bytes == n * s` — the reported value `q` satisfies
/// `q <= total_bytes * 10^12 / (2^20 * duration_micros) < q + 1`, so scaled
/// back by 10^6 it is the true MiB/s ratio to within 10^-6.
pub proof fn lemma_throughput_fixed_point(total_bytes: int, duration_micros: int)
    requires
        0 <= total_bytes,
        1 <= duration_micros,
    ensures
        1048576 * duration_micros * throughput_mibps_e6(total_bytes, duration_micros)
            <= total_bytes * 1000000000000,
        total_bytes * 1000000000000
            < 1048576 * duration_micros * (throughput_mibps_e6(total_bytes, duration_micros) + 1),
{
    let a = total_bytes * 1000000000000;
    let d = 1048576 * duration_micros;
    assert(1048576 * duration_micros >= 1048576) by (nonlinear_arith)
        requires
            duration_micros >= 1,
    ;
    vstd::arithmetic::div_mod::lemma_fundamental_div_mod(a, d);
    vstd::arithmetic::div_mod::lemma_mod_bound(a, d);
    assert(d * (a / d + 1) == d * (a / d) + d) by (nonlinear_arith);
}

proof fn lemma_duration_le_total()
    ensures
        total_ordering(duration_le()),
{
    let leq = duration_le();
    assert(vstd::relations::reflexive(leq)) by {
        assert(forall|x: u64| #[trigger] leq(x, x));
    }
    assert(vstd::relations::antisymmetric(leq)) by {
        assert(forall|x: u64, y: u64| #[trigger] leq(x, y) && #[trigger] leq(y, x) ==> x == y);
    }
    assert(vstd::relations::transitive(leq)) by {
        assert(forall|x: u64, y: u64, z: u64| #[trigger] leq(x, y) && #[trigger] leq(y, z) ==> leq(x, z));
    }
    assert(vstd::relations::strongly_connected(leq)) by {
        assert(forall|x: u64, y: u64| #[trigger] leq(x, y) || #[trigger] leq(y, x));
    }
}

/// A sorted reordering of a duration sequence is exactly `sorted_samples` of
/// it: the sorted permutation of a sample set is unique.
pub proof fn lemma_sorted_samples_unique(s: Seq<u64>, t: Seq<u64>)
    requires
        sorted_by(t, duration_le()),
        s.to_multiset() == t.to_multiset(),
    ensures
        t == sorted_samples(s),
{
    lemma_duration_le_total();
    s.lemma_sort_by_ensures(duration_le());
    lemma_sorted_unique(t, sorted_samples(s), duration_le());
}

/// Relies on `slice::sort_unstable` (reached through `Vec`'s deref): sorts
/// the vector in ascending order, reordering its elements without adding or
/// removing any.
#[verifier::external_body]
fn sort_ascending(v: &mut Vec<u64>)
    ensures
        final(v)@.len() == old(v)@.len(),
        sorted_by(final(v)@, duration_le()),
        final(v)@.to_multiset() == old(v)@.to_multiset(),
{
    v.sort_unstable();
}

fn copy_durations(v: &Vec<u64>) -> (r: Vec<u64>)
    ensures
        r@ == v@,
{
    let mut r: Vec<u64> = Vec::new();
    let mut i: usize = 0;
    while i < v.len()
        invariant
            i <= v@.len(),
            r@ == v@.subrange(0, i as int),
        decreases v@.len() - i,
    {
        r.push(v[i]);
        assert(r@ =~= v@.subrange(0, i + 1 as int));
        i = i + 1;
    }
    assert(r@ =~= v@);
    r
}

/// Summarizes one run's collected samples into a `RunResult`.
///
/// The percentiles are taken from the samples sorted ascending, at the
/// nearest-rank indices; an empty sample sequence has no percentiles and is
/// rejected rather than read out of bounds. The p50/p90/p99 values are
/// monotonically non-decreasing.
pub fn summarize(cell: ConfigCell, samples: &Vec<u64>, total_bytes: u64, duration_micros: u64) -> (r: Result<
    RunResult,
    BenchError,
>)
    requires
        duration_micros >= 1,
    ensures
        r is Err <==> samples@.len() == 0,
        r matches Err(e) ==> e is EmptySamples,
        r matches Ok(rr) ==> ({
            let ss = sorted_samples(samples@);
            let n = samples@.len() as int;
            &&& rr.cell == cell
            &&& rr.throughput_mibps_e6 == throughput_mibps_e6(total_bytes as int, duration_micros as int)
            &&& rr.writes_per_sec_e3 == writes_per_sec_e3(n, duration_micros as int)
            &&& rr.p50_micros == ss[p50_index(n)]
            &&& rr.p90_micros == ss[p90_index(n)]
            &&& rr.p99_micros == ss[p99_index(n)]
            &&& rr.p50_micros <= rr.p90_micros
            &&& rr.p90_micros <= rr.p99_micros
        }),
{
    let n = samples.len();
    if n == 0 {
        return Err(BenchError::EmptySamples);
    }
    let mut sorted = copy_durations(samples);
    sort_ascending(&mut sorted);
    proof {
        lemma_sorted_samples_unique(samples@, sorted@);
    }
    let i50 = n / 2;
    let i90 = ((n as u128) * 9 / 10) as usize;
    let i99 = ((n as u128) * 99 / 100) as usize;
    proof {
        assert(n as int / 2 < n as int);
        assert((n as int * 9) / 10 < n as int) by (nonlinear_arith)
            requires n as int >= 1;
        assert((n as int * 99) / 100 < n as int) by (nonlinear_arith)
            requires n as int >= 1;
        assert(n as int / 2 <= (n as int * 9) / 10) by (nonlinear_arith)
            requires n as int >= 1;
        assert((n as int * 9) / 10 <= (n as int * 99) / 100) by (nonlinear_arith)
            requires n as int >= 1;
    }
    let p50 = sorted[i50];
    let p90 = sorted[i90];
    let p99 = sorted[i99];
    proof {
        let leq = duration_le();
        if i50 < i90 {
            assert(leq(sorted@[i50 as int], sorted@[i90 as int]));
        }
        if i90 < i99 {
            assert(leq(sorted@[i90 as int], sorted@[i99 as int]));
        }
    }
    let throughput: u128 = ((total_bytes as u128) * 1000000000000) / (1048576 * (duration_micros as u128));
    let wps: u128 = ((n as u128) * 1000000000) / (duration_micros as u128);
    Ok(RunResult {
        cell,
        throughput_mibps_e6: throughput,
        writes_per_sec_e3: wps,
        p50_micros: p50,
        p90_micros: p90,
        p99_micros: p99,
    })
}

} // verus!
