//! The run executor: drives one configuration cell, timing every write and
//! collecting the samples.
//!
//! The storage engine is an external collaborator reached only by the caller:
//! a run is a state machine here, and the caller performs each put between
//! `begin_write` and `record_write`. All measurement, workload slicing and
//! sample bookkeeping is verified here; the caller contributes nothing to the
//! statistics but the writes themselves. Before a run starts the caller must
//! destroy any engine state at the working path and open a fresh engine with
//! the cell's options, so no run observes residual data from a prior cell.

use vstd::prelude::*;
use crate::chunks::{ceil_div, chunk_len_at, chunks_of, lemma_chunk_at, sub_vec};
use crate::clock::{elapsed_micros, monotonic_now};
use crate::config::ConfigCell;
use crate::errors::BenchError;
use crate::stats::{summarize, RunResult};

verus! {

/// One measured write: its elapsed duration in microseconds and its payload
/// length in bytes.
#[derive(Clone, Copy, Debug)]
pub struct WriteSample {
    pub micros: u64,
    pub byte_len: usize,
}

/// The durations of a sample sequence, in collection order.
pub open spec fn durations_of(samples: Seq<WriteSample>) -> Seq<u64> {
    samples.map_values(|ws: WriteSample| ws.micros)
}

/// Everything a finished run hands to the aggregator. The sample set is
/// gathered entirely within one configuration cell and one engine instance
/// lifetime; only derived statistics are retained afterwards.
pub struct RunMeasurement {
    pub cell: ConfigCell,
    pub samples: Vec<WriteSample>,
    pub total_bytes: u64,
    pub total_writes: u64,
    pub duration_micros: u64,
}

/// A corpus-bounded run over one configuration cell: exactly one write per
/// chunk until the corpus is exhausted. The final chunk may be shorter than
/// the record size and is still written and counted.
pub struct CorpusRun {
    pub cell: ConfigCell,
    pub corpus_len: usize,
    pub offset: usize,
    pub samples: Vec<WriteSample>,
    pub total_writes: u64,
    pub run_start: std::time::Instant,
    pub write_start: std::time::Instant,
}

impl CorpusRun {
    /// The executor's invariant: the next write starts at `offset`, which the
    /// completed writes cover exactly, and every recorded sample's length is
    /// that of the corresponding corpus chunk.
    pub open spec fn inv(self) -> bool {
        let size = self.cell.record_size as int;
        let len = self.corpus_len as int;
        let w = self.total_writes as int;
        &&& size >= 1
        &&& self.offset <= self.corpus_len
        &&& w * size >= self.offset as int
        &&& (self.offset < self.corpus_len ==> self.offset as int == w * size)
        &&& (w >= 1 ==> (w - 1) * size < len)
        &&& w <= self.offset as int
        &&& self.samples@.len() == w
        &&& forall|i: int| 0 <= i < self.samples@.len()
                ==> (#[trigger] self.samples@[i]).byte_len as int == chunk_len_at(len, size, i)
    }

    /// Starts a corpus-bounded run: no writes yet, the run clock starts now.
    pub fn begin(cell: ConfigCell, corpus_len: usize) -> (r: CorpusRun)
        requires
            cell.record_size >= 1,
        ensures
            r.inv(),
            r.cell == cell,
            r.corpus_len == corpus_len,
            r.total_writes == 0,
            r.offset == 0,
            r.samples@.len() == 0,
    {
        let now = monotonic_now();
        CorpusRun {
            cell,
            corpus_len,
            offset: 0,
            samples: Vec::new(),
            total_writes: 0,
            run_start: now,
            write_start: now,
        }
    }

    /// The payload of the next write: the next unwritten corpus chunk, or
    /// `None` once the corpus is exhausted.
    pub fn next_chunk(&self, corpus: &Vec<u8>) -> (r: Option<Vec<u8>>)
        requires
            self.inv(),
            corpus@.len() == self.corpus_len,
        ensures
            r is Some <==> self.offset < self.corpus_len,
            r matches Some(c) ==> ({
                &&& c@ == chunks_of(corpus@, self.cell.record_size as int)[self.total_writes as int]
                &&& c@.len() == chunk_len_at(
                    self.corpus_len as int,
                    self.cell.record_size as int,
                    self.total_writes as int,
                )
            }),
    {
        if self.offset >= self.corpus_len {
            return None;
        }
        let size = self.cell.record_size;
        let remaining = self.corpus_len - self.offset;
        let end = if remaining < size {
            self.corpus_len
        } else {
            self.offset + size
        };
        let c = sub_vec(corpus, self.offset, end);
        proof {
            let w = self.total_writes as int;
            let sz = size as int;
            let len = self.corpus_len as int;
            assert(w * sz == self.offset as int);
            lemma_chunk_at(corpus@, sz, w);
            assert((w + 1) * sz == w * sz + sz) by (nonlinear_arith);
            assert(c@ =~= corpus@.subrange(w * sz, w * sz + chunk_len_at(len, sz, w)));
        }
        Some(c)
    }

    /// Starts the latency clock for the write about to be issued. The caller
    /// performs the put, then calls `record_write`.
    pub fn begin_write(&mut self)
        requires
            old(self).inv(),
        ensures
            final(self).inv(),
            final(self).cell == old(self).cell,
            final(self).corpus_len == old(self).corpus_len,
            final(self).offset == old(self).offset,
            final(self).samples == old(self).samples,
            final(self).total_writes == old(self).total_writes,
            final(self).run_start == old(self).run_start,
    {
        self.write_start = monotonic_now();
    }

    /// The microseconds elapsed on the latency clock since `begin_write`.
    /// A clock reading: nothing is promised of the value. Hand it to
    /// `record_write`, which is then verified for every value of it.
    pub fn elapsed_write_micros(&self) -> u64 {
        elapsed_micros(&self.write_start)
    }

    /// The microseconds elapsed on the run clock since `begin`. A clock
    /// reading: nothing is promised of the value. Hand it to `finish`.
    pub fn elapsed_run_micros(&self) -> u64 {
        elapsed_micros(&self.run_start)
    }

    /// Records the write that just completed, with `micros` the latency
    /// reading taken for it (`elapsed_write_micros`), and advances past the
    /// chunk that was written: the new state is exactly the old one plus one
    /// sample of that reading and the chunk's length.
    pub fn record_write(&mut self, micros: u64)
        requires
            old(self).inv(),
            old(self).offset < old(self).corpus_len,
        ensures
            final(self).inv(),
            final(self).cell == old(self).cell,
            final(self).corpus_len == old(self).corpus_len,
            final(self).total_writes == old(self).total_writes + 1,
            final(self).samples@ == old(self).samples@.push(
                (WriteSample {
                    micros,
                    byte_len: chunk_len_at(
                        old(self).corpus_len as int,
                        old(self).cell.record_size as int,
                        old(self).total_writes as int,
                    ) as usize,
                }),
            ),
            final(self).offset > old(self).offset,
            final(self).run_start == old(self).run_start,
    {
        let size = self.cell.record_size;
        let remaining = self.corpus_len - self.offset;
        let byte_len = if remaining < size {
            remaining
        } else {
            size
        };
        proof {
            let w = self.total_writes as int;
            let sz = size as int;
            let len = self.corpus_len as int;
            assert((w + 1) * sz == w * sz + sz) by (nonlinear_arith);
            assert(byte_len as int == chunk_len_at(len, sz, w));
        }
        self.samples.push(WriteSample { micros, byte_len });
        self.offset = self.offset + byte_len;
        self.total_writes = self.total_writes + 1;
    }

    /// Whether the corpus is exhausted and the run is complete.
    pub fn is_done(&self) -> (r: bool)
        requires
            self.inv(),
        ensures
            r <==> self.offset == self.corpus_len,
    {
        self.offset == self.corpus_len
    }

    /// Finishes the run, with `elapsed` the run clock's total reading
    /// (`elapsed_run_micros`), and hands back the measurement. The write
    /// count is exactly the corpus's chunk count, and the bytes written are
    /// exactly the corpus. A run that completed within the clock's
    /// resolution is accounted as one microsecond.
    pub fn finish(self, elapsed: u64) -> (m: RunMeasurement)
        requires
            self.inv(),
            self.offset == self.corpus_len,
        ensures
            m.cell == self.cell,
            m.samples@ == self.samples@,
            m.total_writes == ceil_div(self.corpus_len as int, self.cell.record_size as int),
            m.samples@.len() == m.total_writes,
            m.total_bytes == self.corpus_len,
            m.duration_micros == if elapsed == 0 { 1u64 } else { elapsed },
            forall|i: int| 0 <= i < m.samples@.len()
                ==> (#[trigger] m.samples@[i]).byte_len as int == chunk_len_at(
                    self.corpus_len as int,
                    self.cell.record_size as int,
                    i,
                ),
    {
        let duration = if elapsed == 0 {
            1
        } else {
            elapsed
        };
        proof {
            let w = self.total_writes as int;
            let sz = self.cell.record_size as int;
            let len = self.corpus_len as int;
            if len == 0 {
                assert(w == 0);
                assert(ceil_div(0, sz) == 0) by (nonlinear_arith)
                    requires sz >= 1;
            } else {
                assert(w >= 1) by (nonlinear_arith)
                    requires w * sz >= len && len >= 1 && sz >= 1 && w >= 0;
                assert(w == ceil_div(len, sz)) by (nonlinear_arith)
                    requires sz >= 1 && len >= 1 && w >= 1 && (w - 1) * sz < len && w * sz >= len;
            }
        }
        RunMeasurement {
            cell: self.cell,
            samples: self.samples,
            total_bytes: self.offset as u64,
            total_writes: self.total_writes,
            duration_micros: duration,
        }
    }
}

/// A time-bounded run over one configuration cell: synthetic payloads of the
/// cell's record size are written back-to-back until the time budget is
/// spent. The elapsed-time check happens between writes only: the in-flight
/// write that straddles the deadline is completed and counted.
pub struct TimedRun {
    pub cell: ConfigCell,
    pub samples: Vec<WriteSample>,
    pub total_writes: u64,
    pub total_bytes: u64,
    pub run_start: std::time::Instant,
    pub write_start: std::time::Instant,
}

impl TimedRun {
    /// The executor's invariant: every write so far wrote exactly one record.
    pub open spec fn inv(self) -> bool {
        let size = self.cell.record_size as int;
        &&& size >= 1
        &&& self.samples@.len() == self.total_writes
        &&& self.total_bytes as int == self.total_writes as int * size
        &&& forall|i: int| 0 <= i < self.samples@.len()
                ==> (#[trigger] self.samples@[i]).byte_len == self.cell.record_size
    }

    /// Starts a time-bounded run: no writes yet, the run clock starts now.
    pub fn begin(cell: ConfigCell) -> (r: TimedRun)
        requires
            cell.record_size >= 1,
        ensures
            r.inv(),
            r.cell == cell,
            r.total_writes == 0,
            r.samples@.len() == 0,
    {
        let now = monotonic_now();
        proof {
            assert(0 * cell.record_size as int == 0) by (nonlinear_arith);
        }
        TimedRun {
            cell,
            samples: Vec::new(),
            total_writes: 0,
            total_bytes: 0,
            run_start: now,
            write_start: now,
        }
    }

    /// The microseconds elapsed on the run clock since `begin`. A clock
    /// reading: nothing is promised of the value. Hand it to
    /// `should_continue` and `finish`, which are then verified for every
    /// value of it.
    pub fn elapsed_run_micros(&self) -> u64 {
        elapsed_micros(&self.run_start)
    }

    /// The microseconds elapsed on the latency clock since `begin_write`.
    /// A clock reading: nothing is promised of the value. Hand it to
    /// `record_write`.
    pub fn elapsed_write_micros(&self) -> u64 {
        elapsed_micros(&self.write_start)
    }

    /// The between-writes stopping decision, with `elapsed` the run clock's
    /// reading (`elapsed_run_micros`): continue exactly while the time
    /// budget is not yet spent and the byte counter has room for one more
    /// record.
    pub fn should_continue(&self, elapsed: u64, budget_micros: u64) -> (r: bool)
        requires
            self.inv(),
        ensures
            r == (elapsed < budget_micros
                && self.total_bytes as int + self.cell.record_size as int <= u64::MAX as int),
    {
        if elapsed >= budget_micros {
            return false;
        }
        if self.cell.record_size as u64 > u64::MAX - self.total_bytes {
            return false;
        }
        true
    }

    /// The payload of the next write: one synthetic record.
    pub fn next_payload(&self) -> (payload: Vec<u8>)
        ensures
            payload@.len() == self.cell.record_size,
    {
        crate::workload::next_payload(self.cell.record_size)
    }

    /// Starts the latency clock for the write about to be issued. The caller
    /// performs the put, then calls `record_write`.
    pub fn begin_write(&mut self)
        requires
            old(self).inv(),
        ensures
            final(self).inv(),
            final(self).cell == old(self).cell,
            final(self).samples == old(self).samples,
            final(self).total_writes == old(self).total_writes,
            final(self).total_bytes == old(self).total_bytes,
            final(self).run_start == old(self).run_start,
    {
        self.write_start = monotonic_now();
    }

    /// Records the write that just completed, with `micros` the latency
    /// reading taken for it (`elapsed_write_micros`), and accounts one record
    /// of the cell's size: the new state is exactly the old one plus one
    /// sample of that reading and one record's bytes.
    pub fn record_write(&mut self, micros: u64)
        requires
            old(self).inv(),
            old(self).total_bytes as int + old(self).cell.record_size as int <= u64::MAX as int,
        ensures
            final(self).inv(),
            final(self).cell == old(self).cell,
            final(self).total_writes == old(self).total_writes + 1,
            final(self).total_bytes == old(self).total_bytes + old(self).cell.record_size,
            final(self).samples@ == old(self).samples@.push(
                (WriteSample { micros, byte_len: old(self).cell.record_size }),
            ),
            final(self).run_start == old(self).run_start,
    {
        let size = self.cell.record_size;
        proof {
            let w = self.total_writes as int;
            let sz = size as int;
            assert((w + 1) * sz == w * sz + sz) by (nonlinear_arith);
            assert(w <= w * sz) by (nonlinear_arith)
                requires w >= 0 && sz >= 1;
        }
        self.samples.push(WriteSample { micros, byte_len: size });
        self.total_bytes = self.total_bytes + (size as u64);
        self.total_writes = self.total_writes + 1;
    }

    /// Finishes the run, with `elapsed` the run clock's total reading
    /// (`elapsed_run_micros`), and hands back the measurement. Every sample
    /// wrote exactly one record, so the bytes written are the write count
    /// times the record size. A run that completed within the clock's
    /// resolution is accounted as one microsecond.
    pub fn finish(self, elapsed: u64) -> (m: RunMeasurement)
        requires
            self.inv(),
        ensures
            m.cell == self.cell,
            m.samples@ == self.samples@,
            m.total_writes == self.total_writes,
            m.samples@.len() == m.total_writes,
            m.total_bytes as int == m.total_writes as int * self.cell.record_size as int,
            m.duration_micros == if elapsed == 0 { 1u64 } else { elapsed },
            forall|i: int| 0 <= i < m.samples@.len()
                ==> (#[trigger] m.samples@[i]).byte_len == self.cell.record_size,
    {
        let duration = if elapsed == 0 {
            1
        } else {
            elapsed
        };
        RunMeasurement {
            cell: self.cell,
            samples: self.samples,
            total_bytes: self.total_bytes,
            total_writes: self.total_writes,
            duration_micros: duration,
        }
    }
}

/// The durations of the collected samples, in collection order.
pub fn sample_durations(samples: &Vec<WriteSample>) -> (r: Vec<u64>)
    ensures
        r@ == durations_of(samples@),
{
    let mut r: Vec<u64> = Vec::new();
    let mut i: usize = 0;
    while i < samples.len()
        invariant
            i <= samples@.len(),
            r@ == durations_of(samples@.subrange(0, i as int)),
        decreases samples@.len() - i,
    {
        r.push(samples[i].micros);
        proof {
            assert(samples@.subrange(0, i + 1 as int)
                =~= samples@.subrange(0, i as int).push(samples@[i as int]));
            assert(durations_of(samples@.subrange(0, i + 1 as int))
                =~= durations_of(samples@.subrange(0, i as int)).push(samples@[i as int].micros));
        }
        i = i + 1;
    }
    proof {
        assert(samples@.subrange(0, samples@.len() as int) =~= samples@);
    }
    r
}

/// Aggregates a finished run's measurement into its `RunResult`: throughput,
/// write rate and p50/p90/p99 latency, per the aggregator's contract. An
/// empty sample set (an empty corpus, or a budget spent before the first
/// write) is rejected as `EmptySamples`.
pub fn summarize_measurement(m: &RunMeasurement) -> (r: Result<RunResult, BenchError>)
    requires
        m.duration_micros >= 1,
    ensures
        r is Err <==> m.samples@.len() == 0,
        r matches Err(e) ==> e is EmptySamples,
        r matches Ok(rr) ==> ({
            let ss = crate::stats::sorted_samples(durations_of(m.samples@));
            let n = m.samples@.len() as int;
            &&& rr.cell == m.cell
            &&& rr.throughput_mibps_e6 == crate::stats::throughput_mibps_e6(
                m.total_bytes as int,
                m.duration_micros as int,
            )
            &&& rr.writes_per_sec_e3 == crate::stats::writes_per_sec_e3(n, m.duration_micros as int)
            &&& rr.p50_micros == ss[crate::stats::p50_index(n)]
            &&& rr.p90_micros == ss[crate::stats::p90_index(n)]
            &&& rr.p99_micros == ss[crate::stats::p99_index(n)]
            &&& rr.p50_micros <= rr.p90_micros
            &&& rr.p90_micros <= rr.p99_micros
        }),
{
    let durs = sample_durations(&m.samples);
    summarize(m.cell, &durs, m.total_bytes, m.duration_micros)
}

} // verus!
