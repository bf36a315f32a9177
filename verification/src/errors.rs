//! Failures of the benchmark core. The benchmark favours failing fast over
//! resilience: a failed write is never retried, since retrying would distort
//! the latency and throughput statistics.

use vstd::prelude::*;
use crate::config::ConfigCell;

verus! {

/// A fatal benchmark failure.
#[derive(Debug)]
pub enum BenchError {
    /// The storage engine could not be opened with the requested options.
    /// Fatal: aborts the whole matrix.
    EngineOpenFailure { cell: ConfigCell, message: String },
    /// A single put into the engine failed. Fatal to the run: the cell and
    /// the byte offset of the failing write identify where it happened.
    WriteFailure { cell: ConfigCell, byte_offset: u64, message: String },
    /// The aggregator was handed an empty sample sequence, for which
    /// percentiles are undefined.
    EmptySamples,
}

} // verus!
