use kvbench::config::ConfigCell;
use kvbench::errors::BenchError;
use kvbench::run::{sample_durations, summarize_measurement, CorpusRun, RunMeasurement, TimedRun, WriteSample};

fn cell(record_size: usize) -> ConfigCell {
    ConfigCell { record_size, direct_io: false, sync_durability: false }
}

#[test]
fn corpus_run_over_ten_bytes_at_chunk_size_four() {
    let corpus: Vec<u8> = vec![0, 1, 2, 3, 4, 5, 6, 7, 8, 9];
    let mut run = CorpusRun::begin(cell(4), corpus.len());
    let mut seen: Vec<Vec<u8>> = Vec::new();
    let readings: Vec<u64> = vec![30, 10, 20];
    while let Some(chunk) = run.next_chunk(&corpus) {
        seen.push(chunk);
        run.begin_write();
        // the engine put would happen here
        run.record_write(readings[run.total_writes as usize]);
    }
    assert!(run.is_done());
    let m = run.finish(1_000);
    assert_eq!(m.total_writes, 3);
    assert_eq!(m.total_bytes, 10);
    assert_eq!(m.duration_micros, 1_000);
    assert_eq!(m.samples.len(), 3);
    let lens: Vec<usize> = m.samples.iter().map(|s| s.byte_len).collect();
    assert_eq!(lens, vec![4, 4, 2]);
    let micros: Vec<u64> = m.samples.iter().map(|s| s.micros).collect();
    assert_eq!(micros, readings);
    assert_eq!(seen[0], vec![0, 1, 2, 3]);
    assert_eq!(seen[1], vec![4, 5, 6, 7]);
    assert_eq!(seen[2], vec![8, 9]);

    let r = summarize_measurement(&m).unwrap();
    // sorted readings: [10, 20, 30]; indices 1, 2, 2
    assert_eq!(r.p50_micros, 20);
    assert_eq!(r.p90_micros, 30);
    assert_eq!(r.p99_micros, 30);
    // 3 writes in a millisecond: 3000 writes per second
    assert_eq!(r.writes_per_sec_e3, 3_000_000);
}

#[test]
fn corpus_run_over_empty_corpus_writes_nothing() {
    let corpus: Vec<u8> = Vec::new();
    let mut run = CorpusRun::begin(cell(4), corpus.len());
    assert!(run.next_chunk(&corpus).is_none());
    assert!(run.is_done());
    run.begin_write(); // starting the clock without a write is harmless
    let elapsed = run.elapsed_run_micros();
    let m = run.finish(elapsed);
    assert_eq!(m.total_writes, 0);
    assert_eq!(m.total_bytes, 0);
    assert!(matches!(summarize_measurement(&m), Err(BenchError::EmptySamples)));
}

#[test]
fn zero_elapsed_time_is_accounted_as_one_microsecond() {
    let corpus: Vec<u8> = vec![1, 2, 3];
    let mut run = CorpusRun::begin(cell(4), corpus.len());
    while run.next_chunk(&corpus).is_some() {
        run.begin_write();
        run.record_write(run.elapsed_write_micros());
    }
    let m = run.finish(0);
    assert_eq!(m.duration_micros, 1);
}

#[test]
fn timed_run_accounts_whole_records() {
    let mut run = TimedRun::begin(cell(4096));
    for i in 0..10u64 {
        let payload = run.next_payload();
        assert_eq!(payload.len(), 4096);
        run.begin_write();
        // the engine put would happen here
        run.record_write(100 + i);
    }
    // 10 writes of 4096 bytes over exactly one second of measured duration
    let m = run.finish(1_000_000);
    assert_eq!(m.total_writes, 10);
    assert_eq!(m.total_bytes, 10 * 4096);
    assert_eq!(m.duration_micros, 1_000_000);
    assert_eq!(m.samples.len(), 10);
    assert!(m.samples.iter().all(|s| s.byte_len == 4096));
    let r = summarize_measurement(&m).unwrap();
    assert_eq!(r.cell, cell(4096));
    assert_eq!(r.writes_per_sec_e3, 10_000);
    assert_eq!(r.throughput_mibps_e6, 39_062);
    // readings 100..=109: p50 at index 5, p90 and p99 at index 9
    assert_eq!(r.p50_micros, 105);
    assert_eq!(r.p90_micros, 109);
    assert_eq!(r.p99_micros, 109);
}

#[test]
fn timed_run_decides_exactly_on_budget_and_counter() {
    let run = TimedRun::begin(cell(4096));
    assert!(run.should_continue(0, 1_000)); // budget not yet spent
    assert!(!run.should_continue(1_000, 1_000)); // budget exactly spent
    assert!(!run.should_continue(2_000, 1_000)); // budget overspent
    assert!(!run.should_continue(0, 0)); // a zero budget is already spent
}

#[test]
fn summarize_measurement_uses_the_recorded_durations() {
    let samples: Vec<WriteSample> = vec![
        WriteSample { micros: 9, byte_len: 4 },
        WriteSample { micros: 1, byte_len: 4 },
        WriteSample { micros: 5, byte_len: 2 },
    ];
    let m = RunMeasurement {
        cell: cell(4),
        samples,
        total_bytes: 10,
        total_writes: 3,
        duration_micros: 1_000,
    };
    assert_eq!(sample_durations(&m.samples), vec![9, 1, 5]);
    let r = summarize_measurement(&m).unwrap();
    // sorted durations: [1, 5, 9]; indices 1, 2, 2
    assert_eq!(r.p50_micros, 5);
    assert_eq!(r.p90_micros, 9);
    assert_eq!(r.p99_micros, 9);
    // 3 writes in a millisecond: 3000 writes per second
    assert_eq!(r.writes_per_sec_e3, 3_000_000);
}
