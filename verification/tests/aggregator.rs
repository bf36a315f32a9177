use kvbench::config::ConfigCell;
use kvbench::errors::BenchError;
use kvbench::stats::summarize;

fn cell() -> ConfigCell {
    ConfigCell { record_size: 4096, direct_io: false, sync_durability: false }
}

#[test]
fn empty_samples_rejected() {
    let samples: Vec<u64> = Vec::new();
    let r = summarize(cell(), &samples, 0, 1_000_000);
    assert!(matches!(r, Err(BenchError::EmptySamples)));
}

#[test]
fn percentiles_of_ten_sorted_samples() {
    // durations 1..=10: p50 at index 5, p90 and p99 clamped to index 9
    let samples: Vec<u64> = vec![1, 2, 3, 4, 5, 6, 7, 8, 9, 10];
    let r = summarize(cell(), &samples, 40960, 1_000_000).unwrap();
    assert_eq!(r.p50_micros, 6);
    assert_eq!(r.p90_micros, 10);
    assert_eq!(r.p99_micros, 10);
}

#[test]
fn percentiles_sort_unsorted_input() {
    let samples: Vec<u64> = vec![5, 1, 9, 3, 7];
    let r = summarize(cell(), &samples, 100, 1_000_000).unwrap();
    // sorted: [1, 3, 5, 7, 9]; indices 2, 4, 4
    assert_eq!(r.p50_micros, 5);
    assert_eq!(r.p90_micros, 9);
    assert_eq!(r.p99_micros, 9);
}

#[test]
fn percentiles_are_monotone() {
    let cases: Vec<Vec<u64>> = vec![
        vec![42],
        vec![9, 9, 9],
        vec![100, 1, 50, 2, 99, 3, 75],
        vec![7, 6, 5, 4, 3, 2, 1],
        (0..1000).map(|i| (i * 37) % 251).collect(),
    ];
    for samples in &cases {
        let r = summarize(cell(), samples, 1, 1).unwrap();
        assert!(r.p50_micros <= r.p90_micros);
        assert!(r.p90_micros <= r.p99_micros);
    }
}

#[test]
fn ten_writes_of_4096_bytes_in_one_second() {
    // 10 writes of 4096 bytes over exactly one second of measured duration
    let samples: Vec<u64> = vec![100_000; 10];
    let r = summarize(cell(), &samples, 10 * 4096, 1_000_000).unwrap();
    assert_eq!(r.writes_per_sec_e3, 10_000); // 10.000 writes per second
    let wps = r.writes_per_sec_e3 as f64 / 1e3;
    assert!((wps - 10.0).abs() < 1e-3);
    // 40960 / 1048576 = 0.0390625 MiB/s
    assert_eq!(r.throughput_mibps_e6, 39_062);
    let tput = r.throughput_mibps_e6 as f64 / 1e6;
    assert!((tput - 0.0390625).abs() < 1e-6);
}

#[test]
fn throughput_matches_synthetic_formula() {
    // n writes of exactly s bytes over t microseconds of measured duration
    let n: u64 = 100;
    let s: u64 = 4096;
    let t: u64 = 2_500_000;
    let samples: Vec<u64> = vec![25_000; n as usize];
    let r = summarize(cell(), &samples, n * s, t).unwrap();
    let expected = (n as f64 * s as f64) / (1024.0 * 1024.0 * (t as f64 / 1e6));
    let got = r.throughput_mibps_e6 as f64 / 1e6;
    assert!((got - expected).abs() < 1e-6);
}

#[test]
fn result_keeps_its_cell() {
    let c = ConfigCell { record_size: 512, direct_io: true, sync_durability: true };
    let samples: Vec<u64> = vec![10, 20, 30];
    let r = summarize(c, &samples, 1536, 1_000).unwrap();
    assert_eq!(r.cell, c);
}
