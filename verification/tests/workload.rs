use kvbench::workload::{generate_random_key, next_payload};

#[test]
fn keys_are_100_alphanumeric_bytes() {
    for _ in 0..50 {
        let key = generate_random_key();
        assert_eq!(key.len(), 100);
        assert!(key.iter().all(|b| b.is_ascii_alphanumeric()));
    }
}

#[test]
fn keys_are_effectively_unique() {
    let a = generate_random_key();
    let b = generate_random_key();
    // collisions are possible in principle, but vanishingly unlikely
    assert_ne!(a, b);
}

#[test]
fn payloads_have_the_requested_size() {
    for size in [0usize, 1, 100, 4096] {
        let payload = next_payload(size);
        assert_eq!(payload.len(), size);
    }
}

#[test]
fn payloads_are_fresh_random_bytes() {
    let a = next_payload(4096);
    let b = next_payload(4096);
    // two independently generated 4 KiB payloads never coincide in practice
    assert_ne!(a, b);
}
