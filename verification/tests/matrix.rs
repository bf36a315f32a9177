use kvbench::config::{build_cells, ConfigCell};

#[test]
fn full_matrix_size() {
    let sizes: Vec<usize> = vec![4096, 8192, 16384, 32768, 65536, 524288, 1048576];
    let cells = build_cells(&sizes);
    assert_eq!(cells.len(), 4 * sizes.len());
}

#[test]
fn enumeration_order_is_durability_fastest_io_slowest() {
    let sizes: Vec<usize> = vec![4096, 8192];
    let cells = build_cells(&sizes);
    let expected = vec![
        ConfigCell { record_size: 4096, direct_io: false, sync_durability: false },
        ConfigCell { record_size: 4096, direct_io: false, sync_durability: true },
        ConfigCell { record_size: 8192, direct_io: false, sync_durability: false },
        ConfigCell { record_size: 8192, direct_io: false, sync_durability: true },
        ConfigCell { record_size: 4096, direct_io: true, sync_durability: false },
        ConfigCell { record_size: 4096, direct_io: true, sync_durability: true },
        ConfigCell { record_size: 8192, direct_io: true, sync_durability: false },
        ConfigCell { record_size: 8192, direct_io: true, sync_durability: true },
    ];
    assert_eq!(cells, expected);
}

#[test]
fn empty_size_list_gives_empty_matrix() {
    let sizes: Vec<usize> = Vec::new();
    let cells = build_cells(&sizes);
    assert!(cells.is_empty());
}
