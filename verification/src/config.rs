//! The experiment matrix: configuration cells and their enumeration order.

use vstd::prelude::*;

verus! {

/// One point in the experiment matrix: a record size in bytes, whether the
/// engine uses direct I/O for flush and compaction, and whether each write
/// blocks until it is durable.
#[derive(Clone, Copy, PartialEq, Eq, Structural, Debug)]
pub struct ConfigCell {
    pub record_size: usize,
    pub direct_io: bool,
    pub sync_durability: bool,
}

/// The cell that belongs at coordinates (`io_idx`, `size_idx`, `sync_idx`) of
/// the matrix: index 1 switches the corresponding boolean mode on.
pub open spec fn cell_at(sizes: Seq<usize>, io_idx: int, size_idx: int, sync_idx: int) -> ConfigCell {
    ConfigCell {
        record_size: sizes[size_idx],
        direct_io: io_idx == 1,
        sync_durability: sync_idx == 1,
    }
}

/// Builds the full ordered list of configuration cells for the given record
/// sizes: the Cartesian product of {direct I/O off, on} x record sizes x
/// {asynchronous, synchronous}, with durability varying fastest, record size
/// next, and I/O mode slowest. Cells run strictly in this order, so the
/// reporting order is deterministic.
pub fn build_cells(sizes: &Vec<usize>) -> (cells: Vec<ConfigCell>)
    requires
        4 * sizes@.len() <= usize::MAX,
    ensures
        cells@.len() == 4 * sizes@.len(),
        forall|io_idx: int, size_idx: int, sync_idx: int|
            0 <= io_idx < 2 && 0 <= size_idx < sizes@.len() && 0 <= sync_idx < 2
                ==> cells@[(io_idx * sizes@.len() + size_idx) * 2 + sync_idx]
                    == #[trigger] cell_at(sizes@, io_idx, size_idx, sync_idx),
{
    let n = sizes.len();
    let mut cells: Vec<ConfigCell> = Vec::new();
    let mut io_idx: usize = 0;
    while io_idx < 2
        invariant
            io_idx <= 2,
            4 * sizes@.len() <= usize::MAX,
            n == sizes@.len(),
            cells@.len() == io_idx * n * 2,
            forall|io: int, size: int, sync: int|
                0 <= io < io_idx && 0 <= size < n && 0 <= sync < 2
                    ==> cells@[(io * n + size) * 2 + sync]
                        == #[trigger] cell_at(sizes@, io, size, sync),
        decreases 2 - io_idx,
    {
        let mut size_idx: usize = 0;
        while size_idx < n
            invariant
                io_idx < 2,
                size_idx <= n,
                4 * sizes@.len() <= usize::MAX,
                n == sizes@.len(),
                cells@.len() == io_idx * n * 2 + size_idx * 2,
                forall|io: int, size: int, sync: int|
                    0 <= io < 2 && 0 <= size < n && 0 <= sync < 2
                        && (io < io_idx || (io == io_idx && size < size_idx))
                        ==> cells@[(io * n + size) * 2 + sync]
                            == #[trigger] cell_at(sizes@, io, size, sync),
            decreases n - size_idx,
        {
            let record_size = sizes[size_idx];
            cells.push(ConfigCell { record_size, direct_io: io_idx == 1, sync_durability: false });
            cells.push(ConfigCell { record_size, direct_io: io_idx == 1, sync_durability: true });
            proof {
                assert((io_idx * n + size_idx) * 2 == io_idx * n * 2 + size_idx * 2)
                    by (nonlinear_arith);
            }
            size_idx = size_idx + 1;
        }
        proof {
            assert((io_idx + 1) * n * 2 == io_idx * n * 2 + n * 2) by (nonlinear_arith);
        }
        io_idx = io_idx + 1;
    }
    cells
}

} // verus!
