//! The oracle reader: current height and timestamp come from well-known
//! oracle cells carried in the cell-deps, each holding a single `u64`
//! little-endian payload.

use vstd::prelude::*;

verus! {

use vstd::bytes::spec_u64_from_le_bytes;
use vstd::bytes::u64_from_le_bytes;

use crate::error::ErrorCode;
use crate::indexer::find_cells_by_type_id;
use crate::indexer::lemma_find_by_type_bounds;
use crate::indexer::spec_find_cells_by_type;
use crate::model::Cell;
use crate::model::CellV;
use crate::model::cells_v;

/// The value of the oracle cell of the given kind: there must be exactly one
/// such cell in the group and its data must be exactly eight octets.
pub open spec fn spec_read_oracle(cells: Seq<CellV>, tid: Seq<u8>, missing: ErrorCode) -> Result<
    u64,
    ErrorCode,
> {
    let found = spec_find_cells_by_type(cells, tid);
    if found.len() != 1 {
        Result::Err(missing)
    } else {
        let d = cells[found[0] as int].data;
        if d.len() == 8 {
            Result::Ok(spec_u64_from_le_bytes(d))
        } else {
            Result::Err(ErrorCode::InvalidCellData)
        }
    }
}

/// Reads the single `u64` payload of the oracle cell of the given kind,
/// exactly as `spec_read_oracle` does.
fn read_oracle(cells: &Vec<Cell>, tid: &[u8], missing: ErrorCode) -> (r: Result<u64, ErrorCode>)
    ensures
        r == spec_read_oracle(cells_v(cells@), tid@, missing),
{
    let n: usize = cells.len();
    let found = find_cells_by_type_id(cells, tid);
    if found.len() != 1 {
        return Result::Err(missing);
    }
    proof {
        lemma_find_by_type_bounds(cells_v(cells@), tid@, n as int);
        assert(cells_v(cells@)[found@[0] as int] == cells@[found@[0] as int]@);
    }
    let idx = found[0];
    let cell = &cells[idx];
    if cell.data.len() == 8 {
        proof {
            assert(cell.data@.subrange(0, 8) =~= cell.data@);
        }
        Result::Ok(u64_from_le_bytes(cell.data.as_slice()))
    } else {
        Result::Err(ErrorCode::InvalidCellData)
    }
}

/// The current block height, from the height oracle cell in the cell-deps.
pub open spec fn spec_load_height(cell_deps: Seq<CellV>, height_tid: Seq<u8>) -> Result<
    u64,
    ErrorCode,
> {
    spec_read_oracle(cell_deps, height_tid, ErrorCode::HeightCellIsRequired)
}

/// Reads the current block height from the height oracle cell.
pub fn load_height(cell_deps: &Vec<Cell>, height_tid: &[u8]) -> (r: Result<u64, ErrorCode>)
    ensures
        r == spec_load_height(cells_v(cell_deps@), height_tid@),
{
    read_oracle(cell_deps, height_tid, ErrorCode::HeightCellIsRequired)
}

/// The current timestamp, from the time oracle cell in the cell-deps.
pub open spec fn spec_load_timestamp(cell_deps: Seq<CellV>, time_tid: Seq<u8>) -> Result<
    u64,
    ErrorCode,
> {
    spec_read_oracle(cell_deps, time_tid, ErrorCode::TimeCellIsRequired)
}

/// Reads the current timestamp from the time oracle cell.
pub fn load_timestamp(cell_deps: &Vec<Cell>, time_tid: &[u8]) -> (r: Result<u64, ErrorCode>)
    ensures
        r == spec_load_timestamp(cells_v(cell_deps@), time_tid@),
{
    read_oracle(cell_deps, time_tid, ErrorCode::TimeCellIsRequired)
}

} // verus!
