//! The cell-group indexer: enumerates the cells of a group that carry a
//! given type id, one of two type ids, or a given lock. Absence is no
//! failure; the result is ascending by index, the group's native order.

use vstd::prelude::*;

verus! {

use crate::byteseq::bytes_eq;
use crate::model::Cell;
use crate::model::CellV;
use crate::model::Script;
use crate::model::ScriptV;
use crate::model::cell_has_type;
use crate::model::cells_v;

/// Whether a cell carries one of the two given type ids.
pub open spec fn cell_has_either_type(c: CellV, tid_a: Seq<u8>, tid_b: Seq<u8>) -> bool {
    cell_has_type(c, tid_a) || cell_has_type(c, tid_b)
}

/// The indices below `n` whose cell carries the type id.
pub open spec fn find_by_type_up_to(cells: Seq<CellV>, tid: Seq<u8>, n: int) -> Seq<usize>
    decreases n,
{
    if n <= 0 {
        Seq::empty()
    } else {
        let pre = find_by_type_up_to(cells, tid, n - 1);
        if cell_has_type(cells[n - 1], tid) {
            pre.push((n - 1) as usize)
        } else {
            pre
        }
    }
}

/// The indices of the cells carrying the type id, ascending.
pub open spec fn spec_find_cells_by_type(cells: Seq<CellV>, tid: Seq<u8>) -> Seq<usize> {
    find_by_type_up_to(cells, tid, cells.len() as int)
}

/// The indices below `n` whose cell carries either type id.
pub open spec fn find_by_either_type_up_to(
    cells: Seq<CellV>,
    tid_a: Seq<u8>,
    tid_b: Seq<u8>,
    n: int,
) -> Seq<usize>
    decreases n,
{
    if n <= 0 {
        Seq::empty()
    } else {
        let pre = find_by_either_type_up_to(cells, tid_a, tid_b, n - 1);
        if cell_has_either_type(cells[n - 1], tid_a, tid_b) {
            pre.push((n - 1) as usize)
        } else {
            pre
        }
    }
}

/// The indices of the cells carrying either type id, ascending.
pub open spec fn spec_find_cells_by_either_type(
    cells: Seq<CellV>,
    tid_a: Seq<u8>,
    tid_b: Seq<u8>,
) -> Seq<usize> {
    find_by_either_type_up_to(cells, tid_a, tid_b, cells.len() as int)
}

/// The indices below `n` whose cell carries the lock.
pub open spec fn find_by_lock_up_to(cells: Seq<CellV>, lock: ScriptV, n: int) -> Seq<usize>
    decreases n,
{
    if n <= 0 {
        Seq::empty()
    } else {
        let pre = find_by_lock_up_to(cells, lock, n - 1);
        if cells[n - 1].lock == lock {
            pre.push((n - 1) as usize)
        } else {
            pre
        }
    }
}

/// The indices of the cells carrying the lock, ascending.
pub open spec fn spec_find_cells_by_lock(cells: Seq<CellV>, lock: ScriptV) -> Seq<usize> {
    find_by_lock_up_to(cells, lock, cells.len() as int)
}

/// Every index a type search yields is in bounds, and its cell matches.
pub proof fn lemma_find_by_type_bounds(cells: Seq<CellV>, tid: Seq<u8>, n: int)
    requires
        n <= cells.len(),
        n <= usize::MAX,
    ensures
        forall|k: int|
            0 <= k < find_by_type_up_to(cells, tid, n).len() ==> (#[trigger] find_by_type_up_to(
                cells,
                tid,
                n,
            )[k]) < n && cell_has_type(cells[find_by_type_up_to(cells, tid, n)[k] as int], tid),
    decreases n,
{
    if n > 0 {
        lemma_find_by_type_bounds(cells, tid, n - 1);
        let pre = find_by_type_up_to(cells, tid, n - 1);
        let cur = find_by_type_up_to(cells, tid, n);
        assert forall|k: int| 0 <= k < cur.len() implies (cur[k] < n && cell_has_type(
            cells[cur[k] as int],
            tid,
        )) by {
            if cell_has_type(cells[n - 1], tid) {
                assert(cur == pre.push((n - 1) as usize));
                if k < pre.len() {
                    assert(cur[k] == pre[k]);
                } else {
                    assert(cur.len() == pre.len() + 1);
                    assert(k == pre.len() as int);
                    assert(pre.push((n - 1) as usize)[pre.len() as int] == (n - 1) as usize);
                    assert(cur[k] == (n - 1) as usize);
                }
            } else {
                assert(cur == pre);
            }
        }
    }
}

/// Every index an either-type search yields is in bounds, and its cell
/// matches one of the two ids.
pub proof fn lemma_find_by_either_type_bounds(
    cells: Seq<CellV>,
    tid_a: Seq<u8>,
    tid_b: Seq<u8>,
    n: int,
)
    requires
        n <= cells.len(),
        n <= usize::MAX,
    ensures
        forall|k: int|
            0 <= k < find_by_either_type_up_to(cells, tid_a, tid_b, n).len() ==> (
            #[trigger] find_by_either_type_up_to(cells, tid_a, tid_b, n)[k]) < n
                && cell_has_either_type(
                cells[find_by_either_type_up_to(cells, tid_a, tid_b, n)[k] as int],
                tid_a,
                tid_b,
            ),
    decreases n,
{
    if n > 0 {
        lemma_find_by_either_type_bounds(cells, tid_a, tid_b, n - 1);
        let pre = find_by_either_type_up_to(cells, tid_a, tid_b, n - 1);
        let cur = find_by_either_type_up_to(cells, tid_a, tid_b, n);
        assert forall|k: int| 0 <= k < cur.len() implies (cur[k] < n && cell_has_either_type(
            cells[cur[k] as int],
            tid_a,
            tid_b,
        )) by {
            if cell_has_either_type(cells[n - 1], tid_a, tid_b) {
                assert(cur == pre.push((n - 1) as usize));
                if k < pre.len() {
                    assert(cur[k] == pre[k]);
                } else {
                    assert(cur.len() == pre.len() + 1);
                    assert(k == pre.len() as int);
                    assert(pre.push((n - 1) as usize)[pre.len() as int] == (n - 1) as usize);
                    assert(cur[k] == (n - 1) as usize);
                }
            } else {
                assert(cur == pre);
            }
        }
    }
}

/// Every index a lock search yields is in bounds, and its cell's lock
/// matches.
pub proof fn lemma_find_by_lock_bounds(cells: Seq<CellV>, lock: ScriptV, n: int)
    requires
        n <= cells.len(),
        n <= usize::MAX,
    ensures
        forall|k: int|
            0 <= k < find_by_lock_up_to(cells, lock, n).len() ==> (#[trigger] find_by_lock_up_to(
                cells,
                lock,
                n,
            )[k]) < n && cells[find_by_lock_up_to(cells, lock, n)[k] as int].lock == lock,
    decreases n,
{
    if n > 0 {
        lemma_find_by_lock_bounds(cells, lock, n - 1);
        let pre = find_by_lock_up_to(cells, lock, n - 1);
        let cur = find_by_lock_up_to(cells, lock, n);
        assert forall|k: int| 0 <= k < cur.len() implies (cur[k] < n && cells[cur[k] as int].lock
            == lock) by {
            if cells[n - 1].lock == lock {
                assert(cur == pre.push((n - 1) as usize));
                if k < pre.len() {
                    assert(cur[k] == pre[k]);
                } else {
                    assert(cur.len() == pre.len() + 1);
                    assert(k == pre.len() as int);
                    assert(pre.push((n - 1) as usize)[pre.len() as int] == (n - 1) as usize);
                    assert(cur[k] == (n - 1) as usize);
                }
            } else {
                assert(cur == pre);
            }
        }
    }
}

/// Whether this cell carries the given type id.
fn cell_type_matches(c: &Cell, tid: &[u8]) -> (r: bool)
    ensures
        r == cell_has_type(c@, tid@),
{
    match &c.type_id {
        Option::Some(t) => bytes_eq(t.as_slice(), tid),
        Option::None => false,
    }
}

/// Enumerates the cells of the group carrying the type id, ascending.
pub fn find_cells_by_type_id(cells: &Vec<Cell>, tid: &[u8]) -> (r: Vec<usize>)
    ensures
        r@ == spec_find_cells_by_type(cells_v(cells@), tid@),
{
    let n: usize = cells.len();
    let mut out: Vec<usize> = Vec::new();
    let mut i: usize = 0;
    while i < n
        invariant
            n == cells@.len(),
            i <= n,
            out@ == find_by_type_up_to(cells_v(cells@), tid@, i as int),
        decreases n - i,
    {
        if cell_type_matches(&cells[i], tid) {
            out.push(i);
        }
        proof {
            assert(cells_v(cells@)[i as int] == cells@[i as int]@);
        }
        i += 1;
    }
    out
}

/// Enumerates the cells of the group carrying either type id, ascending.
pub fn find_cells_by_either_type_id(cells: &Vec<Cell>, tid_a: &[u8], tid_b: &[u8]) -> (r: Vec<
    usize,
>)
    ensures
        r@ == spec_find_cells_by_either_type(cells_v(cells@), tid_a@, tid_b@),
{
    let n: usize = cells.len();
    let mut out: Vec<usize> = Vec::new();
    let mut i: usize = 0;
    while i < n
        invariant
            n == cells@.len(),
            i <= n,
            out@ == find_by_either_type_up_to(cells_v(cells@), tid_a@, tid_b@, i as int),
        decreases n - i,
    {
        if cell_type_matches(&cells[i], tid_a) || cell_type_matches(&cells[i], tid_b) {
            out.push(i);
        }
        proof {
            assert(cells_v(cells@)[i as int] == cells@[i as int]@);
        }
        i += 1;
    }
    out
}

/// Enumerates the cells of the group carrying the lock, ascending.
pub fn find_cells_by_lock(cells: &Vec<Cell>, lock: &Script) -> (r: Vec<usize>)
    ensures
        r@ == spec_find_cells_by_lock(cells_v(cells@), lock@),
{
    let n: usize = cells.len();
    let mut out: Vec<usize> = Vec::new();
    let mut i: usize = 0;
    while i < n
        invariant
            n == cells@.len(),
            i <= n,
            out@ == find_by_lock_up_to(cells_v(cells@), lock@, i as int),
        decreases n - i,
    {
        if crate::model::script_eq(&cells[i].lock, lock) {
            out.push(i);
        }
        proof {
            assert(cells_v(cells@)[i as int] == cells@[i as int]@);
        }
        i += 1;
    }
    out
}

} // verus!
