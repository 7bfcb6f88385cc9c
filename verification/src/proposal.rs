//! The ProposalCell validator: the proposal pipeline that atomically
//! converts PreAccountCells into linked-list AccountCells.
//!
//! A proposal's slices describe insertion intervals of the global account
//! ring. `propose` and `extend_proposal` check slice structure and bind each
//! item to a relevant cell in the cell-deps; `confirm_proposal` checks the
//! execution result cell by cell and reconciles the fee split in the
//! IncomeCell; `recycle_proposal` refunds a proposal that was never
//! confirmed.

use vstd::prelude::*;

verus! {

use vstd::slice::slice_to_vec;

use crate::byteseq::any_bytes_eq;
use crate::byteseq::bytes_eq;
use crate::byteseq::bytes_lt;
use crate::byteseq::contains_bytes;
use crate::byteseq::copy_range;
use crate::byteseq::lex_lt;
use crate::byteseq::views_of;
use crate::codec::read_u64_at;
use crate::entity::ProposalItem;
use crate::entity::ProposalItemV;
use crate::entity::items_v;
use crate::entity::slices_v;
use crate::error::ErrorCode;
use crate::model::Cell;
use crate::model::CellV;
use crate::model::Config;
use crate::model::ConfigV;
use crate::model::Script;
use crate::model::ScriptV;
use crate::model::ITEM_TYPE_EXIST;
use crate::model::ITEM_TYPE_NEW;
use crate::model::ITEM_TYPE_PROPOSED;
use crate::model::data_account;
use crate::model::data_expired_at;
use crate::model::data_hash;
use crate::model::data_id;
use crate::model::data_next;

// ---------------------------------------------------------------------------
// Cell-data accessors.
// ---------------------------------------------------------------------------

/// Copies the 20-octet id out of a cell's data.
pub fn get_id(data: &[u8]) -> (r: Vec<u8>)
    requires
        data@.len() >= 52,
    ensures
        r@ == data_id(data@),
{
    copy_range(data, 32, 52)
}

/// Copies the 20-octet next pointer out of an AccountCell's data.
pub fn get_next(data: &[u8]) -> (r: Vec<u8>)
    requires
        data@.len() >= 72,
    ensures
        r@ == data_next(data@),
{
    copy_range(data, 52, 72)
}

/// Reads the expiry timestamp out of an AccountCell's data.
pub fn get_expired_at(data: &[u8]) -> (r: u64)
    requires
        data@.len() >= 80,
    ensures
        r == data_expired_at(data@),
{
    read_u64_at(data, 72)
}

/// Copies the stored account name out of an AccountCell's data.
pub fn get_account(data: &[u8]) -> (r: Vec<u8>)
    requires
        data@.len() >= 80,
    ensures
        r@ == data_account(data@),
{
    let n: usize = data.len();
    copy_range(data, 80, n)
}

// ---------------------------------------------------------------------------
// Slice structural check.
// ---------------------------------------------------------------------------

/// The state the structural check threads through the slices: the account
/// ids already committed, and the three counters.
pub struct SliceState {
    pub exists: Seq<Seq<u8>>,
    pub account_cells: int,
    pub pre_cells: int,
    pub total: int,
}

/// The item count of the slices from position `i` on.
pub open spec fn total_items_from(slices: Seq<Seq<ProposalItemV>>, i: int) -> int
    decreases slices.len() - i,
{
    if i < 0 || i >= slices.len() {
        0int
    } else {
        slices[i].len() + total_items_from(slices, i + 1)
    }
}

/// The item count of a whole slice list.
pub open spec fn total_items(slices: Seq<Seq<ProposalItemV>>) -> int {
    total_items_from(slices, 0)
}

/// One slice's items from position `k` on: the head must not be New, every
/// other item must be; no id may reappear; every `next` must name the
/// following item's id. Ids are committed as they pass.
pub open spec fn check_items(sl: Seq<ProposalItemV>, k: int, st: SliceState) -> Result<
    SliceState,
    ErrorCode,
>
    decreases sl.len() - k,
{
    if k < 0 || k >= sl.len() {
        Result::Ok(st)
    } else {
        let item = sl[k];
        if k == 0 && item.item_type == ITEM_TYPE_NEW {
            Result::Err(ErrorCode::ProposalCellTypeError)
        } else if k != 0 && item.item_type != ITEM_TYPE_NEW {
            Result::Err(ErrorCode::ProposalCellTypeError)
        } else if k != 0 && contains_bytes(st.exists, item.account_id) {
            Result::Err(ErrorCode::ProposalSliceItemMustBeUniqueAccount)
        } else if k + 1 < sl.len() && item.next != sl[k + 1].account_id {
            Result::Err(ErrorCode::ProposalSliceIsDiscontinuity)
        } else {
            check_items(
                sl,
                k + 1,
                SliceState {
                    exists: st.exists.push(item.account_id),
                    account_cells: st.account_cells + if k == 0 {
                        1int
                    } else {
                        0int
                    },
                    pre_cells: st.pre_cells + if k != 0 {
                        1int
                    } else {
                        0int
                    },
                    total: st.total + 1,
                },
            )
        }
    }
}

/// Strictly ascending account ids, under big-endian octet comparison.
pub open spec fn ascending_ids(sl: Seq<ProposalItemV>) -> bool {
    forall|j: int| 0 <= j < sl.len() - 1 ==> lex_lt(sl[j].account_id, (#[trigger] sl[j + 1]).account_id)
}

/// One whole slice: at least two items, the first and the sentinel next
/// committed up front, every item checked, and the ids in ascending order.
pub open spec fn check_slice(sl: Seq<ProposalItemV>, st: SliceState) -> Result<
    SliceState,
    ErrorCode,
> {
    if sl.len() < 2 {
        Result::Err(ErrorCode::ProposalSliceMustContainMoreThanOneElement)
    } else {
        let st0 = SliceState {
            exists: st.exists.push(sl[0].account_id).push(sl[sl.len() - 1].next),
            account_cells: st.account_cells,
            pre_cells: st.pre_cells,
            total: st.total,
        };
        match check_items(sl, 0, st0) {
            Result::Err(e) => Result::Err(e),
            Result::Ok(st1) => if ascending_ids(sl) {
                Result::Ok(st1)
            } else {
                Result::Err(ErrorCode::ProposalSliceIsNotSorted)
            },
        }
    }
}

/// The slices from position `i` on, in order.
pub open spec fn check_slices_from(slices: Seq<Seq<ProposalItemV>>, i: int, st: SliceState) -> Result<
    SliceState,
    ErrorCode,
>
    decreases slices.len() - i,
{
    if i < 0 || i >= slices.len() {
        Result::Ok(st)
    } else {
        match check_slice(slices[i], st) {
            Result::Err(e) => Result::Err(e),
            Result::Ok(st1) => check_slices_from(slices, i + 1, st1),
        }
    }
}

/// The structural check of a whole slice list: non-empty, every slice sound,
/// and the two counters strictly under their configured bounds. Yields the
/// total item count.
pub open spec fn spec_verify_slices(slices: Seq<Seq<ProposalItemV>>, c: ConfigV) -> Result<
    int,
    ErrorCode,
> {
    if slices.len() == 0 {
        Result::Err(ErrorCode::ProposalSlicesCanNotBeEmpty)
    } else {
        let st0 = SliceState { exists: Seq::empty(), account_cells: 0, pre_cells: 0, total: 0 };
        match check_slices_from(slices, 0, st0) {
            Result::Err(e) => Result::Err(e),
            Result::Ok(st) => if st.account_cells >= c.proposal_max_account_affect {
                Result::Err(ErrorCode::ProposalFoundInvalidTransaction)
            } else if st.pre_cells >= c.proposal_max_pre_account_contain {
                Result::Err(ErrorCode::ProposalFoundInvalidTransaction)
            } else {
                Result::Ok(st.total)
            },
        }
    }
}

/// The executable scan state behind [`SliceState`].
pub struct SliceScan {
    pub exists: Vec<Vec<u8>>,
    pub account_cells: usize,
    pub pre_cells: usize,
    pub total: usize,
}

impl View for SliceScan {
    type V = SliceState;

    open spec fn view(&self) -> SliceState {
        SliceState {
            exists: views_of(self.exists@),
            account_cells: self.account_cells as int,
            pre_cells: self.pre_cells as int,
            total: self.total as int,
        }
    }
}

/// The counters never outrun the committed-id list, which keeps them within
/// machine range.
pub open spec fn scan_wf(s: SliceScan) -> bool {
    &&& s.account_cells <= s.exists@.len()
    &&& s.pre_cells <= s.exists@.len()
    &&& s.total <= s.exists@.len()
}

/// Decides `ascending_ids`.
fn is_ascending(sl: &Vec<ProposalItem>) -> (r: bool)
    ensures
        r == ascending_ids(items_v(sl@)),
{
    let n: usize = sl.len();
    if n == 0 {
        return true;
    }
    let mut i: usize = 0;
    while i < n - 1
        invariant
            n == sl@.len(),
            n >= 1,
            i <= n - 1,
            forall|j: int|
                0 <= j < i ==> lex_lt(
                    items_v(sl@)[j].account_id,
                    (#[trigger] items_v(sl@)[j + 1]).account_id,
                ),
        decreases n - i,
    {
        if !bytes_lt(sl[i].account_id.as_slice(), sl[i + 1].account_id.as_slice()) {
            proof {
                assert(items_v(sl@)[i as int] == sl@[i as int]@);
                assert(items_v(sl@)[i + 1] == sl@[i + 1]@);
            }
            return false;
        }
        proof {
            assert(items_v(sl@)[i as int] == sl@[i as int]@);
            assert(items_v(sl@)[i + 1] == sl@[i + 1]@);
        }
        i += 1;
    }
    true
}

/// Runs the item checks of one slice from position `k`, exactly as
/// `check_items` reads them.
fn check_items_rec(sl: &Vec<ProposalItem>, k: usize, scan: SliceScan) -> (r: Result<
    SliceScan,
    ErrorCode,
>)
    requires
        k <= sl@.len(),
        scan_wf(scan),
    ensures
        match r {
            Result::Ok(out) => check_items(items_v(sl@), k as int, scan@) == Result::<
                SliceState,
                ErrorCode,
            >::Ok(out@) && scan_wf(out),
            Result::Err(e) => check_items(items_v(sl@), k as int, scan@) == Result::<
                SliceState,
                ErrorCode,
            >::Err(e),
        },
    decreases sl@.len() - k,
{
    let n: usize = sl.len();
    if k >= n {
        return Result::Ok(scan);
    }
    proof {
        assert(items_v(sl@)[k as int] == sl@[k as int]@);
    }
    let item = &sl[k];
    if k == 0 && item.item_type == ITEM_TYPE_NEW {
        return Result::Err(ErrorCode::ProposalCellTypeError);
    }
    if k != 0 && item.item_type != ITEM_TYPE_NEW {
        return Result::Err(ErrorCode::ProposalCellTypeError);
    }
    if k != 0 && any_bytes_eq(&scan.exists, item.account_id.as_slice()) {
        return Result::Err(ErrorCode::ProposalSliceItemMustBeUniqueAccount);
    }
    if k + 1 < n {
        proof {
            assert(items_v(sl@)[k + 1] == sl@[k + 1]@);
        }
        if !bytes_eq(item.next.as_slice(), sl[k + 1].account_id.as_slice()) {
            return Result::Err(ErrorCode::ProposalSliceIsDiscontinuity);
        }
    }
    let SliceScan { mut exists, account_cells, pre_cells, total } = scan;
    let ghost pre_exists = views_of(exists@);
    exists.push(slice_to_vec(item.account_id.as_slice()));
    let el: usize = exists.len();
    proof {
        assert(views_of(exists@) =~= pre_exists.push(item.account_id@));
        assert(el == views_of(exists@).len());
    }
    let next_scan = SliceScan {
        exists,
        account_cells: if k == 0 {
            account_cells + 1
        } else {
            account_cells
        },
        pre_cells: if k != 0 {
            pre_cells + 1
        } else {
            pre_cells
        },
        total: total + 1,
    };
    check_items_rec(sl, k + 1, next_scan)
}

/// Runs the checks of one whole slice, exactly as `check_slice` reads them.
fn check_slice_rec(sl: &Vec<ProposalItem>, scan: SliceScan) -> (r: Result<SliceScan, ErrorCode>)
    requires
        scan_wf(scan),
    ensures
        match r {
            Result::Ok(out) => check_slice(items_v(sl@), scan@) == Result::<
                SliceState,
                ErrorCode,
            >::Ok(out@) && scan_wf(out),
            Result::Err(e) => check_slice(items_v(sl@), scan@) == Result::<
                SliceState,
                ErrorCode,
            >::Err(e),
        },
{
    let n: usize = sl.len();
    if n < 2 {
        return Result::Err(ErrorCode::ProposalSliceMustContainMoreThanOneElement);
    }
    let SliceScan { mut exists, account_cells, pre_cells, total } = scan;
    let ghost pre_exists = views_of(exists@);
    exists.push(slice_to_vec(sl[0].account_id.as_slice()));
    exists.push(slice_to_vec(sl[n - 1].next.as_slice()));
    proof {
        assert(items_v(sl@)[0] == sl@[0]@);
        assert(items_v(sl@)[n - 1] == sl@[n - 1]@);
        assert(views_of(exists@) =~= pre_exists.push(items_v(sl@)[0].account_id).push(
            items_v(sl@)[n - 1].next,
        ));
    }
    let st0 = SliceScan { exists, account_cells, pre_cells, total };
    proof {
        assert(st0@.exists.len() == pre_exists.len() + 2);
    }
    match check_items_rec(sl, 0, st0) {
        Result::Err(e) => Result::Err(e),
        Result::Ok(st1) => {
            if is_ascending(sl) {
                Result::Ok(st1)
            } else {
                Result::Err(ErrorCode::ProposalSliceIsNotSorted)
            }
        },
    }
}

/// Runs the checks of the slices from position `i` on, exactly as
/// `check_slices_from` reads them.
fn check_slices_rec(slices: &Vec<Vec<ProposalItem>>, i: usize, scan: SliceScan) -> (r: Result<
    SliceScan,
    ErrorCode,
>)
    requires
        i <= slices@.len(),
        scan_wf(scan),
    ensures
        match r {
            Result::Ok(out) => check_slices_from(slices_v(slices@), i as int, scan@) == Result::<
                SliceState,
                ErrorCode,
            >::Ok(out@) && scan_wf(out),
            Result::Err(e) => check_slices_from(slices_v(slices@), i as int, scan@) == Result::<
                SliceState,
                ErrorCode,
            >::Err(e),
        },
    decreases slices@.len() - i,
{
    let n: usize = slices.len();
    if i >= n {
        return Result::Ok(scan);
    }
    proof {
        assert(slices_v(slices@)[i as int] == items_v(slices@[i as int]@));
    }
    match check_slice_rec(&slices[i], scan) {
        Result::Err(e) => Result::Err(e),
        Result::Ok(st1) => check_slices_rec(slices, i + 1, st1),
    }
}

/// Runs the slice structural check, deciding exactly `spec_verify_slices`;
/// an accepted slice list's item count comes back.
pub fn verify_slices(slices: &Vec<Vec<ProposalItem>>, config: &Config) -> (r: Result<
    usize,
    ErrorCode,
>)
    ensures
        match r {
            Result::Ok(n) => spec_verify_slices(slices_v(slices@), config@) == Result::<
                int,
                ErrorCode,
            >::Ok(n as int),
            Result::Err(e) => spec_verify_slices(slices_v(slices@), config@) == Result::<
                int,
                ErrorCode,
            >::Err(e),
        },
{
    if slices.len() == 0 {
        return Result::Err(ErrorCode::ProposalSlicesCanNotBeEmpty);
    }
    let scan0 = SliceScan { exists: Vec::new(), account_cells: 0, pre_cells: 0, total: 0 };
    proof {
        assert(scan0@.exists =~= Seq::<Seq<u8>>::empty());
    }
    match check_slices_rec(slices, 0, scan0) {
        Result::Err(e) => Result::Err(e),
        Result::Ok(st) => {
            if st.account_cells >= config.proposal_max_account_affect as usize {
                Result::Err(ErrorCode::ProposalFoundInvalidTransaction)
            } else if st.pre_cells >= config.proposal_max_pre_account_contain as usize {
                Result::Err(ErrorCode::ProposalFoundInvalidTransaction)
            } else {
                Result::Ok(st.total)
            }
        },
    }
}

// ---------------------------------------------------------------------------
// What an accepted structural check says of the slices.
// ---------------------------------------------------------------------------

/// The structural soundness of one slice: at least two items, the head not
/// New and the rest New, chained nexts, strictly ascending ids.
pub open spec fn slice_well_formed(sl: Seq<ProposalItemV>) -> bool {
    &&& sl.len() >= 2
    &&& sl[0].item_type != ITEM_TYPE_NEW
    &&& forall|j: int| 0 < j < sl.len() ==> (#[trigger] sl[j]).item_type == ITEM_TYPE_NEW
    &&& forall|j: int| 0 <= j < sl.len() - 1 ==> (#[trigger] sl[j]).next == sl[j + 1].account_id
    &&& ascending_ids(sl)
}

/// Item checks that pass promise the chained nexts and the item-type
/// pattern, and raise the total by the items they passed.
proof fn lemma_check_items_props(sl: Seq<ProposalItemV>, k: int, st: SliceState)
    requires
        0 <= k <= sl.len(),
        check_items(sl, k, st) is Ok,
    ensures
        check_items(sl, k, st) matches Result::Ok(st2) && st2.total == st.total + (sl.len() - k),
        forall|j: int| k <= j < sl.len() - 1 ==> (#[trigger] sl[j]).next == sl[j + 1].account_id,
        forall|j: int|
            k <= j < sl.len() && j != 0 ==> (#[trigger] sl[j]).item_type == ITEM_TYPE_NEW,
        k == 0 && k < sl.len() ==> sl[0].item_type != ITEM_TYPE_NEW,
    decreases sl.len() - k,
{
    if k < sl.len() {
        let item = sl[k];
        let st1 = SliceState {
            exists: st.exists.push(item.account_id),
            account_cells: st.account_cells + if k == 0 {
                1int
            } else {
                0int
            },
            pre_cells: st.pre_cells + if k != 0 {
                1int
            } else {
                0int
            },
            total: st.total + 1,
        };
        lemma_check_items_props(sl, k + 1, st1);
    }
}

/// A slice that passes its checks is structurally sound, and raises the
/// total by its length.
proof fn lemma_check_slice_props(sl: Seq<ProposalItemV>, st: SliceState)
    requires
        check_slice(sl, st) is Ok,
    ensures
        check_slice(sl, st) matches Result::Ok(st2) && st2.total == st.total + sl.len(),
        slice_well_formed(sl),
{
    let st0 = SliceState {
        exists: st.exists.push(sl[0].account_id).push(sl[sl.len() - 1].next),
        account_cells: st.account_cells,
        pre_cells: st.pre_cells,
        total: st.total,
    };
    lemma_check_items_props(sl, 0, st0);
}

/// Slices that pass from position `i` on are each structurally sound, and
/// raise the total by their item count.
proof fn lemma_check_slices_props(slices: Seq<Seq<ProposalItemV>>, i: int, st: SliceState)
    requires
        0 <= i <= slices.len(),
        check_slices_from(slices, i, st) is Ok,
    ensures
        check_slices_from(slices, i, st) matches Result::Ok(st2) && st2.total == st.total
            + total_items_from(slices, i),
        forall|si: int| i <= si < slices.len() ==> slice_well_formed(#[trigger] slices[si]),
    decreases slices.len() - i,
{
    if i < slices.len() {
        lemma_check_slice_props(slices[i], st);
        match check_slice(slices[i], st) {
            Result::Ok(st1) => {
                lemma_check_slices_props(slices, i + 1, st1);
            },
            Result::Err(_) => {},
        }
    }
}

/// An accepted structural check promises, of every slice: the chained
/// nexts, the item-type pattern, and strictly ascending ids; and its count
/// is the slices' item count.
pub proof fn lemma_verify_slices_ok(slices: Seq<Seq<ProposalItemV>>, c: ConfigV)
    requires
        spec_verify_slices(slices, c) is Ok,
    ensures
        forall|si: int| 0 <= si < slices.len() ==> slice_well_formed(#[trigger] slices[si]),
        spec_verify_slices(slices, c) == Result::<int, ErrorCode>::Ok(total_items(slices)),
{
    let st0 = SliceState { exists: Seq::empty(), account_cells: 0, pre_cells: 0, total: 0 };
    lemma_check_slices_props(slices, 0, st0);
}

// ---------------------------------------------------------------------------
// Slice-to-cell binding.
// ---------------------------------------------------------------------------

/// The all-zero account id the tracked next starts from.
pub open spec fn zero_id() -> Seq<u8> {
    Seq::new(20, |i: int| 0u8)
}

/// The item count of the slices from `i` on is never negative.
pub proof fn lemma_total_items_nonneg(slices: Seq<Seq<ProposalItemV>>, i: int)
    ensures
        total_items_from(slices, i) >= 0,
    decreases slices.len() - i,
{
    if 0 <= i && i < slices.len() {
        lemma_total_items_nonneg(slices, i + 1);
    }
}

/// The first item from position `j` on whose account id is `id`.
pub open spec fn find_item_in_items_from(items: Seq<ProposalItemV>, j: int, id: Seq<u8>) -> Option<
    ProposalItemV,
>
    decreases items.len() - j,
{
    if j < 0 || j >= items.len() {
        Option::None
    } else if items[j].account_id == id {
        Option::Some(items[j])
    } else {
        find_item_in_items_from(items, j + 1, id)
    }
}

/// The first item in the slices from position `si` on whose account id is
/// `id`.
pub open spec fn find_item_from(slices: Seq<Seq<ProposalItemV>>, si: int, id: Seq<u8>) -> Option<
    ProposalItemV,
>
    decreases slices.len() - si,
{
    if si < 0 || si >= slices.len() {
        Option::None
    } else {
        match find_item_in_items_from(slices[si], 0, id) {
            Option::Some(it) => Option::Some(it),
            Option::None => find_item_from(slices, si + 1, id),
        }
    }
}

/// What binding demands of one item and its relevant cell: the expected
/// type id for its kind, and the id held in the cell's data.
pub open spec fn bind_item_cell(c: ConfigV, item: ProposalItemV, cell: crate::model::CellV) -> Result<
    (),
    ErrorCode,
> {
    let expected_tid = if item.item_type == ITEM_TYPE_EXIST {
        c.type_id_table.account_cell
    } else {
        c.type_id_table.pre_account_cell
    };
    match cell.type_id {
        Option::None => Result::Err(ErrorCode::ProposalSliceRelatedCellNotFound),
        Option::Some(t) => if t != expected_tid {
            Result::Err(ErrorCode::ProposalCellTypeError)
        } else if cell.data.len() < 52 {
            Result::Err(ErrorCode::InvalidCellData)
        } else if data_id(cell.data) != item.account_id {
            Result::Err(ErrorCode::ProposalCellAccountIdError)
        } else {
            Result::Ok(())
        },
    }
}

/// The tracked next of a slice's first item: without a parent proposal the
/// item must be Exist and the next comes from the cell's data; with one, the
/// item may also be Proposed, and a parent item with the same id hands its
/// next on, the cell's data standing in when there is none.
pub open spec fn tracked_next_of_first(
    item: ProposalItemV,
    cell: crate::model::CellV,
    prev: Option<Seq<Seq<ProposalItemV>>>,
) -> Result<Seq<u8>, ErrorCode> {
    match prev {
        Option::None => {
            if item.item_type != ITEM_TYPE_EXIST {
                Result::Err(ErrorCode::ProposalSliceMustStartWithAccountCell)
            } else if cell.data.len() < 72 {
                Result::Err(ErrorCode::InvalidCellData)
            } else {
                Result::Ok(data_next(cell.data))
            }
        },
        Option::Some(ps) => {
            if item.item_type != ITEM_TYPE_EXIST && item.item_type != ITEM_TYPE_PROPOSED {
                Result::Err(ErrorCode::ProposalSliceMustStartWithAccountCell)
            } else {
                match find_item_from(ps, 0, item.account_id) {
                    Option::Some(pi) => Result::Ok(pi.next),
                    Option::None => if cell.data.len() < 72 {
                        Result::Err(ErrorCode::InvalidCellData)
                    } else {
                        Result::Ok(data_next(cell.data))
                    },
                }
            }
        },
    }
}

/// Binds one slice's items from position `k` on to the relevant cells from
/// flat position `i` on, carrying the tracked next; yields it and the flat
/// position after the slice.
pub open spec fn bind_items_from(
    c: ConfigV,
    sl: Seq<ProposalItemV>,
    k: int,
    cells: Seq<crate::model::CellV>,
    relevant: Seq<usize>,
    i: int,
    prev: Option<Seq<Seq<ProposalItemV>>>,
    nof: Seq<u8>,
) -> Result<(Seq<u8>, int), ErrorCode>
    decreases sl.len() - k,
{
    if k < 0 || k >= sl.len() {
        Result::Ok((nof, i))
    } else {
        let cell = cells[relevant[i] as int];
        match bind_item_cell(c, sl[k], cell) {
            Result::Err(e) => Result::Err(e),
            Result::Ok(u) => {
                if k == 0 {
                    match tracked_next_of_first(sl[0], cell, prev) {
                        Result::Err(e) => Result::Err(e),
                        Result::Ok(n2) => bind_items_from(c, sl, 1, cells, relevant, i + 1, prev, n2),
                    }
                } else {
                    bind_items_from(c, sl, k + 1, cells, relevant, i + 1, prev, nof)
                }
            },
        }
    }
}

/// Binds the slices from position `si` on; each slice's tracked next must
/// reach its last item's next.
pub open spec fn bind_slices_from(
    c: ConfigV,
    slices: Seq<Seq<ProposalItemV>>,
    si: int,
    cells: Seq<crate::model::CellV>,
    relevant: Seq<usize>,
    i: int,
    prev: Option<Seq<Seq<ProposalItemV>>>,
) -> Result<int, ErrorCode>
    decreases slices.len() - si,
{
    if si < 0 || si >= slices.len() {
        Result::Ok(i)
    } else {
        let sl = slices[si];
        match bind_items_from(c, sl, 0, cells, relevant, i, prev, zero_id()) {
            Result::Err(e) => Result::Err(e),
            Result::Ok((nof, i2)) => if nof == sl[sl.len() - 1].next {
                bind_slices_from(c, slices, si + 1, cells, relevant, i2, prev)
            } else {
                Result::Err(ErrorCode::ProposalSliceNotEndCorrectly)
            },
        }
    }
}

/// The whole slice-to-cell binding of a proposal against the relevant cells.
pub open spec fn spec_verify_slices_relevant_cells(
    c: ConfigV,
    slices: Seq<Seq<ProposalItemV>>,
    cells: Seq<crate::model::CellV>,
    relevant: Seq<usize>,
    prev: Option<Seq<Seq<ProposalItemV>>>,
) -> Result<(), ErrorCode> {
    match bind_slices_from(c, slices, 0, cells, relevant, 0, prev) {
        Result::Err(e) => Result::Err(e),
        Result::Ok(i) => Result::Ok(()),
    }
}

/// A faithful copy of a slice item.
fn item_clone(it: &ProposalItem) -> (r: ProposalItem)
    ensures
        r@ == it@,
{
    ProposalItem {
        account_id: slice_to_vec(it.account_id.as_slice()),
        item_type: it.item_type,
        next: slice_to_vec(it.next.as_slice()),
    }
}

/// Searches one slice's items from position `j` on for an account id.
fn find_item_in_items_rec(items: &Vec<ProposalItem>, j: usize, id: &[u8]) -> (r: Option<
    ProposalItem,
>)
    requires
        j <= items@.len(),
    ensures
        match r {
            Option::Some(it) => find_item_in_items_from(items_v(items@), j as int, id@)
                == Option::Some(it@),
            Option::None => find_item_in_items_from(items_v(items@), j as int, id@) is None,
        },
    decreases items@.len() - j,
{
    let n: usize = items.len();
    if j >= n {
        return Option::None;
    }
    proof {
        assert(items_v(items@)[j as int] == items@[j as int]@);
    }
    if bytes_eq(items[j].account_id.as_slice(), id) {
        Option::Some(item_clone(&items[j]))
    } else {
        find_item_in_items_rec(items, j + 1, id)
    }
}

/// Searches the slices from position `si` on for an item with an account
/// id; a parent proposal's item hands its next on through this. Fails with
/// `PrevProposalItemNotFound` when no slice holds the id.
pub fn find_item_contains_account_id(slices: &Vec<Vec<ProposalItem>>, id: &[u8]) -> (r: Result<
    ProposalItem,
    ErrorCode,
>)
    ensures
        match r {
            Result::Ok(it) => find_item_from(slices_v(slices@), 0, id@) == Option::Some(it@),
            Result::Err(e) => find_item_from(slices_v(slices@), 0, id@) is None && e
                == ErrorCode::PrevProposalItemNotFound,
        },
{
    let n: usize = slices.len();
    let mut si: usize = 0;
    while si < n
        invariant
            n == slices@.len(),
            si <= n,
            find_item_from(slices_v(slices@), 0, id@) == find_item_from(
                slices_v(slices@),
                si as int,
                id@,
            ),
        decreases n - si,
    {
        proof {
            assert(slices_v(slices@)[si as int] == items_v(slices@[si as int]@));
        }
        match find_item_in_items_rec(&slices[si], 0, id) {
            Option::Some(it) => {
                return Result::Ok(it);
            },
            Option::None => {},
        }
        si += 1;
    }
    Result::Err(ErrorCode::PrevProposalItemNotFound)
}

/// Checks one item against its relevant cell, exactly as `bind_item_cell`
/// decides it.
fn check_item_cell(config: &Config, item: &ProposalItem, cell: &crate::model::Cell) -> (r: Result<
    (),
    ErrorCode,
>)
    ensures
        r == bind_item_cell(config@, item@, cell@),
{
    let expected_tid: &Vec<u8> = if item.item_type == ITEM_TYPE_EXIST {
        &config.type_id_table.account_cell
    } else {
        &config.type_id_table.pre_account_cell
    };
    match &cell.type_id {
        Option::None => Result::Err(ErrorCode::ProposalSliceRelatedCellNotFound),
        Option::Some(t) => {
            if !bytes_eq(t.as_slice(), expected_tid.as_slice()) {
                return Result::Err(ErrorCode::ProposalCellTypeError);
            }
            if cell.data.len() < 52 {
                return Result::Err(ErrorCode::InvalidCellData);
            }
            let cell_id = get_id(cell.data.as_slice());
            if !bytes_eq(cell_id.as_slice(), item.account_id.as_slice()) {
                return Result::Err(ErrorCode::ProposalCellAccountIdError);
            }
            Result::Ok(())
        },
    }
}

/// Computes a slice head's tracked next, exactly as `tracked_next_of_first`
/// gives it.
fn compute_tracked_next(
    item: &ProposalItem,
    cell: &crate::model::Cell,
    prev: Option<&Vec<Vec<ProposalItem>>>,
) -> (r: Result<Vec<u8>, ErrorCode>)
    ensures
        ({
            let prev_v = match prev {
                Option::Some(p) => Option::Some(slices_v(p@)),
                Option::None => Option::<Seq<Seq<ProposalItemV>>>::None,
            };
            match r {
                Result::Ok(v) => tracked_next_of_first(item@, cell@, prev_v) == Result::<
                    Seq<u8>,
                    ErrorCode,
                >::Ok(v@),
                Result::Err(e) => tracked_next_of_first(item@, cell@, prev_v) == Result::<
                    Seq<u8>,
                    ErrorCode,
                >::Err(e),
            }
        }),
{
    match prev {
        Option::None => {
            if item.item_type != ITEM_TYPE_EXIST {
                return Result::Err(ErrorCode::ProposalSliceMustStartWithAccountCell);
            }
            if cell.data.len() < 72 {
                return Result::Err(ErrorCode::InvalidCellData);
            }
            Result::Ok(get_next(cell.data.as_slice()))
        },
        Option::Some(ps) => {
            if item.item_type != ITEM_TYPE_EXIST && item.item_type != ITEM_TYPE_PROPOSED {
                return Result::Err(ErrorCode::ProposalSliceMustStartWithAccountCell);
            }
            match find_item_contains_account_id(ps, item.account_id.as_slice()) {
                Result::Ok(pi) => Result::Ok(pi.next),
                Result::Err(_) => {
                    if cell.data.len() < 72 {
                        return Result::Err(ErrorCode::InvalidCellData);
                    }
                    Result::Ok(get_next(cell.data.as_slice()))
                },
            }
        },
    }
}

/// Binds one slice's items from position `k` on, exactly as
/// `bind_items_from` reads them.
fn bind_items_rec(
    config: &Config,
    sl: &Vec<ProposalItem>,
    k: usize,
    cells: &Vec<crate::model::Cell>,
    relevant: &Vec<usize>,
    i: usize,
    prev: Option<&Vec<Vec<ProposalItem>>>,
    nof: Vec<u8>,
) -> (r: Result<(Vec<u8>, usize), ErrorCode>)
    requires
        k <= sl@.len(),
        i + (sl@.len() - k) <= relevant@.len(),
        forall|j: int| 0 <= j < relevant@.len() ==> (#[trigger] relevant@[j]) < cells@.len(),
    ensures
        ({
            let prev_v = match prev {
                Option::Some(p) => Option::Some(slices_v(p@)),
                Option::None => Option::<Seq<Seq<ProposalItemV>>>::None,
            };
            let sp = bind_items_from(
                config@,
                items_v(sl@),
                k as int,
                crate::model::cells_v(cells@),
                relevant@,
                i as int,
                prev_v,
                nof@,
            );
            match r {
                Result::Ok(out) => sp == Result::<(Seq<u8>, int), ErrorCode>::Ok(
                    (out.0@, out.1 as int),
                ) && out.1 == i + (sl@.len() - k),
                Result::Err(e) => sp == Result::<(Seq<u8>, int), ErrorCode>::Err(e),
            }
        }),
    decreases sl@.len() - k,
{
    let n: usize = sl.len();
    if k >= n {
        return Result::Ok((nof, i));
    }
    let rl: usize = relevant.len();
    let ci: usize = relevant[i];
    proof {
        assert(relevant@[i as int] < cells@.len());
        assert(crate::model::cells_v(cells@)[ci as int] == cells@[ci as int]@);
        assert(items_v(sl@)[k as int] == sl@[k as int]@);
    }
    let cell = &cells[ci];
    match check_item_cell(config, &sl[k], cell) {
        Result::Err(e) => Result::Err(e),
        Result::Ok(u) => {
            if k == 0 {
                proof {
                    assert(items_v(sl@)[0] == sl@[0]@);
                }
                match compute_tracked_next(&sl[0], cell, prev) {
                    Result::Err(e) => Result::Err(e),
                    Result::Ok(n2) => bind_items_rec(config, sl, 1, cells, relevant, i + 1, prev, n2),
                }
            } else {
                bind_items_rec(config, sl, k + 1, cells, relevant, i + 1, prev, nof)
            }
        },
    }
}

/// Binds the slices from position `si` on, exactly as `bind_slices_from`
/// reads them.
fn bind_slices_rec(
    config: &Config,
    slices: &Vec<Vec<ProposalItem>>,
    si: usize,
    cells: &Vec<crate::model::Cell>,
    relevant: &Vec<usize>,
    i: usize,
    prev: Option<&Vec<Vec<ProposalItem>>>,
) -> (r: Result<usize, ErrorCode>)
    requires
        si <= slices@.len(),
        i + total_items_from(slices_v(slices@), si as int) <= relevant@.len(),
        forall|j: int| 0 <= j < relevant@.len() ==> (#[trigger] relevant@[j]) < cells@.len(),
        forall|j: int| 0 <= j < slices@.len() ==> (#[trigger] slices@[j])@.len() >= 1,
    ensures
        ({
            let prev_v = match prev {
                Option::Some(p) => Option::Some(slices_v(p@)),
                Option::None => Option::<Seq<Seq<ProposalItemV>>>::None,
            };
            let sp = bind_slices_from(
                config@,
                slices_v(slices@),
                si as int,
                crate::model::cells_v(cells@),
                relevant@,
                i as int,
                prev_v,
            );
            match r {
                Result::Ok(i2) => sp == Result::<int, ErrorCode>::Ok(i2 as int),
                Result::Err(e) => sp == Result::<int, ErrorCode>::Err(e),
            }
        }),
    decreases slices@.len() - si,
{
    let n: usize = slices.len();
    if si >= n {
        return Result::Ok(i);
    }
    let sl = &slices[si];
    proof {
        assert(slices_v(slices@)[si as int] == items_v(slices@[si as int]@));
        lemma_total_items_nonneg(slices_v(slices@), si + 1 as int);
        assert(total_items_from(slices_v(slices@), si as int) == items_v(sl@).len()
            + total_items_from(slices_v(slices@), si + 1 as int));
    }
    let zid: Vec<u8> = vec![0u8; 20];
    proof {
        assert(zid@ =~= zero_id());
    }
    match bind_items_rec(config, sl, 0, cells, relevant, i, prev, zid) {
        Result::Err(e) => Result::Err(e),
        Result::Ok((nof, i2)) => {
            let last: usize = sl.len() - 1;
            proof {
                assert(items_v(sl@)[last as int] == sl@[last as int]@);
            }
            if bytes_eq(nof.as_slice(), sl[last].next.as_slice()) {
                bind_slices_rec(config, slices, si + 1, cells, relevant, i2, prev)
            } else {
                Result::Err(ErrorCode::ProposalSliceNotEndCorrectly)
            }
        },
    }
}

/// Runs the slice-to-cell binding, deciding exactly
/// `spec_verify_slices_relevant_cells`.
pub fn verify_slices_relevant_cells(
    config: &Config,
    slices: &Vec<Vec<ProposalItem>>,
    cells: &Vec<crate::model::Cell>,
    relevant: &Vec<usize>,
    prev: Option<&Vec<Vec<ProposalItem>>>,
) -> (r: Result<(), ErrorCode>)
    requires
        total_items(slices_v(slices@)) <= relevant@.len(),
        forall|j: int| 0 <= j < relevant@.len() ==> (#[trigger] relevant@[j]) < cells@.len(),
        forall|j: int| 0 <= j < slices@.len() ==> (#[trigger] slices@[j])@.len() >= 1,
    ensures
        ({
            let prev_v = match prev {
                Option::Some(p) => Option::Some(slices_v(p@)),
                Option::None => Option::<Seq<Seq<ProposalItemV>>>::None,
            };
            r == spec_verify_slices_relevant_cells(
                config@,
                slices_v(slices@),
                crate::model::cells_v(cells@),
                relevant@,
                prev_v,
            )
        }),
{
    match bind_slices_rec(config, slices, 0, cells, relevant, 0, prev) {
        Result::Err(e) => Result::Err(e),
        Result::Ok(_) => Result::Ok(()),
    }
}

// ---------------------------------------------------------------------------
// Execution-result check: per-item helpers.
// ---------------------------------------------------------------------------

/// The cell must carry exactly the expected type id.
pub open spec fn sp_verify_cell_type_id(cell: CellV, expected: Seq<u8>) -> Result<(), ErrorCode> {
    match cell.type_id {
        Option::None => Result::Err(ErrorCode::ProposalSliceRelatedCellNotFound),
        Option::Some(t) => if t == expected {
            Result::Ok(())
        } else {
            Result::Err(ErrorCode::ProposalCellTypeError)
        },
    }
}

/// The id held in the cell's data must be the expected account id.
pub open spec fn sp_verify_cell_account_id(data: Seq<u8>, expected: Seq<u8>) -> Result<
    (),
    ErrorCode,
> {
    if data.len() < 52 {
        Result::Err(ErrorCode::InvalidCellData)
    } else if data_id(data) == expected {
        Result::Ok(())
    } else {
        Result::Err(ErrorCode::ProposalCellAccountIdError)
    }
}

/// For a surviving AccountCell, everything in the data but `next` must stay
/// as it was: hash, id, account and expiry, in that order.
pub open spec fn sp_old_data_consistent(out_data: Seq<u8>, in_data: Seq<u8>) -> Result<
    (),
    ErrorCode,
> {
    if out_data.len() < 80 || in_data.len() < 80 {
        Result::Err(ErrorCode::InvalidCellData)
    } else if data_hash(out_data) != data_hash(in_data) {
        Result::Err(ErrorCode::ProposalFieldCanNotBeModified)
    } else if data_id(out_data) != data_id(in_data) {
        Result::Err(ErrorCode::ProposalFieldCanNotBeModified)
    } else if data_account(out_data) != data_account(in_data) {
        Result::Err(ErrorCode::ProposalFieldCanNotBeModified)
    } else if data_expired_at(out_data) != data_expired_at(in_data) {
        Result::Err(ErrorCode::ProposalFieldCanNotBeModified)
    } else {
        Result::Ok(())
    }
}

/// The whole Exist/Proposed branch of one item: both sides AccountCells of
/// the item's id, capacity and lock untouched, data untouched but for
/// `next`, which must take the item's next.
pub open spec fn sp_check_exist_item(c: ConfigV, item: ProposalItemV, in_cell: CellV, out_cell: CellV) -> Result<
    (),
    ErrorCode,
> {
    match sp_verify_cell_type_id(in_cell, c.type_id_table.account_cell) {
        Result::Err(e) => Result::Err(e),
        Result::Ok(u0) => match sp_verify_cell_type_id(out_cell, c.type_id_table.account_cell) {
            Result::Err(e) => Result::Err(e),
            Result::Ok(u1) => match sp_verify_cell_account_id(in_cell.data, item.account_id) {
                Result::Err(e) => Result::Err(e),
                Result::Ok(u2) => match sp_verify_cell_account_id(out_cell.data, item.account_id) {
                    Result::Err(e) => Result::Err(e),
                    Result::Ok(u3) => if in_cell.capacity != out_cell.capacity {
                        Result::Err(ErrorCode::CellCapacityMustBeConsistent)
                    } else if in_cell.lock != out_cell.lock {
                        Result::Err(ErrorCode::CellLockCanNotBeModified)
                    } else {
                        match sp_old_data_consistent(out_cell.data, in_cell.data) {
                            Result::Err(e) => Result::Err(e),
                            Result::Ok(u4) => if data_next(out_cell.data) != item.next {
                                Result::Err(ErrorCode::ProposalConfirmNewAccountCellDataError)
                            } else {
                                Result::Ok(())
                            },
                        }
                    },
                },
            },
        },
    }
}

/// The protocol-wallet residual of a profit after the four explicit shares.
pub open spec fn spec_das_profit(
    c: ConfigV,
    profit: u64,
    has_inviter: bool,
    has_channel: bool,
) -> int {
    profit - (if has_inviter {
        crate::fees::spec_portion(profit, c.profit_rate_inviter)
    } else {
        0int
    }) - (if has_channel {
        crate::fees::spec_portion(profit, c.profit_rate_channel)
    } else {
        0int
    }) - crate::fees::spec_portion(profit, c.profit_rate_proposal_create) - crate::fees::spec_portion(
        profit,
        c.profit_rate_proposal_confirm,
    )
}

/// Credits a New item's profit split to the map: the inviter's and
/// channel's shares when their locks are present, the proposer's share, and
/// the residual (less the confirmer's untracked share) to the protocol
/// wallet. An entry that would overflow refuses the transaction.
pub open spec fn sp_apply_fees(
    c: ConfigV,
    proposer_lock: ScriptV,
    profit: u64,
    pre_w: crate::entity::PreAccountCellDataV,
    m: Seq<crate::entity::IncomeRecordV>,
) -> Result<Seq<crate::entity::IncomeRecordV>, ErrorCode> {
    let m1r: Result<Seq<crate::entity::IncomeRecordV>, ErrorCode> = match pre_w.inviter_lock {
        Option::Some(l) => match crate::profit::map_add(
            m,
            l,
            crate::fees::spec_portion(profit, c.profit_rate_inviter) as u64,
        ) {
            Option::None => Result::Err(ErrorCode::ProposalConfirmIncomeError),
            Option::Some(m1) => Result::Ok(m1),
        },
        Option::None => Result::Ok(m),
    };
    match m1r {
        Result::Err(e) => Result::Err(e),
        Result::Ok(m1) => {
            let m2r: Result<Seq<crate::entity::IncomeRecordV>, ErrorCode> = match pre_w.channel_lock {
                Option::Some(l) => match crate::profit::map_add(
                    m1,
                    l,
                    crate::fees::spec_portion(profit, c.profit_rate_channel) as u64,
                ) {
                    Option::None => Result::Err(ErrorCode::ProposalConfirmIncomeError),
                    Option::Some(m2) => Result::Ok(m2),
                },
                Option::None => Result::Ok(m1),
            };
            match m2r {
                Result::Err(e) => Result::Err(e),
                Result::Ok(m2) => {
                    match crate::profit::map_add(
                        m2,
                        proposer_lock,
                        crate::fees::spec_portion(profit, c.profit_rate_proposal_create) as u64,
                    ) {
                        Option::None => Result::Err(ErrorCode::ProposalConfirmIncomeError),
                        Option::Some(m3) => {
                            match crate::profit::map_add(
                                m3,
                                c.das_wallet_lock,
                                spec_das_profit(
                                    c,
                                    profit,
                                    pre_w.inviter_lock is Some,
                                    pre_w.channel_lock is Some,
                                ) as u64,
                            ) {
                                Option::None => Result::Err(ErrorCode::ProposalConfirmIncomeError),
                                Option::Some(m4) => Result::Ok(m4),
                            }
                        },
                    }
                },
            }
        },
    }
}

/// The whole New branch of one item: a PreAccountCell becomes an
/// AccountCell of the same id, with the owner's das-lock, exact storage
/// capacity, the derived id, the item's next, the bought expiry, a sound
/// witness, and the profit split credited to the map.
pub open spec fn sp_check_new_item(
    c: ConfigV,
    ts: u64,
    proposer_lock: ScriptV,
    item: ProposalItemV,
    in_cell: CellV,
    out_cell: CellV,
    m: Seq<crate::entity::IncomeRecordV>,
) -> Result<Seq<crate::entity::IncomeRecordV>, ErrorCode> {
    match sp_verify_cell_type_id(in_cell, c.type_id_table.pre_account_cell) {
        Result::Err(e) => Result::Err(e),
        Result::Ok(u0) => match sp_verify_cell_type_id(out_cell, c.type_id_table.account_cell) {
            Result::Err(e) => Result::Err(e),
            Result::Ok(u1) => match sp_verify_cell_account_id(in_cell.data, item.account_id) {
                Result::Err(e) => Result::Err(e),
                Result::Ok(u2) => match sp_verify_cell_account_id(out_cell.data, item.account_id) {
                    Result::Err(e) => Result::Err(e),
                    Result::Ok(u3) => match crate::witness::spec_verify_and_get(in_cell) {
                        Result::Err(e) => Result::Err(e),
                        Result::Ok(in_entity) => match crate::codec::p_pre_account_data(in_entity) {
                            Option::None => Result::Err(ErrorCode::WitnessEntityDecodingError),
                            Option::Some(pre_w) => match crate::witness::spec_verify_and_get(
                                out_cell,
                            ) {
                                Result::Err(e) => Result::Err(e),
                                Result::Ok(out_entity) => match crate::codec::p_account_data(
                                    out_entity,
                                ) {
                                    Option::None => Result::Err(
                                        ErrorCode::WitnessEntityDecodingError,
                                    ),
                                    Option::Some(out_w) => sp_check_new_item_fields(
                                        c,
                                        ts,
                                        proposer_lock,
                                        item,
                                        in_cell,
                                        out_cell,
                                        pre_w,
                                        out_w,
                                        m,
                                    ),
                                },
                            },
                        },
                    },
                },
            },
        },
    }
}

/// The field checks of the New branch, once both witnesses are in hand.
pub open spec fn sp_check_new_item_fields(
    c: ConfigV,
    ts: u64,
    proposer_lock: ScriptV,
    item: ProposalItemV,
    in_cell: CellV,
    out_cell: CellV,
    pre_w: crate::entity::PreAccountCellDataV,
    out_w: crate::entity::AccountCellDataV,
    m: Seq<crate::entity::IncomeRecordV>,
) -> Result<Seq<crate::entity::IncomeRecordV>, ErrorCode> {
    if out_cell.data.len() < 80 {
        Result::Err(ErrorCode::InvalidCellData)
    } else {
        let account_len = (out_cell.data.len() - 80) as u64;
        match crate::fees::spec_storage_capacity(c, account_len) {
            Option::None => Result::Err(ErrorCode::InvalidCellData),
            Option::Some(storage) => if in_cell.capacity < storage {
                Result::Err(ErrorCode::InvalidCellData)
            } else {
                let profit = (in_cell.capacity - storage) as u64;
                match crate::fees::spec_verify_account_length_and_years(
                    pre_w.account.len() as u64,
                    ts,
                ) {
                    Result::Err(e) => Result::Err(e),
                    Result::Ok(u4) => if out_cell.capacity != storage {
                        Result::Err(ErrorCode::ProposalConfirmNewAccountCellCapacityError)
                    } else if out_cell.lock != (ScriptV {
                        code_hash: c.das_lock.code_hash,
                        hash_type: c.das_lock.hash_type,
                        args: pre_w.owner_lock_args,
                    }) {
                        Result::Err(ErrorCode::ProposalConfirmAccountLockArgsIsInvalid)
                    } else if data_id(out_cell.data) != data_id(in_cell.data) {
                        Result::Err(ErrorCode::ProposalConfirmNewAccountCellDataError)
                    } else if crate::hash::spec_account_id_of(data_account(out_cell.data))
                        != data_id(out_cell.data) {
                        Result::Err(ErrorCode::ProposalConfirmNewAccountCellDataError)
                    } else if data_next(out_cell.data) != item.next {
                        Result::Err(ErrorCode::ProposalConfirmNewAccountCellDataError)
                    } else {
                        match crate::fees::spec_duration_from_paid(
                            profit,
                            pre_w.price,
                            pre_w.quote,
                            pre_w.invited_discount,
                        ) {
                            Option::None => Result::Err(
                                ErrorCode::ProposalConfirmNewAccountCellDataError,
                            ),
                            Option::Some(dur) => if ts + dur > u64::MAX || data_expired_at(
                                out_cell.data,
                            ) != ts + dur {
                                Result::Err(ErrorCode::ProposalConfirmNewAccountCellDataError)
                            } else if out_w.id != data_id(out_cell.data) {
                                Result::Err(ErrorCode::ProposalConfirmWitnessIDError)
                            } else if out_w.account + crate::model::account_suffix()
                                != data_account(out_cell.data) {
                                Result::Err(ErrorCode::ProposalConfirmWitnessAccountError)
                            } else if out_w.status != crate::model::ACCOUNT_STATUS_NORMAL {
                                Result::Err(ErrorCode::ProposalConfirmWitnessManagerError)
                            } else {
                                sp_apply_fees(c, proposer_lock, profit, pre_w, m)
                            },
                        }
                    },
                }
            },
        }
    }
}

// ---------------------------------------------------------------------------
// Execution-result check: executable helpers.
// ---------------------------------------------------------------------------

/// Checks a cell's type id, exactly as `sp_verify_cell_type_id` decides it.
pub fn verify_cell_type_id(cell: &Cell, expected: &[u8]) -> (r: Result<(), ErrorCode>)
    ensures
        r == sp_verify_cell_type_id(cell@, expected@),
{
    match &cell.type_id {
        Option::None => Result::Err(ErrorCode::ProposalSliceRelatedCellNotFound),
        Option::Some(t) => if bytes_eq(t.as_slice(), expected) {
            Result::Ok(())
        } else {
            Result::Err(ErrorCode::ProposalCellTypeError)
        },
    }
}

/// Checks the id in an AccountCell's data, exactly as
/// `sp_verify_cell_account_id` decides it.
pub fn verify_account_cell_account_id(data: &[u8], expected: &[u8]) -> (r: Result<(), ErrorCode>)
    ensures
        r == sp_verify_cell_account_id(data@, expected@),
{
    if data.len() < 52 {
        return Result::Err(ErrorCode::InvalidCellData);
    }
    let id = get_id(data);
    if bytes_eq(id.as_slice(), expected) {
        Result::Ok(())
    } else {
        Result::Err(ErrorCode::ProposalCellAccountIdError)
    }
}

/// Checks the id in a PreAccountCell's data; the id sits at the same offset
/// as in an AccountCell.
pub fn verify_pre_account_cell_account_id(data: &[u8], expected: &[u8]) -> (r: Result<
    (),
    ErrorCode,
>)
    ensures
        r == sp_verify_cell_account_id(data@, expected@),
{
    verify_account_cell_account_id(data, expected)
}

/// Checks that a surviving AccountCell's data changed in nothing but
/// `next`, exactly as `sp_old_data_consistent` decides it.
pub fn is_old_account_cell_data_consistent(out_data: &[u8], in_data: &[u8]) -> (r: Result<
    (),
    ErrorCode,
>)
    ensures
        r == sp_old_data_consistent(out_data@, in_data@),
{
    let on: usize = out_data.len();
    let inn: usize = in_data.len();
    if on < 80 || inn < 80 {
        return Result::Err(ErrorCode::InvalidCellData);
    }
    if !bytes_eq(copy_range(out_data, 0, 32).as_slice(), copy_range(in_data, 0, 32).as_slice()) {
        return Result::Err(ErrorCode::ProposalFieldCanNotBeModified);
    }
    if !bytes_eq(get_id(out_data).as_slice(), get_id(in_data).as_slice()) {
        return Result::Err(ErrorCode::ProposalFieldCanNotBeModified);
    }
    if !bytes_eq(get_account(out_data).as_slice(), get_account(in_data).as_slice()) {
        return Result::Err(ErrorCode::ProposalFieldCanNotBeModified);
    }
    if get_expired_at(out_data) != get_expired_at(in_data) {
        return Result::Err(ErrorCode::ProposalFieldCanNotBeModified);
    }
    Result::Ok(())
}

/// Checks that a new AccountCell keeps the id its PreAccountCell carried.
pub fn is_id_correct(out_data: &[u8], in_data: &[u8]) -> (r: Result<(), ErrorCode>)
    requires
        out_data@.len() >= 52,
        in_data@.len() >= 52,
    ensures
        r == (if data_id(out_data@) == data_id(in_data@) {
            Result::<(), ErrorCode>::Ok(())
        } else {
            Result::<(), ErrorCode>::Err(ErrorCode::ProposalConfirmNewAccountCellDataError)
        }),
{
    if bytes_eq(get_id(out_data).as_slice(), get_id(in_data).as_slice()) {
        Result::Ok(())
    } else {
        Result::Err(ErrorCode::ProposalConfirmNewAccountCellDataError)
    }
}

/// Checks that an output AccountCell's next is the item's next.
pub fn is_next_correct(out_data: &[u8], proposed_next: &[u8]) -> (r: Result<(), ErrorCode>)
    requires
        out_data@.len() >= 72,
    ensures
        r == (if data_next(out_data@) == proposed_next@ {
            Result::<(), ErrorCode>::Ok(())
        } else {
            Result::<(), ErrorCode>::Err(ErrorCode::ProposalConfirmNewAccountCellDataError)
        }),
{
    if bytes_eq(get_next(out_data).as_slice(), proposed_next) {
        Result::Ok(())
    } else {
        Result::Err(ErrorCode::ProposalConfirmNewAccountCellDataError)
    }
}

/// Checks that a new AccountCell's stored account name hashes to its id.
pub fn is_account_correct(out_data: &[u8]) -> (r: Result<(), ErrorCode>)
    requires
        out_data@.len() >= 80,
    ensures
        r == (if crate::hash::spec_account_id_of(data_account(out_data@)) == data_id(out_data@) {
            Result::<(), ErrorCode>::Ok(())
        } else {
            Result::<(), ErrorCode>::Err(ErrorCode::ProposalConfirmNewAccountCellDataError)
        }),
{
    let account = get_account(out_data);
    let derived = crate::hash::account_id_of(account.as_slice());
    if bytes_eq(derived.as_slice(), get_id(out_data).as_slice()) {
        Result::Ok(())
    } else {
        Result::Err(ErrorCode::ProposalConfirmNewAccountCellDataError)
    }
}

/// Checks a new AccountCell's capacity against the owed storage capacity.
pub fn is_cell_capacity_correct(cell: &Cell, expected_capacity: u64) -> (r: Result<(), ErrorCode>)
    ensures
        r == (if cell@.capacity == expected_capacity {
            Result::<(), ErrorCode>::Ok(())
        } else {
            Result::<(), ErrorCode>::Err(ErrorCode::ProposalConfirmNewAccountCellCapacityError)
        }),
{
    if cell.capacity == expected_capacity {
        Result::Ok(())
    } else {
        Result::Err(ErrorCode::ProposalConfirmNewAccountCellCapacityError)
    }
}

/// Checks that a new AccountCell carries the das-lock with the owner's
/// args from the PreAccountCell witness.
pub fn is_new_account_cell_lock_correct(
    config: &Config,
    pre_w: &crate::entity::PreAccountCellData,
    out_cell: &Cell,
) -> (r: Result<(), ErrorCode>)
    ensures
        r == (if out_cell@.lock == (ScriptV {
            code_hash: config@.das_lock.code_hash,
            hash_type: config@.das_lock.hash_type,
            args: pre_w@.owner_lock_args,
        }) {
            Result::<(), ErrorCode>::Ok(())
        } else {
            Result::<(), ErrorCode>::Err(ErrorCode::ProposalConfirmAccountLockArgsIsInvalid)
        }),
{
    let expected = Script {
        code_hash: slice_to_vec(config.das_lock.code_hash.as_slice()),
        hash_type: config.das_lock.hash_type,
        args: slice_to_vec(pre_w.owner_lock_args.as_slice()),
    };
    if crate::model::script_eq(&out_cell.lock, &expected) {
        Result::Ok(())
    } else {
        Result::Err(ErrorCode::ProposalConfirmAccountLockArgsIsInvalid)
    }
}

/// Checks a new AccountCell's expiry: the current timestamp plus the rent
/// its profit bought.
pub fn is_expired_at_correct(
    profit: u64,
    current_timestamp: u64,
    out_data: &[u8],
    pre_w: &crate::entity::PreAccountCellData,
) -> (r: Result<(), ErrorCode>)
    requires
        out_data@.len() >= 80,
    ensures
        r == ({
            match crate::fees::spec_duration_from_paid(
                profit,
                pre_w@.price,
                pre_w@.quote,
                pre_w@.invited_discount,
            ) {
                Option::None => Result::<(), ErrorCode>::Err(
                    ErrorCode::ProposalConfirmNewAccountCellDataError,
                ),
                Option::Some(dur) => if current_timestamp + dur > u64::MAX || data_expired_at(
                    out_data@,
                ) != current_timestamp + dur {
                    Result::<(), ErrorCode>::Err(ErrorCode::ProposalConfirmNewAccountCellDataError)
                } else {
                    Result::<(), ErrorCode>::Ok(())
                },
            }
        }),
{
    let dur = match crate::fees::calc_duration_from_paid(
        profit,
        pre_w.price,
        pre_w.quote,
        pre_w.invited_discount,
    ) {
        Option::None => {
            return Result::Err(ErrorCode::ProposalConfirmNewAccountCellDataError);
        },
        Option::Some(d) => d,
    };
    if dur > u64::MAX - current_timestamp {
        return Result::Err(ErrorCode::ProposalConfirmNewAccountCellDataError);
    }
    if get_expired_at(out_data) != current_timestamp + dur {
        return Result::Err(ErrorCode::ProposalConfirmNewAccountCellDataError);
    }
    Result::Ok(())
}

/// Checks a new AccountCell witness's id against the cell data's id.
pub fn verify_witness_id(out_data: &[u8], out_w: &crate::entity::AccountCellData) -> (r: Result<
    (),
    ErrorCode,
>)
    requires
        out_data@.len() >= 52,
    ensures
        r == (if out_w@.id == data_id(out_data@) {
            Result::<(), ErrorCode>::Ok(())
        } else {
            Result::<(), ErrorCode>::Err(ErrorCode::ProposalConfirmWitnessIDError)
        }),
{
    if bytes_eq(out_w.id.as_slice(), get_id(out_data).as_slice()) {
        Result::Ok(())
    } else {
        Result::Err(ErrorCode::ProposalConfirmWitnessIDError)
    }
}

/// Checks that the witness's account name plus the protocol suffix is the
/// stored account name.
pub fn verify_witness_account(out_data: &[u8], out_w: &crate::entity::AccountCellData) -> (r:
    Result<(), ErrorCode>)
    requires
        out_data@.len() >= 80,
    ensures
        r == (if out_w@.account + crate::model::account_suffix() == data_account(out_data@) {
            Result::<(), ErrorCode>::Ok(())
        } else {
            Result::<(), ErrorCode>::Err(ErrorCode::ProposalConfirmWitnessAccountError)
        }),
{
    let mut full = slice_to_vec(out_w.account.as_slice());
    let mut suffix = crate::model::account_suffix_bytes();
    full.append(&mut suffix);
    if bytes_eq(full.as_slice(), get_account(out_data).as_slice()) {
        Result::Ok(())
    } else {
        Result::Err(ErrorCode::ProposalConfirmWitnessAccountError)
    }
}

/// Checks that a new AccountCell's witness status is Normal.
pub fn verify_witness_status(out_w: &crate::entity::AccountCellData) -> (r: Result<(), ErrorCode>)
    ensures
        r == (if out_w@.status == crate::model::ACCOUNT_STATUS_NORMAL {
            Result::<(), ErrorCode>::Ok(())
        } else {
            Result::<(), ErrorCode>::Err(ErrorCode::ProposalConfirmWitnessManagerError)
        }),
{
    if out_w.status == crate::model::ACCOUNT_STATUS_NORMAL {
        Result::Ok(())
    } else {
        Result::Err(ErrorCode::ProposalConfirmWitnessManagerError)
    }
}

/// Credits one New item's profit split, exactly as `sp_apply_fees` changes
/// the map.
fn apply_fees(
    config: &Config,
    proposer_lock: &Script,
    profit: u64,
    pre_w: &crate::entity::PreAccountCellData,
    m: crate::profit::ProfitMap,
) -> (r: Result<crate::profit::ProfitMap, ErrorCode>)
    requires
        crate::model::config_wf(config@),
    ensures
        match r {
            Result::Ok(m2) => sp_apply_fees(config@, proposer_lock@, profit, pre_w@, m@)
                == Result::<Seq<crate::entity::IncomeRecordV>, ErrorCode>::Ok(m2@),
            Result::Err(e) => sp_apply_fees(config@, proposer_lock@, profit, pre_w@, m@)
                == Result::<Seq<crate::entity::IncomeRecordV>, ErrorCode>::Err(e),
        },
{
    let mut m = m;
    let mut inviter_profit: u64 = 0;
    match &pre_w.inviter_lock {
        Option::Some(l) => {
            inviter_profit = crate::fees::calc_profit_portion(profit, config.profit_rate_inviter);
            if !m.add(l, inviter_profit) {
                return Result::Err(ErrorCode::ProposalConfirmIncomeError);
            }
        },
        Option::None => {},
    }
    let mut channel_profit: u64 = 0;
    match &pre_w.channel_lock {
        Option::Some(l) => {
            channel_profit = crate::fees::calc_profit_portion(profit, config.profit_rate_channel);
            if !m.add(l, channel_profit) {
                return Result::Err(ErrorCode::ProposalConfirmIncomeError);
            }
        },
        Option::None => {},
    }
    let proposal_create_profit = crate::fees::calc_profit_portion(
        profit,
        config.profit_rate_proposal_create,
    );
    if !m.add(proposer_lock, proposal_create_profit) {
        return Result::Err(ErrorCode::ProposalConfirmIncomeError);
    }
    let proposal_confirm_profit = crate::fees::calc_profit_portion(
        profit,
        config.profit_rate_proposal_confirm,
    );
    proof {
        crate::fees::lemma_portions_fit(
            profit,
            config.profit_rate_inviter,
            config.profit_rate_channel,
            config.profit_rate_proposal_create,
            config.profit_rate_proposal_confirm,
        );
        crate::fees::lemma_portion_le_profit(profit, config.profit_rate_inviter);
        crate::fees::lemma_portion_le_profit(profit, config.profit_rate_channel);
    }
    let das_profit = profit - inviter_profit - channel_profit - proposal_create_profit
        - proposal_confirm_profit;
    proof {
        assert(das_profit == spec_das_profit(
            config@,
            profit,
            pre_w@.inviter_lock is Some,
            pre_w@.channel_lock is Some,
        ) as u64);
    }
    if !m.add(&config.das_wallet_lock, das_profit) {
        return Result::Err(ErrorCode::ProposalConfirmIncomeError);
    }
    Result::Ok(m)
}

/// Checks one Exist/Proposed item, exactly as `sp_check_exist_item`
/// decides it.
fn check_exist_item(config: &Config, item: &ProposalItem, in_cell: &Cell, out_cell: &Cell) -> (r:
    Result<(), ErrorCode>)
    ensures
        r == sp_check_exist_item(config@, item@, in_cell@, out_cell@),
{
    match verify_cell_type_id(in_cell, config.type_id_table.account_cell.as_slice()) {
        Result::Err(e) => {
            return Result::Err(e);
        },
        Result::Ok(u) => {},
    }
    match verify_cell_type_id(out_cell, config.type_id_table.account_cell.as_slice()) {
        Result::Err(e) => {
            return Result::Err(e);
        },
        Result::Ok(u) => {},
    }
    match verify_account_cell_account_id(in_cell.data.as_slice(), item.account_id.as_slice()) {
        Result::Err(e) => {
            return Result::Err(e);
        },
        Result::Ok(u) => {},
    }
    match verify_account_cell_account_id(out_cell.data.as_slice(), item.account_id.as_slice()) {
        Result::Err(e) => {
            return Result::Err(e);
        },
        Result::Ok(u) => {},
    }
    if in_cell.capacity != out_cell.capacity {
        return Result::Err(ErrorCode::CellCapacityMustBeConsistent);
    }
    if !crate::model::script_eq(&in_cell.lock, &out_cell.lock) {
        return Result::Err(ErrorCode::CellLockCanNotBeModified);
    }
    match is_old_account_cell_data_consistent(out_cell.data.as_slice(), in_cell.data.as_slice()) {
        Result::Err(e) => {
            return Result::Err(e);
        },
        Result::Ok(u) => {},
    }
    proof {
        assert(out_cell.data@.len() >= 80);
    }
    is_next_correct(out_cell.data.as_slice(), item.next.as_slice())
}

/// Checks one New item, exactly as `sp_check_new_item` decides it,
/// crediting its profit split to the map.
fn check_new_item(
    config: &Config,
    timestamp: u64,
    proposer_lock: &Script,
    item: &ProposalItem,
    in_cell: &Cell,
    out_cell: &Cell,
    m: crate::profit::ProfitMap,
) -> (r: Result<crate::profit::ProfitMap, ErrorCode>)
    requires
        crate::model::config_wf(config@),
    ensures
        match r {
            Result::Ok(m2) => sp_check_new_item(
                config@,
                timestamp,
                proposer_lock@,
                item@,
                in_cell@,
                out_cell@,
                m@,
            ) == Result::<Seq<crate::entity::IncomeRecordV>, ErrorCode>::Ok(m2@),
            Result::Err(e) => sp_check_new_item(
                config@,
                timestamp,
                proposer_lock@,
                item@,
                in_cell@,
                out_cell@,
                m@,
            ) == Result::<Seq<crate::entity::IncomeRecordV>, ErrorCode>::Err(e),
        },
{
    match verify_cell_type_id(in_cell, config.type_id_table.pre_account_cell.as_slice()) {
        Result::Err(e) => {
            return Result::Err(e);
        },
        Result::Ok(u) => {},
    }
    match verify_cell_type_id(out_cell, config.type_id_table.account_cell.as_slice()) {
        Result::Err(e) => {
            return Result::Err(e);
        },
        Result::Ok(u) => {},
    }
    match verify_pre_account_cell_account_id(in_cell.data.as_slice(), item.account_id.as_slice()) {
        Result::Err(e) => {
            return Result::Err(e);
        },
        Result::Ok(u) => {},
    }
    match verify_account_cell_account_id(out_cell.data.as_slice(), item.account_id.as_slice()) {
        Result::Err(e) => {
            return Result::Err(e);
        },
        Result::Ok(u) => {},
    }
    let in_entity = match crate::witness::verify_and_get(in_cell) {
        Result::Err(e) => {
            return Result::Err(e);
        },
        Result::Ok(v) => v,
    };
    let pre_w = match crate::codec::parse_pre_account_data(in_entity.as_slice()) {
        Result::Err(e) => {
            return Result::Err(e);
        },
        Result::Ok(v) => v,
    };
    let out_entity = match crate::witness::verify_and_get(out_cell) {
        Result::Err(e) => {
            return Result::Err(e);
        },
        Result::Ok(v) => v,
    };
    let out_w = match crate::codec::parse_account_data(out_entity.as_slice()) {
        Result::Err(e) => {
            return Result::Err(e);
        },
        Result::Ok(v) => v,
    };
    if out_cell.data.len() < 80 {
        return Result::Err(ErrorCode::InvalidCellData);
    }
    let account_len: u64 = (out_cell.data.len() - 80) as u64;
    let storage_capacity = match crate::fees::calc_account_storage_capacity(config, account_len) {
        Option::None => {
            return Result::Err(ErrorCode::InvalidCellData);
        },
        Option::Some(v) => v,
    };
    if in_cell.capacity < storage_capacity {
        return Result::Err(ErrorCode::InvalidCellData);
    }
    let profit: u64 = in_cell.capacity - storage_capacity;
    match crate::fees::verify_account_length_and_years(pre_w.account.len() as u64, timestamp) {
        Result::Err(e) => {
            return Result::Err(e);
        },
        Result::Ok(u) => {},
    }
    match is_cell_capacity_correct(out_cell, storage_capacity) {
        Result::Err(e) => {
            return Result::Err(e);
        },
        Result::Ok(u) => {},
    }
    match is_new_account_cell_lock_correct(config, &pre_w, out_cell) {
        Result::Err(e) => {
            return Result::Err(e);
        },
        Result::Ok(u) => {},
    }
    match is_id_correct(out_cell.data.as_slice(), in_cell.data.as_slice()) {
        Result::Err(e) => {
            return Result::Err(e);
        },
        Result::Ok(u) => {},
    }
    match is_account_correct(out_cell.data.as_slice()) {
        Result::Err(e) => {
            return Result::Err(e);
        },
        Result::Ok(u) => {},
    }
    match is_next_correct(out_cell.data.as_slice(), item.next.as_slice()) {
        Result::Err(e) => {
            return Result::Err(e);
        },
        Result::Ok(u) => {},
    }
    match is_expired_at_correct(profit, timestamp, out_cell.data.as_slice(), &pre_w) {
        Result::Err(e) => {
            return Result::Err(e);
        },
        Result::Ok(u) => {},
    }
    match verify_witness_id(out_cell.data.as_slice(), &out_w) {
        Result::Err(e) => {
            return Result::Err(e);
        },
        Result::Ok(u) => {},
    }
    match verify_witness_account(out_cell.data.as_slice(), &out_w) {
        Result::Err(e) => {
            return Result::Err(e);
        },
        Result::Ok(u) => {},
    }
    match verify_witness_status(&out_w) {
        Result::Err(e) => {
            return Result::Err(e);
        },
        Result::Ok(u) => {},
    }
    apply_fees(config, proposer_lock, profit, &pre_w, m)
}

// ---------------------------------------------------------------------------
// Execution-result check: the item walk, income reconciliation, refund.
// ---------------------------------------------------------------------------

/// A slice list's items, flattened in slice order.
pub open spec fn flat_items(ss: Seq<Seq<ProposalItemV>>) -> Seq<ProposalItemV>
    decreases ss.len(),
{
    if ss.len() == 0 {
        Seq::empty()
    } else {
        flat_items(ss.drop_last()) + ss.last()
    }
}

/// Flattens a slice list into one item vector.
fn build_flat_items(slices: &Vec<Vec<ProposalItem>>) -> (r: Vec<ProposalItem>)
    ensures
        items_v(r@) == flat_items(slices_v(slices@)),
{
    let n: usize = slices.len();
    let mut out: Vec<ProposalItem> = Vec::new();
    let mut si: usize = 0;
    proof {
        assert(items_v(out@) =~= flat_items(slices_v(slices@).subrange(0, 0)));
    }
    while si < n
        invariant
            n == slices@.len(),
            si <= n,
            items_v(out@) == flat_items(slices_v(slices@).subrange(0, si as int)),
        decreases n - si,
    {
        let sl = &slices[si];
        let m: usize = sl.len();
        let mut k: usize = 0;
        proof {
            assert(items_v(sl@).subrange(0, 0) =~= Seq::<ProposalItemV>::empty());
            assert(items_v(out@) + items_v(sl@).subrange(0, 0) =~= items_v(out@));
        }
        let ghost base = items_v(out@);
        while k < m
            invariant
                m == sl@.len(),
                k <= m,
                items_v(out@) == base + items_v(sl@).subrange(0, k as int),
            decreases m - k,
        {
            let ghost pre = items_v(out@);
            out.push(item_clone(&sl[k]));
            proof {
                assert(items_v(out@) =~= pre.push(sl@[k as int]@));
                assert(items_v(sl@)[k as int] == sl@[k as int]@);
                assert(base + items_v(sl@).subrange(0, (k + 1) as int) =~= (base + items_v(
                    sl@,
                ).subrange(0, k as int)).push(sl@[k as int]@));
            }
            k += 1;
        }
        proof {
            let ssv = slices_v(slices@);
            assert(items_v(sl@).subrange(0, m as int) =~= items_v(sl@));
            assert(ssv.subrange(0, (si + 1) as int).drop_last() =~= ssv.subrange(0, si as int));
            assert(ssv.subrange(0, (si + 1) as int).last() == items_v(slices@[si as int]@));
        }
        si += 1;
    }
    proof {
        assert(slices_v(slices@).subrange(0, n as int) =~= slices_v(slices@));
    }
    out
}

/// Walks the flattened items from position `i` on, binding the i-th item to
/// the i-th related input cell and the i-th output AccountCell, and
/// accumulating the profit map.
pub open spec fn sp_check_items_flat(
    c: ConfigV,
    ts: u64,
    proposer_lock: ScriptV,
    items: Seq<ProposalItemV>,
    i: int,
    inputs: Seq<CellV>,
    outputs: Seq<CellV>,
    input_related: Seq<usize>,
    output_accounts: Seq<usize>,
    m: Seq<crate::entity::IncomeRecordV>,
) -> Result<Seq<crate::entity::IncomeRecordV>, ErrorCode>
    decreases items.len() - i,
{
    if i < 0 || i >= items.len() {
        Result::Ok(m)
    } else {
        let item = items[i];
        let in_cell = inputs[input_related[i] as int];
        let out_cell = outputs[output_accounts[i] as int];
        if item.item_type == ITEM_TYPE_EXIST || item.item_type == ITEM_TYPE_PROPOSED {
            match sp_check_exist_item(c, item, in_cell, out_cell) {
                Result::Err(e) => Result::Err(e),
                Result::Ok(u) => sp_check_items_flat(
                    c,
                    ts,
                    proposer_lock,
                    items,
                    i + 1,
                    inputs,
                    outputs,
                    input_related,
                    output_accounts,
                    m,
                ),
            }
        } else {
            match sp_check_new_item(c, ts, proposer_lock, item, in_cell, out_cell, m) {
                Result::Err(e) => Result::Err(e),
                Result::Ok(m2) => sp_check_items_flat(
                    c,
                    ts,
                    proposer_lock,
                    items,
                    i + 1,
                    inputs,
                    outputs,
                    input_related,
                    output_accounts,
                    m2,
                ),
            }
        }
    }
}

/// Walks the flattened items, exactly as `sp_check_items_flat` reads them.
fn check_items_flat_rec(
    config: &Config,
    timestamp: u64,
    proposer_lock: &Script,
    items: &Vec<ProposalItem>,
    i: usize,
    inputs: &Vec<Cell>,
    outputs: &Vec<Cell>,
    input_related: &Vec<usize>,
    output_accounts: &Vec<usize>,
    m: crate::profit::ProfitMap,
) -> (r: Result<crate::profit::ProfitMap, ErrorCode>)
    requires
        crate::model::config_wf(config@),
        i <= items@.len(),
        input_related@.len() == items@.len(),
        output_accounts@.len() == items@.len(),
        forall|j: int| 0 <= j < input_related@.len() ==> (#[trigger] input_related@[j]) < inputs@.len(),
        forall|j: int|
            0 <= j < output_accounts@.len() ==> (#[trigger] output_accounts@[j]) < outputs@.len(),
    ensures
        ({
            let sp = sp_check_items_flat(
                config@,
                timestamp,
                proposer_lock@,
                items_v(items@),
                i as int,
                crate::model::cells_v(inputs@),
                crate::model::cells_v(outputs@),
                input_related@,
                output_accounts@,
                m@,
            );
            match r {
                Result::Ok(m2) => sp == Result::<Seq<crate::entity::IncomeRecordV>, ErrorCode>::Ok(
                    m2@,
                ),
                Result::Err(e) => sp == Result::<
                    Seq<crate::entity::IncomeRecordV>,
                    ErrorCode,
                >::Err(e),
            }
        }),
    decreases items@.len() - i,
{
    let n: usize = items.len();
    if i >= n {
        return Result::Ok(m);
    }
    let in_idx: usize = input_related[i];
    let out_idx: usize = output_accounts[i];
    proof {
        assert(input_related@[i as int] < inputs@.len());
        assert(output_accounts@[i as int] < outputs@.len());
        assert(items_v(items@)[i as int] == items@[i as int]@);
        assert(crate::model::cells_v(inputs@)[in_idx as int] == inputs@[in_idx as int]@);
        assert(crate::model::cells_v(outputs@)[out_idx as int] == outputs@[out_idx as int]@);
    }
    let item = &items[i];
    let in_cell = &inputs[in_idx];
    let out_cell = &outputs[out_idx];
    if item.item_type == ITEM_TYPE_EXIST || item.item_type == ITEM_TYPE_PROPOSED {
        match check_exist_item(config, item, in_cell, out_cell) {
            Result::Err(e) => Result::Err(e),
            Result::Ok(u) => check_items_flat_rec(
                config,
                timestamp,
                proposer_lock,
                items,
                i + 1,
                inputs,
                outputs,
                input_related,
                output_accounts,
                m,
            ),
        }
    } else {
        match check_new_item(config, timestamp, proposer_lock, item, in_cell, out_cell, m) {
            Result::Err(e) => Result::Err(e),
            Result::Ok(m2) => check_items_flat_rec(
                config,
                timestamp,
                proposer_lock,
                items,
                i + 1,
                inputs,
                outputs,
                input_related,
                output_accounts,
                m2,
            ),
        }
    }
}

/// Settles the output IncomeCell's records from position `j` on against the
/// profit map: each record must name a credited lock with exactly its
/// credit, which is then taken out; the capacities are summed.
pub open spec fn sp_settle_records(
    records: Seq<crate::entity::IncomeRecordV>,
    j: int,
    m: Seq<crate::entity::IncomeRecordV>,
    acc: int,
) -> Result<(Seq<crate::entity::IncomeRecordV>, int), ErrorCode>
    decreases records.len() - j,
{
    if j < 0 || j >= records.len() {
        Result::Ok((m, acc))
    } else {
        let rec = records[j];
        match crate::profit::map_get(m, rec.belong_to) {
            Option::None => Result::Err(ErrorCode::ProposalConfirmIncomeError),
            Option::Some(owed) => if owed != rec.capacity {
                Result::Err(ErrorCode::ProposalConfirmIncomeError)
            } else {
                sp_settle_records(
                    records,
                    j + 1,
                    crate::profit::map_remove(m, rec.belong_to),
                    acc + rec.capacity,
                )
            },
        }
    }
}

/// Settles the records, exactly as `sp_settle_records` reads them.
fn settle_records_rec(
    records: &Vec<crate::entity::IncomeRecord>,
    j: usize,
    m: crate::profit::ProfitMap,
    acc: u128,
) -> (r: Result<(crate::profit::ProfitMap, u128), ErrorCode>)
    requires
        j <= records@.len(),
        acc <= (j as int) * 0xffffffffffffffff,
    ensures
        ({
            let sp = sp_settle_records(
                crate::entity::records_v(records@),
                j as int,
                m@,
                acc as int,
            );
            match r {
                Result::Ok(out) => sp == Result::<
                    (Seq<crate::entity::IncomeRecordV>, int),
                    ErrorCode,
                >::Ok((out.0@, out.1 as int)),
                Result::Err(e) => sp == Result::<
                    (Seq<crate::entity::IncomeRecordV>, int),
                    ErrorCode,
                >::Err(e),
            }
        }),
    decreases records@.len() - j,
{
    let n: usize = records.len();
    if j >= n {
        return Result::Ok((m, acc));
    }
    proof {
        assert(crate::entity::records_v(records@)[j as int] == records@[j as int]@);
        vstd::arithmetic::mul::lemma_mul_inequality(
            j as int + 1,
            n as int,
            0xffffffffffffffff,
        );
        assert((n as int) * 0xffffffffffffffff <= 0xffffffffffffffff * 0xffffffffffffffff);
    }
    let rec = &records[j];
    let mut m = m;
    match m.get(&rec.belong_to) {
        Option::None => Result::Err(ErrorCode::ProposalConfirmIncomeError),
        Option::Some(owed) => {
            if owed != rec.capacity {
                return Result::Err(ErrorCode::ProposalConfirmIncomeError);
            }
            m.remove(&rec.belong_to);
            settle_records_rec(records, j + 1, m, acc + rec.capacity as u128)
        },
    }
}

/// The profit map seeded with the input IncomeCell's single pass-through
/// record, when such a cell is consumed.
pub open spec fn sp_income_seed(
    c: ConfigV,
    inputs: Seq<CellV>,
    m: Seq<crate::entity::IncomeRecordV>,
) -> Result<Seq<crate::entity::IncomeRecordV>, ErrorCode> {
    let input_income = crate::indexer::spec_find_cells_by_type(inputs, c.type_id_table.income_cell);
    if input_income.len() == 1 {
        match crate::witness::spec_verify_and_get(inputs[input_income[0] as int]) {
            Result::Err(e) => Result::Err(e),
            Result::Ok(entity) => match crate::codec::p_income_data(entity) {
                Option::None => Result::Err(ErrorCode::WitnessEntityDecodingError),
                Option::Some(w) => if w.records.len() != 1 {
                    Result::Err(ErrorCode::ProposalFoundInvalidTransaction)
                } else {
                    match crate::profit::map_add(m, w.records[0].belong_to, w.records[0].capacity) {
                        Option::None => Result::Err(ErrorCode::ProposalConfirmIncomeError),
                        Option::Some(m1) => Result::Ok(m1),
                    }
                },
            },
        }
    } else {
        Result::Ok(m)
    }
}

/// The IncomeCell reconciliation: at most one input IncomeCell, whose
/// single record passes through; exactly one output IncomeCell, whose
/// records are exactly the profit map and whose capacity is their sum.
pub open spec fn sp_check_income(
    c: ConfigV,
    inputs: Seq<CellV>,
    outputs: Seq<CellV>,
    m: Seq<crate::entity::IncomeRecordV>,
) -> Result<(), ErrorCode> {
    let input_income = crate::indexer::spec_find_cells_by_type(inputs, c.type_id_table.income_cell);
    let output_income = crate::indexer::spec_find_cells_by_type(
        outputs,
        c.type_id_table.income_cell,
    );
    if input_income.len() > 1 {
        Result::Err(ErrorCode::ProposalFoundInvalidTransaction)
    } else {
        match sp_income_seed(c, inputs, m) {
            Result::Err(e) => Result::Err(e),
            Result::Ok(m1) => if output_income.len() != 1 {
                Result::Err(ErrorCode::ProposalFoundInvalidTransaction)
            } else {
                match crate::witness::spec_verify_and_get(outputs[output_income[0] as int]) {
                    Result::Err(e) => Result::Err(e),
                    Result::Ok(entity) => match crate::codec::p_income_data(entity) {
                        Option::None => Result::Err(ErrorCode::WitnessEntityDecodingError),
                        Option::Some(w) => match sp_settle_records(w.records, 0, m1, 0) {
                            Result::Err(e) => Result::Err(e),
                            Result::Ok((m2, total)) => if m2.len() != 0 {
                                Result::Err(ErrorCode::ProposalConfirmIncomeError)
                            } else if total != outputs[output_income[0] as int].capacity {
                                Result::Err(ErrorCode::ProposalConfirmIncomeError)
                            } else {
                                Result::Ok(())
                            },
                        },
                    },
                }
            },
        }
    }
}

/// Reconciles the IncomeCells, exactly as `sp_check_income` decides it.
fn check_income(
    config: &Config,
    inputs: &Vec<Cell>,
    outputs: &Vec<Cell>,
    m: crate::profit::ProfitMap,
) -> (r: Result<(), ErrorCode>)
    ensures
        r == sp_check_income(
            config@,
            crate::model::cells_v(inputs@),
            crate::model::cells_v(outputs@),
            m@,
        ),
{
    let n_in: usize = inputs.len();
    let n_out: usize = outputs.len();
    let input_income = crate::indexer::find_cells_by_type_id(
        inputs,
        config.type_id_table.income_cell.as_slice(),
    );
    let output_income = crate::indexer::find_cells_by_type_id(
        outputs,
        config.type_id_table.income_cell.as_slice(),
    );
    if input_income.len() > 1 {
        return Result::Err(ErrorCode::ProposalFoundInvalidTransaction);
    }
    proof {
        crate::indexer::lemma_find_by_type_bounds(
            crate::model::cells_v(inputs@),
            config.type_id_table.income_cell@,
            n_in as int,
        );
        crate::indexer::lemma_find_by_type_bounds(
            crate::model::cells_v(outputs@),
            config.type_id_table.income_cell@,
            n_out as int,
        );
    }
    let mut m = m;
    if input_income.len() == 1 {
        let idx: usize = input_income[0];
        proof {
            assert(crate::model::cells_v(inputs@)[idx as int] == inputs@[idx as int]@);
        }
        let cell = &inputs[idx];
        let entity = match crate::witness::verify_and_get(cell) {
            Result::Err(e) => {
                return Result::Err(e);
            },
            Result::Ok(v) => v,
        };
        let w = match crate::codec::parse_income_data(entity.as_slice()) {
            Result::Err(e) => {
                return Result::Err(e);
            },
            Result::Ok(v) => v,
        };
        if w.records.len() != 1 {
            return Result::Err(ErrorCode::ProposalFoundInvalidTransaction);
        }
        proof {
            assert(crate::entity::records_v(w.records@)[0] == w.records@[0]@);
        }
        let rec = &w.records[0];
        if !m.add(&rec.belong_to, rec.capacity) {
            return Result::Err(ErrorCode::ProposalConfirmIncomeError);
        }
    }
    if output_income.len() != 1 {
        return Result::Err(ErrorCode::ProposalFoundInvalidTransaction);
    }
    let out_idx: usize = output_income[0];
    proof {
        assert(crate::model::cells_v(outputs@)[out_idx as int] == outputs@[out_idx as int]@);
    }
    let out_cell = &outputs[out_idx];
    let entity = match crate::witness::verify_and_get(out_cell) {
        Result::Err(e) => {
            return Result::Err(e);
        },
        Result::Ok(v) => v,
    };
    let w = match crate::codec::parse_income_data(entity.as_slice()) {
        Result::Err(e) => {
            return Result::Err(e);
        },
        Result::Ok(v) => v,
    };
    match settle_records_rec(&w.records, 0, m, 0) {
        Result::Err(e) => Result::Err(e),
        Result::Ok((m2, total)) => {
            if m2.len() != 0 {
                return Result::Err(ErrorCode::ProposalConfirmIncomeError);
            }
            if total != out_cell.capacity as u128 {
                return Result::Err(ErrorCode::ProposalConfirmIncomeError);
            }
            Result::Ok(())
        },
    }
}

/// The whole execution-result check of a confirm: the related cells of the
/// inputs and the AccountCells of the outputs pair up with the flattened
/// items, every pair is converted or carried over correctly, and the
/// IncomeCell reconciles.
pub open spec fn spec_verify_proposal_execution_result(
    c: ConfigV,
    ts: u64,
    pdata: crate::entity::ProposalCellDataV,
    inputs: Seq<CellV>,
    outputs: Seq<CellV>,
    input_related: Seq<usize>,
    output_accounts: Seq<usize>,
) -> Result<(), ErrorCode> {
    let items = flat_items(pdata.slices);
    if input_related.len() != items.len() || output_accounts.len() != items.len() {
        Result::Err(ErrorCode::ProposalSliceRelatedCellMissing)
    } else {
        match sp_check_items_flat(
            c,
            ts,
            pdata.proposer_lock,
            items,
            0,
            inputs,
            outputs,
            input_related,
            output_accounts,
            Seq::empty(),
        ) {
            Result::Err(e) => Result::Err(e),
            Result::Ok(m) => sp_check_income(c, inputs, outputs, m),
        }
    }
}

/// Runs the execution-result check, deciding exactly
/// `spec_verify_proposal_execution_result`.
pub fn verify_proposal_execution_result(
    config: &Config,
    timestamp: u64,
    pdata: &crate::entity::ProposalCellData,
    inputs: &Vec<Cell>,
    outputs: &Vec<Cell>,
    input_related: &Vec<usize>,
    output_accounts: &Vec<usize>,
) -> (r: Result<(), ErrorCode>)
    requires
        crate::model::config_wf(config@),
        forall|j: int| 0 <= j < input_related@.len() ==> (#[trigger] input_related@[j]) < inputs@.len(),
        forall|j: int|
            0 <= j < output_accounts@.len() ==> (#[trigger] output_accounts@[j]) < outputs@.len(),
    ensures
        r == spec_verify_proposal_execution_result(
            config@,
            timestamp,
            pdata@,
            crate::model::cells_v(inputs@),
            crate::model::cells_v(outputs@),
            input_related@,
            output_accounts@,
        ),
{
    let flat = build_flat_items(&pdata.slices);
    if input_related.len() != flat.len() || output_accounts.len() != flat.len() {
        return Result::Err(ErrorCode::ProposalSliceRelatedCellMissing);
    }
    let m0 = crate::profit::ProfitMap::new();
    proof {
        assert(m0@ =~= Seq::<crate::entity::IncomeRecordV>::empty());
    }
    match check_items_flat_rec(
        config,
        timestamp,
        &pdata.proposer_lock,
        &flat,
        0,
        inputs,
        outputs,
        input_related,
        output_accounts,
        m0,
    ) {
        Result::Err(e) => Result::Err(e),
        Result::Ok(m) => check_income(config, inputs, outputs, m),
    }
}

/// The capacities of the cells at the given indices, summed from `j` on.
pub open spec fn sum_capacities_from(cells: Seq<CellV>, idxs: Seq<usize>, j: int) -> int
    decreases idxs.len() - j,
{
    if j < 0 || j >= idxs.len() {
        0int
    } else {
        cells[idxs[j] as int].capacity + sum_capacities_from(cells, idxs, j + 1)
    }
}

/// The refund check: the outputs carrying the proposer's lock must hold at
/// least the ProposalCell's own capacity between them.
pub open spec fn spec_verify_refund_correct(
    outputs: Seq<CellV>,
    proposer_lock: ScriptV,
    proposal_capacity: u64,
) -> Result<(), ErrorCode> {
    let refund_cells = crate::indexer::spec_find_cells_by_lock(outputs, proposer_lock);
    if refund_cells.len() < 1 {
        Result::Err(ErrorCode::ProposalConfirmRefundError)
    } else if proposal_capacity > sum_capacities_from(outputs, refund_cells, 0) {
        Result::Err(ErrorCode::ProposalConfirmRefundError)
    } else {
        Result::Ok(())
    }
}

/// Runs the refund check, deciding exactly `spec_verify_refund_correct`.
pub fn verify_refund_correct(
    outputs: &Vec<Cell>,
    proposer_lock: &Script,
    proposal_capacity: u64,
) -> (r: Result<(), ErrorCode>)
    ensures
        r == spec_verify_refund_correct(
            crate::model::cells_v(outputs@),
            proposer_lock@,
            proposal_capacity,
        ),
{
    let n_out: usize = outputs.len();
    let refund_cells = crate::indexer::find_cells_by_lock(outputs, proposer_lock);
    if refund_cells.len() < 1 {
        return Result::Err(ErrorCode::ProposalConfirmRefundError);
    }
    proof {
        crate::indexer::lemma_find_by_lock_bounds(
            crate::model::cells_v(outputs@),
            proposer_lock@,
            n_out as int,
        );
    }
    let ghost cells = crate::model::cells_v(outputs@);
    let m: usize = refund_cells.len();
    let mut acc: u128 = 0;
    let mut j: usize = 0;
    while j < m
        invariant
            m == refund_cells@.len(),
            j <= m,
            acc <= (j as int) * 0xffffffffffffffff,
            cells == crate::model::cells_v(outputs@),
            forall|k: int|
                0 <= k < refund_cells@.len() ==> (#[trigger] refund_cells@[k]) < outputs@.len(),
            sum_capacities_from(cells, refund_cells@, 0) == acc + sum_capacities_from(
                cells,
                refund_cells@,
                j as int,
            ),
        decreases m - j,
    {
        proof {
            vstd::arithmetic::mul::lemma_mul_inequality(
                j as int + 1,
                m as int,
                0xffffffffffffffff,
            );
            assert((m as int) * 0xffffffffffffffff <= 0xffffffffffffffff * 0xffffffffffffffff);
        }
        let idx: usize = refund_cells[j];
        proof {
            assert(cells[idx as int] == outputs@[idx as int]@);
        }
        acc = acc + outputs[idx].capacity as u128;
        j += 1;
    }
    if (proposal_capacity as u128) > acc {
        Result::Err(ErrorCode::ProposalConfirmRefundError)
    } else {
        Result::Ok(())
    }
}

// ---------------------------------------------------------------------------
// The action dispatch.
// ---------------------------------------------------------------------------

/// The relevant cells of a proposal: every AccountCell and PreAccountCell
/// of the group, ascending by index; at least one PreAccountCell must be
/// among them.
pub open spec fn spec_find_proposal_related_cells(c: ConfigV, cells: Seq<CellV>) -> Result<
    Seq<usize>,
    ErrorCode,
> {
    if crate::indexer::spec_find_cells_by_type(cells, c.type_id_table.pre_account_cell).len()
        == 0 {
        Result::Err(ErrorCode::ProposalFoundInvalidTransaction)
    } else {
        Result::Ok(
            crate::indexer::spec_find_cells_by_either_type(
                cells,
                c.type_id_table.account_cell,
                c.type_id_table.pre_account_cell,
            ),
        )
    }
}

/// Enumerates a group's relevant cells, exactly as
/// `spec_find_proposal_related_cells` gives them.
pub fn find_proposal_related_cells(config: &Config, cells: &Vec<Cell>) -> (r: Result<
    Vec<usize>,
    ErrorCode,
>)
    ensures
        match r {
            Result::Ok(v) => spec_find_proposal_related_cells(
                config@,
                crate::model::cells_v(cells@),
            ) == Result::<Seq<usize>, ErrorCode>::Ok(v@),
            Result::Err(e) => spec_find_proposal_related_cells(
                config@,
                crate::model::cells_v(cells@),
            ) == Result::<Seq<usize>, ErrorCode>::Err(e),
        },
{
    let pre_cells = crate::indexer::find_cells_by_type_id(
        cells,
        config.type_id_table.pre_account_cell.as_slice(),
    );
    if pre_cells.len() == 0 {
        return Result::Err(ErrorCode::ProposalFoundInvalidTransaction);
    }
    Result::Ok(
        crate::indexer::find_cells_by_either_type_id(
            cells,
            config.type_id_table.account_cell.as_slice(),
            config.type_id_table.pre_account_cell.as_slice(),
        ),
    )
}

/// The AccountCells among the outputs, ascending by index; there must be at
/// least one.
pub open spec fn spec_find_output_account_cells(c: ConfigV, outputs: Seq<CellV>) -> Result<
    Seq<usize>,
    ErrorCode,
> {
    let found = crate::indexer::spec_find_cells_by_type(outputs, c.type_id_table.account_cell);
    if found.len() == 0 {
        Result::Err(ErrorCode::ProposalFoundInvalidTransaction)
    } else {
        Result::Ok(found)
    }
}

/// Enumerates the outputs' AccountCells, exactly as
/// `spec_find_output_account_cells` gives them.
pub fn find_output_account_cells(config: &Config, outputs: &Vec<Cell>) -> (r: Result<
    Vec<usize>,
    ErrorCode,
>)
    ensures
        match r {
            Result::Ok(v) => spec_find_output_account_cells(
                config@,
                crate::model::cells_v(outputs@),
            ) == Result::<Seq<usize>, ErrorCode>::Ok(v@),
            Result::Err(e) => spec_find_output_account_cells(
                config@,
                crate::model::cells_v(outputs@),
            ) == Result::<Seq<usize>, ErrorCode>::Err(e),
        },
{
    let found = crate::indexer::find_cells_by_type_id(
        outputs,
        config.type_id_table.account_cell.as_slice(),
    );
    if found.len() == 0 {
        return Result::Err(ErrorCode::ProposalFoundInvalidTransaction);
    }
    Result::Ok(found)
}

/// The `propose` action: no ProposalCell consumed or referenced, exactly
/// one created under the always-success lock; its slices structurally
/// sound and bound, without a parent, to the relevant cells in the
/// cell-deps.
pub open spec fn sp_propose(tx: crate::model::TransactionV, c: ConfigV) -> Result<(), ErrorCode> {
    let dep_cells = crate::indexer::spec_find_cells_by_type(
        tx.cell_deps,
        c.type_id_table.proposal_cell,
    );
    let input_cells = crate::indexer::spec_find_cells_by_type(
        tx.inputs,
        c.type_id_table.proposal_cell,
    );
    let output_cells = crate::indexer::spec_find_cells_by_type(
        tx.outputs,
        c.type_id_table.proposal_cell,
    );
    if !(dep_cells.len() == 0 && input_cells.len() == 0 && output_cells.len() == 1) {
        Result::Err(ErrorCode::ProposalFoundInvalidTransaction)
    } else {
        let cell = tx.outputs[output_cells[0] as int];
        if cell.lock.code_hash != c.always_success_code_hash {
            Result::Err(ErrorCode::CellMustUseAlwaysSuccessLock)
        } else {
            match crate::witness::spec_verify_and_get(cell) {
                Result::Err(e) => Result::Err(e),
                Result::Ok(entity) => match crate::codec::p_proposal_data(entity) {
                    Option::None => Result::Err(ErrorCode::WitnessEntityDecodingError),
                    Option::Some(pdata) => match spec_verify_slices(pdata.slices, c) {
                        Result::Err(e) => Result::Err(e),
                        Result::Ok(count) => match spec_find_proposal_related_cells(
                            c,
                            tx.cell_deps,
                        ) {
                            Result::Err(e) => Result::Err(e),
                            Result::Ok(related) => if count != related.len() {
                                Result::Err(ErrorCode::ProposalSliceRelatedCellMissing)
                            } else {
                                spec_verify_slices_relevant_cells(
                                    c,
                                    pdata.slices,
                                    tx.cell_deps,
                                    related,
                                    Option::None,
                                )
                            },
                        },
                    },
                },
            }
        }
    }
}

/// The `extend_proposal` action: one parent ProposalCell referenced, one
/// child created under the always-success lock; the child's slices sound
/// and bound to the relevant cells, Proposed heads resolving their tracked
/// next through the parent.
pub open spec fn sp_extend_proposal(tx: crate::model::TransactionV, c: ConfigV) -> Result<
    (),
    ErrorCode,
> {
    let dep_cells = crate::indexer::spec_find_cells_by_type(
        tx.cell_deps,
        c.type_id_table.proposal_cell,
    );
    let input_cells = crate::indexer::spec_find_cells_by_type(
        tx.inputs,
        c.type_id_table.proposal_cell,
    );
    let output_cells = crate::indexer::spec_find_cells_by_type(
        tx.outputs,
        c.type_id_table.proposal_cell,
    );
    if !(dep_cells.len() == 1 && input_cells.len() == 0 && output_cells.len() == 1) {
        Result::Err(ErrorCode::ProposalFoundInvalidTransaction)
    } else {
        let cell = tx.outputs[output_cells[0] as int];
        if cell.lock.code_hash != c.always_success_code_hash {
            Result::Err(ErrorCode::CellMustUseAlwaysSuccessLock)
        } else {
            match crate::witness::spec_verify_and_get(tx.cell_deps[dep_cells[0] as int]) {
                Result::Err(e) => Result::Err(e),
                Result::Ok(prev_entity) => match crate::codec::p_proposal_data(prev_entity) {
                    Option::None => Result::Err(ErrorCode::WitnessEntityDecodingError),
                    Option::Some(prev_pdata) => match crate::witness::spec_verify_and_get(cell) {
                        Result::Err(e) => Result::Err(e),
                        Result::Ok(entity) => match crate::codec::p_proposal_data(entity) {
                            Option::None => Result::Err(ErrorCode::WitnessEntityDecodingError),
                            Option::Some(pdata) => match spec_verify_slices(pdata.slices, c) {
                                Result::Err(e) => Result::Err(e),
                                Result::Ok(count) => match spec_find_proposal_related_cells(
                                    c,
                                    tx.cell_deps,
                                ) {
                                    Result::Err(e) => Result::Err(e),
                                    Result::Ok(related) => if count != related.len() {
                                        Result::Err(ErrorCode::ProposalSliceRelatedCellMissing)
                                    } else {
                                        spec_verify_slices_relevant_cells(
                                            c,
                                            pdata.slices,
                                            tx.cell_deps,
                                            related,
                                            Option::Some(prev_pdata.slices),
                                        )
                                    },
                                },
                            },
                        },
                    },
                },
            }
        }
    }
}

/// The `confirm_proposal` action: the sole input ProposalCell's execution
/// result holds, and the proposer's capacity is refunded.
pub open spec fn sp_confirm_proposal(tx: crate::model::TransactionV, c: ConfigV) -> Result<
    (),
    ErrorCode,
> {
    match crate::oracle::spec_load_timestamp(tx.cell_deps, c.type_id_table.time_cell) {
        Result::Err(e) => Result::Err(e),
        Result::Ok(ts) => {
            let dep_cells = crate::indexer::spec_find_cells_by_type(
                tx.cell_deps,
                c.type_id_table.proposal_cell,
            );
            let input_cells = crate::indexer::spec_find_cells_by_type(
                tx.inputs,
                c.type_id_table.proposal_cell,
            );
            let output_cells = crate::indexer::spec_find_cells_by_type(
                tx.outputs,
                c.type_id_table.proposal_cell,
            );
            if !(dep_cells.len() == 0 && input_cells.len() == 1 && output_cells.len() == 0) {
                Result::Err(ErrorCode::ProposalFoundInvalidTransaction)
            } else {
                let pcell = tx.inputs[input_cells[0] as int];
                match crate::witness::spec_verify_and_get(pcell) {
                    Result::Err(e) => Result::Err(e),
                    Result::Ok(entity) => match crate::codec::p_proposal_data(entity) {
                        Option::None => Result::Err(ErrorCode::WitnessEntityDecodingError),
                        Option::Some(pdata) => match spec_find_proposal_related_cells(
                            c,
                            tx.inputs,
                        ) {
                            Result::Err(e) => Result::Err(e),
                            Result::Ok(input_related) => match spec_find_output_account_cells(
                                c,
                                tx.outputs,
                            ) {
                                Result::Err(e) => Result::Err(e),
                                Result::Ok(output_accounts) => match spec_verify_proposal_execution_result(
                                    c,
                                    ts,
                                    pdata,
                                    tx.inputs,
                                    tx.outputs,
                                    input_related,
                                    output_accounts,
                                ) {
                                    Result::Err(e) => Result::Err(e),
                                    Result::Ok(u) => spec_verify_refund_correct(
                                        tx.outputs,
                                        pdata.proposer_lock,
                                        pcell.capacity,
                                    ),
                                },
                            },
                        },
                    },
                }
            }
        },
    }
}

/// The `recycle_proposal` action: the sole input ProposalCell has waited at
/// least the configured interval since its creation, and the proposer's
/// capacity is refunded.
pub open spec fn sp_recycle_proposal(tx: crate::model::TransactionV, c: ConfigV) -> Result<
    (),
    ErrorCode,
> {
    let dep_cells = crate::indexer::spec_find_cells_by_type(
        tx.cell_deps,
        c.type_id_table.proposal_cell,
    );
    let input_cells = crate::indexer::spec_find_cells_by_type(
        tx.inputs,
        c.type_id_table.proposal_cell,
    );
    let output_cells = crate::indexer::spec_find_cells_by_type(
        tx.outputs,
        c.type_id_table.proposal_cell,
    );
    if !(dep_cells.len() == 0 && input_cells.len() == 1 && output_cells.len() == 0) {
        Result::Err(ErrorCode::ProposalFoundInvalidTransaction)
    } else {
        let pcell = tx.inputs[input_cells[0] as int];
        match crate::witness::spec_verify_and_get(pcell) {
            Result::Err(e) => Result::Err(e),
            Result::Ok(entity) => match crate::codec::p_proposal_data(entity) {
                Option::None => Result::Err(ErrorCode::WitnessEntityDecodingError),
                Option::Some(pdata) => match crate::oracle::spec_load_height(
                    tx.cell_deps,
                    c.type_id_table.height_cell,
                ) {
                    Result::Err(e) => Result::Err(e),
                    Result::Ok(height) => if height < pdata.created_at_height
                        + c.proposal_min_recycle_interval {
                        Result::Err(ErrorCode::ProposalRecycleNeedWaitLonger)
                    } else {
                        spec_verify_refund_correct(
                            tx.outputs,
                            pdata.proposer_lock,
                            pcell.capacity,
                        )
                    },
                },
            },
        }
    }
}

/// What the whole ProposalCell validator decides for a transaction: the
/// kill switch first, then the action's own rules; an unknown action is
/// refused.
pub open spec fn spec_validate_proposal(tx: crate::model::TransactionV, c: ConfigV) -> Result<
    (),
    ErrorCode,
> {
    if c.status != 1 {
        Result::Err(ErrorCode::SystemOff)
    } else if tx.action == crate::actions::action_propose() {
        sp_propose(tx, c)
    } else if tx.action == crate::actions::action_extend_proposal() {
        sp_extend_proposal(tx, c)
    } else if tx.action == crate::actions::action_confirm_proposal() {
        sp_confirm_proposal(tx, c)
    } else if tx.action == crate::actions::action_recycle_proposal() {
        sp_recycle_proposal(tx, c)
    } else {
        Result::Err(ErrorCode::ActionNotSupported)
    }
}

/// Runs the `propose` branch, deciding exactly `sp_propose`.
#[verifier::rlimit(50)]
fn run_propose(tx: &crate::model::Transaction, config: &Config) -> (r: Result<(), ErrorCode>)
    requires
        crate::model::config_wf(config@),
    ensures
        r == sp_propose(tx@, config@),
{
    let n_deps: usize = tx.cell_deps.len();
    let n_ins: usize = tx.inputs.len();
    let n_outs: usize = tx.outputs.len();
    let dep_cells = crate::indexer::find_cells_by_type_id(
        &tx.cell_deps,
        config.type_id_table.proposal_cell.as_slice(),
    );
    let input_cells = crate::indexer::find_cells_by_type_id(
        &tx.inputs,
        config.type_id_table.proposal_cell.as_slice(),
    );
    let output_cells = crate::indexer::find_cells_by_type_id(
        &tx.outputs,
        config.type_id_table.proposal_cell.as_slice(),
    );
    if !(dep_cells.len() == 0 && input_cells.len() == 0 && output_cells.len() == 1) {
        return Result::Err(ErrorCode::ProposalFoundInvalidTransaction);
    }
    proof {
        crate::indexer::lemma_find_by_type_bounds(
            crate::model::cells_v(tx.outputs@),
            config.type_id_table.proposal_cell@,
            n_outs as int,
        );
    }
    let out_idx: usize = output_cells[0];
    proof {
        assert(crate::model::cells_v(tx.outputs@)[out_idx as int] == tx.outputs@[out_idx as int]@);
    }
    let cell = &tx.outputs[out_idx];
    if !bytes_eq(cell.lock.code_hash.as_slice(), config.always_success_code_hash.as_slice()) {
        return Result::Err(ErrorCode::CellMustUseAlwaysSuccessLock);
    }
    let entity = match crate::witness::verify_and_get(cell) {
        Result::Err(e) => {
            return Result::Err(e);
        },
        Result::Ok(v) => v,
    };
    let pdata = match crate::codec::parse_proposal_data(entity.as_slice()) {
        Result::Err(e) => {
            return Result::Err(e);
        },
        Result::Ok(v) => v,
    };
    let count = match verify_slices(&pdata.slices, config) {
        Result::Err(e) => {
            return Result::Err(e);
        },
        Result::Ok(v) => v,
    };
    let related = match find_proposal_related_cells(config, &tx.cell_deps) {
        Result::Err(e) => {
            return Result::Err(e);
        },
        Result::Ok(v) => v,
    };
    if count != related.len() {
        return Result::Err(ErrorCode::ProposalSliceRelatedCellMissing);
    }
    proof {
        lemma_verify_slices_ok(slices_v(pdata.slices@), config@);
        crate::indexer::lemma_find_by_either_type_bounds(
            crate::model::cells_v(tx.cell_deps@),
            config.type_id_table.account_cell@,
            config.type_id_table.pre_account_cell@,
            n_deps as int,
        );
        assert forall|j: int| 0 <= j < pdata.slices@.len() implies (
        #[trigger] pdata.slices@[j])@.len() >= 1 by {
            assert(slices_v(pdata.slices@)[j] == items_v(pdata.slices@[j]@));
        }
    }
    verify_slices_relevant_cells(config, &pdata.slices, &tx.cell_deps, &related, Option::None)
}

/// Runs the `extend_proposal` branch, deciding exactly `sp_extend_proposal`.
#[verifier::rlimit(50)]
fn run_extend_proposal(tx: &crate::model::Transaction, config: &Config) -> (r: Result<
    (),
    ErrorCode,
>)
    requires
        crate::model::config_wf(config@),
    ensures
        r == sp_extend_proposal(tx@, config@),
{
    let n_deps: usize = tx.cell_deps.len();
    let n_outs: usize = tx.outputs.len();
    let dep_cells = crate::indexer::find_cells_by_type_id(
        &tx.cell_deps,
        config.type_id_table.proposal_cell.as_slice(),
    );
    let input_cells = crate::indexer::find_cells_by_type_id(
        &tx.inputs,
        config.type_id_table.proposal_cell.as_slice(),
    );
    let output_cells = crate::indexer::find_cells_by_type_id(
        &tx.outputs,
        config.type_id_table.proposal_cell.as_slice(),
    );
    if !(dep_cells.len() == 1 && input_cells.len() == 0 && output_cells.len() == 1) {
        return Result::Err(ErrorCode::ProposalFoundInvalidTransaction);
    }
    proof {
        crate::indexer::lemma_find_by_type_bounds(
            crate::model::cells_v(tx.outputs@),
            config.type_id_table.proposal_cell@,
            n_outs as int,
        );
        crate::indexer::lemma_find_by_type_bounds(
            crate::model::cells_v(tx.cell_deps@),
            config.type_id_table.proposal_cell@,
            n_deps as int,
        );
    }
    let out_idx: usize = output_cells[0];
    let dep_idx: usize = dep_cells[0];
    proof {
        assert(crate::model::cells_v(tx.outputs@)[out_idx as int] == tx.outputs@[out_idx as int]@);
        assert(crate::model::cells_v(tx.cell_deps@)[dep_idx as int] == tx.cell_deps@[dep_idx
            as int]@);
    }
    let cell = &tx.outputs[out_idx];
    if !bytes_eq(cell.lock.code_hash.as_slice(), config.always_success_code_hash.as_slice()) {
        return Result::Err(ErrorCode::CellMustUseAlwaysSuccessLock);
    }
    let prev_entity = match crate::witness::verify_and_get(&tx.cell_deps[dep_idx]) {
        Result::Err(e) => {
            return Result::Err(e);
        },
        Result::Ok(v) => v,
    };
    let prev_pdata = match crate::codec::parse_proposal_data(prev_entity.as_slice()) {
        Result::Err(e) => {
            return Result::Err(e);
        },
        Result::Ok(v) => v,
    };
    let entity = match crate::witness::verify_and_get(cell) {
        Result::Err(e) => {
            return Result::Err(e);
        },
        Result::Ok(v) => v,
    };
    let pdata = match crate::codec::parse_proposal_data(entity.as_slice()) {
        Result::Err(e) => {
            return Result::Err(e);
        },
        Result::Ok(v) => v,
    };
    let count = match verify_slices(&pdata.slices, config) {
        Result::Err(e) => {
            return Result::Err(e);
        },
        Result::Ok(v) => v,
    };
    let related = match find_proposal_related_cells(config, &tx.cell_deps) {
        Result::Err(e) => {
            return Result::Err(e);
        },
        Result::Ok(v) => v,
    };
    if count != related.len() {
        return Result::Err(ErrorCode::ProposalSliceRelatedCellMissing);
    }
    proof {
        lemma_verify_slices_ok(slices_v(pdata.slices@), config@);
        crate::indexer::lemma_find_by_either_type_bounds(
            crate::model::cells_v(tx.cell_deps@),
            config.type_id_table.account_cell@,
            config.type_id_table.pre_account_cell@,
            n_deps as int,
        );
        assert forall|j: int| 0 <= j < pdata.slices@.len() implies (
        #[trigger] pdata.slices@[j])@.len() >= 1 by {
            assert(slices_v(pdata.slices@)[j] == items_v(pdata.slices@[j]@));
        }
    }
    verify_slices_relevant_cells(
        config,
        &pdata.slices,
        &tx.cell_deps,
        &related,
        Option::Some(&prev_pdata.slices),
    )
}

/// Runs the `confirm_proposal` branch, deciding exactly
/// `sp_confirm_proposal`.
#[verifier::rlimit(50)]
fn run_confirm_proposal(tx: &crate::model::Transaction, config: &Config) -> (r: Result<
    (),
    ErrorCode,
>)
    requires
        crate::model::config_wf(config@),
    ensures
        r == sp_confirm_proposal(tx@, config@),
{
    let n_ins: usize = tx.inputs.len();
    let n_outs: usize = tx.outputs.len();
    let timestamp = match crate::oracle::load_timestamp(
        &tx.cell_deps,
        config.type_id_table.time_cell.as_slice(),
    ) {
        Result::Err(e) => {
            return Result::Err(e);
        },
        Result::Ok(v) => v,
    };
    let dep_cells = crate::indexer::find_cells_by_type_id(
        &tx.cell_deps,
        config.type_id_table.proposal_cell.as_slice(),
    );
    let input_cells = crate::indexer::find_cells_by_type_id(
        &tx.inputs,
        config.type_id_table.proposal_cell.as_slice(),
    );
    let output_cells = crate::indexer::find_cells_by_type_id(
        &tx.outputs,
        config.type_id_table.proposal_cell.as_slice(),
    );
    if !(dep_cells.len() == 0 && input_cells.len() == 1 && output_cells.len() == 0) {
        return Result::Err(ErrorCode::ProposalFoundInvalidTransaction);
    }
    proof {
        crate::indexer::lemma_find_by_type_bounds(
            crate::model::cells_v(tx.inputs@),
            config.type_id_table.proposal_cell@,
            n_ins as int,
        );
    }
    let in_idx: usize = input_cells[0];
    proof {
        assert(crate::model::cells_v(tx.inputs@)[in_idx as int] == tx.inputs@[in_idx as int]@);
    }
    let pcell = &tx.inputs[in_idx];
    let entity = match crate::witness::verify_and_get(pcell) {
        Result::Err(e) => {
            return Result::Err(e);
        },
        Result::Ok(v) => v,
    };
    let pdata = match crate::codec::parse_proposal_data(entity.as_slice()) {
        Result::Err(e) => {
            return Result::Err(e);
        },
        Result::Ok(v) => v,
    };
    let input_related = match find_proposal_related_cells(config, &tx.inputs) {
        Result::Err(e) => {
            return Result::Err(e);
        },
        Result::Ok(v) => v,
    };
    let output_accounts = match find_output_account_cells(config, &tx.outputs) {
        Result::Err(e) => {
            return Result::Err(e);
        },
        Result::Ok(v) => v,
    };
    proof {
        crate::indexer::lemma_find_by_either_type_bounds(
            crate::model::cells_v(tx.inputs@),
            config.type_id_table.account_cell@,
            config.type_id_table.pre_account_cell@,
            n_ins as int,
        );
        crate::indexer::lemma_find_by_type_bounds(
            crate::model::cells_v(tx.outputs@),
            config.type_id_table.account_cell@,
            n_outs as int,
        );
    }
    match verify_proposal_execution_result(
        config,
        timestamp,
        &pdata,
        &tx.inputs,
        &tx.outputs,
        &input_related,
        &output_accounts,
    ) {
        Result::Err(e) => {
            return Result::Err(e);
        },
        Result::Ok(u) => {},
    }
    verify_refund_correct(&tx.outputs, &pdata.proposer_lock, pcell.capacity)
}

/// Runs the `recycle_proposal` branch, deciding exactly
/// `sp_recycle_proposal`.
#[verifier::rlimit(50)]
fn run_recycle_proposal(tx: &crate::model::Transaction, config: &Config) -> (r: Result<
    (),
    ErrorCode,
>)
    ensures
        r == sp_recycle_proposal(tx@, config@),
{
    let n_ins: usize = tx.inputs.len();
    let dep_cells = crate::indexer::find_cells_by_type_id(
        &tx.cell_deps,
        config.type_id_table.proposal_cell.as_slice(),
    );
    let input_cells = crate::indexer::find_cells_by_type_id(
        &tx.inputs,
        config.type_id_table.proposal_cell.as_slice(),
    );
    let output_cells = crate::indexer::find_cells_by_type_id(
        &tx.outputs,
        config.type_id_table.proposal_cell.as_slice(),
    );
    if !(dep_cells.len() == 0 && input_cells.len() == 1 && output_cells.len() == 0) {
        return Result::Err(ErrorCode::ProposalFoundInvalidTransaction);
    }
    proof {
        crate::indexer::lemma_find_by_type_bounds(
            crate::model::cells_v(tx.inputs@),
            config.type_id_table.proposal_cell@,
            n_ins as int,
        );
    }
    let in_idx: usize = input_cells[0];
    proof {
        assert(crate::model::cells_v(tx.inputs@)[in_idx as int] == tx.inputs@[in_idx as int]@);
    }
    let pcell = &tx.inputs[in_idx];
    let entity = match crate::witness::verify_and_get(pcell) {
        Result::Err(e) => {
            return Result::Err(e);
        },
        Result::Ok(v) => v,
    };
    let pdata = match crate::codec::parse_proposal_data(entity.as_slice()) {
        Result::Err(e) => {
            return Result::Err(e);
        },
        Result::Ok(v) => v,
    };
    let height = match crate::oracle::load_height(
        &tx.cell_deps,
        config.type_id_table.height_cell.as_slice(),
    ) {
        Result::Err(e) => {
            return Result::Err(e);
        },
        Result::Ok(v) => v,
    };
    if (height as u128) < (pdata.created_at_height as u128) + (
    config.proposal_min_recycle_interval as u128) {
        return Result::Err(ErrorCode::ProposalRecycleNeedWaitLonger);
    }
    verify_refund_correct(&tx.outputs, &pdata.proposer_lock, pcell.capacity)
}

/// Runs the ProposalCell validator, deciding exactly
/// `spec_validate_proposal`.
pub fn validate_proposal(tx: &crate::model::Transaction, config: &Config) -> (r: Result<
    (),
    ErrorCode,
>)
    requires
        crate::model::config_wf(config@),
    ensures
        r == spec_validate_proposal(tx@, config@),
{
    if config.status != 1 {
        return Result::Err(ErrorCode::SystemOff);
    }
    let propose_name = crate::actions::action_propose_bytes();
    let extend_name = crate::actions::action_extend_proposal_bytes();
    let confirm_name = crate::actions::action_confirm_proposal_bytes();
    let recycle_name = crate::actions::action_recycle_proposal_bytes();
    if bytes_eq(tx.action.as_slice(), propose_name.as_slice()) {
        run_propose(tx, config)
    } else if bytes_eq(tx.action.as_slice(), extend_name.as_slice()) {
        run_extend_proposal(tx, config)
    } else if bytes_eq(tx.action.as_slice(), confirm_name.as_slice()) {
        run_confirm_proposal(tx, config)
    } else if bytes_eq(tx.action.as_slice(), recycle_name.as_slice()) {
        run_recycle_proposal(tx, config)
    } else {
        Result::Err(ErrorCode::ActionNotSupported)
    }
}

} // verus!
