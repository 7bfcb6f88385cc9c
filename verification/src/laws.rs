//! What the validators' acceptance promises, stated and proved once: the
//! structure a committed proposal carries, the reconciliation a confirmed
//! fee split satisfies, the waiting time a recycle has honoured, and the
//! hash anchoring behind every accepted witness entity.

use vstd::prelude::*;

verus! {

use crate::codec::p_income_data;
use crate::codec::p_proposal_data;
use crate::entity::IncomeCellDataV;
use crate::entity::IncomeRecordV;
use crate::entity::ProposalCellDataV;
use crate::error::ErrorCode;
use crate::hash::blake2b256_of;
use crate::indexer::spec_find_cells_by_type;
use crate::model::CellV;
use crate::model::ConfigV;
use crate::model::TransactionV;
use crate::oracle::spec_load_height;
use crate::profit::map_get;
use crate::profit::map_remove;
use crate::profit::map_sum;
use crate::profit::lemma_map_empty;
use crate::profit::lemma_map_remove_sum;
use crate::byteseq::lex_lt;
use crate::model::data_id;
use crate::model::data_next;
use crate::proposal::flat_items;
use crate::proposal::slice_well_formed;
use crate::proposal::lemma_verify_slices_ok;
use crate::proposal::sp_check_exist_item;
use crate::proposal::sp_check_items_flat;
use crate::proposal::sp_check_new_item;
use crate::proposal::spec_verify_proposal_execution_result;
use crate::proposal::total_items;
use crate::proposal::total_items_from;
use crate::entity::ProposalItemV;
use crate::proposal::bind_items_from;
use crate::proposal::bind_slices_from;
use crate::proposal::spec_verify_slices_relevant_cells;
use crate::proposal::tracked_next_of_first;
use crate::proposal::sp_check_income;
use crate::proposal::sp_income_seed;
use crate::proposal::sp_propose;
use crate::proposal::sp_recycle_proposal;
use crate::proposal::sp_settle_records;
use crate::proposal::spec_verify_slices;
use crate::witness::spec_verify_and_get;

/// Hash anchoring: an entity that witness verification hands out hashes to
/// exactly the first 32 octets of its cell's data, so re-hashing it
/// reproduces them.
pub proof fn lemma_witness_hash_anchor(c: CellV, entity: Seq<u8>)
    requires
        spec_verify_and_get(c) == Result::<Seq<u8>, ErrorCode>::Ok(entity),
    ensures
        c.data.len() >= 32,
        blake2b256_of(entity) == c.data.subrange(0, 32),
{
}

/// A committed proposal's slices are each structurally sound: at least two
/// items, a non-New head with only New items after it, every `next` naming
/// the following item's id, and ids strictly ascending.
pub proof fn lemma_propose_slices_sound(
    tx: TransactionV,
    c: ConfigV,
    entity: Seq<u8>,
    pdata: ProposalCellDataV,
)
    requires
        sp_propose(tx, c) is Ok,
        ({
            let output_cells = spec_find_cells_by_type(tx.outputs, c.type_id_table.proposal_cell);
            output_cells.len() == 1 && spec_verify_and_get(tx.outputs[output_cells[0] as int])
                == Result::<Seq<u8>, ErrorCode>::Ok(entity)
        }),
        p_proposal_data(entity) == Option::Some(pdata),
    ensures
        forall|si: int|
            0 <= si < pdata.slices.len() ==> slice_well_formed(#[trigger] pdata.slices[si]),
{
    assert(spec_verify_slices(pdata.slices, c) is Ok);
    lemma_verify_slices_ok(pdata.slices, c);
}

/// A recycle that goes through has waited: the chain has grown by at least
/// the configured interval since the proposal was created.
pub proof fn lemma_recycle_waited(
    tx: TransactionV,
    c: ConfigV,
    entity: Seq<u8>,
    pdata: ProposalCellDataV,
    height: u64,
)
    requires
        sp_recycle_proposal(tx, c) is Ok,
        ({
            let input_cells = spec_find_cells_by_type(tx.inputs, c.type_id_table.proposal_cell);
            input_cells.len() == 1 && spec_verify_and_get(tx.inputs[input_cells[0] as int])
                == Result::<Seq<u8>, ErrorCode>::Ok(entity)
        }),
        p_proposal_data(entity) == Option::Some(pdata),
        spec_load_height(tx.cell_deps, c.type_id_table.height_cell) == Result::<
            u64,
            ErrorCode,
        >::Ok(height),
    ensures
        height - pdata.created_at_height >= c.proposal_min_recycle_interval,
{
}

/// The capacities an IncomeCell's records hold, summed from `j` on.
pub open spec fn records_sum_from(records: Seq<IncomeRecordV>, j: int) -> int
    decreases records.len() - j,
{
    if j < 0 || j >= records.len() {
        0int
    } else {
        records[j].capacity + records_sum_from(records, j + 1)
    }
}

/// Settling that goes through sums exactly the records it consumed, and
/// drains exactly that sum from the map.
proof fn lemma_settle_sum(records: Seq<IncomeRecordV>, j: int, m: Seq<IncomeRecordV>, acc: int)
    requires
        0 <= j <= records.len(),
        sp_settle_records(records, j, m, acc) is Ok,
    ensures
        sp_settle_records(records, j, m, acc) matches Result::Ok(out) && out.1 == acc
            + records_sum_from(records, j) && map_sum(out.0) == map_sum(m) - records_sum_from(
            records,
            j,
        ),
    decreases records.len() - j,
{
    if j < records.len() {
        let rec = records[j];
        match map_get(m, rec.belong_to) {
            Option::Some(owed) => {
                lemma_map_remove_sum(m, rec.belong_to);
                lemma_settle_sum(records, j + 1, map_remove(m, rec.belong_to), acc + rec.capacity);
            },
            Option::None => {},
        }
    }
}

/// Income reconciliation: when a confirm's IncomeCell check goes through,
/// the profit map (with any pass-through seed), the recorded capacities of
/// the output IncomeCell, and that cell's own capacity all agree.
pub proof fn lemma_confirm_income_reconciles(
    c: ConfigV,
    inputs: Seq<CellV>,
    outputs: Seq<CellV>,
    m: Seq<IncomeRecordV>,
    seeded: Seq<IncomeRecordV>,
    entity: Seq<u8>,
    w: IncomeCellDataV,
)
    requires
        sp_check_income(c, inputs, outputs, m) is Ok,
        sp_income_seed(c, inputs, m) == Result::<Seq<IncomeRecordV>, ErrorCode>::Ok(seeded),
        ({
            let output_income = spec_find_cells_by_type(outputs, c.type_id_table.income_cell);
            output_income.len() == 1 && spec_verify_and_get(outputs[output_income[0] as int])
                == Result::<Seq<u8>, ErrorCode>::Ok(entity)
        }),
        p_income_data(entity) == Option::Some(w),
    ensures
        ({
            let output_income = spec_find_cells_by_type(outputs, c.type_id_table.income_cell);
            &&& map_sum(seeded) == records_sum_from(w.records, 0)
            &&& records_sum_from(w.records, 0) == outputs[output_income[0] as int].capacity
        }),
{
    match sp_settle_records(w.records, 0, seeded, 0) {
        Result::Ok(out) => {
            lemma_settle_sum(w.records, 0, seeded, 0);
            lemma_map_empty(out.0);
        },
        Result::Err(e) => {
            assert(false);
        },
    }
}

// ---------------------------------------------------------------------------
// Where a slice's items sit in the flattened walk.
// ---------------------------------------------------------------------------

/// The number of items the slices before position `si` contribute.
pub open spec fn items_before(slices: Seq<Seq<ProposalItemV>>, si: int) -> int
    decreases si,
{
    if si <= 0 {
        0int
    } else {
        items_before(slices, si - 1) + slices[si - 1].len()
    }
}

/// Dropping the last slice removes exactly its items from the total.
proof fn lemma_total_items_snoc(slices: Seq<Seq<ProposalItemV>>, i: int)
    requires
        slices.len() >= 1,
        0 <= i <= slices.len() - 1,
    ensures
        total_items_from(slices, i) == total_items_from(slices.drop_last(), i)
            + slices.last().len(),
    decreases slices.len() - i,
{
    let dl = slices.drop_last();
    if i < slices.len() - 1 {
        lemma_total_items_snoc(slices, i + 1);
        assert(dl[i] == slices[i]);
        assert(total_items_from(slices, i) == slices[i].len() + total_items_from(slices, i + 1));
        assert(total_items_from(dl, i) == dl[i].len() + total_items_from(dl, i + 1));
    } else {
        assert(total_items_from(dl, i) == 0);
        assert(total_items_from(slices, i) == slices[i].len() + total_items_from(slices, i + 1));
        assert(total_items_from(slices, i + 1) == 0);
    }
}

/// The flattened items are as many as the slices' items together.
proof fn lemma_flat_len(slices: Seq<Seq<ProposalItemV>>)
    ensures
        flat_items(slices).len() == total_items(slices),
    decreases slices.len(),
{
    if slices.len() > 0 {
        lemma_flat_len(slices.drop_last());
        lemma_total_items_snoc(slices, 0);
    }
}

/// What stands before position `si` does not depend on the slices after it.
proof fn lemma_items_before_drop_last(slices: Seq<Seq<ProposalItemV>>, si: int)
    requires
        slices.len() >= 1,
        0 <= si <= slices.len() - 1,
    ensures
        items_before(slices, si) == items_before(slices.drop_last(), si),
    decreases si,
{
    if si > 0 {
        lemma_items_before_drop_last(slices, si - 1);
    }
}

/// What stands before a slice never amounts to more than the whole, and
/// never less than nothing.
proof fn lemma_items_before_bounds(slices: Seq<Seq<ProposalItemV>>, si: int)
    requires
        0 <= si <= slices.len(),
    ensures
        0 <= items_before(slices, si),
        items_before(slices, si) + total_items_from(slices, si) == total_items(slices),
    decreases si,
{
    if si == 0 {
    } else {
        lemma_items_before_bounds(slices, si - 1);
        assert(total_items_from(slices, si - 1) == slices[si - 1].len() + total_items_from(
            slices,
            si,
        ));
    }
}

/// The `k`-th item of slice `si` sits at flat position
/// `items_before(slices, si) + k`.
pub proof fn lemma_flat_index(slices: Seq<Seq<ProposalItemV>>, si: int, k: int)
    requires
        0 <= si < slices.len(),
        0 <= k < slices[si].len(),
    ensures
        0 <= items_before(slices, si) + k < flat_items(slices).len(),
        flat_items(slices)[items_before(slices, si) + k] == slices[si][k],
    decreases slices.len(),
{
    lemma_flat_len(slices);
    lemma_items_before_bounds(slices, si);
    lemma_items_before_bounds(slices, si + 1);
    crate::proposal::lemma_total_items_nonneg(slices, si + 1);
    if si == slices.len() - 1 {
        lemma_flat_len(slices.drop_last());
        lemma_items_before_drop_last(slices, si);
        lemma_items_before_bounds(slices.drop_last(), si);
        assert(total_items(slices.drop_last()) == items_before(slices.drop_last(), si));
        assert(flat_items(slices) == flat_items(slices.drop_last()) + slices.last());
        assert(flat_items(slices)[items_before(slices, si) + k] == slices.last()[k]);
    } else {
        let dl = slices.drop_last();
        lemma_items_before_drop_last(slices, si);
        lemma_flat_index(dl, si, k);
        lemma_flat_len(dl);
        lemma_items_before_bounds(dl, si + 1);
        crate::proposal::lemma_total_items_nonneg(dl, si + 1);
        assert(flat_items(slices) == flat_items(dl) + slices.last());
        assert(items_before(dl, si) + k < flat_items(dl).len());
        assert(flat_items(slices)[items_before(slices, si) + k] == flat_items(dl)[items_before(
            dl,
            si,
        ) + k]);
    }
}

/// What an accepted Exist/Proposed item says of its output cell.
proof fn lemma_exist_item_facts(c: ConfigV, item: ProposalItemV, in_cell: CellV, out_cell: CellV)
    requires
        sp_check_exist_item(c, item, in_cell, out_cell) is Ok,
    ensures
        out_cell.data.len() >= 80,
        data_id(out_cell.data) == item.account_id,
        data_next(out_cell.data) == item.next,
{
}

/// What an accepted New item says of its output cell.
proof fn lemma_new_item_facts(
    c: ConfigV,
    ts: u64,
    proposer_lock: crate::model::ScriptV,
    item: ProposalItemV,
    in_cell: CellV,
    out_cell: CellV,
    m: Seq<IncomeRecordV>,
)
    requires
        sp_check_new_item(c, ts, proposer_lock, item, in_cell, out_cell, m) is Ok,
    ensures
        out_cell.data.len() >= 80,
        data_id(out_cell.data) == item.account_id,
        data_next(out_cell.data) == item.next,
        spec_verify_and_get(out_cell) is Ok,
{
}

/// What an accepted item walk says of every output cell it visited.
proof fn lemma_flat_walk_props(
    c: ConfigV,
    ts: u64,
    proposer_lock: crate::model::ScriptV,
    items: Seq<ProposalItemV>,
    i: int,
    inputs: Seq<CellV>,
    outputs: Seq<CellV>,
    input_related: Seq<usize>,
    output_accounts: Seq<usize>,
    m: Seq<IncomeRecordV>,
)
    requires
        0 <= i <= items.len(),
        sp_check_items_flat(
            c,
            ts,
            proposer_lock,
            items,
            i,
            inputs,
            outputs,
            input_related,
            output_accounts,
            m,
        ) is Ok,
    ensures
        forall|j: int|
            #![trigger output_accounts[j]]
            i <= j < items.len() ==> outputs[output_accounts[j] as int].data.len() >= 80
                && data_id(outputs[output_accounts[j] as int].data) == items[j].account_id
                && data_next(outputs[output_accounts[j] as int].data) == items[j].next,
    decreases items.len() - i,
{
    if i < items.len() {
        let item = items[i];
        let in_cell = inputs[input_related[i] as int];
        let out_cell = outputs[output_accounts[i] as int];
        if item.item_type == crate::model::ITEM_TYPE_EXIST || item.item_type
            == crate::model::ITEM_TYPE_PROPOSED {
            lemma_exist_item_facts(c, item, in_cell, out_cell);
            lemma_flat_walk_props(
                c,
                ts,
                proposer_lock,
                items,
                i + 1,
                inputs,
                outputs,
                input_related,
                output_accounts,
                m,
            );
            assert forall|j: int|
                #![trigger output_accounts[j]]
                i <= j < items.len() implies outputs[output_accounts[j] as int].data.len() >= 80
                    && data_id(outputs[output_accounts[j] as int].data) == items[j].account_id
                    && data_next(outputs[output_accounts[j] as int].data) == items[j].next by {
                if j == i {
                    assert(outputs[output_accounts[j] as int].data == out_cell.data);
                }
            }
        } else {
            lemma_new_item_facts(c, ts, proposer_lock, item, in_cell, out_cell, m);
            match sp_check_new_item(c, ts, proposer_lock, item, in_cell, out_cell, m) {
                Result::Ok(m2) => {
                    lemma_flat_walk_props(
                        c,
                        ts,
                        proposer_lock,
                        items,
                        i + 1,
                        inputs,
                        outputs,
                        input_related,
                        output_accounts,
                        m2,
                    );
                    assert forall|j: int|
                        #![trigger output_accounts[j]]
                        i <= j < items.len() implies outputs[output_accounts[j] as int].data.len()
                            >= 80 && data_id(outputs[output_accounts[j] as int].data)
                            == items[j].account_id && data_next(
                            outputs[output_accounts[j] as int].data,
                        ) == items[j].next by {
                        if j == i {
                            assert(outputs[output_accounts[j] as int].data == out_cell.data);
                        }
                    }
                },
                Result::Err(e) => {
                    assert(false);
                },
            }
        }
    }
}

/// Linked-list realisation: under a structurally sound proposal, an
/// accepted execution result leaves, for every slice, output AccountCells
/// that carry exactly the slice's ids in strictly ascending order, each
/// `next` naming the following cell's id, and the last one the slice's
/// committed next. The structural soundness of the slices is the
/// propose-time check, carried over unchanged by the hash anchoring of the
/// proposal witness.
pub proof fn lemma_confirm_realises_chain(
    c: ConfigV,
    ts: u64,
    pdata: ProposalCellDataV,
    inputs: Seq<CellV>,
    outputs: Seq<CellV>,
    input_related: Seq<usize>,
    output_accounts: Seq<usize>,
    si: int,
)
    requires
        spec_verify_proposal_execution_result(
            c,
            ts,
            pdata,
            inputs,
            outputs,
            input_related,
            output_accounts,
        ) is Ok,
        spec_verify_slices(pdata.slices, c) is Ok,
        0 <= si < pdata.slices.len(),
    ensures
        ({
            let sl = pdata.slices[si];
            let base = items_before(pdata.slices, si);
            &&& forall|k: int|
                0 <= k < sl.len() ==> {
                    let d = outputs[output_accounts[base + k] as int].data;
                    0 <= base + k < output_accounts.len() && data_id(d) == (
                    #[trigger] sl[k]).account_id && data_next(d) == sl[k].next
                }
            &&& forall|k: int|
                0 <= k < sl.len() - 1 ==> data_next(
                    outputs[output_accounts[base + k] as int].data,
                ) == data_id(outputs[(#[trigger] output_accounts[base + k + 1]) as int].data)
            &&& forall|k: int|
                0 <= k < sl.len() - 1 ==> lex_lt(
                    data_id(outputs[output_accounts[base + k] as int].data),
                    data_id(outputs[(#[trigger] output_accounts[base + k + 1]) as int].data),
                )
            &&& data_next(outputs[output_accounts[base + sl.len() - 1] as int].data)
                == sl[sl.len() - 1].next
        }),
{
    let items = flat_items(pdata.slices);
    let sl = pdata.slices[si];
    let base = items_before(pdata.slices, si);
    lemma_verify_slices_ok(pdata.slices, c);
    assert(slice_well_formed(sl));
    lemma_flat_len(pdata.slices);
    lemma_items_before_bounds(pdata.slices, si);
    crate::proposal::lemma_total_items_nonneg(pdata.slices, si);
    lemma_flat_walk_props(
        c,
        ts,
        pdata.proposer_lock,
        items,
        0,
        inputs,
        outputs,
        input_related,
        output_accounts,
        Seq::empty(),
    );
    assert forall|k: int| 0 <= k < sl.len() implies {
        let d = outputs[output_accounts[base + k] as int].data;
        0 <= base + k < output_accounts.len() && data_id(d) == (#[trigger] sl[k]).account_id
            && data_next(d) == sl[k].next
    } by {
        lemma_flat_index(pdata.slices, si, k);
        assert(items[base + k] == sl[k]);
    }
    assert forall|k: int| 0 <= k < sl.len() - 1 implies data_next(
        outputs[output_accounts[base + k] as int].data,
    ) == data_id(outputs[(#[trigger] output_accounts[base + k + 1]) as int].data) by {
        lemma_flat_index(pdata.slices, si, k);
        lemma_flat_index(pdata.slices, si, k + 1);
        assert(sl[k].next == sl[k + 1].account_id);
    }
    assert forall|k: int| 0 <= k < sl.len() - 1 implies lex_lt(
        data_id(outputs[output_accounts[base + k] as int].data),
        data_id(outputs[(#[trigger] output_accounts[base + k + 1]) as int].data),
    ) by {
        lemma_flat_index(pdata.slices, si, k);
        lemma_flat_index(pdata.slices, si, k + 1);
        assert(lex_lt(sl[k].account_id, sl[k + 1].account_id));
    }
    lemma_flat_index(pdata.slices, si, sl.len() - 1);
}

/// An accepted item binding hands the head's tracked next through to the
/// end of the slice, and advances the flat position by the items it bound.
proof fn lemma_bind_items_closes(
    c: ConfigV,
    sl: Seq<ProposalItemV>,
    k: int,
    cells: Seq<CellV>,
    relevant: Seq<usize>,
    i: int,
    prev: Option<Seq<Seq<ProposalItemV>>>,
    nof: Seq<u8>,
)
    requires
        0 <= k <= sl.len(),
        bind_items_from(c, sl, k, cells, relevant, i, prev, nof) is Ok,
    ensures
        bind_items_from(c, sl, k, cells, relevant, i, prev, nof) matches Result::Ok(out) && {
            &&& out.1 == i + (sl.len() - k)
            &&& k >= 1 ==> out.0 == nof
            &&& (k == 0 && sl.len() > 0) ==> tracked_next_of_first(
                sl[0],
                cells[relevant[i] as int],
                prev,
            ) == Result::<Seq<u8>, ErrorCode>::Ok(out.0)
        },
    decreases sl.len() - k,
{
    if k < sl.len() {
        let cell = cells[relevant[i] as int];
        if k == 0 {
            match tracked_next_of_first(sl[0], cell, prev) {
                Result::Ok(n2) => {
                    lemma_bind_items_closes(c, sl, 1, cells, relevant, i + 1, prev, n2);
                },
                Result::Err(e) => {
                    assert(false);
                },
            }
        } else {
            lemma_bind_items_closes(c, sl, k + 1, cells, relevant, i + 1, prev, nof);
        }
    }
}

/// An accepted slice binding closes every slice from `si` on: the head's
/// tracked next is the slice's committed closing next.
proof fn lemma_bind_slices_closes(
    c: ConfigV,
    slices: Seq<Seq<ProposalItemV>>,
    si: int,
    cells: Seq<CellV>,
    relevant: Seq<usize>,
    i: int,
    prev: Option<Seq<Seq<ProposalItemV>>>,
)
    requires
        0 <= si <= slices.len(),
        bind_slices_from(c, slices, si, cells, relevant, i, prev) is Ok,
        forall|s: int| 0 <= s < slices.len() ==> (#[trigger] slices[s]).len() >= 1,
    ensures
        forall|s: int|
            #![trigger slices[s]]
            si <= s < slices.len() ==> tracked_next_of_first(
                slices[s][0],
                cells[relevant[i + items_before(slices, s) - items_before(slices, si)] as int],
                prev,
            ) == Result::<Seq<u8>, ErrorCode>::Ok(slices[s][slices[s].len() - 1].next),
    decreases slices.len() - si,
{
    if si < slices.len() {
        let sl = slices[si];
        match bind_items_from(c, sl, 0, cells, relevant, i, prev, crate::proposal::zero_id()) {
            Result::Ok(out) => {
                lemma_bind_items_closes(
                    c,
                    sl,
                    0,
                    cells,
                    relevant,
                    i,
                    prev,
                    crate::proposal::zero_id(),
                );
                lemma_bind_slices_closes(c, slices, si + 1, cells, relevant, out.1, prev);
                assert forall|s: int|
                    #![trigger slices[s]]
                    si <= s < slices.len() implies tracked_next_of_first(
                    slices[s][0],
                    cells[relevant[i + items_before(slices, s) - items_before(slices, si)] as int],
                    prev,
                ) == Result::<Seq<u8>, ErrorCode>::Ok(slices[s][slices[s].len() - 1].next) by {
                    if s == si {
                        assert(items_before(slices, s) - items_before(slices, si) == 0);
                    } else {
                        assert(items_before(slices, si + 1) == items_before(slices, si)
                            + sl.len());
                        assert(out.1 + items_before(slices, s) - items_before(slices, si + 1) == i
                            + items_before(slices, s) - items_before(slices, si));
                    }
                }
            },
            Result::Err(e) => {
                assert(false);
            },
        }
    }
}

/// Linked-list continuity at commit time: an accepted binding makes each
/// slice's committed closing next exactly the tracked next of its first
/// cell — the next stored in that AccountCell's data, or, when a parent
/// proposal already promised the head, the parent's next for it.
pub proof fn lemma_binding_closes(
    c: ConfigV,
    slices: Seq<Seq<ProposalItemV>>,
    cells: Seq<CellV>,
    relevant: Seq<usize>,
    prev: Option<Seq<Seq<ProposalItemV>>>,
)
    requires
        spec_verify_slices_relevant_cells(c, slices, cells, relevant, prev) is Ok,
        forall|s: int| 0 <= s < slices.len() ==> (#[trigger] slices[s]).len() >= 1,
    ensures
        forall|s: int|
            #![trigger slices[s]]
            0 <= s < slices.len() ==> tracked_next_of_first(
                slices[s][0],
                cells[relevant[items_before(slices, s)] as int],
                prev,
            ) == Result::<Seq<u8>, ErrorCode>::Ok(slices[s][slices[s].len() - 1].next),
{
    lemma_bind_slices_closes(c, slices, 0, cells, relevant, 0, prev);
}

} // verus!
