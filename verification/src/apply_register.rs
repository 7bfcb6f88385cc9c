//! The ApplyRegisterCell validator: guards the commit phase of the
//! commit-reveal registration. An `apply_register` transaction must create
//! exactly one ApplyRegisterCell, whose 40-octet data carries an opaque
//! 32-octet commitment and the current block height.

use vstd::prelude::*;

verus! {

use vstd::bytes::spec_u64_from_le_bytes;

use crate::actions::action_apply_register;
use crate::actions::action_apply_register_bytes;
use crate::actions::action_pre_register;
use crate::actions::action_pre_register_bytes;
use crate::byteseq::bytes_eq;
use crate::error::ErrorCode;
use crate::indexer::find_cells_by_type_id;
use crate::indexer::lemma_find_by_type_bounds;
use crate::indexer::spec_find_cells_by_type;
use crate::model::Config;
use crate::model::ConfigV;
use crate::model::Transaction;
use crate::model::TransactionV;
use crate::model::cells_v;
use crate::oracle::load_height;
use crate::oracle::spec_load_height;

/// What the `apply_register` action demands, given the current height: no
/// such cell consumed, exactly one created, its data exactly 40 octets, and
/// the trailing eight octets equal to the height.
pub open spec fn spec_apply_register_action(tx: TransactionV, c: ConfigV, height: u64) -> Result<
    (),
    ErrorCode,
> {
    let old_cells = spec_find_cells_by_type(tx.inputs, c.type_id_table.apply_register_cell);
    let new_cells = spec_find_cells_by_type(tx.outputs, c.type_id_table.apply_register_cell);
    if old_cells.len() != 0 {
        Result::Err(ErrorCode::ApplyRegisterFoundInvalidTransaction)
    } else if new_cells.len() != 1 {
        Result::Err(ErrorCode::ApplyRegisterFoundInvalidTransaction)
    } else {
        let data = tx.outputs[new_cells[0] as int].data;
        if data.len() != 40 {
            Result::Err(ErrorCode::InvalidCellData)
        } else {
            let apply_height = spec_u64_from_le_bytes(data.subrange(32, 40));
            if apply_height == height {
                Result::Ok(())
            } else {
                Result::Err(ErrorCode::ApplyRegisterCellHeightInvalid)
            }
        }
    }
}

/// What the whole ApplyRegisterCell validator decides for a transaction:
/// `apply_register` as above against the height oracle; `pre_register` is
/// delegated, admissible when a PreAccountCell appears among the outputs;
/// any other action is refused.
pub open spec fn spec_validate_apply_register(tx: TransactionV, c: ConfigV) -> Result<
    (),
    ErrorCode,
> {
    if tx.action == action_apply_register() {
        match spec_load_height(tx.cell_deps, c.type_id_table.height_cell) {
            Result::Err(e) => Result::Err(e),
            Result::Ok(height) => spec_apply_register_action(tx, c, height),
        }
    } else if tx.action == action_pre_register() {
        if spec_find_cells_by_type(tx.outputs, c.type_id_table.pre_account_cell).len() >= 1 {
            Result::Ok(())
        } else {
            Result::Err(ErrorCode::PreRegisterFoundInvalidTransaction)
        }
    } else {
        Result::Err(ErrorCode::ActionNotSupported)
    }
}

/// Runs the ApplyRegisterCell validator, deciding exactly
/// `spec_validate_apply_register`. In particular, an accepted
/// `apply_register` carries in its sole new cell exactly the height the
/// oracle shows.
pub fn validate_apply_register(tx: &Transaction, config: &Config) -> (r: Result<(), ErrorCode>)
    ensures
        r == spec_validate_apply_register(tx@, config@),
        r is Ok && tx@.action == action_apply_register() ==> ({
            let new_cells = spec_find_cells_by_type(
                tx@.outputs,
                config@.type_id_table.apply_register_cell,
            );
            &&& new_cells.len() == 1
            &&& tx@.outputs[new_cells[0] as int].data.len() == 40
            &&& spec_load_height(tx@.cell_deps, config@.type_id_table.height_cell)
                == Result::<u64, ErrorCode>::Ok(
                spec_u64_from_le_bytes(
                    tx@.outputs[new_cells[0] as int].data.subrange(32, 40),
                ),
            )
        }),
{
    let apply_name = action_apply_register_bytes();
    let pre_name = action_pre_register_bytes();
    if bytes_eq(tx.action.as_slice(), apply_name.as_slice()) {
        let height = match load_height(&tx.cell_deps, config.type_id_table.height_cell.as_slice()) {
            Result::Ok(h) => h,
            Result::Err(e) => {
                return Result::Err(e);
            },
        };
        let old_cells = find_cells_by_type_id(
            &tx.inputs,
            config.type_id_table.apply_register_cell.as_slice(),
        );
        let new_cells = find_cells_by_type_id(
            &tx.outputs,
            config.type_id_table.apply_register_cell.as_slice(),
        );
        if old_cells.len() != 0 {
            return Result::Err(ErrorCode::ApplyRegisterFoundInvalidTransaction);
        }
        if new_cells.len() != 1 {
            return Result::Err(ErrorCode::ApplyRegisterFoundInvalidTransaction);
        }
        let n_out: usize = tx.outputs.len();
        proof {
            lemma_find_by_type_bounds(
                cells_v(tx.outputs@),
                config.type_id_table.apply_register_cell@,
                n_out as int,
            );
            assert(cells_v(tx.outputs@)[new_cells@[0] as int] == tx.outputs@[new_cells@[0] as int]@);
        }
        let cell = &tx.outputs[new_cells[0]];
        if cell.data.len() != 40 {
            return Result::Err(ErrorCode::InvalidCellData);
        }
        let apply_height = crate::codec::read_u64_at(cell.data.as_slice(), 32);
        if apply_height == height {
            Result::Ok(())
        } else {
            Result::Err(ErrorCode::ApplyRegisterCellHeightInvalid)
        }
    } else if bytes_eq(tx.action.as_slice(), pre_name.as_slice()) {
        let pre_cells = find_cells_by_type_id(
            &tx.outputs,
            config.type_id_table.pre_account_cell.as_slice(),
        );
        if pre_cells.len() >= 1 {
            Result::Ok(())
        } else {
            Result::Err(ErrorCode::PreRegisterFoundInvalidTransaction)
        }
    } else {
        Result::Err(ErrorCode::ActionNotSupported)
    }
}

} // verus!
