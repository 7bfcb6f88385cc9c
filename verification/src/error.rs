//! Stable numeric error codes returned by the validators.
//!
//! The codes are part of the ABI: off-chain clients parse the numbers to
//! localise a failure, so existing values must never be reused. New variants
//! may only be appended, keeping `as_code` injective.

use vstd::prelude::*;

verus! {

/// Every way a validator can reject a transaction.
#[derive(Clone, Copy, Debug, PartialEq, Eq, Structural)]
pub enum ErrorCode {
    ActionNotSupported,
    InvalidCellData,
    SystemOff,
    CellCapacityMustBeConsistent,
    CellLockCanNotBeModified,
    TimeCellIsRequired,
    HeightCellIsRequired,
    WitnessEntityDecodingError,
    CellMustUseAlwaysSuccessLock,
    ApplyRegisterFoundInvalidTransaction,
    ApplyRegisterCellHeightInvalid,
    PreRegisterFoundInvalidTransaction,
    ProposalFoundInvalidTransaction,
    ProposalSlicesCanNotBeEmpty,
    ProposalSliceMustContainMoreThanOneElement,
    ProposalSliceItemMustBeUniqueAccount,
    ProposalSliceIsDiscontinuity,
    ProposalSliceIsNotSorted,
    ProposalCellTypeError,
    ProposalCellAccountIdError,
    ProposalSliceRelatedCellMissing,
    ProposalSliceRelatedCellNotFound,
    ProposalSliceMustStartWithAccountCell,
    ProposalSliceNotEndCorrectly,
    ProposalFieldCanNotBeModified,
    ProposalConfirmNewAccountCellDataError,
    ProposalConfirmNewAccountCellCapacityError,
    ProposalConfirmAccountLockArgsIsInvalid,
    ProposalConfirmWitnessIDError,
    ProposalConfirmWitnessAccountError,
    ProposalConfirmWitnessManagerError,
    ProposalConfirmIncomeError,
    ProposalConfirmRefundError,
    ProposalRecycleNeedWaitLonger,
    PrevProposalItemNotFound,
    AccountStillCanNotBeRegister,
}

impl ErrorCode {
    /// The numeric code of this error; non-zero, and distinct per variant.
    pub fn as_code(&self) -> (r: u8)
        ensures
            r == self.spec_code(),
            r != 0,
    {
        match self {
            ErrorCode::ActionNotSupported => 1,
            ErrorCode::InvalidCellData => 2,
            ErrorCode::SystemOff => 3,
            ErrorCode::CellCapacityMustBeConsistent => 4,
            ErrorCode::CellLockCanNotBeModified => 5,
            ErrorCode::TimeCellIsRequired => 6,
            ErrorCode::HeightCellIsRequired => 7,
            ErrorCode::WitnessEntityDecodingError => 8,
            ErrorCode::CellMustUseAlwaysSuccessLock => 9,
            ErrorCode::ApplyRegisterFoundInvalidTransaction => 10,
            ErrorCode::ApplyRegisterCellHeightInvalid => 11,
            ErrorCode::PreRegisterFoundInvalidTransaction => 12,
            ErrorCode::ProposalFoundInvalidTransaction => 40,
            ErrorCode::ProposalSlicesCanNotBeEmpty => 41,
            ErrorCode::ProposalSliceMustContainMoreThanOneElement => 42,
            ErrorCode::ProposalSliceItemMustBeUniqueAccount => 43,
            ErrorCode::ProposalSliceIsDiscontinuity => 44,
            ErrorCode::ProposalSliceIsNotSorted => 45,
            ErrorCode::ProposalCellTypeError => 46,
            ErrorCode::ProposalCellAccountIdError => 47,
            ErrorCode::ProposalSliceRelatedCellMissing => 48,
            ErrorCode::ProposalSliceRelatedCellNotFound => 49,
            ErrorCode::ProposalSliceMustStartWithAccountCell => 50,
            ErrorCode::ProposalSliceNotEndCorrectly => 51,
            ErrorCode::ProposalFieldCanNotBeModified => 52,
            ErrorCode::ProposalConfirmNewAccountCellDataError => 53,
            ErrorCode::ProposalConfirmNewAccountCellCapacityError => 54,
            ErrorCode::ProposalConfirmAccountLockArgsIsInvalid => 55,
            ErrorCode::ProposalConfirmWitnessIDError => 56,
            ErrorCode::ProposalConfirmWitnessAccountError => 57,
            ErrorCode::ProposalConfirmWitnessManagerError => 58,
            ErrorCode::ProposalConfirmIncomeError => 59,
            ErrorCode::ProposalConfirmRefundError => 60,
            ErrorCode::ProposalRecycleNeedWaitLonger => 61,
            ErrorCode::PrevProposalItemNotFound => 62,
            ErrorCode::AccountStillCanNotBeRegister => 63,
        }
    }

    /// The numeric code, as a spec-level function of the variant.
    pub open spec fn spec_code(self) -> u8 {
        match self {
            ErrorCode::ActionNotSupported => 1,
            ErrorCode::InvalidCellData => 2,
            ErrorCode::SystemOff => 3,
            ErrorCode::CellCapacityMustBeConsistent => 4,
            ErrorCode::CellLockCanNotBeModified => 5,
            ErrorCode::TimeCellIsRequired => 6,
            ErrorCode::HeightCellIsRequired => 7,
            ErrorCode::WitnessEntityDecodingError => 8,
            ErrorCode::CellMustUseAlwaysSuccessLock => 9,
            ErrorCode::ApplyRegisterFoundInvalidTransaction => 10,
            ErrorCode::ApplyRegisterCellHeightInvalid => 11,
            ErrorCode::PreRegisterFoundInvalidTransaction => 12,
            ErrorCode::ProposalFoundInvalidTransaction => 40,
            ErrorCode::ProposalSlicesCanNotBeEmpty => 41,
            ErrorCode::ProposalSliceMustContainMoreThanOneElement => 42,
            ErrorCode::ProposalSliceItemMustBeUniqueAccount => 43,
            ErrorCode::ProposalSliceIsDiscontinuity => 44,
            ErrorCode::ProposalSliceIsNotSorted => 45,
            ErrorCode::ProposalCellTypeError => 46,
            ErrorCode::ProposalCellAccountIdError => 47,
            ErrorCode::ProposalSliceRelatedCellMissing => 48,
            ErrorCode::ProposalSliceRelatedCellNotFound => 49,
            ErrorCode::ProposalSliceMustStartWithAccountCell => 50,
            ErrorCode::ProposalSliceNotEndCorrectly => 51,
            ErrorCode::ProposalFieldCanNotBeModified => 52,
            ErrorCode::ProposalConfirmNewAccountCellDataError => 53,
            ErrorCode::ProposalConfirmNewAccountCellCapacityError => 54,
            ErrorCode::ProposalConfirmAccountLockArgsIsInvalid => 55,
            ErrorCode::ProposalConfirmWitnessIDError => 56,
            ErrorCode::ProposalConfirmWitnessAccountError => 57,
            ErrorCode::ProposalConfirmWitnessManagerError => 58,
            ErrorCode::ProposalConfirmIncomeError => 59,
            ErrorCode::ProposalConfirmRefundError => 60,
            ErrorCode::ProposalRecycleNeedWaitLonger => 61,
            ErrorCode::PrevProposalItemNotFound => 62,
            ErrorCode::AccountStillCanNotBeRegister => 63,
        }
    }
}

} // verus!
