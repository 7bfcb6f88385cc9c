//! The typed witness entities: what a cell's hash-anchored side payload
//! decodes to. Each type has an executable form, a mathematical view, and a
//! well-formedness predicate that the codec relies on.

use vstd::prelude::*;

verus! {

use crate::model::ACCOUNT_ID_LEN;
use crate::model::Script;
use crate::model::ScriptV;

/// One item of a proposal slice.
pub struct ProposalItem {
    pub account_id: Vec<u8>,
    pub item_type: u8,
    pub next: Vec<u8>,
}

/// The mathematical value of a [`ProposalItem`].
pub struct ProposalItemV {
    pub account_id: Seq<u8>,
    pub item_type: u8,
    pub next: Seq<u8>,
}

impl View for ProposalItem {
    type V = ProposalItemV;

    open spec fn view(&self) -> ProposalItemV {
        ProposalItemV {
            account_id: self.account_id@,
            item_type: self.item_type,
            next: self.next@,
        }
    }
}

impl ProposalItemV {
    /// Both ids carry exactly the account-id length.
    pub open spec fn wf(self) -> bool {
        self.account_id.len() == ACCOUNT_ID_LEN && self.next.len() == ACCOUNT_ID_LEN
    }
}

/// The mathematical value of a slice list: slices of items.
pub open spec fn slices_v(s: Seq<Vec<ProposalItem>>) -> Seq<Seq<ProposalItemV>> {
    Seq::new(s.len(), |i: int| items_v(s[i]@))
}

/// The mathematical values of a sequence of items.
pub open spec fn items_v(s: Seq<ProposalItem>) -> Seq<ProposalItemV> {
    Seq::new(s.len(), |i: int| s[i]@)
}

/// The witness entity of a ProposalCell.
pub struct ProposalCellData {
    pub proposer_lock: Script,
    pub created_at_height: u64,
    pub slices: Vec<Vec<ProposalItem>>,
}

/// The mathematical value of a [`ProposalCellData`].
pub struct ProposalCellDataV {
    pub proposer_lock: ScriptV,
    pub created_at_height: u64,
    pub slices: Seq<Seq<ProposalItemV>>,
}

impl View for ProposalCellData {
    type V = ProposalCellDataV;

    open spec fn view(&self) -> ProposalCellDataV {
        ProposalCellDataV {
            proposer_lock: self.proposer_lock@,
            created_at_height: self.created_at_height,
            slices: slices_v(self.slices@),
        }
    }
}

/// Well-formedness of a script value for encoding purposes.
pub open spec fn script_wf_v(s: ScriptV) -> bool {
    s.code_hash.len() == 32 && s.args.len() <= u32::MAX
}

impl ProposalCellDataV {
    /// Every id has its exact length, every count fits its length prefix.
    pub open spec fn wf(self) -> bool {
        &&& script_wf_v(self.proposer_lock)
        &&& self.slices.len() <= u32::MAX
        &&& forall|i: int|
            0 <= i < self.slices.len() ==> #[trigger] self.slices[i].len() <= u32::MAX
        &&& forall|i: int, k: int|
            0 <= i < self.slices.len() && 0 <= k < self.slices[i].len()
                ==> (#[trigger] self.slices[i][k]).wf()
    }
}

/// The witness entity of an AccountCell.
pub struct AccountCellData {
    pub id: Vec<u8>,
    pub status: u8,
    /// The account name without the protocol suffix.
    pub account: Vec<u8>,
}

/// The mathematical value of an [`AccountCellData`].
pub struct AccountCellDataV {
    pub id: Seq<u8>,
    pub status: u8,
    pub account: Seq<u8>,
}

impl View for AccountCellData {
    type V = AccountCellDataV;

    open spec fn view(&self) -> AccountCellDataV {
        AccountCellDataV { id: self.id@, status: self.status, account: self.account@ }
    }
}

impl AccountCellDataV {
    /// The id has its exact length, the name fits its length prefix.
    pub open spec fn wf(self) -> bool {
        self.id.len() == ACCOUNT_ID_LEN && self.account.len() <= u32::MAX
    }
}

/// The witness entity of a PreAccountCell.
pub struct PreAccountCellData {
    /// The account name without the protocol suffix.
    pub account: Vec<u8>,
    /// Yearly price, fiat-denominated.
    pub price: u64,
    /// Fiat units per 100_000_000 capacity units.
    pub quote: u64,
    /// Discount for invited registrations, parts per `RATE_BASE`.
    pub invited_discount: u32,
    pub inviter_lock: Option<Script>,
    pub channel_lock: Option<Script>,
    pub owner_lock_args: Vec<u8>,
}

/// The mathematical value of a [`PreAccountCellData`].
pub struct PreAccountCellDataV {
    pub account: Seq<u8>,
    pub price: u64,
    pub quote: u64,
    pub invited_discount: u32,
    pub inviter_lock: Option<ScriptV>,
    pub channel_lock: Option<ScriptV>,
    pub owner_lock_args: Seq<u8>,
}

impl View for PreAccountCellData {
    type V = PreAccountCellDataV;

    open spec fn view(&self) -> PreAccountCellDataV {
        PreAccountCellDataV {
            account: self.account@,
            price: self.price,
            quote: self.quote,
            invited_discount: self.invited_discount,
            inviter_lock: match self.inviter_lock {
                Option::Some(s) => Option::Some(s@),
                Option::None => Option::None,
            },
            channel_lock: match self.channel_lock {
                Option::Some(s) => Option::Some(s@),
                Option::None => Option::None,
            },
            owner_lock_args: self.owner_lock_args@,
        }
    }
}

/// Well-formedness of an optional script value.
pub open spec fn opt_script_wf_v(o: Option<ScriptV>) -> bool {
    match o {
        Option::Some(s) => script_wf_v(s),
        Option::None => true,
    }
}

impl PreAccountCellDataV {
    /// Every variable-length field fits its length prefix.
    pub open spec fn wf(self) -> bool {
        &&& self.account.len() <= u32::MAX
        &&& opt_script_wf_v(self.inviter_lock)
        &&& opt_script_wf_v(self.channel_lock)
        &&& self.owner_lock_args.len() <= u32::MAX
    }
}

/// One profit record of an IncomeCell witness.
pub struct IncomeRecord {
    pub belong_to: Script,
    pub capacity: u64,
}

/// The mathematical value of an [`IncomeRecord`].
pub struct IncomeRecordV {
    pub belong_to: ScriptV,
    pub capacity: u64,
}

impl View for IncomeRecord {
    type V = IncomeRecordV;

    open spec fn view(&self) -> IncomeRecordV {
        IncomeRecordV { belong_to: self.belong_to@, capacity: self.capacity }
    }
}

/// The mathematical values of a sequence of records.
pub open spec fn records_v(s: Seq<IncomeRecord>) -> Seq<IncomeRecordV> {
    Seq::new(s.len(), |i: int| s[i]@)
}

/// The witness entity of an IncomeCell.
pub struct IncomeCellData {
    pub records: Vec<IncomeRecord>,
}

/// The mathematical value of an [`IncomeCellData`].
pub struct IncomeCellDataV {
    pub records: Seq<IncomeRecordV>,
}

impl View for IncomeCellData {
    type V = IncomeCellDataV;

    open spec fn view(&self) -> IncomeCellDataV {
        IncomeCellDataV { records: records_v(self.records@) }
    }
}

impl IncomeCellDataV {
    /// Every lock is encodable, the count fits its length prefix.
    pub open spec fn wf(self) -> bool {
        &&& self.records.len() <= u32::MAX
        &&& forall|i: int|
            0 <= i < self.records.len() ==> script_wf_v((#[trigger] self.records[i]).belong_to)
    }
}

} // verus!
