//! The transaction snapshot the validators judge: cells with capacity, lock,
//! type and data, grouped into inputs, outputs and cell-deps, plus the
//! configuration bundle materialised from ConfigCells.

use vstd::prelude::*;

verus! {

use vstd::bytes::spec_u64_from_le_bytes;

/// Denominator of the parts-per rates used in fee splits.
pub const RATE_BASE: u64 = 10_000;

/// Octets in a blake2b-256 digest.
pub const HASH_LEN: usize = 32;

/// Octets in an account id.
pub const ACCOUNT_ID_LEN: usize = 20;

/// Slice item kind: an AccountCell already live on chain.
pub const ITEM_TYPE_EXIST: u8 = 0;

/// Slice item kind: an AccountCell promised by a previous proposal.
pub const ITEM_TYPE_PROPOSED: u8 = 1;

/// Slice item kind: a PreAccountCell to be converted by this proposal.
pub const ITEM_TYPE_NEW: u8 = 2;

/// The `status` an AccountCell witness must carry when freshly created.
pub const ACCOUNT_STATUS_NORMAL: u8 = 0;

/// The suffix every stored account name carries, `.bit` as octets.
pub open spec fn account_suffix() -> Seq<u8> {
    seq![46u8, 98u8, 105u8, 116u8]
}

/// The suffix every stored account name carries, `.bit` as octets.
pub fn account_suffix_bytes() -> (r: Vec<u8>)
    ensures
        r@ == account_suffix(),
{
    let mut v: Vec<u8> = Vec::new();
    v.push(46);
    v.push(98);
    v.push(105);
    v.push(116);
    proof {
        assert(v@ =~= account_suffix());
    }
    v
}

/// An on-chain predicate reference: code hash, hash type and arguments.
#[derive(Clone)]
pub struct Script {
    pub code_hash: Vec<u8>,
    pub hash_type: u8,
    pub args: Vec<u8>,
}

/// The mathematical value of a [`Script`].
pub struct ScriptV {
    pub code_hash: Seq<u8>,
    pub hash_type: u8,
    pub args: Seq<u8>,
}

impl View for Script {
    type V = ScriptV;

    open spec fn view(&self) -> ScriptV {
        ScriptV { code_hash: self.code_hash@, hash_type: self.hash_type, args: self.args@ }
    }
}

/// A faithful copy of a script.
pub fn script_clone(s: &Script) -> (r: Script)
    ensures
        r@ == s@,
{
    Script {
        code_hash: vstd::slice::slice_to_vec(s.code_hash.as_slice()),
        hash_type: s.hash_type,
        args: vstd::slice::slice_to_vec(s.args.as_slice()),
    }
}

/// Whole-script equality, the sense in which locks are compared.
pub fn script_eq(a: &Script, b: &Script) -> (r: bool)
    ensures
        r == (a@ == b@),
{
    let r = crate::byteseq::bytes_eq(a.code_hash.as_slice(), b.code_hash.as_slice())
        && a.hash_type == b.hash_type
        && crate::byteseq::bytes_eq(a.args.as_slice(), b.args.as_slice());
    proof {
        if r {
            assert(a@ =~= b@);
        }
    }
    r
}

/// One cell of the transaction. `type_id` is the code hash of its type
/// script, when it has one; `data` is the cell's data blob; `witness` is the
/// raw witness payload anchored to this cell, when one is attached.
pub struct Cell {
    pub capacity: u64,
    pub lock: Script,
    pub type_id: Option<Vec<u8>>,
    pub data: Vec<u8>,
    pub witness: Option<Vec<u8>>,
}

/// The mathematical value of a [`Cell`].
pub struct CellV {
    pub capacity: u64,
    pub lock: ScriptV,
    pub type_id: Option<Seq<u8>>,
    pub data: Seq<u8>,
    pub witness: Option<Seq<u8>>,
}

impl View for Cell {
    type V = CellV;

    open spec fn view(&self) -> CellV {
        CellV {
            capacity: self.capacity,
            lock: self.lock@,
            type_id: match self.type_id {
                Option::Some(t) => Option::Some(t@),
                Option::None => Option::None,
            },
            data: self.data@,
            witness: match self.witness {
                Option::Some(w) => Option::Some(w@),
                Option::None => Option::None,
            },
        }
    }
}

/// The mathematical values of a group of cells.
pub open spec fn cells_v(s: Seq<Cell>) -> Seq<CellV> {
    Seq::new(s.len(), |i: int| s[i]@)
}

/// Whether a cell carries the given type id.
pub open spec fn cell_has_type(c: CellV, tid: Seq<u8>) -> bool {
    match c.type_id {
        Option::Some(t) => t == tid,
        Option::None => false,
    }
}

/// A transaction snapshot: the three cell groups in their native index
/// order, and the action name found in the action witness.
pub struct Transaction {
    pub inputs: Vec<Cell>,
    pub outputs: Vec<Cell>,
    pub cell_deps: Vec<Cell>,
    pub action: Vec<u8>,
}

/// The mathematical value of a [`Transaction`].
pub struct TransactionV {
    pub inputs: Seq<CellV>,
    pub outputs: Seq<CellV>,
    pub cell_deps: Seq<CellV>,
    pub action: Seq<u8>,
}

impl View for Transaction {
    type V = TransactionV;

    open spec fn view(&self) -> TransactionV {
        TransactionV {
            inputs: cells_v(self.inputs@),
            outputs: cells_v(self.outputs@),
            cell_deps: cells_v(self.cell_deps@),
            action: self.action@,
        }
    }
}

/// The code hashes identifying each cell kind, read from ConfigCellMain.
pub struct TypeIdTable {
    pub apply_register_cell: Vec<u8>,
    pub proposal_cell: Vec<u8>,
    pub account_cell: Vec<u8>,
    pub pre_account_cell: Vec<u8>,
    pub income_cell: Vec<u8>,
    pub height_cell: Vec<u8>,
    pub time_cell: Vec<u8>,
}

/// The mathematical value of a [`TypeIdTable`].
pub struct TypeIdTableV {
    pub apply_register_cell: Seq<u8>,
    pub proposal_cell: Seq<u8>,
    pub account_cell: Seq<u8>,
    pub pre_account_cell: Seq<u8>,
    pub income_cell: Seq<u8>,
    pub height_cell: Seq<u8>,
    pub time_cell: Seq<u8>,
}

impl View for TypeIdTable {
    type V = TypeIdTableV;

    open spec fn view(&self) -> TypeIdTableV {
        TypeIdTableV {
            apply_register_cell: self.apply_register_cell@,
            proposal_cell: self.proposal_cell@,
            account_cell: self.account_cell@,
            pre_account_cell: self.pre_account_cell@,
            income_cell: self.income_cell@,
            height_cell: self.height_cell@,
            time_cell: self.time_cell@,
        }
    }
}

/// The immutable configuration snapshot a validator call works against.
pub struct Config {
    /// Kill switch from ConfigCellMain: anything but 1 refuses every action.
    pub status: u8,
    pub type_id_table: TypeIdTable,
    /// From ConfigCellProposal.
    pub proposal_max_account_affect: u32,
    pub proposal_max_pre_account_contain: u32,
    pub proposal_min_recycle_interval: u8,
    /// From ConfigCellProfitRate, in parts per [`RATE_BASE`].
    pub profit_rate_inviter: u32,
    pub profit_rate_channel: u32,
    pub profit_rate_proposal_create: u32,
    pub profit_rate_proposal_confirm: u32,
    /// From ConfigCellAccount: capacity every AccountCell needs on top of
    /// what its stored account name occupies.
    pub basic_capacity: u64,
    /// The well-known no-op lock's code hash.
    pub always_success_code_hash: Vec<u8>,
    /// The user-owned lock template; a concrete cell fills in the args.
    pub das_lock: Script,
    /// The protocol wallet's lock.
    pub das_wallet_lock: Script,
}

/// The mathematical value of a [`Config`].
pub struct ConfigV {
    pub status: u8,
    pub type_id_table: TypeIdTableV,
    pub proposal_max_account_affect: u32,
    pub proposal_max_pre_account_contain: u32,
    pub proposal_min_recycle_interval: u8,
    pub profit_rate_inviter: u32,
    pub profit_rate_channel: u32,
    pub profit_rate_proposal_create: u32,
    pub profit_rate_proposal_confirm: u32,
    pub basic_capacity: u64,
    pub always_success_code_hash: Seq<u8>,
    pub das_lock: ScriptV,
    pub das_wallet_lock: ScriptV,
}

impl View for Config {
    type V = ConfigV;

    open spec fn view(&self) -> ConfigV {
        ConfigV {
            status: self.status,
            type_id_table: self.type_id_table@,
            proposal_max_account_affect: self.proposal_max_account_affect,
            proposal_max_pre_account_contain: self.proposal_max_pre_account_contain,
            proposal_min_recycle_interval: self.proposal_min_recycle_interval,
            profit_rate_inviter: self.profit_rate_inviter,
            profit_rate_channel: self.profit_rate_channel,
            profit_rate_proposal_create: self.profit_rate_proposal_create,
            profit_rate_proposal_confirm: self.profit_rate_proposal_confirm,
            basic_capacity: self.basic_capacity,
            always_success_code_hash: self.always_success_code_hash@,
            das_lock: self.das_lock@,
            das_wallet_lock: self.das_wallet_lock@,
        }
    }
}

/// Well-formedness of the configuration: code hashes have digest length, the
/// two relevant-cell kinds are told apart, and the four profit rates fit
/// under the denominator both one by one and together.
pub open spec fn config_wf(c: ConfigV) -> bool {
    &&& c.type_id_table.apply_register_cell.len() == HASH_LEN
    &&& c.type_id_table.proposal_cell.len() == HASH_LEN
    &&& c.type_id_table.account_cell.len() == HASH_LEN
    &&& c.type_id_table.pre_account_cell.len() == HASH_LEN
    &&& c.type_id_table.income_cell.len() == HASH_LEN
    &&& c.type_id_table.height_cell.len() == HASH_LEN
    &&& c.type_id_table.time_cell.len() == HASH_LEN
    &&& c.type_id_table.account_cell != c.type_id_table.pre_account_cell
    &&& c.always_success_code_hash.len() == HASH_LEN
    &&& c.das_lock.code_hash.len() == HASH_LEN
    &&& c.das_wallet_lock.code_hash.len() == HASH_LEN
    &&& c.profit_rate_inviter <= RATE_BASE
    &&& c.profit_rate_channel <= RATE_BASE
    &&& c.profit_rate_proposal_create <= RATE_BASE
    &&& c.profit_rate_proposal_confirm <= RATE_BASE
    &&& c.profit_rate_inviter + c.profit_rate_channel + c.profit_rate_proposal_create
        + c.profit_rate_proposal_confirm <= RATE_BASE
}

/// Layout of AccountCell (and, for the leading fields, PreAccountCell) data:
/// `hash[32] || id[20] || next[20] || expired_at[u64 LE] || account[..]`.
pub open spec fn data_hash(d: Seq<u8>) -> Seq<u8>
    recommends
        d.len() >= 32,
{
    d.subrange(0, 32)
}

/// The 20-octet id held at offset 32 of a cell's data.
pub open spec fn data_id(d: Seq<u8>) -> Seq<u8>
    recommends
        d.len() >= 52,
{
    d.subrange(32, 52)
}

/// The 20-octet next pointer held at offset 52 of an AccountCell's data.
pub open spec fn data_next(d: Seq<u8>) -> Seq<u8>
    recommends
        d.len() >= 72,
{
    d.subrange(52, 72)
}

/// The expiry timestamp held at offset 72 of an AccountCell's data.
pub open spec fn data_expired_at(d: Seq<u8>) -> u64
    recommends
        d.len() >= 80,
{
    spec_u64_from_le_bytes(d.subrange(72, 80))
}

/// The stored account name: everything from offset 80 of an AccountCell's
/// data.
pub open spec fn data_account(d: Seq<u8>) -> Seq<u8>
    recommends
        d.len() >= 80,
{
    d.subrange(80, d.len() as int)
}

} // verus!
