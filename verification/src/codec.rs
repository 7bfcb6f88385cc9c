//! The byte codec of the witness entities.
//!
//! Every entity is a fixed sequential layout: fixed-width fields as given,
//! `u32`/`u64` little-endian numbers, variable fields behind a `u32` count.
//! Parsing is specified by recursive functions over the byte string; each
//! executable parser returns exactly what its specification does, and each
//! encoder produces exactly the encoding the specification names.

use vstd::prelude::*;

verus! {

use vstd::bytes::spec_u32_from_le_bytes;
use vstd::bytes::spec_u32_to_le_bytes;
use vstd::bytes::spec_u64_from_le_bytes;
use vstd::bytes::spec_u64_to_le_bytes;
use vstd::bytes::u32_from_le_bytes;
use vstd::bytes::u32_to_le_bytes;
use vstd::bytes::u64_from_le_bytes;
use vstd::bytes::u64_to_le_bytes;
use vstd::bytes::lemma_auto_spec_u32_to_from_le_bytes;
use vstd::bytes::lemma_auto_spec_u64_to_from_le_bytes;
use vstd::slice::slice_subrange;

use crate::byteseq::copy_range;
use crate::entity::AccountCellData;
use crate::entity::AccountCellDataV;
use crate::entity::IncomeCellData;
use crate::entity::IncomeCellDataV;
use crate::entity::IncomeRecord;
use crate::entity::IncomeRecordV;
use crate::entity::PreAccountCellData;
use crate::entity::PreAccountCellDataV;
use crate::entity::ProposalCellData;
use crate::entity::ProposalCellDataV;
use crate::entity::ProposalItem;
use crate::entity::ProposalItemV;
use crate::entity::items_v;
use crate::entity::records_v;
use crate::entity::slices_v;
use crate::error::ErrorCode;
use crate::model::Script;
use crate::model::ScriptV;

// ---------------------------------------------------------------------------
// Parsing, specification side. Each function reads at `at` and yields the
// value together with the cursor after it, or nothing when the bytes do not
// suffice.
// ---------------------------------------------------------------------------

/// Reads one octet.
pub open spec fn p_byte(s: Seq<u8>, at: int) -> Option<(u8, int)> {
    if 0 <= at && at + 1 <= s.len() {
        Option::Some((s[at], at + 1))
    } else {
        Option::None
    }
}

/// Reads `n` octets.
pub open spec fn p_bytes(s: Seq<u8>, at: int, n: int) -> Option<(Seq<u8>, int)> {
    if 0 <= at && 0 <= n && at + n <= s.len() {
        Option::Some((s.subrange(at, at + n), at + n))
    } else {
        Option::None
    }
}

/// Reads a little-endian `u32`.
pub open spec fn p_u32(s: Seq<u8>, at: int) -> Option<(u32, int)> {
    if 0 <= at && at + 4 <= s.len() {
        Option::Some((spec_u32_from_le_bytes(s.subrange(at, at + 4)), at + 4))
    } else {
        Option::None
    }
}

/// Reads a little-endian `u64`.
pub open spec fn p_u64(s: Seq<u8>, at: int) -> Option<(u64, int)> {
    if 0 <= at && at + 8 <= s.len() {
        Option::Some((spec_u64_from_le_bytes(s.subrange(at, at + 8)), at + 8))
    } else {
        Option::None
    }
}

/// Reads a script: `code_hash[32] || hash_type || args_len[u32] || args`.
pub open spec fn p_script(s: Seq<u8>, at: int) -> Option<(ScriptV, int)> {
    match p_bytes(s, at, 32) {
        Option::None => Option::None,
        Option::Some((code_hash, a1)) => match p_byte(s, a1) {
            Option::None => Option::None,
            Option::Some((hash_type, a2)) => match p_u32(s, a2) {
                Option::None => Option::None,
                Option::Some((n, a3)) => match p_bytes(s, a3, n as int) {
                    Option::None => Option::None,
                    Option::Some((args, a4)) => Option::Some(
                        (ScriptV { code_hash, hash_type, args }, a4),
                    ),
                },
            },
        },
    }
}

/// Reads an optional script: a presence octet, then the script if present.
pub open spec fn p_opt_script(s: Seq<u8>, at: int) -> Option<(Option<ScriptV>, int)> {
    match p_byte(s, at) {
        Option::None => Option::None,
        Option::Some((flag, a1)) => if flag == 0 {
            Option::Some((Option::None, a1))
        } else if flag == 1 {
            match p_script(s, a1) {
                Option::None => Option::None,
                Option::Some((sc, a2)) => Option::Some((Option::Some(sc), a2)),
            }
        } else {
            Option::None
        },
    }
}

/// Reads one slice item: `account_id[20] || item_type || next[20]`.
pub open spec fn p_item(s: Seq<u8>, at: int) -> Option<(ProposalItemV, int)> {
    match p_bytes(s, at, 20) {
        Option::None => Option::None,
        Option::Some((account_id, a1)) => match p_byte(s, a1) {
            Option::None => Option::None,
            Option::Some((item_type, a2)) => match p_bytes(s, a2, 20) {
                Option::None => Option::None,
                Option::Some((next, a3)) => Option::Some(
                    (ProposalItemV { account_id, item_type, next }, a3),
                ),
            },
        },
    }
}

/// Reads `n` consecutive slice items.
pub open spec fn p_items(s: Seq<u8>, at: int, n: nat) -> Option<(Seq<ProposalItemV>, int)>
    decreases n,
{
    if n == 0 {
        Option::Some((Seq::empty(), at))
    } else {
        match p_item(s, at) {
            Option::None => Option::None,
            Option::Some((it, a1)) => match p_items(s, a1, (n - 1) as nat) {
                Option::None => Option::None,
                Option::Some((rest, a2)) => Option::Some((seq![it] + rest, a2)),
            },
        }
    }
}

/// Reads one slice: an item count, then that many items.
pub open spec fn p_slice(s: Seq<u8>, at: int) -> Option<(Seq<ProposalItemV>, int)> {
    match p_u32(s, at) {
        Option::None => Option::None,
        Option::Some((n, a1)) => p_items(s, a1, n as nat),
    }
}

/// Reads `n` consecutive slices.
pub open spec fn p_slices(s: Seq<u8>, at: int, n: nat) -> Option<(Seq<Seq<ProposalItemV>>, int)>
    decreases n,
{
    if n == 0 {
        Option::Some((Seq::empty(), at))
    } else {
        match p_slice(s, at) {
            Option::None => Option::None,
            Option::Some((sl, a1)) => match p_slices(s, a1, (n - 1) as nat) {
                Option::None => Option::None,
                Option::Some((rest, a2)) => Option::Some((seq![sl] + rest, a2)),
            },
        }
    }
}

/// Reads a slice list: a slice count, then that many slices.
pub open spec fn p_slice_list(s: Seq<u8>, at: int) -> Option<(Seq<Seq<ProposalItemV>>, int)> {
    match p_u32(s, at) {
        Option::None => Option::None,
        Option::Some((n, a1)) => p_slices(s, a1, n as nat),
    }
}

/// Reads a whole ProposalCell entity; the bytes must be consumed exactly.
pub open spec fn p_proposal_data(s: Seq<u8>) -> Option<ProposalCellDataV> {
    match p_script(s, 0) {
        Option::None => Option::None,
        Option::Some((proposer_lock, a1)) => match p_u64(s, a1) {
            Option::None => Option::None,
            Option::Some((created_at_height, a2)) => match p_slice_list(s, a2) {
                Option::None => Option::None,
                Option::Some((slices, a3)) => if a3 == s.len() {
                    Option::Some(ProposalCellDataV { proposer_lock, created_at_height, slices })
                } else {
                    Option::None
                },
            },
        },
    }
}

/// Reads a whole AccountCell entity: `id[20] || status || len[u32] || account`.
pub open spec fn p_account_data(s: Seq<u8>) -> Option<AccountCellDataV> {
    match p_bytes(s, 0, 20) {
        Option::None => Option::None,
        Option::Some((id, a1)) => match p_byte(s, a1) {
            Option::None => Option::None,
            Option::Some((status, a2)) => match p_u32(s, a2) {
                Option::None => Option::None,
                Option::Some((n, a3)) => match p_bytes(s, a3, n as int) {
                    Option::None => Option::None,
                    Option::Some((account, a4)) => if a4 == s.len() {
                        Option::Some(AccountCellDataV { id, status, account })
                    } else {
                        Option::None
                    },
                },
            },
        },
    }
}

/// Reads a whole PreAccountCell entity.
pub open spec fn p_pre_account_data(s: Seq<u8>) -> Option<PreAccountCellDataV> {
    match p_u32(s, 0) {
        Option::None => Option::None,
        Option::Some((alen, a1)) => match p_bytes(s, a1, alen as int) {
            Option::None => Option::None,
            Option::Some((account, a2)) => match p_u64(s, a2) {
                Option::None => Option::None,
                Option::Some((price, a3)) => match p_u64(s, a3) {
                    Option::None => Option::None,
                    Option::Some((quote, a4)) => match p_u32(s, a4) {
                        Option::None => Option::None,
                        Option::Some((invited_discount, a5)) => match p_opt_script(s, a5) {
                            Option::None => Option::None,
                            Option::Some((inviter_lock, a6)) => match p_opt_script(s, a6) {
                                Option::None => Option::None,
                                Option::Some((channel_lock, a7)) => match p_u32(s, a7) {
                                    Option::None => Option::None,
                                    Option::Some((olen, a8)) => match p_bytes(s, a8, olen as int) {
                                        Option::None => Option::None,
                                        Option::Some((owner_lock_args, a9)) => if a9 == s.len() {
                                            Option::Some(
                                                PreAccountCellDataV {
                                                    account,
                                                    price,
                                                    quote,
                                                    invited_discount,
                                                    inviter_lock,
                                                    channel_lock,
                                                    owner_lock_args,
                                                },
                                            )
                                        } else {
                                            Option::None
                                        },
                                    },
                                },
                            },
                        },
                    },
                },
            },
        },
    }
}

/// Reads one income record: a lock, then its accumulated capacity.
pub open spec fn p_record(s: Seq<u8>, at: int) -> Option<(IncomeRecordV, int)> {
    match p_script(s, at) {
        Option::None => Option::None,
        Option::Some((belong_to, a1)) => match p_u64(s, a1) {
            Option::None => Option::None,
            Option::Some((capacity, a2)) => Option::Some((IncomeRecordV { belong_to, capacity }, a2)),
        },
    }
}

/// Reads `n` consecutive income records.
pub open spec fn p_records(s: Seq<u8>, at: int, n: nat) -> Option<(Seq<IncomeRecordV>, int)>
    decreases n,
{
    if n == 0 {
        Option::Some((Seq::empty(), at))
    } else {
        match p_record(s, at) {
            Option::None => Option::None,
            Option::Some((rec, a1)) => match p_records(s, a1, (n - 1) as nat) {
                Option::None => Option::None,
                Option::Some((rest, a2)) => Option::Some((seq![rec] + rest, a2)),
            },
        }
    }
}

/// Reads a whole IncomeCell entity: a record count, then the records.
pub open spec fn p_income_data(s: Seq<u8>) -> Option<IncomeCellDataV> {
    match p_u32(s, 0) {
        Option::None => Option::None,
        Option::Some((n, a1)) => match p_records(s, a1, n as nat) {
            Option::None => Option::None,
            Option::Some((records, a2)) => if a2 == s.len() {
                Option::Some(IncomeCellDataV { records })
            } else {
                Option::None
            },
        },
    }
}

// ---------------------------------------------------------------------------
// Parsing, executable side.
// ---------------------------------------------------------------------------

/// Reads one octet.
fn take_byte(d: &[u8], at: usize) -> (r: Option<(u8, usize)>)
    ensures
        match r {
            Option::Some(x) => p_byte(d@, at as int) == Option::Some((x.0, x.1 as int)) && x.1
                <= d@.len(),
            Option::None => p_byte(d@, at as int) is None,
        },
{
    if at < d.len() {
        Option::Some((d[at], at + 1))
    } else {
        Option::None
    }
}

/// Reads `n` octets into a fresh vector.
fn take_bytes(d: &[u8], at: usize, n: usize) -> (r: Option<(Vec<u8>, usize)>)
    ensures
        match r {
            Option::Some(x) => p_bytes(d@, at as int, n as int) == Option::Some(
                (x.0@, x.1 as int),
            ) && x.1 <= d@.len(),
            Option::None => p_bytes(d@, at as int, n as int) is None,
        },
{
    let len: usize = d.len();
    if at <= len && n <= len - at {
        Option::Some((copy_range(d, at, at + n), at + n))
    } else {
        Option::None
    }
}

/// Reads a little-endian `u32`.
fn take_u32(d: &[u8], at: usize) -> (r: Option<(u32, usize)>)
    ensures
        match r {
            Option::Some(x) => p_u32(d@, at as int) == Option::Some((x.0, x.1 as int)) && x.1
                <= d@.len(),
            Option::None => p_u32(d@, at as int) is None,
        },
{
    let len: usize = d.len();
    if at <= len && 4 <= len - at {
        let s = slice_subrange(d, at, at + 4);
        Option::Some((u32_from_le_bytes(s), at + 4))
    } else {
        Option::None
    }
}

/// Reads a little-endian `u64`.
fn take_u64(d: &[u8], at: usize) -> (r: Option<(u64, usize)>)
    ensures
        match r {
            Option::Some(x) => p_u64(d@, at as int) == Option::Some((x.0, x.1 as int)) && x.1
                <= d@.len(),
            Option::None => p_u64(d@, at as int) is None,
        },
{
    let len: usize = d.len();
    if at <= len && 8 <= len - at {
        let s = slice_subrange(d, at, at + 8);
        Option::Some((u64_from_le_bytes(s), at + 8))
    } else {
        Option::None
    }
}

/// Reads a script.
fn take_script(d: &[u8], at: usize) -> (r: Option<(Script, usize)>)
    ensures
        match r {
            Option::Some(x) => p_script(d@, at as int) == Option::Some((x.0@, x.1 as int)) && x.1
                <= d@.len(),
            Option::None => p_script(d@, at as int) is None,
        },
{
    match take_bytes(d, at, 32) {
        Option::None => Option::None,
        Option::Some((code_hash, a1)) => match take_byte(d, a1) {
            Option::None => Option::None,
            Option::Some((hash_type, a2)) => match take_u32(d, a2) {
                Option::None => Option::None,
                Option::Some((n, a3)) => match take_bytes(d, a3, n as usize) {
                    Option::None => Option::None,
                    Option::Some((args, a4)) => Option::Some(
                        (Script { code_hash, hash_type, args }, a4),
                    ),
                },
            },
        },
    }
}

/// Reads an optional script.
fn take_opt_script(d: &[u8], at: usize) -> (r: Option<(Option<Script>, usize)>)
    ensures
        match r {
            Option::Some(x) => ({
                let v = match x.0 {
                    Option::Some(ref sc) => Option::Some(sc@),
                    Option::None => Option::None,
                };
                p_opt_script(d@, at as int) == Option::Some((v, x.1 as int)) && x.1 <= d@.len()
            }),
            Option::None => p_opt_script(d@, at as int) is None,
        },
{
    match take_byte(d, at) {
        Option::None => Option::None,
        Option::Some((flag, a1)) => if flag == 0 {
            Option::Some((Option::None, a1))
        } else if flag == 1 {
            match take_script(d, a1) {
                Option::None => Option::None,
                Option::Some((sc, a2)) => Option::Some((Option::Some(sc), a2)),
            }
        } else {
            Option::None
        },
    }
}

/// Reads one slice item.
fn take_item(d: &[u8], at: usize) -> (r: Option<(ProposalItem, usize)>)
    ensures
        match r {
            Option::Some(x) => p_item(d@, at as int) == Option::Some((x.0@, x.1 as int)) && x.1
                <= d@.len(),
            Option::None => p_item(d@, at as int) is None,
        },
{
    match take_bytes(d, at, 20) {
        Option::None => Option::None,
        Option::Some((account_id, a1)) => match take_byte(d, a1) {
            Option::None => Option::None,
            Option::Some((item_type, a2)) => match take_bytes(d, a2, 20) {
                Option::None => Option::None,
                Option::Some((next, a3)) => Option::Some(
                    (ProposalItem { account_id, item_type, next }, a3),
                ),
            },
        },
    }
}

/// `items_v` of a pushed vector grows by the view of the new element.
proof fn lemma_items_v_push(s: Seq<ProposalItem>, x: ProposalItem)
    ensures
        items_v(s.push(x)) == items_v(s).push(x@),
{
    assert(items_v(s.push(x)) =~= items_v(s).push(x@));
}

/// Reads `n` consecutive slice items.
fn take_items(d: &[u8], at: usize, n: u32) -> (r: Option<(Vec<ProposalItem>, usize)>)
    requires
        at <= d@.len(),
    ensures
        match r {
            Option::Some(x) => p_items(d@, at as int, n as nat) == Option::Some(
                (items_v(x.0@), x.1 as int),
            ) && x.1 <= d@.len(),
            Option::None => p_items(d@, at as int, n as nat) is None,
        },
{
    let mut out: Vec<ProposalItem> = Vec::new();
    let mut cur: usize = at;
    let mut i: u32 = 0;
    proof {
        assert(items_v(out@) =~= Seq::<ProposalItemV>::empty());
    }
    while i < n
        invariant
            i <= n,
            match p_items(d@, cur as int, (n - i) as nat) {
                Option::Some(rest) => p_items(d@, at as int, n as nat) == Option::Some(
                    (items_v(out@) + rest.0, rest.1),
                ),
                Option::None => p_items(d@, at as int, n as nat) is None,
            },
            cur <= d@.len(),
        decreases n - i,
    {
        match take_item(d, cur) {
            Option::None => {
                return Option::None;
            },
            Option::Some((it, a1)) => {
                let ghost old_out = out@;
                out.push(it);
                proof {
                    lemma_items_v_push(old_out, it);
                    match p_items(d@, a1 as int, (n - i - 1) as nat) {
                        Option::Some(rest) => {
                            assert(p_items(d@, cur as int, (n - i) as nat) == Option::Some(
                                (seq![it@] + rest.0, rest.1),
                            ));
                            assert(items_v(old_out) + (seq![it@] + rest.0) =~= items_v(out@)
                                + rest.0);
                        },
                        Option::None => {},
                    }
                }
                cur = a1;
                i += 1;
            },
        }
    }
    proof {
        assert(items_v(out@) + Seq::<ProposalItemV>::empty() =~= items_v(out@));
    }
    Option::Some((out, cur))
}

/// Reads one slice.
fn take_slice(d: &[u8], at: usize) -> (r: Option<(Vec<ProposalItem>, usize)>)
    ensures
        match r {
            Option::Some(x) => p_slice(d@, at as int) == Option::Some(
                (items_v(x.0@), x.1 as int),
            ) && x.1 <= d@.len(),
            Option::None => p_slice(d@, at as int) is None,
        },
{
    match take_u32(d, at) {
        Option::None => Option::None,
        Option::Some((n, a1)) => take_items(d, a1, n),
    }
}

/// `slices_v` of a pushed vector grows by the view of the new element.
proof fn lemma_slices_v_push(s: Seq<Vec<ProposalItem>>, x: Vec<ProposalItem>)
    ensures
        slices_v(s.push(x)) == slices_v(s).push(items_v(x@)),
{
    assert(slices_v(s.push(x)) =~= slices_v(s).push(items_v(x@)));
}

/// Reads `n` consecutive slices.
fn take_slices(d: &[u8], at: usize, n: u32) -> (r: Option<(Vec<Vec<ProposalItem>>, usize)>)
    requires
        at <= d@.len(),
    ensures
        match r {
            Option::Some(x) => p_slices(d@, at as int, n as nat) == Option::Some(
                (slices_v(x.0@), x.1 as int),
            ) && x.1 <= d@.len(),
            Option::None => p_slices(d@, at as int, n as nat) is None,
        },
{
    let mut out: Vec<Vec<ProposalItem>> = Vec::new();
    let mut cur: usize = at;
    let mut i: u32 = 0;
    proof {
        assert(slices_v(out@) =~= Seq::<Seq<ProposalItemV>>::empty());
    }
    while i < n
        invariant
            i <= n,
            match p_slices(d@, cur as int, (n - i) as nat) {
                Option::Some(rest) => p_slices(d@, at as int, n as nat) == Option::Some(
                    (slices_v(out@) + rest.0, rest.1),
                ),
                Option::None => p_slices(d@, at as int, n as nat) is None,
            },
            cur <= d@.len(),
        decreases n - i,
    {
        match take_slice(d, cur) {
            Option::None => {
                return Option::None;
            },
            Option::Some((sl, a1)) => {
                let ghost old_out = out@;
                let ghost slv = items_v(sl@);
                out.push(sl);
                proof {
                    lemma_slices_v_push(old_out, out@[out@.len() - 1]);
                    match p_slices(d@, a1 as int, (n - i - 1) as nat) {
                        Option::Some(rest) => {
                            assert(p_slices(d@, cur as int, (n - i) as nat) == Option::Some(
                                (seq![slv] + rest.0, rest.1),
                            ));
                            assert(slices_v(old_out) + (seq![slv] + rest.0) =~= slices_v(out@)
                                + rest.0);
                        },
                        Option::None => {},
                    }
                }
                cur = a1;
                i += 1;
            },
        }
    }
    proof {
        assert(slices_v(out@) + Seq::<Seq<ProposalItemV>>::empty() =~= slices_v(out@));
    }
    Option::Some((out, cur))
}

/// Parses a ProposalCell witness entity, exactly as `p_proposal_data` reads
/// it; fails with `WitnessEntityDecodingError` exactly when that reading
/// yields nothing.
pub fn parse_proposal_data(d: &[u8]) -> (r: Result<ProposalCellData, ErrorCode>)
    ensures
        match r {
            Result::Ok(v) => p_proposal_data(d@) == Option::Some(v@),
            Result::Err(e) => p_proposal_data(d@) is None && e
                == ErrorCode::WitnessEntityDecodingError,
        },
{
    match take_script(d, 0) {
        Option::None => Result::Err(ErrorCode::WitnessEntityDecodingError),
        Option::Some((proposer_lock, a1)) => match take_u64(d, a1) {
            Option::None => Result::Err(ErrorCode::WitnessEntityDecodingError),
            Option::Some((created_at_height, a2)) => match take_u32(d, a2) {
                Option::None => Result::Err(ErrorCode::WitnessEntityDecodingError),
                Option::Some((n, a3)) => match take_slices(d, a3, n) {
                    Option::None => Result::Err(ErrorCode::WitnessEntityDecodingError),
                    Option::Some((slices, a4)) => if a4 == d.len() {
                        Result::Ok(ProposalCellData { proposer_lock, created_at_height, slices })
                    } else {
                        Result::Err(ErrorCode::WitnessEntityDecodingError)
                    },
                },
            },
        },
    }
}

/// Parses an AccountCell witness entity, exactly as `p_account_data` reads
/// it.
pub fn parse_account_data(d: &[u8]) -> (r: Result<AccountCellData, ErrorCode>)
    ensures
        match r {
            Result::Ok(v) => p_account_data(d@) == Option::Some(v@),
            Result::Err(e) => p_account_data(d@) is None && e
                == ErrorCode::WitnessEntityDecodingError,
        },
{
    match take_bytes(d, 0, 20) {
        Option::None => Result::Err(ErrorCode::WitnessEntityDecodingError),
        Option::Some((id, a1)) => match take_byte(d, a1) {
            Option::None => Result::Err(ErrorCode::WitnessEntityDecodingError),
            Option::Some((status, a2)) => match take_u32(d, a2) {
                Option::None => Result::Err(ErrorCode::WitnessEntityDecodingError),
                Option::Some((n, a3)) => match take_bytes(d, a3, n as usize) {
                    Option::None => Result::Err(ErrorCode::WitnessEntityDecodingError),
                    Option::Some((account, a4)) => if a4 == d.len() {
                        Result::Ok(AccountCellData { id, status, account })
                    } else {
                        Result::Err(ErrorCode::WitnessEntityDecodingError)
                    },
                },
            },
        },
    }
}

/// Parses a PreAccountCell witness entity, exactly as `p_pre_account_data`
/// reads it.
pub fn parse_pre_account_data(d: &[u8]) -> (r: Result<PreAccountCellData, ErrorCode>)
    ensures
        match r {
            Result::Ok(v) => p_pre_account_data(d@) == Option::Some(v@),
            Result::Err(e) => p_pre_account_data(d@) is None && e
                == ErrorCode::WitnessEntityDecodingError,
        },
{
    match take_u32(d, 0) {
        Option::None => Result::Err(ErrorCode::WitnessEntityDecodingError),
        Option::Some((alen, a1)) => match take_bytes(d, a1, alen as usize) {
            Option::None => Result::Err(ErrorCode::WitnessEntityDecodingError),
            Option::Some((account, a2)) => match take_u64(d, a2) {
                Option::None => Result::Err(ErrorCode::WitnessEntityDecodingError),
                Option::Some((price, a3)) => match take_u64(d, a3) {
                    Option::None => Result::Err(ErrorCode::WitnessEntityDecodingError),
                    Option::Some((quote, a4)) => match take_u32(d, a4) {
                        Option::None => Result::Err(ErrorCode::WitnessEntityDecodingError),
                        Option::Some((invited_discount, a5)) => match take_opt_script(d, a5) {
                            Option::None => Result::Err(ErrorCode::WitnessEntityDecodingError),
                            Option::Some((inviter_lock, a6)) => match take_opt_script(d, a6) {
                                Option::None => Result::Err(
                                    ErrorCode::WitnessEntityDecodingError,
                                ),
                                Option::Some((channel_lock, a7)) => match take_u32(d, a7) {
                                    Option::None => Result::Err(
                                        ErrorCode::WitnessEntityDecodingError,
                                    ),
                                    Option::Some((olen, a8)) => match take_bytes(
                                        d,
                                        a8,
                                        olen as usize,
                                    ) {
                                        Option::None => Result::Err(
                                            ErrorCode::WitnessEntityDecodingError,
                                        ),
                                        Option::Some((owner_lock_args, a9)) => if a9 == d.len() {
                                            Result::Ok(
                                                PreAccountCellData {
                                                    account,
                                                    price,
                                                    quote,
                                                    invited_discount,
                                                    inviter_lock,
                                                    channel_lock,
                                                    owner_lock_args,
                                                },
                                            )
                                        } else {
                                            Result::Err(ErrorCode::WitnessEntityDecodingError)
                                        },
                                    },
                                },
                            },
                        },
                    },
                },
            },
        },
    }
}

/// Reads one income record.
fn take_record(d: &[u8], at: usize) -> (r: Option<(IncomeRecord, usize)>)
    ensures
        match r {
            Option::Some(x) => p_record(d@, at as int) == Option::Some((x.0@, x.1 as int)) && x.1
                <= d@.len(),
            Option::None => p_record(d@, at as int) is None,
        },
{
    match take_script(d, at) {
        Option::None => Option::None,
        Option::Some((belong_to, a1)) => match take_u64(d, a1) {
            Option::None => Option::None,
            Option::Some((capacity, a2)) => Option::Some((IncomeRecord { belong_to, capacity }, a2)),
        },
    }
}

/// `records_v` of a pushed vector grows by the view of the new element.
proof fn lemma_records_v_push(s: Seq<IncomeRecord>, x: IncomeRecord)
    ensures
        records_v(s.push(x)) == records_v(s).push(x@),
{
    assert(records_v(s.push(x)) =~= records_v(s).push(x@));
}

/// Reads `n` consecutive income records.
fn take_records(d: &[u8], at: usize, n: u32) -> (r: Option<(Vec<IncomeRecord>, usize)>)
    requires
        at <= d@.len(),
    ensures
        match r {
            Option::Some(x) => p_records(d@, at as int, n as nat) == Option::Some(
                (records_v(x.0@), x.1 as int),
            ) && x.1 <= d@.len(),
            Option::None => p_records(d@, at as int, n as nat) is None,
        },
{
    let mut out: Vec<IncomeRecord> = Vec::new();
    let mut cur: usize = at;
    let mut i: u32 = 0;
    proof {
        assert(records_v(out@) =~= Seq::<IncomeRecordV>::empty());
    }
    while i < n
        invariant
            i <= n,
            match p_records(d@, cur as int, (n - i) as nat) {
                Option::Some(rest) => p_records(d@, at as int, n as nat) == Option::Some(
                    (records_v(out@) + rest.0, rest.1),
                ),
                Option::None => p_records(d@, at as int, n as nat) is None,
            },
            cur <= d@.len(),
        decreases n - i,
    {
        match take_record(d, cur) {
            Option::None => {
                return Option::None;
            },
            Option::Some((rec, a1)) => {
                let ghost old_out = out@;
                out.push(rec);
                proof {
                    lemma_records_v_push(old_out, out@[out@.len() - 1]);
                    match p_records(d@, a1 as int, (n - i - 1) as nat) {
                        Option::Some(rest) => {
                            assert(p_records(d@, cur as int, (n - i) as nat) == Option::Some(
                                (seq![out@[out@.len() - 1]@] + rest.0, rest.1),
                            ));
                            assert(records_v(old_out) + (seq![out@[out@.len() - 1]@] + rest.0)
                                =~= records_v(out@) + rest.0);
                        },
                        Option::None => {},
                    }
                }
                cur = a1;
                i += 1;
            },
        }
    }
    proof {
        assert(records_v(out@) + Seq::<IncomeRecordV>::empty() =~= records_v(out@));
    }
    Option::Some((out, cur))
}

/// Parses an IncomeCell witness entity, exactly as `p_income_data` reads it.
pub fn parse_income_data(d: &[u8]) -> (r: Result<IncomeCellData, ErrorCode>)
    ensures
        match r {
            Result::Ok(v) => p_income_data(d@) == Option::Some(v@),
            Result::Err(e) => p_income_data(d@) is None && e
                == ErrorCode::WitnessEntityDecodingError,
        },
{
    match take_u32(d, 0) {
        Option::None => Result::Err(ErrorCode::WitnessEntityDecodingError),
        Option::Some((n, a1)) => match take_records(d, a1, n) {
            Option::None => Result::Err(ErrorCode::WitnessEntityDecodingError),
            Option::Some((records, a2)) => if a2 == d.len() {
                Result::Ok(IncomeCellData { records })
            } else {
                Result::Err(ErrorCode::WitnessEntityDecodingError)
            },
        },
    }
}


/// Reads the little-endian `u64` held by `d[at .. at + 8]`.
pub fn read_u64_at(d: &[u8], at: usize) -> (r: u64)
    requires
        at + 8 <= d@.len(),
    ensures
        r == spec_u64_from_le_bytes(d@.subrange(at as int, at as int + 8)),
{
    let n: usize = d.len();
    u64_from_le_bytes(slice_subrange(d, at, at + 8))
}

// ---------------------------------------------------------------------------
// Encoding, specification side.
// ---------------------------------------------------------------------------

/// The four octets of a `u32`, little-endian.
pub open spec fn enc_u32(x: u32) -> Seq<u8> {
    spec_u32_to_le_bytes(x)
}

/// The eight octets of a `u64`, little-endian.
pub open spec fn enc_u64(x: u64) -> Seq<u8> {
    spec_u64_to_le_bytes(x)
}

/// The encoding of a script.
pub open spec fn enc_script(s: ScriptV) -> Seq<u8> {
    s.code_hash + seq![s.hash_type] + enc_u32(s.args.len() as u32) + s.args
}

/// The encoding of an optional script.
pub open spec fn enc_opt_script(o: Option<ScriptV>) -> Seq<u8> {
    match o {
        Option::None => seq![0u8],
        Option::Some(s) => seq![1u8] + enc_script(s),
    }
}

/// The encoding of one slice item.
pub open spec fn enc_item(i: ProposalItemV) -> Seq<u8> {
    i.account_id + seq![i.item_type] + i.next
}

/// The encoding of a run of slice items.
pub open spec fn enc_items(s: Seq<ProposalItemV>) -> Seq<u8>
    decreases s.len(),
{
    if s.len() == 0 {
        Seq::empty()
    } else {
        enc_items(s.drop_last()) + enc_item(s.last())
    }
}

/// The encoding of one slice: its item count, then its items.
pub open spec fn enc_slice(s: Seq<ProposalItemV>) -> Seq<u8> {
    enc_u32(s.len() as u32) + enc_items(s)
}

/// The encoding of a run of slices.
pub open spec fn enc_slices(ss: Seq<Seq<ProposalItemV>>) -> Seq<u8>
    decreases ss.len(),
{
    if ss.len() == 0 {
        Seq::empty()
    } else {
        enc_slices(ss.drop_last()) + enc_slice(ss.last())
    }
}

/// The encoding of a slice list: the slice count, then the slices.
pub open spec fn enc_slice_list(ss: Seq<Seq<ProposalItemV>>) -> Seq<u8> {
    enc_u32(ss.len() as u32) + enc_slices(ss)
}

/// The encoding of a ProposalCell entity.
pub open spec fn enc_proposal_data(p: ProposalCellDataV) -> Seq<u8> {
    enc_script(p.proposer_lock) + enc_u64(p.created_at_height) + enc_slice_list(p.slices)
}

/// The encoding of an AccountCell entity.
pub open spec fn enc_account_data(w: AccountCellDataV) -> Seq<u8> {
    w.id + seq![w.status] + enc_u32(w.account.len() as u32) + w.account
}

/// The encoding of a PreAccountCell entity.
pub open spec fn enc_pre_account_data(p: PreAccountCellDataV) -> Seq<u8> {
    enc_u32(p.account.len() as u32) + p.account + enc_u64(p.price) + enc_u64(p.quote) + enc_u32(
        p.invited_discount,
    ) + enc_opt_script(p.inviter_lock) + enc_opt_script(p.channel_lock) + enc_u32(
        p.owner_lock_args.len() as u32,
    ) + p.owner_lock_args
}

/// The encoding of one income record.
pub open spec fn enc_record(r: IncomeRecordV) -> Seq<u8> {
    enc_script(r.belong_to) + enc_u64(r.capacity)
}

/// The encoding of a run of income records.
pub open spec fn enc_records(s: Seq<IncomeRecordV>) -> Seq<u8>
    decreases s.len(),
{
    if s.len() == 0 {
        Seq::empty()
    } else {
        enc_records(s.drop_last()) + enc_record(s.last())
    }
}

/// The encoding of an IncomeCell entity.
pub open spec fn enc_income_data(d: IncomeCellDataV) -> Seq<u8> {
    enc_u32(d.records.len() as u32) + enc_records(d.records)
}

// ---------------------------------------------------------------------------
// Encoding, executable side.
// ---------------------------------------------------------------------------

/// Appends a whole slice to `out`.
fn push_bytes(out: &mut Vec<u8>, b: &[u8])
    ensures
        final(out)@ == old(out)@ + b@,
{
    let n: usize = b.len();
    let mut i: usize = 0;
    while i < n
        invariant
            n == b@.len(),
            i <= n,
            out@ == old(out)@ + b@.subrange(0, i as int),
        decreases n - i,
    {
        out.push(b[i]);
        proof {
            assert(old(out)@ + b@.subrange(0, (i + 1) as int) =~= (old(out)@ + b@.subrange(
                0,
                i as int,
            )).push(b@[i as int]));
        }
        i += 1;
    }
    proof {
        assert(b@.subrange(0, n as int) =~= b@);
    }
}

/// Appends a `u32`, little-endian.
fn push_u32(out: &mut Vec<u8>, x: u32)
    ensures
        final(out)@ == old(out)@ + enc_u32(x),
{
    let b = u32_to_le_bytes(x);
    push_bytes(out, b.as_slice());
}

/// Appends a `u64`, little-endian.
fn push_u64(out: &mut Vec<u8>, x: u64)
    ensures
        final(out)@ == old(out)@ + enc_u64(x),
{
    let b = u64_to_le_bytes(x);
    push_bytes(out, b.as_slice());
}

/// Appends the encoding of a script.
fn push_script(out: &mut Vec<u8>, s: &Script)
    requires
        s.args@.len() <= u32::MAX,
    ensures
        final(out)@ == old(out)@ + enc_script(s@),
{
    push_bytes(out, s.code_hash.as_slice());
    out.push(s.hash_type);
    push_u32(out, s.args.len() as u32);
    push_bytes(out, s.args.as_slice());
    proof {
        assert(out@ =~= old(out)@ + enc_script(s@));
    }
}

/// Appends the encoding of an optional script.
fn push_opt_script(out: &mut Vec<u8>, o: &Option<Script>)
    requires
        match o {
            Option::Some(s) => s.args@.len() <= u32::MAX,
            Option::None => true,
        },
    ensures
        final(out)@ == old(out)@ + enc_opt_script(
            match o {
                Option::Some(s) => Option::Some(s@),
                Option::None => Option::None,
            },
        ),
{
    match o {
        Option::None => {
            out.push(0);
            proof {
                assert(out@ =~= old(out)@ + seq![0u8]);
            }
        },
        Option::Some(s) => {
            out.push(1);
            push_script(out, s);
            proof {
                assert(out@ =~= old(out)@ + (seq![1u8] + enc_script(s@)));
            }
        },
    }
}

/// Appends the encoding of one slice item.
fn push_item(out: &mut Vec<u8>, it: &ProposalItem)
    ensures
        final(out)@ == old(out)@ + enc_item(it@),
{
    push_bytes(out, it.account_id.as_slice());
    out.push(it.item_type);
    push_bytes(out, it.next.as_slice());
    proof {
        assert(out@ =~= old(out)@ + enc_item(it@));
    }
}

/// Appends the encodings of a run of slice items.
fn push_items(out: &mut Vec<u8>, items: &Vec<ProposalItem>)
    ensures
        final(out)@ == old(out)@ + enc_items(items_v(items@)),
{
    let n: usize = items.len();
    let mut i: usize = 0;
    while i < n
        invariant
            n == items@.len(),
            i <= n,
            out@ == old(out)@ + enc_items(items_v(items@).subrange(0, i as int)),
        decreases n - i,
    {
        let ghost pre = items_v(items@).subrange(0, i as int);
        push_item(out, &items[i]);
        proof {
            let s = items_v(items@);
            assert(s.subrange(0, i + 1 as int).drop_last() =~= pre);
            assert(s.subrange(0, i + 1 as int).last() == items@[i as int]@);
            assert(out@ =~= old(out)@ + enc_items(s.subrange(0, i + 1 as int)));
        }
        i += 1;
    }
    proof {
        assert(items_v(items@).subrange(0, n as int) =~= items_v(items@));
    }
}

/// Appends the encodings of a run of slices.
fn push_slices(out: &mut Vec<u8>, slices: &Vec<Vec<ProposalItem>>)
    requires
        forall|i: int| 0 <= i < slices@.len() ==> (#[trigger] slices@[i])@.len() <= u32::MAX,
    ensures
        final(out)@ == old(out)@ + enc_slices(slices_v(slices@)),
{
    let n: usize = slices.len();
    let mut i: usize = 0;
    while i < n
        invariant
            n == slices@.len(),
            i <= n,
            forall|k: int| 0 <= k < slices@.len() ==> (#[trigger] slices@[k])@.len() <= u32::MAX,
            out@ == old(out)@ + enc_slices(slices_v(slices@).subrange(0, i as int)),
        decreases n - i,
    {
        let ghost pre = slices_v(slices@).subrange(0, i as int);
        let sl: &Vec<ProposalItem> = &slices[i];
        push_u32(out, sl.len() as u32);
        push_items(out, sl);
        proof {
            let s = slices_v(slices@);
            assert(s.subrange(0, i + 1 as int).drop_last() =~= pre);
            assert(s.subrange(0, i + 1 as int).last() == items_v(slices@[i as int]@));
            assert(out@ =~= old(out)@ + enc_slices(s.subrange(0, i + 1 as int)));
        }
        i += 1;
    }
    proof {
        assert(slices_v(slices@).subrange(0, n as int) =~= slices_v(slices@));
    }
}

/// Encodes a ProposalCell entity, exactly as `enc_proposal_data` lays it
/// out.
pub fn encode_proposal_data(p: &ProposalCellData) -> (r: Vec<u8>)
    requires
        p@.wf(),
    ensures
        r@ == enc_proposal_data(p@),
{
    proof {
        assert(slices_v(p.slices@).len() == p.slices@.len());
        assert forall|i: int| 0 <= i < p.slices@.len() implies (#[trigger] p.slices@[i])@.len()
            <= u32::MAX by {
            assert(slices_v(p.slices@)[i] == items_v(p.slices@[i]@));
        }
    }
    let mut out: Vec<u8> = Vec::new();
    push_script(&mut out, &p.proposer_lock);
    push_u64(&mut out, p.created_at_height);
    push_u32(&mut out, p.slices.len() as u32);
    push_slices(&mut out, &p.slices);
    proof {
        assert(out@ =~= enc_proposal_data(p@));
    }
    out
}

/// Encodes an AccountCell entity, exactly as `enc_account_data` lays it out.
pub fn encode_account_data(w: &AccountCellData) -> (r: Vec<u8>)
    requires
        w@.wf(),
    ensures
        r@ == enc_account_data(w@),
{
    let mut out: Vec<u8> = Vec::new();
    push_bytes(&mut out, w.id.as_slice());
    out.push(w.status);
    push_u32(&mut out, w.account.len() as u32);
    push_bytes(&mut out, w.account.as_slice());
    proof {
        assert(out@ =~= enc_account_data(w@));
    }
    out
}

/// Encodes a PreAccountCell entity, exactly as `enc_pre_account_data` lays
/// it out.
pub fn encode_pre_account_data(p: &PreAccountCellData) -> (r: Vec<u8>)
    requires
        p@.wf(),
    ensures
        r@ == enc_pre_account_data(p@),
{
    let mut out: Vec<u8> = Vec::new();
    push_u32(&mut out, p.account.len() as u32);
    push_bytes(&mut out, p.account.as_slice());
    push_u64(&mut out, p.price);
    push_u64(&mut out, p.quote);
    push_u32(&mut out, p.invited_discount);
    push_opt_script(&mut out, &p.inviter_lock);
    push_opt_script(&mut out, &p.channel_lock);
    push_u32(&mut out, p.owner_lock_args.len() as u32);
    push_bytes(&mut out, p.owner_lock_args.as_slice());
    proof {
        assert(out@ =~= enc_pre_account_data(p@));
    }
    out
}

/// Encodes an IncomeCell entity, exactly as `enc_income_data` lays it out.
pub fn encode_income_data(d: &IncomeCellData) -> (r: Vec<u8>)
    requires
        d@.wf(),
    ensures
        r@ == enc_income_data(d@),
{
    proof {
        assert(records_v(d.records@).len() == d.records@.len());
        assert forall|k: int| 0 <= k < d.records@.len() implies (#[trigger] d.records@[k]).belong_to.args@.len() <= u32::MAX by {
            assert(records_v(d.records@)[k] == d.records@[k]@);
        }
    }
    let mut out: Vec<u8> = Vec::new();
    push_u32(&mut out, d.records.len() as u32);
    let n: usize = d.records.len();
    let mut i: usize = 0;
    while i < n
        invariant
            n == d.records@.len(),
            i <= n,
            forall|k: int|
                0 <= k < d.records@.len() ==> (#[trigger] d.records@[k]).belong_to.args@.len()
                    <= u32::MAX,
            out@ == enc_u32(n as u32) + enc_records(records_v(d.records@).subrange(0, i as int)),
        decreases n - i,
    {
        let ghost pre = records_v(d.records@).subrange(0, i as int);
        let rec: &IncomeRecord = &d.records[i];
        push_script(&mut out, &rec.belong_to);
        push_u64(&mut out, rec.capacity);
        proof {
            let s = records_v(d.records@);
            assert(s.subrange(0, i + 1 as int).drop_last() =~= pre);
            assert(s.subrange(0, i + 1 as int).last() == d.records@[i as int]@);
            assert(out@ =~= enc_u32(n as u32) + enc_records(s.subrange(0, i + 1 as int)));
        }
        i += 1;
    }
    proof {
        assert(records_v(d.records@).subrange(0, n as int) =~= records_v(d.records@));
        assert(out@ =~= enc_income_data(d@));
    }
    out
}


// ---------------------------------------------------------------------------
// Round trip: parsing an encoding yields the encoded value.
// ---------------------------------------------------------------------------

/// A `u32` written at `at` reads back.
proof fn lemma_p_u32_at(s: Seq<u8>, at: int, x: u32)
    requires
        0 <= at,
        at + 4 <= s.len(),
        s.subrange(at, at + 4) == enc_u32(x),
    ensures
        p_u32(s, at) == Option::Some((x, at + 4)),
{
    lemma_auto_spec_u32_to_from_le_bytes();
    assert(s.subrange(at, at + 4) == spec_u32_to_le_bytes(x));
    assert(spec_u32_from_le_bytes(spec_u32_to_le_bytes(x)) == x);
}

/// A `u64` written at `at` reads back.
proof fn lemma_p_u64_at(s: Seq<u8>, at: int, x: u64)
    requires
        0 <= at,
        at + 8 <= s.len(),
        s.subrange(at, at + 8) == enc_u64(x),
    ensures
        p_u64(s, at) == Option::Some((x, at + 8)),
{
    lemma_auto_spec_u64_to_from_le_bytes();
    assert(s.subrange(at, at + 8) == spec_u64_to_le_bytes(x));
    assert(spec_u64_from_le_bytes(spec_u64_to_le_bytes(x)) == x);
}

/// A script written at `at` reads back.
proof fn lemma_p_script_at(s: Seq<u8>, at: int, sc: ScriptV)
    requires
        crate::entity::script_wf_v(sc),
        0 <= at,
        at + enc_script(sc).len() <= s.len(),
        s.subrange(at, at + enc_script(sc).len()) == enc_script(sc),
    ensures
        p_script(s, at) == Option::Some((sc, at + enc_script(sc).len())),
{
    lemma_auto_spec_u32_to_from_le_bytes();
    let e = enc_script(sc);
    let al = sc.args.len() as int;
    let lenw = enc_u32(sc.args.len() as u32);
    let p1 = sc.code_hash;
    let p2 = p1 + seq![sc.hash_type];
    let p3 = p2 + lenw;
    assert(lenw.len() == 4);
    assert(e == p3 + sc.args);
    assert(p2.len() == 33);
    assert(p3.len() == 37);
    assert(e.len() == 37 + al);
    assert forall|i: int| 0 <= i < 32 implies s.subrange(at, at + 32)[i] == sc.code_hash[i] by {
        assert(s.subrange(at, at + 32)[i] == s[at + i]);
        assert(s.subrange(at, at + e.len())[i] == s[at + i]);
        assert(e[i] == p3[i]);
        assert(p3[i] == p2[i]);
        assert(p2[i] == p1[i]);
    }
    assert(s.subrange(at, at + 32) =~= sc.code_hash);
    assert(s.subrange(at, at + e.len())[32] == s[at + 32]);
    assert(e[32] == p3[32]);
    assert(p3[32] == p2[32]);
    assert(p2[32] == sc.hash_type);
    assert(s[at + 32] == sc.hash_type);
    assert(p_byte(s, at + 32) == Option::Some((sc.hash_type, at + 33)));
    assert forall|i: int| 0 <= i < 4 implies s.subrange(at + 33, at + 37)[i] == lenw[i] by {
        assert(s.subrange(at + 33, at + 37)[i] == s[at + 33 + i]);
        assert(s.subrange(at, at + e.len())[33 + i] == s[at + (33 + i)]);
        assert(e[33 + i] == p3[33 + i]);
        assert(p3[33 + i] == lenw[i]);
    }
    assert(s.subrange(at + 33, at + 37) =~= lenw);
    lemma_p_u32_at(s, at + 33, sc.args.len() as u32);
    assert forall|i: int| 0 <= i < al implies s.subrange(at + 37, at + 37 + al)[i] == sc.args[i] by {
        assert(s.subrange(at + 37, at + 37 + al)[i] == s[at + 37 + i]);
        assert(s.subrange(at, at + e.len())[37 + i] == s[at + (37 + i)]);
        assert(e[37 + i] == sc.args[i]);
    }
    assert(s.subrange(at + 37, at + 37 + al) =~= sc.args);
    assert(p_bytes(s, at + 37, al) == Option::Some((sc.args, at + 37 + al)));
    assert((sc.args.len() as u32) as int == al);
}

/// A slice item written at `at` reads back.
proof fn lemma_p_item_at(s: Seq<u8>, at: int, it: ProposalItemV)
    requires
        it.wf(),
        0 <= at,
        at + 41 <= s.len(),
        s.subrange(at, at + 41) == enc_item(it),
    ensures
        p_item(s, at) == Option::Some((it, at + 41)),
{
    let e = enc_item(it);
    let p2 = it.account_id + seq![it.item_type];
    assert(e == p2 + it.next);
    assert(p2.len() == 21);
    assert(e.len() == 41);
    assert forall|i: int| 0 <= i < 20 implies s.subrange(at, at + 20)[i] == it.account_id[i] by {
        assert(s.subrange(at, at + 20)[i] == s[at + i]);
        assert(s.subrange(at, at + 41)[i] == s[at + i]);
        assert(e[i] == p2[i]);
        assert(p2[i] == it.account_id[i]);
    }
    assert(s.subrange(at, at + 20) =~= it.account_id);
    assert(s.subrange(at, at + 41)[20] == s[at + 20]);
    assert(e[20] == p2[20]);
    assert(p2[20] == it.item_type);
    assert(s[at + 20] == it.item_type);
    assert forall|i: int| 0 <= i < 20 implies s.subrange(at + 21, at + 41)[i] == it.next[i] by {
        assert(s.subrange(at + 21, at + 41)[i] == s[at + 21 + i]);
        assert(s.subrange(at, at + 41)[21 + i] == s[at + (21 + i)]);
        assert(e[21 + i] == it.next[i]);
    }
    assert(s.subrange(at + 21, at + 41) =~= it.next);
}

/// Splitting a written concatenation: when `x + y` stands at `at`, each
/// part stands at its own offset.
proof fn lemma_subrange_concat(s: Seq<u8>, at: int, x: Seq<u8>, y: Seq<u8>)
    requires
        0 <= at,
        at + x.len() + y.len() <= s.len(),
        s.subrange(at, at + x.len() + y.len()) == x + y,
    ensures
        s.subrange(at, at + x.len()) == x,
        s.subrange(at + x.len(), at + x.len() + y.len()) == y,
{
    let xl = x.len() as int;
    let yl = y.len() as int;
    assert forall|i: int| 0 <= i < xl implies s.subrange(at, at + xl)[i] == x[i] by {
        assert(s.subrange(at, at + xl)[i] == s[at + i]);
        assert(s.subrange(at, at + xl + yl)[i] == s[at + i]);
        assert((x + y)[i] == x[i]);
    }
    assert(s.subrange(at, at + xl) =~= x);
    assert forall|i: int| 0 <= i < yl implies s.subrange(at + xl, at + xl + yl)[i] == y[i] by {
        assert(s.subrange(at + xl, at + xl + yl)[i] == s[at + xl + i]);
        assert(s.subrange(at, at + xl + yl)[xl + i] == s[at + (xl + i)]);
        assert((x + y)[xl + i] == y[i]);
    }
    assert(s.subrange(at + xl, at + xl + yl) =~= y);
}

/// Every item of a run is well formed.
pub open spec fn items_wf(items: Seq<ProposalItemV>) -> bool {
    forall|k: int| 0 <= k < items.len() ==> (#[trigger] items[k]).wf()
}

/// A run of items encodes to 41 octets apiece.
proof fn lemma_enc_items_len(items: Seq<ProposalItemV>)
    requires
        items_wf(items),
    ensures
        enc_items(items).len() == 41 * items.len(),
    decreases items.len(),
{
    if items.len() > 0 {
        lemma_enc_items_len(items.drop_last());
        assert(items.last().wf());
        assert(enc_item(items.last()).len() == 41);
    }
}

/// A run of items encodes head first as much as last first.
proof fn lemma_enc_items_head(items: Seq<ProposalItemV>)
    requires
        items.len() > 0,
    ensures
        enc_items(items) == enc_item(items[0]) + enc_items(items.subrange(1, items.len() as int)),
    decreases items.len(),
{
    let n = items.len() as int;
    if n == 1 {
        assert(enc_items(items.drop_last()) == Seq::<u8>::empty());
        assert(enc_items(items) == enc_items(items.drop_last()) + enc_item(items.last()));
        assert(items.subrange(1, 1) =~= Seq::<ProposalItemV>::empty());
        assert(enc_item(items[0]) + enc_items(items.subrange(1, 1)) =~= enc_item(items[0]));
        assert(Seq::<u8>::empty() + enc_item(items[0]) =~= enc_item(items[0]));
    } else {
        let dl = items.drop_last();
        lemma_enc_items_head(dl);
        assert(dl[0] == items[0]);
        let tail = items.subrange(1, n);
        assert(tail.drop_last() =~= dl.subrange(1, dl.len() as int));
        assert(tail.last() == items.last());
        assert(enc_items(tail) == enc_items(tail.drop_last()) + enc_item(tail.last()));
        assert(enc_items(items) == enc_items(dl) + enc_item(items.last()));
        assert(enc_items(dl) == enc_item(items[0]) + enc_items(dl.subrange(1, dl.len() as int)));
        assert((enc_item(items[0]) + enc_items(dl.subrange(1, dl.len() as int))) + enc_item(
            items.last(),
        ) =~= enc_item(items[0]) + (enc_items(dl.subrange(1, dl.len() as int)) + enc_item(
            items.last(),
        )));
    }
}

/// A run of items written at `at` reads back.
proof fn lemma_p_items_at(s: Seq<u8>, at: int, items: Seq<ProposalItemV>)
    requires
        items_wf(items),
        0 <= at,
        at + 41 * items.len() <= s.len(),
        s.subrange(at, at + 41 * items.len()) == enc_items(items),
    ensures
        p_items(s, at, items.len()) == Option::Some((items, at + 41 * items.len())),
    decreases items.len(),
{
    let n = items.len() as int;
    if n == 0 {
        assert(p_items(s, at, 0) == Option::Some((Seq::<ProposalItemV>::empty(), at)));
        assert(items =~= Seq::<ProposalItemV>::empty());
    } else {
        let tail = items.subrange(1, n);
        lemma_enc_items_head(items);
        assert(items[0].wf());
        assert(enc_item(items[0]).len() == 41);
        assert(forall|k: int| 0 <= k < tail.len() ==> (#[trigger] tail[k]).wf());
        lemma_enc_items_len(tail);
        lemma_enc_items_len(items);
        lemma_subrange_concat(s, at, enc_item(items[0]), enc_items(tail));
        lemma_p_item_at(s, at, items[0]);
        lemma_p_items_at(s, at + 41, tail);
        assert(p_items(s, at + 41, (n - 1) as nat) == Option::Some((tail, at + 41 + 41 * (n - 1))));
        assert(seq![items[0]] + tail =~= items);
    }
}

/// One whole slice written at `at` reads back.
proof fn lemma_p_slice_at(s: Seq<u8>, at: int, sl: Seq<ProposalItemV>)
    requires
        items_wf(sl),
        sl.len() <= u32::MAX,
        0 <= at,
        at + enc_slice(sl).len() <= s.len(),
        s.subrange(at, at + enc_slice(sl).len()) == enc_slice(sl),
    ensures
        p_slice(s, at) == Option::Some((sl, at + enc_slice(sl).len())),
{
    lemma_auto_spec_u32_to_from_le_bytes();
    lemma_enc_items_len(sl);
    assert(enc_u32(sl.len() as u32).len() == 4);
    lemma_subrange_concat(s, at, enc_u32(sl.len() as u32), enc_items(sl));
    lemma_p_u32_at(s, at, sl.len() as u32);
    lemma_p_items_at(s, at + 4, sl);
    assert((sl.len() as u32) as nat == sl.len());
}

/// Every slice of a list is encodable: items well formed, count in range.
pub open spec fn slices_wf(ss: Seq<Seq<ProposalItemV>>) -> bool {
    forall|k: int|
        0 <= k < ss.len() ==> items_wf(#[trigger] ss[k]) && ss[k].len() <= u32::MAX
}

/// A run of slices encodes head first as much as last first.
proof fn lemma_enc_slices_head(ss: Seq<Seq<ProposalItemV>>)
    requires
        ss.len() > 0,
    ensures
        enc_slices(ss) == enc_slice(ss[0]) + enc_slices(ss.subrange(1, ss.len() as int)),
    decreases ss.len(),
{
    let n = ss.len() as int;
    if n == 1 {
        assert(enc_slices(ss.drop_last()) == Seq::<u8>::empty());
        assert(enc_slices(ss) == enc_slices(ss.drop_last()) + enc_slice(ss.last()));
        assert(ss.subrange(1, 1) =~= Seq::<Seq<ProposalItemV>>::empty());
        assert(enc_slice(ss[0]) + enc_slices(ss.subrange(1, 1)) =~= enc_slice(ss[0]));
        assert(Seq::<u8>::empty() + enc_slice(ss[0]) =~= enc_slice(ss[0]));
    } else {
        let dl = ss.drop_last();
        lemma_enc_slices_head(dl);
        assert(dl[0] == ss[0]);
        let tail = ss.subrange(1, n);
        assert(tail.drop_last() =~= dl.subrange(1, dl.len() as int));
        assert(tail.last() == ss.last());
        assert(enc_slices(tail) == enc_slices(tail.drop_last()) + enc_slice(tail.last()));
        assert(enc_slices(ss) == enc_slices(dl) + enc_slice(ss.last()));
        assert(enc_slices(dl) == enc_slice(ss[0]) + enc_slices(dl.subrange(1, dl.len() as int)));
        assert((enc_slice(ss[0]) + enc_slices(dl.subrange(1, dl.len() as int))) + enc_slice(
            ss.last(),
        ) =~= enc_slice(ss[0]) + (enc_slices(dl.subrange(1, dl.len() as int)) + enc_slice(
            ss.last(),
        )));
    }
}

/// A run of slices written at `at` reads back.
proof fn lemma_p_slices_at(s: Seq<u8>, at: int, ss: Seq<Seq<ProposalItemV>>)
    requires
        slices_wf(ss),
        0 <= at,
        at + enc_slices(ss).len() <= s.len(),
        s.subrange(at, at + enc_slices(ss).len()) == enc_slices(ss),
    ensures
        p_slices(s, at, ss.len()) == Option::Some((ss, at + enc_slices(ss).len())),
    decreases ss.len(),
{
    let n = ss.len() as int;
    if n == 0 {
        assert(p_slices(s, at, 0) == Option::Some((Seq::<Seq<ProposalItemV>>::empty(), at)));
        assert(ss =~= Seq::<Seq<ProposalItemV>>::empty());
    } else {
        let tail = ss.subrange(1, n);
        lemma_enc_slices_head(ss);
        assert(forall|k: int|
            0 <= k < tail.len() ==> items_wf(#[trigger] tail[k]) && tail[k].len() <= u32::MAX);
        lemma_subrange_concat(s, at, enc_slice(ss[0]), enc_slices(tail));
        lemma_p_slice_at(s, at, ss[0]);
        lemma_p_slices_at(s, at + enc_slice(ss[0]).len(), tail);
        assert(seq![ss[0]] + tail =~= ss);
    }
}

/// An optional script written at `at` reads back.
proof fn lemma_p_opt_script_at(s: Seq<u8>, at: int, o: Option<ScriptV>)
    requires
        crate::entity::opt_script_wf_v(o),
        0 <= at,
        at + enc_opt_script(o).len() <= s.len(),
        s.subrange(at, at + enc_opt_script(o).len()) == enc_opt_script(o),
    ensures
        p_opt_script(s, at) == Option::Some((o, at + enc_opt_script(o).len())),
{
    match o {
        Option::None => {
            assert(s.subrange(at, at + 1)[0] == s[at]);
            assert(s[at] == 0);
        },
        Option::Some(sc) => {
            lemma_subrange_concat(s, at, seq![1u8], enc_script(sc));
            assert(s.subrange(at, at + 1)[0] == s[at]);
            assert(s[at] == 1);
            lemma_p_script_at(s, at + 1, sc);
        },
    }
}

/// Every record of a run carries an encodable lock.
pub open spec fn records_wf(rs: Seq<IncomeRecordV>) -> bool {
    forall|k: int| 0 <= k < rs.len() ==> crate::entity::script_wf_v((#[trigger] rs[k]).belong_to)
}

/// One income record written at `at` reads back.
proof fn lemma_p_record_at(s: Seq<u8>, at: int, rec: IncomeRecordV)
    requires
        crate::entity::script_wf_v(rec.belong_to),
        0 <= at,
        at + enc_record(rec).len() <= s.len(),
        s.subrange(at, at + enc_record(rec).len()) == enc_record(rec),
    ensures
        p_record(s, at) == Option::Some((rec, at + enc_record(rec).len())),
{
    lemma_auto_spec_u64_to_from_le_bytes();
    assert(enc_u64(rec.capacity).len() == 8);
    lemma_subrange_concat(s, at, enc_script(rec.belong_to), enc_u64(rec.capacity));
    lemma_p_script_at(s, at, rec.belong_to);
    lemma_p_u64_at(s, at + enc_script(rec.belong_to).len(), rec.capacity);
}

/// A run of records encodes head first as much as last first.
proof fn lemma_enc_records_head(rs: Seq<IncomeRecordV>)
    requires
        rs.len() > 0,
    ensures
        enc_records(rs) == enc_record(rs[0]) + enc_records(rs.subrange(1, rs.len() as int)),
    decreases rs.len(),
{
    let n = rs.len() as int;
    if n == 1 {
        assert(enc_records(rs.drop_last()) == Seq::<u8>::empty());
        assert(enc_records(rs) == enc_records(rs.drop_last()) + enc_record(rs.last()));
        assert(rs.subrange(1, 1) =~= Seq::<IncomeRecordV>::empty());
        assert(enc_record(rs[0]) + enc_records(rs.subrange(1, 1)) =~= enc_record(rs[0]));
        assert(Seq::<u8>::empty() + enc_record(rs[0]) =~= enc_record(rs[0]));
    } else {
        let dl = rs.drop_last();
        lemma_enc_records_head(dl);
        assert(dl[0] == rs[0]);
        let tail = rs.subrange(1, n);
        assert(tail.drop_last() =~= dl.subrange(1, dl.len() as int));
        assert(tail.last() == rs.last());
        assert(enc_records(tail) == enc_records(tail.drop_last()) + enc_record(tail.last()));
        assert(enc_records(rs) == enc_records(dl) + enc_record(rs.last()));
        assert(enc_records(dl) == enc_record(rs[0]) + enc_records(dl.subrange(1, dl.len() as int)));
        assert((enc_record(rs[0]) + enc_records(dl.subrange(1, dl.len() as int))) + enc_record(
            rs.last(),
        ) =~= enc_record(rs[0]) + (enc_records(dl.subrange(1, dl.len() as int)) + enc_record(
            rs.last(),
        )));
    }
}

/// A run of records written at `at` reads back.
proof fn lemma_p_records_at(s: Seq<u8>, at: int, rs: Seq<IncomeRecordV>)
    requires
        records_wf(rs),
        0 <= at,
        at + enc_records(rs).len() <= s.len(),
        s.subrange(at, at + enc_records(rs).len()) == enc_records(rs),
    ensures
        p_records(s, at, rs.len()) == Option::Some((rs, at + enc_records(rs).len())),
    decreases rs.len(),
{
    let n = rs.len() as int;
    if n == 0 {
        assert(p_records(s, at, 0) == Option::Some((Seq::<IncomeRecordV>::empty(), at)));
        assert(rs =~= Seq::<IncomeRecordV>::empty());
    } else {
        let tail = rs.subrange(1, n);
        lemma_enc_records_head(rs);
        assert(forall|k: int|
            0 <= k < tail.len() ==> crate::entity::script_wf_v((#[trigger] tail[k]).belong_to));
        lemma_subrange_concat(s, at, enc_record(rs[0]), enc_records(tail));
        lemma_p_record_at(s, at, rs[0]);
        lemma_p_records_at(s, at + enc_record(rs[0]).len(), tail);
        assert(seq![rs[0]] + tail =~= rs);
    }
}

/// Round trip: a well-formed ProposalCell entity parses back from its own
/// encoding.
pub proof fn lemma_proposal_data_round_trip(p: ProposalCellDataV)
    requires
        p.wf(),
    ensures
        p_proposal_data(enc_proposal_data(p)) == Option::Some(p),
{
    lemma_auto_spec_u32_to_from_le_bytes();
    lemma_auto_spec_u64_to_from_le_bytes();
    let s = enc_proposal_data(p);
    let a = enc_script(p.proposer_lock);
    let b = enc_u64(p.created_at_height);
    let c = enc_slice_list(p.slices);
    let cn = enc_u32(p.slices.len() as u32);
    let cs = enc_slices(p.slices);
    assert(b.len() == 8);
    assert(cn.len() == 4);
    assert(s == (a + b) + c);
    assert(c == cn + cs);
    assert(s.subrange(0, s.len() as int) =~= s);
    lemma_subrange_concat(s, 0, a + b, c);
    lemma_subrange_concat(s, 0, a, b);
    lemma_p_script_at(s, 0, p.proposer_lock);
    lemma_p_u64_at(s, a.len() as int, p.created_at_height);
    lemma_subrange_concat(s, a.len() as int + 8, cn, cs);
    lemma_p_u32_at(s, a.len() as int + 8, p.slices.len() as u32);
    assert(slices_wf(p.slices)) by {
        assert forall|k: int|
            0 <= k < p.slices.len() implies items_wf(#[trigger] p.slices[k]) && p.slices[k].len()
            <= u32::MAX by {
            assert(forall|j: int|
                0 <= j < p.slices[k].len() ==> (#[trigger] p.slices[k][j]).wf());
        }
    }
    lemma_p_slices_at(s, a.len() as int + 12, p.slices);
    assert((p.slices.len() as u32) as nat == p.slices.len());
}

/// Round trip: a well-formed AccountCell entity parses back from its own
/// encoding.
pub proof fn lemma_account_data_round_trip(w: AccountCellDataV)
    requires
        w.wf(),
    ensures
        p_account_data(enc_account_data(w)) == Option::Some(w),
{
    lemma_auto_spec_u32_to_from_le_bytes();
    let s = enc_account_data(w);
    let a = w.id;
    let b = seq![w.status];
    let cn = enc_u32(w.account.len() as u32);
    assert(cn.len() == 4);
    assert(s == ((a + b) + cn) + w.account);
    assert(s.subrange(0, s.len() as int) =~= s);
    lemma_subrange_concat(s, 0, (a + b) + cn, w.account);
    lemma_subrange_concat(s, 0, a + b, cn);
    lemma_subrange_concat(s, 0, a, b);
    assert(s.subrange(20, 21)[0] == s[20]);
    assert(s[20] == w.status);
    lemma_p_u32_at(s, 21, w.account.len() as u32);
    assert(s.subrange(0, 20) == w.id);
    assert((w.account.len() as u32) as int == w.account.len());
}

/// Round trip: a well-formed PreAccountCell entity parses back from its
/// own encoding.
pub proof fn lemma_pre_account_data_round_trip(p: PreAccountCellDataV)
    requires
        p.wf(),
    ensures
        p_pre_account_data(enc_pre_account_data(p)) == Option::Some(p),
{
    lemma_auto_spec_u32_to_from_le_bytes();
    lemma_auto_spec_u64_to_from_le_bytes();
    let s = enc_pre_account_data(p);
    let f1 = enc_u32(p.account.len() as u32);
    let f2 = p.account;
    let f3 = enc_u64(p.price);
    let f4 = enc_u64(p.quote);
    let f5 = enc_u32(p.invited_discount);
    let f6 = enc_opt_script(p.inviter_lock);
    let f7 = enc_opt_script(p.channel_lock);
    let f8 = enc_u32(p.owner_lock_args.len() as u32);
    let f9 = p.owner_lock_args;
    let p2 = f1 + f2;
    let p3 = p2 + f3;
    let p4 = p3 + f4;
    let p5 = p4 + f5;
    let p6 = p5 + f6;
    let p7 = p6 + f7;
    let p8 = p7 + f8;
    assert(f1.len() == 4 && f3.len() == 8 && f4.len() == 8 && f5.len() == 4 && f8.len() == 4);
    assert(s == p8 + f9);
    assert(s.subrange(0, s.len() as int) =~= s);
    lemma_subrange_concat(s, 0, p8, f9);
    lemma_subrange_concat(s, 0, p7, f8);
    lemma_subrange_concat(s, 0, p6, f7);
    lemma_subrange_concat(s, 0, p5, f6);
    lemma_subrange_concat(s, 0, p4, f5);
    lemma_subrange_concat(s, 0, p3, f4);
    lemma_subrange_concat(s, 0, p2, f3);
    lemma_subrange_concat(s, 0, f1, f2);
    let o2 = p2.len() as int;
    let o3 = p3.len() as int;
    let o4 = p4.len() as int;
    let o5 = p5.len() as int;
    let o6 = p6.len() as int;
    let o7 = p7.len() as int;
    let o8 = p8.len() as int;
    lemma_p_u32_at(s, 0, p.account.len() as u32);
    lemma_p_u64_at(s, o2, p.price);
    lemma_p_u64_at(s, o3, p.quote);
    lemma_p_u32_at(s, o4, p.invited_discount);
    lemma_p_opt_script_at(s, o5, p.inviter_lock);
    lemma_p_opt_script_at(s, o6, p.channel_lock);
    lemma_p_u32_at(s, o7, p.owner_lock_args.len() as u32);
    assert(s.subrange(o8, o8 + f9.len() as int) == f9);
    assert((p.account.len() as u32) as int == p.account.len());
    assert((p.owner_lock_args.len() as u32) as int == p.owner_lock_args.len());
}

/// Round trip: a well-formed IncomeCell entity parses back from its own
/// encoding.
pub proof fn lemma_income_data_round_trip(d: IncomeCellDataV)
    requires
        d.wf(),
    ensures
        p_income_data(enc_income_data(d)) == Option::Some(d),
{
    lemma_auto_spec_u32_to_from_le_bytes();
    let s = enc_income_data(d);
    let cn = enc_u32(d.records.len() as u32);
    assert(cn.len() == 4);
    assert(s == cn + enc_records(d.records));
    assert(s.subrange(0, s.len() as int) =~= s);
    lemma_subrange_concat(s, 0, cn, enc_records(d.records));
    lemma_p_u32_at(s, 0, d.records.len() as u32);
    assert(records_wf(d.records));
    lemma_p_records_at(s, 4, d.records);
    assert((d.records.len() as u32) as nat == d.records.len());
}

} // verus!
