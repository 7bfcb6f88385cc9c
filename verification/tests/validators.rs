use das_validators::apply_register::validate_apply_register;
use das_validators::entity::{
    AccountCellData, IncomeCellData, IncomeRecord, PreAccountCellData, ProposalCellData,
    ProposalItem,
};
use das_validators::codec::{
    encode_account_data, encode_income_data, encode_pre_account_data, encode_proposal_data,
};
use das_validators::error::ErrorCode;
use das_validators::fees::{RELEASE_EPOCH, YEAR_SECONDS};
use das_validators::hash::{account_id_of, blake2b_256};
use das_validators::model::{Cell, Config, Script, Transaction, TypeIdTable};
use das_validators::proposal::validate_proposal;

fn tid(b: u8) -> Vec<u8> {
    vec![b; 32]
}

fn script(code: u8, args: &[u8]) -> Script {
    Script { code_hash: vec![code; 32], hash_type: 0, args: args.to_vec() }
}

fn test_config() -> Config {
    Config {
        status: 1,
        type_id_table: TypeIdTable {
            apply_register_cell: tid(1),
            proposal_cell: tid(2),
            account_cell: tid(3),
            pre_account_cell: tid(4),
            income_cell: tid(5),
            height_cell: tid(6),
            time_cell: tid(7),
        },
        proposal_max_account_affect: 50,
        proposal_max_pre_account_contain: 50,
        proposal_min_recycle_interval: 10,
        profit_rate_inviter: 1000,
        profit_rate_channel: 800,
        profit_rate_proposal_create: 400,
        profit_rate_proposal_confirm: 200,
        basic_capacity: 2_000_000_000,
        always_success_code_hash: vec![9; 32],
        das_lock: script(10, &[]),
        das_wallet_lock: script(11, &[]),
    }
}

fn wrap_witness(entity: &[u8]) -> Vec<u8> {
    let mut w = b"das".to_vec();
    w.extend_from_slice(&1u32.to_le_bytes());
    w.extend_from_slice(entity);
    w
}

fn anchored_data(entity: &[u8], rest: &[u8]) -> Vec<u8> {
    let mut d = blake2b_256(entity);
    d.extend_from_slice(rest);
    d
}

fn plain_cell(capacity: u64, lock: Script, type_id: Option<Vec<u8>>, data: Vec<u8>) -> Cell {
    Cell { capacity, lock, type_id, data, witness: None }
}

fn witness_cell(
    capacity: u64,
    lock: Script,
    type_id: Option<Vec<u8>>,
    data: Vec<u8>,
    entity: &[u8],
) -> Cell {
    Cell { capacity, lock, type_id, data, witness: Some(wrap_witness(entity)) }
}

fn account_cell_body(id: &[u8], next: &[u8], expired_at: u64, account: &[u8]) -> Vec<u8> {
    let mut d = Vec::new();
    d.extend_from_slice(id);
    d.extend_from_slice(next);
    d.extend_from_slice(&expired_at.to_le_bytes());
    d.extend_from_slice(account);
    d
}

fn item(id: &[u8], item_type: u8, next: &[u8]) -> ProposalItem {
    ProposalItem { account_id: id.to_vec(), item_type, next: next.to_vec() }
}

fn oracle_cell(oracle_tid: Vec<u8>, value: u64) -> Cell {
    plain_cell(1, script(40, &[]), Some(oracle_tid), value.to_le_bytes().to_vec())
}

// Commit scenario: the sole new apply cell carries the oracle's height.
#[test]
fn apply_register_happy_path() {
    let config = test_config();
    let commitment = blake2b_256(&[0u8; 32]);
    let mut data = commitment.clone();
    data.extend_from_slice(&1000u64.to_le_bytes());
    let tx = Transaction {
        inputs: vec![],
        outputs: vec![plain_cell(100, script(30, &[]), Some(tid(1)), data)],
        cell_deps: vec![oracle_cell(tid(6), 1000)],
        action: b"apply_register".to_vec(),
    };
    assert_eq!(validate_apply_register(&tx, &config), Ok(()));
}

#[test]
fn apply_register_stale_height() {
    let config = test_config();
    let commitment = blake2b_256(&[0u8; 32]);
    let mut data = commitment.clone();
    data.extend_from_slice(&999u64.to_le_bytes());
    let tx = Transaction {
        inputs: vec![],
        outputs: vec![plain_cell(100, script(30, &[]), Some(tid(1)), data)],
        cell_deps: vec![oracle_cell(tid(6), 1000)],
        action: b"apply_register".to_vec(),
    };
    assert_eq!(
        validate_apply_register(&tx, &config),
        Err(ErrorCode::ApplyRegisterCellHeightInvalid)
    );
}

#[test]
fn apply_register_consuming_cell_is_refused() {
    let config = test_config();
    let commitment = blake2b_256(&[0u8; 32]);
    let mut data = commitment.clone();
    data.extend_from_slice(&1000u64.to_le_bytes());
    let tx = Transaction {
        inputs: vec![plain_cell(100, script(30, &[]), Some(tid(1)), data.clone())],
        outputs: vec![plain_cell(100, script(30, &[]), Some(tid(1)), data)],
        cell_deps: vec![oracle_cell(tid(6), 1000)],
        action: b"apply_register".to_vec(),
    };
    assert_eq!(
        validate_apply_register(&tx, &config),
        Err(ErrorCode::ApplyRegisterFoundInvalidTransaction)
    );
}

#[test]
fn apply_register_short_data() {
    let config = test_config();
    let tx = Transaction {
        inputs: vec![],
        outputs: vec![plain_cell(100, script(30, &[]), Some(tid(1)), vec![0; 39])],
        cell_deps: vec![oracle_cell(tid(6), 1000)],
        action: b"apply_register".to_vec(),
    };
    assert_eq!(validate_apply_register(&tx, &config), Err(ErrorCode::InvalidCellData));
}

#[test]
fn apply_register_unknown_action() {
    let config = test_config();
    let tx = Transaction {
        inputs: vec![],
        outputs: vec![],
        cell_deps: vec![],
        action: b"transfer".to_vec(),
    };
    assert_eq!(validate_apply_register(&tx, &config), Err(ErrorCode::ActionNotSupported));
}

#[test]
fn pre_register_needs_pre_account_cell() {
    let config = test_config();
    let tx = Transaction {
        inputs: vec![],
        outputs: vec![plain_cell(1, script(30, &[]), Some(tid(4)), vec![0; 52])],
        cell_deps: vec![],
        action: b"pre_register".to_vec(),
    };
    assert_eq!(validate_apply_register(&tx, &config), Ok(()));
    let tx2 = Transaction {
        inputs: vec![],
        outputs: vec![],
        cell_deps: vec![],
        action: b"pre_register".to_vec(),
    };
    assert_eq!(
        validate_apply_register(&tx2, &config),
        Err(ErrorCode::PreRegisterFoundInvalidTransaction)
    );
}

fn propose_tx(items: Vec<ProposalItem>) -> Transaction {
    let id_a = vec![0u8; 20];
    let id_b = vec![255u8; 20];
    let a1 = vec![10u8; 20];
    let a2 = vec![20u8; 20];
    let pdata = ProposalCellData {
        proposer_lock: script(30, b"proposer"),
        created_at_height: 100,
        slices: vec![items],
    };
    let entity = encode_proposal_data(&pdata);
    let proposal_cell = witness_cell(
        20_000_000_000,
        script(9, &[]),
        Some(tid(2)),
        anchored_data(&entity, &[]),
        &entity,
    );
    let account_a = plain_cell(
        100,
        script(31, &[]),
        Some(tid(3)),
        anchored_data(b"account-a-entity", &account_cell_body(&id_a, &id_b, 5, b"aa.bit")),
    );
    let mut pre_1 = vec![0u8; 32];
    pre_1.extend_from_slice(&a1);
    let pre_cell_1 = plain_cell(100, script(32, &[]), Some(tid(4)), pre_1);
    let mut pre_2 = vec![0u8; 32];
    pre_2.extend_from_slice(&a2);
    let pre_cell_2 = plain_cell(100, script(32, &[]), Some(tid(4)), pre_2);
    Transaction {
        inputs: vec![],
        outputs: vec![proposal_cell],
        cell_deps: vec![account_a, pre_cell_1, pre_cell_2],
        action: b"propose".to_vec(),
    }
}

// Splice scenario: one slice inserting two new accounts between two
// existing ones.
#[test]
fn propose_single_slice() {
    let config = test_config();
    let id_a = vec![0u8; 20];
    let id_b = vec![255u8; 20];
    let a1 = vec![10u8; 20];
    let a2 = vec![20u8; 20];
    let tx = propose_tx(vec![
        item(&id_a, 0, &a1),
        item(&a1, 2, &a2),
        item(&a2, 2, &id_b),
    ]);
    assert_eq!(validate_proposal(&tx, &config), Ok(()));
}

#[test]
fn propose_unsorted_slice() {
    let config = test_config();
    let id_a = vec![0u8; 20];
    let id_b = vec![255u8; 20];
    let a1 = vec![10u8; 20];
    let a2 = vec![20u8; 20];
    // Chained but descending: the walk passes, the order check refuses.
    let tx = propose_tx(vec![
        item(&id_a, 0, &a2),
        item(&a2, 2, &a1),
        item(&a1, 2, &id_b),
    ]);
    assert_eq!(validate_proposal(&tx, &config), Err(ErrorCode::ProposalSliceIsNotSorted));
}

// Hash-mismatch scenario: one flipped witness octet breaks the anchor.
#[test]
fn propose_witness_hash_mismatch() {
    let config = test_config();
    let id_a = vec![0u8; 20];
    let id_b = vec![255u8; 20];
    let a1 = vec![10u8; 20];
    let a2 = vec![20u8; 20];
    let mut tx = propose_tx(vec![
        item(&id_a, 0, &a1),
        item(&a1, 2, &a2),
        item(&a2, 2, &id_b),
    ]);
    let w = tx.outputs[0].witness.as_mut().unwrap();
    let last = w.len() - 1;
    w[last] ^= 0x01;
    assert_eq!(validate_proposal(&tx, &config), Err(ErrorCode::WitnessEntityDecodingError));
}

#[test]
fn propose_system_off() {
    let mut config = test_config();
    config.status = 0;
    let tx = Transaction {
        inputs: vec![],
        outputs: vec![],
        cell_deps: vec![],
        action: b"propose".to_vec(),
    };
    assert_eq!(validate_proposal(&tx, &config), Err(ErrorCode::SystemOff));
}

// Chaining scenario: a child proposal resolves its Proposed head through
// the parent.
#[test]
fn extend_proposal_chaining() {
    let config = test_config();
    let id_a = vec![0u8; 20];
    let id_b = vec![255u8; 20];
    let x = vec![10u8; 20];
    let y = vec![20u8; 20];
    let parent = ProposalCellData {
        proposer_lock: script(30, b"parent"),
        created_at_height: 90,
        slices: vec![vec![item(&id_a, 0, &x), item(&x, 2, &id_b)]],
    };
    let parent_entity = encode_proposal_data(&parent);
    let parent_cell = witness_cell(
        10_000_000_000,
        script(9, &[]),
        Some(tid(2)),
        anchored_data(&parent_entity, &[]),
        &parent_entity,
    );
    let child = ProposalCellData {
        proposer_lock: script(30, b"child"),
        created_at_height: 100,
        slices: vec![vec![item(&x, 1, &y), item(&y, 2, &id_b)]],
    };
    let child_entity = encode_proposal_data(&child);
    let child_cell = witness_cell(
        10_000_000_000,
        script(9, &[]),
        Some(tid(2)),
        anchored_data(&child_entity, &[]),
        &child_entity,
    );
    let mut pre_x = vec![0u8; 32];
    pre_x.extend_from_slice(&x);
    let pre_cell_x = plain_cell(100, script(32, &[]), Some(tid(4)), pre_x);
    let mut pre_y = vec![0u8; 32];
    pre_y.extend_from_slice(&y);
    let pre_cell_y = plain_cell(100, script(32, &[]), Some(tid(4)), pre_y);
    let tx = Transaction {
        inputs: vec![],
        outputs: vec![child_cell],
        cell_deps: vec![parent_cell, pre_cell_x, pre_cell_y],
        action: b"extend_proposal".to_vec(),
    };
    assert_eq!(validate_proposal(&tx, &config), Ok(()));
}

struct ConfirmKnobs {
    out_status: u8,
    out_witness_account: Vec<u8>,
    out_witness_id: Option<Vec<u8>>,
    input_income: Option<(Script, u64)>,
}

fn default_knobs() -> ConfirmKnobs {
    ConfirmKnobs {
        out_status: 0,
        out_witness_account: b"test".to_vec(),
        out_witness_id: None,
        input_income: None,
    }
}

fn confirm_tx(income_records: Vec<IncomeRecord>, income_capacity: u64, refund: u64) -> (
    Transaction,
    Config,
) {
    confirm_tx_with(default_knobs(), income_records, income_capacity, refund)
}

fn confirm_tx_with(
    knobs: ConfirmKnobs,
    income_records: Vec<IncomeRecord>,
    income_capacity: u64,
    refund: u64,
) -> (Transaction, Config) {
    let config = test_config();
    let ts = RELEASE_EPOCH + 4 * YEAR_SECONDS;
    let proposer = script(30, b"proposer");
    let id_a = vec![0u8; 20];
    let id_b = vec![255u8; 20];
    let a1 = account_id_of(b"test.bit");
    let pdata = ProposalCellData {
        proposer_lock: proposer.clone(),
        created_at_height: 100,
        slices: vec![vec![item(&id_a, 0, &a1), item(&a1, 2, &id_b)]],
    };
    let entity = encode_proposal_data(&pdata);
    let proposal_cell = witness_cell(
        20_000_000_000,
        script(9, &[]),
        Some(tid(2)),
        anchored_data(&entity, &[]),
        &entity,
    );
    // The surviving AccountCell: only `next` moves, from B to a1.
    let hash_a = blake2b_256(b"account-a-entity");
    let mut in_a_data = hash_a.clone();
    in_a_data.extend_from_slice(&account_cell_body(&id_a, &id_b, 5, b"aa.bit"));
    let mut out_a_data = hash_a.clone();
    out_a_data.extend_from_slice(&account_cell_body(&id_a, &a1, 5, b"aa.bit"));
    let lock_a = script(31, b"a-owner");
    let in_account_a = plain_cell(500, lock_a.clone(), Some(tid(3)), in_a_data);
    let out_account_a = plain_cell(500, lock_a.clone(), Some(tid(3)), out_a_data);
    // The converted PreAccountCell: storage capacity plus a 100_000 profit.
    let storage = 2_000_000_000 + 8 * 100_000_000;
    let profit = 100_000u64;
    let pre_w = PreAccountCellData {
        account: b"test".to_vec(),
        price: 31_536_000,
        quote: 100_000_000,
        invited_discount: 0,
        inviter_lock: Some(script(33, b"inviter")),
        channel_lock: Some(script(34, b"channel")),
        owner_lock_args: b"owner".to_vec(),
    };
    let pre_entity = encode_pre_account_data(&pre_w);
    let mut pre_data = blake2b_256(&pre_entity);
    pre_data.extend_from_slice(&a1);
    let in_pre = witness_cell(storage + profit, script(32, &[]), Some(tid(4)), pre_data, &pre_entity);
    let out_w = AccountCellData {
        id: knobs.out_witness_id.clone().unwrap_or_else(|| a1.clone()),
        status: knobs.out_status,
        account: knobs.out_witness_account.clone(),
    };
    let out_entity = encode_account_data(&out_w);
    let expired_at = ts + 100_000;
    let out_a1_data = anchored_data(
        &out_entity,
        &account_cell_body(&a1, &id_b, expired_at, b"test.bit"),
    );
    let out_account_a1 = witness_cell(
        storage,
        script(10, b"owner"),
        Some(tid(3)),
        out_a1_data,
        &out_entity,
    );
    let income_w = IncomeCellData { records: income_records };
    let income_entity = encode_income_data(&income_w);
    let out_income = witness_cell(
        income_capacity,
        script(35, &[]),
        Some(tid(5)),
        anchored_data(&income_entity, &[]),
        &income_entity,
    );
    let refund_cell = plain_cell(refund, proposer.clone(), None, vec![]);
    let mut inputs = vec![proposal_cell, in_account_a, in_pre];
    if let Some((creator, cap)) = knobs.input_income {
        let seed_w = IncomeCellData {
            records: vec![IncomeRecord { belong_to: creator, capacity: cap }],
        };
        let seed_entity = encode_income_data(&seed_w);
        inputs.push(witness_cell(
            cap,
            script(36, &[]),
            Some(tid(5)),
            anchored_data(&seed_entity, &[]),
            &seed_entity,
        ));
    }
    let tx = Transaction {
        inputs,
        outputs: vec![out_account_a, out_account_a1, out_income, refund_cell],
        cell_deps: vec![oracle_cell(tid(7), ts)],
        action: b"confirm_proposal".to_vec(),
    };
    (tx, config)
}

// Fee-split scenario: profit 100_000 at rates 1000/800/400/200 over a
// 10_000 base credits 10_000, 8_000, 4_000 and the 76_000 residual; the
// confirmer's 2_000 stays off the books.
#[test]
fn confirm_proposal_fee_math() {
    let records = vec![
        IncomeRecord { belong_to: script(33, b"inviter"), capacity: 10_000 },
        IncomeRecord { belong_to: script(34, b"channel"), capacity: 8_000 },
        IncomeRecord { belong_to: script(30, b"proposer"), capacity: 4_000 },
        IncomeRecord { belong_to: script(11, &[]), capacity: 76_000 },
    ];
    let (tx, config) = confirm_tx(records, 98_000, 20_000_000_000);
    assert_eq!(validate_proposal(&tx, &config), Ok(()));
}

#[test]
fn confirm_proposal_wrong_income_record() {
    let records = vec![
        IncomeRecord { belong_to: script(33, b"inviter"), capacity: 10_001 },
        IncomeRecord { belong_to: script(34, b"channel"), capacity: 8_000 },
        IncomeRecord { belong_to: script(30, b"proposer"), capacity: 4_000 },
        IncomeRecord { belong_to: script(11, &[]), capacity: 76_000 },
    ];
    let (tx, config) = confirm_tx(records, 98_001, 20_000_000_000);
    assert_eq!(validate_proposal(&tx, &config), Err(ErrorCode::ProposalConfirmIncomeError));
}

#[test]
fn confirm_proposal_missing_beneficiary() {
    let records = vec![
        IncomeRecord { belong_to: script(33, b"inviter"), capacity: 10_000 },
        IncomeRecord { belong_to: script(34, b"channel"), capacity: 8_000 },
        IncomeRecord { belong_to: script(30, b"proposer"), capacity: 4_000 },
    ];
    let (tx, config) = confirm_tx(records, 22_000, 20_000_000_000);
    assert_eq!(validate_proposal(&tx, &config), Err(ErrorCode::ProposalConfirmIncomeError));
}

#[test]
fn confirm_proposal_wrong_income_capacity() {
    let records = vec![
        IncomeRecord { belong_to: script(33, b"inviter"), capacity: 10_000 },
        IncomeRecord { belong_to: script(34, b"channel"), capacity: 8_000 },
        IncomeRecord { belong_to: script(30, b"proposer"), capacity: 4_000 },
        IncomeRecord { belong_to: script(11, &[]), capacity: 76_000 },
    ];
    let (tx, config) = confirm_tx(records, 98_001, 20_000_000_000);
    assert_eq!(validate_proposal(&tx, &config), Err(ErrorCode::ProposalConfirmIncomeError));
}

#[test]
fn confirm_proposal_short_refund() {
    let records = vec![
        IncomeRecord { belong_to: script(33, b"inviter"), capacity: 10_000 },
        IncomeRecord { belong_to: script(34, b"channel"), capacity: 8_000 },
        IncomeRecord { belong_to: script(30, b"proposer"), capacity: 4_000 },
        IncomeRecord { belong_to: script(11, &[]), capacity: 76_000 },
    ];
    let (tx, config) = confirm_tx(records, 98_000, 19_999_999_999);
    assert_eq!(validate_proposal(&tx, &config), Err(ErrorCode::ProposalConfirmRefundError));
}

fn recycle_tx(created_at_height: u64, height: u64, refund: u64) -> (Transaction, Config) {
    let config = test_config();
    let proposer = script(30, b"proposer");
    let pdata = ProposalCellData {
        proposer_lock: proposer.clone(),
        created_at_height,
        slices: vec![],
    };
    let entity = encode_proposal_data(&pdata);
    let proposal_cell = witness_cell(
        10_000_000_000,
        script(9, &[]),
        Some(tid(2)),
        anchored_data(&entity, &[]),
        &entity,
    );
    let refund_cell = plain_cell(refund, proposer, None, vec![]);
    let tx = Transaction {
        inputs: vec![proposal_cell],
        outputs: vec![refund_cell],
        cell_deps: vec![oracle_cell(tid(6), height)],
        action: b"recycle_proposal".to_vec(),
    };
    (tx, config)
}

// Waiting scenario: eight blocks after creation is too early for a
// ten-block interval.
#[test]
fn recycle_proposal_too_early() {
    let (tx, config) = recycle_tx(500, 508, 10_000_000_000);
    assert_eq!(validate_proposal(&tx, &config), Err(ErrorCode::ProposalRecycleNeedWaitLonger));
}

#[test]
fn recycle_proposal_after_interval() {
    let (tx, config) = recycle_tx(500, 510, 10_000_000_000);
    assert_eq!(validate_proposal(&tx, &config), Ok(()));
}

#[test]
fn recycle_proposal_missing_height_oracle() {
    let (mut tx, config) = recycle_tx(500, 510, 10_000_000_000);
    tx.cell_deps.clear();
    assert_eq!(validate_proposal(&tx, &config), Err(ErrorCode::HeightCellIsRequired));
}

#[test]
fn confirm_proposal_missing_time_oracle() {
    let records = vec![
        IncomeRecord { belong_to: script(33, b"inviter"), capacity: 10_000 },
        IncomeRecord { belong_to: script(34, b"channel"), capacity: 8_000 },
        IncomeRecord { belong_to: script(30, b"proposer"), capacity: 4_000 },
        IncomeRecord { belong_to: script(11, &[]), capacity: 76_000 },
    ];
    let (mut tx, config) = confirm_tx(records, 98_000, 20_000_000_000);
    tx.cell_deps.clear();
    assert_eq!(validate_proposal(&tx, &config), Err(ErrorCode::TimeCellIsRequired));
}

#[test]
fn proposal_unknown_action() {
    let config = test_config();
    let tx = Transaction {
        inputs: vec![],
        outputs: vec![],
        cell_deps: vec![],
        action: b"renew".to_vec(),
    };
    assert_eq!(validate_proposal(&tx, &config), Err(ErrorCode::ActionNotSupported));
}

#[test]
fn propose_needs_always_success_lock() {
    let config = test_config();
    let id_a = vec![0u8; 20];
    let id_b = vec![255u8; 20];
    let a1 = vec![10u8; 20];
    let a2 = vec![20u8; 20];
    let mut tx = propose_tx(vec![
        item(&id_a, 0, &a1),
        item(&a1, 2, &a2),
        item(&a2, 2, &id_b),
    ]);
    tx.outputs[0].lock = script(30, &[]);
    assert_eq!(validate_proposal(&tx, &config), Err(ErrorCode::CellMustUseAlwaysSuccessLock));
}

#[test]
fn propose_missing_related_cell() {
    let config = test_config();
    let id_a = vec![0u8; 20];
    let id_b = vec![255u8; 20];
    let a1 = vec![10u8; 20];
    let a2 = vec![20u8; 20];
    let mut tx = propose_tx(vec![
        item(&id_a, 0, &a1),
        item(&a1, 2, &a2),
        item(&a2, 2, &id_b),
    ]);
    tx.cell_deps.pop();
    assert_eq!(validate_proposal(&tx, &config), Err(ErrorCode::ProposalSliceRelatedCellMissing));
}

// Pass-through: an input IncomeCell's single record survives into the
// output on top of the split.
#[test]
fn confirm_proposal_income_passthrough() {
    let mut knobs = default_knobs();
    knobs.input_income = Some((script(36, b"creator"), 500));
    let records = vec![
        IncomeRecord { belong_to: script(33, b"inviter"), capacity: 10_000 },
        IncomeRecord { belong_to: script(34, b"channel"), capacity: 8_000 },
        IncomeRecord { belong_to: script(30, b"proposer"), capacity: 4_000 },
        IncomeRecord { belong_to: script(11, &[]), capacity: 76_000 },
        IncomeRecord { belong_to: script(36, b"creator"), capacity: 500 },
    ];
    let (tx, config) = confirm_tx_with(knobs, records, 98_500, 20_000_000_000);
    assert_eq!(validate_proposal(&tx, &config), Ok(()));
}

fn fee_records() -> Vec<IncomeRecord> {
    vec![
        IncomeRecord { belong_to: script(33, b"inviter"), capacity: 10_000 },
        IncomeRecord { belong_to: script(34, b"channel"), capacity: 8_000 },
        IncomeRecord { belong_to: script(30, b"proposer"), capacity: 4_000 },
        IncomeRecord { belong_to: script(11, &[]), capacity: 76_000 },
    ]
}

#[test]
fn confirm_proposal_witness_status_not_normal() {
    let mut knobs = default_knobs();
    knobs.out_status = 1;
    let (tx, config) = confirm_tx_with(knobs, fee_records(), 98_000, 20_000_000_000);
    assert_eq!(
        validate_proposal(&tx, &config),
        Err(ErrorCode::ProposalConfirmWitnessManagerError)
    );
}

#[test]
fn confirm_proposal_witness_wrong_id() {
    let mut knobs = default_knobs();
    knobs.out_witness_id = Some(vec![1u8; 20]);
    let (tx, config) = confirm_tx_with(knobs, fee_records(), 98_000, 20_000_000_000);
    assert_eq!(validate_proposal(&tx, &config), Err(ErrorCode::ProposalConfirmWitnessIDError));
}

#[test]
fn confirm_proposal_witness_wrong_account() {
    let mut knobs = default_knobs();
    knobs.out_witness_account = b"tesu".to_vec();
    let (tx, config) = confirm_tx_with(knobs, fee_records(), 98_000, 20_000_000_000);
    assert_eq!(
        validate_proposal(&tx, &config),
        Err(ErrorCode::ProposalConfirmWitnessAccountError)
    );
}

#[test]
fn confirm_proposal_surviving_capacity_must_hold() {
    let (mut tx, config) = confirm_tx(fee_records(), 98_000, 20_000_000_000);
    tx.outputs[0].capacity += 1;
    assert_eq!(validate_proposal(&tx, &config), Err(ErrorCode::CellCapacityMustBeConsistent));
}

#[test]
fn confirm_proposal_surviving_lock_must_hold() {
    let (mut tx, config) = confirm_tx(fee_records(), 98_000, 20_000_000_000);
    tx.outputs[0].lock = script(47, b"other");
    assert_eq!(validate_proposal(&tx, &config), Err(ErrorCode::CellLockCanNotBeModified));
}

#[test]
fn confirm_proposal_surviving_account_must_hold() {
    let (mut tx, config) = confirm_tx(fee_records(), 98_000, 20_000_000_000);
    // One octet of the stored account name of the surviving cell.
    tx.outputs[0].data[80] ^= 1;
    assert_eq!(validate_proposal(&tx, &config), Err(ErrorCode::ProposalFieldCanNotBeModified));
}

#[test]
fn confirm_proposal_surviving_next_must_follow_item() {
    let (mut tx, config) = confirm_tx(fee_records(), 98_000, 20_000_000_000);
    // The surviving cell's next no longer names the spliced account.
    tx.outputs[0].data[52] ^= 1;
    assert_eq!(
        validate_proposal(&tx, &config),
        Err(ErrorCode::ProposalConfirmNewAccountCellDataError)
    );
}

#[test]
fn confirm_proposal_new_cell_capacity_exact() {
    let (mut tx, config) = confirm_tx(fee_records(), 98_000, 20_000_000_000);
    tx.outputs[1].capacity += 1;
    assert_eq!(
        validate_proposal(&tx, &config),
        Err(ErrorCode::ProposalConfirmNewAccountCellCapacityError)
    );
}

#[test]
fn confirm_proposal_new_cell_needs_owner_lock() {
    let (mut tx, config) = confirm_tx(fee_records(), 98_000, 20_000_000_000);
    tx.outputs[1].lock.args = b"other".to_vec();
    assert_eq!(
        validate_proposal(&tx, &config),
        Err(ErrorCode::ProposalConfirmAccountLockArgsIsInvalid)
    );
}

#[test]
fn confirm_proposal_pre_account_below_storage() {
    let (mut tx, config) = confirm_tx(fee_records(), 98_000, 20_000_000_000);
    // The consumed PreAccountCell cannot even cover the storage capacity.
    tx.inputs[2].capacity = 1;
    assert_eq!(validate_proposal(&tx, &config), Err(ErrorCode::InvalidCellData));
}

#[test]
fn confirm_proposal_two_output_income_cells() {
    let (mut tx, config) = confirm_tx(fee_records(), 98_000, 20_000_000_000);
    let extra = Cell {
        capacity: tx.outputs[2].capacity,
        lock: script(35, &[]),
        type_id: Some(tid(5)),
        data: tx.outputs[2].data.clone(),
        witness: tx.outputs[2].witness.clone(),
    };
    tx.outputs.push(extra);
    assert_eq!(validate_proposal(&tx, &config), Err(ErrorCode::ProposalFoundInvalidTransaction));
}

#[test]
fn propose_head_must_be_existing_account() {
    let config = test_config();
    let id_a = vec![0u8; 20];
    let id_b = vec![255u8; 20];
    let a1 = vec![10u8; 20];
    let a2 = vec![20u8; 20];
    // A Proposed head passes the structural walk but not a first proposal's
    // binding; its relevant cell is still a PreAccountCell.
    let mut tx = propose_tx(vec![
        item(&id_a, 1, &a1),
        item(&a1, 2, &a2),
        item(&a2, 2, &id_b),
    ]);
    let mut pre_a = vec![0u8; 32];
    pre_a.extend_from_slice(&id_a);
    tx.cell_deps[0] = plain_cell(100, script(32, &[]), Some(tid(4)), pre_a);
    assert_eq!(
        validate_proposal(&tx, &config),
        Err(ErrorCode::ProposalSliceMustStartWithAccountCell)
    );
}

#[test]
fn propose_related_cell_wrong_id() {
    let config = test_config();
    let id_a = vec![0u8; 20];
    let id_b = vec![255u8; 20];
    let a1 = vec![10u8; 20];
    let a2 = vec![20u8; 20];
    let mut tx = propose_tx(vec![
        item(&id_a, 0, &a1),
        item(&a1, 2, &a2),
        item(&a2, 2, &id_b),
    ]);
    let n = tx.cell_deps[1].data.len();
    tx.cell_deps[1].data[n - 1] ^= 1;
    assert_eq!(validate_proposal(&tx, &config), Err(ErrorCode::ProposalCellAccountIdError));
}

#[test]
fn propose_related_cell_wrong_type() {
    let config = test_config();
    let id_a = vec![0u8; 20];
    let id_b = vec![255u8; 20];
    let a1 = vec![10u8; 20];
    let a2 = vec![20u8; 20];
    let mut tx = propose_tx(vec![
        item(&id_a, 0, &a1),
        item(&a1, 2, &a2),
        item(&a2, 2, &id_b),
    ]);
    tx.cell_deps.swap(0, 1);
    assert_eq!(validate_proposal(&tx, &config), Err(ErrorCode::ProposalCellTypeError));
}

#[test]
fn propose_slice_must_end_on_tracked_next() {
    let config = test_config();
    let id_a = vec![0u8; 20];
    let id_b = vec![255u8; 20];
    let a1 = vec![10u8; 20];
    let a2 = vec![20u8; 20];
    let mut tx = propose_tx(vec![
        item(&id_a, 0, &a1),
        item(&a1, 2, &a2),
        item(&a2, 2, &id_b),
    ]);
    // The existing AccountCell's stored next is not the committed B.
    tx.cell_deps[0].data[52] ^= 1;
    assert_eq!(validate_proposal(&tx, &config), Err(ErrorCode::ProposalSliceNotEndCorrectly));
}

// Fallback: a Proposed head the parent never promised takes its tracked
// next from the cell's own data.
#[test]
fn extend_proposal_head_not_in_parent() {
    let config = test_config();
    let id_a = vec![0u8; 20];
    let id_b = vec![255u8; 20];
    let x = vec![10u8; 20];
    let y = vec![20u8; 20];
    let parent = ProposalCellData {
        proposer_lock: script(30, b"parent"),
        created_at_height: 90,
        slices: vec![vec![item(&id_a, 0, &id_b), item(&id_b, 2, &id_b)]],
    };
    let parent_entity = encode_proposal_data(&parent);
    let parent_cell = witness_cell(
        10_000_000_000,
        script(9, &[]),
        Some(tid(2)),
        anchored_data(&parent_entity, &[]),
        &parent_entity,
    );
    let child = ProposalCellData {
        proposer_lock: script(30, b"child"),
        created_at_height: 100,
        slices: vec![vec![item(&x, 1, &y), item(&y, 2, &id_b)]],
    };
    let child_entity = encode_proposal_data(&child);
    let child_cell = witness_cell(
        10_000_000_000,
        script(9, &[]),
        Some(tid(2)),
        anchored_data(&child_entity, &[]),
        &child_entity,
    );
    // The head's PreAccountCell carries B at the next offset of its data.
    let mut pre_x = vec![0u8; 32];
    pre_x.extend_from_slice(&x);
    pre_x.extend_from_slice(&id_b);
    let pre_cell_x = plain_cell(100, script(32, &[]), Some(tid(4)), pre_x);
    let mut pre_y = vec![0u8; 32];
    pre_y.extend_from_slice(&y);
    let pre_cell_y = plain_cell(100, script(32, &[]), Some(tid(4)), pre_y);
    let tx = Transaction {
        inputs: vec![],
        outputs: vec![child_cell],
        cell_deps: vec![parent_cell, pre_cell_x, pre_cell_y],
        action: b"extend_proposal".to_vec(),
    };
    assert_eq!(validate_proposal(&tx, &config), Ok(()));
}

#[test]
fn confirm_proposal_extra_income_record() {
    let mut records = fee_records();
    records.push(IncomeRecord { belong_to: script(48, b"stranger"), capacity: 7 });
    let (tx, config) = confirm_tx(records, 98_007, 20_000_000_000);
    assert_eq!(validate_proposal(&tx, &config), Err(ErrorCode::ProposalConfirmIncomeError));
}
