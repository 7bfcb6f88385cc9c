use das_validators::byteseq::{bytes_eq, bytes_lt};
use das_validators::codec::{
    encode_account_data, encode_income_data, encode_pre_account_data, encode_proposal_data,
    parse_account_data, parse_income_data, parse_pre_account_data, parse_proposal_data,
};
use das_validators::entity::{
    AccountCellData, IncomeCellData, IncomeRecord, PreAccountCellData, ProposalCellData,
    ProposalItem,
};
use das_validators::error::ErrorCode;
use das_validators::hash::blake2b_256;
use das_validators::model::{Cell, Config, Script, TypeIdTable};
use das_validators::profit::ProfitMap;
use das_validators::proposal::{find_item_contains_account_id, verify_cell_type_id, verify_slices};
use das_validators::witness::verify_and_get;

fn tid(b: u8) -> Vec<u8> {
    vec![b; 32]
}

fn script(code: u8, args: &[u8]) -> Script {
    Script { code_hash: vec![code; 32], hash_type: 0, args: args.to_vec() }
}

fn test_config() -> Config {
    Config {
        status: 1,
        type_id_table: TypeIdTable {
            apply_register_cell: tid(1),
            proposal_cell: tid(2),
            account_cell: tid(3),
            pre_account_cell: tid(4),
            income_cell: tid(5),
            height_cell: tid(6),
            time_cell: tid(7),
        },
        proposal_max_account_affect: 50,
        proposal_max_pre_account_contain: 50,
        proposal_min_recycle_interval: 10,
        profit_rate_inviter: 1000,
        profit_rate_channel: 800,
        profit_rate_proposal_create: 400,
        profit_rate_proposal_confirm: 200,
        basic_capacity: 2_000_000_000,
        always_success_code_hash: vec![9; 32],
        das_lock: script(10, &[]),
        das_wallet_lock: script(11, &[]),
    }
}

fn id20(b: u8) -> Vec<u8> {
    vec![b; 20]
}

fn item(id: &[u8], item_type: u8, next: &[u8]) -> ProposalItem {
    ProposalItem { account_id: id.to_vec(), item_type, next: next.to_vec() }
}

#[test]
fn slices_empty_list_refused() {
    let config = test_config();
    let slices: Vec<Vec<ProposalItem>> = vec![];
    assert_eq!(verify_slices(&slices, &config), Err(ErrorCode::ProposalSlicesCanNotBeEmpty));
}

#[test]
fn slices_single_item_refused() {
    let config = test_config();
    let slices = vec![vec![item(&id20(1), 0, &id20(9))]];
    assert_eq!(
        verify_slices(&slices, &config),
        Err(ErrorCode::ProposalSliceMustContainMoreThanOneElement)
    );
}

#[test]
fn slices_new_head_refused() {
    let config = test_config();
    let slices = vec![vec![item(&id20(1), 2, &id20(2)), item(&id20(2), 2, &id20(9))]];
    assert_eq!(verify_slices(&slices, &config), Err(ErrorCode::ProposalCellTypeError));
}

#[test]
fn slices_non_new_tail_refused() {
    let config = test_config();
    let slices = vec![vec![item(&id20(1), 0, &id20(2)), item(&id20(2), 0, &id20(9))]];
    assert_eq!(verify_slices(&slices, &config), Err(ErrorCode::ProposalCellTypeError));
}

#[test]
fn slices_duplicate_inside_slice_refused() {
    let config = test_config();
    // The second item reuses the head's id.
    let slices = vec![vec![item(&id20(1), 0, &id20(1)), item(&id20(1), 2, &id20(9))]];
    assert_eq!(
        verify_slices(&slices, &config),
        Err(ErrorCode::ProposalSliceItemMustBeUniqueAccount)
    );
}

#[test]
fn slices_duplicate_across_slices_refused() {
    let config = test_config();
    let slices = vec![
        vec![item(&id20(1), 0, &id20(2)), item(&id20(2), 2, &id20(9))],
        vec![item(&id20(4), 0, &id20(2)), item(&id20(2), 2, &id20(9))],
    ];
    assert_eq!(
        verify_slices(&slices, &config),
        Err(ErrorCode::ProposalSliceItemMustBeUniqueAccount)
    );
}

#[test]
fn slices_discontinuity_refused() {
    let config = test_config();
    let slices = vec![vec![item(&id20(1), 0, &id20(3)), item(&id20(2), 2, &id20(9))]];
    assert_eq!(verify_slices(&slices, &config), Err(ErrorCode::ProposalSliceIsDiscontinuity));
}

#[test]
fn slices_descending_refused() {
    let config = test_config();
    let slices = vec![vec![item(&id20(5), 0, &id20(2)), item(&id20(2), 2, &id20(9))]];
    assert_eq!(verify_slices(&slices, &config), Err(ErrorCode::ProposalSliceIsNotSorted));
}

#[test]
fn slices_count_returned() {
    let config = test_config();
    let slices = vec![
        vec![item(&id20(1), 0, &id20(2)), item(&id20(2), 2, &id20(8))],
        vec![item(&id20(3), 0, &id20(4)), item(&id20(4), 2, &id20(9))],
    ];
    assert_eq!(verify_slices(&slices, &config), Ok(4));
}

#[test]
fn slices_account_cap_enforced() {
    let mut config = test_config();
    config.proposal_max_account_affect = 1;
    // One slice means one Exist head: the strict bound refuses it.
    let slices = vec![vec![item(&id20(1), 0, &id20(2)), item(&id20(2), 2, &id20(9))]];
    assert_eq!(verify_slices(&slices, &config), Err(ErrorCode::ProposalFoundInvalidTransaction));
}

#[test]
fn codec_proposal_round_trip() {
    let pdata = ProposalCellData {
        proposer_lock: script(30, b"args-bytes"),
        created_at_height: 123_456_789,
        slices: vec![
            vec![item(&id20(1), 0, &id20(2)), item(&id20(2), 2, &id20(9))],
            vec![item(&id20(4), 0, &id20(5)), item(&id20(5), 2, &id20(8))],
        ],
    };
    let bytes = encode_proposal_data(&pdata);
    let parsed = parse_proposal_data(&bytes).unwrap();
    assert_eq!(parsed.created_at_height, 123_456_789);
    assert_eq!(parsed.proposer_lock.code_hash, vec![30u8; 32]);
    assert_eq!(parsed.proposer_lock.args, b"args-bytes".to_vec());
    assert_eq!(parsed.slices.len(), 2);
    assert_eq!(parsed.slices[0][0].account_id, id20(1));
    assert_eq!(parsed.slices[0][1].item_type, 2);
    assert_eq!(parsed.slices[1][1].next, id20(8));
}

#[test]
fn codec_proposal_truncated_refused() {
    let pdata = ProposalCellData {
        proposer_lock: script(30, &[]),
        created_at_height: 1,
        slices: vec![],
    };
    let mut bytes = encode_proposal_data(&pdata);
    bytes.pop();
    assert!(matches!(parse_proposal_data(&bytes), Err(ErrorCode::WitnessEntityDecodingError)));
}

#[test]
fn codec_proposal_trailing_bytes_refused() {
    let pdata = ProposalCellData {
        proposer_lock: script(30, &[]),
        created_at_height: 1,
        slices: vec![],
    };
    let mut bytes = encode_proposal_data(&pdata);
    bytes.push(0);
    assert!(matches!(parse_proposal_data(&bytes), Err(ErrorCode::WitnessEntityDecodingError)));
}

#[test]
fn codec_account_round_trip() {
    let w = AccountCellData { id: id20(7), status: 0, account: b"alice".to_vec() };
    let bytes = encode_account_data(&w);
    let parsed = parse_account_data(&bytes).unwrap();
    assert_eq!(parsed.id, id20(7));
    assert_eq!(parsed.status, 0);
    assert_eq!(parsed.account, b"alice".to_vec());
}

#[test]
fn codec_pre_account_round_trip() {
    let w = PreAccountCellData {
        account: b"bob".to_vec(),
        price: 5_000_000,
        quote: 1_000,
        invited_discount: 500,
        inviter_lock: Some(script(33, b"inv")),
        channel_lock: None,
        owner_lock_args: b"owner-args".to_vec(),
    };
    let bytes = encode_pre_account_data(&w);
    let parsed = parse_pre_account_data(&bytes).unwrap();
    assert_eq!(parsed.account, b"bob".to_vec());
    assert_eq!(parsed.price, 5_000_000);
    assert_eq!(parsed.quote, 1_000);
    assert_eq!(parsed.invited_discount, 500);
    assert!(parsed.channel_lock.is_none());
    assert_eq!(parsed.inviter_lock.unwrap().args, b"inv".to_vec());
    assert_eq!(parsed.owner_lock_args, b"owner-args".to_vec());
}

#[test]
fn codec_income_round_trip() {
    let w = IncomeCellData {
        records: vec![
            IncomeRecord { belong_to: script(33, b"x"), capacity: 10 },
            IncomeRecord { belong_to: script(34, b"y"), capacity: 20 },
        ],
    };
    let bytes = encode_income_data(&w);
    let parsed = parse_income_data(&bytes).unwrap();
    assert_eq!(parsed.records.len(), 2);
    assert_eq!(parsed.records[0].capacity, 10);
    assert_eq!(parsed.records[1].belong_to.args, b"y".to_vec());
}

#[test]
fn profit_map_accumulates() {
    let mut m = ProfitMap::new();
    assert!(m.is_empty());
    let a = script(33, b"a");
    let b = script(34, b"b");
    assert!(m.add(&a, 10));
    assert!(m.add(&b, 5));
    assert!(m.add(&a, 7));
    assert_eq!(m.len(), 2);
    assert_eq!(m.get(&a), Some(17));
    assert_eq!(m.get(&b), Some(5));
    m.remove(&a);
    assert_eq!(m.get(&a), None);
    assert_eq!(m.len(), 1);
}

#[test]
fn profit_map_overflow_refused() {
    let mut m = ProfitMap::new();
    let a = script(33, b"a");
    assert!(m.add(&a, u64::MAX));
    assert!(!m.add(&a, 1));
    assert_eq!(m.get(&a), Some(u64::MAX));
}

#[test]
fn byte_order_is_big_endian_lexicographic() {
    assert!(bytes_lt(&[0, 1], &[0, 2]));
    assert!(bytes_lt(&[1, 255], &[2, 0]));
    assert!(!bytes_lt(&[2, 0], &[1, 255]));
    assert!(!bytes_lt(&[7, 7], &[7, 7]));
    assert!(bytes_eq(&[1, 2, 3], &[1, 2, 3]));
    assert!(!bytes_eq(&[1, 2, 3], &[1, 2, 4]));
}

// The digest is no identity: hashing a 32-octet blob never reproduces it,
// and the anchor check tells the two apart.
#[test]
fn digest_differs_from_input() {
    let input = [0u8; 32];
    let digest = blake2b_256(&input);
    assert_eq!(digest.len(), 32);
    assert_ne!(digest, input.to_vec());
    let again = blake2b_256(&input);
    assert_eq!(digest, again);
    assert_ne!(blake2b_256(&[1u8; 32]), digest);
}

#[test]
fn witness_anchor_accepts_and_refuses() {
    let entity = b"some entity bytes".to_vec();
    let mut w = b"das".to_vec();
    w.extend_from_slice(&1u32.to_le_bytes());
    w.extend_from_slice(&entity);
    let data = blake2b_256(&entity);
    let cell = Cell {
        capacity: 1,
        lock: script(30, &[]),
        type_id: None,
        data: data.clone(),
        witness: Some(w.clone()),
    };
    assert_eq!(verify_and_get(&cell), Ok(entity.clone()));
    // A flipped anchor octet breaks it.
    let mut bad_data = data.clone();
    bad_data[0] ^= 1;
    let cell2 = Cell {
        capacity: 1,
        lock: script(30, &[]),
        type_id: None,
        data: bad_data,
        witness: Some(w.clone()),
    };
    assert_eq!(verify_and_get(&cell2), Err(ErrorCode::WitnessEntityDecodingError));
    // A wrong magic breaks the envelope.
    let mut bad_w = w.clone();
    bad_w[0] = b'x';
    let cell3 = Cell {
        capacity: 1,
        lock: script(30, &[]),
        type_id: None,
        data,
        witness: Some(bad_w),
    };
    assert_eq!(verify_and_get(&cell3), Err(ErrorCode::WitnessEntityDecodingError));
}

#[test]
fn find_item_searches_all_slices() {
    let slices = vec![
        vec![item(&id20(1), 0, &id20(2)), item(&id20(2), 2, &id20(9))],
        vec![item(&id20(4), 0, &id20(5)), item(&id20(5), 2, &id20(8))],
    ];
    let found = find_item_contains_account_id(&slices, &id20(5)).unwrap();
    assert_eq!(found.account_id, id20(5));
    assert_eq!(found.next, id20(8));
    assert!(matches!(
        find_item_contains_account_id(&slices, &id20(6)),
        Err(ErrorCode::PrevProposalItemNotFound)
    ));
}

#[test]
fn cell_type_id_checks() {
    let with_type = Cell {
        capacity: 1,
        lock: script(30, &[]),
        type_id: Some(tid(3)),
        data: vec![],
        witness: None,
    };
    assert_eq!(verify_cell_type_id(&with_type, &tid(3)), Ok(()));
    assert_eq!(verify_cell_type_id(&with_type, &tid(4)), Err(ErrorCode::ProposalCellTypeError));
    let untyped = Cell {
        capacity: 1,
        lock: script(30, &[]),
        type_id: None,
        data: vec![],
        witness: None,
    };
    assert_eq!(
        verify_cell_type_id(&untyped, &tid(3)),
        Err(ErrorCode::ProposalSliceRelatedCellNotFound)
    );
}
