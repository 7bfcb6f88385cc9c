use das_validators::error::ErrorCode;
use das_validators::fees::{
    calc_account_storage_capacity, calc_duration_from_paid, calc_profit_portion,
    verify_account_length_and_years, ONE_CKB, RELEASE_EPOCH, YEAR_SECONDS,
};
use das_validators::model::{Config, Script, TypeIdTable};

fn tid(b: u8) -> Vec<u8> {
    vec![b; 32]
}

fn script(code: u8, args: &[u8]) -> Script {
    Script { code_hash: vec![code; 32], hash_type: 0, args: args.to_vec() }
}

fn test_config() -> Config {
    Config {
        status: 1,
        type_id_table: TypeIdTable {
            apply_register_cell: tid(1),
            proposal_cell: tid(2),
            account_cell: tid(3),
            pre_account_cell: tid(4),
            income_cell: tid(5),
            height_cell: tid(6),
            time_cell: tid(7),
        },
        proposal_max_account_affect: 50,
        proposal_max_pre_account_contain: 50,
        proposal_min_recycle_interval: 10,
        profit_rate_inviter: 1000,
        profit_rate_channel: 800,
        profit_rate_proposal_create: 400,
        profit_rate_proposal_confirm: 200,
        basic_capacity: 2_000_000_000,
        always_success_code_hash: vec![9; 32],
        das_lock: script(10, &[]),
        das_wallet_lock: script(11, &[]),
    }
}

// The splits of the fee-math scenario: 100_000 at 1000/800/400/200 parts
// per 10_000.
#[test]
fn portions_of_the_fee_scenario() {
    assert_eq!(calc_profit_portion(100_000, 1000), 10_000);
    assert_eq!(calc_profit_portion(100_000, 800), 8_000);
    assert_eq!(calc_profit_portion(100_000, 400), 4_000);
    assert_eq!(calc_profit_portion(100_000, 200), 2_000);
    assert_eq!(100_000 - 10_000 - 8_000 - 4_000 - 2_000, 76_000);
}

#[test]
fn portion_truncates_toward_zero() {
    assert_eq!(calc_profit_portion(9_999, 1), 0);
    assert_eq!(calc_profit_portion(10_001, 1), 1);
    assert_eq!(calc_profit_portion(u64::MAX, 10_000), u64::MAX);
}

#[test]
fn storage_capacity_is_base_plus_name() {
    let config = test_config();
    assert_eq!(
        calc_account_storage_capacity(&config, 8),
        Some(2_000_000_000 + 8 * ONE_CKB)
    );
    assert_eq!(calc_account_storage_capacity(&config, 0), Some(2_000_000_000));
    assert_eq!(calc_account_storage_capacity(&config, u64::MAX), None);
}

#[test]
fn duration_exact_values() {
    // A yearly price of one year of seconds at a unit quote buys one second
    // per capacity unit paid.
    assert_eq!(calc_duration_from_paid(100_000, 31_536_000, ONE_CKB, 0), Some(100_000));
    // A halved discounted price buys twice the time.
    assert_eq!(calc_duration_from_paid(100_000, 31_536_000, ONE_CKB, 5_000), Some(200_000));
    // A zero quote has no price.
    assert_eq!(calc_duration_from_paid(100_000, 31_536_000, 0, 0), None);
    // A full discount has no price either.
    assert_eq!(calc_duration_from_paid(100_000, 31_536_000, ONE_CKB, 10_000), None);
}

#[test]
fn account_length_schedule() {
    // Before the epoch only ten octets and longer may register.
    assert_eq!(verify_account_length_and_years(10, 0), Ok(()));
    assert_eq!(
        verify_account_length_and_years(9, 0),
        Err(ErrorCode::AccountStillCanNotBeRegister)
    );
    // Two octets unlock with every passing year.
    assert_eq!(verify_account_length_and_years(8, RELEASE_EPOCH + YEAR_SECONDS), Ok(()));
    assert_eq!(
        verify_account_length_and_years(7, RELEASE_EPOCH + YEAR_SECONDS),
        Err(ErrorCode::AccountStillCanNotBeRegister)
    );
    // From the third year on, four octets suffice, and it stays there.
    assert_eq!(verify_account_length_and_years(4, RELEASE_EPOCH + 3 * YEAR_SECONDS), Ok(()));
    assert_eq!(
        verify_account_length_and_years(3, RELEASE_EPOCH + 30 * YEAR_SECONDS),
        Err(ErrorCode::AccountStillCanNotBeRegister)
    );
}
