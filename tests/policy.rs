use linera_messaging::policy::{ExecutionError, ResourceControlPolicy, ResourceTracker};

fn priced() -> ResourceControlPolicy {
    ResourceControlPolicy {
        wasm_fuel_unit: 3,
        blob_read: 0,
        blob_published: 100,
        blob_byte_read: 0,
        blob_byte_published: 1,
        maximum_wasm_fuel_per_block: 30_000,
        maximum_bytecode_size: 1_000,
        maximum_blob_size: 800,
    }
}

#[test]
fn free_policy_charges_nothing() {
    let policy = ResourceControlPolicy::free();
    assert_eq!(policy.fuel_fee(1_000_000), Some(0));
    assert_eq!(policy.publish_fee(10, 20), Ok(0));
}

#[test]
fn fuel_fee_is_price_times_fuel() {
    assert_eq!(priced().fuel_fee(7), Some(21));
}

#[test]
fn fuel_fee_overflow_is_none() {
    let mut policy = priced();
    policy.wasm_fuel_unit = u128::MAX;
    assert_eq!(policy.fuel_fee(2), None);
}

#[test]
fn blob_fee_is_base_plus_bytes() {
    assert_eq!(priced().blob_fee(50), Some(150));
}

#[test]
fn publish_fee_counts_two_blobs() {
    assert_eq!(priced().publish_fee(300, 200), Ok(100 * 2 + 300 + 200));
}

#[test]
fn publish_fee_refuses_large_contract_or_service() {
    assert_eq!(priced().publish_fee(1_001, 0), Err(ExecutionError::BytecodeTooLarge));
    assert_eq!(priced().publish_fee(0, 1_001), Err(ExecutionError::BytecodeTooLarge));
    assert_eq!(priced().publish_fee(1_000, 1_000), Err(ExecutionError::BlobTooLarge));
}

#[test]
fn publish_fee_overflow() {
    let mut policy = priced();
    policy.blob_published = u128::MAX;
    assert_eq!(policy.publish_fee(1, 1), Err(ExecutionError::ArithmeticOverflow));
}

#[test]
fn charge_fuel_spends_grant_first() {
    let mut tracker = ResourceTracker { fuel: 0, balance: 1_000 };
    // 100 fuel at 3 each costs 300: 250 come from the grant, 50 from the balance.
    assert_eq!(tracker.charge_fuel(&priced(), 100, 250), Ok(0));
    assert_eq!(tracker, ResourceTracker { fuel: 100, balance: 950 });
    // A large grant pays everything and the rest is returned.
    assert_eq!(tracker.charge_fuel(&priced(), 10, 1_000), Ok(970));
    assert_eq!(tracker, ResourceTracker { fuel: 110, balance: 950 });
}

#[test]
fn charge_fuel_zero_keeps_balance() {
    let mut tracker = ResourceTracker { fuel: 5, balance: 10 };
    assert_eq!(tracker.charge_fuel(&priced(), 0, 7), Ok(7));
    assert_eq!(tracker, ResourceTracker { fuel: 5, balance: 10 });
}

#[test]
fn charge_fuel_over_block_limit() {
    let mut tracker = ResourceTracker { fuel: 29_000, balance: 1_000_000 };
    assert_eq!(tracker.charge_fuel(&priced(), 1_001, 0), Err(ExecutionError::MaximumFuelExceeded));
    assert_eq!(tracker, ResourceTracker { fuel: 29_000, balance: 1_000_000 });
    assert_eq!(tracker.charge_fuel(&priced(), 1_000, 0), Ok(0));
    assert_eq!(tracker.fuel, 30_000);
}

#[test]
fn charge_fuel_insufficient_balance() {
    let mut tracker = ResourceTracker { fuel: 0, balance: 20 };
    assert_eq!(tracker.charge_fuel(&priced(), 10, 5), Err(ExecutionError::InsufficientBalance));
    assert_eq!(tracker, ResourceTracker { fuel: 0, balance: 20 });
}

#[test]
fn blob_read_fee_is_base_plus_bytes() {
    let mut policy = priced();
    policy.blob_read = 7;
    policy.blob_byte_read = 2;
    assert_eq!(policy.blob_read_fee(10), Some(27));
    policy.blob_byte_read = u128::MAX;
    assert_eq!(policy.blob_read_fee(2), None);
}

#[test]
fn default_policy_is_free() {
    let policy = ResourceControlPolicy::default();
    assert_eq!(policy, ResourceControlPolicy::free());
    assert_eq!(policy.maximum_wasm_fuel_per_block, u64::MAX);
}
