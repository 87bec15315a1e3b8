use xrpl_bridge::{
    post_upgrade, pre_upgrade, DefaultValues, FeeConfig, FeeControlStorage, Perbill,
    RuntimeDbWeight, Upgrade, U256,
};

fn defaults() -> DefaultValues {
    DefaultValues {
        evm_base_fee_per_gas: U256::from_u128(15_000_000_000_000),
        weight_multiplier: Perbill::from_parts(125),
        length_multiplier: 350,
    }
}

fn db_weight() -> RuntimeDbWeight {
    RuntimeDbWeight::rocks_db()
}

fn new_test_ext() -> FeeControlStorage {
    FeeControlStorage::new()
}

#[test]
fn storage_version_is_incremented() {
    let mut storage = new_test_ext();
    // Preparation
    storage.on_chain_storage_version = 1;

    // Action
    Upgrade::on_runtime_upgrade(&mut storage, &defaults(), db_weight());

    // Check
    assert_eq!(storage.on_chain_storage_version, 2);
}

#[test]
fn storage_is_removed() {
    let mut storage = new_test_ext();
    // Preparation
    storage.on_chain_storage_version = 1;
    // Insert storage
    storage.evm_base_fee_per_gas = Some(U256::from_u128(10u128));
    storage.extrinsic_weight_to_fee = Some(Perbill::from_parts(100));
    assert_eq!(storage.evm_base_fee_per_gas.is_some(), true);
    assert_eq!(storage.extrinsic_weight_to_fee.is_some(), true);

    // Action
    Upgrade::on_runtime_upgrade(&mut storage, &defaults(), db_weight());

    // Check
    assert_eq!(storage.evm_base_fee_per_gas.is_some(), false);
    assert_eq!(storage.extrinsic_weight_to_fee.is_some(), false);
}

#[test]
fn new_storage_is_created_with_defaults() {
    let mut storage = new_test_ext();
    // Preparation
    storage.on_chain_storage_version = 1;
    assert_eq!(storage.evm_base_fee_per_gas.is_some(), false);
    assert_eq!(storage.extrinsic_weight_to_fee.is_some(), false);

    // Action
    Upgrade::on_runtime_upgrade(&mut storage, &defaults(), db_weight());

    // Check
    let expected_value = FeeConfig {
        evm_base_fee_per_gas: defaults().evm_base_fee_per_gas,
        weight_multiplier: defaults().weight_multiplier,
        length_multiplier: defaults().length_multiplier,
    };

    let actual_value = storage.data.ok_or(());
    assert_eq!(actual_value, Ok(expected_value));
}

#[test]
fn new_storage_is_created_with_actual_storage() {
    let mut storage = new_test_ext();
    // Preparation
    storage.on_chain_storage_version = 1;
    // Insert storage
    let evm_base_fee_per_gas = U256::from_u128(321u128);
    let weight_multiplier = Perbill::from_parts(555);
    storage.evm_base_fee_per_gas = Some(evm_base_fee_per_gas);
    storage.extrinsic_weight_to_fee = Some(weight_multiplier);

    // Action
    Upgrade::on_runtime_upgrade(&mut storage, &defaults(), db_weight());

    // Check
    let expected_value = FeeConfig {
        evm_base_fee_per_gas,
        weight_multiplier,
        length_multiplier: defaults().length_multiplier,
    };

    let actual_value = storage.data.ok_or(());
    assert_eq!(actual_value, Ok(expected_value));
}

#[test]
fn upgrade_from_version_zero_migrates_too() {
    let mut storage = new_test_ext();
    let weight = Upgrade::on_runtime_upgrade(&mut storage, &defaults(), db_weight());
    assert_eq!(storage.on_chain_storage_version, 2);
    assert!(storage.data.is_some());
    // two reads, then the three writes of the migration
    assert_eq!(weight.ref_time(), 2 * 25_000_000 + 3 * 100_000_000);
}

#[test]
fn upgrade_leaves_a_later_layout_alone() {
    let mut storage = new_test_ext();
    storage.on_chain_storage_version = 2;
    storage.evm_base_fee_per_gas = Some(U256::from_u128(7));
    let before = storage;
    let weight = Upgrade::on_runtime_upgrade(&mut storage, &defaults(), db_weight());
    assert_eq!(storage, before);
    assert_eq!(weight.ref_time(), 2 * 25_000_000);
}

#[test]
fn upgrade_checks_pass_around_the_upgrade() {
    let mut storage = new_test_ext();
    storage.on_chain_storage_version = 1;
    assert_eq!(pre_upgrade(&storage), Ok(()));
    assert_eq!(Upgrade::pre_upgrade(&storage), Ok(()));
    Upgrade::on_runtime_upgrade(&mut storage, &defaults(), db_weight());
    assert_eq!(pre_upgrade(&storage), Ok(()));
    assert_eq!(post_upgrade(&storage), Ok(()));
    assert_eq!(Upgrade::post_upgrade(&storage), Ok(()));
}

#[test]
fn perbill_stops_at_one_whole() {
    assert_eq!(Perbill::from_parts(555).parts, 555);
    assert_eq!(Perbill::from_parts(1_000_000_001).parts, 1_000_000_000);
    assert_eq!(Perbill::from_parts(u32::MAX).parts, 1_000_000_000);
}
