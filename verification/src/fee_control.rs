//! Migration of the fee settings from two separate values to one record.

use crate::primitives::Balance;
use crate::weight::{RuntimeDbWeight, Weight};
use vstd::prelude::*;

verus! {

/// An unsigned number of 256 bits, held as its two halves.
#[derive(Clone, Copy, Debug, PartialEq, Eq)]
pub struct U256 {
    pub hi: u128,
    pub lo: u128,
}

impl U256 {
    /// The number `v`.
    pub fn from_u128(v: u128) -> (r: U256)
        ensures
            r == (U256 { hi: 0, lo: v }),
    {
        U256 { hi: 0, lo: v }
    }
}

/// A share in parts per billion.
#[derive(Clone, Copy, Debug, PartialEq, Eq)]
pub struct Perbill {
    pub parts: u32,
}

impl Perbill {
    /// The share of `parts` in a billion, or the whole where `parts` is more.
    pub fn from_parts(parts: u32) -> (r: Perbill)
        ensures
            r.parts == if parts > 1_000_000_000 {
                1_000_000_000
            } else {
                parts
            },
    {
        if parts > 1_000_000_000 {
            Perbill { parts: 1_000_000_000 }
        } else {
            Perbill { parts }
        }
    }
}

/// The fee settings as one record.
#[derive(Clone, Copy, Debug, PartialEq, Eq)]
pub struct FeeConfig {
    pub evm_base_fee_per_gas: U256,
    pub weight_multiplier: Perbill,
    pub length_multiplier: Balance,
}

/// The fee settings that hold where none were stored.
#[derive(Clone, Copy, Debug, PartialEq, Eq)]
pub struct DefaultValues {
    pub evm_base_fee_per_gas: U256,
    pub weight_multiplier: Perbill,
    pub length_multiplier: Balance,
}

/// What is stored of the fee settings: the version of the layout, the two
/// values of the old layout and the record of the new one.
#[derive(Clone, Copy, Debug, PartialEq, Eq)]
pub struct FeeControlStorage {
    pub on_chain_storage_version: u16,
    pub evm_base_fee_per_gas: Option<U256>,
    pub extrinsic_weight_to_fee: Option<Perbill>,
    pub data: Option<FeeConfig>,
}

impl FeeControlStorage {
    /// The storage after the migration to the record.
    pub open spec fn migrated(self, defaults: DefaultValues) -> FeeControlStorage {
        FeeControlStorage {
            evm_base_fee_per_gas: None,
            extrinsic_weight_to_fee: None,
            data: Some(
                FeeConfig {
                    evm_base_fee_per_gas: match self.evm_base_fee_per_gas {
                        Some(fee) => fee,
                        None => defaults.evm_base_fee_per_gas,
                    },
                    weight_multiplier: match self.extrinsic_weight_to_fee {
                        Some(multiplier) => multiplier,
                        None => defaults.weight_multiplier,
                    },
                    length_multiplier: defaults.length_multiplier,
                },
            ),
            ..self
        }
    }

    /// Whether the stored layout is older than the record.
    pub open spec fn needs_upgrade(self) -> bool {
        self.on_chain_storage_version == 0 || self.on_chain_storage_version == 1
    }

    /// The storage after the upgrade: migrated and marked as version 2 where
    /// the layout was older, else as it was.
    pub open spec fn upgraded(self, defaults: DefaultValues) -> FeeControlStorage {
        if self.needs_upgrade() {
            FeeControlStorage { on_chain_storage_version: 2, ..self.migrated(defaults) }
        } else {
            self
        }
    }

    /// Storage of the old layout with nothing stored.
    pub fn new() -> (r: FeeControlStorage)
        ensures
            r == (FeeControlStorage {
                on_chain_storage_version: 0,
                evm_base_fee_per_gas: None,
                extrinsic_weight_to_fee: None,
                data: None,
            }),
    {
        FeeControlStorage {
            on_chain_storage_version: 0,
            evm_base_fee_per_gas: None,
            extrinsic_weight_to_fee: None,
            data: None,
        }
    }
}

/// Moves the two values of the old layout into the record, each replaced by
/// its default where it was not stored, and removes them. Costs three writes.
pub fn migrate(storage: &mut FeeControlStorage, defaults: &DefaultValues, db_weight: RuntimeDbWeight) -> (r:
    Weight)
    ensures
        *final(storage) == old(storage).migrated(*defaults),
        r == db_weight.spec_reads_writes(0, 3),
{
    let evm = storage.evm_base_fee_per_gas;
    let weight = storage.extrinsic_weight_to_fee;
    storage.evm_base_fee_per_gas = None;
    storage.extrinsic_weight_to_fee = None;
    let value = FeeConfig {
        evm_base_fee_per_gas: match evm {
            Some(fee) => fee,
            None => defaults.evm_base_fee_per_gas,
        },
        weight_multiplier: match weight {
            Some(multiplier) => multiplier,
            None => defaults.weight_multiplier,
        },
        length_multiplier: defaults.length_multiplier,
    };
    storage.data = Some(value);
    db_weight.reads_writes(0, 3)
}

/// The check before the upgrade: the stored layout is version 1, or the
/// upgrade has been done already.
pub fn pre_upgrade(storage: &FeeControlStorage) -> (r: Result<(), &'static str>)
    requires
        storage.on_chain_storage_version == 1 || storage.on_chain_storage_version == 2,
    ensures
        r == Ok::<(), &'static str>(()),
{
    let onchain = storage.on_chain_storage_version;
    if onchain == 2 {
        return Ok(());
    }
    Ok(())
}

/// The check after the upgrade: the layout is version 2, the old values are
/// gone and the record is there.
pub fn post_upgrade(storage: &FeeControlStorage) -> (r: Result<(), &'static str>)
    requires
        storage.on_chain_storage_version == 2,
        storage.evm_base_fee_per_gas is None,
        storage.extrinsic_weight_to_fee is None,
        storage.data is Some,
    ensures
        r == Ok::<(), &'static str>(()),
{
    Ok(())
}

/// The upgrade of the fee settings to version 2.
#[derive(Clone, Copy, Debug, PartialEq, Eq)]
pub struct Upgrade;

impl Upgrade {
    /// The check before the upgrade.
    pub fn pre_upgrade(storage: &FeeControlStorage) -> (r: Result<(), &'static str>)
        requires
            storage.on_chain_storage_version == 1 || storage.on_chain_storage_version == 2,
        ensures
            r == Ok::<(), &'static str>(()),
    {
        self::pre_upgrade(storage)
    }

    /// Runs the migration where the stored layout is version 0 or 1, and
    /// marks the storage as version 2; does nothing to a later layout.
    /// Costs two reads, and the migration's three writes where it runs.
    pub fn on_runtime_upgrade(
        storage: &mut FeeControlStorage,
        defaults: &DefaultValues,
        db_weight: RuntimeDbWeight,
    ) -> (r: Weight)
        ensures
            *final(storage) == old(storage).upgraded(*defaults),
            r == if old(storage).needs_upgrade() {
                db_weight.spec_reads_writes(2, 0).spec_saturating_add(
                    db_weight.spec_reads_writes(0, 3),
                )
            } else {
                db_weight.spec_reads_writes(2, 0)
            },
    {
        let onchain = storage.on_chain_storage_version;
        let mut weight = db_weight.reads_writes(2, 0);
        if onchain == 0 || onchain == 1 {
            weight = weight.saturating_add(migrate(storage, defaults, db_weight));
            storage.on_chain_storage_version = 2;
        }
        weight
    }

    /// The check after the upgrade.
    pub fn post_upgrade(storage: &FeeControlStorage) -> (r: Result<(), &'static str>)
        requires
            storage.on_chain_storage_version == 2,
            storage.evm_base_fee_per_gas is None,
            storage.extrinsic_weight_to_fee is None,
            storage.data is Some,
        ensures
            r == Ok::<(), &'static str>(()),
    {
        self::post_upgrade(storage)
    }
}

/// After the upgrade of a layout of version 0, 1 or 2 that kept to its
/// version, the check after the upgrade is met.
pub proof fn law_upgrade_reaches_version_two(storage: FeeControlStorage, defaults: DefaultValues)
    requires
        storage.on_chain_storage_version <= 2,
        storage.on_chain_storage_version == 2 ==> storage.evm_base_fee_per_gas is None
            && storage.extrinsic_weight_to_fee is None && storage.data is Some,
    ensures
        storage.upgraded(defaults).on_chain_storage_version == 2,
        storage.upgraded(defaults).evm_base_fee_per_gas is None,
        storage.upgraded(defaults).extrinsic_weight_to_fee is None,
        storage.upgraded(defaults).data is Some,
{
}

} // verus!
