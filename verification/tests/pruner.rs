use xrpl_bridge::{
    AccountId, Config, Error, Event, Pallet, RuntimeDbWeight, Weight, XrpTransaction, XrplTxData,
    XrplTxHash, H160, H512,
};

const R: u64 = 1;
const W: u64 = 10;
/// Ledger indices start past the default of the highest pruned one.
const B: u32 = 43_000_000;

fn config() -> Config {
    Config {
        xrp_asset_id: 2,
        challenge_period: 5,
        max_pruned_transactions_per_block: 5,
        max_delayed_payments_per_block: 1000,
        delayed_payment_block_limit: 1000,
        ticket_sequence_threshold: 66,
        xrp_transaction_limit: 10,
        xrpl_transaction_limit_per_ledger: 5,
        db_weight: RuntimeDbWeight { read: R, write: W },
    }
}

fn relayer() -> AccountId {
    H160::from_low_u64_be(1)
}

fn hash(n: u64) -> XrplTxHash {
    H512::from_low_u64_be(n)
}

fn settled(n: u64, ledger_index: u32) -> (XrplTxHash, u32, XrpTransaction, AccountId) {
    (
        hash(n),
        ledger_index,
        XrpTransaction {
            transaction_hash: hash(n),
            transaction: XrplTxData::Payment { amount: 1, address: H160::from_low_u64_be(9) },
            timestamp: 0,
        },
        relayer(),
    )
}

/// Highest settled B + 1000, window 100, pruned up to B + 10, five hashes
/// at B + 10 and one at B + 950.
fn engine() -> Pallet {
    let mut pallet = Pallet::new(config());
    let data = vec![
        settled(1, B + 10),
        settled(2, B + 10),
        settled(3, B + 10),
        settled(4, B + 10),
        settled(5, B + 10),
        settled(6, B + 950),
    ];
    pallet.reset_settled_xrpl_tx_data(B + 1000, 100, Some(B + 10), Some(data)).unwrap();
    pallet
}

#[test]
fn pruner_clears_three_of_five_and_later_the_rest() {
    let mut pallet = engine();
    // three reads and the watermark's write, a read and a write for the
    // index, three writes for three hashes, and not quite a fourth
    let budget = 4 * R + 5 * W + (W - 1);
    let used = pallet.clear_storages(Weight::from_ref_time(budget));
    assert_eq!(pallet.settled_xrp_transaction_details(B + 10), Some(vec![hash(4), hash(5)]));
    assert_eq!(pallet.highest_pruned_ledger_index, B + 10);
    for n in 1..=3 {
        assert_eq!(pallet.process_xrp_transaction_details(&hash(n)), None);
    }
    for n in 4..=6 {
        assert!(pallet.process_xrp_transaction_details(&hash(n)).is_some());
    }
    // the watermark did not move, so its write is not charged
    assert_eq!(used.ref_time(), 4 * R + 4 * W);

    let used = pallet.clear_storages(Weight::from_ref_time(1_000_000));
    assert_eq!(pallet.settled_xrp_transaction_details(B + 10), None);
    assert_eq!(pallet.process_xrp_transaction_details(&hash(4)), None);
    assert_eq!(pallet.process_xrp_transaction_details(&hash(5)), None);
    // one run walks five indices at most
    assert_eq!(pallet.highest_pruned_ledger_index, B + 15);
    assert_eq!(used.ref_time(), 3 * R + W + (R + W + 2 * W) + 4 * R);
    assert!(pallet.process_xrp_transaction_details(&hash(6)).is_some());
}

#[test]
fn pruner_without_budget_does_nothing() {
    let mut pallet = engine();
    for _ in 0..3 {
        let used = pallet.clear_storages(Weight::zero());
        assert_eq!(used, Weight::zero());
        assert_eq!(pallet.highest_pruned_ledger_index, B + 10);
        assert_eq!(
            pallet.settled_xrp_transaction_details(B + 10),
            Some(vec![hash(1), hash(2), hash(3), hash(4), hash(5)])
        );
        assert!(pallet.process_xrp_transaction_details(&hash(1)).is_some());
    }
}

#[test]
fn pruner_below_the_least_budget_does_nothing() {
    let mut pallet = engine();
    // three reads, and a read and three writes for a first index and hash
    let used = pallet.clear_storages(Weight::from_ref_time(4 * R + 3 * W - 1));
    assert_eq!(used, Weight::zero());
    assert_eq!(pallet.highest_pruned_ledger_index, B + 10);
    assert_eq!(
        pallet.settled_xrp_transaction_details(B + 10),
        Some(vec![hash(1), hash(2), hash(3), hash(4), hash(5)])
    );
}

#[test]
fn pruner_clears_one_hash_on_the_least_budget() {
    let mut pallet = engine();
    let used = pallet.clear_storages(Weight::from_ref_time(4 * R + 3 * W));
    // the watermark's write is not charged: the index is not passed
    assert_eq!(used.ref_time(), 4 * R + 2 * W);
    assert_eq!(pallet.highest_pruned_ledger_index, B + 10);
    assert_eq!(
        pallet.settled_xrp_transaction_details(B + 10),
        Some(vec![hash(2), hash(3), hash(4), hash(5)])
    );
    assert_eq!(pallet.process_xrp_transaction_details(&hash(1)), None);
    assert!(pallet.process_xrp_transaction_details(&hash(2)).is_some());
}

#[test]
fn pruner_passes_an_index_with_one_hash_on_the_least_budget() {
    let mut pallet = Pallet::new(config());
    pallet
        .reset_settled_xrpl_tx_data(B + 1000, 100, Some(B + 10), Some(vec![settled(1, B + 10)]))
        .unwrap();
    let used = pallet.clear_storages(Weight::from_ref_time(4 * R + 3 * W));
    assert_eq!(used.ref_time(), 4 * R + 3 * W);
    assert_eq!(pallet.highest_pruned_ledger_index, B + 11);
    assert_eq!(pallet.settled_xrp_transaction_details(B + 10), None);
    assert_eq!(pallet.process_xrp_transaction_details(&hash(1)), None);
}

#[test]
fn pruner_clears_exactly_what_the_budget_pays() {
    for k in 1..=5u64 {
        let mut pallet = engine();
        let budget = 4 * R + 2 * W + k * W;
        let used = pallet.clear_storages(Weight::from_ref_time(budget));
        let left: Vec<_> = ((k + 1)..=5).map(hash).collect();
        if k < 5 {
            assert_eq!(pallet.settled_xrp_transaction_details(B + 10), Some(left));
            assert_eq!(pallet.highest_pruned_ledger_index, B + 10);
            assert_eq!(used.ref_time(), budget - W);
        } else {
            assert_eq!(pallet.settled_xrp_transaction_details(B + 10), None);
            assert_eq!(pallet.highest_pruned_ledger_index, B + 11);
            assert_eq!(used.ref_time(), budget);
        }
    }
}

#[test]
fn pruner_stops_at_the_window() {
    let mut pallet = Pallet::new(config());
    let data =
        vec![settled(1, B + 898), settled(2, B + 899), settled(3, B + 900), settled(4, B + 1000)];
    pallet.reset_settled_xrpl_tx_data(B + 1000, 100, Some(B + 897), Some(data)).unwrap();
    let used = pallet.clear_storages(Weight::from_ref_time(1_000_000));
    assert_eq!(pallet.highest_pruned_ledger_index, B + 900);
    assert_eq!(pallet.settled_xrp_transaction_details(B + 898), None);
    assert_eq!(pallet.settled_xrp_transaction_details(B + 899), None);
    assert_eq!(pallet.settled_xrp_transaction_details(B + 900), Some(vec![hash(3)]));
    assert_eq!(pallet.settled_xrp_transaction_details(B + 1000), Some(vec![hash(4)]));
    assert!(pallet.process_xrp_transaction_details(&hash(3)).is_some());
    assert_eq!(pallet.process_xrp_transaction_details(&hash(2)), None);
    assert_eq!(used.ref_time(), 3 * R + W + R + 2 * (R + 2 * W));
    // nothing is left before the window
    let used = pallet.clear_storages(Weight::from_ref_time(1_000_000));
    assert_eq!(used.ref_time(), 3 * R);
    assert_eq!(pallet.highest_pruned_ledger_index, B + 900);
}

#[test]
fn pruner_does_nothing_at_the_start() {
    // the highest pruned index starts beyond the window
    let mut pallet = Pallet::new(config());
    let used = pallet.clear_storages(Weight::from_ref_time(1_000_000));
    assert_eq!(used.ref_time(), 3 * R);
    assert_eq!(pallet.highest_pruned_ledger_index, 42_900_000);
}

#[test]
fn pruner_never_spends_more_than_the_budget() {
    for budget in 0..200u64 {
        let mut pallet = engine();
        let used = pallet.clear_storages(Weight::from_ref_time(budget));
        assert!(used.ref_time() <= budget);
        assert!(pallet.highest_pruned_ledger_index >= B + 10);
        assert!(pallet.highest_pruned_ledger_index <= B + 15);
        assert_eq!(pallet.settled_xrp_transaction_details(B + 950), Some(vec![hash(6)]));
    }
}

#[test]
fn manual_prune_clears_one_ledger_index() {
    let mut pallet = engine();
    assert_eq!(
        pallet.prune_settled_ledger_index(B + 10),
        Ok(Event::LedgerIndexManualPrune { ledger_index: B + 10, total_cleared: 5 })
    );
    assert_eq!(pallet.settled_xrp_transaction_details(B + 10), None);
    for n in 1..=5 {
        assert_eq!(pallet.process_xrp_transaction_details(&hash(n)), None);
    }
    assert!(pallet.process_xrp_transaction_details(&hash(6)).is_some());
    assert_eq!(pallet.highest_pruned_ledger_index, B + 10);
    assert_eq!(pallet.prune_settled_ledger_index(B + 10), Err(Error::NoTransactionDetails));
}

#[test]
fn manual_prune_refuses_the_window() {
    let mut pallet = engine();
    assert_eq!(pallet.prune_settled_ledger_index(B + 950), Err(Error::CannotPruneActiveLedgerIndex));
    assert_eq!(pallet.prune_settled_ledger_index(B + 900), Err(Error::CannotPruneActiveLedgerIndex));
    assert_eq!(pallet.prune_settled_ledger_index(B + 899), Err(Error::NoTransactionDetails));
    assert_eq!(pallet.settled_xrp_transaction_details(B + 950), Some(vec![hash(6)]));
}

#[test]
fn reset_refuses_a_pruned_index_past_the_window() {
    let mut pallet = Pallet::new(config());
    assert_eq!(
        pallet.reset_settled_xrpl_tx_data(B + 1000, 100, Some(B + 901), Some(vec![settled(1, B)])),
        Err(Error::InvalidHighestPrunedIndex)
    );
    assert_eq!(pallet.highest_settled_ledger_index, 0);
    assert_eq!(pallet.highest_pruned_ledger_index, 42_900_000);
    assert_eq!(pallet.submission_window_width, 288_000);
    assert_eq!(pallet.process_xrp_transaction_details(&hash(1)), None);
    // a window wider than the settled index starts at zero
    assert_eq!(
        pallet.reset_settled_xrpl_tx_data(50, 100, Some(1), None),
        Err(Error::InvalidHighestPrunedIndex)
    );
    assert_eq!(pallet.reset_settled_xrpl_tx_data(B + 1000, 100, Some(B + 900), None), Ok(()));
    assert_eq!(pallet.highest_pruned_ledger_index, B + 900);
    assert_eq!(pallet.highest_settled_ledger_index, B + 1000);
    assert_eq!(pallet.submission_window_width, 100);
    assert_eq!(pallet.submission_window_start(), B + 900);
}

#[test]
fn reset_refuses_the_stored_pruned_index_past_the_new_window() {
    // none is given, and the stored one stands at its default
    let mut pallet = Pallet::new(config());
    assert_eq!(
        pallet.reset_settled_xrpl_tx_data(1000, 100, None, Some(vec![settled(1, 950)])),
        Err(Error::InvalidHighestPrunedIndex)
    );
    assert_eq!(pallet.highest_settled_ledger_index, 0);
    assert_eq!(pallet.process_xrp_transaction_details(&hash(1)), None);
    // a wider window would leave the stored one past its start too
    let mut pallet = engine();
    assert_eq!(
        pallet.reset_settled_xrpl_tx_data(B + 1000, 991, None, None),
        Err(Error::InvalidHighestPrunedIndex)
    );
    assert_eq!(pallet.submission_window_width, 100);
    assert_eq!(pallet.reset_settled_xrpl_tx_data(B + 1000, 990, None, None), Ok(()));
    assert_eq!(pallet.highest_pruned_ledger_index, B + 10);
    assert_eq!(pallet.submission_window_start(), B + 10);
}

#[test]
fn reset_refuses_to_lower_a_watermark() {
    let mut pallet = engine();
    assert_eq!(
        pallet.reset_settled_xrpl_tx_data(B + 1000, 100, Some(B + 9), None),
        Err(Error::InvalidHighestPrunedIndex)
    );
    assert_eq!(
        pallet.reset_settled_xrpl_tx_data(B + 999, 100, Some(B + 10), None),
        Err(Error::InvalidHighestSettledIndex)
    );
    assert_eq!(
        pallet.reset_settled_xrpl_tx_data(B + 999, 100, None, Some(vec![settled(7, B + 11)])),
        Err(Error::InvalidHighestSettledIndex)
    );
    assert_eq!(pallet.highest_settled_ledger_index, B + 1000);
    assert_eq!(pallet.highest_pruned_ledger_index, B + 10);
    assert_eq!(pallet.submission_window_width, 100);
    assert_eq!(pallet.process_xrp_transaction_details(&hash(7)), None);
    // the same values again, and higher ones, are taken
    assert_eq!(pallet.reset_settled_xrpl_tx_data(B + 1000, 100, Some(B + 10), None), Ok(()));
    assert_eq!(pallet.reset_settled_xrpl_tx_data(B + 1001, 100, Some(B + 11), None), Ok(()));
    assert_eq!(pallet.highest_settled_ledger_index, B + 1001);
    assert_eq!(pallet.highest_pruned_ledger_index, B + 11);
}

#[test]
fn reset_refuses_more_than_a_ledger_index_holds() {
    let mut pallet = engine();
    let data = vec![settled(7, B + 11), settled(8, B + 10)];
    assert_eq!(
        pallet.reset_settled_xrpl_tx_data(B + 2000, 50, None, Some(data)),
        Err(Error::TooManyTransactionsPerLedger)
    );
    // nothing of it took effect
    assert_eq!(pallet.highest_settled_ledger_index, B + 1000);
    assert_eq!(pallet.submission_window_width, 100);
    assert_eq!(pallet.settled_xrp_transaction_details(B + 11), None);
    assert_eq!(pallet.process_xrp_transaction_details(&hash(7)), None);
}

#[test]
fn reset_keeps_the_pruned_index_where_none_is_given() {
    let mut pallet = engine();
    assert_eq!(
        pallet.reset_settled_xrpl_tx_data(B + 2000, 50, None, Some(vec![settled(7, B + 11)])),
        Ok(())
    );
    assert_eq!(pallet.highest_pruned_ledger_index, B + 10);
    assert_eq!(pallet.highest_settled_ledger_index, B + 2000);
    assert_eq!(pallet.settled_xrp_transaction_details(B + 11), Some(vec![hash(7)]));
    assert_eq!(pallet.process_xrp_transaction_details(&hash(7)).unwrap().ledger_index, B + 11);
}

#[test]
fn reset_refuses_a_hash_that_is_on_record() {
    let mut pallet = engine();
    // hash 3 is settled already
    assert_eq!(
        pallet.reset_settled_xrpl_tx_data(
            B + 2000,
            50,
            None,
            Some(vec![settled(7, B + 11), settled(3, B + 12)])
        ),
        Err(Error::TxReplay)
    );
    // so is the second of two in one import
    assert_eq!(
        pallet.reset_settled_xrpl_tx_data(
            B + 2000,
            50,
            None,
            Some(vec![settled(7, B + 11), settled(7, B + 12)])
        ),
        Err(Error::TxReplay)
    );
    assert_eq!(pallet.highest_settled_ledger_index, B + 1000);
    assert_eq!(pallet.settled_xrp_transaction_details(B + 11), None);
    assert_eq!(pallet.settled_xrp_transaction_details(B + 12), None);
    assert_eq!(pallet.process_xrp_transaction_details(&hash(7)), None);
    assert_eq!(pallet.process_xrp_transaction_details(&hash(3)).unwrap().ledger_index, B + 10);
    // a recorded hash comes before a full list
    assert_eq!(
        pallet.reset_settled_xrpl_tx_data(B + 2000, 50, None, Some(vec![settled(3, B + 10)])),
        Err(Error::TxReplay)
    );
}
