use std::collections::HashMap;
use xrpl_bridge::{
    AccountId, AssetId, Balance, Config, DispatchError, DueAction, Error, Event, GenesisConfig,
    Ledger, Observation, Pallet, RuntimeDbWeight, XrpTransaction, XrplTxData, XrplTxHash, H160,
    H256, H512,
};

const ASSET: AssetId = 2;
/// Ledger indices start past the default of the highest pruned one.
const B: u32 = 43_000_000;

fn config() -> Config {
    Config {
        xrp_asset_id: ASSET,
        challenge_period: 5,
        max_pruned_transactions_per_block: 5000,
        max_delayed_payments_per_block: 1000,
        delayed_payment_block_limit: 1000,
        ticket_sequence_threshold: 66,
        xrp_transaction_limit: 3,
        xrpl_transaction_limit_per_ledger: 2,
        db_weight: RuntimeDbWeight { read: 1, write: 10 },
    }
}

struct MockLedger {
    balances: HashMap<(AssetId, AccountId), Balance>,
    refuse: Vec<AccountId>,
    calls: u32,
}

impl MockLedger {
    fn new() -> Self {
        MockLedger { balances: HashMap::new(), refuse: Vec::new(), calls: 0 }
    }

    fn balance(&self, who: AccountId) -> Balance {
        self.balances.get(&(ASSET, who)).copied().unwrap_or(0)
    }
}

impl Ledger for MockLedger {
    fn mint_into(
        &mut self,
        asset_id: AssetId,
        who: &AccountId,
        amount: Balance,
    ) -> Result<(), DispatchError> {
        self.calls += 1;
        if self.refuse.contains(who) {
            return Err(DispatchError::Other(7));
        }
        *self.balances.entry((asset_id, *who)).or_insert(0) += amount;
        Ok(())
    }
}

fn relayer() -> AccountId {
    H160::from_low_u64_be(1)
}

fn hash(n: u64) -> XrplTxHash {
    H512::from_low_u64_be(n)
}

fn payment(amount: Balance, to: u64) -> XrplTxData {
    XrplTxData::Payment { amount, address: H160::from_low_u64_be(to) }
}

fn engine() -> Pallet {
    GenesisConfig { xrp_relayers: vec![relayer()] }.build(config())
}

#[test]
fn genesis_starts_with_the_defaults_and_the_relayers() {
    let pallet = engine();
    assert_eq!(pallet.get_relayer(&relayer()), Some(true));
    assert_eq!(pallet.get_relayer(&H160::from_low_u64_be(2)), None);
    assert_eq!(pallet.highest_settled_ledger_index, 0);
    assert_eq!(pallet.highest_pruned_ledger_index, 42_900_000);
    assert_eq!(pallet.submission_window_width, 288_000);
    assert_eq!(pallet.door_tx_fee(), 1_000_000);
    assert_eq!(pallet.door_address(), None);
    assert_eq!(pallet.door_ticket_sequence(), 0);
    assert!(!pallet.ticket_sequence_threshold_reached_emitted());
    assert_eq!(xrpl_bridge::DefaultHighestPrunedLedgerIndex(), 42_900_000);
    assert_eq!(xrpl_bridge::DefaultSubmissionWindowWidth(), 288_000);
    assert_eq!(xrpl_bridge::DefaultDoorTicketSequence(), 0);
    assert_eq!(xrpl_bridge::DefaultTicketSequenceThresholdReachedEmitted(), false);
    assert_eq!(xrpl_bridge::DefaultDoorTxFee(), 1_000_000);
    assert!(GenesisConfig::default().xrp_relayers.is_empty());
}

#[test]
fn submission_is_recorded_and_scheduled() {
    let mut pallet = engine();
    let tx = payment(1000, 9);
    assert_eq!(
        pallet.submit_transaction(relayer(), 100, hash(1), tx, 1234, 1),
        Ok(Event::TransactionAdded(100, hash(1)))
    );
    assert_eq!(
        pallet.process_xrp_transaction_details(&hash(1)),
        Some(Observation {
            ledger_index: 100,
            transaction: XrpTransaction {
                transaction_hash: hash(1),
                transaction: tx,
                timestamp: 1234
            },
            relayer: relayer(),
        })
    );
    assert_eq!(pallet.process_xrp_transaction(6), Some(vec![hash(1)]));
    assert_eq!(pallet.process_xrp_transaction(5), None);
    pallet.submit_transaction(relayer(), 101, hash(2), tx, 1235, 1).unwrap();
    assert_eq!(pallet.process_xrp_transaction(6), Some(vec![hash(1), hash(2)]));
}

#[test]
fn submission_by_a_stranger_is_refused() {
    let mut pallet = engine();
    let stranger = H160::from_low_u64_be(2);
    assert_eq!(
        pallet.submit_transaction(stranger, 100, hash(1), payment(1, 9), 0, 1),
        Err(Error::NotPermitted)
    );
    assert_eq!(pallet.process_xrp_transaction_details(&hash(1)), None);
    assert_eq!(pallet.process_xrp_transaction(6), None);
}

#[test]
fn submission_by_a_removed_relayer_is_refused() {
    let mut pallet = engine();
    assert_eq!(pallet.remove_relayer(relayer()), Ok(Event::RelayerRemoved(relayer())));
    assert_eq!(pallet.remove_relayer(relayer()), Err(Error::RelayerDoesNotExists));
    assert_eq!(
        pallet.submit_transaction(relayer(), 100, hash(1), payment(1, 9), 0, 1),
        Err(Error::NotPermitted)
    );
    assert_eq!(pallet.add_relayer(relayer()), Event::RelayerAdded(relayer()));
    assert!(pallet.submit_transaction(relayer(), 100, hash(1), payment(1, 9), 0, 1).is_ok());
}

#[test]
fn submission_before_the_window_is_refused() {
    let mut pallet = engine();
    pallet.reset_settled_xrpl_tx_data(43_001_000, 100, None, None).unwrap();
    assert_eq!(pallet.submission_window_start(), 43_000_900);
    assert_eq!(
        pallet.submit_transaction(relayer(), 43_000_899, hash(1), payment(1, 9), 0, 1),
        Err(Error::OutSideSubmissionWindow)
    );
    assert_eq!(pallet.process_xrp_transaction_details(&hash(1)), None);
    assert!(pallet
        .submit_transaction(relayer(), 43_000_900, hash(1), payment(1, 9), 0, 1)
        .is_ok());
}

#[test]
fn submission_of_a_recorded_hash_is_refused() {
    let mut pallet = engine();
    pallet.submit_transaction(relayer(), 100, hash(1), payment(1, 9), 0, 1).unwrap();
    assert_eq!(
        pallet.submit_transaction(relayer(), 100, hash(1), payment(1, 9), 0, 2),
        Err(Error::TxReplay)
    );
    assert_eq!(pallet.process_xrp_transaction(7), None);
    // also once it is settled
    let mut ledger = MockLedger::new();
    pallet.process_xrp_tx(&mut ledger, 6);
    assert_eq!(pallet.settled_xrp_transaction_details(100), Some(vec![hash(1)]));
    assert_eq!(
        pallet.submit_transaction(relayer(), 100, hash(1), payment(1, 9), 0, 8),
        Err(Error::TxReplay)
    );
}

#[test]
fn submission_into_a_full_slot_is_refused() {
    let mut pallet = engine();
    for n in 1..=3 {
        pallet.submit_transaction(relayer(), 100, hash(n), payment(1, 9), 0, 1).unwrap();
    }
    assert_eq!(
        pallet.submit_transaction(relayer(), 100, hash(4), payment(1, 9), 0, 1),
        Err(Error::CannotProcessMoreTransactionsAtThatBlock)
    );
    assert_eq!(pallet.process_xrp_transaction_details(&hash(4)), None);
    assert_eq!(pallet.process_xrp_transaction(6), Some(vec![hash(1), hash(2), hash(3)]));
    // the next tick has room
    assert!(pallet.submit_transaction(relayer(), 100, hash(4), payment(1, 9), 0, 2).is_ok());
}

#[test]
fn challenge_is_recorded_for_anyone_and_replaced() {
    let mut pallet = engine();
    let watchdog = H160::from_low_u64_be(50);
    pallet.submit_challenge(watchdog, hash(1));
    assert_eq!(pallet.challenge_xrp_transaction_list(&hash(1)), Some(watchdog));
    pallet.submit_challenge(relayer(), hash(1));
    assert_eq!(pallet.challenge_xrp_transaction_list(&hash(1)), Some(relayer()));
    assert_eq!(pallet.challenge_xrp_transaction_list(&hash(2)), None);
}

#[test]
fn challenged_observation_is_skipped_and_settles_once_the_challenge_is_gone() {
    let mut pallet = engine();
    let mut ledger = MockLedger::new();
    let destination = H160::from_low_u64_be(9);
    let now: u32 = 3;
    pallet.submit_transaction(relayer(), 100, hash(1), payment(1000, 9), 0, now).unwrap();
    pallet.submit_challenge(H160::from_low_u64_be(50), hash(1));

    let (_, events) = pallet.process_xrp_tx(&mut ledger, now + 5);
    assert_eq!(events, vec![]);
    assert!(pallet.process_xrp_transaction_details(&hash(1)).is_some());
    assert_eq!(pallet.settled_xrp_transaction_details(100), None);
    assert_eq!(ledger.balance(destination), 0);
    assert_eq!(ledger.calls, 0);
    assert_eq!(pallet.highest_settled_ledger_index, 0);
    assert_eq!(pallet.process_xrp_transaction(now as u64 + 5), None);

    pallet.challenges.remove(&hash(1));
    pallet.add_to_xrp_process(hash(1), now + 5).unwrap();
    let (_, events) = pallet.process_xrp_tx(&mut ledger, now + 10);
    assert_eq!(events, vec![Event::ProcessingOk(100, hash(1))]);
    assert_eq!(pallet.settled_xrp_transaction_details(100), Some(vec![hash(1)]));
    assert_eq!(ledger.balance(destination), 1000);
    assert!(pallet.highest_settled_ledger_index >= 100);
    assert_eq!(pallet.highest_settled_ledger_index, 100);
}

#[test]
fn settlement_goes_through_the_slot_in_order() {
    let mut pallet = engine();
    let mut ledger = MockLedger::new();
    ledger.refuse.push(H160::from_low_u64_be(8));
    pallet.submit_transaction(relayer(), 120, hash(1), payment(10, 9), 0, 1).unwrap();
    pallet.submit_transaction(relayer(), 110, hash(2), payment(20, 8), 0, 1).unwrap();
    pallet.submit_transaction(relayer(), 105, hash(3), XrplTxData::Xls20, 0, 1).unwrap();
    assert_eq!(
        pallet.due_action(&hash(1)),
        DueAction::Credit {
            asset_id: ASSET,
            ledger_index: 120,
            account: H160::from_low_u64_be(9),
            amount: 10
        }
    );
    assert_eq!(pallet.due_action(&hash(3)), DueAction::Unsupported);
    assert_eq!(pallet.due_action(&hash(4)), DueAction::Skip);

    let (weight, events) = pallet.process_xrp_tx(&mut ledger, 6);
    assert_eq!(
        events,
        vec![
            Event::ProcessingOk(120, hash(1)),
            Event::ProcessingFailed(110, hash(2), DispatchError::Other(7)),
            Event::NotSupportedTransaction,
        ]
    );
    // reads: 3 + 2 * 3 + 2 * 1, writes: 1 + 2 * 1
    assert_eq!(weight.ref_time(), 11 + 3 * 10);
    assert_eq!(pallet.settled_xrp_transaction_details(120), Some(vec![hash(1)]));
    assert_eq!(pallet.settled_xrp_transaction_details(110), None);
    assert_eq!(pallet.settled_xrp_transaction_details(105), None);
    assert_eq!(pallet.highest_settled_ledger_index, 120);
    assert_eq!(ledger.balance(H160::from_low_u64_be(9)), 10);
    assert_eq!(ledger.balance(H160::from_low_u64_be(8)), 0);
    assert_eq!(pallet.process_xrp_transaction(6), None);
    // the failed one is not tried again
    let (_, events) = pallet.process_xrp_tx(&mut ledger, 6);
    assert_eq!(events, vec![]);
    assert_eq!(ledger.calls, 2);
}

#[test]
fn settlement_of_an_empty_tick_costs_two_reads() {
    let mut pallet = engine();
    let mut ledger = MockLedger::new();
    let (weight, events) = pallet.on_initialize(&mut ledger, 6);
    assert_eq!(weight.ref_time(), 2);
    assert!(events.is_empty());
    assert_eq!(pallet.highest_settled_ledger_index, 0);
}

#[test]
fn settlement_keeps_the_highest_ledger_index() {
    let mut pallet = engine();
    let mut ledger = MockLedger::new();
    pallet.submit_transaction(relayer(), 120, hash(1), payment(10, 9), 0, 1).unwrap();
    pallet.submit_transaction(relayer(), 110, hash(2), payment(20, 9), 0, 2).unwrap();
    pallet.process_xrp_tx(&mut ledger, 6);
    assert_eq!(pallet.highest_settled_ledger_index, 120);
    pallet.process_xrp_tx(&mut ledger, 7);
    assert_eq!(pallet.highest_settled_ledger_index, 120);
    assert_eq!(pallet.settled_xrp_transaction_details(110), Some(vec![hash(2)]));
    assert_eq!(ledger.balance(H160::from_low_u64_be(9)), 30);
}

#[test]
fn settlement_reports_a_full_ledger_index_and_does_not_credit() {
    let mut pallet = engine();
    let mut ledger = MockLedger::new();
    for n in 1..=3 {
        pallet.submit_transaction(relayer(), 100, hash(n), payment(10, 9), 0, 1).unwrap();
    }
    let (_, events) = pallet.process_xrp_tx(&mut ledger, 6);
    assert_eq!(
        events,
        vec![
            Event::ProcessingOk(100, hash(1)),
            Event::ProcessingOk(100, hash(2)),
            Event::ProcessingFailed(
                100,
                hash(3),
                DispatchError::Module(Error::TooManyTransactionsPerLedger)
            ),
        ]
    );
    assert_eq!(pallet.settled_xrp_transaction_details(100), Some(vec![hash(1), hash(2)]));
    assert_eq!(ledger.balance(H160::from_low_u64_be(9)), 20);
    assert_eq!(pallet.settle(hash(3), 100), Err(Error::TooManyTransactionsPerLedger));
    assert_eq!(pallet.settle(hash(3), 101), Ok(()));
    assert_eq!(pallet.highest_settled_ledger_index, 101);
}

#[test]
fn currency_payment_is_not_supported() {
    let mut pallet = engine();
    let mut ledger = MockLedger::new();
    let tx = XrplTxData::CurrencyPayment {
        amount: 5,
        address: H160::from_low_u64_be(9),
        currency_id: H256 { hi: 0, lo: 1 },
    };
    pallet.submit_transaction(relayer(), 100, hash(1), tx, 0, 1).unwrap();
    let (_, events) = pallet.process_xrp_tx(&mut ledger, 6);
    assert_eq!(events, vec![Event::NotSupportedTransaction]);
    assert_eq!(ledger.calls, 0);
    assert_eq!(pallet.settled_xrp_transaction_details(100), None);
}

fn occurrences(pallet: &Pallet, wanted: XrplTxHash, ticks: u64, ledgers: u32) -> (usize, usize) {
    let mut scheduled = 0;
    for tick in 0..ticks {
        if let Some(list) = pallet.process_xrp_transaction(tick) {
            scheduled += list.iter().filter(|h| **h == wanted).count();
        }
    }
    let mut settled = 0;
    for ledger in 0..ledgers {
        if let Some(list) = pallet.settled_xrp_transaction_details(ledger) {
            settled += list.iter().filter(|h| **h == wanted).count();
        }
    }
    (scheduled, settled)
}

#[test]
fn hash_is_never_scheduled_and_settled_at_once() {
    let mut pallet = engine();
    let mut ledger = MockLedger::new();
    pallet.submit_transaction(relayer(), 100, hash(1), payment(10, 9), 0, 1).unwrap();
    pallet.submit_transaction(relayer(), 101, hash(2), payment(10, 9), 0, 2).unwrap();
    assert_eq!(occurrences(&pallet, hash(1), 20, 200), (1, 0));
    assert_eq!(occurrences(&pallet, hash(2), 20, 200), (1, 0));
    pallet.process_xrp_tx(&mut ledger, 6);
    assert_eq!(occurrences(&pallet, hash(1), 20, 200), (0, 1));
    assert_eq!(occurrences(&pallet, hash(2), 20, 200), (1, 0));
    // a second report of either is refused, so neither comes a second time
    for now in 1..10 {
        assert_eq!(
            pallet.submit_transaction(relayer(), 100, hash(1), payment(10, 9), 0, now),
            Err(Error::TxReplay)
        );
        assert_eq!(
            pallet.submit_transaction(relayer(), 150, hash(2), payment(10, 9), 0, now),
            Err(Error::TxReplay)
        );
    }
    pallet.process_xrp_tx(&mut ledger, 6);
    pallet.process_xrp_tx(&mut ledger, 7);
    assert_eq!(occurrences(&pallet, hash(1), 20, 200), (0, 1));
    assert_eq!(occurrences(&pallet, hash(2), 20, 200), (0, 1));
    assert_eq!(ledger.balance(H160::from_low_u64_be(9)), 20);
}

#[test]
fn watermarks_never_fall() {
    let mut pallet = engine();
    let mut ledger = MockLedger::new();
    pallet.reset_settled_xrpl_tx_data(B + 500, 100, Some(B + 390), None).unwrap();
    pallet.set_door_address(H160::from_low_u64_be(6));
    pallet.set_ticket_sequence_current_allocation(1, 1, 100).unwrap();
    let mut settled = pallet.highest_settled_ledger_index;
    let mut pruned = pallet.highest_pruned_ledger_index;
    for step in 0..40u32 {
        let now = step;
        match step % 5 {
            0 => {
                let ledger_index = B + 450 + (step * 7) % 90;
                let _ = pallet.submit_transaction(
                    relayer(),
                    ledger_index,
                    hash(step as u64),
                    payment(1, 9),
                    0,
                    now,
                );
            },
            1 => {
                pallet.process_xrp_tx(&mut ledger, now + 4);
            },
            2 => {
                pallet.on_idle(now, xrpl_bridge::Weight::from_ref_time(40 + step as u64));
            },
            3 => {
                let _ = pallet.add_to_withdraw(relayer(), 5, H160::from_low_u64_be(3), None, now);
            },
            _ => {
                let _ = pallet.prune_settled_ledger_index(B + 380 + step);
                pallet.submit_challenge(relayer(), hash(step as u64 + 1000));
            },
        }
        assert!(pallet.highest_settled_ledger_index >= settled);
        assert!(pallet.highest_pruned_ledger_index >= pruned);
        assert!(pallet.highest_pruned_ledger_index <= pallet.submission_window_start());
        settled = pallet.highest_settled_ledger_index;
        pruned = pallet.highest_pruned_ledger_index;
    }
    assert!(settled > B + 500);
    assert!(pruned > B + 390);
}

#[test]
fn submission_falls_due_past_the_last_block_number() {
    // the due tick is the sum itself, also where no block number reaches it
    let mut pallet = engine();
    assert_eq!(
        pallet.submit_transaction(relayer(), 100, hash(1), payment(1, 9), 0, u32::MAX),
        Ok(Event::TransactionAdded(100, hash(1)))
    );
    assert_eq!(pallet.process_xrp_transaction(u32::MAX as u64 + 5), Some(vec![hash(1)]));
    assert_eq!(
        pallet.submit_transaction(relayer(), 100, hash(1), payment(1, 9), 0, u32::MAX),
        Err(Error::TxReplay)
    );
    assert_eq!(pallet.process_xrp_transaction(u32::MAX as u64 + 5), Some(vec![hash(1)]));
}
