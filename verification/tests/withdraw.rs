use xrpl_bridge::{
    AccountId, Config, DelayedWithdrawal, DispatchError, Error, Event, IdleReport, OutboundPayment,
    Pallet, RuntimeDbWeight, Weight, WithdrawAction, WithdrawRequest, Withdrawal,
    XrpWithdrawTransaction, XrplAccountId, H160,
};

const R: u64 = 1;
const W: u64 = 10;

fn config() -> Config {
    Config {
        xrp_asset_id: 2,
        challenge_period: 5,
        max_pruned_transactions_per_block: 5,
        max_delayed_payments_per_block: 2,
        delayed_payment_block_limit: 100,
        ticket_sequence_threshold: 66,
        xrp_transaction_limit: 10,
        xrpl_transaction_limit_per_ledger: 5,
        db_weight: RuntimeDbWeight { read: R, write: W },
    }
}

fn door() -> XrplAccountId {
    H160::from_low_u64_be(6)
}

fn alice() -> AccountId {
    H160::from_low_u64_be(1)
}

fn bob() -> XrplAccountId {
    H160::from_low_u64_be(2)
}

fn engine() -> Pallet {
    let mut pallet = Pallet::new(config());
    assert_eq!(pallet.set_door_address(door()), Event::DoorAddressSet(door()));
    pallet.set_ticket_sequence_current_allocation(1, 1, 200).unwrap();
    pallet.set_xrp_source_tag(38_887_387);
    pallet
}

fn request(amount: u128, ticket: u32, tag: Option<u32>) -> WithdrawRequest {
    WithdrawRequest {
        sender: alice(),
        amount,
        destination: bob(),
        payment: OutboundPayment {
            account: door(),
            destination: bob(),
            amount: amount as u64,
            nonce: 0,
            ticket_sequence: ticket,
            fee: 1_000_000,
            source_tag: 38_887_387,
            destination_tag: tag,
        },
    }
}

#[test]
fn withdrawal_is_composed_for_signing() {
    let mut pallet = engine();
    assert_eq!(
        pallet.withdraw_xrp(alice(), 2000, bob(), 1),
        Ok(Withdrawal {
            debit: 1_002_000,
            threshold_reached: None,
            action: WithdrawAction::Submit(request(2000, 1, None)),
        })
    );
    assert_eq!(
        pallet.withdraw_xrp_with_destination_tag(alice(), 3000, bob(), 14, 1),
        Ok(Withdrawal {
            debit: 1_003_000,
            threshold_reached: None,
            action: WithdrawAction::Submit(request(3000, 2, Some(14))),
        })
    );
    assert_eq!(pallet.door_ticket_sequence(), 3);
}

#[test]
fn withdrawal_amount_is_capped_in_drops() {
    let mut pallet = engine();
    let amount = u64::MAX as u128 + 5;
    let withdrawal = pallet.add_to_withdraw(alice(), amount, bob(), None, 1).unwrap();
    assert_eq!(withdrawal.debit, amount + 1_000_000);
    match withdrawal.action {
        WithdrawAction::Submit(request) => {
            assert_eq!(request.amount, amount);
            assert_eq!(request.payment.amount, u64::MAX);
        },
        WithdrawAction::Delay { .. } => panic!("no delay is set"),
    }
    let small = pallet.add_to_withdraw(alice(), 7, bob(), None, 1).unwrap();
    match small.action {
        WithdrawAction::Submit(request) => assert_eq!(request.payment.amount, 7),
        WithdrawAction::Delay { .. } => panic!("no delay is set"),
    }
}

#[test]
fn withdrawal_of_nothing_or_too_much_is_refused() {
    let mut pallet = engine();
    assert_eq!(
        pallet.add_to_withdraw(alice(), 0, bob(), None, 1),
        Err(DispatchError::Module(Error::WithdrawInvalidAmount))
    );
    assert_eq!(
        pallet.add_to_withdraw(alice(), u128::MAX - 999_999, bob(), None, 1),
        Err(DispatchError::Module(Error::WithdrawInvalidAmount))
    );
    assert_eq!(pallet.door_ticket_sequence(), 1);
    assert!(pallet.add_to_withdraw(alice(), u128::MAX - 1_000_000, bob(), None, 1).is_ok());
}

#[test]
fn withdrawal_needs_a_door_address() {
    let mut pallet = Pallet::new(config());
    pallet.set_ticket_sequence_current_allocation(1, 1, 200).unwrap();
    assert_eq!(
        pallet.add_to_withdraw(alice(), 5, bob(), None, 1),
        Err(DispatchError::Module(Error::DoorAddressNotSet))
    );
    assert_eq!(pallet.door_ticket_sequence(), 1);
}

#[test]
fn withdrawal_needs_a_ticket() {
    let mut pallet = Pallet::new(config());
    pallet.set_door_address(door());
    assert_eq!(
        pallet.add_to_withdraw(alice(), 5, bob(), None, 1),
        Err(DispatchError::Module(Error::NextTicketSequenceParamsNotSet))
    );
}

#[test]
fn withdrawal_reports_the_ticket_alert() {
    let mut pallet = Pallet::new(config());
    pallet.set_door_address(door());
    pallet.set_ticket_sequence_current_allocation(2, 1, 3).unwrap();
    let withdrawal = pallet.add_to_withdraw(alice(), 5, bob(), None, 1).unwrap();
    assert_eq!(withdrawal.threshold_reached, Some(2));
    let withdrawal = pallet.add_to_withdraw(alice(), 5, bob(), None, 1).unwrap();
    assert_eq!(withdrawal.threshold_reached, None);
}

#[test]
fn withdrawal_over_the_threshold_is_delayed_and_paid_at_its_tick() {
    let mut pallet = engine();
    assert_eq!(
        pallet.set_payment_delay(Some((100, 10))),
        Event::PaymentDelaySet { payment_threshold: 100, delay: 10 }
    );
    let now = 5;
    assert_eq!(
        pallet.add_to_withdraw(alice(), 150, bob(), Some(3), now),
        Ok(Withdrawal {
            debit: 1_000_150,
            threshold_reached: None,
            action: WithdrawAction::Delay { delayed_payment_id: 0 },
        })
    );
    assert_eq!(pallet.delayed_payments_due(15), Some(vec![0]));
    assert_eq!(
        pallet.delayed_payment(0),
        Some(DelayedWithdrawal {
            sender: alice(),
            destination_tag: Some(3),
            withdraw_tx: XrpWithdrawTransaction {
                tx_fee: 1_000_000,
                tx_nonce: 0,
                tx_ticket_sequence: 1,
                amount: 150,
                destination: bob(),
            },
        })
    );
    // before its tick nothing is paid
    let (_, requests) = pallet.process_delayed_payments(14, Weight::from_ref_time(1_000_000));
    assert!(requests.is_empty());
    assert_eq!(pallet.next_delay_process_block, 15);
    assert!(pallet.delayed_payment(0).is_some());

    let (used, requests) = pallet.process_delayed_payments(15, Weight::from_ref_time(1_000_000));
    assert_eq!(requests, vec![request(150, 1, Some(3))]);
    assert_eq!(pallet.delayed_payment(0), None);
    assert_eq!(pallet.delayed_payments_due(15), None);
    assert_eq!(pallet.next_delay_process_block, 16);
    // two reads and the watermark, then the tick: a read, a write, one payment
    assert_eq!(used.ref_time(), (2 * R + W) + (R + W) + (3 * R + 2 * W));

    let (_, requests) = pallet.process_delayed_payments(16, Weight::from_ref_time(1_000_000));
    assert!(requests.is_empty());
}

#[test]
fn withdrawal_below_the_threshold_is_not_delayed() {
    let mut pallet = engine();
    pallet.set_payment_delay(Some((100, 10)));
    let withdrawal = pallet.add_to_withdraw(alice(), 99, bob(), None, 5).unwrap();
    assert_eq!(withdrawal.action, WithdrawAction::Submit(request(99, 1, None)));
    let withdrawal = pallet.add_to_withdraw(alice(), 100, bob(), None, 5).unwrap();
    assert_eq!(withdrawal.action, WithdrawAction::Delay { delayed_payment_id: 0 });
    assert_eq!(pallet.set_payment_delay(None), Event::PaymentDelayRemoved);
    let withdrawal = pallet.add_to_withdraw(alice(), 100, bob(), None, 5).unwrap();
    assert_eq!(withdrawal.action, WithdrawAction::Submit(request(100, 3, None)));
}

#[test]
fn delay_is_refused_when_the_tick_is_full() {
    let mut pallet = engine();
    pallet.set_payment_delay(Some((100, 10)));
    pallet.add_to_withdraw(alice(), 150, bob(), None, 5).unwrap();
    pallet.add_to_withdraw(alice(), 151, bob(), None, 5).unwrap();
    assert_eq!(
        pallet.add_to_withdraw(alice(), 152, bob(), None, 5),
        Err(DispatchError::Module(Error::DelayScheduleAtCapacity))
    );
    // the ticket is not used up by the refusal
    assert_eq!(pallet.door_ticket_sequence(), 3);
    assert_eq!(pallet.delayed_payments_due(15), Some(vec![0, 1]));
    assert_eq!(pallet.next_delayed_payment_id, 2);
    assert!(pallet.add_to_withdraw(alice(), 152, bob(), None, 6).is_ok());
}

#[test]
fn delay_is_refused_when_the_ids_are_used_up() {
    let mut pallet = engine();
    pallet.set_payment_delay(Some((100, 10)));
    pallet.next_delayed_payment_id = u64::MAX;
    assert_eq!(
        pallet.add_to_withdraw(alice(), 150, bob(), None, 5),
        Err(DispatchError::Module(Error::NoAvailablePaymentIds))
    );
    assert_eq!(pallet.door_ticket_sequence(), 1);
    assert_eq!(pallet.delayed_payments_due(15), None);
}

#[test]
fn delay_stops_at_the_last_tick() {
    let mut pallet = engine();
    let tx = XrpWithdrawTransaction {
        tx_fee: 1,
        tx_nonce: 0,
        tx_ticket_sequence: 9,
        amount: 150,
        destination: bob(),
    };
    assert_eq!(
        pallet.delay_payment(10, alice(), tx, None, u32::MAX - 3),
        Ok(Event::WithdrawDelayed {
            sender: alice(),
            amount: 150,
            destination: bob(),
            delayed_payment_id: 0
        })
    );
    assert_eq!(pallet.delayed_payments_due(u32::MAX), Some(vec![0]));
}

#[test]
fn scheduler_pays_in_order_and_keeps_what_it_cannot_afford() {
    let mut pallet = engine();
    pallet.set_payment_delay(Some((100, 0)));
    pallet.add_to_withdraw(alice(), 150, bob(), None, 0).unwrap();
    pallet.add_to_withdraw(alice(), 151, bob(), None, 0).unwrap();
    // base, the tick's read and write, one payment, and not quite a second
    let base = 2 * R + W;
    let payment = 3 * R + 2 * W;
    let budget = base + R + W + payment + (payment - 1);
    let (used, requests) = pallet.process_delayed_payments(0, Weight::from_ref_time(budget));
    assert_eq!(requests, vec![request(150, 1, None)]);
    assert_eq!(pallet.delayed_payments_due(0), Some(vec![1]));
    assert_eq!(pallet.delayed_payment(0), None);
    assert!(pallet.delayed_payment(1).is_some());
    assert_eq!(pallet.next_delay_process_block, 0);
    // the watermark did not move, so its write is not charged
    assert_eq!(used.ref_time(), base + R + W + payment - W);

    let (_, requests) = pallet.process_delayed_payments(0, Weight::from_ref_time(1_000_000));
    assert_eq!(requests, vec![request(151, 2, None)]);
    assert_eq!(pallet.delayed_payments_due(0), None);
    assert_eq!(pallet.next_delay_process_block, 1);
}

#[test]
fn scheduler_without_budget_does_nothing() {
    let mut pallet = engine();
    pallet.set_payment_delay(Some((100, 0)));
    pallet.add_to_withdraw(alice(), 150, bob(), None, 0).unwrap();
    let (used, requests) = pallet.process_delayed_payments(0, Weight::zero());
    assert_eq!(used, Weight::zero());
    assert!(requests.is_empty());
    // at the threshold still nothing: base, a payment, two reads and two writes
    let threshold = (2 * R + W) + (3 * R + 2 * W) + (2 * R + 2 * W);
    let (used, requests) = pallet.process_delayed_payments(0, Weight::from_ref_time(threshold));
    assert_eq!(used, Weight::zero());
    assert!(requests.is_empty());
    assert_eq!(pallet.delayed_payments_due(0), Some(vec![0]));
}

#[test]
fn scheduler_needs_a_door_address() {
    let mut pallet = Pallet::new(config());
    let (used, requests) = pallet.process_delayed_payments(5, Weight::from_ref_time(1_000_000));
    assert_eq!(used.ref_time(), 2 * R + W);
    assert!(requests.is_empty());
    assert_eq!(pallet.next_delay_process_block, 0);
}

#[test]
fn scheduler_scans_a_limited_stretch() {
    let mut pallet = engine();
    let (used, _) = pallet.process_delayed_payments(500, Weight::from_ref_time(1_000_000));
    // ticks 0 to 100, a read each
    assert_eq!(pallet.next_delay_process_block, 101);
    assert_eq!(used.ref_time(), 2 * R + W + 101 * R);
    let (_, _) = pallet.process_delayed_payments(150, Weight::from_ref_time(1_000_000));
    assert_eq!(pallet.next_delay_process_block, 151);
}

#[test]
fn scheduler_never_spends_more_than_the_budget() {
    for budget in 0..300u64 {
        let mut pallet = engine();
        pallet.set_payment_delay(Some((100, 2)));
        pallet.add_to_withdraw(alice(), 150, bob(), None, 0).unwrap();
        pallet.add_to_withdraw(alice(), 151, bob(), None, 0).unwrap();
        let (used, requests) = pallet.process_delayed_payments(5, Weight::from_ref_time(budget));
        assert!(used.ref_time() <= budget);
        assert!(requests.len() <= 2);
    }
}

#[test]
fn idle_hook_runs_the_scheduler_and_then_the_pruner() {
    let mut pallet = engine();
    pallet.set_payment_delay(Some((100, 0)));
    pallet.add_to_withdraw(alice(), 150, bob(), None, 0).unwrap();
    pallet.reset_settled_xrpl_tx_data(43_001_000, 100, Some(43_000_898), None).unwrap();
    let IdleReport { weight, requests } = pallet.on_idle(0, Weight::from_ref_time(1_000_000));
    assert_eq!(requests, vec![request(150, 1, None)]);
    assert_eq!(pallet.next_delay_process_block, 1);
    assert_eq!(pallet.highest_pruned_ledger_index, 43_000_900);
    let delayed = (2 * R + W) + (R + W) + (3 * R + 2 * W);
    let pruned = 3 * R + W + 2 * R;
    assert_eq!(weight.ref_time(), delayed + pruned);
    let IdleReport { weight, requests } = pallet.on_idle(0, Weight::zero());
    assert_eq!(weight, Weight::zero());
    assert!(requests.is_empty());
}

#[test]
fn signer_list_request_takes_a_ticket() {
    let mut pallet = engine();
    pallet.set_door_tx_fee(12);
    let signers = vec![(H160::from_low_u64_be(70), 1u16), (H160::from_low_u64_be(71), 1u16)];
    let request = pallet.submit_signer_list_set_request(signers.clone()).unwrap();
    assert_eq!(request.account, door());
    assert_eq!(request.fee, 12);
    assert_eq!(request.nonce, 0);
    assert_eq!(request.ticket_sequence, 1);
    assert_eq!(request.signer_quorum, 1);
    assert_eq!(request.signer_entries, signers);
    assert_eq!(request.source_tag, 38_887_387);
    assert_eq!(request.threshold_reached, None);
    assert_eq!(pallet.door_ticket_sequence(), 2);
    let request = pallet.submit_signer_list_set_request(vec![]).unwrap();
    assert_eq!(request.signer_quorum, 0);

    let mut unset = Pallet::new(config());
    assert_eq!(
        unset.submit_signer_list_set_request(vec![]).map(|r| r.nonce),
        Err(DispatchError::Module(Error::DoorAddressNotSet))
    );
}

#[test]
fn signer_list_request_reports_the_ticket_alert() {
    let mut pallet = Pallet::new(config());
    pallet.set_door_address(door());
    // three tickets from 1 on: the second makes 66 of a hundred
    pallet.set_ticket_sequence_current_allocation(2, 1, 3).unwrap();
    let request = pallet.submit_signer_list_set_request(vec![]).unwrap();
    assert_eq!(request.ticket_sequence, 2);
    assert_eq!(request.threshold_reached, Some(2));
    assert!(pallet.ticket_sequence_threshold_reached_emitted());
    // once a bucket: neither the next request nor the next withdrawal repeats it
    let mut again = pallet.clone();
    assert_eq!(again.submit_signer_list_set_request(vec![]).unwrap().threshold_reached, None);
    let withdrawal = pallet.add_to_withdraw(alice(), 5, bob(), None, 1).unwrap();
    assert_eq!(withdrawal.threshold_reached, None);
}

#[test]
fn debit_is_the_amount_and_the_fee() {
    let mut pallet = engine();
    assert_eq!(pallet.withdrawal_debit(2000), Ok(1_002_000));
    assert_eq!(
        pallet.withdrawal_debit(0),
        Err(DispatchError::Module(Error::WithdrawInvalidAmount))
    );
    assert_eq!(
        pallet.withdrawal_debit(u128::MAX - 999_999),
        Err(DispatchError::Module(Error::WithdrawInvalidAmount))
    );
    pallet.set_door_tx_fee(0);
    assert_eq!(pallet.withdrawal_debit(u128::MAX), Ok(u128::MAX));
    let unset = Pallet::new(config());
    assert_eq!(
        unset.withdrawal_debit(5),
        Err(DispatchError::Module(Error::DoorAddressNotSet))
    );
    // the amount is looked at before the door address
    assert_eq!(
        unset.withdrawal_debit(0),
        Err(DispatchError::Module(Error::WithdrawInvalidAmount))
    );
}

#[test]
fn delayed_withdrawals_are_handed_over_once_each() {
    let mut pallet = engine();
    pallet.set_payment_delay(Some((100, 2)));
    // ids 0 and 1 fall due at tick 2, ids 2 and 3 at tick 3
    for (now, amount) in [(0u32, 150u128), (0, 151), (1, 152), (1, 153)] {
        pallet.add_to_withdraw(alice(), amount, bob(), None, now).unwrap();
    }
    let mut amounts = Vec::new();
    for budget in [0u64, 60, 75, 40, 120, 1_000, 1_000] {
        let before: Vec<bool> = (0..4).map(|id| pallet.delayed_payment(id).is_some()).collect();
        let (_, requests) = pallet.process_delayed_payments(3, Weight::from_ref_time(budget));
        let after: Vec<bool> = (0..4).map(|id| pallet.delayed_payment(id).is_some()).collect();
        let gone = (0..4).filter(|id| before[*id] && !after[*id]).count();
        assert_eq!(gone, requests.len());
        for id in 0..4u64 {
            // no withdrawal comes back, and one that waits is still scheduled
            assert!(before[id as usize] || !after[id as usize]);
            let tick = if id < 2 { 2 } else { 3 };
            let listed = pallet.delayed_payments_due(tick).map_or(false, |ids| ids.contains(&id));
            assert_eq!(listed, after[id as usize]);
        }
        amounts.extend(requests.iter().map(|request| request.amount));
    }
    assert_eq!(amounts, vec![150, 151, 152, 153]);
    assert_eq!(pallet.next_delay_process_block, 4);
}
