//! Withdrawals to the external chain: the outbound transaction builder, the
//! payment delay, and the request to update the door's signer list.

use crate::arithmetic::saturated_into_u64;
use crate::escrow_laws::law_delay_keeps_escrow_guard;
use crate::laws::watermarks_kept;
use crate::pallet::{Pallet, PalletView};
use crate::primitives::{
    AccountId, Balance, BlockNumber, DelayedPaymentId, XrplAccountId, XrplTxTicketSequence,
};
use crate::storage::list_or_empty;
use crate::types::{
    DelayedWithdrawal, DispatchError, Error, Event, XrpWithdrawTransaction,
};
use vstd::prelude::*;

verus! {

/// A payment from the door account, as the external chain's transaction
/// format takes it. The signer key is left out: the door signs with many keys.
#[derive(Clone, Copy, Debug, PartialEq, Eq)]
pub struct OutboundPayment {
    pub account: XrplAccountId,
    pub destination: XrplAccountId,
    /// The amount in drops.
    pub amount: u64,
    pub nonce: u32,
    pub ticket_sequence: XrplTxTicketSequence,
    pub fee: u64,
    pub source_tag: u32,
    pub destination_tag: Option<u32>,
}

/// A withdrawal that is ready for the signing collaborator.
#[derive(Clone, Copy, Debug, PartialEq, Eq)]
pub struct WithdrawRequest {
    pub sender: AccountId,
    pub amount: Balance,
    pub destination: XrplAccountId,
    pub payment: OutboundPayment,
}

/// An update of the door's signer list, ready for the signing collaborator.
#[derive(Clone, Debug)]
pub struct SignerListSetRequest {
    pub account: XrplAccountId,
    pub fee: u64,
    pub nonce: u32,
    pub ticket_sequence: XrplTxTicketSequence,
    pub signer_quorum: u32,
    pub signer_entries: Vec<(XrplAccountId, u16)>,
    pub source_tag: u32,
    /// The ticket sequence at which the ticket alert fired, if it fired now.
    pub threshold_reached: Option<u32>,
}

/// What becomes of an accepted withdrawal.
#[derive(Clone, Copy, Debug, PartialEq, Eq)]
pub enum WithdrawAction {
    /// It waits under this id for its due tick.
    Delay { delayed_payment_id: DelayedPaymentId },
    /// It goes to the signing collaborator now.
    Submit(WithdrawRequest),
}

/// An accepted withdrawal.
#[derive(Clone, Copy, Debug, PartialEq, Eq)]
pub struct Withdrawal {
    /// What the sender pays on the local ledger: the amount and the door's fee.
    pub debit: Balance,
    /// The ticket sequence at which the ticket alert fired, if it fired now.
    pub threshold_reached: Option<u32>,
    pub action: WithdrawAction,
}

/// `amount` as drops: itself, or the greatest `u64` where it is larger.
pub open spec fn drops_of(amount: Balance) -> u64 {
    if amount > u64::MAX {
        u64::MAX
    } else {
        amount as u64
    }
}

/// The tick `delay` after `now`, or the last tick where that is past it.
pub open spec fn tick_after(now: BlockNumber, delay: BlockNumber) -> BlockNumber {
    if now + delay > u32::MAX {
        u32::MAX
    } else {
        (now + delay) as u32
    }
}

impl PalletView {
    /// The request that hands `tx_data` of `sender` to the signing collaborator.
    pub open spec fn withdraw_request(
        self,
        sender: AccountId,
        door_address: XrplAccountId,
        tx_data: XrpWithdrawTransaction,
        destination_tag: Option<u32>,
    ) -> WithdrawRequest {
        WithdrawRequest {
            sender,
            amount: tx_data.amount,
            destination: tx_data.destination,
            payment: OutboundPayment {
                account: door_address,
                destination: tx_data.destination,
                amount: drops_of(tx_data.amount),
                nonce: tx_data.tx_nonce,
                ticket_sequence: tx_data.tx_ticket_sequence,
                fee: tx_data.tx_fee,
                source_tag: self.source_tag,
                destination_tag,
            },
        }
    }

    /// Whether a withdrawal of `amount` is delayed.
    pub open spec fn is_delayed(self, amount: Balance) -> bool {
        self.payment_delay matches Some(delay) && amount >= delay.0
    }

    /// Why a delay until `tick` is refused, if it is.
    pub open spec fn delay_error(self, tick: BlockNumber) -> Option<Error> {
        if self.next_delayed_payment_id == u64::MAX {
            Some(Error::NoAvailablePaymentIds)
        } else if list_or_empty(self.delayed_schedule, tick).len()
            >= self.config.max_delayed_payments_per_block {
            Some(Error::DelayScheduleAtCapacity)
        } else {
            None
        }
    }

    /// The state with `withdrawal` waiting for `tick` under the next id.
    pub open spec fn with_delayed(self, tick: BlockNumber, withdrawal: DelayedWithdrawal) -> PalletView {
        PalletView {
            delayed_payments: self.delayed_payments.insert(self.next_delayed_payment_id, withdrawal),
            delayed_schedule: self.delayed_schedule.insert(
                tick,
                list_or_empty(self.delayed_schedule, tick).push(self.next_delayed_payment_id),
            ),
            next_delayed_payment_id: (self.next_delayed_payment_id + 1) as u64,
            ..self
        }
    }

    /// The payment that a withdrawal of `amount` to `destination` makes once
    /// its ticket is allocated.
    pub open spec fn withdraw_tx(self, amount: Balance, destination: XrplAccountId) -> XrpWithdrawTransaction {
        XrpWithdrawTransaction {
            tx_nonce: 0,
            tx_fee: self.door_tx_fee,
            amount,
            destination,
            tx_ticket_sequence: self.tickets.granted(
                self.config.ticket_sequence_threshold,
            ).sequence,
        }
    }

    /// Why a withdrawal of `amount` is refused before the sender is
    /// debited, if it is: the amount is zero or too large with the door's
    /// fee, or no door address is set.
    pub open spec fn debit_error(self, amount: Balance) -> Option<DispatchError> {
        if amount == 0 || amount + self.door_tx_fee > u128::MAX {
            Some(DispatchError::Module(Error::WithdrawInvalidAmount))
        } else if self.door_address is None {
            Some(DispatchError::Module(Error::DoorAddressNotSet))
        } else {
            None
        }
    }

    /// Why a withdrawal of `amount` at tick `now` is refused, if it is.
    pub open spec fn withdraw_error(self, amount: Balance, now: BlockNumber) -> Option<
        DispatchError,
    > {
        if self.debit_error(amount) is Some {
            self.debit_error(amount)
        } else if self.tickets.allocate_error() is Some {
            self.tickets.allocate_error()
        } else if self.is_delayed(amount) && self.delay_error(
            tick_after(now, self.payment_delay->Some_0.1),
        ) is Some {
            Some(DispatchError::Module(self.delay_error(
                tick_after(now, self.payment_delay->Some_0.1),
            )->Some_0))
        } else {
            None
        }
    }

    /// The state after an accepted withdrawal.
    pub open spec fn after_withdraw(
        self,
        who: AccountId,
        amount: Balance,
        destination: XrplAccountId,
        destination_tag: Option<u32>,
        now: BlockNumber,
    ) -> PalletView {
        let allocated = PalletView {
            tickets: self.tickets.after_allocate(self.config.ticket_sequence_threshold),
            ..self
        };
        if self.is_delayed(amount) {
            allocated.with_delayed(
                tick_after(now, self.payment_delay->Some_0.1),
                DelayedWithdrawal {
                    sender: who,
                    destination_tag,
                    withdraw_tx: self.withdraw_tx(amount, destination),
                },
            )
        } else {
            allocated
        }
    }

    /// What an accepted withdrawal hands back.
    pub open spec fn withdrawal(
        self,
        who: AccountId,
        amount: Balance,
        destination: XrplAccountId,
        destination_tag: Option<u32>,
    ) -> Withdrawal {
        Withdrawal {
            debit: (amount + self.door_tx_fee) as u128,
            threshold_reached: self.tickets.granted(
                self.config.ticket_sequence_threshold,
            ).threshold_reached,
            action: if self.is_delayed(amount) {
                WithdrawAction::Delay { delayed_payment_id: self.next_delayed_payment_id }
            } else {
                WithdrawAction::Submit(
                    self.withdraw_request(
                        who,
                        self.door_address->Some_0,
                        self.withdraw_tx(amount, destination),
                        destination_tag,
                    ),
                )
            },
        }
    }
}

impl Pallet {
    /// Hands out the door's current ticket sequence and moves to the next.
    /// On failure the state is left as it was.
    pub fn get_door_ticket_sequence(&mut self) -> (r: Result<
        crate::tickets::TicketGrant,
        DispatchError,
    >)
        requires
            old(self).wf(),
        ensures
            final(self).wf(),
            match r {
                Ok(grant) => {
                    &&& old(self)@.tickets.allocate_error() is None
                    &&& final(self)@ == (PalletView {
                        tickets: old(self)@.tickets.after_allocate(
                            old(self)@.config.ticket_sequence_threshold,
                        ),
                        ..old(self)@
                    })
                    &&& grant == old(self)@.tickets.granted(
                        old(self)@.config.ticket_sequence_threshold,
                    )
                },
                Err(e) => {
                    &&& old(self)@.tickets.allocate_error() == Some(e)
                    &&& final(self)@ == old(self)@
                },
            },
            watermarks_kept(old(self)@, final(self)@),
            old(self)@.escrow_safe() ==> final(self)@.escrow_safe(),
            old(self)@.replay_safe() ==> final(self)@.replay_safe(),
    {
        self.tickets.allocate(self.config.ticket_sequence_threshold)
    }

    /// Composes the payment that pays `tx_data` out of the door account:
    /// the amount in drops, the ticket in place of a sequence number, the
    /// bridge's source tag, and the destination tag where one is given.
    pub fn submit_withdraw_request(
        &self,
        sender: AccountId,
        door_address: XrplAccountId,
        tx_data: XrpWithdrawTransaction,
        destination_tag: Option<u32>,
    ) -> (r: WithdrawRequest)
        ensures
            r == self@.withdraw_request(sender, door_address, tx_data, destination_tag),
    {
        WithdrawRequest {
            sender,
            amount: tx_data.amount,
            destination: tx_data.destination,
            payment: OutboundPayment {
                account: door_address,
                destination: tx_data.destination,
                amount: saturated_into_u64(tx_data.amount),
                nonce: tx_data.tx_nonce,
                ticket_sequence: tx_data.tx_ticket_sequence,
                fee: tx_data.tx_fee,
                source_tag: self.source_tag,
                destination_tag,
            },
        }
    }

    /// Puts `withdrawal` of `sender` off until `delay` ticks after `now`.
    /// Refused, with the state unchanged, where the ids are used up or the
    /// due tick holds as many delayed payments as it can.
    pub fn delay_payment(
        &mut self,
        delay: BlockNumber,
        sender: AccountId,
        withdrawal: XrpWithdrawTransaction,
        destination_tag: Option<u32>,
        now: BlockNumber,
    ) -> (r: Result<Event, Error>)
        requires
            old(self).wf(),
        ensures
            final(self).wf(),
            match r {
                Ok(event) => {
                    &&& old(self)@.delay_error(tick_after(now, delay)) is None
                    &&& final(self)@ == old(self)@.with_delayed(
                        tick_after(now, delay),
                        DelayedWithdrawal { sender, destination_tag, withdraw_tx: withdrawal },
                    )
                    &&& event == (Event::WithdrawDelayed {
                        sender,
                        amount: withdrawal.amount,
                        destination: withdrawal.destination,
                        delayed_payment_id: old(self)@.next_delayed_payment_id,
                    })
                },
                Err(e) => {
                    &&& old(self)@.delay_error(tick_after(now, delay)) == Some(e)
                    &&& final(self)@ == old(self)@
                },
            },
            watermarks_kept(old(self)@, final(self)@),
            old(self)@.escrow_safe() ==> final(self)@.escrow_safe(),
            old(self)@.replay_safe() ==> final(self)@.replay_safe(),
    {
        proof {
            if old(self)@.escrow_safe() && old(self)@.next_delayed_payment_id < u64::MAX {
                law_delay_keeps_escrow_guard(
                    old(self)@,
                    tick_after(now, delay),
                    DelayedWithdrawal { sender, destination_tag, withdraw_tx: withdrawal },
                );
            }
        }
        let delayed_payment_id = self.next_delayed_payment_id;
        if delayed_payment_id == u64::MAX {
            return Err(Error::NoAvailablePaymentIds);
        }
        let payment_block = now.saturating_add(delay);
        match self.delayed_payment_schedule.try_append(payment_block, delayed_payment_id) {
            Ok(()) => {},
            Err(_) => { return Err(Error::DelayScheduleAtCapacity); },
        }
        self.delayed_payments.insert(
            delayed_payment_id,
            DelayedWithdrawal { sender, destination_tag, withdraw_tx: withdrawal },
        );
        self.next_delayed_payment_id = delayed_payment_id + 1;
        Ok(
            Event::WithdrawDelayed {
                sender,
                amount: withdrawal.amount,
                destination: withdrawal.destination,
                delayed_payment_id,
            },
        )
    }

    /// What a withdrawal of `amount` debits from its sender: the amount and
    /// the door's fee. This is the part of the withdrawal that comes before
    /// the debit; it changes nothing. Refused where the amount is zero or
    /// too large with the fee, or no door address is set.
    pub fn withdrawal_debit(&self, amount: Balance) -> (r: Result<Balance, DispatchError>)
        ensures
            match r {
                Ok(debit) => self@.debit_error(amount) is None && debit == amount
                    + self@.door_tx_fee,
                Err(e) => self@.debit_error(amount) == Some(e),
            },
    {
        if amount == 0 {
            return Err(DispatchError::Module(Error::WithdrawInvalidAmount));
        }
        let debit = match amount.checked_add(self.door_tx_fee as u128) {
            Some(total) => total,
            None => { return Err(DispatchError::Module(Error::WithdrawInvalidAmount)); },
        };
        if self.door_address.is_none() {
            return Err(DispatchError::Module(Error::DoorAddressNotSet));
        }
        Ok(debit)
    }

    /// Accepts a withdrawal by `who` of `amount` drops to `destination`.
    /// A ticket is allocated for it; then it is delayed, where a payment
    /// delay is set and the amount reaches its threshold, or composed for
    /// the signing collaborator. The sender is to be debited the amount and
    /// the door's fee.
    ///
    /// Refused, with the state unchanged, where the amount is zero or too
    /// large with the fee, no door address is set, no ticket can be had, or
    /// the delay cannot be scheduled.
    pub fn add_to_withdraw(
        &mut self,
        who: AccountId,
        amount: Balance,
        destination: XrplAccountId,
        destination_tag: Option<u32>,
        now: BlockNumber,
    ) -> (r: Result<Withdrawal, DispatchError>)
        requires
            old(self).wf(),
        ensures
            final(self).wf(),
            match r {
                Ok(withdrawal) => {
                    &&& old(self)@.withdraw_error(amount, now) is None
                    &&& final(self)@ == old(self)@.after_withdraw(
                        who,
                        amount,
                        destination,
                        destination_tag,
                        now,
                    )
                    &&& withdrawal == old(self)@.withdrawal(who, amount, destination, destination_tag)
                },
                Err(e) => {
                    &&& old(self)@.withdraw_error(amount, now) == Some(e)
                    &&& final(self)@ == old(self)@
                },
            },
            watermarks_kept(old(self)@, final(self)@),
            old(self)@.escrow_safe() ==> final(self)@.escrow_safe(),
            old(self)@.replay_safe() ==> final(self)@.replay_safe(),
    {
        let tx_fee = self.door_tx_fee;
        let debit = match self.withdrawal_debit(amount) {
            Ok(debit) => debit,
            Err(e) => { return Err(e); },
        };
        let door_address = match self.door_address {
            Some(address) => address,
            None => { return Err(DispatchError::Module(Error::DoorAddressNotSet)); },
        };
        let tickets_before = self.tickets;
        let grant = match self.get_door_ticket_sequence() {
            Ok(grant) => grant,
            Err(e) => { return Err(e); },
        };
        let tx_data = XrpWithdrawTransaction {
            tx_nonce: 0,
            tx_fee,
            amount,
            destination,
            tx_ticket_sequence: grant.sequence,
        };
        if let Some((payment_threshold, delay)) = self.payment_delay {
            if amount >= payment_threshold {
                match self.delay_payment(delay, who, tx_data, destination_tag, now) {
                    Ok(Event::WithdrawDelayed { delayed_payment_id, .. }) => {
                        return Ok(
                            Withdrawal {
                                debit,
                                threshold_reached: grant.threshold_reached,
                                action: WithdrawAction::Delay { delayed_payment_id },
                            },
                        );
                    },
                    Ok(_) => {
                        assert(false);
                        return Err(DispatchError::Module(Error::DelayScheduleAtCapacity));
                    },
                    Err(e) => {
                        self.tickets = tickets_before;
                        return Err(DispatchError::Module(e));
                    },
                }
            }
        }
        let request = self.submit_withdraw_request(who, door_address, tx_data, destination_tag);
        Ok(
            Withdrawal {
                debit,
                threshold_reached: grant.threshold_reached,
                action: WithdrawAction::Submit(request),
            },
        )
    }

    /// Accepts a withdrawal without a destination tag.
    pub fn withdraw_xrp(
        &mut self,
        who: AccountId,
        amount: Balance,
        destination: XrplAccountId,
        now: BlockNumber,
    ) -> (r: Result<Withdrawal, DispatchError>)
        requires
            old(self).wf(),
        ensures
            final(self).wf(),
            match r {
                Ok(withdrawal) => {
                    &&& old(self)@.withdraw_error(amount, now) is None
                    &&& final(self)@ == old(self)@.after_withdraw(who, amount, destination, None, now)
                    &&& withdrawal == old(self)@.withdrawal(who, amount, destination, None)
                },
                Err(e) => {
                    &&& old(self)@.withdraw_error(amount, now) == Some(e)
                    &&& final(self)@ == old(self)@
                },
            },
            watermarks_kept(old(self)@, final(self)@),
            old(self)@.escrow_safe() ==> final(self)@.escrow_safe(),
            old(self)@.replay_safe() ==> final(self)@.replay_safe(),
    {
        self.add_to_withdraw(who, amount, destination, None, now)
    }

    /// Accepts a withdrawal that carries `destination_tag`.
    pub fn withdraw_xrp_with_destination_tag(
        &mut self,
        who: AccountId,
        amount: Balance,
        destination: XrplAccountId,
        destination_tag: u32,
        now: BlockNumber,
    ) -> (r: Result<Withdrawal, DispatchError>)
        requires
            old(self).wf(),
        ensures
            final(self).wf(),
            match r {
                Ok(withdrawal) => {
                    &&& old(self)@.withdraw_error(amount, now) is None
                    &&& final(self)@ == old(self)@.after_withdraw(
                        who,
                        amount,
                        destination,
                        Some(destination_tag),
                        now,
                    )
                    &&& withdrawal == old(self)@.withdrawal(
                        who,
                        amount,
                        destination,
                        Some(destination_tag),
                    )
                },
                Err(e) => {
                    &&& old(self)@.withdraw_error(amount, now) == Some(e)
                    &&& final(self)@ == old(self)@
                },
            },
            watermarks_kept(old(self)@, final(self)@),
            old(self)@.escrow_safe() ==> final(self)@.escrow_safe(),
            old(self)@.replay_safe() ==> final(self)@.replay_safe(),
    {
        self.add_to_withdraw(who, amount, destination, Some(destination_tag), now)
    }
}

} // verus!
