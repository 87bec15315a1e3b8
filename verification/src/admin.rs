//! Privileged settings, and the two hooks that the host calls each tick.

use crate::laws::watermarks_kept;
use crate::pallet::{Pallet, PalletView};
use crate::primitives::{AccountId, Balance, BlockNumber, XrplAccountId};
use crate::settlement::{settled_count, Ledger};
use crate::storage::list_or_empty;
use crate::tickets::TicketAllocation;
use crate::types::{DispatchError, Error, Event, XrplTicketSequenceParams};
use crate::weight::Weight;
use crate::withdraw::{SignerListSetRequest, WithdrawRequest};
use vstd::prelude::*;

verus! {

/// What the idle hook hands back.
#[derive(Clone, Debug)]
pub struct IdleReport {
    /// What the delayed payment scheduler and the pruner spent together.
    pub weight: Weight,
    /// The requests for the signing collaborator, in order.
    pub requests: Vec<WithdrawRequest>,
}

impl PalletView {
    /// Whether a bucket from `start` with `size` numbers cannot follow the
    /// current one.
    pub open spec fn next_bucket_invalid(self, start: u32, size: u32) -> bool {
        start < self.tickets.current_sequence || start < self.tickets.current_bucket.start_sequence
            || size == 0
    }

    /// Whether the sequence `sequence` in a bucket from `start` with `size`
    /// numbers cannot replace the current allocation.
    pub open spec fn current_bucket_invalid(self, sequence: u32, start: u32, size: u32) -> bool {
        sequence < self.tickets.current_sequence || start
            < self.tickets.current_bucket.start_sequence || size == 0
    }
}

impl Pallet {
    /// Sets the payment delay: the amount from which a withdrawal is put off
    /// and for how many ticks; `None` removes it.
    pub fn set_payment_delay(&mut self, payment_delay: Option<(Balance, BlockNumber)>) -> (r: Event)
        ensures
            final(self).wf() == old(self).wf(),
            final(self)@ == (PalletView { payment_delay, ..old(self)@ }),
            r == match payment_delay {
                Some(delay) => Event::PaymentDelaySet { payment_threshold: delay.0, delay: delay.1 },
                None => Event::PaymentDelayRemoved,
            },
            watermarks_kept(old(self)@, final(self)@),
            old(self)@.escrow_safe() ==> final(self)@.escrow_safe(),
            old(self)@.replay_safe() ==> final(self)@.replay_safe(),
    {
        self.payment_delay = payment_delay;
        match payment_delay {
            Some((payment_threshold, delay)) => Event::PaymentDelaySet { payment_threshold, delay },
            None => Event::PaymentDelayRemoved,
        }
    }

    /// Sets the flat fee of a door transaction, in drops.
    pub fn set_door_tx_fee(&mut self, fee: u64)
        ensures
            final(self).wf() == old(self).wf(),
            final(self)@ == (PalletView { door_tx_fee: fee, ..old(self)@ }),
            watermarks_kept(old(self)@, final(self)@),
            old(self)@.escrow_safe() ==> final(self)@.escrow_safe(),
            old(self)@.replay_safe() ==> final(self)@.replay_safe(),
    {
        self.door_tx_fee = fee;
    }

    /// Sets the tag that marks outbound transactions as the bridge's.
    pub fn set_xrp_source_tag(&mut self, source_tag: u32)
        ensures
            final(self).wf() == old(self).wf(),
            final(self)@ == (PalletView { source_tag, ..old(self)@ }),
            watermarks_kept(old(self)@, final(self)@),
            old(self)@.escrow_safe() ==> final(self)@.escrow_safe(),
            old(self)@.replay_safe() ==> final(self)@.replay_safe(),
    {
        self.source_tag = source_tag;
    }

    /// Sets the door address on the external chain.
    pub fn set_door_address(&mut self, door_address: XrplAccountId) -> (r: Event)
        ensures
            final(self).wf() == old(self).wf(),
            final(self)@ == (PalletView { door_address: Some(door_address), ..old(self)@ }),
            r == Event::DoorAddressSet(door_address),
            watermarks_kept(old(self)@, final(self)@),
            old(self)@.escrow_safe() ==> final(self)@.escrow_safe(),
            old(self)@.replay_safe() ==> final(self)@.replay_safe(),
    {
        self.door_address = Some(door_address);
        Event::DoorAddressSet(door_address)
    }

    /// Provides the ticket bucket to move to when the current one is used
    /// up. Refused, with the state unchanged, where `relayer` is not active,
    /// or the bucket starts before the current sequence or the current
    /// bucket, or is empty.
    pub fn set_ticket_sequence_next_allocation(
        &mut self,
        relayer: AccountId,
        start_ticket_sequence: u32,
        ticket_bucket_size: u32,
    ) -> (r: Result<Event, Error>)
        requires
            old(self).wf(),
        ensures
            final(self).wf(),
            match r {
                Ok(event) => {
                    &&& old(self)@.is_active_relayer(relayer)
                    &&& !old(self)@.next_bucket_invalid(start_ticket_sequence, ticket_bucket_size)
                    &&& final(self)@ == (PalletView {
                        tickets: TicketAllocation {
                            next_bucket: XrplTicketSequenceParams {
                                start_sequence: start_ticket_sequence,
                                bucket_size: ticket_bucket_size,
                            },
                            ..old(self)@.tickets
                        },
                        ..old(self)@
                    })
                    &&& event == (Event::DoorNextTicketSequenceParamSet {
                        ticket_sequence_start_next: start_ticket_sequence,
                        ticket_bucket_size_next: ticket_bucket_size,
                    })
                },
                Err(e) => {
                    &&& final(self)@ == old(self)@
                    &&& e == if !old(self)@.is_active_relayer(relayer) {
                        Error::NotPermitted
                    } else {
                        Error::NextTicketSequenceParamsInvalid
                    }
                    &&& !old(self)@.is_active_relayer(relayer) || old(self)@.next_bucket_invalid(
                        start_ticket_sequence,
                        ticket_bucket_size,
                    )
                },
            },
            watermarks_kept(old(self)@, final(self)@),
            old(self)@.escrow_safe() ==> final(self)@.escrow_safe(),
            old(self)@.replay_safe() ==> final(self)@.replay_safe(),
    {
        let active = match self.relayers.get(&relayer) {
            Some(flag) => *flag,
            None => false,
        };
        if !active {
            return Err(Error::NotPermitted);
        }
        if start_ticket_sequence < self.tickets.current_sequence || start_ticket_sequence
            < self.tickets.current_bucket.start_sequence || ticket_bucket_size == 0 {
            return Err(Error::NextTicketSequenceParamsInvalid);
        }
        self.tickets.next_bucket =
        XrplTicketSequenceParams {
            start_sequence: start_ticket_sequence,
            bucket_size: ticket_bucket_size,
        };
        Ok(
            Event::DoorNextTicketSequenceParamSet {
                ticket_sequence_start_next: start_ticket_sequence,
                ticket_bucket_size_next: ticket_bucket_size,
            },
        )
    }

    /// Sets the current ticket sequence and bucket by force, and lets the
    /// alert fire anew. Refused, with the state unchanged, where the
    /// sequence lies before the current one, the bucket starts before the
    /// current one, or the bucket is empty.
    pub fn set_ticket_sequence_current_allocation(
        &mut self,
        ticket_sequence: u32,
        start_ticket_sequence: u32,
        ticket_bucket_size: u32,
    ) -> (r: Result<Event, Error>)
        ensures
            final(self).wf() == old(self).wf(),
            match r {
                Ok(event) => {
                    &&& !old(self)@.current_bucket_invalid(
                        ticket_sequence,
                        start_ticket_sequence,
                        ticket_bucket_size,
                    )
                    &&& final(self)@ == (PalletView {
                        tickets: TicketAllocation {
                            current_sequence: ticket_sequence,
                            current_bucket: XrplTicketSequenceParams {
                                start_sequence: start_ticket_sequence,
                                bucket_size: ticket_bucket_size,
                            },
                            threshold_alert_emitted: false,
                            ..old(self)@.tickets
                        },
                        ..old(self)@
                    })
                    &&& event == (Event::DoorTicketSequenceParamSet {
                        ticket_sequence,
                        ticket_sequence_start: start_ticket_sequence,
                        ticket_bucket_size,
                    })
                },
                Err(e) => {
                    &&& old(self)@.current_bucket_invalid(
                        ticket_sequence,
                        start_ticket_sequence,
                        ticket_bucket_size,
                    )
                    &&& final(self)@ == old(self)@
                    &&& e == Error::TicketSequenceParamsInvalid
                },
            },
            watermarks_kept(old(self)@, final(self)@),
            old(self)@.escrow_safe() ==> final(self)@.escrow_safe(),
            old(self)@.replay_safe() ==> final(self)@.replay_safe(),
    {
        if ticket_sequence < self.tickets.current_sequence || start_ticket_sequence
            < self.tickets.current_bucket.start_sequence || ticket_bucket_size == 0 {
            return Err(Error::TicketSequenceParamsInvalid);
        }
        self.tickets.current_sequence = ticket_sequence;
        self.tickets.current_bucket =
        XrplTicketSequenceParams {
            start_sequence: start_ticket_sequence,
            bucket_size: ticket_bucket_size,
        };
        self.tickets.threshold_alert_emitted = false;
        Ok(
            Event::DoorTicketSequenceParamSet {
                ticket_sequence,
                ticket_sequence_start: start_ticket_sequence,
                ticket_bucket_size,
            },
        )
    }

    /// Composes the update of the door's signer list to `signer_entries`,
    /// each an account with its weight, on a freshly allocated ticket. The
    /// quorum is one less than the number of signers. Where the ticket
    /// alert fires on this allocation, the request says so. Refused, with
    /// the state unchanged, where no door address is set or no ticket can be
    /// had.
    pub fn submit_signer_list_set_request(&mut self, signer_entries: Vec<(XrplAccountId, u16)>) -> (r:
        Result<SignerListSetRequest, DispatchError>)
        requires
            old(self).wf(),
            signer_entries@.len() <= u32::MAX + 1,
        ensures
            final(self).wf(),
            match r {
                Ok(request) => {
                    &&& old(self)@.door_address is Some
                    &&& old(self)@.tickets.allocate_error() is None
                    &&& final(self)@ == (PalletView {
                        tickets: old(self)@.tickets.after_allocate(
                            old(self)@.config.ticket_sequence_threshold,
                        ),
                        ..old(self)@
                    })
                    &&& request.account == old(self)@.door_address->Some_0
                    &&& request.fee == old(self)@.door_tx_fee
                    &&& request.nonce == 0
                    &&& request.ticket_sequence == old(self)@.tickets.granted(
                        old(self)@.config.ticket_sequence_threshold,
                    ).sequence
                    &&& request.signer_quorum == if signer_entries@.len() == 0 {
                        0
                    } else {
                        signer_entries@.len() - 1
                    }
                    &&& request.signer_entries@ == signer_entries@
                    &&& request.source_tag == old(self)@.source_tag
                    &&& request.threshold_reached == old(self)@.tickets.granted(
                        old(self)@.config.ticket_sequence_threshold,
                    ).threshold_reached
                },
                Err(e) => {
                    &&& final(self)@ == old(self)@
                    &&& if old(self)@.door_address is None {
                        e == DispatchError::Module(Error::DoorAddressNotSet)
                    } else {
                        old(self)@.tickets.allocate_error() == Some(e)
                    }
                },
            },
            watermarks_kept(old(self)@, final(self)@),
            old(self)@.escrow_safe() ==> final(self)@.escrow_safe(),
            old(self)@.replay_safe() ==> final(self)@.replay_safe(),
    {
        let door_address = match self.door_address {
            Some(address) => address,
            None => { return Err(DispatchError::Module(Error::DoorAddressNotSet)); },
        };
        let tx_fee = self.door_tx_fee;
        let grant = match self.get_door_ticket_sequence() {
            Ok(grant) => grant,
            Err(e) => { return Err(e); },
        };
        let signers = signer_entries.len();
        let signer_quorum: u32 = if signers == 0 {
            0
        } else {
            (signers - 1) as u32
        };
        Ok(
            SignerListSetRequest {
                account: door_address,
                fee: tx_fee,
                nonce: 0,
                ticket_sequence: grant.sequence,
                signer_quorum,
                signer_entries,
                source_tag: self.source_tag,
                threshold_reached: grant.threshold_reached,
            },
        )
    }

    /// The hook at the start of tick `n`: settles what falls due at `n`.
    pub fn on_initialize<L: Ledger>(&mut self, ledger: &mut L, n: BlockNumber) -> (r: (
        Weight,
        Vec<Event>,
    ))
        requires
            old(self).wf(),
        ensures
            final(self).wf(),
            old(self)@.without_slot(n).settlement_run(
                list_or_empty(old(self)@.scheduled, n as u64),
                r.1@,
            ) == Some(final(self)@),
            r.0 == old(self)@.settlement_weight(n, settled_count(r.1@)),
            old(self)@.replay_safe() ==> final(self)@.replay_safe(),
            old(self)@.highest_settled <= final(self)@.highest_settled,
            old(self)@.highest_pruned == final(self)@.highest_pruned,
            old(self)@.watermarks_in_order() ==> final(self)@.watermarks_in_order(),
            old(self)@.escrow_safe() ==> final(self)@.escrow_safe(),
            old(self)@.credits_nothing(list_or_empty(old(self)@.scheduled, n as u64))
                ==> *final(ledger) == *old(ledger),
    {
        self.process_xrp_tx(ledger, n)
    }

    /// The hook for what is left of tick `now`: the delayed payment
    /// scheduler runs on the budget `remaining_weight`, and the pruner on
    /// what the scheduler leaves of it. Together they spend no more than
    /// the budget.
    pub fn on_idle(&mut self, now: BlockNumber, remaining_weight: Weight) -> (r: IdleReport)
        requires
            old(self).wf(),
        ensures
            final(self).wf(),
            ({
                let delayed = old(self)@.after_delayed_payments(now, remaining_weight);
                let pruned = delayed.0.after_prune(remaining_weight.spec_saturating_sub(delayed.1));
                &&& final(self)@ == pruned.0
                &&& r.weight == delayed.1.spec_saturating_add(pruned.1)
                &&& r.requests@ == delayed.2
            }),
            r.weight.ref_time <= remaining_weight.ref_time,
            old(self)@.highest_pruned <= final(self)@.highest_pruned,
            old(self)@.highest_settled == final(self)@.highest_settled,
            old(self)@.next_delay_process_block <= final(self)@.next_delay_process_block,
            old(self)@.replay_safe() ==> final(self)@.replay_safe(),
            old(self)@.watermarks_in_order() ==> final(self)@.watermarks_in_order(),
            old(self)@.escrow_safe() ==> final(self)@.escrow_safe(),
    {
        let (delay_weight, requests) = self.process_delayed_payments(now, remaining_weight);
        proof {
            crate::laws::law_replay_guard_frame(old(self)@, self@);
        }
        let prune_weight = self.clear_storages(remaining_weight.saturating_sub(delay_weight));
        IdleReport { weight: delay_weight.saturating_add(prune_weight), requests }
    }
}

} // verus!
