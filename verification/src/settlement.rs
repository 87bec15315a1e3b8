//! The settlement processor: once a tick it takes the observations that fall
//! due at that tick and applies each to the local ledger, in slot order.

use crate::laws::{
    law_settlement_keeps_replay_guard, law_settling_keeps_replay_guard, watermarks_kept,
};
use crate::pallet::{Pallet, PalletView};
use crate::primitives::{AccountId, AssetId, Balance, BlockNumber, LedgerIndex, XrplTxHash};
use crate::storage::list_or_empty;
use crate::types::{DispatchError, Error, Event, XrplTxData};
use crate::weight::Weight;
use vstd::prelude::*;

verus! {

/// The local asset ledger, as far as settlement needs it. Nothing is assumed
/// of what a call answers.
pub trait Ledger {
    /// Credits `amount` of `asset_id` to `who`.
    fn mint_into(&mut self, asset_id: AssetId, who: &AccountId, amount: Balance) -> Result<
        (),
        DispatchError,
    >;
}

/// What is to be done with a hash that falls due.
#[derive(Clone, Copy, Debug, PartialEq, Eq)]
pub enum DueAction {
    /// Leave it: it is challenged, or nothing is recorded under it.
    Skip,
    /// Report it as unsupported: it is no payment of the bridged asset.
    Unsupported,
    /// Report it as failed: the list of its ledger index is full.
    Full { ledger_index: LedgerIndex },
    /// Credit the amount of the asset to the account and, where the ledger
    /// accepts, record the hash as settled.
    Credit { asset_id: AssetId, ledger_index: LedgerIndex, account: AccountId, amount: Balance },
}

/// How many of `events` report a settled transaction.
pub open spec fn settled_count(events: Seq<Event>) -> nat
    decreases events.len(),
{
    if events.len() == 0 {
        0
    } else {
        settled_count(events.drop_last()) + if events.last() is ProcessingOk {
            1nat
        } else {
            0nat
        }
    }
}

impl PalletView {
    /// Whether the list of `ledger_index` can take no further hash.
    pub open spec fn ledger_full(self, ledger_index: LedgerIndex) -> bool {
        list_or_empty(self.settled, ledger_index).len()
            >= self.config.xrpl_transaction_limit_per_ledger
    }

    /// What is to be done with `hash` when it falls due.
    pub open spec fn due_action(self, hash: XrplTxHash) -> DueAction {
        if self.challenges.contains_key(hash) || !self.observations.contains_key(hash) {
            DueAction::Skip
        } else {
            let observation = self.observations[hash];
            match observation.transaction.transaction {
                XrplTxData::Payment { amount, address } => if self.ledger_full(
                    observation.ledger_index,
                ) {
                    DueAction::Full { ledger_index: observation.ledger_index }
                } else {
                    DueAction::Credit {
                        asset_id: self.config.xrp_asset_id,
                        ledger_index: observation.ledger_index,
                        account: address,
                        amount,
                    }
                },
                _ => DueAction::Unsupported,
            }
        }
    }

    /// Whether none of the hashes `due` is to be credited.
    pub open spec fn credits_nothing(self, due: Seq<XrplTxHash>) -> bool {
        forall|i: int| 0 <= i < due.len() ==> !(#[trigger] self.due_action(due[i]) is Credit)
    }

    /// The state with `hash` recorded as settled at `ledger_index`.
    pub open spec fn after_settle(self, hash: XrplTxHash, ledger_index: LedgerIndex) -> PalletView {
        PalletView {
            settled: self.settled.insert(
                ledger_index,
                list_or_empty(self.settled, ledger_index).push(hash),
            ),
            highest_settled: if self.highest_settled < ledger_index {
                ledger_index
            } else {
                self.highest_settled
            },
            ..self
        }
    }

    /// The state with the slot of `tick` taken out.
    pub open spec fn without_slot(self, tick: BlockNumber) -> PalletView {
        PalletView { scheduled: self.scheduled.remove(tick as u64), ..self }
    }

    /// The state that settlement of the hashes `due`, in order, ends in when
    /// it reports `events`; `None` where it cannot report them. A hash to
    /// skip reports nothing. An unsupported one and one whose ledger list is
    /// full report that. A payment reports either that it is settled, and
    /// then it is, or that the ledger refused the credit, and then the state
    /// stays as it is.
    pub open spec fn settlement_run(self, due: Seq<XrplTxHash>, events: Seq<Event>) -> Option<
        PalletView,
    >
        decreases due.len(),
    {
        if due.len() == 0 {
            if events.len() == 0 {
                Some(self)
            } else {
                None
            }
        } else {
            let hash = due[0];
            let rest = due.drop_first();
            match self.due_action(hash) {
                DueAction::Skip => self.settlement_run(rest, events),
                DueAction::Unsupported => if events.len() > 0 && events[0]
                    == Event::NotSupportedTransaction {
                    self.settlement_run(rest, events.drop_first())
                } else {
                    None
                },
                DueAction::Full { ledger_index } => if events.len() > 0 && events[0]
                    == Event::ProcessingFailed(
                    ledger_index,
                    hash,
                    DispatchError::Module(Error::TooManyTransactionsPerLedger),
                ) {
                    self.settlement_run(rest, events.drop_first())
                } else {
                    None
                },
                DueAction::Credit { asset_id, ledger_index, account, amount } => if events.len() > 0
                    && events[0] == Event::ProcessingOk(ledger_index, hash) {
                    self.after_settle(hash, ledger_index).settlement_run(rest, events.drop_first())
                } else if events.len() > 0 && events[0] is ProcessingFailed && events[0]->ProcessingFailed_0
                    == ledger_index && events[0]->ProcessingFailed_1 == hash {
                    self.settlement_run(rest, events.drop_first())
                } else {
                    None
                },
            }
        }
    }

    /// What settlement of a slot costs: two reads where the tick has no
    /// slot; else three reads, two more for each due hash and two more for
    /// each settled one, and one write with two more for each settled one.
    pub open spec fn settlement_weight(self, tick: BlockNumber, settled: nat) -> Weight {
        if self.scheduled.contains_key(tick as u64) {
            self.config.db_weight.spec_reads_writes(
                (3 + 2 * self.scheduled[tick as u64].len() + 2 * settled) as u64,
                (1 + 2 * settled) as u64,
            )
        } else {
            self.config.db_weight.spec_reads(2)
        }
    }
}

impl PalletView {
    /// Settlement never lowers the highest settled ledger index and leaves
    /// the highest pruned one, the window and the delayed withdrawals alone.
    pub proof fn lemma_settlement_monotone(self, due: Seq<XrplTxHash>, events: Seq<Event>)
        requires
            self.settlement_run(due, events) is Some,
        ensures
            self.highest_settled <= self.settlement_run(due, events)->Some_0.highest_settled,
            self.highest_pruned == self.settlement_run(due, events)->Some_0.highest_pruned,
            self.window_width == self.settlement_run(due, events)->Some_0.window_width,
            self.delayed_schedule == self.settlement_run(due, events)->Some_0.delayed_schedule,
            self.delayed_payments == self.settlement_run(due, events)->Some_0.delayed_payments,
            self.next_delayed_payment_id == self.settlement_run(
                due,
                events,
            )->Some_0.next_delayed_payment_id,
        decreases due.len(),
    {
        if due.len() > 0 {
            let hash = due[0];
            let rest = due.drop_first();
            match self.due_action(hash) {
                DueAction::Skip => self.lemma_settlement_monotone(rest, events),
                DueAction::Credit { asset_id, ledger_index, account, amount } => if events[0]
                    == Event::ProcessingOk(ledger_index, hash) {
                    self.after_settle(hash, ledger_index).lemma_settlement_monotone(
                        rest,
                        events.drop_first(),
                    )
                } else {
                    self.lemma_settlement_monotone(rest, events.drop_first())
                },
                _ => self.lemma_settlement_monotone(rest, events.drop_first()),
            }
        }
    }
}

impl Pallet {
    /// What is to be done with `hash` when it falls due.
    pub fn due_action(&self, hash: &XrplTxHash) -> (r: DueAction)
        requires
            self.wf(),
        ensures
            r == self@.due_action(*hash),
    {
        if self.challenges.contains_key(hash) {
            return DueAction::Skip;
        }
        let observation = match self.observations.get(hash) {
            Some(observation) => *observation,
            None => { return DueAction::Skip; },
        };
        match observation.transaction.transaction {
            XrplTxData::Payment { amount, address } => {
                let full = match self.settled.get(&observation.ledger_index) {
                    Some(list) => list.len() >= self.settled.limit() as usize,
                    None => self.settled.limit() == 0,
                };
                if full {
                    DueAction::Full { ledger_index: observation.ledger_index }
                } else {
                    DueAction::Credit {
                        asset_id: self.config.xrp_asset_id,
                        ledger_index: observation.ledger_index,
                        account: address,
                        amount,
                    }
                }
            },
            _ => DueAction::Unsupported,
        }
    }

    /// Records `hash` as settled at `ledger_index` and raises the highest
    /// settled ledger index to it. Refused, with the state unchanged, where
    /// the list of that ledger index is full.
    pub fn settle(&mut self, hash: XrplTxHash, ledger_index: LedgerIndex) -> (r: Result<(), Error>)
        requires
            old(self).wf(),
        ensures
            final(self).wf(),
            match r {
                Ok(()) => !old(self)@.ledger_full(ledger_index) && final(self)@
                    == old(self)@.after_settle(hash, ledger_index),
                Err(e) => old(self)@.ledger_full(ledger_index) && final(self)@ == old(self)@ && e
                    == Error::TooManyTransactionsPerLedger,
            },
            watermarks_kept(old(self)@, final(self)@),
            old(self)@.escrow_safe() ==> final(self)@.escrow_safe(),
            old(self)@.replay_safe() && old(self)@.observations.contains_key(hash)
                && !old(self)@.is_scheduled(hash) && !old(self)@.is_settled(hash)
                ==> final(self)@.replay_safe(),
    {
        proof {
            if old(self)@.replay_safe() && old(self)@.observations.contains_key(hash)
                && !old(self)@.is_scheduled(hash) && !old(self)@.is_settled(hash) {
                law_settling_keeps_replay_guard(old(self)@, hash, ledger_index);
            }
        }
        match self.settled.try_append(ledger_index, hash) {
            Ok(()) => {
                if self.highest_settled_ledger_index < ledger_index {
                    self.highest_settled_ledger_index = ledger_index;
                }
                Ok(())
            },
            Err(_) => Err(Error::TooManyTransactionsPerLedger),
        }
    }

    /// Takes the ledger's answer to the credit for `hash`: where it
    /// accepted, the hash is recorded as settled at `ledger_index`; where it
    /// refused, or the list of the ledger index is full, the failure is
    /// reported and the state stays as it is.
    pub fn settle_credited(
        &mut self,
        hash: XrplTxHash,
        ledger_index: LedgerIndex,
        credited: Result<(), DispatchError>,
    ) -> (r: Event)
        requires
            old(self).wf(),
        ensures
            final(self).wf(),
            match credited {
                Ok(()) => if old(self)@.ledger_full(ledger_index) {
                    final(self)@ == old(self)@ && r == Event::ProcessingFailed(
                        ledger_index,
                        hash,
                        DispatchError::Module(Error::TooManyTransactionsPerLedger),
                    )
                } else {
                    final(self)@ == old(self)@.after_settle(hash, ledger_index) && r
                        == Event::ProcessingOk(ledger_index, hash)
                },
                Err(e) => final(self)@ == old(self)@ && r == Event::ProcessingFailed(
                    ledger_index,
                    hash,
                    e,
                ),
            },
            watermarks_kept(old(self)@, final(self)@),
            old(self)@.escrow_safe() ==> final(self)@.escrow_safe(),
            old(self)@.replay_safe() && old(self)@.observations.contains_key(hash)
                && !old(self)@.is_scheduled(hash) && !old(self)@.is_settled(hash)
                ==> final(self)@.replay_safe(),
    {
        proof {
            if old(self)@.replay_safe() && old(self)@.observations.contains_key(hash)
                && !old(self)@.is_scheduled(hash) && !old(self)@.is_settled(hash) {
                law_settling_keeps_replay_guard(old(self)@, hash, ledger_index);
            }
        }
        match credited {
            Ok(()) => match self.settle(hash, ledger_index) {
                Ok(()) => Event::ProcessingOk(ledger_index, hash),
                Err(e) => Event::ProcessingFailed(ledger_index, hash, DispatchError::Module(e)),
            },
            Err(e) => Event::ProcessingFailed(ledger_index, hash, e),
        }
    }

    /// Settles what falls due at tick `n`. The slot of `n` is taken out, and
    /// its hashes are gone through in order: a challenged hash and one with
    /// no observation are left alone; a payment is credited on `ledger` and,
    /// where the ledger accepts, recorded as settled; where the ledger
    /// refuses, the failure is reported and the transaction is neither
    /// settled nor tried again. The ledger is asked what `due_action` names
    /// and nothing else: where no hash is to be credited it is left as it
    /// was. Returns the cost and the events, in order.
    pub fn process_xrp_tx<L: Ledger>(&mut self, ledger: &mut L, n: BlockNumber) -> (r: (
        Weight,
        Vec<Event>,
    ))
        requires
            old(self).wf(),
        ensures
            final(self).wf(),
            old(self)@.without_slot(n).settlement_run(
                list_or_empty(old(self)@.scheduled, n as u64),
                r.1@,
            ) == Some(final(self)@),
            r.0 == old(self)@.settlement_weight(n, settled_count(r.1@)),
            settled_count(r.1@) <= list_or_empty(old(self)@.scheduled, n as u64).len(),
            old(self)@.replay_safe() ==> final(self)@.replay_safe(),
            old(self)@.highest_settled <= final(self)@.highest_settled,
            old(self)@.highest_pruned == final(self)@.highest_pruned,
            old(self)@.watermarks_in_order() ==> final(self)@.watermarks_in_order(),
            old(self)@.escrow_safe() ==> final(self)@.escrow_safe(),
            old(self)@.credits_nothing(list_or_empty(old(self)@.scheduled, n as u64))
                ==> *final(ledger) == *old(ledger),
    {
        proof {
            assert(old(self)@.without_slot(n).highest_settled == old(self)@.highest_settled);
        }
        let mut events: Vec<Event> = Vec::new();
        let tx_items = match self.scheduled.take(&(n as u64)) {
            Some(list) => list,
            None => {
                assert(self@ == old(self)@.without_slot(n));
                assert(self@ == old(self)@);
                return (self.config.db_weight.reads(2), events);
            },
        };
        let ghost start = self@;
        let ghost due = tx_items@;
        let mut settled: u64 = 0;
        let mut i: usize = 0;
        assert(due.skip(0) =~= due);
        assert(events@ + Seq::<Event>::empty() =~= events@);
        assert forall|s: Seq<Event>| #[trigger]
            start.settlement_run(due, events@ + s) == self@.settlement_run(due.skip(0), s) by {
            assert(events@ + s =~= s);
        }
        while i < tx_items.len()
            invariant
                i <= due.len(),
                due == tx_items@,
                self.wf(),
                self.config == start.config,
                start.credits_nothing(due.take(i as int)) ==> self@ == start && *ledger
                    == *old(ledger),
                settled == settled_count(events@),
                settled <= i,
                forall|s: Seq<Event>| #[trigger]
                    start.settlement_run(due, events@ + s) == self@.settlement_run(
                        due.skip(i as int),
                        s,
                    ),
            decreases due.len() - i,
        {
            let hash = tx_items[i];
            let ghost before = self@;
            let ghost reported = events@;
            let ghost tail = due.skip(i as int);
            assert(tail.len() > 0 && tail[0] == hash);
            assert(tail.drop_first() =~= due.skip(i + 1));
            proof {
                if start.credits_nothing(due.take(i + 1)) {
                    assert forall|j: int| 0 <= j < i implies !(#[trigger] start.due_action(
                        due.take(i as int)[j],
                    ) is Credit) by {
                        assert(due.take(i + 1)[j] == due.take(i as int)[j]);
                    }
                    assert(due.take(i + 1)[i as int] == hash);
                    assert(!(start.due_action(hash) is Credit));
                }
            }
            match self.due_action(&hash) {
                DueAction::Skip => {},
                DueAction::Unsupported => {
                    events.push(Event::NotSupportedTransaction);
                },
                DueAction::Full { ledger_index } => {
                    events.push(
                        Event::ProcessingFailed(
                            ledger_index,
                            hash,
                            DispatchError::Module(Error::TooManyTransactionsPerLedger),
                        ),
                    );
                },
                DueAction::Credit { asset_id, ledger_index, account, amount } => {
                    let credited = ledger.mint_into(asset_id, &account, amount);
                    if credited.is_ok() {
                        settled = settled + 1;
                    }
                    let event = self.settle_credited(hash, ledger_index, credited);
                    events.push(event);
                },
            }
            proof {
                if events@.len() > reported.len() {
                    let event = events@.last();
                    assert(events@ == reported.push(event));
                    assert(events@.drop_last() =~= reported);
                    assert forall|s: Seq<Event>| #[trigger]
                        start.settlement_run(due, events@ + s) == self@.settlement_run(
                            due.skip(i + 1),
                            s,
                        ) by {
                        let longer = seq![event] + s;
                        assert(events@ + s =~= reported + longer);
                        assert(start.settlement_run(due, reported + longer)
                            == before.settlement_run(tail, longer));
                        assert(longer[0] == event);
                        assert(longer.drop_first() =~= s);
                    }
                } else {
                    assert forall|s: Seq<Event>| #[trigger]
                        start.settlement_run(due, events@ + s) == self@.settlement_run(
                            due.skip(i + 1),
                            s,
                        ) by {
                        assert(start.settlement_run(due, reported + s) == before.settlement_run(
                            tail,
                            s,
                        ));
                    }
                }
            }
            i += 1;
        }
        proof {
            assert(due.take(due.len() as int) =~= due);
            if old(self)@.credits_nothing(due) {
                assert forall|j: int| 0 <= j < due.len() implies !(#[trigger] start.due_action(
                    due[j],
                ) is Credit) by {
                    assert(start.due_action(due[j]) == old(self)@.due_action(due[j]));
                }
            }
            assert(events@ + Seq::<Event>::empty() =~= events@);
            assert(start.settlement_run(due, events@ + Seq::<Event>::empty())
                == self@.settlement_run(due.skip(due.len() as int), Seq::<Event>::empty()));
            assert(start == old(self)@.without_slot(n));
            assert(due == old(self)@.scheduled[n as u64]);
            assert(due.len() <= u32::MAX);
            start.lemma_settlement_monotone(due, events@);
            if old(self)@.replay_safe() {
                law_settlement_keeps_replay_guard(old(self)@, n, events@);
            }
        }
        let items = tx_items.len() as u64;
        let reads: u64 = 3 + 2 * items + 2 * settled;
        let writes: u64 = 1 + 2 * settled;
        (self.config.db_weight.reads_writes(reads, writes), events)
    }
}

} // verus!
