//! Relay intake and replay guard: who may report an observation, which
//! observations are taken, and when they fall due for settlement.

use crate::laws::{law_scheduling_keeps_replay_guard, law_submission_keeps_replay_guard, watermarks_kept};
use crate::pallet::{Config, GenesisConfig, Pallet, PalletView};
use crate::primitives::{AccountId, BlockNumber, DueTick, LedgerIndex, Timestamp, XrplTxHash};
use crate::storage::list_or_empty;
use crate::types::{Error, Event, Observation, XrpTransaction, XrplTxData};
use vstd::prelude::*;

verus! {

impl PalletView {
    /// Whether the slot of `tick` can take no further hash.
    pub open spec fn slot_full(self, tick: DueTick) -> bool {
        list_or_empty(self.scheduled, tick).len() >= self.config.xrp_transaction_limit
    }

    /// The state with `hash` appended to the slot of `tick`.
    pub open spec fn with_scheduled(self, tick: DueTick, hash: XrplTxHash) -> PalletView {
        PalletView {
            scheduled: self.scheduled.insert(tick, list_or_empty(self.scheduled, tick).push(hash)),
            ..self
        }
    }

    /// The state with `observation` recorded under `hash` and due at `tick`.
    pub open spec fn with_observation(
        self,
        hash: XrplTxHash,
        observation: Observation,
        tick: DueTick,
    ) -> PalletView {
        PalletView {
            observations: self.observations.insert(hash, observation),
            ..self.with_scheduled(tick, hash)
        }
    }

    /// Why a submission by `relayer` of `hash`, seen at `ledger_index` and due
    /// at `tick`, is rejected, if it is.
    pub open spec fn submit_error(
        self,
        relayer: AccountId,
        ledger_index: LedgerIndex,
        hash: XrplTxHash,
        tick: DueTick,
    ) -> Option<Error> {
        if !self.is_active_relayer(relayer) {
            Some(Error::NotPermitted)
        } else if ledger_index < self.window_start() {
            Some(Error::OutSideSubmissionWindow)
        } else if self.observations.contains_key(hash) {
            Some(Error::TxReplay)
        } else if self.slot_full(tick) {
            Some(Error::CannotProcessMoreTransactionsAtThatBlock)
        } else {
            None
        }
    }
}

impl Pallet {
    /// Marks each of `xrp_relayers` as an active relayer.
    pub fn initialize_relayer(&mut self, xrp_relayers: &Vec<AccountId>)
        requires
            old(self).wf(),
        ensures
            final(self).wf(),
            final(self)@ == (PalletView {
                relayers: Map::new(
                    |who: AccountId|
                        old(self)@.relayers.contains_key(who) || xrp_relayers@.contains(who),
                    |who: AccountId|
                        if xrp_relayers@.contains(who) {
                            true
                        } else {
                            old(self)@.relayers[who]
                        },
                ),
                ..old(self)@
            }),
            watermarks_kept(old(self)@, final(self)@),
            old(self)@.escrow_safe() ==> final(self)@.escrow_safe(),
            old(self)@.replay_safe() ==> final(self)@.replay_safe(),
    {
        let mut i: usize = 0;
        while i < xrp_relayers.len()
            invariant
                i <= xrp_relayers@.len(),
                self.wf(),
                self@ == (PalletView {
                    relayers: Map::new(
                        |who: AccountId|
                            old(self)@.relayers.contains_key(who) || xrp_relayers@.take(
                                i as int,
                            ).contains(who),
                        |who: AccountId|
                            if xrp_relayers@.take(i as int).contains(who) {
                                true
                            } else {
                                old(self)@.relayers[who]
                            },
                    ),
                    ..old(self)@
                }),
            decreases xrp_relayers@.len() - i,
        {
            let ghost before = xrp_relayers@.take(i as int);
            let ghost after = xrp_relayers@.take(i + 1);
            self.relayers.insert(xrp_relayers[i], true);
            proof {
                assert(after =~= before.push(xrp_relayers@[i as int]));
                assert forall|who: AccountId| after.contains(who) <==> (before.contains(who) || who
                    == xrp_relayers@[i as int]) by {
                    if before.contains(who) {
                        let j = choose|j: int| 0 <= j < before.len() && before[j] == who;
                        assert(after[j] == who);
                    }
                    if who == xrp_relayers@[i as int] {
                        assert(after[i as int] == who);
                    }
                }
            }
            i += 1;
        }
        assert(xrp_relayers@.take(xrp_relayers@.len() as int) =~= xrp_relayers@);
    }

    /// Adds `relayer` to the active relayers.
    pub fn add_relayer(&mut self, relayer: AccountId) -> (r: Event)
        requires
            old(self).wf(),
        ensures
            final(self).wf(),
            final(self)@ == (PalletView {
                relayers: old(self)@.relayers.insert(relayer, true),
                ..old(self)@
            }),
            r == Event::RelayerAdded(relayer),
            watermarks_kept(old(self)@, final(self)@),
            old(self)@.escrow_safe() ==> final(self)@.escrow_safe(),
            old(self)@.replay_safe() ==> final(self)@.replay_safe(),
    {
        self.relayers.insert(relayer, true);
        Event::RelayerAdded(relayer)
    }

    /// Takes `relayer` out of the relayer set; refused where it is not in it.
    pub fn remove_relayer(&mut self, relayer: AccountId) -> (r: Result<Event, Error>)
        requires
            old(self).wf(),
        ensures
            final(self).wf(),
            match r {
                Ok(event) => {
                    &&& old(self)@.relayers.contains_key(relayer)
                    &&& final(self)@ == (PalletView {
                        relayers: old(self)@.relayers.remove(relayer),
                        ..old(self)@
                    })
                    &&& event == Event::RelayerRemoved(relayer)
                },
                Err(e) => {
                    &&& !old(self)@.relayers.contains_key(relayer)
                    &&& final(self)@ == old(self)@
                    &&& e == Error::RelayerDoesNotExists
                },
            },
            watermarks_kept(old(self)@, final(self)@),
            old(self)@.escrow_safe() ==> final(self)@.escrow_safe(),
            old(self)@.replay_safe() ==> final(self)@.replay_safe(),
    {
        if self.relayers.contains_key(&relayer) {
            self.relayers.remove(&relayer);
            Ok(Event::RelayerRemoved(relayer))
        } else {
            Err(Error::RelayerDoesNotExists)
        }
    }

    /// Takes an observation from `relayer`: the transaction `transaction_hash`
    /// seen in ledger `ledger_index`. It is recorded and falls due for
    /// settlement one challenge period after `now`.
    ///
    /// Refused, with the state unchanged, where the relayer is not active,
    /// the ledger index lies before the submission window, the hash is
    /// already recorded, or the slot of the due tick is full.
    pub fn submit_transaction(
        &mut self,
        relayer: AccountId,
        ledger_index: LedgerIndex,
        transaction_hash: XrplTxHash,
        transaction: XrplTxData,
        timestamp: Timestamp,
        now: BlockNumber,
    ) -> (r: Result<Event, Error>)
        requires
            old(self).wf(),
        ensures
            final(self).wf(),
            match r {
                Ok(event) => {
                    &&& old(self)@.submit_error(
                        relayer,
                        ledger_index,
                        transaction_hash,
                        (now + old(self).config.challenge_period) as u64,
                    ) is None
                    &&& final(self)@ == old(self)@.with_observation(
                        transaction_hash,
                        Observation {
                            ledger_index,
                            transaction: XrpTransaction { transaction_hash, transaction, timestamp },
                            relayer,
                        },
                        (now + old(self).config.challenge_period) as u64,
                    )
                    &&& event == Event::TransactionAdded(ledger_index, transaction_hash)
                },
                Err(e) => {
                    &&& old(self)@.submit_error(
                        relayer,
                        ledger_index,
                        transaction_hash,
                        (now + old(self).config.challenge_period) as u64,
                    ) == Some(e)
                    &&& final(self)@ == old(self)@
                },
            },
            old(self)@.replay_safe() ==> final(self)@.replay_safe(),
            watermarks_kept(old(self)@, final(self)@),
            old(self)@.escrow_safe() ==> final(self)@.escrow_safe(),
    {
        let active = match self.relayers.get(&relayer) {
            Some(flag) => *flag,
            None => false,
        };
        if !active {
            return Err(Error::NotPermitted);
        }
        if ledger_index < self.submission_window_start() {
            return Err(Error::OutSideSubmissionWindow);
        }
        if self.observations.contains_key(&transaction_hash) {
            return Err(Error::TxReplay);
        }
        self.add_to_relay(relayer, ledger_index, transaction_hash, transaction, timestamp, now)
    }

    /// Records that `challenger` disputes `transaction_hash`: while the
    /// record stands the hash is not settled. Anyone may challenge, and a
    /// later challenge replaces the earlier one.
    pub fn submit_challenge(&mut self, challenger: AccountId, transaction_hash: XrplTxHash)
        requires
            old(self).wf(),
        ensures
            final(self).wf(),
            final(self)@ == (PalletView {
                challenges: old(self)@.challenges.insert(transaction_hash, challenger),
                ..old(self)@
            }),
            watermarks_kept(old(self)@, final(self)@),
            old(self)@.escrow_safe() ==> final(self)@.escrow_safe(),
            old(self)@.replay_safe() ==> final(self)@.replay_safe(),
    {
        self.challenges.insert(transaction_hash, challenger);
    }

    /// Records the observation under `transaction_hash`, replacing what was
    /// recorded there, and schedules it one challenge period after `now`.
    /// Refused, with the state unchanged, where the slot of the due tick is full.
    pub fn add_to_relay(
        &mut self,
        relayer: AccountId,
        ledger_index: LedgerIndex,
        transaction_hash: XrplTxHash,
        transaction: XrplTxData,
        timestamp: Timestamp,
        now: BlockNumber,
    ) -> (r: Result<Event, Error>)
        requires
            old(self).wf(),
        ensures
            final(self).wf(),
            match r {
                Ok(event) => {
                    &&& !old(self)@.slot_full((now + old(self).config.challenge_period) as u64)
                    &&& final(self)@ == old(self)@.with_observation(
                        transaction_hash,
                        Observation {
                            ledger_index,
                            transaction: XrpTransaction { transaction_hash, transaction, timestamp },
                            relayer,
                        },
                        (now + old(self).config.challenge_period) as u64,
                    )
                    &&& event == Event::TransactionAdded(ledger_index, transaction_hash)
                },
                Err(e) => {
                    &&& old(self)@.slot_full((now + old(self).config.challenge_period) as u64)
                    &&& final(self)@ == old(self)@
                    &&& e == Error::CannotProcessMoreTransactionsAtThatBlock
                },
            },
            old(self)@.replay_safe() && !old(self)@.observations.contains_key(transaction_hash)
                ==> final(self)@.replay_safe(),
            watermarks_kept(old(self)@, final(self)@),
            old(self)@.escrow_safe() ==> final(self)@.escrow_safe(),
    {
        proof {
            if old(self)@.replay_safe() && !old(self)@.observations.contains_key(transaction_hash) {
                law_submission_keeps_replay_guard(
                    old(self)@,
                    transaction_hash,
                    Observation {
                        ledger_index,
                        transaction: XrpTransaction { transaction_hash, transaction, timestamp },
                        relayer,
                    },
                    (now + old(self).config.challenge_period) as u64,
                );
            }
        }
        match self.add_to_xrp_process(transaction_hash, now) {
            Ok(()) => {},
            Err(e) => { return Err(e); },
        }
        let observation = Observation {
            ledger_index,
            transaction: XrpTransaction { transaction_hash, transaction, timestamp },
            relayer,
        };
        self.observations.insert(transaction_hash, observation);
        Ok(Event::TransactionAdded(ledger_index, transaction_hash))
    }

    /// Schedules `transaction_hash` for settlement one challenge period after
    /// `now`. Refused, with the state unchanged, where that slot is full.
    pub fn add_to_xrp_process(&mut self, transaction_hash: XrplTxHash, now: BlockNumber) -> (r:
        Result<(), Error>)
        requires
            old(self).wf(),
        ensures
            final(self).wf(),
            match r {
                Ok(()) => {
                    &&& !old(self)@.slot_full((now + old(self).config.challenge_period) as u64)
                    &&& final(self)@ == old(self)@.with_scheduled(
                        (now + old(self).config.challenge_period) as u64,
                        transaction_hash,
                    )
                },
                Err(e) => {
                    &&& old(self)@.slot_full((now + old(self).config.challenge_period) as u64)
                    &&& final(self)@ == old(self)@
                    &&& e == Error::CannotProcessMoreTransactionsAtThatBlock
                },
            },
            old(self)@.replay_safe() && old(self)@.observations.contains_key(transaction_hash)
                && !old(self)@.is_scheduled(transaction_hash) && !old(self)@.is_settled(
                transaction_hash,
            ) ==> final(self)@.replay_safe(),
            watermarks_kept(old(self)@, final(self)@),
            old(self)@.escrow_safe() ==> final(self)@.escrow_safe(),
    {
        proof {
            if old(self)@.replay_safe() && old(self)@.observations.contains_key(transaction_hash)
                && !old(self)@.is_scheduled(transaction_hash) && !old(self)@.is_settled(
                transaction_hash,
            ) {
                law_scheduling_keeps_replay_guard(
                    old(self)@,
                    (now + old(self).config.challenge_period) as u64,
                    transaction_hash,
                );
            }
        }
        let process_block_number: DueTick = now as u64 + self.config.challenge_period as u64;
        match self.scheduled.try_append(process_block_number, transaction_hash) {
            Ok(()) => Ok(()),
            Err(_) => Err(Error::CannotProcessMoreTransactionsAtThatBlock),
        }
    }
}

impl GenesisConfig {
    /// The engine at the start, with these relayers active. As with
    /// [`Pallet::new`], the watermarks are not in order until a reset has
    /// put them so.
    pub fn build(&self, config: Config) -> (r: Pallet)
        requires
            config.wf(),
        ensures
            r.wf(),
            r@ == (PalletView {
                relayers: Map::new(
                    |who: AccountId| self.xrp_relayers@.contains(who),
                    |who: AccountId| true,
                ),
                ..Pallet::genesis(config)
            }),
            r@.replay_safe(),
            r@.escrow_safe(),
            r@.highest_pruned > r@.window_start(),
    {
        let mut pallet = Pallet::new(config);
        pallet.initialize_relayer(&self.xrp_relayers);
        assert(pallet@.relayers =~= Map::new(
            |who: AccountId| self.xrp_relayers@.contains(who),
            |who: AccountId| true,
        ));
        proof {
            crate::laws::law_genesis_replay_safe(config);
            crate::laws::law_replay_guard_frame(Pallet::genesis(config), pallet@);
        }
        pallet
    }
}

} // verus!
