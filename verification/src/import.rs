//! Bulk import of settled history, for initialisation and repair.

use crate::laws::{law_settling_unrecorded_keeps_replay_guard, watermarks_kept};
use crate::pallet::{Pallet, PalletView};
use crate::primitives::{AccountId, XrplTxHash};
use crate::storage::list_or_empty;
use crate::types::{Error, Observation, XrpTransaction};
use vstd::prelude::*;

verus! {

/// A settled transaction to import: its hash, the ledger index it was seen
/// in, what it says, and who reported it.
pub type SettledTx = (XrplTxHash, u32, XrpTransaction, AccountId);

impl PalletView {
    /// The state with the settled transactions `data` imported in order:
    /// each is recorded under its hash and appended to the list of its
    /// ledger index. The import fails at the first transaction whose hash is
    /// on record already, or whose ledger index has a full list.
    pub open spec fn with_imported(self, data: Seq<SettledTx>) -> Result<PalletView, Error>
        decreases data.len(),
    {
        if data.len() == 0 {
            Ok(self)
        } else {
            match self.with_imported(data.drop_last()) {
                Err(e) => Err(e),
                Ok(earlier) => {
                    let (hash, ledger_index, transaction, relayer) = data.last();
                    if earlier.observations.contains_key(hash) {
                        Err(Error::TxReplay)
                    } else if earlier.ledger_full(ledger_index) {
                        Err(Error::TooManyTransactionsPerLedger)
                    } else {
                        Ok(
                            PalletView {
                                observations: earlier.observations.insert(
                                    hash,
                                    Observation { ledger_index, transaction, relayer },
                                ),
                                settled: earlier.settled.insert(
                                    ledger_index,
                                    list_or_empty(earlier.settled, ledger_index).push(hash),
                                ),
                                ..earlier
                            },
                        )
                    }
                },
            }
        }
    }

    /// The highest pruned ledger index that a reset leaves: the one given,
    /// or the stored one where none is given.
    pub open spec fn pruned_after_reset(self, highest_pruned: Option<u32>) -> u32 {
        if highest_pruned is Some {
            highest_pruned->Some_0
        } else {
            self.highest_pruned
        }
    }

    /// Why a reset to these watermarks with this import is refused, if it
    /// is: the highest pruned index that it would leave lies past the start
    /// of the new window or before the stored one; the highest settled index
    /// lies before the stored one; or the import fails.
    pub open spec fn reset_error(
        self,
        highest_settled: u32,
        window_width: u32,
        highest_pruned: Option<u32>,
        data: Option<Seq<SettledTx>>,
    ) -> Option<Error> {
        let pruned = self.pruned_after_reset(highest_pruned);
        let window_start = if highest_settled >= window_width {
            highest_settled - window_width
        } else {
            0
        };
        if pruned > window_start || pruned < self.highest_pruned {
            Some(Error::InvalidHighestPrunedIndex)
        } else if highest_settled < self.highest_settled {
            Some(Error::InvalidHighestSettledIndex)
        } else if data is Some && self.with_imported(data->Some_0) is Err {
            Some(self.with_imported(data->Some_0)->Err_0)
        } else {
            None
        }
    }

    /// The state after a reset that is accepted.
    pub open spec fn after_reset(
        self,
        highest_settled: u32,
        window_width: u32,
        highest_pruned: Option<u32>,
        data: Option<Seq<SettledTx>>,
    ) -> PalletView {
        let imported = if data is Some {
            self.with_imported(data->Some_0)->Ok_0
        } else {
            self
        };
        PalletView {
            highest_settled,
            window_width,
            highest_pruned: self.pruned_after_reset(highest_pruned),
            ..imported
        }
    }

    /// An import changes nothing but the observations and the settled
    /// index, and keeps the replay guard.
    pub proof fn lemma_import(self, data: Seq<SettledTx>)
        requires
            self.with_imported(data) is Ok,
        ensures
            self.with_imported(data)->Ok_0 == (PalletView {
                observations: self.with_imported(data)->Ok_0.observations,
                settled: self.with_imported(data)->Ok_0.settled,
                ..self
            }),
            self.replay_safe() ==> self.with_imported(data)->Ok_0.replay_safe(),
        decreases data.len(),
    {
        if data.len() > 0 {
            self.lemma_import(data.drop_last());
            if self.replay_safe() {
                let earlier = self.with_imported(data.drop_last())->Ok_0;
                let (hash, ledger_index, transaction, relayer) = data.last();
                law_settling_unrecorded_keeps_replay_guard(
                    earlier,
                    hash,
                    Observation { ledger_index, transaction, relayer },
                );
            }
        }
    }

    /// An import that fails on a front part of the data fails on all of it,
    /// in the same way.
    pub proof fn lemma_import_fails_on(self, data: Seq<SettledTx>, front: int)
        requires
            0 <= front <= data.len(),
            self.with_imported(data.take(front)) is Err,
        ensures
            self.with_imported(data) == self.with_imported(data.take(front)),
        decreases data.len() - front,
    {
        if front == data.len() {
            assert(data.take(front) =~= data);
        } else {
            assert(data.take(front + 1).drop_last() =~= data.take(front));
            self.lemma_import_fails_on(data, front + 1);
        }
    }
}

impl Pallet {
    /// Sets the two watermarks and the window width, and imports settled
    /// transactions. The highest pruned index is left as it is where none is
    /// given. Neither watermark may fall, and the highest pruned index must
    /// not pass the start of the new window, given or not: so an accepted
    /// reset leaves the watermarks in order. A transaction whose hash is on
    /// record already is not imported: so the reset keeps the replay guard.
    /// Refused, with the state unchanged, where any of this fails or a
    /// ledger index cannot hold all that is imported under it.
    #[verifier::loop_isolation(false)]
    pub fn reset_settled_xrpl_tx_data(
        &mut self,
        highest_settled_ledger_index: u32,
        submission_window_width: u32,
        highest_pruned_ledger_index: Option<u32>,
        settled_tx_data: Option<Vec<SettledTx>>,
    ) -> (r: Result<(), Error>)
        requires
            old(self).wf(),
        ensures
            final(self).wf(),
            match r {
                Ok(()) => {
                    &&& old(self)@.reset_error(
                        highest_settled_ledger_index,
                        submission_window_width,
                        highest_pruned_ledger_index,
                        match settled_tx_data {
                            Some(data) => Some(data@),
                            None => None,
                        },
                    ) is None
                    &&& final(self)@ == old(self)@.after_reset(
                        highest_settled_ledger_index,
                        submission_window_width,
                        highest_pruned_ledger_index,
                        match settled_tx_data {
                            Some(data) => Some(data@),
                            None => None,
                        },
                    )
                },
                Err(e) => {
                    &&& old(self)@.reset_error(
                        highest_settled_ledger_index,
                        submission_window_width,
                        highest_pruned_ledger_index,
                        match settled_tx_data {
                            Some(data) => Some(data@),
                            None => None,
                        },
                    ) == Some(e)
                    &&& final(self)@ == old(self)@
                },
            },
            r is Ok ==> final(self)@.watermarks_in_order(),
            r is Ok ==> watermarks_kept(old(self)@, final(self)@),
            old(self)@.escrow_safe() ==> final(self)@.escrow_safe(),
            old(self)@.replay_safe() ==> final(self)@.replay_safe(),
    {
        proof {
            if settled_tx_data is Some && old(self)@.with_imported(settled_tx_data->Some_0@) is Ok {
                old(self)@.lemma_import(settled_tx_data->Some_0@);
            }
        }
        let highest_pruned = match highest_pruned_ledger_index {
            Some(given) => given,
            None => self.highest_pruned_ledger_index,
        };
        if highest_pruned > highest_settled_ledger_index.saturating_sub(submission_window_width)
            || highest_pruned < self.highest_pruned_ledger_index {
            return Err(Error::InvalidHighestPrunedIndex);
        }
        if highest_settled_ledger_index < self.highest_settled_ledger_index {
            return Err(Error::InvalidHighestSettledIndex);
        }
        if let Some(settled_txs) = settled_tx_data {
            let mut observations = self.observations.duplicate();
            let mut settled = self.settled.duplicate();
            let ghost start = self@;
            let mut i: usize = 0;
            assert(settled_txs@.take(0) =~= Seq::<SettledTx>::empty());
            while i < settled_txs.len()
                invariant
                    i <= settled_txs@.len(),
                    observations.wf(),
                    settled.wf(),
                    settled.bound() == start.config.xrpl_transaction_limit_per_ledger,
                    start.with_imported(settled_txs@.take(i as int)) == Ok::<PalletView, Error>(
                        PalletView { observations: observations@, settled: settled@, ..start },
                    ),
                decreases settled_txs@.len() - i,
            {
                let (hash, ledger_index, transaction, relayer) = settled_txs[i];
                proof {
                    assert(settled_txs@.take(i + 1).drop_last() =~= settled_txs@.take(i as int));
                    assert(settled_txs@.take(i + 1).last() == settled_txs@[i as int]);
                }
                if observations.contains_key(&hash) {
                    proof {
                        start.lemma_import_fails_on(settled_txs@, i + 1);
                    }
                    return Err(Error::TxReplay);
                }
                match settled.try_append(ledger_index, hash) {
                    Ok(()) => {},
                    Err(_) => {
                        proof {
                            start.lemma_import_fails_on(settled_txs@, i + 1);
                        }
                        return Err(Error::TooManyTransactionsPerLedger);
                    },
                }
                observations.insert(hash, Observation { ledger_index, transaction, relayer });
                i += 1;
            }
            assert(settled_txs@.take(settled_txs@.len() as int) =~= settled_txs@);
            self.observations = observations;
            self.settled = settled;
        }
        self.highest_pruned_ledger_index = highest_pruned;
        self.highest_settled_ledger_index = highest_settled_ledger_index;
        self.submission_window_width = submission_window_width;
        Ok(())
    }
}

} // verus!
