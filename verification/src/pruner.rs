//! The history pruner: reclaims settled transactions that lie before the
//! submission window, as far as a compute budget allows.

use crate::laws::{
    law_clearing_keeps_replay_guard, law_pruning_keeps_replay_guard, law_pruning_makes_progress,
    watermarks_kept,
};
use crate::pallet::{Pallet, PalletView};
use crate::primitives::{LedgerIndex, XrplTxHash};
use crate::storage::without_keys;
use crate::types::{Error, Event};
use crate::weight::Weight;
use vstd::prelude::*;

verus! {

/// How many units of cost `unit` the budget `remaining` still affords once
/// `used` is spent, and at most `wanted`.
pub open spec fn affordable(remaining: Weight, used: Weight, unit: Weight, wanted: nat) -> nat {
    let afford = remaining.spec_saturating_sub(used).spec_div(unit.ref_time).ref_time;
    if afford < wanted {
        afford as nat
    } else {
        wanted
    }
}

impl PalletView {
    /// The ledger index at which a pruner run stops at the latest: the start
    /// of the submission window, or the most that one run may walk.
    pub open spec fn prune_end(self) -> u32 {
        if self.window_start() < self.highest_pruned
            + self.config.max_pruned_transactions_per_block {
            self.window_start()
        } else {
            (self.highest_pruned + self.config.max_pruned_transactions_per_block) as u32
        }
    }

    /// The least budget with which the pruner starts work: three reads, and
    /// one read and three writes for a first ledger index. It is what
    /// clearing one hash and passing its index costs.
    pub open spec fn prune_floor(self) -> int {
        self.config.db_weight.cost(4, 3)
    }

    /// The pruner's walk from the highest pruned ledger index up to `end`,
    /// with `used` spent so far of `remaining`: the state it ends in and what
    /// it has spent.
    ///
    /// It stops before an index for which the budget does not pay a read
    /// and two writes: the index's own, and one for a hash.
    /// An index with nothing settled costs a read and is passed. Otherwise a
    /// read and a write are spent, and as many hashes of the index are
    /// cleared from its front, at one write each, as the rest of the budget
    /// affords, each with its observation. Where hashes remain, they stay
    /// under the index and the walk ends there; else the index is passed.
    pub open spec fn prune_walk(self, end: u32, used: Weight, remaining: Weight) -> (
        PalletView,
        Weight,
    )
        decreases end - self.highest_pruned,
    {
        let db = self.config.db_weight;
        let index = self.highest_pruned;
        if index >= end || remaining.ref_time < used.ref_time + db.cost(1, 2) {
            (self, used)
        } else if !self.settled.contains_key(index) {
            (PalletView { highest_pruned: (index + 1) as u32, ..self }).prune_walk(
                end,
                used.spec_saturating_add(db.spec_reads(1)),
                remaining,
            )
        } else {
            let list = self.settled[index];
            let opened = used.spec_saturating_add(db.spec_reads(1)).spec_saturating_add(
                db.spec_writes(1),
            );
            let count = affordable(remaining, opened, db.spec_writes(1), list.len());
            let spent = opened.spec_saturating_add(
                db.spec_writes(1).spec_saturating_mul(count as u64),
            );
            let observations = without_keys(self.observations, list.take(count as int));
            if count < list.len() {
                (
                    PalletView {
                        observations,
                        settled: self.settled.insert(index, list.skip(count as int)),
                        ..self
                    },
                    spent,
                )
            } else {
                (PalletView {
                    observations,
                    settled: self.settled.remove(index),
                    highest_pruned: (index + 1) as u32,
                    ..self
                }).prune_walk(end, spent, remaining)
            }
        }
    }

    /// The state after a pruner run with the budget `remaining`, and what the
    /// run spends. With less than the least budget nothing is done and
    /// nothing spent.
    /// With nothing to walk, three reads are spent. Else a write is added for
    /// the watermark, and taken off again where the watermark did not move.
    pub open spec fn after_prune(self, remaining: Weight) -> (PalletView, Weight) {
        let db = self.config.db_weight;
        if remaining.ref_time < self.prune_floor() {
            (self, Weight { ref_time: 0 })
        } else if self.highest_pruned >= self.prune_end() {
            (self, db.spec_reads(3))
        } else {
            let walked = self.prune_walk(
                self.prune_end(),
                db.spec_reads(3).spec_saturating_add(db.spec_writes(1)),
                remaining,
            );
            if walked.0.highest_pruned > self.highest_pruned {
                walked
            } else {
                (walked.0, walked.1.spec_saturating_sub(db.spec_writes(1)))
            }
        }
    }

    /// What a pruner walk leaves alone, and the bounds it keeps: any budget
    /// not yet overspent is not overspent after it; the watermark does not
    /// fall and does not pass `end`; settled lists outside the walked range
    /// stay; under a walked index that is not passed a non-empty tail of its
    /// list stays; no observation is added or altered.
    pub proof fn lemma_prune_walk(self, end: u32, used: Weight, remaining: Weight)
        requires
            self.config.wf(),
            used.ref_time <= remaining.ref_time,
        ensures
            ({
                let (after, spent) = self.prune_walk(end, used, remaining);
                &&& used.ref_time <= spent.ref_time <= remaining.ref_time
                &&& self.highest_pruned <= after.highest_pruned
                &&& after.highest_pruned <= end || after.highest_pruned == self.highest_pruned
                &&& after == (PalletView {
                    observations: after.observations,
                    settled: after.settled,
                    highest_pruned: after.highest_pruned,
                    ..self
                })
                &&& forall|ledger: LedgerIndex|
                    ledger < self.highest_pruned || ledger >= end ==> (
                    #[trigger] after.settled.contains_key(ledger)
                        == self.settled.contains_key(ledger)) && (self.settled.contains_key(ledger)
                        ==> after.settled[ledger] == self.settled[ledger])
                &&& forall|ledger: LedgerIndex|
                    self.highest_pruned <= ledger < after.highest_pruned
                        ==> !#[trigger] after.settled.contains_key(ledger)
                &&& forall|hash: XrplTxHash| #[trigger]
                    after.observations.contains_key(hash) ==> self.observations.contains_key(hash)
                        && after.observations[hash] == self.observations[hash]
            }),
        decreases end - self.highest_pruned,
    {
        let db = self.config.db_weight;
        let index = self.highest_pruned;
        assert(db.spec_writes(1).ref_time == db.write);
        if index >= end || remaining.ref_time < used.ref_time + db.cost(1, 2) {
        } else if !self.settled.contains_key(index) {
            let next = PalletView { highest_pruned: (index + 1) as u32, ..self };
            next.lemma_prune_walk(end, used.spec_saturating_add(db.spec_reads(1)), remaining);
        } else {
            let list = self.settled[index];
            let opened = used.spec_saturating_add(db.spec_reads(1)).spec_saturating_add(
                db.spec_writes(1),
            );
            let count = affordable(remaining, opened, db.spec_writes(1), list.len());
            let spent = opened.spec_saturating_add(
                db.spec_writes(1).spec_saturating_mul(count as u64),
            );
            lemma_affordable(remaining, opened, db.spec_writes(1), list.len());
            if count < list.len() {
            } else {
                let next = PalletView {
                    observations: without_keys(self.observations, list.take(count as int)),
                    settled: self.settled.remove(index),
                    highest_pruned: (index + 1) as u32,
                    ..self
                };
                next.lemma_prune_walk(end, spent, remaining);
            }
        }
    }
}

/// Spending what is affordable stays within the budget.
pub proof fn lemma_affordable(remaining: Weight, used: Weight, unit: Weight, wanted: nat)
    requires
        unit.ref_time > 0,
        used.ref_time <= remaining.ref_time,
    ensures
        affordable(remaining, used, unit, wanted) <= wanted,
        affordable(remaining, used, unit, wanted) <= u64::MAX,
        used.spec_saturating_add(
            unit.spec_saturating_mul(affordable(remaining, used, unit, wanted) as u64),
        ).ref_time <= remaining.ref_time,
        used.ref_time + unit.ref_time <= remaining.ref_time && wanted > 0 ==> affordable(
            remaining,
            used,
            unit,
            wanted,
        ) > 0,
{
    let room = (remaining.ref_time - used.ref_time) as int;
    let each = unit.ref_time as int;
    let afford = room / each;
    assert(afford * each <= room) by (nonlinear_arith)
        requires
            each > 0,
            room >= 0,
            afford == room / each,
    ;
    assert(room >= each ==> afford >= 1) by (nonlinear_arith)
        requires
            each > 0,
            room >= 0,
            afford == room / each,
    ;
    let count = affordable(remaining, used, unit, wanted) as int;
    assert(0 <= count <= afford);
    assert(each * count <= afford * each) by (nonlinear_arith)
        requires
            0 <= count <= afford,
            each > 0,
    ;
}

impl Pallet {
    /// One pruner run with the budget `remaining_weight`; returns what it
    /// spent. Settled transactions are cleared index by index from the
    /// highest pruned ledger index up, never at or past the start of the
    /// submission window, never more indices than one run may walk and never
    /// for more than the budget. An index that cannot be cleared whole keeps
    /// the rest of its list and is not passed. Wherever the budget pays for
    /// one hash and its index, and an index is left to walk, the run makes
    /// progress.
    pub fn clear_storages(&mut self, remaining_weight: Weight) -> (r: Weight)
        requires
            old(self).wf(),
        ensures
            final(self).wf(),
            (final(self)@, r) == old(self)@.after_prune(remaining_weight),
            r.ref_time <= remaining_weight.ref_time,
            old(self)@.highest_pruned <= final(self)@.highest_pruned,
            final(self)@.highest_pruned <= old(self)@.window_start() || final(self)@.highest_pruned
                == old(self)@.highest_pruned,
            forall|ledger: LedgerIndex|
                ledger >= old(self)@.window_start() ==> (#[trigger] final(self)@.settled.contains_key(
                    ledger,
                ) == old(self)@.settled.contains_key(ledger)) && (old(self)@.settled.contains_key(
                    ledger,
                ) ==> final(self)@.settled[ledger] == old(self)@.settled[ledger]),
            remaining_weight.ref_time == 0 ==> final(self)@ == old(self)@ && r.ref_time == 0,
            old(self)@.replay_safe() ==> final(self)@.replay_safe(),
            old(self)@.watermarks_in_order() ==> final(self)@.watermarks_in_order(),
            remaining_weight.ref_time >= old(self)@.prune_floor() && old(self)@.highest_pruned
                < old(self)@.prune_end() ==> final(self)@.highest_pruned
                > old(self)@.highest_pruned || (old(self)@.settled.contains_key(
                old(self)@.highest_pruned,
            ) && final(self)@.settled.contains_key(old(self)@.highest_pruned)
                && final(self)@.settled[old(self)@.highest_pruned].len()
                < old(self)@.settled[old(self)@.highest_pruned].len()),
            forall|ledger: LedgerIndex|
                old(self)@.highest_pruned <= ledger < final(self)@.highest_pruned
                    ==> !#[trigger] final(self)@.settled.contains_key(ledger),
            final(self)@ == (PalletView {
                observations: final(self)@.observations,
                settled: final(self)@.settled,
                highest_pruned: final(self)@.highest_pruned,
                ..old(self)@
            }),
            forall|hash: XrplTxHash| #[trigger]
                final(self)@.observations.contains_key(hash) ==> old(self)@.observations.contains_key(
                    hash,
                ) && final(self)@.observations[hash] == old(self)@.observations[hash],
            watermarks_kept(old(self)@, final(self)@),
            old(self)@.escrow_safe() ==> final(self)@.escrow_safe(),
    {
        proof {
            if old(self)@.replay_safe() {
                law_pruning_keeps_replay_guard(old(self)@, remaining_weight);
            }
            if remaining_weight.ref_time >= old(self)@.prune_floor() && old(self)@.highest_pruned
                < old(self)@.prune_end() {
                law_pruning_makes_progress(old(self)@, remaining_weight);
            }
        }
        let db = self.config.db_weight;
        let base = db.reads(3);
        if !db.affords(remaining_weight, Weight::zero(), 4, 3) {
            return Weight::zero();
        }
        let mut used = base;
        let window_start = self.submission_window_start();
        let first = self.highest_pruned_ledger_index;
        let max_end: u64 = first as u64 + self.config.max_pruned_transactions_per_block as u64;
        let end: u32 = if (window_start as u64) < max_end {
            window_start
        } else {
            max_end as u32
        };
        if first >= end {
            return used;
        }
        let unit = db.writes(1);
        used = used.saturating_add(unit);
        let ghost start = self@;
        let ghost budgeted = used;
        proof {
            start.lemma_prune_walk(end, budgeted, remaining_weight);
        }
        loop
            invariant_except_break
                start.prune_walk(end, budgeted, remaining_weight) == self@.prune_walk(
                    end,
                    used,
                    remaining_weight,
                ),
            invariant
                self.wf(),
                self.config == start.config,
                db == self.config.db_weight,
                unit == db.spec_writes(1),
                unit.ref_time > 0,
                used.ref_time <= remaining_weight.ref_time,
            ensures
                start.prune_walk(end, budgeted, remaining_weight) == (self@, used),
            decreases end - self.highest_pruned_ledger_index,
        {
            let index = self.highest_pruned_ledger_index;
            if index >= end {
                break ;
            }
            if !db.affords(remaining_weight, used, 1, 2) {
                break ;
            }
            let ghost before = self@;
            used = used.saturating_add(db.reads(1));
            let mut tx_hashes = match self.settled.take(&index) {
                Some(list) => list,
                None => {
                    self.highest_pruned_ledger_index = index + 1;
                    assert(self@ == (PalletView { highest_pruned: (index + 1) as u32, ..before }));
                    continue ;
                },
            };
            used = used.saturating_add(unit);
            let ghost list = tx_hashes@;
            let ghost opened = used;
            proof {
                lemma_affordable(remaining_weight, opened, unit, list.len());
            }
            let afford = remaining_weight.saturating_sub(used).div(unit.ref_time()).ref_time();
            let count: usize = if afford < tx_hashes.len() as u64 {
                afford as usize
            } else {
                tx_hashes.len()
            };
            assert(count == affordable(remaining_weight, opened, unit, list.len()));
            self.observations.remove_all(&tx_hashes, count);
            used = used.saturating_add(unit.saturating_mul(count as u64));
            if count < tx_hashes.len() {
                let rest = tx_hashes.split_off(count);
                assert(rest@ =~= list.skip(count as int));
                self.settled.insert(index, rest);
                assert(self@ == (PalletView {
                    observations: without_keys(before.observations, list.take(count as int)),
                    settled: before.settled.insert(index, list.skip(count as int)),
                    ..before
                }));
                break ;
            } else {
                self.highest_pruned_ledger_index = index + 1;
                assert(self@ == (PalletView {
                    observations: without_keys(before.observations, list.take(count as int)),
                    settled: before.settled.remove(index),
                    highest_pruned: (index + 1) as u32,
                    ..before
                }));
            }
        }
        proof {
            start.lemma_prune_walk(end, budgeted, remaining_weight);
            assert forall|ledger: LedgerIndex| ledger >= start.window_start() implies (
            #[trigger] self@.settled.contains_key(ledger) == start.settled.contains_key(ledger)) && (
            start.settled.contains_key(ledger) ==> self@.settled[ledger]
                == start.settled[ledger]) by {
                assert(ledger >= end);
                assert(self@.settled.contains_key(ledger) == start.settled.contains_key(ledger));
                if start.settled.contains_key(ledger) {
                    assert(self@.settled[ledger] == start.settled[ledger]);
                }
            }
        }
        if self.highest_pruned_ledger_index > first {
        } else {
            used = used.saturating_sub(unit);
        }
        used
    }
}

impl Pallet {
    /// Clears what is settled under `ledger_index`, with the observations,
    /// whatever the budget. Refused, with the state unchanged, where the
    /// index is not before the submission window or nothing is settled
    /// under it.
    pub fn prune_settled_ledger_index(&mut self, ledger_index: u32) -> (r: Result<Event, Error>)
        requires
            old(self).wf(),
        ensures
            final(self).wf(),
            match r {
                Ok(event) => {
                    &&& ledger_index < old(self)@.window_start()
                    &&& old(self)@.settled.contains_key(ledger_index)
                    &&& final(self)@ == (PalletView {
                        settled: old(self)@.settled.remove(ledger_index),
                        observations: without_keys(
                            old(self)@.observations,
                            old(self)@.settled[ledger_index],
                        ),
                        ..old(self)@
                    })
                    &&& event == (Event::LedgerIndexManualPrune {
                        ledger_index,
                        total_cleared: old(self)@.settled[ledger_index].len() as u32,
                    })
                },
                Err(e) => {
                    &&& final(self)@ == old(self)@
                    &&& if ledger_index >= old(self)@.window_start() {
                        e == Error::CannotPruneActiveLedgerIndex
                    } else {
                        e == Error::NoTransactionDetails && !old(self)@.settled.contains_key(
                            ledger_index,
                        )
                    }
                },
            },
            old(self)@.replay_safe() ==> final(self)@.replay_safe(),
            watermarks_kept(old(self)@, final(self)@),
            old(self)@.escrow_safe() ==> final(self)@.escrow_safe(),
    {
        proof {
            if old(self)@.replay_safe() && old(self)@.settled.contains_key(ledger_index) {
                let list = old(self)@.settled[ledger_index];
                assert(list.take(list.len() as int) =~= list);
                law_clearing_keeps_replay_guard(old(self)@, ledger_index, list.len() as int);
            }
        }
        if ledger_index >= self.submission_window_start() {
            return Err(Error::CannotPruneActiveLedgerIndex);
        }
        let tx_hashes = match self.settled.take(&ledger_index) {
            Some(list) => list,
            None => {
                assert(self@ == old(self)@);
                return Err(Error::NoTransactionDetails);
            },
        };
        let total = tx_hashes.len();
        assert(tx_hashes@.take(total as int) =~= tx_hashes@);
        self.observations.remove_all(&tx_hashes, total);
        Ok(Event::LedgerIndexManualPrune { ledger_index, total_cleared: total as u32 })
    }
}

} // verus!
