//! What holds of the engine over all its states: the replay guard, the
//! submission window, the watermarks and the ticket sequence.

use crate::pallet::{Config, Pallet, PalletView};
use crate::primitives::{BlockNumber, DueTick, LedgerIndex, XrplTxHash};
use crate::storage::{list_or_empty, without_keys};
use crate::types::{Event, Observation};
use crate::weight::Weight;
use vstd::prelude::*;

verus! {

/// `item` stands at place `i` of the list that `lists` holds under `key`.
pub open spec fn listed_at<K, T>(lists: Map<K, Seq<T>>, key: K, i: int, item: T) -> bool {
    lists.contains_key(key) && 0 <= i < lists[key].len() && lists[key][i] == item
}

/// The replay guard over the slots, the settled index and the observations:
/// every hash that is scheduled or settled has its observation on record;
/// no hash is both scheduled and settled; no hash is settled at two places,
/// and none is scheduled at two places.
pub open spec fn replay_guard(
    scheduled: Map<DueTick, Seq<XrplTxHash>>,
    settled: Map<LedgerIndex, Seq<XrplTxHash>>,
    observations: Map<XrplTxHash, Observation>,
) -> bool {
    &&& forall|tick: DueTick, i: int, hash: XrplTxHash| #[trigger]
        listed_at(scheduled, tick, i, hash) ==> observations.contains_key(hash)
    &&& forall|ledger: LedgerIndex, i: int, hash: XrplTxHash| #[trigger]
        listed_at(settled, ledger, i, hash) ==> observations.contains_key(hash)
    &&& forall|tick: DueTick, i: int, ledger: LedgerIndex, j: int, hash: XrplTxHash|
        !(#[trigger] listed_at(scheduled, tick, i, hash) && #[trigger] listed_at(
            settled,
            ledger,
            j,
            hash,
        ))
    &&& forall|ledger: LedgerIndex, i: int, other: LedgerIndex, j: int, hash: XrplTxHash|
        #[trigger] listed_at(settled, ledger, i, hash) && #[trigger] listed_at(
            settled,
            other,
            j,
            hash,
        ) ==> ledger == other && i == j
    &&& forall|tick: DueTick, i: int, other: DueTick, j: int, hash: XrplTxHash|
        #[trigger] listed_at(scheduled, tick, i, hash) && #[trigger] listed_at(
            scheduled,
            other,
            j,
            hash,
        ) ==> tick == other && i == j
}

/// Neither watermark has fallen from `before` to `after`.
pub open spec fn watermarks_kept(before: PalletView, after: PalletView) -> bool {
    &&& before.highest_settled <= after.highest_settled
    &&& before.highest_pruned <= after.highest_pruned
}

impl PalletView {
    /// The replay guard holds of this state.
    pub open spec fn replay_safe(self) -> bool {
        replay_guard(self.scheduled, self.settled, self.observations)
    }
}

/// The engine starts with the replay guard in place.
pub proof fn law_genesis_replay_safe(config: Config)
    ensures
        Pallet::genesis(config).replay_safe(),
{
}

/// Taking an observation under a hash that has none on record keeps the
/// replay guard.
pub proof fn law_submission_keeps_replay_guard(
    view: PalletView,
    hash: XrplTxHash,
    observation: Observation,
    tick: DueTick,
)
    requires
        view.replay_safe(),
        !view.observations.contains_key(hash),
    ensures
        view.with_observation(hash, observation, tick).replay_safe(),
{
    let after = view.with_observation(hash, observation, tick);
    let before_list = list_or_empty(view.scheduled, tick);
    assert forall|t: DueTick, i: int, h: XrplTxHash| #[trigger]
        listed_at(after.scheduled, t, i, h) implies (listed_at(view.scheduled, t, i, h) || (t == tick && i
        == before_list.len() && h == hash)) by {}
    assert forall|l: LedgerIndex, i: int, h: XrplTxHash| #[trigger]
        listed_at(after.settled, l, i, h) implies listed_at(view.settled, l, i, h) by {}
    assert forall|t: DueTick, i: int, other: DueTick, j: int, h: XrplTxHash|
        #[trigger] listed_at(after.scheduled, t, i, h) && #[trigger] listed_at(after.scheduled, other,
            j,
            h,
        ) implies t == other && i == j by {
        if listed_at(view.scheduled, t, i, h) && listed_at(view.scheduled, other, j, h) {
        }
    }
}

/// Settling a hash that is on record and neither scheduled nor settled
/// keeps the replay guard.
pub proof fn law_settling_keeps_replay_guard(view: PalletView, hash: XrplTxHash, ledger: LedgerIndex)
    requires
        view.replay_safe(),
        view.observations.contains_key(hash),
        !view.is_scheduled(hash),
        !view.is_settled(hash),
    ensures
        view.after_settle(hash, ledger).replay_safe(),
{
    let after = view.after_settle(hash, ledger);
    let place = list_or_empty(view.settled, ledger).len() as int;
    assert forall|t: DueTick, i: int| !listed_at(view.scheduled, t, i, hash) by {
        if listed_at(view.scheduled, t, i, hash) {
            assert(view.scheduled[t][i] == hash);
        }
    }
    assert forall|l: LedgerIndex, i: int| !listed_at(view.settled, l, i, hash) by {
        if listed_at(view.settled, l, i, hash) {
            assert(view.settled[l][i] == hash);
        }
    }
    assert forall|l: LedgerIndex, i: int, h: XrplTxHash| #[trigger]
        listed_at(after.settled, l, i, h) implies (listed_at(view.settled, l, i, h) || (l == ledger
        && i == place && h == hash)) by {}
}

/// Recording an observation under a hash that has none on record, and
/// settling the hash at the observation's ledger index, keeps the replay
/// guard.
pub proof fn law_settling_unrecorded_keeps_replay_guard(
    view: PalletView,
    hash: XrplTxHash,
    observation: Observation,
)
    requires
        view.replay_safe(),
        !view.observations.contains_key(hash),
    ensures
        (PalletView {
            observations: view.observations.insert(hash, observation),
            settled: view.settled.insert(
                observation.ledger_index,
                list_or_empty(view.settled, observation.ledger_index).push(hash),
            ),
            ..view
        }).replay_safe(),
{
    let ledger = observation.ledger_index;
    let after = PalletView {
        observations: view.observations.insert(hash, observation),
        settled: view.settled.insert(ledger, list_or_empty(view.settled, ledger).push(hash)),
        ..view
    };
    let place = list_or_empty(view.settled, ledger).len() as int;
    assert forall|l: LedgerIndex, i: int, h: XrplTxHash| #[trigger]
        listed_at(after.settled, l, i, h) implies (listed_at(view.settled, l, i, h) || (l == ledger
        && i == place && h == hash)) by {}
    assert forall|l: LedgerIndex, i: int, other: LedgerIndex, j: int, h: XrplTxHash|
        #[trigger] listed_at(after.settled, l, i, h) && #[trigger] listed_at(
            after.settled,
            other,
            j,
            h,
        ) implies l == other && i == j by {
        if listed_at(view.settled, l, i, h) && listed_at(view.settled, other, j, h) {
        }
    }
}

impl PalletView {
    /// The hashes `due` are pairwise distinct, and none of them is scheduled
    /// or settled in this state.
    pub open spec fn due_fresh(self, due: Seq<XrplTxHash>) -> bool {
        &&& forall|i: int, j: int| 0 <= i < j < due.len() ==> due[i] != due[j]
        &&& forall|i: int, tick: DueTick, k: int|
            0 <= i < due.len() ==> !#[trigger] listed_at(self.scheduled, tick, k, due[i])
        &&& forall|i: int, ledger: LedgerIndex, k: int|
            0 <= i < due.len() ==> !#[trigger] listed_at(self.settled, ledger, k, due[i])
    }

    /// Settlement of fresh hashes keeps the replay guard, never lowers the
    /// highest settled ledger index, and changes nothing but the settled
    /// index and that watermark.
    pub proof fn lemma_settlement_run(self, due: Seq<XrplTxHash>, events: Seq<Event>)
        requires
            self.replay_safe(),
            self.due_fresh(due),
            self.settlement_run(due, events) is Some,
        ensures
            ({
                let after = self.settlement_run(due, events)->Some_0;
                &&& after.replay_safe()
                &&& self.highest_settled <= after.highest_settled
                &&& after == (PalletView {
                    settled: after.settled,
                    highest_settled: after.highest_settled,
                    ..self
                })
            }),
        decreases due.len(),
    {
        if due.len() > 0 {
            let hash = due[0];
            let rest = due.drop_first();
            assert forall|i: int| 0 <= i < rest.len() implies rest[i] == due[i + 1] by {}
            let next = match self.due_action(hash) {
                crate::settlement::DueAction::Credit { asset_id, ledger_index, account, amount } => if events[0]
                    == Event::ProcessingOk(ledger_index, hash) {
                    self.after_settle(hash, ledger_index)
                } else {
                    self
                },
                _ => self,
            };
            let later = match self.due_action(hash) {
                crate::settlement::DueAction::Skip => events,
                _ => events.drop_first(),
            };
            assert(self.settlement_run(due, events) == next.settlement_run(rest, later));
            if next != self {
                let ledger_index = self.observations[hash].ledger_index;
                assert(next == self.after_settle(hash, ledger_index));
                let place = list_or_empty(self.settled, ledger_index).len() as int;
                assert forall|l: LedgerIndex, k: int, h: XrplTxHash| #[trigger]
                    listed_at(next.settled, l, k, h) implies (listed_at(self.settled, l, k, h) || (l
                    == ledger_index && k == place && h == hash)) by {}
                assert forall|t: DueTick, k: int, h: XrplTxHash| #[trigger]
                    listed_at(next.scheduled, t, k, h) implies listed_at(self.scheduled, t, k, h) by {}
                assert(self.observations.contains_key(hash));
                assert(due[0] == hash);
                assert(next.replay_safe());
                assert forall|i: int, ledger: LedgerIndex, k: int|
                    0 <= i < rest.len() implies !#[trigger] listed_at(next.settled, ledger, k, rest[i]) by {
                    assert(rest[i] == due[i + 1]);
                    assert(due[0] != due[i + 1]);
                    if listed_at(next.settled, ledger, k, rest[i]) {
                        assert(listed_at(self.settled, ledger, k, due[i + 1]));
                    }
                }
                assert forall|i: int, tick: DueTick, k: int|
                    0 <= i < rest.len() implies !#[trigger] listed_at(next.scheduled, tick, k, rest[i]) by {
                    assert(rest[i] == due[i + 1]);
                    if listed_at(next.scheduled, tick, k, rest[i]) {
                        assert(listed_at(self.scheduled, tick, k, due[i + 1]));
                    }
                }
                assert(next.due_fresh(rest));
            } else {
                assert forall|i: int, ledger: LedgerIndex, k: int|
                    0 <= i < rest.len() implies !#[trigger] listed_at(self.settled, ledger, k, rest[i]) by {
                    assert(rest[i] == due[i + 1]);
                }
                assert forall|i: int, tick: DueTick, k: int|
                    0 <= i < rest.len() implies !#[trigger] listed_at(self.scheduled, tick, k, rest[i]) by {
                    assert(rest[i] == due[i + 1]);
                }
                assert(self.due_fresh(rest));
            }
            next.lemma_settlement_run(rest, later);
        }
    }
}

/// Settling what falls due at a tick keeps the replay guard: none of the
/// hashes is settled twice, and none stays scheduled once it is settled.
/// The highest settled ledger index does not fall, and the highest pruned
/// one stays.
pub proof fn law_settlement_keeps_replay_guard(view: PalletView, n: BlockNumber, events: Seq<Event>)
    requires
        view.replay_safe(),
        view.without_slot(n).settlement_run(list_or_empty(view.scheduled, n as u64), events) is Some,
    ensures
        ({
            let after = view.without_slot(n).settlement_run(
                list_or_empty(view.scheduled, n as u64),
                events,
            )->Some_0;
            &&& after.replay_safe()
            &&& view.highest_settled <= after.highest_settled
            &&& view.highest_pruned == after.highest_pruned
            &&& after == (PalletView {
                scheduled: view.scheduled.remove(n as u64),
                settled: after.settled,
                highest_settled: after.highest_settled,
                ..view
            })
        }),
{
    let start = view.without_slot(n);
    let due = list_or_empty(view.scheduled, n as u64);
    assert forall|t: DueTick, k: int, h: XrplTxHash| #[trigger]
        listed_at(start.scheduled, t, k, h) implies listed_at(view.scheduled, t, k, h) && t != n as u64 by {}
    assert forall|l: LedgerIndex, k: int, h: XrplTxHash| #[trigger]
        listed_at(start.settled, l, k, h) implies listed_at(view.settled, l, k, h) by {}
    assert(start.replay_safe());
    assert forall|i: int| 0 <= i < due.len() implies #[trigger] listed_at(view.scheduled, n as u64, i, due[i]) by {}
    assert forall|i: int, j: int| 0 <= i < j < due.len() implies due[i] != due[j] by {
        assert(listed_at(view.scheduled, n as u64, i, due[i]));
        assert(listed_at(view.scheduled, n as u64, j, due[j]));
    }
    assert forall|i: int, tick: DueTick, k: int|
        0 <= i < due.len() implies !#[trigger] listed_at(start.scheduled, tick, k, due[i]) by {
        assert(listed_at(view.scheduled, n as u64, i, due[i]));
        if listed_at(start.scheduled, tick, k, due[i]) {
            assert(listed_at(view.scheduled, tick, k, due[i]));
        }
    }
    assert forall|i: int, ledger: LedgerIndex, k: int|
        0 <= i < due.len() implies !#[trigger] listed_at(start.settled, ledger, k, due[i]) by {
        assert(listed_at(view.scheduled, n as u64, i, due[i]));
        if listed_at(start.settled, ledger, k, due[i]) {
            assert(listed_at(view.settled, ledger, k, due[i]));
        }
    }
    start.lemma_settlement_run(due, events);
}

/// The replay guard speaks of the slots, the settled index and the
/// observations alone: states that agree on those agree on it.
pub proof fn law_replay_guard_frame(a: PalletView, b: PalletView)
    requires
        a.scheduled == b.scheduled,
        a.settled == b.settled,
        a.observations == b.observations,
    ensures
        a.replay_safe() == b.replay_safe(),
{
    assert forall|t: DueTick, k: int, h: XrplTxHash|
        listed_at(a.scheduled, t, k, h) == listed_at(b.scheduled, t, k, h) by {}
    assert forall|l: LedgerIndex, k: int, h: XrplTxHash|
        listed_at(a.settled, l, k, h) == listed_at(b.settled, l, k, h) by {}
}

/// Clearing the first `count` hashes settled under `ledger`, each with its
/// observation, keeps the replay guard, whether hashes remain under the
/// ledger index or it is taken out whole.
pub proof fn law_clearing_keeps_replay_guard(view: PalletView, ledger: LedgerIndex, count: int)
    requires
        view.replay_safe(),
        view.settled.contains_key(ledger),
        0 <= count <= view.settled[ledger].len(),
    ensures
        (PalletView {
            observations: without_keys(view.observations, view.settled[ledger].take(count)),
            settled: view.settled.insert(ledger, view.settled[ledger].skip(count)),
            ..view
        }).replay_safe(),
        count == view.settled[ledger].len() ==> (PalletView {
            observations: without_keys(view.observations, view.settled[ledger].take(count)),
            settled: view.settled.remove(ledger),
            ..view
        }).replay_safe(),
{
    let list = view.settled[ledger];
    let cleared = list.take(count);
    let observations = without_keys(view.observations, cleared);
    let partial = PalletView {
        observations,
        settled: view.settled.insert(ledger, list.skip(count)),
        ..view
    };
    let whole = PalletView { observations, settled: view.settled.remove(ledger), ..view };
    assert forall|i: int| 0 <= i < count implies #[trigger] listed_at(view.settled, ledger, i, cleared[i]) by {}
    assert forall|t: DueTick, k: int, h: XrplTxHash| #[trigger]
        listed_at(view.scheduled, t, k, h) implies observations.contains_key(h) by {
        if cleared.contains(h) {
            let i = choose|i: int| 0 <= i < cleared.len() && cleared[i] == h;
            assert(listed_at(view.settled, ledger, i, h));
        }
    }
    assert forall|l: LedgerIndex, k: int, h: XrplTxHash| #[trigger]
        listed_at(partial.settled, l, k, h) implies (if l == ledger {
        listed_at(view.settled, l, k + count, h)
    } else {
        listed_at(view.settled, l, k, h)
    }) && observations.contains_key(h) by {
        let place = if l == ledger {
            k + count
        } else {
            k
        };
        assert(listed_at(view.settled, l, place, h));
        if cleared.contains(h) {
            let i = choose|i: int| 0 <= i < cleared.len() && cleared[i] == h;
            assert(listed_at(view.settled, ledger, i, h));
        }
    }
    assert forall|t: DueTick, k: int, h: XrplTxHash| #[trigger]
        listed_at(partial.scheduled, t, k, h) implies listed_at(view.scheduled, t, k, h) by {}
    assert forall|l: LedgerIndex, i: int, other: LedgerIndex, j: int, h: XrplTxHash|
        #[trigger] listed_at(partial.settled, l, i, h) && #[trigger] listed_at(partial.settled, other,
            j,
            h,
        ) implies l == other && i == j by {
        let place_i = if l == ledger {
            i + count
        } else {
            i
        };
        let place_j = if other == ledger {
            j + count
        } else {
            j
        };
        assert(listed_at(view.settled, l, place_i, h));
        assert(listed_at(view.settled, other, place_j, h));
    }
    assert forall|t: DueTick, i: int, l: LedgerIndex, j: int, h: XrplTxHash|
        !(#[trigger] listed_at(partial.scheduled, t, i, h) && #[trigger] listed_at(partial.settled, l, j, h)) by {
        if listed_at(partial.scheduled, t, i, h) && listed_at(partial.settled, l, j, h) {
            let place = if l == ledger {
                j + count
            } else {
                j
            };
            assert(listed_at(view.scheduled, t, i, h));
            assert(listed_at(view.settled, l, place, h));
        }
    }
    assert(partial.replay_safe());
    if count == list.len() {
        assert forall|l: LedgerIndex, k: int, h: XrplTxHash| #[trigger]
            listed_at(whole.settled, l, k, h) implies listed_at(partial.settled, l, k, h) by {}
        assert forall|t: DueTick, k: int, h: XrplTxHash| #[trigger]
            listed_at(whole.scheduled, t, k, h) implies listed_at(partial.scheduled, t, k, h) by {}
        assert(whole.replay_safe());
    }
}

impl PalletView {
    /// A pruner walk keeps the replay guard.
    pub proof fn lemma_prune_walk_keeps_replay_guard(self, end: u32, used: Weight, remaining: Weight)
        requires
            self.replay_safe(),
        ensures
            self.prune_walk(end, used, remaining).0.replay_safe(),
        decreases end - self.highest_pruned,
    {
        let db = self.config.db_weight;
        let index = self.highest_pruned;
        if index >= end || remaining.ref_time < used.ref_time + db.cost(1, 2) {
        } else if !self.settled.contains_key(index) {
            let next = PalletView { highest_pruned: (index + 1) as u32, ..self };
            law_replay_guard_frame(self, next);
            next.lemma_prune_walk_keeps_replay_guard(
                end,
                used.spec_saturating_add(db.spec_reads(1)),
                remaining,
            );
        } else {
            let list = self.settled[index];
            let opened = used.spec_saturating_add(db.spec_reads(1)).spec_saturating_add(
                db.spec_writes(1),
            );
            let count = crate::pruner::affordable(remaining, opened, db.spec_writes(1), list.len());
            let spent = opened.spec_saturating_add(
                db.spec_writes(1).spec_saturating_mul(count as u64),
            );
            law_clearing_keeps_replay_guard(self, index, count as int);
            if count < list.len() {
            } else {
                let observations = without_keys(self.observations, list.take(count as int));
                let whole = PalletView {
                    observations,
                    settled: self.settled.remove(index),
                    ..self
                };
                let next = PalletView { highest_pruned: (index + 1) as u32, ..whole };
                law_replay_guard_frame(whole, next);
                next.lemma_prune_walk_keeps_replay_guard(end, spent, remaining);
            }
        }
    }
}

/// A pruner run keeps the replay guard, whatever its budget.
pub proof fn law_pruning_keeps_replay_guard(view: PalletView, remaining: Weight)
    requires
        view.replay_safe(),
    ensures
        view.after_prune(remaining).0.replay_safe(),
{
    let db = view.config.db_weight;
    view.lemma_prune_walk_keeps_replay_guard(
        view.prune_end(),
        db.spec_reads(3).spec_saturating_add(db.spec_writes(1)),
        remaining,
    );
}

/// With no budget at all a pruner run changes nothing and spends nothing,
/// however often it is repeated.
pub proof fn law_pruning_without_budget(view: PalletView)
    requires
        view.config.wf(),
    ensures
        view.after_prune(Weight { ref_time: 0 }) == (view, Weight { ref_time: 0 }),
{
}

/// A pruner run leaves every ledger index of the submission window, and
/// every index after it, with the hashes settled under it; it moves the
/// highest pruned ledger index forward only, and never past the start of
/// the window unless it stood there before.
pub proof fn law_pruning_spares_window(view: PalletView, remaining: Weight, ledger: LedgerIndex)
    requires
        view.config.wf(),
        ledger >= view.window_start(),
    ensures
        ({
            let after = view.after_prune(remaining).0;
            &&& after.settled.contains_key(ledger) == view.settled.contains_key(ledger)
            &&& view.settled.contains_key(ledger) ==> after.settled[ledger] == view.settled[ledger]
            &&& view.highest_pruned <= after.highest_pruned
            &&& after.highest_pruned <= view.window_start() || after.highest_pruned
                == view.highest_pruned
            &&& after.highest_settled == view.highest_settled
        }),
{
    let db = view.config.db_weight;
    if remaining.ref_time >= view.prune_floor() && view.highest_pruned < view.prune_end() {
        let budgeted = db.spec_reads(3).spec_saturating_add(db.spec_writes(1));
        view.lemma_prune_walk(view.prune_end(), budgeted, remaining);
        let after = view.prune_walk(view.prune_end(), budgeted, remaining).0;
        assert(after.settled.contains_key(ledger) == view.settled.contains_key(ledger));
    }
}

/// Scheduling a hash that is on record and neither scheduled nor settled
/// keeps the replay guard.
pub proof fn law_scheduling_keeps_replay_guard(view: PalletView, tick: DueTick, hash: XrplTxHash)
    requires
        view.replay_safe(),
        view.observations.contains_key(hash),
        !view.is_scheduled(hash),
        !view.is_settled(hash),
    ensures
        view.with_scheduled(tick, hash).replay_safe(),
{
    let after = view.with_scheduled(tick, hash);
    let before_list = list_or_empty(view.scheduled, tick);
    assert forall|t: DueTick, i: int| !listed_at(view.scheduled, t, i, hash) by {
        if listed_at(view.scheduled, t, i, hash) {
            assert(view.scheduled[t][i] == hash);
        }
    }
    assert forall|l: LedgerIndex, i: int| !listed_at(view.settled, l, i, hash) by {
        if listed_at(view.settled, l, i, hash) {
            assert(view.settled[l][i] == hash);
        }
    }
    assert forall|t: DueTick, i: int, h: XrplTxHash| #[trigger]
        listed_at(after.scheduled, t, i, h) implies (listed_at(view.scheduled, t, i, h) || (t == tick && i
        == before_list.len() && h == hash)) by {}
    assert forall|l: LedgerIndex, i: int, h: XrplTxHash| #[trigger]
        listed_at(after.settled, l, i, h) implies listed_at(view.settled, l, i, h) by {}
}

/// The state of the allocator after `n` allocations that succeed.
pub open spec fn after_allocations(
    tickets: crate::tickets::TicketAllocation,
    threshold: u8,
    n: nat,
) -> crate::tickets::TicketAllocation
    decreases n,
{
    if n == 0 {
        tickets
    } else {
        after_allocations(tickets, threshold, (n - 1) as nat).after_allocate(threshold)
    }
}

/// Allocations within one bucket hand out consecutive sequence numbers:
/// where `n` numbers are left in the current bucket, each of the first `n`
/// allocations succeeds, and the one after `i` others hands out the
/// sequence number `i` past the first, so that none is skipped and none
/// comes twice. The bucket stays the current one throughout.
pub proof fn law_tickets_consecutive(
    tickets: crate::tickets::TicketAllocation,
    threshold: u8,
    n: nat,
    i: nat,
)
    requires
        tickets.current_sequence + n <= tickets.current_bucket.start_sequence
            + tickets.current_bucket.bucket_size,
        tickets.current_bucket.start_sequence + tickets.current_bucket.bucket_size <= u32::MAX,
        i < n,
    ensures
        after_allocations(tickets, threshold, i).allocate_error() is None,
        after_allocations(tickets, threshold, i).granted(threshold).sequence
            == tickets.current_sequence + i,
        after_allocations(tickets, threshold, i).current_sequence == tickets.current_sequence + i,
        after_allocations(tickets, threshold, i).current_bucket == tickets.current_bucket,
        after_allocations(tickets, threshold, i).next_bucket == tickets.next_bucket,
    decreases i,
{
    if i > 0 {
        law_tickets_consecutive(tickets, threshold, n, (i - 1) as nat);
    }
}

/// When the bucket is used up and no next bucket is provided, an
/// allocation fails, always with the same error; the allocator's contract
/// adds that it is then left as it was. The two sums must fit their type:
/// where they do not, the allocation fails on that instead.
pub proof fn law_rollover_needs_next_bucket(tickets: crate::tickets::TicketAllocation)
    requires
        tickets.exhausted(),
        tickets.next_unset(),
        tickets.current_sequence < u32::MAX,
        tickets.current_bucket.start_sequence + tickets.current_bucket.bucket_size <= u32::MAX,
    ensures
        tickets.allocate_error() == Some(
            crate::types::DispatchError::Module(
                crate::types::Error::NextTicketSequenceParamsNotSet,
            ),
        ),
{
}

impl PalletView {
    /// The highest pruned ledger index has not passed the start of the
    /// submission window.
    pub open spec fn watermarks_in_order(self) -> bool {
        self.highest_pruned <= self.window_start()
    }
}

/// A pruner run with the least budget or more, and with an index to walk,
/// makes progress: it passes the index at the watermark, or it clears at
/// least one of the hashes settled under it. The least budget is what one
/// hash and its index cost, so a run makes progress wherever the budget
/// pays for any.
pub proof fn law_pruning_makes_progress(view: PalletView, remaining: Weight)
    requires
        view.config.wf(),
        remaining.ref_time >= view.prune_floor(),
        view.highest_pruned < view.prune_end(),
    ensures
        ({
            let after = view.after_prune(remaining).0;
            let first = view.highest_pruned;
            ||| after.highest_pruned > first
            ||| view.settled.contains_key(first) && after.settled.contains_key(first)
                && after.settled[first].len() < view.settled[first].len()
        }),
{
    let db = view.config.db_weight;
    let end = view.prune_end();
    let first = view.highest_pruned;
    let budgeted = db.spec_reads(3).spec_saturating_add(db.spec_writes(1));
    assert(db.spec_writes(1).ref_time == db.write);
    assert(remaining.ref_time >= budgeted.ref_time + db.cost(1, 2));
    if !view.settled.contains_key(first) {
        let next = PalletView { highest_pruned: (first + 1) as u32, ..view };
        next.lemma_prune_walk(end, budgeted.spec_saturating_add(db.spec_reads(1)), remaining);
    } else {
        let list = view.settled[first];
        let opened = budgeted.spec_saturating_add(db.spec_reads(1)).spec_saturating_add(
            db.spec_writes(1),
        );
        let count = crate::pruner::affordable(remaining, opened, db.spec_writes(1), list.len());
        crate::pruner::lemma_affordable(remaining, opened, db.spec_writes(1), list.len());
        if count < list.len() {
            assert(count > 0);
        } else {
            let spent = opened.spec_saturating_add(
                db.spec_writes(1).spec_saturating_mul(count as u64),
            );
            let next = PalletView {
                observations: without_keys(view.observations, list.take(count as int)),
                settled: view.settled.remove(first),
                highest_pruned: (first + 1) as u32,
                ..view
            };
            next.lemma_prune_walk(end, spent, remaining);
        }
    }
}

/// No list of the engine is longer than the constants allow: not a slot,
/// not the settled list of a ledger index, not the delayed payments of a tick.
pub proof fn law_lists_within_bounds(
    pallet: &Pallet,
    due: DueTick,
    tick: BlockNumber,
    ledger: LedgerIndex,
)
    requires
        pallet.wf(),
    ensures
        list_or_empty(pallet@.scheduled, due).len() <= pallet@.config.xrp_transaction_limit,
        list_or_empty(pallet@.settled, ledger).len()
            <= pallet@.config.xrpl_transaction_limit_per_ledger,
        list_or_empty(pallet@.delayed_schedule, tick).len()
            <= pallet@.config.max_delayed_payments_per_block,
{
    if pallet@.scheduled.contains_key(due) {
        pallet.scheduled.lemma_within_bound(due);
    }
    if pallet@.settled.contains_key(ledger) {
        pallet.settled.lemma_within_bound(ledger);
    }
    if pallet@.delayed_schedule.contains_key(tick) {
        pallet.delayed_payment_schedule.lemma_within_bound(tick);
    }
}

} // verus!
