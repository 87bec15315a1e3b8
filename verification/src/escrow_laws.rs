//! What holds of delayed withdrawals over all states: each is scheduled at
//! one place, waits under its id until it is handed over, and is handed
//! over once.

use crate::laws::listed_at;
use crate::pallet::{Config, Pallet, PalletView};
use crate::primitives::{BlockNumber, DelayedPaymentId, XrplAccountId};
use crate::pruner::affordable;
use crate::storage::{list_or_empty, without_keys};
use crate::types::DelayedWithdrawal;
use crate::weight::Weight;
use crate::withdraw::WithdrawRequest;
use vstd::prelude::*;

verus! {

/// No id is scheduled at two places.
pub open spec fn scheduled_once(schedule: Map<BlockNumber, Seq<DelayedPaymentId>>) -> bool {
    forall|tick: BlockNumber, i: int, other: BlockNumber, j: int, id: DelayedPaymentId|
        #[trigger] listed_at(schedule, tick, i, id) && #[trigger] listed_at(schedule, other, j, id)
            ==> tick == other && i == j
}

/// The escrow guard over the schedule, the waiting withdrawals and the next
/// id: no id is scheduled at two places, and every scheduled id has its
/// withdrawal waiting and lies before the next id.
pub open spec fn escrow_guard(
    schedule: Map<BlockNumber, Seq<DelayedPaymentId>>,
    payments: Map<DelayedPaymentId, DelayedWithdrawal>,
    next_id: DelayedPaymentId,
) -> bool {
    &&& scheduled_once(schedule)
    &&& forall|tick: BlockNumber, i: int, id: DelayedPaymentId| #[trigger]
        listed_at(schedule, tick, i, id) ==> payments.contains_key(id) && id < next_id
}

/// `id` is scheduled for `tick`.
pub open spec fn scheduled_under(
    schedule: Map<BlockNumber, Seq<DelayedPaymentId>>,
    tick: BlockNumber,
    id: DelayedPaymentId,
) -> bool {
    exists|i: int| listed_at(schedule, tick, i, id)
}

impl PalletView {
    /// The escrow guard holds of this state.
    pub open spec fn escrow_safe(self) -> bool {
        escrow_guard(self.delayed_schedule, self.delayed_payments, self.next_delayed_payment_id)
    }

    /// The request that the withdrawal waiting under `id` makes.
    pub open spec fn request_of(self, id: DelayedPaymentId, door_address: XrplAccountId) -> WithdrawRequest {
        self.withdraw_request(
            self.delayed_payments[id].sender,
            door_address,
            self.delayed_payments[id].withdraw_tx,
            self.delayed_payments[id].destination_tag,
        )
    }

    /// The ids among `ids` whose withdrawals are handed over, in order: each
    /// under which a withdrawal waits, at its first place in `ids`.
    pub open spec fn due_ids(self, ids: Seq<DelayedPaymentId>) -> Seq<DelayedPaymentId>
        decreases ids.len(),
    {
        if ids.len() == 0 {
            Seq::empty()
        } else {
            let earlier = self.due_ids(ids.drop_last());
            let id = ids.last();
            if self.delayed_payments.contains_key(id) && !ids.drop_last().contains(id) {
                earlier.push(id)
            } else {
                earlier
            }
        }
    }

    /// The ids whose withdrawals the scheduler's walk hands over, in order.
    pub open spec fn delay_walk_ids(self, limit: BlockNumber, used: Weight, remaining: Weight) -> Seq<
        DelayedPaymentId,
    >
        decreases limit + 1 - self.next_delay_process_block,
    {
        let db = self.config.db_weight;
        let tick = self.next_delay_process_block;
        if tick > limit || remaining.spec_lte(
            used.spec_saturating_add(db.spec_reads_writes(1, 2)).spec_saturating_add(
                self.delayed_payment_cost(),
            ),
        ) {
            Seq::empty()
        } else if !self.delayed_schedule.contains_key(tick) {
            if tick == u32::MAX {
                Seq::empty()
            } else {
                (PalletView { next_delay_process_block: (tick + 1) as u32, ..self }).delay_walk_ids(
                    limit,
                    used.spec_saturating_add(db.spec_reads(1)),
                    remaining,
                )
            }
        } else {
            let ids = self.delayed_schedule[tick];
            let opened = used.spec_saturating_add(db.spec_reads(1)).spec_saturating_add(
                db.spec_writes(1),
            );
            let count = affordable(remaining, opened, self.delayed_payment_cost(), ids.len());
            let spent = opened.spec_saturating_add(
                self.delayed_payment_cost().spec_saturating_mul(count as u64),
            );
            let handed = self.due_ids(ids.take(count as int));
            if count < ids.len() || tick == u32::MAX {
                handed
            } else {
                handed + (PalletView {
                    delayed_payments: without_keys(self.delayed_payments, ids.take(count as int)),
                    delayed_schedule: self.delayed_schedule.remove(tick),
                    next_delay_process_block: (tick + 1) as u32,
                    ..self
                }).delay_walk_ids(limit, spent, remaining)
            }
        }
    }

    /// The ids whose withdrawals a scheduler run at tick `now` with the
    /// budget `remaining` hands over, in order.
    pub open spec fn handed_ids(self, now: BlockNumber, remaining: Weight) -> Seq<DelayedPaymentId> {
        if remaining.spec_lte(self.delay_threshold()) || self.door_address is None {
            Seq::empty()
        } else {
            self.delay_walk_ids(self.scan_limit(now), self.delay_base(), remaining)
        }
    }

    /// The requests of a list of ids are those of the ids handed over, one
    /// each and in order; and each id handed over is one of the list under
    /// which a withdrawal waits.
    pub proof fn lemma_requests_of_due_ids(self, ids: Seq<DelayedPaymentId>, door_address: XrplAccountId)
        ensures
            self.due_requests(ids, door_address).len() == self.due_ids(ids).len(),
            forall|k: int|
                0 <= k < self.due_ids(ids).len() ==> #[trigger] self.due_requests(
                    ids,
                    door_address,
                )[k] == self.request_of(self.due_ids(ids)[k], door_address),
            forall|k: int|
                0 <= k < self.due_ids(ids).len() ==> self.delayed_payments.contains_key(
                    #[trigger] self.due_ids(ids)[k],
                ) && ids.contains(self.due_ids(ids)[k]),
        decreases ids.len(),
    {
        if ids.len() > 0 {
            let front = ids.drop_last();
            self.lemma_requests_of_due_ids(front, door_address);
            assert forall|k: int| 0 <= k < self.due_ids(ids).len() implies ids.contains(
                #[trigger] self.due_ids(ids)[k],
            ) by {
                if k < self.due_ids(front).len() {
                    let id = self.due_ids(front)[k];
                    assert(front.contains(id));
                    let i = choose|i: int| 0 <= i < front.len() && front[i] == id;
                    assert(ids[i] == id);
                } else {
                    assert(ids[ids.len() - 1] == ids.last());
                }
            }
        }
    }

    /// An id is handed over exactly where it is one of the list and a
    /// withdrawal waits under it; and none is handed over twice.
    pub proof fn lemma_due_ids(self, ids: Seq<DelayedPaymentId>)
        ensures
            forall|id: DelayedPaymentId| #[trigger]
                self.due_ids(ids).contains(id) <==> ids.contains(id)
                    && self.delayed_payments.contains_key(id),
            forall|j: int, k: int|
                0 <= j < k < self.due_ids(ids).len() ==> self.due_ids(ids)[j] != self.due_ids(
                    ids,
                )[k],
        decreases ids.len(),
    {
        if ids.len() > 0 {
            let front = ids.drop_last();
            let last = ids.last();
            let earlier = self.due_ids(front);
            let all = self.due_ids(ids);
            self.lemma_due_ids(front);
            assert forall|id: DelayedPaymentId| #[trigger]
                all.contains(id) <==> ids.contains(id) && self.delayed_payments.contains_key(
                    id,
                ) by {
                if all.contains(id) {
                    let k = choose|k: int| 0 <= k < all.len() && all[k] == id;
                    if k < earlier.len() {
                        assert(earlier[k] == id);
                        assert(earlier.contains(id));
                        let i = choose|i: int| 0 <= i < front.len() && front[i] == id;
                        assert(ids[i] == id);
                    } else {
                        assert(ids[ids.len() - 1] == id);
                    }
                }
                if ids.contains(id) && self.delayed_payments.contains_key(id) {
                    let i = choose|i: int| 0 <= i < ids.len() && ids[i] == id;
                    if front.contains(id) {
                        assert(earlier.contains(id));
                        let k = choose|k: int| 0 <= k < earlier.len() && earlier[k] == id;
                        assert(all[k] == id);
                    } else {
                        if i < front.len() {
                            assert(front[i] == id);
                        }
                        assert(id == last);
                        assert(all[all.len() - 1] == id);
                    }
                }
            }
            assert forall|j: int, k: int| 0 <= j < k < all.len() implies all[j] != all[k] by {
                if k >= earlier.len() {
                    assert(all[j] == earlier[j]);
                    assert(earlier.contains(earlier[j]));
                }
            }
        }
    }
}

/// What clearing the first `count` ids of `tick` does where no id is
/// scheduled twice, whether the rest stays under the tick or, all being
/// cleared, the tick is taken out: still no id is scheduled twice, and an
/// id is scheduled for a tick exactly where it was scheduled for that tick
/// and is not among the cleared. The escrow guard, where it held, holds.
pub proof fn lemma_clearing_front(view: PalletView, tick: BlockNumber, count: int)
    requires
        scheduled_once(view.delayed_schedule),
        view.delayed_schedule.contains_key(tick),
        0 <= count <= view.delayed_schedule[tick].len(),
    ensures
        scheduled_once(
            view.delayed_schedule.insert(tick, view.delayed_schedule[tick].skip(count)),
        ),
        view.escrow_safe() ==> escrow_guard(
            view.delayed_schedule.insert(tick, view.delayed_schedule[tick].skip(count)),
            without_keys(view.delayed_payments, view.delayed_schedule[tick].take(count)),
            view.next_delayed_payment_id,
        ),
        forall|at: BlockNumber, id: DelayedPaymentId| #[trigger]
            scheduled_under(
                view.delayed_schedule.insert(tick, view.delayed_schedule[tick].skip(count)),
                at,
                id,
            ) <==> scheduled_under(view.delayed_schedule, at, id)
                && !view.delayed_schedule[tick].take(count).contains(id),
        count == view.delayed_schedule[tick].len() ==> scheduled_once(
            view.delayed_schedule.remove(tick),
        ),
        count == view.delayed_schedule[tick].len() && view.escrow_safe() ==> escrow_guard(
            view.delayed_schedule.remove(tick),
            without_keys(view.delayed_payments, view.delayed_schedule[tick].take(count)),
            view.next_delayed_payment_id,
        ),
        count == view.delayed_schedule[tick].len() ==> forall|
            at: BlockNumber,
            id: DelayedPaymentId,
        | #[trigger]
            scheduled_under(view.delayed_schedule.remove(tick), at, id) <==> scheduled_under(
                view.delayed_schedule,
                at,
                id,
            ) && !view.delayed_schedule[tick].take(count).contains(id),
{
    let ids = view.delayed_schedule[tick];
    let handed = ids.take(count);
    let payments = without_keys(view.delayed_payments, handed);
    let schedule = view.delayed_schedule.insert(tick, ids.skip(count));
    let without = view.delayed_schedule.remove(tick);
    assert forall|k: int| 0 <= k < handed.len() implies #[trigger] listed_at(
        view.delayed_schedule,
        tick,
        k,
        handed[k],
    ) by {}
    assert forall|at: BlockNumber, i: int, id: DelayedPaymentId| #[trigger]
        listed_at(schedule, at, i, id) implies listed_at(
        view.delayed_schedule,
        at,
        if at == tick {
            i + count
        } else {
            i
        },
        id,
    ) && !handed.contains(id) by {
        let place = if at == tick {
            i + count
        } else {
            i
        };
        assert(listed_at(view.delayed_schedule, at, place, id));
        if handed.contains(id) {
            let k = choose|k: int| 0 <= k < handed.len() && handed[k] == id;
            assert(listed_at(view.delayed_schedule, tick, k, id));
        }
    }
    assert forall|at: BlockNumber, i: int, other: BlockNumber, j: int, id: DelayedPaymentId|
        #[trigger] listed_at(schedule, at, i, id) && #[trigger] listed_at(
            schedule,
            other,
            j,
            id,
        ) implies at == other && i == j by {
        let place_i = if at == tick {
            i + count
        } else {
            i
        };
        let place_j = if other == tick {
            j + count
        } else {
            j
        };
        assert(listed_at(view.delayed_schedule, at, place_i, id));
        assert(listed_at(view.delayed_schedule, other, place_j, id));
    }
    assert(scheduled_once(schedule));
    if view.escrow_safe() {
        assert forall|at: BlockNumber, i: int, id: DelayedPaymentId| #[trigger]
            listed_at(schedule, at, i, id) implies payments.contains_key(id) && id
            < view.next_delayed_payment_id by {
            let place = if at == tick {
                i + count
            } else {
                i
            };
            assert(listed_at(view.delayed_schedule, at, place, id));
        }
        assert(escrow_guard(schedule, payments, view.next_delayed_payment_id));
    }
    assert forall|at: BlockNumber, id: DelayedPaymentId| #[trigger]
        scheduled_under(schedule, at, id) <==> scheduled_under(view.delayed_schedule, at, id)
            && !handed.contains(id) by {
        if scheduled_under(schedule, at, id) {
            let i = choose|i: int| listed_at(schedule, at, i, id);
            let place = if at == tick {
                i + count
            } else {
                i
            };
            assert(listed_at(view.delayed_schedule, at, place, id));
        }
        if scheduled_under(view.delayed_schedule, at, id) && !handed.contains(id) {
            let i = choose|i: int| listed_at(view.delayed_schedule, at, i, id);
            if at == tick {
                if i < count {
                    assert(handed[i] == id);
                }
                assert(i >= count);
                assert(listed_at(schedule, at, i - count, id));
            } else {
                assert(listed_at(schedule, at, i, id));
            }
        }
    }
    if count == ids.len() {
        assert forall|at: BlockNumber, i: int, id: DelayedPaymentId| #[trigger]
            listed_at(without, at, i, id) implies listed_at(schedule, at, i, id) by {}
        assert(scheduled_once(without));
        if view.escrow_safe() {
            assert(escrow_guard(without, payments, view.next_delayed_payment_id));
        }
        assert forall|at: BlockNumber, id: DelayedPaymentId| #[trigger]
            scheduled_under(without, at, id) <==> scheduled_under(view.delayed_schedule, at, id)
                && !handed.contains(id) by {
            if scheduled_under(without, at, id) {
                let i = choose|i: int| listed_at(without, at, i, id);
                assert(listed_at(schedule, at, i, id));
                assert(scheduled_under(schedule, at, id));
            }
            if scheduled_under(view.delayed_schedule, at, id) && !handed.contains(id) {
                assert(scheduled_under(schedule, at, id));
                let i = choose|i: int| listed_at(schedule, at, i, id);
                assert(at != tick);
                assert(listed_at(without, at, i, id));
            }
        }
    }
}

/// An item occurs in two lists joined exactly where it occurs in one of them.
pub proof fn lemma_contains_joined<T>(a: Seq<T>, b: Seq<T>, x: T)
    ensures
        (a + b).contains(x) <==> a.contains(x) || b.contains(x),
{
    if a.contains(x) {
        let i = choose|i: int| 0 <= i < a.len() && a[i] == x;
        assert((a + b)[i] == x);
    }
    if b.contains(x) {
        let i = choose|i: int| 0 <= i < b.len() && b[i] == x;
        assert((a + b)[a.len() + i] == x);
    }
    if (a + b).contains(x) {
        let i = choose|i: int| 0 <= i < (a + b).len() && (a + b)[i] == x;
        if i < a.len() {
            assert(a[i] == x);
        } else {
            assert(b[i - a.len()] == x);
        }
    }
}

impl PalletView {
    /// What a scheduler walk does with the withdrawals where no id is
    /// scheduled twice. Still none is. The walk makes one request for each
    /// id it hands over, in order, from the withdrawal that waited under the
    /// id; no id is handed over twice. Afterwards a withdrawal waits under
    /// an id exactly where one waited before and the id was not handed
    /// over, and it is the same withdrawal. An id that is scheduled
    /// afterwards was scheduled for that tick and was not handed over; and
    /// an id with a withdrawal waiting that was not handed over stays
    /// scheduled for its tick. The escrow guard, where it held, holds.
    pub proof fn lemma_delay_walk_hands_over(
        self,
        limit: BlockNumber,
        used: Weight,
        remaining: Weight,
        door_address: XrplAccountId,
    )
        requires
            scheduled_once(self.delayed_schedule),
        ensures
            ({
                let walked = self.delay_walk(limit, used, remaining, door_address);
                let after = walked.0;
                let requests = walked.2;
                let handed = self.delay_walk_ids(limit, used, remaining);
                &&& scheduled_once(after.delayed_schedule)
                &&& self.escrow_safe() ==> after.escrow_safe()
                &&& after.source_tag == self.source_tag
                &&& requests.len() == handed.len()
                &&& forall|k: int|
                    0 <= k < handed.len() ==> self.delayed_payments.contains_key(
                        #[trigger] handed[k],
                    ) && requests[k] == self.request_of(handed[k], door_address)
                &&& forall|j: int, k: int| 0 <= j < k < handed.len() ==> handed[j] != handed[k]
                &&& forall|id: DelayedPaymentId| #[trigger]
                    after.delayed_payments.contains_key(id) <==> self.delayed_payments.contains_key(
                        id,
                    ) && !handed.contains(id)
                &&& forall|id: DelayedPaymentId| #[trigger]
                    after.delayed_payments.contains_key(id) ==> after.delayed_payments[id]
                        == self.delayed_payments[id]
                &&& forall|at: BlockNumber, id: DelayedPaymentId| #[trigger]
                    scheduled_under(after.delayed_schedule, at, id) ==> scheduled_under(
                        self.delayed_schedule,
                        at,
                        id,
                    ) && !handed.contains(id)
                &&& forall|at: BlockNumber, id: DelayedPaymentId| #[trigger]
                    scheduled_under(self.delayed_schedule, at, id) && !handed.contains(id)
                        && self.delayed_payments.contains_key(id) ==> scheduled_under(
                        after.delayed_schedule,
                        at,
                        id,
                    )
            }),
        decreases limit + 1 - self.next_delay_process_block,
    {
        let db = self.config.db_weight;
        let tick = self.next_delay_process_block;
        if tick > limit || remaining.spec_lte(
            used.spec_saturating_add(db.spec_reads_writes(1, 2)).spec_saturating_add(
                self.delayed_payment_cost(),
            ),
        ) {
        } else if !self.delayed_schedule.contains_key(tick) {
            if tick == u32::MAX {
            } else {
                let next = PalletView { next_delay_process_block: (tick + 1) as u32, ..self };
                next.lemma_delay_walk_hands_over(
                    limit,
                    used.spec_saturating_add(db.spec_reads(1)),
                    remaining,
                    door_address,
                );
            }
        } else {
            let ids = self.delayed_schedule[tick];
            let opened = used.spec_saturating_add(db.spec_reads(1)).spec_saturating_add(
                db.spec_writes(1),
            );
            let count = affordable(remaining, opened, self.delayed_payment_cost(), ids.len());
            let spent = opened.spec_saturating_add(
                self.delayed_payment_cost().spec_saturating_mul(count as u64),
            );
            let front = ids.take(count as int);
            let here_ids = self.due_ids(front);
            let here = self.due_requests(front, door_address);
            self.lemma_due_ids(front);
            self.lemma_requests_of_due_ids(front, door_address);
            lemma_clearing_front(self, tick, count as int);
            if count < ids.len() || tick == u32::MAX {
            } else {
                let next = PalletView {
                    delayed_payments: without_keys(self.delayed_payments, front),
                    delayed_schedule: self.delayed_schedule.remove(tick),
                    next_delay_process_block: (tick + 1) as u32,
                    ..self
                };
                next.lemma_delay_walk_hands_over(limit, spent, remaining, door_address);
                let later = next.delay_walk(limit, spent, remaining, door_address);
                let rest = next.delay_walk_ids(limit, spent, remaining);
                let after = later.0;
                let requests = here + later.2;
                let handed = here_ids + rest;
                assert forall|k: int| 0 <= k < handed.len() implies self.delayed_payments.contains_key(
                    #[trigger] handed[k],
                ) && requests[k] == self.request_of(handed[k], door_address) by {
                    if k >= here_ids.len() {
                        let id = rest[k - here_ids.len()];
                        assert(handed[k] == id);
                        assert(next.delayed_payments.contains_key(id));
                        assert(requests[k] == later.2[k - here_ids.len()]);
                        assert(next.request_of(id, door_address) == self.request_of(id, door_address));
                    } else {
                        assert(handed[k] == here_ids[k]);
                        assert(requests[k] == here[k]);
                    }
                }
                assert forall|j: int, k: int| 0 <= j < k < handed.len() implies handed[j]
                    != handed[k] by {
                    if j < here_ids.len() && k >= here_ids.len() {
                        let id = rest[k - here_ids.len()];
                        assert(next.delayed_payments.contains_key(id));
                        if here_ids[j] == id {
                            assert(here_ids.contains(id));
                        }
                    } else if j >= here_ids.len() {
                        assert(handed[j] == rest[j - here_ids.len()]);
                        assert(handed[k] == rest[k - here_ids.len()]);
                    } else {
                        assert(handed[j] == here_ids[j]);
                        assert(handed[k] == here_ids[k]);
                    }
                }
                assert forall|id: DelayedPaymentId| #[trigger]
                    after.delayed_payments.contains_key(id) <==> self.delayed_payments.contains_key(
                        id,
                    ) && !handed.contains(id) by {
                    lemma_contains_joined(here_ids, rest, id);
                    assert(here_ids.contains(id) <==> front.contains(id)
                        && self.delayed_payments.contains_key(id));
                }
                assert forall|id: DelayedPaymentId| #[trigger]
                    after.delayed_payments.contains_key(id) implies after.delayed_payments[id]
                    == self.delayed_payments[id] by {
                    assert(next.delayed_payments.contains_key(id));
                }
                assert forall|at: BlockNumber, id: DelayedPaymentId| #[trigger]
                    scheduled_under(after.delayed_schedule, at, id) implies scheduled_under(
                    self.delayed_schedule,
                    at,
                    id,
                ) && !handed.contains(id) by {
                    lemma_contains_joined(here_ids, rest, id);
                    assert(scheduled_under(next.delayed_schedule, at, id));
                    assert(here_ids.contains(id) <==> front.contains(id)
                        && self.delayed_payments.contains_key(id));
                }
                assert forall|at: BlockNumber, id: DelayedPaymentId| #[trigger]
                    scheduled_under(self.delayed_schedule, at, id) && !handed.contains(id)
                        && self.delayed_payments.contains_key(id) implies scheduled_under(
                    after.delayed_schedule,
                    at,
                    id,
                ) by {
                    lemma_contains_joined(here_ids, rest, id);
                    assert(here_ids.contains(id) <==> front.contains(id)
                        && self.delayed_payments.contains_key(id));
                    assert(!front.contains(id));
                    assert(scheduled_under(next.delayed_schedule, at, id));
                    assert(next.delayed_payments.contains_key(id));
                }
            }
        }
    }
}

/// The engine starts with the escrow guard in place.
pub proof fn law_genesis_escrow_safe(config: Config)
    ensures
        Pallet::genesis(config).escrow_safe(),
{
}

/// Putting a withdrawal off under the next id keeps the escrow guard.
pub proof fn law_delay_keeps_escrow_guard(
    view: PalletView,
    tick: BlockNumber,
    withdrawal: DelayedWithdrawal,
)
    requires
        view.escrow_safe(),
        view.next_delayed_payment_id < u64::MAX,
    ensures
        view.with_delayed(tick, withdrawal).escrow_safe(),
{
    let after = view.with_delayed(tick, withdrawal);
    let id = view.next_delayed_payment_id;
    let place = list_or_empty(view.delayed_schedule, tick).len() as int;
    assert forall|at: BlockNumber, i: int, x: DelayedPaymentId| #[trigger]
        listed_at(after.delayed_schedule, at, i, x) implies listed_at(
        view.delayed_schedule,
        at,
        i,
        x,
    ) || (at == tick && i == place && x == id) by {}
}

/// Delayed withdrawals are handed over once. Where no id is scheduled at
/// two places, a scheduler run makes one request for each id it hands over,
/// in order, with the amount, the sender and the destination of the
/// withdrawal that waited under the id; no id is handed over twice. An id
/// handed over has no withdrawal waiting afterwards and is scheduled
/// nowhere. An id not handed over keeps its withdrawal, unchanged, and,
/// having one, stays scheduled for its tick. Still no id is scheduled at
/// two places, and the escrow guard, where it held, holds.
pub proof fn law_delayed_payments_handed_over_once(view: PalletView, now: BlockNumber, remaining: Weight)
    requires
        scheduled_once(view.delayed_schedule),
    ensures
        ({
            let run = view.after_delayed_payments(now, remaining);
            let after = run.0;
            let requests = run.2;
            let handed = view.handed_ids(now, remaining);
            &&& scheduled_once(after.delayed_schedule)
            &&& view.escrow_safe() ==> after.escrow_safe()
            &&& requests.len() == handed.len()
            &&& forall|k: int|
                0 <= k < handed.len() ==> view.delayed_payments.contains_key(#[trigger] handed[k])
                    && requests[k].amount == view.delayed_payments[handed[k]].withdraw_tx.amount
                    && requests[k].sender == view.delayed_payments[handed[k]].sender
                    && requests[k].destination
                    == view.delayed_payments[handed[k]].withdraw_tx.destination
            &&& forall|j: int, k: int| 0 <= j < k < handed.len() ==> handed[j] != handed[k]
            &&& forall|id: DelayedPaymentId|
                handed.contains(id) ==> !#[trigger] after.delayed_payments.contains_key(id)
            &&& forall|at: BlockNumber, id: DelayedPaymentId|
                handed.contains(id) ==> !#[trigger] scheduled_under(after.delayed_schedule, at, id)
            &&& forall|id: DelayedPaymentId|
                !handed.contains(id) && #[trigger] view.delayed_payments.contains_key(id)
                    ==> after.delayed_payments.contains_key(id) && after.delayed_payments[id]
                    == view.delayed_payments[id]
            &&& forall|at: BlockNumber, id: DelayedPaymentId|
                !handed.contains(id) && view.delayed_payments.contains_key(id)
                    && #[trigger] scheduled_under(view.delayed_schedule, at, id)
                    ==> scheduled_under(after.delayed_schedule, at, id)
        }),
{
    if !remaining.spec_lte(view.delay_threshold()) && view.door_address is Some {
        let door_address = view.door_address->Some_0;
        view.lemma_delay_walk_hands_over(
            view.scan_limit(now),
            view.delay_base(),
            remaining,
            door_address,
        );
        let walked = view.delay_walk(view.scan_limit(now), view.delay_base(), remaining, door_address);
        let handed = view.handed_ids(now, remaining);
        assert forall|k: int| 0 <= k < handed.len() implies view.delayed_payments.contains_key(
            #[trigger] handed[k],
        ) && walked.2[k].amount == view.delayed_payments[handed[k]].withdraw_tx.amount
            && walked.2[k].sender == view.delayed_payments[handed[k]].sender
            && walked.2[k].destination == view.delayed_payments[handed[k]].withdraw_tx.destination by {
            assert(walked.2[k] == view.request_of(handed[k], door_address));
        }
    }
}

} // verus!
