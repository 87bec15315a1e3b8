//! The delayed payment scheduler: withdrawals that were put off are handed
//! to the outbound transaction builder once their tick has come, as far as
//! a compute budget allows.

use crate::escrow_laws::{law_delayed_payments_handed_over_once, scheduled_once};
use crate::laws::watermarks_kept;
use crate::pallet::{Pallet, PalletView};
use crate::primitives::{BlockNumber, DelayedPaymentId, XrplAccountId};
use crate::pruner::{affordable, lemma_affordable};
use crate::storage::{lemma_without_keys_step, without_keys};
use crate::weight::Weight;
use crate::withdraw::WithdrawRequest;
use vstd::prelude::*;

verus! {

impl PalletView {
    /// What handing over one delayed payment costs: three reads, two writes.
    pub open spec fn delayed_payment_cost(self) -> Weight {
        self.config.db_weight.spec_reads_writes(3, 2)
    }

    /// What a scheduler run costs before it looks at any tick: two reads and
    /// the write of the watermark.
    pub open spec fn delay_base(self) -> Weight {
        self.config.db_weight.spec_reads_writes(2, 1)
    }

    /// The least budget with which the scheduler starts work.
    pub open spec fn delay_threshold(self) -> Weight {
        self.delay_base().spec_saturating_add(
            self.delayed_payment_cost().spec_saturating_add(
                self.config.db_weight.spec_reads_writes(2, 2),
            ),
        )
    }

    /// The last tick that a run at tick `now` looks at: `now` itself, or the
    /// end of the stretch that one run may scan.
    pub open spec fn scan_limit(self, now: BlockNumber) -> BlockNumber {
        let reach = self.next_delay_process_block + self.config.delayed_payment_block_limit;
        if now <= reach {
            now
        } else {
            reach as u32
        }
    }

    /// The requests that the delayed payments `ids` make, in the order of
    /// `ids`. An id under which nothing waits makes none, and an id that
    /// occurs again makes none the second time.
    pub open spec fn due_requests(
        self,
        ids: Seq<DelayedPaymentId>,
        door_address: XrplAccountId,
    ) -> Seq<WithdrawRequest>
        decreases ids.len(),
    {
        if ids.len() == 0 {
            Seq::empty()
        } else {
            let earlier = self.due_requests(ids.drop_last(), door_address);
            let id = ids.last();
            if self.delayed_payments.contains_key(id) && !ids.drop_last().contains(id) {
                let payment = self.delayed_payments[id];
                earlier.push(
                    self.withdraw_request(
                        payment.sender,
                        door_address,
                        payment.withdraw_tx,
                        payment.destination_tag,
                    ),
                )
            } else {
                earlier
            }
        }
    }

    /// The scheduler's walk from the watermark up to the tick `limit`, with
    /// `used` spent so far of `remaining`: the state it ends in, what it has
    /// spent, and the requests it makes, in order.
    ///
    /// It stops before a tick for which it cannot afford a read, two writes
    /// and one payment. A tick with no payments costs a read and is passed.
    /// Otherwise a read and a write are spent, and as many payments of the
    /// tick are handed over from the front of its list as the rest of the
    /// budget affords. Where payments remain, they stay under the tick and
    /// the walk ends there; else the tick is passed. The watermark does not
    /// pass the last tick there is.
    pub open spec fn delay_walk(
        self,
        limit: BlockNumber,
        used: Weight,
        remaining: Weight,
        door_address: XrplAccountId,
    ) -> (PalletView, Weight, Seq<WithdrawRequest>)
        decreases limit + 1 - self.next_delay_process_block,
    {
        let db = self.config.db_weight;
        let tick = self.next_delay_process_block;
        if tick > limit || remaining.spec_lte(
            used.spec_saturating_add(db.spec_reads_writes(1, 2)).spec_saturating_add(
                self.delayed_payment_cost(),
            ),
        ) {
            (self, used, Seq::empty())
        } else if !self.delayed_schedule.contains_key(tick) {
            let read = used.spec_saturating_add(db.spec_reads(1));
            if tick == u32::MAX {
                (self, read, Seq::empty())
            } else {
                (PalletView { next_delay_process_block: (tick + 1) as u32, ..self }).delay_walk(
                    limit,
                    read,
                    remaining,
                    door_address,
                )
            }
        } else {
            let ids = self.delayed_schedule[tick];
            let opened = used.spec_saturating_add(db.spec_reads(1)).spec_saturating_add(
                db.spec_writes(1),
            );
            let count = affordable(remaining, opened, self.delayed_payment_cost(), ids.len());
            let spent = opened.spec_saturating_add(
                self.delayed_payment_cost().spec_saturating_mul(count as u64),
            );
            let requests = self.due_requests(ids.take(count as int), door_address);
            let delayed_payments = without_keys(self.delayed_payments, ids.take(count as int));
            if count < ids.len() {
                (
                    PalletView {
                        delayed_payments,
                        delayed_schedule: self.delayed_schedule.insert(tick, ids.skip(count as int)),
                        ..self
                    },
                    spent,
                    requests,
                )
            } else if tick == u32::MAX {
                (
                    PalletView {
                        delayed_payments,
                        delayed_schedule: self.delayed_schedule.remove(tick),
                        ..self
                    },
                    spent,
                    requests,
                )
            } else {
                let later = (PalletView {
                    delayed_payments,
                    delayed_schedule: self.delayed_schedule.remove(tick),
                    next_delay_process_block: (tick + 1) as u32,
                    ..self
                }).delay_walk(limit, spent, remaining, door_address);
                (later.0, later.1, requests + later.2)
            }
        }
    }

    /// The state after a scheduler run at tick `now` with the budget
    /// `remaining`, what the run spends, and the requests it makes. Below
    /// the threshold nothing is done and nothing spent. With no door address
    /// set, only the base cost is spent. Else the write of the watermark is
    /// taken off again where the watermark did not move.
    pub open spec fn after_delayed_payments(self, now: BlockNumber, remaining: Weight) -> (
        PalletView,
        Weight,
        Seq<WithdrawRequest>,
    ) {
        if remaining.spec_lte(self.delay_threshold()) {
            (self, Weight { ref_time: 0 }, Seq::empty())
        } else if self.door_address is None {
            (self, self.delay_base(), Seq::empty())
        } else {
            let walked = self.delay_walk(
                self.scan_limit(now),
                self.delay_base(),
                remaining,
                self.door_address->Some_0,
            );
            if walked.0.next_delay_process_block > self.next_delay_process_block {
                walked
            } else {
                (
                    walked.0,
                    walked.1.spec_saturating_sub(self.config.db_weight.spec_writes(1)),
                    walked.2,
                )
            }
        }
    }

    /// What a scheduler walk leaves alone, and the bounds it keeps: a budget
    /// not yet overspent is not overspent after it; the watermark does not
    /// fall; only the delayed payments, their schedule and the watermark
    /// change; no delayed payment is added or altered; ticks before the
    /// watermark or past `limit` keep their payments, and a tick that the
    /// watermark has passed has none left.
    pub proof fn lemma_delay_walk(
        self,
        limit: BlockNumber,
        used: Weight,
        remaining: Weight,
        door_address: XrplAccountId,
    )
        requires
            self.config.wf(),
            used.ref_time <= remaining.ref_time,
        ensures
            ({
                let (after, spent, requests) = self.delay_walk(limit, used, remaining, door_address);
                &&& used.ref_time <= spent.ref_time <= remaining.ref_time
                &&& self.next_delay_process_block <= after.next_delay_process_block
                &&& after == (PalletView {
                    delayed_payments: after.delayed_payments,
                    delayed_schedule: after.delayed_schedule,
                    next_delay_process_block: after.next_delay_process_block,
                    ..self
                })
                &&& forall|id: DelayedPaymentId| #[trigger]
                    after.delayed_payments.contains_key(id) ==> self.delayed_payments.contains_key(
                        id,
                    ) && after.delayed_payments[id] == self.delayed_payments[id]
                &&& forall|tick: BlockNumber|
                    tick < self.next_delay_process_block || tick > limit ==> (
                    #[trigger] after.delayed_schedule.contains_key(tick)
                        == self.delayed_schedule.contains_key(tick)) && (
                    self.delayed_schedule.contains_key(tick) ==> after.delayed_schedule[tick]
                        == self.delayed_schedule[tick])
                &&& forall|tick: BlockNumber|
                    self.next_delay_process_block <= tick < after.next_delay_process_block
                        ==> !#[trigger] after.delayed_schedule.contains_key(tick)
            }),
        decreases limit + 1 - self.next_delay_process_block,
    {
        let db = self.config.db_weight;
        let tick = self.next_delay_process_block;
        lemma_payment_cost_positive(self);
        if tick > limit || remaining.spec_lte(
            used.spec_saturating_add(db.spec_reads_writes(1, 2)).spec_saturating_add(
                self.delayed_payment_cost(),
            ),
        ) {
        } else if !self.delayed_schedule.contains_key(tick) {
            let read = used.spec_saturating_add(db.spec_reads(1));
            if tick == u32::MAX {
            } else {
                let next = PalletView { next_delay_process_block: (tick + 1) as u32, ..self };
                next.lemma_delay_walk(limit, read, remaining, door_address);
            }
        } else {
            let ids = self.delayed_schedule[tick];
            let opened = used.spec_saturating_add(db.spec_reads(1)).spec_saturating_add(
                db.spec_writes(1),
            );
            let count = affordable(remaining, opened, self.delayed_payment_cost(), ids.len());
            let spent = opened.spec_saturating_add(
                self.delayed_payment_cost().spec_saturating_mul(count as u64),
            );
            lemma_affordable(remaining, opened, self.delayed_payment_cost(), ids.len());
            if count < ids.len() {
            } else if tick == u32::MAX {
            } else {
                let next = PalletView {
                    delayed_payments: without_keys(self.delayed_payments, ids.take(count as int)),
                    delayed_schedule: self.delayed_schedule.remove(tick),
                    next_delay_process_block: (tick + 1) as u32,
                    ..self
                };
                next.lemma_delay_walk(limit, spent, remaining, door_address);
            }
        }
    }
}

/// Handing over a payment costs something wherever a write does.
pub proof fn lemma_payment_cost_positive(view: PalletView)
    requires
        view.config.wf(),
    ensures
        view.delayed_payment_cost().ref_time > 0,
{
}

impl Pallet {
    /// Hands over the first `count` of the delayed payments `ids`: each that
    /// still waits is taken out and composed into a request by `door_address`.
    fn hand_over(
        &mut self,
        ids: &Vec<DelayedPaymentId>,
        count: usize,
        door_address: XrplAccountId,
        requests: &mut Vec<WithdrawRequest>,
    )
        requires
            old(self).wf(),
            count <= ids@.len(),
        ensures
            final(self).wf(),
            final(self)@ == (PalletView {
                delayed_payments: without_keys(
                    old(self)@.delayed_payments,
                    ids@.take(count as int),
                ),
                ..old(self)@
            }),
            final(requests)@ == old(requests)@ + old(self)@.due_requests(
                ids@.take(count as int),
                door_address,
            ),
    {
        let ghost before = self@;
        let ghost handed = requests@;
        let mut j: usize = 0;
        assert(self@.delayed_payments =~= without_keys(before.delayed_payments, ids@.take(0)));
        assert(requests@ =~= handed + before.due_requests(ids@.take(0), door_address));
        while j < count
            invariant
                j <= count <= ids@.len(),
                self.wf(),
                self@ == (PalletView {
                    delayed_payments: without_keys(before.delayed_payments, ids@.take(j as int)),
                    ..before
                }),
                requests@ == handed + before.due_requests(ids@.take(j as int), door_address),
            decreases count - j,
        {
            let id = ids[j];
            proof {
                lemma_without_keys_step(before.delayed_payments, ids@, j as int);
                assert(ids@.take(j + 1).drop_last() =~= ids@.take(j as int));
                assert(ids@.take(j + 1).last() == id);
            }
            match self.delayed_payments.take(&id) {
                Some(payment) => {
                    let request = self.submit_withdraw_request(
                        payment.sender,
                        door_address,
                        payment.withdraw_tx,
                        payment.destination_tag,
                    );
                    requests.push(request);
                    assert(requests@ =~= handed + before.due_requests(
                        ids@.take(j + 1),
                        door_address,
                    ));
                },
                None => {},
            }
            j += 1;
        }
    }

    /// One scheduler run at tick `block_number` with the budget
    /// `remaining_weight`; returns what it spent and the requests to hand to
    /// the signing collaborator, in order. Ticks are gone through from the
    /// watermark up to `block_number`, never more than one run may scan and
    /// never for more than the budget; within a tick, payments go in the
    /// order in which they were delayed. A tick that cannot be cleared whole
    /// keeps the rest of its list and is not passed. Where no id is
    /// scheduled at two places, there is one request for each withdrawal
    /// handed over, and still no id is scheduled at two places.
    pub fn process_delayed_payments(&mut self, block_number: BlockNumber, remaining_weight: Weight) -> (r:
        (Weight, Vec<WithdrawRequest>))
        requires
            old(self).wf(),
        ensures
            final(self).wf(),
            (final(self)@, r.0, r.1@) == old(self)@.after_delayed_payments(
                block_number,
                remaining_weight,
            ),
            r.0.ref_time <= remaining_weight.ref_time,
            old(self)@.next_delay_process_block <= final(self)@.next_delay_process_block,
            final(self)@ == (PalletView {
                delayed_payments: final(self)@.delayed_payments,
                delayed_schedule: final(self)@.delayed_schedule,
                next_delay_process_block: final(self)@.next_delay_process_block,
                ..old(self)@
            }),
            remaining_weight.ref_time == 0 ==> final(self)@ == old(self)@ && r.0.ref_time == 0
                && r.1@.len() == 0,
            forall|tick: BlockNumber|
                old(self)@.next_delay_process_block <= tick
                    < final(self)@.next_delay_process_block
                    ==> !#[trigger] final(self)@.delayed_schedule.contains_key(tick),
            watermarks_kept(old(self)@, final(self)@),
            old(self)@.escrow_safe() ==> final(self)@.escrow_safe(),
            old(self)@.replay_safe() ==> final(self)@.replay_safe(),
            scheduled_once(old(self)@.delayed_schedule) ==> scheduled_once(
                final(self)@.delayed_schedule,
            ) && r.1@.len() == old(self)@.handed_ids(block_number, remaining_weight).len(),
    {
        proof {
            if scheduled_once(old(self)@.delayed_schedule) {
                law_delayed_payments_handed_over_once(old(self)@, block_number, remaining_weight);
            }
        }
        let mut requests: Vec<WithdrawRequest> = Vec::new();
        let db = self.config.db_weight;
        let base = db.reads_writes(2, 1);
        let per_payment = db.reads_writes(3, 2);
        let min_per_payment = per_payment.saturating_add(db.reads_writes(2, 2));
        if remaining_weight.all_lte(base.saturating_add(min_per_payment)) {
            return (Weight::zero(), requests);
        }
        let mut used = base;
        let first = self.next_delay_process_block;
        let reach: u64 = first as u64 + self.config.delayed_payment_block_limit as u64;
        let limit: BlockNumber = if block_number as u64 <= reach {
            block_number
        } else {
            reach as u32
        };
        let door_address = match self.door_address {
            Some(address) => address,
            None => { return (used, requests); },
        };
        let ghost start = self@;
        proof {
            lemma_payment_cost_positive(start);
            start.lemma_delay_walk(limit, base, remaining_weight, door_address);
            assert(requests@ + start.delay_walk(limit, base, remaining_weight, door_address).2
                =~= start.delay_walk(limit, base, remaining_weight, door_address).2);
        }
        loop
            invariant_except_break
                start.delay_walk(limit, base, remaining_weight, door_address).0
                    == self@.delay_walk(limit, used, remaining_weight, door_address).0,
                start.delay_walk(limit, base, remaining_weight, door_address).1
                    == self@.delay_walk(limit, used, remaining_weight, door_address).1,
                start.delay_walk(limit, base, remaining_weight, door_address).2 == requests@
                    + self@.delay_walk(limit, used, remaining_weight, door_address).2,
            invariant
                self.wf(),
                self.config == start.config,
                db == self.config.db_weight,
                per_payment == self@.delayed_payment_cost(),
                per_payment.ref_time > 0,
                used.ref_time <= remaining_weight.ref_time,
            ensures
                start.delay_walk(limit, base, remaining_weight, door_address).0 == self@,
                start.delay_walk(limit, base, remaining_weight, door_address).1 == used,
                start.delay_walk(limit, base, remaining_weight, door_address).2 == requests@,
            decreases limit + 1 - self.next_delay_process_block,
        {
            let tick = self.next_delay_process_block;
            let ghost before = self@;
            let ghost spent_before = used;
            let ghost handed = requests@;
            if tick > limit {
                assert(requests@ + Seq::<WithdrawRequest>::empty() =~= requests@);
                break ;
            }
            if remaining_weight.all_lte(
                used.saturating_add(db.reads_writes(1, 2)).saturating_add(per_payment),
            ) {
                assert(requests@ + Seq::<WithdrawRequest>::empty() =~= requests@);
                break ;
            }
            used = used.saturating_add(db.reads(1));
            let mut ids = match self.delayed_payment_schedule.take(&tick) {
                Some(list) => list,
                None => {
                    if tick == u32::MAX {
                        assert(self@ == before);
                        assert(requests@ + Seq::<WithdrawRequest>::empty() =~= requests@);
                        break ;
                    }
                    self.next_delay_process_block = tick + 1;
                    assert(self@ == (PalletView {
                        next_delay_process_block: (tick + 1) as u32,
                        ..before
                    }));
                    continue ;
                },
            };
            used = used.saturating_add(db.writes(1));
            let ghost list = ids@;
            let ghost opened = used;
            proof {
                lemma_affordable(remaining_weight, opened, per_payment, list.len());
            }
            let afford = remaining_weight.saturating_sub(used).div(per_payment.ref_time()).ref_time();
            let count: usize = if afford < ids.len() as u64 {
                afford as usize
            } else {
                ids.len()
            };
            assert(count == affordable(remaining_weight, opened, per_payment, list.len()));
            let ghost taken = self@;
            self.hand_over(&ids, count, door_address, &mut requests);
            proof {
                assert(taken.delayed_payments == before.delayed_payments);
                assert(taken.source_tag == before.source_tag);
                lemma_due_requests_same(taken, before, list.take(count as int), door_address);
            }
            used = used.saturating_add(per_payment.saturating_mul(count as u64));
            let ghost made = before.due_requests(list.take(count as int), door_address);
            if count < ids.len() {
                let rest = ids.split_off(count);
                assert(rest@ =~= list.skip(count as int));
                self.delayed_payment_schedule.insert(tick, rest);
                assert(self@ == (PalletView {
                    delayed_payments: without_keys(before.delayed_payments, list.take(count as int)),
                    delayed_schedule: before.delayed_schedule.insert(tick, list.skip(count as int)),
                    ..before
                }));
                break ;
            } else if tick == u32::MAX {
                assert(self@ == (PalletView {
                    delayed_payments: without_keys(before.delayed_payments, list.take(count as int)),
                    delayed_schedule: before.delayed_schedule.remove(tick),
                    ..before
                }));
                break ;
            } else {
                self.next_delay_process_block = tick + 1;
                assert(self@ == (PalletView {
                    delayed_payments: without_keys(before.delayed_payments, list.take(count as int)),
                    delayed_schedule: before.delayed_schedule.remove(tick),
                    next_delay_process_block: (tick + 1) as u32,
                    ..before
                }));
                proof {
                    let later = self@.delay_walk(limit, used, remaining_weight, door_address);
                    assert(before.delay_walk(limit, spent_before, remaining_weight, door_address).2
                        == made + later.2);
                    assert(handed + (made + later.2) =~= (handed + made) + later.2);
                }
            }
        }
        if self.next_delay_process_block > first {
        } else {
            used = used.saturating_sub(db.writes(1));
        }
        (used, requests)
    }
}

/// The requests of a list of ids depend on the state only through the
/// delayed payments and the source tag.
pub proof fn lemma_due_requests_same(
    a: PalletView,
    b: PalletView,
    ids: Seq<DelayedPaymentId>,
    door_address: XrplAccountId,
)
    requires
        a.delayed_payments == b.delayed_payments,
        a.source_tag == b.source_tag,
    ensures
        a.due_requests(ids, door_address) == b.due_requests(ids, door_address),
    decreases ids.len(),
{
    if ids.len() > 0 {
        lemma_due_requests_same(a, b, ids.drop_last(), door_address);
    }
}

} // verus!
