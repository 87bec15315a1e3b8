//! The engine's state, its constants and its mathematical view.

use crate::primitives::{
    AccountId, AssetId, Balance, BlockNumber, DelayedPaymentId, DueTick, LedgerIndex,
    XrplAccountId,
    XrplTxHash,
};
use crate::storage::{copy_list, BoundedListMap, StorageMap};
use crate::tickets::TicketAllocation;
use crate::types::{DelayedWithdrawal, Observation, XrplTicketSequenceParams};
use crate::weight::RuntimeDbWeight;
use vstd::prelude::*;

verus! {

/// The constants that the host fixes for the engine.
#[derive(Clone, Copy, Debug, PartialEq, Eq)]
pub struct Config {
    /// The bridged asset on the local ledger.
    pub xrp_asset_id: AssetId,
    /// Ticks to wait for a challenge before an observation is settled.
    pub challenge_period: u32,
    /// How many ledger indices the pruner may walk in one tick.
    pub max_pruned_transactions_per_block: u32,
    /// How many delayed payments one tick can hold.
    pub max_delayed_payments_per_block: u32,
    /// How many ticks the delayed payment scheduler may scan in one run.
    pub delayed_payment_block_limit: BlockNumber,
    /// Share of a ticket bucket, in parts per hundred, from which the alert fires.
    pub ticket_sequence_threshold: u8,
    /// How many observations one tick can hold for settlement.
    pub xrp_transaction_limit: u32,
    /// How many settled transactions one ledger index can hold.
    pub xrpl_transaction_limit_per_ledger: u32,
    /// What a read and a write of the database cost.
    pub db_weight: RuntimeDbWeight,
}

impl Config {
    /// A write costs something, so that a budget affords finitely many.
    pub open spec fn wf(self) -> bool {
        self.db_weight.write > 0
    }
}

/// The relayers that the engine starts with.
#[derive(Clone, Debug)]
pub struct GenesisConfig {
    pub xrp_relayers: Vec<AccountId>,
}

impl Default for GenesisConfig {
    fn default() -> (r: Self)
        ensures
            r.xrp_relayers@ == Seq::<AccountId>::empty(),
    {
        GenesisConfig { xrp_relayers: Vec::new() }
    }
}

/// The highest pruned ledger index that the engine starts with.
#[allow(non_snake_case)]
pub fn DefaultHighestPrunedLedgerIndex() -> (r: u32)
    ensures
        r == 42_900_000,
{
    42_900_000
}

/// The submission window that the engine starts with: ten days of ledgers
/// that close every three seconds.
#[allow(non_snake_case)]
pub fn DefaultSubmissionWindowWidth() -> (r: u32)
    ensures
        r == 288_000,
{
    let per_day: u32 = 86_400 / 3;
    per_day * 10
}

/// The ticket sequence that the engine starts with.
#[allow(non_snake_case)]
pub fn DefaultDoorTicketSequence() -> (r: u32)
    ensures
        r == 0,
{
    0
}

/// Whether the ticket alert counts as fired at the start.
#[allow(non_snake_case)]
pub fn DefaultTicketSequenceThresholdReachedEmitted() -> (r: bool)
    ensures
        !r,
{
    false
}

/// The fee of a door transaction that the engine starts with: one XRP, in drops.
#[allow(non_snake_case)]
pub fn DefaultDoorTxFee() -> (r: u64)
    ensures
        r == 1_000_000,
{
    1_000_000
}

/// The whole state of the engine.
#[derive(Clone, Debug)]
pub struct Pallet {
    pub config: Config,
    /// Who may report observations, with an active flag each.
    pub relayers: StorageMap<AccountId, bool>,
    /// Tick to the hashes that fall due for settlement then.
    pub scheduled: BoundedListMap<DueTick, XrplTxHash>,
    /// Hash to the observation reported under it, pending or settled.
    pub observations: StorageMap<XrplTxHash, Observation>,
    /// Ledger index to the hashes settled at that height.
    pub settled: BoundedListMap<LedgerIndex, XrplTxHash>,
    /// The highest ledger index with a settled transaction.
    pub highest_settled_ledger_index: u32,
    /// The tag that marks outbound transactions as the bridge's.
    pub source_tag: u32,
    /// The ledger index up to which settled history has been pruned.
    pub highest_pruned_ledger_index: u32,
    /// The width of the submission window, in ledger indices.
    pub submission_window_width: u32,
    /// The amount from which a withdrawal is delayed, and for how many ticks.
    pub payment_delay: Option<(Balance, BlockNumber)>,
    /// The withdrawals that wait for their due tick.
    pub delayed_payments: StorageMap<DelayedPaymentId, DelayedWithdrawal>,
    /// Tick to the delayed withdrawals due then.
    pub delayed_payment_schedule: BoundedListMap<BlockNumber, DelayedPaymentId>,
    /// The first tick whose delayed payments are not all processed.
    pub next_delay_process_block: BlockNumber,
    /// The id that the next delayed withdrawal gets.
    pub next_delayed_payment_id: DelayedPaymentId,
    /// Hash to the account that challenged it.
    pub challenges: StorageMap<XrplTxHash, AccountId>,
    /// The ticket sequence of the door account.
    pub tickets: TicketAllocation,
    /// The flat fee of a door transaction, in drops.
    pub door_tx_fee: u64,
    /// The door address on the external chain.
    pub door_address: Option<XrplAccountId>,
}

/// The state as mathematics: each store as a map, each list as a sequence.
#[verifier::ext_equal]
pub struct PalletView {
    pub config: Config,
    pub relayers: Map<AccountId, bool>,
    pub scheduled: Map<DueTick, Seq<XrplTxHash>>,
    pub observations: Map<XrplTxHash, Observation>,
    pub settled: Map<LedgerIndex, Seq<XrplTxHash>>,
    pub highest_settled: u32,
    pub source_tag: u32,
    pub highest_pruned: u32,
    pub window_width: u32,
    pub payment_delay: Option<(Balance, BlockNumber)>,
    pub delayed_payments: Map<DelayedPaymentId, DelayedWithdrawal>,
    pub delayed_schedule: Map<BlockNumber, Seq<DelayedPaymentId>>,
    pub next_delay_process_block: BlockNumber,
    pub next_delayed_payment_id: DelayedPaymentId,
    pub challenges: Map<XrplTxHash, AccountId>,
    pub tickets: TicketAllocation,
    pub door_tx_fee: u64,
    pub door_address: Option<XrplAccountId>,
}

impl PalletView {
    /// The first ledger index of the submission window: observations below it
    /// are refused and only indices below it are pruned.
    pub open spec fn window_start(self) -> u32 {
        if self.highest_settled >= self.window_width {
            (self.highest_settled - self.window_width) as u32
        } else {
            0
        }
    }

    /// Whether `who` may report observations.
    pub open spec fn is_active_relayer(self, who: AccountId) -> bool {
        self.relayers.contains_key(who) && self.relayers[who]
    }

    /// Whether `hash` is due for settlement at some tick.
    pub open spec fn is_scheduled(self, hash: XrplTxHash) -> bool {
        exists|tick: DueTick, i: int|
            self.scheduled.contains_key(tick) && 0 <= i < self.scheduled[tick].len()
                && #[trigger] self.scheduled[tick][i] == hash
    }

    /// Whether `hash` is recorded as settled at some ledger index.
    pub open spec fn is_settled(self, hash: XrplTxHash) -> bool {
        exists|ledger: LedgerIndex, i: int|
            self.settled.contains_key(ledger) && 0 <= i < self.settled[ledger].len()
                && #[trigger] self.settled[ledger][i] == hash
    }
}

impl View for Pallet {
    type V = PalletView;

    open spec fn view(&self) -> PalletView {
        PalletView {
            config: self.config,
            relayers: self.relayers@,
            scheduled: self.scheduled@,
            observations: self.observations@,
            settled: self.settled@,
            highest_settled: self.highest_settled_ledger_index,
            source_tag: self.source_tag,
            highest_pruned: self.highest_pruned_ledger_index,
            window_width: self.submission_window_width,
            payment_delay: self.payment_delay,
            delayed_payments: self.delayed_payments@,
            delayed_schedule: self.delayed_payment_schedule@,
            next_delay_process_block: self.next_delay_process_block,
            next_delayed_payment_id: self.next_delayed_payment_id,
            challenges: self.challenges@,
            tickets: self.tickets,
            door_tx_fee: self.door_tx_fee,
            door_address: self.door_address,
        }
    }
}

impl Pallet {
    /// The stores are sound and each list store has the bound that the
    /// constants give it.
    pub open spec fn wf(&self) -> bool {
        &&& self.config.wf()
        &&& self.relayers.wf()
        &&& self.scheduled.wf()
        &&& self.observations.wf()
        &&& self.settled.wf()
        &&& self.delayed_payments.wf()
        &&& self.delayed_payment_schedule.wf()
        &&& self.challenges.wf()
        &&& self.scheduled.bound() == self.config.xrp_transaction_limit
        &&& self.settled.bound() == self.config.xrpl_transaction_limit_per_ledger
        &&& self.delayed_payment_schedule.bound() == self.config.max_delayed_payments_per_block
    }

    /// The state that the engine starts in.
    pub open spec fn genesis(config: Config) -> PalletView {
        PalletView {
            config,
            relayers: Map::empty(),
            scheduled: Map::empty(),
            observations: Map::empty(),
            settled: Map::empty(),
            highest_settled: 0,
            source_tag: 0,
            highest_pruned: 42_900_000,
            window_width: 288_000,
            payment_delay: None,
            delayed_payments: Map::empty(),
            delayed_schedule: Map::empty(),
            next_delay_process_block: 0,
            next_delayed_payment_id: 0,
            challenges: Map::empty(),
            tickets: TicketAllocation {
                current_sequence: 0,
                current_bucket: XrplTicketSequenceParams { start_sequence: 0, bucket_size: 0 },
                next_bucket: XrplTicketSequenceParams { start_sequence: 0, bucket_size: 0 },
                threshold_alert_emitted: false,
            },
            door_tx_fee: 1_000_000,
            door_address: None,
        }
    }

    /// The engine at the start, with no relayer yet. Nothing is settled,
    /// and the highest pruned ledger index stands at its default, far past
    /// the window's start: the watermarks are not in order until a reset
    /// has put them so, and until then the pruner finds nothing to walk.
    pub fn new(config: Config) -> (r: Pallet)
        requires
            config.wf(),
        ensures
            r.wf(),
            r@ == Pallet::genesis(config),
            r@.highest_pruned > r@.window_start(),
            r@.replay_safe(),
            r@.escrow_safe(),
    {
        proof {
            crate::laws::law_genesis_replay_safe(config);
            crate::escrow_laws::law_genesis_escrow_safe(config);
        }
        Pallet {
            config,
            relayers: StorageMap::new(),
            scheduled: BoundedListMap::new(config.xrp_transaction_limit),
            observations: StorageMap::new(),
            settled: BoundedListMap::new(config.xrpl_transaction_limit_per_ledger),
            highest_settled_ledger_index: 0,
            source_tag: 0,
            highest_pruned_ledger_index: DefaultHighestPrunedLedgerIndex(),
            submission_window_width: DefaultSubmissionWindowWidth(),
            payment_delay: None,
            delayed_payments: StorageMap::new(),
            delayed_payment_schedule: BoundedListMap::new(config.max_delayed_payments_per_block),
            next_delay_process_block: 0,
            next_delayed_payment_id: 0,
            challenges: StorageMap::new(),
            tickets: TicketAllocation::new(),
            door_tx_fee: DefaultDoorTxFee(),
            door_address: None,
        }
    }

    /// The first ledger index of the submission window.
    pub fn submission_window_start(&self) -> (r: u32)
        ensures
            r == self@.window_start(),
    {
        self.highest_settled_ledger_index.saturating_sub(self.submission_window_width)
    }

    /// The active flag of `relayer`, if it is in the relayer set.
    pub fn get_relayer(&self, relayer: &AccountId) -> (r: Option<bool>)
        requires
            self.wf(),
        ensures
            r == if self@.relayers.contains_key(*relayer) {
                Some(self@.relayers[*relayer])
            } else {
                None
            },
    {
        match self.relayers.get(relayer) {
            Some(active) => Some(*active),
            None => None,
        }
    }

    /// The hashes due for settlement at `tick`, if there are any.
    pub fn process_xrp_transaction(&self, tick: DueTick) -> (r: Option<Vec<XrplTxHash>>)
        requires
            self.wf(),
        ensures
            match r {
                Some(list) => self@.scheduled.contains_key(tick) && list@ == self@.scheduled[tick],
                None => !self@.scheduled.contains_key(tick),
            },
    {
        match self.scheduled.get(&tick) {
            Some(list) => Some(copy_list(list)),
            None => None,
        }
    }

    /// The observation reported under `hash`, if there is one.
    pub fn process_xrp_transaction_details(&self, hash: &XrplTxHash) -> (r: Option<Observation>)
        requires
            self.wf(),
        ensures
            r == if self@.observations.contains_key(*hash) {
                Some(self@.observations[*hash])
            } else {
                None
            },
    {
        match self.observations.get(hash) {
            Some(observation) => Some(*observation),
            None => None,
        }
    }

    /// The hashes settled at `ledger_index`, if there are any.
    pub fn settled_xrp_transaction_details(&self, ledger_index: LedgerIndex) -> (r: Option<
        Vec<XrplTxHash>,
    >)
        requires
            self.wf(),
        ensures
            match r {
                Some(list) => self@.settled.contains_key(ledger_index) && list@
                    == self@.settled[ledger_index],
                None => !self@.settled.contains_key(ledger_index),
            },
    {
        match self.settled.get(&ledger_index) {
            Some(list) => Some(copy_list(list)),
            None => None,
        }
    }

    /// The account that challenged `hash`, if one did.
    pub fn challenge_xrp_transaction_list(&self, hash: &XrplTxHash) -> (r: Option<AccountId>)
        requires
            self.wf(),
        ensures
            r == if self@.challenges.contains_key(*hash) {
                Some(self@.challenges[*hash])
            } else {
                None
            },
    {
        match self.challenges.get(hash) {
            Some(challenger) => Some(*challenger),
            None => None,
        }
    }

    /// The delayed withdrawal with the id `id`, if it still waits.
    pub fn delayed_payment(&self, id: DelayedPaymentId) -> (r: Option<DelayedWithdrawal>)
        requires
            self.wf(),
        ensures
            r == if self@.delayed_payments.contains_key(id) {
                Some(self@.delayed_payments[id])
            } else {
                None
            },
    {
        match self.delayed_payments.get(&id) {
            Some(withdrawal) => Some(*withdrawal),
            None => None,
        }
    }

    /// The delayed withdrawals due at `tick`, if there are any.
    pub fn delayed_payments_due(&self, tick: BlockNumber) -> (r: Option<Vec<DelayedPaymentId>>)
        requires
            self.wf(),
        ensures
            match r {
                Some(list) => self@.delayed_schedule.contains_key(tick) && list@
                    == self@.delayed_schedule[tick],
                None => !self@.delayed_schedule.contains_key(tick),
            },
    {
        match self.delayed_payment_schedule.get(&tick) {
            Some(list) => Some(copy_list(list)),
            None => None,
        }
    }

    /// The sequence number that the next allocation hands out.
    pub fn door_ticket_sequence(&self) -> (r: u32)
        ensures
            r == self@.tickets.current_sequence,
    {
        self.tickets.current_sequence
    }

    /// The ticket bucket in use.
    pub fn door_ticket_sequence_params(&self) -> (r: XrplTicketSequenceParams)
        ensures
            r == self@.tickets.current_bucket,
    {
        self.tickets.current_bucket
    }

    /// The ticket bucket to move to next.
    pub fn door_ticket_sequence_params_next(&self) -> (r: XrplTicketSequenceParams)
        ensures
            r == self@.tickets.next_bucket,
    {
        self.tickets.next_bucket
    }

    /// Whether the ticket alert has fired for the current bucket.
    pub fn ticket_sequence_threshold_reached_emitted(&self) -> (r: bool)
        ensures
            r == self@.tickets.threshold_alert_emitted,
    {
        self.tickets.threshold_alert_emitted
    }

    /// The flat fee of a door transaction, in drops.
    pub fn door_tx_fee(&self) -> (r: u64)
        ensures
            r == self@.door_tx_fee,
    {
        self.door_tx_fee
    }

    /// The door address on the external chain, if it is set.
    pub fn door_address(&self) -> (r: Option<XrplAccountId>)
        ensures
            r == self@.door_address,
    {
        self.door_address
    }
}

} // verus!
