//! Relay, settlement-window and escrow-scheduling engine of an XRPL bridge.
//!
//! The engine keeps its whole state in [`Pallet`]: the observations that
//! relayers reported, the slots in which they fall due, the settled index
//! with its two watermarks, delayed withdrawals and the ticket sequence of
//! the door account. Every operation is a method on that state, with a
//! contract over the state's mathematical view, [`PalletView`].
//!
//! - [`relay`] takes observations and challenges and guards against replay.
//! - [`settlement`] applies what falls due at a tick to the local ledger.
//! - [`pruner`] reclaims settled history before the submission window.
//! - [`withdraw`] composes outbound payments and puts off the large ones;
//!   [`delayed`] hands those over when their tick has come.
//! - [`tickets`] allocates the door account's ticket sequences.
//! - [`admin`] holds the privileged settings and the two per-tick hooks,
//!   [`import`] the bulk import of settled history.
//! - [`laws`] and [`escrow_laws`] state what holds over all states and
//!   prove it.
//! - [`storage`], [`weight`], [`arithmetic`], [`primitives`] and [`types`]
//!   are what the others are built from; [`fee_control`] migrates the fee
//!   settings of the host.
//!
//! The asset ledger and the signing service stay outside: settlement asks a
//! [`Ledger`] for each credit, and withdrawals come back as requests for
//! the host to debit, encode and sign.

pub mod admin;
pub mod arithmetic;
pub mod delayed;
pub mod escrow_laws;
pub mod fee_control;
pub mod import;
pub mod laws;
pub mod pallet;
pub mod primitives;
pub mod pruner;
pub mod relay;
pub mod settlement;
pub mod storage;
pub mod tickets;
pub mod types;
pub mod weight;
pub mod withdraw;

pub use admin::IdleReport;
pub use fee_control::{
    migrate, post_upgrade, pre_upgrade, DefaultValues, FeeConfig, FeeControlStorage, Perbill,
    Upgrade, U256,
};
pub use import::SettledTx;
pub use pallet::{
    Config, DefaultDoorTicketSequence, DefaultDoorTxFee, DefaultHighestPrunedLedgerIndex,
    DefaultSubmissionWindowWidth, DefaultTicketSequenceThresholdReachedEmitted, GenesisConfig,
    Pallet, PalletView,
};
pub use primitives::{
    AccountId, AssetId, Balance, BlockNumber, DelayedPaymentId, DueTick, LedgerIndex, StoreKey,
    Timestamp,
    XrplAccountId, XrplTxHash, XrplTxNonce, XrplTxTicketSequence, H160, H256, H512,
};
pub use settlement::{settled_count, DueAction, Ledger};
pub use storage::{copy_list, list_or_empty, without_keys, BoundedListMap, StorageMap};
pub use tickets::{TicketAllocation, TicketGrant};
pub use types::{
    ArithmeticError, DelayedWithdrawal, DispatchError, Error, Event, Observation, XrpTransaction,
    XrpWithdrawTransaction, XrplTicketSequenceParams, XrplTxData,
};
pub use weight::{RuntimeDbWeight, Weight};
pub use withdraw::{
    OutboundPayment, SignerListSetRequest, WithdrawAction, WithdrawRequest, Withdrawal,
};
