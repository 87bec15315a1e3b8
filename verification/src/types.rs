//! Records that the engine stores, the errors it returns and the events it reports.

use crate::primitives::{
    AccountId, Balance, BlockNumber, DelayedPaymentId, LedgerIndex, Timestamp, XrplAccountId,
    XrplTxHash, XrplTxNonce, XrplTxTicketSequence, H160, H256,
};
use vstd::prelude::*;

verus! {

/// What a transaction on the external chain says.
#[derive(Clone, Copy, Debug, PartialEq, Eq)]
pub enum XrplTxData {
    /// A payment of the bridged asset to a local address.
    Payment { amount: Balance, address: H160 },
    /// A payment in another currency.
    CurrencyPayment { amount: Balance, address: H160, currency_id: H256 },
    /// A non-fungible token transfer.
    Xls20,
}

/// A transaction on the external chain as a relayer reported it.
#[derive(Clone, Copy, Debug, PartialEq, Eq)]
pub struct XrpTransaction {
    pub transaction_hash: XrplTxHash,
    pub transaction: XrplTxData,
    pub timestamp: Timestamp,
}

/// A reported transaction with the ledger it was seen in and its reporter.
#[derive(Clone, Copy, Debug, PartialEq, Eq)]
pub struct Observation {
    pub ledger_index: LedgerIndex,
    pub transaction: XrpTransaction,
    pub relayer: AccountId,
}

/// A payment that the door account is to make on the external chain.
#[derive(Clone, Copy, Debug, PartialEq, Eq)]
pub struct XrpWithdrawTransaction {
    pub tx_fee: u64,
    pub tx_nonce: XrplTxNonce,
    pub tx_ticket_sequence: XrplTxTicketSequence,
    pub amount: Balance,
    pub destination: XrplAccountId,
}

/// A withdrawal that waits for its due tick.
#[derive(Clone, Copy, Debug, PartialEq, Eq)]
pub struct DelayedWithdrawal {
    pub sender: AccountId,
    pub destination_tag: Option<u32>,
    pub withdraw_tx: XrpWithdrawTransaction,
}

/// A bucket of ticket sequences: `bucket_size` numbers from `start_sequence` on.
#[derive(Clone, Copy, Debug, PartialEq, Eq, Structural)]
pub struct XrplTicketSequenceParams {
    pub start_sequence: u32,
    pub bucket_size: u32,
}

impl Default for XrplTicketSequenceParams {
    fn default() -> (r: Self)
        ensures
            r == (XrplTicketSequenceParams { start_sequence: 0, bucket_size: 0 }),
    {
        XrplTicketSequenceParams { start_sequence: 0, bucket_size: 0 }
    }
}

/// Why the engine rejects an operation.
#[derive(Clone, Copy, Debug, PartialEq, Eq)]
pub enum Error {
    /// The caller is not an active relayer.
    NotPermitted,
    /// The payment ids have been exhausted.
    NoAvailablePaymentIds,
    /// The scheduled block cannot hold any more delayed payments.
    DelayScheduleAtCapacity,
    /// Nothing is settled under this ledger index.
    NoTransactionDetails,
    /// The account is not in the relayer set.
    RelayerDoesNotExists,
    /// The amount to withdraw is zero, or too large with the fee added.
    WithdrawInvalidAmount,
    /// The door address has not been configured.
    DoorAddressNotSet,
    /// The external chain does not allow more than 8 signers for the door.
    TooManySigners,
    /// The signers are not known to the signing collaborator.
    InvalidSigners,
    /// The highest pruned index must not pass the start of the submission
    /// window, and must not fall.
    InvalidHighestPrunedIndex,
    /// The highest settled index must not fall.
    InvalidHighestSettledIndex,
    /// The transaction hash was submitted before.
    TxReplay,
    /// The current bucket is used up and no next bucket is set.
    NextTicketSequenceParamsNotSet,
    /// The next bucket is invalid.
    NextTicketSequenceParamsInvalid,
    /// The current bucket is invalid.
    TicketSequenceParamsInvalid,
    /// The slot of that block is full.
    CannotProcessMoreTransactionsAtThatBlock,
    /// The ledger index is within the submission window and cannot be pruned.
    CannotPruneActiveLedgerIndex,
    /// The transaction is older than the submission window.
    OutSideSubmissionWindow,
    /// The list of that ledger index is full.
    TooManyTransactionsPerLedger,
}

/// An arithmetic failure.
#[derive(Clone, Copy, Debug, PartialEq, Eq)]
pub enum ArithmeticError {
    Underflow,
    Overflow,
    DivisionByZero,
}

/// Why an operation failed: the engine rejected it, a number left its range,
/// or a collaborator reported the failure under a code of its own.
#[derive(Clone, Copy, Debug, PartialEq, Eq)]
pub enum DispatchError {
    Module(Error),
    Arithmetic(ArithmeticError),
    Other(u32),
}

/// What the engine reports of its work.
#[derive(Clone, Copy, Debug, PartialEq, Eq)]
pub enum Event {
    TransactionAdded(LedgerIndex, XrplTxHash),
    TransactionChallenge(LedgerIndex, XrplTxHash),
    /// The payment delay was set.
    PaymentDelaySet { payment_threshold: Balance, delay: BlockNumber },
    /// The payment delay was removed.
    PaymentDelayRemoved,
    /// A transaction was settled.
    ProcessingOk(LedgerIndex, XrplTxHash),
    /// A transaction could not be settled.
    ProcessingFailed(LedgerIndex, XrplTxHash, DispatchError),
    /// The transaction is of a kind that the engine does not settle.
    NotSupportedTransaction,
    /// A withdrawal was handed to the signing collaborator.
    WithdrawRequest { proof_id: u64, sender: AccountId, amount: Balance, destination: XrplAccountId },
    /// A withdrawal at or over the threshold was put off.
    WithdrawDelayed {
        sender: AccountId,
        amount: Balance,
        destination: XrplAccountId,
        delayed_payment_id: DelayedPaymentId,
    },
    RelayerAdded(AccountId),
    RelayerRemoved(AccountId),
    DoorAddressSet(XrplAccountId),
    DoorNextTicketSequenceParamSet { ticket_sequence_start_next: u32, ticket_bucket_size_next: u32 },
    DoorTicketSequenceParamSet {
        ticket_sequence: u32,
        ticket_sequence_start: u32,
        ticket_bucket_size: u32,
    },
    LedgerIndexManualPrune { ledger_index: u32, total_cleared: u32 },
    TicketSequenceThresholdReached(u32),
}

} // verus!
