//! Fixed-width identifiers and the key equality that the stores rely on.

use vstd::prelude::*;

verus! {

/// A 160-bit identifier, held as its big-endian words.
#[derive(Clone, Copy, Debug, PartialEq, Eq, Hash, Structural)]
pub struct H160 {
    pub hi: u32,
    pub lo: u128,
}

/// A 256-bit identifier, held as two big-endian words.
#[derive(Clone, Copy, Debug, PartialEq, Eq, Hash, Structural)]
pub struct H256 {
    pub hi: u128,
    pub lo: u128,
}

/// A 512-bit identifier, held as four big-endian words.
#[derive(Clone, Copy, Debug, PartialEq, Eq, Hash, Structural)]
pub struct H512 {
    pub w0: u128,
    pub w1: u128,
    pub w2: u128,
    pub w3: u128,
}

/// Classic account address on the external chain.
pub type XrplAccountId = H160;

/// Hash of a transaction on the external chain; the global replay key.
pub type XrplTxHash = H512;

/// Account on the local ledger.
pub type AccountId = H160;

/// Index of a ledger on the external chain.
pub type LedgerIndex = u32;

/// Ticket sequence number of the door account.
pub type XrplTxTicketSequence = u32;

/// Account sequence number on the external chain.
pub type XrplTxNonce = u32;

/// Amount on the local ledger.
pub type Balance = u128;

/// Asset on the local ledger.
pub type AssetId = u32;

/// Milliseconds since the Unix epoch.
pub type Timestamp = u64;

/// One tick of the host: a block number.
pub type BlockNumber = u32;

/// The tick at which an observation falls due: a block number and a period
/// added, in a type in which the sum always fits.
pub type DueTick = u64;

/// Identifier of a delayed withdrawal.
pub type DelayedPaymentId = u64;

impl H160 {
    /// The identifier whose low 64 bits are `v` and whose other bits are zero.
    pub fn from_low_u64_be(v: u64) -> (r: Self)
        ensures
            r == (H160 { hi: 0, lo: v as u128 }),
    {
        H160 { hi: 0, lo: v as u128 }
    }
}

impl H512 {
    /// The identifier whose low 64 bits are `v` and whose other bits are zero.
    pub fn from_low_u64_be(v: u64) -> (r: Self)
        ensures
            r == (H512 { w0: 0, w1: 0, w2: 0, w3: v as u128 }),
    {
        H512 { w0: 0, w1: 0, w2: 0, w3: v as u128 }
    }
}

/// A key of a store: a value whose executable equality is equality itself.
pub trait StoreKey: Sized + Copy {
    fn key_eq(&self, other: &Self) -> (r: bool)
        ensures
            r == (*self == *other),
    ;
}

impl StoreKey for u32 {
    fn key_eq(&self, other: &Self) -> (r: bool) {
        *self == *other
    }
}

impl StoreKey for u64 {
    fn key_eq(&self, other: &Self) -> (r: bool) {
        *self == *other
    }
}

impl StoreKey for H160 {
    fn key_eq(&self, other: &Self) -> (r: bool) {
        self.hi == other.hi && self.lo == other.lo
    }
}

impl StoreKey for H512 {
    fn key_eq(&self, other: &Self) -> (r: bool) {
        self.w0 == other.w0 && self.w1 == other.w1 && self.w2 == other.w2 && self.w3 == other.w3
    }
}

} // verus!
