//! The ticket sequence allocator of the door account: a current bucket of
//! sequence numbers, a next bucket that an operator provides, and a one-time
//! alert per bucket when its use passes a threshold.

use crate::arithmetic::{percent_from_rational, percent_of};
use crate::types::{ArithmeticError, DispatchError, Error, XrplTicketSequenceParams};
use vstd::prelude::*;

verus! {

/// The allocator's state.
#[derive(Clone, Copy, Debug, PartialEq, Eq)]
pub struct TicketAllocation {
    /// The sequence number that the next allocation hands out.
    pub current_sequence: u32,
    /// The bucket in use.
    pub current_bucket: XrplTicketSequenceParams,
    /// The bucket to move to when the current one is used up; zero when unset.
    pub next_bucket: XrplTicketSequenceParams,
    /// Whether the alert has fired for the current bucket.
    pub threshold_alert_emitted: bool,
}

/// What an allocation hands out.
#[derive(Clone, Copy, Debug, PartialEq, Eq)]
pub struct TicketGrant {
    /// The sequence number to use.
    pub sequence: u32,
    /// The sequence number at which the alert fired, if it fired now.
    pub threshold_reached: Option<u32>,
}

/// The bucket that stands for "none".
pub open spec fn unset_bucket() -> XrplTicketSequenceParams {
    XrplTicketSequenceParams { start_sequence: 0, bucket_size: 0 }
}

impl TicketAllocation {
    /// How many numbers of the current bucket are used once the current
    /// sequence is handed out.
    pub open spec fn used_tickets(self) -> int {
        if self.current_sequence + 1 >= self.current_bucket.start_sequence {
            self.current_sequence + 1 - self.current_bucket.start_sequence
        } else {
            0
        }
    }

    /// Whether an allocation now fires the alert.
    pub open spec fn alert_due(self, threshold: u8) -> bool {
        &&& self.current_bucket.bucket_size != 0
        &&& percent_of(self.used_tickets() as u64, self.current_bucket.bucket_size as u64)
            >= threshold
        &&& !self.threshold_alert_emitted
    }

    /// Whether the current sequence lies past the current bucket.
    pub open spec fn exhausted(self) -> bool {
        self.current_sequence >= self.current_bucket.start_sequence
            + self.current_bucket.bucket_size
    }

    /// Whether nobody has provided a next bucket.
    pub open spec fn next_unset(self) -> bool {
        self.next_bucket == unset_bucket() || self.next_bucket.start_sequence
            == self.current_bucket.start_sequence
    }

    /// The error of an allocation, if it fails.
    pub open spec fn allocate_error(self) -> Option<DispatchError> {
        if self.current_sequence + 1 > u32::MAX {
            Some(DispatchError::Arithmetic(ArithmeticError::Overflow))
        } else if self.current_bucket.start_sequence + self.current_bucket.bucket_size
            > u32::MAX {
            Some(DispatchError::Arithmetic(ArithmeticError::Overflow))
        } else if !self.exhausted() {
            None
        } else if self.next_unset() {
            Some(DispatchError::Module(Error::NextTicketSequenceParamsNotSet))
        } else if self.next_bucket.start_sequence + 1 > u32::MAX {
            Some(DispatchError::Arithmetic(ArithmeticError::Overflow))
        } else {
            None
        }
    }

    /// The state after an allocation that succeeds.
    pub open spec fn after_allocate(self, threshold: u8) -> TicketAllocation {
        if self.exhausted() {
            TicketAllocation {
                current_sequence: (self.next_bucket.start_sequence + 1) as u32,
                current_bucket: self.next_bucket,
                next_bucket: unset_bucket(),
                threshold_alert_emitted: false,
            }
        } else {
            TicketAllocation {
                current_sequence: (self.current_sequence + 1) as u32,
                threshold_alert_emitted: self.threshold_alert_emitted || self.alert_due(threshold),
                ..self
            }
        }
    }

    /// What an allocation that succeeds hands out.
    pub open spec fn granted(self, threshold: u8) -> TicketGrant {
        TicketGrant {
            sequence: if self.exhausted() {
                self.next_bucket.start_sequence
            } else {
                self.current_sequence
            },
            threshold_reached: if self.alert_due(threshold) {
                Some(self.current_sequence)
            } else {
                None
            },
        }
    }

    /// The allocator before any bucket is set.
    pub fn new() -> (r: TicketAllocation)
        ensures
            r == (TicketAllocation {
                current_sequence: 0,
                current_bucket: unset_bucket(),
                next_bucket: unset_bucket(),
                threshold_alert_emitted: false,
            }),
    {
        TicketAllocation {
            current_sequence: 0,
            current_bucket: XrplTicketSequenceParams { start_sequence: 0, bucket_size: 0 },
            next_bucket: XrplTicketSequenceParams { start_sequence: 0, bucket_size: 0 },
            threshold_alert_emitted: false,
        }
    }

    /// Hands out the current sequence number and moves to the next one,
    /// rolling over to the next bucket when the current one is used up.
    /// `threshold` is the share of the bucket, in parts per hundred, from
    /// which the alert fires. On failure the allocator is left as it was.
    pub fn allocate(&mut self, threshold: u8) -> (r: Result<TicketGrant, DispatchError>)
        ensures
            match r {
                Ok(grant) => {
                    &&& old(self).allocate_error() is None
                    &&& *final(self) == old(self).after_allocate(threshold)
                    &&& grant == old(self).granted(threshold)
                },
                Err(e) => {
                    &&& old(self).allocate_error() == Some(e)
                    &&& *final(self) == *old(self)
                },
            },
    {
        let current: u32 = self.current_sequence;
        let start: u32 = self.current_bucket.start_sequence;
        let size: u32 = self.current_bucket.bucket_size;
        let used: u64 = if current as u64 + 1 >= start as u64 {
            current as u64 + 1 - start as u64
        } else {
            0
        };
        let alert = size != 0 && percent_from_rational(used, size as u64) >= threshold
            && !self.threshold_alert_emitted;
        let threshold_reached = if alert {
            Some(current)
        } else {
            None
        };
        let next_sequence: u32 = match current.checked_add(1) {
            Some(n) => n,
            None => { return Err(DispatchError::Arithmetic(ArithmeticError::Overflow)); },
        };
        let last_sequence: u32 = match start.checked_add(size) {
            Some(n) => n,
            None => { return Err(DispatchError::Arithmetic(ArithmeticError::Overflow)); },
        };
        if current >= last_sequence {
            let next = self.next_bucket;
            if (next.start_sequence == 0 && next.bucket_size == 0) || next.start_sequence == start {
                return Err(DispatchError::Module(Error::NextTicketSequenceParamsNotSet));
            }
            let after_first: u32 = match next.start_sequence.checked_add(1) {
                Some(n) => n,
                None => { return Err(DispatchError::Arithmetic(ArithmeticError::Overflow)); },
            };
            self.current_bucket = next;
            self.next_bucket = XrplTicketSequenceParams { start_sequence: 0, bucket_size: 0 };
            self.threshold_alert_emitted = false;
            self.current_sequence = after_first;
            Ok(TicketGrant { sequence: next.start_sequence, threshold_reached })
        } else {
            if alert {
                self.threshold_alert_emitted = true;
            }
            self.current_sequence = next_sequence;
            Ok(TicketGrant { sequence: current, threshold_reached })
        }
    }
}

} // verus!
