//! Compute budget: the time that an operation may use or has used.

use vstd::prelude::*;

verus! {

/// An amount of compute time, in picoseconds of reference hardware.
#[derive(Clone, Copy, Debug, PartialEq, Eq, Structural)]
pub struct Weight {
    pub ref_time: u64,
}

impl Weight {
    pub open spec fn spec_saturating_add(self, rhs: Weight) -> Weight {
        Weight {
            ref_time: if self.ref_time + rhs.ref_time > u64::MAX {
                u64::MAX
            } else {
                (self.ref_time + rhs.ref_time) as u64
            },
        }
    }

    pub open spec fn spec_saturating_sub(self, rhs: Weight) -> Weight {
        Weight {
            ref_time: if self.ref_time < rhs.ref_time {
                0
            } else {
                (self.ref_time - rhs.ref_time) as u64
            },
        }
    }

    pub open spec fn spec_saturating_mul(self, scalar: u64) -> Weight {
        Weight { ref_time: saturating_product(self.ref_time, scalar) }
    }

    pub open spec fn spec_div(self, scalar: u64) -> Weight {
        Weight { ref_time: self.ref_time / scalar }
    }

    pub open spec fn spec_lte(self, other: Weight) -> bool {
        self.ref_time <= other.ref_time
    }

    /// No time at all.
    pub fn zero() -> (r: Weight)
        ensures
            r.ref_time == 0,
    {
        Weight { ref_time: 0 }
    }

    /// The weight of `ref_time` picoseconds.
    pub fn from_ref_time(ref_time: u64) -> (r: Weight)
        ensures
            r.ref_time == ref_time,
    {
        Weight { ref_time }
    }

    /// The time held, in picoseconds.
    pub fn ref_time(&self) -> (r: u64)
        ensures
            r == self.ref_time,
    {
        self.ref_time
    }

    /// Sum that stops at the greatest weight.
    pub fn saturating_add(self, rhs: Weight) -> (r: Weight)
        ensures
            r == self.spec_saturating_add(rhs),
    {
        Weight { ref_time: self.ref_time.saturating_add(rhs.ref_time) }
    }

    /// Difference that stops at zero.
    pub fn saturating_sub(self, rhs: Weight) -> (r: Weight)
        ensures
            r == self.spec_saturating_sub(rhs),
    {
        Weight { ref_time: self.ref_time.saturating_sub(rhs.ref_time) }
    }

    /// Product with a count that stops at the greatest weight.
    pub fn saturating_mul(self, scalar: u64) -> (r: Weight)
        ensures
            r == self.spec_saturating_mul(scalar),
    {
        Weight { ref_time: saturating_mul_u64(self.ref_time, scalar) }
    }

    /// Quotient by a count, rounded down.
    pub fn div(self, scalar: u64) -> (r: Weight)
        requires
            scalar != 0,
        ensures
            r == self.spec_div(scalar),
    {
        Weight { ref_time: self.ref_time / scalar }
    }

    /// Whether this weight is within `other`.
    pub fn all_lte(self, other: Weight) -> (r: bool)
        ensures
            r == self.spec_lte(other),
    {
        self.ref_time <= other.ref_time
    }
}

/// The product of two counts, or the greatest `u64` where it is larger.
pub open spec fn saturating_product(a: u64, b: u64) -> u64 {
    if a * b > u64::MAX {
        u64::MAX
    } else {
        (a * b) as u64
    }
}

/// Product that stops at the greatest `u64`.
pub fn saturating_mul_u64(a: u64, b: u64) -> (r: u64)
    ensures
        r == saturating_product(a, b),
{
    match a.checked_mul(b) {
        Some(p) => p,
        None => u64::MAX,
    }
}

/// The cost of one read and of one write of the host's database.
#[derive(Clone, Copy, Debug, PartialEq, Eq, Structural)]
pub struct RuntimeDbWeight {
    pub read: u64,
    pub write: u64,
}

impl RuntimeDbWeight {
    pub open spec fn spec_reads(self, r: u64) -> Weight {
        Weight { ref_time: saturating_product(self.read, r) }
    }

    pub open spec fn spec_writes(self, w: u64) -> Weight {
        Weight { ref_time: saturating_product(self.write, w) }
    }

    pub open spec fn spec_reads_writes(self, r: u64, w: u64) -> Weight {
        self.spec_reads(r).spec_saturating_add(self.spec_writes(w))
    }

    /// What `reads` reads and `writes` writes cost, as a number.
    pub open spec fn cost(self, reads: u8, writes: u8) -> int {
        self.read * reads + self.write * writes
    }

    /// Whether the budget `remaining` pays for what is `used` and for
    /// `reads` reads and `writes` writes more.
    pub fn affords(self, remaining: Weight, used: Weight, reads: u8, writes: u8) -> (r: bool)
        ensures
            r == (used.ref_time + self.cost(reads, writes) <= remaining.ref_time),
    {
        assert(self.read * reads <= 0xffff_ffff_ffff_ffff * 0xff) by (nonlinear_arith)
            requires
                self.read <= 0xffff_ffff_ffff_ffff,
                reads <= 0xff,
        ;
        assert(self.write * writes <= 0xffff_ffff_ffff_ffff * 0xff) by (nonlinear_arith)
            requires
                self.write <= 0xffff_ffff_ffff_ffff,
                writes <= 0xff,
        ;
        let read_cost: u128 = self.read as u128 * reads as u128;
        let write_cost: u128 = self.write as u128 * writes as u128;
        used.ref_time as u128 + read_cost + write_cost <= remaining.ref_time as u128
    }

    /// The costs of a RocksDB backend: 25 µs a read, 100 µs a write.
    pub fn rocks_db() -> (r: RuntimeDbWeight)
        ensures
            r.read == 25_000_000,
            r.write == 100_000_000,
    {
        RuntimeDbWeight { read: 25_000_000, write: 100_000_000 }
    }

    /// The cost of `r` reads.
    pub fn reads(self, r: u64) -> (res: Weight)
        ensures
            res == self.spec_reads(r),
    {
        Weight { ref_time: saturating_mul_u64(self.read, r) }
    }

    /// The cost of `w` writes.
    pub fn writes(self, w: u64) -> (res: Weight)
        ensures
            res == self.spec_writes(w),
    {
        Weight { ref_time: saturating_mul_u64(self.write, w) }
    }

    /// The cost of `r` reads and `w` writes.
    pub fn reads_writes(self, r: u64, w: u64) -> (res: Weight)
        ensures
            res == self.spec_reads_writes(r, w),
    {
        self.reads(r).saturating_add(self.writes(w))
    }
}

} // verus!
