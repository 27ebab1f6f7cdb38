use vstd::prelude::*;

use crate::persist::MinMaxJson;

verus! {

/// An inclusive pair of bounds, used both for legal ranges and for desired values.
#[derive(Debug, Clone, Copy, PartialEq, Eq, Structural)]
pub struct MinMax<T> {
    pub max: T,
    pub min: T,
}

/// `value` bound to the inclusive range `[lo, hi]`.
pub open spec fn clamped(value: u64, lo: u64, hi: u64) -> u64 {
    if value < lo {
        lo
    } else if value > hi {
        hi
    } else {
        value
    }
}

/// Binds `value` to the inclusive range `[lo, hi]`.
pub fn clamp(value: u64, lo: u64, hi: u64) -> (r: u64)
    requires
        lo <= hi,
    ensures
        r == clamped(value, lo, hi),
        lo <= r <= hi,
{
    if value < lo {
        lo
    } else if value > hi {
        hi
    } else {
        value
    }
}

/// Clamping a value that already lies in range returns it unchanged, and
/// clamping twice gives what clamping once gives.
pub proof fn lemma_clamp_idempotent(value: u64, lo: u64, hi: u64)
    requires
        lo <= hi,
    ensures
        lo <= value <= hi ==> clamped(value, lo, hi) == value,
        clamped(clamped(value, lo, hi), lo, hi) == clamped(value, lo, hi),
{
}

impl MinMax<u64> {
    /// Reads the persisted form; every schema version decodes the same way.
    pub fn from_json(other: MinMaxJson, version: u64) -> (r: Self)
        ensures
            r.min == other.min,
            r.max == other.max,
    {
        MinMax { max: other.max, min: other.min }
    }

    /// The persisted form.
    pub fn to_json(&self) -> (r: MinMaxJson)
        ensures
            r.min == self.min,
            r.max == self.max,
    {
        MinMaxJson { max: self.max, min: self.min }
    }
}

} // verus!
