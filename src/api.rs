use vstd::prelude::*;

verus! {

/// An inclusive range that a user interface may offer for a setting.
#[derive(Debug, Clone, Copy, PartialEq, Eq, Structural)]
pub struct RangeLimit<T> {
    pub min: T,
    pub max: T,
}

/// What one core lets a user set.
#[derive(Debug, Clone)]
pub struct CpuLimits {
    pub clock_min_limits: Option<RangeLimit<u64>>,
    pub clock_max_limits: Option<RangeLimit<u64>>,
    pub clock_step: u64,
    pub governors: Vec<String>,
}

/// What the ensemble lets a user set.
#[derive(Debug, Clone)]
pub struct CpusLimits {
    pub cpus: Vec<CpuLimits>,
    pub count: usize,
    pub smt_capable: bool,
}

} // verus!
