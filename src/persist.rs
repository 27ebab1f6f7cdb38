use vstd::prelude::*;

verus! {

/// Persisted pair of clock bounds.
#[derive(Debug, Clone, Copy, PartialEq, Eq, Structural)]
pub struct MinMaxJson {
    pub max: u64,
    pub min: u64,
}

/// Persisted record of one core.
#[derive(Debug, Clone)]
pub struct CpuJson {
    pub online: bool,
    pub clock_limits: Option<MinMaxJson>,
    pub governor: String,
}

} // verus!
