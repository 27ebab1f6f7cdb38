use vstd::prelude::*;

verus! {

/// The setting category that a failure belongs to.
#[derive(Debug, Clone, Copy, PartialEq, Eq, Structural)]
pub enum SettingVariant {
    Cpu,
}

/// A setting that did not take effect, with a human-readable cause.
#[derive(Debug, Clone)]
pub struct SettingError {
    pub msg: String,
    pub setting: SettingVariant,
}

} // verus!
