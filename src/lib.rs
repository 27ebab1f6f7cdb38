//! Configuration engine for the CPU settings of a handheld device: the core and
//! ensemble model, clamping against the hardware envelopes, and the ordered
//! control-file writes that apply a configuration.
pub mod api;
pub mod apply;
pub mod cpu;
pub mod cpus;
pub mod error;
pub mod min_max;
pub mod persist;
pub mod text;

pub use apply::ApplyRun;
pub use cpu::{Cpu, Step};
pub use cpus::{CoreProbe, Cpus};
pub use error::{SettingError, SettingVariant};
pub use min_max::MinMax;
pub use persist::{CpuJson, MinMaxJson};
