use vstd::prelude::*;

use crate::api::{CpuLimits, RangeLimit};
use crate::min_max::{clamp, clamped, MinMax};
use crate::persist::CpuJson;
use crate::text::{decimal, decimal_text};

verus! {

broadcast use vstd::string::group_string_axioms;

/// Highest settable value of the maximum clock bound.
pub const MAX_CLOCK_MAX: u64 = 3500;
/// Highest settable value of the minimum clock bound.
pub const MAX_CLOCK_MIN: u64 = 3500;
/// Lowest settable value of the maximum clock bound.
pub const MIN_CLOCK_MAX: u64 = 500;
/// Lowest settable value of the minimum clock bound.
pub const MIN_CLOCK_MIN: u64 = 1400;
/// Granularity of the clock bounds offered to a user.
pub const CLOCK_STEP: u64 = 100;

pub const SMT_PATH: &'static str = "/sys/devices/system/cpu/smt/control";
pub const CLOCK_LIMITS_PATH: &'static str = "/sys/class/drm/card0/device/pp_od_clk_voltage";
pub const FORCE_LIMITS_PATH: &'static str = "/sys/class/drm/card0/device/power_dpm_force_performance_level";
pub const DEFAULT_GOVERNOR: &'static str = "schedutil";

/// Apply-time state of a core.
#[derive(Debug, Clone, Copy, PartialEq, Eq, Structural)]
pub struct CpuState {
    /// A manual clock override is active on the hardware.
    pub clock_limits_set: bool,
    /// The online flag is to be written in this apply.
    pub do_set_online: bool,
    /// This apply restores the configuration after a resume.
    pub is_resuming: bool,
}

/// The state of a core that no apply has touched.
pub open spec fn idle_state() -> CpuState {
    CpuState { clock_limits_set: false, do_set_online: false, is_resuming: false }
}

impl CpuState {
    pub fn new() -> (r: Self)
        ensures
            r == idle_state(),
    {
        CpuState { clock_limits_set: false, do_set_online: false, is_resuming: false }
    }
}

/// One logical CPU: its desired configuration and its apply-time state.
#[derive(Debug, Clone)]
pub struct Cpu {
    pub online: bool,
    pub clock_limits: Option<MinMax<u64>>,
    pub governor: String,
    pub index: usize,
    pub state: CpuState,
}

/// One control-file operation of an apply.
#[derive(Debug, Clone)]
pub enum Step {
    /// Switch symmetric multithreading on or off.
    Smt { on: bool },
    /// Bring a core online or take it offline.
    Online { index: usize, online: bool },
    /// Put the performance level into manual mode, unless it already is.
    ManualMode,
    /// Set the maximum clock of a pair of cores.
    ClockMax { pair: usize, value: u64 },
    /// Set the minimum clock of a pair of cores.
    ClockMin { pair: usize, value: u64 },
    /// Make the pending clock lines take effect.
    Commit,
    /// Set the scheduling governor of a core.
    Governor { index: usize, governor: String },
}

/// A `Step` with its text as a sequence of characters.
pub enum StepView {
    Smt { on: bool },
    Online { index: usize, online: bool },
    ManualMode,
    ClockMax { pair: usize, value: u64 },
    ClockMin { pair: usize, value: u64 },
    Commit,
    Governor { index: usize, governor: Seq<char> },
}

impl View for Step {
    type V = StepView;

    open spec fn view(&self) -> StepView {
        match self {
            Step::Smt { on } => StepView::Smt { on: *on },
            Step::Online { index, online } => StepView::Online { index: *index, online: *online },
            Step::ManualMode => StepView::ManualMode,
            Step::ClockMax { pair, value } => StepView::ClockMax { pair: *pair, value: *value },
            Step::ClockMin { pair, value } => StepView::ClockMin { pair: *pair, value: *value },
            Step::Commit => StepView::Commit,
            Step::Governor { index, governor } => StepView::Governor {
                index: *index,
                governor: governor@,
            },
        }
    }
}

pub open spec fn steps_view(s: Seq<Step>) -> Seq<StepView> {
    s.map_values(|x: Step| x@)
}

/// The legal range of the minimum clock bound.
pub open spec fn min_bound_range() -> MinMax<u64> {
    MinMax { min: MIN_CLOCK_MIN, max: MAX_CLOCK_MIN }
}

/// The legal range of the maximum clock bound.
pub open spec fn max_bound_range() -> MinMax<u64> {
    MinMax { min: MIN_CLOCK_MAX, max: MAX_CLOCK_MAX }
}

/// Desired clock bounds brought into the hardware's legal ranges, each bound
/// into the range of its own field.
pub open spec fn clamped_limits(l: MinMax<u64>) -> MinMax<u64> {
    MinMax {
        min: clamped(l.min, MIN_CLOCK_MIN, MAX_CLOCK_MIN),
        max: clamped(l.max, MIN_CLOCK_MAX, MAX_CLOCK_MAX),
    }
}

/// The online step of an apply: only for a core other than the primary one
/// whose online flag the ensemble asked to write.
pub open spec fn online_steps(c: Cpu) -> Seq<StepView> {
    if c.index != 0 && c.state.do_set_online {
        seq![StepView::Online { index: c.index, online: c.online }]
    } else {
        seq![]
    }
}

/// The clock lines of an apply: the desired bounds; else the factory bounds where
/// an override was active or the apply is a resume; else none.
pub open spec fn clock_steps(c: Cpu) -> Seq<StepView> {
    let pair = (c.index / 2) as usize;
    match c.clock_limits {
        Some(l) => seq![
            StepView::ClockMax { pair: pair, value: l.max },
            StepView::ClockMin { pair: pair, value: l.min },
        ],
        None => if c.state.clock_limits_set || c.state.is_resuming {
            seq![
                StepView::ClockMax { pair: pair, value: MAX_CLOCK_MAX },
                StepView::ClockMin { pair: pair, value: MIN_CLOCK_MIN },
            ]
        } else {
            seq![]
        },
    }
}

/// The governor step: for the primary core, or a core that is online.
pub open spec fn governor_steps(c: Cpu) -> Seq<StepView> {
    if c.index == 0 || c.online {
        seq![StepView::Governor { index: c.index, governor: c.governor@ }]
    } else {
        seq![]
    }
}

/// The control-file operations that apply the configuration of a core, in order.
pub open spec fn core_plan(c: Cpu) -> Seq<StepView> {
    online_steps(c) + seq![StepView::ManualMode] + clock_steps(c) + seq![StepView::Commit]
        + governor_steps(c)
}

/// Position of the manual-mode step in the plan of a core.
pub open spec fn manual_step_at(c: Cpu) -> nat {
    online_steps(c).len()
}

/// Whether the override flag is to change once the manual-mode step succeeded:
/// it then records whether desired bounds were written.
pub open spec fn limits_set_after(c: Cpu) -> bool {
    c.clock_limits is Some
}

/// The core as a resume applies it.
pub open spec fn resuming(c: Cpu) -> Cpu {
    Cpu { state: CpuState { is_resuming: true, ..c.state }, ..c }
}

pub open spec fn online_path(index: usize) -> Seq<char> {
    "/sys/devices/system/cpu/cpu"@ + decimal(index as nat) + "/online"@
}

pub open spec fn governor_path(index: usize) -> Seq<char> {
    "/sys/devices/system/cpu/cpu"@ + decimal(index as nat) + "/cpufreq/scaling_governor"@
}

/// The control file that a step writes.
pub open spec fn step_path(s: StepView) -> Seq<char> {
    match s {
        StepView::Smt { .. } => SMT_PATH@,
        StepView::Online { index, .. } => online_path(index),
        StepView::ManualMode => FORCE_LIMITS_PATH@,
        StepView::ClockMax { .. } => CLOCK_LIMITS_PATH@,
        StepView::ClockMin { .. } => CLOCK_LIMITS_PATH@,
        StepView::Commit => CLOCK_LIMITS_PATH@,
        StepView::Governor { index, .. } => governor_path(index),
    }
}

/// A clock line: `p <pair> <slot> <value>` and a newline.
pub open spec fn clock_line(pair: usize, slot: Seq<char>, value: u64) -> Seq<char> {
    "p "@ + decimal(pair as nat) + " "@ + slot + " "@ + decimal(value as nat) + "\n"@
}

/// The text that a step writes.
pub open spec fn step_text(s: StepView) -> Seq<char> {
    match s {
        StepView::Smt { on } => if on { "on"@ } else { "off"@ },
        StepView::Online { online, .. } => if online { "1"@ } else { "0"@ },
        StepView::ManualMode => "manual"@,
        StepView::ClockMax { pair, value } => clock_line(pair, "1"@, value),
        StepView::ClockMin { pair, value } => clock_line(pair, "0"@, value),
        StepView::Commit => "c\n"@,
        StepView::Governor { governor, .. } => governor,
    }
}

/// Path of the online control file of a core.
pub fn cpu_online_path(index: usize) -> (r: String)
    ensures
        r@ == online_path(index),
{
    let mut s = String::from_str("/sys/devices/system/cpu/cpu");
    let d = decimal_text(index as u64);
    s.append(d.as_str());
    s.append("/online");
    s
}

/// Path of the governor control file of a core.
pub fn cpu_governor_path(index: usize) -> (r: String)
    ensures
        r@ == governor_path(index),
{
    let mut s = String::from_str("/sys/devices/system/cpu/cpu");
    let d = decimal_text(index as u64);
    s.append(d.as_str());
    s.append("/cpufreq/scaling_governor");
    s
}

fn clock_line_text(pair: usize, slot: &str, value: u64) -> (r: String)
    ensures
        r@ == clock_line(pair, slot@, value),
{
    let mut s = String::from_str("p ");
    let p = decimal_text(pair as u64);
    s.append(p.as_str());
    s.append(" ");
    s.append(slot);
    s.append(" ");
    let v = decimal_text(value);
    s.append(v.as_str());
    s.append("\n");
    s
}

impl Step {
    /// The control file that this step writes.
    pub fn path(&self) -> (r: String)
        ensures
            r@ == step_path(self@),
    {
        match self {
            Step::Smt { .. } => String::from_str(SMT_PATH),
            Step::Online { index, .. } => cpu_online_path(*index),
            Step::ManualMode => String::from_str(FORCE_LIMITS_PATH),
            Step::ClockMax { .. } => String::from_str(CLOCK_LIMITS_PATH),
            Step::ClockMin { .. } => String::from_str(CLOCK_LIMITS_PATH),
            Step::Commit => String::from_str(CLOCK_LIMITS_PATH),
            Step::Governor { index, .. } => cpu_governor_path(*index),
        }
    }

    /// The text that this step writes.
    pub fn text(&self) -> (r: String)
        ensures
            r@ == step_text(self@),
    {
        match self {
            Step::Smt { on } => if *on {
                String::from_str("on")
            } else {
                String::from_str("off")
            },
            Step::Online { online, .. } => if *online {
                String::from_str("1")
            } else {
                String::from_str("0")
            },
            Step::ManualMode => String::from_str("manual"),
            Step::ClockMax { pair, value } => clock_line_text(*pair, "1", *value),
            Step::ClockMin { pair, value } => clock_line_text(*pair, "0", *value),
            Step::Commit => String::from_str("c\n"),
            Step::Governor { governor, .. } => String::from_str(governor.as_str()),
        }
    }

    /// Whether the step reads its control file before it writes: only the
    /// manual-mode step does.
    pub fn reads_first(&self) -> (r: bool)
        ensures
            r == (self@ is ManualMode),
    {
        match self {
            Step::ManualMode => true,
            _ => false,
        }
    }

    /// Whether the step writes, given what its control file held where it reads
    /// first: the manual-mode step writes only where the file does not already
    /// read `manual`; every other step writes.
    pub fn should_write(&self, current: &str) -> (r: bool)
        ensures
            r == (!(self@ is ManualMode) || current@ != "manual"@),
    {
        match self {
            Step::ManualMode => !crate::text::same_text(current, "manual"),
            _ => true,
        }
    }
}

/// A core's plan writes its online flag exactly where the core is not the
/// primary one and the ensemble marked it eligible, and then writes the
/// desired flag; so the primary core is never written offline.
pub proof fn lemma_online_write(c: Cpu)
    ensures
        (exists|k: int| 0 <= k < core_plan(c).len() && (#[trigger] core_plan(c)[k]) is Online)
            <==> (c.index != 0 && c.state.do_set_online),
        forall|k: int|
            0 <= k < core_plan(c).len() && (#[trigger] core_plan(c)[k]) is Online ==> core_plan(
                c,
            )[k] == (StepView::Online { index: c.index, online: c.online }) && c.index != 0,
{
    let p = core_plan(c);
    let o = online_steps(c).len() as int;
    let cl = clock_steps(c).len() as int;
    assert forall|k: int| o <= k < p.len() implies !(#[trigger] p[k] is Online) by {
        if k == o {
            assert(p[k] == StepView::ManualMode);
        } else if k < o + 1 + cl {
            assert(p[k] == clock_steps(c)[k - o - 1]);
        } else if k == o + 1 + cl {
            assert(p[k] == StepView::Commit);
        } else {
            assert(p[k] == governor_steps(c)[k - o - 2 - cl]);
        }
    }
    if c.index != 0 && c.state.do_set_online {
        assert(p[0] is Online);
    }
}

/// A resume switches to manual mode and then writes both clock bounds and the
/// commit line, whether or not the bounds changed: the desired bounds where
/// there are some, the factory bounds otherwise.
pub proof fn lemma_resume_writes_clock(c: Cpu)
    ensures
        ({
            let p = core_plan(resuming(c));
            let m = manual_step_at(c) as int;
            let pair = (c.index / 2) as usize;
            &&& p[m] == StepView::ManualMode
            &&& p[m + 1] == (StepView::ClockMax {
                pair,
                value: match c.clock_limits {
                    Some(l) => l.max,
                    None => MAX_CLOCK_MAX,
                },
            })
            &&& p[m + 2] == (StepView::ClockMin {
                pair,
                value: match c.clock_limits {
                    Some(l) => l.min,
                    None => MIN_CLOCK_MIN,
                },
            })
            &&& p[m + 3] == StepView::Commit
        }),
{
    let r = resuming(c);
    assert(online_steps(r) == online_steps(c));
    assert(clock_steps(r).len() == 2);
}

impl Cpu {
    /// The envelope of the highest legal settings.
    pub fn max() -> (r: Self)
        ensures
            r.online,
            r.clock_limits == Some(MinMax { max: MAX_CLOCK_MAX, min: MAX_CLOCK_MIN }),
            r.governor@ == DEFAULT_GOVERNOR@,
            r.index == usize::MAX,
            r.state == idle_state(),
    {
        Cpu {
            online: true,
            clock_limits: Some(MinMax { max: MAX_CLOCK_MAX, min: MAX_CLOCK_MIN }),
            governor: String::from_str(DEFAULT_GOVERNOR),
            index: usize::MAX,
            state: CpuState::new(),
        }
    }

    /// The envelope of the lowest legal settings.
    pub fn min() -> (r: Self)
        ensures
            !r.online,
            r.clock_limits == Some(MinMax { max: MIN_CLOCK_MAX, min: MIN_CLOCK_MIN }),
            r.governor@ == DEFAULT_GOVERNOR@,
            r.index == 0,
            r.state == idle_state(),
    {
        Cpu {
            online: false,
            clock_limits: Some(MinMax { max: MIN_CLOCK_MAX, min: MIN_CLOCK_MIN }),
            governor: String::from_str(DEFAULT_GOVERNOR),
            index: 0,
            state: CpuState::new(),
        }
    }

    /// A core read back from its persisted record; every schema version decodes
    /// the same way.
    pub fn from_json(other: CpuJson, version: u64, i: usize) -> (r: Self)
        ensures
            r.online == other.online,
            r.clock_limits == (match other.clock_limits {
                Some(l) => Some(MinMax { max: l.max, min: l.min }),
                None => None,
            }),
            r.governor == other.governor,
            r.index == i,
            r.state == idle_state(),
    {
        let clock_limits = match other.clock_limits {
            Some(l) => Some(MinMax::from_json(l, version)),
            None => None,
        };
        Cpu {
            online: other.online,
            clock_limits,
            governor: other.governor,
            index: i,
            state: CpuState::new(),
        }
    }

    /// A core as the hardware reports it, with no clock override: `online` is
    /// what its online file read (a core whose file could not be read is
    /// online), `governor` what its governor file read (`schedutil` where it
    /// could not be read).
    pub fn from_sys(cpu_index: usize, online: Option<u8>, governor: Option<String>) -> (r: Self)
        ensures
            r.online == (match online {
                Some(v) => v != 0,
                None => true,
            }),
            r.clock_limits is None,
            r.governor@ == (match governor {
                Some(g) => g@,
                None => DEFAULT_GOVERNOR@,
            }),
            r.index == cpu_index,
            r.state == idle_state(),
    {
        let online = match online {
            Some(v) => v != 0,
            None => true,
        };
        let governor = match governor {
            Some(g) => g,
            None => String::from_str(DEFAULT_GOVERNOR),
        };
        Cpu { online, clock_limits: None, governor, index: cpu_index, state: CpuState::new() }
    }

    /// The persisted record of this core.
    pub fn to_json(self) -> (r: CpuJson)
        ensures
            r.online == self.online,
            r.clock_limits == (match self.clock_limits {
                Some(l) => Some(crate::persist::MinMaxJson { max: l.max, min: l.min }),
                None => None,
            }),
            r.governor == self.governor,
    {
        let clock_limits = match &self.clock_limits {
            Some(l) => Some(l.to_json()),
            None => None,
        };
        CpuJson { online: self.online, clock_limits, governor: self.governor }
    }

    /// Brings the desired clock bounds into the legal ranges: the minimum bound
    /// into the range of the envelopes' minimum fields, the maximum bound into
    /// that of their maximum fields.
    pub fn clamp_all(&mut self)
        ensures
            final(self).clock_limits == (match old(self).clock_limits {
                Some(l) => Some(clamped_limits(l)),
                None => None,
            }),
            final(self).online == old(self).online,
            final(self).governor == old(self).governor,
            final(self).index == old(self).index,
            final(self).state == old(self).state,
    {
        let min = Self::min();
        let max = Self::max();
        match (min.clock_limits, max.clock_limits) {
            (Some(min_boost), Some(max_boost)) => {
                if let Some(l) = self.clock_limits {
                    self.clock_limits = Some(MinMax {
                        min: clamp(l.min, min_boost.min, max_boost.min),
                        max: clamp(l.max, min_boost.max, max_boost.max),
                    });
                }
            },
            _ => {},
        }
    }

    /// What a user may set on this core.
    pub fn limits(&self) -> (r: CpuLimits)
        ensures
            r.clock_min_limits == Some(RangeLimit { min: MIN_CLOCK_MIN, max: MAX_CLOCK_MIN }),
            r.clock_max_limits == Some(RangeLimit { min: MIN_CLOCK_MAX, max: MAX_CLOCK_MAX }),
            r.clock_step == CLOCK_STEP,
            r.governors@.len() == 0,
    {
        CpuLimits {
            clock_min_limits: Some(RangeLimit { min: MIN_CLOCK_MIN, max: MAX_CLOCK_MIN }),
            clock_max_limits: Some(RangeLimit { min: MIN_CLOCK_MAX, max: MAX_CLOCK_MAX }),
            clock_step: CLOCK_STEP,
            governors: Vec::new(),
        }
    }

    /// The control-file operations that apply this core as it stands.
    pub fn set_all(&self) -> (r: Vec<Step>)
        ensures
            steps_view(r@) == core_plan(*self),
    {
        let mut v: Vec<Step> = Vec::new();
        if self.index != 0 && self.state.do_set_online {
            v.push(Step::Online { index: self.index, online: self.online });
        }
        assert(steps_view(v@) =~= online_steps(*self));
        v.push(Step::ManualMode);
        let pair = self.index / 2;
        match self.clock_limits {
            Some(l) => {
                v.push(Step::ClockMax { pair, value: l.max });
                v.push(Step::ClockMin { pair, value: l.min });
            },
            None => {
                if self.state.clock_limits_set || self.state.is_resuming {
                    v.push(Step::ClockMax { pair, value: MAX_CLOCK_MAX });
                    v.push(Step::ClockMin { pair, value: MIN_CLOCK_MIN });
                }
            },
        }
        assert(steps_view(v@) =~= online_steps(*self) + seq![StepView::ManualMode] + clock_steps(*self));
        v.push(Step::Commit);
        if self.index == 0 || self.online {
            let g = String::from_str(self.governor.as_str());
            v.push(Step::Governor { index: self.index, governor: g });
        }
        assert(steps_view(v@) =~= core_plan(*self));
        v
    }

    /// Clamps the desired clock bounds, then gives the operations that apply
    /// this core.
    pub fn on_set(&mut self) -> (r: Vec<Step>)
        ensures
            final(self).clock_limits == (match old(self).clock_limits {
                Some(l) => Some(clamped_limits(l)),
                None => None,
            }),
            final(self).online == old(self).online,
            final(self).governor == old(self).governor,
            final(self).index == old(self).index,
            final(self).state == old(self).state,
            steps_view(r@) == core_plan(*final(self)),
    {
        self.clamp_all();
        self.set_all()
    }

    /// The operations that restore this core after a resume: a full apply that
    /// also writes clock bounds that appear unchanged.
    pub fn on_resume(&self) -> (r: Vec<Step>)
        ensures
            steps_view(r@) == core_plan(resuming(*self)),
    {
        let copy = Cpu {
            online: self.online,
            clock_limits: self.clock_limits,
            governor: String::from_str(self.governor.as_str()),
            index: self.index,
            state: CpuState { is_resuming: true, ..self.state },
        };
        let r = copy.set_all();
        assert(core_plan(copy) =~= core_plan(resuming(*self)));
        r
    }

    /// Sets the desired online flag.
    pub fn set_online(&mut self, online: bool)
        ensures
            *final(self) == (Cpu { online, ..*old(self) }),
    {
        self.online = online;
    }

    /// Sets the desired governor.
    pub fn governor(&mut self, governor: String)
        ensures
            *final(self) == (Cpu { governor, ..*old(self) }),
    {
        self.governor = governor;
    }

    /// The desired governor.
    pub fn get_governor(&self) -> (r: &str)
        ensures
            r@ == self.governor@,
    {
        self.governor.as_str()
    }

    /// Sets the desired clock bounds.
    pub fn clock_limits(&mut self, limits: Option<MinMax<u64>>)
        ensures
            *final(self) == (Cpu { clock_limits: limits, ..*old(self) }),
    {
        self.clock_limits = limits;
    }

    /// The desired clock bounds.
    pub fn get_clock_limits(&self) -> (r: Option<&MinMax<u64>>)
        ensures
            r == match self.clock_limits {
                Some(l) => Some(&l),
                None => None::<&MinMax<u64>>,
            },
    {
        match &self.clock_limits {
            Some(l) => Some(l),
            None => None,
        }
    }
}

} // verus!
