use vstd::prelude::*;

use crate::api::CpusLimits;
use crate::apply::{lemma_failure_skips_to_next_core, next_group, reported, ApplyRun};
use crate::cpu::{
    lemma_online_write,
    clamped_limits, core_plan, limits_set_after, manual_step_at, resuming, steps_view, Cpu,
    CpuState, Step, StepView,
};
use crate::error::SettingError;
use crate::min_max::MinMax;
use crate::persist::CpuJson;
use crate::text::{parse_usize, unsigned_value};

verus! {

broadcast use vstd::string::group_string_axioms;

/// Number of cores assumed where the present-CPU range cannot be read or parsed.
pub const DEFAULT_CPU_COUNT: usize = 8;

/// What the hardware reported of one core: the content of its online file and
/// of its governor file, each where it could be read.
pub struct CoreProbe {
    pub online: Option<u8>,
    pub governor: Option<String>,
}

/// All cores of the device and the symmetric-multithreading mode.
#[derive(Debug, Clone)]
pub struct Cpus {
    pub cpus: Vec<Cpu>,
    /// Desired symmetric-multithreading mode.
    pub smt: bool,
    /// The hardware lets the mode be switched.
    pub smt_capable: bool,
}

/// The text after the first dash, if there is one.
pub open spec fn after_first_dash(s: Seq<char>) -> Option<Seq<char>>
    decreases s.len(),
{
    if s.len() == 0 {
        None
    } else if s[0] == '-' {
        Some(s.drop_first())
    } else {
        after_first_dash(s.drop_first())
    }
}

/// The core count that a present-CPU range `<low>-<high>` gives: `high + 1`;
/// the default count where the text has no such form.
pub open spec fn present_count(s: Seq<char>) -> nat {
    match after_first_dash(s) {
        Some(rest) => match unsigned_value(rest) {
            Some(high) => if high < usize::MAX {
                high + 1
            } else {
                DEFAULT_CPU_COUNT as nat
            },
            None => DEFAULT_CPU_COUNT as nat,
        },
        None => DEFAULT_CPU_COUNT as nat,
    }
}

/// Characters that `char::is_whitespace` accepts.
pub open spec fn is_space(c: char) -> bool {
    ('\t' <= c && c <= '\r') || c == ' ' || c == '\u{85}' || c == '\u{a0}' || c == '\u{1680}'
        || ('\u{2000}' <= c && c <= '\u{200a}') || c == '\u{2028}' || c == '\u{2029}'
        || c == '\u{202f}' || c == '\u{205f}' || c == '\u{3000}'
}

/// Whether the text reads `on`, in any case, between whitespace.
pub open spec fn reads_on(s: Seq<char>) -> bool {
    exists|i: int|
        #![trigger s[i]]
        0 <= i && i + 2 <= s.len() && (s[i] == 'o' || s[i] == 'O') && (s[i + 1] == 'n' || s[i
            + 1] == 'N') && (forall|j: int| 0 <= j < i ==> is_space(#[trigger] s[j])) && (forall|
            j: int,
        |
            i + 2 <= j < s.len() ==> is_space(#[trigger] s[j]))
}

/// Core `i` as the hardware probe reports it.
pub open spec fn probed_core(i: int, p: CoreProbe, c: Cpu) -> bool {
    &&& c.online == (match p.online {
        Some(v) => v != 0,
        None => true,
    })
    &&& c.clock_limits is None
    &&& c.governor@ == (match p.governor {
        Some(g) => g@,
        None => crate::cpu::DEFAULT_GOVERNOR@,
    })
    &&& c.index == i
    &&& c.state == crate::cpu::idle_state()
}

/// Core `i` as read back from its persisted record.
pub open spec fn persisted_core(i: int, j: CpuJson, c: Cpu) -> bool {
    &&& c.online == j.online
    &&& c.clock_limits == (match j.clock_limits {
        Some(l) => Some(MinMax { max: l.max, min: l.min }),
        None => None,
    })
    &&& c.governor@ == j.governor@
    &&& c.index == i
    &&& c.state == crate::cpu::idle_state()
}

/// Whether the online flag of core `i` is written in an apply: every core's
/// with multithreading on, only the even (first-thread) cores' with it off.
pub open spec fn online_eligible(smt: bool, i: int) -> bool {
    smt || i % 2 == 0
}

/// Core `c` as an apply of the ensemble leaves it before any write.
pub open spec fn prepared(c: Cpu, eligible: bool) -> Cpu {
    Cpu {
        clock_limits: match c.clock_limits {
            Some(l) => Some(clamped_limits(l)),
            None => None,
        },
        state: CpuState { do_set_online: eligible, ..c.state },
        ..c
    }
}

/// The ensemble-wide steps of an apply: the mode switch, where the hardware has one.
pub open spec fn smt_plan(smt: bool, smt_capable: bool) -> Seq<StepView> {
    if smt_capable {
        seq![StepView::Smt { on: smt }]
    } else {
        seq![]
    }
}

/// Core `c` once a run reached it: where its manual-mode step succeeded, the
/// override flag records whether desired bounds were written.
pub open spec fn settled(c: Cpu, done: Seq<usize>, g: int) -> Cpu {
    if g < done.len() && done[g] > manual_step_at(c) {
        Cpu { state: CpuState { clock_limits_set: limits_set_after(c), ..c.state }, ..c }
    } else {
        c
    }
}

/// The multithreading mode and capability that the control file's content
/// gives.
pub open spec fn smt_status(control: Option<&str>) -> (bool, bool) {
    match control {
        Some(t) => (reads_on(t@), true),
        None => (false, false),
    }
}

/// In an apply of the ensemble, a failed step of core `i` ends that core's
/// operations (none of its later steps, such as its governor write, is
/// performed), and the run goes on with the operations of core `i + 1`.
pub proof fn lemma_core_failure_isolated(
    cpus: Cpus,
    pre: ApplyRun,
    post: ApplyRun,
    cause: String,
    i: int,
)
    requires
        pre.wf(),
        0 <= i < cpus.cpus@.len(),
        pre.groups@.len() == cpus.cpus@.len() + 1,
        forall|k: int|
            0 <= k < cpus.cpus@.len() ==> steps_view(#[trigger] pre.groups@[k + 1]@) == core_plan(
                cpus.cpus@[k],
            ),
        pre.group == i + 1,
        reported(pre, post, Err(cause)),
    ensures
        post.group > pre.group,
        post.done@[i + 1] == pre.at,
        i + 1 < cpus.cpus@.len() ==> post.group == i + 2 && post.at == 0,
{
    lemma_failure_skips_to_next_core(pre, post, cause);
    if i + 1 < cpus.cpus@.len() {
        assert(steps_view(pre.groups@[i + 2]@) == core_plan(cpus.cpus@[i + 1]));
        assert(steps_view(pre.groups@[i + 2]@).len() == pre.groups@[i + 2]@.len());
    }
}

/// In an apply of the ensemble, core `i`'s online flag is written exactly where
/// `i` is not the primary core and either multithreading is on or `i` is even:
/// with it off, no odd core is touched by the online step.
pub proof fn lemma_online_writes_follow_smt(pre: Cpus, post: Cpus, run: ApplyRun, i: int)
    requires
        pre.wf(),
        0 <= i < pre.cpus@.len(),
        post.cpus@.len() == pre.cpus@.len(),
        post.cpus@[i] == prepared(pre.cpus@[i], online_eligible(pre.smt, i)),
        run.groups@.len() == pre.cpus@.len() + 1,
        steps_view(run.groups@[i + 1]@) == core_plan(post.cpus@[i]),
    ensures
        (exists|k: int|
            0 <= k < run.groups@[i + 1]@.len() && (#[trigger] run.groups@[i + 1]@[k])@ is Online)
            <==> (i != 0 && online_eligible(pre.smt, i)),
{
    let c = post.cpus@[i];
    lemma_online_write(c);
    let g = run.groups@[i + 1]@;
    assert forall|k: int| 0 <= k < g.len() implies (#[trigger] g[k])@ == core_plan(c)[k] by {
        assert(steps_view(g)[k] == g[k]@);
    }
    if i != 0 && online_eligible(pre.smt, i) {
        let k = choose|k: int| 0 <= k < core_plan(c).len() && (#[trigger] core_plan(c)[k]) is Online;
        assert(g[k]@ is Online);
    }
    if exists|k: int| 0 <= k < g.len() && (#[trigger] g[k])@ is Online {
        let k = choose|k: int| 0 <= k < g.len() && (#[trigger] g[k])@ is Online;
        assert(core_plan(c)[k] is Online);
    }
}

fn is_space_char(c: char) -> (r: bool)
    ensures
        r == is_space(c),
{
    ('\t' <= c && c <= '\r') || c == ' ' || c == '\u{85}' || c == '\u{a0}' || c == '\u{1680}'
        || ('\u{2000}' <= c && c <= '\u{200a}') || c == '\u{2028}' || c == '\u{2029}'
        || c == '\u{202f}' || c == '\u{205f}' || c == '\u{3000}'
}

proof fn lemma_after_dash_step(s: Seq<char>, i: int)
    requires
        0 <= i < s.len(),
    ensures
        s.subrange(i, s.len() as int).drop_first() =~= s.subrange(i + 1, s.len() as int),
        s[i] == '-' ==> after_first_dash(s.subrange(i, s.len() as int)) == Some(
            s.subrange(i + 1, s.len() as int),
        ),
        s[i] != '-' ==> after_first_dash(s.subrange(i, s.len() as int)) == after_first_dash(
            s.subrange(i + 1, s.len() as int),
        ),
{
    assert(s.subrange(i, s.len() as int).drop_first() =~= s.subrange(i + 1, s.len() as int));
}

impl Cpus {
    /// Cores stand at their own index.
    pub open spec fn wf(&self) -> bool {
        forall|i: int| 0 <= i < self.cpus@.len() ==> (#[trigger] self.cpus@[i]).index == i
    }

    /// The number of cores that a present-CPU range gives (`"0-7"` gives 8);
    /// `present` is `None` where the range could not be read. A range that
    /// cannot be read or parsed gives the default count.
    pub fn cpu_count(present: Option<&str>) -> (r: usize)
        ensures
            r == match present {
                Some(t) => present_count(t@),
                None => DEFAULT_CPU_COUNT as nat,
            },
    {
        let text = match present {
            Some(t) => t,
            None => return DEFAULT_CPU_COUNT,
        };
        let n = text.unicode_len();
        let mut i: usize = 0;
        assert(text@.subrange(0, n as int) =~= text@);
        while i < n && text.get_char(i) != '-'
            invariant
                i <= n,
                n == text@.len(),
                after_first_dash(text@) == after_first_dash(text@.subrange(i as int, n as int)),
            decreases n - i,
        {
            proof { lemma_after_dash_step(text@, i as int); }
            i = i + 1;
        }
        if i == n {
            assert(text@.subrange(i as int, n as int).len() == 0);
            return DEFAULT_CPU_COUNT;
        }
        proof { lemma_after_dash_step(text@, i as int); }
        let rest = text.substring_char(i + 1, n);
        match parse_usize(rest) {
            Some(high) => if high < usize::MAX {
                high + 1
            } else {
                DEFAULT_CPU_COUNT
            },
            None => DEFAULT_CPU_COUNT,
        }
    }

    /// The symmetric-multithreading mode and whether the hardware can switch
    /// it, from the content of its control file (`None` where it could not be
    /// read, which means no such control).
    pub fn system_smt_capabilities(control: Option<&str>) -> (r: (bool, bool))
        ensures
            r == smt_status(control),
    {
        match control {
            Some(t) => (text_reads_on(t), true),
            None => (false, false),
        }
    }

    /// The ensemble as the hardware reports it: one core per probe, in order,
    /// and the multithreading mode from its control file.
    pub fn system_default(probes: &Vec<CoreProbe>, smt_control: Option<&str>) -> (r: Self)
        ensures
            r.wf(),
            r.cpus@.len() == probes@.len(),
            forall|i: int| 0 <= i < probes@.len() ==> probed_core(i, #[trigger] probes@[i], r.cpus@[i]),
            (r.smt, r.smt_capable) == smt_status(smt_control),
    {
        let mut cpus: Vec<Cpu> = Vec::new();
        let mut i: usize = 0;
        while i < probes.len()
            invariant
                i <= probes@.len(),
                cpus@.len() == i,
                forall|k: int| 0 <= k < i ==> probed_core(k, #[trigger] probes@[k], cpus@[k]),
            decreases probes@.len() - i,
        {
            let p = &probes[i];
            let governor = match &p.governor {
                Some(g) => Some(String::from_str(g.as_str())),
                None => None,
            };
            cpus.push(Cpu::from_sys(i, p.online, governor));
            i = i + 1;
        }
        let (smt, smt_capable) = Self::system_smt_capabilities(smt_control);
        assert forall|k: int| 0 <= k < cpus@.len() implies (#[trigger] cpus@[k]).index == k by {
            assert(probed_core(k, probes@[k], cpus@[k]));
        }
        Cpus { cpus, smt, smt_capable }
    }

    /// The ensemble read back from persisted records, fitted to the hardware
    /// reported in `system`: records beyond its core count are dropped, and
    /// missing cores are taken from it in ascending order.
    pub fn from_json(other: Vec<CpuJson>, version: u64, system: Cpus) -> (r: Self)
        requires
            system.wf(),
        ensures
            r.wf(),
            r.cpus@.len() == system.cpus@.len(),
            forall|i: int|
                0 <= i < r.cpus@.len() && i < other@.len() ==> persisted_core(
                    i,
                    #[trigger] other@[i],
                    r.cpus@[i],
                ),
            forall|i: int|
                other@.len() <= i < r.cpus@.len() ==> #[trigger] r.cpus@[i] == system.cpus@[i],
            r.smt,
            r.smt_capable == system.smt_capable,
    {
        let count = system.cpus.len();
        let mut result: Vec<Cpu> = Vec::new();
        let mut i: usize = 0;
        while i < other.len() && i < count
            invariant
                i <= other@.len(),
                i <= count,
                result@.len() == i,
                forall|k: int| 0 <= k < i ==> persisted_core(k, #[trigger] other@[k], result@[k]),
            decreases count - i,
        {
            let j = &other[i];
            let record = CpuJson {
                online: j.online,
                clock_limits: j.clock_limits,
                governor: String::from_str(j.governor.as_str()),
            };
            result.push(Cpu::from_json(record, version, i));
            i = i + 1;
        }
        let mut sys = system.cpus;
        let mut tail = sys.split_off(i);
        result.append(&mut tail);
        assert forall|k: int| 0 <= k < result@.len() implies (#[trigger] result@[k]).index == k by {
            if k < i {
                assert(persisted_core(k, other@[k], result@[k]));
            } else {
                assert(result@[k] == system.cpus@[k]);
            }
        }
        Cpus { cpus: result, smt: true, smt_capable: system.smt_capable }
    }

    /// What a user may set on the ensemble.
    pub fn limits(&self) -> (r: CpusLimits)
        ensures
            r.cpus@.len() == self.cpus@.len(),
            r.count == self.cpus@.len(),
            r.smt_capable == self.smt_capable,
            forall|i: int| 0 <= i < r.cpus@.len() ==> {
                &&& (#[trigger] r.cpus@[i]).clock_min_limits == Some(crate::api::RangeLimit {
                    min: crate::cpu::MIN_CLOCK_MIN,
                    max: crate::cpu::MAX_CLOCK_MIN,
                })
                &&& r.cpus@[i].clock_max_limits == Some(crate::api::RangeLimit {
                    min: crate::cpu::MIN_CLOCK_MAX,
                    max: crate::cpu::MAX_CLOCK_MAX,
                })
                &&& r.cpus@[i].clock_step == crate::cpu::CLOCK_STEP
                &&& r.cpus@[i].governors@.len() == 0
            },
    {
        let mut cpus: Vec<crate::api::CpuLimits> = Vec::new();
        let mut i: usize = 0;
        while i < self.cpus.len()
            invariant
                i <= self.cpus@.len(),
                cpus@.len() == i,
                forall|k: int| 0 <= k < i ==> {
                    &&& (#[trigger] cpus@[k]).clock_min_limits == Some(crate::api::RangeLimit {
                        min: crate::cpu::MIN_CLOCK_MIN,
                        max: crate::cpu::MAX_CLOCK_MIN,
                    })
                    &&& cpus@[k].clock_max_limits == Some(crate::api::RangeLimit {
                        min: crate::cpu::MIN_CLOCK_MAX,
                        max: crate::cpu::MAX_CLOCK_MAX,
                    })
                    &&& cpus@[k].clock_step == crate::cpu::CLOCK_STEP
                    &&& cpus@[k].governors@.len() == 0
                },
            decreases self.cpus@.len() - i,
        {
            cpus.push(self.cpus[i].limits());
            i = i + 1;
        }
        CpusLimits { cpus, count: self.cpus.len(), smt_capable: self.smt_capable }
    }

    /// The persisted records of the cores, in order.
    pub fn json(&self) -> (r: Vec<CpuJson>)
        ensures
            r@.len() == self.cpus@.len(),
            forall|i: int|
                0 <= i < r@.len() ==> {
                    &&& (#[trigger] r@[i]).online == self.cpus@[i].online
                    &&& r@[i].governor@ == self.cpus@[i].governor@
                    &&& r@[i].clock_limits == match self.cpus@[i].clock_limits {
                        Some(l) => Some(crate::persist::MinMaxJson { max: l.max, min: l.min }),
                        None => None,
                    }
                },
    {
        let mut out: Vec<CpuJson> = Vec::new();
        let mut i: usize = 0;
        while i < self.cpus.len()
            invariant
                i <= self.cpus@.len(),
                out@.len() == i,
                forall|k: int|
                    0 <= k < i ==> {
                        &&& (#[trigger] out@[k]).online == self.cpus@[k].online
                        &&& out@[k].governor@ == self.cpus@[k].governor@
                        &&& out@[k].clock_limits == match self.cpus@[k].clock_limits {
                            Some(l) => Some(crate::persist::MinMaxJson { max: l.max, min: l.min }),
                            None => None,
                        }
                    },
            decreases self.cpus@.len() - i,
        {
            let c = &self.cpus[i];
            let clock_limits = match &c.clock_limits {
                Some(l) => Some(l.to_json()),
                None => None,
            };
            out.push(CpuJson {
                online: c.online,
                clock_limits,
                governor: String::from_str(c.governor.as_str()),
            });
            i = i + 1;
        }
        out
    }


    /// Starts an apply of the ensemble: marks which cores have their online flag
    /// written, clamps each core's clock bounds, and lays out the operations:
    /// the mode switch first, then each core's in index order.
    pub fn on_set(&mut self) -> (r: ApplyRun)
        ensures
            final(self).cpus@.len() == old(self).cpus@.len(),
            final(self).smt == old(self).smt,
            final(self).smt_capable == old(self).smt_capable,
            forall|i: int|
                0 <= i < old(self).cpus@.len() ==> #[trigger] final(self).cpus@[i] == prepared(
                    old(self).cpus@[i],
                    online_eligible(old(self).smt, i),
                ),
            r.wf(),
            r.groups@.len() == old(self).cpus@.len() + 1,
            steps_view(r.groups@[0]@) == smt_plan(old(self).smt, old(self).smt_capable),
            forall|i: int|
                0 <= i < old(self).cpus@.len() ==> steps_view(#[trigger] r.groups@[i + 1]@)
                    == core_plan(final(self).cpus@[i]),
            r.group == next_group(r.groups@, 0),
            r.at == 0,
            r.done@ == Seq::new(r.groups@.len(), |i: int| 0usize),
            r.error is None,
    {
        let mut groups: Vec<Vec<Step>> = Vec::new();
        let mut head: Vec<Step> = Vec::new();
        if self.smt_capable {
            head.push(Step::Smt { on: self.smt });
        }
        assert(steps_view(head@) =~= smt_plan(self.smt, self.smt_capable));
        groups.push(head);
        let n = self.cpus.len();
        let mut i: usize = 0;
        while i < n
            invariant
                n == old(self).cpus@.len(),
                self.cpus@.len() == n,
                self.smt == old(self).smt,
                self.smt_capable == old(self).smt_capable,
                i <= n,
                groups@.len() == i + 1,
                steps_view(groups@[0]@) == smt_plan(self.smt, self.smt_capable),
                forall|k: int|
                    0 <= k < i ==> #[trigger] self.cpus@[k] == prepared(
                        old(self).cpus@[k],
                        online_eligible(old(self).smt, k),
                    ),
                forall|k: int| i <= k < n ==> #[trigger] self.cpus@[k] == old(self).cpus@[k],
                forall|k: int|
                    0 <= k < i ==> steps_view(#[trigger] groups@[k + 1]@) == core_plan(
                        self.cpus@[k],
                    ),
            decreases n - i,
        {
            let ghost before = self.cpus@;
            let mut c = self.cpus.remove(i);
            let eligible = self.smt || i % 2 == 0;
            c.state.do_set_online = eligible;
            let plan = c.on_set();
            self.cpus.insert(i, c);
            assert(self.cpus@ =~= before.update(i as int, c));
            groups.push(plan);
            i = i + 1;
        }
        ApplyRun::new(groups)
    }


    /// Ends an apply of the ensemble: a core whose manual-mode step succeeded
    /// records whether desired clock bounds are now in force; the result is the
    /// first failure of the run, if any.
    pub fn finish_set(&mut self, run: ApplyRun) -> (r: Result<(), SettingError>)
        ensures
            final(self).cpus@.len() == old(self).cpus@.len(),
            final(self).smt == old(self).smt,
            final(self).smt_capable == old(self).smt_capable,
            forall|i: int|
                0 <= i < old(self).cpus@.len() ==> #[trigger] final(self).cpus@[i] == settled(
                    old(self).cpus@[i],
                    run.done@,
                    i + 1,
                ),
            r == match run.error {
                Some(e) => Err::<(), SettingError>(e),
                None => Ok(()),
            },
    {
        let n = self.cpus.len();
        let mut i: usize = 0;
        while i < n
            invariant
                n == old(self).cpus@.len(),
                self.cpus@.len() == n,
                self.smt == old(self).smt,
                self.smt_capable == old(self).smt_capable,
                i <= n,
                forall|k: int|
                    0 <= k < i ==> #[trigger] self.cpus@[k] == settled(
                        old(self).cpus@[k],
                        run.done@,
                        k + 1,
                    ),
                forall|k: int| i <= k < n ==> #[trigger] self.cpus@[k] == old(self).cpus@[k],
            decreases n - i,
        {
            let ghost before = self.cpus@;
            let mut c = self.cpus.remove(i);
            let manual_at: usize = if c.index != 0 && c.state.do_set_online { 1 } else { 0 };
            if i + 1 < run.done.len() && run.done[i + 1] > manual_at {
                c.state.clock_limits_set = c.clock_limits.is_some();
            }
            self.cpus.insert(i, c);
            assert(self.cpus@ =~= before.update(i as int, c));
            i = i + 1;
        }
        run.outcome()
    }

    /// The operations that restore the ensemble after a resume: each core's
    /// full apply, in index order, clock bounds included.
    pub fn on_resume(&self) -> (r: ApplyRun)
        ensures
            r.wf(),
            r.groups@.len() == self.cpus@.len() + 1,
            r.groups@[0]@.len() == 0,
            forall|i: int|
                0 <= i < self.cpus@.len() ==> steps_view(#[trigger] r.groups@[i + 1]@)
                    == core_plan(resuming(self.cpus@[i])),
            r.group == next_group(r.groups@, 0),
            r.at == 0,
            r.done@ == Seq::new(r.groups@.len(), |i: int| 0usize),
            r.error is None,
    {
        let mut groups: Vec<Vec<Step>> = Vec::new();
        groups.push(Vec::new());
        let n = self.cpus.len();
        let mut i: usize = 0;
        while i < n
            invariant
                n == self.cpus@.len(),
                i <= n,
                groups@.len() == i + 1,
                groups@[0]@.len() == 0,
                forall|k: int|
                    0 <= k < i ==> steps_view(#[trigger] groups@[k + 1]@) == core_plan(
                        resuming(self.cpus@[k]),
                    ),
            decreases n - i,
        {
            groups.push(self.cpus[i].on_resume());
            i = i + 1;
        }
        ApplyRun::new(groups)
    }

    /// The number of cores.
    pub fn len(&self) -> (r: usize)
        ensures
            r == self.cpus@.len(),
    {
        self.cpus.len()
    }
}

fn text_reads_on(t: &str) -> (r: bool)
    ensures
        r == reads_on(t@),
{
    let n = t.unicode_len();
    let mut lo: usize = 0;
    while lo < n && is_space_char(t.get_char(lo))
        invariant
            lo <= n,
            n == t@.len(),
            forall|j: int| 0 <= j < lo ==> is_space(#[trigger] t@[j]),
        decreases n - lo,
    {
        lo = lo + 1;
    }
    let ghost s = t@;
    if lo >= n || n - lo < 2 {
        assert(!reads_on(s)) by {
            assert forall|i: int|
                #![trigger s[i]]
                0 <= i && i + 2 <= s.len() && (s[i] == 'o' || s[i] == 'O') && (forall|j: int|
                    0 <= j < i ==> is_space(#[trigger] s[j])) implies false by {
                if i < lo {
                    assert(is_space(s[i]));
                } else {
                    assert(lo < n ==> !is_space(s[lo as int]));
                    if (lo as int) < i {
                        assert(is_space(s[lo as int]));
                    }
                }
            }
        }
        return false;
    }
    let a = t.get_char(lo);
    let b = t.get_char(lo + 1);
    if !((a == 'o' || a == 'O') && (b == 'n' || b == 'N')) {
        assert(!reads_on(s)) by {
            assert forall|i: int|
                #![trigger s[i]]
                0 <= i && i + 2 <= s.len() && (s[i] == 'o' || s[i] == 'O') && (s[i + 1] == 'n'
                    || s[i + 1] == 'N') && (forall|j: int|
                    0 <= j < i ==> is_space(#[trigger] s[j])) implies false by {
                if i < lo {
                    assert(is_space(s[i]));
                } else if (lo as int) < i {
                    assert(is_space(s[lo as int]));
                }
            }
        }
        return false;
    }
    let mut k: usize = lo + 2;
    while k < n
        invariant
            lo + 2 <= k <= n,
            n == t@.len(),
            !is_space(s[lo as int]),
            forall|j: int| 0 <= j < lo ==> is_space(#[trigger] s[j]),
            s == t@,
            forall|j: int| lo + 2 <= j < k ==> is_space(#[trigger] s[j]),
        decreases n - k,
    {
        if !is_space_char(t.get_char(k)) {
            assert(!reads_on(s)) by {
                assert forall|i: int|
                    #![trigger s[i]]
                    0 <= i && i + 2 <= s.len() && (s[i] == 'o' || s[i] == 'O') && (forall|j: int|
                        0 <= j < i ==> is_space(#[trigger] s[j])) && (forall|j: int|
                        i + 2 <= j < s.len() ==> is_space(#[trigger] s[j])) implies false by {
                    if i < lo {
                        assert(is_space(s[i]));
                    } else if (lo as int) < i {
                        assert(is_space(s[lo as int]));
                    } else {
                        assert(is_space(s[k as int]));
                    }
                }
            }
            return false;
        }
        k = k + 1;
    }
    assert(s[lo as int] == a && s[lo + 1] == b);
    true
}

} // verus!
