use vstd::prelude::*;

use crate::cpu::{step_path, step_text, Step, StepView};
use crate::error::{SettingError, SettingVariant};

verus! {

/// The first group at or after `g` that holds a step, or the number of groups.
pub open spec fn next_group(groups: Seq<Vec<Step>>, g: int) -> int
    decreases groups.len() - g,
{
    if g >= groups.len() {
        groups.len() as int
    } else if groups[g]@.len() > 0 {
        g
    } else {
        next_group(groups, g + 1)
    }
}

/// The cause reported for a step whose write failed.
pub open spec fn failure_message(s: StepView, cause: Seq<char>) -> Seq<char> {
    "Failed to write `"@ + step_text(s) + "` to `"@ + step_path(s) + "`: "@ + cause
}

/// An apply in progress: the operations, in groups, and how far they got.
///
/// Group 0 holds the ensemble-wide operations, and a failure there ends the
/// run. Each later group holds the operations of one core: a failure skips the
/// rest of that group, and the run goes on with the next one. The first
/// failure is kept.
pub struct ApplyRun {
    pub groups: Vec<Vec<Step>>,
    /// The group of the next step.
    pub group: usize,
    /// The position of the next step in its group.
    pub at: usize,
    /// For each group, how many of its steps succeeded.
    pub done: Vec<usize>,
    /// The first failure.
    pub error: Option<SettingError>,
}

impl ApplyRun {
    pub open spec fn wf(&self) -> bool {
        &&& self.done@.len() == self.groups@.len()
        &&& 0 <= next_group(self.groups@, self.group as int)
        &&& self.group <= self.groups@.len()
        &&& self.group < self.groups@.len() ==> {
            &&& self.at < self.groups@[self.group as int]@.len()
            &&& self.done@[self.group as int] == self.at
        }
        &&& forall|g: int|
            0 <= g < self.groups@.len() ==> #[trigger] self.done@[g] <= self.groups@[g]@.len()
        &&& forall|g: int| self.group < g < self.groups@.len() ==> #[trigger] self.done@[g] == 0
    }

    pub open spec fn finished(&self) -> bool {
        self.group == self.groups@.len()
    }

    /// The step that comes next.
    pub open spec fn next_step(&self) -> Step {
        self.groups@[self.group as int]@[self.at as int]
    }

    /// A run at the first step of `groups`.
    pub fn new(groups: Vec<Vec<Step>>) -> (r: Self)
        ensures
            r.wf(),
            r.groups@ == groups@,
            r.group == next_group(groups@, 0),
            r.at == 0,
            r.done@ == Seq::new(groups@.len(), |i: int| 0usize),
            r.error is None,
    {
        let mut done: Vec<usize> = Vec::new();
        let mut i: usize = 0;
        while i < groups.len()
            invariant
                i <= groups@.len(),
                done@ == Seq::new(i as nat, |k: int| 0usize),
            decreases groups@.len() - i,
        {
            done.push(0);
            i = i + 1;
            assert(done@ =~= Seq::new(i as nat, |k: int| 0usize));
        }
        let group = skip_empty(&groups, 0);
        proof {
            lemma_next_group_bounds(groups@, 0);
            if group < groups@.len() {
                lemma_next_group_nonempty(groups@, 0);
            }
        }
        ApplyRun { groups, group, at: 0, done, error: None }
    }

    /// The step to perform next; none once the run is over.
    pub fn current(&self) -> (r: Option<&Step>)
        requires
            self.wf(),
        ensures
            self.finished() ==> r is None,
            !self.finished() ==> r == Some(&self.next_step()),
    {
        if self.group < self.groups.len() {
            Some(&self.groups[self.group][self.at])
        } else {
            None
        }
    }

    /// Takes in the result of the current step.
    pub fn report(&mut self, result: Result<(), String>)
        requires
            old(self).wf(),
            !old(self).finished(),
        ensures
            final(self).wf(),
            final(self).groups@ == old(self).groups@,
            reported(*old(self), *final(self), result),
    {
        let ghost g = self.group as int;
        let total = self.groups.len();
        proof { lemma_next_group_bounds(self.groups@, g + 1); }
        match result {
            Ok(()) => {
                let len = self.groups[self.group].len();
                let n = self.done[self.group];
                self.done.set(self.group, n + 1);
                if self.at + 1 < len {
                    self.at = self.at + 1;
                } else {
                    self.group = skip_empty(&self.groups, self.group + 1);
                    self.at = 0;
                }
            },
            Err(cause) => {
                if self.error.is_none() {
                    let step = &self.groups[self.group][self.at];
                    let mut msg = String::from_str("Failed to write `");
                    let text = step.text();
                    msg.append(text.as_str());
                    msg.append("` to `");
                    let path = step.path();
                    msg.append(path.as_str());
                    msg.append("`: ");
                    msg.append(cause.as_str());
                    self.error = Some(SettingError { msg, setting: SettingVariant::Cpu });
                }
                if self.group == 0 {
                    self.group = self.groups.len();
                } else {
                    self.group = skip_empty(&self.groups, self.group + 1);
                }
                self.at = 0;
            },
        }
        proof {
            if self.group != g && self.group < self.groups@.len() {
                lemma_next_group_nonempty(self.groups@, g + 1);
            }
        }
    }

    /// The result of a finished run: its first failure, if any.
    pub fn outcome(self) -> (r: Result<(), SettingError>)
        ensures
            r == match self.error {
                Some(e) => Err::<(), SettingError>(e),
                None => Ok(()),
            },
    {
        match self.error {
            Some(e) => Err(e),
            None => Ok(()),
        }
    }
}

/// How one report moves a run: a success counts the step and moves to the next
/// one; a failure keeps the first error and leaves the group (the whole run, in
/// group 0).
pub open spec fn reported(pre: ApplyRun, post: ApplyRun, result: Result<(), String>) -> bool {
    let g = pre.group as int;
    match result {
        Ok(_) => {
            &&& post.done@ == pre.done@.update(g, (pre.at + 1) as usize)
            &&& post.error == pre.error
            &&& if pre.at + 1 < pre.groups@[g]@.len() {
                post.group == pre.group && post.at == pre.at + 1
            } else {
                post.group == next_group(pre.groups@, g + 1) && post.at == 0
            }
        },
        Err(cause) => {
            &&& post.done@ == pre.done@
            &&& post.group == if g == 0 {
                pre.groups@.len() as int
            } else {
                next_group(pre.groups@, g + 1)
            }
            &&& post.at == 0
            &&& pre.error is Some ==> post.error == pre.error
            &&& pre.error is None ==> (post.error matches Some(e) && e.setting == SettingVariant::Cpu
                && e.msg@ == failure_message(pre.next_step()@, cause@))
        },
    }
}

/// Each report moves a run forward: to a later step of the same group, or to a
/// later group. A run never comes back to a step it has left.
pub proof fn lemma_run_moves_forward(pre: ApplyRun, post: ApplyRun, result: Result<(), String>)
    requires
        pre.wf(),
        !pre.finished(),
        reported(pre, post, result),
    ensures
        post.group > pre.group || (post.group == pre.group && post.at > pre.at),
{
    lemma_next_group_bounds(pre.groups@, pre.group + 1);
}

/// A failed step of a core ends that core's operations: none of its later steps
/// is counted, and the run goes on with the next core's operations.
pub proof fn lemma_failure_skips_to_next_core(pre: ApplyRun, post: ApplyRun, cause: String)
    requires
        pre.wf(),
        !pre.finished(),
        pre.group >= 1,
        reported(pre, post, Err(cause)),
    ensures
        post.group > pre.group,
        post.done@[pre.group as int] == pre.at,
        pre.group + 1 < pre.groups@.len() && pre.groups@[pre.group + 1]@.len() > 0 ==> post.group
            == pre.group + 1 && post.at == 0,
{
    lemma_next_group_bounds(pre.groups@, pre.group + 1);
}

proof fn lemma_next_group_bounds(groups: Seq<Vec<Step>>, g: int)
    requires
        0 <= g,
    ensures
        g <= groups.len() ==> g <= next_group(groups, g) <= groups.len(),
        g > groups.len() ==> next_group(groups, g) == groups.len(),
    decreases groups.len() - g,
{
    if g < groups.len() && groups[g]@.len() == 0 {
        lemma_next_group_bounds(groups, g + 1);
    }
}

proof fn lemma_next_group_nonempty(groups: Seq<Vec<Step>>, g: int)
    requires
        0 <= g,
        next_group(groups, g) < groups.len(),
    ensures
        groups[next_group(groups, g)]@.len() > 0,
        forall|k: int| g <= k < next_group(groups, g) ==> #[trigger] groups[k]@.len() == 0,
    decreases groups.len() - g,
{
    if g < groups.len() && groups[g]@.len() == 0 {
        lemma_next_group_nonempty(groups, g + 1);
    }
}

fn skip_empty(groups: &Vec<Vec<Step>>, g: usize) -> (r: usize)
    requires
        g <= groups@.len(),
    ensures
        r == next_group(groups@, g as int),
{
    let mut i = g;
    while i < groups.len() && groups[i].len() == 0
        invariant
            g <= i <= groups@.len(),
            next_group(groups@, g as int) == next_group(groups@, i as int),
        decreases groups@.len() - i,
    {
        i = i + 1;
    }
    i
}

} // verus!
